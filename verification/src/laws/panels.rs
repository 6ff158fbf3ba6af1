//! Laws of the panels: what stands in which place.
use vstd::prelude::*;

use crate::bus::NtripStatus;
use crate::ieee::{Real32, Real64};
use crate::laws::caster::usable;
use crate::laws::{
    lemma_mentions, lemma_mentions_across, lemma_mentions_first, lemma_mentions_more, mentions,
};
use crate::span::Span;
use crate::state::{entries_of, Decoded, Decodes, GnssState, NtripUi, RtcmTypeStat};
use crate::text::dec;
use crate::ui::bottom_tabs::{acknowledge, strip, TabButton};
use crate::ui::log_pane::line_ink;
use crate::ui::plot_panel::{chart_stats, graph_label, record_label};
use crate::ui::rtcm_inspector::{
    antenna_rows, base_rows, baseline_text, biases_row, fmt_age, fmt_baseline, fmt_hz,
    position_text, receiver_text, text_row, totals, totals_strip, type_table, user_position,
    BaseTexts, PanelRow, TotalsStrip, TypeRow,
};
use crate::ui::status_strip::{
    advance_activity, bar_fill_level, bar_stroke_color, classify_stream, cluster_caption,
    fix_label, fix_quality_color, hint_caption, slot_decimals, slot_figure, slot_hint, slot_value,
    stream_view, Figure, ReceiverPresence, SlotHint, StreamActivity, StreamView,
};
use crate::ui::stream_summary::{summary_line, visible, Base, Health};
use crate::ui::text::contains_ignore_ascii_case;
use crate::ui::theme::{Color, DANGER, INK_MUTED, INK_PRIMARY, INK_SECONDARY, SUCCESS, WARNING};
use crate::vocab::{BottomTab, DisplayId};

verus! {

/// Each type has one row, in the order of the types, with its own count, its
/// last length, and the time since it was last seen.
pub proof fn law_type_rows_are_the_types(
    n: &NtripUi,
    now: u64,
    r: Vec<TypeRow>,
    e: Vec<(u16, RtcmTypeStat)>,
    i: int,
)
    requires
        call_ensures(type_table, (n, now), r),
        call_ensures(entries_of, (&n.rtcm,), e),
        0 <= i < e@.len(),
    ensures
        r@.len() == e@.len(),
        r@[i].ty == e@[i].0,
        n.rtcm@.contains_key(r@[i].ty),
        r@[i].count == n.rtcm@[r@[i].ty].count,
        r@[i].last_frame_len == n.rtcm@[r@[i].ty].last_frame_len,
        n.rtcm@[r@[i].ty].last_seen <= now ==> n.rtcm@[r@[i].ty].last_seen + r@[i].age.nanos == now,
        n.rtcm@[r@[i].ty].last_seen > now ==> r@[i].age.nanos == 0,
{
    assert(r@[i] == r@[i]);
    assert(e@[i] == e@[i]);
}

/// The totals are the number of types and the sum of their counts: a type that
/// is seen once more adds one, a new type adds itself.
pub proof fn law_totals_sum_the_counts(n: &NtripUi, r: (usize, u64), e: Vec<(u16, RtcmTypeStat)>)
    requires
        call_ensures(totals, (n,), r),
        call_ensures(entries_of, (&n.rtcm,), e),
        crate::ui::rtcm_inspector::frame_total(crate::state::stat_rows(n.rtcm@)) <= u64::MAX,
    ensures
        r.0 == e@.len(),
        e@.len() == 0 ==> r.1 == 0,
        e@.len() == 1 ==> r.1 == e@[0].1.count,
        e@.len() == 2 ==> r.1 == e@[0].1.count + e@[1].1.count,
        e@.len() > 0 ==> r.1 == sum_counts(e@.drop_last()) + e@.last().1.count,
{
    lemma_sum(e@);
    reveal_with_fuel(sum_counts, 3);
}

/// The sum of counts.
pub open spec fn sum_counts(e: Seq<(u16, RtcmTypeStat)>) -> nat
    decreases e.len(),
{
    if e.len() == 0 {
        0
    } else {
        e[0].1.count as nat + sum_counts(e.skip(1))
    }
}

proof fn lemma_sum(e: Seq<(u16, RtcmTypeStat)>)
    ensures
        crate::ui::rtcm_inspector::frame_total(e) == sum_counts(e),
        e.len() > 0 ==> sum_counts(e) == sum_counts(e.drop_last()) + e.last().1.count,
    decreases e.len(),
{
    if e.len() == 1 {
        assert(e.drop_last() =~= Seq::empty());
        assert(e.skip(1) =~= Seq::empty());
        reveal_with_fuel(crate::ui::rtcm_inspector::frame_total, 2);
        reveal_with_fuel(sum_counts, 2);
    } else if e.len() > 1 {
        lemma_sum(e.drop_last());
        lemma_sum(e.skip(1));
        assert(e.skip(1).drop_last() =~= e.drop_last().skip(1));
        assert(e.skip(1).last() == e.last());
    }
}

/// The strip tells the totals, and each kind of framing error by itself, with
/// a mark where there were any.
pub proof fn law_totals_strip_tells_the_errors(n: &NtripUi, r: TotalsStrip, t: (usize, u64))
    requires
        call_ensures(totals_strip, (n,), r),
        call_ensures(totals, (n,), t),
        crate::ui::rtcm_inspector::frame_total(crate::state::stat_rows(n.rtcm@)) <= u64::MAX,
    ensures
        r.totals@ == dec(t.0 as nat) + " types, "@ + dec(t.1 as nat) + " frames"@,
        mentions(r.crc@, dec(n.rtcm_crc_failures as nat)) && mentions(r.crc@, "CRC"@),
        mentions(r.garbage@, dec(n.rtcm_garbage_bytes as nat)) && mentions(r.garbage@, "garbage"@),
        r.crc_alert <==> n.rtcm_crc_failures != 0,
        r.garbage_alert <==> n.rtcm_garbage_bytes != 0,
{
    let e = Seq::<char>::empty();
    lemma_mentions("CRC failures: "@, dec(n.rtcm_crc_failures as nat), e);
    assert("CRC failures: "@ + dec(n.rtcm_crc_failures as nat) + e =~= r.crc@);
    lemma_mentions("garbage bytes: "@, dec(n.rtcm_garbage_bytes as nat), e);
    assert("garbage bytes: "@ + dec(n.rtcm_garbage_bytes as nat) + e =~= r.garbage@);
    reveal_strlit("CRC failures: ");
    reveal_strlit("garbage bytes: ");
    reveal_strlit("CRC");
    reveal_strlit("garbage");
    assert(r.crc@.take(3) =~= "CRC"@);
    lemma_mentions_first(r.crc@, "CRC"@);
    assert(r.garbage@.take(7) =~= "garbage"@);
    lemma_mentions_first(r.garbage@, "garbage"@);
}

proof fn lemma_rows(v: Seq<PanelRow>)
    ensures
        crate::ui::rtcm_inspector::row_views(v).len() == v.len(),
        forall|i: int|
            0 <= i < v.len() ==> {
                let x = crate::ui::rtcm_inspector::row_views(v)[i];
                (#[trigger] v[i]).label@ == x.0 && v[i].value@ == x.1 && v[i].weak == x.2
            },
{
}

/// The base panel shows the station, the position and the baseline, each in
/// its row, and the antenna's height where the message has one.
pub proof fn law_base_rows(d: &Decodes, t: BaseTexts, r: Vec<PanelRow>)
    requires
        call_ensures(base_rows, (d, t), r),
    ensures
        d.base matches Some(Decoded::BasePosition { station_id, is_1006, antenna_height_m, .. })
            ==> {
            let n = r@.len() as int;
            &&& n == if antenna_height_m is Some {
                4int
            } else {
                3
            }
            &&& mentions(r@[0].value@, dec(station_id as nat))
            &&& is_1006 ==> mentions(r@[0].value@, "1006"@)
            &&& !is_1006 ==> mentions(r@[0].value@, "1005"@)
            &&& r@[1].label@ == "Position"@ && r@[1].value@ == t.position@
            &&& antenna_height_m is Some ==> r@[2].label@ == "Antenna height"@ && r@[2].value@
                == t.antenna_height@ + " m"@
            &&& r@[n - 1].label@ == "Baseline"@
            &&& t.baseline matches Some(b) ==> r@[n - 1].value@ == b@ && !r@[n - 1].weak
            &&& t.baseline is None ==> r@[n - 1].value@ == "-"@ && r@[n - 1].weak
        },
        !(d.base matches Some(b) && b is BasePosition) ==> r@.len() == 1 && r@[0].weak,
{
    lemma_rows(r@);
    if let Some(Decoded::BasePosition { station_id, is_1006, antenna_height_m, .. }) = d.base {
        let n = r@.len() as int;
        let i = dec(station_id as nat);
        let e = Seq::<char>::empty();
        assert(r@[0].value@ == crate::ui::rtcm_inspector::row_views(r@)[0].1);
        assert(r@[1].value@ == crate::ui::rtcm_inspector::row_views(r@)[1].1);
        assert(r@[2].value@ == crate::ui::rtcm_inspector::row_views(r@)[2].1);
        assert(r@[n - 1].value@ == crate::ui::rtcm_inspector::row_views(r@)[n - 1].1);
        reveal_strlit(" (msg 1006)");
        reveal_strlit(" (msg 1005)");
        reveal_strlit("1006");
        reveal_strlit("1005");
        let (x, y) = (" (msg 1006)"@, " (msg 1005)"@);
        lemma_mentions(e, i, x);
        lemma_mentions(e, i, y);
        assert(e + i + x =~= i + x);
        assert(e + i + y =~= i + y);
        lemma_mentions(i + x.take(6), "1006"@, x.skip(10));
        assert(i + x.take(6) + "1006"@ + x.skip(10) =~= i + x);
        lemma_mentions(i + y.take(6), "1005"@, y.skip(10));
        assert(i + y.take(6) + "1005"@ + y.skip(10) =~= i + y);
    } else {
        assert(r@[0].value@ == crate::ui::rtcm_inspector::row_views(r@)[0].1);
    }
}

/// The antenna panel shows each text of the message under its own label: the
/// antenna and its serial, the receiver and its serial.
pub proof fn law_antenna_rows(d: &Decodes, r: Vec<PanelRow>)
    requires
        call_ensures(antenna_rows, (d,), r),
    ensures
        d.antenna matches Some(Decoded::AntennaInfo {
            station_id,
            antenna,
            setup_id,
            antenna_serial,
            receiver,
            firmware,
            receiver_serial,
        }) ==> {
            let n = r@.len() as int;
            &&& r@[0].label@ == "Antenna"@
            &&& antenna@.len() > 0 ==> r@[0].value@.take(antenna@.len() as int) == antenna@
            &&& mentions(r@[0].value@, "station "@ + dec(station_id as nat))
            &&& mentions(r@[0].value@, "setup "@ + dec(setup_id as nat))
            &&& antenna_serial matches Some(s) ==> r@[1].label@ == "Antenna serial"@
                && r@[1].value@ == s@
            &&& receiver_serial matches Some(s) ==> r@[n - 1].label@ == "Receiver serial"@
                && r@[n - 1].value@ == s@
            &&& n == 1 + (if antenna_serial is Some {
                1int
            } else {
                0
            }) + (if receiver is Some || firmware is Some {
                1int
            } else {
                0
            }) + (if receiver_serial is Some {
                1int
            } else {
                0
            })
        },
{
    lemma_rows(r@);
    if let Some(Decoded::AntennaInfo { station_id, antenna, setup_id, .. }) = d.antenna {
        let n = r@.len() as int;
        let views = crate::ui::rtcm_inspector::row_views(r@);
        assert(r@[0].value@ == views[0].1);
        assert(r@[n - 1].value@ == views[n - 1].1);
        if n > 1 {
            assert(r@[1].value@ == views[1].1);
        }
        let a = if antenna@.len() == 0 {
            "-"@
        } else {
            antenna@
        };
        let t = r@[0].value@;
        let (x, y) = (" (station "@, ", setup "@);
        let (i, j) = (dec(station_id as nat), dec(setup_id as nat));
        assert(t == a + x + i + y + j + ")"@);
        reveal_strlit(" (station ");
        reveal_strlit(", setup ");
        reveal_strlit("station ");
        reveal_strlit("setup ");
        assert(t.take(a.len() as int) =~= a);
        assert(x =~= x.take(2) + "station "@);
        assert(y =~= y.take(2) + "setup "@);
        lemma_mentions(a + x.take(2), "station "@ + i, y + j + ")"@);
        assert(a + x.take(2) + ("station "@ + i) + (y + j + ")"@) =~= t);
        lemma_mentions(a + x + i + y.take(2), "setup "@ + j, ")"@);
        assert(a + x + i + y.take(2) + ("setup "@ + j) + ")"@ =~= t);
    }
}

/// A receiver is told with its firmware behind it.
pub proof fn law_receiver_text(receiver: Option<&str>, firmware: Option<&str>, r: String)
    requires
        call_ensures(receiver_text, (receiver, firmware), r),
    ensures
        receiver matches Some(a) ==> r@.take(a@.len() as int) == a@,
        firmware matches Some(f) ==> r@.skip(r@.len() - f@.len()) == f@ && mentions(r@, "fw "@),
        firmware is None ==> (receiver matches Some(a) ==> r@ == a@),
        receiver is None && firmware is None ==> r@ == "-"@,
{
    reveal_strlit("fw ");
    reveal_strlit(" fw ");
    if let Some(a) = receiver {
        assert(r@.take(a@.len() as int) =~= a@);
        if let Some(f) = firmware {
            assert(r@.skip(r@.len() - f@.len()) =~= f@);
            lemma_mentions(a@.push(' '), "fw "@, f@);
            assert(a@.push(' ') + "fw "@ + f@ =~= r@);
        }
    } else if let Some(f) = firmware {
        assert(r@.skip(r@.len() - f@.len()) =~= f@);
        assert(r@.take(3) =~= "fw "@);
        lemma_mentions_first(r@, "fw "@);
    }
}

/// A text is shown with the station that sent it; the biases with theirs and
/// with their number.
pub proof fn law_messages_name_their_station(d: &Decodes, t: PanelRow, b: PanelRow)
    requires
        call_ensures(text_row, (d,), t),
        call_ensures(biases_row, (d,), b),
    ensures
        d.text_1029 matches Some((_, Decoded::TextMessage { station_id, text })) ==> !t.weak
            && t.value@.skip(t.value@.len() - text@.len()) == text@ && mentions(
            t.value@,
            "station "@ + dec(station_id as nat),
        ),
        d.text_1029 is None ==> t.weak,
        d.biases_1230 matches Some(Decoded::GlonassBiases { station_id, biases }) ==> !b.weak
            && mentions(b.value@, "station "@ + dec(station_id as nat)) && mentions(
            b.value@,
            dec(biases as nat) + " biases"@,
        ),
        d.biases_1230 is None ==> b.weak,
{
    reveal_strlit("station ");
    if let Some((at, Decoded::TextMessage { station_id, text })) = d.text_1029 {
        let v = t.value@;
        let c = crate::ui::rtcm_inspector::clock_words(at);
        let i = dec(station_id as nat);
        assert(v.skip(v.len() - text@.len()) =~= text@);
        reveal_strlit("] station ");
        let s = "] station "@;
        assert(s =~= s.take(2) + "station "@);
        lemma_mentions("["@ + c + s.take(2), "station "@ + i, ": "@ + text@);
        assert("["@ + c + s.take(2) + ("station "@ + i) + (": "@ + text@) =~= v);
    }
    if let Some(Decoded::GlonassBiases { station_id, biases }) = d.biases_1230 {
        let v = b.value@;
        let (i, j) = (dec(station_id as nat), dec(biases as nat));
        reveal_strlit("seen (station ");
        reveal_strlit(" biases)");
        reveal_strlit(" biases");
        let s = "seen (station "@;
        assert(s =~= s.take(6) + "station "@);
        lemma_mentions(s.take(6), "station "@ + i, ", "@ + j + " biases)"@);
        assert(s.take(6) + ("station "@ + i) + (", "@ + j + " biases)"@) =~= v);
        lemma_mentions(s + i + ", "@, j + " biases"@, seq![')']);
        assert(" biases)"@ =~= " biases"@ + seq![')']);
        assert(s + i + ", "@ + (j + " biases"@) + seq![')'] =~= v);
    }
}

/// The baseline starts at the receiver where it has a position, else at the
/// manual position where that is a place; latitude and longitude stay in their
/// places.
pub proof fn law_baseline_starts_at_the_user(
    receiver: Option<(Real64, Real64, Real64)>,
    lat: Real64,
    lon: Real64,
    r: Option<((Real64, Real64, Real64), &'static str)>,
)
    requires
        call_ensures(user_position, (receiver, lat, lon), r),
    ensures
        r is Some <==> receiver is Some || usable(lat, lon),
        receiver matches Some(p) ==> (r matches Some(q) && q.0 == p && q.1@ == "receiver"@),
        receiver is None ==> (r matches Some(q) ==> {
            let (a, b, c) = q.0;
            a == lat && b == lon && c.bits == 0 && q.1@ == "manual"@
        }),
{
}

/// A baseline needs both its ends, and tells where it starts.
pub proof fn law_baseline_needs_both_ends(
    user: Option<((Real64, Real64, Real64), &str)>,
    base: Option<(Real64, Real64, Real64)>,
    distance: &str,
    r: Option<String>,
)
    requires
        call_ensures(baseline_text, (user, base, distance), r),
    ensures
        r is Some <==> user is Some && base is Some,
        r matches Some(t) ==> t@.take(distance@.len() as int) == distance@ && (user matches Some(u)
            && mentions(t@, u.1@)),
{
    if let Some(t) = r {
        let u = user->0;
        assert(t@.take(distance@.len() as int) =~= distance@);
        lemma_mentions(distance@ + " (from "@, u.1@, " position)"@);
    }
}

/// The order of two numbers that are numbers, by their bit patterns.
pub open spec fn number_below(a: Real64, bound: u64) -> bool {
    a.bits >= 0x8000_0000_0000_0000 && a.bits <= 0xFFF0_0000_0000_0000 || a.bits < bound
}

/// An age is told in tenths of seconds below 9.95 s, in seconds below ten
/// minutes, and in minutes from there on; a distance in meters below two
/// kilometers, and in kilometers from there on.
pub proof fn law_numbers_change_their_unit(
    secs: Real64,
    tenths: &str,
    whole: &str,
    minutes: &str,
    r: String,
    meters: Real64,
    kilometers: &str,
    q: String,
)
    requires
        call_ensures(fmt_age, (secs, tenths, whole, minutes), r),
        call_ensures(fmt_baseline, (meters, whole, kilometers), q),
    ensures
        number_below(secs, 0x4023_E666_6666_6666) ==> r@ == tenths@ + " s"@,
        !number_below(secs, 0x4023_E666_6666_6666) && number_below(secs, 0x4082_BC00_0000_0000)
            ==> r@ == whole@ + " s"@,
        !number_below(secs, 0x4082_BC00_0000_0000) ==> r@ == minutes@ + " min"@,
        number_below(meters, 0x409F_4000_0000_0000) ==> q@ == whole@ + " m"@,
        !number_below(meters, 0x409F_4000_0000_0000) ==> q@ == kilometers@ + " km"@,
{
}

/// A rate is told in hertz, and a position as latitude, longitude and height,
/// in this order.
pub proof fn law_positions_are_told_in_order(
    hz: Option<&str>,
    h: String,
    lla: Option<(&str, &str, &str)>,
    p: String,
)
    requires
        call_ensures(fmt_hz, (hz,), h),
        call_ensures(position_text, (lla,), p),
    ensures
        hz matches Some(v) ==> h@ == v@ + " Hz"@,
        hz is None ==> h@ == "-"@,
        lla matches Some(t) ==> p@.take(t.0@.len() as int) == t.0@ && p@.skip(
            t.0@.len() as int + 2,
        ).take(t.1@.len() as int) == t.1@ && p@.skip(p@.len() - t.2@.len() - 2) == t.2@ + " m"@,
        lla is None ==> mentions(p@, "not set"@),
{
    reveal_strlit(", ");
    reveal_strlit(" m");
    if let Some(t) = lla {
        assert(p@.take(t.0@.len() as int) =~= t.0@);
        assert(p@.skip(t.0@.len() as int + 2).take(t.1@.len() as int) =~= t.1@);
        assert(p@.skip(p@.len() - t.2@.len() - 2) =~= t.2@ + " m"@);
    } else {
        reveal_strlit("position not set (all-zero ECEF)");
        reveal_strlit("not set");
        assert(p@.subrange(9int, 9int + "not set"@.len()) =~= "not set"@);
    }
}

/// A stream counts as stalled where it should bring data and has not for the
/// stall time; as active while it brings it, with its rate; as waiting before;
/// and as idle otherwise.
pub proof fn law_stream_states(status: &NtripStatus, silent: Span, rate: Real64, r: StreamActivity)
    requires
        call_ensures(classify_stream, (status, silent, rate), r),
    ensures
        r is Stalled <==> (*status is Streaming || *status is WaitingForData) && silent.nanos
            > 2_000_000_000,
        r is Active <==> *status is Streaming && silent.nanos <= 2_000_000_000,
        r is Waiting <==> *status is Connecting || *status is WaitingForData && silent.nanos
            <= 2_000_000_000,
        r matches StreamActivity::Active { rate_kbps } ==> rate_kbps == rate,
        r matches StreamActivity::Stalled { silent: s } ==> s == silent,
{
}

/// The gauge jumps to full with new bytes and falls else; it is empty while
/// idle and never beyond full.
pub proof fn law_gauge_shows_new_bytes(
    decayed: Real32,
    last: u64,
    total: u64,
    a: Real32,
    mode: &StreamActivity,
    level: Real32,
    fill: Real32,
    ink: Color,
)
    requires
        call_ensures(advance_activity, (decayed, last, total), a),
        call_ensures(bar_fill_level, (mode, level), fill),
        call_ensures(bar_stroke_color, (mode,), ink),
    ensures
        total > last ==> a.bits == 0x3F80_0000,
        total <= last ==> a == decayed,
        *mode is Idle ==> fill.bits == 0,
        !(*mode is Idle) && level.bits <= 0x3F80_0000 ==> fill == level,
        !(*mode is Idle) && 0x3F80_0000 <= level.bits <= 0x7F80_0000 ==> fill.bits == 0x3F80_0000,
        *mode is Stalled ==> ink == WARNING,
        !(*mode is Stalled) ==> ink == INK_MUTED,
{
}

/// The caption tells the rate of an active stream, and of a stalled one that
/// there is no data, in the color of a warning.
pub proof fn law_captions_tell_the_state(mode: &StreamActivity, rate: &str, r: (String, Color))
    requires
        call_ensures(cluster_caption, (mode, rate), r),
    ensures
        *mode is Active ==> r.0@ == rate@ + " kB/s"@,
        *mode is Stalled ==> mentions(r.0@, "no data"@),
        *mode is Waiting ==> mentions(r.0@, "waiting"@),
        *mode is Idle ==> r.0@ == "-"@,
        r.1 == WARNING <==> *mode is Stalled,
        r.1 == INK_PRIMARY <==> *mode is Active,
{
    reveal_strlit("no data ");
    reveal_strlit("no data");
    reveal_strlit("waiting...");
    reveal_strlit("waiting");
    if *mode is Stalled {
        assert(r.0@.take(7) =~= "no data"@);
        lemma_mentions_first(r.0@, "no data"@);
    }
    if *mode is Waiting {
        assert(r.0@.take(7) =~= "waiting"@);
        lemma_mentions_first(r.0@, "waiting"@);
    }
}

/// A fix is colored by its quality: good where it is fixed to the carrier,
/// a warning where it floats, bad where there is none; and named only where
/// there is data on it.
pub proof fn law_fix_is_colored(
    known: bool,
    quality: u8,
    r: Color,
    g: &GnssState,
    name: &str,
    l: (String, Color),
)
    requires
        call_ensures(fix_quality_color, (known, quality), r),
        call_ensures(fix_label, (g, name), l),
        g.has_fix_data == known && g.quality == quality,
    ensures
        l.1 == r,
        known ==> l.0@ == name@,
        !known ==> l.0@ == "No Fix Data"@,
        r == SUCCESS <==> known && quality == 4,
        r == WARNING <==> known && quality == 5,
        r == DANGER <==> known && quality == 0,
        r == INK_PRIMARY <==> known && (quality == 1 || quality == 2 || quality == 9),
{
}

/// A readout shows its own value: the ages, the dilutions, the height, the
/// speed and the heading each from their own field, in their own unit.
pub proof fn law_readouts_show_their_value(
    id: DisplayId,
    g: &GnssState,
    s: &StreamView,
    r: Option<Figure>,
)
    requires
        call_ensures(slot_figure, (id, g, s), r),
    ensures
        match r {
            Some(Figure::Plain(x)) => match id {
                DisplayId::Age => g.age_s == Some(x),
                DisplayId::Hdop => g.hdop == Some(x),
                DisplayId::Vdop => g.vdop == Some(x),
                DisplayId::Pdop => g.pdop == Some(x),
                DisplayId::ElevationMeters => g.alt_m == Some(x),
                DisplayId::Heading => g.heading_deg == Some(x),
                _ => false,
            },
            Some(Figure::Feet(x)) => id == DisplayId::ElevationFeet && g.alt_m == Some(x),
            Some(Figure::Mph(x)) => id == DisplayId::SpeedMph && g.speed_knots == Some(x),
            Some(Figure::Kmh(x)) => id == DisplayId::SpeedKmh && g.speed_knots == Some(x),
            Some(Figure::SmoothMph) => id == DisplayId::SpeedMphSmoothed,
            Some(Figure::SmoothKmh) => id == DisplayId::SpeedKmhSmoothed,
            Some(Figure::Since(d)) => id == DisplayId::DataAge && s.last_rx_age == Some(d),
            Some(Figure::Rate) => id == DisplayId::DataRate && s.rate_shown,
            None => match id {
                DisplayId::Age => g.age_s is None,
                DisplayId::Hdop => g.hdop is None,
                DisplayId::Vdop => g.vdop is None,
                DisplayId::Pdop => g.pdop is None,
                DisplayId::ElevationMeters => g.alt_m is None,
                DisplayId::ElevationFeet => g.alt_m is None,
                DisplayId::SpeedMph => g.speed_knots is None,
                DisplayId::SpeedKmh => g.speed_knots is None,
                DisplayId::Heading => g.heading_deg is None,
                DisplayId::DataAge => s.last_rx_age is None,
                DisplayId::DataRate => !s.rate_shown,
                DisplayId::Nothing => true,
                _ => false,
            },
        },
{
}

/// The stream's readouts show something while the stream is live, and the time
/// since its last bytes where it brought any.
pub proof fn law_stream_readouts_need_a_stream(
    n: &NtripUi,
    now: u64,
    r: StreamView,
    age: Option<Span>,
)
    requires
        call_ensures(stream_view, (n, now), r),
        call_ensures(NtripUi::rx_age, (n, now), age),
    ensures
        r.rate_shown <==> age is Some,
        r.last_rx_age is Some <==> age is Some && n.last_rx is Some,
        r.last_rx_age matches Some(d) ==> (n.last_rx matches Some(t) && (t <= now ==> t + d.nanos
            == now) && (t > now ==> d.nanos == 0)),
{
}

/// A number stands with the unit of its readout, and a missing one as a dash.
pub proof fn law_readouts_have_units(id: DisplayId, number: Option<&str>, r: String, d: u8)
    requires
        call_ensures(slot_value, (id, number), r),
        call_ensures(slot_decimals, (id,), d),
    ensures
        id == DisplayId::Nothing ==> r@.len() == 0,
        id != DisplayId::Nothing && number is None ==> r@ == "-"@,
        id != DisplayId::Nothing ==> (number matches Some(n) ==> r@ == n@ + (if id
            == DisplayId::Age || id == DisplayId::DataAge {
            " s"@
        } else if id == DisplayId::ElevationFeet {
            " ft"@
        } else if id == DisplayId::ElevationMeters {
            " m"@
        } else if id == DisplayId::SpeedMph || id == DisplayId::SpeedMphSmoothed {
            " mph"@
        } else if id == DisplayId::SpeedKmh || id == DisplayId::SpeedKmhSmoothed {
            " km/h"@
        } else if id == DisplayId::Heading {
            " deg"@
        } else if id == DisplayId::DataRate {
            " kB/s"@
        } else {
            Seq::empty()
        })),
        d == 0 <==> id == DisplayId::Heading,
        d <= 1,
{
    reveal_strlit("");
    assert(""@ =~= Seq::<char>::empty());
}

/// A hint stands under a readout that needs a receiver, shows nothing, and of
/// which nothing has come; it says whether the receiver or its data is missing.
pub proof fn law_hints_name_what_is_missing(
    id: DisplayId,
    value: &str,
    p: ReceiverPresence,
    h: SlotHint,
    c: Option<&'static str>,
    t: &'static str,
)
    requires
        call_ensures(slot_hint, (id, value, p), h),
        call_ensures(hint_caption, (h,), c),
        call_ensures(ReceiverPresence::hint_text, (&p,), t),
    ensures
        h != SlotHint::NoHint <==> value@ == "-"@ && !p.nmea_seen && id != DisplayId::Nothing && id
            != DisplayId::DataAge && id != DisplayId::DataRate,
        h == SlotHint::WaitingForNmea ==> p.serial_connected && c->0@ == "waiting for NMEA"@,
        h == SlotHint::NeedsReceiver ==> !p.serial_connected && c->0@ == "needs receiver"@,
        c is None <==> h == SlotHint::NoHint,
        p.nmea_seen ==> mentions(t@, "no GGA sentence"@),
        !p.nmea_seen && p.serial_connected ==> mentions(t@, "baud rate"@),
        !p.nmea_seen && !p.serial_connected ==> mentions(t@, "Connect a receiver"@),
{
    if p.nmea_seen {
        reveal_strlit("no GGA sentence");
        reveal_strlit(
            "The receiver's NMEA is parsing, but no GGA sentence has arrived - enable GGA output on the receiver to get fix data.",
        );
        assert(t@.subrange(36int, 36int + "no GGA sentence"@.len()) =~= "no GGA sentence"@);
    } else if p.serial_connected {
        reveal_strlit("baud rate");
        reveal_strlit(
            "The serial port is open but no NMEA has arrived yet - check the baud rate and framing.",
        );
        assert(t@.subrange(64int, 64int + "baud rate"@.len()) =~= "baud rate"@);
    } else {
        reveal_strlit("Connect a receiver");
        reveal_strlit(
            "This value comes from the GPS receiver's NMEA sentences on the serial port, not from the caster stream. Connect a receiver under Receiver (Serial) to populate it.",
        );
        assert(t@.subrange(104int, 104int + "Connect a receiver"@.len())
            =~= "Connect a receiver"@);
    }
}

/// The summary is there while a stream runs and has brought frames. It tells
/// the base and its position, the numbers of types and of frames and the rate,
/// each in its place, and calls the framing clean only without errors.
pub proof fn law_summary_line(
    busy: bool,
    shown: bool,
    base: Option<Base>,
    types: usize,
    frames: u64,
    rate: &str,
    crc: u64,
    garbage: u64,
    r: (String, String, Health),
)
    requires
        call_ensures(visible, (busy, types), shown),
        call_ensures(summary_line, (base, types, frames, rate, crc, garbage), r),
    ensures
        shown <==> busy && types != 0,
        r.2 == Health::Clean <==> crc == 0 && garbage == 0,
        mentions(r.0@, dec(types as nat) + " types"@),
        mentions(r.0@, dec(frames as nat) + " frames"@),
        mentions(r.0@, rate@ + " kB/s"@),
        base matches Some(b) ==> mentions(r.0@, dec(b.station_id as nat)) && (b.position matches Some(
            p,
        ) ==> mentions(r.0@, p.0@ + ", "@ + p.1@)),
        crc > 0 ==> mentions(r.1@, dec(crc as nat) + " CRC"@),
        garbage > 0 ==> mentions(r.1@, dec(garbage as nat) + " garbage"@),
{
    let head = match base {
        Some(b) => match b.position {
            Some((lat, lon)) => "base "@ + dec(b.station_id as nat) + "  "@ + lat@ + ", "@ + lon@,
            None => "base "@ + dec(b.station_id as nat) + "  (position not set)"@,
        },
        None => "no base station yet"@,
    };
    let (t, f) = (dec(types as nat), dec(frames as nat));
    let h1 = head + "   -   "@;
    if let Some(b) = base {
        let i = dec(b.station_id as nat);
        match b.position {
            Some((lat, lon)) => {
                let p = lat@ + ", "@ + lon@;
                lemma_mentions("base "@, i, "  "@);
                lemma_mentions_more("base "@ + i + "  "@, i, lat@);
                lemma_mentions_more("base "@ + i + "  "@ + lat@, i, ", "@);
                lemma_mentions_more("base "@ + i + "  "@ + lat@ + ", "@, i, lon@);
                lemma_place("base "@ + i + "  "@, lat@, lon@);
                lemma_summary_head(head, p, t, f, rate@);
            },
            None => {
                lemma_mentions("base "@, i, "  (position not set)"@);
            },
        }
        lemma_summary_head(head, i, t, f, rate@);
    }
    lemma_summary_counts(h1, t, f, rate@);
    lemma_summary_errors(dec(crc as nat), dec(garbage as nat));
}

proof fn lemma_place(before: Seq<char>, lat: Seq<char>, lon: Seq<char>)
    ensures
        mentions(before + lat + ", "@ + lon, lat + ", "@ + lon),
{
    let p = lat + ", "@ + lon;
    let n = before.len() as int;
    assert((before + lat + ", "@ + lon).subrange(n, n + p.len()) =~= p);
}

proof fn lemma_summary_head(
    head: Seq<char>,
    part: Seq<char>,
    t: Seq<char>,
    f: Seq<char>,
    rate: Seq<char>,
)
    requires
        mentions(head, part),
    ensures
        mentions(
            head + "   -   "@ + t + " types, "@ + f + " frames   "@ + rate + " kB/s"@,
            part,
        ),
{
    let a = head + "   -   "@;
    let b = a + t + " types, "@;
    let c = b + f + " frames   "@;
    lemma_mentions_more(head, part, "   -   "@);
    lemma_mentions_more(a, part, t);
    lemma_mentions_more(a + t, part, " types, "@);
    lemma_mentions_more(b, part, f);
    lemma_mentions_more(b + f, part, " frames   "@);
    lemma_mentions_more(c, part, rate);
    lemma_mentions_more(c + rate, part, " kB/s"@);
}

proof fn lemma_summary_counts(h1: Seq<char>, t: Seq<char>, f: Seq<char>, rate: Seq<char>)
    ensures
        ({
            let s = h1 + t + " types, "@ + f + " frames   "@ + rate + " kB/s"@;
            &&& mentions(s, t + " types"@)
            &&& mentions(s, f + " frames"@)
            &&& mentions(s, rate + " kB/s"@)
        }),
{
    reveal_strlit(" types, ");
    reveal_strlit(" types");
    reveal_strlit(" frames   ");
    reveal_strlit(" frames");
    let e = Seq::<char>::empty();
    let comma = seq![',', ' '];
    let gap = seq![' ', ' ', ' '];
    assert(" types, "@ =~= " types"@ + comma);
    assert(" frames   "@ =~= " frames"@ + gap);
    let h2 = h1 + t + " types, "@;
    let h3 = h2 + f + " frames   "@;
    lemma_mentions_across(h1, t, " types"@, comma);
    lemma_mentions_more(h2, t + " types"@, f);
    lemma_mentions_more(h2 + f, t + " types"@, " frames   "@);
    lemma_mentions_more(h3, t + " types"@, rate);
    lemma_mentions_more(h3 + rate, t + " types"@, " kB/s"@);
    lemma_mentions_across(h2, f, " frames"@, gap);
    lemma_mentions_more(h3, f + " frames"@, rate);
    lemma_mentions_more(h3 + rate, f + " frames"@, " kB/s"@);
    lemma_mentions_across(h3, rate, " kB/s"@, e);
    assert(" kB/s"@ + e =~= " kB/s"@);
}

#[verifier::spinoff_prover]
proof fn lemma_summary_errors(c: Seq<char>, g: Seq<char>)
    ensures
        mentions(c + " CRC fails"@, c + " CRC"@),
        mentions(c + " CRC fails"@ + ", "@ + g + " garbage bytes"@, c + " CRC"@),
        mentions(c + " CRC fails"@ + ", "@ + g + " garbage bytes"@, g + " garbage"@),
{
    reveal_strlit(" CRC fails");
    reveal_strlit(" CRC");
    reveal_strlit(" garbage bytes");
    reveal_strlit(" garbage");
    let a = c + " CRC fails"@;
    assert(a.take((c + " CRC"@).len() as int) =~= c + " CRC"@);
    lemma_mentions_first(a, c + " CRC"@);
    lemma_mentions_more(a, c + " CRC"@, ", "@ + g + " garbage bytes"@);
    assert(a + (", "@ + g + " garbage bytes"@) =~= a + ", "@ + g + " garbage bytes"@);
    let x = " garbage bytes"@;
    assert(x =~= " garbage"@ + x.skip(8));
    lemma_mentions(a + ", "@, g + " garbage"@, x.skip(8));
    assert(a + ", "@ + (g + " garbage"@) + x.skip(8) =~= a + ", "@ + g + x);
}

/// The tabs stand in their order. The open one is marked, and the connection
/// log asks for attention while it holds an answer that was not seen; opening
/// it is seeing it.
pub proof fn law_tabs_ask_for_attention(
    active: BottomTab,
    seen: u64,
    captured: u64,
    r: [TabButton; 4],
    next: u64,
)
    requires
        call_ensures(strip, (active, seen, captured), r),
        call_ensures(acknowledge, (active, seen, captured), next),
    ensures
        r@[0].tab == BottomTab::Events && r@[1].tab == BottomTab::Conn,
        r@[2].tab == BottomTab::Stream && r@[3].tab == BottomTab::Sourcetable,
        r@[0].label@ == "Event log"@ && r@[1].label@ == "Connection log"@,
        r@[2].label@ == "Stream detail"@ && r@[3].label@ == "Sourcetable"@,
        r@[0].active <==> active == BottomTab::Events,
        r@[1].active <==> active == BottomTab::Conn,
        r@[2].active <==> active == BottomTab::Stream,
        r@[3].active <==> active == BottomTab::Sourcetable,
        !r@[0].attention && !r@[2].attention && !r@[3].attention,
        r@[1].attention <==> captured > seen && active != BottomTab::Conn,
        active == BottomTab::Conn ==> next == captured,
        active != BottomTab::Conn ==> next == seen,
{
    assert(r@[0] == r@[0] && r@[1] == r@[1] && r@[2] == r@[2] && r@[3] == r@[3]);
}

/// A line stands out where it speaks of trouble.
pub proof fn law_trouble_stands_out(line: &str, r: Color, word: &str, found: bool)
    requires
        call_ensures(line_ink, (line,), r),
        call_ensures(contains_ignore_ascii_case, (line, word), found),
        word@ == "error"@ || word@ == "fail"@ || word@ == "could not"@ || word@ == "denied"@
            || word@ == "unauthorized"@ || word@ == "warning"@ || word@ == "overrun"@ || word@
            == "crash"@,
    ensures
        found ==> r == INK_PRIMARY,
        r == INK_PRIMARY || r == INK_SECONDARY,
{
}

/// The figures of the graph stand in their order: the current one, the least,
/// the greatest and the range.
pub proof fn law_graph_figures_are_in_order(
    current: Option<&str>,
    min: Option<&str>,
    max: Option<&str>,
    range: Option<&str>,
    r: String,
    open: bool,
    g: &'static str,
    recording: bool,
    l: &'static str,
)
    requires
        call_ensures(chart_stats, (current, min, max, range), r),
        call_ensures(graph_label, (open,), g),
        call_ensures(record_label, (recording,), l),
    ensures
        current matches Some(t) ==> r@.take(4 + t@.len() as int) == "cur "@ + t@,
        min matches Some(t) ==> mentions(r@, "min "@ + t@),
        max matches Some(t) ==> mentions(r@, "max "@ + t@),
        range matches Some(t) ==> mentions(r@, "range "@ + t@ + " m"@),
        g@[0] == 'v' <==> open,
        recording ==> l@ == "Pause"@,
        !recording ==> l@ == "Start"@,
{
    reveal_strlit("v Elevation graph");
    reveal_strlit("> Elevation graph");
    let (a, b, c, d) = (
        crate::ui::plot_panel::or_dash(current),
        crate::ui::plot_panel::or_dash(min),
        crate::ui::plot_panel::or_dash(max),
        crate::ui::plot_panel::or_dash(range),
    );
    lemma_graph(a, b, c, d);
}

#[verifier::spinoff_prover]
proof fn lemma_graph(a: Seq<char>, b: Seq<char>, c: Seq<char>, d: Seq<char>)
    ensures
        ({
            let s = "cur "@ + a + "  min "@ + b + "  max "@ + c + "  range "@ + d + " m"@;
            &&& s.take(4 + a.len() as int) == "cur "@ + a
            &&& mentions(s, "min "@ + b)
            &&& mentions(s, "max "@ + c)
            &&& mentions(s, "range "@ + d + " m"@)
        }),
{
    let gap = seq![' ', ' '];
    reveal_strlit("cur ");
    reveal_strlit("  min ");
    reveal_strlit("  max ");
    reveal_strlit("  range ");
    reveal_strlit("min ");
    reveal_strlit("max ");
    reveal_strlit("range ");
    assert("  min "@ =~= gap + "min "@);
    assert("  max "@ =~= gap + "max "@);
    assert("  range "@ =~= gap + "range "@);
    let h1 = "cur "@ + a;
    let h2 = h1 + "  min "@ + b;
    let h3 = h2 + "  max "@ + c;
    let h4 = h3 + "  range "@ + d;
    lemma_mentions_across(h1, "min "@, b, gap);
    lemma_mentions_across(h2, "max "@, c, gap);
    lemma_mentions_across(h3, "range "@, d + " m"@, gap);
    assert(h3 + (gap + "range "@) + (d + " m"@) =~= h4 + " m"@);
    assert("range "@ + (d + " m"@) =~= "range "@ + d + " m"@);
    lemma_mentions_more(h2, "min "@ + b, "  max "@);
    lemma_mentions_more(h2 + "  max "@, "min "@ + b, c);
    lemma_mentions_more(h3, "min "@ + b, "  range "@);
    lemma_mentions_more(h3 + "  range "@, "min "@ + b, d);
    lemma_mentions_more(h4, "min "@ + b, " m"@);
    lemma_mentions_more(h3, "max "@ + c, "  range "@);
    lemma_mentions_more(h3 + "  range "@, "max "@ + c, d);
    lemma_mentions_more(h4, "max "@ + c, " m"@);
    lemma_starts("cur "@, a, "  min "@);
    lemma_starts_on(h1, h1 + "  min "@, b);
    lemma_starts_on(h1, h2, "  max "@);
    lemma_starts_on(h1, h2 + "  max "@, c);
    lemma_starts_on(h1, h3, "  range "@);
    lemma_starts_on(h1, h3 + "  range "@, d);
    lemma_starts_on(h1, h4, " m"@);
}

proof fn lemma_starts(a: Seq<char>, b: Seq<char>, c: Seq<char>)
    ensures
        (a + b + c).take((a + b).len() as int) == a + b,
{
    assert((a + b + c).take((a + b).len() as int) =~= a + b);
}

proof fn lemma_starts_on(start: Seq<char>, text: Seq<char>, more: Seq<char>)
    requires
        start.len() <= text.len(),
        text.take(start.len() as int) == start,
    ensures
        (text + more).take(start.len() as int) == start,
{
    assert((text + more).take(start.len() as int) =~= text.take(start.len() as int));
}

} // verus!
