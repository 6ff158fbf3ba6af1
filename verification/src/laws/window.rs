//! Laws of what the window knows: how events change it.
use vstd::prelude::*;

use crate::bus::{NtripStatus, RtcmBatch};
use crate::ieee::Real32;
use crate::sourcetable::StrRecord;
use crate::span::Span;
use crate::state::{
    exact_stream, folded_stream, stats_after, stats_have_room, AppEvent, AppState, ClockTime,
    Decoded, Decodes, Followups, GnssState, NtripUi, RateFold, RateMeter, RtcmTypeStat, Sentence,
};
use crate::text::eq_ci;

verus! {

/// Nanoseconds from one clock reading to another, none when it lies ahead.
pub open spec fn passed(then: u64, now: u64) -> int {
    if now > then {
        now - then
    } else {
        0
    }
}

/// Whether the state holds what a sentence said, each value in its own place,
/// and everything the sentence was silent about as it was.
pub open spec fn shows_sentence(before: GnssState, s: Sentence, after: GnssState) -> bool {
    &&& after.nmea_seen
    &&& match s {
        Sentence::Gga { quality, sats, hdop, alt_m, age_s, station_id, lat_deg, lon_deg } => {
            &&& after.has_fix_data
            &&& after.quality == quality
            &&& after.sats == sats
            &&& after.hdop == hdop
            &&& after.alt_m == alt_m
            &&& after.age_s == age_s
            &&& after.station_id == station_id
            &&& lat_deg is Some && lon_deg is Some ==> after.lat_deg == lat_deg && after.lon_deg
                == lon_deg
            &&& lat_deg is None || lon_deg is None ==> after.lat_deg == before.lat_deg
                && after.lon_deg == before.lon_deg
        },
        _ => {
            &&& after.has_fix_data == before.has_fix_data
            &&& after.quality == before.quality
            &&& after.sats == before.sats
            &&& after.hdop == before.hdop
            &&& after.alt_m == before.alt_m
            &&& after.age_s == before.age_s
            &&& after.station_id == before.station_id
            &&& after.lat_deg == before.lat_deg
            &&& after.lon_deg == before.lon_deg
        },
    }
    &&& match s {
        Sentence::Rmc { speed_knots, track_deg } => after.speed_knots == speed_knots
            && after.heading_deg == track_deg,
        _ => after.speed_knots == before.speed_knots && after.heading_deg == before.heading_deg,
    }
    &&& match s {
        Sentence::Gsa { pdop, vdop } => after.pdop == pdop && after.vdop == vdop,
        _ => after.pdop == before.pdop && after.vdop == before.vdop,
    }
}

/// The receiver's state is what its sentences said last: latitude as latitude
/// and longitude as longitude, a position only from a sentence with both.
pub proof fn law_receiver_state_is_what_it_said(gnss: &mut GnssState, sentence: Sentence)
    requires
        call_ensures(GnssState::apply, (gnss, sentence), ()),
    ensures
        shows_sentence(*old(gnss), sentence, *final(gnss)),
{
}

/// The same holds of the whole window: a sentence changes the receiver's state
/// and nothing else, hands on the speed it carries, and while the chart
/// records, the elevation it carries with the time since the chart's origin.
pub proof fn law_sentences_reach_the_window(
    state: &mut AppState,
    sentence: Sentence,
    now: u64,
    r: Followups,
)
    requires
        call_ensures(AppState::apply, (state, AppEvent::Nmea(sentence), now), r),
    ensures
        shows_sentence(old(state).gnss, sentence, final(state).gnss),
        final(state).ntrip == old(state).ntrip,
        final(state).serial == old(state).serial,
        final(state).events == old(state).events,
        final(state).conn == old(state).conn,
        final(state).chart == old(state).chart,
        r.folds@.len() == 0,
        r.speed_knots == (match sentence {
            Sentence::Rmc { speed_knots, .. } => speed_knots,
            _ => None::<Real32>,
        }),
        match sentence {
            Sentence::Gga { alt_m: Some(alt), .. } => if old(state).chart.recording {
                r.elevation matches Some((t, v)) && v == alt && t.nanos == passed(
                    old(state).chart.t0,
                    now,
                )
            } else {
                r.elevation is None
            },
            _ => r.elevation is None,
        },
{
}

/// Frames of one message type in a report.
pub open spec fn reported(frames: Seq<(u16, u32, u32)>, ty: u16) -> nat
    decreases frames.len(),
{
    if frames.len() == 0 {
        0
    } else {
        reported(frames.drop_last(), ty) + if frames.last().0 == ty {
            frames.last().1 as nat
        } else {
            0
        }
    }
}

/// Whether a report has an entry for a message type.
pub open spec fn reports(frames: Seq<(u16, u32, u32)>, ty: u16) -> bool {
    exists|i: int| 0 <= i < frames.len() && (#[trigger] frames[i]).0 == ty
}

/// The count of a message type so far.
pub open spec fn count_of(m: Map<u16, RtcmTypeStat>, ty: u16) -> int {
    if m.contains_key(ty) {
        m[ty].count as int
    } else {
        0
    }
}

proof fn lemma_reported_total(frames: Seq<(u16, u32, u32)>, ty: u16)
    ensures
        reported(frames, ty) <= crate::state::batch_total(frames),
    decreases frames.len(),
{
    if frames.len() > 0 {
        lemma_reported_total(frames.drop_last(), ty);
    }
}

proof fn lemma_counts(m: Map<u16, RtcmTypeStat>, frames: Seq<(u16, u32, u32)>, now: u64, ty: u16)
    requires
        stats_have_room(m, crate::state::batch_total(frames)),
    ensures
        count_of(stats_after(m, frames, now), ty) == count_of(m, ty) + reported(frames, ty),
        stats_after(m, frames, now).contains_key(ty) <==> m.contains_key(ty) || reports(frames, ty),
        reports(frames, ty) ==> stats_after(m, frames, now)[ty].last_seen == now,
        !reports(frames, ty) && m.contains_key(ty) ==> stats_after(m, frames, now)[ty] == m[ty],
        frames.len() > 0 && frames.last().0 == ty ==> stats_after(m, frames, now)[ty].last_frame_len
            == frames.last().2,
        frames.len() > 0 && frames.last().0 != ty && stats_after(m, frames, now).contains_key(ty)
            ==> stats_after(m, frames, now)[ty].last_frame_len == stats_after(
            m,
            frames.drop_last(),
            now,
        )[ty].last_frame_len,
    decreases frames.len(),
{
    lemma_reported_total(frames, ty);
    if frames.len() > 0 {
        let prev = frames.drop_last();
        assert(stats_have_room(m, crate::state::batch_total(prev)));
        lemma_counts(m, prev, now, ty);
        lemma_counts(m, prev, now, frames.last().0);
        lemma_reported_total(prev, frames.last().0);
        if frames.last().0 == ty {
            assert(frames[frames.len() - 1].0 == ty);
        } else if reports(frames, ty) {
            let i = choose|i: int| 0 <= i < frames.len() && (#[trigger] frames[i]).0 == ty;
            assert(prev[i].0 == ty);
        }
        if reports(prev, ty) {
            let i = choose|i: int| 0 <= i < prev.len() && (#[trigger] prev[i]).0 == ty;
            assert(frames[i].0 == ty);
        }
    }
}

/// A framing report reaches the window: CRC failures as CRC failures, garbage
/// bytes as garbage bytes, every message type's count up by exactly the frames
/// reported of it, and no other type touched.
pub proof fn law_framing_reports_reach_the_window(
    state: &mut AppState,
    batch: RtcmBatch,
    decoded: Vec<Decoded>,
    at: ClockTime,
    now: u64,
    r: Followups,
)
    requires
        call_ensures(
            AppState::apply,
            (state, AppEvent::Rtcm { batch, decoded, at }, now),
            r,
        ),
        stats_have_room(old(state).ntrip.rtcm@, crate::state::batch_total(batch.frames@)),
    ensures
        final(state).ntrip.rtcm_crc_failures == batch.crc_failures,
        final(state).ntrip.rtcm_garbage_bytes == batch.garbage_bytes,
        forall|ty: u16|
            #![trigger final(state).ntrip.rtcm@.contains_key(ty)]
            {
                let (m, n) = (old(state).ntrip.rtcm@, final(state).ntrip.rtcm@);
                &&& count_of(n, ty) == count_of(m, ty) + reported(batch.frames@, ty)
                &&& n.contains_key(ty) <==> m.contains_key(ty) || reports(batch.frames@, ty)
                &&& reports(batch.frames@, ty) ==> n[ty].last_seen == now
                &&& !reports(batch.frames@, ty) && m.contains_key(ty) ==> n[ty] == m[ty]
            },
        batch.frames@.len() > 0 ==> final(state).ntrip.rtcm@[batch.frames@.last().0].last_frame_len
            == batch.frames@.last().2,
        final(state).ntrip.status == old(state).ntrip.status,
        final(state).ntrip.total_bytes == old(state).ntrip.total_bytes,
        final(state).ntrip.sourcetable == old(state).ntrip.sourcetable,
        final(state).gnss == old(state).gnss,
        final(state).serial == old(state).serial,
        r.speed_knots is None && r.elevation is None,
{
    assert forall|ty: u16|
        #![trigger final(state).ntrip.rtcm@.contains_key(ty)]
        {
            let (m, n) = (old(state).ntrip.rtcm@, final(state).ntrip.rtcm@);
            &&& count_of(n, ty) == count_of(m, ty) + reported(batch.frames@, ty)
            &&& n.contains_key(ty) <==> m.contains_key(ty) || reports(batch.frames@, ty)
            &&& reports(batch.frames@, ty) ==> n[ty].last_seen == now
            &&& !reports(batch.frames@, ty) && m.contains_key(ty) ==> n[ty] == m[ty]
        } by {
        lemma_counts(old(state).ntrip.rtcm@, batch.frames@, now, ty);
    }
    if batch.frames@.len() > 0 {
        lemma_counts(old(state).ntrip.rtcm@, batch.frames@, now, batch.frames@.last().0);
    }
}

/// The kinds of decodes that are kept.
pub enum Kept {
    Base,
    Antenna,
    Text,
    Biases,
}

/// Whether a decode is of a kind.
pub open spec fn is_kind(d: Decoded, kind: Kept) -> bool {
    match kind {
        Kept::Base => d is BasePosition,
        Kept::Antenna => d is AntennaInfo,
        Kept::Text => d is TextMessage,
        Kept::Biases => d is GlonassBiases,
    }
}

/// Whether the decode at `i` is the last one of its kind.
pub open spec fn latest(ds: Seq<Decoded>, i: int, kind: Kept) -> bool {
    0 <= i < ds.len() && is_kind(ds[i], kind) && forall|j: int|
        i < j < ds.len() ==> !is_kind(#[trigger] ds[j], kind)
}

/// Whether there is no decode of a kind.
pub open spec fn lacks(ds: Seq<Decoded>, kind: Kept) -> bool {
    forall|j: int| 0 <= j < ds.len() ==> !is_kind(#[trigger] ds[j], kind)
}

proof fn lemma_filed(start: Decodes, ds: Seq<Decoded>, at: ClockTime)
    ensures
        ({
            let end = start.filed_all(ds, at);
            &&& forall|i: int| #[trigger]
                latest(ds, i, Kept::Base) ==> end.base == Some(ds[i])
            &&& forall|i: int| #[trigger]
                latest(ds, i, Kept::Antenna) ==> end.antenna == Some(ds[i])
            &&& forall|i: int| #[trigger]
                latest(ds, i, Kept::Text) ==> end.text_1029 == Some((at, ds[i]))
            &&& forall|i: int| #[trigger]
                latest(ds, i, Kept::Biases) ==> end.biases_1230 == Some(ds[i])
            &&& lacks(ds, Kept::Base) ==> end.base
                == start.base
            &&& lacks(ds, Kept::Antenna) ==> end.antenna
                == start.antenna
            &&& lacks(ds, Kept::Text) ==> end.text_1029
                == start.text_1029
            &&& lacks(ds, Kept::Biases) ==> end.biases_1230
                == start.biases_1230
        }),
    decreases ds.len(),
{
    if ds.len() > 0 {
        let prev = ds.drop_last();
        lemma_filed(start, prev, at);
        let end = start.filed_all(ds, at);
        assert(forall|i: int| 0 <= i < prev.len() ==> #[trigger] prev[i] == ds[i]);
        assert forall|i: int, kind: Kept| #[trigger] latest(ds, i, kind) && i < prev.len() implies latest(
            prev,
            i,
            kind,
        ) && !is_kind(ds.last(), kind) by {
            assert(!is_kind(ds[ds.len() - 1], kind));
        }
        assert forall|kind: Kept| #[trigger] lacks(ds, kind) implies lacks(prev, kind) && !is_kind(
            ds.last(),
            kind,
        ) by {
            assert(!is_kind(ds[ds.len() - 1], kind));
        }
    }
}

/// The inspector holds the latest decode of each kind, under its own kind, and
/// keeps it until another of that kind comes; a text also keeps when it came.
pub proof fn law_latest_decodes_are_kept(
    state: &mut AppState,
    batch: RtcmBatch,
    decoded: Vec<Decoded>,
    at: ClockTime,
    now: u64,
    r: Followups,
)
    requires
        call_ensures(
            AppState::apply,
            (state, AppEvent::Rtcm { batch, decoded, at }, now),
            r,
        ),
    ensures
        ({
            let ds = decoded@;
            let start = old(state).ntrip.decodes;
            let end = final(state).ntrip.decodes;
            &&& forall|i: int| #[trigger]
                latest(ds, i, Kept::Base) ==> end.base == Some(ds[i])
            &&& forall|i: int| #[trigger]
                latest(ds, i, Kept::Antenna) ==> end.antenna == Some(ds[i])
            &&& forall|i: int| #[trigger]
                latest(ds, i, Kept::Text) ==> end.text_1029 == Some((at, ds[i]))
            &&& forall|i: int| #[trigger]
                latest(ds, i, Kept::Biases) ==> end.biases_1230 == Some(ds[i])
            &&& lacks(ds, Kept::Base) ==> end.base
                == start.base
            &&& lacks(ds, Kept::Antenna) ==> end.antenna
                == start.antenna
            &&& lacks(ds, Kept::Text) ==> end.text_1029
                == start.text_1029
            &&& lacks(ds, Kept::Biases) ==> end.biases_1230
                == start.biases_1230
        }),
{
    lemma_filed(old(state).ntrip.decodes, decoded@, at);
}

/// Event lines go to the event pane, connection lines to the connection pane,
/// each as the newest line of its pane.
pub proof fn law_lines_reach_their_pane(
    state: &mut AppState,
    ev: AppEvent,
    now: u64,
    r: Followups,
)
    requires
        call_ensures(AppState::apply, (state, ev, now), r),
        old(state).events@.cap > 0,
        old(state).conn@.cap > 0,
    ensures
        ev matches AppEvent::EventLine(line) ==> final(state).events@.lines.last() == line@
            && final(state).conn == old(state).conn && final(state).ntrip == old(state).ntrip,
        ev matches AppEvent::ConnLine(line) ==> final(state).conn@.lines.last() == line@
            && final(state).events == old(state).events && final(state).ntrip == old(state).ntrip,
{
    if let AppEvent::EventLine(line) = ev {
        let (m, n) = (old(state).events@, final(state).events@);
        assert(n.lines.last() == line@);
    }
    if let AppEvent::ConnLine(line) = ev {
        let (m, n) = (old(state).conn@, final(state).conn@);
        assert(n.lines.last() == line@);
    }
}

/// A caster status is shown as it is, with the moment it came; what was
/// counted so far stays.
pub proof fn law_caster_status_is_shown(
    state: &mut AppState,
    status: NtripStatus,
    now: u64,
    r: Followups,
)
    requires
        call_ensures(AppState::apply, (state, AppEvent::Ntrip(status), now), r),
    ensures
        final(state).ntrip.status == status,
        final(state).ntrip.status_since == now,
        final(state).ntrip.total_bytes == old(state).ntrip.total_bytes,
        final(state).ntrip.last_rx == old(state).ntrip.last_rx,
        final(state).ntrip.sourcetable == old(state).ntrip.sourcetable,
        final(state).ntrip.rtcm == old(state).ntrip.rtcm,
        final(state).ntrip.last_unknown_response == old(state).ntrip.last_unknown_response,
        final(state).serial == old(state).serial,
        final(state).gnss == old(state).gnss,
{
}

/// The byte total shown is the one reported, and only a growing one counts as
/// an arrival, which it dates.
pub proof fn law_byte_totals_date_arrivals(
    state: &mut AppState,
    total: u64,
    now: u64,
    r: Followups,
)
    requires
        call_ensures(AppState::apply, (state, AppEvent::RxBytes { total }, now), r),
    ensures
        final(state).ntrip.total_bytes == total,
        total > old(state).ntrip.total_bytes ==> final(state).ntrip.last_rx == Some(now),
        total <= old(state).ntrip.total_bytes ==> final(state).ntrip.last_rx == old(
            state,
        ).ntrip.last_rx,
        final(state).ntrip.status == old(state).ntrip.status,
        final(state).serial == old(state).serial,
{
}

/// A sourcetable is kept with the caster it came from, a response that was not
/// understood is kept and counted, and the receiver link's status and overruns
/// are shown as reported.
pub proof fn law_reports_are_kept(state: &mut AppState, ev: AppEvent, now: u64, r: Followups)
    requires
        call_ensures(AppState::apply, (state, ev, now), r),
        old(state).ntrip.unknown_response_gen < u64::MAX,
    ensures
        ev matches AppEvent::SourcetableReady { host, port, table } ==> (
        final(state).ntrip.sourcetable matches Some((h, p, t)) && h == host && p == port && t
            == table) && final(state).ntrip.status == old(state).ntrip.status,
        ev matches AppEvent::UnknownResponse { raw } ==> final(state).ntrip.last_unknown_response
            == Some(raw) && final(state).ntrip.unknown_response_gen == old(
            state,
        ).ntrip.unknown_response_gen + 1,
        ev matches AppEvent::Serial(status) ==> final(state).serial.status == status
            && final(state).serial.overruns == old(state).serial.overruns && final(state).ntrip
            == old(state).ntrip,
        ev matches AppEvent::Overruns(n) ==> final(state).serial.overruns == n
            && final(state).serial.status == old(state).serial.status && final(state).ntrip == old(
            state,
        ).ntrip,
{
}

/// The age of the stream is the time since its last bytes, or since the status
/// came where there were none, and there is none while nothing is connected;
/// past two seconds it counts as stalled.
pub proof fn law_stream_age(ui: &NtripUi, now: u64, age: Option<Span>, stalled: bool)
    requires
        call_ensures(NtripUi::rx_age, (ui, now), age),
        call_ensures(NtripUi::stalled, (ui, now), stalled),
    ensures
        ui.status is Streaming || ui.status is WaitingForData ==> (age matches Some(a) && a.nanos
            == passed(
            match ui.last_rx {
                Some(t) => t,
                None => ui.status_since,
            },
            now,
        ) && stalled == (a.nanos > 2_000_000_000)),
        !(ui.status is Streaming || ui.status is WaitingForData) ==> age is None && !stalled,
{
}

/// A new session starts its counts from nothing, and keeps the evidence of the
/// last one: the sourcetable and the response that was not understood.
pub proof fn law_new_session_counts_from_nothing(ui: &mut NtripUi)
    requires
        call_ensures(NtripUi::reset_stream_stats, (ui,), ()),
    ensures
        final(ui).total_bytes == 0,
        final(ui).last_rx is None,
        final(ui).rtcm_crc_failures == 0,
        final(ui).rtcm_garbage_bytes == 0,
        forall|ty: u16| !#[trigger] final(ui).rtcm@.contains_key(ty),
        final(ui).decodes.base is None && final(ui).decodes.antenna is None
            && final(ui).decodes.text_1029 is None && final(ui).decodes.biases_1230 is None,
        final(ui).sourcetable == old(ui).sourcetable,
        final(ui).last_unknown_response == old(ui).last_unknown_response,
        final(ui).unknown_response_gen == old(ui).unknown_response_gen,
        final(ui).status == old(ui).status,
        final(ui).status_since == old(ui).status_since,
{
}

/// No frame is lost between the windows of a rate: what a window counted is
/// handed on once it has lasted a second, and counted on until then.
pub proof fn law_rate_windows_lose_nothing(
    meter: &mut RateMeter,
    n: u32,
    now: u64,
    r: Option<RateFold>,
)
    requires
        call_ensures(RateMeter::on_frames, (meter, n, now), r),
        old(meter).window_count + n <= u32::MAX,
    ensures
        ({
            let start = match old(meter).window_start {
                Some(t) => t,
                None => now,
            };
            match r {
                Some(fold) => {
                    &&& passed(start, now) >= 1_000_000_000
                    &&& fold.count == old(meter).window_count + n
                    &&& fold.elapsed.nanos == passed(start, now)
                    &&& final(meter).window_count == 0
                    &&& final(meter).window_start == Some(now)
                },
                None => {
                    &&& passed(start, now) < 1_000_000_000
                    &&& final(meter).window_count == old(meter).window_count + n
                    &&& final(meter).window_start == Some(start)
                },
            }
        }),
{
}

proof fn lemma_first_match(strs: Seq<StrRecord>, mount: Seq<char>)
    ensures
        match exact_stream(strs, mount) {
            Some(i) => 0 <= i < strs.len() && strs[i].mountpoint@ == mount && forall|j: int|
                0 <= j < i ==> (#[trigger] strs[j]).mountpoint@ != mount,
            None => forall|j: int|
                0 <= j < strs.len() ==> (#[trigger] strs[j]).mountpoint@ != mount,
        },
        match folded_stream(strs, mount) {
            Some(i) => 0 <= i < strs.len() && eq_ci(strs[i].mountpoint@, mount) && forall|j: int|
                0 <= j < i ==> !eq_ci((#[trigger] strs[j]).mountpoint@, mount),
            None => forall|j: int|
                0 <= j < strs.len() ==> !eq_ci((#[trigger] strs[j]).mountpoint@, mount),
        },
    decreases strs.len(),
{
    if strs.len() > 0 {
        let prev = strs.drop_last();
        lemma_first_match(prev, mount);
        assert forall|j: int| 0 <= j < prev.len() implies prev[j] == strs[j] by {}
        assert(forall|j: int| 0 <= j < prev.len() ==> #[trigger] strs[j] == prev[j]);
    }
}

/// The record of a stream is the first with exactly its mountpoint; only where
/// no record has it so, the first with it up to case; and none is given of
/// another caster's table.
pub proof fn law_stream_lookup(
    state: &AppState,
    host: &str,
    port: u16,
    mountpoint: &str,
    r: Option<&StrRecord>,
)
    requires
        call_ensures(AppState::str_record, (state, host, port, mountpoint), r),
    ensures
        match state.ntrip.sourcetable {
            Some((h, p, table)) => if h@ == host@ && p == port {
                match r {
                    Some(s) => {
                        &&& exists|i: int| 0 <= i < table.strs@.len() && table.strs@[i] == *s
                        &&& s.mountpoint@ == mountpoint@ || (eq_ci(s.mountpoint@, mountpoint@)
                            && forall|j: int|
                            0 <= j < table.strs@.len() ==> (#[trigger] table.strs@[j]).mountpoint@
                                != mountpoint@)
                    },
                    None => forall|j: int|
                        0 <= j < table.strs@.len() ==> !eq_ci(
                            (#[trigger] table.strs@[j]).mountpoint@,
                            mountpoint@,
                        ),
                }
            } else {
                r is None
            },
            None => r is None,
        },
{
    if let Some((_, _, table)) = state.ntrip.sourcetable {
        lemma_first_match(table.strs@, mountpoint@);
    }
}

} // verus!
