//! The stream detail tab: statistics by message type, and the latest decodes.
use vstd::prelude::*;

use crate::ieee::Real64;
use crate::span::Span;
use crate::state::{entries_of, stat_rows, ClockTime, Decoded, Decodes, NtripUi, RtcmTypeStat};
use crate::text::{dec, dec_pad, dec_string, push_dec, push_dec_pad};
use crate::workers::ntrip::{manual_position_set, position_set};

verus! {

// ---------------------------------------------------------------------
// Statistics
// ---------------------------------------------------------------------

/// One row of the type table.
#[derive(Debug, Clone, Copy)]
pub struct TypeRow {
    pub ty: u16,
    pub count: u64,
    pub last_frame_len: u32,
    /// Time since the type was last seen.
    pub age: Span,
}

/// The type table, by ascending type.
pub fn type_table(n: &NtripUi, now: u64) -> (r: Vec<TypeRow>)
    ensures
        r@.len() == stat_rows(n.rtcm@).len(),
        forall|i: int|
            0 <= i < r@.len() ==> {
                let s = stat_rows(n.rtcm@)[i];
                #[trigger] r@[i] == (TypeRow {
                    ty: s.0,
                    count: s.1.count,
                    last_frame_len: s.1.last_frame_len,
                    age: Span::between(s.1.last_seen, now),
                })
            },
{
    let entries = entries_of(&n.rtcm);
    let mut r: Vec<TypeRow> = Vec::new();
    let mut i: usize = 0;
    while i < entries.len()
        invariant
            i <= entries@.len(),
            r@.len() == i,
            forall|k: int|
                0 <= k < i ==> #[trigger] r@[k] == (TypeRow {
                    ty: entries@[k].0,
                    count: entries@[k].1.count,
                    last_frame_len: entries@[k].1.last_frame_len,
                    age: Span::between(entries@[k].1.last_seen, now),
                }),
        decreases entries.len() - i,
    {
        let (ty, s): (u16, RtcmTypeStat) = entries[i];
        r.push(
            TypeRow {
                ty,
                count: s.count,
                last_frame_len: s.last_frame_len,
                age: Span::since(s.last_seen, now),
            },
        );
        i += 1;
    }
    r
}

/// Frames over all types.
pub open spec fn frame_total(rows: Seq<(u16, RtcmTypeStat)>) -> nat
    decreases rows.len(),
{
    if rows.len() == 0 {
        0
    } else {
        frame_total(rows.drop_last()) + rows.last().1.count as nat
    }
}

proof fn lemma_frame_total(rows: Seq<(u16, RtcmTypeStat)>, k: int)
    requires
        0 <= k <= rows.len(),
    ensures
        frame_total(rows.take(k)) <= frame_total(rows),
    decreases rows.len(),
{
    if k == rows.len() {
        assert(rows.take(k) =~= rows);
    } else {
        assert(rows.drop_last().take(k) =~= rows.take(k));
        lemma_frame_total(rows.drop_last(), k);
    }
}

/// Number of types, and of frames over all of them.
pub fn totals(n: &NtripUi) -> (r: (usize, u64))
    requires
        frame_total(stat_rows(n.rtcm@)) <= u64::MAX,
    ensures
        r.0 == stat_rows(n.rtcm@).len(),
        r.1 == frame_total(stat_rows(n.rtcm@)),
{
    let entries = entries_of(&n.rtcm);
    let mut sum: u64 = 0;
    let mut i: usize = 0;
    assert(entries@.take(0) =~= Seq::<(u16, RtcmTypeStat)>::empty());
    while i < entries.len()
        invariant
            i <= entries@.len(),
            frame_total(entries@) <= u64::MAX,
            sum == frame_total(entries@.take(i as int)),
        decreases entries.len() - i,
    {
        proof {
            assert(entries@.take(i + 1).drop_last() =~= entries@.take(i as int));
            lemma_frame_total(entries@, i + 1);
        }
        sum = sum + entries[i].1.count;
        i += 1;
    }
    assert(entries@.take(i as int) =~= entries@);
    (entries.len(), sum)
}

/// The totals strip: the totals, and the two health counters, each with
/// whether it calls for attention.
#[derive(Debug)]
pub struct TotalsStrip {
    pub totals: String,
    pub crc: String,
    pub crc_alert: bool,
    pub garbage: String,
    pub garbage_alert: bool,
}

/// The totals strip.
pub fn totals_strip(n: &NtripUi) -> (r: TotalsStrip)
    requires
        frame_total(stat_rows(n.rtcm@)) <= u64::MAX,
    ensures
        r.totals@ == dec(stat_rows(n.rtcm@).len()) + " types, "@ + dec(
            frame_total(stat_rows(n.rtcm@)),
        ) + " frames"@,
        r.crc@ == "CRC failures: "@ + dec(n.rtcm_crc_failures as nat),
        r.crc_alert == (n.rtcm_crc_failures > 0),
        r.garbage@ == "garbage bytes: "@ + dec(n.rtcm_garbage_bytes as nat),
        r.garbage_alert == (n.rtcm_garbage_bytes > 0),
{
    let (types, frames): (usize, u64) = totals(n);
    let mut t = dec_string(types as u64);
    t.append(" types, ");
    push_dec(&mut t, frames);
    t.append(" frames");
    let mut crc = "CRC failures: ".to_owned();
    push_dec(&mut crc, n.rtcm_crc_failures);
    let mut garbage = "garbage bytes: ".to_owned();
    push_dec(&mut garbage, n.rtcm_garbage_bytes);
    TotalsStrip {
        totals: t,
        crc,
        crc_alert: n.rtcm_crc_failures > 0,
        garbage,
        garbage_alert: n.rtcm_garbage_bytes > 0,
    }
}

// ---------------------------------------------------------------------
// Decodes
// ---------------------------------------------------------------------

/// One row of the decode panel; a row without a decode is shown weakly.
#[derive(Debug)]
pub struct PanelRow {
    pub label: &'static str,
    pub value: String,
    pub weak: bool,
}

/// What a [`PanelRow`] says.
pub open spec fn row_view(r: PanelRow) -> (Seq<char>, Seq<char>, bool) {
    (r.label@, r.value@, r.weak)
}

/// What a list of rows says.
pub open spec fn row_views(v: Seq<PanelRow>) -> Seq<(Seq<char>, Seq<char>, bool)> {
    Seq::new(v.len(), |i: int| row_view(v[i]))
}

fn push_row(v: &mut Vec<PanelRow>, label: &'static str, value: String, weak: bool)
    ensures
        row_views(final(v)@) == row_views(old(v)@).push((label@, value@, weak)),
{
    v.push(PanelRow { label, value, weak });
    assert(row_views(v@) =~= row_views(old(v)@).push((label@, value@, weak)));
}

/// Texts of the numbers of a base station's rows.
#[derive(Debug, Clone, Copy)]
pub struct BaseTexts<'a> {
    /// Position with its height.
    pub position: &'a str,
    /// Antenna height in meters, four decimals.
    pub antenna_height: &'a str,
    /// Distance to the user, when both ends are known.
    pub baseline: Option<&'a str>,
}

/// The base station's rows.
pub open spec fn base_lines(base: Option<Decoded>, t: BaseTexts) -> Seq<
    (Seq<char>, Seq<char>, bool),
> {
    match base {
        Some(Decoded::BasePosition { station_id, is_1006, antenna_height_m, .. }) => {
            let head = seq![
                (
                    "Base station"@,
                    dec(station_id as nat) + (if is_1006 {
                        " (msg 1006)"@
                    } else {
                        " (msg 1005)"@
                    }),
                    false,
                ),
                ("Position"@, t.position@, false),
            ];
            let mid = if antenna_height_m is Some {
                head.push(("Antenna height"@, t.antenna_height@ + " m"@, false))
            } else {
                head
            };
            mid.push(
                match t.baseline {
                    Some(b) => ("Baseline"@, b@, false),
                    None => ("Baseline"@, "-"@, true),
                },
            )
        },
        _ => seq![("Base station"@, "no 1005/1006 seen"@, true)],
    }
}

/// The base station's rows. Only message 1006 carries an antenna height.
pub fn base_rows(d: &Decodes, t: BaseTexts) -> (r: Vec<PanelRow>)
    ensures
        row_views(r@) == base_lines(d.base, t),
{
    let mut r: Vec<PanelRow> = Vec::new();
    assert(row_views(r@) =~= Seq::<(Seq<char>, Seq<char>, bool)>::empty());
    match &d.base {
        Some(Decoded::BasePosition { station_id, is_1006, antenna_height_m, .. }) => {
            let mut id = dec_string(*station_id as u64);
            id.append(
                if *is_1006 {
                    " (msg 1006)"
                } else {
                    " (msg 1005)"
                },
            );
            push_row(&mut r, "Base station", id, false);
            push_row(&mut r, "Position", t.position.to_owned(), false);
            if antenna_height_m.is_some() {
                let mut h = t.antenna_height.to_owned();
                h.append(" m");
                push_row(&mut r, "Antenna height", h, false);
            }
            match t.baseline {
                Some(b) => push_row(&mut r, "Baseline", b.to_owned(), false),
                None => push_row(&mut r, "Baseline", "-".to_owned(), true),
            }
        },
        _ => push_row(&mut r, "Base station", "no 1005/1006 seen".to_owned(), true),
    }
    assert(row_views(r@) =~= base_lines(d.base, t));
    r
}

/// The receiver descriptor and firmware on one line.
pub open spec fn receiver_line(receiver: Option<Seq<char>>, firmware: Option<Seq<char>>) -> Seq<
    char,
> {
    match (receiver, firmware) {
        (Some(r), Some(f)) => r + " fw "@ + f,
        (Some(r), None) => r,
        (None, Some(f)) => "fw "@ + f,
        (None, None) => "-"@,
    }
}

/// The text of an optional string.
pub open spec fn opt_str(s: Option<&str>) -> Option<Seq<char>> {
    match s {
        Some(t) => Some(t@),
        None => None,
    }
}

/// The text of an optional string.
pub open spec fn opt_string(s: Option<String>) -> Option<Seq<char>> {
    match s {
        Some(t) => Some(t@),
        None => None,
    }
}

/// The receiver descriptor and firmware on one line; either may be absent.
pub fn receiver_text(receiver: Option<&str>, firmware: Option<&str>) -> (r: String)
    ensures
        r@ == receiver_line(opt_str(receiver), opt_str(firmware)),
{
    match (receiver, firmware) {
        (Some(r), Some(f)) => {
            let mut s = r.to_owned();
            s.append(" fw ");
            s.append(f);
            s
        },
        (Some(r), None) => r.to_owned(),
        (None, Some(f)) => {
            let mut s = "fw ".to_owned();
            s.append(f);
            s
        },
        (None, None) => "-".to_owned(),
    }
}

/// The antenna's and receiver's rows.
pub open spec fn antenna_lines(antenna: Option<Decoded>) -> Seq<(Seq<char>, Seq<char>, bool)> {
    match antenna {
        Some(Decoded::AntennaInfo {
            station_id,
            antenna,
            setup_id,
            antenna_serial,
            receiver,
            firmware,
            receiver_serial,
        }) => {
            let a = seq![
                (
                    "Antenna"@,
                    (if antenna@.len() == 0 {
                        "-"@
                    } else {
                        antenna@
                    }) + " (station "@ + dec(station_id as nat) + ", setup "@ + dec(
                        setup_id as nat,
                    ) + ")"@,
                    false,
                ),
            ];
            let b = match antenna_serial {
                Some(s) => a.push(("Antenna serial"@, s@, false)),
                None => a,
            };
            let c = if receiver is Some || firmware is Some {
                b.push(
                    ("Receiver"@, receiver_line(opt_string(receiver), opt_string(firmware)), false),
                )
            } else {
                b
            };
            match receiver_serial {
                Some(s) => c.push(("Receiver serial"@, s@, false)),
                None => c,
            }
        },
        _ => seq![("Antenna"@, "no 1008/1033 seen"@, true)],
    }
}

fn as_text<'a>(s: &'a Option<String>) -> (r: Option<&'a str>)
    ensures
        opt_str(r) == opt_string(*s),
{
    match s {
        Some(t) => Some(t.as_str()),
        None => None,
    }
}

/// The antenna's and receiver's rows.
pub fn antenna_rows(d: &Decodes) -> (r: Vec<PanelRow>)
    ensures
        row_views(r@) == antenna_lines(d.antenna),
{
    let mut r: Vec<PanelRow> = Vec::new();
    assert(row_views(r@) =~= Seq::<(Seq<char>, Seq<char>, bool)>::empty());
    match &d.antenna {
        Some(Decoded::AntennaInfo {
            station_id,
            antenna,
            setup_id,
            antenna_serial,
            receiver,
            firmware,
            receiver_serial,
        }) => {
            let mut a = if antenna.as_str().is_empty() {
                "-".to_owned()
            } else {
                antenna.clone()
            };
            a.append(" (station ");
            push_dec(&mut a, *station_id as u64);
            a.append(", setup ");
            push_dec(&mut a, *setup_id as u64);
            a.append(")");
            push_row(&mut r, "Antenna", a, false);
            if let Some(s) = antenna_serial {
                push_row(&mut r, "Antenna serial", s.clone(), false);
            }
            if receiver.is_some() || firmware.is_some() {
                push_row(
                    &mut r,
                    "Receiver",
                    receiver_text(as_text(receiver), as_text(firmware)),
                    false,
                );
            }
            if let Some(s) = receiver_serial {
                push_row(&mut r, "Receiver serial", s.clone(), false);
            }
        },
        _ => push_row(&mut r, "Antenna", "no 1008/1033 seen".to_owned(), true),
    }
    assert(row_views(r@) =~= antenna_lines(d.antenna));
    r
}

/// A time of day: HH:MM:SS.
pub open spec fn clock_words(t: ClockTime) -> Seq<char> {
    dec_pad(t.hour as nat, 2) + ":"@ + dec_pad(t.min as nat, 2) + ":"@ + dec_pad(t.sec as nat, 2)
}

/// The row of the latest text message.
pub fn text_row(d: &Decodes) -> (r: PanelRow)
    ensures
        row_view(r) == match d.text_1029 {
            Some((at, Decoded::TextMessage { station_id, text })) => (
                "Text (1029)"@,
                "["@ + clock_words(at) + "] station "@ + dec(station_id as nat) + ": "@ + text@,
                false,
            ),
            _ => ("Text (1029)"@, "none received"@, true),
        },
{
    match &d.text_1029 {
        Some((at, Decoded::TextMessage { station_id, text })) => {
            let mut clock = String::new();
            push_dec_pad(&mut clock, at.hour as u64, 2);
            clock.append(":");
            push_dec_pad(&mut clock, at.min as u64, 2);
            clock.append(":");
            push_dec_pad(&mut clock, at.sec as u64, 2);
            assert(clock@ =~= clock_words(*at));
            let mut s = "[".to_owned();
            s.append(clock.as_str());
            s.append("] station ");
            push_dec(&mut s, *station_id as u64);
            s.append(": ");
            s.append(text.as_str());
            PanelRow { label: "Text (1029)", value: s, weak: false }
        },
        _ => PanelRow { label: "Text (1029)", value: "none received".to_owned(), weak: true },
    }
}

/// The row of the latest code-phase biases.
pub fn biases_row(d: &Decodes) -> (r: PanelRow)
    ensures
        row_view(r) == match d.biases_1230 {
            Some(Decoded::GlonassBiases { station_id, biases }) => (
                "GLONASS biases (1230)"@,
                "seen (station "@ + dec(station_id as nat) + ", "@ + dec(biases as nat)
                    + " biases)"@,
                false,
            ),
            _ => ("GLONASS biases (1230)"@, "not seen"@, true),
        },
{
    match &d.biases_1230 {
        Some(Decoded::GlonassBiases { station_id, biases }) => {
            let mut s = "seen (station ".to_owned();
            push_dec(&mut s, *station_id as u64);
            s.append(", ");
            push_dec(&mut s, *biases as u64);
            s.append(" biases)");
            PanelRow { label: "GLONASS biases (1230)", value: s, weak: false }
        },
        _ => PanelRow {
            label: "GLONASS biases (1230)",
            value: "not seen".to_owned(),
            weak: true,
        },
    }
}

// ---------------------------------------------------------------------
// Baseline
// ---------------------------------------------------------------------

/// The user's end of the baseline: the receiver's last position if there is
/// one, else the profile's manual point at height zero if it is set.
pub fn user_position(
    receiver: Option<(Real64, Real64, Real64)>,
    manual_lat: Real64,
    manual_lon: Real64,
) -> (r: Option<((Real64, Real64, Real64), &'static str)>)
    ensures
        match receiver {
            Some(p) => r matches Some((q, source)) && q == p && source@ == "receiver"@,
            None => if position_set(manual_lat, manual_lon) {
                r matches Some((q, source)) && q.0 == manual_lat && q.1 == manual_lon && q.2.bits
                    == 0 && source@ == "manual"@
            } else {
                r is None
            },
        },
{
    if let Some(p) = receiver {
        return Some((p, "receiver"));
    }
    if !manual_position_set(manual_lat, manual_lon) {
        return None;
    }
    Some(((manual_lat, manual_lon, Real64::zero()), "manual"))
}

/// The baseline label: the distance, and which position it is measured from;
/// none unless both ends are known. `distance` is the text of the distance
/// between them.
pub fn baseline_text(
    user: Option<((Real64, Real64, Real64), &str)>,
    base: Option<(Real64, Real64, Real64)>,
    distance: &str,
) -> (r: Option<String>)
    ensures
        match (user, base) {
            (Some((_, source)), Some(_)) => r matches Some(t) && t@ == distance@ + " (from "@
                + source@ + " position)"@,
            _ => r is None,
        },
{
    match (user, base) {
        (Some((_, source)), Some(_)) => {
            let mut s = distance.to_owned();
            s.append(" (from ");
            s.append(source);
            s.append(" position)");
            Some(s)
        },
        _ => None,
    }
}

// ---------------------------------------------------------------------
// Numbers
// ---------------------------------------------------------------------

/// A rate with one decimal, or a dash before the first full window.
pub fn fmt_hz(hz: Option<&str>) -> (r: String)
    ensures
        r@ == match hz {
            Some(v) => v@ + " Hz"@,
            None => "-"@,
        },
{
    match hz {
        Some(v) => {
            let mut s = v.to_owned();
            s.append(" Hz");
            s
        },
        None => "-".to_owned(),
    }
}

/// 9.95, 599.5 and 2000, as binary64 patterns.
pub const TENTHS_BELOW: u64 = 0x4023_E666_6666_6666;

pub const SECONDS_BELOW: u64 = 0x4082_BC00_0000_0000;

pub const METERS_BELOW: u64 = 0x409F_4000_0000_0000;

/// The age of a message type in seconds: with a decimal below ten seconds,
/// where most types repeat; whole seconds up to ten minutes; minutes beyond.
/// The three texts are that number in each of those forms.
pub fn fmt_age(secs: Real64, tenths: &str, whole: &str, minutes: &str) -> (r: String)
    ensures
        r@ == (if secs.under(TENTHS_BELOW) {
            tenths@ + " s"@
        } else if secs.under(SECONDS_BELOW) {
            whole@ + " s"@
        } else {
            minutes@ + " min"@
        }),
{
    let (number, unit) = if secs.is_under(TENTHS_BELOW) {
        (tenths, " s")
    } else if secs.is_under(SECONDS_BELOW) {
        (whole, " s")
    } else {
        (minutes, " min")
    };
    let mut s = number.to_owned();
    s.append(unit);
    s
}

/// A baseline in meters: whole meters below two kilometers, kilometers with
/// one decimal beyond. The texts are the distance in each of those forms.
pub fn fmt_baseline(meters: Real64, whole: &str, kilometers: &str) -> (r: String)
    ensures
        r@ == (if meters.under(METERS_BELOW) {
            whole@ + " m"@
        } else {
            kilometers@ + " km"@
        }),
{
    let (number, unit) = if meters.is_under(METERS_BELOW) {
        (whole, " m")
    } else {
        (kilometers, " km")
    };
    let mut s = number.to_owned();
    s.append(unit);
    s
}

/// A base station's position: seven decimals each for the two angles, one for
/// the height. A base that was not surveyed has none, and that is said rather
/// than a point made up.
pub fn position_text(lla: Option<(&str, &str, &str)>) -> (r: String)
    ensures
        r@ == match lla {
            Some((lat, lon, alt)) => lat@ + ", "@ + lon@ + "  alt "@ + alt@ + " m"@,
            None => "position not set (all-zero ECEF)"@,
        },
{
    match lla {
        Some((lat, lon, alt)) => {
            let mut s = lat.to_owned();
            s.append(", ");
            s.append(lon);
            s.append("  alt ");
            s.append(alt);
            s.append(" m");
            s
        },
        None => "position not set (all-zero ECEF)".to_owned(),
    }
}

} // verus!
