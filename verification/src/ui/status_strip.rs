//! The status strip: fix banner, the two configurable readouts, and the
//! stream-activity gauge.
//!
//! Fractional numbers arrive here as text; which unit and which hint goes with
//! them is decided here.
use vstd::prelude::*;

use crate::bus::NtripStatus;
use crate::decimal::{in_units, single_seconds, whole_single_seconds};
use crate::ieee::{Real32, Real64};
use crate::span::{Span, NANOS_PER_SEC};
use crate::state::{GnssState, NtripUi, STALL_AFTER};
use crate::text::{dec, push_dec, same_text};
use crate::ui::theme::{
    Color, DANGER, INK_MUTED, INK_PRIMARY, INK_SECONDARY, SUCCESS, WARNING,
};
use crate::vocab::DisplayId;

verus! {

/// Half-life of the activity envelope.
pub const ACTIVITY_HALF_LIFE_MILLIS: u64 = 400;

/// 1.0, and the sign bit, as binary32 patterns.
pub const ONE32: u32 = 0x3F80_0000;

pub const MINUS_ZERO32: u32 = 0x8000_0000;

// ---------------------------------------------------------------------
// Stream activity
// ---------------------------------------------------------------------

/// What the activity gauge communicates.
#[derive(Debug, Clone, Copy)]
pub enum StreamActivity {
    /// No live session: idle, stopped, or waiting out a reconnect delay.
    Idle,
    /// Connecting, or connected and not yet expected to deliver.
    Waiting,
    /// Corrections are flowing, at this many kilobytes per second.
    Active { rate_kbps: Real64 },
    /// Connected but silent for too long.
    Stalled { silent: Span },
}

/// The gauge's mode for a status, the time since the last correction bytes
/// and the current rate.
pub open spec fn activity_of(
    status: NtripStatus,
    silent: Span,
    rate_kbps: Real64,
) -> StreamActivity {
    match status {
        NtripStatus::Streaming => if silent.nanos > STALL_AFTER {
            StreamActivity::Stalled { silent }
        } else {
            StreamActivity::Active { rate_kbps }
        },
        NtripStatus::WaitingForData => if silent.nanos > STALL_AFTER {
            StreamActivity::Stalled { silent }
        } else {
            StreamActivity::Waiting
        },
        NtripStatus::Connecting { .. } => StreamActivity::Waiting,
        _ => StreamActivity::Idle,
    }
}

/// Map the status and the stream's silence onto the gauge's mode.
pub fn classify_stream(status: &NtripStatus, silent: Span, rate_kbps: Real64) -> (r: StreamActivity)
    ensures
        r == activity_of(*status, silent, rate_kbps),
{
    match status {
        NtripStatus::Streaming => if silent.nanos > STALL_AFTER {
            StreamActivity::Stalled { silent }
        } else {
            StreamActivity::Active { rate_kbps }
        },
        NtripStatus::WaitingForData => if silent.nanos > STALL_AFTER {
            StreamActivity::Stalled { silent }
        } else {
            StreamActivity::Waiting
        },
        NtripStatus::Connecting { .. } => StreamActivity::Waiting,
        _ => StreamActivity::Idle,
    }
}

/// One frame's step of the activity envelope, given the level that is left
/// after the elapsed time's decay: full when the byte total grew, else that.
pub fn advance_activity(decayed: Real32, last_total: u64, new_total: u64) -> (r: Real32)
    ensures
        r == (if new_total > last_total {
            Real32 { bits: ONE32 }
        } else {
            decayed
        }),
{
    if new_total > last_total {
        Real32 { bits: ONE32 }
    } else {
        decayed
    }
}

/// A span in whole seconds, as shown.
pub open spec fn shown_seconds(d: Span) -> Seq<char> {
    dec(
        in_units(
            single_seconds((d.nanos / NANOS_PER_SEC) as nat, (d.nanos % NANOS_PER_SEC) as nat),
            1,
        ),
    )
}

/// Append a span in whole seconds.
pub fn push_seconds(out: &mut String, d: Span)
    ensures
        final(out)@ == old(out)@ + shown_seconds(d),
{
    push_dec(out, whole_single_seconds(d.nanos / NANOS_PER_SEC, d.nanos % NANOS_PER_SEC));
}

/// The gauge's caption and ink; `rate` is the rate with one decimal.
pub fn cluster_caption(mode: &StreamActivity, rate: &str) -> (r: (String, Color))
    ensures
        match *mode {
            StreamActivity::Idle => r.0@ == "-"@ && r.1 == INK_SECONDARY,
            StreamActivity::Waiting => r.0@ == "waiting..."@ && r.1 == INK_SECONDARY,
            StreamActivity::Active { .. } => r.0@ == rate@ + " kB/s"@ && r.1 == INK_PRIMARY,
            StreamActivity::Stalled { silent } => r.0@ == "no data "@ + shown_seconds(silent)
                + " s"@ && r.1 == WARNING,
        },
{
    match mode {
        StreamActivity::Idle => ("-".to_owned(), INK_SECONDARY),
        StreamActivity::Waiting => ("waiting...".to_owned(), INK_SECONDARY),
        StreamActivity::Active { .. } => {
            let mut s = rate.to_owned();
            s.append(" kB/s");
            (s, INK_PRIMARY)
        },
        StreamActivity::Stalled { silent } => {
            let mut s = "no data ".to_owned();
            push_seconds(&mut s, *silent);
            s.append(" s");
            (s, WARNING)
        },
    }
}

/// The gauge's outline: it demands attention only while the stream stalls.
pub fn bar_stroke_color(mode: &StreamActivity) -> (r: Color)
    ensures
        r == (if mode is Stalled {
            WARNING
        } else {
            INK_MUTED
        }),
{
    match mode {
        StreamActivity::Stalled { .. } => WARNING,
        _ => INK_MUTED,
    }
}

/// The fraction of the gauge that is filled: the envelope, kept between 0 and
/// 1, and nothing at all without a session.
pub open spec fn fill_level(mode: StreamActivity, level: Real32) -> Real32 {
    if mode is Idle {
        Real32 { bits: 0 }
    } else if level.is_nan() || level.bits == MINUS_ZERO32 {
        level
    } else if level.bits > MINUS_ZERO32 {
        Real32 { bits: 0 }
    } else if level.bits > ONE32 {
        Real32 { bits: ONE32 }
    } else {
        level
    }
}

/// The fraction of the gauge that is filled.
pub fn bar_fill_level(mode: &StreamActivity, level: Real32) -> (r: Real32)
    ensures
        r == fill_level(*mode, level),
{
    match mode {
        StreamActivity::Idle => {
            return Real32 { bits: 0 };
        },
        _ => {},
    }
    let nan = (0x7F80_0000 < level.bits && level.bits < MINUS_ZERO32) || level.bits > 0xFF80_0000;
    if nan || level.bits == MINUS_ZERO32 {
        level
    } else if level.bits > MINUS_ZERO32 {
        Real32 { bits: 0 }
    } else if level.bits > ONE32 {
        Real32 { bits: ONE32 }
    } else {
        level
    }
}

/// The gauge is empty without a session, whatever the envelope still holds.
pub proof fn law_idle_gauge_is_empty(status: NtripStatus, silent: Span, rate: Real64, level: Real32)
    requires
        status is Idle || status is Stopped || status is ReconnectWait,
    ensures
        fill_level(activity_of(status, silent, rate), level).bits == 0,
{
}

// ---------------------------------------------------------------------
// Fix banner
// ---------------------------------------------------------------------

/// The ink of a fix quality.
pub open spec fn quality_ink(has_fix_data: bool, quality: u8) -> Color {
    if !has_fix_data {
        INK_SECONDARY
    } else if quality == 0 {
        DANGER
    } else if quality == 4 {
        SUCCESS
    } else if quality == 5 {
        WARNING
    } else if quality == 1 || quality == 2 || quality == 9 {
        INK_PRIMARY
    } else {
        INK_SECONDARY
    }
}

/// RTK fixed is the success state, RTK float the warning, an invalid fix the
/// danger; ordinary fixes read in plain ink, everything else recedes.
pub fn fix_quality_color(has_fix_data: bool, quality: u8) -> (r: Color)
    ensures
        r == quality_ink(has_fix_data, quality),
{
    if !has_fix_data {
        return INK_SECONDARY;
    }
    match quality {
        0 => DANGER,
        4 => SUCCESS,
        5 => WARNING,
        1 => INK_PRIMARY,
        2 => INK_PRIMARY,
        9 => INK_PRIMARY,
        _ => INK_SECONDARY,
    }
}

/// The banner; `quality_name` names the current fix quality.
pub fn fix_label(g: &GnssState, quality_name: &str) -> (r: (String, Color))
    ensures
        r.0@ == (if g.has_fix_data {
            quality_name@
        } else {
            "No Fix Data"@
        }),
        r.1 == quality_ink(g.has_fix_data, g.quality),
{
    let color = fix_quality_color(g.has_fix_data, g.quality);
    if g.has_fix_data {
        (quality_name.to_owned(), color)
    } else {
        ("No Fix Data".to_owned(), color)
    }
}

// ---------------------------------------------------------------------
// Readouts
// ---------------------------------------------------------------------

/// Whether a receiver is, or has been, supplying sentences.
#[derive(Debug, Clone, Copy, PartialEq, Eq, Structural)]
pub struct ReceiverPresence {
    /// Any sentence at all arrived since the program started.
    pub nmea_seen: bool,
    pub serial_connected: bool,
}

impl ReceiverPresence {
    /// Why a receiver-derived readout is empty.
    pub fn hint_text(&self) -> (r: &'static str)
        ensures
            r@ == (if self.nmea_seen {
                "The receiver's NMEA is parsing, but no GGA sentence has arrived - enable GGA output on the receiver to get fix data."@
            } else if self.serial_connected {
                "The serial port is open but no NMEA has arrived yet - check the baud rate and framing."@
            } else {
                "This value comes from the GPS receiver's NMEA sentences on the serial port, not from the caster stream. Connect a receiver under Receiver (Serial) to populate it."@
            }),
    {
        if self.nmea_seen {
            "The receiver's NMEA is parsing, but no GGA sentence has arrived - enable GGA output on the receiver to get fix data."
        } else if self.serial_connected {
            "The serial port is open but no NMEA has arrived yet - check the baud rate and framing."
        } else {
            "This value comes from the GPS receiver's NMEA sentences on the serial port, not from the caster stream. Connect a receiver under Receiver (Serial) to populate it."
        }
    }
}

/// The caption under an empty readout.
#[derive(Debug, Clone, Copy, PartialEq, Eq, Structural)]
pub enum SlotHint {
    NoHint,
    NeedsReceiver,
    WaitingForNmea,
}

/// Whether a readout does not come from the receiver.
pub open spec fn stream_side(id: DisplayId) -> bool {
    id == DisplayId::Nothing || id == DisplayId::DataAge || id == DisplayId::DataRate
}

/// The hint for a readout showing `value`.
pub open spec fn hint_of(id: DisplayId, value: Seq<char>, r: ReceiverPresence) -> SlotHint {
    if stream_side(id) || value != "-"@ || r.nmea_seen {
        SlotHint::NoHint
    } else if r.serial_connected {
        SlotHint::WaitingForNmea
    } else {
        SlotHint::NeedsReceiver
    }
}

/// Decide the hint for a readout: only the bare dash of a receiver-derived
/// readout that was never filled gets one.
pub fn slot_hint(id: DisplayId, value: &str, r: ReceiverPresence) -> (h: SlotHint)
    ensures
        h == hint_of(id, value@, r),
{
    let stream = id == DisplayId::Nothing || id == DisplayId::DataAge || id == DisplayId::DataRate;
    if stream || !same_text(value, "-") || r.nmea_seen {
        return SlotHint::NoHint;
    }
    if r.serial_connected {
        SlotHint::WaitingForNmea
    } else {
        SlotHint::NeedsReceiver
    }
}

/// The caption of a hint.
pub fn hint_caption(h: SlotHint) -> (r: Option<&'static str>)
    ensures
        match h {
            SlotHint::NoHint => r is None,
            SlotHint::NeedsReceiver => r matches Some(t) && t@ == "needs receiver"@,
            SlotHint::WaitingForNmea => r matches Some(t) && t@ == "waiting for NMEA"@,
        },
{
    match h {
        SlotHint::NoHint => None,
        SlotHint::NeedsReceiver => Some("needs receiver"),
        SlotHint::WaitingForNmea => Some("waiting for NMEA"),
    }
}

/// A stream-side readout never asks for a receiver, and once a receiver has
/// spoken none does.
pub proof fn law_hints_only_where_a_receiver_helps(
    id: DisplayId,
    value: Seq<char>,
    r: ReceiverPresence,
)
    ensures
        hint_of(id, value, r) != SlotHint::NoHint ==> !stream_side(id) && value == "-"@
            && !r.nmea_seen,
{
}

/// What the stream-side readouts draw on.
#[derive(Debug, Clone, Copy)]
pub struct StreamView {
    /// Time since the last correction bytes; none before the first ones.
    pub last_rx_age: Option<Span>,
    /// Whether there is a rate to show.
    pub rate_shown: bool,
}

/// The stream-side readouts' sources. Before the first byte there is no data
/// age, even though silence is already being measured.
pub fn stream_view(n: &NtripUi, now: u64) -> (r: StreamView)
    ensures
        r.last_rx_age == match (n.age(now), n.last_rx) {
            (Some(_), Some(t)) => Some(Span::between(t, now)),
            _ => None,
        },
        r.rate_shown == (n.age(now) is Some),
{
    let live = n.rx_age(now).is_some();
    let last_rx_age = match n.last_rx {
        Some(t) => if live {
            Some(Span::since(t, now))
        } else {
            None
        },
        None => None,
    };
    StreamView { last_rx_age, rate_shown: live }
}

/// The number behind a readout, before it is rendered.
#[derive(Debug, Clone, Copy)]
pub enum Figure {
    /// As it stands.
    Plain(Real32),
    /// Meters, to be shown in feet.
    Feet(Real32),
    /// Knots, to be shown in miles per hour.
    Mph(Real32),
    /// Knots, to be shown in kilometers per hour.
    Kmh(Real32),
    /// The smoothed speed, if there is one yet.
    SmoothMph,
    SmoothKmh,
    /// A time span, in seconds.
    Since(Span),
    /// The receive rate.
    Rate,
}

/// A receiver's value under a way of showing it.
pub open spec fn shown_as(v: Option<Real32>, f: spec_fn(Real32) -> Figure) -> Option<Figure> {
    match v {
        Some(x) => Some(f(x)),
        None => None,
    }
}

/// Where a readout's number comes from.
pub open spec fn figure_of(id: DisplayId, g: GnssState, s: StreamView) -> Option<Figure> {
    match id {
        DisplayId::Age => shown_as(g.age_s, |x: Real32| Figure::Plain(x)),
        DisplayId::Hdop => shown_as(g.hdop, |x: Real32| Figure::Plain(x)),
        DisplayId::Vdop => shown_as(g.vdop, |x: Real32| Figure::Plain(x)),
        DisplayId::Pdop => shown_as(g.pdop, |x: Real32| Figure::Plain(x)),
        DisplayId::ElevationFeet => shown_as(g.alt_m, |x: Real32| Figure::Feet(x)),
        DisplayId::ElevationMeters => shown_as(g.alt_m, |x: Real32| Figure::Plain(x)),
        DisplayId::SpeedMph => shown_as(g.speed_knots, |x: Real32| Figure::Mph(x)),
        DisplayId::SpeedMphSmoothed => Some(Figure::SmoothMph),
        DisplayId::SpeedKmh => shown_as(g.speed_knots, |x: Real32| Figure::Kmh(x)),
        DisplayId::SpeedKmhSmoothed => Some(Figure::SmoothKmh),
        DisplayId::Heading => shown_as(g.heading_deg, |x: Real32| Figure::Plain(x)),
        DisplayId::DataAge => match s.last_rx_age {
            Some(d) => Some(Figure::Since(d)),
            None => None,
        },
        DisplayId::DataRate => if s.rate_shown {
            Some(Figure::Rate)
        } else {
            None
        },
        DisplayId::Nothing => None,
    }
}

/// Where a readout's number comes from: the receiver's latest value, or the
/// stream.
pub fn slot_figure(id: DisplayId, g: &GnssState, s: &StreamView) -> (r: Option<Figure>)
    ensures
        r == figure_of(id, *g, *s),
{
    let value = match id {
        DisplayId::Age => g.age_s,
        DisplayId::Hdop => g.hdop,
        DisplayId::Vdop => g.vdop,
        DisplayId::Pdop => g.pdop,
        DisplayId::ElevationFeet => g.alt_m,
        DisplayId::ElevationMeters => g.alt_m,
        DisplayId::SpeedMph => g.speed_knots,
        DisplayId::SpeedKmh => g.speed_knots,
        DisplayId::Heading => g.heading_deg,
        DisplayId::SpeedMphSmoothed => {
            return Some(Figure::SmoothMph);
        },
        DisplayId::SpeedKmhSmoothed => {
            return Some(Figure::SmoothKmh);
        },
        DisplayId::DataAge => {
            return match s.last_rx_age {
                Some(d) => Some(Figure::Since(d)),
                None => None,
            };
        },
        DisplayId::DataRate => {
            return if s.rate_shown {
                Some(Figure::Rate)
            } else {
                None
            };
        },
        DisplayId::Nothing => {
            return None;
        },
    };
    match value {
        None => None,
        Some(x) => match id {
            DisplayId::ElevationFeet => Some(Figure::Feet(x)),
            DisplayId::SpeedMph => Some(Figure::Mph(x)),
            DisplayId::SpeedKmh => Some(Figure::Kmh(x)),
            _ => Some(Figure::Plain(x)),
        },
    }
}

/// The unit behind a readout's number.
pub open spec fn unit_of(id: DisplayId) -> Seq<char> {
    match id {
        DisplayId::Age => " s"@,
        DisplayId::Hdop => ""@,
        DisplayId::Vdop => ""@,
        DisplayId::Pdop => ""@,
        DisplayId::ElevationFeet => " ft"@,
        DisplayId::ElevationMeters => " m"@,
        DisplayId::SpeedMph => " mph"@,
        DisplayId::SpeedMphSmoothed => " mph"@,
        DisplayId::SpeedKmh => " km/h"@,
        DisplayId::SpeedKmhSmoothed => " km/h"@,
        DisplayId::Heading => " deg"@,
        DisplayId::DataAge => " s"@,
        DisplayId::DataRate => " kB/s"@,
        DisplayId::Nothing => ""@,
    }
}

/// The decimals of a readout's number.
pub fn slot_decimals(id: DisplayId) -> (r: u8)
    ensures
        r == if id == DisplayId::Heading {
            0u8
        } else {
            1
        },
{
    if id == DisplayId::Heading {
        0
    } else {
        1
    }
}

/// What a readout shows: its number with the unit, a dash while its source
/// has not supplied one, and nothing in the empty readout.
pub fn slot_value(id: DisplayId, number: Option<&str>) -> (r: String)
    ensures
        r@ == (if id == DisplayId::Nothing {
            ""@
        } else {
            match number {
                Some(n) => n@ + unit_of(id),
                None => "-"@,
            }
        }),
{
    if id == DisplayId::Nothing {
        return "".to_owned();
    }
    match number {
        None => "-".to_owned(),
        Some(n) => {
            let unit = match id {
                DisplayId::Age => " s",
                DisplayId::Hdop => "",
                DisplayId::Vdop => "",
                DisplayId::Pdop => "",
                DisplayId::ElevationFeet => " ft",
                DisplayId::ElevationMeters => " m",
                DisplayId::SpeedMph => " mph",
                DisplayId::SpeedMphSmoothed => " mph",
                DisplayId::SpeedKmh => " km/h",
                DisplayId::SpeedKmhSmoothed => " km/h",
                DisplayId::Heading => " deg",
                DisplayId::DataAge => " s",
                DisplayId::DataRate => " kB/s",
                DisplayId::Nothing => "",
            };
            let mut s = n.to_owned();
            s.append(unit);
            s
        },
    }
}

} // verus!
