//! NTRIP worker policy: what a job asks for, when it reconnects, and the
//! words in which the logs explain it.
use vstd::prelude::*;
use vstd::utf8::encode_utf8;

use crate::decimal::{
    in_units, push_tenths, round_integer, round_quotient, round_sum, rounded, rounded_int,
    rounded_sum, tenths_text, to_units, LEAST53,
};
use crate::ieee::Real64;
use crate::logging::CaptureTarget;
use crate::session::{CloseReason, GgaPolicy, NtripVersion, Transport};
use crate::span::{Span, NANOS_PER_SEC};
use crate::text::{dec, push_dec};
use crate::vocab::{GgaMode, GgaSource};

verus! {

/// Socket connect budget per address, in milliseconds.
pub const CONNECT_TIMEOUT_MS: u64 = 10_000;

/// Socket read timeout, in milliseconds; it doubles as the session's tick.
pub const READ_TIMEOUT_MS: u64 = 400;

/// Wait before a reconnect, in milliseconds.
pub const RECONNECT_DELAY_MS: u64 = 10_000;

/// 90 degrees as a binary64 pattern.
pub const LATITUDE_LIMIT: u64 = 0x4056_8000_0000_0000;

/// 180 degrees as a binary64 pattern.
pub const LONGITUDE_LIMIT: u64 = 0x4066_8000_0000_0000;

/// Everything one worker run needs. An empty mountpoint makes this a
/// sourcetable request.
#[derive(Debug)]
pub struct NtripJob {
    pub host: String,
    pub port: u16,
    pub mountpoint: String,
    pub username: String,
    pub password: String,
    pub version: NtripVersion,
    pub transport: Transport,
    pub tls: bool,
    /// Diagnostic override: accept any server certificate.
    pub allow_invalid_certs: bool,
    pub gga_mode: GgaMode,
    pub gga_source: GgaSource,
    pub manual_lat: Real64,
    pub manual_lon: Real64,
    /// Whether the sourcetable row asks for a position; unknown without one.
    pub stream_requires_gga: Option<bool>,
    pub reconnect: ReconnectPolicy,
    pub max_attempts: u32,
    /// Sound played on the first drop of an outage; empty means silent.
    pub audio_alert: String,
    /// Raw-corrections capture destination, if any.
    pub capture: Option<CaptureTarget>,
    pub user_agent: String,
}

impl NtripJob {
    /// Whether this job asks for the sourcetable instead of a stream.
    pub open spec fn wants_table(&self) -> bool {
        self.transport == Transport::Ntrip && self.mountpoint@.len() == 0
    }

    pub fn is_table_request(&self) -> (r: bool)
        ensures
            r == self.wants_table(),
    {
        self.transport == Transport::Ntrip && self.mountpoint.as_str().is_empty()
    }
}

/// Whether, and why not, a job reconnects after a transient close.
#[derive(Debug, Clone, Copy, PartialEq, Eq, Structural)]
pub enum ReconnectPolicy {
    /// Ride outages: reconnect transient closes within the attempt budget.
    Auto,
    /// The Options auto-reconnect setting is off.
    OptionsOff,
    /// One-shot by design regardless of Options.
    OneShot,
}

impl ReconnectPolicy {
    pub fn enabled(self) -> (r: bool)
        ensures
            r == (self == ReconnectPolicy::Auto),
    {
        self == ReconnectPolicy::Auto
    }
}

// ---------------------------------------------------------------------
// Position policy
// ---------------------------------------------------------------------

/// The session policy for a profile's settings. An unknown requirement counts
/// as required: only an explicit row that asks for none suppresses sending.
pub open spec fn policy(mode: GgaMode, stream_requires: Option<bool>) -> GgaPolicy {
    match mode {
        GgaMode::Off => GgaPolicy::Off,
        GgaMode::Always => GgaPolicy::Always,
        GgaMode::WhenRequired => GgaPolicy::WhenRequired {
            stream_requires: stream_requires != Some(false),
        },
    }
}

/// Map profile position settings onto the session's policy.
pub fn gga_policy(mode: GgaMode, stream_requires: Option<bool>) -> (r: GgaPolicy)
    ensures
        r == policy(mode, stream_requires),
{
    match mode {
        GgaMode::Off => GgaPolicy::Off,
        GgaMode::Always => GgaPolicy::Always,
        GgaMode::WhenRequired => GgaPolicy::WhenRequired {
            stream_requires: stream_requires.unwrap_or(true),
        },
    }
}

/// A real position: latitude within 90 and longitude within 180 degrees of
/// zero (so neither NaN nor infinite), and not exactly (0, 0), which means
/// "never configured".
pub open spec fn position_set(lat: Real64, lon: Real64) -> bool {
    lat.magnitude() <= LATITUDE_LIMIT && lon.magnitude() <= LONGITUDE_LIMIT && (lat.magnitude()
        != 0 || lon.magnitude() != 0)
}

/// Whether a manual position is usable.
pub fn manual_position_set(lat: Real64, lon: Real64) -> (r: bool)
    ensures
        r == position_set(lat, lon),
{
    lat.within(LATITUDE_LIMIT) && lon.within(LONGITUDE_LIMIT) && (!lat.is_zero()
        || !lon.is_zero())
}

/// One clause describing what a connection does about its position.
pub open spec fn plan_text(
    transport: Transport,
    mode: GgaMode,
    stream_requires: Option<bool>,
    source: GgaSource,
    receiver_gga_ready: bool,
    manual_set: bool,
) -> Seq<char> {
    if transport == Transport::RawTcp {
        "GGA not applicable (raw TCP)"@
    } else if !policy(mode, stream_requires).sends() {
        "GGA off"@
    } else {
        match source {
            GgaSource::Manual => if manual_set {
                "sending GGA every 10 s (manual position)"@
            } else {
                "GGA wanted but the manual position is not set - edit the profile"@
            },
            GgaSource::Receiver => if receiver_gga_ready {
                "sending GGA every 10 s (receiver passthrough)"@
            } else {
                "will send receiver GGA every 10 s (none until the receiver supplies a fix)"@
            },
        }
    }
}

/// Say what this connection does about its position.
pub fn gga_plan(
    transport: Transport,
    mode: GgaMode,
    stream_requires: Option<bool>,
    source: GgaSource,
    receiver_gga_ready: bool,
    manual_set: bool,
) -> (r: &'static str)
    ensures
        r@ == plan_text(transport, mode, stream_requires, source, receiver_gga_ready, manual_set),
{
    if transport == Transport::RawTcp {
        return "GGA not applicable (raw TCP)";
    }
    let enabled = match gga_policy(mode, stream_requires) {
        GgaPolicy::Off => false,
        GgaPolicy::Always => true,
        GgaPolicy::WhenRequired { stream_requires } => stream_requires,
    };
    if !enabled {
        return "GGA off";
    }
    match source {
        GgaSource::Manual => if manual_set {
            "sending GGA every 10 s (manual position)"
        } else {
            "GGA wanted but the manual position is not set - edit the profile"
        },
        GgaSource::Receiver => if receiver_gga_ready {
            "sending GGA every 10 s (receiver passthrough)"
        } else {
            "will send receiver GGA every 10 s (none until the receiver supplies a fix)"
        },
    }
}

// ---------------------------------------------------------------------
// Reconnect gate
// ---------------------------------------------------------------------

/// Closes that a reconnect can ride out. A response that never completed one
/// line was never classified: that is a drop, not a rejection.
pub open spec fn is_transient(reason: CloseReason) -> bool {
    match reason {
        CloseReason::UnknownResponse { raw } => !raw@.contains(10u8),
        _ => reason.retryable(),
    }
}

fn has_newline(raw: &Vec<u8>) -> (r: bool)
    ensures
        r == raw@.contains(10u8),
{
    let mut i: usize = 0;
    while i < raw.len()
        invariant
            i <= raw@.len(),
            forall|j: int| 0 <= j < i ==> raw@[j] != 10u8,
        decreases raw.len() - i,
    {
        if raw[i] == 10 {
            return true;
        }
        i += 1;
    }
    false
}

/// Whether a reconnect can ride this close out.
pub fn transient(reason: &CloseReason) -> (r: bool)
    ensures
        r == is_transient(*reason),
{
    match reason {
        CloseReason::UnknownResponse { raw } => !has_newline(raw),
        _ => reason.auto_reconnect(),
    }
}

/// The reconnect gate: transient reason, user opted in, attempt budget left.
pub fn should_reconnect(
    reason: &CloseReason,
    auto_reconnect: bool,
    attempts_done: u32,
    max_attempts: u32,
) -> (r: bool)
    ensures
        r == (is_transient(*reason) && auto_reconnect && attempts_done < max_attempts),
{
    transient(reason) && auto_reconnect && attempts_done < max_attempts
}

// ---------------------------------------------------------------------
// Request line
// ---------------------------------------------------------------------

/// A byte that the request line carries percent-encoded.
pub open spec fn needs_encoding(b: u8) -> bool {
    b <= 0x20 || b >= 0x7f
}

/// Whether some byte of a mountpoint cannot stand in a request line.
pub open spec fn has_unplain_byte(mount: Seq<char>) -> bool {
    exists|i: int|
        0 <= i < encode_utf8(mount).len() && needs_encoding(#[trigger] encode_utf8(mount)[i])
}

/// Whether the mountpoint reaches the wire rewritten.
pub fn mountpoint_needs_encoding(mount: &str) -> (r: bool)
    ensures
        r == (exists|i: int|
            0 <= i < encode_utf8(mount@).len() && needs_encoding(
                #[trigger] encode_utf8(mount@)[i],
            )),
        r == has_unplain_byte(mount@),
{
    let bytes = mount.as_bytes();
    let mut i: usize = 0;
    while i < bytes.len()
        invariant
            bytes@ == encode_utf8(mount@),
            i <= bytes@.len(),
            forall|j: int| 0 <= j < i ==> !needs_encoding(#[trigger] encode_utf8(mount@)[j]),
        decreases bytes.len() - i,
    {
        if bytes[i] <= 0x20 || bytes[i] >= 0x7f {
            assert(needs_encoding(encode_utf8(mount@)[i as int]));
            return true;
        }
        i += 1;
    }
    false
}

// ---------------------------------------------------------------------
// Traffic milestones
// ---------------------------------------------------------------------

/// Bytes in a MiB.
pub const MIB: u64 = 1_048_576;

/// The MiB milestone that a chunk crossed, if any.
pub open spec fn crossed_mib(before: u64, after: u64) -> Option<u64> {
    if after / MIB > before / MIB {
        Some(after / MIB)
    } else {
        None
    }
}

pub fn mib_crossed(before: u64, after: u64) -> (r: Option<u64>)
    ensures
        r == crossed_mib(before, after),
{
    let a: u64 = after / MIB;
    if a > before / MIB {
        Some(a)
    } else {
        None
    }
}

/// The text of an optional string.
pub open spec fn opt_text(s: Option<String>) -> Option<Seq<char>> {
    match s {
        Some(t) => Some(t@),
        None => None,
    }
}

/// The event line for the milestone that a chunk crossed, if any.
pub open spec fn milestone_text(before: u64, after: u64) -> Option<Seq<char>> {
    match crossed_mib(before, after) {
        Some(mib) => Some("Received "@ + dec(mib as nat) + " MiB"@),
        None => if before < 100_000 <= after {
            Some("Received 100 kB"@)
        } else if before < 10_000 <= after {
            Some("Received 10 kB (stream healthy)"@)
        } else {
            None
        },
    }
}

/// The event line for the milestone that a chunk crossed, if any.
pub fn traffic_milestone(before: u64, after: u64) -> (r: Option<String>)
    ensures
        opt_text(r) == milestone_text(before, after),
{
    if let Some(mib) = mib_crossed(before, after) {
        let mut out = "Received ".to_owned();
        push_dec(&mut out, mib);
        out.append(" MiB");
        return Some(out);
    }
    if before < 100_000 && after >= 100_000 {
        return Some("Received 100 kB".to_owned());
    }
    if before < 10_000 && after >= 10_000 {
        return Some("Received 10 kB (stream healthy)".to_owned());
    }
    None
}

// ---------------------------------------------------------------------
// Units
// ---------------------------------------------------------------------

/// A span in seconds as a binary value: whole seconds plus the fraction, each
/// step rounded.
pub open spec fn seconds_value(d: Span) -> (nat, nat) {
    rounded_sum(
        (d.nanos / NANOS_PER_SEC) as nat,
        rounded((d.nanos % NANOS_PER_SEC) as nat, NANOS_PER_SEC as nat, LEAST53 as nat),
        LEAST53 as nat,
    )
}

/// Human span: one decimal below 10 s, then whole seconds, minutes, and hours
/// with one decimal.
pub open spec fn duration_text(d: Span) -> Seq<char> {
    let s = seconds_value(d);
    if s.0 < 10 * s.1 {
        tenths_text(in_units(s, 10)) + " s"@
    } else if s.0 < 120 * s.1 {
        dec(in_units(s, 1)) + " s"@
    } else if s.0 < 7200 * s.1 {
        dec(in_units(rounded(s.0, 60 * s.1, LEAST53 as nat), 1)) + " min"@
    } else {
        tenths_text(in_units(rounded(s.0, 3600 * s.1, LEAST53 as nat), 10)) + " h"@
    }
}

/// Human span for event lines.
pub fn fmt_duration(d: Span) -> (r: String)
    ensures
        r@ == duration_text(d),
{
    let f = round_quotient(
        (d.nanos % NANOS_PER_SEC) as u128,
        NANOS_PER_SEC as u128,
        LEAST53,
    );
    let s = round_sum(d.nanos / NANOS_PER_SEC, f, LEAST53);
    let mut out = String::new();
    if s.m < 10 * s.w {
        let v: u128 = to_units(s, 10);
        push_tenths(&mut out, v as u64);
        out.append(" s");
        assert(out@ =~= duration_text(d));
    } else if s.m < 120 * s.w {
        let v: u128 = to_units(s, 1);
        push_dec(&mut out, v as u64);
        out.append(" s");
        assert(out@ =~= duration_text(d));
    } else if s.m < 7200 * s.w {
        let q = round_quotient(s.m, 60 * s.w, LEAST53);
        let v: u128 = to_units(q, 1);
        push_dec(&mut out, v as u64);
        out.append(" min");
        assert(out@ =~= duration_text(d));
    } else {
        let q = round_quotient(s.m, 3600 * s.w, LEAST53);
        let v: u128 = to_units(q, 10);
        push_tenths(&mut out, v as u64);
        out.append(" h");
        assert(out@ =~= duration_text(d));
    }
    out
}

/// Human byte count, decimal units, one decimal place.
pub open spec fn bytes_text(n: u64) -> Seq<char> {
    if n < 1000 {
        dec(n as nat) + " B"@
    } else if n < 1_000_000 {
        tenths_text(in_units(rounded(n as nat, 1000, LEAST53 as nat), 10)) + " kB"@
    } else {
        tenths_text(
            in_units(
                rounded(rounded_int(n as nat, LEAST53 as nat), 1_000_000, LEAST53 as nat),
                10,
            ),
        ) + " MB"@
    }
}

/// Human byte count for event lines.
pub fn fmt_bytes(n: u64) -> (r: String)
    ensures
        r@ == bytes_text(n),
{
    let mut out = String::new();
    if n < 1000 {
        push_dec(&mut out, n);
        out.append(" B");
    } else if n < 1_000_000 {
        let q = round_quotient(n as u128, 1000, LEAST53);
        let v: u128 = to_units(q, 10);
        push_tenths(&mut out, v as u64);
        out.append(" kB");
    } else {
        let q = round_quotient(round_integer(n, LEAST53), 1_000_000, LEAST53);
        let v: u128 = to_units(q, 10);
        push_tenths(&mut out, v as u64);
        out.append(" MB");
    }
    assert(out@ =~= bytes_text(n));
    out
}

// ---------------------------------------------------------------------
// Close lines
// ---------------------------------------------------------------------

/// Close reasons in plain words.
pub open spec fn summary_text(reason: CloseReason, mountpoint: Seq<char>) -> Seq<char> {
    match reason {
        CloseReason::Unauthorized => "Invalid username or password"@,
        CloseReason::MountpointNotFound { .. } => "Mountpoint '"@ + mountpoint
            + "' not found: the caster returned its sourcetable instead"@,
        CloseReason::UnknownResponse { raw } => if raw@.len() == 0 {
            "Connection closed before any response from the caster"@
        } else {
            "Unexpected response from caster ("@ + dec(raw@.len()) + " bytes)"@
        },
        CloseReason::FirstResponseTimeout => "Connection timed out: no response from the caster"@,
        CloseReason::SourcetableTimeout => "Sourcetable download timed out"@,
        CloseReason::StreamSilence => "Data timeout: no data received for 30 seconds"@,
        CloseReason::StreamCorrupt { detail } => "Stream corrupted: "@ + detail@,
        CloseReason::RemoteClosed => "Connection closed by the caster"@,
        CloseReason::Cancelled => "Disconnected by user"@,
    }
}

/// Close reasons in the plain words the event log shows.
pub fn close_summary(reason: &CloseReason, mountpoint: &str) -> (r: String)
    ensures
        r@ == summary_text(*reason, mountpoint@),
{
    match reason {
        CloseReason::Unauthorized => "Invalid username or password".to_owned(),
        CloseReason::MountpointNotFound { .. } => {
            let mut out = "Mountpoint '".to_owned();
            out.append(mountpoint);
            out.append("' not found: the caster returned its sourcetable instead");
            out
        },
        CloseReason::UnknownResponse { raw } => if raw.len() == 0 {
            "Connection closed before any response from the caster".to_owned()
        } else {
            let mut out = "Unexpected response from caster (".to_owned();
            push_dec(&mut out, raw.len() as u64);
            out.append(" bytes)");
            out
        },
        CloseReason::FirstResponseTimeout => {
            "Connection timed out: no response from the caster".to_owned()
        },
        CloseReason::SourcetableTimeout => "Sourcetable download timed out".to_owned(),
        CloseReason::StreamSilence => "Data timeout: no data received for 30 seconds".to_owned(),
        CloseReason::StreamCorrupt { detail } => {
            let mut out = "Stream corrupted: ".to_owned();
            out.append(detail.as_str());
            out
        },
        CloseReason::RemoteClosed => "Connection closed by the caster".to_owned(),
        CloseReason::Cancelled => "Disconnected by user".to_owned(),
    }
}

/// The full close line: summary, connection lifetime, and bytes delivered.
pub open spec fn close_line_text(
    reason: CloseReason,
    mountpoint: Seq<char>,
    connected_for: Span,
    bytes_received: u64,
) -> Seq<char> {
    let base = summary_text(reason, mountpoint) + " (after "@ + duration_text(connected_for);
    if bytes_received > 0 {
        base + ", "@ + bytes_text(bytes_received) + " received)"@
    } else {
        base + ")"@
    }
}

/// The full close line for the event and connection logs.
pub fn close_event_line(
    reason: &CloseReason,
    mountpoint: &str,
    connected_for: Span,
    bytes_received: u64,
) -> (r: String)
    ensures
        r@ == close_line_text(*reason, mountpoint@, connected_for, bytes_received),
{
    let mut out = close_summary(reason, mountpoint);
    out.append(" (after ");
    out.append(fmt_duration(connected_for).as_str());
    if bytes_received > 0 {
        out.append(", ");
        out.append(fmt_bytes(bytes_received).as_str());
        out.append(" received)");
    } else {
        out.append(")");
    }
    out
}

/// The diagnosis and remedy after a close that looks like a caster kicking a
/// position-silent client: a stream ended by the caster, or starved into the
/// silence timeout, while no position went out.
pub open spec fn hint_texts(
    reason: CloseReason,
    transport: Transport,
    mountpoint: Seq<char>,
    stream_requires: Option<bool>,
    gga_sent: u32,
    connected_for: Span,
) -> Option<(Seq<char>, Seq<char>)> {
    let kick_shaped = reason is RemoteClosed || reason is StreamSilence;
    let died_fast = connected_for.nanos < 60 * NANOS_PER_SEC;
    if !kick_shaped || gga_sent > 0 || transport != Transport::Ntrip || mountpoint.len() == 0 {
        None
    } else {
        match stream_requires {
            Some(true) => Some(
                (
                    "This mount requests NMEA GGA (sourcetable nmea=1) and none was sent"@,
                    "Enable Send GGA in the profile and check the position source"@,
                ),
            ),
            None => if died_fast {
                Some(
                    (
                        "If this mount requires NMEA GGA, casters drop silent clients"@,
                        "Check Send GGA is on and a position source exists (receiver or manual)"@,
                    ),
                )
            } else {
                None
            },
            Some(false) => if died_fast {
                Some(
                    (
                        "The cached sourcetable says this mount needs no GGA (nmea=0)"@,
                        "If that table is old it may be wrong - refetch it with Get Sourcetable"@,
                    ),
                )
            } else {
                None
            },
        }
    }
}

/// The hint after a starvation-shaped close: diagnosis, then remedy.
pub fn gga_hint(
    reason: &CloseReason,
    transport: Transport,
    mountpoint: &str,
    stream_requires: Option<bool>,
    gga_sent: u32,
    connected_for: Span,
) -> (r: Option<[String; 2]>)
    ensures
        match r {
            Some(lines) => hint_texts(
                *reason,
                transport,
                mountpoint@,
                stream_requires,
                gga_sent,
                connected_for,
            ) == Some((lines@[0]@, lines@[1]@)),
            None => hint_texts(
                *reason,
                transport,
                mountpoint@,
                stream_requires,
                gga_sent,
                connected_for,
            ) is None,
        },
{
    let kick_shaped = match reason {
        CloseReason::RemoteClosed => true,
        CloseReason::StreamSilence => true,
        _ => false,
    };
    if !kick_shaped || gga_sent > 0 || transport != Transport::Ntrip || mountpoint.is_empty() {
        return None;
    }
    let died_fast = connected_for.nanos < 60 * NANOS_PER_SEC;
    match stream_requires {
        Some(true) => Some(
            [
                "This mount requests NMEA GGA (sourcetable nmea=1) and none was sent".to_owned(),
                "Enable Send GGA in the profile and check the position source".to_owned(),
            ],
        ),
        None => if died_fast {
            Some(
                [
                    "If this mount requires NMEA GGA, casters drop silent clients".to_owned(),
                    "Check Send GGA is on and a position source exists (receiver or manual)".to_owned(),
                ],
            )
        } else {
            None
        },
        Some(false) => if died_fast {
            Some(
                [
                    "The cached sourcetable says this mount needs no GGA (nmea=0)".to_owned(),
                    "If that table is old it may be wrong - refetch it with Get Sourcetable".to_owned(),
                ],
            )
        } else {
            None
        },
    }
}

// ---------------------------------------------------------------------
// Reconnect lines
// ---------------------------------------------------------------------

/// The decision not to reconnect, spelled out.
pub open spec fn no_reconnect_text(
    was_transient: bool,
    policy: ReconnectPolicy,
    is_table: bool,
    max_attempts: u32,
) -> Seq<char> {
    if !was_transient {
        "Not reconnecting: this failure would repeat until the settings change"@
    } else {
        match policy {
            ReconnectPolicy::OneShot => if is_table {
                "Sourcetable fetches are one-shot - use Get Sourcetable to retry"@
            } else {
                "This run is one-shot - not reconnecting"@
            },
            ReconnectPolicy::OptionsOff => {
                "Auto-reconnect is off - staying disconnected (enable it in Options to ride outages)"@
            },
            ReconnectPolicy::Auto => "Reconnect attempt limit reached ("@ + dec(
                max_attempts as nat,
            ) + " attempts) - staying disconnected"@,
        }
    }
}

/// The decision not to reconnect, spelled out.
pub fn no_reconnect_line(
    was_transient: bool,
    policy: ReconnectPolicy,
    is_table: bool,
    max_attempts: u32,
) -> (r: String)
    ensures
        r@ == no_reconnect_text(was_transient, policy, is_table, max_attempts),
{
    if !was_transient {
        return "Not reconnecting: this failure would repeat until the settings change".to_owned();
    }
    match policy {
        ReconnectPolicy::OneShot => if is_table {
            "Sourcetable fetches are one-shot - use Get Sourcetable to retry".to_owned()
        } else {
            "This run is one-shot - not reconnecting".to_owned()
        },
        ReconnectPolicy::OptionsOff => {
            "Auto-reconnect is off - staying disconnected (enable it in Options to ride outages)".to_owned()
        },
        ReconnectPolicy::Auto => {
            let mut out = "Reconnect attempt limit reached (".to_owned();
            push_dec(&mut out, max_attempts as u64);
            out.append(" attempts) - staying disconnected");
            out
        },
    }
}

/// The English ordinal suffix of `n`.
pub open spec fn ordinal_suffix(n: u32) -> Seq<char> {
    if 11 <= n % 100 <= 13 {
        "th"@
    } else if n % 10 == 1 {
        "st"@
    } else if n % 10 == 2 {
        "nd"@
    } else if n % 10 == 3 {
        "rd"@
    } else {
        "th"@
    }
}

/// "1st time", "2nd time", "3rd time", "11th time", ...
pub fn ordinal_times(n: u32) -> (r: String)
    ensures
        r@ == dec(n as nat) + ordinal_suffix(n) + " time"@,
{
    let mut out = crate::text::dec_string(n as u64);
    let hundred: u32 = n % 100;
    let ten: u32 = n % 10;
    if 11 <= hundred && hundred <= 13 {
        out.append("th");
    } else if ten == 1 {
        out.append("st");
    } else if ten == 2 {
        out.append("nd");
    } else if ten == 3 {
        out.append("rd");
    } else {
        out.append("th");
    }
    out.append(" time");
    out
}

/// The decision to reconnect: the attempt budget, and the session's drop
/// history once there is one.
pub open spec fn notice_text(drops: u32, next_attempt: u32, max_attempts: u32) -> Seq<char> {
    let lead = if drops == 0 {
        "Reconnecting in 10 s (attempt "@
    } else {
        "Stream dropped ("@ + (dec(drops as nat) + ordinal_suffix(drops) + " time"@)
            + " this session) - reconnecting in 10 s (attempt "@
    };
    lead + dec(next_attempt as nat) + " of "@ + dec(max_attempts as nat) + ")"@
}

/// The decision to reconnect, spelled out.
pub fn reconnect_notice(drops: u32, next_attempt: u32, max_attempts: u32) -> (r: String)
    ensures
        r@ == notice_text(drops, next_attempt, max_attempts),
{
    let mut out = String::new();
    if drops == 0 {
        out = "Reconnecting in 10 s (attempt ".to_owned();
    } else {
        out = "Stream dropped (".to_owned();
        out.append(ordinal_times(drops).as_str());
        out.append(" this session) - reconnecting in 10 s (attempt ");
    }
    push_dec(&mut out, next_attempt as u64);
    out.append(" of ");
    push_dec(&mut out, max_attempts as u64);
    out.append(")");
    out
}

// ---------------------------------------------------------------------
// Laws
// ---------------------------------------------------------------------

/// A position is withheld only when the mode is off, or when the mode is
/// "when required" and the sourcetable row explicitly asks for none.
pub proof fn law_position_suppressed_only_explicitly(mode: GgaMode, stream_requires: Option<bool>)
    ensures
        !policy(mode, stream_requires).sends() <==> (mode == GgaMode::Off || (mode
            == GgaMode::WhenRequired && stream_requires == Some(false))),
{
}

/// Both lines of every hint fit the default-width event log.
pub proof fn law_hint_lines_fit(
    reason: CloseReason,
    transport: Transport,
    mountpoint: Seq<char>,
    stream_requires: Option<bool>,
    gga_sent: u32,
    connected_for: Span,
)
    ensures
        match hint_texts(reason, transport, mountpoint, stream_requires, gga_sent, connected_for) {
            Some((diagnosis, remedy)) => diagnosis.len() <= 80 && remedy.len() <= 80,
            None => true,
        },
{
    reveal_strlit("This mount requests NMEA GGA (sourcetable nmea=1) and none was sent");
    reveal_strlit("Enable Send GGA in the profile and check the position source");
    reveal_strlit("If this mount requires NMEA GGA, casters drop silent clients");
    reveal_strlit("Check Send GGA is on and a position source exists (receiver or manual)");
    reveal_strlit("The cached sourcetable says this mount needs no GGA (nmea=0)");
    reveal_strlit("If that table is old it may be wrong - refetch it with Get Sourcetable");
}

/// Every MiB is reported once: over two consecutive chunks a milestone is
/// crossed exactly when it is crossed by the two taken together, and the last
/// one named is the same.
pub proof fn law_mib_milestones_compose(a: u64, b: u64, c: u64)
    requires
        a <= b <= c,
    ensures
        crossed_mib(a, c) == (match crossed_mib(b, c) {
            Some(m) => Some(m),
            None => crossed_mib(a, b),
        }),
{
    assert(a / MIB <= b / MIB <= c / MIB) by (nonlinear_arith)
        requires
            a <= b <= c,
            MIB == 1_048_576,
    ;
}

} // verus!
