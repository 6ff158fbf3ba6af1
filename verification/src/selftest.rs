//! Headless verification mode: the command line, the worker job it asks for,
//! what the console shows, and the verdict.
//!
//! Exit codes: 0 for a clean sourcetable or stream run, 1 for a failure, 2
//! for a usage error. A stream run is only clean if at least one correction
//! byte arrived, a table run only if a parsed sourcetable did.
use vstd::prelude::*;

use crate::bus::NtripStatus;
use crate::ieee::Real64;
use crate::logging::CaptureTarget;
use crate::session::{NtripVersion, Transport};
use crate::span::NANOS_PER_SEC;
use crate::state::AppEvent;
use crate::text::{dec, parse_nat, parse_uint, push_dec, same_text, texts, trim, trimmed};
use crate::user_agent;
use crate::vocab::{GgaMode, GgaSource};
use crate::workers::ntrip::{NtripJob, ReconnectPolicy};

verus! {

pub const USAGE: &'static str = "usage: OpenNtripClient --selftest --host H --port P [--mount M] [--user U] [--pass W] [--v2] [--tcp] [--tls] [--insecure-tls] [--gga LAT,LON] [--capture FILE] [--seconds N]";

/// Ceiling for `--seconds`: one day.
pub const MAX_SECONDS: u64 = 86_400;

/// Seconds a cancelled worker gets to close down.
pub const GRACE_SECONDS: u64 = 5;

/// 90 and 180 degrees, as binary64 patterns.
pub const LAT_LIMIT: u64 = 0x4056_8000_0000_0000;

pub const LON_LIMIT: u64 = 0x4066_8000_0000_0000;

/// The parsed command line.
#[derive(Debug)]
pub struct Args {
    pub host: String,
    pub port: u16,
    pub mount: String,
    pub user: String,
    pub pass: String,
    pub v2: bool,
    pub tcp: bool,
    pub tls: bool,
    /// Accept any certificate; implies TLS.
    pub insecure_tls: bool,
    /// Send this position.
    pub gga: Option<(Real64, Real64)>,
    /// Write raw correction bytes to this file.
    pub capture: Option<String>,
    pub seconds: u64,
}

/// What [`Args`] says.
pub struct ArgsModel {
    pub host: Seq<char>,
    pub port: u16,
    pub mount: Seq<char>,
    pub user: Seq<char>,
    pub pass: Seq<char>,
    pub v2: bool,
    pub tcp: bool,
    pub tls: bool,
    pub insecure_tls: bool,
    pub gga: Option<(Real64, Real64)>,
    pub capture: Option<Seq<char>>,
    pub seconds: u64,
}

impl View for Args {
    type V = ArgsModel;

    open spec fn view(&self) -> ArgsModel {
        ArgsModel {
            host: self.host@,
            port: self.port,
            mount: self.mount@,
            user: self.user@,
            pass: self.pass@,
            v2: self.v2,
            tcp: self.tcp,
            tls: self.tls,
            insecure_tls: self.insecure_tls,
            gga: self.gga,
            capture: match self.capture {
                Some(c) => Some(c@),
                None => None,
            },
            seconds: self.seconds,
        }
    }
}

/// A text read as two numbers around its first comma; a part that is no
/// decimal number reads as none.
#[derive(Debug, Clone, Copy)]
pub struct Reading {
    pub lat: Option<Real64>,
    pub lon: Option<Real64>,
}

// ---------------------------------------------------------------------
// Position flag
// ---------------------------------------------------------------------

/// Position of the first comma.
pub open spec fn is_first_comma(s: Seq<char>, i: int) -> bool {
    0 <= i < s.len() && s[i] == ',' && forall|j: int| 0 <= j < i ==> (#[trigger] s[j]) != ','
}

/// Whether there is a comma.
pub open spec fn has_comma(s: Seq<char>) -> bool {
    exists|i: int| 0 <= i < s.len() && #[trigger] s[i] == ','
}

/// The two trimmed texts around the first comma, to be read as numbers.
pub fn gga_parts(value: &str) -> (r: Option<(String, String)>)
    ensures
        match r {
            Some((a, b)) => exists|i: int| #[trigger]
                is_first_comma(value@, i) && a@ == trim(value@.take(i)) && b@ == trim(
                    value@.skip(i + 1),
                ),
            None => !has_comma(value@),
        },
{
    let n: usize = value.unicode_len();
    let mut i: usize = 0;
    while i < n
        invariant
            n == value@.len(),
            i <= n,
            forall|j: int| 0 <= j < i ==> (#[trigger] value@[j]) != ',',
        decreases n - i,
    {
        if value.get_char(i) == ',' {
            let a = trimmed(value.substring_char(0, i)).to_owned();
            let b = trimmed(value.substring_char(i + 1, n)).to_owned();
            assert(value@.subrange(0, i as int) =~= value@.take(i as int));
            assert(value@.subrange(i + 1, n as int) =~= value@.skip(i + 1));
            assert(is_first_comma(value@, i as int));
            return Some((a, b));
        }
        i += 1;
    }
    None
}

/// A latitude or longitude within its limit.
pub open spec fn in_range(r: Option<Real64>, limit: u64) -> bool {
    r matches Some(v) && v.magnitude() <= limit
}

/// Why a position is refused.
pub open spec fn bad_gga(value: Seq<char>) -> Seq<char> {
    "invalid --gga (want LAT,LON in decimal degrees): "@ + value
}

/// The position that a `--gga` value stands for, or why it is refused. The
/// origin means "position never configured" to the worker, which would send
/// nothing.
pub open spec fn gga_value(value: Seq<char>, r: Reading) -> Result<(Real64, Real64), Seq<char>> {
    if !has_comma(value) || !in_range(r.lat, LAT_LIMIT) || !in_range(r.lon, LON_LIMIT) {
        Err(bad_gga(value))
    } else if r.lat->0.magnitude() == 0 && r.lon->0.magnitude() == 0 {
        Err("--gga 0,0 means 'position unset' and sends nothing; give a real position"@)
    } else {
        Ok((r.lat->0, r.lon->0))
    }
}

/// Check a `--gga` value whose two parts were read as numbers.
pub fn parse_gga(value: &str, reading: Reading) -> (r: Result<(Real64, Real64), String>)
    ensures
        match r {
            Ok(p) => gga_value(value@, reading) == Ok::<(Real64, Real64), Seq<char>>(p),
            Err(e) => gga_value(value@, reading) == Err::<(Real64, Real64), Seq<char>>(e@),
        },
{
    let mut e = "invalid --gga (want LAT,LON in decimal degrees): ".to_owned();
    e.append(value);
    let comma = match gga_parts(value) {
        Some(_) => true,
        None => false,
    };
    if !comma {
        return Err(e);
    }
    match (reading.lat, reading.lon) {
        (Some(lat), Some(lon)) => {
            if !lat.within(LAT_LIMIT) || !lon.within(LON_LIMIT) {
                return Err(e);
            }
            if lat.is_zero() && lon.is_zero() {
                return Err(
                    "--gga 0,0 means 'position unset' and sends nothing; give a real position".to_owned(),
                );
            }
            Ok((lat, lon))
        },
        _ => Err(e),
    }
}

// ---------------------------------------------------------------------
// Command line
// ---------------------------------------------------------------------

impl ArgsModel {
    pub open spec fn fresh() -> ArgsModel {
        ArgsModel {
            host: Seq::empty(),
            port: 0,
            mount: Seq::empty(),
            user: Seq::empty(),
            pass: Seq::empty(),
            v2: false,
            tcp: false,
            tls: false,
            insecure_tls: false,
            gga: None,
            capture: None,
            seconds: 10,
        }
    }

    /// With a flag set that takes no value; none for another flag.
    pub open spec fn with_switch(self, flag: Seq<char>) -> Option<ArgsModel> {
        if flag == "--selftest"@ {
            Some(self)
        } else if flag == "--v2"@ {
            Some(ArgsModel { v2: true, ..self })
        } else if flag == "--tcp"@ {
            Some(ArgsModel { tcp: true, ..self })
        } else if flag == "--tls"@ {
            Some(ArgsModel { tls: true, ..self })
        } else if flag == "--insecure-tls"@ {
            Some(ArgsModel { insecure_tls: true, ..self })
        } else {
            None
        }
    }

    /// With a flag set to a value.
    pub open spec fn with_value(self, flag: Seq<char>, v: Seq<char>, r: Reading) -> Result<
        ArgsModel,
        Seq<char>,
    > {
        if flag == "--host"@ {
            Ok(ArgsModel { host: v, ..self })
        } else if flag == "--port"@ {
            match parse_nat(v, u16::MAX as nat) {
                Some(n) => Ok(ArgsModel { port: n as u16, ..self }),
                None => Err("invalid port: "@ + v),
            }
        } else if flag == "--mount"@ {
            Ok(ArgsModel { mount: v, ..self })
        } else if flag == "--user"@ {
            Ok(ArgsModel { user: v, ..self })
        } else if flag == "--pass"@ {
            Ok(ArgsModel { pass: v, ..self })
        } else if flag == "--gga"@ {
            match gga_value(v, r) {
                Ok(p) => Ok(ArgsModel { gga: Some(p), ..self }),
                Err(e) => Err(e),
            }
        } else if flag == "--capture"@ {
            Ok(ArgsModel { capture: Some(v), ..self })
        } else {
            match parse_nat(v, u64::MAX as nat) {
                Some(n) => if n > MAX_SECONDS {
                    Err("invalid seconds: "@ + v + " (max "@ + dec(MAX_SECONDS as nat) + ")"@)
                } else {
                    Ok(ArgsModel { seconds: n as u64, ..self })
                },
                None => Err("invalid seconds: "@ + v),
            }
        }
    }

    /// What a complete command line still has to satisfy.
    pub open spec fn checked(self) -> Result<ArgsModel, Seq<char>> {
        if self.host.len() == 0 {
            Err("--host is required"@)
        } else if self.port == 0 {
            Err("--port is required"@)
        } else if self.tcp && self.gga is Some {
            Err("--gga has no effect with --tcp"@)
        } else {
            Ok(self)
        }
    }
}

/// Whether a flag takes a value.
pub open spec fn takes_value(flag: Seq<char>) -> bool {
    flag == "--host"@ || flag == "--port"@ || flag == "--mount"@ || flag == "--user"@ || flag
        == "--pass"@ || flag == "--gga"@ || flag == "--capture"@ || flag == "--seconds"@
}

/// The command line from word `i` on, read into `a`: the first word that does
/// not fit decides the error.
pub open spec fn parsed(
    args: Seq<Seq<char>>,
    readings: Seq<Reading>,
    i: int,
    a: ArgsModel,
) -> Result<ArgsModel, Seq<char>>
    decreases args.len() - i,
{
    if i >= args.len() {
        a.checked()
    } else if a.with_switch(args[i]) is Some {
        parsed(args, readings, i + 1, a.with_switch(args[i])->0)
    } else if !takes_value(args[i]) {
        Err("unknown flag: "@ + args[i])
    } else if i + 1 >= args.len() {
        Err(args[i] + " requires a value"@)
    } else {
        match a.with_value(args[i], args[i + 1], readings[i + 1]) {
            Ok(b) => parsed(args, readings, i + 2, b),
            Err(e) => Err(e),
        }
    }
}

/// The word after position `at`, which is moved there.
pub fn next_value<'a>(args: &'a Vec<String>, at: &mut usize, flag: &str) -> (r: Result<
    &'a String,
    String,
>)
    requires
        *old(at) < args@.len(),
    ensures
        match r {
            Ok(v) => *old(at) + 1 < args@.len() && *final(at) == *old(at) + 1 && *v
                == args@[*old(at) + 1],
            Err(e) => *old(at) + 1 >= args@.len() && *final(at) == *old(at) && e@ == flag@
                + " requires a value"@,
        },
{
    let n: usize = args.len();
    if *at < n - 1 {
        *at += 1;
        Ok(&args[*at])
    } else {
        let mut e = flag.to_owned();
        e.append(" requires a value");
        Err(e)
    }
}

fn set_switch(out: &mut Args, flag: &str) -> (r: bool)
    ensures
        match old(out)@.with_switch(flag@) {
            Some(m) => r && final(out)@ == m,
            None => !r && *final(out) == *old(out),
        },
{
    if same_text(flag, "--selftest") {
    } else if same_text(flag, "--v2") {
        out.v2 = true;
    } else if same_text(flag, "--tcp") {
        out.tcp = true;
    } else if same_text(flag, "--tls") {
        out.tls = true;
    } else if same_text(flag, "--insecure-tls") {
        out.insecure_tls = true;
    } else {
        return false;
    }
    true
}

fn set_value(out: &mut Args, flag: &str, v: &String, reading: Reading) -> (r: Result<(), String>)
    requires
        takes_value(flag@),
    ensures
        match old(out)@.with_value(flag@, v@, reading) {
            Ok(m) => r is Ok && final(out)@ == m,
            Err(e) => r matches Err(x) && x@ == e,
        },
{
    if same_text(flag, "--host") {
        out.host = v.clone();
    } else if same_text(flag, "--port") {
        match parse_uint(v.as_str(), u16::MAX as u64) {
            Some(n) => {
                out.port = n as u16;
            },
            None => {
                let mut e = "invalid port: ".to_owned();
                e.append(v.as_str());
                return Err(e);
            },
        }
    } else if same_text(flag, "--mount") {
        out.mount = v.clone();
    } else if same_text(flag, "--user") {
        out.user = v.clone();
    } else if same_text(flag, "--pass") {
        out.pass = v.clone();
    } else if same_text(flag, "--gga") {
        match parse_gga(v.as_str(), reading) {
            Ok(p) => {
                out.gga = Some(p);
            },
            Err(e) => {
                return Err(e);
            },
        }
    } else if same_text(flag, "--capture") {
        out.capture = Some(v.clone());
    } else {
        match parse_uint(v.as_str(), u64::MAX) {
            Some(n) => {
                if n > MAX_SECONDS {
                    let mut e = "invalid seconds: ".to_owned();
                    e.append(v.as_str());
                    e.append(" (max ");
                    push_dec(&mut e, MAX_SECONDS);
                    e.append(")");
                    return Err(e);
                }
                out.seconds = n;
            },
            None => {
                let mut e = "invalid seconds: ".to_owned();
                e.append(v.as_str());
                return Err(e);
            },
        }
    }
    Ok(())
}

fn has_value(flag: &str) -> (r: bool)
    ensures
        r == takes_value(flag@),
{
    same_text(flag, "--host") || same_text(flag, "--port") || same_text(flag, "--mount")
        || same_text(flag, "--user") || same_text(flag, "--pass") || same_text(flag, "--gga")
        || same_text(flag, "--capture") || same_text(flag, "--seconds")
}

/// Parse the command line. `readings` holds, for each word, what its two
/// parts around the first comma read as; only a `--gga` value's counts.
pub fn parse_args(args: &Vec<String>, readings: &Vec<Reading>) -> (r: Result<Args, String>)
    requires
        readings@.len() == args@.len(),
    ensures
        match parsed(texts(args@), readings@, 0, ArgsModel::fresh()) {
            Ok(m) => r matches Ok(a) && a@ == m,
            Err(e) => r matches Err(x) && x@ == e,
        },
{
    let mut out = Args {
        host: String::new(),
        port: 0,
        mount: String::new(),
        user: String::new(),
        pass: String::new(),
        v2: false,
        tcp: false,
        tls: false,
        insecure_tls: false,
        gga: None,
        capture: None,
        seconds: 10,
    };
    let ghost words = texts(args@);
    let ghost goal = parsed(words, readings@, 0, ArgsModel::fresh());
    assert(out@ == ArgsModel::fresh());
    let mut i: usize = 0;
    while i < args.len()
        invariant
            words == texts(args@),
            readings@.len() == args@.len(),
            i <= args@.len(),
            goal == parsed(words, readings@, 0, ArgsModel::fresh()),
            goal == parsed(words, readings@, i as int, out@),
        decreases args.len() - i,
    {
        let flag = args[i].as_str();
        assert(flag@ == words[i as int]);
        if set_switch(&mut out, flag) {
            i += 1;
            continue ;
        }
        if !has_value(flag) {
            let mut e = "unknown flag: ".to_owned();
            e.append(flag);
            return Err(e);
        }
        match next_value(args, &mut i, flag) {
            Ok(v) => {
                assert(v@ == words[i as int]);
                match set_value(&mut out, flag, v, readings[i]) {
                    Ok(()) => {},
                    Err(e) => {
                        return Err(e);
                    },
                }
            },
            Err(e) => {
                return Err(e);
            },
        }
        i += 1;
    }
    if out.host.as_str().is_empty() {
        return Err("--host is required".to_owned());
    }
    if out.port == 0 {
        return Err("--port is required".to_owned());
    }
    if out.tcp && out.gga.is_some() {
        return Err("--gga has no effect with --tcp".to_owned());
    }
    Ok(out)
}

/// The two lines that report a usage error, and its exit code.
pub fn usage_error(e: &str) -> (r: ([String; 2], u8))
    ensures
        r.0@[0]@ == "error: "@ + e@,
        r.0@[1]@ == USAGE@,
        r.1 == 2,
{
    let mut first = "error: ".to_owned();
    first.append(e);
    ([first, USAGE.to_owned()], 2)
}

// ---------------------------------------------------------------------
// Console
// ---------------------------------------------------------------------

/// The std handles to bind to the console that was attached: those that are
/// unset (null or the invalid handle). Without an attached console, none.
pub fn attach_parent_console(attached: bool, output: i64, error: i64) -> (r: (bool, bool))
    ensures
        r.0 == (attached && (output == 0 || output == -1)),
        r.1 == (attached && (error == 0 || error == -1)),
{
    (attached && (output == 0 || output == -1), attached && (error == 0 || error == -1))
}

/// The console line for an event, if it has one. Connection lines are left
/// out: each of them is in the event log too.
pub fn console_line(ev: &AppEvent) -> (r: Option<String>)
    ensures
        match *ev {
            AppEvent::EventLine(line) => r matches Some(t) && t@ == line@,
            AppEvent::SourcetableReady { host, port, table } => r matches Some(t) && t@
                == "sourcetable from "@ + host@ + ":"@ + dec(port as nat) + ": "@ + dec(
                table.strs@.len(),
            ) + " STR, "@ + dec(table.casters@.len()) + " CAS, "@ + dec(table.networks@.len())
                + " NET, "@ + dec(table.unparsed@.len()) + " unparsed"@,
            _ => r is None,
        },
{
    match ev {
        AppEvent::EventLine(line) => Some(line.clone()),
        AppEvent::SourcetableReady { host, port, table } => {
            let mut t = "sourcetable from ".to_owned();
            t.append(host.as_str());
            t.append(":");
            push_dec(&mut t, *port as u64);
            t.append(": ");
            push_dec(&mut t, table.strs.len() as u64);
            t.append(" STR, ");
            push_dec(&mut t, table.casters.len() as u64);
            t.append(" CAS, ");
            push_dec(&mut t, table.networks.len() as u64);
            t.append(" NET, ");
            push_dec(&mut t, table.unparsed.len() as u64);
            t.append(" unparsed");
            Some(t)
        },
        _ => None,
    }
}

// ---------------------------------------------------------------------
// Run
// ---------------------------------------------------------------------

/// The one-shot worker job that a command line asks for. A position is sent
/// whatever the sourcetable says.
pub fn job(args: &Args) -> (r: NtripJob)
    ensures
        r.host@ == args.host@,
        r.port == args.port,
        r.mountpoint@ == args.mount@,
        r.username@ == args.user@,
        r.password@ == args.pass@,
        r.version == (if args.v2 {
            NtripVersion::V2
        } else {
            NtripVersion::V1
        }),
        r.transport == (if args.tcp {
            Transport::RawTcp
        } else {
            Transport::Ntrip
        }),
        r.tls == (args.tls || args.insecure_tls),
        r.allow_invalid_certs == args.insecure_tls,
        r.gga_mode == (if args.gga is Some {
            GgaMode::Always
        } else {
            GgaMode::Off
        }),
        r.gga_source == GgaSource::Manual,
        match args.gga {
            Some((lat, lon)) => r.manual_lat == lat && r.manual_lon == lon,
            None => r.manual_lat.bits == 0 && r.manual_lon.bits == 0,
        },
        r.stream_requires_gga is None,
        r.reconnect == ReconnectPolicy::OneShot,
        r.max_attempts == 1,
        r.audio_alert@ == Seq::<char>::empty(),
        match args.capture {
            Some(f) => r.capture matches Some(CaptureTarget::File(p)) && p@ == f@,
            None => r.capture is None,
        },
        r.user_agent@ == "NTRIP OpenNtripClient/"@ + crate::VERSION@,
{
    let (manual_lat, manual_lon) = match args.gga {
        Some((lat, lon)) => (lat, lon),
        None => (Real64::zero(), Real64::zero()),
    };
    NtripJob {
        host: args.host.clone(),
        port: args.port,
        mountpoint: args.mount.clone(),
        username: args.user.clone(),
        password: args.pass.clone(),
        version: if args.v2 {
            NtripVersion::V2
        } else {
            NtripVersion::V1
        },
        transport: if args.tcp {
            Transport::RawTcp
        } else {
            Transport::Ntrip
        },
        tls: args.tls || args.insecure_tls,
        allow_invalid_certs: args.insecure_tls,
        gga_mode: if args.gga.is_some() {
            GgaMode::Always
        } else {
            GgaMode::Off
        },
        gga_source: GgaSource::Manual,
        manual_lat,
        manual_lon,
        stream_requires_gga: None,
        reconnect: ReconnectPolicy::OneShot,
        max_attempts: 1,
        audio_alert: String::new(),
        capture: match &args.capture {
            Some(f) => Some(CaptureTarget::File(f.clone())),
            None => None,
        },
        user_agent: user_agent(),
    }
}

/// What a run has seen so far.
#[derive(Debug)]
pub struct Watch {
    /// Clock reading at which the worker is cancelled.
    pub budget: u64,
    /// Clock reading at which the run is given up.
    pub hard_stop: u64,
    pub cancelled: bool,
    pub total_bytes: u64,
    pub table_seen: bool,
    /// The worker's last word: its summary, and whether it failed.
    pub stopped: Option<(String, bool)>,
}

/// What to do before the next event.
#[derive(Debug, Clone, Copy, PartialEq, Eq, Structural)]
pub enum Turn {
    /// The worker stopped, or had its time.
    Over,
    /// Cancel the worker, then wait for an event.
    Cancel,
    Wait,
}

impl Watch {
    pub fn new(now: u64, seconds: u64) -> (r: Watch)
        requires
            now + (seconds + GRACE_SECONDS) * NANOS_PER_SEC <= u64::MAX,
        ensures
            r == (Watch {
                budget: (now + seconds * NANOS_PER_SEC) as u64,
                hard_stop: (now + (seconds + GRACE_SECONDS) * NANOS_PER_SEC) as u64,
                cancelled: false,
                total_bytes: 0,
                table_seen: false,
                stopped: None,
            }),
    {
        let budget: u64 = now + seconds * NANOS_PER_SEC;
        Watch {
            budget,
            hard_stop: budget + GRACE_SECONDS * NANOS_PER_SEC,
            cancelled: false,
            total_bytes: 0,
            table_seen: false,
            stopped: None,
        }
    }

    /// Decide what to do at a clock reading.
    pub fn turn(&mut self, now: u64) -> (r: Turn)
        ensures
            r == (if old(self).stopped is Some || now >= old(self).hard_stop {
                Turn::Over
            } else if !old(self).cancelled && now >= old(self).budget {
                Turn::Cancel
            } else {
                Turn::Wait
            }),
            *final(self) == (Watch {
                cancelled: old(self).cancelled || r == Turn::Cancel,
                ..*old(self)
            }),
    {
        if self.stopped.is_some() || now >= self.hard_stop {
            return Turn::Over;
        }
        if !self.cancelled && now >= self.budget {
            self.cancelled = true;
            return Turn::Cancel;
        }
        Turn::Wait
    }

    /// Take an event into account.
    pub fn note(&mut self, ev: &AppEvent)
        ensures
            match *ev {
                AppEvent::RxBytes { total } => *final(self) == (Watch {
                    total_bytes: total,
                    ..*old(self)
                }),
                AppEvent::SourcetableReady { .. } => *final(self) == (Watch {
                    table_seen: true,
                    ..*old(self)
                }),
                AppEvent::Ntrip(NtripStatus::Stopped { summary, failed }) => {
                    &&& final(self).stopped matches Some((s, f)) && s@ == summary@ && f == failed
                    &&& *final(self) == (Watch { stopped: final(self).stopped, ..*old(self) })
                },
                _ => *final(self) == *old(self),
            },
    {
        match ev {
            AppEvent::RxBytes { total } => {
                self.total_bytes = *total;
            },
            AppEvent::SourcetableReady { .. } => {
                self.table_seen = true;
            },
            AppEvent::Ntrip(NtripStatus::Stopped { summary, failed }) => {
                self.stopped = Some((summary.clone(), *failed));
            },
            _ => {},
        }
    }

    /// Take an event into account that was still queued when the run ended:
    /// only a sourcetable counts then.
    pub fn note_late(&mut self, ev: &AppEvent)
        ensures
            *final(self) == (Watch {
                table_seen: old(self).table_seen || ev is SourcetableReady,
                ..*old(self)
            }),
    {
        match ev {
            AppEvent::SourcetableReady { .. } => {
                self.table_seen = true;
            },
            _ => {},
        }
    }

    /// The exit code: the worker stopped on its own terms, and delivered what
    /// the run was for.
    pub open spec fn exit_code(self, table_request: bool) -> u8 {
        match self.stopped {
            Some((_, failed)) => if failed || (table_request && !self.table_seen) || (
            !table_request && self.total_bytes == 0) {
                1
            } else {
                0
            },
            None => 1,
        }
    }

    /// The last line.
    pub open spec fn verdict_line(self, table_request: bool, seconds: u64) -> Seq<char> {
        match self.stopped {
            None => "selftest: FAIL (worker did not stop in time)"@,
            Some((summary, failed)) => if failed {
                "selftest: FAIL ("@ + summary@ + ")"@
            } else if !table_request && self.total_bytes == 0 {
                "selftest: FAIL (connected and authenticated but 0 correction bytes in "@ + dec(
                    seconds as nat,
                ) + " s; the mount is not delivering data) ("@ + summary@ + ")"@
            } else if table_request && !self.table_seen {
                "selftest: FAIL (no sourcetable delivered within "@ + dec(seconds as nat)
                    + " s; the budget expired mid-download) ("@ + summary@ + ")"@
            } else {
                "selftest: OK ("@ + summary@ + ")"@
            },
        }
    }

    /// The closing lines and the exit code.
    pub fn verdict(&self, args: &Args) -> (r: ([String; 2], u8))
        ensures
            r.0@[0]@ == "selftest: "@ + dec(self.total_bytes as nat) + " correction bytes total"@,
            r.0@[1]@ == self.verdict_line(!args.tcp && args.mount@.len() == 0, args.seconds),
            r.1 == self.exit_code(!args.tcp && args.mount@.len() == 0),
    {
        let mut total = "selftest: ".to_owned();
        push_dec(&mut total, self.total_bytes);
        total.append(" correction bytes total");
        let table_request = !args.tcp && args.mount.as_str().is_empty();
        match &self.stopped {
            None => ([total, "selftest: FAIL (worker did not stop in time)".to_owned()], 1),
            Some((summary, failed)) => {
                if *failed {
                    let mut t = "selftest: FAIL (".to_owned();
                    t.append(summary.as_str());
                    t.append(")");
                    return ([total, t], 1);
                }
                if !table_request && self.total_bytes == 0 {
                    let mut t =
                        "selftest: FAIL (connected and authenticated but 0 correction bytes in ".to_owned();
                    push_dec(&mut t, args.seconds);
                    t.append(" s; the mount is not delivering data) (");
                    t.append(summary.as_str());
                    t.append(")");
                    return ([total, t], 1);
                }
                if table_request && !self.table_seen {
                    let mut t = "selftest: FAIL (no sourcetable delivered within ".to_owned();
                    push_dec(&mut t, args.seconds);
                    t.append(" s; the budget expired mid-download) (");
                    t.append(summary.as_str());
                    t.append(")");
                    return ([total, t], 1);
                }
                let mut t = "selftest: OK (".to_owned();
                t.append(summary.as_str());
                t.append(")");
                ([total, t], 0)
            },
        }
    }
}

/// A run that asked for a stream and got no correction byte, or asked for a
/// table and got none, is never certified.
pub proof fn law_nothing_delivered_is_never_clean(w: Watch, table_request: bool)
    requires
        if table_request {
            !w.table_seen
        } else {
            w.total_bytes == 0
        },
    ensures
        w.exit_code(table_request) == 1,
{
}

/// Every command line that parses names a host and a port, and stays within a
/// day.
pub proof fn law_parsed_command_lines_are_complete(args: Seq<Seq<char>>, readings: Seq<Reading>)
    ensures
        parsed(args, readings, 0, ArgsModel::fresh()) matches Ok(a) ==> a.host.len() > 0 && a.port
            > 0 && a.seconds <= MAX_SECONDS && !(a.tcp && a.gga is Some) && (
        a.gga matches Some((lat, lon)) ==> lat.magnitude() <= LAT_LIMIT && lon.magnitude()
            <= LON_LIMIT && !(lat.magnitude() == 0 && lon.magnitude() == 0)),
{
    lemma_parsed(args, readings, 0, ArgsModel::fresh());
}

spec fn sane(a: ArgsModel) -> bool {
    &&& a.seconds <= MAX_SECONDS
    &&& a.gga matches Some((lat, lon)) ==> lat.magnitude() <= LAT_LIMIT && lon.magnitude()
        <= LON_LIMIT && !(lat.magnitude() == 0 && lon.magnitude() == 0)
}

proof fn lemma_parsed(args: Seq<Seq<char>>, readings: Seq<Reading>, i: int, a: ArgsModel)
    requires
        sane(a),
    ensures
        parsed(args, readings, i, a) matches Ok(b) ==> sane(b) && b.checked() is Ok,
    decreases args.len() - i,
{
    if i < args.len() {
        if a.with_switch(args[i]) is Some {
            lemma_parsed(args, readings, i + 1, a.with_switch(args[i])->0);
        } else if takes_value(args[i]) && i + 1 < args.len() {
            match a.with_value(args[i], args[i + 1], readings[i + 1]) {
                Ok(b) => lemma_parsed(args, readings, i + 2, b),
                Err(_) => {},
            }
        }
    }
}

} // verus!
