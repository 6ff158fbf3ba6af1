//! The headless self-test: its command line, its console and its verdict.

use open_ntrip_client::bus::NtripStatus;
use open_ntrip_client::ieee::Real64;
use open_ntrip_client::selftest::{
    attach_parent_console, console_line, gga_parts, job, parse_args, parse_gga, usage_error, Args,
    Reading, Turn, Watch, MAX_SECONDS, USAGE,
};
use open_ntrip_client::session::{NtripVersion, Transport};
use open_ntrip_client::sourcetable::SourceTable;
use open_ntrip_client::state::AppEvent;
use open_ntrip_client::vocab::{GgaMode, GgaSource};
use open_ntrip_client::workers::ntrip::ReconnectPolicy;

fn s(args: &[&str]) -> Vec<String> {
    args.iter().map(ToString::to_string).collect()
}

fn number(text: &str) -> Option<Real64> {
    text.trim().parse::<f64>().ok().map(|v| Real64 { bits: v.to_bits() })
}

fn reading(value: &str) -> Reading {
    match gga_parts(value) {
        Some((lat, lon)) => Reading { lat: number(&lat), lon: number(&lon) },
        None => Reading { lat: None, lon: None },
    }
}

fn parse(args: &[&str]) -> Result<Args, String> {
    let words = s(args);
    let readings = words.iter().map(|w| reading(w)).collect();
    parse_args(&words, &readings)
}

fn gga(value: &str) -> Result<(f64, f64), String> {
    parse_gga(value, reading(value)).map(|p| (f64::from_bits(p.0.bits), f64::from_bits(p.1.bits)))
}

/// The exit code of a command line that does not parse, else 0.
fn usage_code(args: &[&str]) -> u8 {
    match parse(args) {
        Ok(_) => 0,
        Err(e) => usage_error(&e).1,
    }
}

const SECOND: u64 = 1_000_000_000;

/// With its standard handles set, a process that has a console binds none,
/// however often it asks.
#[test]
fn attach_parent_console_is_idempotent_and_harmless() {
    assert_eq!(attach_parent_console(false, 7, 11), (false, false));
    assert_eq!(attach_parent_console(false, 7, 11), (false, false));
    println!("stdout still works after attach attempts");
}

#[test]
fn unset_handles_are_bound_to_an_attached_console() {
    assert_eq!(attach_parent_console(true, 0, -1), (true, true));
    assert_eq!(attach_parent_console(true, 7, 0), (false, true));
    assert_eq!(attach_parent_console(false, 0, 0), (false, false));
}

#[test]
fn usage_errors_exit_2() {
    assert_eq!(usage_code(&["--selftest"]), 2, "missing host/port");
    assert_eq!(usage_code(&["--selftest", "--host", "h"]), 2, "missing port");
    assert_eq!(
        usage_code(&["--selftest", "--host", "h", "--port", "nope"]),
        2,
        "bad port"
    );
    assert_eq!(
        usage_code(&["--selftest", "--host", "h", "--port", "2101", "--bogus"]),
        2,
        "unknown flag"
    );
}

#[test]
fn usage_error_texts_name_what_is_wrong() {
    let err = |args: &[&str]| parse(args).unwrap_err();
    assert_eq!(err(&["--selftest"]), "--host is required");
    assert_eq!(err(&["--selftest", "--host", "h"]), "--port is required");
    assert_eq!(err(&["--host"]), "--host requires a value");
    assert_eq!(err(&["--port", "65536"]), "invalid port: 65536");
    assert_eq!(err(&["--seconds", "x"]), "invalid seconds: x");
    assert_eq!(err(&["--bogus"]), "unknown flag: --bogus");
    let (lines, code) = usage_error("--host is required");
    assert_eq!(code, 2);
    assert_eq!(lines[0], "error: --host is required");
    assert_eq!(lines[1], USAGE);
}

#[test]
fn console_prints_event_lines_once_and_suppresses_conn_echoes() {
    // Protocol lines reach the bus twice (event sink + conn sink, both
    // fed by the worker); the console must print exactly one of them.
    let text = "12:00:00 > GET /RTCM3 HTTP/1.0".to_string();
    assert_eq!(
        console_line(&AppEvent::EventLine(text.clone())).as_deref(),
        Some(text.as_str())
    );
    assert_eq!(
        console_line(&AppEvent::ConnLine(text)),
        None,
        "conn lines duplicate event lines under a selftest config"
    );
    // Data-rate and status events are consumed, not printed.
    assert_eq!(console_line(&AppEvent::RxBytes { total: 42 }), None);
    assert_eq!(console_line(&AppEvent::Ntrip(NtripStatus::Streaming)), None);
}

/// `--seconds` is capped at parse time: an absurd value is the usual usage
/// error, never a clock overflow.
#[test]
fn absurd_seconds_is_a_usage_error_not_a_panic() {
    assert_eq!(
        usage_code(&[
            "--selftest",
            "--host",
            "h",
            "--port",
            "1",
            "--seconds",
            "18446744073709551615",
        ]),
        2,
        "u64::MAX seconds must exit 2, not overflow an Instant"
    );
    let over = (MAX_SECONDS + 1).to_string();
    assert!(parse(&[
        "--selftest",
        "--host",
        "h",
        "--port",
        "1",
        "--seconds",
        &over
    ])
    .is_err());
    let at_max = MAX_SECONDS.to_string();
    let a = parse(&[
        "--selftest",
        "--host",
        "h",
        "--port",
        "1",
        "--seconds",
        &at_max,
    ])
    .unwrap();
    assert_eq!(a.seconds, MAX_SECONDS, "the ceiling itself is legal");
}

#[test]
fn parse_args_full_set() {
    let a = parse(&[
        "--selftest",
        "--host",
        "caster",
        "--port",
        "2101",
        "--mount",
        "M1",
        "--user",
        "u",
        "--pass",
        "p",
        "--v2",
        "--tcp",
        "--tls",
        "--capture",
        "out.rtcm",
        "--seconds",
        "3",
    ])
    .unwrap();
    assert_eq!(a.host, "caster");
    assert_eq!(a.port, 2101);
    assert_eq!(a.mount, "M1");
    assert_eq!(a.user, "u");
    assert_eq!(a.pass, "p");
    assert!(a.v2 && a.tcp && a.tls);
    assert!(!a.insecure_tls);
    assert_eq!(a.capture.as_deref(), Some("out.rtcm"));
    assert_eq!(a.seconds, 3);
}

/// --gga parses decimal-degree pairs, rejects malformed and
/// out-of-range values, and rejects exactly 0,0 (the worker's "unset"
/// sentinel - accepting it would silently send nothing).
#[test]
fn gga_flag_parses_and_rejects_unset_sentinel() {
    let a = parse(&[
        "--selftest",
        "--host",
        "h",
        "--port",
        "2201",
        "--gga",
        "35.1069,-106.2909",
    ])
    .unwrap();
    let (lat, lon) = a.gga.unwrap();
    assert_eq!(
        (f64::from_bits(lat.bits), f64::from_bits(lon.bits)),
        (35.1069, -106.2909)
    );
    assert!(gga("35.1, -106.3").is_ok(), "spaces after the comma");
    assert!(gga("0,0").is_err(), "0,0 means unset");
    assert!(gga("91,0").is_err(), "latitude range");
    assert!(gga("0,181").is_err(), "longitude range");
    assert!(gga("nope").is_err());
    assert!(gga("1;2").is_err());
    assert_eq!(
        usage_code(&["--selftest", "--host", "h", "--port", "1", "--gga", "0,0"]),
        2,
        "0,0 must be a usage error, not a silent no-op run"
    );
    // Raw TCP never sends GGA; the combination must refuse loudly
    // rather than certify a caster while sending nothing.
    assert_eq!(
        usage_code(&[
            "--selftest",
            "--host",
            "h",
            "--port",
            "1",
            "--tcp",
            "--gga",
            "35,-106",
        ]),
        2,
        "--gga with --tcp is a usage error"
    );
}

#[test]
fn gga_limits_are_inclusive() {
    assert_eq!(gga("90,180"), Ok((90.0, 180.0)));
    assert_eq!(gga("-90,-180"), Ok((-90.0, -180.0)));
    assert_eq!(gga("0,1"), Ok((0.0, 1.0)));
    assert!(gga("NaN,0").is_err());
    assert_eq!(
        gga("nope").unwrap_err(),
        "invalid --gga (want LAT,LON in decimal degrees): nope"
    );
}

#[test]
fn insecure_tls_flag_parses_and_capture_requires_value() {
    let a = parse(&[
        "--selftest",
        "--host",
        "h",
        "--port",
        "443",
        "--insecure-tls",
    ])
    .unwrap();
    assert!(a.insecure_tls && !a.tls, "flags parse independently");
    assert!(parse(&["--selftest", "--host", "h", "--port", "1", "--capture"]).is_err());
}

#[test]
fn the_job_runs_once_with_the_given_position() {
    let a = parse(&[
        "--host", "h", "--port", "2101", "--mount", "M", "--v2", "--insecure-tls", "--gga",
        "35.5,-106.5",
    ])
    .unwrap();
    let j = job(&a);
    assert_eq!(j.host, "h");
    assert_eq!(j.mountpoint, "M");
    assert_eq!(j.version, NtripVersion::V2);
    assert_eq!(j.transport, Transport::Ntrip);
    assert!(j.tls && j.allow_invalid_certs, "--insecure-tls implies TLS");
    assert_eq!(j.gga_mode, GgaMode::Always);
    assert_eq!(j.gga_source, GgaSource::Manual);
    assert_eq!(f64::from_bits(j.manual_lat.bits), 35.5);
    assert_eq!(j.reconnect, ReconnectPolicy::OneShot);
}

fn stopped(failed: bool) -> AppEvent {
    AppEvent::Ntrip(NtripStatus::Stopped {
        summary: "Disconnected by user".to_string(),
        failed,
    })
}

/// A mount that answers and then never sends a byte is a failure, even when
/// the run ends with a clean cancel.
#[test]
fn a_silent_stream_is_never_clean() {
    let a = parse(&["--host", "h", "--port", "1", "--mount", "DEAD", "--seconds", "1"]).unwrap();
    let mut w = Watch::new(0, a.seconds);
    assert_eq!(w.turn(SECOND / 2), Turn::Wait);
    assert_eq!(w.turn(SECOND), Turn::Cancel);
    assert_eq!(w.turn(SECOND), Turn::Wait, "the cancel is sent once");
    w.note(&stopped(false));
    assert_eq!(w.turn(SECOND), Turn::Over);
    let (lines, code) = w.verdict(&a);
    assert_eq!(code, 1);
    assert_eq!(lines[0], "selftest: 0 correction bytes total");
    assert_eq!(
        lines[1],
        "selftest: FAIL (connected and authenticated but 0 correction bytes in 1 s; \
the mount is not delivering data) (Disconnected by user)"
    );
    w.note(&AppEvent::RxBytes { total: 7 });
    let (lines, code) = w.verdict(&a);
    assert_eq!(code, 0);
    assert_eq!(lines[0], "selftest: 7 correction bytes total");
    assert_eq!(lines[1], "selftest: OK (Disconnected by user)");
}

/// A table run is clean only with a delivered table, which may still be
/// queued when the worker stops.
#[test]
fn a_table_run_needs_its_table() {
    let a = parse(&["--host", "h", "--port", "1", "--seconds", "5"]).unwrap();
    let mut w = Watch::new(0, a.seconds);
    w.note(&stopped(false));
    let (lines, code) = w.verdict(&a);
    assert_eq!(code, 1);
    assert_eq!(
        lines[1],
        "selftest: FAIL (no sourcetable delivered within 5 s; \
the budget expired mid-download) (Disconnected by user)"
    );
    w.note_late(&AppEvent::SourcetableReady {
        host: "h".to_string(),
        port: 1,
        table: SourceTable {
            strs: Vec::new(),
            casters: Vec::new(),
            networks: Vec::new(),
            unparsed: Vec::new(),
        },
    });
    assert_eq!(w.verdict(&a).1, 0);
    w.note_late(&AppEvent::RxBytes { total: 9 });
    assert_eq!(w.total_bytes, 0, "late bytes do not count");
}

#[test]
fn a_failed_or_stuck_worker_fails_the_run() {
    let a = parse(&["--host", "h", "--port", "1", "--mount", "M", "--seconds", "1"]).unwrap();
    let mut w = Watch::new(0, a.seconds);
    w.note(&AppEvent::RxBytes { total: 100 });
    assert_eq!(w.turn(6 * SECOND), Turn::Over, "the grace period is over");
    let (lines, code) = w.verdict(&a);
    assert_eq!((lines[1].as_str(), code), ("selftest: FAIL (worker did not stop in time)", 1));
    w.note(&stopped(true));
    let (lines, code) = w.verdict(&a);
    assert_eq!((lines[1].as_str(), code), ("selftest: FAIL (Disconnected by user)", 1));
}
