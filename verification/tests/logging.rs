//! File names, day counts, and the daily and capture sinks.
use open_ntrip_client::logging::{
    capture_filename, crash_filename, daily_filename, days_from_civil, record, sink_notice,
    CaptureSink, CaptureStep, CaptureTarget, DailySink, FlushClock, LocalStamp, LogCmd, SinkEvent,
    SinkStep,
};

fn stamp(y: i32, mo: u8, d: u8, h: u8, mi: u8, s: u8) -> LocalStamp {
    LocalStamp { year: y, month: mo, day: d, hour: h, min: mi, sec: s }
}

#[test]
fn daily_filename_zero_pads() {
    assert_eq!(daily_filename(&stamp(2026, 7, 15, 0, 0, 0)), "20260715.txt");
    assert_eq!(daily_filename(&stamp(2026, 1, 2, 0, 0, 0)), "20260102.txt");
    assert_eq!(daily_filename(&stamp(999, 12, 31, 0, 0, 0)), "09991231.txt");
}

#[test]
fn daily_filename_keeps_long_and_negative_years() {
    assert_eq!(daily_filename(&stamp(12345, 1, 2, 0, 0, 0)), "123450102.txt");
    assert_eq!(daily_filename(&stamp(-5, 1, 2, 0, 0, 0)), format!("{:04}0102.txt", -5));
}

#[test]
fn crash_filename_shape() {
    assert_eq!(crash_filename(&stamp(2026, 7, 15, 9, 5, 3)), "crash-20260715-090503.txt");
}

#[test]
fn days_from_civil_known_values() {
    assert_eq!(days_from_civil(1970, 1, 1), 0);
    assert_eq!(days_from_civil(1970, 1, 2), 1);
    assert_eq!(days_from_civil(1969, 12, 31), -1);
    assert_eq!(days_from_civil(2000, 3, 1), 11_017);
    // A week apart is exactly 7 (weekly update-check math).
    assert_eq!(days_from_civil(2026, 7, 15) - days_from_civil(2026, 7, 8), 7);
    // Month and year rollovers.
    assert_eq!(
        days_from_civil(2026, 3, 1) - days_from_civil(2026, 2, 28),
        1,
        "2026 is not a leap year"
    );
    assert_eq!(
        days_from_civil(2024, 3, 1) - days_from_civil(2024, 2, 28),
        2,
        "2024 is a leap year"
    );
}

#[test]
fn days_count_centuries_and_early_years() {
    assert_eq!(days_from_civil(1900, 3, 1) - days_from_civil(1900, 2, 28), 1);
    assert_eq!(days_from_civil(2000, 3, 1) - days_from_civil(2000, 2, 28), 2);
    assert_eq!(days_from_civil(0, 3, 1), -719_468);
    assert_eq!(days_from_civil(-1, 12, 31) + 1, days_from_civil(0, 1, 1));
    assert_eq!(days_from_civil(2026, 12, 31) + 1, days_from_civil(2027, 1, 1));
}

#[test]
fn capture_filename_shape_and_sanitization() {
    let t = stamp(2026, 7, 16, 9, 5, 3);
    assert_eq!(capture_filename(&t, "OGD1_RTCM3"), "20260716_090503_OGD1_RTCM3.rtcm");
    assert_eq!(
        capture_filename(&t, "P401-A.B"),
        "20260716_090503_P401-A.B.rtcm",
        "filename-safe characters pass through"
    );
    assert_eq!(
        capture_filename(&t, "..\\evil/mount:x"),
        "20260716_090503_.._evil_mount_x.rtcm",
        "path separators fold to '_'"
    );
    assert_eq!(
        capture_filename(&t, ""),
        "20260716_090503_stream.rtcm",
        "raw TCP (no mountpoint) still gets a name"
    );
    assert_eq!(
        capture_filename(&stamp(999, 1, 2, 0, 0, 0), "M"),
        "09990102_000000_M.rtcm",
        "zero padding"
    );
}

/// Drive a sink as the logger does, with an opener that succeeds or fails.
fn write(sink: &mut DailySink, now: &LocalStamp, open: Result<(), &str>) -> (SinkEvent, bool) {
    match sink.write_line(now) {
        SinkStep::Discard => (SinkEvent::Quiet, false),
        SinkStep::Append => {
            sink.appended();
            (SinkEvent::Quiet, true)
        }
        SinkStep::Open { name, path, rolled, .. } => match open {
            Ok(()) => {
                let ev = sink.opened(name, rolled);
                sink.appended();
                (ev, true)
            }
            Err(e) => (sink.open_failed(&path, e), false),
        },
    }
}

#[test]
fn sink_rolls_at_date_change_and_logs_it() {
    let mut sink = DailySink::new("Logs".to_string(), '/', true);
    let d1 = stamp(2026, 7, 15, 23, 59, 59);
    let d2 = stamp(2026, 7, 16, 0, 0, 1);
    assert!(matches!(write(&mut sink, &d1, Ok(())), (SinkEvent::Quiet, true)));
    let SinkStep::Open { name, path, flush, rolled } = sink.write_line(&d2) else {
        panic!("expected a new file");
    };
    assert_eq!(name, "20260716.txt");
    assert_eq!(path, "Logs/20260716.txt");
    assert!(flush, "the old file has an unflushed line");
    assert!(rolled);
    let SinkEvent::RolledTo(name) = sink.opened(name, rolled) else {
        panic!("expected rollover event");
    };
    assert_eq!(name, "20260716.txt");
    let (text, to_file) = sink_notice(SinkEvent::RolledTo(name)).unwrap();
    assert_eq!(text, "Log rolled over to 20260716.txt");
    assert!(to_file, "the new file starts with the notice");
    assert!(matches!(sink.write_line(&d2), SinkStep::Append));
}

#[test]
fn disabled_sink_writes_nothing_and_creates_no_dir() {
    let mut sink = DailySink::new("Logs".to_string(), '/', false);
    assert!(matches!(sink.write_line(&stamp(2026, 7, 15, 1, 2, 3)), SinkStep::Discard));
}

#[test]
fn switching_a_sink_off_closes_its_file() {
    let now = stamp(2026, 7, 15, 1, 2, 3);
    let mut sink = DailySink::new("Logs".to_string(), '/', true);
    write(&mut sink, &now, Ok(()));
    assert!(sink.set_enabled(false), "unflushed lines first");
    assert!(sink.current.is_none());
    assert!(!sink.set_enabled(true));
    assert!(matches!(sink.write_line(&now), SinkStep::Open { rolled: false, .. }));
}

#[test]
fn open_failures_are_reported_once() {
    let now = stamp(2026, 7, 15, 1, 2, 3);
    let mut sink = DailySink::new("Logs".to_string(), '/', true);
    let (ev, written) = write(&mut sink, &now, Err("gone"));
    assert!(!written);
    let SinkEvent::Failed(msg) = ev else { panic!("first failure is reported") };
    assert_eq!(msg, "Could not open Logs/20260715.txt: gone");
    assert_eq!(sink_notice(SinkEvent::Failed(msg)).unwrap().1, false);
    assert!(matches!(write(&mut sink, &now, Err("gone")), (SinkEvent::Quiet, false)));
    assert!(matches!(write(&mut sink, &now, Ok(())), (SinkEvent::Quiet, true)));
    assert!(!sink.failed);
}

#[test]
fn sink_flushes_only_what_is_dirty() {
    let now = stamp(2026, 7, 15, 1, 2, 3);
    let mut sink = DailySink::new("Logs".to_string(), '/', true);
    assert!(!sink.flush());
    write(&mut sink, &now, Ok(()));
    assert!(sink.flush());
    assert!(!sink.flush());
    assert_eq!(record("line"), "line\r\n");
    assert!(sink_notice(SinkEvent::Quiet).is_none());
}

#[test]
fn capture_sink_is_lazy_and_reports_byte_count() {
    let now = stamp(2026, 7, 16, 9, 5, 3);
    let mut sink = CaptureSink::new('/');

    // Armed but no data: no directory, no file, silent end.
    assert!(sink.begin(CaptureTarget::Dir("Captures".to_string()), "M1".to_string()).is_none());
    assert!(sink.end().is_none(), "no bytes -> no file -> no receipt");

    // Data flows: file appears (named by timestamp+mount), bytes exact.
    sink.begin(CaptureTarget::Dir("Captures".to_string()), "M1".to_string());
    let CaptureStep::Create(path) = sink.data(&now) else { panic!("first data opens the file") };
    assert_eq!(path, "Captures/20260716_090503_M1.rtcm");
    let start = sink.opened(path);
    assert!(start.contains("Capturing corrections"), "{start}");
    sink.appended(3);
    assert!(matches!(sink.data(&now), CaptureStep::Append), "no repeat notice");
    sink.appended(2);
    let close = sink.end().expect("close receipt");
    assert!(close.contains("(5 bytes)"), "{close}");
    assert_eq!(
        close,
        "Correction capture closed: Captures/20260716_090503_M1.rtcm (5 bytes)"
    );

    // Explicit file target (the selftest path).
    sink.begin(CaptureTarget::File("explicit.rtcm".to_string()), String::new());
    let CaptureStep::Create(path) = sink.data(&now) else { panic!() };
    assert_eq!(path, "explicit.rtcm");
    sink.opened(path);
    sink.appended(3);
    let close = sink.end().expect("close receipt");
    assert!(close.contains("(3 bytes)"), "{close}");
}

#[test]
fn capture_open_failure_reports_once_and_stays_quiet() {
    let now = stamp(2026, 7, 16, 9, 5, 3);
    let mut sink = CaptureSink::new('/');
    sink.begin(CaptureTarget::Dir("blocker".to_string()), "M".to_string());
    let CaptureStep::Create(path) = sink.data(&now) else { panic!() };
    let err = sink.open_failed(&path, "not a directory");
    assert!(err.contains("Could not open capture file"), "{err}");
    assert!(matches!(sink.data(&now), CaptureStep::Discard), "failures do not spam");
    assert!(sink.end().is_none());
}

#[test]
fn dangling_capture_is_receipted_by_the_next_begin() {
    let now = stamp(2026, 7, 16, 9, 5, 3);
    let mut sink = CaptureSink::new('/');
    sink.begin(CaptureTarget::File("a".to_string()), String::new());
    sink.data(&now);
    sink.opened("a".to_string());
    sink.appended(7);
    assert!(sink.flush());
    assert!(!sink.flush());
    let left = sink.begin(CaptureTarget::File("b".to_string()), String::new());
    assert_eq!(left.as_deref(), Some("Correction capture closed: a (7 bytes)"));
    assert!(matches!(sink.data(&now), CaptureStep::Create(p) if p == "b"));
}

#[test]
fn flush_deadline_cannot_be_starved() {
    let mut clock = FlushClock::new(0);
    assert_eq!(clock.wait(0), 1_000_000_000);
    assert_eq!(clock.wait(400_000_000), 600_000_000);
    assert!(!clock.due(999_999_999));
    assert!(clock.due(1_000_000_000));
    assert_eq!(clock.wait(1_000_000_000), 1_000_000_000);
    assert_eq!(clock.wait(3_000_000_000), 0);
}

#[test]
fn log_commands_carry_their_payload() {
    let cmd = LogCmd::CaptureBegin {
        target: CaptureTarget::File("f".to_string()),
        mount: "M".to_string(),
    };
    assert!(matches!(cmd, LogCmd::CaptureBegin { mount, .. } if mount == "M"));
    assert!(matches!(LogCmd::CaptureData(vec![1]), LogCmd::CaptureData(b) if b == vec![1]));
}
