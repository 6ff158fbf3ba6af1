//! Runs of the caster worker, as the effects it asks for.

use open_ntrip_client::bus::{Effect, NtripStatus, Outbox};
use open_ntrip_client::ieee::Real64;
use open_ntrip_client::logging::CaptureTarget;
use open_ntrip_client::session::{CloseReason, NtripVersion, Transport};
use open_ntrip_client::vocab::{GgaMode, GgaSource};
use open_ntrip_client::workers::machine::{
    on_gga_written, table_line, tally_frames, worth_decoding, Chunk, ConnState, Next, Output, Run,
    SessionEnd, WaitStep, MISS_REPEAT,
};
use open_ntrip_client::workers::ntrip::{NtripJob, ReconnectPolicy};
use open_ntrip_client::workers::tls::{TlsFail, TlsInfo};
use open_ntrip_client::workers::CorrQueue;

const SECOND: u64 = 1_000_000_000;

fn job() -> NtripJob {
    NtripJob {
        host: "caster".to_string(),
        port: 2101,
        mountpoint: "M".to_string(),
        username: String::new(),
        password: String::new(),
        version: NtripVersion::V1,
        transport: Transport::Ntrip,
        tls: false,
        allow_invalid_certs: false,
        gga_mode: GgaMode::WhenRequired,
        gga_source: GgaSource::Receiver,
        manual_lat: Real64::zero(),
        manual_lon: Real64::zero(),
        stream_requires_gga: Some(true),
        reconnect: ReconnectPolicy::Auto,
        max_attempts: 3,
        audio_alert: "alert.wav".to_string(),
        capture: None,
        user_agent: String::new(),
    }
}

fn shown(out: Outbox) -> Vec<String> {
    out.into_effects()
        .into_iter()
        .map(|e| match e {
            Effect::Event(t) => format!("event {t}"),
            Effect::Conn(t) => format!("conn {t}"),
            Effect::Send(t) => format!("send {t}"),
            other => format!("{other:?}"),
        })
        .collect()
}

fn chunk(n: usize) -> Chunk {
    Chunk {
        bytes: vec![0xD3; n],
        frames: Vec::new(),
        crc_failures: 0,
        garbage_bytes: 0,
    }
}

/// A connection that came up at `now`.
fn connect(run: &mut Run, now: u64) -> ConnState {
    let mut out = Outbox::new();
    assert!(run.begin_attempt(false, &mut out).is_none());
    run.connected(now, &mut out)
}

fn feed(run: &mut Run, conn: &mut ConnState, corr: &mut CorrQueue, now: u64, c: Chunk) -> Vec<String> {
    let mut out = Outbox::new();
    let end = run.dispatch(conn, Output::Corrections(c), now, &None, corr, &mut out);
    assert!(end.is_none());
    shown(out)
}

#[test]
fn an_attempt_is_announced_and_counted() {
    let mut run = Run::new(job());
    let mut out = Outbox::new();
    assert!(run.begin_attempt(false, &mut out).is_none());
    assert_eq!(
        shown(out),
        [
            "Ntrip(Connecting { attempt: 1 })",
            "event Connecting to caster:2101 (attempt 1)",
        ]
    );
    let mut out = Outbox::new();
    let stop = run.begin_attempt(true, &mut out);
    assert_eq!(stop, Some(("Disconnected by user".to_string(), false)));
    assert_eq!(run.attempts_done, 1);
}

/// A refused login is never retried, whatever the budget.
#[test]
fn a_refused_login_stops_the_run() {
    let mut run = Run::new(job());
    connect(&mut run, 0);
    let mut out = Outbox::new();
    match run.after_session(SessionEnd::Closed(CloseReason::Unauthorized), false, &mut out) {
        Next::Stop { failed, .. } => assert!(failed),
        other => panic!("{other:?}"),
    }
    assert!(!shown(out).iter().any(|l| l.contains("Alert")));
}

/// Dead connections use the budget up; the last one stops the run.
#[test]
fn the_attempt_budget_runs_out() {
    let mut run = Run::new(job());
    for n in 1..=3u32 {
        let mut out = Outbox::new();
        assert!(run.begin_attempt(false, &mut out).is_none());
        let end = Run::failed("Connect failed", "refused");
        match run.after_session(end, false, &mut out) {
            Next::Reconnect { next_attempt } => {
                assert!(n < 3);
                assert_eq!(next_attempt, n + 1);
            }
            Next::Stop { summary, failed } => {
                assert_eq!(n, 3);
                assert_eq!((summary.as_str(), failed), ("Connect failed: refused", true));
            }
        }
    }
}

/// A healthy stream resets the budget, and its drop rings the alert once.
#[test]
fn a_drop_rings_once_and_reconnects() {
    let mut run = Run::new(job());
    let mut corr = CorrQueue::new(4);
    let mut conn = connect(&mut run, 0);
    run.attempts_done = 3;
    let lines = feed(&mut run, &mut conn, &mut corr, 2 * SECOND, chunk(100));
    assert!(lines[0].starts_with("event Receiving data (first data 2.0 s after connect; "), "{lines:?}");
    assert_eq!(lines[1], "Ntrip(Streaming)");
    assert_eq!(lines.last().unwrap(), "RxBytes(100)");
    assert_eq!(run.attempts_done, 0);

    let mut out = Outbox::new();
    let end = run.dispatch(
        &mut conn,
        Output::Close(CloseReason::RemoteClosed),
        9 * SECOND,
        &None,
        &mut corr,
        &mut out,
    );
    let end = end.expect("a close ends the connection");
    assert!(matches!(
        run.after_session(end, false, &mut out),
        Next::Reconnect { next_attempt: 1 }
    ));
    let lines = shown(out);
    assert_eq!(lines.iter().filter(|l| l.starts_with("Alert")).count(), 1);
    assert!(lines.contains(&"Alert(\"alert.wav\")".to_string()));
    assert_eq!((run.drops, run.alert_armed), (1, false));

    let mut out = Outbox::new();
    run.after_session(Run::failed("Connect failed", "refused"), false, &mut out);
    assert!(!shown(out).iter().any(|l| l.starts_with("Alert")), "retries are silent");
    assert_eq!(run.drops, 1);
}

#[test]
fn a_cancel_is_a_clean_stop() {
    let mut run = Run::new(job());
    connect(&mut run, 0);
    run.alert_armed = true;
    let mut out = Outbox::new();
    match run.after_session(Run::failed("Read failed", "x"), true, &mut out) {
        Next::Stop { summary, failed } => {
            assert_eq!((summary.as_str(), failed), ("Disconnected by user", false));
        }
        other => panic!("{other:?}"),
    }
    assert_eq!(run.drops, 0);
    assert_eq!(Run::wait_step(5, 10, true), WaitStep::Cancelled);
    assert_eq!(Run::wait_step(5, 10, false), WaitStep::Sleep);
    assert_eq!(Run::wait_step(10, 10, false), WaitStep::Done);
}

#[test]
fn a_table_request_ends_with_its_table() {
    let mut run = Run::new(job());
    let mut corr = CorrQueue::new(4);
    let mut conn = connect(&mut run, 0);
    let mut out = Outbox::new();
    let end = run.dispatch(
        &mut conn,
        Output::Sourcetable(b"ENDSOURCETABLE".to_vec()),
        0,
        &None,
        &mut corr,
        &mut out,
    );
    let end = end.expect("the table ends it");
    match run.after_session(end, false, &mut out) {
        Next::Stop { summary, failed } => {
            assert_eq!((summary.as_str(), failed), ("Sourcetable downloaded", false));
        }
        other => panic!("{other:?}"),
    }
    assert_eq!(
        table_line("Downloaded sourcetable", 4, 1, 2),
        "Downloaded sourcetable: 4 streams, 1 casters, 2 networks"
    );
}

#[test]
fn protocol_lines_reach_both_logs() {
    let mut run = Run::new(job());
    let mut corr = CorrQueue::new(4);
    let mut conn = connect(&mut run, 0);
    let mut out = Outbox::new();
    for output in [
        Output::ProtocolTx("GET /M HTTP/1.0".to_string()),
        Output::ProtocolRx("ICY 200 OK".to_string()),
    ] {
        assert!(run.dispatch(&mut conn, output, 0, &None, &mut corr, &mut out).is_none());
    }
    assert_eq!(
        shown(out),
        [
            "event > GET /M HTTP/1.0",
            "conn > GET /M HTTP/1.0",
            "event < ICY 200 OK",
            "conn < ICY 200 OK",
        ]
    );
}

/// The receiver's sentence goes out as it came; without one the first miss
/// explains itself and later ones repeat a line while the stream is silent.
#[test]
fn a_due_position_is_sent_or_explained() {
    let run = Run::new(job());
    let mut conn = run.connected(0, &mut Outbox::new());
    let mut out = Outbox::new();
    run.on_gga_due(&mut conn, 0, "", &Some("$GPGGA,x*00".to_string()), &mut out);
    assert_eq!(shown(out), ["send $GPGGA,x*00\r\n"]);

    let due = |conn: &mut ConnState, now: u64| {
        let mut out = Outbox::new();
        run.on_gga_due(conn, now, "", &None, &mut out);
        shown(out)
    };
    let first = due(&mut conn, SECOND);
    assert_eq!(first.len(), 3, "diagnosis, remedy, and the session's note");
    assert_eq!(first[2], "GgaMissed");
    assert_eq!(due(&mut conn, 5 * SECOND), ["GgaMissed"]);
    assert_eq!(
        due(&mut conn, 11 * SECOND),
        [format!("event {MISS_REPEAT}"), "GgaMissed".to_string()]
    );
    conn.streaming = true;
    assert_eq!(due(&mut conn, 60 * SECOND), ["GgaMissed"]);
}

#[test]
fn a_manual_position_must_be_set() {
    let mut run = Run::new(job());
    run.job.gga_source = GgaSource::Manual;
    let mut conn = run.connected(0, &mut Outbox::new());
    let mut out = Outbox::new();
    run.on_gga_due(&mut conn, 0, "$GPGGA,fabricated\r\n", &None, &mut out);
    assert!(shown(out)[0].starts_with("event No manual position set"));
    run.job.manual_lat = Real64 { bits: 45.5f64.to_bits() };
    let mut out = Outbox::new();
    run.on_gga_due(&mut conn, 0, "$GPGGA,fabricated\r\n", &None, &mut out);
    assert_eq!(shown(out), ["send $GPGGA,fabricated\r\n"]);

    let mut out = Outbox::new();
    on_gga_written(&mut conn, "$GPGGA,fabricated\r\n", None, &mut out);
    assert_eq!((shown(out), conn.gga_sent), (vec!["conn > $GPGGA,fabricated".to_string()], 1));
    let mut out = Outbox::new();
    on_gga_written(&mut conn, "x", Some("broken pipe"), &mut out);
    assert_eq!(shown(out), ["event Failed to send GGA: broken pipe", "GgaMissed"]);
    assert_eq!(conn.gga_sent, 1);
}

#[test]
fn notices_come_once_per_run() {
    let mut run = Run::new(job());
    run.job.stream_requires_gga = None;
    run.job.mountpoint = "MY MOUNT".to_string();
    let mut out = Outbox::new();
    run.connection_notices(&mut out);
    assert_eq!(
        shown(out),
        [
            "event No sourcetable entry for 'MY MOUNT'; will send GGA in case it is required",
            "event Mountpoint 'MY MOUNT' contains spaces or control characters; sending it percent-encoded",
        ]
    );
    let mut out = Outbox::new();
    run.connection_notices(&mut out);
    assert!(shown(out).is_empty());

    let mut run = Run::new(job());
    run.job.gga_mode = GgaMode::Off;
    let mut out = Outbox::new();
    run.connection_notices(&mut out);
    assert_eq!(shown(out).len(), 2, "the stream wants what the profile never sends");
}

/// Overruns are posted every time and logged at most once per second.
#[test]
fn overruns_are_rate_limited_in_the_log() {
    let mut run = Run::new(job());
    let mut corr = CorrQueue::new(1);
    corr.set_active(true);
    let mut conn = connect(&mut run, 0);
    feed(&mut run, &mut conn, &mut corr, 0, chunk(1));
    let lines = feed(&mut run, &mut conn, &mut corr, SECOND, chunk(1));
    assert_eq!(lines[0], "Overruns(1)");
    assert!(lines[1].contains("oldest corrections dropped (1 total)"), "{lines:?}");
    let lines = feed(&mut run, &mut conn, &mut corr, SECOND + 1, chunk(1));
    assert_eq!(lines, ["Overruns(2)", "RxBytes(3)"]);
}

#[test]
fn captures_open_with_the_connection_and_close_with_it() {
    let mut run = Run::new(job());
    run.job.capture = Some(CaptureTarget::File("out.rtcm".to_string()));
    let mut corr = CorrQueue::new(1);
    let mut out = Outbox::new();
    let mut conn = run.connected(0, &mut out);
    assert_eq!(
        shown(out).last().unwrap(),
        "CaptureBegin { target: File(\"out.rtcm\"), mount: \"M\" }"
    );
    let lines = feed(&mut run, &mut conn, &mut corr, 0, chunk(2));
    assert!(lines.contains(&"CaptureData([211, 211])".to_string()), "{lines:?}");
    let mut out = Outbox::new();
    run.disconnected(3, 4, &mut out);
    assert_eq!(shown(out), ["CaptureEnd"]);
    assert_eq!((run.crc_base, run.garbage_base), (3, 4));
}

/// Frames are counted per type with their size on the wire, and framing
/// trouble is posted even without a frame.
#[test]
fn frames_are_tallied_and_trouble_is_posted() {
    assert_eq!(
        tally_frames(&vec![(1005, 19), (1074, 100), (1005, 21)]),
        [(1005, 2, 27), (1074, 1, 106)]
    );
    assert!(worth_decoding(1005) && worth_decoding(1230) && !worth_decoding(1074));
    let mut run = Run::new(job());
    let mut corr = CorrQueue::new(1);
    let mut conn = connect(&mut run, 0);
    feed(&mut run, &mut conn, &mut corr, 0, chunk(1));
    let mut c = chunk(1);
    c.crc_failures = 1;
    let lines = feed(&mut run, &mut conn, &mut corr, 0, c);
    assert!(lines[0].starts_with("Rtcm("), "{lines:?}");
    let mut c = chunk(1);
    c.crc_failures = 1;
    assert_eq!(feed(&mut run, &mut conn, &mut corr, 0, c), ["RxBytes(3)"]);
}

#[test]
fn an_unclassified_answer_is_kept() {
    let run = Run::new(job());
    let conn = run.connected(0, &mut Outbox::new());
    let mut out = Outbox::new();
    let reason = CloseReason::UnknownResponse { raw: b"??".to_vec() };
    run.on_close(&conn, SECOND, &reason, &mut out);
    let lines = shown(out);
    assert_eq!(lines[0], "UnknownResponse([63, 63])");
    assert!(lines[1].starts_with("event ") && lines[2].starts_with("conn "));
}

/// A rejected certificate is permanent; a broken transport is not.
#[test]
fn tls_failures_differ_in_what_follows() {
    let run = Run::new(job());
    let mut out = Outbox::new();
    assert!(matches!(
        run.tls_failed(TlsFail::Tls("bad certificate".to_string()), &mut out),
        SessionEnd::FailedPermanent(ref m) if m == "TLS handshake failed: bad certificate"
    ));
    assert_eq!(shown(out).len(), 2);
    let mut out = Outbox::new();
    assert!(matches!(
        run.tls_failed(TlsFail::Io("reset".to_string()), &mut out),
        SessionEnd::Failed(_)
    ));
    assert_eq!(shown(out), ["conn TLS handshake failed: reset"]);
    let mut out = Outbox::new();
    assert!(matches!(
        run.tls_failed(TlsFail::Cancelled, &mut out),
        SessionEnd::Closed(CloseReason::Cancelled)
    ));
    let mut out = Outbox::new();
    let info = TlsInfo { protocol: "TLSv1_3".to_string(), cipher: "AES".to_string() };
    run.tls_complete(&info, &mut out);
    assert_eq!(
        shown(out)[0],
        "event TLS handshake complete: TLSv1_3, AES, certificate verified"
    );
}

#[test]
fn statuses_compare_by_content() {
    assert_eq!(
        NtripStatus::Stopped { summary: "a".to_string(), failed: true },
        NtripStatus::Stopped { summary: "a".to_string(), failed: true }
    );
}
