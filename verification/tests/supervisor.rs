//! Whole runs of the caster worker: what happens goes in, what is to be done
//! comes out.

use open_ntrip_client::bus::{Effect, Outbox};
use open_ntrip_client::ieee::Real64;
use open_ntrip_client::logging::CaptureTarget;
use open_ntrip_client::session::{CloseReason, NtripVersion, Transport};
use open_ntrip_client::vocab::{GgaMode, GgaSource};
use open_ntrip_client::workers::dial::{ReadOutcome, SessionCall};
use open_ntrip_client::workers::machine::{Chunk, Output, SessionEnd};
use open_ntrip_client::workers::ntrip::{NtripJob, ReconnectPolicy};
use open_ntrip_client::workers::supervisor::{
    Act, Dialed, Happened, Link, LinkAct, LinkEvent, Supervisor, RECONNECT_DELAY,
};
use open_ntrip_client::workers::tls::{TlsFail, TlsInfo};
use open_ntrip_client::workers::CorrQueue;

const SECOND: u64 = 1_000_000_000;

fn job(reconnect: ReconnectPolicy, max_attempts: u32) -> NtripJob {
    NtripJob {
        host: "caster".to_string(),
        port: 2101,
        mountpoint: "RTCM3".to_string(),
        username: String::new(),
        password: String::new(),
        version: NtripVersion::V1,
        transport: Transport::Ntrip,
        tls: false,
        allow_invalid_certs: false,
        gga_mode: GgaMode::Off,
        gga_source: GgaSource::Receiver,
        manual_lat: Real64::zero(),
        manual_lon: Real64::zero(),
        stream_requires_gga: None,
        reconnect,
        max_attempts,
        audio_alert: "alert.wav".to_string(),
        capture: None,
        user_agent: String::new(),
    }
}

fn shown(out: Outbox) -> Vec<String> {
    out.into_effects()
        .into_iter()
        .map(|e| match e {
            Effect::Event(t) => format!("event {t}"),
            Effect::Conn(t) => format!("conn {t}"),
            other => format!("{other:?}"),
        })
        .collect()
}

fn turn(s: &mut Supervisor, event: Happened, now: u64, cancelled: bool) -> (Act, Vec<String>) {
    let mut out = Outbox::new();
    let act = s.supervise(event, now, cancelled, &mut out);
    (act, shown(out))
}

fn stopped(act: Act) -> (String, bool) {
    match act {
        Act::Stop { summary, failed } => (summary, failed),
        other => panic!("not stopped: {other:?}"),
    }
}

fn drive(
    link: &mut Link,
    s: &mut Supervisor,
    event: LinkEvent,
    now: u64,
    cancelled: bool,
) -> (LinkAct, Vec<String>) {
    let mut out = Outbox::new();
    let act = link.drive_connection(&mut s.run, event, now, cancelled, &mut out);
    (act, shown(out))
}

fn report(link: &mut Link, s: &mut Supervisor, output: Output, now: u64) -> Vec<String> {
    let mut out = Outbox::new();
    let mut corr = CorrQueue::new(4);
    link.dispatch(&mut s.run, output, now, &None, &mut corr, &mut out);
    shown(out)
}

fn chunk(n: usize) -> Chunk {
    Chunk {
        bytes: vec![0xD3; n],
        frames: Vec::new(),
        crc_failures: 2,
        garbage_bytes: 3,
    }
}

const DRAINED: LinkEvent = LinkEvent::Drained {
    crc_failures: 2,
    garbage_bytes: 3,
};

#[test]
fn a_dropped_stream_waits_out_the_delay_and_dials_again() {
    let mut s = Supervisor::new(job(ReconnectPolicy::Auto, 5));
    let (act, lines) = turn(&mut s, Happened::Start, 0, false);
    assert!(matches!(act, Act::Dial));
    assert_eq!(lines[1], "event Connecting to caster:2101 (attempt 1)");
    let (act, _) = turn(&mut s, Happened::Dialed(Dialed::Connected), 0, false);
    assert!(matches!(act, Act::Drive));

    let mut link = Link::new();
    let (act, _) = drive(&mut link, &mut s, LinkEvent::TimeoutSet(Ok(())), 0, false);
    assert!(matches!(act, LinkAct::SendRequest));
    let (act, lines) = drive(&mut link, &mut s, LinkEvent::RequestSent(Ok(())), 0, false);
    assert!(matches!(act, LinkAct::Dispatch));
    assert_eq!(lines[0], "event Connected. Waiting for data...");
    let (act, _) = drive(&mut link, &mut s, DRAINED, 0, false);
    assert!(matches!(act, LinkAct::Read));
    let (act, _) = drive(&mut link, &mut s, LinkEvent::Read(ReadOutcome::Data), 0, false);
    assert!(matches!(act, LinkAct::Tell(SessionCall::Bytes)));
    report(&mut link, &mut s, Output::Corrections(chunk(100)), SECOND);
    assert_eq!(s.run.attempts_done, 0, "a healthy stream ends the outage");
    report(&mut link, &mut s, Output::Close(CloseReason::RemoteClosed), SECOND);
    let (act, _) = drive(&mut link, &mut s, DRAINED, SECOND, false);
    let LinkAct::End(end) = act else {
        panic!("the close must end the connection");
    };
    assert_eq!((s.run.crc_base, s.run.garbage_base), (2, 3));

    let (act, lines) = turn(&mut s, Happened::Ended(end), SECOND, false);
    assert!(matches!(act, Act::Sleep));
    assert!(lines.contains(
        &"event Stream dropped (1st time this session) - reconnecting in 10 s (attempt 1 of 5)"
            .to_string()
    ));
    let until = SECOND + RECONNECT_DELAY;
    let (act, _) = turn(&mut s, Happened::Slept, until - 1, false);
    assert!(matches!(act, Act::Sleep));
    let (act, lines) = turn(&mut s, Happened::Slept, until, false);
    assert!(matches!(act, Act::Dial));
    assert_eq!(lines[1], "event Connecting to caster:2101 (attempt 1)");
}

#[test]
fn a_cancel_cuts_the_wait_short() {
    let mut s = Supervisor::new(job(ReconnectPolicy::Auto, 5));
    turn(&mut s, Happened::Start, 0, false);
    let failed = Happened::Dialed(Dialed::Failed("refused".to_string()));
    let (act, lines) = turn(&mut s, failed, 0, false);
    assert!(matches!(act, Act::Sleep));
    assert_eq!(lines[0], "event Connect failed: refused");
    assert!(
        !lines.iter().any(|l| l.contains("Alert")),
        "nothing was lost, so nothing rings: {lines:?}"
    );
    let (act, _) = turn(&mut s, Happened::Slept, SECOND, true);
    assert_eq!(stopped(act), ("Disconnected by user".to_string(), false));
}

#[test]
fn the_attempt_budget_ends_the_run() {
    let mut s = Supervisor::new(job(ReconnectPolicy::Auto, 2));
    let mut now = 0;
    turn(&mut s, Happened::Start, now, false);
    let refused = || Happened::Dialed(Dialed::Failed("refused".to_string()));
    assert!(matches!(turn(&mut s, refused(), now, false).0, Act::Sleep));
    now += RECONNECT_DELAY;
    assert!(matches!(turn(&mut s, Happened::Slept, now, false).0, Act::Dial));
    let (act, lines) = turn(&mut s, refused(), now, false);
    assert_eq!(stopped(act), ("Connect failed: refused".to_string(), true));
    assert!(lines.iter().any(|l| l.contains("limit reached (2 attempts)")));
    assert_eq!(s.run.attempts_done, 2);
}

#[test]
fn a_refusal_stops_at_once() {
    let mut s = Supervisor::new(job(ReconnectPolicy::Auto, 5));
    turn(&mut s, Happened::Start, 0, false);
    let end = SessionEnd::Closed(CloseReason::Unauthorized);
    let (act, lines) = turn(&mut s, Happened::Ended(end), 0, false);
    assert_eq!(
        stopped(act),
        ("Invalid username or password".to_string(), true)
    );
    assert!(lines[0].starts_with("event Not reconnecting: this failure would repeat"));
}

#[test]
fn cancelling_the_dial_is_no_failure() {
    let mut s = Supervisor::new(job(ReconnectPolicy::Auto, 5));
    turn(&mut s, Happened::Start, 0, false);
    let (act, lines) = turn(&mut s, Happened::Dialed(Dialed::Cancelled), 0, true);
    assert_eq!(stopped(act), ("Disconnected by user".to_string(), false));
    assert!(lines.is_empty());
    let mut s = Supervisor::new(job(ReconnectPolicy::Auto, 5));
    let (act, _) = turn(&mut s, Happened::Start, 0, true);
    assert_eq!(stopped(act), ("Disconnected by user".to_string(), false));
}

#[test]
fn a_rejected_certificate_is_permanent_and_lost_transport_is_not() {
    let mut tls = job(ReconnectPolicy::Auto, 5);
    tls.tls = true;
    let mut s = Supervisor::new(tls);
    let mut link = Link::new();
    let (act, _) = drive(&mut link, &mut s, LinkEvent::TimeoutSet(Ok(())), 0, false);
    assert!(matches!(act, LinkAct::Handshake));

    let fail = TlsFail::Tls("unknown issuer".to_string());
    let (act, lines) = drive(&mut link, &mut s, LinkEvent::Handshaken(Err(fail)), 0, false);
    assert!(matches!(act, LinkAct::End(SessionEnd::FailedPermanent(_))));
    assert_eq!(lines[0], "event TLS handshake failed: unknown issuer");

    let fail = TlsFail::Io("reset".to_string());
    let (act, lines) = drive(&mut link, &mut s, LinkEvent::Handshaken(Err(fail)), 0, false);
    assert!(matches!(act, LinkAct::End(SessionEnd::Failed(_))));
    assert_eq!(lines, vec!["conn TLS handshake failed: reset"]);

    let event = LinkEvent::Handshaken(Err(TlsFail::Cancelled));
    let (act, lines) = drive(&mut link, &mut s, event, 0, true);
    assert!(matches!(
        act,
        LinkAct::End(SessionEnd::Closed(CloseReason::Cancelled))
    ));
    assert!(lines.is_empty());

    let info = TlsInfo {
        protocol: "TLSv1_3".to_string(),
        cipher: "X".to_string(),
    };
    let (act, lines) = drive(&mut link, &mut s, LinkEvent::Handshaken(Ok(info)), 0, false);
    assert!(matches!(act, LinkAct::SendRequest));
    assert_eq!(
        lines[0],
        "event TLS handshake complete: TLSv1_3, X, certificate verified"
    );
}

#[test]
fn socket_trouble_before_the_request_is_worded() {
    let mut s = Supervisor::new(job(ReconnectPolicy::Auto, 5));
    let mut link = Link::new();
    let event = LinkEvent::TimeoutSet(Err("bad".to_string()));
    let (act, _) = drive(&mut link, &mut s, event, 0, false);
    assert!(matches!(act, LinkAct::End(SessionEnd::Failed(m)) if m == "set_read_timeout: bad"));
    let event = LinkEvent::RequestSent(Err("pipe".to_string()));
    let (act, _) = drive(&mut link, &mut s, event, 0, false);
    assert!(matches!(act, LinkAct::End(SessionEnd::Failed(m)) if m == "Send request failed: pipe"));
}

#[test]
fn the_capture_opens_with_the_request_and_closes_with_the_connection() {
    let mut capture = job(ReconnectPolicy::OptionsOff, 5);
    capture.capture = Some(CaptureTarget::Dir("Captures".to_string()));
    let mut s = Supervisor::new(capture);
    let mut link = Link::new();
    let (_, lines) = drive(&mut link, &mut s, LinkEvent::RequestSent(Ok(())), 0, false);
    assert_eq!(lines[2], "CaptureBegin { target: Dir(\"Captures\"), mount: \"RTCM3\" }");
    report(&mut link, &mut s, Output::Close(CloseReason::RemoteClosed), SECOND);
    let (_, lines) = drive(&mut link, &mut s, DRAINED, SECOND, false);
    assert_eq!(lines, vec!["CaptureEnd"]);
}

#[test]
fn the_first_end_is_the_end() {
    let mut s = Supervisor::new(job(ReconnectPolicy::Auto, 5));
    let mut link = Link::new();
    drive(&mut link, &mut s, LinkEvent::RequestSent(Ok(())), 0, false);
    report(&mut link, &mut s, Output::Sourcetable(Vec::new()), 0);
    report(&mut link, &mut s, Output::Close(CloseReason::RemoteClosed), 0);
    let (act, _) = drive(&mut link, &mut s, DRAINED, 0, false);
    let LinkAct::End(end) = act else {
        panic!("the table must end the connection");
    };
    let (act, _) = turn(&mut s, Happened::Ended(end), 0, false);
    assert_eq!(stopped(act), ("Sourcetable downloaded".to_string(), false));
}

#[test]
fn a_cancelled_connection_is_told_before_it_is_read() {
    let mut s = Supervisor::new(job(ReconnectPolicy::Auto, 5));
    let mut link = Link::new();
    drive(&mut link, &mut s, LinkEvent::RequestSent(Ok(())), 0, false);
    let (act, _) = drive(&mut link, &mut s, DRAINED, 0, true);
    assert!(matches!(act, LinkAct::CancelSession));
    let event = LinkEvent::Read(ReadOutcome::Failed("shut down".to_string()));
    let (act, lines) = drive(&mut link, &mut s, event, 0, true);
    assert!(matches!(act, LinkAct::Tell(SessionCall::Cancel)));
    assert!(lines.is_empty());
    let event = LinkEvent::Read(ReadOutcome::Failed("reset".to_string()));
    let (act, lines) = drive(&mut link, &mut s, event, 0, false);
    assert!(matches!(act, LinkAct::Tell(SessionCall::RemoteClose)));
    assert_eq!(lines, vec!["event Socket error: reset"]);
}
