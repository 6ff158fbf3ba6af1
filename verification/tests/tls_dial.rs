//! TLS and dialing decisions.
use open_ntrip_client::bus::{Effect, Outbox};
use open_ntrip_client::workers::dial::{
    after_read, await_cancellable, helper_error, resolve_error, Awaited, DialStep, Dialer, Polled, ReadOutcome,
    SessionCall,
};
use open_ntrip_client::workers::tls::{
    check_server_name, handshake_gate, handshake_round, server_name_outcome, session_info,
    HandshakeIo, TlsFail,
};

#[test]
fn server_name_accepts_dns_and_ip() {
    assert!(check_server_name("caster.example.com").is_ok());
    // TEST-NET-1 documentation address: any IP literal proves the parse.
    assert!(check_server_name("192.0.2.1").is_ok());
    assert!(check_server_name("bad host name").is_err());
}

#[test]
fn server_name_failures_are_tls_failures() {
    assert!(matches!(check_server_name(""), Err(TlsFail::Tls(_))));
    let rejected = check_server_name("bad host name");
    assert!(matches!(
        rejected,
        Err(TlsFail::Tls(m)) if m == "invalid TLS server name 'bad host name': invalid dns name"
    ));
    assert!(server_name_outcome("h", Ok(())).is_ok());
    let Err(TlsFail::Tls(e)) = server_name_outcome("h", Err("why".to_string())) else {
        panic!("rejection is permanent");
    };
    assert!(e.contains("h") && e.contains("why"), "{e}");
}

#[test]
fn handshake_stops_on_cancel_and_deadline() {
    assert!(handshake_gate(false, 0, 10).is_ok());
    assert!(matches!(handshake_gate(true, 0, 10), Err(TlsFail::Cancelled)));
    assert!(matches!(handshake_gate(false, 10, 10), Err(TlsFail::Io(_))));
    assert!(handshake_round(HandshakeIo::Progress, false).is_ok());
    assert!(handshake_round(HandshakeIo::NotReady, false).is_ok());
    assert!(matches!(
        handshake_round(HandshakeIo::Rejected("cert".to_string()), false),
        Err(TlsFail::Tls(_))
    ));
    assert!(matches!(
        handshake_round(HandshakeIo::Broken("reset".to_string()), false),
        Err(TlsFail::Io(_))
    ));
}

#[test]
fn session_info_has_words_for_what_is_unknown() {
    let info = session_info(Some("TLSv1_3".to_string()), None);
    assert_eq!(info.protocol, "TLSv1_3");
    assert!(!info.cipher.is_empty());
}

/// The connect phase's cancellation seam: a cancel must cut the wait
/// short even while the helper thread is stuck in a blocking call.
#[test]
fn await_cancellable_returns_fast_on_cancel() {
    assert!(matches!(await_cancellable::<u8>(Polled::Timeout, false), Awaited::Again));
    assert!(matches!(await_cancellable::<u8>(Polled::Timeout, true), Awaited::Abandoned));
    assert!(matches!(await_cancellable::<u8>(Polled::Gone, false), Awaited::Abandoned));
}

#[test]
fn await_cancellable_delivers_result_when_not_cancelled() {
    assert!(matches!(await_cancellable(Polled::Value(7u8), false), Awaited::Result(7)));
}

#[test]
fn resolve_and_connect_checks_cancel_between_addresses() {
    // Pre-set cancel: the helper must bail before dialing any address,
    // so a multi-A-record host cannot stack connect timeouts.
    let d = Dialer::new("localhost", 9, vec!["127.0.0.1:9".to_string()]);
    let DialStep::Fail(err) = d.step(true) else { panic!("cancelled") };
    assert_eq!(err, "cancelled");
}

#[test]
fn dialer_tries_every_address_and_keeps_the_last_error() {
    let mut d = Dialer::new("h", 9, vec!["a".to_string(), "b".to_string()]);
    assert!(matches!(d.step(false), DialStep::Dial(0)));
    d.failed("refused");
    assert!(matches!(d.step(false), DialStep::Dial(1)));
    d.failed("timed out");
    let DialStep::Fail(e) = d.step(false) else { panic!("no address left") };
    assert!(e.contains("timed out"), "{e}");
    let none = Dialer::new("h", 9, Vec::new());
    let DialStep::Fail(e) = none.step(false) else { panic!("no address at all") };
    assert!(e.contains("h"), "{e}");
    assert!(resolve_error("h", 9, "nxdomain").contains("nxdomain"));
}

#[test]
fn reads_become_session_calls() {
    let mut out = Outbox::new();
    assert_eq!(after_read(ReadOutcome::Data, false, &mut out), SessionCall::Bytes);
    assert_eq!(after_read(ReadOutcome::Eof, false, &mut out), SessionCall::RemoteClose);
    assert_eq!(after_read(ReadOutcome::TimedOut, false, &mut out), SessionCall::Nothing);
    assert_eq!(after_read(ReadOutcome::UnexpectedEof, false, &mut out), SessionCall::RemoteClose);
    let call = after_read(ReadOutcome::Failed("reset".to_string()), false, &mut out);
    assert_eq!(call, SessionCall::RemoteClose);
    let said = out.into_effects();
    assert!(
        said.iter().any(|e| matches!(e, Effect::Event(t) | Effect::Conn(t) if t.contains("reset"))),
        "{said:?}"
    );
}

#[test]
fn a_helper_that_cannot_start_is_worded() {
    assert_eq!(helper_error("no threads"), "spawn connect helper: no threads");
}
