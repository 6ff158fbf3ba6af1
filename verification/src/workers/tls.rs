//! TLS outcomes of the NTRIP worker: which server names are usable, when a
//! handshake gives up, and how its failures are classified.
use rustls::pki_types::ServerName;
use vstd::prelude::*;

verus! {

/// Handshake budget, in milliseconds. A peer that accepted the connection but
/// never speaks TLS must fail the way a silent plain-text peer does.
pub const HANDSHAKE_TIMEOUT_MS: u64 = 10_000;

/// Facts about the negotiated session for the connection log.
#[derive(Debug, Clone)]
pub struct TlsInfo {
    pub protocol: String,
    pub cipher: String,
}

/// Handshake failure, classified for the reconnect supervisor.
#[derive(Debug, Clone)]
pub enum TlsFail {
    /// The user cancelled while the handshake was in flight.
    Cancelled,
    /// Rejection by TLS itself. Retrying yields the same failure.
    Tls(String),
    /// Transport trouble, worth a reconnect like any other drop.
    Io(String),
}

/// Whether `ServerName::try_from` accepts a host.
pub uninterp spec fn is_server_name(host: Seq<char>) -> bool;

/// `ServerName::try_from(&str)` of the rustls crate: accepts DNS names and IP
/// address literals, and words every rejection alike. Which hosts it accepts
/// is named by [`is_server_name`], not described.
#[verifier::external_body]
fn parse_server_name(host: &str) -> (r: Result<(), String>)
    ensures
        match r {
            Ok(()) => is_server_name(host@),
            Err(e) => !is_server_name(host@) && e@ == "invalid dns name"@,
        },
{
    match ServerName::try_from(host) {
        Ok(_) => Ok(()),
        Err(e) => Err(e.to_string()),
    }
}

/// The words of a rejected server name.
pub open spec fn bad_name_text(host: Seq<char>, error: Seq<char>) -> Seq<char> {
    "invalid TLS server name '"@ + host + "': "@ + error
}

/// What the outcome of parsing a server name means for the handshake: an
/// unusable name is a permanent rejection.
pub fn server_name_outcome(host: &str, parsed: Result<(), String>) -> (r: Result<(), TlsFail>)
    ensures
        match parsed {
            Ok(()) => r is Ok,
            Err(e) => r is Err && r->Err_0 is Tls && r->Err_0->Tls_0@ == bad_name_text(host@, e@),
        },
{
    match parsed {
        Ok(()) => Ok(()),
        Err(e) => {
            let mut msg = "invalid TLS server name '".to_owned();
            msg.append(host);
            msg.append("': ");
            msg.append(e.as_str());
            Err(TlsFail::Tls(msg))
        },
    }
}

/// Whether a handshake can be attempted under this name at all.
pub fn check_server_name(host: &str) -> (r: Result<(), TlsFail>)
    ensures
        if is_server_name(host@) {
            r is Ok
        } else {
            r is Err && r->Err_0 is Tls && r->Err_0->Tls_0@ == bad_name_text(
                host@,
                "invalid dns name"@,
            )
        },
{
    server_name_outcome(host, parse_server_name(host))
}

/// What one round of handshake input and output came to.
#[derive(Debug, Clone)]
pub enum HandshakeIo {
    Progress,
    /// The read timeout passed without data.
    NotReady,
    /// The TLS library rejected what it received.
    Rejected(String),
    /// The transport failed.
    Broken(String),
}

/// Before each round: give up when cancelled, or when the budget is spent. A
/// silent peer is transport trouble, not a rejection.
pub fn handshake_gate(cancelled: bool, now: u64, deadline: u64) -> (r: Result<(), TlsFail>)
    ensures
        if cancelled {
            r is Err && r->Err_0 is Cancelled
        } else if now >= deadline {
            r is Err && r->Err_0 is Io && r->Err_0->Io_0@ == "TLS handshake timed out"@
        } else {
            r is Ok
        },
{
    if cancelled {
        Err(TlsFail::Cancelled)
    } else if now >= deadline {
        Err(TlsFail::Io("TLS handshake timed out".to_owned()))
    } else {
        Ok(())
    }
}

/// After each round: classify a failure. A cancel that closed the socket
/// under the handshake reads as a cancel.
pub fn handshake_round(io: HandshakeIo, cancelled: bool) -> (r: Result<(), TlsFail>)
    ensures
        match io {
            HandshakeIo::Progress => r is Ok,
            HandshakeIo::NotReady => r is Ok,
            HandshakeIo::Rejected(e) => r is Err && if cancelled {
                r->Err_0 is Cancelled
            } else {
                r->Err_0 is Tls && r->Err_0->Tls_0 == e
            },
            HandshakeIo::Broken(e) => r is Err && if cancelled {
                r->Err_0 is Cancelled
            } else {
                r->Err_0 is Io && r->Err_0->Io_0 == e
            },
        },
{
    match io {
        HandshakeIo::Progress => Ok(()),
        HandshakeIo::NotReady => Ok(()),
        HandshakeIo::Rejected(e) => if cancelled {
            Err(TlsFail::Cancelled)
        } else {
            Err(TlsFail::Tls(e))
        },
        HandshakeIo::Broken(e) => if cancelled {
            Err(TlsFail::Cancelled)
        } else {
            Err(TlsFail::Io(e))
        },
    }
}

/// The negotiated-session facts, with stand-ins for what is unknown.
pub fn session_info(protocol: Option<String>, cipher: Option<String>) -> (r: TlsInfo)
    ensures
        r.protocol@ == (match protocol {
            Some(p) => p@,
            None => "unknown version"@,
        }),
        r.cipher@ == (match cipher {
            Some(c) => c@,
            None => "unknown cipher"@,
        }),
{
    TlsInfo {
        protocol: match protocol {
            Some(p) => p,
            None => "unknown version".to_owned(),
        },
        cipher: match cipher {
            Some(c) => c,
            None => "unknown cipher".to_owned(),
        },
    }
}

} // verus!
