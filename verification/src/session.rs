//! Protocol vocabulary shared with the NTRIP session: how a connection is
//! made, what it reports, and why it ends.
use vstd::prelude::*;

verus! {

#[derive(Debug, Clone, Copy, PartialEq, Eq, Structural)]
pub enum NtripVersion {
    V1,
    V2,
}

#[derive(Debug, Clone, Copy, PartialEq, Eq, Structural)]
pub enum Transport {
    Ntrip,
    RawTcp,
}

/// When the session asks for a position sentence.
#[derive(Debug, Clone, Copy, PartialEq, Eq, Structural)]
pub enum GgaPolicy {
    Off,
    Always,
    WhenRequired { stream_requires: bool },
}

impl GgaPolicy {
    /// Whether this policy sends a position at all.
    pub open spec fn sends(self) -> bool {
        match self {
            GgaPolicy::Off => false,
            GgaPolicy::Always => true,
            GgaPolicy::WhenRequired { stream_requires } => stream_requires,
        }
    }
}

/// Why a session ended.
#[derive(Debug, Clone, PartialEq)]
pub enum CloseReason {
    Unauthorized,
    /// The caster answered a stream request with its sourcetable.
    MountpointNotFound { sourcetable: Vec<u8> },
    /// The bytes received, when they never became a recognized response.
    UnknownResponse { raw: Vec<u8> },
    FirstResponseTimeout,
    SourcetableTimeout,
    StreamSilence,
    StreamCorrupt { detail: String },
    RemoteClosed,
    Cancelled,
}

impl CloseReason {
    /// Closes shaped by the environment rather than by the request: trying
    /// the same request again can succeed.
    pub open spec fn retryable(&self) -> bool {
        match self {
            CloseReason::FirstResponseTimeout => true,
            CloseReason::SourcetableTimeout => true,
            CloseReason::StreamSilence => true,
            CloseReason::StreamCorrupt { .. } => true,
            CloseReason::RemoteClosed => true,
            _ => false,
        }
    }

    /// Whether the same request can succeed when tried again.
    pub fn auto_reconnect(&self) -> (r: bool)
        ensures
            r == self.retryable(),
    {
        match self {
            CloseReason::FirstResponseTimeout => true,
            CloseReason::SourcetableTimeout => true,
            CloseReason::StreamSilence => true,
            CloseReason::StreamCorrupt { .. } => true,
            CloseReason::RemoteClosed => true,
            _ => false,
        }
    }
}

} // verus!
