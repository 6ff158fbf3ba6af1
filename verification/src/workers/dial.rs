//! The connect phase: which address to dial next, and how its end is worded.
use vstd::prelude::*;

use crate::bus::{Outbox, Post};
use crate::text::{dec, push_dec};

verus! {

/// What a poll of a helper thread's result came to.
#[derive(Debug, Clone)]
pub enum Polled<T> {
    Value(T),
    /// Nothing within this slice.
    Timeout,
    /// The helper is gone without a result.
    Gone,
}

/// What the wait for a helper thread comes to.
#[derive(Debug, Clone)]
pub enum Awaited<T> {
    Result(T),
    /// Cancelled, or the helper is gone: give up on it.
    Abandoned,
    Again,
}

/// One slice of the wait for a helper thread; a cancel abandons the helper at
/// once, whatever it has to say.
pub fn await_cancellable<T>(polled: Polled<T>, cancelled: bool) -> (r: Awaited<T>)
    ensures
        r == (if cancelled {
            Awaited::Abandoned
        } else {
            match polled {
                Polled::Value(v) => Awaited::Result(v),
                Polled::Timeout => Awaited::Again,
                Polled::Gone => Awaited::Abandoned,
            }
        }),
{
    if cancelled {
        return Awaited::Abandoned;
    }
    match polled {
        Polled::Value(v) => Awaited::Result(v),
        Polled::Timeout => Awaited::Again,
        Polled::Gone => Awaited::Abandoned,
    }
}

/// What to do next in the connect phase.
#[derive(Debug, Clone)]
pub enum DialStep {
    /// Dial the address with this index.
    Dial(usize),
    Fail(String),
}

/// The walk over a host's addresses.
#[derive(Debug)]
pub struct Dialer {
    pub addrs: Vec<String>,
    pub next: usize,
    pub last_err: String,
}

/// The message of a helper thread that could not be started.
pub fn helper_error(cause: &str) -> (r: String)
    ensures
        r@ == "spawn connect helper: "@ + cause@,
{
    let mut out = "spawn connect helper: ".to_owned();
    out.append(cause);
    out
}

/// The message of a failed address lookup.
pub fn resolve_error(host: &str, port: u16, cause: &str) -> (r: String)
    ensures
        r@ == "resolve "@ + host@ + ":"@ + dec(port as nat) + ": "@ + cause@,
{
    let mut out = "resolve ".to_owned();
    out.append(host);
    out.append(":");
    push_dec(&mut out, port as u64);
    out.append(": ");
    out.append(cause);
    out
}

impl Dialer {
    pub open spec fn wf(self) -> bool {
        self.next <= self.addrs@.len()
    }

    /// Start at the first address.
    pub fn new(host: &str, port: u16, addrs: Vec<String>) -> (r: Dialer)
        ensures
            r.wf(),
            r.addrs == addrs,
            r.next == 0,
            r.last_err@ == "no addresses for "@ + host@ + ":"@ + dec(port as nat),
    {
        let mut last_err = "no addresses for ".to_owned();
        last_err.append(host);
        last_err.append(":");
        push_dec(&mut last_err, port as u64);
        Dialer { addrs, next: 0, last_err }
    }

    /// Dial the next address, unless cancelled: a host with many addresses
    /// must not stack timeouts after the user gave up. With no address left,
    /// the last failure stands.
    pub fn step(&self, cancelled: bool) -> (r: DialStep)
        requires
            self.wf(),
        ensures
            if self.next < self.addrs@.len() {
                if cancelled {
                    r is Fail && r->Fail_0@ == "cancelled"@
                } else {
                    r == DialStep::Dial(self.next)
                }
            } else {
                r is Fail && r->Fail_0@ == self.last_err@
            },
    {
        if self.next < self.addrs.len() {
            if cancelled {
                DialStep::Fail("cancelled".to_owned())
            } else {
                DialStep::Dial(self.next)
            }
        } else {
            DialStep::Fail(self.last_err.clone())
        }
    }

    /// The address just dialled did not answer.
    pub fn failed(&mut self, cause: &str)
        requires
            old(self).wf(),
            old(self).next < old(self).addrs@.len(),
        ensures
            final(self).wf(),
            final(self).addrs == old(self).addrs,
            final(self).next == old(self).next + 1,
            final(self).last_err@ == old(self).addrs@[old(self).next as int]@ + ": "@ + cause@,
    {
        let count: usize = self.addrs.len();
        assert(self.next < count);
        let mut e = self.addrs[self.next].clone();
        e.append(": ");
        e.append(cause);
        self.last_err = e;
        self.next = self.next + 1;
    }
}

/// What one read of the socket came to.
#[derive(Debug, Clone)]
pub enum ReadOutcome {
    /// End of stream.
    Eof,
    Data,
    TimedOut,
    /// The peer dropped a TLS connection without closing it properly.
    UnexpectedEof,
    Failed(String),
}

/// What to tell the protocol session.
#[derive(Debug, Clone, Copy, PartialEq, Eq, Structural)]
pub enum SessionCall {
    Cancel,
    RemoteClose,
    Bytes,
    Nothing,
}

/// What the session is told of a read.
pub open spec fn told(outcome: ReadOutcome, cancelled: bool) -> SessionCall {
    match outcome {
        ReadOutcome::Data => SessionCall::Bytes,
        ReadOutcome::TimedOut => SessionCall::Nothing,
        _ => if cancelled {
            SessionCall::Cancel
        } else {
            SessionCall::RemoteClose
        },
    }
}

/// What a read posts, after `p`.
pub open spec fn read_posts(outcome: ReadOutcome, cancelled: bool, p: Seq<Post>) -> Seq<Post> {
    match outcome {
        ReadOutcome::Failed(e) => if cancelled {
            p
        } else {
            p.push(Post::Event("Socket error: "@ + e@))
        },
        _ => p,
    }
}

/// Turn the outcome of a read into a call on the session. Casters drop
/// connections ungracefully as a matter of routine, so only a genuine socket
/// error gets alarming words.
pub fn after_read(outcome: ReadOutcome, cancelled: bool, out: &mut Outbox) -> (r: SessionCall)
    ensures
        r == told(outcome, cancelled),
        final(out)@ == read_posts(outcome, cancelled, old(out)@),
{
    match outcome {
        ReadOutcome::Data => SessionCall::Bytes,
        ReadOutcome::TimedOut => SessionCall::Nothing,
        ReadOutcome::Eof => if cancelled {
            SessionCall::Cancel
        } else {
            SessionCall::RemoteClose
        },
        ReadOutcome::UnexpectedEof => if cancelled {
            SessionCall::Cancel
        } else {
            SessionCall::RemoteClose
        },
        ReadOutcome::Failed(e) => if cancelled {
            SessionCall::Cancel
        } else {
            let line = "Socket error: ".to_owned().concat(e.as_str());
            out.event(line.as_str());
            SessionCall::RemoteClose
        },
    }
}

} // verus!
