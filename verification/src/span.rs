//! Time as plain integers: clock readings in nanoseconds, and spans between
//! them.
use vstd::prelude::*;

verus! {

/// Nanoseconds in a second.
pub const NANOS_PER_SEC: u64 = 1_000_000_000;

/// A span of time.
#[derive(Debug, Clone, Copy, PartialEq, Eq, Structural)]
pub struct Span {
    pub nanos: u64,
}

impl Span {
    /// A span of `s` seconds.
    pub fn from_secs(s: u64) -> (r: Span)
        requires
            s * NANOS_PER_SEC <= u64::MAX,
        ensures
            r.nanos == s * NANOS_PER_SEC,
    {
        Span { nanos: s * NANOS_PER_SEC }
    }

    /// A span of `ms` milliseconds.
    pub fn from_millis(ms: u64) -> (r: Span)
        requires
            ms * 1_000_000 <= u64::MAX,
        ensures
            r.nanos == ms * 1_000_000,
    {
        Span { nanos: ms * 1_000_000 }
    }

    /// The span between two clock readings, zero when `then` is the later one.
    pub open spec fn between(then: u64, now: u64) -> Span {
        Span {
            nanos: if now >= then {
                (now - then) as u64
            } else {
                0
            },
        }
    }

    /// The span from one clock reading to another, zero when `then` is later.
    pub fn since(then: u64, now: u64) -> (r: Span)
        ensures
            r == Span::between(then, now),
    {
        if now >= then {
            Span { nanos: now - then }
        } else {
            Span { nanos: 0 }
        }
    }
}

} // verus!
