//! What the operations promise, said of their arguments and results.
//!
//! Each law speaks of a call of the operation itself, through
//! `call_ensures`, and of the plain values that go in and come out.
pub mod app;
pub mod browser;
pub mod caster;
pub mod controls;
pub mod files;
pub mod legacy;
pub mod lines;
pub mod lists;
pub mod menus;
pub mod numbers;
pub mod panels;
pub mod policy;
pub mod receiver;
pub mod selftest;
pub mod settings;
pub mod steps;
pub mod vocab;
pub mod window;
pub mod words;

use vstd::prelude::*;

use crate::bus::{Effect, Post};

verus! {

/// The posts that were appended.
pub open spec fn added(before: Seq<Post>, after: Seq<Post>) -> Seq<Post> {
    after.skip(before.len() as int)
}

/// Whether nothing that was posted before is lost or changed.
pub open spec fn keeps(before: Seq<Post>, after: Seq<Post>) -> bool {
    before.len() <= after.len() && after.take(before.len() as int) == before
}

/// Whether a text has this part somewhere.
pub open spec fn mentions(text: Seq<char>, part: Seq<char>) -> bool {
    exists|i: int|
        0 <= i <= text.len() - part.len() && #[trigger] text.subrange(i, i + part.len()) == part
}

/// An effect says exactly what it carries, each kind under its own name.
pub proof fn law_effects_say_what_they_carry(e: Effect)
    ensures
        match e {
            Effect::Event(t) => e@ == Post::Event(t@),
            Effect::Conn(t) => e@ == Post::Conn(t@),
            Effect::Ntrip(s) => e@ == Post::Ntrip(s@),
            Effect::Serial(s) => e@ == Post::Serial(s@),
            Effect::RxBytes(n) => e@ == Post::RxBytes(n),
            Effect::Rtcm(b) => (e@ matches Post::Rtcm(frames, crc, garbage) && frames == b.frames@
                && crc == b.crc_failures && garbage == b.garbage_bytes),
            Effect::UnknownResponse(raw) => e@ == Post::UnknownResponse(raw@),
            Effect::Sourcetable { raw, what } => e@ == Post::Sourcetable(raw@, what@),
            Effect::Overruns(n) => e@ == Post::Overruns(n),
            Effect::CaptureBegin { target, mount } => (e@ matches Post::CaptureBegin {
                target: t,
                mount: m,
            } && t == target@ && m == mount@),
            Effect::CaptureData(b) => e@ == Post::CaptureData(b@),
            Effect::CaptureEnd => e@ == Post::CaptureEnd,
            Effect::Alert(p) => e@ == Post::Alert(p@),
            Effect::Send(t) => e@ == Post::Send(t@),
            Effect::GgaMissed => e@ == Post::GgaMissed,
            Effect::NmeaRecord(t) => e@ == Post::NmeaRecord(t@),
        },
{
}

/// A text in the middle of two others is mentioned.
pub proof fn lemma_mentions(before: Seq<char>, part: Seq<char>, after: Seq<char>)
    ensures
        mentions(before + part + after, part),
{
    let text = before + part + after;
    assert(text.subrange(before.len() as int, (before.len() + part.len()) as int) =~= part);
}

/// A part that spans the seam of two pieces is mentioned.
pub proof fn lemma_mentions_across(before: Seq<char>, a: Seq<char>, b: Seq<char>, after: Seq<char>)
    ensures
        mentions(before + a + (b + after), a + b),
        mentions(before + (after + a) + b, a + b),
{
    let p = a + b;
    let n = before.len() as int;
    let k = (before + after).len() as int;
    assert((before + a + (b + after)).subrange(n, n + p.len()) =~= p);
    assert((before + (after + a) + b).subrange(k, k + p.len()) =~= p);
}

/// What a text mentions, it mentions with more behind it too.
pub proof fn lemma_mentions_more(text: Seq<char>, part: Seq<char>, more: Seq<char>)
    requires
        mentions(text, part),
    ensures
        mentions(text + more, part),
{
    let i = choose|i: int|
        0 <= i <= text.len() - part.len() && #[trigger] text.subrange(i, i + part.len()) == part;
    assert((text + more).subrange(i, i + part.len()) =~= text.subrange(i, i + part.len()));
}

/// A text at the start of another is mentioned.
pub proof fn lemma_mentions_first(text: Seq<char>, part: Seq<char>)
    requires
        part.len() <= text.len(),
        text.take(part.len() as int) == part,
    ensures
        mentions(text, part),
{
    assert(text.subrange(0int, 0int + part.len()) =~= part);
}

} // verus!
