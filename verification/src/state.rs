//! UI-thread state, changed in one place only: [`AppState::apply`], once per
//! event drained from the bus.
use std::collections::{BTreeMap, VecDeque};

use vstd::prelude::*;
use vstd::std_specs::btree::{
    axiom_increasing_seq_meaning, axiom_key_obeys_cmp_spec_meaning, increasing_seq,
};
use vstd::std_specs::cmp::OrdSpec;
use vstd::std_specs::iter::IteratorSpec;

use crate::bus::{NtripStatus, RtcmBatch, SerialStatus};
use crate::ieee::{Real32, Real64};
use crate::sourcetable::{SourceTable, StrRecord};
use crate::span::{Span, NANOS_PER_SEC};
use crate::text::{eq_ci, same_text, same_text_ci};

verus! {

pub const EVENT_RING_CAP: usize = 10_000;

pub const CONN_RING_CAP: usize = 5_000;

pub const PLOT_POINT_CAP: usize = 50_000;

/// Nanoseconds of silence after which a live stream counts as stalled: two
/// missed epochs.
pub const STALL_AFTER: u64 = 2_000_000_000;

// ---------------------------------------------------------------------
// Line ring
// ---------------------------------------------------------------------

/// Fixed-capacity line ring: pushing past capacity drops the oldest line.
#[derive(Debug)]
pub struct Ring {
    buf: VecDeque<String>,
    cap: usize,
}

/// What a [`Ring`] holds.
pub struct RingModel {
    /// Lines, oldest first.
    pub lines: Seq<Seq<char>>,
    pub cap: nat,
}

impl RingModel {
    /// The ring after a push: the newest lines, as many as it has room for.
    pub open spec fn pushed(self, line: Seq<char>) -> RingModel {
        let all = self.lines.push(line);
        if all.len() <= self.cap {
            RingModel { lines: all, ..self }
        } else {
            RingModel { lines: all.skip(all.len() - self.cap), ..self }
        }
    }

    /// The ring after pushing every line of `s` in order.
    pub open spec fn pushed_all(self, s: Seq<Seq<char>>) -> RingModel
        decreases s.len(),
    {
        if s.len() == 0 {
            self
        } else {
            self.pushed_all(s.drop_last()).pushed(s.last())
        }
    }
}

/// Lines joined, each ended by a line feed.
pub open spec fn joined(lines: Seq<Seq<char>>) -> Seq<char>
    decreases lines.len(),
{
    if lines.len() == 0 {
        Seq::empty()
    } else {
        joined(lines.drop_last()) + lines.last() + "\n"@
    }
}

impl View for Ring {
    type V = RingModel;

    closed spec fn view(&self) -> RingModel {
        RingModel {
            lines: Seq::new(self.buf@.len(), |i: int| self.buf@[i]@),
            cap: self.cap as nat,
        }
    }
}

impl Ring {
    /// An empty ring.
    pub fn new(cap: usize) -> (r: Ring)
        ensures
            r@.lines == Seq::<Seq<char>>::empty(),
            r@.cap == cap,
    {
        let r = Ring { buf: VecDeque::new(), cap };
        assert(r@.lines =~= Seq::<Seq<char>>::empty());
        r
    }

    /// Append a line, dropping the oldest ones when full. The ring never holds
    /// more lines than its capacity; one without capacity drops every line.
    pub fn push(&mut self, line: String)
        ensures
            final(self)@ == old(self)@.pushed(line@),
            final(self)@.lines.len() <= final(self)@.cap,
    {
        self.buf.push_back(line);
        let ghost all = old(self)@.lines.push(line@);
        assert(self@.lines =~= all);
        assert(all.skip(0) =~= all);
        while self.buf.len() > self.cap
            invariant
                self.cap as nat == old(self)@.cap,
                self.buf@.len() <= all.len(),
                self@.lines =~= all.skip(all.len() - self.buf@.len()),
                self.buf@.len() < all.len() ==> self.buf@.len() >= self.cap,
            decreases self.buf.len(),
        {
            let ghost before = self@.lines;
            let _ = self.buf.pop_front();
            assert(self@.lines =~= before.skip(1));
        }
        assert(self@.lines =~= old(self)@.pushed(line@).lines);
    }

    pub fn len(&self) -> (r: usize)
        ensures
            r == self@.lines.len(),
    {
        self.buf.len()
    }

    pub fn is_empty(&self) -> (r: bool)
        ensures
            r == (self@.lines.len() == 0),
    {
        self.buf.len() == 0
    }

    /// The line at `i`, oldest first.
    pub fn get(&self, i: usize) -> (r: Option<&String>)
        ensures
            match r {
                Some(s) => i < self@.lines.len() && s@ == self@.lines[i as int],
                None => i >= self@.lines.len(),
            },
    {
        if i < self.buf.len() {
            Some(&self.buf[i])
        } else {
            None
        }
    }

    pub fn clear(&mut self)
        ensures
            final(self)@ == (RingModel { lines: Seq::empty(), ..old(self)@ }),
    {
        self.buf.clear();
        assert(self@.lines =~= Seq::<Seq<char>>::empty());
    }

    /// All lines as one text.
    pub fn join(&self) -> (r: String)
        ensures
            r@ == joined(self@.lines),
    {
        let mut out = String::new();
        let mut i: usize = 0;
        assert(self@.lines.take(0) =~= Seq::<Seq<char>>::empty());
        while i < self.buf.len()
            invariant
                i <= self@.lines.len(),
                out@ =~= joined(self@.lines.take(i as int)),
            decreases self@.lines.len() - i,
        {
            out.append(self.buf[i].as_str());
            out.append("\n");
            assert(self@.lines.take(i + 1).drop_last() =~= self@.lines.take(i as int));
            i += 1;
        }
        assert(self@.lines.take(i as int) =~= self@.lines);
        out
    }
}

/// A ring never exceeds its capacity, and holds the last lines pushed, in
/// order.
pub proof fn law_ring_keeps_newest(m: RingModel, s: Seq<Seq<char>>)
    requires
        m.lines.len() <= m.cap,
    ensures
        m.pushed_all(s).lines.len() <= m.cap,
        m.pushed_all(s).cap == m.cap,
        ({
            let all = m.lines + s;
            m.pushed_all(s).lines == (if all.len() <= m.cap {
                all
            } else {
                all.skip(all.len() - m.cap)
            })
        }),
    decreases s.len(),
{
    let all = m.lines + s;
    if s.len() == 0 {
        assert(all =~= m.lines);
    } else {
        law_ring_keeps_newest(m, s.drop_last());
        assert(all =~= (m.lines + s.drop_last()).push(s.last()));
        let got = m.pushed_all(s).lines;
        if all.len() <= m.cap {
            assert(got =~= all);
        } else {
            assert(got =~= all.skip(all.len() - m.cap));
        }
    }
}

// ---------------------------------------------------------------------
// Message rates
// ---------------------------------------------------------------------

/// One full window of a rate meter, for the smoothed rate: frames counted,
/// and the time they took.
#[derive(Debug, Clone, Copy, PartialEq, Eq, Structural)]
pub struct RateFold {
    pub count: u32,
    pub elapsed: Span,
}

/// Counts frames in windows of one second. Folding even without arrivals
/// lets a stalled type's rate decay.
#[derive(Debug, Clone, Copy, PartialEq, Eq, Structural)]
pub struct RateMeter {
    pub window_start: Option<u64>,
    pub window_count: u32,
}

impl RateMeter {
    pub open spec fn fresh() -> RateMeter {
        RateMeter { window_start: None, window_count: 0 }
    }

    /// The fold that is due, if the window is full.
    pub open spec fn due(self, now: u64) -> Option<RateFold> {
        match self.window_start {
            Some(t0) => if Span::between(t0, now).nanos >= NANOS_PER_SEC {
                Some(RateFold { count: self.window_count, elapsed: Span::between(t0, now) })
            } else {
                None
            },
            None => None,
        }
    }

    /// The meter after a fold, if one is due.
    pub open spec fn folded(self, now: u64) -> RateMeter {
        if self.due(now) is Some {
            RateMeter { window_start: Some(now), window_count: 0 }
        } else {
            self
        }
    }

    /// The meter with `n` more frames counted, the window opened if need be.
    pub open spec fn counted(self, n: u32, now: u64) -> RateMeter {
        RateMeter {
            window_start: if self.window_start is None {
                Some(now)
            } else {
                self.window_start
            },
            window_count: (self.window_count + n) as u32,
        }
    }

    pub fn new() -> (r: RateMeter)
        ensures
            r == RateMeter::fresh(),
    {
        RateMeter { window_start: None, window_count: 0 }
    }

    /// Count frames; returns the window that this fills, if any.
    pub fn on_frames(&mut self, n: u32, now: u64) -> (r: Option<RateFold>)
        requires
            old(self).window_count + n <= u32::MAX,
        ensures
            r == old(self).counted(n, now).due(now),
            *final(self) == old(self).counted(n, now).folded(now),
    {
        if self.window_start.is_none() {
            self.window_start = Some(now);
        }
        self.window_count = self.window_count + n;
        self.tick(now)
    }

    /// Fold the window when it is full.
    pub fn tick(&mut self, now: u64) -> (r: Option<RateFold>)
        ensures
            r == old(self).due(now),
            *final(self) == old(self).folded(now),
    {
        match self.window_start {
            None => None,
            Some(t0) => {
                let elapsed = Span::since(t0, now);
                if elapsed.nanos >= NANOS_PER_SEC {
                    let fold = RateFold { count: self.window_count, elapsed };
                    self.window_start = Some(now);
                    self.window_count = 0;
                    Some(fold)
                } else {
                    None
                }
            },
        }
    }
}

/// Live statistics of one message type.
#[derive(Debug, Clone, Copy, PartialEq, Eq, Structural)]
pub struct RtcmTypeStat {
    pub count: u64,
    /// Wire size of the most recent complete frame.
    pub last_frame_len: u32,
    pub last_seen: u64,
    pub rate: RateMeter,
}

/// The statistics of a type before its first frame.
pub open spec fn unseen(now: u64) -> RtcmTypeStat {
    RtcmTypeStat { count: 0, last_frame_len: 0, last_seen: now, rate: RateMeter::fresh() }
}

/// The statistics of a type so far.
pub open spec fn stat_of(m: Map<u16, RtcmTypeStat>, ty: u16, now: u64) -> RtcmTypeStat {
    if m.contains_key(ty) {
        m[ty]
    } else {
        unseen(now)
    }
}

/// The statistics of a type after `n` more frames, the last one of `len`
/// bytes.
pub open spec fn stat_after(s: RtcmTypeStat, n: u32, len: u32, now: u64) -> RtcmTypeStat {
    RtcmTypeStat {
        count: (s.count + n) as u64,
        last_frame_len: len,
        last_seen: now,
        rate: s.rate.counted(n, now).folded(now),
    }
}

/// All statistics after one batch entry.
pub open spec fn stats_after_one(
    m: Map<u16, RtcmTypeStat>,
    f: (u16, u32, u32),
    now: u64,
) -> Map<u16, RtcmTypeStat> {
    m.insert(f.0, stat_after(stat_of(m, f.0, now), f.1, f.2, now))
}

/// All statistics after a whole batch.
pub open spec fn stats_after(
    m: Map<u16, RtcmTypeStat>,
    frames: Seq<(u16, u32, u32)>,
    now: u64,
) -> Map<u16, RtcmTypeStat>
    decreases frames.len(),
{
    if frames.len() == 0 {
        m
    } else {
        stats_after_one(stats_after(m, frames.drop_last(), now), frames.last(), now)
    }
}

/// The windows that one batch entry fills: none or one.
pub open spec fn folds_of_one(
    m: Map<u16, RtcmTypeStat>,
    f: (u16, u32, u32),
    now: u64,
) -> Seq<(u16, RateFold)> {
    match stat_of(m, f.0, now).rate.counted(f.1, now).due(now) {
        Some(fold) => seq![(f.0, fold)],
        None => Seq::empty(),
    }
}

/// The windows that a batch fills, in order.
pub open spec fn folds_of(
    m: Map<u16, RtcmTypeStat>,
    frames: Seq<(u16, u32, u32)>,
    now: u64,
) -> Seq<(u16, RateFold)>
    decreases frames.len(),
{
    if frames.len() == 0 {
        Seq::empty()
    } else {
        folds_of(m, frames.drop_last(), now) + folds_of_one(
            stats_after(m, frames.drop_last(), now),
            frames.last(),
            now,
        )
    }
}

/// Frames in a batch.
pub open spec fn batch_total(frames: Seq<(u16, u32, u32)>) -> nat
    decreases frames.len(),
{
    if frames.len() == 0 {
        0
    } else {
        batch_total(frames.drop_last()) + frames.last().1 as nat
    }
}

/// Whether every counter can take `n` more frames.
pub open spec fn stats_have_room(m: Map<u16, RtcmTypeStat>, n: nat) -> bool {
    n <= u32::MAX && forall|k: u16| #[trigger]
        m.contains_key(k) ==> m[k].count + n <= u64::MAX && m[k].rate.window_count + n <= u32::MAX
}

proof fn lemma_batch_prefix(frames: Seq<(u16, u32, u32)>, i: int)
    requires
        0 <= i <= frames.len(),
    ensures
        batch_total(frames.take(i)) <= batch_total(frames),
    decreases frames.len(),
{
    if i == frames.len() {
        assert(frames.take(i) =~= frames);
    } else {
        assert(frames.drop_last().take(i) =~= frames.take(i));
        lemma_batch_prefix(frames.drop_last(), i);
    }
}

/// Count a batch of frames; returns the windows that it fills.
fn count_batch(
    m: &mut BTreeMap<u16, RtcmTypeStat>,
    frames: &Vec<(u16, u32, u32)>,
    now: u64,
) -> (r: Vec<(u16, RateFold)>)
    requires
        stats_have_room(old(m)@, batch_total(frames@)),
    ensures
        final(m)@ == stats_after(old(m)@, frames@, now),
        r@ == folds_of(old(m)@, frames@, now),
{
    let ghost start = m@;
    let ghost total = batch_total(frames@);
    let mut folds: Vec<(u16, RateFold)> = Vec::new();
    let mut i: usize = 0;
    assert(frames@.take(0) =~= Seq::<(u16, u32, u32)>::empty());
    while i < frames.len()
        invariant
            i <= frames@.len(),
            total == batch_total(frames@),
            stats_have_room(m@, (total - batch_total(frames@.take(i as int))) as nat),
            batch_total(frames@.take(i as int)) <= total <= u32::MAX,
            m@ == stats_after(start, frames@.take(i as int), now),
            folds@ == folds_of(start, frames@.take(i as int), now),
        decreases frames.len() - i,
    {
        let (ty, n, len): (u16, u32, u32) = frames[i];
        let ghost before = m@;
        proof {
            assert(frames@.take(i + 1).drop_last() =~= frames@.take(i as int));
            lemma_batch_prefix(frames@, i + 1);
        }
        let mut stat = match m.get(&ty) {
            Some(s) => *s,
            None => RtcmTypeStat {
                count: 0,
                last_frame_len: 0,
                last_seen: now,
                rate: RateMeter::new(),
            },
        };
        assert(stat == stat_of(before, ty, now));
        stat.count = stat.count + n as u64;
        stat.last_frame_len = len;
        stat.last_seen = now;
        let ghost prior = folds@;
        if let Some(fold) = stat.rate.on_frames(n, now) {
            folds.push((ty, fold));
        }
        assert(folds@ =~= prior + folds_of_one(before, (ty, n, len), now));
        let _ = m.insert(ty, stat);
        assert(m@ == stats_after_one(before, (ty, n, len), now));
        i += 1;
    }
    assert(frames@.take(i as int) =~= frames@);
    folds
}

/// The statistics of a type once its window is folded, if it is full.
pub open spec fn ticked(s: RtcmTypeStat, now: u64) -> RtcmTypeStat {
    RtcmTypeStat { rate: s.rate.folded(now), ..s }
}

/// The statistics of the types below `n`, ascending.
pub open spec fn stats_below(m: Map<u16, RtcmTypeStat>, n: nat) -> Seq<(u16, RtcmTypeStat)>
    decreases n,
{
    if n == 0 {
        Seq::empty()
    } else {
        let before = stats_below(m, (n - 1) as nat);
        if m.contains_key((n - 1) as u16) {
            before.push(((n - 1) as u16, m[(n - 1) as u16]))
        } else {
            before
        }
    }
}

/// All statistics, by ascending type.
pub open spec fn stat_rows(m: Map<u16, RtcmTypeStat>) -> Seq<(u16, RtcmTypeStat)> {
    stats_below(m, 0x1_0000)
}

/// The full windows among statistics, in their order.
pub open spec fn due_folds(rows: Seq<(u16, RtcmTypeStat)>, now: u64) -> Seq<(u16, RateFold)>
    decreases rows.len(),
{
    if rows.len() == 0 {
        Seq::empty()
    } else {
        let before = due_folds(rows.drop_last(), now);
        match rows.last().1.rate.due(now) {
            Some(fold) => before.push((rows.last().0, fold)),
            None => before,
        }
    }
}

/// Whether a list holds exactly the entries of a map, by ascending key.
spec fn lists(m: Map<u16, RtcmTypeStat>, e: Seq<(u16, RtcmTypeStat)>) -> bool {
    &&& forall|i: int|
        0 <= i < e.len() ==> m.contains_key((#[trigger] e[i]).0) && m[e[i].0] == e[i].1
    &&& forall|k: u16| #[trigger]
        m.contains_key(k) ==> exists|i: int| 0 <= i < e.len() && (#[trigger] e[i]).0 == k
    &&& forall|i: int, j: int|
        0 <= i < j < e.len() ==> (#[trigger] e[i]).0 < (#[trigger] e[j]).0
}

proof fn lemma_stats_below(
    m: Map<u16, RtcmTypeStat>,
    e: Seq<(u16, RtcmTypeStat)>,
    n: nat,
) -> (k: int)
    requires
        lists(m, e),
        n <= 0x1_0000,
    ensures
        0 <= k <= e.len(),
        e.take(k) == stats_below(m, n),
        forall|i: int| 0 <= i < k ==> (#[trigger] e[i]).0 < n,
        forall|i: int| k <= i < e.len() ==> (#[trigger] e[i]).0 >= n,
    decreases n,
{
    if n == 0 {
        assert(e.take(0) =~= Seq::<(u16, RtcmTypeStat)>::empty());
        0
    } else {
        let k = lemma_stats_below(m, e, (n - 1) as nat);
        let key = (n - 1) as u16;
        if m.contains_key(key) {
            let i = choose|i: int| 0 <= i < e.len() && (#[trigger] e[i]).0 == key;
            assert(i == k) by {
                if k < i {
                    assert(e[k].0 < e[i].0);
                }
            }
            assert(e.take(k + 1) =~= e.take(k).push(e[k]));
            k + 1
        } else {
            k
        }
    }
}

proof fn lemma_rows_are_listed(m: Map<u16, RtcmTypeStat>, e: Seq<(u16, RtcmTypeStat)>)
    requires
        lists(m, e),
    ensures
        e == stat_rows(m),
{
    let k = lemma_stats_below(m, e, 0x1_0000);
    assert(k == e.len()) by {
        if k < e.len() {
            assert(e[k].0 >= 0x1_0000);
        }
    }
    assert(e.take(k) =~= e);
}

proof fn lemma_folds_below(m: Map<u16, RtcmTypeStat>, now: u64, n: nat)
    requires
        n <= 0x1_0000,
    ensures
        ({
            let r = due_folds(stats_below(m, n), now);
            &&& forall|i: int, j: int|
                0 <= i < j < r.len() ==> (#[trigger] r[i]).0 < (#[trigger] r[j]).0
            &&& forall|i: int|
                0 <= i < r.len() ==> (#[trigger] r[i]).0 < n && m.contains_key(r[i].0)
                    && m[r[i].0].rate.due(now) == Some(r[i].1)
            &&& forall|k: u16|
                k < n && #[trigger] m.contains_key(k) && m[k].rate.due(now) is Some ==> exists|
                    i: int,
                |
                    0 <= i < r.len() && (#[trigger] r[i]).0 == k
        }),
    decreases n,
{
    if n > 0 {
        let below = (n - 1) as nat;
        let key = (n - 1) as u16;
        lemma_folds_below(m, now, below);
        let before = due_folds(stats_below(m, below), now);
        let r = due_folds(stats_below(m, n), now);
        if m.contains_key(key) {
            assert(stats_below(m, n).drop_last() =~= stats_below(m, below));
        }
        assert forall|k: u16|
            k < n && #[trigger] m.contains_key(k) && m[k].rate.due(now) is Some implies exists|
            i: int,
        |
            0 <= i < r.len() && (#[trigger] r[i]).0 == k by {
            if k < below {
                let i = choose|i: int| 0 <= i < before.len() && (#[trigger] before[i]).0 == k;
                assert(r[i].0 == k);
            } else {
                assert(r[r.len() - 1].0 == key);
            }
        }
    }
}

/// A tick folds every full window exactly once: the folds come by ascending
/// type, each is its type's full window, and no full window is missing.
pub proof fn law_each_full_window_is_folded_once(m: Map<u16, RtcmTypeStat>, now: u64)
    ensures
        ({
            let r = due_folds(stat_rows(m), now);
            &&& forall|i: int, j: int|
                0 <= i < j < r.len() ==> (#[trigger] r[i]).0 < (#[trigger] r[j]).0
            &&& forall|i: int|
                0 <= i < r.len() ==> m.contains_key((#[trigger] r[i]).0)
                    && m[r[i].0].rate.due(now) == Some(r[i].1)
            &&& forall|k: u16| #[trigger]
                m.contains_key(k) && m[k].rate.due(now) is Some ==> exists|i: int|
                    0 <= i < r.len() && (#[trigger] r[i]).0 == k
        }),
{
    lemma_folds_below(m, now, 0x1_0000);
}

/// The statistics by ascending type.
pub fn entries_of(m: &BTreeMap<u16, RtcmTypeStat>) -> (r: Vec<(u16, RtcmTypeStat)>)
    ensures
        r@ == stat_rows(m@),
        forall|i: int|
            0 <= i < r@.len() ==> m@.contains_key((#[trigger] r@[i]).0) && m@[r@[i].0] == r@[i].1,
        forall|k: u16| #[trigger]
            m@.contains_key(k) ==> exists|i: int| 0 <= i < r@.len() && (#[trigger] r@[i]).0 == k,
        forall|i: int, j: int|
            0 <= i < j < r@.len() ==> (#[trigger] r@[i]).0 < (#[trigger] r@[j]).0,
{
    broadcast use axiom_key_obeys_cmp_spec_meaning;

    let mut r: Vec<(u16, RtcmTypeStat)> = Vec::new();
    let ghost all = m@;
    let ghost items = vstd::std_specs::btree::spec_btree_map_iter(m).remaining();
    let ghost keys = items.map_values(|kv: (&u16, &RtcmTypeStat)| *kv.0);
    let walk = m.iter();
    assert(increasing_seq(keys));
    for kv in it: walk
        invariant
            all == m@,
            it.seq() == items,
            it.seq().len() == all.dom().len(),
            it.seq().no_duplicates(),
            forall|i: int|
                0 <= i < it.seq().len() ==> all.contains_key(*(#[trigger] it.seq()[i]).0)
                    && all[*it.seq()[i].0] == *it.seq()[i].1,
            forall|k: u16| #[trigger]
                all.contains_key(k) ==> it.seq().contains((&k, &all[k])),
            r@.len() == it.index(),
            forall|i: int|
                0 <= i < r@.len() ==> #[trigger] r@[i] == (*it.seq()[i].0, *it.seq()[i].1),
    {
        r.push((*kv.0, *kv.1));
    }
    proof {
        assert forall|k: u16| #[trigger] all.contains_key(k) implies exists|i: int|
            0 <= i < r@.len() && (#[trigger] r@[i]).0 == k by {
            assert(items.contains((&k, &all[k])));
            let i = choose|i: int| 0 <= i < items.len() && items[i] == (&k, &all[k]);
            assert(r@[i].0 == k);
        }
        axiom_increasing_seq_meaning(keys);
        assert forall|i: int, j: int| 0 <= i < j < r@.len() implies (#[trigger] r@[i]).0 < (
        #[trigger] r@[j]).0 by {
            assert(keys[i] == r@[i].0 && keys[j] == r@[j].0);
            assert(keys[i].cmp_spec(&keys[j]) is Less);
        }
        lemma_rows_are_listed(all, r@);
    }
    r
}

// ---------------------------------------------------------------------
// Strip chart
// ---------------------------------------------------------------------

/// Elevation samples for the strip chart, bounded by halving: when full,
/// every other retained point is dropped and the keep-stride doubles.
#[derive(Debug)]
pub struct PlotSeries {
    points: Vec<(Real64, Real64)>,
    cap: usize,
    stride: u32,
    skip: u32,
    pub min: Option<Real64>,
    pub max: Option<Real64>,
    pub current: Option<Real64>,
}

/// What a [`PlotSeries`] holds.
pub struct PlotModel {
    pub points: Seq<(Real64, Real64)>,
    pub cap: nat,
    pub stride: nat,
    /// Samples still to be left out before the next one is kept.
    pub skip: nat,
    /// Extremes and latest of all samples, those left out included.
    pub min: Option<Real64>,
    pub max: Option<Real64>,
    pub current: Option<Real64>,
}

/// The elements at even positions.
pub open spec fn every_other<T>(s: Seq<T>) -> Seq<T> {
    Seq::new(((s.len() + 1) / 2) as nat, |i: int| s[2 * i])
}

impl PlotModel {
    pub open spec fn fresh(cap: nat) -> PlotModel {
        PlotModel {
            points: Seq::empty(),
            cap,
            stride: 1,
            skip: 0,
            min: None,
            max: None,
            current: None,
        }
    }

    pub open spec fn wf(self) -> bool {
        &&& self.cap >= 2
        &&& self.points.len() < self.cap
        &&& 1 <= self.stride <= u32::MAX
        &&& self.skip < self.stride
    }

    /// Whether one more sample can be counted: only a halving, which doubles
    /// the stride, can run out of numbers.
    pub open spec fn takes_more(self) -> bool {
        self.skip == 0 && self.points.len() + 1 >= self.cap ==> 2 * self.stride <= u32::MAX
    }

    /// The series with its figures brought up to date.
    pub open spec fn measured(self, v: Real64) -> PlotModel {
        PlotModel {
            min: Some(
                match self.min {
                    Some(m) => m.lesser(v),
                    None => v,
                },
            ),
            max: Some(
                match self.max {
                    Some(m) => m.greater(v),
                    None => v,
                },
            ),
            current: Some(v),
            ..self
        }
    }

    /// The series after one more sample.
    pub open spec fn pushed(self, p: (Real64, Real64)) -> PlotModel {
        let s = self.measured(p.1);
        if self.skip > 0 {
            PlotModel { skip: (self.skip - 1) as nat, ..s }
        } else if self.points.len() + 1 >= self.cap {
            PlotModel {
                points: every_other(self.points.push(p)),
                stride: 2 * self.stride,
                skip: (2 * self.stride - 1) as nat,
                ..s
            }
        } else {
            PlotModel { points: self.points.push(p), skip: (self.stride - 1) as nat, ..s }
        }
    }
}

impl View for PlotSeries {
    type V = PlotModel;

    closed spec fn view(&self) -> PlotModel {
        PlotModel {
            points: self.points@,
            cap: self.cap as nat,
            stride: self.stride as nat,
            skip: self.skip as nat,
            min: self.min,
            max: self.max,
            current: self.current,
        }
    }
}

impl PlotSeries {
    /// An empty series of at least two points.
    pub fn new(cap: usize) -> (r: PlotSeries)
        ensures
            r@ == PlotModel::fresh(if cap >= 2 { cap as nat } else { 2 }),
            r@.wf(),
    {
        let cap: usize = if cap >= 2 { cap } else { 2 };
        PlotSeries {
            points: Vec::new(),
            cap,
            stride: 1,
            skip: 0,
            min: None,
            max: None,
            current: None,
        }
    }

    /// Take one sample: keep it, or leave it out as the stride says.
    pub fn push(&mut self, t: Real64, v: Real64)
        requires
            old(self)@.wf(),
            old(self)@.takes_more(),
        ensures
            final(self)@ == old(self)@.pushed((t, v)),
            final(self)@.wf(),
    {
        self.current = Some(v);
        self.min = Some(
            match self.min {
                Some(m) => m.min_of(v),
                None => v,
            },
        );
        self.max = Some(
            match self.max {
                Some(m) => m.max_of(v),
                None => v,
            },
        );
        if self.skip > 0 {
            self.skip = self.skip - 1;
            return;
        }
        self.points.push((t, v));
        if self.points.len() >= self.cap {
            let ghost all = self.points@;
            let mut kept: Vec<(Real64, Real64)> = Vec::new();
            let half: usize = self.points.len() - self.points.len() / 2;
            let mut i: usize = 0;
            while i < half
                invariant
                    self.points@ == all,
                    half == (all.len() + 1) / 2,
                    kept@.len() == i <= half,
                    2 * half <= all.len() + 1,
                    all.len() <= usize::MAX,
                    forall|j: int| 0 <= j < kept@.len() ==> kept@[j] == all[2 * j],
                decreases half - i,
            {
                kept.push(self.points[2 * i]);
                i += 1;
            }
            assert(kept@ =~= every_other(all));
            self.points = kept;
            self.stride = 2 * self.stride;
        }
        self.skip = self.stride - 1;
    }

    /// The retained points.
    pub fn points(&self) -> (r: &Vec<(Real64, Real64)>)
        ensures
            r@ == self@.points,
    {
        &self.points
    }

    /// Whether one more sample can be counted.
    pub fn takes_more(&self) -> (r: bool)
        requires
            self@.wf(),
        ensures
            r == self@.takes_more(),
    {
        self.skip > 0 || self.points.len() < self.cap - 1 || self.stride <= u32::MAX / 2
    }

    pub fn clear(&mut self)
        requires
            old(self)@.wf(),
        ensures
            final(self)@ == PlotModel::fresh(old(self)@.cap),
            final(self)@.wf(),
    {
        self.points.clear();
        self.stride = 1;
        self.skip = 0;
        self.min = None;
        self.max = None;
        self.current = None;
    }
}

/// The series after every sample of `s` in order.
pub open spec fn plotted(m: PlotModel, s: Seq<(Real64, Real64)>) -> PlotModel
    decreases s.len(),
{
    if s.len() == 0 {
        m
    } else {
        plotted(m, s.drop_last()).pushed(s.last())
    }
}

/// The figures cover every sample, also those that decimation left out.
pub proof fn law_figures_cover_every_sample(cap: nat, s: Seq<(Real64, Real64)>)
    requires
        s.len() > 0,
        forall|i: int| 0 <= i < s.len() ==> !(#[trigger] s[i]).1.is_nan(),
    ensures
        ({
            let m = plotted(PlotModel::fresh(cap), s);
            &&& m.current == Some(s.last().1)
            &&& m.min is Some && m.max is Some
            &&& !m.min->0.is_nan() && !m.max->0.is_nan()
            &&& forall|i: int|
                0 <= i < s.len() ==> m.min->0.rank() <= (#[trigger] s[i]).1.rank()
                    <= m.max->0.rank()
        }),
    decreases s.len(),
{
    let prev = s.drop_last();
    assert(!s[s.len() - 1].1.is_nan());
    if prev.len() > 0 {
        assert forall|i: int| 0 <= i < prev.len() implies !(#[trigger] prev[i]).1.is_nan() by {
            assert(prev[i] == s[i]);
        }
        law_figures_cover_every_sample(cap, prev);
        let before = plotted(PlotModel::fresh(cap), prev);
        let m = plotted(PlotModel::fresh(cap), s);
        assert forall|i: int| 0 <= i < s.len() implies m.min->0.rank() <= (
        #[trigger] s[i]).1.rank() <= m.max->0.rank() by {
            if i < prev.len() {
                assert(prev[i] == s[i]);
            }
        }
    } else {
        assert(plotted(PlotModel::fresh(cap), prev) == PlotModel::fresh(cap));
    }
}

/// However long the session, the series stays below its bound, starts with
/// the first sample, and keeps nothing but samples.
pub proof fn law_plot_is_bounded(cap: nat, s: Seq<(Real64, Real64)>)
    requires
        cap >= 2,
    ensures
        plotted(PlotModel::fresh(cap), s).points.len() < cap,
        s.len() > 0 ==> plotted(PlotModel::fresh(cap), s).points.len() > 0 && plotted(
            PlotModel::fresh(cap),
            s,
        ).points[0] == s[0],
        forall|i: int|
            0 <= i < plotted(PlotModel::fresh(cap), s).points.len() ==> s.contains(
                #[trigger] plotted(PlotModel::fresh(cap), s).points[i],
            ),
        plotted(PlotModel::fresh(cap), s).skip < plotted(PlotModel::fresh(cap), s).stride,
        plotted(PlotModel::fresh(cap), s).cap == cap,
        s.len() == 0 ==> plotted(PlotModel::fresh(cap), s).skip == 0,
    decreases s.len(),
{
    if s.len() > 0 {
        let prev = s.drop_last();
        law_plot_is_bounded(cap, prev);
        let m = plotted(PlotModel::fresh(cap), prev);
        let n = plotted(PlotModel::fresh(cap), s);
        let grown = m.points.push(s.last());
        assert forall|i: int| 0 <= i < grown.len() implies s.contains(#[trigger] grown[i]) by {
            if i < m.points.len() {
                assert(prev.contains(m.points[i]));
                let k = choose|k: int| 0 <= k < prev.len() && prev[k] == m.points[i];
                assert(s[k] == m.points[i]);
            } else {
                assert(s[s.len() - 1] == grown[i]);
            }
        }
        assert forall|i: int| 0 <= i < n.points.len() implies s.contains(
            #[trigger] n.points[i],
        ) by {
            if m.skip > 0 {
                assert(n.points[i] == grown[i]);
            } else if m.points.len() + 1 >= m.cap {
                assert(n.points[i] == grown[2 * i]);
            } else {
                assert(n.points[i] == grown[i]);
            }
        }
        if prev.len() > 0 {
            assert(prev[0] == s[0]);
            assert(grown[0] == s[0]);
        }
    }
}

// ---------------------------------------------------------------------
// Receiver
// ---------------------------------------------------------------------

/// What the display reads of a receiver sentence.
#[derive(Debug, Clone, Copy)]
pub enum Sentence {
    Gga {
        quality: u8,
        sats: u8,
        hdop: Option<Real32>,
        alt_m: Option<Real32>,
        age_s: Option<Real32>,
        station_id: Option<u16>,
        lat_deg: Option<Real64>,
        lon_deg: Option<Real64>,
    },
    Rmc { speed_knots: Option<Real32>, track_deg: Option<Real32> },
    Gsa { pdop: Option<Real32>, vdop: Option<Real32> },
    Other,
}

/// Latest values from the receiver.
#[derive(Debug, Clone, Copy)]
pub struct GnssState {
    pub quality: u8,
    pub sats: u8,
    pub hdop: Option<Real32>,
    pub vdop: Option<Real32>,
    pub pdop: Option<Real32>,
    pub alt_m: Option<Real32>,
    pub age_s: Option<Real32>,
    pub station_id: Option<u16>,
    pub speed_knots: Option<Real32>,
    pub heading_deg: Option<Real32>,
    /// Last position with a value, kept through fix loss.
    pub lat_deg: Option<Real64>,
    pub lon_deg: Option<Real64>,
    /// A position sentence has arrived.
    pub has_fix_data: bool,
    /// Any sentence at all has arrived.
    pub nmea_seen: bool,
}

impl GnssState {
    pub open spec fn fresh() -> GnssState {
        GnssState {
            quality: 0,
            sats: 0,
            hdop: None,
            vdop: None,
            pdop: None,
            alt_m: None,
            age_s: None,
            station_id: None,
            speed_knots: None,
            heading_deg: None,
            lat_deg: None,
            lon_deg: None,
            has_fix_data: false,
            nmea_seen: false,
        }
    }

    /// The values after one more sentence. A position is kept until another
    /// complete one replaces it.
    pub open spec fn after(self, s: Sentence) -> GnssState {
        match s {
            Sentence::Gga { quality, sats, hdop, alt_m, age_s, station_id, lat_deg, lon_deg } => {
                let placed = lat_deg is Some && lon_deg is Some;
                GnssState {
                    nmea_seen: true,
                    has_fix_data: true,
                    quality,
                    sats,
                    hdop,
                    alt_m,
                    age_s,
                    station_id,
                    lat_deg: if placed {
                        lat_deg
                    } else {
                        self.lat_deg
                    },
                    lon_deg: if placed {
                        lon_deg
                    } else {
                        self.lon_deg
                    },
                    ..self
                }
            },
            Sentence::Rmc { speed_knots, track_deg } => GnssState {
                nmea_seen: true,
                speed_knots,
                heading_deg: track_deg,
                ..self
            },
            Sentence::Gsa { pdop, vdop } => GnssState { nmea_seen: true, pdop, vdop, ..self },
            Sentence::Other => GnssState { nmea_seen: true, ..self },
        }
    }

    pub fn new() -> (r: GnssState)
        ensures
            r == GnssState::fresh(),
    {
        GnssState {
            quality: 0,
            sats: 0,
            hdop: None,
            vdop: None,
            pdop: None,
            alt_m: None,
            age_s: None,
            station_id: None,
            speed_knots: None,
            heading_deg: None,
            lat_deg: None,
            lon_deg: None,
            has_fix_data: false,
            nmea_seen: false,
        }
    }

    pub fn apply(&mut self, sentence: Sentence)
        ensures
            *final(self) == old(self).after(sentence),
    {
        self.nmea_seen = true;
        match sentence {
            Sentence::Gga { quality, sats, hdop, alt_m, age_s, station_id, lat_deg, lon_deg } => {
                self.has_fix_data = true;
                self.quality = quality;
                self.sats = sats;
                self.hdop = hdop;
                self.alt_m = alt_m;
                self.age_s = age_s;
                self.station_id = station_id;
                if lat_deg.is_some() && lon_deg.is_some() {
                    self.lat_deg = lat_deg;
                    self.lon_deg = lon_deg;
                }
            },
            Sentence::Rmc { speed_knots, track_deg } => {
                self.speed_knots = speed_knots;
                self.heading_deg = track_deg;
            },
            Sentence::Gsa { pdop, vdop } => {
                self.pdop = pdop;
                self.vdop = vdop;
            },
            Sentence::Other => {},
        }
    }
}

/// The last known position survives fix loss: a sentence without a complete
/// position leaves it alone.
pub proof fn law_position_survives_fix_loss(g: GnssState, s: Sentence)
    requires
        match s {
            Sentence::Gga { lat_deg, lon_deg, .. } => lat_deg is None || lon_deg is None,
            _ => true,
        },
    ensures
        g.after(s).lat_deg == g.lat_deg,
        g.after(s).lon_deg == g.lon_deg,
{
}

// ---------------------------------------------------------------------
// Stream
// ---------------------------------------------------------------------

/// A local time of day.
#[derive(Debug, Clone, Copy, PartialEq, Eq, Structural)]
pub struct ClockTime {
    pub hour: u8,
    pub min: u8,
    pub sec: u8,
}

/// A decoded diagnostic message.
#[derive(Debug)]
pub enum Decoded {
    BasePosition {
        station_id: u16,
        is_1006: bool,
        ecef: (Real64, Real64, Real64),
        antenna_height_m: Option<Real64>,
        /// Latitude, longitude, height; none when the base is not surveyed.
        lla: Option<(Real64, Real64, Real64)>,
    },
    AntennaInfo {
        station_id: u16,
        antenna: String,
        setup_id: u32,
        antenna_serial: Option<String>,
        receiver: Option<String>,
        firmware: Option<String>,
        receiver_serial: Option<String>,
    },
    TextMessage { station_id: u16, text: String },
    GlonassBiases { station_id: u16, biases: usize },
    MsmHeader,
}

/// The latest decode of each displayed kind.
#[derive(Debug)]
pub struct Decodes {
    pub base: Option<Decoded>,
    pub antenna: Option<Decoded>,
    /// The latest text message with its local receive time.
    pub text_1029: Option<(ClockTime, Decoded)>,
    pub biases_1230: Option<Decoded>,
}

impl Decodes {
    pub open spec fn fresh() -> Decodes {
        Decodes { base: None, antenna: None, text_1029: None, biases_1230: None }
    }

    /// The decodes with one more filed under its kind.
    pub open spec fn filed(self, d: Decoded, at: ClockTime) -> Decodes {
        match d {
            Decoded::BasePosition { .. } => Decodes { base: Some(d), ..self },
            Decoded::AntennaInfo { .. } => Decodes { antenna: Some(d), ..self },
            Decoded::TextMessage { .. } => Decodes { text_1029: Some((at, d)), ..self },
            Decoded::GlonassBiases { .. } => Decodes { biases_1230: Some(d), ..self },
            Decoded::MsmHeader => self,
        }
    }

    /// The decodes with every one of `ds` filed, in order.
    pub open spec fn filed_all(self, ds: Seq<Decoded>, at: ClockTime) -> Decodes
        decreases ds.len(),
    {
        if ds.len() == 0 {
            self
        } else {
            self.filed_all(ds.drop_last(), at).filed(ds.last(), at)
        }
    }

    pub fn new() -> (r: Decodes)
        ensures
            r == Decodes::fresh(),
    {
        Decodes { base: None, antenna: None, text_1029: None, biases_1230: None }
    }

    fn file(&mut self, d: Decoded, at: ClockTime)
        ensures
            *final(self) == old(self).filed(d, at),
    {
        match &d {
            Decoded::BasePosition { .. } => {
                self.base = Some(d);
            },
            Decoded::AntennaInfo { .. } => {
                self.antenna = Some(d);
            },
            Decoded::TextMessage { .. } => {
                self.text_1029 = Some((at, d));
            },
            Decoded::GlonassBiases { .. } => {
                self.biases_1230 = Some(d);
            },
            Decoded::MsmHeader => {},
        }
    }

    /// File every decode under its kind; the latest of each kind stays.
    pub fn file_all(&mut self, ds: Vec<Decoded>, at: ClockTime)
        ensures
            *final(self) == old(self).filed_all(ds@, at),
    {
        let ghost all = ds@;
        let ghost start = *self;
        let mut rest = ds;
        let ghost mut done: int = 0;
        assert(all.take(0) =~= Seq::<Decoded>::empty());
        assert(all.skip(0) =~= all);
        while rest.len() > 0
            invariant
                0 <= done <= all.len(),
                rest@ == all.skip(done),
                *self == start.filed_all(all.take(done), at),
            decreases rest.len(),
        {
            let d = rest.remove(0);
            proof {
                assert(d == all[done]);
                assert(rest@ =~= all.skip(done + 1));
                assert(all.take(done + 1).drop_last() =~= all.take(done));
            }
            self.file(d, at);
            proof {
                done = done + 1;
            }
        }
        assert(all.take(done) =~= all);
    }
}

/// What the window shows of the caster connection.
#[derive(Debug)]
pub struct NtripUi {
    pub status: NtripStatus,
    pub total_bytes: u64,
    /// Clock reading at which correction bytes last arrived this session.
    pub last_rx: Option<u64>,
    /// Clock reading at which the current status was applied.
    pub status_since: u64,
    /// Host, port and table of the caster it came from.
    pub sourcetable: Option<(String, u16, SourceTable)>,
    /// Statistics by message type.
    pub rtcm: BTreeMap<u16, RtcmTypeStat>,
    pub rtcm_crc_failures: u64,
    pub rtcm_garbage_bytes: u64,
    pub decodes: Decodes,
    /// Bytes of the most recent unclassified response. Survives reconnects
    /// and new sessions: it is evidence.
    pub last_unknown_response: Option<Vec<u8>>,
    /// Number of unclassified responses captured so far.
    pub unknown_response_gen: u64,
}

impl NtripUi {
    /// Whether the connection is in a state that can carry data.
    pub open spec fn live(&self) -> bool {
        self.status is Streaming || self.status is WaitingForData
    }

    /// Time since correction bytes last arrived, measured from the status
    /// change before the first ones; none while disconnected.
    pub open spec fn age(&self, now: u64) -> Option<Span> {
        if self.live() {
            Some(
                Span::between(
                    match self.last_rx {
                        Some(t) => t,
                        None => self.status_since,
                    },
                    now,
                ),
            )
        } else {
            None
        }
    }

    pub fn rx_age(&self, now: u64) -> (r: Option<Span>)
        ensures
            r == self.age(now),
    {
        let live = match self.status {
            NtripStatus::Streaming => true,
            NtripStatus::WaitingForData => true,
            _ => false,
        };
        if !live {
            return None;
        }
        let since: u64 = match self.last_rx {
            Some(t) => t,
            None => self.status_since,
        };
        Some(Span::since(since, now))
    }

    /// Whether a live connection has gone quiet past the stall threshold.
    pub fn stalled(&self, now: u64) -> (r: bool)
        ensures
            r == (self.age(now) matches Some(age) && age.nanos > STALL_AFTER),
    {
        match self.rx_age(now) {
            Some(age) => age.nanos > STALL_AFTER,
            None => false,
        }
    }

    /// Wipe per-session stream state at the start of a new connection.
    pub fn reset_stream_stats(&mut self)
        ensures
            final(self).rtcm@ == Map::<u16, RtcmTypeStat>::empty(),
            *final(self) == (NtripUi {
                total_bytes: 0,
                last_rx: None,
                rtcm: final(self).rtcm,
                rtcm_crc_failures: 0,
                rtcm_garbage_bytes: 0,
                decodes: Decodes::fresh(),
                ..*old(self)
            }),
    {
        self.total_bytes = 0;
        self.last_rx = None;
        self.rtcm.clear();
        self.rtcm_crc_failures = 0;
        self.rtcm_garbage_bytes = 0;
        self.decodes = Decodes::new();
    }
}

/// What the window shows of the receiver link.
#[derive(Debug)]
pub struct SerialUi {
    pub status: SerialStatus,
    pub overruns: u64,
}

/// The elevation chart.
#[derive(Debug)]
pub struct ElevationChart {
    pub series: PlotSeries,
    pub recording: bool,
    /// Clock reading at the x axis's origin.
    pub t0: u64,
}

// ---------------------------------------------------------------------
// Whole state
// ---------------------------------------------------------------------

/// Everything the windows show.
#[derive(Debug)]
pub struct AppState {
    pub events: Ring,
    pub conn: Ring,
    pub gnss: GnssState,
    pub ntrip: NtripUi,
    pub serial: SerialUi,
    pub chart: ElevationChart,
}

/// One event drained from the bus.
#[derive(Debug)]
pub enum AppEvent {
    EventLine(String),
    ConnLine(String),
    Ntrip(NtripStatus),
    /// Cumulative correction bytes of the session.
    RxBytes { total: u64 },
    /// Framing statistics, with the decodes of the same chunk in order.
    Rtcm { batch: RtcmBatch, decoded: Vec<Decoded>, at: ClockTime },
    SourcetableReady { host: String, port: u16, table: SourceTable },
    UnknownResponse { raw: Vec<u8> },
    Nmea(Sentence),
    Serial(SerialStatus),
    Overruns(u64),
}

/// Work that an event leaves for the floating-point side.
#[derive(Debug)]
pub struct Followups {
    /// Full rate windows, per message type.
    pub folds: Vec<(u16, RateFold)>,
    /// A speed to smooth, in knots.
    pub speed_knots: Option<Real32>,
    /// An elevation to chart, with its time on the x axis.
    pub elevation: Option<(Span, Real32)>,
}

impl Followups {
    pub open spec fn nothing(self) -> bool {
        self.folds@.len() == 0 && self.speed_knots is None && self.elevation is None
    }
}

/// The speed that a sentence carries.
pub open spec fn speed_of(s: Sentence) -> Option<Real32> {
    match s {
        Sentence::Rmc { speed_knots, .. } => speed_knots,
        _ => None,
    }
}

/// The elevation that a sentence carries.
pub open spec fn altitude_of(s: Sentence) -> Option<Real32> {
    match s {
        Sentence::Gga { alt_m, .. } => alt_m,
        _ => None,
    }
}

impl AppState {
    /// Whether every counter can take this event.
    pub open spec fn has_room(self, ev: AppEvent) -> bool {
        match ev {
            AppEvent::Rtcm { batch, .. } => stats_have_room(
                self.ntrip.rtcm@,
                batch_total(batch.frames@),
            ),
            AppEvent::UnknownResponse { .. } => self.ntrip.unknown_response_gen < u64::MAX,
            _ => true,
        }
    }

    /// Nothing has happened yet; the clock reads `now`.
    pub open spec fn fresh_at(self, now: u64) -> bool {
        &&& self.events@ == (RingModel { lines: Seq::empty(), cap: EVENT_RING_CAP as nat })
        &&& self.conn@ == (RingModel { lines: Seq::empty(), cap: CONN_RING_CAP as nat })
        &&& self.gnss == GnssState::fresh()
        &&& self.ntrip.status is Idle
        &&& self.ntrip.total_bytes == 0
        &&& self.ntrip.last_rx is None
        &&& self.ntrip.status_since == now
        &&& self.ntrip.sourcetable is None
        &&& self.ntrip.rtcm@ == Map::<u16, RtcmTypeStat>::empty()
        &&& self.ntrip.rtcm_crc_failures == 0
        &&& self.ntrip.rtcm_garbage_bytes == 0
        &&& self.ntrip.decodes == Decodes::fresh()
        &&& self.ntrip.last_unknown_response is None
        &&& self.ntrip.unknown_response_gen == 0
        &&& self.serial.status is Disconnected
        &&& self.serial.status->reason@ == Seq::<char>::empty()
        &&& self.serial.overruns == 0
        &&& self.chart.series@ == PlotModel::fresh(PLOT_POINT_CAP as nat)
        &&& self.chart.recording
        &&& self.chart.t0 == now
    }

    /// The state at start.
    pub fn new(now: u64) -> (r: AppState)
        ensures
            r.fresh_at(now),
    {
        AppState {
            events: Ring::new(EVENT_RING_CAP),
            conn: Ring::new(CONN_RING_CAP),
            gnss: GnssState::new(),
            ntrip: NtripUi {
                status: NtripStatus::Idle,
                total_bytes: 0,
                last_rx: None,
                status_since: now,
                sourcetable: None,
                rtcm: BTreeMap::new(),
                rtcm_crc_failures: 0,
                rtcm_garbage_bytes: 0,
                decodes: Decodes::new(),
                last_unknown_response: None,
                unknown_response_gen: 0,
            },
            serial: SerialUi {
                status: SerialStatus::Disconnected { reason: String::new() },
                overruns: 0,
            },
            chart: ElevationChart {
                series: PlotSeries::new(PLOT_POINT_CAP),
                recording: true,
                t0: now,
            },
        }
    }

    /// Apply one event.
    pub fn apply(&mut self, ev: AppEvent, now: u64) -> (r: Followups)
        requires
            old(self).has_room(ev),
        ensures
            match ev {
                AppEvent::EventLine(line) => {
                    &&& final(self).events@ == old(self).events@.pushed(line@)
                    &&& *final(self) == (AppState { events: final(self).events, ..*old(self) })
                    &&& r.nothing()
                },
                AppEvent::ConnLine(line) => {
                    &&& final(self).conn@ == old(self).conn@.pushed(line@)
                    &&& *final(self) == (AppState { conn: final(self).conn, ..*old(self) })
                    &&& r.nothing()
                },
                AppEvent::Ntrip(status) => {
                    &&& *final(self) == (AppState {
                        ntrip: NtripUi { status, status_since: now, ..old(self).ntrip },
                        ..*old(self)
                    })
                    &&& r.nothing()
                },
                AppEvent::RxBytes { total } => {
                    &&& *final(self) == (AppState {
                        ntrip: NtripUi {
                            last_rx: if total > old(self).ntrip.total_bytes {
                                Some(now)
                            } else {
                                old(self).ntrip.last_rx
                            },
                            total_bytes: total,
                            ..old(self).ntrip
                        },
                        ..*old(self)
                    })
                    &&& r.nothing()
                },
                AppEvent::Rtcm { batch, decoded, at } => {
                    &&& final(self).ntrip.rtcm@ == stats_after(
                        old(self).ntrip.rtcm@,
                        batch.frames@,
                        now,
                    )
                    &&& *final(self) == (AppState {
                        ntrip: NtripUi {
                            rtcm: final(self).ntrip.rtcm,
                            rtcm_crc_failures: batch.crc_failures,
                            rtcm_garbage_bytes: batch.garbage_bytes,
                            decodes: old(self).ntrip.decodes.filed_all(decoded@, at),
                            ..old(self).ntrip
                        },
                        ..*old(self)
                    })
                    &&& r.folds@ == folds_of(old(self).ntrip.rtcm@, batch.frames@, now)
                    &&& r.speed_knots is None
                    &&& r.elevation is None
                },
                AppEvent::SourcetableReady { host, port, table } => {
                    &&& *final(self) == (AppState {
                        ntrip: NtripUi {
                            sourcetable: Some((host, port, table)),
                            ..old(self).ntrip
                        },
                        ..*old(self)
                    })
                    &&& r.nothing()
                },
                AppEvent::UnknownResponse { raw } => {
                    &&& *final(self) == (AppState {
                        ntrip: NtripUi {
                            last_unknown_response: Some(raw),
                            unknown_response_gen: (old(self).ntrip.unknown_response_gen + 1) as u64,
                            ..old(self).ntrip
                        },
                        ..*old(self)
                    })
                    &&& r.nothing()
                },
                AppEvent::Nmea(sentence) => {
                    &&& *final(self) == (AppState {
                        gnss: old(self).gnss.after(sentence),
                        ..*old(self)
                    })
                    &&& r.folds@.len() == 0
                    &&& r.speed_knots == speed_of(sentence)
                    &&& r.elevation == (match altitude_of(sentence) {
                        Some(alt) => if old(self).chart.recording {
                            Some((Span::between(old(self).chart.t0, now), alt))
                        } else {
                            None
                        },
                        None => None,
                    })
                },
                AppEvent::Serial(status) => {
                    &&& *final(self) == (AppState {
                        serial: SerialUi { status, ..old(self).serial },
                        ..*old(self)
                    })
                    &&& r.nothing()
                },
                AppEvent::Overruns(n) => {
                    &&& *final(self) == (AppState {
                        serial: SerialUi { overruns: n, ..old(self).serial },
                        ..*old(self)
                    })
                    &&& r.nothing()
                },
            },
    {
        let mut r = Followups { folds: Vec::new(), speed_knots: None, elevation: None };
        match ev {
            AppEvent::EventLine(line) => self.events.push(line),
            AppEvent::ConnLine(line) => self.conn.push(line),
            AppEvent::Ntrip(status) => {
                self.ntrip.status = status;
                self.ntrip.status_since = now;
            },
            AppEvent::RxBytes { total } => {
                if total > self.ntrip.total_bytes {
                    self.ntrip.last_rx = Some(now);
                }
                self.ntrip.total_bytes = total;
            },
            AppEvent::Rtcm { batch, decoded, at } => {
                r.folds = count_batch(&mut self.ntrip.rtcm, &batch.frames, now);
                self.ntrip.rtcm_crc_failures = batch.crc_failures;
                self.ntrip.rtcm_garbage_bytes = batch.garbage_bytes;
                self.ntrip.decodes.file_all(decoded, at);
            },
            AppEvent::SourcetableReady { host, port, table } => {
                self.ntrip.sourcetable = Some((host, port, table));
            },
            AppEvent::UnknownResponse { raw } => {
                self.ntrip.last_unknown_response = Some(raw);
                self.ntrip.unknown_response_gen = self.ntrip.unknown_response_gen + 1;
            },
            AppEvent::Nmea(sentence) => {
                self.gnss.apply(sentence);
                if let Sentence::Rmc { speed_knots, .. } = sentence {
                    r.speed_knots = speed_knots;
                }
                if self.chart.recording {
                    if let Sentence::Gga { alt_m, .. } = sentence {
                        if let Some(alt) = alt_m {
                            r.elevation = Some((Span::since(self.chart.t0, now), alt));
                        }
                    }
                }
            },
            AppEvent::Serial(status) => {
                self.serial.status = status;
            },
            AppEvent::Overruns(n) => {
                self.serial.overruns = n;
            },
        }
        r
    }

    /// Per-frame work: fold every full rate window, so that rates decay while
    /// a type is silent. Returns the folded windows.
    pub fn tick(&mut self, now: u64) -> (r: Vec<(u16, RateFold)>)
        ensures
            *final(self) == (AppState {
                ntrip: NtripUi { rtcm: final(self).ntrip.rtcm, ..old(self).ntrip },
                ..*old(self)
            }),
            final(self).ntrip.rtcm@.dom() == old(self).ntrip.rtcm@.dom(),
            forall|k: u16| #[trigger]
                old(self).ntrip.rtcm@.contains_key(k) ==> final(self).ntrip.rtcm@[k] == ticked(
                    old(self).ntrip.rtcm@[k],
                    now,
                ),
            r@ == due_folds(stat_rows(old(self).ntrip.rtcm@), now),
    {
        let ghost start = self.ntrip.rtcm@;
        let entries = entries_of(&self.ntrip.rtcm);
        let mut folds: Vec<(u16, RateFold)> = Vec::new();
        let mut i: usize = 0;
        assert(entries@.take(0) =~= Seq::<(u16, RtcmTypeStat)>::empty());
        while i < entries.len()
            invariant
                i <= entries@.len(),
                *self == (AppState {
                    ntrip: NtripUi { rtcm: self.ntrip.rtcm, ..old(self).ntrip },
                    ..*old(self)
                }),
                start == old(self).ntrip.rtcm@,
                self.ntrip.rtcm@.dom() == start.dom(),
                forall|j: int|
                    0 <= j < entries@.len() ==> start.contains_key((#[trigger] entries@[j]).0)
                        && start[entries@[j].0] == entries@[j].1,
                forall|j: int, k: int|
                    0 <= j < k < entries@.len() ==> (#[trigger] entries@[j]).0 != (
                    #[trigger] entries@[k]).0,
                forall|j: int|
                    0 <= j < i ==> self.ntrip.rtcm@[(#[trigger] entries@[j]).0] == ticked(
                        entries@[j].1,
                        now,
                    ),
                folds@ == due_folds(entries@.take(i as int), now),
            decreases entries.len() - i,
        {
            let (ty, s): (u16, RtcmTypeStat) = entries[i];
            let mut stat = s;
            let ghost table = self.ntrip.rtcm@;
            assert(entries@[i as int] == (ty, s));
            assert(entries@.take(i + 1).drop_last() =~= entries@.take(i as int));
            if let Some(fold) = stat.rate.tick(now) {
                folds.push((ty, fold));
            }
            let _ = self.ntrip.rtcm.insert(ty, stat);
            proof {
                assert(self.ntrip.rtcm@ == table.insert(ty, stat));
                assert(self.ntrip.rtcm@.dom() =~= start.dom());
            }
            i += 1;
        }
        assert(entries@.take(i as int) =~= entries@);
        folds
    }

    /// The cached table's record of a stream, when the table is that
    /// caster's: an exact mountpoint match wins over one up to ASCII case.
    pub fn str_record(&self, host: &str, port: u16, mountpoint: &str) -> (r: Option<&StrRecord>)
        ensures
            match self.ntrip.sourcetable {
                Some((h, p, table)) => if h@ == host@ && p == port {
                    match r {
                        Some(s) => found_stream(table.strs@, mountpoint@) is Some && *s
                            == table.strs@[found_stream(table.strs@, mountpoint@)->0],
                        None => found_stream(table.strs@, mountpoint@) is None,
                    }
                } else {
                    r is None
                },
                None => r is None,
            },
    {
        match &self.ntrip.sourcetable {
            None => None,
            Some((h, p, table)) => {
                if !same_text(h.as_str(), host) || *p != port {
                    return None;
                }
                match find_stream(&table.strs, mountpoint) {
                    Some(i) => Some(&table.strs[i]),
                    None => None,
                }
            },
        }
    }
}

// ---------------------------------------------------------------------
// Stream lookup
// ---------------------------------------------------------------------

/// Index of the first record whose mountpoint is `mount`.
pub open spec fn exact_stream(strs: Seq<StrRecord>, mount: Seq<char>) -> Option<int>
    decreases strs.len(),
{
    if strs.len() == 0 {
        None
    } else {
        match exact_stream(strs.drop_last(), mount) {
            Some(i) => Some(i),
            None => if strs.last().mountpoint@ == mount {
                Some(strs.len() - 1)
            } else {
                None
            },
        }
    }
}

/// Index of the first record whose mountpoint is `mount` up to ASCII case.
pub open spec fn folded_stream(strs: Seq<StrRecord>, mount: Seq<char>) -> Option<int>
    decreases strs.len(),
{
    if strs.len() == 0 {
        None
    } else {
        match folded_stream(strs.drop_last(), mount) {
            Some(i) => Some(i),
            None => if eq_ci(strs.last().mountpoint@, mount) {
                Some(strs.len() - 1)
            } else {
                None
            },
        }
    }
}

/// The record of a mountpoint: the first exact match, or else the first one
/// up to ASCII case.
pub open spec fn found_stream(strs: Seq<StrRecord>, mount: Seq<char>) -> Option<int> {
    match exact_stream(strs, mount) {
        Some(i) => Some(i),
        None => folded_stream(strs, mount),
    }
}

fn find_exact(strs: &Vec<StrRecord>, mount: &str) -> (r: Option<usize>)
    ensures
        match r {
            Some(i) => i < strs@.len() && exact_stream(strs@, mount@) == Some(i as int),
            None => exact_stream(strs@, mount@) is None,
        },
{
    let mut found: Option<usize> = None;
    let mut i: usize = 0;
    assert(strs@.take(0) =~= Seq::<StrRecord>::empty());
    while i < strs.len()
        invariant
            i <= strs@.len(),
            match found {
                Some(j) => j < i && exact_stream(strs@.take(i as int), mount@) == Some(j as int),
                None => exact_stream(strs@.take(i as int), mount@) is None,
            },
        decreases strs.len() - i,
    {
        assert(strs@.take(i + 1).drop_last() =~= strs@.take(i as int));
        if found.is_none() && same_text(strs[i].mountpoint.as_str(), mount) {
            found = Some(i);
        }
        i += 1;
    }
    assert(strs@.take(i as int) =~= strs@);
    found
}

fn find_folded(strs: &Vec<StrRecord>, mount: &str) -> (r: Option<usize>)
    ensures
        match r {
            Some(i) => i < strs@.len() && folded_stream(strs@, mount@) == Some(i as int),
            None => folded_stream(strs@, mount@) is None,
        },
{
    let mut found: Option<usize> = None;
    let mut i: usize = 0;
    assert(strs@.take(0) =~= Seq::<StrRecord>::empty());
    while i < strs.len()
        invariant
            i <= strs@.len(),
            match found {
                Some(j) => j < i && folded_stream(strs@.take(i as int), mount@) == Some(j as int),
                None => folded_stream(strs@.take(i as int), mount@) is None,
            },
        decreases strs.len() - i,
    {
        assert(strs@.take(i + 1).drop_last() =~= strs@.take(i as int));
        if found.is_none() && same_text_ci(strs[i].mountpoint.as_str(), mount) {
            found = Some(i);
        }
        i += 1;
    }
    assert(strs@.take(i as int) =~= strs@);
    found
}

/// Find the record of a mountpoint. Casters may serve mounts whatever their
/// case, so a match up to ASCII case counts where there is no exact one.
pub fn find_stream(strs: &Vec<StrRecord>, mount: &str) -> (r: Option<usize>)
    ensures
        match r {
            Some(i) => i < strs@.len() && found_stream(strs@, mount@) == Some(i as int),
            None => found_stream(strs@, mount@) is None,
        },
{
    match find_exact(strs, mount) {
        Some(i) => Some(i),
        None => find_folded(strs, mount),
    }
}

} // verus!
