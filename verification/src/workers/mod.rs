//! Decision cores of the worker threads and the queue they share.
pub mod dial;
pub mod machine;
pub mod ntrip;
pub mod serial;
pub mod supervisor;
pub mod tls;

use std::collections::VecDeque;

use vstd::prelude::*;

use crate::span::Span;

verus! {

/// Bounded corrections queue between the NTRIP worker (producer) and the
/// serial worker (consumer). On overflow the oldest block is dropped and the
/// overrun counter ticks: stale corrections are worthless, and the drop
/// itself is a diagnostic.
pub struct CorrQueue {
    q: VecDeque<Vec<u8>>,
    cap: usize,
    /// True only while a serial worker is draining.
    active: bool,
    overruns: u64,
}

/// What a [`CorrQueue`] holds.
pub struct QueueModel {
    /// Queued blocks, oldest first.
    pub blocks: Seq<Seq<u8>>,
    pub cap: nat,
    pub active: bool,
    pub overruns: u64,
}

/// What became of a pushed block.
#[derive(Debug, Clone, Copy, PartialEq, Eq, Structural)]
pub enum PushOutcome {
    /// No serial worker attached; bytes discarded by design.
    Inactive,
    Queued,
    /// The queue was full: the oldest block was dropped. Carries the new
    /// cumulative overrun count.
    DroppedOldest(u64),
}

/// What a timed pop comes to after part of its wait.
#[derive(Debug, Clone)]
pub enum TimedPop {
    Block(Vec<u8>),
    /// Nothing queued yet: wait this much longer for a push.
    WaitFor(Span),
    TimedOut,
}

impl QueueModel {
    /// The bound holds, and nothing waits in a queue that nobody drains.
    pub open spec fn wf(self) -> bool {
        &&& self.cap >= 1
        &&& self.blocks.len() <= self.cap
        &&& !self.active ==> self.blocks.len() == 0
    }

    /// The overrun count after one more overrun.
    pub open spec fn next_overruns(self) -> u64 {
        if self.overruns == u64::MAX {
            0
        } else {
            (self.overruns + 1) as u64
        }
    }

    /// The queue after a push.
    pub open spec fn pushed(self, block: Seq<u8>) -> QueueModel {
        if !self.active {
            self
        } else if self.blocks.len() >= self.cap {
            QueueModel {
                blocks: self.blocks.skip(1).push(block),
                overruns: self.next_overruns(),
                ..self
            }
        } else {
            QueueModel { blocks: self.blocks.push(block), ..self }
        }
    }

    /// What a push reports.
    pub open spec fn push_outcome(self) -> PushOutcome {
        if !self.active {
            PushOutcome::Inactive
        } else if self.blocks.len() >= self.cap {
            PushOutcome::DroppedOldest(self.next_overruns())
        } else {
            PushOutcome::Queued
        }
    }

    /// The queue after a pop.
    pub open spec fn popped(self) -> QueueModel {
        if self.blocks.len() > 0 {
            QueueModel { blocks: self.blocks.skip(1), ..self }
        } else {
            self
        }
    }

    /// The queue after the serial worker attaches or detaches.
    pub open spec fn with_active(self, active: bool) -> QueueModel {
        if active {
            QueueModel { active: true, ..self }
        } else {
            QueueModel { active: false, blocks: Seq::empty(), ..self }
        }
    }

    /// The queue after pushing every block of `s` in order.
    pub open spec fn pushed_all(self, s: Seq<Seq<u8>>) -> QueueModel
        decreases s.len(),
    {
        if s.len() == 0 {
            self
        } else {
            self.pushed_all(s.drop_last()).pushed(s.last())
        }
    }
}

impl View for CorrQueue {
    type V = QueueModel;

    closed spec fn view(&self) -> QueueModel {
        QueueModel {
            blocks: Seq::new(self.q@.len(), |i: int| self.q@[i]@),
            cap: self.cap as nat,
            active: self.active,
            overruns: self.overruns,
        }
    }
}

impl CorrQueue {
    /// An empty, inactive queue of at least one slot.
    pub fn new(cap: usize) -> (r: CorrQueue)
        ensures
            r@.blocks == Seq::<Seq<u8>>::empty(),
            r@.cap == (if cap >= 1 { cap as nat } else { 1 }),
            !r@.active,
            r@.overruns == 0,
            r@.wf(),
    {
        let cap: usize = if cap >= 1 { cap } else { 1 };
        let r = CorrQueue { q: VecDeque::new(), cap, active: false, overruns: 0 };
        assert(r@.blocks =~= Seq::<Seq<u8>>::empty());
        r
    }

    /// Serial worker attach/detach. Detaching clears queued blocks so a later
    /// session never replays a stale backlog.
    pub fn set_active(&mut self, active: bool)
        requires
            old(self)@.wf(),
        ensures
            final(self)@ == old(self)@.with_active(active),
            final(self)@.wf(),
    {
        self.active = active;
        if !active {
            self.q.clear();
        }
        assert(self@.blocks =~= old(self)@.with_active(active).blocks);
    }

    /// Queue one block, dropping the oldest one when full.
    pub fn push(&mut self, bytes: Vec<u8>) -> (r: PushOutcome)
        requires
            old(self)@.wf(),
        ensures
            final(self)@ == old(self)@.pushed(bytes@),
            r == old(self)@.push_outcome(),
            final(self)@.wf(),
    {
        if !self.active {
            return PushOutcome::Inactive;
        }
        let mut outcome = PushOutcome::Queued;
        if self.q.len() >= self.cap {
            let _ = self.q.pop_front();
            self.overruns = self.overruns.wrapping_add(1);
            outcome = PushOutcome::DroppedOldest(self.overruns);
        }
        self.q.push_back(bytes);
        assert(self@.blocks =~= old(self)@.pushed(bytes@).blocks);
        outcome
    }

    /// Pop the oldest block, if any.
    pub fn try_pop(&mut self) -> (r: Option<Vec<u8>>)
        requires
            old(self)@.wf(),
        ensures
            final(self)@ == old(self)@.popped(),
            match r {
                Some(b) => old(self)@.blocks.len() > 0 && b@ == old(self)@.blocks[0],
                None => old(self)@.blocks.len() == 0,
            },
            final(self)@.wf(),
    {
        let r = self.q.pop_front();
        assert(self@.blocks =~= old(self)@.popped().blocks);
        r
    }

    /// Pop the oldest block, waiting up to `timeout` for one: what to do once
    /// `elapsed` of that wait has passed.
    pub fn pop_timeout(&mut self, elapsed: Span, timeout: Span) -> (r: TimedPop)
        requires
            old(self)@.wf(),
        ensures
            final(self)@ == old(self)@.popped(),
            match r {
                TimedPop::Block(b) => old(self)@.blocks.len() > 0 && b@ == old(self)@.blocks[0],
                TimedPop::WaitFor(rest) => old(self)@.blocks.len() == 0 && elapsed.nanos
                    < timeout.nanos && rest.nanos == timeout.nanos - elapsed.nanos,
                TimedPop::TimedOut => old(self)@.blocks.len() == 0 && elapsed.nanos
                    >= timeout.nanos,
            },
            final(self)@.wf(),
    {
        match self.try_pop() {
            Some(b) => TimedPop::Block(b),
            None => if elapsed.nanos < timeout.nanos {
                TimedPop::WaitFor(Span { nanos: timeout.nanos - elapsed.nanos })
            } else {
                TimedPop::TimedOut
            },
        }
    }

    /// Blocks dropped so far.
    pub fn overruns(&self) -> (r: u64)
        ensures
            r == self@.overruns,
    {
        self.overruns
    }
}

/// Every push on a well-formed queue leaves it well-formed, active or not as
/// before, and of the same capacity.
proof fn lemma_pushed_all_frame(m: QueueModel, s: Seq<Seq<u8>>)
    requires
        m.wf(),
    ensures
        m.pushed_all(s).wf(),
        m.pushed_all(s).active == m.active,
        m.pushed_all(s).cap == m.cap,
    decreases s.len(),
{
    if s.len() > 0 {
        lemma_pushed_all_frame(m, s.drop_last());
    }
}

/// An active queue keeps the newest blocks: after any pushes it holds, in
/// arrival order, the last `cap` blocks that were queued or pushed.
pub proof fn law_queue_keeps_newest(m: QueueModel, s: Seq<Seq<u8>>)
    requires
        m.wf(),
        m.active,
    ensures
        ({
            let all = m.blocks + s;
            m.pushed_all(s).blocks == (if all.len() <= m.cap {
                all
            } else {
                all.skip(all.len() - m.cap)
            })
        }),
    decreases s.len(),
{
    let all = m.blocks + s;
    let got = m.pushed_all(s).blocks;
    if s.len() == 0 {
        assert(all =~= m.blocks);
    } else {
        let t = s.drop_last();
        law_queue_keeps_newest(m, t);
        lemma_pushed_all_frame(m, t);
        let prev = m.blocks + t;
        assert(all =~= prev.push(s.last()));
        if all.len() <= m.cap {
            assert(got =~= all);
        } else {
            assert(got =~= all.skip(all.len() - m.cap));
        }
    }
}

/// Detaching empties the queue, and whatever is pushed before the next attach
/// is discarded: the next session starts from nothing.
pub proof fn law_no_stale_replay(m: QueueModel, s: Seq<Seq<u8>>)
    requires
        m.wf(),
    ensures
        m.with_active(false).pushed_all(s).with_active(true).blocks == Seq::<Seq<u8>>::empty(),
        m.with_active(false).pushed_all(s).overruns == m.overruns,
    decreases s.len(),
{
    if s.len() > 0 {
        law_no_stale_replay(m, s.drop_last());
        lemma_pushed_all_frame(m.with_active(false), s.drop_last());
    }
}

/// Blocks leave in the order in which they were pushed: with room for it, a
/// block pushed to an active queue is the one that leaves once everything
/// queued before it has left.
pub proof fn law_queue_is_fifo(m: QueueModel, block: Seq<u8>)
    requires
        m.wf(),
        m.active,
        m.blocks.len() < m.cap,
    ensures
        m.pushed(block).blocks[m.blocks.len() as int] == block,
        forall|i: int| 0 <= i < m.blocks.len() ==> m.pushed(block).blocks[i] == m.blocks[i],
        m.blocks.len() > 0 ==> m.pushed(block).popped() == m.popped().pushed(block),
{
    if m.blocks.len() > 0 {
        assert(m.pushed(block).popped().blocks =~= m.popped().pushed(block).blocks);
    }
}

// ---------------------------------------------------------------------
// Waiting for a worker
// ---------------------------------------------------------------------

/// What to do while waiting for a worker to end.
#[derive(Debug, Clone, Copy, PartialEq, Eq, Structural)]
pub enum JoinStep {
    /// It ended: collect it.
    Join,
    /// It had its time: abandon it.
    Abandon,
    /// Look again in a moment.
    Sleep,
}

/// Decide how to go on waiting for a worker with a deadline. A worker that
/// ended is collected even past the deadline.
pub fn join_timeout(finished: bool, now: u64, deadline: u64) -> (r: JoinStep)
    ensures
        r == (if finished {
            JoinStep::Join
        } else if now >= deadline {
            JoinStep::Abandon
        } else {
            JoinStep::Sleep
        }),
{
    if finished {
        JoinStep::Join
    } else if now >= deadline {
        JoinStep::Abandon
    } else {
        JoinStep::Sleep
    }
}

} // verus!
