//! Serial worker policy: forwarding corrections to the receiver, assembling
//! its sentences, and the events that they give rise to.
use vstd::prelude::*;
use vstd::seq_lib::to_multiset_insert;
use vstd::utf8::{decode_utf8, encode_utf8, encode_utf8_decode_utf8, valid_utf8};

use crate::bus::{Effect, Outbox, Post, SerialStatus, SerialView};
use crate::order::{lemma_lex_antisymmetric, lemma_lex_transitive, lex, lex_order};
use crate::settings::{SerialCfg, SerialModel};
use crate::text::{chars_of, dec, dec_string, push_dec, push_line, texts, trim, trimmed};
use crate::vocab::{NovatelFormat, ParityCfg};
use crate::workers::{CorrQueue, QueueModel};

verus! {

/// Port read timeout, in milliseconds; it paces the worker's loop.
pub const READ_TIMEOUT_MS: u64 = 50;

/// Longest line that is assembled. Binary noise must not grow the buffer.
pub const LINE_CAP: usize = 1024;

// ---------------------------------------------------------------------
// Port set-up
// ---------------------------------------------------------------------

/// The period of a message rate, in seconds.
pub open spec fn ontime(rate_hz: u8) -> Seq<char> {
    if rate_hz == 1 {
        "1.0"@
    } else if rate_hz == 10 {
        "0.1"@
    } else {
        "0.2"@
    }
}

/// The receiver's auto-configuration commands, in order.
pub open spec fn command_texts(format: NovatelFormat, rate_hz: u8) -> Seq<Seq<char>> {
    seq![
        "unlogall thisport"@,
        "log thisport gpggalong ontime "@ + ontime(rate_hz),
        "log thisport gprmc ontime "@ + ontime(rate_hz),
        "interfacemode thisport "@ + format.text() + " novatel"@,
    ]
}

/// The receiver's auto-configuration commands, in order.
pub fn novatel_commands(format: NovatelFormat, rate_hz: u8) -> (r: Vec<String>)
    ensures
        texts(r@) == command_texts(format, rate_hz),
{
    let period = if rate_hz == 1 {
        "1.0"
    } else if rate_hz == 10 {
        "0.1"
    } else {
        "0.2"
    };
    let mut r: Vec<String> = Vec::new();
    push_line(&mut r, "unlogall thisport".to_owned());
    push_line(&mut r, "log thisport gpggalong ontime ".to_owned().concat(period));
    push_line(&mut r, "log thisport gprmc ontime ".to_owned().concat(period));
    push_line(
        &mut r,
        "interfacemode thisport ".to_owned().concat(format.as_str()).concat(" novatel"),
    );
    assert(texts(r@) =~= command_texts(format, rate_hz));
    r
}

/// The letter of a parity setting.
pub open spec fn parity_letter(p: ParityCfg) -> Seq<char> {
    match p {
        ParityCfg::NoParity => "N"@,
        ParityCfg::Even => "E"@,
        ParityCfg::Odd => "O"@,
    }
}

/// "115200 8-N-1" style summary.
pub open spec fn summary_of(cfg: SerialModel) -> Seq<char> {
    dec(cfg.baud as nat) + " "@ + dec(cfg.data_bits as nat) + "-"@ + parity_letter(cfg.parity)
        + "-"@ + dec(cfg.stop_bits as nat)
}

/// "115200 8-N-1" style summary for status lines and open events.
pub fn port_summary(cfg: &SerialCfg) -> (r: String)
    ensures
        r@ == summary_of(cfg@),
{
    let mut out = dec_string(cfg.baud as u64);
    out.append(" ");
    push_dec(&mut out, cfg.data_bits as u64);
    out.append("-");
    match cfg.parity {
        ParityCfg::NoParity => out.append("N"),
        ParityCfg::Even => out.append("E"),
        ParityCfg::Odd => out.append("O"),
    }
    out.append("-");
    push_dec(&mut out, cfg.stop_bits as u64);
    out
}

/// What is said when the port could not be opened.
pub open spec fn open_failed_posts(cfg: SerialModel, cause: Seq<char>) -> Seq<Post> {
    let reason = "Could not open "@ + cfg.port + ": "@ + cause;
    seq![Post::Event(reason), Post::Serial(SerialView::Disconnected { reason })]
}

/// What is said of an open port.
pub open spec fn opened_posts(cfg: SerialModel) -> Seq<Post> {
    seq![
        Post::Event("Serial port "@ + cfg.port + " opened ("@ + summary_of(cfg) + ")"@),
        Post::Serial(SerialView::Connected { port: cfg.port, detail: summary_of(cfg) }),
    ]
}

/// What is said of a closed port: the failure, if one closed it.
pub open spec fn closed_posts(cfg: SerialModel, failure: Option<Seq<char>>) -> Seq<Post> {
    match failure {
        Some(msg) => seq![
            Post::Event(msg + "; port closed"@),
            Post::Serial(SerialView::Disconnected { reason: msg }),
        ],
        None => seq![
            Post::Event("Serial port "@ + cfg.port + " closed"@),
            Post::Serial(SerialView::Disconnected { reason: Seq::empty() }),
        ],
    }
}

/// The port could not be opened.
pub fn open_failed(cfg: &SerialCfg, cause: &str, out: &mut Outbox)
    ensures
        final(out)@ == old(out)@ + open_failed_posts(cfg@, cause@),
{
    let mut reason = "Could not open ".to_owned();
    reason.append(cfg.port.as_str());
    reason.append(": ");
    reason.append(cause);
    out.event(reason.as_str());
    out.push(Effect::Serial(SerialStatus::Disconnected { reason }));
    assert(out@ =~= old(out)@ + open_failed_posts(cfg@, cause@));
}

/// The port is open: announce it and let corrections queue up for it.
pub fn opened(cfg: &SerialCfg, corr: &mut CorrQueue, out: &mut Outbox)
    requires
        old(corr)@.wf(),
    ensures
        final(corr)@ == old(corr)@.with_active(true),
        final(corr)@.wf(),
        final(out)@ == old(out)@ + opened_posts(cfg@),
{
    let summary = port_summary(cfg);
    let mut line = "Serial port ".to_owned();
    line.append(cfg.port.as_str());
    line.append(" opened (");
    line.append(summary.as_str());
    line.append(")");
    out.event(line.as_str());
    out.push(
        Effect::Serial(SerialStatus::Connected { port: cfg.port.clone(), detail: summary }),
    );
    corr.set_active(true);
    assert(out@ =~= old(out)@ + opened_posts(cfg@));
}

/// A configuration command was written, or failed; a failure ends the session
/// with the returned reason.
pub fn command_sent(command: &str, error: Option<&str>, out: &mut Outbox) -> (r: Option<String>)
    ensures
        match error {
            None => r is None && final(out)@ == old(out)@.push(
                Post::Event("Sent to receiver: "@ + command@),
            ),
            Some(e) => r is Some && r->0@ == "Receiver command failed: "@ + e@ && final(out)@
                == old(out)@,
        },
{
    match error {
        None => {
            let line = "Sent to receiver: ".to_owned().concat(command);
            out.event(line.as_str());
            None
        },
        Some(e) => Some("Receiver command failed: ".to_owned().concat(e)),
    }
}

/// The failure of a read: the port vanished.
pub fn read_failed(cause: &str) -> (r: String)
    ensures
        r@ == "Serial error: "@ + cause@,
{
    "Serial error: ".to_owned().concat(cause)
}

/// The text of a string that may be missing.
pub open spec fn text_of(s: Option<String>) -> Option<Seq<char>> {
    match s {
        Some(t) => Some(t@),
        None => None,
    }
}

/// The session is over: stop queueing, and say why.
pub fn closed(cfg: &SerialCfg, failure: Option<String>, corr: &mut CorrQueue, out: &mut Outbox)
    requires
        old(corr)@.wf(),
    ensures
        final(corr)@ == old(corr)@.with_active(false),
        final(corr)@.wf(),
        final(out)@ == old(out)@ + closed_posts(cfg@, text_of(failure)),
{
    let ghost posts = closed_posts(cfg@, text_of(failure));
    corr.set_active(false);
    match failure {
        Some(msg) => {
            let line = msg.clone().concat("; port closed");
            out.event(line.as_str());
            out.push(Effect::Serial(SerialStatus::Disconnected { reason: msg }));
        },
        None => {
            let mut line = "Serial port ".to_owned();
            line.append(cfg.port.as_str());
            line.append(" closed");
            out.event(line.as_str());
            out.push(Effect::Serial(SerialStatus::Disconnected { reason: String::new() }));
        },
    }
    assert(out@ =~= old(out)@ + posts);
}

// ---------------------------------------------------------------------
// Forwarding
// ---------------------------------------------------------------------

/// What the port said about a write.
#[derive(Debug, Clone)]
pub enum WriteEvent {
    /// Nothing has been written yet.
    Start,
    /// The port took this many of the offered bytes.
    Wrote(usize),
    /// The write was interrupted before the port took anything; it is tried
    /// again.
    Interrupted,
    Failed(String),
}

/// What to do with the block in hand.
#[derive(Debug, Clone)]
pub enum ForwardStep {
    /// Offer these bytes to the port.
    Write(Vec<u8>),
    /// The whole block is out.
    Done,
    /// Cancelled mid-block; the rest is abandoned.
    Cancelled,
    Failed(String),
}

/// One block on its way to the port.
#[derive(Debug)]
pub struct BlockWriter {
    pub block: Vec<u8>,
    /// Bytes that the port has taken.
    pub sent: usize,
}

impl BlockWriter {
    pub open spec fn wf(self) -> bool {
        self.sent <= self.block@.len()
    }

    /// The bytes not yet taken.
    pub open spec fn rest(self) -> Seq<u8> {
        self.block@.skip(self.sent as int)
    }

    /// Whether the port's answer is possible: it cannot take more than it was
    /// offered.
    pub open spec fn accepts(self, event: WriteEvent) -> bool {
        event matches WriteEvent::Wrote(n) ==> n <= self.rest().len()
    }

    /// Bytes taken after the port's answer.
    pub open spec fn sent_after(self, event: WriteEvent) -> int {
        match event {
            WriteEvent::Wrote(n) => self.sent + n,
            _ => self.sent as int,
        }
    }

    pub fn new(block: Vec<u8>) -> (r: BlockWriter)
        ensures
            r.wf(),
            r.block == block,
            r.sent == 0,
    {
        BlockWriter { block, sent: 0 }
    }

    /// Forward one block, checking cancellation between partial writes: a
    /// slow link can take seconds over a block. An interrupted write is
    /// offered again; a write that makes no progress is an error.
    pub fn forward_block(&mut self, event: WriteEvent, cancelled: bool) -> (r: ForwardStep)
        requires
            old(self).wf(),
            old(self).accepts(event),
        ensures
            final(self).wf(),
            final(self).block == old(self).block,
            final(self).sent == old(self).sent_after(event),
            match event {
                WriteEvent::Failed(e) => r is Failed && r->Failed_0@ == e@,
                WriteEvent::Wrote(0) => r is Failed && r->Failed_0@
                    == "failed to write whole buffer"@,
                _ => if final(self).rest().len() == 0 {
                    r is Done
                } else if cancelled {
                    r is Cancelled
                } else {
                    r is Write && r->Write_0@ == final(self).rest()
                },
            },
    {
        let len: usize = self.block.len();
        match event {
            WriteEvent::Failed(e) => {
                return ForwardStep::Failed(e);
            },
            WriteEvent::Wrote(n) => {
                if n == 0 {
                    return ForwardStep::Failed("failed to write whole buffer".to_owned());
                }
                self.sent = self.sent + n;
            },
            WriteEvent::Start => {},
            WriteEvent::Interrupted => {},
        }
        if self.sent == len {
            return ForwardStep::Done;
        }
        if cancelled {
            return ForwardStep::Cancelled;
        }
        let mut rest: Vec<u8> = Vec::new();
        let mut i: usize = self.sent;
        while i < self.block.len()
            invariant
                self.sent <= i <= self.block@.len(),
                rest@ =~= self.block@.subrange(self.sent as int, i as int),
            decreases self.block.len() - i,
        {
            rest.push(self.block[i]);
            i += 1;
        }
        assert(rest@ =~= self.rest());
        ForwardStep::Write(rest)
    }
}

/// The bytes that a port has taken from a block, when it took `counts` of
/// what it was offered, write after write.
pub open spec fn taken(block: Seq<u8>, counts: Seq<nat>) -> Seq<u8>
    decreases counts.len(),
{
    if counts.len() == 0 {
        Seq::empty()
    } else {
        let before = taken(block, counts.drop_last());
        before + block.skip(before.len() as int).take(counts.last() as int)
    }
}

/// Whether each write took no more than it was offered.
pub open spec fn feasible(block: Seq<u8>, counts: Seq<nat>) -> bool
    decreases counts.len(),
{
    counts.len() == 0 || (feasible(block, counts.drop_last()) && taken(
        block,
        counts.drop_last(),
    ).len() + counts.last() <= block.len())
}

/// Forwarding is byte-exact: however the port splits a block, what it has
/// taken is a prefix of the block, and all of it once every byte is out.
pub proof fn law_forwarding_is_byte_exact(block: Seq<u8>, counts: Seq<nat>)
    requires
        feasible(block, counts),
    ensures
        taken(block, counts).len() <= block.len(),
        taken(block, counts) == block.take(taken(block, counts).len() as int),
        taken(block, counts).len() == block.len() ==> taken(block, counts) == block,
    decreases counts.len(),
{
    if counts.len() > 0 {
        law_forwarding_is_byte_exact(block, counts.drop_last());
        let before = taken(block, counts.drop_last());
        assert(taken(block, counts) =~= block.take((before.len() + counts.last()) as int));
    }
    assert(taken(block, counts) =~= block.take(taken(block, counts).len() as int));
}

/// What the drain of the queue comes to next.
#[derive(Debug, Clone)]
pub enum DrainStep {
    /// Offer these bytes to the port.
    Write(Vec<u8>),
    /// The queue is empty, or the worker was cancelled.
    Finished,
    /// A write failed; the session ends with this reason.
    Failed(String),
}

/// The drain of the queue into the port.
#[derive(Debug)]
pub struct Drain {
    pub current: Option<BlockWriter>,
}

/// The first queued block with bytes in it, and the queue after it.
pub open spec fn next_block(q: QueueModel) -> (Option<Seq<u8>>, QueueModel)
    decreases q.blocks.len(),
{
    if q.blocks.len() == 0 {
        (None, q)
    } else if q.blocks[0].len() == 0 {
        next_block(q.popped())
    } else {
        (Some(q.blocks[0]), q.popped())
    }
}

impl Drain {
    pub open spec fn wf(self) -> bool {
        self.current matches Some(w) ==> w.wf() && w.rest().len() > 0
    }

    /// The port's answer must be to the block in hand.
    pub open spec fn accepts(self, event: WriteEvent) -> bool {
        match self.current {
            Some(w) => w.accepts(event),
            None => true,
        }
    }

    pub fn new() -> (r: Drain)
        ensures
            r.wf(),
            r.current is None,
    {
        Drain { current: None }
    }

    /// Drain queued blocks until the queue is empty, a write fails, or the
    /// worker is cancelled. On cancel the block in hand is dropped: stale
    /// corrections are worthless.
    pub fn drain_corrections(
        &mut self,
        corr: &mut CorrQueue,
        event: WriteEvent,
        cancelled: bool,
    ) -> (r: DrainStep)
        requires
            old(self).wf(),
            old(self).accepts(event),
            old(corr)@.wf(),
        ensures
            final(self).wf(),
            final(corr)@.wf(),
            ({
                let failed = old(self).current is Some && (event is Failed || event
                    == WriteEvent::Wrote(0));
                let more = old(self).current matches Some(w) && w.sent_after(event)
                    < w.block@.len();
                if failed {
                    &&& final(corr)@ == old(corr)@
                    &&& final(self).current is None
                    &&& r is Failed
                    &&& r->Failed_0@ == "Serial write failed: "@ + (match event {
                        WriteEvent::Failed(e) => e@,
                        _ => "failed to write whole buffer"@,
                    })
                } else if more && !cancelled {
                    let w = old(self).current->0;
                    &&& final(corr)@ == old(corr)@
                    &&& final(self).current is Some
                    &&& final(self).current->0.block == w.block
                    &&& final(self).current->0.sent == w.sent_after(event)
                    &&& r is Write
                    &&& r->Write_0@ == w.block@.skip(w.sent_after(event))
                } else if cancelled {
                    &&& final(corr)@ == old(corr)@
                    &&& final(self).current is None
                    &&& r is Finished
                } else {
                    let (block, rest) = next_block(old(corr)@);
                    &&& final(corr)@ == rest
                    &&& match block {
                        Some(b) => final(self).current is Some && final(self).current->0.block@ == b
                            && final(self).current->0.sent == 0 && r is Write && r->Write_0@ == b,
                        None => final(self).current is None && r is Finished,
                    }
                }
            }),
    {
        if let Some(mut w) = self.current.take() {
            match w.forward_block(event, cancelled) {
                ForwardStep::Write(rest) => {
                    self.current = Some(w);
                    return DrainStep::Write(rest);
                },
                ForwardStep::Failed(e) => {
                    return DrainStep::Failed("Serial write failed: ".to_owned().concat(e.as_str()));
                },
                ForwardStep::Cancelled => {
                    return DrainStep::Finished;
                },
                ForwardStep::Done => {},
            }
        }
        if cancelled {
            return DrainStep::Finished;
        }
        match pop_block(corr) {
            None => DrainStep::Finished,
            Some(block) => {
                let bytes = block.clone();
                assert(bytes@ =~= block@);
                assert(block@.skip(0) =~= block@);
                self.current = Some(BlockWriter::new(block));
                DrainStep::Write(bytes)
            },
        }
    }
}

/// Pop the first block that has bytes in it.
fn pop_block(corr: &mut CorrQueue) -> (r: Option<Vec<u8>>)
    requires
        old(corr)@.wf(),
    ensures
        final(corr)@.wf(),
        final(corr)@ == next_block(old(corr)@).1,
        match r {
            Some(b) => next_block(old(corr)@).0 == Some(b@) && b@.len() > 0,
            None => next_block(old(corr)@).0 is None,
        },
{
    let ghost start = corr@;
    loop
        invariant
            corr@.wf(),
            next_block(start) == next_block(corr@),
            start == old(corr)@,
        decreases corr@.blocks.len(),
    {
        match corr.try_pop() {
            None => {
                return None;
            },
            Some(block) => {
                if block.len() > 0 {
                    return Some(block);
                }
            },
        }
    }
}

// ---------------------------------------------------------------------
// Line assembly
// ---------------------------------------------------------------------

/// The text that bytes stand for, with every ill-formed sequence replaced by
/// the replacement character.
pub uninterp spec fn lossy_text(bytes: Seq<u8>) -> Seq<char>;

/// `String::from_utf8_lossy`: the text of the bytes. Bytes that are valid
/// UTF-8 give exactly the text they encode; what becomes of ill-formed ones
/// is named, not described.
#[verifier::external_body]
fn from_utf8_lossy(bytes: &Vec<u8>) -> (r: String)
    ensures
        r@ == lossy_text(bytes@),
        valid_utf8(bytes@) ==> r@ == decode_utf8(bytes@),
{
    String::from_utf8_lossy(bytes).into_owned()
}

/// Assembles received bytes into lines.
#[derive(Debug)]
pub struct LineAssembler {
    pub buf: Vec<u8>,
}

/// The pending bytes after one more byte that does not end a line.
pub open spec fn pending_after(buf: Seq<u8>, b: u8) -> Seq<u8> {
    if buf.len() >= LINE_CAP {
        seq![b]
    } else {
        buf.push(b)
    }
}

/// The pending bytes, and the completed lines, after receiving `data`.
/// Lines are the raw bytes between line feeds.
pub open spec fn assembled(buf: Seq<u8>, data: Seq<u8>) -> (Seq<u8>, Seq<Seq<u8>>)
    decreases data.len(),
{
    if data.len() == 0 {
        (buf, Seq::empty())
    } else {
        let (pending, lines) = assembled(buf, data.drop_last());
        if data.last() == 10 {
            (Seq::empty(), lines.push(pending))
        } else {
            (pending_after(pending, data.last()), lines)
        }
    }
}

/// The texts of raw lines, trimmed, without the empty ones.
pub open spec fn line_texts(lines: Seq<Seq<u8>>) -> Seq<Seq<char>>
    decreases lines.len(),
{
    if lines.len() == 0 {
        Seq::empty()
    } else {
        let before = line_texts(lines.drop_last());
        let text = trim(lossy_text(lines.last()));
        if text.len() > 0 {
            before.push(text)
        } else {
            before
        }
    }
}

impl LineAssembler {
    pub fn new() -> (r: LineAssembler)
        ensures
            r.buf@ == Seq::<u8>::empty(),
    {
        LineAssembler { buf: Vec::new() }
    }

    /// Receive bytes; returns the lines that they complete, trimmed, empty
    /// ones left out.
    pub fn on_rx_bytes(&mut self, data: &[u8]) -> (r: Vec<String>)
        requires
            old(self).buf@.len() <= LINE_CAP,
        ensures
            final(self).buf@.len() <= LINE_CAP,
            final(self).buf@ == assembled(old(self).buf@, data@).0,
            texts(r@) == line_texts(assembled(old(self).buf@, data@).1),
    {
        let ghost start = self.buf@;
        let mut lines: Vec<String> = Vec::new();
        let mut i: usize = 0;
        assert(data@.take(0) =~= Seq::<u8>::empty());
        assert(texts(lines@) =~= Seq::<Seq<char>>::empty());
        while i < data.len()
            invariant
                i <= data@.len(),
                self.buf@.len() <= LINE_CAP,
                self.buf@ == assembled(start, data@.take(i as int)).0,
                texts(lines@) == line_texts(assembled(start, data@.take(i as int)).1),
            decreases data.len() - i,
        {
            let b: u8 = data[i];
            let ghost done = assembled(start, data@.take(i as int));
            assert(data@.take(i + 1).drop_last() =~= data@.take(i as int));
            if b == 10 {
                let text = from_utf8_lossy(&self.buf);
                assert(done.1.push(self.buf@).drop_last() =~= done.1);
                self.buf.clear();
                let line = trimmed(text.as_str());
                if !line.is_empty() {
                    push_line(&mut lines, line.to_owned());
                }
                assert(self.buf@ =~= Seq::<u8>::empty());
            } else {
                if self.buf.len() >= LINE_CAP {
                    self.buf.clear();
                }
                self.buf.push(b);
                assert(self.buf@ =~= pending_after(done.0, b));
            }
            i += 1;
        }
        assert(data@.take(i as int) =~= data@);
        lines
    }
}

proof fn lemma_assembled_concat(buf: Seq<u8>, a: Seq<u8>, b: Seq<u8>)
    ensures
        ({
            let (mid, first) = assembled(buf, a);
            let (end, second) = assembled(mid, b);
            assembled(buf, a + b) == (end, first + second)
        }),
    decreases b.len(),
{
    if b.len() == 0 {
        assert(a + b =~= a);
        assert(assembled(buf, a).1 + Seq::<Seq<u8>>::empty() =~= assembled(buf, a).1);
    } else {
        lemma_assembled_concat(buf, a, b.drop_last());
        assert((a + b).drop_last() =~= a + b.drop_last());
        let (mid, first) = assembled(buf, a);
        let (pending, second) = assembled(mid, b.drop_last());
        assert(first + second.push(pending) =~= (first + second).push(pending));
    }
}

/// Lines do not depend on how the bytes were split into reads: two reads give
/// the lines of the two taken together.
pub proof fn law_lines_survive_any_split(buf: Seq<u8>, a: Seq<u8>, b: Seq<u8>)
    ensures
        ({
            let (mid, first) = assembled(buf, a);
            let (end, second) = assembled(mid, b);
            assembled(buf, a + b) == (end, first + second)
        }),
{
    lemma_assembled_concat(buf, a, b);
}

/// The pending line never outgrows its cap.
pub proof fn law_pending_line_is_bounded(buf: Seq<u8>, data: Seq<u8>)
    requires
        buf.len() <= LINE_CAP,
    ensures
        assembled(buf, data).0.len() <= LINE_CAP,
    decreases data.len(),
{
    if data.len() > 0 {
        law_pending_line_is_bounded(buf, data.drop_last());
    }
}

/// Whether a line claims to be a sentence; command echoes do not.
pub fn is_sentence_line(line: &str) -> (r: bool)
    ensures
        r == (line@.len() > 0 && line@[0] == '$'),
{
    let v = chars_of(line);
    v.len() > 0 && v[0] == '$'
}

// ---------------------------------------------------------------------
// Session
// ---------------------------------------------------------------------

/// Why the port did not do what was asked.
#[derive(Debug, Clone, Copy, PartialEq, Eq, Structural)]
pub enum PortFault {
    WouldBlock,
    TimedOut,
    Interrupted,
    Other,
}

/// What came of a read.
#[derive(Debug, Clone)]
pub enum SerialRead {
    /// Nothing arrived in time.
    Nothing,
    Data(Vec<u8>),
    Failed(String),
}

/// A read without data: only running out of time is no failure.
pub fn read_fault(fault: PortFault, cause: String) -> (r: SerialRead)
    ensures
        match fault {
            PortFault::WouldBlock => r is Nothing,
            PortFault::TimedOut => r is Nothing,
            _ => r is Failed && r->Failed_0@ == cause@,
        },
{
    match fault {
        PortFault::WouldBlock => SerialRead::Nothing,
        PortFault::TimedOut => SerialRead::Nothing,
        _ => SerialRead::Failed(cause),
    }
}

/// A write that took nothing: only an interrupted one is tried again.
pub fn write_fault(fault: PortFault, cause: String) -> (r: WriteEvent)
    ensures
        match fault {
            PortFault::Interrupted => r is Interrupted,
            _ => r is Failed && r->Failed_0@ == cause@,
        },
{
    match fault {
        PortFault::Interrupted => WriteEvent::Interrupted,
        _ => WriteEvent::Failed(cause),
    }
}

/// What the port came back with.
#[derive(Debug)]
pub enum SerialEvent {
    /// The port was opened, or could not be.
    Opened(Result<(), String>),
    /// A command was written whole, or failed.
    Sent(Result<(), String>),
    /// The answer to bytes that were offered.
    Port(WriteEvent),
    Read(SerialRead),
}

/// What is asked of the port next.
#[derive(Debug, Clone)]
pub enum SerialAct {
    /// Write this command whole.
    Send(String),
    /// Offer these bytes.
    Write(Vec<u8>),
    /// Read what has arrived, waiting no longer than the read timeout.
    Read,
    /// The session is over.
    End,
}

/// A [`SerialAct`] as a value.
pub enum SerialActView {
    Send(Seq<char>),
    Write(Seq<u8>),
    Read,
    End,
}

impl View for SerialAct {
    type V = SerialActView;

    open spec fn view(&self) -> SerialActView {
        match self {
            SerialAct::Send(t) => SerialActView::Send(t@),
            SerialAct::Write(b) => SerialActView::Write(b@),
            SerialAct::Read => SerialActView::Read,
            SerialAct::End => SerialActView::End,
        }
    }
}

/// What a session waits for.
#[derive(Debug, Clone, Copy, PartialEq, Eq, Structural)]
pub enum SerialStage {
    Opening,
    /// The answer to the configuration command at this position.
    Configuring(usize),
    /// The answer to bytes that were offered.
    Draining,
    Reading,
    Ended,
}

/// One session on the port: open it, configure the receiver, then forward
/// what is queued and read, in turns, until something fails or the worker is
/// cancelled.
#[derive(Debug)]
pub struct SerialRun {
    cfg: SerialCfg,
    stage: SerialStage,
    drain: Drain,
    lines: LineAssembler,
}

/// What a [`SerialRun`] holds.
pub struct SerialRunModel {
    pub cfg: SerialModel,
    pub stage: SerialStage,
    /// The block that is being forwarded, and how much of it the port took.
    pub block: Option<(Seq<u8>, int)>,
    /// Received bytes of a line that has not ended.
    pub pending: Seq<u8>,
}

/// What one event comes to.
pub struct SerialStepped {
    pub run: SerialRunModel,
    pub act: SerialActView,
    pub posts: Seq<Post>,
    /// The lines that the receiver has completed.
    pub lines: Seq<Seq<char>>,
    pub queue: QueueModel,
}

impl SerialRunModel {
    /// A session whose port is being opened.
    pub open spec fn fresh(cfg: SerialModel) -> SerialRunModel {
        SerialRunModel { cfg, stage: SerialStage::Opening, block: None, pending: Seq::empty() }
    }

    pub open spec fn wf(self) -> bool {
        &&& self.pending.len() <= LINE_CAP
        &&& self.stage is Draining <==> self.block is Some
        &&& self.block matches Some(b) ==> 0 <= b.1 < b.0.len()
        &&& self.stage matches SerialStage::Configuring(k) ==> k < self.commands().len()
    }

    /// The receiver's configuration commands.
    pub open spec fn commands(self) -> Seq<Seq<char>> {
        command_texts(self.cfg.novatel_format, self.cfg.novatel_rate_hz)
    }

    /// Whether the port took no more of the block than it was offered.
    pub open spec fn accepts(self, event: WriteEvent) -> bool {
        match (self.block, event) {
            (Some(b), WriteEvent::Wrote(n)) => b.1 + n <= b.0.len(),
            _ => true,
        }
    }

    /// Whether the event answers what was asked.
    pub open spec fn expects(self, event: SerialEvent) -> bool {
        match event {
            SerialEvent::Opened(_) => self.stage is Opening,
            SerialEvent::Sent(_) => self.stage is Configuring,
            SerialEvent::Port(e) => self.stage is Draining && self.accepts(e),
            SerialEvent::Read(_) => self.stage is Reading,
        }
    }

    /// The session is over: the queue is detached, and the reason is given.
    pub open spec fn ended(self, failure: Option<Seq<char>>, q: QueueModel) -> SerialStepped {
        SerialStepped {
            run: SerialRunModel { stage: SerialStage::Ended, block: None, ..self },
            act: SerialActView::End,
            posts: closed_posts(self.cfg, failure),
            lines: Seq::empty(),
            queue: q.with_active(false),
        }
    }

    /// Send the configuration command at position `k`, with its line end.
    pub open spec fn sending(self, k: int, q: QueueModel) -> SerialStepped {
        SerialStepped {
            run: SerialRunModel { stage: SerialStage::Configuring(k as usize), ..self },
            act: SerialActView::Send(self.commands()[k] + "\r\n"@),
            posts: Seq::empty(),
            lines: Seq::empty(),
            queue: q,
        }
    }

    /// Offer the rest of a block.
    pub open spec fn offering(self, block: Seq<u8>, sent: int, q: QueueModel) -> SerialStepped {
        SerialStepped {
            run: SerialRunModel {
                stage: SerialStage::Draining,
                block: Some((block, sent)),
                ..self
            },
            act: SerialActView::Write(block.skip(sent)),
            posts: Seq::empty(),
            lines: Seq::empty(),
            queue: q,
        }
    }

    /// Read; whatever block was in hand is dropped.
    pub open spec fn reading(self, q: QueueModel) -> SerialStepped {
        SerialStepped {
            run: SerialRunModel { stage: SerialStage::Reading, block: None, ..self },
            act: SerialActView::Read,
            posts: Seq::empty(),
            lines: Seq::empty(),
            queue: q,
        }
    }

    /// Forward the next queued block; read once there is none.
    pub open spec fn forwarding(self, q: QueueModel) -> SerialStepped {
        let (block, rest) = next_block(q);
        match block {
            Some(b) => self.offering(b, 0, rest),
            None => self.reading(rest),
        }
    }

    /// Another turn of forwarding and reading, unless the worker was
    /// cancelled.
    pub open spec fn next_turn(self, cancelled: bool, q: QueueModel) -> SerialStepped {
        if cancelled {
            self.ended(None, q)
        } else {
            self.forwarding(q)
        }
    }

    /// What a failed write is called.
    pub open spec fn write_failure(event: WriteEvent) -> Option<Seq<char>> {
        match event {
            WriteEvent::Failed(e) => Some("Serial write failed: "@ + e@),
            WriteEvent::Wrote(0) => Some(
                "Serial write failed: "@ + "failed to write whole buffer"@,
            ),
            _ => None,
        }
    }

    /// The port answered an offer: go on with the block, or with the next one
    /// once it is out. A cancelled worker drops the block and reads once more.
    pub open spec fn answered(
        self,
        event: WriteEvent,
        cancelled: bool,
        q: QueueModel,
    ) -> SerialStepped {
        let (block, sent) = self.block->0;
        let now_sent = match event {
            WriteEvent::Wrote(n) => sent + n,
            _ => sent,
        };
        if Self::write_failure(event) is Some {
            self.ended(Self::write_failure(event), q)
        } else if cancelled {
            self.reading(q)
        } else if now_sent < block.len() {
            self.offering(block, now_sent, q)
        } else {
            self.forwarding(q)
        }
    }

    /// What an event comes to.
    pub open spec fn stepped(
        self,
        event: SerialEvent,
        cancelled: bool,
        q: QueueModel,
    ) -> SerialStepped {
        match event {
            SerialEvent::Opened(Err(e)) => SerialStepped {
                run: SerialRunModel { stage: SerialStage::Ended, ..self },
                act: SerialActView::End,
                posts: open_failed_posts(self.cfg, e@),
                lines: Seq::empty(),
                queue: q,
            },
            SerialEvent::Opened(Ok(_)) => {
                let attached = q.with_active(true);
                let next = if self.cfg.novatel_autoconfig {
                    self.sending(0, attached)
                } else {
                    self.next_turn(cancelled, attached)
                };
                SerialStepped { posts: opened_posts(self.cfg) + next.posts, ..next }
            },
            SerialEvent::Sent(Err(e)) => self.ended(Some("Receiver command failed: "@ + e@), q),
            SerialEvent::Sent(Ok(_)) => {
                let k = self.stage->Configuring_0;
                let next = if k + 1 < self.commands().len() {
                    self.sending(k + 1, q)
                } else {
                    self.next_turn(cancelled, q)
                };
                SerialStepped {
                    posts: seq![Post::Event("Sent to receiver: "@ + self.commands()[k as int])]
                        + next.posts,
                    ..next
                }
            },
            SerialEvent::Port(e) => self.answered(e, cancelled, q),
            SerialEvent::Read(SerialRead::Failed(e)) => self.ended(Some("Serial error: "@ + e@), q),
            SerialEvent::Read(SerialRead::Nothing) => self.next_turn(cancelled, q),
            SerialEvent::Read(SerialRead::Data(data)) => {
                let (pending, lines) = assembled(self.pending, data@);
                let next = SerialRunModel { pending, ..self }.next_turn(cancelled, q);
                SerialStepped { lines: line_texts(lines), ..next }
            },
        }
    }
}

impl View for SerialRun {
    type V = SerialRunModel;

    closed spec fn view(&self) -> SerialRunModel {
        SerialRunModel {
            cfg: self.cfg@,
            stage: self.stage,
            block: match self.drain.current {
                Some(w) => Some((w.block@, w.sent as int)),
                None => None,
            },
            pending: self.lines.buf@,
        }
    }
}

impl SerialRun {
    pub open spec fn wf(self) -> bool {
        self@.wf()
    }

    /// Whether the event answers what was asked.
    pub open spec fn expects(self, event: SerialEvent) -> bool {
        self@.expects(event)
    }

    /// A session whose port is being opened.
    pub fn new(cfg: SerialCfg) -> (r: SerialRun)
        ensures
            r@ == SerialRunModel::fresh(cfg@),
            r.wf(),
    {
        SerialRun {
            cfg,
            stage: SerialStage::Opening,
            drain: Drain::new(),
            lines: LineAssembler::new(),
        }
    }

    fn end(
        &mut self,
        failure: Option<String>,
        corr: &mut CorrQueue,
        out: &mut Outbox,
    ) -> (r: SerialAct)
        requires
            old(corr)@.wf(),
        ensures
            final(corr)@.wf(),
            ({
                let s = old(self)@.ended(text_of(failure), old(corr)@);
                &&& final(self)@ == s.run
                &&& r@ == s.act
                &&& final(out)@ == old(out)@ + s.posts
                &&& final(corr)@ == s.queue
            }),
    {
        closed(&self.cfg, failure, corr, out);
        self.stage = SerialStage::Ended;
        self.drain = Drain::new();
        SerialAct::End
    }

    fn send(&mut self, k: usize) -> (r: SerialAct)
        requires
            k < old(self)@.commands().len(),
        ensures
            final(self)@ == (SerialRunModel {
                stage: SerialStage::Configuring(k),
                ..old(self)@
            }),
            r@ == SerialActView::Send(old(self)@.commands()[k as int] + "\r\n"@),
    {
        let commands = novatel_commands(self.cfg.novatel_format, self.cfg.novatel_rate_hz);
        assert(texts(commands@)[k as int] == commands@[k as int]@);
        self.stage = SerialStage::Configuring(k);
        SerialAct::Send(commands[k].clone().concat("\r\n"))
    }

    /// Take the next step of the drain.
    fn forward(
        &mut self,
        event: WriteEvent,
        cancelled: bool,
        corr: &mut CorrQueue,
        out: &mut Outbox,
    ) -> (r: SerialAct)
        requires
            old(corr)@.wf(),
            old(self)@.block matches Some(b) ==> 0 <= b.1 < b.0.len(),
            old(self)@.accepts(event),
            old(self)@.block is None ==> !cancelled,
        ensures
            final(corr)@.wf(),
            ({
                let s = if old(self)@.block is Some {
                    old(self)@.answered(event, cancelled, old(corr)@)
                } else {
                    old(self)@.forwarding(old(corr)@)
                };
                &&& final(self)@ == s.run
                &&& s.run.block matches Some(b) ==> 0 <= b.1 < b.0.len()
                &&& r@ == s.act
                &&& final(out)@ == old(out)@ + s.posts
                &&& final(corr)@ == s.queue
            }),
    {
        proof {
            if self.drain.current is Some {
                let w = self.drain.current->0;
                assert(w.rest().len() == w.block@.len() - w.sent);
            }
            lemma_next_block(corr@);
        }
        match self.drain.drain_corrections(corr, event, cancelled) {
            DrainStep::Write(bytes) => {
                self.stage = SerialStage::Draining;
                proof {
                    let w = self.drain.current->0;
                    assert(w.rest().len() == w.block@.len() - w.sent);
                    assert(w.block@.skip(0) =~= w.block@);
                    assert(out@ =~= old(out)@ + Seq::<Post>::empty());
                }
                SerialAct::Write(bytes)
            },
            DrainStep::Finished => {
                self.stage = SerialStage::Reading;
                assert(out@ =~= old(out)@ + Seq::<Post>::empty());
                SerialAct::Read
            },
            DrainStep::Failed(e) => self.end(Some(e), corr, out),
        }
    }

    fn next_turn(
        &mut self,
        cancelled: bool,
        corr: &mut CorrQueue,
        out: &mut Outbox,
    ) -> (r: SerialAct)
        requires
            old(corr)@.wf(),
            old(self)@.block is None,
        ensures
            final(corr)@.wf(),
            ({
                let s = old(self)@.next_turn(cancelled, old(corr)@);
                &&& final(self)@ == s.run
                &&& s.run.block matches Some(b) ==> 0 <= b.1 < b.0.len()
                &&& r@ == s.act
                &&& final(out)@ == old(out)@ + s.posts
                &&& final(corr)@ == s.queue
            }),
    {
        if cancelled {
            self.end(None, corr, out)
        } else {
            self.forward(WriteEvent::Start, false, corr, out)
        }
    }

    /// Take what the port came back with, and say what is asked of it next.
    /// The lines that the receiver has completed are returned; they come
    /// before what is posted.
    pub fn step(
        &mut self,
        event: SerialEvent,
        cancelled: bool,
        corr: &mut CorrQueue,
        out: &mut Outbox,
    ) -> (r: (SerialAct, Vec<String>))
        requires
            old(self).wf(),
            old(self).expects(event),
            old(corr)@.wf(),
        ensures
            final(self).wf(),
            final(corr)@.wf(),
            ({
                let s = old(self)@.stepped(event, cancelled, old(corr)@);
                &&& final(self)@ == s.run
                &&& r.0@ == s.act
                &&& texts(r.1@) == s.lines
                &&& final(out)@ == old(out)@ + s.posts
                &&& final(corr)@ == s.queue
            }),
    {
        let ghost start = out@;
        let mut lines: Vec<String> = Vec::new();
        assert(texts(lines@) =~= Seq::<Seq<char>>::empty());
        let act = match event {
            SerialEvent::Opened(Err(e)) => {
                open_failed(&self.cfg, e.as_str(), out);
                self.stage = SerialStage::Ended;
                SerialAct::End
            },
            SerialEvent::Opened(Ok(_)) => {
                opened(&self.cfg, corr, out);
                if self.cfg.novatel_autoconfig {
                    self.send(0)
                } else {
                    self.next_turn(cancelled, corr, out)
                }
            },
            SerialEvent::Sent(result) => {
                let k: usize = match self.stage {
                    SerialStage::Configuring(k) => k,
                    _ => 0,
                };
                let commands = novatel_commands(self.cfg.novatel_format, self.cfg.novatel_rate_hz);
                assert(texts(commands@)[k as int] == commands@[k as int]@);
                let error: Option<&str> = match &result {
                    Ok(_) => None,
                    Err(e) => Some(e.as_str()),
                };
                match command_sent(commands[k].as_str(), error, out) {
                    Some(failure) => self.end(Some(failure), corr, out),
                    None => if k + 1 < commands.len() {
                        self.send(k + 1)
                    } else {
                        self.next_turn(cancelled, corr, out)
                    },
                }
            },
            SerialEvent::Port(e) => self.forward(e, cancelled, corr, out),
            SerialEvent::Read(SerialRead::Failed(e)) => {
                let failure = read_failed(e.as_str());
                self.end(Some(failure), corr, out)
            },
            SerialEvent::Read(SerialRead::Nothing) => self.next_turn(cancelled, corr, out),
            SerialEvent::Read(SerialRead::Data(data)) => {
                lines = self.lines.on_rx_bytes(data.as_slice());
                self.next_turn(cancelled, corr, out)
            },
        };
        assert(out@ =~= start + old(self)@.stepped(event, cancelled, old(corr)@).posts);
        (act, lines)
    }
}

proof fn lemma_next_block(q: QueueModel)
    ensures
        next_block(q).0 matches Some(b) ==> b.len() > 0,
        next_block(q).0 is None ==> next_block(q).1.blocks.len() == 0,
    decreases q.blocks.len(),
{
    if q.blocks.len() > 0 && q.blocks[0].len() == 0 {
        lemma_next_block(q.popped());
    }
}

/// One event of a session: what the port came back with, whether the worker
/// had been cancelled, and what was queued by then.
pub struct SerialInput {
    pub event: SerialEvent,
    pub cancelled: bool,
    pub queue: QueueModel,
}

impl SerialRunModel {
    /// The session after events.
    pub open spec fn after(self, inputs: Seq<SerialInput>) -> SerialRunModel
        decreases inputs.len(),
    {
        if inputs.len() == 0 {
            self
        } else {
            let last = inputs.last();
            self.after(inputs.drop_last()).stepped(last.event, last.cancelled, last.queue).run
        }
    }

    /// What the event at position `i` comes to.
    pub open spec fn step_at(self, inputs: Seq<SerialInput>, i: int) -> SerialStepped {
        self.after(inputs.take(i)).stepped(
            inputs[i].event,
            inputs[i].cancelled,
            inputs[i].queue,
        )
    }

    /// Whether each event answers what was asked.
    pub open spec fn answers(self, inputs: Seq<SerialInput>) -> bool {
        forall|i: int|
            0 <= i < inputs.len() ==> self.after(inputs.take(i)).expects((#[trigger] inputs[i]).event)
    }

    /// What is asked of the port, event after event.
    pub open spec fn acts(self, inputs: Seq<SerialInput>) -> Seq<SerialActView> {
        Seq::new(inputs.len(), |i: int| self.step_at(inputs, i).act)
    }
}

/// Whether the first `n` acts send the first `n` commands, each with its line
/// end.
pub open spec fn sends_first(acts: Seq<SerialActView>, commands: Seq<Seq<char>>, n: int) -> bool {
    forall|k: int|
        0 <= k < n ==> #[trigger] acts[k] == SerialActView::Send(commands[k] + "\r\n"@)
}

/// Whether the first `n` commands were accepted, each in answer to its
/// sending.
pub open spec fn accepts_first(inputs: Seq<SerialInput>, n: int) -> bool {
    forall|k: int|
        1 <= k <= n ==> ((#[trigger] inputs[k]).event matches SerialEvent::Sent(r) && r is Ok)
}

/// How one event moves a session that configures the receiver.
proof fn lemma_stage_step(m: SerialRunModel, event: SerialEvent, cancelled: bool, q: QueueModel)
    requires
        m.expects(event),
        m.cfg.novatel_autoconfig,
        m.stage matches SerialStage::Configuring(k) ==> k < m.commands().len(),
    ensures
        ({
            let s = m.stepped(event, cancelled, q);
            let accepted = event matches SerialEvent::Sent(r) && r is Ok;
            let last = m.commands().len() - 1;
            &&& s.run.cfg == m.cfg
            &&& s.act is Write <==> s.run.stage is Draining
            &&& s.act is Read <==> s.run.stage is Reading
            &&& match s.run.stage {
                SerialStage::Opening => false,
                SerialStage::Configuring(k) => {
                    &&& k < m.commands().len()
                    &&& s.act == SerialActView::Send(m.commands()[k as int] + "\r\n"@)
                    &&& if k == 0 {
                        m.stage is Opening
                    } else {
                        accepted && m.stage == SerialStage::Configuring((k - 1) as usize)
                    }
                },
                SerialStage::Ended => true,
                _ => m.stage is Draining || m.stage is Reading || (accepted && m.stage
                    == SerialStage::Configuring(last as usize)),
            }
        }),
{
}

/// Where a session that configures the receiver stands after `n` events.
spec fn configured_to(
    acts: Seq<SerialActView>,
    commands: Seq<Seq<char>>,
    inputs: Seq<SerialInput>,
    n: int,
    stage: SerialStage,
) -> bool {
    let total = commands.len() as int;
    match stage {
        SerialStage::Opening => n == 0,
        SerialStage::Configuring(k) => n == k + 1 && k < total && sends_first(acts, commands, n)
            && accepts_first(inputs, n - 1),
        SerialStage::Ended => true,
        _ => n > total && sends_first(acts, commands, total) && accepts_first(inputs, total),
    }
}

proof fn lemma_configured_further(
    acts: Seq<SerialActView>,
    commands: Seq<Seq<char>>,
    inputs: Seq<SerialInput>,
    n: int,
    prev: SerialStage,
    stage: SerialStage,
)
    requires
        n > 0,
        0 < commands.len() < 0x100,
        configured_to(acts, commands, inputs, n - 1, prev),
        ({
            let accepted = inputs[n - 1].event matches SerialEvent::Sent(r) && r is Ok;
            match stage {
                SerialStage::Opening => false,
                SerialStage::Configuring(k) => {
                    &&& k < commands.len()
                    &&& acts[n - 1] == SerialActView::Send(commands[k as int] + "\r\n"@)
                    &&& if k == 0 {
                        prev is Opening
                    } else {
                        accepted && prev == SerialStage::Configuring((k - 1) as usize)
                    }
                },
                SerialStage::Ended => true,
                _ => prev is Draining || prev is Reading || (accepted && prev
                    == SerialStage::Configuring((commands.len() - 1) as usize)),
            }
        }),
    ensures
        configured_to(acts, commands, inputs, n, stage),
{
}

proof fn lemma_configuration(cfg: SerialModel, inputs: Seq<SerialInput>, n: int)
    requires
        cfg.novatel_autoconfig,
        SerialRunModel::fresh(cfg).answers(inputs),
        0 <= n <= inputs.len(),
    ensures
        ({
            let m = SerialRunModel::fresh(cfg);
            let now = m.after(inputs.take(n));
            now.cfg == cfg && configured_to(m.acts(inputs), m.commands(), inputs, n, now.stage)
        }),
    decreases n,
{
    let m = SerialRunModel::fresh(cfg);
    if n > 0 {
        lemma_configuration(cfg, inputs, n - 1);
        let prev = m.after(inputs.take(n - 1));
        let input = inputs[n - 1];
        assert(prev.expects(input.event));
        lemma_stage_step(prev, input.event, input.cancelled, input.queue);
        let s = prev.stepped(input.event, input.cancelled, input.queue);
        assert(inputs.take(n).drop_last() =~= inputs.take(n - 1));
        assert(m.after(inputs.take(n)) == s.run);
        assert(m.acts(inputs)[n - 1] == s.act);
        lemma_configured_further(
            m.acts(inputs),
            m.commands(),
            inputs,
            n,
            prev.stage,
            s.run.stage,
        );
    }
}

/// The receiver is configured before any traffic: with auto-configuration on,
/// by the time the session first offers corrections or reads, it has sent
/// every command, in order and each with its line end, and each was accepted
/// before the next one went out.
#[verifier::spinoff_prover]
pub proof fn law_receiver_is_configured_first(cfg: SerialModel, inputs: Seq<SerialInput>, i: int)
    requires
        cfg.novatel_autoconfig,
        SerialRunModel::fresh(cfg).answers(inputs),
        0 <= i < inputs.len(),
        ({
            let act = SerialRunModel::fresh(cfg).acts(inputs)[i];
            act is Write || act is Read
        }),
    ensures
        ({
            let m = SerialRunModel::fresh(cfg);
            let total = m.commands().len() as int;
            &&& i >= total
            &&& sends_first(m.acts(inputs), m.commands(), total)
            &&& accepts_first(inputs, total)
        }),
{
    let m = SerialRunModel::fresh(cfg);
    lemma_configuration(cfg, inputs, i);
    lemma_configuration(cfg, inputs, i + 1);
    let prev = m.after(inputs.take(i));
    let input = inputs[i];
    assert(prev.expects(input.event));
    lemma_stage_step(prev, input.event, input.cancelled, input.queue);
    assert(inputs.take(i + 1).drop_last() =~= inputs.take(i));
}

/// Without auto-configuration no command is ever sent.
pub proof fn law_no_command_without_autoconfig(cfg: SerialModel, inputs: Seq<SerialInput>, i: int)
    requires
        !cfg.novatel_autoconfig,
        SerialRunModel::fresh(cfg).answers(inputs),
        0 <= i < inputs.len(),
    ensures
        !(SerialRunModel::fresh(cfg).step_at(inputs, i).act is Send),
        !(SerialRunModel::fresh(cfg).step_at(inputs, i).run.stage is Configuring),
        SerialRunModel::fresh(cfg).step_at(inputs, i).run.cfg == cfg,
    decreases i,
{
    let m = SerialRunModel::fresh(cfg);
    assert(m.after(inputs.take(i)).expects(inputs[i].event));
    if i == 0 {
        assert(inputs.take(0) =~= Seq::<SerialInput>::empty());
    } else {
        law_no_command_without_autoconfig(cfg, inputs, i - 1);
        assert(inputs.take(i).drop_last() =~= inputs.take(i - 1));
        assert(m.after(inputs.take(i)) == m.step_at(inputs, i - 1).run);
    }
}

/// Corrections come before sentences: the session reads only once nothing is
/// queued any more, unless it was cancelled over a block, and what it offers
/// is always the part of a block that the port has not taken.
pub proof fn law_drain_comes_before_each_read(
    m: SerialRunModel,
    event: SerialEvent,
    cancelled: bool,
    q: QueueModel,
)
    requires
        m.wf(),
        m.expects(event),
    ensures
        ({
            let s = m.stepped(event, cancelled, q);
            &&& s.act is Read ==> s.queue.blocks.len() == 0 || (cancelled && event is Port)
            &&& s.act matches SerialActView::Write(bytes) ==> bytes.len() > 0 && (
            s.run.block matches Some(b) && bytes == b.0.skip(b.1))
        }),
{
    lemma_next_block(q);
    lemma_next_block(q.with_active(true));
}

/// Whether the port reports a failure.
pub open spec fn is_failure(event: SerialEvent) -> bool {
    match event {
        SerialEvent::Opened(r) => r is Err,
        SerialEvent::Sent(r) => r is Err,
        SerialEvent::Port(e) => SerialRunModel::write_failure(e) is Some,
        SerialEvent::Read(r) => r is Failed,
    }
}

/// A session ends at its first failure, else only when it is cancelled; once
/// it has ended nothing is expected of it, and an open port's session leaves
/// the queue detached and empty.
pub proof fn law_session_ends_on_failure_or_cancel(
    m: SerialRunModel,
    event: SerialEvent,
    cancelled: bool,
    q: QueueModel,
)
    requires
        m.wf(),
        m.expects(event),
    ensures
        ({
            let s = m.stepped(event, cancelled, q);
            &&& is_failure(event) ==> s.act is End
            &&& s.act is End ==> is_failure(event) || cancelled
            &&& s.act is End <==> s.run.stage is Ended
            &&& s.act is End && !(m.stage is Opening && is_failure(event)) ==> !s.queue.active
                && s.queue.blocks.len() == 0
            &&& s.run.stage is Ended ==> forall|e: SerialEvent| !s.run.expects(e)
        }),
{
}

/// Past configuration, a cancelled session ends at its next event, except
/// that one cancelled over a block reads once more before it ends.
pub proof fn law_cancel_ends_the_session(m: SerialRunModel, event: SerialEvent, q: QueueModel)
    requires
        m.wf(),
        m.expects(event),
        !(m.stage is Configuring) && !(m.stage is Opening && m.cfg.novatel_autoconfig),
    ensures
        ({
            let s = m.stepped(event, true, q);
            &&& s.act is End || (m.stage is Draining && s.act is Read)
        }),
{
}

// ---------------------------------------------------------------------
// Fix events
// ---------------------------------------------------------------------

/// What the watch reads of a position sentence.
#[derive(Debug)]
pub struct Gga {
    pub quality: u8,
    /// The name of that fix quality.
    pub quality_name: String,
    pub sats: u8,
    /// Horizontal dilution of precision in tenths, rounded.
    pub hdop_tenths: Option<i32>,
    /// Correction age in seconds, printed with one decimal.
    pub age_text: Option<String>,
    pub station_id: Option<u16>,
    /// The sentence as received.
    pub raw: String,
}

/// Tracks the previous values and turns changes into event lines.
#[derive(Debug)]
pub struct NmeaWatch {
    quality: Option<u8>,
    quality_name: String,
    sats: Option<u8>,
    hdop_tenths: Option<i32>,
    station: Option<u16>,
}

/// What a [`NmeaWatch`] remembers.
pub struct WatchModel {
    pub quality: Option<u8>,
    /// The name of the last quality, of quality 0 before the first one.
    pub quality_name: Seq<char>,
    pub sats: Option<u8>,
    pub hdop_tenths: Option<i32>,
    pub station: Option<u16>,
}

impl View for NmeaWatch {
    type V = WatchModel;

    closed spec fn view(&self) -> WatchModel {
        WatchModel {
            quality: self.quality,
            quality_name: self.quality_name@,
            sats: self.sats,
            hdop_tenths: self.hdop_tenths,
            station: self.station,
        }
    }
}

/// Whether going from one fix quality to another loses an RTK solution.
pub open spec fn degrades(from: u8, to: u8) -> bool {
    (from == 4 || from == 5) && to != 4 && (to == 5 ==> from == 4)
}

/// A signed number of tenths.
pub open spec fn signed_tenths(t: int) -> Seq<char> {
    if t < 0 {
        "-"@ + crate::decimal::tenths_text((-t) as nat)
    } else {
        crate::decimal::tenths_text(t as nat)
    }
}

impl WatchModel {
    /// Before any sentence.
    pub open spec fn fresh() -> WatchModel {
        WatchModel {
            quality: None,
            quality_name: "Invalid"@,
            sats: None,
            hdop_tenths: None,
            station: None,
        }
    }

    /// The last quality, 0 before the first sentence.
    pub open spec fn last_quality(self) -> u8 {
        match self.quality {
            Some(q) => q,
            None => 0,
        }
    }

    pub open spec fn quality_lines(self, g: Gga) -> Seq<Seq<char>> {
        if g.quality == self.last_quality() {
            Seq::empty()
        } else {
            let change = seq![self.quality_name + " -> "@ + g.quality_name@];
            if degrades(self.last_quality(), g.quality) {
                change.push(
                    match g.age_text {
                        Some(age) => "RTK degraded; correction data age was "@ + age@ + " s"@,
                        None => "RTK degraded; correction data age unknown"@,
                    },
                )
            } else {
                change
            }
        }
    }

    pub open spec fn sats_lines(self, g: Gga) -> Seq<Seq<char>> {
        match self.sats {
            Some(prev) => if prev != g.sats {
                seq!["Satellites: "@ + dec(prev as nat) + " -> "@ + dec(g.sats as nat)]
            } else {
                Seq::empty()
            },
            None => Seq::empty(),
        }
    }

    pub open spec fn hdop_lines(self, g: Gga) -> Seq<Seq<char>> {
        match (self.hdop_tenths, g.hdop_tenths) {
            (Some(prev), Some(t)) => if prev != t {
                seq!["HDOP: "@ + signed_tenths(prev as int) + " -> "@ + signed_tenths(t as int)]
            } else {
                Seq::empty()
            },
            _ => Seq::empty(),
        }
    }

    pub open spec fn station_lines(self, g: Gga) -> Seq<Seq<char>> {
        match g.station_id {
            Some(id) => match self.station {
                Some(prev) => if prev != id {
                    seq!["Base station ID: "@ + dec(prev as nat) + " -> "@ + dec(id as nat)]
                } else {
                    Seq::empty()
                },
                None => seq!["Base station ID: "@ + dec(id as nat)],
            },
            None => Seq::empty(),
        }
    }

    /// The event lines that a sentence gives rise to.
    pub open spec fn lines(self, g: Gga) -> Seq<Seq<char>> {
        self.quality_lines(g) + self.sats_lines(g) + self.hdop_lines(g) + self.station_lines(g)
    }

    /// What is remembered after a sentence.
    pub open spec fn after(self, g: Gga) -> WatchModel {
        WatchModel {
            quality: Some(g.quality),
            quality_name: g.quality_name@,
            sats: Some(g.sats),
            hdop_tenths: if g.hdop_tenths is Some {
                g.hdop_tenths
            } else {
                self.hdop_tenths
            },
            station: if g.station_id is Some {
                g.station_id
            } else {
                self.station
            },
        }
    }
}

fn push_signed_tenths(out: &mut String, t: i32)
    ensures
        final(out)@ == old(out)@ + signed_tenths(t as int),
{
    let ghost start = out@;
    if t < 0 {
        out.append("-");
        let m: i64 = -(t as i64);
        crate::decimal::push_tenths(out, m as u64);
    } else {
        crate::decimal::push_tenths(out, t as u64);
    }
    assert(out@ =~= start + signed_tenths(t as int));
}

impl Default for NmeaWatch {
    fn default() -> (r: NmeaWatch)
        ensures
            r@ == WatchModel::fresh(),
    {
        NmeaWatch {
            quality: None,
            quality_name: "Invalid".to_owned(),
            sats: None,
            hdop_tenths: None,
            station: None,
        }
    }
}

impl NmeaWatch {
    fn quality_change(&self, g: &Gga, lines: &mut Vec<String>)
        ensures
            texts(final(lines)@) == texts(old(lines)@) + self@.quality_lines(*g),
    {
        let ghost start = texts(lines@);
        let prev: u8 = match self.quality {
            Some(q) => q,
            None => 0,
        };
        if g.quality != prev {
            let line = self.quality_name.clone().concat(" -> ").concat(g.quality_name.as_str());
            push_line(lines, line);
            let rtk = prev == 4 || prev == 5;
            if rtk && g.quality != 4 && (g.quality != 5 || prev == 4) {
                let line = match &g.age_text {
                    Some(age) => "RTK degraded; correction data age was ".to_owned().concat(
                        age.as_str(),
                    ).concat(" s"),
                    None => "RTK degraded; correction data age unknown".to_owned(),
                };
                push_line(lines, line);
            }
        }
        assert(texts(lines@) =~= start + self@.quality_lines(*g));
    }

    fn sats_change(&self, g: &Gga, lines: &mut Vec<String>)
        ensures
            texts(final(lines)@) == texts(old(lines)@) + self@.sats_lines(*g),
    {
        let ghost start = texts(lines@);
        if let Some(prev) = self.sats {
            if prev != g.sats {
                let mut line = "Satellites: ".to_owned();
                push_dec(&mut line, prev as u64);
                line.append(" -> ");
                push_dec(&mut line, g.sats as u64);
                push_line(lines, line);
            }
        }
        assert(texts(lines@) =~= start + self@.sats_lines(*g));
    }

    fn hdop_change(&self, g: &Gga, lines: &mut Vec<String>)
        ensures
            texts(final(lines)@) == texts(old(lines)@) + self@.hdop_lines(*g),
    {
        let ghost start = texts(lines@);
        if let (Some(prev), Some(t)) = (self.hdop_tenths, g.hdop_tenths) {
            if prev != t {
                let mut line = "HDOP: ".to_owned();
                push_signed_tenths(&mut line, prev);
                line.append(" -> ");
                push_signed_tenths(&mut line, t);
                push_line(lines, line);
            }
        }
        assert(texts(lines@) =~= start + self@.hdop_lines(*g));
    }

    fn station_change(&self, g: &Gga, lines: &mut Vec<String>)
        ensures
            texts(final(lines)@) == texts(old(lines)@) + self@.station_lines(*g),
    {
        let ghost start = texts(lines@);
        if let Some(id) = g.station_id {
            match self.station {
                Some(prev) => {
                    if prev != id {
                        let mut line = "Base station ID: ".to_owned();
                        push_dec(&mut line, prev as u64);
                        line.append(" -> ");
                        push_dec(&mut line, id as u64);
                        push_line(lines, line);
                    }
                },
                None => {
                    let mut line = "Base station ID: ".to_owned();
                    push_dec(&mut line, id as u64);
                    push_line(lines, line);
                },
            }
        }
        assert(texts(lines@) =~= start + self@.station_lines(*g));
    }

    /// The event lines for what a sentence changed: fix quality (with a
    /// warning when an RTK solution is lost), satellites, dilution of
    /// precision at display precision, and base station.
    pub fn on_gga(&mut self, g: &Gga) -> (r: Vec<String>)
        ensures
            texts(r@) == old(self)@.lines(*g),
            final(self)@ == old(self)@.after(*g),
    {
        let mut lines: Vec<String> = Vec::new();
        assert(texts(lines@) =~= Seq::<Seq<char>>::empty());
        self.quality_change(g, &mut lines);
        self.sats_change(g, &mut lines);
        self.hdop_change(g, &mut lines);
        self.station_change(g, &mut lines);
        assert(texts(lines@) =~= self@.lines(*g));
        self.quality = Some(g.quality);
        self.quality_name = g.quality_name.clone();
        self.sats = Some(g.sats);
        if g.hdop_tenths.is_some() {
            self.hdop_tenths = g.hdop_tenths;
        }
        if g.station_id.is_some() {
            self.station = g.station_id;
        }
        lines
    }
}

/// A valid position sentence arrived: record it, and log what it changed.
/// The receiver's last sentence, for passing on to the caster, is returned.
pub fn on_position(watch: &mut NmeaWatch, g: &Gga, out: &mut Outbox) -> (r: String)
    ensures
        r@ == g.raw@,
        final(watch)@ == old(watch)@.after(*g),
        final(out)@ == event_posts(
            old(out)@.push(Post::NmeaRecord(g.raw@)),
            old(watch)@.lines(*g),
        ),
{
    out.push(Effect::NmeaRecord(g.raw.clone()));
    let lines = watch.on_gga(g);
    let ghost all = texts(lines@);
    let ghost start = out@;
    let mut i: usize = 0;
    assert(all.take(0) =~= Seq::<Seq<char>>::empty());
    while i < lines.len()
        invariant
            i <= lines@.len(),
            all == texts(lines@),
            out@ == event_posts(start, all.take(i as int)),
        decreases lines.len() - i,
    {
        out.event(lines[i].as_str());
        assert(all.take(i + 1).drop_last() =~= all.take(i as int));
        i += 1;
    }
    assert(all.take(i as int) =~= all);
    g.raw.clone()
}

/// The posts `p` followed by one event line for each text.
pub open spec fn event_posts(p: Seq<Post>, lines: Seq<Seq<char>>) -> Seq<Post>
    decreases lines.len(),
{
    if lines.len() == 0 {
        p
    } else {
        event_posts(p, lines.drop_last()).push(Post::Event(lines.last()))
    }
}

/// A sentence that repeats the previous one's values is silent.
pub proof fn law_unchanged_fix_is_silent(w: WatchModel, g: Gga)
    ensures
        w.after(g).lines(g) == Seq::<Seq<char>>::empty(),
{
}

/// An RTK solution that is reached, kept or improved never warns; losing one
/// always does.
pub proof fn law_warning_only_on_rtk_loss(from: u8, to: u8)
    ensures
        degrades(from, to) <==> ((from == 4 && to != 4) || (from == 5 && to != 4 && to != 5)),
{
}

// ---------------------------------------------------------------------
// Port list
// ---------------------------------------------------------------------

/// What kind of device a port is.
#[derive(Debug, Clone)]
pub enum PortKind {
    /// A USB device, with its product name if it has one.
    Usb(Option<String>),
    Bluetooth,
    Other,
}

/// The human label of a port.
pub open spec fn label_text(kind: PortKind) -> Seq<char> {
    match kind {
        PortKind::Usb(Some(product)) => product@,
        PortKind::Bluetooth => "Bluetooth"@,
        _ => Seq::empty(),
    }
}

/// The human label of a port: its product name, when it is a USB device that
/// has one.
pub fn port_label(kind: &PortKind) -> (r: String)
    ensures
        r@ == label_text(*kind),
{
    match kind {
        PortKind::Usb(Some(product)) => product.clone(),
        PortKind::Bluetooth => "Bluetooth".to_owned(),
        _ => String::new(),
    }
}

/// Names and labels of ports.
pub open spec fn port_texts(v: Seq<(String, String)>) -> Seq<(Seq<char>, Seq<char>)> {
    Seq::new(v.len(), |i: int| (v[i].0@, v[i].1@))
}

/// Order of two ports: by name, then by label, byte by byte.
pub open spec fn port_order(a: (Seq<char>, Seq<char>), b: (Seq<char>, Seq<char>)) -> int {
    let by_name = lex(encode_utf8(a.0), encode_utf8(b.0));
    if by_name != 0 {
        by_name
    } else {
        lex(encode_utf8(a.1), encode_utf8(b.1))
    }
}

proof fn lemma_port_order(
    a: (Seq<char>, Seq<char>),
    b: (Seq<char>, Seq<char>),
    c: (Seq<char>, Seq<char>),
)
    ensures
        port_order(a, b) == -port_order(b, a),
        port_order(a, b) <= 0 && port_order(b, c) <= 0 ==> port_order(a, c) <= 0,
{
    let (a0, b0, c0) = (encode_utf8(a.0), encode_utf8(b.0), encode_utf8(c.0));
    let (a1, b1, c1) = (encode_utf8(a.1), encode_utf8(b.1), encode_utf8(c.1));
    lemma_lex_antisymmetric(a0, b0);
    lemma_lex_antisymmetric(b0, c0);
    lemma_lex_antisymmetric(a0, c0);
    lemma_lex_antisymmetric(a1, b1);
    lemma_lex_antisymmetric(b1, c1);
    if port_order(a, b) <= 0 && port_order(b, c) <= 0 {
        lemma_lex_transitive(a0, b0, c0);
        if lex(a0, c0) == 0 {
            lemma_lex_transitive(a1, b1, c1);
        }
    }
}

fn port_order_exec(a: &(String, String), b: &(String, String)) -> (r: i8)
    ensures
        r == port_order((a.0@, a.1@), (b.0@, b.1@)),
{
    let by_name: i8 = lex_order(a.0.as_str().as_bytes(), b.0.as_str().as_bytes());
    if by_name != 0 {
        by_name
    } else {
        lex_order(a.1.as_str().as_bytes(), b.1.as_str().as_bytes())
    }
}

/// Whether ports are in order.
pub open spec fn ports_sorted(ports: Seq<(Seq<char>, Seq<char>)>) -> bool {
    forall|i: int, j: int|
        0 <= i < j < ports.len() ==> port_order(#[trigger] ports[i], #[trigger] ports[j]) <= 0
}

fn insert_port(ports: &mut Vec<(String, String)>, p: (String, String))
    requires
        ports_sorted(port_texts(old(ports)@)),
    ensures
        ports_sorted(port_texts(final(ports)@)),
        port_texts(final(ports)@).to_multiset() == port_texts(old(ports)@).to_multiset().insert(
            (p.0@, p.1@),
        ),
{
    let ghost before = port_texts(ports@);
    let ghost q = (p.0@, p.1@);
    let mut i: usize = 0;
    while i < ports.len() && port_order_exec(&ports[i], &p) <= 0
        invariant
            i <= ports@.len(),
            before == port_texts(ports@),
            q == (p.0@, p.1@),
            forall|j: int| 0 <= j < i ==> port_order(#[trigger] before[j], q) <= 0,
        decreases ports.len() - i,
    {
        i += 1;
    }
    proof {
        assert forall|j: int| i <= j < before.len() implies port_order(
            q,
            #[trigger] before[j],
        ) <= 0 by {
            lemma_port_order(before[i as int], q, before[j]);
            if i < j {
                lemma_port_order(q, before[i as int], before[j]);
            }
        }
    }
    ports.insert(i, p);
    proof {
        assert(port_texts(ports@) =~= before.insert(i as int, q));
        to_multiset_insert(before, i as int, q);
    }
}

/// The ports to offer, in order, each with its label.
pub fn list_ports(found: Vec<(String, PortKind)>) -> (r: Vec<(String, String)>)
    ensures
        ports_sorted(port_texts(r@)),
        port_texts(r@).to_multiset() == labelled(found@).to_multiset(),
{
    let mut r: Vec<(String, String)> = Vec::new();
    let mut i: usize = 0;
    proof {
        assert(labelled(found@).take(0) =~= port_texts(r@));
    }
    while i < found.len()
        invariant
            i <= found@.len(),
            ports_sorted(port_texts(r@)),
            port_texts(r@).to_multiset() == labelled(found@).take(i as int).to_multiset(),
        decreases found.len() - i,
    {
        let p = (found[i].0.clone(), port_label(&found[i].1));
        proof {
            let done = labelled(found@).take(i as int);
            let next = labelled(found@)[i as int];
            assert(labelled(found@).take(i + 1) =~= done.push(next));
            done.to_multiset_ensures();
        }
        insert_port(&mut r, p);
        i += 1;
    }
    assert(labelled(found@).take(i as int) =~= labelled(found@));
    r
}

/// The found ports with their labels.
pub open spec fn labelled(found: Seq<(String, PortKind)>) -> Seq<(Seq<char>, Seq<char>)> {
    Seq::new(found.len(), |i: int| (found[i].0@, label_text(found[i].1)))
}

/// The order of the ports does not depend on the order in which they were
/// found.
pub proof fn law_port_list_is_determined(
    a: Seq<(Seq<char>, Seq<char>)>,
    b: Seq<(Seq<char>, Seq<char>)>,
)
    requires
        ports_sorted(a),
        ports_sorted(b),
        a.to_multiset() == b.to_multiset(),
    ensures
        a == b,
    decreases a.len(),
{
    a.to_multiset_ensures();
    b.to_multiset_ensures();
    if a.len() > 0 {
        let x = a.last();
        let y = b.last();
        assert(a.contains(x));
        assert(b.to_multiset().count(x) > 0);
        assert(b.contains(x));
        assert(b.contains(y));
        assert(a.to_multiset().count(y) > 0);
        assert(a.contains(y));
        let i = b.index_of(x);
        let j = a.index_of(y);
        lemma_port_order(x, y, x);
        lemma_port_order(x, x, x);
        lemma_port_order(y, y, y);
        assert(port_order(x, y) <= 0) by {
            if i < b.len() - 1 {
                assert(port_order(b[i], b[b.len() - 1]) <= 0);
            }
        }
        assert(port_order(y, x) <= 0) by {
            if j < a.len() - 1 {
                assert(port_order(a[j], a[a.len() - 1]) <= 0);
            }
        }
        lemma_equal_ports(x, y);
        assert(a.drop_last() =~= a.remove(a.len() - 1));
        assert(b.drop_last() =~= b.remove(b.len() - 1));
        assert(a.drop_last().to_multiset() == b.drop_last().to_multiset());
        law_port_list_is_determined(a.drop_last(), b.drop_last());
        assert(a =~= a.drop_last().push(x));
        assert(b =~= b.drop_last().push(y));
    } else {
        assert(a =~= b);
    }
}

proof fn lemma_equal_ports(x: (Seq<char>, Seq<char>), y: (Seq<char>, Seq<char>))
    requires
        port_order(x, y) == 0,
    ensures
        x == y,
{
    lemma_lex_antisymmetric(encode_utf8(x.0), encode_utf8(y.0));
    lemma_lex_antisymmetric(encode_utf8(x.1), encode_utf8(y.1));
    encode_utf8_decode_utf8(x.0);
    encode_utf8_decode_utf8(y.0);
    encode_utf8_decode_utf8(x.1);
    encode_utf8_decode_utf8(y.1);
}

} // verus!
