//! The two loops of the NTRIP worker, turned inside out.
//!
//! The shell dials, shakes hands, reads and sleeps; after each of these it
//! tells [`Supervisor::supervise`] or [`Link::drive_connection`] what came of
//! it, and is told what to do next.
use vstd::prelude::*;

use crate::bus::{Outbox, Post, StatusView};
use crate::text::dec;
use crate::workers::dial::{after_read, read_posts, told, ReadOutcome, SessionCall};
use crate::workers::machine::{
    clean_stop, end_summary, end_transient, first_end, handshake_text, Chunk, ConnState, Next,
    Output, Run, SessionEnd, WaitStep, CANCEL_SUMMARY,
};
use crate::workers::ntrip::{opt_text, NtripJob, ReconnectPolicy, RECONNECT_DELAY_MS};
use crate::workers::tls::{TlsFail, TlsInfo};
use crate::workers::{CorrQueue, PushOutcome};

verus! {

/// The reconnect delay in nanoseconds.
pub const RECONNECT_DELAY: u64 = RECONNECT_DELAY_MS * 1_000_000;

// ---------------------------------------------------------------------
// The run
// ---------------------------------------------------------------------

/// What came of the connect phase.
#[derive(Debug)]
pub enum Dialed {
    Connected,
    /// Cancelled while it was still in flight.
    Cancelled,
    Failed(String),
}

/// What the supervisor is told.
#[derive(Debug)]
pub enum Happened {
    /// The run begins.
    Start,
    Dialed(Dialed),
    /// A connection ended.
    Ended(SessionEnd),
    /// A slice of the reconnect delay went by.
    Slept,
}

/// What the supervisor wants done.
#[derive(Debug)]
pub enum Act {
    Dial,
    /// Drive the connection that was just made.
    Drive,
    /// Sleep for a slice of the reconnect delay.
    Sleep,
    Stop { summary: String, failed: bool },
}

/// A run with its reconnect delay.
#[derive(Debug)]
pub struct Supervisor {
    pub run: Run,
    /// While the reconnect delay lasts, the clock reading at which it ends.
    pub wait_until: Option<u64>,
}

/// Whether `r` stops the run as cancelled.
pub open spec fn stops_cancelled(r: Act) -> bool {
    r is Stop && r->summary@ == CANCEL_SUMMARY@ && !r->failed
}

impl Supervisor {
    /// A run never makes more attempts in a row than its budget, or one where
    /// the budget is none; and only waits while an attempt is left.
    pub open spec fn wf(self) -> bool {
        &&& self.run.attempts_done <= 1 || self.run.attempts_done <= self.run.job.max_attempts
        &&& self.wait_until is Some ==> self.run.attempts_done < self.run.job.max_attempts
    }

    /// Whether the event can come now.
    pub open spec fn expects(self, event: Happened) -> bool {
        match event {
            Happened::Start => self.run.attempts_done == 0,
            Happened::Slept => self.wait_until is Some,
            _ => true,
        }
    }

    pub fn new(job: NtripJob) -> (r: Supervisor)
        ensures
            r == (Supervisor { run: Run::fresh(job), wait_until: None }),
            r.wf(),
    {
        Supervisor { run: Run::new(job), wait_until: None }
    }

    /// What starting an attempt comes to: `p` and `q` are the posts before and
    /// after.
    pub open spec fn starts_attempt(
        self,
        cancelled: bool,
        p: Seq<Post>,
        after: Supervisor,
        q: Seq<Post>,
        r: Act,
    ) -> bool {
        if cancelled {
            after.run == self.run && q == p && stops_cancelled(r)
        } else {
            let n = (self.run.attempts_done + 1) as u32;
            &&& r is Dial
            &&& after.run == (Run { attempts_done: n, ..self.run })
            &&& q == p.push(Post::Ntrip(StatusView::Connecting { attempt: n })).push(
                Post::Event(
                    "Connecting to "@ + self.run.job.host@ + ":"@ + dec(self.run.job.port as nat)
                        + " (attempt "@ + dec(n as nat) + ")"@,
                ),
            )
        }
    }

    /// What the end of a connection comes to: `p` and `q` are the posts before
    /// and after.
    pub open spec fn settles(
        self,
        end: SessionEnd,
        now: u64,
        cancelled: bool,
        p: Seq<Post>,
        after: Supervisor,
        q: Seq<Post>,
        r: Act,
    ) -> bool {
        &&& q == self.run.end_posts(end, cancelled, p)
        &&& match clean_stop(end, cancelled) {
            Some(text) => after.run == self.run && after.wait_until is None && r is Stop
                && r->summary@ == text && !r->failed,
            None => {
                &&& after.run == (Run {
                    alert_armed: false,
                    drops: self.run.drops_after(),
                    ..self.run
                })
                &&& if self.run.reconnects(end) {
                    r is Sleep && after.wait_until == Some((now + RECONNECT_DELAY) as u64)
                } else {
                    r is Stop && r->summary@ == end_summary(end, self.run.job.mountpoint@)
                        && r->failed && after.wait_until is None
                }
            },
        }
    }

    /// One turn of the run: dial, drive, wait out the delay after a failure
    /// that is worth another attempt, and stop otherwise. A cancel stops it at
    /// the next turn.
    pub fn supervise(
        &mut self,
        event: Happened,
        now: u64,
        cancelled: bool,
        out: &mut Outbox,
    ) -> (r: Act)
        requires
            old(self).wf(),
            old(self).expects(event),
            old(self).run.drops < u32::MAX,
            now <= u64::MAX - RECONNECT_DELAY,
        ensures
            final(self).wf(),
            final(self).run.job == old(self).run.job,
            match event {
                Happened::Start => final(self).wait_until is None && old(self).starts_attempt(
                    cancelled,
                    old(out)@,
                    *final(self),
                    final(out)@,
                    r,
                ),
                Happened::Dialed(Dialed::Connected) => r is Drive && *final(self) == *old(self)
                    && final(out)@ == old(out)@,
                Happened::Dialed(Dialed::Cancelled) => stops_cancelled(r) && *final(self) == *old(self) && final(out)@ == old(out)@,
                Happened::Dialed(Dialed::Failed(e)) => exists|end: SessionEnd|
                    {
                        &&& end is Failed && end->Failed_0@ == "Connect failed: "@ + e@
                        &&& #[trigger] old(self).settles(
                            end,
                            now,
                            cancelled,
                            old(out)@,
                            *final(self),
                            final(out)@,
                            r,
                        )
                    },
                Happened::Ended(end) => old(self).settles(
                    end,
                    now,
                    cancelled,
                    old(out)@,
                    *final(self),
                    final(out)@,
                    r,
                ),
                Happened::Slept => if now >= old(self).wait_until->0 {
                    final(self).wait_until is None && old(self).starts_attempt(
                        cancelled,
                        old(out)@,
                        *final(self),
                        final(out)@,
                        r,
                    )
                } else if cancelled {
                    stops_cancelled(r) && *final(self) == *old(self) && final(out)@ == old(out)@
                } else {
                    r is Sleep && *final(self) == *old(self) && final(out)@ == old(out)@
                },
            },
    {
        match event {
            Happened::Start => self.next_attempt(cancelled, out),
            Happened::Dialed(Dialed::Connected) => Act::Drive,
            Happened::Dialed(Dialed::Cancelled) => Act::Stop {
                summary: CANCEL_SUMMARY.to_owned(),
                failed: false,
            },
            Happened::Dialed(Dialed::Failed(e)) => {
                let end = Run::failed("Connect failed", e.as_str());
                let ghost g = end;
                assert(g->Failed_0@ =~= "Connect failed: "@ + e@) by {
                    reveal_strlit("Connect failed");
                    reveal_strlit(": ");
                    reveal_strlit("Connect failed: ");
                }
                let ghost before = *self;
                let ghost p = out@;
                let r = self.settle(end, now, cancelled, out);
                assert(before.settles(g, now, cancelled, p, *self, out@, r));
                r
            },
            Happened::Ended(end) => self.settle(end, now, cancelled, out),
            Happened::Slept => {
                let deadline: u64 = match self.wait_until {
                    Some(t) => t,
                    None => now,
                };
                match Run::wait_step(now, deadline, cancelled) {
                    WaitStep::Cancelled => Act::Stop {
                        summary: CANCEL_SUMMARY.to_owned(),
                        failed: false,
                    },
                    WaitStep::Sleep => Act::Sleep,
                    WaitStep::Done => self.next_attempt(cancelled, out),
                }
            },
        }
    }

    fn next_attempt(&mut self, cancelled: bool, out: &mut Outbox) -> (r: Act)
        requires
            old(self).wf(),
            old(self).run.attempts_done == 0 || old(self).wait_until is Some,
        ensures
            final(self).wf(),
            final(self).run.job == old(self).run.job,
            final(self).wait_until is None,
            old(self).starts_attempt(cancelled, old(out)@, *final(self), final(out)@, r),
    {
        self.wait_until = None;
        match self.run.begin_attempt(cancelled, out) {
            Some((summary, failed)) => Act::Stop { summary, failed },
            None => Act::Dial,
        }
    }

    fn settle(&mut self, end: SessionEnd, now: u64, cancelled: bool, out: &mut Outbox) -> (r: Act)
        requires
            old(self).wf(),
            old(self).run.drops < u32::MAX,
            now <= u64::MAX - RECONNECT_DELAY,
        ensures
            final(self).wf(),
            final(self).run.job == old(self).run.job,
            old(self).settles(end, now, cancelled, old(out)@, *final(self), final(out)@, r),
    {
        self.wait_until = None;
        match self.run.after_session(end, cancelled, out) {
            Next::Stop { summary, failed } => Act::Stop { summary, failed },
            Next::Reconnect { .. } => {
                self.wait_until = Some(now + RECONNECT_DELAY);
                Act::Sleep
            },
        }
    }
}

// ---------------------------------------------------------------------
// One connection
// ---------------------------------------------------------------------

/// What the driver of a connection is told.
#[derive(Debug)]
pub enum LinkEvent {
    /// The fresh socket got its read timeout, or refused it.
    TimeoutSet(Result<(), String>),
    Handshaken(Result<TlsInfo, TlsFail>),
    /// The request was written; an empty one counts as written.
    RequestSent(Result<(), String>),
    /// Every queued report was dispatched; the deframer's counters.
    Drained { crc_failures: u64, garbage_bytes: u64 },
    Read(ReadOutcome),
}

/// What the driver of a connection wants done.
#[derive(Debug)]
pub enum LinkAct {
    Handshake,
    SendRequest,
    /// Dispatch the session's queued reports.
    Dispatch,
    /// Cancel the session, then dispatch its reports.
    CancelSession,
    Read,
    /// Tell the session what the read brought, let it look at the clock, then
    /// dispatch its reports.
    Tell(SessionCall),
    End(SessionEnd),
}

/// The connection being driven.
#[derive(Debug)]
pub struct Link {
    /// State of the connection, once its request is out.
    pub conn: ConnState,
    /// How it ended, once its session has said so.
    pub end: Option<SessionEnd>,
}

/// Whether `r` ends the connection as a transport failure of these words.
pub open spec fn fails(r: LinkAct, what: Seq<char>, cause: Seq<char>) -> bool {
    r is End && r->End_0 is Failed && r->End_0->Failed_0@ == what + ": "@ + cause
}

/// The run once the notes before a request are logged.
pub open spec fn noted(run: Run) -> Run {
    Run {
        gga_assumption_logged: run.gga_assumption_logged || run.owes_assumption(),
        gga_off_warning_logged: run.gga_off_warning_logged || run.owes_off_warning(),
        mount_encoding_logged: run.mount_encoding_logged || run.owes_encoding_note(),
        ..run
    }
}

/// What is posted when the request is out, after `p`.
pub open spec fn connected_posts(run: Run, p: Seq<Post>) -> Seq<Post> {
    let q = p.push(Post::Event("Connected. Waiting for data..."@)).push(
        Post::Ntrip(StatusView::WaitingForData),
    );
    match run.job.capture {
        Some(target) => q.push(
            Post::CaptureBegin { target: target@, mount: run.job.mountpoint@ },
        ),
        None => q,
    }
}

/// The run after a report of the session; `push` is what the queue makes of
/// corrections.
pub open spec fn reported_run(
    run: Run,
    c: ConnState,
    output: Output,
    now: u64,
    push: PushOutcome,
) -> Run {
    match output {
        Output::Corrections(chunk) => run.corrections_run(c, now, push, chunk),
        _ => run,
    }
}

/// The connection after a report of the session.
pub open spec fn reported_conn(
    run: Run,
    c: ConnState,
    output: Output,
    now: u64,
    receiver: Option<Seq<char>>,
) -> ConnState {
    match output {
        Output::Corrections(_) => ConnState { streaming: true, ..c },
        Output::GgaDue { fabricated } => run.due_conn(c, now, fabricated@, receiver),
        _ => c,
    }
}

/// What a report of the session posts, after `p`.
pub open spec fn reported_posts(
    run: Run,
    c: ConnState,
    output: Output,
    now: u64,
    receiver: Option<Seq<char>>,
    push: PushOutcome,
    p: Seq<Post>,
) -> Seq<Post> {
    match output {
        Output::ProtocolTx(line) => p.push(Post::Event("> "@ + line@)).push(
            Post::Conn("> "@ + line@),
        ),
        Output::ProtocolRx(line) => p.push(Post::Event("< "@ + line@)).push(
            Post::Conn("< "@ + line@),
        ),
        Output::GgaDue { fabricated } => run.due_posts(c, now, fabricated@, receiver, p),
        Output::Corrections(chunk) => run.corrections_posts(
            c,
            now,
            receiver is Some,
            push,
            chunk,
            p,
        ),
        Output::Sourcetable(raw) => p.push(Post::Sourcetable(raw@, "Downloaded sourcetable"@)),
        Output::Close(reason) => run.close_posts(c, now, reason, p),
    }
}

impl Link {
    /// Whether the framing counters can take those of this connection.
    pub open spec fn has_room(self, run: Run, event: LinkEvent) -> bool {
        event matches LinkEvent::Drained { crc_failures, garbage_bytes } ==> {
            &&& run.crc_base + crc_failures <= u64::MAX
            &&& run.garbage_base + garbage_bytes <= u64::MAX
        }
    }

    /// A socket that is not a connection yet.
    pub fn new() -> (r: Link)
        ensures
            r.end is None,
            r.conn == (ConnState {
                streaming: false,
                connected_at: 0,
                bytes_at_connect: 0,
                gga_sent: 0,
                last_miss_note: None,
            }),
    {
        Link {
            conn: ConnState {
                streaming: false,
                connected_at: 0,
                bytes_at_connect: 0,
                gga_sent: 0,
                last_miss_note: None,
            },
            end: None,
        }
    }

    /// One turn of a connection: shake hands where the job asks for TLS, send
    /// the request, then read and dispatch until the session has ended. The
    /// capture opens once the request is out, and closes with the connection.
    pub fn drive_connection(
        &mut self,
        run: &mut Run,
        event: LinkEvent,
        now: u64,
        cancelled: bool,
        out: &mut Outbox,
    ) -> (r: LinkAct)
        requires
            old(self).has_room(*old(run), event),
        ensures
            match event {
                LinkEvent::TimeoutSet(Err(e)) => fails(r, "set_read_timeout"@, e@) && *final(self)
                    == *old(self) && *final(run) == *old(run) && final(out)@ == old(out)@,
                LinkEvent::TimeoutSet(Ok(())) => {
                    &&& *final(self) == *old(self)
                    &&& if old(run).job.tls {
                        r is Handshake && *final(run) == *old(run) && final(out)@ == old(out)@
                    } else {
                        r is SendRequest && *final(run) == noted(*old(run)) && final(out)@ == old(run).notice_posts(old(out)@)
                    }
                },
                LinkEvent::Handshaken(Ok(info)) => {
                    let line = handshake_text(
                        info.protocol@,
                        info.cipher@,
                        old(run).job.allow_invalid_certs,
                    );
                    &&& r is SendRequest
                    &&& *final(self) == *old(self)
                    &&& *final(run) == noted(*old(run))
                    &&& final(out)@ == old(run).notice_posts(
                        old(out)@.push(Post::Event(line)).push(Post::Conn(line)),
                    )
                },
                LinkEvent::Handshaken(Err(fail)) => {
                    &&& r is End
                    &&& *final(self) == *old(self)
                    &&& *final(run) == *old(run)
                    &&& match fail {
                        TlsFail::Cancelled => r->End_0 is Closed && r->End_0->Closed_0 is Cancelled
                            && final(out)@ == old(out)@,
                        TlsFail::Tls(msg) => {
                            let line = "TLS handshake failed: "@ + msg@;
                            r->End_0 is FailedPermanent && r->End_0->FailedPermanent_0@ == line
                                && final(out)@ == old(out)@.push(Post::Event(line)).push(
                                Post::Conn(line),
                            )
                        },
                        TlsFail::Io(msg) => {
                            let line = "TLS handshake failed: "@ + msg@;
                            r->End_0 is Failed && r->End_0->Failed_0@ == line && final(out)@ == old(out)@.push(Post::Conn(line))
                        },
                    }
                },
                LinkEvent::RequestSent(Err(e)) => fails(r, "Send request failed"@, e@) && *final(self) == *old(self) && *final(run) == *old(run) && final(out)@ == old(out)@,
                LinkEvent::RequestSent(Ok(())) => {
                    &&& r is Dispatch
                    &&& *final(run) == *old(run)
                    &&& *final(self) == (Link {
                        conn: ConnState {
                            streaming: false,
                            connected_at: now,
                            bytes_at_connect: old(run).total_bytes,
                            gga_sent: 0,
                            last_miss_note: None,
                        },
                        ..*old(self)
                    })
                    &&& final(out)@ == connected_posts(*old(run), old(out)@)
                },
                LinkEvent::Drained { crc_failures, garbage_bytes } => match old(self).end {
                    Some(end) => {
                        &&& r == LinkAct::End(end)
                        &&& *final(self) == (Link { end: None, ..*old(self) })
                        &&& *final(run) == (Run {
                            crc_base: (old(run).crc_base + crc_failures) as u64,
                            garbage_base: (old(run).garbage_base + garbage_bytes) as u64,
                            ..*old(run)
                        })
                        &&& final(out)@ == (if old(run).job.capture is Some {
                            old(out)@.push(Post::CaptureEnd)
                        } else {
                            old(out)@
                        })
                    },
                    None => {
                        &&& r == (if cancelled {
                            LinkAct::CancelSession
                        } else {
                            LinkAct::Read
                        })
                        &&& *final(self) == *old(self) && *final(run) == *old(run)
                        &&& final(out)@ == old(out)@
                    },
                },
                LinkEvent::Read(outcome) => {
                    &&& r == LinkAct::Tell(told(outcome, cancelled))
                    &&& *final(self) == *old(self) && *final(run) == *old(run)
                    &&& final(out)@ == read_posts(outcome, cancelled, old(out)@)
                },
            },
    {
        match event {
            LinkEvent::TimeoutSet(Err(e)) => LinkAct::End(
                Run::failed("set_read_timeout", e.as_str()),
            ),
            LinkEvent::TimeoutSet(Ok(())) => {
                if run.job.tls {
                    LinkAct::Handshake
                } else {
                    run.connection_notices(out);
                    LinkAct::SendRequest
                }
            },
            LinkEvent::Handshaken(Ok(info)) => {
                run.tls_complete(&info, out);
                run.connection_notices(out);
                LinkAct::SendRequest
            },
            LinkEvent::Handshaken(Err(fail)) => LinkAct::End(run.tls_failed(fail, out)),
            LinkEvent::RequestSent(Err(e)) => LinkAct::End(
                Run::failed("Send request failed", e.as_str()),
            ),
            LinkEvent::RequestSent(Ok(())) => {
                self.conn = run.connected(now, out);
                LinkAct::Dispatch
            },
            LinkEvent::Drained { crc_failures, garbage_bytes } => match self.end.take() {
                Some(end) => {
                    run.disconnected(crc_failures, garbage_bytes, out);
                    LinkAct::End(end)
                },
                None => if cancelled {
                    LinkAct::CancelSession
                } else {
                    LinkAct::Read
                },
            },
            LinkEvent::Read(outcome) => LinkAct::Tell(after_read(outcome, cancelled, out)),
        }
    }

    /// Dispatch one report of the session. The first end it reports is the
    /// connection's.
    pub fn dispatch(
        &mut self,
        run: &mut Run,
        output: Output,
        now: u64,
        receiver: &Option<String>,
        corr: &mut CorrQueue,
        out: &mut Outbox,
    )
        requires
            output matches Output::Corrections(chunk) ==> old(run).has_room(chunk),
            old(corr)@.wf(),
        ensures
            final(corr)@.wf(),
            final(corr)@ == (match output {
                Output::Corrections(chunk) => old(corr)@.pushed(chunk.bytes@),
                _ => old(corr)@,
            }),
            *final(run) == reported_run(
                *old(run),
                old(self).conn,
                output,
                now,
                old(corr)@.push_outcome(),
            ),
            final(self).conn == reported_conn(
                *old(run),
                old(self).conn,
                output,
                now,
                opt_text(*receiver),
            ),
            final(out)@ == reported_posts(
                *old(run),
                old(self).conn,
                output,
                now,
                opt_text(*receiver),
                old(corr)@.push_outcome(),
                old(out)@,
            ),
            final(self).end == (if old(self).end is Some {
                old(self).end
            } else {
                match output {
                    Output::Sourcetable(_) => Some(SessionEnd::TableDone),
                    Output::Close(reason) => Some(SessionEnd::Closed(reason)),
                    _ => None,
                }
            }),
    {
        let reported = run.dispatch(&mut self.conn, output, now, receiver, corr, out);
        let so_far = self.end.take();
        self.end = first_end(so_far, reported);
    }
}

// ---------------------------------------------------------------------
// Laws
// ---------------------------------------------------------------------

/// A cancelled run stops when its connection ends, whatever the end was, and
/// is never reported as failed.
pub proof fn law_cancel_stops_every_end(
    s: Supervisor,
    end: SessionEnd,
    now: u64,
    p: Seq<Post>,
    after: Supervisor,
    q: Seq<Post>,
    r: Act,
)
    requires
        s.settles(end, now, true, p, after, q, r),
    ensures
        r is Stop && !r->failed,
        r->summary@ == CANCEL_SUMMARY@ || end is TableDone,
{
}

/// A run that waits has failed in a way that another attempt can mend, was
/// asked to reconnect, and has an attempt left; it announces that attempt.
pub proof fn law_waiting_is_earned(
    s: Supervisor,
    end: SessionEnd,
    now: u64,
    p: Seq<Post>,
    after: Supervisor,
    q: Seq<Post>,
    r: Act,
)
    requires
        s.settles(end, now, false, p, after, q, r),
        r is Sleep,
    ensures
        end_transient(end),
        s.run.job.reconnect == ReconnectPolicy::Auto,
        s.run.attempts_done < s.run.job.max_attempts,
        q.last() == Post::Ntrip(
            StatusView::ReconnectWait { next_attempt: (s.run.attempts_done + 1) as u32 },
        ),
{
}

/// One report of the session, with what else its dispatch depends on: the
/// clock, the receiver's last sentence and what the queue made of the bytes.
pub struct Reported {
    pub output: Output,
    pub now: u64,
    pub receiver: Option<Seq<char>>,
    pub push: PushOutcome,
}

/// The run, the connection and the posts after the reports, in order, from
/// `run`, `c` and `p`.
pub open spec fn after_reports(run: Run, c: ConnState, reports: Seq<Reported>, p: Seq<Post>) -> (
    Run,
    ConnState,
    Seq<Post>,
)
    decreases reports.len(),
{
    if reports.len() == 0 {
        (run, c, p)
    } else {
        let (r, d, q) = after_reports(run, c, reports.drop_last(), p);
        let last = reports.last();
        (
            reported_run(r, d, last.output, last.now, last.push),
            reported_conn(r, d, last.output, last.now, last.receiver),
            reported_posts(r, d, last.output, last.now, last.receiver, last.push, q),
        )
    }
}

/// The capture commands among posts.
pub open spec fn captures(p: Seq<Post>) -> Seq<Post>
    decreases p.len(),
{
    if p.len() == 0 {
        Seq::empty()
    } else {
        let rest = captures(p.drop_last());
        match p.last() {
            Post::CaptureBegin { .. } => rest.push(p.last()),
            Post::CaptureData(_) => rest.push(p.last()),
            Post::CaptureEnd => rest.push(p.last()),
            _ => rest,
        }
    }
}

/// The blocks of corrections among reports, as capture commands.
pub open spec fn captured_blocks(reports: Seq<Reported>) -> Seq<Post>
    decreases reports.len(),
{
    if reports.len() == 0 {
        Seq::empty()
    } else {
        let rest = captured_blocks(reports.drop_last());
        match reports.last().output {
            Output::Corrections(chunk) => rest.push(Post::CaptureData(chunk.bytes@)),
            _ => rest,
        }
    }
}

proof fn lemma_captures_push(p: Seq<Post>, x: Post)
    ensures
        captures(p.push(x)) == (match x {
            Post::CaptureBegin { .. } => captures(p).push(x),
            Post::CaptureData(_) => captures(p).push(x),
            Post::CaptureEnd => captures(p).push(x),
            _ => captures(p),
        }),
{
    assert(p.push(x).drop_last() =~= p);
}

proof fn lemma_report_captures(
    run: Run,
    c: ConnState,
    output: Output,
    now: u64,
    receiver: Option<Seq<char>>,
    push: PushOutcome,
    p: Seq<Post>,
)
    requires
        run.job.capture is Some,
    ensures
        captures(reported_posts(run, c, output, now, receiver, push, p)) == (match output {
            Output::Corrections(chunk) => captures(p).push(Post::CaptureData(chunk.bytes@)),
            _ => captures(p),
        }),
{
    assert forall|q: Seq<Post>, x: Post| #[trigger] captures(q.push(x)) == (match x {
        Post::CaptureBegin { .. } => captures(q).push(x),
        Post::CaptureData(_) => captures(q).push(x),
        Post::CaptureEnd => captures(q).push(x),
        _ => captures(q),
    }) by {
        lemma_captures_push(q, x);
    }
}

proof fn lemma_reports_capture(run: Run, c: ConnState, reports: Seq<Reported>, p: Seq<Post>)
    requires
        run.job.capture is Some,
    ensures
        after_reports(run, c, reports, p).0.job == run.job,
        captures(after_reports(run, c, reports, p).2) == captures(p) + captured_blocks(reports),
    decreases reports.len(),
{
    if reports.len() == 0 {
        assert(captures(p) + captured_blocks(reports) =~= captures(p));
    } else {
        let head = reports.drop_last();
        lemma_reports_capture(run, c, head, p);
        let (r, d, q) = after_reports(run, c, head, p);
        let last = reports.last();
        lemma_report_captures(r, d, last.output, last.now, last.receiver, last.push, q);
        assert(captures(after_reports(run, c, reports, p).2) =~= captures(p) + captured_blocks(
            reports,
        ));
    }
}

/// The capture commands of one connection: it is armed with the job's target
/// and mountpoint once the request is out, gets every block of corrections
/// exactly as received and in order, and is closed at the end.
pub proof fn law_capture_gets_every_block(
    run: Run,
    c: ConnState,
    reports: Seq<Reported>,
    p: Seq<Post>,
)
    requires
        run.job.capture is Some,
    ensures
        captures(
            after_reports(run, c, reports, connected_posts(run, p)).2.push(Post::CaptureEnd),
        ) == captures(p) + seq![
            Post::CaptureBegin { target: run.job.capture->0@, mount: run.job.mountpoint@ },
        ] + captured_blocks(reports) + seq![Post::CaptureEnd],
{
    let begin = Post::CaptureBegin { target: run.job.capture->0@, mount: run.job.mountpoint@ };
    let p1 = p.push(Post::Event("Connected. Waiting for data..."@));
    let p2 = p1.push(Post::Ntrip(StatusView::WaitingForData));
    lemma_captures_push(p, Post::Event("Connected. Waiting for data..."@));
    lemma_captures_push(p1, Post::Ntrip(StatusView::WaitingForData));
    lemma_captures_push(p2, begin);
    assert(connected_posts(run, p) == p2.push(begin));
    lemma_reports_capture(run, c, reports, connected_posts(run, p));
    let q = after_reports(run, c, reports, connected_posts(run, p)).2;
    lemma_captures_push(q, Post::CaptureEnd);
    assert(captures(q.push(Post::CaptureEnd)) =~= captures(p) + seq![begin] + captured_blocks(
        reports,
    ) + seq![Post::CaptureEnd]);
}

/// Corrections never break the attempt budget: a healthy stream only gives
/// attempts back.
pub proof fn law_corrections_keep_the_budget(
    s: Supervisor,
    c: ConnState,
    now: u64,
    push: PushOutcome,
    chunk: Chunk,
)
    requires
        s.wf(),
        s.wait_until is None,
    ensures
        (Supervisor { run: s.run.corrections_run(c, now, push, chunk), ..s }).wf(),
{
}

} // verus!
