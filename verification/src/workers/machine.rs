//! The NTRIP worker as a state machine.
//!
//! The shell owns the socket, the protocol session and the clock. Everything
//! the worker decides is decided here: the shell reports what happened, and
//! gets back the next state and the effects to carry out.
use vstd::prelude::*;

use crate::bus::{Effect, NtripStatus, Outbox, Post, RtcmBatch, StatusView};
use crate::session::{CloseReason, Transport};
use crate::span::{Span, NANOS_PER_SEC};
use crate::text::{dec, escape, push_dec, push_escaped, trim_back, trimmed_end};
use crate::vocab::{GgaMode, GgaSource};
use crate::workers::ntrip::{
    close_event_line, close_line_text, close_summary, duration_text, fmt_duration, gga_hint,
    gga_plan, hint_texts, is_transient, manual_position_set, milestone_text,
    mountpoint_needs_encoding, no_reconnect_line, no_reconnect_text, notice_text, plan_text,
    position_set, reconnect_notice, summary_text, traffic_milestone, transient, NtripJob,
    ReconnectPolicy,
};
use crate::workers::tls::{TlsFail, TlsInfo};
use crate::workers::{CorrQueue, PushOutcome};

verus! {

/// The summary of every cancelled run.
pub const CANCEL_SUMMARY: &'static str = "Disconnected by user";

/// How one connection ended.
#[derive(Debug)]
pub enum SessionEnd {
    /// Sourcetable delivered on a table request.
    TableDone,
    Closed(CloseReason),
    /// Transport failure outside the session, worth a reconnect.
    Failed(String),
    /// Failure that would repeat forever; already logged where it happened.
    FailedPermanent(String),
}

/// State of one worker run. Byte totals and framing counters span reconnects:
/// they describe the whole outage-riding session the user started.
#[derive(Debug)]
pub struct Run {
    pub job: NtripJob,
    /// Consecutive attempts without a healthy stream.
    pub attempts_done: u32,
    /// Healthy streams that dropped, over the run.
    pub drops: u32,
    /// Set by the first correction bytes of a connection.
    pub alert_armed: bool,
    pub total_bytes: u64,
    /// Framing counters of earlier connections of this run.
    pub crc_base: u64,
    pub garbage_base: u64,
    /// Framing counters as last posted.
    pub last_health_posted: (u64, u64),
    /// Clock reading of the last overrun event line.
    pub last_overrun_event: Option<u64>,
    pub gga_assumption_logged: bool,
    pub gga_off_warning_logged: bool,
    pub mount_encoding_logged: bool,
}

/// State of one connection.
#[derive(Debug, Clone, Copy)]
pub struct ConnState {
    /// First correction bytes seen on this connection.
    pub streaming: bool,
    /// Clock reading at which the connection came up.
    pub connected_at: u64,
    /// The run's byte total at that moment.
    pub bytes_at_connect: u64,
    /// Position sentences written on this connection.
    pub gga_sent: u32,
    /// Clock reading of the last note about an unsendable position.
    pub last_miss_note: Option<u64>,
}

/// What to do after a connection ended.
#[derive(Debug)]
pub enum Next {
    Stop { summary: String, failed: bool },
    /// Wait out the reconnect delay, then connect again.
    Reconnect { next_attempt: u32 },
}

/// What to do during the reconnect delay.
#[derive(Debug, Clone, Copy, PartialEq, Eq, Structural)]
pub enum WaitStep {
    Cancelled,
    Sleep,
    Done,
}

/// One received chunk of corrections, with what the deframer made of it.
#[derive(Debug)]
pub struct Chunk {
    pub bytes: Vec<u8>,
    /// Completed frames: message type and payload length.
    pub frames: Vec<(u16, u16)>,
    /// The deframer's counters after this chunk.
    pub crc_failures: u64,
    pub garbage_bytes: u64,
}

/// One report from the protocol session.
#[derive(Debug)]
pub enum Output {
    ProtocolTx(String),
    ProtocolRx(String),
    /// A position is due. Carries the sentence fabricated from the manual
    /// position.
    GgaDue { fabricated: String },
    Corrections(Chunk),
    Sourcetable(Vec<u8>),
    Close(CloseReason),
}

// ---------------------------------------------------------------------
// Supervisor
// ---------------------------------------------------------------------

/// The summary of an end that is neither clean nor a cancel.
pub open spec fn end_summary(end: SessionEnd, mountpoint: Seq<char>) -> Seq<char> {
    match end {
        SessionEnd::Closed(reason) => summary_text(reason, mountpoint),
        SessionEnd::Failed(msg) => msg@,
        SessionEnd::FailedPermanent(msg) => msg@,
        SessionEnd::TableDone => "Sourcetable downloaded"@,
    }
}

/// Whether an end is one that a reconnect can ride out.
pub open spec fn end_transient(end: SessionEnd) -> bool {
    match end {
        SessionEnd::Closed(reason) => is_transient(reason),
        SessionEnd::Failed(_) => true,
        _ => false,
    }
}

/// What stops a run at once: a delivered table or a cancel.
pub open spec fn clean_stop(end: SessionEnd, cancelled: bool) -> Option<Seq<char>> {
    match end {
        SessionEnd::TableDone => Some("Sourcetable downloaded"@),
        SessionEnd::Closed(CloseReason::Cancelled) => Some(CANCEL_SUMMARY@),
        _ => if cancelled {
            Some(CANCEL_SUMMARY@)
        } else {
            None
        },
    }
}

impl Run {
    /// The state before the first attempt.
    pub open spec fn fresh(job: NtripJob) -> Run {
        Run {
            job,
            attempts_done: 0,
            drops: 0,
            alert_armed: false,
            total_bytes: 0,
            crc_base: 0,
            garbage_base: 0,
            last_health_posted: (0, 0),
            last_overrun_event: None,
            gga_assumption_logged: false,
            gga_off_warning_logged: false,
            mount_encoding_logged: false,
        }
    }

    pub fn new(job: NtripJob) -> (r: Run)
        ensures
            r == Run::fresh(job),
    {
        Run {
            job,
            attempts_done: 0,
            drops: 0,
            alert_armed: false,
            total_bytes: 0,
            crc_base: 0,
            garbage_base: 0,
            last_health_posted: (0, 0),
            last_overrun_event: None,
            gga_assumption_logged: false,
            gga_off_warning_logged: false,
            mount_encoding_logged: false,
        }
    }

    /// Whether this end leads to another attempt.
    pub open spec fn reconnects(self, end: SessionEnd) -> bool {
        end_transient(end) && self.job.reconnect == ReconnectPolicy::Auto && self.attempts_done
            < self.job.max_attempts
    }

    /// Start an attempt, or stop when cancelled.
    pub fn begin_attempt(&mut self, cancelled: bool, out: &mut Outbox) -> (r: Option<
        (String, bool),
    >)
        requires
            old(self).attempts_done < u32::MAX,
        ensures
            match r {
                Some((summary, failed)) => cancelled && summary@ == CANCEL_SUMMARY@ && !failed
                    && *final(self) == *old(self) && final(out)@ == old(out)@,
                None => {
                    let n = (old(self).attempts_done + 1) as u32;
                    !cancelled && *final(self) == (Run { attempts_done: n, ..*old(self) })
                        && final(out)@ == old(out)@.push(
                        Post::Ntrip(StatusView::Connecting { attempt: n }),
                    ).push(
                        Post::Event(
                            "Connecting to "@ + old(self).job.host@ + ":"@ + dec(
                                old(self).job.port as nat,
                            ) + " (attempt "@ + dec(n as nat) + ")"@,
                        ),
                    )
                },
            },
    {
        if cancelled {
            return Some((CANCEL_SUMMARY.to_owned(), false));
        }
        self.attempts_done = self.attempts_done + 1;
        let attempt: u32 = self.attempts_done;
        out.push(Effect::Ntrip(NtripStatus::Connecting { attempt }));
        let mut line = "Connecting to ".to_owned();
        line.append(self.job.host.as_str());
        line.append(":");
        push_dec(&mut line, self.job.port as u64);
        line.append(" (attempt ");
        push_dec(&mut line, attempt as u64);
        line.append(")");
        out.event(line.as_str());
        None
    }

    /// What is posted when a connection ended, after `p`.
    pub open spec fn end_posts(self, end: SessionEnd, cancelled: bool, p: Seq<Post>) -> Seq<Post> {
        let p1 = match end {
            SessionEnd::Failed(msg) => p.push(Post::Event(msg@)),
            _ => p,
        };
        if clean_stop(end, cancelled) is Some {
            p1
        } else {
            let p2 = if self.alert_armed {
                p1.push(Post::Alert(self.job.audio_alert@))
            } else {
                p1
            };
            if self.reconnects(end) {
                let next = (self.attempts_done + 1) as u32;
                let notice = notice_text(self.drops_after(), next, self.job.max_attempts);
                p2.push(Post::Event(notice)).push(Post::Conn(notice)).push(
                    Post::Ntrip(StatusView::ReconnectWait { next_attempt: next }),
                )
            } else {
                let line = no_reconnect_text(
                    end_transient(end),
                    self.job.reconnect,
                    self.job.wants_table(),
                    self.job.max_attempts,
                );
                p2.push(Post::Event(line)).push(Post::Conn(line))
            }
        }
    }

    /// The drop count once this connection's drop, if it was one, is counted.
    pub open spec fn drops_after(self) -> u32 {
        if self.alert_armed {
            (self.drops + 1) as u32
        } else {
            self.drops
        }
    }

    /// Decide what follows a connection's end. An established stream that
    /// dropped rings the alert once and counts as one drop; failures before
    /// any stream, and the retries themselves, are silent.
    pub fn after_session(&mut self, end: SessionEnd, cancelled: bool, out: &mut Outbox) -> (r: Next)
        requires
            old(self).drops < u32::MAX,
        ensures
            final(out)@ == old(self).end_posts(end, cancelled, old(out)@),
            match clean_stop(end, cancelled) {
                Some(summary) => *final(self) == *old(self),
                None => *final(self) == (Run {
                    alert_armed: false,
                    drops: old(self).drops_after(),
                    ..*old(self)
                }),
            },
            match r {
                Next::Stop { summary, failed } => match clean_stop(end, cancelled) {
                    Some(text) => !failed && summary@ == text,
                    None => failed && !old(self).reconnects(end) && summary@ == end_summary(
                        end,
                        old(self).job.mountpoint@,
                    ),
                },
                Next::Reconnect { next_attempt } => clean_stop(end, cancelled) is None && old(
                    self,
                ).reconnects(end) && next_attempt == old(self).attempts_done + 1,
            },
    {
        let budget_left = self.job.reconnect.enabled() && self.attempts_done
            < self.job.max_attempts;
        let (summary, was_transient): (String, bool) = match end {
            SessionEnd::TableDone => {
                return Next::Stop { summary: "Sourcetable downloaded".to_owned(), failed: false };
            },
            SessionEnd::Closed(CloseReason::Cancelled) => {
                return Next::Stop { summary: CANCEL_SUMMARY.to_owned(), failed: false };
            },
            SessionEnd::Closed(ref reason) => (
                close_summary(reason, self.job.mountpoint.as_str()),
                transient(reason),
            ),
            SessionEnd::Failed(ref msg) => {
                out.event(msg.as_str());
                (msg.clone(), true)
            },
            SessionEnd::FailedPermanent(ref msg) => (msg.clone(), false),
        };
        if cancelled {
            return Next::Stop { summary: CANCEL_SUMMARY.to_owned(), failed: false };
        }
        if self.alert_armed {
            self.alert_armed = false;
            self.drops = self.drops + 1;
            out.push(Effect::Alert(self.job.audio_alert.clone()));
        }
        if !(was_transient && budget_left) {
            let line = no_reconnect_line(
                was_transient,
                self.job.reconnect,
                self.job.is_table_request(),
                self.job.max_attempts,
            );
            out.both(line.as_str());
            return Next::Stop { summary, failed: true };
        }
        let next: u32 = self.attempts_done + 1;
        let notice = reconnect_notice(self.drops, next, self.job.max_attempts);
        out.both(notice.as_str());
        out.push(Effect::Ntrip(NtripStatus::ReconnectWait { next_attempt: next }));
        Next::Reconnect { next_attempt: next }
    }

    /// One slice of the reconnect delay: cancellation cuts it short.
    pub fn wait_step(now: u64, deadline: u64, cancelled: bool) -> (r: WaitStep)
        ensures
            r == (if now >= deadline {
                WaitStep::Done
            } else if cancelled {
                WaitStep::Cancelled
            } else {
                WaitStep::Sleep
            }),
    {
        if now >= deadline {
            WaitStep::Done
        } else if cancelled {
            WaitStep::Cancelled
        } else {
            WaitStep::Sleep
        }
    }
}

// ---------------------------------------------------------------------
// Connection set-up
// ---------------------------------------------------------------------

/// The line that reports a completed handshake.
pub open spec fn handshake_text(protocol: Seq<char>, cipher: Seq<char>, allow_invalid: bool) -> Seq<
    char,
> {
    "TLS handshake complete: "@ + protocol + ", "@ + cipher + ", "@ + (if allow_invalid {
        "certificate NOT verified (diagnostic mode)"@
    } else {
        "certificate verified"@
    })
}

impl Run {
    /// Log a completed handshake to both logs.
    pub fn tls_complete(&self, info: &TlsInfo, out: &mut Outbox)
        ensures
            ({
                let line = handshake_text(
                    info.protocol@,
                    info.cipher@,
                    self.job.allow_invalid_certs,
                );
                final(out)@ == old(out)@.push(Post::Event(line)).push(Post::Conn(line))
            }),
    {
        let mut line = "TLS handshake complete: ".to_owned();
        line.append(info.protocol.as_str());
        line.append(", ");
        line.append(info.cipher.as_str());
        line.append(", ");
        line.append(
            if self.job.allow_invalid_certs {
                "certificate NOT verified (diagnostic mode)"
            } else {
                "certificate verified"
            },
        );
        out.both(line.as_str());
    }

    /// How a failed handshake ends the connection. A rejection by TLS is
    /// logged to both logs and is permanent; transport trouble is logged to
    /// the connection log here and to the event log by the supervisor.
    pub fn tls_failed(&self, fail: TlsFail, out: &mut Outbox) -> (r: SessionEnd)
        ensures
            match fail {
                TlsFail::Cancelled => r is Closed && r->Closed_0 is Cancelled && final(out)@ == old(
                    out,
                )@,
                TlsFail::Tls(msg) => {
                    let line = "TLS handshake failed: "@ + msg@;
                    r is FailedPermanent && r->FailedPermanent_0@ == line && final(out)@ == old(
                        out,
                    )@.push(Post::Event(line)).push(Post::Conn(line))
                },
                TlsFail::Io(msg) => {
                    let line = "TLS handshake failed: "@ + msg@;
                    r is Failed && r->Failed_0@ == line && final(out)@ == old(out)@.push(
                        Post::Conn(line),
                    )
                },
            },
    {
        match fail {
            TlsFail::Cancelled => SessionEnd::Closed(CloseReason::Cancelled),
            TlsFail::Tls(msg) => {
                let mut line = "TLS handshake failed: ".to_owned();
                line.append(msg.as_str());
                out.both(line.as_str());
                SessionEnd::FailedPermanent(line)
            },
            TlsFail::Io(msg) => {
                let mut line = "TLS handshake failed: ".to_owned();
                line.append(msg.as_str());
                out.conn(line.as_str());
                SessionEnd::Failed(line)
            },
        }
    }

    /// A transport failure, worded with its cause.
    pub fn failed(what: &str, cause: &str) -> (r: SessionEnd)
        ensures
            r is Failed && r->Failed_0@ == what@ + ": "@ + cause@,
    {
        let mut msg = what.to_owned();
        msg.append(": ");
        msg.append(cause);
        SessionEnd::Failed(msg)
    }

    /// Whether this job asks a caster for a stream by name.
    pub open spec fn names_a_stream(self) -> bool {
        self.job.transport == Transport::Ntrip && self.job.mountpoint@.len() > 0
    }

    /// Whether the run still owes the note that a position is sent because
    /// the sourcetable could not say.
    pub open spec fn owes_assumption(self) -> bool {
        self.job.gga_mode == GgaMode::WhenRequired && self.job.stream_requires_gga is None
            && self.names_a_stream() && !self.gga_assumption_logged
    }

    /// Whether the run still owes the warning that the stream asks for a
    /// position the profile never sends.
    pub open spec fn owes_off_warning(self) -> bool {
        self.job.gga_mode == GgaMode::Off && self.job.stream_requires_gga == Some(true)
            && self.names_a_stream() && !self.gga_off_warning_logged
    }

    /// Whether the run still owes the note that the mountpoint is rewritten.
    pub open spec fn owes_encoding_note(self) -> bool {
        (exists|i: int|
            0 <= i < vstd::utf8::encode_utf8(self.job.mountpoint@).len()
                && crate::workers::ntrip::needs_encoding(
                #[trigger] vstd::utf8::encode_utf8(self.job.mountpoint@)[i],
            )) && !self.mount_encoding_logged
    }

    /// The notes of one connection attempt, after `p`.
    pub open spec fn notice_posts(self, p: Seq<Post>) -> Seq<Post> {
        let p1 = if self.owes_assumption() {
            p.push(
                Post::Event(
                    "No sourcetable entry for '"@ + self.job.mountpoint@
                        + "'; will send GGA in case it is required"@,
                ),
            )
        } else {
            p
        };
        let p2 = if self.owes_off_warning() {
            p1.push(
                Post::Event(
                    "The sourcetable marks '"@ + self.job.mountpoint@
                        + "' as requiring NMEA GGA, but Send GGA is off"@,
                ),
            ).push(Post::Event("The caster may disconnect this position-silent connection"@))
        } else {
            p1
        };
        if self.owes_encoding_note() {
            p2.push(
                Post::Event(
                    "Mountpoint '"@ + escape(self.job.mountpoint@)
                        + "' contains spaces or control characters; sending it percent-encoded"@,
                ),
            )
        } else {
            p2
        }
    }

    /// Log what the user should know about this job before it connects; each
    /// note at most once per run.
    pub fn connection_notices(&mut self, out: &mut Outbox)
        ensures
            final(out)@ == old(self).notice_posts(old(out)@),
            *final(self) == (Run {
                gga_assumption_logged: old(self).gga_assumption_logged || old(
                    self,
                ).owes_assumption(),
                gga_off_warning_logged: old(self).gga_off_warning_logged || old(
                    self,
                ).owes_off_warning(),
                mount_encoding_logged: old(self).mount_encoding_logged || old(
                    self,
                ).owes_encoding_note(),
                ..*old(self)
            }),
    {
        let names_a_stream = self.job.transport == Transport::Ntrip
            && !self.job.mountpoint.as_str().is_empty();
        if self.job.gga_mode == GgaMode::WhenRequired && self.job.stream_requires_gga.is_none()
            && names_a_stream && !self.gga_assumption_logged {
            self.gga_assumption_logged = true;
            let mut line = "No sourcetable entry for '".to_owned();
            line.append(self.job.mountpoint.as_str());
            line.append("'; will send GGA in case it is required");
            out.event(line.as_str());
        }
        let required = match self.job.stream_requires_gga {
            Some(b) => b,
            None => false,
        };
        if self.job.gga_mode == GgaMode::Off && required && names_a_stream
            && !self.gga_off_warning_logged {
            self.gga_off_warning_logged = true;
            let mut line = "The sourcetable marks '".to_owned();
            line.append(self.job.mountpoint.as_str());
            line.append("' as requiring NMEA GGA, but Send GGA is off");
            out.event(line.as_str());
            out.event("The caster may disconnect this position-silent connection");
        }
        if mountpoint_needs_encoding(self.job.mountpoint.as_str()) && !self.mount_encoding_logged {
            self.mount_encoding_logged = true;
            let mut line = "Mountpoint '".to_owned();
            push_escaped(&mut line, self.job.mountpoint.as_str());
            line.append("' contains spaces or control characters; sending it percent-encoded");
            out.event(line.as_str());
        }
    }

    /// The request went out: announce the wait for data and open the capture.
    pub fn connected(&self, now: u64, out: &mut Outbox) -> (r: ConnState)
        ensures
            ({
                let p = old(out)@.push(Post::Event("Connected. Waiting for data..."@)).push(
                    Post::Ntrip(StatusView::WaitingForData),
                );
                final(out)@ == (match self.job.capture {
                    Some(target) => p.push(
                        Post::CaptureBegin { target: target@, mount: self.job.mountpoint@ },
                    ),
                    None => p,
                })
            }),
            r == (ConnState {
                streaming: false,
                connected_at: now,
                bytes_at_connect: self.total_bytes,
                gga_sent: 0,
                last_miss_note: None,
            }),
    {
        out.event("Connected. Waiting for data...");
        out.push(Effect::Ntrip(NtripStatus::WaitingForData));
        if let Some(target) = &self.job.capture {
            out.push(
                Effect::CaptureBegin {
                    target: target.duplicate(),
                    mount: self.job.mountpoint.clone(),
                },
            );
        }
        ConnState {
            streaming: false,
            connected_at: now,
            bytes_at_connect: self.total_bytes,
            gga_sent: 0,
            last_miss_note: None,
        }
    }

    /// The connection is over: fold its framing counters into the run's, and
    /// close the capture.
    pub fn disconnected(&mut self, crc_failures: u64, garbage_bytes: u64, out: &mut Outbox)
        requires
            old(self).crc_base + crc_failures <= u64::MAX,
            old(self).garbage_base + garbage_bytes <= u64::MAX,
        ensures
            *final(self) == (Run {
                crc_base: (old(self).crc_base + crc_failures) as u64,
                garbage_base: (old(self).garbage_base + garbage_bytes) as u64,
                ..*old(self)
            }),
            final(out)@ == (if old(self).job.capture is Some {
                old(out)@.push(Post::CaptureEnd)
            } else {
                old(out)@
            }),
    {
        self.crc_base = self.crc_base + crc_failures;
        self.garbage_base = self.garbage_base + garbage_bytes;
        if self.job.capture.is_some() {
            out.push(Effect::CaptureEnd);
        }
    }
}

// ---------------------------------------------------------------------
// Frame tally
// ---------------------------------------------------------------------

/// Index of the entry for message type `ty`, or the length of `t`.
pub open spec fn tally_index(t: Seq<(u16, u32, u32)>, ty: u16) -> int
    decreases t.len(),
{
    if t.len() == 0 {
        0
    } else if t[0].0 == ty {
        0
    } else {
        1 + tally_index(t.skip(1), ty)
    }
}

/// The tally with one more frame: its type's count goes up by one, and its
/// wire size (payload plus three header and three checksum bytes) is the last
/// one seen.
pub open spec fn tally_add(t: Seq<(u16, u32, u32)>, f: (u16, u16)) -> Seq<(u16, u32, u32)> {
    let i = tally_index(t, f.0);
    if i < t.len() {
        t.update(i, (f.0, (t[i].1 + 1) as u32, (f.1 + 6) as u32))
    } else {
        t.push((f.0, 1, (f.1 + 6) as u32))
    }
}

/// Frames per message type, in order of first appearance.
pub open spec fn tally(frames: Seq<(u16, u16)>) -> Seq<(u16, u32, u32)>
    decreases frames.len(),
{
    if frames.len() == 0 {
        Seq::empty()
    } else {
        tally_add(tally(frames.drop_last()), frames.last())
    }
}

/// Sum of a tally's counts.
pub open spec fn tally_count(t: Seq<(u16, u32, u32)>) -> nat
    decreases t.len(),
{
    if t.len() == 0 {
        0
    } else {
        tally_count(t.drop_last()) + t.last().1 as nat
    }
}

proof fn lemma_tally_index(t: Seq<(u16, u32, u32)>, ty: u16, i: int)
    requires
        0 <= i <= t.len(),
        forall|k: int| 0 <= k < i ==> (#[trigger] t[k]).0 != ty,
        i == t.len() || t[i].0 == ty,
    ensures
        tally_index(t, ty) == i,
    decreases i,
{
    if i > 0 {
        let u = t.skip(1);
        assert(t[0].0 != ty);
        assert forall|k: int| 0 <= k < i - 1 implies (#[trigger] u[k]).0 != ty by {
            assert(u[k] == t[k + 1]);
        }
        if i < t.len() {
            assert(u[i - 1] == t[i]);
        }
        lemma_tally_index(u, ty, i - 1);
    }
}

proof fn lemma_tally_index_bounds(t: Seq<(u16, u32, u32)>, ty: u16)
    ensures
        0 <= tally_index(t, ty) <= t.len(),
        tally_index(t, ty) < t.len() ==> t[tally_index(t, ty)].0 == ty,
        forall|k: int| 0 <= k < tally_index(t, ty) ==> (#[trigger] t[k]).0 != ty,
    decreases t.len(),
{
    if t.len() > 0 && t[0].0 != ty {
        let u = t.skip(1);
        lemma_tally_index_bounds(u, ty);
        let n = tally_index(u, ty);
        if n < u.len() {
            assert(u[n] == t[n + 1]);
        }
        assert forall|k: int| 0 <= k < n + 1 implies (#[trigger] t[k]).0 != ty by {
            if k > 0 {
                assert(u[k - 1] == t[k]);
            }
        }
    }
}

proof fn lemma_tally_count_update(t: Seq<(u16, u32, u32)>, i: int, e: (u16, u32, u32))
    requires
        0 <= i < t.len(),
    ensures
        tally_count(t.update(i, e)) == tally_count(t) - t[i].1 + e.1,
    decreases t.len(),
{
    let u = t.update(i, e);
    if i == t.len() - 1 {
        assert(u.drop_last() =~= t.drop_last());
    } else {
        assert(u.drop_last() =~= t.drop_last().update(i, e));
        lemma_tally_count_update(t.drop_last(), i, e);
    }
}

proof fn lemma_tally_count_entry(t: Seq<(u16, u32, u32)>, i: int)
    requires
        0 <= i < t.len(),
    ensures
        t[i].1 <= tally_count(t),
    decreases t.len(),
{
    if i < t.len() - 1 {
        lemma_tally_count_entry(t.drop_last(), i);
    }
}

/// Every frame is counted once, and no message type appears twice.
pub proof fn law_tally_counts_every_frame(frames: Seq<(u16, u16)>)
    requires
        frames.len() <= u32::MAX,
    ensures
        tally_count(tally(frames)) == frames.len(),
        forall|i: int, j: int|
            0 <= i < j < tally(frames).len() ==> (#[trigger] tally(frames)[i]).0 != (
            #[trigger] tally(frames)[j]).0,
    decreases frames.len(),
{
    if frames.len() > 0 {
        let prev = frames.drop_last();
        let f = frames.last();
        law_tally_counts_every_frame(prev);
        let t = tally(prev);
        let k = tally_index(t, f.0);
        lemma_tally_index_bounds(t, f.0);
        if k < t.len() {
            lemma_tally_count_entry(t, k);
            lemma_tally_count_update(t, k, (f.0, (t[k].1 + 1) as u32, (f.1 + 6) as u32));
        } else {
            assert(tally(frames).drop_last() =~= t);
        }
        let u = tally(frames);
        assert forall|i: int, j: int| 0 <= i < j < u.len() implies (#[trigger] u[i]).0 != (
        #[trigger] u[j]).0 by {
            if k < t.len() {
                assert(u[i].0 == t[i].0 && u[j].0 == t[j].0);
            } else if j < t.len() {
                assert(u[i] == t[i] && u[j] == t[j]);
            } else {
                assert(u[i] == t[i]);
            }
        }
    }
}

/// Count the frames of one chunk per message type.
pub fn tally_frames(frames: &Vec<(u16, u16)>) -> (r: Vec<(u16, u32, u32)>)
    requires
        frames@.len() <= u32::MAX,
    ensures
        r@ == tally(frames@),
{
    let mut t: Vec<(u16, u32, u32)> = Vec::new();
    let mut i: usize = 0;
    assert(frames@.take(0) =~= Seq::<(u16, u16)>::empty());
    while i < frames.len()
        invariant
            i <= frames@.len() <= u32::MAX,
            t@ == tally(frames@.take(i as int)),
        decreases frames.len() - i,
    {
        let ghost done = frames@.take(i as int);
        let (ty, len): (u16, u16) = frames[i];
        let mut k: usize = 0;
        while k < t.len() && t[k].0 != ty
            invariant
                k <= t@.len(),
                forall|j: int| 0 <= j < k ==> (#[trigger] t@[j]).0 != ty,
            decreases t.len() - k,
        {
            k += 1;
        }
        proof {
            lemma_tally_index(t@, ty, k as int);
            law_tally_counts_every_frame(done);
            assert(frames@.take(i + 1).drop_last() =~= done);
        }
        let wire: u32 = len as u32 + 6;
        if k < t.len() {
            proof {
                lemma_tally_count_entry(t@, k as int);
            }
            let n: u32 = t[k].1;
            t.set(k, (ty, n + 1, wire));
        } else {
            t.push((ty, 1, wire));
        }
        i += 1;
    }
    assert(frames@.take(i as int) =~= frames@);
    t
}

/// The message types that the decoded panel displays.
pub open spec fn displayed(ty: u16) -> bool {
    ty == 1005 || ty == 1006 || ty == 1008 || ty == 1029 || ty == 1033 || ty == 1230
}

/// Whether a frame is worth decoding on the network thread.
pub fn worth_decoding(ty: u16) -> (r: bool)
    ensures
        r == displayed(ty),
{
    ty == 1005 || ty == 1006 || ty == 1008 || ty == 1029 || ty == 1033 || ty == 1230
}

// ---------------------------------------------------------------------
// Position sentences
// ---------------------------------------------------------------------

/// Nanoseconds between repeated notes about an unsendable position.
pub const MISS_NOTE_INTERVAL: u64 = 10_000_000_000;

/// Diagnosis and remedy when the receiver supplied no position.
pub const MISS_NO_RECEIVER_DIAGNOSIS: &'static str =
    "No receiver GGA available; position not sent (no GPS receiver is connected)";

pub const MISS_NO_RECEIVER_REMEDY: &'static str =
    "Connect one on the Serial side, or switch the position source to manual";

/// Diagnosis and remedy when the profile holds no position.
pub const MISS_NO_MANUAL_DIAGNOSIS: &'static str =
    "No manual position set; GGA not sent (the profile has no usable coordinates)";

pub const MISS_NO_MANUAL_REMEDY: &'static str =
    "Set the manual position in the profile, or switch the source to receiver";

pub const MISS_REPEAT: &'static str =
    "Still no position to send; the caster may be waiting for a GGA";

/// Whether an unsendable position is noted again: while the stream is silent,
/// and no oftener than every ten seconds.
pub open spec fn repeats_note(c: ConnState, prev: u64, now: u64) -> bool {
    !c.streaming && Span::between(prev, now).nanos >= MISS_NOTE_INTERVAL
}

/// The lines about an unsendable position, after `p`.
pub open spec fn miss_posts(
    c: ConnState,
    now: u64,
    diagnosis: Seq<char>,
    remedy: Seq<char>,
    p: Seq<Post>,
) -> Seq<Post> {
    match c.last_miss_note {
        None => p.push(Post::Event(diagnosis)).push(Post::Event(remedy)),
        Some(prev) => if repeats_note(c, prev, now) {
            p.push(Post::Event(MISS_REPEAT@))
        } else {
            p
        },
    }
}

/// The connection once an unsendable position has been noted.
pub open spec fn miss_noted(c: ConnState, now: u64) -> ConnState {
    match c.last_miss_note {
        None => ConnState { last_miss_note: Some(now), ..c },
        Some(prev) => if repeats_note(c, prev, now) {
            ConnState { last_miss_note: Some(now), ..c }
        } else {
            c
        },
    }
}

/// Note an unsendable position without flooding the log: the first miss of a
/// connection gets diagnosis and remedy, later ones repeat one line while the
/// stream is silent, and a healthy stream is never nagged.
pub fn note_gga_miss(
    conn: &mut ConnState,
    now: u64,
    diagnosis: &str,
    remedy: &str,
    out: &mut Outbox,
)
    ensures
        *final(conn) == miss_noted(*old(conn), now),
        final(out)@ == miss_posts(*old(conn), now, diagnosis@, remedy@, old(out)@),
{
    match conn.last_miss_note {
        None => {
            out.event(diagnosis);
            out.event(remedy);
            conn.last_miss_note = Some(now);
        },
        Some(prev) => {
            if !conn.streaming && Span::since(prev, now).nanos >= MISS_NOTE_INTERVAL {
                out.event(MISS_REPEAT);
                conn.last_miss_note = Some(now);
            }
        },
    }
}

impl Run {
    /// The sentence to send when a position is due: the fabricated one for a
    /// usable manual position, or the receiver's last one as it came.
    pub open spec fn due_sentence(self, fabricated: Seq<char>, receiver: Option<Seq<char>>) -> Option<
        Seq<char>,
    > {
        match self.job.gga_source {
            GgaSource::Manual => if position_set(self.job.manual_lat, self.job.manual_lon) {
                Some(fabricated)
            } else {
                None
            },
            GgaSource::Receiver => match receiver {
                Some(raw) => Some(raw + "\r\n"@),
                None => None,
            },
        }
    }

    /// Diagnosis and remedy when there is nothing to send.
    pub open spec fn miss_texts(self) -> (Seq<char>, Seq<char>) {
        match self.job.gga_source {
            GgaSource::Manual => (MISS_NO_MANUAL_DIAGNOSIS@, MISS_NO_MANUAL_REMEDY@),
            GgaSource::Receiver => (MISS_NO_RECEIVER_DIAGNOSIS@, MISS_NO_RECEIVER_REMEDY@),
        }
    }

    /// What a due position posts, after `p`.
    pub open spec fn due_posts(
        self,
        c: ConnState,
        now: u64,
        fabricated: Seq<char>,
        receiver: Option<Seq<char>>,
        p: Seq<Post>,
    ) -> Seq<Post> {
        match self.due_sentence(fabricated, receiver) {
            Some(sentence) => p.push(Post::Send(sentence)),
            None => miss_posts(c, now, self.miss_texts().0, self.miss_texts().1, p).push(
                Post::GgaMissed,
            ),
        }
    }

    /// The connection after a due position was sent or noted as missed.
    pub open spec fn due_conn(
        self,
        c: ConnState,
        now: u64,
        fabricated: Seq<char>,
        receiver: Option<Seq<char>>,
    ) -> ConnState {
        match self.due_sentence(fabricated, receiver) {
            Some(sentence) => c,
            None => miss_noted(c, now),
        }
    }

    /// A position is due: send it, or note why there is none and have the
    /// session ask again soon.
    pub fn on_gga_due(
        &self,
        conn: &mut ConnState,
        now: u64,
        fabricated: &str,
        receiver: &Option<String>,
        out: &mut Outbox,
    )
        ensures
            *final(conn) == self.due_conn(
                *old(conn),
                now,
                fabricated@,
                crate::workers::ntrip::opt_text(*receiver),
            ),
            final(out)@ == self.due_posts(
                *old(conn),
                now,
                fabricated@,
                crate::workers::ntrip::opt_text(*receiver),
                old(out)@,
            ),
    {
        match self.job.gga_source {
            GgaSource::Manual => {
                if manual_position_set(self.job.manual_lat, self.job.manual_lon) {
                    out.push(Effect::Send(fabricated.to_owned()));
                } else {
                    note_gga_miss(
                        conn,
                        now,
                        MISS_NO_MANUAL_DIAGNOSIS,
                        MISS_NO_MANUAL_REMEDY,
                        out,
                    );
                    out.push(Effect::GgaMissed);
                }
            },
            GgaSource::Receiver => match receiver {
                Some(raw) => {
                    let mut sentence = raw.clone();
                    sentence.append("\r\n");
                    out.push(Effect::Send(sentence));
                },
                None => {
                    note_gga_miss(
                        conn,
                        now,
                        MISS_NO_RECEIVER_DIAGNOSIS,
                        MISS_NO_RECEIVER_REMEDY,
                        out,
                    );
                    out.push(Effect::GgaMissed);
                },
            },
        }
    }
}

/// The write of a position sentence came back. A success is counted and
/// mirrored into the connection log; a failure is logged, and the session
/// asks again soon.
pub fn on_gga_written(
    conn: &mut ConnState,
    sentence: &str,
    error: Option<&str>,
    out: &mut Outbox,
)
    requires
        old(conn).gga_sent < u32::MAX,
    ensures
        match error {
            None => *final(conn) == (ConnState {
                gga_sent: (old(conn).gga_sent + 1) as u32,
                ..*old(conn)
            }) && final(out)@ == old(out)@.push(Post::Conn("> "@ + trim_back(sentence@))),
            Some(e) => *final(conn) == *old(conn) && final(out)@ == old(out)@.push(
                Post::Event("Failed to send GGA: "@ + e@),
            ).push(Post::GgaMissed),
        },
{
    match error {
        None => {
            conn.gga_sent = conn.gga_sent + 1;
            let mut line = "> ".to_owned();
            line.append(trimmed_end(sentence));
            out.conn(line.as_str());
        },
        Some(e) => {
            let mut line = "Failed to send GGA: ".to_owned();
            line.append(e);
            out.event(line.as_str());
            out.push(Effect::GgaMissed);
        },
    }
}

// ---------------------------------------------------------------------
// Corrections
// ---------------------------------------------------------------------

impl Run {
    /// Whether an overrun gets an event line: at most one per second.
    pub open spec fn overrun_line_due(self, now: u64) -> bool {
        match self.last_overrun_event {
            None => true,
            Some(t) => Span::between(t, now).nanos >= NANOS_PER_SEC,
        }
    }

    /// Framing counters of the whole run after a chunk.
    pub open spec fn health(self, chunk: Chunk) -> (u64, u64) {
        (
            (self.crc_base + chunk.crc_failures) as u64,
            (self.garbage_base + chunk.garbage_bytes) as u64,
        )
    }

    /// Whether a chunk brought frames, or moved a framing counter.
    pub open spec fn posts_rtcm(self, chunk: Chunk) -> bool {
        chunk.frames@.len() > 0 || self.health(chunk) != self.last_health_posted
    }

    /// The byte total after a chunk.
    pub open spec fn total_after(self, chunk: Chunk) -> u64 {
        (self.total_bytes + chunk.bytes@.len()) as u64
    }

    /// The run after a chunk of corrections. The first one of a connection
    /// ends the outage: the attempt budget resets and the drop alert arms.
    pub open spec fn corrections_run(
        self,
        c: ConnState,
        now: u64,
        push: PushOutcome,
        chunk: Chunk,
    ) -> Run {
        Run {
            attempts_done: if c.streaming {
                self.attempts_done
            } else {
                0
            },
            alert_armed: self.alert_armed || !c.streaming,
            total_bytes: self.total_after(chunk),
            last_overrun_event: if push is DroppedOldest && self.overrun_line_due(now) {
                Some(now)
            } else {
                self.last_overrun_event
            },
            last_health_posted: if self.posts_rtcm(chunk) {
                self.health(chunk)
            } else {
                self.last_health_posted
            },
            ..self
        }
    }

    /// The line announcing the first data of a connection.
    pub open spec fn receiving_text(self, c: ConnState, now: u64, receiver_ready: bool) -> Seq<
        char,
    > {
        "Receiving data (first data "@ + duration_text(Span::between(c.connected_at, now))
            + " after connect; "@ + plan_text(
            self.job.transport,
            self.job.gga_mode,
            self.job.stream_requires_gga,
            self.job.gga_source,
            receiver_ready,
            position_set(self.job.manual_lat, self.job.manual_lon),
        ) + ")"@
    }

    /// What a chunk of corrections posts, after `p`.
    pub open spec fn corrections_posts(
        self,
        c: ConnState,
        now: u64,
        receiver_ready: bool,
        push: PushOutcome,
        chunk: Chunk,
        p: Seq<Post>,
    ) -> Seq<Post> {
        let p1 = if c.streaming {
            p
        } else {
            p.push(Post::Event(self.receiving_text(c, now, receiver_ready))).push(
                Post::Ntrip(StatusView::Streaming),
            )
        };
        let p2 = match milestone_text(self.total_bytes, self.total_after(chunk)) {
            Some(line) => p1.push(Post::Event(line)),
            None => p1,
        };
        let p3 = match push {
            PushOutcome::DroppedOldest(n) => if self.overrun_line_due(now) {
                p2.push(Post::Overruns(n)).push(
                    Post::Event(
                        "Serial overrun: receiver link too slow, oldest corrections dropped ("@
                            + dec(n as nat) + " total)"@,
                    ),
                )
            } else {
                p2.push(Post::Overruns(n))
            },
            _ => p2,
        };
        let p4 = if self.job.capture is Some {
            p3.push(Post::CaptureData(chunk.bytes@))
        } else {
            p3
        };
        let p5 = if self.posts_rtcm(chunk) {
            p4.push(
                Post::Rtcm(tally(chunk.frames@), self.health(chunk).0, self.health(chunk).1),
            )
        } else {
            p4
        };
        p5.push(Post::RxBytes(self.total_after(chunk)))
    }

    /// Whether the counters can take this chunk.
    pub open spec fn has_room(self, chunk: Chunk) -> bool {
        &&& self.total_bytes + chunk.bytes@.len() <= u64::MAX
        &&& self.crc_base + chunk.crc_failures <= u64::MAX
        &&& self.garbage_base + chunk.garbage_bytes <= u64::MAX
        &&& chunk.frames@.len() <= u32::MAX
    }

    fn announce_stream(
        &mut self,
        conn: &mut ConnState,
        now: u64,
        receiver_ready: bool,
        out: &mut Outbox,
    )
        ensures
            *final(conn) == (ConnState { streaming: true, ..*old(conn) }),
            *final(self) == (if old(conn).streaming {
                *old(self)
            } else {
                Run { attempts_done: 0, alert_armed: true, ..*old(self) }
            }),
            final(out)@ == (if old(conn).streaming {
                old(out)@
            } else {
                old(out)@.push(
                    Post::Event(old(self).receiving_text(*old(conn), now, receiver_ready)),
                ).push(Post::Ntrip(StatusView::Streaming))
            }),
    {
        if conn.streaming {
            return;
        }
        conn.streaming = true;
        self.attempts_done = 0;
        self.alert_armed = true;
        let mut line = "Receiving data (first data ".to_owned();
        line.append(fmt_duration(Span::since(conn.connected_at, now)).as_str());
        line.append(" after connect; ");
        line.append(
            gga_plan(
                self.job.transport,
                self.job.gga_mode,
                self.job.stream_requires_gga,
                self.job.gga_source,
                receiver_ready,
                manual_position_set(self.job.manual_lat, self.job.manual_lon),
            ),
        );
        line.append(")");
        out.event(line.as_str());
        out.push(Effect::Ntrip(NtripStatus::Streaming));
    }

    /// A chunk of corrections arrived: queue it for the receiver, capture it,
    /// and post what it changed.
    pub fn on_corrections(
        &mut self,
        conn: &mut ConnState,
        now: u64,
        receiver_ready: bool,
        corr: &mut CorrQueue,
        chunk: Chunk,
        out: &mut Outbox,
    )
        requires
            old(self).has_room(chunk),
            old(corr)@.wf(),
        ensures
            *final(conn) == (ConnState { streaming: true, ..*old(conn) }),
            *final(self) == old(self).corrections_run(
                *old(conn),
                now,
                old(corr)@.push_outcome(),
                chunk,
            ),
            final(corr)@ == old(corr)@.pushed(chunk.bytes@),
            final(corr)@.wf(),
            final(out)@ == old(self).corrections_posts(
                *old(conn),
                now,
                receiver_ready,
                old(corr)@.push_outcome(),
                chunk,
                old(out)@,
            ),
    {
        self.announce_stream(conn, now, receiver_ready, out);
        let before: u64 = self.total_bytes;
        self.total_bytes = before + chunk.bytes.len() as u64;
        if let Some(line) = traffic_milestone(before, self.total_bytes) {
            out.event(line.as_str());
        }
        let frames = tally_frames(&chunk.frames);
        let any_frames = chunk.frames.len() > 0;
        let copy = chunk.bytes.clone();
        assert(copy@ =~= chunk.bytes@);
        match corr.push(chunk.bytes) {
            PushOutcome::DroppedOldest(n) => {
                out.push(Effect::Overruns(n));
                let due = match self.last_overrun_event {
                    None => true,
                    Some(t) => Span::since(t, now).nanos >= NANOS_PER_SEC,
                };
                if due {
                    self.last_overrun_event = Some(now);
                    let mut line =
                        "Serial overrun: receiver link too slow, oldest corrections dropped (".to_owned();
                    push_dec(&mut line, n);
                    line.append(" total)");
                    out.event(line.as_str());
                }
            },
            _ => {},
        }
        if self.job.capture.is_some() {
            out.push(Effect::CaptureData(copy));
        }
        let crc: u64 = self.crc_base + chunk.crc_failures;
        let garbage: u64 = self.garbage_base + chunk.garbage_bytes;
        if any_frames || crc != self.last_health_posted.0 || garbage != self.last_health_posted.1 {
            self.last_health_posted = (crc, garbage);
            out.push(
                Effect::Rtcm(RtcmBatch { frames, crc_failures: crc, garbage_bytes: garbage }),
            );
        }
        out.push(Effect::RxBytes(self.total_bytes));
    }
}

// ---------------------------------------------------------------------
// Close
// ---------------------------------------------------------------------

impl Run {
    /// Bytes received on this connection.
    pub open spec fn conn_bytes(self, c: ConnState) -> u64 {
        if self.total_bytes >= c.bytes_at_connect {
            (self.total_bytes - c.bytes_at_connect) as u64
        } else {
            0
        }
    }

    /// What a close posts, after `p`: a table that came with it, the bytes of
    /// an unclassified response, the close line, and the hint.
    pub open spec fn close_posts(self, c: ConnState, now: u64, reason: CloseReason, p: Seq<Post>) -> Seq<
        Post,
    > {
        let p1 = match reason {
            CloseReason::MountpointNotFound { sourcetable } => p.push(
                Post::Sourcetable(sourcetable@, "Caster answered with its sourcetable"@),
            ),
            CloseReason::UnknownResponse { raw } => if raw@.len() > 0 {
                p.push(Post::UnknownResponse(raw@))
            } else {
                p
            },
            _ => p,
        };
        let alive = Span::between(c.connected_at, now);
        let line = close_line_text(reason, self.job.mountpoint@, alive, self.conn_bytes(c));
        let p2 = p1.push(Post::Event(line)).push(Post::Conn(line));
        match hint_texts(
            reason,
            self.job.transport,
            self.job.mountpoint@,
            self.job.stream_requires_gga,
            c.gga_sent,
            alive,
        ) {
            Some((diagnosis, remedy)) => p2.push(Post::Event(diagnosis)).push(
                Post::Conn(diagnosis),
            ).push(Post::Event(remedy)).push(Post::Conn(remedy)),
            None => p2,
        }
    }

    /// Tell both logs the whole story of a close.
    pub fn on_close(&self, conn: &ConnState, now: u64, reason: &CloseReason, out: &mut Outbox)
        ensures
            final(out)@ == self.close_posts(*conn, now, *reason, old(out)@),
    {
        match reason {
            CloseReason::MountpointNotFound { sourcetable } => {
                let raw = sourcetable.clone();
                assert(raw@ =~= sourcetable@);
                out.push(
                    Effect::Sourcetable {
                        raw,
                        what: "Caster answered with its sourcetable".to_owned(),
                    },
                );
            },
            CloseReason::UnknownResponse { raw } => {
                if raw.len() > 0 {
                    let copy = raw.clone();
                    assert(copy@ =~= raw@);
                    out.push(Effect::UnknownResponse(copy));
                }
            },
            _ => {},
        }
        let alive = Span::since(conn.connected_at, now);
        let bytes: u64 = if self.total_bytes >= conn.bytes_at_connect {
            self.total_bytes - conn.bytes_at_connect
        } else {
            0
        };
        let line = close_event_line(reason, self.job.mountpoint.as_str(), alive, bytes);
        out.both(line.as_str());
        if let Some(hint) = gga_hint(
            reason,
            self.job.transport,
            self.job.mountpoint.as_str(),
            self.job.stream_requires_gga,
            conn.gga_sent,
            alive,
        ) {
            out.both(hint[0].as_str());
            out.both(hint[1].as_str());
        }
    }
}

// ---------------------------------------------------------------------
// Dispatch
// ---------------------------------------------------------------------

impl Run {
    /// Carry out one report of the protocol session. Returns how the report
    /// ends the connection, if it does; the first such end is the one that
    /// counts.
    pub fn dispatch(
        &mut self,
        conn: &mut ConnState,
        output: Output,
        now: u64,
        receiver: &Option<String>,
        corr: &mut CorrQueue,
        out: &mut Outbox,
    ) -> (r: Option<SessionEnd>)
        requires
            output matches Output::Corrections(chunk) ==> old(self).has_room(chunk),
            old(corr)@.wf(),
        ensures
            final(corr)@.wf(),
            match output {
                Output::Corrections(chunk) => {
                    &&& r is None
                    &&& *final(conn) == (ConnState { streaming: true, ..*old(conn) })
                    &&& *final(self) == old(self).corrections_run(
                        *old(conn),
                        now,
                        old(corr)@.push_outcome(),
                        chunk,
                    )
                    &&& final(corr)@ == old(corr)@.pushed(chunk.bytes@)
                    &&& final(out)@ == old(self).corrections_posts(
                        *old(conn),
                        now,
                        receiver is Some,
                        old(corr)@.push_outcome(),
                        chunk,
                        old(out)@,
                    )
                },
                _ => *final(self) == *old(self) && final(corr)@ == old(corr)@,
            },
            match output {
                Output::ProtocolTx(line) => {
                    &&& r is None
                    &&& *final(conn) == *old(conn)
                    &&& final(out)@ == old(out)@.push(Post::Event("> "@ + line@)).push(
                        Post::Conn("> "@ + line@),
                    )
                },
                Output::ProtocolRx(line) => {
                    &&& r is None
                    &&& *final(conn) == *old(conn)
                    &&& final(out)@ == old(out)@.push(Post::Event("< "@ + line@)).push(
                        Post::Conn("< "@ + line@),
                    )
                },
                Output::GgaDue { fabricated } => {
                    &&& r is None
                    &&& *final(conn) == old(self).due_conn(
                        *old(conn),
                        now,
                        fabricated@,
                        crate::workers::ntrip::opt_text(*receiver),
                    )
                    &&& final(out)@ == old(self).due_posts(
                        *old(conn),
                        now,
                        fabricated@,
                        crate::workers::ntrip::opt_text(*receiver),
                        old(out)@,
                    )
                },
                Output::Sourcetable(raw) => {
                    &&& r is Some && r->0 is TableDone
                    &&& *final(conn) == *old(conn)
                    &&& final(out)@ == old(out)@.push(
                        Post::Sourcetable(raw@, "Downloaded sourcetable"@),
                    )
                },
                Output::Close(reason) => {
                    &&& r is Some && r->0 == SessionEnd::Closed(reason)
                    &&& *final(conn) == *old(conn)
                    &&& final(out)@ == old(self).close_posts(*old(conn), now, reason, old(out)@)
                },
                Output::Corrections(chunk) => true,
            },
    {
        match output {
            Output::ProtocolTx(text) => {
                let mut line = "> ".to_owned();
                line.append(text.as_str());
                out.both(line.as_str());
                None
            },
            Output::ProtocolRx(text) => {
                let mut line = "< ".to_owned();
                line.append(text.as_str());
                out.both(line.as_str());
                None
            },
            Output::GgaDue { fabricated } => {
                self.on_gga_due(conn, now, fabricated.as_str(), receiver, out);
                None
            },
            Output::Corrections(chunk) => {
                self.on_corrections(conn, now, receiver.is_some(), corr, chunk, out);
                None
            },
            Output::Sourcetable(raw) => {
                out.push(
                    Effect::Sourcetable { raw, what: "Downloaded sourcetable".to_owned() },
                );
                Some(SessionEnd::TableDone)
            },
            Output::Close(reason) => {
                self.on_close(conn, now, &reason, out);
                Some(SessionEnd::Closed(reason))
            },
        }
    }
}

/// "{what}: N streams, N casters, N networks".
pub open spec fn table_text(what: Seq<char>, strs: nat, casters: nat, networks: nat) -> Seq<char> {
    what + ": "@ + dec(strs) + " streams, "@ + dec(casters) + " casters, "@ + dec(networks)
        + " networks"@
}

/// The end of a connection is the first one reported: what a closing session
/// still says is acted on, but cannot change how it ended.
pub fn first_end(so_far: Option<SessionEnd>, reported: Option<SessionEnd>) -> (r: Option<
    SessionEnd,
>)
    ensures
        r == (if so_far is Some {
            so_far
        } else {
            reported
        }),
{
    if so_far.is_some() {
        so_far
    } else {
        reported
    }
}

/// The event line for a parsed sourcetable.
pub fn table_line(what: &str, strs: usize, casters: usize, networks: usize) -> (r: String)
    ensures
        r@ == table_text(what@, strs as nat, casters as nat, networks as nat),
{
    let mut out = what.to_owned();
    out.append(": ");
    push_dec(&mut out, strs as u64);
    out.append(" streams, ");
    push_dec(&mut out, casters as u64);
    out.append(" casters, ");
    push_dec(&mut out, networks as u64);
    out.append(" networks");
    out
}

// ---------------------------------------------------------------------
// Laws
// ---------------------------------------------------------------------

/// A failure that would repeat never leads to another attempt, whatever the
/// policy and the budget.
pub proof fn law_permanent_failures_stop(r: Run, end: SessionEnd)
    requires
        !end_transient(end),
    ensures
        !r.reconnects(end),
{
}

/// A run keeps within its attempt budget: starting an attempt after a
/// reconnect never numbers it above the budget.
pub proof fn law_attempts_stay_within_budget(r: Run, end: SessionEnd)
    requires
        r.reconnects(end),
    ensures
        r.attempts_done + 1 <= r.job.max_attempts,
{
}

/// A drop rings the alert once: after it the alert stays silent until
/// correction bytes arm it again, and every alert is one counted drop.
pub proof fn law_one_alert_per_drop(r: Run, end: SessionEnd, later: SessionEnd, p: Seq<Post>)
    requires
        clean_stop(end, false) is None,
        clean_stop(later, false) is None,
        r.drops < u32::MAX,
    ensures
        ({
            let after = Run { alert_armed: false, drops: r.drops_after(), ..r };
            &&& after.drops_after() == after.drops
            &&& forall|i: int|
                p.len() <= i < after.end_posts(later, false, p).len() ==> !((
                #[trigger] after.end_posts(later, false, p)[i]) is Alert)
            &&& after.drops == r.drops + (if r.alert_armed { 1int } else { 0int })
        }),
{
}

/// Every line about an unsendable position fits the default-width event log.
pub proof fn law_miss_lines_fit()
    ensures
        MISS_NO_RECEIVER_DIAGNOSIS@.len() <= 80,
        MISS_NO_RECEIVER_REMEDY@.len() <= 80,
        MISS_NO_MANUAL_DIAGNOSIS@.len() <= 80,
        MISS_NO_MANUAL_REMEDY@.len() <= 80,
        MISS_REPEAT@.len() <= 80,
{
    reveal_strlit("No receiver GGA available; position not sent (no GPS receiver is connected)");
    reveal_strlit("Connect one on the Serial side, or switch the position source to manual");
    reveal_strlit("No manual position set; GGA not sent (the profile has no usable coordinates)");
    reveal_strlit("Set the manual position in the profile, or switch the source to receiver");
    reveal_strlit("Still no position to send; the caster may be waiting for a GGA");
}

/// A position is never fabricated from unusable coordinates.
pub proof fn law_no_fabricated_position_without_coordinates(
    r: Run,
    fabricated: Seq<char>,
    receiver: Option<Seq<char>>,
)
    requires
        r.job.gga_source == GgaSource::Manual,
        !position_set(r.job.manual_lat, r.job.manual_lon),
    ensures
        r.due_sentence(fabricated, receiver) is None,
{
}

/// A healthy stream ends the outage: after its first bytes the whole attempt
/// budget is available again, and a drop of it will be counted.
pub proof fn law_first_bytes_end_the_outage(
    r: Run,
    c: ConnState,
    now: u64,
    push: PushOutcome,
    chunk: Chunk,
)
    requires
        !c.streaming,
    ensures
        r.corrections_run(c, now, push, chunk).attempts_done == 0,
        r.corrections_run(c, now, push, chunk).alert_armed,
        r.corrections_run(c, now, push, chunk).drops == r.drops,
{
}

} // verus!
