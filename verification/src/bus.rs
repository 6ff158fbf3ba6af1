//! What the workers tell the rest of the program.
//!
//! A worker never touches shared state: it appends [`Effect`]s to an
//! [`Outbox`], in the order in which they are to happen, and the shell
//! carries them out. Contracts speak of the outbox through its view, a
//! sequence of [`Post`]s.
use vstd::prelude::*;

use crate::logging::{CaptureTarget, TargetView};
use crate::text::{dec_pad, push_dec_pad};

verus! {

/// State of the NTRIP worker.
#[derive(Debug, Clone, PartialEq)]
pub enum NtripStatus {
    Idle,
    Connecting { attempt: u32 },
    WaitingForData,
    Streaming,
    /// Sleeping out the reconnect delay; `next_attempt` is what the upcoming
    /// connect will be numbered.
    ReconnectWait { next_attempt: u32 },
    /// Terminal. `failed` separates failure-class closes from user cancels
    /// and clean sourcetable runs.
    Stopped { summary: String, failed: bool },
}

/// State of the serial worker.
#[derive(Debug, Clone, PartialEq)]
pub enum SerialStatus {
    Connected { port: String, detail: String },
    Disconnected { reason: String },
}

/// What a [`NtripStatus`] says.
pub enum StatusView {
    Idle,
    Connecting { attempt: u32 },
    WaitingForData,
    Streaming,
    ReconnectWait { next_attempt: u32 },
    Stopped { summary: Seq<char>, failed: bool },
}

impl View for NtripStatus {
    type V = StatusView;

    open spec fn view(&self) -> StatusView {
        match self {
            NtripStatus::Idle => StatusView::Idle,
            NtripStatus::Connecting { attempt } => StatusView::Connecting { attempt: *attempt },
            NtripStatus::WaitingForData => StatusView::WaitingForData,
            NtripStatus::Streaming => StatusView::Streaming,
            NtripStatus::ReconnectWait { next_attempt } => StatusView::ReconnectWait {
                next_attempt: *next_attempt,
            },
            NtripStatus::Stopped { summary, failed } => StatusView::Stopped {
                summary: summary@,
                failed: *failed,
            },
        }
    }
}

/// One report on the correction stream's framing, per received chunk.
/// `frames` counts since the last report; the two counters are cumulative
/// over the worker's run.
#[derive(Debug, Clone)]
pub struct RtcmBatch {
    /// Per message type: type, frames completed, wire size of the last one.
    pub frames: Vec<(u16, u32, u32)>,
    pub crc_failures: u64,
    pub garbage_bytes: u64,
}

/// One thing a worker wants done.
#[derive(Debug, Clone)]
pub enum Effect {
    /// Log a line to the event log.
    Event(String),
    /// Log a line to the connection log.
    Conn(String),
    Ntrip(NtripStatus),
    Serial(SerialStatus),
    /// Cumulative correction bytes.
    RxBytes(u64),
    Rtcm(RtcmBatch),
    /// Keep an unclassified response for the hex view.
    UnknownResponse(Vec<u8>),
    /// Parse and publish a sourcetable, logging it under the given heading.
    Sourcetable { raw: Vec<u8>, what: String },
    /// Cumulative overrun count.
    Overruns(u64),
    /// Arm the capture for one connection.
    CaptureBegin { target: CaptureTarget, mount: String },
    CaptureData(Vec<u8>),
    CaptureEnd,
    /// Play the alert sound file.
    Alert(String),
    /// Bytes to write to the caster.
    Send(String),
    /// Tell the session that a due position was not sent.
    GgaMissed,
    /// Append a sentence to the NMEA log.
    NmeaRecord(String),
}

/// What an [`Effect`] says.
pub enum Post {
    Event(Seq<char>),
    Conn(Seq<char>),
    Ntrip(StatusView),
    Serial(SerialView),
    RxBytes(u64),
    Rtcm(Seq<(u16, u32, u32)>, u64, u64),
    UnknownResponse(Seq<u8>),
    Sourcetable(Seq<u8>, Seq<char>),
    Overruns(u64),
    CaptureBegin { target: TargetView, mount: Seq<char> },
    CaptureData(Seq<u8>),
    CaptureEnd,
    Alert(Seq<char>),
    Send(Seq<char>),
    GgaMissed,
    NmeaRecord(Seq<char>),
}

/// What a [`SerialStatus`] says.
pub enum SerialView {
    Connected { port: Seq<char>, detail: Seq<char> },
    Disconnected { reason: Seq<char> },
}

impl View for SerialStatus {
    type V = SerialView;

    open spec fn view(&self) -> SerialView {
        match self {
            SerialStatus::Connected { port, detail } => SerialView::Connected {
                port: port@,
                detail: detail@,
            },
            SerialStatus::Disconnected { reason } => SerialView::Disconnected { reason: reason@ },
        }
    }
}

impl View for Effect {
    type V = Post;

    open spec fn view(&self) -> Post {
        match self {
            Effect::Event(t) => Post::Event(t@),
            Effect::Conn(t) => Post::Conn(t@),
            Effect::Ntrip(s) => Post::Ntrip(s@),
            Effect::Serial(s) => Post::Serial(s@),
            Effect::RxBytes(n) => Post::RxBytes(*n),
            Effect::Rtcm(b) => Post::Rtcm(b.frames@, b.crc_failures, b.garbage_bytes),
            Effect::UnknownResponse(raw) => Post::UnknownResponse(raw@),
            Effect::Sourcetable { raw, what } => Post::Sourcetable(raw@, what@),
            Effect::Overruns(n) => Post::Overruns(*n),
            Effect::CaptureBegin { target, mount } => Post::CaptureBegin {
                target: target@,
                mount: mount@,
            },
            Effect::CaptureData(b) => Post::CaptureData(b@),
            Effect::CaptureEnd => Post::CaptureEnd,
            Effect::Alert(p) => Post::Alert(p@),
            Effect::Send(t) => Post::Send(t@),
            Effect::GgaMissed => Post::GgaMissed,
            Effect::NmeaRecord(t) => Post::NmeaRecord(t@),
        }
    }
}

/// Effects in the order in which they are to happen.
#[derive(Debug)]
pub struct Outbox {
    effects: Vec<Effect>,
}

impl View for Outbox {
    type V = Seq<Post>;

    closed spec fn view(&self) -> Seq<Post> {
        Seq::new(self.effects@.len(), |i: int| self.effects@[i]@)
    }
}

impl Outbox {
    /// An empty outbox.
    pub fn new() -> (r: Outbox)
        ensures
            r@ == Seq::<Post>::empty(),
    {
        let r = Outbox { effects: Vec::new() };
        assert(r@ =~= Seq::<Post>::empty());
        r
    }

    /// Append one effect.
    pub fn push(&mut self, e: Effect)
        ensures
            final(self)@ == old(self)@.push(e@),
    {
        self.effects.push(e);
        assert(self@ =~= old(self)@.push(e@));
    }

    /// Append an event-log line.
    pub fn event(&mut self, text: &str)
        ensures
            final(self)@ == old(self)@.push(Post::Event(text@)),
    {
        self.push(Effect::Event(text.to_owned()));
    }

    /// Append a connection-log line.
    pub fn conn(&mut self, text: &str)
        ensures
            final(self)@ == old(self)@.push(Post::Conn(text@)),
    {
        self.push(Effect::Conn(text.to_owned()));
    }

    /// Append one line to both logs, event log first.
    pub fn both(&mut self, text: &str)
        ensures
            final(self)@ == old(self)@.push(Post::Event(text@)).push(Post::Conn(text@)),
    {
        self.event(text);
        self.conn(text);
    }

    /// The effects, oldest first.
    pub fn into_effects(self) -> (r: Vec<Effect>)
        ensures
            r@.len() == self@.len(),
            forall|i: int| 0 <= i < r@.len() ==> (#[trigger] r@[i])@ == self@[i],
    {
        self.effects
    }
}

/// A log line's "HH:MM:SS " local-time prefix followed by its text.
pub open spec fn stamped(hour: nat, min: nat, sec: nat, text: Seq<char>) -> Seq<char> {
    dec_pad(hour, 2) + ":"@ + dec_pad(min, 2) + ":"@ + dec_pad(sec, 2) + " "@ + text
}

/// Prefix a log line with its local time.
pub fn stamp(hour: u8, min: u8, sec: u8, text: &str) -> (r: String)
    ensures
        r@ == stamped(hour as nat, min as nat, sec as nat, text@),
{
    let mut out = String::new();
    push_dec_pad(&mut out, hour as u64, 2);
    out.append(":");
    push_dec_pad(&mut out, min as u64, 2);
    out.append(":");
    push_dec_pad(&mut out, sec as u64, 2);
    out.append(" ");
    out.append(text);
    proof {
        assert(Seq::<char>::empty() + dec_pad(hour as nat, 2) =~= dec_pad(hour as nat, 2));
    }
    out
}

} // verus!
