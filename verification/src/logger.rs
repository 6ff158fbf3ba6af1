//! The logger's run: what becomes of each command, which files are opened,
//! written, flushed and closed, and what the window is told.
//!
//! Every notice of the logger's own is an ordinary event line: it goes to the
//! window and, unless it says that a file cannot be opened, to the event file.
use vstd::prelude::*;

use crate::bus::{stamp, stamped};
use crate::logging::{
    capture_path, daily_name, receipt, record, sink_notice, CaptureModel, CaptureSink, CaptureStep,
    DailyModel, DailySink, FlushClock, LocalStamp, LogCmd, SinkStep,
};
use crate::paths::joined_path;
use crate::span::NANOS_PER_SEC;

verus! {

/// A file that the logger owns.
#[derive(Debug, Clone, Copy, PartialEq, Eq, Structural)]
pub enum LogFile {
    Events,
    Nmea,
    Capture,
}

/// Something to be done at once; failures are of no consequence.
#[derive(Debug)]
pub enum FileAct {
    /// Write this text to an open file.
    Text(LogFile, String),
    /// Write captured bytes to the open capture file.
    Bytes(Vec<u8>),
    Flush(LogFile),
    Close(LogFile),
    /// Show an event line in the window.
    Show(String),
}

/// A [`FileAct`] as a value.
pub enum FileActView {
    Text(LogFile, Seq<char>),
    Bytes(Seq<u8>),
    Flush(LogFile),
    Close(LogFile),
    Show(Seq<char>),
}

impl View for FileAct {
    type V = FileActView;

    open spec fn view(&self) -> FileActView {
        match self {
            FileAct::Text(f, t) => FileActView::Text(*f, t@),
            FileAct::Bytes(b) => FileActView::Bytes(b@),
            FileAct::Flush(f) => FileActView::Flush(*f),
            FileAct::Close(f) => FileActView::Close(*f),
            FileAct::Show(t) => FileActView::Show(t@),
        }
    }
}

/// Acts as values.
pub open spec fn acts_of(v: Seq<FileAct>) -> Seq<FileActView> {
    Seq::new(v.len(), |i: int| v[i]@)
}

fn push_act(acts: &mut Vec<FileAct>, act: FileAct)
    ensures
        acts_of(final(acts)@) == acts_of(old(acts)@).push(act@),
{
    acts.push(act);
    assert(acts_of(acts@) =~= acts_of(old(acts)@).push(act@));
}

/// What the logger does once its acts are done.
#[derive(Debug)]
pub enum LogNext {
    /// Make this directory, and open this file in it for appending.
    Append { file: LogFile, dir: String, path: String },
    /// Make the directory of this file, if it has one, and create it.
    Create { path: String },
    /// Wait this many nanoseconds for a command.
    Wait(u64),
    Stop,
}

/// A [`LogNext`] as a value.
pub enum LogNextView {
    Append { file: LogFile, dir: Seq<char>, path: Seq<char> },
    Create { path: Seq<char> },
    Wait(u64),
    Stop,
}

impl View for LogNext {
    type V = LogNextView;

    open spec fn view(&self) -> LogNextView {
        match self {
            LogNext::Append { file, dir, path } => LogNextView::Append {
                file: *file,
                dir: dir@,
                path: path@,
            },
            LogNext::Create { path } => LogNextView::Create { path: path@ },
            LogNext::Wait(n) => LogNextView::Wait(*n),
            LogNext::Stop => LogNextView::Stop,
        }
    }
}

/// What happened.
#[derive(Debug)]
pub enum LogEvent {
    Command(LogCmd),
    /// No command came in time.
    Quiet,
    /// Nobody is left to send a command.
    Gone,
    /// The file that was asked for is open, or could not be opened.
    Opened(Result<(), String>),
}

/// A line that waits for its daily file to open.
#[derive(Debug)]
struct PendingLine {
    nmea: bool,
    name: String,
    path: String,
    /// Whether another file was open before.
    rolled: bool,
    line: String,
    /// Whether the line is also shown.
    notice: bool,
}

/// What waits for a file to open.
#[derive(Debug)]
enum Pending {
    Line(PendingLine),
    /// Captured bytes.
    Bytes { path: String, bytes: Vec<u8> },
}

/// What waits for a file to open, as a value.
pub enum PendingView {
    Line {
        nmea: bool,
        name: Seq<char>,
        path: Seq<char>,
        rolled: bool,
        line: Seq<char>,
        notice: bool,
    },
    Bytes { path: Seq<char>, bytes: Seq<u8> },
}

/// The logger.
#[derive(Debug)]
pub struct LogRun {
    events: DailySink,
    nmea: DailySink,
    capture: CaptureSink,
    clock: FlushClock,
    pending: Option<Pending>,
    stopping: bool,
}

/// What a [`LogRun`] holds.
pub struct LogModel {
    pub events: DailyModel,
    pub nmea: DailyModel,
    pub capture: CaptureModel,
    /// Clock reading of the next flush.
    pub next_flush: u64,
    pub pending: Option<PendingView>,
    pub stopping: bool,
}

/// A logger that has done something, with what it wants opened, if anything.
pub struct LogDone {
    pub run: LogModel,
    pub acts: Seq<FileActView>,
    pub open: Option<LogNextView>,
}

/// What an event comes to.
pub struct LogStepped {
    pub run: LogModel,
    pub acts: Seq<FileActView>,
    pub next: LogNextView,
}

/// A text as an event line of this time.
pub open spec fn event_line(now: LocalStamp, text: Seq<char>) -> Seq<char> {
    stamped(now.hour as nat, now.min as nat, now.sec as nat, text)
}

/// The flush of a daily file that has unflushed lines.
pub open spec fn daily_flush(file: LogFile, d: DailyModel) -> Seq<FileActView> {
    if d.dirty && d.current is Some {
        seq![FileActView::Flush(file)]
    } else {
        Seq::empty()
    }
}

/// The acts after which a file is no longer open.
pub open spec fn daily_close(file: LogFile, d: DailyModel) -> Seq<FileActView> {
    if d.current is Some {
        daily_flush(file, d).push(FileActView::Close(file))
    } else {
        Seq::empty()
    }
}

/// The showing of a notice.
pub open spec fn showing(line: Seq<char>, notice: bool) -> Seq<FileActView> {
    if notice {
        seq![FileActView::Show(line)]
    } else {
        Seq::empty()
    }
}

impl LogDone {
    /// More was done before this.
    pub open spec fn behind(self, acts: Seq<FileActView>) -> LogDone {
        LogDone { acts: acts + self.acts, ..self }
    }
}

impl LogModel {
    /// A logger with nothing open.
    pub open spec fn fresh(
        logs_dir: Seq<char>,
        nmea_dir: Seq<char>,
        separator: char,
        event_log_on: bool,
        nmea_log_on: bool,
        clock: u64,
    ) -> LogModel {
        LogModel {
            events: DailyModel {
                dir: logs_dir,
                separator,
                enabled: event_log_on,
                current: None,
                dirty: false,
                failed: false,
            },
            nmea: DailyModel {
                dir: nmea_dir,
                separator,
                enabled: nmea_log_on,
                current: None,
                dirty: false,
                failed: false,
            },
            capture: CaptureModel {
                separator,
                armed: None,
                open: None,
                dirty: false,
                failed: false,
            },
            next_flush: (clock + NANOS_PER_SEC) as u64,
            pending: None,
            stopping: false,
        }
    }

    /// One of the daily files.
    pub open spec fn daily(self, nmea: bool) -> DailyModel {
        if nmea {
            self.nmea
        } else {
            self.events
        }
    }

    pub open spec fn with_daily(self, nmea: bool, d: DailyModel) -> LogModel {
        if nmea {
            LogModel { nmea: d, ..self }
        } else {
            LogModel { events: d, ..self }
        }
    }

    /// Nothing is to be done.
    pub open spec fn idle(self) -> LogDone {
        LogDone { run: self, acts: Seq::empty(), open: None }
    }

    /// A line for a daily file: appended when the file of this date is open,
    /// kept until it is when it is not, dropped when the file is off. A notice
    /// is shown as well.
    pub open spec fn wrote(
        self,
        nmea: bool,
        line: Seq<char>,
        notice: bool,
        now: LocalStamp,
    ) -> LogDone {
        let file = daily_file(nmea);
        let d = self.daily(nmea);
        let name = daily_name(now);
        let path = joined_path(d.dir, d.separator, name);
        if !d.enabled {
            LogDone { run: self, acts: showing(line, notice), open: None }
        } else if d.current == Some(name) {
            LogDone {
                run: self.with_daily(nmea, DailyModel { dirty: true, ..d }),
                acts: seq![FileActView::Text(file, line + "\r\n"@)] + showing(line, notice),
                open: None,
            }
        } else {
            LogDone {
                run: LogModel {
                    pending: Some(
                        PendingView::Line {
                            nmea,
                            name,
                            path,
                            rolled: d.current is Some,
                            line,
                            notice,
                        },
                    ),
                    ..self.with_daily(nmea, DailyModel { current: None, dirty: false, ..d })
                },
                acts: daily_close(file, d),
                open: Some(LogNextView::Append { file, dir: d.dir, path }),
            }
        }
    }

    /// A notice: an event line that is also shown.
    pub open spec fn noticed(self, text: Seq<char>, now: LocalStamp) -> LogDone {
        self.wrote(false, event_line(now, text), true, now)
    }

    /// The capture is over: its file is closed, and the receipt announced.
    pub open spec fn receipted(self, now: LocalStamp) -> LogDone {
        let m = LogModel {
            capture: CaptureModel { armed: None, open: None, dirty: false, ..self.capture },
            ..self
        };
        match self.capture.open {
            Some((path, count)) => m.noticed(receipt(path, count), now).behind(
                seq![FileActView::Flush(LogFile::Capture), FileActView::Close(LogFile::Capture)],
            ),
            None => m.idle(),
        }
    }

    /// A daily file is switched on or off; off closes it.
    pub open spec fn switched(self, nmea: bool, on: bool) -> LogDone {
        let d = self.daily(nmea);
        LogDone {
            run: self.with_daily(
                nmea,
                DailyModel {
                    enabled: on,
                    current: if on {
                        d.current
                    } else {
                        None
                    },
                    dirty: on && d.dirty,
                    failed: false,
                    ..d
                },
            ),
            acts: if on {
                Seq::empty()
            } else {
                daily_close(daily_file(nmea), d)
            },
            open: None,
        }
    }

    /// Bytes were captured. The capture's file opens with the first of them.
    pub open spec fn captured(self, bytes: Seq<u8>, now: LocalStamp) -> LogDone {
        let c = self.capture;
        match (c.open, c.armed) {
            (Some((path, count)), _) => LogDone {
                run: LogModel {
                    capture: CaptureModel {
                        open: Some((path, (count + bytes.len()) as u64)),
                        dirty: true,
                        ..c
                    },
                    ..self
                },
                acts: seq![FileActView::Bytes(bytes)],
                open: None,
            },
            (None, Some((target, mount))) => if c.failed {
                self.idle()
            } else {
                let path = capture_path(target, c.separator, mount, now);
                LogDone {
                    run: LogModel { pending: Some(PendingView::Bytes { path, bytes }), ..self },
                    acts: Seq::empty(),
                    open: Some(LogNextView::Create { path }),
                }
            },
            (None, None) => self.idle(),
        }
    }

    /// No more commands are taken; a capture that is still open is closed.
    pub open spec fn shut_down(self, now: LocalStamp) -> LogDone {
        LogModel { stopping: true, ..self }.receipted(now)
    }

    /// What a command comes to.
    pub open spec fn commanded(self, cmd: LogCmd, now: LocalStamp) -> LogDone {
        match cmd {
            LogCmd::Event(line) => self.wrote(false, line@, false, now),
            LogCmd::Nmea(line) => self.wrote(true, line@, false, now),
            LogCmd::SetEventLog(on) => self.switched(false, on),
            LogCmd::SetNmeaLog(on) => self.switched(true, on),
            LogCmd::CaptureBegin { target, mount } => {
                let done = self.receipted(now);
                LogDone {
                    run: LogModel {
                        capture: CaptureModel {
                            armed: Some((target@, mount@)),
                            failed: false,
                            ..done.run.capture
                        },
                        ..done.run
                    },
                    ..done
                }
            },
            LogCmd::CaptureData(bytes) => self.captured(bytes@, now),
            LogCmd::CaptureEnd => self.receipted(now),
            LogCmd::Shutdown => self.shut_down(now),
        }
    }

    /// The daily file that a line waited for is open: the line is appended,
    /// and a rollover is announced.
    pub open spec fn line_opened(self, p: PendingView, now: LocalStamp) -> LogDone {
        match p {
            PendingView::Line { nmea, name, rolled, line, notice, .. } => {
                let m = self.with_daily(
                    nmea,
                    DailyModel { current: Some(name), failed: false, dirty: true, ..self.daily(nmea) },
                );
                let acts = seq![FileActView::Text(daily_file(nmea), line + "\r\n"@)] + showing(
                    line,
                    notice,
                );
                if rolled {
                    m.noticed("Log rolled over to "@ + name, now).behind(acts)
                } else {
                    LogDone { run: m, acts, open: None }
                }
            },
            _ => self.idle(),
        }
    }

    /// The daily file could not be opened: the line is lost, and the first
    /// failure in a row is shown.
    pub open spec fn line_failed(
        self,
        p: PendingView,
        cause: Seq<char>,
        now: LocalStamp,
    ) -> LogDone {
        match p {
            PendingView::Line { nmea, path, line, notice, .. } => {
                let d = self.daily(nmea);
                LogDone {
                    run: self.with_daily(nmea, DailyModel { failed: true, ..d }),
                    acts: showing(line, notice) + if d.failed {
                        Seq::<FileActView>::empty()
                    } else {
                        seq![
                            FileActView::Show(
                                event_line(now, "Could not open "@ + path + ": "@ + cause),
                            ),
                        ]
                    },
                    open: None,
                }
            },
            _ => self.idle(),
        }
    }

    /// The capture file is open, or could not be opened; either is announced.
    pub open spec fn capture_answered(
        self,
        path: Seq<char>,
        bytes: Seq<u8>,
        result: Result<(), String>,
        now: LocalStamp,
    ) -> LogDone {
        match result {
            Ok(_) => LogModel {
                capture: CaptureModel {
                    open: Some((path, bytes.len() as u64)),
                    dirty: true,
                    ..self.capture
                },
                ..self
            }.noticed("Capturing corrections to "@ + path, now).behind(
                seq![FileActView::Bytes(bytes)],
            ),
            Err(e) => LogModel {
                capture: CaptureModel { failed: true, ..self.capture },
                ..self
            }.noticed("Could not open capture file "@ + path + ": "@ + e@, now),
        }
    }

    /// The file that was asked for is open, or could not be opened.
    pub open spec fn answered(self, result: Result<(), String>, now: LocalStamp) -> LogDone {
        let m = LogModel { pending: None, ..self };
        match self.pending {
            Some(PendingView::Bytes { path, bytes }) => m.capture_answered(path, bytes, result, now),
            Some(p) => match result {
                Ok(_) => m.line_opened(p, now),
                Err(e) => m.line_failed(p, e@, now),
            },
            None => self.idle(),
        }
    }

    /// The daily files flushed.
    pub open spec fn dailies_flushed(self) -> LogModel {
        LogModel {
            events: DailyModel { dirty: false, ..self.events },
            nmea: DailyModel { dirty: false, ..self.nmea },
            ..self
        }
    }

    /// The flush of the daily files.
    pub open spec fn flush_dailies(self) -> Seq<FileActView> {
        daily_flush(LogFile::Events, self.events) + daily_flush(LogFile::Nmea, self.nmea)
    }

    /// The flush of the capture file, if it has unflushed bytes.
    pub open spec fn flush_capture(self) -> Seq<FileActView> {
        if self.capture.dirty && self.capture.open is Some {
            seq![FileActView::Flush(LogFile::Capture)]
        } else {
            Seq::empty()
        }
    }

    /// Nothing is left to be done: flush what is due, then wait for a
    /// command, or stop.
    pub open spec fn rested(self, acts: Seq<FileActView>, clock: u64) -> LogStepped {
        if self.stopping {
            LogStepped {
                run: self.dailies_flushed(),
                acts: acts + self.flush_dailies(),
                next: LogNextView::Stop,
            }
        } else if clock >= self.next_flush {
            let flushed = self.dailies_flushed();
            LogStepped {
                run: LogModel {
                    capture: CaptureModel { dirty: false, ..self.capture },
                    next_flush: (clock + NANOS_PER_SEC) as u64,
                    ..flushed
                },
                acts: acts + self.flush_dailies() + self.flush_capture(),
                next: LogNextView::Wait(NANOS_PER_SEC),
            }
        } else {
            LogStepped {
                run: self,
                acts,
                next: LogNextView::Wait((self.next_flush - clock) as u64),
            }
        }
    }

    /// What an event does.
    pub open spec fn took(self, event: LogEvent, now: LocalStamp) -> LogDone {
        match event {
            LogEvent::Command(cmd) => self.commanded(cmd, now),
            LogEvent::Quiet => self.idle(),
            LogEvent::Gone => self.shut_down(now),
            LogEvent::Opened(result) => self.answered(result, now),
        }
    }

    /// What an event comes to.
    pub open spec fn stepped(self, event: LogEvent, now: LocalStamp, clock: u64) -> LogStepped {
        let done = self.took(event, now);
        match done.open {
            Some(next) => LogStepped { run: done.run, acts: done.acts, next },
            None => done.run.rested(done.acts, clock),
        }
    }

    /// Whether the event answers what was asked: a file that is being opened
    /// is waited for.
    pub open spec fn expects(self, event: LogEvent) -> bool {
        self.pending is Some <==> event is Opened
    }

    /// Whether the capture's byte count can take the event.
    pub open spec fn has_room(self, event: LogEvent) -> bool {
        match (event, self.capture.open) {
            (LogEvent::Command(LogCmd::CaptureData(bytes)), Some((_, count))) => count
                + bytes@.len() <= u64::MAX,
            _ => true,
        }
    }
}

/// The daily file for sentences, or for events.
pub open spec fn daily_file(nmea: bool) -> LogFile {
    if nmea {
        LogFile::Nmea
    } else {
        LogFile::Events
    }
}

impl View for PendingLine {
    type V = PendingView;

    closed spec fn view(&self) -> PendingView {
        PendingView::Line {
            nmea: self.nmea,
            name: self.name@,
            path: self.path@,
            rolled: self.rolled,
            line: self.line@,
            notice: self.notice,
        }
    }
}

impl View for Pending {
    type V = PendingView;

    closed spec fn view(&self) -> PendingView {
        match self {
            Pending::Line(p) => p@,
            Pending::Bytes { path, bytes } => PendingView::Bytes { path: path@, bytes: bytes@ },
        }
    }
}

impl View for LogRun {
    type V = LogModel;

    closed spec fn view(&self) -> LogModel {
        LogModel {
            events: self.events@,
            nmea: self.nmea@,
            capture: self.capture@,
            next_flush: self.clock.next,
            pending: match self.pending {
                Some(p) => Some(p@),
                None => None,
            },
            stopping: self.stopping,
        }
    }
}

/// What is to be opened, as a value.
spec fn next_of(next: Option<LogNext>) -> Option<LogNextView> {
    match next {
        Some(n) => Some(n@),
        None => None,
    }
}

fn show(acts: &mut Vec<FileAct>, line: String, notice: bool)
    ensures
        acts_of(final(acts)@) == acts_of(old(acts)@) + showing(line@, notice),
{
    if notice {
        push_act(acts, FileAct::Show(line));
    }
    assert(acts_of(acts@) =~= acts_of(old(acts)@) + showing(line@, notice));
}

impl LogRun {
    /// Whether the event answers what was asked.
    pub open spec fn expects(self, event: LogEvent) -> bool {
        self@.expects(event)
    }

    pub fn new(
        logs_dir: String,
        nmea_dir: String,
        separator: char,
        event_log_on: bool,
        nmea_log_on: bool,
        clock: u64,
    ) -> (r: LogRun)
        requires
            clock <= u64::MAX - NANOS_PER_SEC,
        ensures
            r@ == LogModel::fresh(
                logs_dir@,
                nmea_dir@,
                separator,
                event_log_on,
                nmea_log_on,
                clock,
            ),
    {
        LogRun {
            events: DailySink::new(logs_dir, separator, event_log_on),
            nmea: DailySink::new(nmea_dir, separator, nmea_log_on),
            capture: CaptureSink::new(separator),
            clock: FlushClock::new(clock),
            pending: None,
            stopping: false,
        }
    }

    /// Whether the capture's byte count can take `n` more.
    pub fn has_room(&self, n: usize) -> (r: bool)
        ensures
            r == (self@.capture.open matches Some((_, count)) ==> count + n <= u64::MAX),
    {
        match &self.capture.open {
            Some((_, count)) => *count <= u64::MAX - n as u64,
            None => true,
        }
    }

    fn write_line(
        &mut self,
        nmea: bool,
        line: String,
        notice: bool,
        now: &LocalStamp,
        acts: &mut Vec<FileAct>,
    ) -> (r: Option<LogNext>)
        ensures
            ({
                let done = old(self)@.wrote(nmea, line@, notice, *now);
                &&& final(self)@ == done.run
                &&& acts_of(final(acts)@) == acts_of(old(acts)@) + done.acts
                &&& next_of(r) == done.open
            }),
    {
        let ghost done = self@.wrote(nmea, line@, notice, *now);
        let file = if nmea {
            LogFile::Nmea
        } else {
            LogFile::Events
        };
        let step = if nmea {
            self.nmea.write_line(now)
        } else {
            self.events.write_line(now)
        };
        match step {
            SinkStep::Discard => {
                show(acts, line, notice);
                None
            },
            SinkStep::Append => {
                push_act(acts, FileAct::Text(file, record(line.as_str())));
                if nmea {
                    self.nmea.appended();
                } else {
                    self.events.appended();
                }
                show(acts, line, notice);
                assert(acts_of(acts@) =~= acts_of(old(acts)@) + done.acts);
                None
            },
            SinkStep::Open { name, path, flush, rolled } => {
                if flush {
                    push_act(acts, FileAct::Flush(file));
                }
                if rolled {
                    push_act(acts, FileAct::Close(file));
                }
                assert(acts_of(acts@) =~= acts_of(old(acts)@) + done.acts);
                let dir = if nmea {
                    self.nmea.dir.clone()
                } else {
                    self.events.dir.clone()
                };
                let target = path.clone();
                self.pending = Some(
                    Pending::Line(PendingLine { nmea, name, path, rolled, line, notice }),
                );
                Some(LogNext::Append { file, dir, path: target })
            },
        }
    }

    /// Announce a notice: an event line that is also shown.
    fn notice(
        &mut self,
        text: &str,
        now: &LocalStamp,
        acts: &mut Vec<FileAct>,
    ) -> (r: Option<LogNext>)
        ensures
            ({
                let done = old(self)@.noticed(text@, *now);
                &&& final(self)@ == done.run
                &&& acts_of(final(acts)@) == acts_of(old(acts)@) + done.acts
                &&& next_of(r) == done.open
            }),
    {
        let line = stamp(now.hour, now.min, now.sec, text);
        self.write_line(false, line, true, now, acts)
    }

    fn end_capture(&mut self, now: &LocalStamp, acts: &mut Vec<FileAct>) -> (r: Option<LogNext>)
        ensures
            ({
                let done = old(self)@.receipted(*now);
                &&& final(self)@ == done.run
                &&& acts_of(final(acts)@) == acts_of(old(acts)@) + done.acts
                &&& next_of(r) == done.open
            }),
    {
        let ghost done = self@.receipted(*now);
        let ghost before = acts_of(acts@);
        let r = match self.capture.end() {
            Some(text) => {
                push_act(acts, FileAct::Flush(LogFile::Capture));
                push_act(acts, FileAct::Close(LogFile::Capture));
                self.notice(text.as_str(), now, acts)
            },
            None => None,
        };
        assert(acts_of(acts@) =~= before + done.acts);
        r
    }

    fn switch(&mut self, nmea: bool, on: bool, acts: &mut Vec<FileAct>)
        ensures
            ({
                let done = old(self)@.switched(nmea, on);
                &&& final(self)@ == done.run
                &&& acts_of(final(acts)@) == acts_of(old(acts)@) + done.acts
            }),
    {
        let ghost done = self@.switched(nmea, on);
        let file = if nmea {
            LogFile::Nmea
        } else {
            LogFile::Events
        };
        let open = if nmea {
            self.nmea.current.is_some()
        } else {
            self.events.current.is_some()
        };
        let flush = if nmea {
            self.nmea.set_enabled(on)
        } else {
            self.events.set_enabled(on)
        };
        if flush {
            push_act(acts, FileAct::Flush(file));
        }
        if !on && open {
            push_act(acts, FileAct::Close(file));
        }
        assert(acts_of(acts@) =~= acts_of(old(acts)@) + done.acts);
    }

    fn capture_data(
        &mut self,
        bytes: Vec<u8>,
        now: &LocalStamp,
        acts: &mut Vec<FileAct>,
    ) -> (r: Option<LogNext>)
        requires
            old(self)@.capture.open matches Some((_, count)) ==> count + bytes@.len() <= u64::MAX,
        ensures
            ({
                let done = old(self)@.captured(bytes@, *now);
                &&& final(self)@ == done.run
                &&& acts_of(final(acts)@) == acts_of(old(acts)@) + done.acts
                &&& next_of(r) == done.open
            }),
    {
        let ghost done = self@.captured(bytes@, *now);
        let r = match self.capture.data(now) {
            CaptureStep::Discard => None,
            CaptureStep::Append => {
                self.capture.appended(bytes.len());
                push_act(acts, FileAct::Bytes(bytes));
                None
            },
            CaptureStep::Create(path) => {
                let target = path.clone();
                self.pending = Some(Pending::Bytes { path, bytes });
                Some(LogNext::Create { path: target })
            },
        };
        assert(acts_of(acts@) =~= acts_of(old(acts)@) + done.acts);
        r
    }

    fn command(
        &mut self,
        cmd: LogCmd,
        now: &LocalStamp,
        acts: &mut Vec<FileAct>,
    ) -> (r: Option<LogNext>)
        requires
            old(self)@.has_room(LogEvent::Command(cmd)),
        ensures
            ({
                let done = old(self)@.commanded(cmd, *now);
                &&& final(self)@ == done.run
                &&& acts_of(final(acts)@) == acts_of(old(acts)@) + done.acts
                &&& next_of(r) == done.open
            }),
    {
        match cmd {
            LogCmd::Event(line) => self.write_line(false, line, false, now, acts),
            LogCmd::Nmea(line) => self.write_line(true, line, false, now, acts),
            LogCmd::SetEventLog(on) => {
                self.switch(false, on, acts);
                None
            },
            LogCmd::SetNmeaLog(on) => {
                self.switch(true, on, acts);
                None
            },
            LogCmd::CaptureBegin { target, mount } => {
                let r = self.end_capture(now, acts);
                let _ = self.capture.begin(target, mount);
                r
            },
            LogCmd::CaptureData(bytes) => self.capture_data(bytes, now, acts),
            LogCmd::CaptureEnd => self.end_capture(now, acts),
            LogCmd::Shutdown => self.shut_down(now, acts),
        }
    }

    fn shut_down(&mut self, now: &LocalStamp, acts: &mut Vec<FileAct>) -> (r: Option<LogNext>)
        ensures
            ({
                let done = old(self)@.shut_down(*now);
                &&& final(self)@ == done.run
                &&& acts_of(final(acts)@) == acts_of(old(acts)@) + done.acts
                &&& next_of(r) == done.open
            }),
    {
        self.stopping = true;
        self.end_capture(now, acts)
    }

    fn line_opened(
        &mut self,
        p: PendingLine,
        now: &LocalStamp,
        acts: &mut Vec<FileAct>,
    ) -> (r: Option<LogNext>)
        ensures
            ({
                let done = old(self)@.line_opened(p@, *now);
                &&& final(self)@ == done.run
                &&& acts_of(final(acts)@) == acts_of(old(acts)@) + done.acts
                &&& next_of(r) == done.open
            }),
    {
        let ghost done = self@.line_opened(p@, *now);
        let ghost before = acts_of(acts@);
        let file = if p.nmea {
            LogFile::Nmea
        } else {
            LogFile::Events
        };
        push_act(acts, FileAct::Text(file, record(p.line.as_str())));
        let event = if p.nmea {
            let event = self.nmea.opened(p.name, p.rolled);
            self.nmea.appended();
            event
        } else {
            let event = self.events.opened(p.name, p.rolled);
            self.events.appended();
            event
        };
        show(acts, p.line, p.notice);
        let r = match sink_notice(event) {
            None => None,
            Some((text, _)) => self.notice(text.as_str(), now, acts),
        };
        assert(acts_of(acts@) =~= before + done.acts);
        r
    }

    fn line_failed(
        &mut self,
        p: PendingLine,
        cause: &str,
        now: &LocalStamp,
        acts: &mut Vec<FileAct>,
    )
        ensures
            ({
                let done = old(self)@.line_failed(p@, cause@, *now);
                &&& final(self)@ == done.run
                &&& acts_of(final(acts)@) == acts_of(old(acts)@) + done.acts
            }),
    {
        let ghost done = self@.line_failed(p@, cause@, *now);
        let ghost before = acts_of(acts@);
        let event = if p.nmea {
            self.nmea.open_failed(p.path.as_str(), cause)
        } else {
            self.events.open_failed(p.path.as_str(), cause)
        };
        show(acts, p.line, p.notice);
        if let Some((text, _)) = sink_notice(event) {
            push_act(acts, FileAct::Show(stamp(now.hour, now.min, now.sec, text.as_str())));
        }
        assert(acts_of(acts@) =~= before + done.acts);
    }

    fn capture_answered(
        &mut self,
        path: String,
        bytes: Vec<u8>,
        result: Result<(), String>,
        now: &LocalStamp,
        acts: &mut Vec<FileAct>,
    ) -> (r: Option<LogNext>)
        ensures
            ({
                let done = old(self)@.capture_answered(path@, bytes@, result, *now);
                &&& final(self)@ == done.run
                &&& acts_of(final(acts)@) == acts_of(old(acts)@) + done.acts
                &&& next_of(r) == done.open
            }),
    {
        let ghost done = self@.capture_answered(path@, bytes@, result, *now);
        let ghost before = acts_of(acts@);
        let text = match result {
            Ok(_) => {
                let text = self.capture.opened(path);
                self.capture.appended(bytes.len());
                push_act(acts, FileAct::Bytes(bytes));
                text
            },
            Err(e) => self.capture.open_failed(path.as_str(), e.as_str()),
        };
        let r = self.notice(text.as_str(), now, acts);
        assert(acts_of(acts@) =~= before + done.acts);
        r
    }

    fn answer(
        &mut self,
        result: Result<(), String>,
        now: &LocalStamp,
        acts: &mut Vec<FileAct>,
    ) -> (r: Option<LogNext>)
        ensures
            ({
                let done = old(self)@.answered(result, *now);
                &&& final(self)@ == done.run
                &&& acts_of(final(acts)@) == acts_of(old(acts)@) + done.acts
                &&& next_of(r) == done.open
            }),
    {
        let ghost before = acts_of(acts@);
        match self.pending.take() {
            None => {
                assert(acts_of(acts@) =~= before + Seq::<FileActView>::empty());
                None
            },
            Some(Pending::Bytes { path, bytes }) => self.capture_answered(
                path,
                bytes,
                result,
                now,
                acts,
            ),
            Some(Pending::Line(p)) => match result {
                Ok(_) => self.line_opened(p, now, acts),
                Err(e) => {
                    self.line_failed(p, e.as_str(), now, acts);
                    None
                },
            },
        }
    }

    fn flush_dailies(&mut self, acts: &mut Vec<FileAct>)
        ensures
            final(self)@ == old(self)@.dailies_flushed(),
            acts_of(final(acts)@) == acts_of(old(acts)@) + old(self)@.flush_dailies(),
    {
        let ghost flushes = self@.flush_dailies();
        if self.events.flush() {
            push_act(acts, FileAct::Flush(LogFile::Events));
        }
        if self.nmea.flush() {
            push_act(acts, FileAct::Flush(LogFile::Nmea));
        }
        assert(acts_of(acts@) =~= acts_of(old(acts)@) + flushes);
    }

    fn rest(&mut self, clock: u64, acts: &mut Vec<FileAct>) -> (r: LogNext)
        requires
            clock <= u64::MAX - NANOS_PER_SEC,
        ensures
            ({
                let s = old(self)@.rested(acts_of(old(acts)@), clock);
                &&& final(self)@ == s.run
                &&& acts_of(final(acts)@) == s.acts
                &&& r@ == s.next
            }),
    {
        let ghost s = self@.rested(acts_of(acts@), clock);
        if self.stopping {
            self.flush_dailies(acts);
            return LogNext::Stop;
        }
        if self.clock.due(clock) {
            self.flush_dailies(acts);
            if self.capture.flush() {
                push_act(acts, FileAct::Flush(LogFile::Capture));
            }
        }
        assert(acts_of(acts@) =~= s.acts);
        LogNext::Wait(self.clock.wait(clock))
    }

    /// Take what happened: what is to be done at once, in order, and what
    /// comes after that.
    pub fn step(
        &mut self,
        event: LogEvent,
        now: &LocalStamp,
        clock: u64,
    ) -> (r: (Vec<FileAct>, LogNext))
        requires
            old(self).expects(event),
            old(self)@.has_room(event),
            clock <= u64::MAX - NANOS_PER_SEC,
        ensures
            ({
                let s = old(self)@.stepped(event, *now, clock);
                &&& final(self)@ == s.run
                &&& acts_of(r.0@) == s.acts
                &&& r.1@ == s.next
            }),
    {
        let mut acts: Vec<FileAct> = Vec::new();
        let ghost done = self@.took(event, *now);
        assert(acts_of(acts@) =~= Seq::<FileActView>::empty());
        let open = match event {
            LogEvent::Command(cmd) => self.command(cmd, now, &mut acts),
            LogEvent::Quiet => None,
            LogEvent::Gone => self.shut_down(now, &mut acts),
            LogEvent::Opened(result) => self.answer(result, now, &mut acts),
        };
        assert(acts_of(acts@) =~= done.acts);
        let next = match open {
            Some(next) => next,
            None => self.rest(clock, &mut acts),
        };
        (acts, next)
    }
}

// ---------------------------------------------------------------------
// Laws
// ---------------------------------------------------------------------

/// Whether a line was shown, or waits for its file as a notice.
pub open spec fn announces(done: LogDone, line: Seq<char>) -> bool {
    ||| done.acts.contains(FileActView::Show(line))
    ||| (done.run.pending matches Some(PendingView::Line { line: l, notice, .. }) && notice && l
        == line)
}

/// With the event log on, every line is filed: at once when the file of its
/// date is open, else as soon as that file is.
pub proof fn law_event_lines_are_filed(
    m: LogModel,
    line: String,
    now: LocalStamp,
    later: LocalStamp,
)
    requires
        m.events.enabled,
    ensures
        ({
            let done = m.commanded(LogCmd::Event(line), now);
            let filed = FileActView::Text(LogFile::Events, line@ + "\r\n"@);
            &&& done.open is None ==> done.acts == seq![filed]
            &&& done.open is Some ==> done.run.answered(Ok(()), later).acts.len() > 0
                && done.run.answered(Ok(()), later).acts[0] == filed
        }),
{
    let done = m.commanded(LogCmd::Event(line), now);
    let filed = FileActView::Text(LogFile::Events, line@ + "\r\n"@);
    if done.open is None {
        assert(done.acts =~= seq![filed]);
    }
}

/// A sink that is off opens nothing and writes nothing.
pub proof fn law_switched_off_writes_nothing(m: LogModel, line: String, now: LocalStamp)
    ensures
        !m.events.enabled ==> m.commanded(LogCmd::Event(line), now) == m.idle(),
        !m.nmea.enabled ==> m.commanded(LogCmd::Nmea(line), now) == m.idle(),
{
}

/// A rollover is logged: the fresh event file starts with the line that
/// rolled it over, and the notice, which is also shown, follows.
pub proof fn law_rollover_is_logged(m: LogModel, line: String, now: LocalStamp)
    requires
        m.events.enabled,
        m.events.current is Some,
        m.events.current != Some(daily_name(now)),
    ensures
        ({
            let done = m.commanded(LogCmd::Event(line), now);
            let notice = event_line(now, "Log rolled over to "@ + daily_name(now));
            &&& done.open == Some(
                LogNextView::Append {
                    file: LogFile::Events,
                    dir: m.events.dir,
                    path: joined_path(m.events.dir, m.events.separator, daily_name(now)),
                },
            )
            &&& done.run.answered(Ok(()), now).acts == seq![
                FileActView::Text(LogFile::Events, line@ + "\r\n"@),
                FileActView::Text(LogFile::Events, notice + "\r\n"@),
                FileActView::Show(notice),
            ]
        }),
{
    let done = m.commanded(LogCmd::Event(line), now);
    let notice = event_line(now, "Log rolled over to "@ + daily_name(now));
    assert(done.run.answered(Ok(()), now).acts =~= seq![
        FileActView::Text(LogFile::Events, line@ + "\r\n"@),
        FileActView::Text(LogFile::Events, notice + "\r\n"@),
        FileActView::Show(notice),
    ]);
}

/// A notice that waits for the event file is shown whether it opens or not.
pub proof fn law_waiting_notice_is_shown(
    m: LogModel,
    line: Seq<char>,
    result: Result<(), String>,
    now: LocalStamp,
)
    requires
        m.pending matches Some(PendingView::Line { line: l, notice, .. }) && notice && l == line,
    ensures
        m.answered(result, now).acts.contains(FileActView::Show(line)),
{
    let acts = m.answered(result, now).acts;
    match result {
        Ok(_) => {
            assert(acts[1] == FileActView::Show(line));
        },
        Err(_) => {
            assert(acts[0] == FileActView::Show(line));
        },
    }
}

/// A notice is shown at once or waits for the event file.
proof fn lemma_noticed(m: LogModel, text: Seq<char>, now: LocalStamp)
    ensures
        announces(m.noticed(text, now), event_line(now, text)),
{
    let done = m.noticed(text, now);
    if done.open is None {
        assert(done.acts.last() == FileActView::Show(event_line(now, text)));
    }
}

/// However a capture ends (by its own command, by the next one's beginning or
/// by the logger's), its file is closed and its receipt announced.
pub proof fn law_capture_is_receipted(m: LogModel, event: LogEvent, now: LocalStamp)
    requires
        m.capture.open is Some,
        match event {
            LogEvent::Command(LogCmd::CaptureBegin { .. }) => true,
            LogEvent::Command(LogCmd::CaptureEnd) => true,
            LogEvent::Command(LogCmd::Shutdown) => true,
            LogEvent::Gone => true,
            _ => false,
        },
    ensures
        ({
            let done = m.took(event, now);
            let (path, count) = m.capture.open->0;
            &&& done.run.capture.open is None
            &&& done.acts.contains(FileActView::Close(LogFile::Capture))
            &&& announces(done, event_line(now, receipt(path, count)))
        }),
{
    let ends = LogModel {
        stopping: m.stopping || event is Gone || event == LogEvent::Command(LogCmd::Shutdown),
        ..m
    };
    let (path, count) = m.capture.open->0;
    let closed = LogModel {
        capture: CaptureModel { armed: None, open: None, dirty: false, ..ends.capture },
        ..ends
    };
    let text = receipt(path, count);
    lemma_noticed(closed, text, now);
    let inner = closed.noticed(text, now);
    let done = m.took(event, now);
    assert(done.acts =~= seq![
        FileActView::Flush(LogFile::Capture),
        FileActView::Close(LogFile::Capture),
    ] + inner.acts);
    assert(done.acts[1] == FileActView::Close(LogFile::Capture));
    let shown = FileActView::Show(event_line(now, text));
    if inner.acts.contains(shown) {
        let i = choose|i: int| 0 <= i < inner.acts.len() && inner.acts[i] == shown;
        assert(done.acts[i + 2] == shown);
    }
}

impl LogModel {
    /// A logger that stops has no capture left.
    pub open spec fn wf(self) -> bool {
        self.stopping ==> self.capture.open is None && !(self.pending is Some && self.pending->0
            is Bytes)
    }
}

/// What filing a line leaves alone.
proof fn lemma_wrote_frame(
    m: LogModel,
    nmea: bool,
    line: Seq<char>,
    notice: bool,
    now: LocalStamp,
)
    ensures
        ({
            let done = m.wrote(nmea, line, notice, now);
            &&& done.run.capture == m.capture
            &&& done.run.next_flush == m.next_flush
            &&& done.run.stopping == m.stopping
            &&& done.run.pending == m.pending || done.run.pending->0 is Line
            &&& done.open matches Some(next) ==> next is Append
        }),
{
}

proof fn lemma_receipted_frame(m: LogModel, now: LocalStamp)
    ensures
        ({
            let done = m.receipted(now);
            &&& done.run.capture.open is None
            &&& done.run.next_flush == m.next_flush
            &&& done.run.stopping == m.stopping
            &&& done.run.pending == m.pending || done.run.pending->0 is Line
            &&& done.open matches Some(next) ==> next is Append
        }),
{
    if m.capture.open is Some {
        let (path, count) = m.capture.open->0;
        let closed = LogModel {
            capture: CaptureModel { armed: None, open: None, dirty: false, ..m.capture },
            ..m
        };
        lemma_wrote_frame(closed, false, event_line(now, receipt(path, count)), true, now);
    }
}

proof fn lemma_answered_frame(m: LogModel, result: Result<(), String>, now: LocalStamp)
    requires
        m.wf(),
        m.pending is Some,
    ensures
        ({
            let done = m.answered(result, now);
            &&& done.run.wf()
            &&& done.run.next_flush == m.next_flush
            &&& done.run.stopping == m.stopping
            &&& done.open matches Some(next) ==> next is Append
        }),
{
    let free = LogModel { pending: None, ..m };
    match m.pending->0 {
        PendingView::Bytes { path, bytes } => {
            match result {
                Ok(_) => {
                    let open = LogModel {
                        capture: CaptureModel {
                            open: Some((path, bytes.len() as u64)),
                            dirty: true,
                            ..free.capture
                        },
                        ..free
                    };
                    let text = "Capturing corrections to "@ + path;
                    lemma_wrote_frame(open, false, event_line(now, text), true, now);
                },
                Err(e) => {
                    let failed = LogModel {
                        capture: CaptureModel { failed: true, ..free.capture },
                        ..free
                    };
                    let text = "Could not open capture file "@ + path + ": "@ + e@;
                    lemma_wrote_frame(failed, false, event_line(now, text), true, now);
                },
            }
        },
        PendingView::Line { nmea, name, rolled, .. } => {
            let open = free.with_daily(
                nmea,
                DailyModel { current: Some(name), failed: false, dirty: true, ..free.daily(nmea) },
            );
            let text = "Log rolled over to "@ + name;
            lemma_wrote_frame(open, false, event_line(now, text), true, now);
        },
    }
}

/// What an event leaves alone, and when the logger begins to stop.
proof fn lemma_took_frame(m: LogModel, event: LogEvent, now: LocalStamp)
    requires
        m.wf(),
        m.expects(event),
        m.stopping ==> event is Opened,
    ensures
        ({
            let done = m.took(event, now);
            &&& done.run.wf()
            &&& done.run.next_flush == m.next_flush
            &&& done.open matches Some(next) ==> next is Append || next is Create
        }),
{
    match event {
        LogEvent::Quiet => {},
        LogEvent::Gone => {
            lemma_receipted_frame(LogModel { stopping: true, ..m }, now);
        },
        LogEvent::Opened(result) => {
            lemma_answered_frame(m, result, now);
        },
        LogEvent::Command(cmd) => match cmd {
            LogCmd::Event(line) => {
                lemma_wrote_frame(m, false, line@, false, now);
            },
            LogCmd::Nmea(line) => {
                lemma_wrote_frame(m, true, line@, false, now);
            },
            LogCmd::Shutdown => {
                lemma_receipted_frame(LogModel { stopping: true, ..m }, now);
            },
            _ => {
                lemma_receipted_frame(m, now);
            },
        },
    }
}

/// The logger stops only with every file flushed and no capture open.
pub proof fn law_logger_stops_flushed(m: LogModel, event: LogEvent, now: LocalStamp, clock: u64)
    requires
        m.wf(),
        m.expects(event),
        m.stopping ==> event is Opened,
    ensures
        ({
            let s = m.stepped(event, now, clock);
            &&& s.run.wf()
            &&& s.next is Stop ==> !s.run.events.dirty && !s.run.nmea.dirty && s.run.capture.open
                is None
        }),
{
    lemma_took_frame(m, event, now);
}

/// Whatever arrives, files are flushed within a second: the logger never
/// waits past its next flush, which is at most a second away, and a flush
/// that is due leaves nothing unflushed.
pub proof fn law_files_are_flushed_every_second(
    m: LogModel,
    event: LogEvent,
    now: LocalStamp,
    clock: u64,
)
    requires
        m.wf(),
        m.expects(event),
        m.stopping ==> event is Opened,
        m.next_flush <= clock + NANOS_PER_SEC,
        clock <= u64::MAX - NANOS_PER_SEC,
    ensures
        ({
            let s = m.stepped(event, now, clock);
            s.next matches LogNextView::Wait(n) ==> {
                &&& n <= NANOS_PER_SEC
                &&& clock + n == s.run.next_flush
                &&& clock >= m.next_flush ==> !s.run.events.dirty && !s.run.nmea.dirty
                    && !s.run.capture.dirty
            }
        }),
{
    lemma_took_frame(m, event, now);
}

} // verus!
