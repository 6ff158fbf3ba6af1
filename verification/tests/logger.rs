//! The logger's run, on files kept in memory.
use std::collections::BTreeMap;

use open_ntrip_client::logger::{FileAct, LogEvent, LogFile, LogNext, LogRun};
use open_ntrip_client::logging::{daily_filename, CaptureTarget, LocalStamp, LogCmd};

const SECOND: u64 = 1_000_000_000;

fn at(day: u8, hour: u8, min: u8, sec: u8) -> LocalStamp {
    LocalStamp { year: 2026, month: 7, day, hour, min, sec }
}

/// A logger with its open files, and what has reached the disk.
struct Desk {
    run: LogRun,
    now: LocalStamp,
    clock: u64,
    open: BTreeMap<u8, (String, Vec<u8>)>,
    disk: BTreeMap<String, Vec<u8>>,
    shown: Vec<String>,
    /// Paths below these cannot be opened.
    blocked: Vec<String>,
    waits: Vec<u64>,
    stopped: bool,
}

fn key(file: LogFile) -> u8 {
    match file {
        LogFile::Events => 0,
        LogFile::Nmea => 1,
        LogFile::Capture => 2,
    }
}

impl Desk {
    fn new(events: bool, nmea: bool) -> Self {
        Desk {
            run: LogRun::new("Logs".to_string(), "NMEA".to_string(), '/', events, nmea, 0),
            now: at(16, 10, 0, 0),
            clock: 0,
            open: BTreeMap::new(),
            disk: BTreeMap::new(),
            shown: Vec::new(),
            blocked: Vec::new(),
            waits: Vec::new(),
            stopped: false,
        }
    }

    fn flush(&mut self, file: LogFile) {
        if let Some((path, pending)) = self.open.get_mut(&key(file)) {
            self.disk.entry(path.clone()).or_default().append(pending);
        }
    }

    fn write(&mut self, file: LogFile, bytes: &[u8]) {
        let (_, pending) = self.open.get_mut(&key(file)).expect("written while open");
        pending.extend_from_slice(bytes);
    }

    fn opening(&mut self, file: LogFile, path: String) -> LogEvent {
        assert!(!self.open.contains_key(&key(file)), "closed before it is opened again");
        if self.blocked.iter().any(|b| path.starts_with(b.as_str())) {
            return LogEvent::Opened(Err("denied".to_string()));
        }
        self.open.insert(key(file), (path, Vec::new()));
        LogEvent::Opened(Ok(()))
    }

    fn take(&mut self, event: LogEvent) {
        let mut event = event;
        loop {
            let (acts, next) = self.run.step(event, &self.now, self.clock);
            for act in acts {
                match act {
                    FileAct::Text(file, text) => self.write(file, text.as_bytes()),
                    FileAct::Bytes(bytes) => self.write(LogFile::Capture, &bytes),
                    FileAct::Flush(file) => self.flush(file),
                    FileAct::Close(file) => {
                        self.flush(file);
                        self.open.remove(&key(file));
                    }
                    FileAct::Show(line) => self.shown.push(line),
                }
            }
            event = match next {
                LogNext::Append { file, dir, path } => {
                    assert!(path.starts_with(&format!("{dir}/")));
                    self.opening(file, path)
                }
                LogNext::Create { path } => self.opening(LogFile::Capture, path),
                LogNext::Wait(ns) => {
                    self.waits.push(ns);
                    return;
                }
                LogNext::Stop => {
                    self.stopped = true;
                    return;
                }
            };
        }
    }

    fn command(&mut self, cmd: LogCmd) {
        self.take(LogEvent::Command(cmd));
    }

    fn event(&mut self, line: &str) {
        self.command(LogCmd::Event(line.to_string()));
    }

    fn text(&self, path: &str) -> String {
        let bytes = self.disk.get(path).cloned().unwrap_or_default();
        String::from_utf8(bytes).unwrap()
    }
}

#[test]
fn logger_thread_writes_flushes_and_shuts_down() {
    let mut d = Desk::new(true, true);
    d.event("10:00:00 hello");
    d.command(LogCmd::Nmea("$GPGGA,raw".to_string()));
    assert!(d.disk.is_empty(), "lines are buffered");
    d.command(LogCmd::Shutdown);
    assert!(d.stopped);
    let name = daily_filename(&d.now);
    let events = d.text(&format!("Logs/{name}"));
    let nmea = d.text(&format!("NMEA/{name}"));
    assert!(events.contains("10:00:00 hello"));
    assert!(nmea.contains("$GPGGA,raw"));
    assert_eq!(events, "10:00:00 hello\r\n");
    assert_eq!(nmea, "$GPGGA,raw\r\n");
    assert!(d.shown.is_empty());
}

#[test]
fn continuous_traffic_still_flushes_within_a_second() {
    let mut d = Desk::new(true, false);
    d.event("flush probe");
    for k in 1..=20_u64 {
        d.clock = k * SECOND / 10;
        d.event("flush probe");
        let seen = d.text("Logs/20260716.txt").contains("flush probe");
        assert_eq!(
            seen,
            k >= 10,
            "line was not flushed to disk while the logger stayed busy"
        );
    }
    assert!(d.waits.iter().all(|w| *w <= SECOND));
    assert_eq!(d.waits[1], 9 * SECOND / 10);
}

#[test]
fn a_rollover_is_logged_and_shown() {
    let mut d = Desk::new(true, true);
    d.event("first");
    d.now = at(17, 0, 0, 1);
    d.event("second");
    d.command(LogCmd::Shutdown);
    assert_eq!(d.text("Logs/20260716.txt"), "first\r\n");
    assert_eq!(
        d.text("Logs/20260717.txt"),
        "second\r\n00:00:01 Log rolled over to 20260717.txt\r\n"
    );
    assert_eq!(d.shown, ["00:00:01 Log rolled over to 20260717.txt"]);
}

#[test]
fn a_sentence_that_rolls_over_is_noted_in_the_event_log() {
    let mut d = Desk::new(true, true);
    d.command(LogCmd::Nmea("$A".to_string()));
    d.now = at(17, 0, 0, 1);
    d.command(LogCmd::Nmea("$B".to_string()));
    d.command(LogCmd::Shutdown);
    assert_eq!(d.text("NMEA/20260717.txt"), "$B\r\n");
    assert_eq!(
        d.text("Logs/20260717.txt"),
        "00:00:01 Log rolled over to 20260717.txt\r\n"
    );
}

#[test]
fn a_notice_that_rolls_over_is_logged_too() {
    let mut d = Desk::new(true, false);
    d.event("first");
    d.command(LogCmd::CaptureBegin {
        target: CaptureTarget::File("c".to_string()),
        mount: String::new(),
    });
    d.now = at(17, 0, 0, 2);
    d.command(LogCmd::CaptureData(vec![1]));
    d.command(LogCmd::Shutdown);
    assert_eq!(
        d.text("Logs/20260717.txt"),
        "00:00:02 Capturing corrections to c\r\n\
         00:00:02 Log rolled over to 20260717.txt\r\n\
         00:00:02 Correction capture closed: c (1 bytes)\r\n"
    );
}

#[test]
fn an_unopenable_log_is_shown_once() {
    let mut d = Desk::new(true, true);
    d.blocked.push("Logs".to_string());
    d.event("lost");
    d.event("lost too");
    assert_eq!(d.shown, ["10:00:00 Could not open Logs/20260716.txt: denied"]);
    d.blocked.clear();
    d.event("kept");
    d.command(LogCmd::Shutdown);
    assert_eq!(d.text("Logs/20260716.txt"), "kept\r\n");
}

#[test]
fn switching_off_writes_out_and_stops_writing() {
    let mut d = Desk::new(true, true);
    d.event("kept");
    d.command(LogCmd::SetEventLog(false));
    assert_eq!(d.text("Logs/20260716.txt"), "kept\r\n");
    d.event("dropped");
    d.command(LogCmd::SetEventLog(true));
    d.event("again");
    d.command(LogCmd::Nmea("$A".to_string()));
    d.command(LogCmd::SetNmeaLog(false));
    d.take(LogEvent::Gone);
    assert!(d.stopped);
    assert_eq!(d.text("Logs/20260716.txt"), "kept\r\nagain\r\n");
    assert_eq!(d.text("NMEA/20260716.txt"), "$A\r\n");
}

#[test]
fn captures_are_exact_and_receipted_however_they_end() {
    let begin = |path: &str| LogCmd::CaptureBegin {
        target: CaptureTarget::File(path.to_string()),
        mount: "M".to_string(),
    };
    let mut d = Desk::new(true, false);
    d.command(LogCmd::CaptureData(vec![9]));
    assert!(d.open.is_empty(), "nothing is captured before a connection");
    d.command(begin("a"));
    d.command(LogCmd::CaptureData(vec![1, 2, 3]));
    d.command(LogCmd::CaptureData(vec![4]));
    d.command(LogCmd::CaptureEnd);
    d.command(begin("b"));
    d.command(LogCmd::CaptureData(vec![5, 6]));
    d.command(begin("c"));
    d.command(LogCmd::CaptureData(vec![7]));
    assert!(d.run.has_room(10));
    d.command(LogCmd::Shutdown);
    assert_eq!(d.disk["a"], [1, 2, 3, 4]);
    assert_eq!(d.disk["b"], [5, 6]);
    assert_eq!(d.disk["c"], [7]);
    let expected = [
        "10:00:00 Capturing corrections to a",
        "10:00:00 Correction capture closed: a (4 bytes)",
        "10:00:00 Capturing corrections to b",
        "10:00:00 Correction capture closed: b (2 bytes)",
        "10:00:00 Capturing corrections to c",
        "10:00:00 Correction capture closed: c (1 bytes)",
    ];
    assert_eq!(d.shown, expected);
    assert_eq!(d.text("Logs/20260716.txt"), expected.join("\r\n") + "\r\n");
}

#[test]
fn a_capture_that_cannot_open_is_reported_once() {
    let mut d = Desk::new(false, false);
    d.blocked.push("cap".to_string());
    d.command(LogCmd::CaptureBegin {
        target: CaptureTarget::Dir("cap".to_string()),
        mount: "M".to_string(),
    });
    d.command(LogCmd::CaptureData(vec![1]));
    d.command(LogCmd::CaptureData(vec![2]));
    d.command(LogCmd::Shutdown);
    assert!(d.stopped);
    assert_eq!(
        d.shown,
        ["10:00:00 Could not open capture file cap/20260716_100000_M.rtcm: denied"]
    );
    assert!(d.disk.is_empty());
}
