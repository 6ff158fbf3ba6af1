//! Serial worker policy.
use open_ntrip_client::bus::{Effect, Outbox, SerialStatus};
use open_ntrip_client::settings::SerialCfg;
use open_ntrip_client::vocab::{NovatelFormat, ParityCfg};
use open_ntrip_client::workers::serial::{
    closed, command_sent, is_sentence_line, list_ports, novatel_commands, on_position, open_failed,
    opened, port_label, port_summary, read_failed, read_fault, write_fault, BlockWriter, Drain,
    DrainStep, ForwardStep, Gga, LineAssembler, NmeaWatch, PortFault, PortKind, SerialAct,
    SerialEvent, SerialRead, SerialRun, WriteEvent,
};
use open_ntrip_client::workers::CorrQueue;

/// Writer accepting at most `chunk` bytes per call (a serial port's
/// short write timeout produces exactly this partial-progress shape);
/// flips `cancel` once `trip_at` total bytes have been written.
struct SlowPort {
    written: Vec<u8>,
    chunk: usize,
    cancel: bool,
    trip_at: Option<usize>,
}

impl SlowPort {
    fn new(chunk: usize) -> Self {
        SlowPort { written: Vec::new(), chunk, cancel: false, trip_at: None }
    }

    fn write(&mut self, buf: &[u8]) -> usize {
        let n = buf.len().min(self.chunk);
        self.written.extend_from_slice(&buf[..n]);
        if let Some(t) = self.trip_at {
            if self.written.len() >= t {
                self.cancel = true;
            }
        }
        n
    }
}

/// Run one block through a port, as the worker does.
fn forward_block(port: &mut SlowPort, block: &[u8]) -> Result<bool, String> {
    let mut w = BlockWriter::new(block.to_vec());
    let mut event = WriteEvent::Start;
    loop {
        match w.forward_block(event, port.cancel) {
            ForwardStep::Write(bytes) => event = WriteEvent::Wrote(port.write(&bytes)),
            ForwardStep::Done => return Ok(true),
            ForwardStep::Cancelled => return Ok(false),
            ForwardStep::Failed(e) => return Err(e),
        }
    }
}

fn drain_corrections(port: &mut SlowPort, corr: &mut CorrQueue) -> Result<(), String> {
    let mut d = Drain::new();
    let mut event = WriteEvent::Start;
    loop {
        match d.drain_corrections(corr, event, port.cancel) {
            DrainStep::Write(bytes) => event = WriteEvent::Wrote(port.write(&bytes)),
            DrainStep::Finished => return Ok(()),
            DrainStep::Failed(e) => return Err(e),
        }
    }
}

#[test]
fn forward_block_writes_everything_when_not_cancelled() {
    let mut port = SlowPort::new(7);
    let block: Vec<u8> = (0..=99).collect();
    assert!(forward_block(&mut port, &block).unwrap());
    assert_eq!(port.written, block, "byte-exact across partial writes");
}

#[test]
fn forward_block_stops_between_partial_writes_on_cancel() {
    let mut port = SlowPort::new(4);
    port.trip_at = Some(12);
    let block = vec![0u8; 8192];
    let done = forward_block(&mut port, &block).unwrap();
    assert!(!done, "cancel mid-block must abandon the rest");
    assert_eq!(port.written.len(), 12, "no further slices after the cancel flag flipped");
}

#[test]
fn forward_block_zero_progress_is_an_error_like_write_all() {
    let mut port = SlowPort::new(0);
    assert!(forward_block(&mut port, &[1, 2, 3]).is_err());
}

#[test]
fn forward_block_reports_write_failures() {
    let mut w = BlockWriter::new(vec![1, 2]);
    assert!(matches!(w.forward_block(WriteEvent::Start, false), ForwardStep::Write(_)));
    let ForwardStep::Failed(e) = w.forward_block(WriteEvent::Failed("gone".to_string()), false)
    else {
        panic!("a failed write ends the block");
    };
    assert!(e.contains("gone"), "{e}");
}

/// The sustained-overrun regime: the queue refills faster than the port
/// drains, so only the drain loop's own cancel checks can end it.
#[test]
fn drain_corrections_honors_cancel_mid_backlog() {
    let mut corr = CorrQueue::new(16);
    corr.set_active(true);
    for _ in 0..8 {
        corr.push(vec![0u8; 1024]);
    }
    let mut port = SlowPort::new(64);
    port.trip_at = Some(256); // cancel lands inside the first block
    drain_corrections(&mut port, &mut corr).unwrap();
    assert_eq!(port.written.len(), 256);
    assert!(
        corr.try_pop().is_some(),
        "remaining backlog stays queued (set_active(false) clears it later)"
    );
}

#[test]
fn drain_corrections_empties_queue_and_returns() {
    let mut corr = CorrQueue::new(16);
    corr.set_active(true);
    corr.push(vec![1, 2, 3]);
    corr.push(vec![4, 5]);
    let mut port = SlowPort::new(2);
    drain_corrections(&mut port, &mut corr).unwrap();
    assert_eq!(port.written, vec![1, 2, 3, 4, 5]);
    assert!(corr.try_pop().is_none());
}

fn quality_name(q: u8) -> &'static str {
    match q {
        0 => "Invalid",
        1 => "GPS",
        2 => "DGPS",
        4 => "RTK Fixed",
        5 => "RTK Float",
        _ => "Other",
    }
}

fn gga(quality: u8, sats: u8, hdop: Option<f32>, age: Option<f32>, station: Option<u16>) -> Gga {
    Gga {
        quality,
        quality_name: quality_name(quality).to_string(),
        sats,
        hdop_tenths: hdop.map(|h| (h * 10.0).round() as i32),
        age_text: age.map(|a| format!("{a:.1}")),
        station_id: station,
        raw: String::new(),
    }
}

#[test]
fn quality_transitions_named_like_original() {
    let mut w = NmeaWatch::default();
    // Baseline is Invalid (0): a first fix logs the transition.
    let lines = w.on_gga(&gga(5, 10, None, None, None));
    assert!(lines.contains(&"Invalid -> RTK Float".to_string()), "{lines:?}");
    let lines = w.on_gga(&gga(4, 10, None, None, None));
    assert!(lines.contains(&"RTK Float -> RTK Fixed".to_string()), "{lines:?}");
    // No change, no line.
    assert!(w.on_gga(&gga(4, 10, None, None, None)).is_empty());
}

#[test]
fn rtk_degrade_warns_with_correction_age() {
    let mut w = NmeaWatch::default();
    w.on_gga(&gga(4, 10, None, Some(1.0), None));
    let lines = w.on_gga(&gga(1, 10, None, Some(11.5), None));
    assert!(lines.contains(&"RTK Fixed -> GPS".to_string()), "{lines:?}");
    assert!(
        lines.iter().any(|l| l.contains("correction data age was 11.5 s")),
        "{lines:?}"
    );
    // Fixed -> Float also warns; Float -> Fixed must not.
    let mut w = NmeaWatch::default();
    w.on_gga(&gga(4, 10, None, Some(1.0), None));
    let lines = w.on_gga(&gga(5, 10, None, Some(9.0), None));
    assert!(lines.iter().any(|l| l.contains("RTK degraded")), "{lines:?}");
    let lines = w.on_gga(&gga(4, 10, None, Some(1.0), None));
    assert!(
        !lines.iter().any(|l| l.contains("degraded")),
        "upgrade must not warn: {lines:?}"
    );
}

#[test]
fn satellite_and_hdop_and_station_changes() {
    let mut w = NmeaWatch::default();
    let first = w.on_gga(&gga(1, 8, Some(1.21), None, Some(0)));
    // First observation: only quality transition and station announce.
    assert!(first.contains(&"Invalid -> GPS".to_string()));
    assert!(first.contains(&"Base station ID: 0".to_string()));
    assert!(!first.iter().any(|l| l.starts_with("Satellites")), "{first:?}");

    let lines = w.on_gga(&gga(1, 10, Some(1.24), None, Some(0)));
    assert!(lines.contains(&"Satellites: 8 -> 10".to_string()), "{lines:?}");
    // 1.21 and 1.24 both display as 1.2: no HDOP line.
    assert!(!lines.iter().any(|l| l.starts_with("HDOP")), "{lines:?}");

    let lines = w.on_gga(&gga(1, 10, Some(0.9), None, Some(451)));
    assert!(lines.contains(&"HDOP: 1.2 -> 0.9".to_string()), "{lines:?}");
    assert!(lines.contains(&"Base station ID: 0 -> 451".to_string()), "{lines:?}");
}

#[test]
fn novatel_command_sequence_exact() {
    assert_eq!(
        novatel_commands(NovatelFormat::Rtcmv3, 5),
        vec![
            "unlogall thisport",
            "log thisport gpggalong ontime 0.2",
            "log thisport gprmc ontime 0.2",
            "interfacemode thisport rtcmv3 novatel",
        ]
    );
    assert_eq!(
        novatel_commands(NovatelFormat::Cmr, 1)[1],
        "log thisport gpggalong ontime 1.0"
    );
    assert_eq!(
        novatel_commands(NovatelFormat::Omnistar, 10)[2],
        "log thisport gprmc ontime 0.1"
    );
    assert_eq!(
        novatel_commands(NovatelFormat::Novatel, 10)[3],
        "interfacemode thisport novatel novatel"
    );
}

#[test]
fn port_summary_format() {
    let cfg = SerialCfg::default();
    assert_eq!(port_summary(&cfg), "115200 8-N-1");
    let cfg = SerialCfg {
        baud: 9600,
        data_bits: 7,
        stop_bits: 2,
        parity: ParityCfg::Even,
        ..SerialCfg::default()
    };
    assert_eq!(port_summary(&cfg), "9600 7-E-2");
}

#[test]
fn line_assembly_updates_last_gga_slot() {
    let body = "GPGGA,123519,4807.038,N,01131.000,E,1,08,0.9,545.4,M,46.9,M,,";
    let ck = body.bytes().fold(0u8, |a, b| a ^ b);
    let sentence = format!("${body}*{ck:02X}");
    let wire = format!("noise\r\n{sentence}\r\n$GPXTE,bad*00\r\n");
    let mut assembler = LineAssembler::new();
    let mut watch = NmeaWatch::default();
    let mut last: Option<String> = None;
    let mut out = Outbox::new();
    // Split across arbitrary boundaries to prove reassembly.
    for chunk in wire.as_bytes().chunks(7) {
        for line in assembler.on_rx_bytes(chunk) {
            if is_sentence_line(&line) && line.starts_with("$GPGGA") {
                let mut g = gga(1, 8, Some(0.9), None, None);
                g.raw = line.clone();
                last = Some(on_position(&mut watch, &g, &mut out));
            }
        }
    }
    assert_eq!(last.as_deref(), Some(sentence.as_str()));
}

#[test]
fn assembler_cuts_lines_and_survives_bad_bytes() {
    let mut a = LineAssembler::new();
    assert!(a.on_rx_bytes(b"  $A").is_empty());
    assert_eq!(a.on_rx_bytes(b"BC \r\n\r\n$D\n"), vec!["$ABC".to_string(), "$D".to_string()]);
    assert_eq!(a.on_rx_bytes(b"x\xFFy\n"), vec!["x\u{FFFD}y".to_string()]);
    assert!(is_sentence_line("$GPGGA"));
    assert!(!is_sentence_line("noise"));
}

#[test]
fn link_events_are_posted() {
    let cfg = SerialCfg { port: "COM4".to_string(), ..SerialCfg::default() };
    let mut out = Outbox::new();
    open_failed(&cfg, "no such port", &mut out);
    let effects = out.into_effects();
    assert!(effects.iter().any(|e| matches!(
        e,
        Effect::Serial(SerialStatus::Disconnected { reason }) if reason.contains("COM4")
    )));

    let mut corr = CorrQueue::new(4);
    let mut out = Outbox::new();
    opened(&cfg, &mut corr, &mut out);
    corr.push(vec![1]);
    assert!(out.into_effects().iter().any(|e| matches!(
        e,
        Effect::Serial(SerialStatus::Connected { port, detail })
            if port == "COM4" && detail == "115200 8-N-1"
    )));
    let mut out = Outbox::new();
    closed(&cfg, None, &mut corr, &mut out);
    assert!(corr.try_pop().is_none(), "a closed port leaves no backlog");

    let mut out = Outbox::new();
    assert!(command_sent("unlogall thisport", None, &mut out).is_none());
    assert!(command_sent("unlogall thisport", Some("broken"), &mut out).is_some());
}

#[test]
fn ports_are_listed_in_order_with_labels() {
    let found = vec![
        ("COM9".to_string(), PortKind::Other),
        ("COM10".to_string(), PortKind::Usb(Some("u-blox".to_string()))),
        ("COM3".to_string(), PortKind::Bluetooth),
        ("COM3".to_string(), PortKind::Usb(None)),
    ];
    let expected = vec![
        ("COM10".to_string(), "u-blox".to_string()),
        ("COM3".to_string(), String::new()),
        ("COM3".to_string(), "Bluetooth".to_string()),
        ("COM9".to_string(), String::new()),
    ];
    assert_eq!(list_ports(found.clone()), expected);
    let mut reversed = found;
    reversed.reverse();
    assert_eq!(list_ports(reversed), expected);
    assert_eq!(port_label(&PortKind::Usb(Some("x".to_string()))), "x");
}

#[test]
fn an_interrupted_write_is_offered_again() {
    let mut w = BlockWriter::new(vec![1, 2, 3]);
    assert!(matches!(w.forward_block(WriteEvent::Start, false), ForwardStep::Write(_)));
    let ForwardStep::Write(again) = w.forward_block(WriteEvent::Interrupted, false) else {
        panic!("an interrupted write must be retried");
    };
    assert_eq!(again, vec![1, 2, 3]);
    assert!(matches!(w.forward_block(WriteEvent::Wrote(3), false), ForwardStep::Done));

    let mut w = BlockWriter::new(vec![1, 2, 3]);
    assert!(matches!(
        w.forward_block(WriteEvent::Interrupted, true),
        ForwardStep::Cancelled
    ));

    let mut corr = CorrQueue::new(2);
    corr.set_active(true);
    corr.push(vec![4, 5]);
    let mut drain = Drain::new();
    drain.drain_corrections(&mut corr, WriteEvent::Start, false);
    let DrainStep::Write(again) = drain.drain_corrections(&mut corr, WriteEvent::Interrupted, false)
    else {
        panic!("an interrupted write must be retried");
    };
    assert_eq!(again, vec![4, 5]);
}

#[test]
fn a_vanished_port_is_worded() {
    assert_eq!(read_failed("unplugged"), "Serial error: unplugged");
}

/// A session on a port that is fed by hand.
struct Session {
    run: SerialRun,
    corr: CorrQueue,
    cancelled: bool,
    events: Vec<String>,
    statuses: Vec<SerialStatus>,
    lines: Vec<String>,
}

impl Session {
    fn new(cfg: SerialCfg) -> Self {
        Session {
            run: SerialRun::new(cfg),
            corr: CorrQueue::new(8),
            cancelled: false,
            events: Vec::new(),
            statuses: Vec::new(),
            lines: Vec::new(),
        }
    }

    fn step(&mut self, event: SerialEvent) -> SerialAct {
        let mut out = Outbox::new();
        let (act, lines) = self.run.step(event, self.cancelled, &mut self.corr, &mut out);
        self.lines.extend(lines);
        for effect in out.into_effects() {
            match effect {
                Effect::Event(t) => self.events.push(t),
                Effect::Serial(s) => self.statuses.push(s),
                other => panic!("unexpected effect {other:?}"),
            }
        }
        act
    }

    fn last_reason(&self) -> String {
        match self.statuses.last() {
            Some(SerialStatus::Disconnected { reason }) => reason.clone(),
            other => panic!("not disconnected: {other:?}"),
        }
    }
}

fn opened_ok() -> SerialEvent {
    SerialEvent::Opened(Ok(()))
}

fn com4(autoconfig: bool) -> SerialCfg {
    SerialCfg { port: "COM4".to_string(), novatel_autoconfig: autoconfig, ..SerialCfg::default() }
}

/// The window reaps a worker that has ended: one whose port does not open
/// posts why, and ends.
#[test]
fn failed_open_posts_disconnected_then_thread_finishes() {
    let mut s = Session::new(SerialCfg {
        port: "COM_NO_SUCH_PORT_9999".to_string(),
        novatel_autoconfig: true,
        ..SerialCfg::default()
    });
    let act = s.step(SerialEvent::Opened(Err("busy".to_string())));
    assert!(matches!(act, SerialAct::End), "thread must exit after its final post");
    let reason = s.last_reason();
    assert!(reason.contains("COM_NO_SUCH_PORT_9999"), "{reason}");
    assert_eq!(reason, "Could not open COM_NO_SUCH_PORT_9999: busy");
    assert_eq!(s.events, [reason]);
}

#[test]
fn the_receiver_is_configured_before_any_traffic() {
    let cfg = SerialCfg { novatel_format: NovatelFormat::Cmr, novatel_rate_hz: 10, ..com4(true) };
    let mut s = Session::new(cfg);
    let commands = novatel_commands(NovatelFormat::Cmr, 10);
    assert_eq!(commands.len(), 4);
    s.corr.set_active(true);
    s.corr.push(vec![1, 2, 3]);
    // A cancel does not cut the configuration short.
    s.cancelled = true;
    let mut act = s.step(opened_ok());
    for (i, c) in commands.iter().enumerate() {
        let SerialAct::Send(text) = act else {
            panic!("command {i} must come before corrections");
        };
        assert_eq!(text, format!("{c}\r\n"));
        if i + 1 == commands.len() {
            s.cancelled = false;
        }
        act = s.step(SerialEvent::Sent(Ok(())));
    }
    let SerialAct::Write(bytes) = act else {
        panic!("corrections follow the last command");
    };
    assert_eq!(bytes, vec![1, 2, 3]);
    let expected: Vec<String> = std::iter::once("Serial port COM4 opened (115200 8-N-1)".to_string())
        .chain(commands.iter().map(|c| format!("Sent to receiver: {c}")))
        .collect();
    assert_eq!(s.events, expected);
}

#[test]
fn a_refused_command_ends_the_session() {
    let mut s = Session::new(com4(true));
    assert!(matches!(s.step(opened_ok()), SerialAct::Send(_)));
    assert!(matches!(s.step(SerialEvent::Sent(Ok(()))), SerialAct::Send(_)));
    s.corr.push(vec![9]);
    let act = s.step(SerialEvent::Sent(Err("gone".to_string())));
    assert!(matches!(act, SerialAct::End));
    assert_eq!(s.last_reason(), "Receiver command failed: gone");
    assert_eq!(s.events.last().unwrap(), "Receiver command failed: gone; port closed");
    assert!(s.corr.try_pop().is_none());
}

#[test]
fn a_session_drains_then_reads_in_turns() {
    let mut s = Session::new(com4(false));
    assert!(matches!(s.step(opened_ok()), SerialAct::Read));
    s.corr.push(vec![1, 2, 3]);
    s.corr.push(vec![4]);
    let data = SerialEvent::Read(SerialRead::Data(b"$A\r\n$B".to_vec()));
    let SerialAct::Write(bytes) = s.step(data) else {
        panic!("queued corrections come before the next read");
    };
    assert_eq!(bytes, vec![1, 2, 3]);
    assert_eq!(s.lines, vec!["$A"]);
    let SerialAct::Write(bytes) = s.step(SerialEvent::Port(WriteEvent::Wrote(2))) else {
        panic!("the rest of the block is offered");
    };
    assert_eq!(bytes, vec![3]);
    let SerialAct::Write(bytes) = s.step(SerialEvent::Port(WriteEvent::Wrote(1))) else {
        panic!("the next block follows");
    };
    assert_eq!(bytes, vec![4]);
    assert!(matches!(s.step(SerialEvent::Port(WriteEvent::Wrote(1))), SerialAct::Read));
    assert!(matches!(s.step(SerialEvent::Read(SerialRead::Nothing)), SerialAct::Read));
    let data = SerialEvent::Read(SerialRead::Data(b"C\n".to_vec()));
    assert!(matches!(s.step(data), SerialAct::Read));
    assert_eq!(s.lines, vec!["$A", "$BC"]);
    let act = s.step(SerialEvent::Read(SerialRead::Failed("unplugged".to_string())));
    assert!(matches!(act, SerialAct::End));
    assert_eq!(s.last_reason(), "Serial error: unplugged");
}

#[test]
fn a_failed_write_skips_the_read() {
    let mut s = Session::new(com4(false));
    assert!(matches!(s.step(opened_ok()), SerialAct::Read));
    s.corr.push(vec![1]);
    assert!(matches!(s.step(SerialEvent::Read(SerialRead::Nothing)), SerialAct::Write(_)));
    let act = s.step(SerialEvent::Port(WriteEvent::Failed("gone".to_string())));
    assert!(matches!(act, SerialAct::End));
    assert_eq!(s.last_reason(), "Serial write failed: gone");
}

#[test]
fn a_cancelled_session_closes_cleanly() {
    let mut s = Session::new(com4(false));
    assert!(matches!(s.step(opened_ok()), SerialAct::Read));
    s.corr.push(vec![1, 2]);
    assert!(matches!(s.step(SerialEvent::Read(SerialRead::Nothing)), SerialAct::Write(_)));
    s.cancelled = true;
    // The block in hand is dropped; one more read, then the end.
    assert!(matches!(s.step(SerialEvent::Port(WriteEvent::Wrote(1))), SerialAct::Read));
    let data = SerialEvent::Read(SerialRead::Data(b"$LAST\n".to_vec()));
    assert!(matches!(s.step(data), SerialAct::End));
    assert_eq!(s.lines, vec!["$LAST"]);
    assert_eq!(s.events.last().unwrap(), "Serial port COM4 closed");
    assert_eq!(s.last_reason(), "");
}

#[test]
fn port_faults_are_told_apart() {
    let cause = || "x".to_string();
    assert!(matches!(read_fault(PortFault::WouldBlock, cause()), SerialRead::Nothing));
    assert!(matches!(read_fault(PortFault::TimedOut, cause()), SerialRead::Nothing));
    for fault in [PortFault::Interrupted, PortFault::Other] {
        assert!(matches!(read_fault(fault, cause()), SerialRead::Failed(e) if e == "x"));
    }
    assert!(matches!(write_fault(PortFault::Interrupted, cause()), WriteEvent::Interrupted));
    for fault in [PortFault::WouldBlock, PortFault::TimedOut, PortFault::Other] {
        assert!(matches!(write_fault(fault, cause()), WriteEvent::Failed(e) if e == "x"));
    }
}
