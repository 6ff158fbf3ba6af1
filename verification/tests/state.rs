//! The application's state as events arrive.

use open_ntrip_client::bus::{stamp, NtripStatus, RtcmBatch, SerialStatus};
use open_ntrip_client::ieee::{Real32, Real64};
use open_ntrip_client::sourcetable::{SourceTable, StrRecord};
use open_ntrip_client::span::Span;
use open_ntrip_client::state::{
    entries_of, AppEvent, AppState, ClockTime, Decoded, PlotSeries, RateFold, RateMeter, Ring,
    Sentence, CONN_RING_CAP, EVENT_RING_CAP,
};

const T0: u64 = 1_000_000_000_000;

const SECOND: u64 = 1_000_000_000;

const MILLI: u64 = 1_000_000;

fn double(v: f64) -> Real64 {
    Real64 { bits: v.to_bits() }
}

fn single(v: f32) -> Real32 {
    Real32 { bits: v.to_bits() }
}

fn value(v: Option<Real64>) -> Option<f64> {
    v.map(|x| f64::from_bits(x.bits))
}

fn clock() -> ClockTime {
    ClockTime { hour: 12, min: 34, sec: 56 }
}

#[test]
fn ring_caps_and_drops_oldest() {
    let mut r = Ring::new(3);
    for i in 0..5 {
        r.push(format!("line {i}"));
    }
    assert_eq!(r.len(), 3);
    assert_eq!(r.get(0).unwrap(), "line 2");
    assert_eq!(r.get(2).unwrap(), "line 4");
    assert_eq!(r.join(), "line 2\nline 3\nline 4\n");
    r.clear();
    assert!(r.is_empty());
}

#[test]
fn event_and_conn_ring_caps_match_spec() {
    assert_eq!(EVENT_RING_CAP, 10_000);
    assert_eq!(CONN_RING_CAP, 5_000);
    let mut state = AppState::new(T0);
    for i in 0..EVENT_RING_CAP + 10 {
        state.apply(AppEvent::EventLine(format!("e{i}")), T0);
    }
    assert_eq!(state.events.len(), EVENT_RING_CAP);
    assert_eq!(state.events.get(0).unwrap(), "e10");
}

#[test]
fn connection_lines_fill_their_own_ring() {
    let mut state = AppState::new(T0);
    for i in 0..CONN_RING_CAP + 3 {
        state.apply(AppEvent::ConnLine(format!("c{i}")), T0);
    }
    assert_eq!(state.conn.len(), CONN_RING_CAP);
    assert_eq!(state.conn.get(0).unwrap(), "c3");
    assert!(state.events.is_empty());
}

#[test]
fn plot_series_caps_by_decimation_and_keeps_stats() {
    let mut s = PlotSeries::new(1000);
    for i in 0..10_000 {
        s.push(double(f64::from(i)), double(f64::from(i % 100)));
    }
    assert!(s.points().len() <= 1000, "len {}", s.points().len());
    assert!(s.points().len() > 400, "decimation must not empty the plot");
    assert_eq!(value(s.min), Some(0.0));
    assert_eq!(value(s.max), Some(99.0));
    assert_eq!(value(s.current), Some(f64::from(9_999 % 100)));
    // Time still spans the whole run after decimation.
    let last_t = f64::from_bits(s.points().last().unwrap().0.bits);
    assert!(last_t > 9_000.0, "last t {last_t}");
    s.clear();
    assert!(s.points().is_empty());
    assert!(s.min.is_none() && s.max.is_none() && s.current.is_none());
}

#[test]
fn plot_figures_order_negative_values() {
    let mut s = PlotSeries::new(10);
    for v in [3.5, -2.25, 0.0, -7.5, 1.0] {
        s.push(double(0.0), double(v));
    }
    assert_eq!(value(s.min), Some(-7.5));
    assert_eq!(value(s.max), Some(3.5));
    assert_eq!(value(s.current), Some(1.0));
    assert_eq!(s.points().len(), 5);
}

#[test]
fn rate_meter_folds_one_second_windows() {
    let mut r = RateMeter::new();
    // 10 frames over the first second.
    for i in 0..10 {
        assert_eq!(
            r.on_frames(1, T0 + i * 100 * MILLI),
            None,
            "window not yet elapsed"
        );
    }
    assert_eq!(
        r.on_frames(1, T0 + 1000 * MILLI),
        Some(RateFold { count: 11, elapsed: Span::from_secs(1) }),
        "first window folded"
    );
    // Silence: ticks fold empty windows, so the rate decays toward zero.
    for k in 1..=20u64 {
        assert_eq!(
            r.tick(T0 + (1000 + k * 1000) * MILLI),
            Some(RateFold { count: 0, elapsed: Span::from_secs(1) })
        );
    }
}

#[test]
fn a_tick_before_any_frame_folds_nothing() {
    let mut r = RateMeter::new();
    assert_eq!(r.tick(T0), None);
    assert_eq!(r.tick(T0 + 60 * SECOND), None);
}

#[test]
fn rtcm_batch_updates_stats_and_decoded_slots() {
    let mut state = AppState::new(T0);
    let batch = RtcmBatch {
        frames: vec![(1005, 1, 25), (1074, 3, 120)],
        crc_failures: 2,
        garbage_bytes: 7,
    };
    state.apply(
        AppEvent::Rtcm {
            batch,
            decoded: vec![
                Decoded::TextMessage {
                    station_id: 9,
                    text: "base moved".to_string(),
                },
                Decoded::GlonassBiases { station_id: 9, biases: 0 },
            ],
            at: clock(),
        },
        T0,
    );
    let s1005 = &state.ntrip.rtcm[&1005];
    assert_eq!((s1005.count, s1005.last_frame_len), (1, 25));
    assert_eq!(state.ntrip.rtcm[&1074].count, 3);
    assert_eq!(state.ntrip.rtcm_crc_failures, 2);
    assert_eq!(state.ntrip.rtcm_garbage_bytes, 7);
    let (at, text) = state.ntrip.decodes.text_1029.as_ref().expect("1029 kept");
    assert_eq!(*at, clock());
    assert!(matches!(text, Decoded::TextMessage { text, .. } if text == "base moved"));
    assert!(state.ntrip.decodes.biases_1230.is_some());
    assert!(state.ntrip.decodes.base.is_none());

    // A later batch accumulates counts and replaces last-frame size.
    state.apply(
        AppEvent::Rtcm {
            batch: RtcmBatch {
                frames: vec![(1005, 2, 27)],
                crc_failures: 2,
                garbage_bytes: 7,
            },
            decoded: Vec::new(),
            at: clock(),
        },
        T0,
    );
    let s1005 = &state.ntrip.rtcm[&1005];
    assert_eq!((s1005.count, s1005.last_frame_len), (3, 27));

    state.ntrip.reset_stream_stats();
    assert!(state.ntrip.rtcm.is_empty());
    assert!(state.ntrip.decodes.text_1029.is_none());
    assert_eq!(state.ntrip.rtcm_crc_failures, 0);
}

#[test]
fn folds_come_out_per_type_and_entries_ascend() {
    let mut state = AppState::new(T0);
    let batch = |frames: Vec<(u16, u32, u32)>| AppEvent::Rtcm {
        batch: RtcmBatch { frames, crc_failures: 0, garbage_bytes: 0 },
        decoded: Vec::new(),
        at: clock(),
    };
    assert!(state
        .apply(batch(vec![(1074, 4, 1), (1005, 1, 1)]), T0)
        .folds
        .is_empty());
    let f = state.apply(batch(vec![(1074, 2, 1)]), T0 + SECOND);
    assert_eq!(
        f.folds,
        vec![(1074, RateFold { count: 6, elapsed: Span::from_secs(1) })]
    );
    assert_eq!(
        state.tick(T0 + SECOND),
        vec![(1005, RateFold { count: 1, elapsed: Span::from_secs(1) })]
    );
    let tys: Vec<u16> = entries_of(&state.ntrip.rtcm).iter().map(|e| e.0).collect();
    assert_eq!(tys, [1005, 1074]);

    // A tick lists every full window once, by ascending type.
    let empty = RateFold { count: 0, elapsed: Span::from_secs(1) };
    let folds = state.tick(T0 + 2 * SECOND);
    assert_eq!(folds, vec![(1005, empty), (1074, empty)]);
    assert!(state.tick(T0 + 2 * SECOND).is_empty());
}

#[test]
fn unknown_response_raw_is_kept_for_hex_view() {
    let mut state = AppState::new(T0);
    state.apply(
        AppEvent::UnknownResponse {
            raw: b"HTTP/1.1 302 Found\r\n".to_vec(),
        },
        T0,
    );
    assert_eq!(
        state.ntrip.last_unknown_response.as_deref(),
        Some(b"HTTP/1.1 302 Found\r\n".as_slice())
    );
}

/// The Conn tab's badge contract: each capture bumps the generation, and
/// a new session must NOT clear it - unseen forensic evidence stays
/// flagged until the tab is actually shown.
#[test]
fn unknown_response_gen_counts_and_survives_stream_reset() {
    let mut state = AppState::new(T0);
    assert_eq!(state.ntrip.unknown_response_gen, 0);
    state.apply(
        AppEvent::UnknownResponse {
            raw: b"HTTP/1.1 302 Found\r\n".to_vec(),
        },
        T0,
    );
    state.apply(
        AppEvent::UnknownResponse {
            raw: b"totally not http".to_vec(),
        },
        T0,
    );
    assert_eq!(state.ntrip.unknown_response_gen, 2);
    state.ntrip.reset_stream_stats();
    assert_eq!(
        state.ntrip.unknown_response_gen, 2,
        "generation must survive a new session like the raw bytes do"
    );
    assert!(state.ntrip.last_unknown_response.is_some());
}

/// 4807.038 N, 01131.000 E with quality 4, eight satellites, station 42.
fn fixed() -> Sentence {
    Sentence::Gga {
        quality: 4,
        sats: 8,
        hdop: Some(single(0.9)),
        alt_m: Some(single(545.4)),
        age_s: Some(single(2.0)),
        station_id: Some(42),
        lat_deg: Some(double(48.0 + 7.038 / 60.0)),
        lon_deg: Some(double(11.0 + 31.0 / 60.0)),
    }
}

#[test]
fn gnss_state_keeps_last_position_through_fix_loss() {
    let mut state = AppState::new(T0);
    state.apply(AppEvent::Nmea(fixed()), T0);
    let lat = value(state.gnss.lat_deg).expect("lat parsed");
    assert!((lat - 48.1173).abs() < 1e-3, "{lat}");
    // Fix lost: empty position fields must NOT wipe the last known point.
    let no_fix = Sentence::Gga {
        quality: 0,
        sats: 0,
        hdop: None,
        alt_m: None,
        age_s: None,
        station_id: None,
        lat_deg: None,
        lon_deg: None,
    };
    state.apply(AppEvent::Nmea(no_fix), T0);
    assert_eq!(state.gnss.quality, 0);
    assert_eq!(value(state.gnss.lat_deg), Some(lat), "last position survives");
}

/// The stall/activity contract for the UI's data indicator: last_rx is
/// stamped by growing byte totals, rx_age falls back to the status
/// change, and only the data-bearing states can stall.
#[test]
fn ntrip_rx_age_and_stall_predicate() {
    let mut state = AppState::new(T0);
    assert_eq!(state.ntrip.rx_age(T0), None, "Idle cannot stall");
    assert!(!state.ntrip.stalled(T0 + 60 * SECOND));

    // Connected, waiting: the status change is the stall reference.
    state.apply(AppEvent::Ntrip(NtripStatus::WaitingForData), T0);
    let waited = state.ntrip.rx_age(T0 + 3 * SECOND).unwrap();
    assert_eq!(waited, Span::from_secs(3));
    assert!(state.ntrip.stalled(T0 + 3 * SECOND));
    assert!(!state.ntrip.stalled(T0 + SECOND));

    // Data arrives: last_rx takes over.
    state.apply(AppEvent::Ntrip(NtripStatus::Streaming), T0 + 4 * SECOND);
    state.apply(AppEvent::RxBytes { total: 512 }, T0 + 5 * SECOND);
    assert_eq!(
        state.ntrip.rx_age(T0 + 6 * SECOND),
        Some(Span::from_secs(1))
    );
    assert!(!state.ntrip.stalled(T0 + 6 * SECOND));
    assert!(state.ntrip.stalled(T0 + 8 * SECOND));

    // A duplicate total is not an arrival: the stall clock keeps running.
    state.apply(AppEvent::RxBytes { total: 512 }, T0 + 9 * SECOND);
    assert!(state.ntrip.stalled(T0 + 9 * SECOND));

    // New session wipes the arrival stamp with the other stream stats.
    state.ntrip.reset_stream_stats();
    assert_eq!(state.ntrip.last_rx, None);
    assert_eq!(state.ntrip.total_bytes, 0);
}

fn stream(mountpoint: &str, nmea_required: bool) -> StrRecord {
    StrRecord {
        mountpoint: mountpoint.to_string(),
        identifier: "Boulder".to_string(),
        format: "RTCM 3.2".to_string(),
        carrier: "2".to_string(),
        nav_system: "GPS".to_string(),
        network: "NET".to_string(),
        country: "USA".to_string(),
        lat: double(40.0),
        lon: double(-105.0),
        nmea_required,
        solution: "0".to_string(),
        generator: "GEN".to_string(),
        auth: "B".to_string(),
        fee: false,
        bitrate: 9600,
    }
}

/// The STR lookup behind the GGA machinery: exact match beats the
/// case-insensitive fallback, the fallback finds case-different mounts
/// (casters match mountpoints case-insensitively on the wire), and a
/// table cached for another caster never answers.
#[test]
fn str_record_prefers_exact_then_ignores_ascii_case() {
    let table = SourceTable {
        strs: vec![stream("RTCM32", true), stream("rtcm32", false)],
        casters: Vec::new(),
        networks: Vec::new(),
        unparsed: Vec::new(),
    };
    let mut state = AppState::new(T0);
    state.apply(
        AppEvent::SourcetableReady {
            host: "caster.example".to_string(),
            port: 2101,
            table,
        },
        T0,
    );
    // Exact casing wins even with a case-different sibling present.
    let exact = state.str_record("caster.example", 2101, "RTCM32").unwrap();
    assert!(exact.nmea_required, "must be the uppercase row");
    let exact = state.str_record("caster.example", 2101, "rtcm32").unwrap();
    assert!(!exact.nmea_required, "must be the lowercase row");
    // Case-different query falls back instead of reporting unlisted.
    let fallback = state.str_record("caster.example", 2101, "Rtcm32").unwrap();
    assert_eq!(fallback.mountpoint, "RTCM32", "first case-insensitive hit");
    assert!(state
        .str_record("caster.example", 2101, "MISSING")
        .is_none());
    // Wrong caster: the cached table must not answer at all.
    assert!(state.str_record("other.example", 2101, "RTCM32").is_none());
    assert!(state.str_record("caster.example", 9999, "RTCM32").is_none());
}

#[test]
fn nmea_seen_latches_on_any_sentence_kind() {
    let mut state = AppState::new(T0);
    assert!(!state.gnss.nmea_seen);
    // An RMC-only receiver (no GGA, so has_fix_data stays false) must
    // still count as present.
    let rmc = Sentence::Rmc {
        speed_knots: Some(single(22.4)),
        track_deg: Some(single(84.4)),
    };
    let f = state.apply(AppEvent::Nmea(rmc), T0);
    assert!(state.gnss.nmea_seen);
    assert!(!state.gnss.has_fix_data, "RMC alone is not fix data");
    assert_eq!(f.speed_knots.map(|v| f32::from_bits(v.bits)), Some(22.4));
}

#[test]
fn gnss_state_tracks_sentences() {
    let mut state = AppState::new(T0);
    let f = state.apply(AppEvent::Nmea(fixed()), T0);
    assert!(state.gnss.has_fix_data);
    assert_eq!(state.gnss.quality, 4);
    assert_eq!(state.gnss.sats, 8);
    assert_eq!(state.gnss.station_id, Some(42));
    // The chart records the altitude at the time since its start.
    let (at, alt) = f.elevation.expect("chart records alt");
    assert_eq!(at, Span::from_secs(0));
    assert_eq!(f32::from_bits(alt.bits), 545.4);
    state.chart.series.push(double(0.0), double(f64::from(f32::from_bits(alt.bits))));
    assert_eq!(state.chart.series.points().len(), 1, "chart records alt");
}

#[test]
fn a_paused_chart_records_nothing() {
    let mut state = AppState::new(T0);
    state.chart.recording = false;
    assert!(state
        .apply(AppEvent::Nmea(fixed()), T0)
        .elevation
        .is_none());
}

#[test]
fn dilution_comes_from_gsa() {
    let mut state = AppState::new(T0);
    state.apply(
        AppEvent::Nmea(Sentence::Gsa {
            pdop: Some(single(1.5)),
            vdop: Some(single(1.1)),
        }),
        T0,
    );
    assert_eq!(state.gnss.pdop.map(|v| f32::from_bits(v.bits)), Some(1.5));
    assert_eq!(state.gnss.vdop.map(|v| f32::from_bits(v.bits)), Some(1.1));
}

#[test]
fn serial_status_and_overruns_are_kept() {
    let mut state = AppState::new(T0);
    state.apply(
        AppEvent::Serial(SerialStatus::Connected {
            port: "COM4".to_string(),
            detail: "115200".to_string(),
        }),
        T0,
    );
    state.apply(AppEvent::Overruns(12), T0);
    assert_eq!(
        state.serial.status,
        SerialStatus::Connected {
            port: "COM4".to_string(),
            detail: "115200".to_string(),
        }
    );
    assert_eq!(state.serial.overruns, 12);
}

#[test]
fn log_lines_carry_a_padded_clock() {
    assert_eq!(stamp(7, 5, 9, "hello"), "07:05:09 hello");
}

#[test]
fn a_ring_without_capacity_holds_nothing() {
    let mut r = Ring::new(0);
    r.push("a".to_string());
    r.push("b".to_string());
    assert_eq!(r.len(), 0);
    assert!(r.is_empty());
    assert_eq!(r.join(), "");
}
