//! The panels of the window: what they show for which state.

use open_ntrip_client::bus::{NtripStatus, RtcmBatch, SerialStatus};
use open_ntrip_client::ieee::{Real32, Real64};
use open_ntrip_client::settings::{Profile, Settings};
use open_ntrip_client::sourcetable::{SourceTable, StrRecord};
use open_ntrip_client::span::Span;
use open_ntrip_client::state::{
    AppEvent, AppState, ClockTime, Decoded, Decodes, GnssState, SerialUi, STALL_AFTER,
};
use open_ntrip_client::ui::about::{link_failed, third_party};
use open_ntrip_client::ui::bottom_tabs::{acknowledge, strip};
use open_ntrip_client::ui::gga_section::{self, step_selection, GeoHit, Gesture};
use open_ntrip_client::ui::log_pane::line_ink;
use open_ntrip_client::ui::ntrip_block::{
    buttons, menu_entry, menu_stays_open, mountpoint_combo, settle_override, status_text, MountMenu,
};
use open_ntrip_client::ui::options_dialog::{audio_test_line, last_checked};
use open_ntrip_client::ui::plot_panel::{
    chart_stats, fmt_total, graph_label, record_label, rx_label,
};
use open_ntrip_client::ui::rtcm_inspector::{
    antenna_rows, base_rows, baseline_text, biases_row, fmt_age, fmt_baseline, fmt_hz,
    position_text, receiver_text, text_row, totals, totals_strip, type_table, user_position, BaseTexts,
};
use open_ntrip_client::ui::serial_block::{
    bauds, data_bits, link_button, novatel_rates, port_combo, port_text, status_line, stop_bits,
};
use open_ntrip_client::ui::status_strip::{
    advance_activity, bar_fill_level, bar_stroke_color, classify_stream, cluster_caption,
    fix_label, fix_quality_color, hint_caption, slot_decimals, slot_figure, slot_hint, slot_value,
    stream_view, Figure, ReceiverPresence, SlotHint, StreamActivity, StreamView, ACTIVITY_HALF_LIFE_MILLIS,
};
use open_ntrip_client::ui::stream_summary::{summary_line, visible, Base, Health};
use open_ntrip_client::ui::text::contains_ignore_ascii_case;
use open_ntrip_client::ui::theme;
use open_ntrip_client::vocab::{BottomTab, DisplayId, GgaMode, GgaSource};

const SECOND: u64 = 1_000_000_000;

fn double(v: f64) -> Real64 {
    Real64 { bits: v.to_bits() }
}

fn single(v: f32) -> Real32 {
    Real32 { bits: v.to_bits() }
}

fn pair(p: (Real64, Real64)) -> (f64, f64) {
    (f64::from_bits(p.0.bits), f64::from_bits(p.1.bits))
}

// ---------------------------------------------------------------------
// Status strip
// ---------------------------------------------------------------------

/// The banner colors, pinned exactly: RTK Fixed is emerald, RTK Float signal
/// orange, Invalid crimson, plain GPS/DGPS ink - and the placeholder before
/// any GGA recedes to secondary ink (never muted: "No Fix Data" is a readout
/// the user must be able to read) regardless of the stale quality byte.
#[test]
fn fix_quality_semantics() {
    assert_eq!(fix_quality_color(true, 4), theme::SUCCESS); // RTK Fixed
    assert_eq!(fix_quality_color(true, 5), theme::WARNING); // RTK Float
    assert_eq!(fix_quality_color(true, 0), theme::DANGER); // Invalid
    for gps_like in [1, 2, 9] {
        assert_eq!(fix_quality_color(true, gps_like), theme::INK_PRIMARY);
    }
    for exotic in [3, 6, 7, 8, 42] {
        assert_eq!(fix_quality_color(true, exotic), theme::INK_SECONDARY);
    }
    // No GGA yet: readable placeholder even if quality still says fixed.
    assert_eq!(fix_quality_color(false, 4), theme::INK_SECONDARY);
    assert_eq!(fix_quality_color(false, 0), theme::INK_SECONDARY);
}

#[test]
fn the_banner_names_the_quality_once_there_is_a_fix() {
    let mut g = GnssState::new();
    assert_eq!(
        fix_label(&g, "Invalid"),
        ("No Fix Data".to_string(), theme::INK_SECONDARY)
    );
    g.has_fix_data = true;
    g.quality = 4;
    assert_eq!(
        fix_label(&g, "RTK Fixed"),
        ("RTK Fixed".to_string(), theme::SUCCESS)
    );
}

/// One frame of the activity level: decay for the elapsed time, as the window
/// does it, then the step under test.
fn frame(level: f32, elapsed_ms: u64, last: u64, new: u64) -> f32 {
    let halves = elapsed_ms as f32 / ACTIVITY_HALF_LIFE_MILLIS as f32;
    let decayed = (level * 0.5_f32.powf(halves)).clamp(0.0, 1.0);
    f32::from_bits(advance_activity(single(decayed), last, new).bits)
}

/// Decay happens first, growth of the byte total then snaps to full, and a
/// counter that went backward is a session reset, not a burst.
#[test]
fn advance_activity_decays_then_snaps_on_growth() {
    let close = |a: f32, b: f32| (a - b).abs() < 1e-3;
    let half_life = ACTIVITY_HALF_LIFE_MILLIS;
    assert!(close(frame(1.0, half_life, 500, 500), 0.5));
    assert_eq!(frame(0.01, half_life, 500, 900), 1.0);
    assert_eq!(frame(0.0, 60_000, 0, 1), 1.0);
    assert!(close(frame(1.0, half_life, 10_000, 0), 0.5));
    assert!(close(frame(0.7, 0, 42, 42), 0.7));
}

/// The fix banner's hover diagnosis must track what the receiver is
/// actually doing: an RMC/GSV-only receiver (GGA output disabled) has
/// good framing, so the baud-rate hint would be a false trail.
#[test]
fn hint_text_distinguishes_no_gga_from_no_nmea() {
    let no_rx = ReceiverPresence {
        nmea_seen: false,
        serial_connected: false,
    };
    assert!(no_rx.hint_text().contains("Connect a receiver"));
    let port_open = ReceiverPresence {
        nmea_seen: false,
        serial_connected: true,
    };
    assert!(port_open.hint_text().contains("baud rate"));
    // NMEA parsing but no GGA yet: point at the receiver's GGA output,
    // never at baud/framing, whether or not the port is still open.
    for serial_connected in [true, false] {
        let talking = ReceiverPresence {
            nmea_seen: true,
            serial_connected,
        };
        let hint = talking.hint_text();
        assert!(hint.contains("enable GGA output"), "{hint}");
        assert!(!hint.contains("baud"), "{hint}");
    }
}

/// Status x silence -> cluster mode, the full truth table. The stall
/// threshold is two missed 1 Hz epochs; disconnected states must map to
/// Idle no matter how stale the silence clock is.
#[test]
fn stream_classification_truth_table() {
    let fresh = Span::from_millis(500);
    let stale = Span::from_secs(3);
    let rate = double(0.7);
    let active = |mode: StreamActivity| match mode {
        StreamActivity::Active { rate_kbps } => rate_kbps.bits == rate.bits,
        _ => false,
    };
    let stalled = |mode: StreamActivity| match mode {
        StreamActivity::Stalled { silent } => silent == stale,
        _ => false,
    };
    assert!(active(classify_stream(&NtripStatus::Streaming, fresh, rate)));
    assert!(stalled(classify_stream(&NtripStatus::Streaming, stale, rate)));
    // Exactly at the threshold is still healthy; stall needs > 2 s.
    assert!(active(classify_stream(
        &NtripStatus::Streaming,
        Span { nanos: STALL_AFTER },
        rate
    )));
    assert!(matches!(
        classify_stream(&NtripStatus::WaitingForData, fresh, rate),
        StreamActivity::Waiting
    ));
    assert!(stalled(classify_stream(
        &NtripStatus::WaitingForData,
        stale,
        rate
    )));
    // Connecting can take arbitrarily long without being a "stall".
    assert!(matches!(
        classify_stream(&NtripStatus::Connecting { attempt: 3 }, stale, rate),
        StreamActivity::Waiting
    ));
    for disconnected in [
        NtripStatus::Idle,
        NtripStatus::ReconnectWait { next_attempt: 2 },
        NtripStatus::Stopped {
            summary: "Disconnected".to_string(),
            failed: false,
        },
    ] {
        assert!(matches!(
            classify_stream(&disconnected, stale, rate),
            StreamActivity::Idle
        ));
    }
}

/// Mode -> token mapping, pinned like fix_quality_semantics: the stalled
/// well is the ONLY warning-colored outline, captions use readable inks only
/// (never muted), and a disconnected bar paints no fill regardless of a
/// stale envelope.
#[test]
fn cluster_tokens_and_fill() {
    let active = StreamActivity::Active { rate_kbps: double(0.7) };
    let stalled = StreamActivity::Stalled { silent: Span::from_secs(5) };
    // Opaque muted ink, not a translucent hairline: the empty idle well
    // must stay discoverable (3:1+ non-text boundary on every paper).
    assert_eq!(bar_stroke_color(&active), theme::INK_MUTED);
    assert_eq!(bar_stroke_color(&StreamActivity::Idle), theme::INK_MUTED);
    assert_eq!(bar_stroke_color(&StreamActivity::Waiting), theme::INK_MUTED);
    assert_eq!(bar_stroke_color(&stalled), theme::WARNING);

    assert_eq!(
        cluster_caption(&active, "0.7"),
        ("0.7 kB/s".to_string(), theme::INK_PRIMARY)
    );
    assert_eq!(
        cluster_caption(&stalled, ""),
        ("no data 5 s".to_string(), theme::WARNING)
    );
    assert_eq!(
        cluster_caption(&StreamActivity::Idle, ""),
        ("-".to_string(), theme::INK_SECONDARY)
    );
    assert_eq!(
        cluster_caption(&StreamActivity::Waiting, ""),
        ("waiting...".to_string(), theme::INK_SECONDARY)
    );

    let fill = |mode: &StreamActivity, level: f32| {
        f32::from_bits(bar_fill_level(mode, single(level)).bits)
    };
    assert_eq!(fill(&StreamActivity::Idle, 0.9), 0.0);
    assert_eq!(fill(&active, 0.9), 0.9);
    assert_eq!(fill(&stalled, 0.1), 0.1);
    assert_eq!(fill(&active, 7.0), 1.0, "clamped");
    assert_eq!(fill(&active, -7.0), 0.0, "clamped");
}

/// A silence is shown in whole seconds, halves going to the even number.
#[test]
fn silence_rounds_to_whole_seconds() {
    let caption = |ms: u64| {
        cluster_caption(&StreamActivity::Stalled { silent: Span::from_millis(ms) }, "").0
    };
    assert_eq!(caption(2_499), "no data 2 s");
    assert_eq!(caption(2_500), "no data 2 s");
    assert_eq!(caption(2_501), "no data 3 s");
    assert_eq!(caption(3_500), "no data 4 s");
}

/// needs_receiver / waiting-for-NMEA truth table: only a bare "-" on a
/// receiver-derived readout hints, and only until the first sentence.
#[test]
fn slot_hint_truth_table() {
    let no_rx = ReceiverPresence {
        nmea_seen: false,
        serial_connected: false,
    };
    let port_open = ReceiverPresence {
        nmea_seen: false,
        serial_connected: true,
    };
    let talking = ReceiverPresence {
        nmea_seen: true,
        serial_connected: true,
    };
    let unplugged = ReceiverPresence {
        nmea_seen: true,
        serial_connected: false,
    };
    assert_eq!(
        slot_hint(DisplayId::Age, "-", no_rx),
        SlotHint::NeedsReceiver
    );
    assert_eq!(
        slot_hint(DisplayId::Hdop, "-", port_open),
        SlotHint::WaitingForNmea
    );
    // Once NMEA has been seen, a missing field is normal, not a hint.
    assert_eq!(slot_hint(DisplayId::Age, "-", talking), SlotHint::NoHint);
    assert_eq!(slot_hint(DisplayId::Age, "-", unplugged), SlotHint::NoHint);
    // Populated values never hint.
    assert_eq!(slot_hint(DisplayId::Age, "1.0 s", no_rx), SlotHint::NoHint);
    // The empty Nothing slot never hints.
    assert_eq!(slot_hint(DisplayId::Nothing, "", no_rx), SlotHint::NoHint);
    assert_eq!(slot_hint(DisplayId::Nothing, "-", no_rx), SlotHint::NoHint);
    // Stream-side readouts never hint: their "-" means "no live
    // stream", and connecting a receiver would not change that.
    assert_eq!(slot_hint(DisplayId::DataAge, "-", no_rx), SlotHint::NoHint);
    assert_eq!(slot_hint(DisplayId::DataRate, "-", no_rx), SlotHint::NoHint);

    assert_eq!(hint_caption(SlotHint::NoHint), None);
    assert_eq!(hint_caption(SlotHint::NeedsReceiver), Some("needs receiver"));
    assert_eq!(hint_caption(SlotHint::WaitingForNmea), Some("waiting for NMEA"));
}

/// The pickable stream readouts: "-" while there is nothing to show
/// (disconnected / no data yet).
#[test]
fn stream_slot_values_format_from_stream_view() {
    let shown = |id: DisplayId, v: f64| {
        let decimals = usize::from(slot_decimals(id));
        slot_value(id, Some(&format!("{v:.decimals$}")))
    };
    assert_eq!(shown(DisplayId::DataAge, f64::from(1.24_f32)), "1.2 s");
    assert_eq!(shown(DisplayId::DataRate, 0.75), "0.8 kB/s");
    // Connected but no bytes yet: age honest-dashes, rate reads 0.
    assert_eq!(slot_value(DisplayId::DataAge, None), "-");
    assert_eq!(shown(DisplayId::DataRate, 0.0), "0.0 kB/s");
    assert_eq!(slot_value(DisplayId::DataRate, None), "-");
    // Receiver-derived ids dash on their own.
    assert_eq!(slot_value(DisplayId::Age, None), "-");
    assert_eq!(slot_value(DisplayId::Nothing, Some("1")), "");
    assert_eq!(slot_value(DisplayId::Heading, Some("84")), "84 deg");
    assert_eq!(slot_decimals(DisplayId::Heading), 0);
    assert_eq!(slot_decimals(DisplayId::Hdop), 1);
}

#[test]
fn readouts_draw_on_their_own_source() {
    let mut g = GnssState::new();
    g.alt_m = Some(single(100.0));
    g.speed_knots = Some(single(10.0));
    let idle = StreamView { last_rx_age: None, rate_shown: false };
    let live = StreamView { last_rx_age: Some(Span::from_secs(1)), rate_shown: true };
    assert!(matches!(slot_figure(DisplayId::ElevationFeet, &g, &idle), Some(Figure::Feet(_))));
    assert!(matches!(slot_figure(DisplayId::ElevationMeters, &g, &idle), Some(Figure::Plain(_))));
    assert!(matches!(slot_figure(DisplayId::SpeedKmh, &g, &idle), Some(Figure::Kmh(_))));
    assert!(slot_figure(DisplayId::Age, &g, &live).is_none());
    assert!(slot_figure(DisplayId::DataAge, &g, &idle).is_none());
    assert!(slot_figure(DisplayId::DataRate, &g, &idle).is_none());
    assert!(matches!(slot_figure(DisplayId::DataRate, &g, &live), Some(Figure::Rate)));
    match slot_figure(DisplayId::DataAge, &g, &live) {
        Some(Figure::Since(d)) => assert_eq!(d, Span::from_secs(1)),
        other => panic!("{other:?}"),
    }
}

#[test]
fn the_data_age_waits_for_data() {
    let mut state = AppState::new(0);
    let v = stream_view(&state.ntrip, SECOND);
    assert!(v.last_rx_age.is_none() && !v.rate_shown);
    state.ntrip.status = NtripStatus::WaitingForData;
    let v = stream_view(&state.ntrip, SECOND);
    assert!(v.last_rx_age.is_none() && v.rate_shown);
    state.ntrip.last_rx = Some(SECOND);
    assert_eq!(
        stream_view(&state.ntrip, 3 * SECOND).last_rx_age,
        Some(Span::from_secs(2))
    );
}

// ---------------------------------------------------------------------
// Position reporting
// ---------------------------------------------------------------------

/// Two results of a search.
fn stub_hits() -> Vec<GeoHit> {
    vec![
        GeoHit {
            display: "Portland, OR, US".to_string(),
            lat: double(45.5202),
            lon: double(-122.6742),
        },
        GeoHit {
            display: "Portland, ME, US".to_string(),
            lat: double(43.6591),
            lon: double(-70.2568),
        },
    ]
}

#[test]
fn selection_maps_to_coordinates() {
    let hits = stub_hits();
    let coords = |hits: &Vec<GeoHit>, i: usize| gga_section::hit_coords(hits, i).map(pair);
    assert_eq!(coords(&hits, 0), Some((45.5202, -122.6742)));
    assert_eq!(coords(&hits, 1), Some((43.6591, -70.2568)));
    // A stale selection beyond the list clamps to the last row.
    assert_eq!(coords(&hits, 7), coords(&hits, 1));
    // No hits, nothing to apply - Enter on an unmatched query is a no-op.
    assert_eq!(coords(&Vec::new(), 0), None);
    assert_eq!(coords(&Vec::new(), 5), None);
}

#[test]
fn selection_stepping_clamps_at_both_ends() {
    assert_eq!(step_selection(0, 3, true), 1);
    assert_eq!(step_selection(1, 3, true), 2);
    assert_eq!(step_selection(2, 3, true), 2, "clamps at the bottom");
    assert_eq!(step_selection(2, 3, false), 1);
    assert_eq!(step_selection(0, 3, false), 0, "clamps at the top");
    assert_eq!(step_selection(0, 0, true), 0, "empty list is safe");
    assert_eq!(step_selection(5, 0, false), 0);
    assert_eq!(step_selection(9, 3, false), 2, "a stale selection comes back");
    assert_eq!(step_selection(9, 3, true), 2);
}

#[test]
fn row_label_shows_display_and_coordinates() {
    let hits = stub_hits();
    let four = |v: Real64| format!("{:.4}", f64::from_bits(v.bits));
    assert_eq!(
        gga_section::row_label(&hits[0], &four(hits[0].lat), &four(hits[0].lon)),
        "Portland, OR, US  (45.5202, -122.6742)"
    );
    let nairobi = GeoHit {
        display: "Nairobi, KE".to_string(),
        lat: double(-1.2833),
        lon: double(36.8167),
    };
    assert_eq!(
        gga_section::row_label(&nairobi, &four(nairobi.lat), &four(nairobi.lon)),
        "Nairobi, KE  (-1.2833, 36.8167)"
    );
}

/// The collapsed summary reflects mode, source, and - for a manual point -
/// the coordinates, so the section's state reads without opening it.
#[test]
fn summary_reflects_configuration() {
    let summary = |mode: GgaMode, source: GgaSource, lat: f64, lon: f64| {
        gga_section::summary(mode, source, &format!("{lat:.5}"), &format!("{lon:.5}"))
    };
    assert_eq!(
        summary(GgaMode::Off, GgaSource::Manual, 45.0, -122.0),
        "off"
    );
    assert_eq!(
        summary(GgaMode::WhenRequired, GgaSource::Receiver, 0.0, 0.0),
        "when required, receiver"
    );
    assert_eq!(
        summary(GgaMode::Always, GgaSource::Manual, 45.52021, -122.67419),
        "always, manual 45.52021, -122.67419"
    );
}

#[test]
fn gestures_set_the_manual_position() {
    let mut p = Profile::default();
    let mut view = gga_section::ViewState::default();
    view.query = "portland".to_string();
    assert!(gga_section::needs_lookup(&view));
    gga_section::take_hits(&mut view, stub_hits());
    assert!(!gga_section::needs_lookup(&view));
    gga_section::arrows(&mut view, true, false, true);
    assert_eq!(view.selected, 1);
    gga_section::arrows(&mut view, false, true, false);
    assert_eq!(view.selected, 1, "arrows need the focus");
    gga_section::manual_editor(&mut p, &mut view, Gesture::Enter, None);
    assert_eq!(pair((p.manual_lat, p.manual_lon)), (43.6591, -70.2568));
    gga_section::manual_editor(&mut p, &mut view, Gesture::Row(0), None);
    assert_eq!(pair((p.manual_lat, p.manual_lon)), (45.5202, -122.6742));
    let here = Some((double(1.5), double(2.5)));
    gga_section::manual_editor(&mut p, &mut view, Gesture::Receiver, here);
    assert_eq!(pair((p.manual_lat, p.manual_lon)), (1.5, 2.5));
    gga_section::manual_editor(&mut p, &mut view, Gesture::Receiver, None);
    assert_eq!(pair((p.manual_lat, p.manual_lon)), (1.5, 2.5));
}

#[test]
fn the_search_says_why_it_shows_nothing() {
    let mut view = gga_section::ViewState::default();
    assert_eq!(gga_section::search_notice(&view, true), None);
    view.query = "zzz".to_string();
    assert_eq!(gga_section::search_notice(&view, true), Some("No matches."));
    assert!(gga_section::search_notice(&view, false)
        .unwrap()
        .contains("unavailable"));
    assert_eq!(gga_section::body(GgaMode::WhenRequired, GgaSource::Manual), (true, true));
    assert_eq!(gga_section::body(GgaMode::Off, GgaSource::Receiver), (false, false));
    assert_eq!(gga_section::disclosure_label(false), "> GGA position reporting");
    assert_eq!(gga_section::mode_label(GgaMode::WhenRequired), "when required");
}

// ---------------------------------------------------------------------
// Logs and texts
// ---------------------------------------------------------------------

#[test]
fn trouble_lines_step_up_to_primary_ink() {
    for line in [
        "12:00:01 Connection FAILED: connection refused",
        "12:00:02 Could not save settings: access denied",
        "12:00:03 Serial overrun: 12 blocks dropped",
        "12:00:04 Authorization error (401 Unauthorized)",
    ] {
        assert_eq!(line_ink(line), theme::INK_PRIMARY, "{line}");
    }
}

#[test]
fn routine_lines_stay_secondary() {
    for line in [
        "12:00:00 Open NTRIP Client v0.3.0 started",
        "12:00:05 Connected to caster",
        "12:00:06 Sourcetable received (114 streams)",
        "12:00:07 Settings saved",
    ] {
        assert_eq!(line_ink(line), theme::INK_SECONDARY, "{line}");
    }
}

#[test]
fn is_ascii_case_insensitive() {
    assert!(contains_ignore_ascii_case("ICY 200 OK", "icy"));
    assert!(contains_ignore_ascii_case("GET /RTCM32 HTTP/1.1", "rtcm32"));
    assert!(contains_ignore_ascii_case("RTCM 3.2", "rtcm"));
    assert!(contains_ignore_ascii_case("ogden", "OGD"));
    assert!(!contains_ignore_ascii_case("ICY 200 OK", "401"));
    assert!(!contains_ignore_ascii_case("RTCM", "rtcm 3"));
}

#[test]
fn empty_needle_matches_everything() {
    assert!(contains_ignore_ascii_case("anything", ""));
    assert!(contains_ignore_ascii_case("", ""));
}

#[test]
fn needle_longer_than_haystack_never_matches() {
    assert!(!contains_ignore_ascii_case("", "x"));
    assert!(!contains_ignore_ascii_case("short", "much longer needle"));
}

#[test]
fn multibyte_utf8_haystack_keeps_byte_windows_sound() {
    assert!(contains_ignore_ascii_case("Grussformel \u{00e4}", "FORMEL"));
    // Exact match on a non-ASCII needle still works (no case folding).
    assert!(contains_ignore_ascii_case(
        "Grussformel \u{00e4}",
        "\u{00e4}"
    ));
}

/// The kB/MB switchover: per-second visible motion at stream rates,
/// MB once totals are MB-sized.
#[test]
fn total_reads_in_kb_below_one_mb() {
    assert_eq!(fmt_total(0), "0.0 kB");
    assert_eq!(fmt_total(14_237), "14.2 kB");
    assert_eq!(fmt_total(999_949), "999.9 kB");
    assert_eq!(fmt_total(1_000_000), "1.00 MB");
    assert_eq!(fmt_total(123_456_789), "123.46 MB");
}

/// The total is the one that binary floating point shows.
#[test]
fn totals_round_as_binary_fractions_do() {
    for bytes in [50, 150, 250, 350, 999_950, 1_005_000, 1_015_000, 1_025_000, u64::MAX] {
        let shown = if bytes < 1_000_000 {
            format!("{:.1} kB", bytes as f64 / 1000.0)
        } else {
            format!("{:.2} MB", bytes as f64 / 1_000_000.0)
        };
        assert_eq!(fmt_total(bytes), shown);
    }
}

#[test]
fn chart_and_counter_texts() {
    assert_eq!(
        chart_stats(Some("1.0"), Some("0.5"), None, None),
        "cur 1.0  min 0.5  max -  range - m"
    );
    assert_eq!(rx_label("0.7", 14_237), "RX 0.7 kB/s   14.2 kB");
    assert_eq!((graph_label(true), graph_label(false)), ("v Elevation graph", "> Elevation graph"));
    assert_eq!((record_label(true), record_label(false)), ("Pause", "Start"));
}

/// The embedded font notices (Hack/Noto Emoji under OFL-1.1, Ubuntu-Light
/// under UFL-1.0) are part of what the About table must carry.
#[test]
fn about_lists_the_font_notices_credits_promises() {
    let has = |name: &str, license: &str| {
        third_party()
            .iter()
            .any(|(c, l)| c.contains(name) && l.contains(license))
    };
    assert!(has("Hack", "OFL-1.1"));
    assert!(has("Noto Emoji", "OFL-1.1"));
    assert!(has("Ubuntu-Light", "UFL-1.0"));
}

#[test]
fn dialogs_report_what_failed() {
    assert_eq!(link_failed(&Ok(())), None);
    assert_eq!(
        link_failed(&Err("no opener".to_string())).as_deref(),
        Some("Could not open browser: no opener")
    );
    assert_eq!(
        audio_test_line(&Err("x".to_string())).as_deref(),
        Some("Audio test failed: x")
    );
    assert_eq!(audio_test_line(&Ok(())), None);
    assert_eq!(last_checked(""), "never");
    assert_eq!(last_checked("2026-07-16"), "2026-07-16");
}

#[test]
fn the_unseen_capture_marks_the_connection_tab_until_shown() {
    let marked = |active: BottomTab, seen: u64, captured: u64| {
        let mut out = Vec::new();
        for b in strip(active, seen, captured) {
            if b.attention {
                out.push(b.tab);
            }
        }
        out
    };
    assert!(marked(BottomTab::Events, 0, 0).is_empty());
    assert_eq!(marked(BottomTab::Events, 0, 1), [BottomTab::Conn]);
    assert!(marked(BottomTab::Conn, 0, 1).is_empty());
    assert_eq!(acknowledge(BottomTab::Conn, 0, 1), 1);
    assert_eq!(acknowledge(BottomTab::Stream, 0, 1), 0);
    assert!(marked(BottomTab::Events, 1, 1).is_empty());
}

// ---------------------------------------------------------------------
// Caster panel
// ---------------------------------------------------------------------

/// The status line and the activity cluster must agree during a stall:
/// "Streaming" stays green only while data is actually arriving, and
/// flips to the warning wording/ink for the silent pre-kick window.
#[test]
fn status_text_streaming_reflects_stall() {
    let (text, color) = status_text(&NtripStatus::Streaming, None, 10_000);
    assert_eq!(text, "Streaming");
    assert_eq!(color, theme::SUCCESS);
    let (text, color) = status_text(&NtripStatus::Streaming, Some(Span::from_secs(10)), 10_000);
    assert_eq!(text, "Streaming - no data for 10 s");
    assert_eq!(color, theme::WARNING);
    // Non-streaming states ignore the stall clock entirely.
    let (text, color) = status_text(&NtripStatus::Idle, Some(Span::from_secs(10)), 10_000);
    assert_eq!(text, "Not connected");
    assert_eq!(color, theme::INK_SECONDARY);
}

#[test]
fn status_text_of_the_other_states() {
    let shown = |status: NtripStatus| status_text(&status, None, 5);
    assert_eq!(
        shown(NtripStatus::Connecting { attempt: 2 }),
        ("Connecting (attempt 2)...".to_string(), theme::INK_PRIMARY)
    );
    assert_eq!(
        shown(NtripStatus::ReconnectWait { next_attempt: 3 }),
        ("Reconnecting in 10 s (attempt 3 of 5)".to_string(), theme::WARNING)
    );
    assert_eq!(
        shown(NtripStatus::Stopped { summary: "Mountpoint not found".to_string(), failed: true }),
        ("Mountpoint not found".to_string(), theme::DANGER)
    );
}

fn stream(mountpoint: &str, format: &str) -> StrRecord {
    StrRecord {
        mountpoint: mountpoint.to_string(),
        identifier: "Ogden".to_string(),
        format: format.to_string(),
        carrier: String::new(),
        nav_system: String::new(),
        network: String::new(),
        country: String::new(),
        lat: double(0.0),
        lon: double(0.0),
        nmea_required: false,
        solution: String::new(),
        generator: String::new(),
        auth: String::new(),
        fee: false,
        bitrate: 0,
    }
}

#[test]
fn the_mountpoint_menu_lists_the_cached_streams() {
    let table = SourceTable {
        strs: vec![stream("OGD1", "RTCM 3.3"), stream("BARE", "")],
        casters: Vec::new(),
        networks: Vec::new(),
        unparsed: Vec::new(),
    };
    assert_eq!(menu_entry(&table.strs[1]), "BARE");
    match mountpoint_combo(Some(&table)) {
        MountMenu::Streams(s) => assert_eq!(s, ["OGD1  (RTCM 3.3, Ogden)", "BARE"]),
        other => panic!("{other:?}"),
    }
    assert!(matches!(mountpoint_combo(None), MountMenu::Empty(_, _)));
    assert!(menu_stays_open(true, false, false, true), "the opening click");
    assert!(!menu_stays_open(true, true, false, true));
    assert!(!menu_stays_open(true, true, true, false));
}

#[test]
fn the_override_does_not_outlive_tls() {
    let mut p = Profile {
        tls: true,
        allow_invalid_certs: true,
        ..Profile::default()
    };
    assert!(settle_override(&mut p) && p.allow_invalid_certs);
    p.tls = false;
    assert!(!settle_override(&mut p) && !p.allow_invalid_certs);
}

#[test]
fn buttons_need_a_host() {
    let b = buttons(false, "  ");
    assert!(!b.connect_enabled && !b.table_enabled);
    let b = buttons(false, "caster");
    assert!(b.connect_enabled && b.table_enabled && b.connect_label == "Connect");
    let b = buttons(true, "");
    assert!(b.connect_enabled && !b.table_enabled && b.connect_label == "Disconnect");
}

// ---------------------------------------------------------------------
// Stream detail
// ---------------------------------------------------------------------

fn position(
    receiver: Option<(f64, f64, f64)>,
    lat: f64,
    lon: f64,
) -> Option<((f64, f64, f64), &'static str)> {
    let receiver = receiver.map(|p| (double(p.0), double(p.1), double(p.2)));
    user_position(receiver, double(lat), double(lon)).map(|(p, from)| {
        (
            (
                f64::from_bits(p.0.bits),
                f64::from_bits(p.1.bits),
                f64::from_bits(p.2.bits),
            ),
            from,
        )
    })
}

#[test]
fn user_position_prefers_receiver_then_manual() {
    assert_eq!(
        position(Some((45.0, -122.0, 120.5)), 40.0, -100.0),
        Some(((45.0, -122.0, 120.5), "receiver"))
    );
    // The manual point has no altitude field; it pins to h=0.
    assert_eq!(
        position(None, 40.0, -100.0),
        Some(((40.0, -100.0, 0.0), "manual"))
    );
    // Receiver wins even when the manual point is the (0,0) default.
    assert_eq!(
        position(Some((1.0, 2.0, 0.0)), 0.0, 0.0),
        Some(((1.0, 2.0, 0.0), "receiver"))
    );
}

#[test]
fn user_position_treats_default_manual_as_unset() {
    assert_eq!(position(None, 0.0, 0.0), None);
    // A single zero coordinate is a legitimate position (equator or
    // prime meridian); only the exact (0,0) pair is the default.
    assert!(position(None, 0.0, -122.0).is_some());
    assert!(position(None, 45.0, 0.0).is_some());
}

#[test]
fn baseline_text_requires_both_ends() {
    let base = lla_to_ecef(45.0, -122.01, 0.0);
    let bits = |p: (f64, f64, f64)| (double(p.0), double(p.1), double(p.2));
    let (user, far) = ((45.0, -122.0, 0.0), (0.0, 0.0, 0.0));
    let near = baseline_shown(baseline_m(user, base));
    assert_eq!(baseline_text(None, Some(bits(base)), &near), None);
    assert_eq!(baseline_text(Some((bits(user), "manual")), None, &near), None);
    let t = baseline_text(Some((bits(user), "receiver")), Some(bits(base)), &near)
        .expect("both ends known");
    assert_eq!(t, "788 m (from receiver position)");
    let base = lla_to_ecef(0.0, 0.02, 0.0);
    let t = baseline_text(
        Some((bits(far), "manual")),
        Some(bits(base)),
        &baseline_shown(baseline_m(far, base)),
    )
    .expect("both ends known");
    assert_eq!(t, "2.2 km (from manual position)");
}

#[test]
fn rate_display() {
    let fmt = |hz: Option<f32>| fmt_hz(hz.map(|v| format!("{v:.1}")).as_deref());
    assert_eq!(fmt(None), "-", "no reading before the first window");
    assert_eq!(fmt(Some(1.0)), "1.0 Hz");
    assert_eq!(fmt(Some(12.34)), "12.3 Hz");
    assert_eq!(fmt(Some(0.04)), "0.0 Hz", "decayed-to-silence rate");
}

#[test]
fn age_display_ranges() {
    let fmt = |secs: f64| {
        fmt_age(
            double(secs),
            &format!("{secs:.1}"),
            &format!("{secs:.0}"),
            &format!("{:.0}", secs / 60.0),
        )
    };
    assert_eq!(fmt(0.0), "0.0 s");
    assert_eq!(fmt(0.44), "0.4 s");
    assert_eq!(fmt(9.94), "9.9 s");
    assert_eq!(fmt(9.96), "10 s", "no '10.0 s' double-width flicker");
    assert_eq!(fmt(59.4), "59 s");
    assert_eq!(fmt(599.4), "599 s");
    assert_eq!(fmt(599.6), "10 min");
    assert_eq!(fmt(3600.0), "60 min");
}

/// WGS-84 geodetic degrees and meters to earth-centered meters.
fn lla_to_ecef(lat: f64, lon: f64, h: f64) -> (f64, f64, f64) {
    let (a, f) = (6_378_137.0_f64, 1.0 / 298.257_223_563);
    let e2 = f * (2.0 - f);
    let (lat, lon) = (lat.to_radians(), lon.to_radians());
    let n = a / (1.0 - e2 * lat.sin() * lat.sin()).sqrt();
    (
        (n + h) * lat.cos() * lon.cos(),
        (n + h) * lat.cos() * lon.sin(),
        (n * (1.0 - e2) + h) * lat.sin(),
    )
}

fn baseline_m(user: (f64, f64, f64), base: (f64, f64, f64)) -> f64 {
    let u = lla_to_ecef(user.0, user.1, user.2);
    let (dx, dy, dz) = (u.0 - base.0, u.1 - base.1, u.2 - base.2);
    (dx * dx + dy * dy + dz * dz).sqrt()
}

fn baseline_shown(m: f64) -> String {
    fmt_baseline(double(m), &format!("{m:.0}"), &format!("{:.1}", m / 1000.0))
}

/// A hundredth of a degree of longitude at 45 north: 788.5 m of chord.
#[test]
fn baseline_formats_meters_under_two_km() {
    let d = baseline_m((45.0, -122.0, 0.0), lla_to_ecef(45.0, -122.01, 0.0));
    assert!((d - 788.5).abs() < 0.5, "hand-computed distance: {d}");
    assert_eq!(baseline_shown(d), "788 m");
}

/// The two sides of the two-kilometer threshold, on the equator.
#[test]
fn baseline_formats_km_from_two_km_up() {
    let just_under = baseline_m((0.0, 0.0, 0.0), lla_to_ecef(0.0, 0.0179, 0.0));
    assert!((just_under - 1992.6).abs() < 0.5, "{just_under}");
    assert_eq!(baseline_shown(just_under), "1993 m");

    let over = baseline_m((0.0, 0.0, 0.0), lla_to_ecef(0.0, 0.02, 0.0));
    assert!((over - 2226.4).abs() < 0.5, "{over}");
    assert_eq!(baseline_shown(over), "2.2 km");

    assert_eq!(baseline_shown(1999.9), "2000 m");
    assert_eq!(baseline_shown(2000.0), "2.0 km");
}

/// A base straight above the user is as far away as it is high.
#[test]
fn baseline_is_three_dimensional() {
    let d = baseline_m((45.0, -122.0, 0.0), lla_to_ecef(45.0, -122.0, 900.0));
    assert!((d - 900.0).abs() < 1e-6, "vertical baseline: {d}");

    let d = baseline_m((45.0, -122.0, 0.0), lla_to_ecef(45.0, -122.0001, 900.0));
    assert!((900.0..901.0).contains(&d), "slant baseline: {d}");
    assert_eq!(baseline_shown(d), "900 m");
}

#[test]
fn position_text_all_zero_ecef_reads_as_not_set() {
    assert_eq!(position_text(None), "position not set (all-zero ECEF)");
    let (lat, lon, alt) = (38.8047594, -77.0647736, 114.56);
    let texts = (format!("{lat:.7}"), format!("{lon:.7}"), format!("{alt:.1}"));
    assert_eq!(
        position_text(Some((&texts.0, &texts.1, &texts.2))),
        "38.8047594, -77.0647736  alt 114.6 m"
    );
}

#[test]
fn receiver_descriptor_line() {
    assert_eq!(
        receiver_text(Some("JAVAD TRE_G3TH DELTA"), Some("3.6.7")),
        "JAVAD TRE_G3TH DELTA fw 3.6.7"
    );
    assert_eq!(receiver_text(Some("RCVR"), None), "RCVR");
    assert_eq!(receiver_text(None, Some("1.0")), "fw 1.0");
    assert_eq!(receiver_text(None, None), "-");
}

#[test]
fn the_inspector_tabulates_the_stream() {
    let mut state = AppState::new(0);
    state.apply(
        AppEvent::Rtcm {
            batch: RtcmBatch {
                frames: vec![(1074, 3, 120), (1005, 1, 25)],
                crc_failures: 2,
                garbage_bytes: 0,
            },
            decoded: Vec::new(),
            at: ClockTime { hour: 0, min: 0, sec: 0 },
        },
        SECOND,
    );
    assert_eq!(totals(&state.ntrip), (2, 4));
    let rows = type_table(&state.ntrip, 3 * SECOND);
    assert_eq!(rows.len(), 2);
    assert_eq!((rows[0].ty, rows[0].count, rows[0].last_frame_len), (1005, 1, 25));
    assert_eq!((rows[1].ty, rows[1].age), (1074, Span::from_secs(2)));
    let t = totals_strip(&state.ntrip);
    assert!(t.crc_alert && !t.garbage_alert);
    assert!(t.totals.contains('4') && t.crc.contains('2'));
}

#[test]
fn the_inspector_shows_the_latest_decodes() {
    let mut d = Decodes::new();
    let none = BaseTexts { position: "", antenna_height: "", baseline: None };
    assert!(base_rows(&d, none).iter().all(|r| r.weak));
    assert!(text_row(&d).weak && biases_row(&d).weak);
    let at = ClockTime { hour: 1, min: 2, sec: 3 };
    d.file_all(
        vec![
            Decoded::BasePosition {
                station_id: 7,
                is_1006: true,
                ecef: (double(1.0), double(2.0), double(3.0)),
                antenna_height_m: Some(double(1.5)),
                lla: None,
            },
            Decoded::AntennaInfo {
                station_id: 7,
                antenna: "TRM59800".to_string(),
                setup_id: 0,
                antenna_serial: None,
                receiver: Some("RCVR".to_string()),
                firmware: None,
                receiver_serial: None,
            },
            Decoded::TextMessage { station_id: 7, text: "old".to_string() },
            Decoded::TextMessage { station_id: 7, text: "base moved".to_string() },
            Decoded::GlonassBiases { station_id: 7, biases: 4 },
            Decoded::MsmHeader,
        ],
        at,
    );
    let t = BaseTexts {
        position: "position not set (all-zero ECEF)",
        antenna_height: "1.500",
        baseline: Some("788 m (from receiver position)"),
    };
    let rows = base_rows(&d, t);
    assert!(rows.iter().any(|r| r.value.contains("788 m")));
    assert!(rows.iter().any(|r| r.value.contains("1.500")));
    assert!(antenna_rows(&d).iter().any(|r| r.value == "RCVR"));
    assert!(antenna_rows(&d).iter().any(|r| r.value.contains("TRM59800")));
    let text = text_row(&d).value;
    assert!(text.contains("base moved") && text.contains("01:02:03"), "{text}");
    assert!(biases_row(&d).value.contains('4'));
}

fn summary(
    base: Option<(u16, Option<(f64, f64)>)>,
    types: usize,
    frames: u64,
    rate: f64,
    crc: u64,
    garbage: u64,
) -> (String, String, Health) {
    let five = |v: f64| format!("{v:.5}");
    let texts = base.and_then(|(_, p)| p).map(|(lat, lon)| (five(lat), five(lon)));
    let base = base.map(|(station_id, _)| Base {
        station_id,
        position: texts.as_ref().map(|(lat, lon)| (lat.as_str(), lon.as_str())),
    });
    summary_line(base, types, frames, &format!("{rate:.1}"), crc, garbage)
}

#[test]
fn healthy_stream_with_base_position() {
    let (head, chip, health) = summary(
        Some((1234, Some((45.52021, -122.67419)))),
        8,
        4210,
        1.23,
        0,
        0,
    );
    assert_eq!(
        head,
        "base 1234  45.52021, -122.67419   -   8 types, 4210 frames   1.2 kB/s"
    );
    assert_eq!(chip, "framing clean");
    assert_eq!(health, Health::Clean);
}

#[test]
fn base_without_surveyed_position() {
    let (head, _, _) = summary(Some((7, None)), 3, 90, 0.4, 0, 0);
    assert!(head.starts_with("base 7  (position not set)"), "{head}");
}

#[test]
fn no_base_yet_still_summarizes_frames() {
    let (head, chip, health) = summary(None, 2, 12, 0.8, 0, 0);
    assert_eq!(
        head,
        "no base station yet   -   2 types, 12 frames   0.8 kB/s"
    );
    assert_eq!(chip, "framing clean");
    assert_eq!(health, Health::Clean);
}

/// CRC failures alone, and CRC plus garbage, both read as Issues and name
/// the counts - the "this may not be RTCM3" signal the color exists for.
#[test]
fn framing_trouble_is_flagged() {
    let (_, chip, health) = summary(Some((1, Some((0.0, 0.0)))), 4, 100, 1.0, 3, 0);
    assert_eq!(chip, "3 CRC fails");
    assert_eq!(health, Health::Issues);

    let (_, chip, health) = summary(None, 4, 100, 1.0, 3, 512);
    assert_eq!(chip, "3 CRC fails, 512 garbage bytes");
    assert_eq!(health, Health::Issues);
}

#[test]
fn the_summary_needs_a_session_and_frames() {
    assert!(!visible(false, 0));
    assert!(!visible(true, 0));
    assert!(!visible(false, 1));
    assert!(visible(true, 1));
}

// ---------------------------------------------------------------------
// Serial panel
// ---------------------------------------------------------------------

#[test]
fn the_port_menu_keeps_an_absent_choice() {
    let ports = vec![
        ("COM3".to_string(), "USB Serial".to_string()),
        ("COM4".to_string(), String::new()),
    ];
    assert_eq!(port_text("COM3", "USB Serial"), "COM3 - USB Serial");
    assert_eq!(port_text("COM4", ""), "COM4");
    let m = port_combo(&ports, "COM3");
    assert_eq!(m.selected, "COM3 - USB Serial");
    assert_eq!(m.items.len(), 2);
    let m = port_combo(&ports, "COM9");
    assert!(m.selected.starts_with("COM9"));
    assert_eq!(m.items.len(), 3);
    assert_eq!(bauds()[6], 115_200);
    assert_eq!(link_button(false, " "), ("Connect", false));
    assert_eq!(link_button(true, ""), ("Disconnect", true));
}

#[test]
fn the_serial_status_counts_overruns() {
    let s = SerialUi {
        status: SerialStatus::Connected {
            port: "COM4".to_string(),
            detail: "115200,8,None,1".to_string(),
        },
        overruns: 3,
    };
    let (text, color) = status_line(&s);
    assert!(text.contains("COM4") && text.ends_with("  |  overruns: 3"), "{text}");
    assert_eq!(color, theme::SUCCESS);
    let s = SerialUi {
        status: SerialStatus::Disconnected { reason: "unplugged".to_string() },
        overruns: 0,
    };
    assert_eq!(status_line(&s).1, theme::DANGER);
}

#[test]
fn the_link_choices_are_the_ones_that_survive_a_repair() {
    assert_eq!(data_bits(), [7, 8]);
    assert_eq!(stop_bits(), [1, 2]);
    assert_eq!(novatel_rates(), [1, 5, 10]);
    for bits in data_bits() {
        let mut s = Settings::default();
        s.serial.data_bits = bits;
        s.normalize();
        assert_eq!(s.serial.data_bits, bits);
    }
}
