//! The main window: what its buttons start, and where it may lie.

use open_ntrip_client::bus::NtripStatus;
use open_ntrip_client::ieee::{Real32, Real64};
use open_ntrip_client::logging::{CaptureTarget, LocalStamp};
use open_ntrip_client::session::{NtripVersion, Transport};
use open_ntrip_client::settings::{Profile, Settings};
use open_ntrip_client::sourcetable::{SourceTable, StrRecord};
use open_ntrip_client::state::AppEvent;
use open_ntrip_client::ui::main_window::{
    clamp_to_min, desktop_px, log_mount_nmea_flag, parse_iso_date, rescue_position, save_line,
    update_check_due, App, Connect, PxRect, SerialToggle,
};
use open_ntrip_client::ui::profiles_dialog::{
    activate, begin_rename, cancel_rename, clamp_view, confirm_delete, duplicate_profile,
    end_rename, new_profile, row_label, ViewState,
};
use open_ntrip_client::vocab::{CheckUpdates, ProtocolCfg};
use open_ntrip_client::workers::ntrip::ReconnectPolicy;

const SECOND: u64 = 1_000_000_000;

fn settings() -> Settings {
    let mut s = Settings::default();
    s.profiles[0].host = " caster ".to_string();
    s.profiles[0].mountpoint = "RTCM32".to_string();
    s.profiles.push(Profile {
        name: "Field".to_string(),
        ..Profile::default()
    });
    s
}

fn app() -> App {
    App::new(
        "base".to_string(),
        '/',
        settings(),
        Vec::new(),
        Vec::new(),
        None,
        None,
        (2026, 7, 16),
        0,
    )
    .0
}

fn table(nmea_required: bool) -> SourceTable {
    SourceTable {
        strs: vec![StrRecord {
            mountpoint: "RTCM32".to_string(),
            identifier: String::new(),
            format: "RTCM 3.2".to_string(),
            carrier: String::new(),
            nav_system: String::new(),
            network: String::new(),
            country: String::new(),
            lat: Real64::zero(),
            lon: Real64::zero(),
            nmea_required,
            solution: String::new(),
            generator: String::new(),
            auth: String::new(),
            fee: false,
            bitrate: 0,
        }],
        casters: Vec::new(),
        networks: Vec::new(),
        unparsed: Vec::new(),
    }
}

fn ready(host: &str) -> AppEvent {
    AppEvent::SourcetableReady {
        host: host.to_string(),
        port: 2101,
        table: table(true),
    }
}

fn px(x: i32, y: i32, w: i32, h: i32) -> PxRect {
    PxRect { x, y, w, h }
}

#[test]
fn iso_date_parsing() {
    assert_eq!(parse_iso_date("2026-07-15"), Some((2026, 7, 15)));
    assert_eq!(parse_iso_date("2026-7-1"), Some((2026, 7, 1)));
    assert_eq!(parse_iso_date(""), None);
    assert_eq!(parse_iso_date("2026-13-01"), None);
    assert_eq!(parse_iso_date("2026-01-32"), None);
    assert_eq!(parse_iso_date("2026-01-01-01"), None);
    assert_eq!(parse_iso_date("yesterday"), None);
}

#[test]
fn update_cadence_decision() {
    let today = (2026, 7, 16);
    assert!(!update_check_due(CheckUpdates::Off, "", today));
    assert!(!update_check_due(CheckUpdates::Off, "2020-01-01", today));
    assert!(update_check_due(CheckUpdates::Startup, "2026-07-16", today));
    // Weekly: never checked, exactly 7 days, and 6 days.
    assert!(update_check_due(CheckUpdates::Weekly, "", today));
    assert!(update_check_due(CheckUpdates::Weekly, "2026-07-09", today));
    assert!(!update_check_due(CheckUpdates::Weekly, "2026-07-10", today));
}

/// Legitimate secondary-monitor positions - negative coordinates or beyond
/// the primary's size - must never be moved; only a window with no
/// meaningful desktop intersection gets rescued.
#[test]
fn geometry_rescue_leaves_secondary_monitors_alone() {
    let primary = (1920, 1080);
    // Secondary left of primary: virtual screen spans x=[-1920, 1920).
    let screen = px(-1920, 0, 3840, 1080);
    assert_eq!(
        rescue_position(px(-1500, 200, 760, 560), screen, primary),
        None
    );
    // Secondary right of primary.
    let screen = px(0, 0, 3840, 1080);
    assert_eq!(
        rescue_position(px(2500, 100, 760, 560), screen, primary),
        None
    );
    // Secondary above primary.
    let screen = px(0, -1080, 1920, 2160);
    assert_eq!(
        rescue_position(px(300, -900, 760, 560), screen, primary),
        None
    );
    // Maximized-style overhang (borders off every edge) is visible.
    let screen = px(0, 0, 1920, 1080);
    assert_eq!(
        rescue_position(px(-8, -8, 1936, 1096), screen, primary),
        None
    );
}

#[test]
fn geometry_rescue_recovers_invisible_windows() {
    let primary = (1920, 1080);
    let screen = px(0, 0, 1920, 1080); // the secondary was unplugged
    // Window saved on a right-hand secondary that is gone.
    assert_eq!(
        rescue_position(px(2500, 100, 760, 560), screen, primary),
        Some((1860, 100))
    );
    // Window saved on a left-hand secondary that is gone.
    assert_eq!(
        rescue_position(px(-1500, 200, 760, 560), screen, primary),
        Some((0, 200))
    );
    // A sliver under the grab threshold still counts as lost.
    assert_eq!(
        rescue_position(px(-710, 200, 760, 560), screen, primary),
        Some((0, 200))
    );
    // Below every monitor.
    assert_eq!(
        rescue_position(px(400, 2000, 760, 560), screen, primary),
        Some((400, 1020))
    );
}

/// A rescued window is not rescued again.
#[test]
fn a_rescued_window_is_visible() {
    let primary = (1920, 1080);
    let screen = px(0, 0, 1920, 1080);
    for win in [
        px(2500, 100, 760, 560),
        px(-1500, 200, 760, 560),
        px(i32::MAX, i32::MIN, 760, 560),
    ] {
        let (x, y) = rescue_position(win, screen, primary).unwrap();
        assert_eq!(
            rescue_position(px(x, y, win.w, win.h), screen, primary),
            None
        );
    }
    assert_eq!(desktop_px(screen, primary), Some((screen, primary)));
    assert_eq!(desktop_px(px(0, 0, 0, 1080), primary), None);
    let mut a = app();
    assert!(a.begin_rescue());
    assert!(!a.begin_rescue());
}

/// A restored sub-minimum geometry must open at the layout's real minimum.
#[test]
fn restored_window_size_clamps_to_layout_minimum() {
    let clamp = |size: [f32; 2]| {
        let (w, h) = clamp_to_min(
            Real32 { bits: size[0].to_bits() },
            Real32 { bits: size[1].to_bits() },
        );
        [f32::from_bits(w.bits), f32::from_bits(h.bits)]
    };
    assert_eq!(clamp([700.0, 560.0]), [760.0, 560.0]);
    assert_eq!(clamp([1024.0, 400.0]), [1024.0, 480.0]);
    assert_eq!(clamp([760.0, 480.0]), [760.0, 480.0]);
    assert_eq!(clamp([1920.0, 1080.0]), [1920.0, 1080.0]);
}

#[test]
fn the_start_lines_say_what_happened_before() {
    let mut s = settings();
    s.state.last_update_check = "2026-07-15".to_string();
    let (_, lines) = App::new(
        "base".to_string(),
        '/',
        s,
        vec!["Imported settings saved to settings.toml".to_string()],
        Vec::new(),
        Some("bad magic".to_string()),
        Some("base/Logs/crash.txt".to_string()),
        (2026, 7, 16),
        0,
    );
    assert_eq!(
        lines,
        [
            "Open NTRIP Client v0.3.0 started",
            "Offline location database unavailable: bad magic",
            "Imported settings saved to settings.toml",
            "The previous run crashed; a crash report was written",
            "Crash report: base/Logs/crash.txt",
        ]
    );
}

fn start(a: &mut App, table_only: bool) -> open_ntrip_client::workers::ntrip::NtripJob {
    match a.connect_ntrip(table_only, SECOND) {
        Connect::Start(job) => job,
        other => panic!("{other:?}"),
    }
}

#[test]
fn connect_builds_the_job_from_the_active_profile() {
    let mut a = app();
    a.settings.app.capture_corrections = true;
    a.settings.profiles[0].ntrip_version = 2;
    a.settings.profiles[0].tls = true;
    a.settings.profiles[0].allow_invalid_certs = true;
    a.state.apply(ready("caster"), 0);
    a.state.apply(AppEvent::RxBytes { total: 77 }, 0);
    let job = start(&mut a, false);
    assert_eq!(job.host, "caster");
    assert_eq!(job.mountpoint, "RTCM32");
    assert_eq!(job.version, NtripVersion::V2);
    assert_eq!(job.stream_requires_gga, Some(true));
    assert_eq!(job.reconnect, ReconnectPolicy::Auto);
    assert!(matches!(job.capture, Some(CaptureTarget::Dir(ref d)) if d == "base/Captures"));
    assert!(a.ntrip_busy() && a.insecure_tls_active);
    assert_eq!(a.state.ntrip.total_bytes, 0, "a new session starts from nothing");
    assert!(matches!(a.connect_ntrip(false, SECOND), Connect::Busy));
    assert!(a.disconnect_ntrip());
}

#[test]
fn a_table_request_is_one_shot_and_never_raw() {
    let mut a = app();
    a.settings.profiles[0].protocol = ProtocolCfg::Tcp;
    a.settings.app.capture_corrections = true;
    let job = start(&mut a, true);
    assert_eq!(job.mountpoint, "");
    assert_eq!(job.transport, Transport::Ntrip);
    assert_eq!(job.reconnect, ReconnectPolicy::OneShot);
    assert!(job.capture.is_none() && job.is_table_request());
    let mut a = app();
    a.settings.profiles[0].protocol = ProtocolCfg::Tcp;
    a.settings.app.auto_reconnect = false;
    let job = start(&mut a, false);
    assert_eq!(job.transport, Transport::RawTcp);
    assert_eq!(job.reconnect, ReconnectPolicy::OptionsOff);
}

#[test]
fn connecting_needs_a_host_and_a_port() {
    let mut a = app();
    a.settings.profiles[0].host = "  ".to_string();
    assert!(matches!(
        a.connect_ntrip(false, 0),
        Connect::NoHost("No caster host configured")
    ));
    assert!(matches!(
        a.toggle_serial(),
        SerialToggle::NoPort("No serial port selected")
    ));
    a.settings.serial.port = "COM4".to_string();
    assert!(matches!(a.toggle_serial(), SerialToggle::Start));
    assert!(a.serial);
    assert!(matches!(a.toggle_serial(), SerialToggle::Stop));
    assert!(!a.serial);
    a.refresh_ports(vec![("COM4".to_string(), String::new())]);
    assert_eq!(a.ports.len(), 1);
}

#[test]
fn the_last_event_of_a_worker_frees_its_place() {
    let mut a = app();
    start(&mut a, false);
    let notes = a.on_event(&AppEvent::Ntrip(NtripStatus::Streaming));
    assert_eq!(notes.lines.len(), 2, "no receiver: the hint");
    let notes = a.on_event(&AppEvent::Ntrip(NtripStatus::Streaming));
    assert!(notes.lines.is_empty(), "once per session");
    let stopped = AppEvent::Ntrip(NtripStatus::Stopped {
        summary: "x".to_string(),
        failed: true,
    });
    assert!(a.on_event(&stopped).join_ntrip);
    assert!(!a.ntrip_busy() && !a.insecure_tls_active);
    assert!(!a.on_event(&stopped).join_ntrip);
    a.serial = true;
    a.serial_ended();
    assert!(!a.serial);
}

#[test]
fn a_fetched_table_is_held_against_the_mountpoint() {
    let mut a = app();
    assert_eq!(
        a.on_event(&ready("caster")).lines,
        ["Sourcetable: mount RTCM32 - format RTCM 3.2, nmea=1 (this stream requests NMEA GGA)"]
    );
    assert!(a.on_event(&ready("elsewhere")).lines.is_empty());
    a.settings.profiles[0].mountpoint = "GONE".to_string();
    assert_eq!(
        log_mount_nmea_flag(&a.settings.profiles[0], "caster", 2101, &table(true)).as_deref(),
        Some("Sourcetable: mount GONE is not listed by this caster")
    );
}

#[test]
fn the_browsed_table_belongs_to_the_active_caster() {
    let mut a = app();
    assert!(a.active_table().is_none());
    a.state.apply(ready("caster"), 0);
    assert_eq!(a.active_table().map(|t| t.strs.len()), Some(1));
    assert!(a.pick_profile("Field"));
    assert!(a.active_table().is_none());
    assert!(!a.pick_profile("Field"), "already active");
    a.ntrip = true;
    assert!(!a.pick_profile("Default"), "nothing switches under a worker");
    assert_eq!(a.settings.active_profile, "Field");
}

#[test]
fn rates_are_sampled_once_per_second() {
    let mut a = app();
    a.state.apply(AppEvent::RxBytes { total: 1500 }, 0);
    assert_eq!(a.update_rate_meter(SECOND - 1), None);
    assert_eq!(a.update_rate_meter(2 * SECOND), Some((1500, 2 * SECOND)));
    assert_eq!(a.update_rate_meter(3 * SECOND), Some((0, SECOND)));
    assert_eq!(a.step_activity(SECOND), (SECOND, 0, 1500));
    assert_eq!(a.step_activity(SECOND + 5), (5, 1500, 1500));
}

#[test]
fn an_update_check_stamps_the_day() {
    let mut a = app();
    let today = LocalStamp { year: 2026, month: 7, day: 6, hour: 1, min: 2, sec: 3 };
    let line = a.check_updates_now(&Ok(()), &today);
    assert_eq!(a.settings.state.last_update_check, "2026-07-06");
    assert!(!line.is_empty());
    assert_eq!(save_line(&Ok(())), "Settings saved");
    assert_eq!(
        save_line(&Err("denied".to_string())),
        "Could not save settings: denied"
    );
}

#[test]
fn the_profiles_dialog_edits_the_list() {
    let mut a = app();
    let mut v = ViewState::default();
    let (i, renamed) = new_profile(&mut a.settings, &mut v);
    assert_eq!((i, renamed), (2, false));
    assert_eq!(v.renaming, Some(2));
    v.rename_buf = "Field".to_string();
    assert!(end_rename(&mut a.settings, &mut v, true));
    assert_ne!(a.settings.profiles[2].name, "Field", "names stay unique");
    assert_eq!(duplicate_profile(&mut a.settings, &mut v, 1), (true, false));
    assert_eq!((a.settings.profiles.len(), v.selected), (4, Some(3)));
    begin_rename(&mut v, 0, "Default");
    cancel_rename(&mut v);
    assert!(v.renaming.is_none());

    let out = activate(&mut a, 1);
    assert_eq!(out.lines, ["Profile \"Field\" activated"]);
    assert!(out.save && a.settings.active_profile == "Field");
    assert!(!activate(&mut a, 1).save, "already active");
    assert_eq!(row_label("Field", "Field"), ("Field  (active)".to_string(), true));

    v.confirm_delete = Some(1);
    let out = confirm_delete(&mut a, &mut v);
    assert_eq!(out.lines, ["Profile \"Field\" deleted"]);
    assert!(out.save && a.settings.profiles.len() == 3);
    assert_ne!(a.settings.active_profile, "Field");
    assert_eq!(v.selected, Some(2), "the selection follows its profile");
    a.ntrip = true;
    v.confirm_delete = Some(0);
    assert!(!confirm_delete(&mut a, &mut v).save, "not under a worker");
    clamp_view(&mut v, 1);
    assert_eq!((v.selected, v.confirm_delete), (None, Some(0)));
}

#[test]
fn dates_are_spelled_in_digits_only() {
    assert_eq!(parse_iso_date("+2026-07-15"), None);
    assert_eq!(parse_iso_date("2026-+7-15"), None);
    assert_eq!(parse_iso_date("2026-07-+15"), None);
    assert_eq!(parse_iso_date(" 2026-07-15"), None);
}

#[test]
fn the_exit_save_stamps_the_resume_intent() {
    let mut a = app();
    a.serial = true;
    a.stamp_resume_intent();
    assert!(a.settings.state.serial_connected);
    assert!(!a.settings.state.ntrip_connected);
    a.serial = false;
    a.ntrip = true;
    a.stamp_resume_intent();
    assert!(!a.settings.state.serial_connected);
    assert!(a.settings.state.ntrip_connected);
}
