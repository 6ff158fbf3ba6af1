//! Settings: defaults, repair, the profile pointer, and what an import takes.

use open_ntrip_client::ieee::{Real32, Real64};
use open_ntrip_client::legacy::{import_legacy, legacy_bool, legacy_pairs, LegacyPair};
use open_ntrip_client::settings::{
    file_error, load_or_import, AppCfg, DisplayCfg, Imported, Profile, SerialCfg, Settings,
    SettingsFile, StateCfg, WindowCfg,
};
use open_ntrip_client::vocab::{
    BottomTab, CheckUpdates, DisplayId, GgaMode, GgaSource, NovatelFormat, ParityCfg, ProtocolCfg,
};

fn single(v: f32) -> Real32 {
    Real32 { bits: v.to_bits() }
}

/// The text of a legacy file, its values read as numbers where they are.
fn pairs(text: &str) -> Vec<LegacyPair> {
    legacy_pairs(text)
        .into_iter()
        .map(|(key, value)| {
            let number = value
                .parse::<f64>()
                .ok()
                .map(|v| Real64 { bits: v.to_bits() });
            LegacyPair { key, value, number }
        })
        .collect()
}

fn import_settings_txt(text: &str) -> (Settings, Vec<String>) {
    import_legacy(&None, &Some(pairs(text))).expect("import should trigger")
}

#[test]
fn unknown_enum_values_fall_back_to_defaults() {
    assert_eq!(
        DisplayId::from_id_or_default("flux-capacitor"),
        DisplayId::Nothing
    );
    assert_eq!(DisplayId::from_id_or_default("age"), DisplayId::Age);
    assert_eq!(ParityCfg::from_id_or_default("marks"), ParityCfg::NoParity);
    assert_eq!(
        GgaMode::from_id_or_default("sometimes"),
        GgaMode::WhenRequired
    );
}

#[test]
fn normalize_repairs_hostile_values() {
    let mut s = Settings {
        active_profile: "gone".to_string(),
        profiles: Vec::new(),
        serial: SerialCfg {
            data_bits: 9,
            stop_bits: 3,
            novatel_rate_hz: 7,
            ..SerialCfg::default()
        },
        window: WindowCfg {
            width: single(10.0),
            height: single(9999.0),
            ..WindowCfg::default()
        },
        ..Settings::default()
    };
    s.normalize();
    assert_eq!(s.profiles.len(), 1);
    assert_eq!(s.active_profile, "Default");
    assert_eq!(s.serial.data_bits, 8);
    assert_eq!(s.serial.stop_bits, 1);
    assert_eq!(s.serial.novatel_rate_hz, 5);
    assert_eq!(
        [
            f32::from_bits(s.window.width.bits),
            f32::from_bits(s.window.height.bits)
        ],
        [700.0, 3000.0]
    );
}

/// Repairing twice changes nothing more.
#[test]
fn normalize_is_idempotent_and_keeps_good_values() {
    let mut s = Settings::default();
    s.active_profile = "nowhere".to_string();
    s.window.width = single(f32::NAN);
    s.normalize();
    assert_eq!(s.active_profile, "Default");
    let before = format!("{s:?}");
    s.normalize();
    assert_eq!(format!("{s:?}"), before);

    let mut good = Settings::default();
    let fresh = format!("{good:?}");
    good.normalize();
    assert_eq!(format!("{good:?}"), fresh);
}

#[test]
fn display_id_parsing_covers_all_legacy_ids() {
    let ids = [
        ("age", DisplayId::Age),
        ("hdop", DisplayId::Hdop),
        ("vdop", DisplayId::Vdop),
        ("pdop", DisplayId::Pdop),
        ("elevation-feet", DisplayId::ElevationFeet),
        ("elevation-meters", DisplayId::ElevationMeters),
        ("speed-mph", DisplayId::SpeedMph),
        ("speed-mph-smoothed", DisplayId::SpeedMphSmoothed),
        ("speed-kmh", DisplayId::SpeedKmh),
        ("speed-kmh-smoothed", DisplayId::SpeedKmhSmoothed),
        ("heading", DisplayId::Heading),
        ("data-age", DisplayId::DataAge),
        ("data-rate", DisplayId::DataRate),
        ("nothing", DisplayId::Nothing),
    ];
    for (text, id) in ids {
        assert_eq!(DisplayId::from_id(text), Some(id), "{text}");
        assert_eq!(id.as_str(), text);
    }
    assert_eq!(DisplayId::from_id("HDOP"), Some(DisplayId::Hdop));
    assert_eq!(DisplayId::from_id(" age "), Some(DisplayId::Age));
    assert_eq!(DisplayId::from_id("altitude"), None);
    assert_eq!(DisplayId::all().len(), 14);
}

/// The defaults a fresh profile ships with, pinned as a deliberate
/// decision: when_required GGA (which sends on unknown requirements),
/// receiver source, and outage-riding reconnect on.
#[test]
fn new_profile_and_reconnect_defaults_are_deliberate() {
    let p = Profile::default();
    assert_eq!(p.gga_mode, GgaMode::WhenRequired);
    assert_eq!(p.gga_source, GgaSource::Receiver);
    let a = AppCfg::default();
    assert!(a.auto_reconnect, "outage riding is the default");
    assert_eq!(a.max_reconnect_attempts, 10_000);
}

/// Both daily file logs default ON: a diagnostic tool that writes no
/// diagnostics by default leaves no evidence of the session that needed it.
#[test]
fn defaults_write_diagnostics_and_readouts() {
    let a = AppCfg::default();
    assert!(a.write_event_log, "event log must default ON");
    assert!(a.write_nmea_log, "NMEA log must default ON");
    assert_eq!(a.check_updates, CheckUpdates::Weekly, "weekly cadence");
    let d = DisplayCfg::default();
    assert_eq!(
        d.center,
        DisplayId::ElevationFeet,
        "default readout: elevation (ft)"
    );
    assert_eq!(
        d.right,
        DisplayId::DataAge,
        "default readout: base-stream data age"
    );
    let st = StateCfg::default();
    assert!(!st.serial_connected, "no resume intent until an exit save");
    assert!(!st.ntrip_connected);
    assert!(st.last_update_check.is_empty());
}

#[test]
fn window_defaults_match_one_surface_layout() {
    let w = WindowCfg::default();
    assert_eq!(
        [f32::from_bits(w.width.bits), f32::from_bits(w.height.bits)],
        [920.0, 680.0]
    );
    assert_eq!(w.tab, BottomTab::Events);
    assert!(!w.gga_open);
    assert!(!w.graph_open);
    assert_eq!(w.pos, None);
}

#[test]
fn bottom_tab_round_trips_and_unknown_falls_back_to_events() {
    let ids = [
        ("events", BottomTab::Events),
        ("conn", BottomTab::Conn),
        ("stream", BottomTab::Stream),
        ("sourcetable", BottomTab::Sourcetable),
    ];
    for (text, tab) in ids {
        assert_eq!(BottomTab::from_id(text), Some(tab), "{text}");
        assert_eq!(tab.as_str(), text);
    }
    assert_eq!(BottomTab::all().len(), 4);
    assert_eq!(
        BottomTab::from_id_or_default(BottomTab::Stream.as_str()),
        BottomTab::Stream
    );
    // A future or hand-edited tab name must not brick the file.
    assert_eq!(BottomTab::from_id_or_default("dashboard"), BottomTab::Events);
}

/// Every identifier of every vocabulary reads back as its value.
#[test]
fn every_identifier_round_trips() {
    for v in CheckUpdates::all() {
        assert_eq!(CheckUpdates::from_id(v.as_str()), Some(v));
    }
    for v in ParityCfg::all() {
        assert_eq!(ParityCfg::from_id(v.as_str()), Some(v));
    }
    for v in NovatelFormat::all() {
        assert_eq!(NovatelFormat::from_id(v.as_str()), Some(v));
    }
    for v in ProtocolCfg::all() {
        assert_eq!(ProtocolCfg::from_id(v.as_str()), Some(v));
    }
    for v in GgaMode::all() {
        assert_eq!(GgaMode::from_id(v.as_str()), Some(v));
    }
    for v in GgaSource::all() {
        assert_eq!(GgaSource::from_id(v.as_str()), Some(v));
    }
    for v in BottomTab::all() {
        assert_eq!(BottomTab::from_id(v.as_str()), Some(v));
    }
    for v in DisplayId::all() {
        assert_eq!(DisplayId::from_id(v.as_str()), Some(v));
    }
}

/// persistable_eq drives the profile strip's stateful Save button: only
/// user-authored config may light it. Geometry, tab/disclosure churn,
/// [state] bookkeeping and the schema stamp are exit-save territory.
#[test]
fn persistable_eq_ignores_window_state_and_schema() {
    let base = Settings::default();
    let mut churn = Settings::default();
    churn.schema = 999;
    churn.window.pos = Some((5, 5));
    churn.window.width = single(1000.0);
    churn.window.height = single(800.0);
    churn.window.graph_open = true;
    churn.window.tab = BottomTab::Sourcetable;
    churn.window.gga_open = true;
    churn.state.last_update_check = "2026-07-16".to_string();
    churn.state.serial_connected = true;
    churn.state.ntrip_connected = true;
    assert!(
        base.persistable_eq(&churn),
        "UI churn must not read as edits"
    );
    assert!(churn.persistable_eq(&base), "symmetric");

    let edits: [(&'static str, fn(&mut Settings)); 6] = [
        ("profile field", |s| {
            s.profiles[0].host = "caster.example".to_string();
        }),
        ("profile added", |s| s.profiles.push(Profile::default())),
        ("active pointer", |s| s.active_profile = "Other".to_string()),
        ("app cfg", |s| {
            s.app.write_event_log = !s.app.write_event_log
        }),
        ("display slot", |s| s.display.center = DisplayId::Hdop),
        ("serial cfg", |s| s.serial.baud = 9600),
    ];
    for (name, edit) in edits {
        let mut s = Settings::default();
        edit(&mut s);
        assert!(!base.persistable_eq(&s), "{name} must read as an edit");
    }
}

#[test]
fn the_active_profile_is_found_by_name() {
    let mut s = Settings::default();
    s.profiles.push(Profile {
        name: "Field".to_string(),
        host: "h".to_string(),
        ..Profile::default()
    });
    s.active_profile = "Field".to_string();
    assert_eq!(s.active_index(), 1);
    assert_eq!(s.active().host, "h");
    s.active_mut().host = "other".to_string();
    assert_eq!(s.profiles[1].host, "other");
    s.active_profile = "gone".to_string();
    assert_eq!(s.active_index(), 0, "an unknown name falls back to the first");
    assert!(s.has_profile("Field") && !s.has_profile("field"));
    let twin = s.profiles[1].duplicate();
    assert_eq!(format!("{twin:?}"), format!("{:?}", s.profiles[1]));
}

#[test]
fn legacy_parser_rules_exact() {
    let text = "\
# comment line skipped\n\
ab\n\
x=1\n\
ab=cd\n\
Key=first=second\n\
  Padded=value  \n\
no equals sign here\n";
    let pairs = legacy_pairs(text);
    assert_eq!(
        pairs,
        vec![
            ("ab".to_string(), "cd".to_string()),
            ("Key".to_string(), "first=second".to_string()),
            ("Padded".to_string(), "value".to_string()),
        ]
    );
}

#[test]
fn legacy_booleans_are_yes_true_or_one() {
    assert!(legacy_bool("yes") && legacy_bool("YES") && legacy_bool(" True ") && legacy_bool("1"));
    assert!(!legacy_bool("no") && !legacy_bool("10") && !legacy_bool(""));
}

#[test]
fn import_happy_path_both_files() {
    let ntripconfig = pairs(
        "NTRIP Caster=rtk2go.com\nNTRIP Caster Port=2101\nNTRIP Username=alice\n\
NTRIP Password=secret\nNTRIP MountPoint=MOUNT1\n",
    );
    let settings_txt = pairs(
        "Serial Port Number=4\nSerial Port Speed=57600\nSerial Port Data Bits=7\n\
Serial Port Stop Bits=2\nDisplay Center=vdop\nDisplay Right=speed-mph-smoothed\n\
Audio Alert File=alert.wav\nWrite Events To File=yes\nWrite NMEA To File=no\n\
Protocol=RawTCPIP\nNTRIP Use Manual GGA=yes\nNTRIP Manual Latitude=45.5\n\
NTRIP Manual Longitude=-122.6\nReceiver Type=NovAtel\nReceiver Correction Format=cmr\n\
Receiver Message Rate=10\n",
    );
    let (s, log) =
        import_legacy(&Some(ntripconfig), &Some(settings_txt)).expect("import should trigger");
    assert_eq!(s.active_profile, "Imported");
    let p = &s.profiles[0];
    assert_eq!(p.name, "Imported");
    assert_eq!(p.host, "rtk2go.com");
    assert_eq!(p.port, 2101);
    assert_eq!(p.username, "alice");
    assert_eq!(p.password, "secret");
    assert_eq!(p.mountpoint, "MOUNT1");
    assert_eq!(p.protocol, ProtocolCfg::Tcp);
    assert_eq!(p.gga_source, GgaSource::Manual);
    assert!((f64::from_bits(p.manual_lat.bits) - 45.5).abs() < 1e-12);
    assert!((f64::from_bits(p.manual_lon.bits) + 122.6).abs() < 1e-12);
    assert_eq!(s.serial.port, "COM4");
    assert_eq!(s.serial.baud, 57_600);
    assert_eq!(s.serial.data_bits, 7);
    assert_eq!(s.serial.stop_bits, 2);
    assert!(s.serial.novatel_autoconfig);
    assert_eq!(s.serial.novatel_format, NovatelFormat::Cmr);
    assert_eq!(s.serial.novatel_rate_hz, 10);
    assert_eq!(s.display.center, DisplayId::Vdop);
    assert_eq!(s.display.right, DisplayId::SpeedMphSmoothed);
    assert_eq!(s.app.audio_alert_file, "alert.wav");
    assert!(s.app.write_event_log);
    assert!(!s.app.write_nmea_log);

    // Every imported line produced exactly one log line, passwords masked.
    assert!(log.iter().any(|l| l.contains("NTRIP Caster=rtk2go.com")));
    assert!(log.iter().any(|l| l.contains("NTRIP Password=****")));
    assert!(!log.iter().any(|l| l.contains("secret")));
    assert!(log.iter().any(|l| l.contains("Serial Port Number=4")));
    assert_eq!(log.len(), 1 + 5 + 1 + 16, "a line per file and per pair");
}

#[test]
fn import_keys_case_insensitive_and_unknown_logged() {
    let (s, log) = import_settings_txt(
        "SERIAL PORT NUMBER=7\nwrite events to file=YES\nMystery Key=abc\n\
NTRIP Only Send GGA Once=yes\nSerial Port Speed=oops\n",
    );
    assert_eq!(s.serial.port, "COM7");
    assert!(s.app.write_event_log);
    assert_eq!(s.serial.baud, 115_200, "invalid speed keeps default");
    assert!(log
        .iter()
        .any(|l| l.contains("unknown key") && l.contains("Mystery Key=abc")));
    assert!(log.iter().any(|l| l.contains("Only Send GGA Once")));
    assert!(log
        .iter()
        .any(|l| l.contains("invalid value") && l.contains("Serial Port Speed=oops")));
    // No ntripconfig: the imported profile exists with defaults.
    assert_eq!(s.profiles[0].name, "Imported");
    assert_eq!(s.profiles[0].host, "");
}

/// The update and resume keys of Settings.txt: the weekly cadence carries
/// over, the last-checked stamp imports silently, and the should-be-connected
/// flags land in the resume intent.
#[test]
fn import_update_and_resume_keys() {
    let (s, log) = import_settings_txt(
        "Check For Updates Interval=Weekly\nLast Checked For Updates=2017-07-27\n\
Serial Should Be Connected=Yes\nNTRIP Should Be Connected=Yes\n",
    );
    assert_eq!(s.app.check_updates, CheckUpdates::Weekly);
    assert_eq!(s.state.last_update_check, "2017-07-27");
    assert!(s.state.serial_connected);
    assert!(s.state.ntrip_connected);
    // Silent import: neither an "Imported ..." line nor an unknown-key
    // complaint for the bookkeeping stamp.
    assert!(!log.iter().any(|l| l.contains("Last Checked")));
    // The user-visible keys still log one line each.
    assert!(log
        .iter()
        .any(|l| l.contains("Serial Should Be Connected=Yes")));
    assert!(log
        .iter()
        .any(|l| l.contains("NTRIP Should Be Connected=Yes")));
    assert!(log
        .iter()
        .any(|l| l.contains("Check For Updates Interval=Weekly")));
}

/// Anything but the weekly cadence maps to off, and "no" must not silently
/// inherit the weekly default.
#[test]
fn import_non_weekly_update_interval_maps_to_off() {
    for value in ["No", "startup", "Daily", ""] {
        let (s, _) = import_settings_txt(&format!("Check For Updates Interval={value}\n"));
        assert_eq!(s.app.check_updates, CheckUpdates::Off, "value {value:?}");
    }
    // And no-connection flags default false when the keys are absent.
    let (s, _) = import_settings_txt("Serial Port Number=4\n");
    assert!(!s.state.serial_connected);
    assert!(!s.state.ntrip_connected);
}

/// Zero stop bits behave as one; genuinely invalid values are still rejected
/// with a log line.
#[test]
fn import_stop_bits_zero_means_one() {
    let (s, log) = import_settings_txt("Serial Port Stop Bits=2\nSerial Port Stop Bits=0\n");
    assert_eq!(s.serial.stop_bits, 1, "0 imports as the 1 it behaved as");
    assert!(log.iter().any(|l| l.contains("Serial Port Stop Bits=0")));

    let (s2, log2) = import_settings_txt("Serial Port Stop Bits=3\n");
    assert_eq!(s2.serial.stop_bits, 1, "invalid keeps the default");
    assert!(log2
        .iter()
        .any(|l| l.contains("invalid value") && l.contains("Stop Bits=3")));
}

#[test]
fn nothing_to_import_is_no_import() {
    assert!(import_legacy(&None, &None).is_none());
}

/// A file that does not parse is never clobbered silently: defaults are
/// handed out and the log says where the file was preserved.
#[test]
fn unparseable_file_is_preserved_before_defaults_can_clobber_it() {
    let (s, log) = load_or_import(
        SettingsFile::Broken {
            reason: "expected a value".to_string(),
            preserved: Ok(()),
        },
        None,
        "dir/settings.toml.bad",
    );
    assert_eq!(
        format!("{s:?}"),
        format!("{:?}", Settings::default()),
        "defaults on parse failure"
    );
    assert!(
        log.iter().any(|l| l.contains("settings.toml.bad")),
        "the preserved path must be surfaced: {log:?}"
    );
    assert_eq!(log[0], "Could not load settings.toml (expected a value); using defaults");
    let (_, log) = load_or_import(
        SettingsFile::Broken {
            reason: "r".to_string(),
            preserved: Err("disk full".to_string()),
        },
        None,
        "b",
    );
    assert_eq!(log[1], "Could not preserve the unparseable file as b: disk full");
}

#[test]
fn missing_file_yields_defaults_with_one_profile() {
    let (s, log) = load_or_import(SettingsFile::Missing, None, "settings.toml.bad");
    assert_eq!(format!("{s:?}"), format!("{:?}", Settings::default()));
    assert_eq!(s.profiles.len(), 1);
    assert_eq!(s.profiles[0].name, "Default");
    assert!(log.is_empty());
}

/// The first run takes an import and says that it was saved; a second one
/// loads the file and says nothing.
#[test]
fn first_run_takes_the_import_and_the_second_the_file() {
    let ntripconfig = pairs("NTRIP Caster=example.com\nNTRIP Caster Port=99\n");
    let (settings, log) = import_legacy(&Some(ntripconfig), &None).expect("import should trigger");
    let (s, log) = load_or_import(
        SettingsFile::Missing,
        Some(Imported { settings, log, saved: Ok(()) }),
        "settings.toml.bad",
    );
    assert_eq!(s.profiles[0].host, "example.com");
    assert_eq!(s.profiles[0].port, 99);
    assert!(log.iter().any(|l| l.contains("settings.toml")));
    let shown = format!("{s:?}");
    let (s2, log2) = load_or_import(SettingsFile::Parsed(s), None, "settings.toml.bad");
    assert_eq!(format!("{s2:?}"), shown);
    assert!(log2.is_empty());
}

#[test]
fn an_import_that_cannot_be_saved_says_so() {
    let (settings, log) = import_settings_txt("Serial Port Number=4\n");
    let (_, log) = load_or_import(
        SettingsFile::Missing,
        Some(Imported { settings, log, saved: Err("denied".to_string()) }),
        "b",
    );
    assert_eq!(log.last().unwrap(), "Could not save imported settings: denied");
    assert_eq!(file_error("write", "p", "denied"), "write p: denied");
}

#[test]
fn legacy_lines_are_measured_in_characters() {
    assert!(legacy_pairs("\u{e9}=").is_empty(), "two characters");
    assert!(legacy_pairs("\u{e9}=x").is_empty(), "a key of one character");
    assert_eq!(
        legacy_pairs("\u{e9}\u{e9}="),
        vec![("\u{e9}\u{e9}".to_string(), String::new())]
    );
}
