//! Paths, one-shot effects, crash reports, and the text primitives.

use open_ntrip_client::audio::{
    alert_line, alert_path, no_player, open_url, opener, play_wav, players, Launch,
};
use open_ntrip_client::ieee::{Real32, Real64};
use open_ntrip_client::order::lex_order;
use open_ntrip_client::paths;
use open_ntrip_client::span::Span;
use open_ntrip_client::text::{
    ascii_lower, dec_string, parse_uint, push_dec_pad, push_escaped, push_hex_pad, push_padded,
    same_text, same_text_ci, split_at, trimmed, trimmed_end,
};
use open_ntrip_client::vocab::DisplayId;
use open_ntrip_client::{
    crash_report, take_crash_notice, user_agent, write_crash_report, ReportStep,
};

#[test]
fn empty_path_is_silent_success() {
    assert_eq!(play_wav("", false, &Ok(())), Ok(()));
    assert_eq!(play_wav("   ", false, &Ok(())), Ok(()));
}

#[test]
fn missing_file_reports_error_not_silence() {
    let r = play_wav("/tmp/open-ntrip-client-no-such-alert.wav", false, &Ok(()));
    let err = r.expect_err("async playback cannot report this later; we must");
    assert!(err.contains("not found"), "{err}");
}

#[test]
fn players_are_tried_in_order() {
    assert_eq!(alert_path(" a.wav "), Some("a.wav"));
    assert_eq!(players(false), ["aplay", "paplay"]);
    assert_eq!(players(true), ["afplay"]);
    assert_eq!(
        play_wav("a.wav", true, &Err("busy".to_string())),
        Err("busy".to_string())
    );
    assert_eq!(
        no_player("paplay", "not found"),
        "no audio player available (paplay: not found)"
    );
}

#[test]
fn the_shell_answers_above_32_for_success() {
    let url = "https://example.com";
    assert_eq!(open_url(url, &Launch::Spawned), Ok(()));
    assert_eq!(open_url(url, &Launch::ShellCode(33)), Ok(()));
    assert_eq!(
        open_url(url, &Launch::ShellCode(2)),
        Err("ShellExecuteW returned 2 for https://example.com".to_string())
    );
    assert_eq!(
        open_url(url, &Launch::ShellCode(-1)),
        Err("ShellExecuteW returned -1 for https://example.com".to_string())
    );
    let failed = Launch::SpawnFailed {
        opener: opener(false).to_string(),
        reason: "not found".to_string(),
    };
    assert_eq!(open_url(url, &failed), Err("xdg-open: not found".to_string()));
}

#[test]
fn files_lie_under_the_base() {
    assert_eq!(paths::settings_file("base", '/'), "base/settings.toml");
    assert_eq!(paths::settings_temporary("base/", '/'), "base/settings.toml.tmp");
    assert_eq!(paths::settings_preserved("base", '/'), "base/settings.toml.bad");
    assert_eq!(paths::logs_dir("base", '/'), "base/Logs");
    assert_eq!(paths::nmea_dir("base", '/'), "base/NMEA");
    assert_eq!(paths::captures_dir("base", '/'), "base/Captures");
    assert_eq!(paths::crash_marker("base", '/'), "base/crash-pending.txt");
    assert_eq!(paths::join("", '/', "x"), "x");
    assert_eq!(paths::logs_dir("C:\\rtk", '\\'), "C:\\rtk\\Logs");
    assert_eq!(paths::join("C:\\", '\\', "x"), "C:\\x");
    assert_eq!(paths::join("C:/rtk/", '\\', "x"), "C:/rtk/x");
}

#[test]
fn a_crash_report_degrades_to_the_next_sink() {
    let s = write_crash_report(ReportStep::TryLogs, false);
    assert_eq!(s, ReportStep::TryFallback);
    assert_eq!(write_crash_report(s, false), ReportStep::Lost);
    assert_eq!(write_crash_report(s, true), ReportStep::InFallback);
    assert_eq!(write_crash_report(ReportStep::TryLogs, true), ReportStep::InLogs);
    let text = crash_report("boom", "frame 0");
    assert_eq!(
        text,
        "Open NTRIP Client v0.3.0 crashed\n\nboom\n\nbacktrace:\nframe 0\n"
    );
    assert_eq!(take_crash_notice(None), None);
    assert_eq!(take_crash_notice(Some("  \n")), None);
    assert_eq!(take_crash_notice(Some("p.txt\n")).as_deref(), Some("p.txt"));
    assert_eq!(user_agent(), "NTRIP OpenNtripClient/0.3.0");
}

#[test]
fn texts_are_trimmed_and_compared_as_std_does() {
    for s in ["", " a ", "\t x y\r\n", "\u{2003}wide\u{a0}", "plain", "\u{85}"] {
        assert_eq!(trimmed(s), s.trim());
        assert_eq!(trimmed_end(s), s.trim_end());
    }
    assert!(same_text("a", "a") && !same_text("a", "A"));
    assert!(same_text_ci("Mount", "mOUNT") && !same_text_ci("\u{c4}", "\u{e4}"));
    assert_eq!(ascii_lower("ABC \u{c4}"), "ABC \u{c4}".to_ascii_lowercase());
}

#[test]
fn numbers_are_written_and_read_back() {
    for n in [0u64, 7, 10, 99, 1_000, u64::MAX] {
        assert_eq!(dec_string(n), n.to_string());
        assert_eq!(parse_uint(&dec_string(n), u64::MAX), Some(n));
    }
    for s in ["", "+", "+5", "-1", "1 ", "18446744073709551616", "007"] {
        assert_eq!(parse_uint(s, u64::MAX), s.parse::<u64>().ok(), "{s:?}");
    }
    assert_eq!(parse_uint("65536", 65_535), None);
    let mut t = String::new();
    push_dec_pad(&mut t, 5, 3);
    push_hex_pad(&mut t, 0x2F, 8);
    push_padded(&mut t, "ab", 4, '.');
    assert_eq!(t, "0050000002F..ab");
}

#[test]
fn escapes_are_those_of_debug_output() {
    let mut t = String::new();
    push_escaped(&mut t, "a b\t\u{1}");
    assert!(t.starts_with("a b") && !t.contains('\t'), "{t}");
}

#[test]
fn pieces_keep_every_separator_apart() {
    assert_eq!(split_at("2026-07-16", '-'), ["2026", "07", "16"]);
    assert_eq!(split_at("", '-'), [""]);
    assert_eq!(split_at("-a-", '-'), ["", "a", ""]);
}

#[test]
fn byte_strings_order_lexicographically() {
    assert!(lex_order(b"abc", b"abd") < 0);
    assert!(lex_order(b"abc", b"ab") > 0);
    assert_eq!(lex_order(b"abc", b"abc"), 0);
    assert!(lex_order(b"", b"a") < 0);
}

#[test]
fn spans_saturate() {
    assert_eq!(Span::since(5, 3), Span { nanos: 0 });
    assert_eq!(Span::since(3, 5), Span { nanos: 2 });
    assert_eq!(Span::from_millis(1_500).nanos, 1_500_000_000);
}

#[test]
fn carried_values_compare_as_numbers() {
    let d = |v: f64| Real64 { bits: v.to_bits() };
    let values = [-7.5, -0.0, 0.0, 1.0, f64::INFINITY, f64::NEG_INFINITY, f64::NAN, 1e-310];
    for a in values {
        for b in values {
            assert_eq!(d(a).same_value(d(b)), a == b, "{a} {b}");
            let (lo, hi) = (
                f64::from_bits(d(a).min_of(d(b)).bits),
                f64::from_bits(d(a).max_of(d(b)).bits),
            );
            assert!(lo == a.min(b) || lo.is_nan() && a.min(b).is_nan(), "{a} {b}");
            assert!(hi == a.max(b) || hi.is_nan() && a.max(b).is_nan(), "{a} {b}");
            assert_eq!(d(a).is_under(b.to_bits()), a < b || (b.is_nan() && d(a).is_under(b.to_bits())), "{a} {b}");
        }
    }
    let c = Real32 { bits: 5.0f32.to_bits() };
    let r = c.clamp_between(1.0f32.to_bits(), 2.0f32.to_bits());
    assert_eq!(f32::from_bits(r.bits), 2.0);
}

#[test]
fn readouts_have_labels() {
    for id in DisplayId::all() {
        assert!(!id.label().is_empty());
    }
}

#[test]
fn an_alert_that_fails_is_logged() {
    assert_eq!(alert_line(&Ok(())), None);
    assert_eq!(
        alert_line(&Err("no player".to_string())),
        Some("Audio alert failed: no player".to_string())
    );
}
