//! Caster worker policy: what is sent, what the log says, and when a dropped
//! stream is retried.
use open_ntrip_client::ieee::Real64;
use open_ntrip_client::session::{CloseReason, GgaPolicy, Transport};
use open_ntrip_client::span::Span;
use open_ntrip_client::vocab::{GgaMode, GgaSource};
use open_ntrip_client::workers::machine::{
    MISS_NO_MANUAL_DIAGNOSIS, MISS_NO_MANUAL_REMEDY, MISS_NO_RECEIVER_DIAGNOSIS,
    MISS_NO_RECEIVER_REMEDY, MISS_REPEAT,
};
use open_ntrip_client::workers::ntrip::{
    close_event_line, close_summary, fmt_bytes, fmt_duration, gga_hint, gga_plan, gga_policy,
    mib_crossed, mountpoint_needs_encoding, no_reconnect_line, ordinal_times, reconnect_notice,
    should_reconnect, traffic_milestone, ReconnectPolicy,
};

fn manual_position_set(lat: f64, lon: f64) -> bool {
    open_ntrip_client::workers::ntrip::manual_position_set(
        Real64 { bits: lat.to_bits() },
        Real64 { bits: lon.to_bits() },
    )
}

#[test]
fn gga_policy_mapping() {
    assert_eq!(gga_policy(GgaMode::Off, None), GgaPolicy::Off);
    assert_eq!(gga_policy(GgaMode::Off, Some(true)), GgaPolicy::Off);
    assert_eq!(gga_policy(GgaMode::Always, None), GgaPolicy::Always);
    assert_eq!(
        gga_policy(GgaMode::WhenRequired, Some(true)),
        GgaPolicy::WhenRequired {
            stream_requires: true
        }
    );
    assert_eq!(
        gga_policy(GgaMode::WhenRequired, Some(false)),
        GgaPolicy::WhenRequired {
            stream_requires: false
        }
    );
    // Unknown requirement -> assume required and send (the worker logs
    // this assumption). APIS-style casters hold the stream until a GGA
    // arrives and never list their base-SN mounts in the sourcetable;
    // only an explicit nmea=0 row may suppress sending.
    assert_eq!(
        gga_policy(GgaMode::WhenRequired, None),
        GgaPolicy::WhenRequired {
            stream_requires: true
        }
    );
}

/// (0, 0) exactly means "never configured"; any real coordinate - even
/// one at a zero latitude OR longitude - is a position. Non-finite and
/// out-of-range values (a hand-edited settings.toml parses `nan`/`inf`
/// without complaint) must count as unset, never as something to
/// fabricate a sentence from.
#[test]
fn manual_position_zero_zero_and_garbage_mean_unset() {
    assert!(!manual_position_set(0.0, 0.0));
    assert!(
        !manual_position_set(-0.0, 0.0),
        "negative zero is still unset"
    );
    assert!(manual_position_set(35.1, -106.3));
    assert!(manual_position_set(0.0, -106.3), "zero latitude is legal");
    assert!(manual_position_set(51.5, 0.0), "zero longitude is legal");
    assert!(!manual_position_set(f64::NAN, -106.3));
    assert!(!manual_position_set(35.1, f64::NAN));
    assert!(!manual_position_set(f64::INFINITY, 0.0));
    assert!(!manual_position_set(91.0, 0.0), "latitude out of range");
    assert!(!manual_position_set(0.0, -181.0), "longitude out of range");
}

#[test]
fn reconnect_gating_truth_table() {
    let transient = [
        CloseReason::FirstResponseTimeout,
        CloseReason::SourcetableTimeout,
        CloseReason::StreamSilence,
        CloseReason::StreamCorrupt {
            detail: "x".to_string(),
        },
        CloseReason::RemoteClosed,
        // Deliberate revision of an earlier pin: a close with ZERO
        // received bytes is a drop (caster restarting under us), not a
        // response - it must not end an unattended outage-riding session.
        CloseReason::UnknownResponse { raw: Vec::new() },
        // Partial status line (no LF): the dying caster flushed a few
        // bytes before the RST. Classification never ran; still a drop.
        CloseReason::UnknownResponse {
            raw: b"HTTP/1.1 5".to_vec(),
        },
    ];
    let permanent = [
        CloseReason::Unauthorized,
        CloseReason::MountpointNotFound {
            sourcetable: Vec::new(),
        },
        // A response with a complete line was classified and rejected.
        CloseReason::UnknownResponse {
            raw: b"HTTP/1.1 302 Found\r\n".to_vec(),
        },
        CloseReason::UnknownResponse {
            raw: b"HTTP/1.1 200 OK\r\nPartial-".to_vec(),
        },
        CloseReason::Cancelled,
    ];
    for reason in &transient {
        assert!(should_reconnect(reason, true, 0, 10_000), "{reason:?}");
        assert!(should_reconnect(reason, true, 9_999, 10_000), "{reason:?}");
        // Budget exhausted.
        assert!(
            !should_reconnect(reason, true, 10_000, 10_000),
            "{reason:?}"
        );
        // User disabled auto-reconnect.
        assert!(!should_reconnect(reason, false, 0, 10_000), "{reason:?}");
    }
    for reason in &permanent {
        assert!(
            !should_reconnect(reason, true, 0, 10_000),
            "{reason:?} must never reconnect"
        );
    }
}

#[test]
fn mount_encoding_notice_trigger_matches_core_encoding() {
    assert!(!mountpoint_needs_encoding("RTCM3"));
    assert!(!mountpoint_needs_encoding("P401-A.B_7"));
    assert!(mountpoint_needs_encoding("MY MOUNT"), "space");
    assert!(mountpoint_needs_encoding("M\r\nX"), "CRLF injection");
    assert!(mountpoint_needs_encoding("M\tX"), "control byte");
    assert!(mountpoint_needs_encoding("M\u{7f}"), "DEL");
    assert!(mountpoint_needs_encoding("Mont\u{e9}e"), "non-ASCII");
    assert!(!mountpoint_needs_encoding(""), "sourcetable request");
}

#[test]
fn mib_milestones() {
    const MIB: u64 = 1 << 20;
    assert_eq!(mib_crossed(0, 100), None);
    assert_eq!(mib_crossed(MIB - 1, MIB), Some(1));
    assert_eq!(mib_crossed(MIB, MIB + 1), None);
    assert_eq!(mib_crossed(MIB + 5, 3 * MIB + 2), Some(3));
    assert_eq!(mib_crossed(0, 0), None);
}

/// Early proof points fill the 17-35 minute log gap between "Receiving
/// data" and the first MiB at real correction rates.
#[test]
fn traffic_milestones_early_then_mib() {
    const MIB: u64 = 1 << 20;
    assert_eq!(traffic_milestone(0, 500), None);
    assert_eq!(
        traffic_milestone(9_999, 10_400).as_deref(),
        Some("Received 10 kB (stream healthy)")
    );
    // Already past 10 kB: no repeat.
    assert_eq!(traffic_milestone(10_400, 11_000), None);
    assert_eq!(
        traffic_milestone(99_000, 101_000).as_deref(),
        Some("Received 100 kB")
    );
    assert_eq!(
        traffic_milestone(MIB - 1, MIB).as_deref(),
        Some("Received 1 MiB")
    );
    // A chunk crossing both an early mark and a MiB reports the MiB.
    assert_eq!(
        traffic_milestone(0, 2 * MIB).as_deref(),
        Some("Received 2 MiB")
    );
}

#[test]
fn duration_and_byte_formats_are_humane() {
    assert_eq!(fmt_duration(Span::from_millis(600)), "0.6 s");
    assert_eq!(fmt_duration(Span::from_secs(19)), "19 s");
    assert_eq!(fmt_duration(Span::from_secs(300)), "5 min");
    assert_eq!(fmt_duration(Span::from_secs(9000)), "2.5 h");
    assert_eq!(fmt_bytes(0), "0 B");
    assert_eq!(fmt_bytes(999), "999 B");
    assert_eq!(fmt_bytes(9_400), "9.4 kB");
    assert_eq!(fmt_bytes(2_500_000), "2.5 MB");
}

/// The user-facing kick line: duration and byte count make a pasted log
/// self-explanatory ("after 19 s, 9.4 kB received" was the field case).
#[test]
fn close_event_line_carries_duration_and_bytes() {
    let line = close_event_line(
        &CloseReason::RemoteClosed,
        "RTCM32",
        Span::from_secs(19),
        9_400,
    );
    assert_eq!(
        line,
        "Connection closed by the caster (after 19 s, 9.4 kB received)"
    );
    // Zero bytes: no misleading "0 B received" clause, just the duration.
    let line = close_event_line(
        &CloseReason::StreamSilence,
        "RTCM32",
        Span::from_secs(45),
        0,
    );
    assert_eq!(
        line,
        "Data timeout: no data received for 30 seconds (after 45 s)"
    );
    let line = close_event_line(&CloseReason::Cancelled, "", Span::from_secs(25), 18_200);
    assert_eq!(line, "Disconnected by user (after 25 s, 18.2 kB received)");
}

/// One clause per GGA plan, shown with "Receiving data": every plan that
/// will send nothing (mode off, an nmea=0 row, no position configured)
/// must say so, and neither position arm may claim GGA is flowing while
/// nothing exists to send.
#[test]
fn gga_plan_covers_all_configurations() {
    let p = gga_plan(Transport::RawTcp, GgaMode::Always, Some(true), GgaSource::Manual, true, true);
    assert_eq!(p, "GGA not applicable (raw TCP)");
    assert_eq!(
        gga_plan(Transport::Ntrip, GgaMode::Off, Some(true), GgaSource::Manual, true, true),
        "GGA off"
    );
    // Unknown requirement now sends by default (the APIS fix): the plan
    // reflects the receiver-wait state, not a silent downgrade.
    assert_eq!(
        gga_plan(Transport::Ntrip, GgaMode::WhenRequired, None, GgaSource::Receiver, false, false),
        "will send receiver GGA every 10 s (none until the receiver supplies a fix)"
    );
    // Only an explicit nmea=0 row turns when_required off.
    assert_eq!(
        gga_plan(
            Transport::Ntrip,
            GgaMode::WhenRequired,
            Some(false),
            GgaSource::Receiver,
            false,
            false
        ),
        "GGA off"
    );
    assert_eq!(
        gga_plan(
            Transport::Ntrip,
            GgaMode::WhenRequired,
            Some(true),
            GgaSource::Manual,
            false,
            true
        ),
        "sending GGA every 10 s (manual position)"
    );
    // Manual source with the coordinates never set: intent cannot be
    // honored, and the plan must say why instead of claiming a send.
    assert_eq!(
        gga_plan(Transport::Ntrip, GgaMode::WhenRequired, None, GgaSource::Manual, false, false),
        "GGA wanted but the manual position is not set - edit the profile"
    );
    // Receiver source with a fix in hand: passthrough is a fact.
    assert_eq!(
        gga_plan(Transport::Ntrip, GgaMode::Always, None, GgaSource::Receiver, true, false),
        "sending GGA every 10 s (receiver passthrough)"
    );
    // Receiver source with no fix yet: intent, not fact - the log must
    // not assert GGA is being sent when zero will go out.
    assert_eq!(
        gga_plan(Transport::Ntrip, GgaMode::Always, None, GgaSource::Receiver, false, false),
        "will send receiver GGA every 10 s (none until the receiver supplies a fix)"
    );
}

/// Every miss-note line must fit the default-width event log; the
/// remedy is exactly the part clipping would hide (the gga_hint test
/// pins the same rule for close-time hints).
#[test]
fn miss_note_lines_fit_the_default_width_log() {
    for l in [
        MISS_NO_RECEIVER_DIAGNOSIS,
        MISS_NO_RECEIVER_REMEDY,
        MISS_NO_MANUAL_DIAGNOSIS,
        MISS_NO_MANUAL_REMEDY,
        MISS_REPEAT,
    ] {
        assert!(l.len() <= 80, "{} chars: {l}", l.len());
    }
}

/// The GGA-starvation hint fires only for kick-shaped closes of an NTRIP
/// stream where no GGA ever went out - and the unknown-requirement and
/// stale-table variants only when the connection died fast enough to
/// look like a kick. Every variant is [diagnosis, remedy], both lines
/// short enough to survive the default-width event log.
#[test]
fn gga_hint_truth_table() {
    let quick = Span::from_secs(19);
    let long = Span::from_secs(300);
    let hint = |reason: &CloseReason, requires, sent, dur| {
        gga_hint(reason, Transport::Ntrip, "RTCM32", requires, sent, dur)
    };
    // Declared requirement + nothing sent: always hinted, remedy split
    // onto its own line.
    let [diag, remedy] = hint(&CloseReason::RemoteClosed, Some(true), 0, long).unwrap();
    assert!(
        diag.contains("nmea=1") && diag.contains("none was sent"),
        "{diag}"
    );
    assert!(remedy.contains("Enable Send GGA"), "{remedy}");
    assert!(hint(&CloseReason::StreamSilence, Some(true), 0, quick).is_some());
    // Unknown requirement: hinted only on a fast death. Zero sends with
    // the send-by-default policy means mode off or no position existed;
    // the remedy points at both.
    let [diag, remedy] = hint(&CloseReason::RemoteClosed, None, 0, quick).unwrap();
    assert!(diag.contains("drop silent clients"), "{diag}");
    assert!(remedy.contains("position source"), "{remedy}");
    assert!(hint(&CloseReason::RemoteClosed, None, 0, long).is_none());
    // Table says no GGA needed: soft stale-table pointer on a fast
    // death only (a caster operator enabling the requirement after the
    // table was cached reproduces exactly this close shape).
    let [diag, remedy] = hint(&CloseReason::RemoteClosed, Some(false), 0, quick).unwrap();
    assert!(diag.contains("nmea=0"), "{diag}");
    assert!(remedy.contains("refetch"), "{remedy}");
    assert!(hint(&CloseReason::RemoteClosed, Some(false), 0, long).is_none());
    // A GGA actually went out: starvation is not the story.
    assert!(hint(&CloseReason::RemoteClosed, Some(true), 1, quick).is_none());
    // Every hint line fits the default-width log with its timestamp.
    for requires in [Some(true), Some(false), None] {
        if let Some(lines) = hint(&CloseReason::RemoteClosed, requires, 0, quick) {
            for l in &lines {
                assert!(l.len() <= 80, "{} chars: {l}", l.len());
            }
        }
    }
    // Non-kick closes never carry the hint.
    assert!(hint(&CloseReason::Unauthorized, Some(true), 0, quick).is_none());
    assert!(hint(&CloseReason::Cancelled, Some(true), 0, quick).is_none());
    // Raw TCP and sourcetable requests have no GGA story at all.
    assert!(
        gga_hint(
            &CloseReason::RemoteClosed,
            Transport::RawTcp,
            "X",
            Some(true),
            0,
            quick
        )
        .is_none()
    );
    assert!(
        gga_hint(
            &CloseReason::RemoteClosed,
            Transport::Ntrip,
            "",
            Some(true),
            0,
            quick
        )
        .is_none()
    );
}

/// The negative reconnect decision always has words; permanence beats
/// the policy explanations, and one-shot jobs (sourcetable fetches,
/// --selftest) must never blame the Options setting they do not consult.
#[test]
fn no_reconnect_line_explains_each_policy() {
    let l = no_reconnect_line(false, ReconnectPolicy::Auto, false, 10_000);
    assert!(l.contains("would repeat"), "{l}");
    let l = no_reconnect_line(true, ReconnectPolicy::OptionsOff, false, 10_000);
    assert!(l.contains("Auto-reconnect is off"), "{l}");
    let l = no_reconnect_line(true, ReconnectPolicy::Auto, false, 5);
    assert!(l.contains("limit reached (5 attempts)"), "{l}");
    // A timed-out sourcetable fetch is one-shot BY DESIGN: the line must
    // point at the retry gesture, not at an Options setting that was
    // never consulted (and may even be enabled).
    let l = no_reconnect_line(true, ReconnectPolicy::OneShot, true, 10_000);
    assert!(l.contains("Sourcetable fetches are one-shot"), "{l}");
    assert!(l.contains("Get Sourcetable"), "{l}");
    assert!(!l.contains("Options"), "{l}");
    // A one-shot stream run (--selftest) has no Options either.
    let l = no_reconnect_line(true, ReconnectPolicy::OneShot, false, 1);
    assert!(l.contains("one-shot"), "{l}");
    assert!(!l.contains("Options"), "{l}");
}

/// The reconnect notice keeps the attempt BUDGET semantics but carries
/// the session's drop history: a flapping session must not read as an
/// endless string of first-ever failures.
#[test]
fn reconnect_notice_carries_drop_history() {
    assert_eq!(
        reconnect_notice(0, 1, 10_000),
        "Reconnecting in 10 s (attempt 1 of 10000)"
    );
    assert_eq!(
        reconnect_notice(1, 1, 10_000),
        "Stream dropped (1st time this session) - reconnecting in 10 s (attempt 1 of 10000)"
    );
    assert_eq!(
        reconnect_notice(3, 2, 5),
        "Stream dropped (3rd time this session) - reconnecting in 10 s (attempt 2 of 5)"
    );
    // Ordinal suffixes, including the 11-13 exceptions.
    assert_eq!(ordinal_times(2), "2nd time");
    assert_eq!(ordinal_times(11), "11th time");
    assert_eq!(ordinal_times(12), "12th time");
    assert_eq!(ordinal_times(13), "13th time");
    assert_eq!(ordinal_times(21), "21st time");
    assert_eq!(ordinal_times(111), "111th time");
    assert_eq!(ordinal_times(122), "122nd time");
}

#[test]
fn close_summaries_are_plain_words() {
    assert_eq!(
        close_summary(&CloseReason::Unauthorized, "M"),
        "Invalid username or password"
    );
    let s = close_summary(
        &CloseReason::MountpointNotFound {
            sourcetable: Vec::new(),
        },
        "RTCM3",
    );
    assert!(s.contains("'RTCM3' not found"), "{s}");
    assert!(s.contains("sourcetable"), "{s}");
    // A cancel must be distinguishable from a drop in a pasted log.
    assert_eq!(
        close_summary(&CloseReason::Cancelled, ""),
        "Disconnected by user"
    );
    assert!(close_summary(&CloseReason::StreamSilence, "").contains("30 seconds"));
    // Zero bytes received is worded as a drop, not a response.
    let s = close_summary(&CloseReason::UnknownResponse { raw: Vec::new() }, "");
    assert_eq!(s, "Connection closed before any response from the caster");
    let s = close_summary(
        &CloseReason::UnknownResponse {
            raw: vec![b'x'; 20],
        },
        "",
    );
    assert_eq!(s, "Unexpected response from caster (20 bytes)");
}

#[test]
fn durations_round_like_binary_seconds() {
    assert_eq!(fmt_duration(Span { nanos: 9_949_999_999 }), "9.9 s");
    assert_eq!(fmt_duration(Span { nanos: 9_960_000_000 }), "10.0 s");
    assert_eq!(fmt_duration(Span::from_secs(119)), "119 s");
    assert_eq!(fmt_duration(Span::from_secs(120)), "2 min");
    assert_eq!(fmt_duration(Span::from_secs(7199)), "120 min");
    assert_eq!(fmt_duration(Span::from_secs(7200)), "2.0 h");
    assert_eq!(fmt_bytes(999_949), "999.9 kB");
    assert_eq!(fmt_bytes(1_000_000), "1.0 MB");
}

#[test]
fn durations_and_sizes_agree_with_the_formatter() {
    for ms in [0u64, 1, 49, 50, 51, 149, 150, 950, 1_050, 9_999, 12_499, 12_500, 12_501] {
        let s = ms as f64 / 1000.0;
        let expected = if s < 10.0 { format!("{s:.1} s") } else { format!("{s:.0} s") };
        assert_eq!(fmt_duration(Span::from_millis(ms)), expected, "{ms}");
    }
    for n in [1_000u64, 1_049, 1_050, 1_051, 1_250, 9_950, 99_949, 99_950, 999_999] {
        assert_eq!(fmt_bytes(n), format!("{:.1} kB", n as f64 / 1e3), "{n}");
    }
    for n in [1_000_000u64, 1_050_000, 1_250_000, 123_456_789, u64::MAX] {
        assert_eq!(fmt_bytes(n), format!("{:.1} MB", n as f64 / 1e6), "{n}");
    }
}
