//! First-run import of the Lefebure client's `Settings.txt` and
//! `ntripconfig.txt`.
use vstd::prelude::*;

use crate::ieee::Real64;
use crate::settings::{
    AppCfg, AppModel, DisplayCfg, Profile, ProfileModel, SerialCfg, SerialModel,
    Settings, SettingsModel, StateCfg, StateModel,
};
use crate::text::{
    ascii_lower, chars_of, dec, eq_ci, find_char, find_from, lower, parse_nat, parse_uint, push_dec,
    push_line, same_text, same_text_ci, texts, trim, trimmed,
};
use crate::vocab::{CheckUpdates, DisplayId, GgaSource, NovatelFormat, ProtocolCfg};

verus! {

/// One `Key=Value` line, with the number that the trimmed value spells as a
/// decimal fraction, if it spells one.
#[derive(Debug)]
pub struct LegacyPair {
    pub key: String,
    pub value: String,
    pub number: Option<Real64>,
}

/// What became of one imported line.
#[derive(Debug, Clone, Copy, PartialEq, Eq, Structural)]
pub enum Import {
    Taken,
    Invalid,
    Unknown,
    /// Taken without a log line.
    Silent,
    /// Superseded by automatic behaviour; nothing imported.
    Automatic,
}

// ---------------------------------------------------------------------
// Line syntax
// ---------------------------------------------------------------------

/// The key and value of one line: trimmed, at least three characters, not a
/// `#` comment, with its first `=` behind at least two characters.
pub open spec fn line_pair(line: Seq<char>) -> Option<(Seq<char>, Seq<char>)> {
    let l = trim(line);
    let eq = find_char(l, '=') as int;
    if l.len() < 3 || l[0] == '#' || eq == l.len() || eq < 2 {
        None
    } else {
        Some((l.take(eq), l.skip(eq + 1)))
    }
}

/// The pairs of one line: none or one.
pub open spec fn line_pairs(line: Seq<char>) -> Seq<(Seq<char>, Seq<char>)> {
    match line_pair(line) {
        Some(p) => seq![p],
        None => Seq::empty(),
    }
}

/// The pairs of all lines, in order.
pub open spec fn all_pairs(s: Seq<char>) -> Seq<(Seq<char>, Seq<char>)>
    decreases s.len(),
{
    let n = find_char(s, '\n') as int;
    if n >= s.len() {
        line_pairs(s)
    } else {
        line_pairs(s.take(n)) + all_pairs(s.skip(n + 1))
    }
}

/// The pairs of a list of key/value strings.
pub open spec fn pair_texts(v: Seq<(String, String)>) -> Seq<(Seq<char>, Seq<char>)> {
    Seq::new(v.len(), |i: int| (v[i].0@, v[i].1@))
}

fn split_line(line: &str) -> (r: Option<(String, String)>)
    ensures
        match r {
            Some(p) => line_pair(line@) == Some((p.0@, p.1@)),
            None => line_pair(line@) is None,
        },
{
    let l = trimmed(line);
    let v = chars_of(l);
    if v.len() < 3 || v[0] == '#' {
        return None;
    }
    let eq: usize = find_from(&v, 0, '=');
    assert(v@.skip(0) =~= v@);
    if eq == v.len() || eq < 2 {
        return None;
    }
    let key = l.substring_char(0, eq);
    assert(key@ =~= l@.take(eq as int));
    let value = l.substring_char(eq + 1, v.len());
    assert(value@ =~= l@.skip(eq + 1));
    Some((key.to_owned(), value.to_owned()))
}

/// Split `Key=Value` lines. Keys and values are returned verbatim; matching
/// is the caller's (case-insensitive) job.
pub fn legacy_pairs(text: &str) -> (r: Vec<(String, String)>)
    ensures
        pair_texts(r@) == all_pairs(text@),
{
    let v = chars_of(text);
    let mut pairs: Vec<(String, String)> = Vec::new();
    let mut start: usize = 0;
    proof {
        assert(v@.skip(0) =~= text@);
        assert(pair_texts(pairs@) + all_pairs(text@) =~= all_pairs(text@));
    }
    loop
        invariant_except_break
            v@ == text@,
            start <= v@.len(),
            all_pairs(text@) == pair_texts(pairs@) + all_pairs(v@.skip(start as int)),
        ensures
            pair_texts(pairs@) == all_pairs(text@),
        decreases v@.len() + 1 - start,
    {
        let n: usize = find_from(&v, start, '\n');
        let line = text.substring_char(start, n);
        let ghost rest = v@.skip(start as int);
        let ghost before = pairs@;
        assert(line@ =~= rest.take(n - start));
        match split_line(line) {
            Some(p) => {
                pairs.push(p);
                assert(pair_texts(pairs@) =~= pair_texts(before) + line_pairs(line@));
            },
            None => {
                assert(pair_texts(pairs@) =~= pair_texts(before) + line_pairs(line@));
            },
        }
        if n == v.len() {
            assert(rest.take(n - start) =~= rest);
            break;
        }
        proof {
            assert(rest.skip(n - start + 1) =~= v@.skip(n + 1));
            assert(all_pairs(rest) == line_pairs(line@) + all_pairs(v@.skip(n + 1)));
            assert(pair_texts(before) + (line_pairs(line@) + all_pairs(v@.skip(n + 1)))
                =~= pair_texts(pairs@) + all_pairs(v@.skip(n + 1)));
        }
        start = n + 1;
    }
    pairs
}

/// The Lefebure client's spellings of "on".
pub open spec fn spells_on(s: Seq<char>) -> bool {
    let v = trim(s);
    eq_ci(v, "yes"@) || eq_ci(v, "true"@) || v == "1"@
}

pub fn legacy_bool(value: &str) -> (r: bool)
    ensures
        r == spells_on(value@),
{
    let v = trimmed(value);
    same_text_ci(v, "yes") || same_text_ci(v, "true") || same_text(v, "1")
}

// ---------------------------------------------------------------------
// Keys
// ---------------------------------------------------------------------

/// The settings with their first profile replaced.
pub open spec fn with_first(s: SettingsModel, p: ProfileModel) -> SettingsModel {
    SettingsModel { profiles: s.profiles.update(0, p), ..s }
}

/// "key=value" after a heading.
pub open spec fn keyed_line(heading: Seq<char>, key: Seq<char>, value: Seq<char>) -> Seq<char> {
    heading + key + "="@ + value
}

fn keyed(heading: &str, key: &str, value: &str) -> (r: String)
    ensures
        r@ == keyed_line(heading@, key@, value@),
{
    let mut out = heading.to_owned();
    out.append(key);
    out.append("=");
    out.append(value);
    out
}

/// What one `ntripconfig.txt` line makes of the profile it is imported into.
pub open spec fn ntripconfig_key(p: ProfileModel, key: Seq<char>, value: Seq<char>) -> (
    ProfileModel,
    Import,
) {
    let k = lower(key);
    if k == "ntrip caster"@ {
        (ProfileModel { host: trim(value), ..p }, Import::Taken)
    } else if k == "ntrip caster port"@ {
        match parse_nat(trim(value), 65535) {
            Some(n) => (ProfileModel { port: n as u16, ..p }, Import::Taken),
            None => (p, Import::Invalid),
        }
    } else if k == "ntrip username"@ {
        (ProfileModel { username: value, ..p }, Import::Taken)
    } else if k == "ntrip password"@ {
        (ProfileModel { password: value, ..p }, Import::Taken)
    } else if k == "ntrip mountpoint"@ {
        (ProfileModel { mountpoint: trim(value), ..p }, Import::Taken)
    } else {
        (p, Import::Unknown)
    }
}

/// The log line for one `ntripconfig.txt` line. A password never appears.
pub open spec fn ntripconfig_line(import: Import, key: Seq<char>, value: Seq<char>) -> Seq<char> {
    match import {
        Import::Invalid => keyed_line(
            "Ignored invalid value in ntripconfig.txt: "@,
            key,
            value,
        ),
        Import::Unknown => keyed_line("Ignored unknown key in ntripconfig.txt: "@, key, value),
        _ => if eq_ci(key, "ntrip password"@) {
            "Imported from ntripconfig.txt: NTRIP Password=****"@
        } else {
            keyed_line("Imported from ntripconfig.txt: "@, key, value)
        },
    }
}

fn apply_ntripconfig_key(p: &mut Profile, key: &str, value: &str) -> (r: Import)
    ensures
        (final(p)@, r) == ntripconfig_key(old(p)@, key@, value@),
{
    let k = ascii_lower(key);
    let k = k.as_str();
    if same_text(k, "ntrip caster") {
        p.host = trimmed(value).to_owned();
    } else if same_text(k, "ntrip caster port") {
        match parse_uint(trimmed(value), 65535) {
            Some(n) => {
                p.port = n as u16;
            },
            None => {
                return Import::Invalid;
            },
        }
    } else if same_text(k, "ntrip username") {
        p.username = value.to_owned();
    } else if same_text(k, "ntrip password") {
        p.password = value.to_owned();
    } else if same_text(k, "ntrip mountpoint") {
        p.mountpoint = trimmed(value).to_owned();
    } else {
        return Import::Unknown;
    }
    Import::Taken
}

/// Import one `ntripconfig.txt` line into the first profile, and log it.
pub fn import_ntripconfig_key(s: &mut Settings, key: &str, value: &str, log: &mut Vec<String>)
    requires
        old(s).profiles@.len() > 0,
    ensures
        final(s)@ == with_first(
            old(s)@,
            ntripconfig_key(old(s)@.profiles[0], key@, value@).0,
        ),
        texts(final(log)@) == texts(old(log)@).push(
            ntripconfig_line(
                ntripconfig_key(old(s)@.profiles[0], key@, value@).1,
                key@,
                value@,
            ),
        ),
{
    let import = apply_ntripconfig_key(&mut s.profiles[0], key, value);
    assert(s@.profiles =~= old(s)@.profiles.update(
        0,
        ntripconfig_key(old(s)@.profiles[0], key@, value@).0,
    ));
    let line = match import {
        Import::Invalid => keyed("Ignored invalid value in ntripconfig.txt: ", key, value),
        Import::Unknown => keyed("Ignored unknown key in ntripconfig.txt: ", key, value),
        _ => if same_text_ci(key, "ntrip password") {
            "Imported from ntripconfig.txt: NTRIP Password=****".to_owned()
        } else {
            keyed("Imported from ntripconfig.txt: ", key, value)
        },
    };
    push_line(log, line);
}

/// What a `Settings.txt` option line makes of the options, if it is one; by
/// lower-cased key and trimmed value.
pub open spec fn app_key(a: AppModel, k: Seq<char>, v: Seq<char>) -> Option<(AppModel, Import)> {
    if k == "audio alert file"@ {
        Some((AppModel { audio_alert_file: v, ..a }, Import::Taken))
    } else if k == "write events to file"@ {
        Some((AppModel { write_event_log: spells_on(v), ..a }, Import::Taken))
    } else if k == "write nmea to file"@ {
        Some((AppModel { write_nmea_log: spells_on(v), ..a }, Import::Taken))
    } else if k == "check for updates"@ {
        let check_updates = if spells_on(v) {
            CheckUpdates::Startup
        } else {
            CheckUpdates::Off
        };
        Some((AppModel { check_updates, ..a }, Import::Taken))
    } else if k == "check for updates interval"@ {
        let check_updates = if eq_ci(v, "weekly"@) {
            CheckUpdates::Weekly
        } else {
            CheckUpdates::Off
        };
        Some((AppModel { check_updates, ..a }, Import::Taken))
    } else {
        None
    }
}

/// What a `Settings.txt` link line makes of the link settings, if it is one.
pub open spec fn serial_key(m: SerialModel, k: Seq<char>, v: Seq<char>) -> Option<
    (SerialModel, Import),
> {
    if k == "serial port number"@ {
        Some(
            match parse_nat(v, 0xFFFF_FFFF) {
                Some(n) => (SerialModel { port: "COM"@ + dec(n), ..m }, Import::Taken),
                None => (m, Import::Invalid),
            },
        )
    } else if k == "serial port speed"@ {
        Some(
            match parse_nat(v, 0xFFFF_FFFF) {
                Some(n) => (SerialModel { baud: n as u32, ..m }, Import::Taken),
                None => (m, Import::Invalid),
            },
        )
    } else if k == "serial port data bits"@ {
        Some(
            match parse_nat(v, 255) {
                Some(n) => if n == 7 || n == 8 {
                    (SerialModel { data_bits: n as u8, ..m }, Import::Taken)
                } else {
                    (m, Import::Invalid)
                },
                None => (m, Import::Invalid),
            },
        )
    } else if k == "serial port stop bits"@ {
        // The number is that client's framework enumeration, whose zero
        // drove the port with one stop bit.
        Some(
            match parse_nat(v, 255) {
                Some(n) => if n == 0 {
                    (SerialModel { stop_bits: 1, ..m }, Import::Taken)
                } else if n == 1 || n == 2 {
                    (SerialModel { stop_bits: n as u8, ..m }, Import::Taken)
                } else {
                    (m, Import::Invalid)
                },
                None => (m, Import::Invalid),
            },
        )
    } else if k == "receiver type"@ {
        Some((SerialModel { novatel_autoconfig: eq_ci(v, "novatel"@), ..m }, Import::Taken))
    } else if k == "receiver correction format"@ {
        Some(
            match NovatelFormat::lookup(v) {
                Some(f) => (SerialModel { novatel_format: f, ..m }, Import::Taken),
                None => (m, Import::Invalid),
            },
        )
    } else if k == "receiver message rate"@ {
        Some(
            match parse_nat(v, 255) {
                Some(n) => if n == 1 || n == 5 || n == 10 {
                    (SerialModel { novatel_rate_hz: n as u8, ..m }, Import::Taken)
                } else {
                    (m, Import::Invalid)
                },
                None => (m, Import::Invalid),
            },
        )
    } else {
        None
    }
}

/// What a `Settings.txt` readout line makes of the readouts, if it is one.
pub open spec fn display_key(d: DisplayCfg, k: Seq<char>, v: Seq<char>) -> Option<
    (DisplayCfg, Import),
> {
    if k == "display center"@ {
        Some(
            match DisplayId::lookup(v) {
                Some(id) => (DisplayCfg { center: id, ..d }, Import::Taken),
                None => (d, Import::Invalid),
            },
        )
    } else if k == "display right"@ {
        Some(
            match DisplayId::lookup(v) {
                Some(id) => (DisplayCfg { right: id, ..d }, Import::Taken),
                None => (d, Import::Invalid),
            },
        )
    } else {
        None
    }
}

/// What a `Settings.txt` bookkeeping line makes of the bookkeeping, if it is
/// one.
pub open spec fn state_key(m: StateModel, k: Seq<char>, v: Seq<char>) -> Option<
    (StateModel, Import),
> {
    if k == "last checked for updates"@ {
        Some((StateModel { last_update_check: v, ..m }, Import::Silent))
    } else if k == "serial should be connected"@ {
        Some((StateModel { serial_connected: spells_on(v), ..m }, Import::Taken))
    } else if k == "ntrip should be connected"@ {
        Some((StateModel { ntrip_connected: spells_on(v), ..m }, Import::Taken))
    } else {
        None
    }
}

/// What any other `Settings.txt` line makes of the first profile. `number` is
/// the number that the trimmed value spells as a decimal fraction.
pub open spec fn profile_key(
    p: ProfileModel,
    k: Seq<char>,
    v: Seq<char>,
    number: Option<Real64>,
) -> (ProfileModel, Import) {
    if k == "protocol"@ {
        let protocol = if eq_ci(v, "rawtcpip"@) {
            ProtocolCfg::Tcp
        } else {
            ProtocolCfg::Ntrip
        };
        (ProfileModel { protocol, ..p }, Import::Taken)
    } else if k == "ntrip use manual gga"@ {
        let gga_source = if spells_on(v) {
            GgaSource::Manual
        } else {
            GgaSource::Receiver
        };
        (ProfileModel { gga_source, ..p }, Import::Taken)
    } else if k == "ntrip manual latitude"@ {
        match number {
            Some(x) => (ProfileModel { manual_lat: x, ..p }, Import::Taken),
            None => (p, Import::Invalid),
        }
    } else if k == "ntrip manual longitude"@ {
        match number {
            Some(x) => (ProfileModel { manual_lon: x, ..p }, Import::Taken),
            None => (p, Import::Invalid),
        }
    } else if k == "ntrip only send gga once"@ {
        (p, Import::Automatic)
    } else {
        (p, Import::Unknown)
    }
}

/// What one `Settings.txt` line makes of the settings.
pub open spec fn settings_key(
    s: SettingsModel,
    key: Seq<char>,
    value: Seq<char>,
    number: Option<Real64>,
) -> (SettingsModel, Import) {
    let k = lower(key);
    let v = trim(value);
    match serial_key(s.serial, k, v) {
        Some((serial, i)) => (SettingsModel { serial, ..s }, i),
        None => match app_key(s.app, k, v) {
            Some((app, i)) => (SettingsModel { app, ..s }, i),
            None => match display_key(s.display, k, v) {
                Some((display, i)) => (SettingsModel { display, ..s }, i),
                None => match state_key(s.state, k, v) {
                    Some((state, i)) => (SettingsModel { state, ..s }, i),
                    None => {
                        let (p, i) = profile_key(s.profiles[0], k, v, number);
                        (with_first(s, p), i)
                    },
                },
            },
        },
    }
}

/// The log lines for one `Settings.txt` line: none or one.
pub open spec fn settings_lines(import: Import, key: Seq<char>, value: Seq<char>) -> Seq<
    Seq<char>,
> {
    match import {
        Import::Taken => seq![keyed_line("Imported from Settings.txt: "@, key, value)],
        Import::Invalid => seq![
            keyed_line("Ignored invalid value in Settings.txt: "@, key, value),
        ],
        Import::Unknown => seq![keyed_line("Ignored unknown key in Settings.txt: "@, key, value)],
        Import::Automatic => seq![
            "Note: 'NTRIP Only Send GGA Once' is handled automatically now; nothing imported"@,
        ],
        Import::Silent => Seq::empty(),
    }
}

fn apply_app_key(a: &mut AppCfg, k: &str, v: &str) -> (r: Option<Import>)
    ensures
        match r {
            Some(i) => app_key(old(a)@, k@, v@) == Some((final(a)@, i)),
            None => app_key(old(a)@, k@, v@) is None && *final(a) == *old(a),
        },
{
    if same_text(k, "audio alert file") {
        a.audio_alert_file = v.to_owned();
    } else if same_text(k, "write events to file") {
        a.write_event_log = legacy_bool(v);
    } else if same_text(k, "write nmea to file") {
        a.write_nmea_log = legacy_bool(v);
    } else if same_text(k, "check for updates") {
        a.check_updates = if legacy_bool(v) {
            CheckUpdates::Startup
        } else {
            CheckUpdates::Off
        };
    } else if same_text(k, "check for updates interval") {
        a.check_updates = if same_text_ci(v, "weekly") {
            CheckUpdates::Weekly
        } else {
            CheckUpdates::Off
        };
    } else {
        return None;
    }
    Some(Import::Taken)
}

fn apply_serial_key(m: &mut SerialCfg, k: &str, v: &str) -> (r: Option<Import>)
    ensures
        match r {
            Some(i) => serial_key(old(m)@, k@, v@) == Some((final(m)@, i)),
            None => serial_key(old(m)@, k@, v@) is None && *final(m) == *old(m),
        },
{
    let mut r = Import::Invalid;
    if same_text(k, "serial port number") {
        if let Some(n) = parse_uint(v, 0xFFFF_FFFF) {
            let mut port = "COM".to_owned();
            push_dec(&mut port, n);
            m.port = port;
            r = Import::Taken;
        }
    } else if same_text(k, "serial port speed") {
        if let Some(n) = parse_uint(v, 0xFFFF_FFFF) {
            m.baud = n as u32;
            r = Import::Taken;
        }
    } else if same_text(k, "serial port data bits") {
        if let Some(n) = parse_uint(v, 255) {
            if n == 7 || n == 8 {
                m.data_bits = n as u8;
                r = Import::Taken;
            }
        }
    } else if same_text(k, "serial port stop bits") {
        if let Some(n) = parse_uint(v, 255) {
            if n <= 2 {
                m.stop_bits = if n == 0 { 1 } else { n as u8 };
                r = Import::Taken;
            }
        }
    } else if same_text(k, "receiver type") {
        m.novatel_autoconfig = same_text_ci(v, "novatel");
        r = Import::Taken;
    } else if same_text(k, "receiver correction format") {
        if let Some(f) = NovatelFormat::from_id(v) {
            m.novatel_format = f;
            r = Import::Taken;
        }
    } else if same_text(k, "receiver message rate") {
        if let Some(n) = parse_uint(v, 255) {
            if n == 1 || n == 5 || n == 10 {
                m.novatel_rate_hz = n as u8;
                r = Import::Taken;
            }
        }
    } else {
        return None;
    }
    Some(r)
}

fn apply_display_key(d: &mut DisplayCfg, k: &str, v: &str) -> (r: Option<Import>)
    ensures
        match r {
            Some(i) => display_key(*old(d), k@, v@) == Some((*final(d), i)),
            None => display_key(*old(d), k@, v@) is None && *final(d) == *old(d),
        },
{
    if same_text(k, "display center") {
        match DisplayId::from_id(v) {
            Some(id) => {
                d.center = id;
                Some(Import::Taken)
            },
            None => Some(Import::Invalid),
        }
    } else if same_text(k, "display right") {
        match DisplayId::from_id(v) {
            Some(id) => {
                d.right = id;
                Some(Import::Taken)
            },
            None => Some(Import::Invalid),
        }
    } else {
        None
    }
}

fn apply_state_key(m: &mut StateCfg, k: &str, v: &str) -> (r: Option<Import>)
    ensures
        match r {
            Some(i) => state_key(old(m)@, k@, v@) == Some((final(m)@, i)),
            None => state_key(old(m)@, k@, v@) is None && *final(m) == *old(m),
        },
{
    if same_text(k, "last checked for updates") {
        m.last_update_check = v.to_owned();
        Some(Import::Silent)
    } else if same_text(k, "serial should be connected") {
        m.serial_connected = legacy_bool(v);
        Some(Import::Taken)
    } else if same_text(k, "ntrip should be connected") {
        m.ntrip_connected = legacy_bool(v);
        Some(Import::Taken)
    } else {
        None
    }
}

fn apply_profile_key(p: &mut Profile, k: &str, v: &str, number: Option<Real64>) -> (r: Import)
    ensures
        (final(p)@, r) == profile_key(old(p)@, k@, v@, number),
{
    if same_text(k, "protocol") {
        p.protocol = if same_text_ci(v, "rawtcpip") {
            ProtocolCfg::Tcp
        } else {
            ProtocolCfg::Ntrip
        };
    } else if same_text(k, "ntrip use manual gga") {
        p.gga_source = if legacy_bool(v) {
            GgaSource::Manual
        } else {
            GgaSource::Receiver
        };
    } else if same_text(k, "ntrip manual latitude") {
        match number {
            Some(x) => {
                p.manual_lat = x;
            },
            None => {
                return Import::Invalid;
            },
        }
    } else if same_text(k, "ntrip manual longitude") {
        match number {
            Some(x) => {
                p.manual_lon = x;
            },
            None => {
                return Import::Invalid;
            },
        }
    } else if same_text(k, "ntrip only send gga once") {
        return Import::Automatic;
    } else {
        return Import::Unknown;
    }
    Import::Taken
}

fn apply_settings_key(s: &mut Settings, k: &str, v: &str, number: Option<Real64>) -> (r: Import)
    requires
        old(s).profiles@.len() > 0,
    ensures
        forall|key: Seq<char>, value: Seq<char>|
            lower(key) == k@ && trim(value) == v@ ==> #[trigger] settings_key(
                old(s)@,
                key,
                value,
                number,
            ) == (final(s)@, r),
{
    if let Some(i) = apply_serial_key(&mut s.serial, k, v) {
        return i;
    }
    if let Some(i) = apply_app_key(&mut s.app, k, v) {
        return i;
    }
    if let Some(i) = apply_display_key(&mut s.display, k, v) {
        return i;
    }
    if let Some(i) = apply_state_key(&mut s.state, k, v) {
        return i;
    }
    let i = apply_profile_key(&mut s.profiles[0], k, v, number);
    assert(s@.profiles =~= old(s)@.profiles.update(
        0,
        profile_key(old(s)@.profiles[0], k@, v@, number).0,
    ));
    i
}

/// Import one `Settings.txt` line, and log it.
pub fn import_settings_key(
    s: &mut Settings,
    key: &str,
    value: &str,
    number: Option<Real64>,
    log: &mut Vec<String>,
)
    requires
        old(s).profiles@.len() > 0,
    ensures
        final(s)@ == settings_key(old(s)@, key@, value@, number).0,
        texts(final(log)@) == texts(old(log)@) + settings_lines(
            settings_key(old(s)@, key@, value@, number).1,
            key@,
            value@,
        ),
{
    let k = ascii_lower(key);
    let v = trimmed(value);
    let import = apply_settings_key(s, k.as_str(), v, number);
    assert((s@, import) == settings_key(old(s)@, key@, value@, number));
    let ghost logged = texts(log@);
    match import {
        Import::Taken => push_line(log, keyed("Imported from Settings.txt: ", key, value)),
        Import::Invalid => push_line(
            log,
            keyed("Ignored invalid value in Settings.txt: ", key, value),
        ),
        Import::Unknown => push_line(
            log,
            keyed("Ignored unknown key in Settings.txt: ", key, value),
        ),
        Import::Automatic => push_line(
            log,
            "Note: 'NTRIP Only Send GGA Once' is handled automatically now; nothing imported".to_owned(),
        ),
        Import::Silent => {},
    }
    assert(texts(log@) =~= logged + settings_lines(import, key@, value@));
}

// ---------------------------------------------------------------------
// Whole files
// ---------------------------------------------------------------------

/// Settings and log as an import builds them up.
pub struct ImportState {
    pub settings: SettingsModel,
    pub log: Seq<Seq<char>>,
}

/// What a [`LegacyPair`] says.
pub struct PairModel {
    pub key: Seq<char>,
    pub value: Seq<char>,
    pub number: Option<Real64>,
}

impl View for LegacyPair {
    type V = PairModel;

    open spec fn view(&self) -> PairModel {
        PairModel { key: self.key@, value: self.value@, number: self.number }
    }
}

/// The models of a list of pairs.
pub open spec fn pair_models(v: Seq<LegacyPair>) -> Seq<PairModel> {
    Seq::new(v.len(), |i: int| v[i]@)
}

impl ImportState {
    /// Before any line: factory settings with one profile named "Imported".
    pub open spec fn start() -> ImportState {
        ImportState {
            settings: SettingsModel {
                active_profile: "Imported"@,
                profiles: seq![ProfileModel { name: "Imported"@, ..ProfileModel::fresh() }],
                ..SettingsModel::fresh()
            },
            log: Seq::empty(),
        }
    }

    pub open spec fn logged(self, line: Seq<char>) -> ImportState {
        ImportState { log: self.log.push(line), ..self }
    }

    /// After one more `ntripconfig.txt` line.
    pub open spec fn ntripconfig_step(self, p: PairModel) -> ImportState {
        let (profile, import) = ntripconfig_key(self.settings.profiles[0], p.key, p.value);
        ImportState {
            settings: with_first(self.settings, profile),
            log: self.log.push(ntripconfig_line(import, p.key, p.value)),
        }
    }

    /// After every one of these `ntripconfig.txt` lines, in order.
    pub open spec fn ntripconfig_steps(self, pairs: Seq<PairModel>) -> ImportState
        decreases pairs.len(),
    {
        if pairs.len() == 0 {
            self
        } else {
            self.ntripconfig_steps(pairs.drop_last()).ntripconfig_step(pairs.last())
        }
    }

    /// After one more `Settings.txt` line.
    pub open spec fn settings_step(self, p: PairModel) -> ImportState {
        let (settings, import) = settings_key(self.settings, p.key, p.value, p.number);
        ImportState { settings, log: self.log + settings_lines(import, p.key, p.value) }
    }

    /// After every one of these `Settings.txt` lines, in order.
    pub open spec fn settings_steps(self, pairs: Seq<PairModel>) -> ImportState
        decreases pairs.len(),
    {
        if pairs.len() == 0 {
            self
        } else {
            self.settings_steps(pairs.drop_last()).settings_step(pairs.last())
        }
    }

    /// After the whole `ntripconfig.txt`, if there is one.
    pub open spec fn with_ntripconfig(self, file: Option<Seq<PairModel>>) -> ImportState {
        match file {
            Some(pairs) => self.logged("Importing legacy ntripconfig.txt"@).ntripconfig_steps(
                pairs,
            ),
            None => self,
        }
    }

    /// After the whole `Settings.txt`, if there is one.
    pub open spec fn with_settings(self, file: Option<Seq<PairModel>>) -> ImportState {
        match file {
            Some(pairs) => self.logged("Importing legacy Settings.txt"@).settings_steps(pairs),
            None => self,
        }
    }
}

/// The lines of a file, if there is one.
pub open spec fn file_models(file: Option<Vec<LegacyPair>>) -> Option<Seq<PairModel>> {
    match file {
        Some(v) => Some(pair_models(v@)),
        None => None,
    }
}

/// Import the lines of `ntripconfig.txt`, then those of `Settings.txt`, into
/// one fresh profile. Nothing is imported when neither file exists.
pub fn import_legacy(
    ntripconfig: &Option<Vec<LegacyPair>>,
    settings_txt: &Option<Vec<LegacyPair>>,
) -> (r: Option<(Settings, Vec<String>)>)
    ensures
        r is None <==> (ntripconfig is None && settings_txt is None),
        match r {
            Some((s, log)) => {
                let end = ImportState::start().with_ntripconfig(
                    file_models(*ntripconfig),
                ).with_settings(file_models(*settings_txt));
                s@ == end.settings.normalized() && texts(log@) == end.log
            },
            None => true,
        },
        match r {
            Some((s, log)) => s@.wf(),
            None => true,
        },
{
    if ntripconfig.is_none() && settings_txt.is_none() {
        return None;
    }
    let mut s = Settings::default();
    assert(s@.profiles[0] == ProfileModel::fresh());
    assert(s@.profiles.len() == s.profiles@.len());
    s.active_profile = "Imported".to_owned();
    s.profiles[0].name = "Imported".to_owned();
    let mut log: Vec<String> = Vec::new();
    let ghost start = ImportState::start();
    proof {
        assert(s@.profiles =~= start.settings.profiles);
        assert(texts(log@) =~= start.log);
    }
    if let Some(pairs) = ntripconfig {
        push_line(&mut log, "Importing legacy ntripconfig.txt".to_owned());
        let ghost first = start.logged("Importing legacy ntripconfig.txt"@);
        let ghost models = pair_models(pairs@);
        let mut i: usize = 0;
        assert(models.take(0) =~= Seq::<PairModel>::empty());
        while i < pairs.len()
            invariant
                i <= pairs@.len(),
                models == pair_models(pairs@),
                s.profiles@.len() > 0,
                (ImportState { settings: s@, log: texts(log@) }) == first.ntripconfig_steps(
                    models.take(i as int),
                ),
            decreases pairs.len() - i,
        {
            import_ntripconfig_key(
                &mut s,
                pairs[i].key.as_str(),
                pairs[i].value.as_str(),
                &mut log,
            );
            proof {
                assert(models.take(i + 1).drop_last() =~= models.take(i as int));
                assert(s@.profiles.len() > 0);
            }
            i += 1;
        }
        assert(models.take(i as int) =~= models);
    }
    let ghost mid = start.with_ntripconfig(file_models(*ntripconfig));
    assert((ImportState { settings: s@, log: texts(log@) }) == mid);
    if let Some(pairs) = settings_txt {
        push_line(&mut log, "Importing legacy Settings.txt".to_owned());
        let ghost first = mid.logged("Importing legacy Settings.txt"@);
        let ghost models = pair_models(pairs@);
        let mut i: usize = 0;
        assert(models.take(0) =~= Seq::<PairModel>::empty());
        while i < pairs.len()
            invariant
                i <= pairs@.len(),
                models == pair_models(pairs@),
                s.profiles@.len() > 0,
                (ImportState { settings: s@, log: texts(log@) }) == first.settings_steps(
                    models.take(i as int),
                ),
            decreases pairs.len() - i,
        {
            import_settings_key(
                &mut s,
                pairs[i].key.as_str(),
                pairs[i].value.as_str(),
                pairs[i].number,
                &mut log,
            );
            proof {
                assert(models.take(i + 1).drop_last() =~= models.take(i as int));
                assert(s@.profiles.len() > 0);
            }
            i += 1;
        }
        assert(models.take(i as int) =~= models);
    }
    s.normalize();
    Some((s, log))
}

/// What the log says of a password line does not depend on the password.
pub proof fn law_password_stays_out_of_the_log(p: ProfileModel, key: Seq<char>, a: Seq<char>, b: Seq<char>)
    requires
        lower(key) == "ntrip password"@,
    ensures
        ntripconfig_line(ntripconfig_key(p, key, a).1, key, a) == ntripconfig_line(
            ntripconfig_key(p, key, b).1,
            key,
            b,
        ),
        ntripconfig_key(p, key, a).0.password == a,
{
    reveal_strlit("ntrip password");
    reveal_strlit("ntrip caster");
    reveal_strlit("ntrip caster port");
    reveal_strlit("ntrip username");
    assert("ntrip password"@.len() == 14);
    assert("ntrip username"@[6] == 'u');
    assert("ntrip password"@[6] == 'p');
    assert(lower("ntrip password"@) =~= "ntrip password"@);
}

} // verus!
