//! Laws of the import: which key fills which field, and what is told of it.
use vstd::prelude::*;

use crate::ieee::Real64;
use crate::laws::settings::{alike, same_contents, same_rest};
use crate::laws::words::{numeral, reads};
use crate::laws::{lemma_mentions, mentions};
use crate::legacy::{
    import_legacy, import_ntripconfig_key, import_settings_key, legacy_bool, legacy_pairs,
    LegacyPair,
};
use crate::settings::{Profile, Settings};
use crate::text::{ascii_lower, lower, texts, trim};
use crate::vocab::{CheckUpdates, DisplayId, GgaSource, NovatelFormat, ProtocolCfg};

verus! {

/// Lower case changes the letters A to Z and nothing else.
pub proof fn law_lower_case(s: &str, r: String)
    requires
        call_ensures(ascii_lower, (s,), r),
    ensures
        r@.len() == s@.len(),
        forall|i: int|
            0 <= i < s@.len() ==> r@[i] as int == #[trigger] s@[i] as int + if 'A' <= s@[i]
                <= 'Z' {
                32int
            } else {
                0
            },
{
    assert forall|i: int| 0 <= i < s@.len() implies r@[i] as int == #[trigger] s@[i] as int
        + if 'A' <= s@[i] <= 'Z' {
        32int
    } else {
        0
    } by {
        assert(r@[i] == crate::text::lower_char(s@[i]));
    }
}

/// A value that is digits stands for the number that they read as; one that
/// does not is no number.
pub open spec fn stands_for(value: Seq<char>, max: int, n: int) -> bool {
    let v = trim(value);
    let digits = if v.len() > 1 && v[0] == '+' {
        v.skip(1)
    } else {
        v
    };
    numeral(digits) && reads(digits) == n && n <= max
}

proof fn lemma_number(v: Seq<char>, max: nat)
    ensures
        crate::text::parse_nat(v, max) matches Some(n) ==> ({
            let digits = if v.len() > 1 && v[0] == '+' {
                v.skip(1)
            } else {
                v
            };
            numeral(digits) && reads(digits) == n && n <= max
        }),
        ({
            let digits = if v.len() > 1 && v[0] == '+' {
                v.skip(1)
            } else {
                v
            };
            numeral(digits) && reads(digits) <= max ==> crate::text::parse_nat(v, max) == Some(
                reads(digits) as nat,
            )
        }),
{
    let u = crate::text::strip_plus(v);
    let digits = if v.len() > 1 && v[0] == '+' {
        v.skip(1)
    } else {
        v
    };
    if numeral(digits) {
        crate::laws::words::lemma_digits_value(digits);
    }
    if numeral(u) {
        crate::laws::words::lemma_digits_value(u);
    }
}

/// Whether nothing changed but, perhaps, the first profile.
pub open spec fn only_first(a: Settings, b: Settings) -> bool {
    &&& same_rest(a, b) && a.active_profile@ == b.active_profile@
    &&& a.profiles@.len() == b.profiles@.len()
    &&& forall|i: int|
        1 <= i < a.profiles@.len() ==> alike(#[trigger] b.profiles@[i], a.profiles@[i])
}

/// Whether nothing changed but, perhaps, these groups.
pub open spec fn only_groups(a: Settings, b: Settings) -> bool {
    &&& a.active_profile@ == b.active_profile@
    &&& a.profiles@.len() == b.profiles@.len()
    &&& forall|i: int|
        0 <= i < a.profiles@.len() ==> alike(#[trigger] b.profiles@[i], a.profiles@[i])
    &&& same_rest(
        a,
        (Settings { app: a.app, display: a.display, serial: a.serial, state: a.state, ..b }),
    )
}

proof fn lemma_profiles(a: Settings, b: Settings)
    ensures
        a@.profiles.len() == a.profiles@.len(),
        forall|i: int|
            0 <= i < a.profiles@.len() ==> #[trigger] a@.profiles[i] == a.profiles@[i]@,
        a@.profiles == b@.profiles ==> forall|i: int|
            0 <= i < a.profiles@.len() ==> alike(#[trigger] b.profiles@[i], a.profiles@[i]),
{
    if a@.profiles == b@.profiles {
        assert(b@.profiles.len() == b.profiles@.len());
        assert forall|i: int| 0 <= i < a.profiles@.len() implies alike(
            #[trigger] b.profiles@[i],
            a.profiles@[i],
        ) by {
            assert(a@.profiles[i] == a.profiles@[i]@);
            assert(b@.profiles[i] == b.profiles@[i]@);
        }
    }
}

/// The caster's keys are different words.
proof fn lemma_caster_words()
    ensures
        "ntrip caster"@.len() == 12 && "ntrip caster"@[6] == 'c',
        "ntrip caster port"@.len() == 17 && "ntrip caster port"@[6] == 'c',
        "ntrip username"@.len() == 14 && "ntrip username"@[6] == 'u',
        "ntrip password"@.len() == 14 && "ntrip password"@[6] == 'p',
        "ntrip mountpoint"@.len() == 16 && "ntrip mountpoint"@[6] == 'm',
        lower("ntrip password"@) == "ntrip password"@,
{
    reveal_strlit("ntrip caster");
    reveal_strlit("ntrip caster port");
    reveal_strlit("ntrip username");
    reveal_strlit("ntrip password");
    reveal_strlit("ntrip mountpoint");
    assert(lower("ntrip password"@) =~= "ntrip password"@);
}

/// Each key of the caster's file fills its own field of the first profile, and
/// no other.
pub proof fn law_caster_keys(s: &mut Settings, key: &str, value: &str, log: &mut Vec<String>)
    requires
        call_ensures(import_ntripconfig_key, (s, key, value, log), ()),
        old(s).profiles@.len() > 0,
    ensures
        ({
            let k = lower(key@);
            let (p, q) = (old(s).profiles@[0], final(s).profiles@[0]);
            &&& only_first(*old(s), *final(s))
            &&& k == "ntrip caster"@ ==> q.host@ == trim(value@) && alike(
                (Profile { host: p.host, ..q }),
                p,
            )
            &&& k == "ntrip caster port"@ ==> {
                &&& stands_for(value@, 65535, q.port as int) || q.port == p.port
                &&& forall|n: int| #[trigger] stands_for(value@, 65535, n) ==> q.port == n
                &&& alike((Profile { port: p.port, ..q }), p)
            }
            &&& k == "ntrip username"@ ==> q.username@ == value@ && alike(
                (Profile { username: p.username, ..q }),
                p,
            )
            &&& k == "ntrip password"@ ==> q.password@ == value@ && alike(
                (Profile { password: p.password, ..q }),
                p,
            )
            &&& k == "ntrip mountpoint"@ ==> q.mountpoint@ == trim(value@) && alike(
                (Profile { mountpoint: p.mountpoint, ..q }),
                p,
            )
            &&& k != "ntrip caster"@ && k != "ntrip caster port"@ && k != "ntrip username"@ && k
                != "ntrip password"@ && k != "ntrip mountpoint"@ ==> alike(q, p)
        }),
{
    let (a, b) = (*old(s), *final(s));
    lemma_caster_words();
    lemma_number(trim(value@), 65535);
    assert(a@.profiles.len() == a.profiles@.len());
    assert(b@.profiles.len() == b.profiles@.len());
    assert(a@.profiles[0] == a.profiles@[0]@);
    assert(b@.profiles[0] == b.profiles@[0]@);
    assert forall|i: int| 1 <= i < a.profiles@.len() implies alike(
        #[trigger] b.profiles@[i],
        a.profiles@[i],
    ) by {
        assert(a@.profiles[i] == a.profiles@[i]@);
        assert(b@.profiles[i] == b.profiles@[i]@);
    }
}

/// Each key of the caster's file is told of in one line that names the key; a
/// password that was taken is covered, so that two passwords give one line.
pub proof fn law_caster_keys_are_told(
    s: &mut Settings,
    key: &str,
    value: &str,
    log: &mut Vec<String>,
)
    requires
        call_ensures(import_ntripconfig_key, (s, key, value, log), ()),
        old(s).profiles@.len() > 0,
    ensures
        final(log)@.len() == old(log)@.len() + 1,
        forall|i: int|
            0 <= i < old(log)@.len() ==> (#[trigger] final(log)@[i])@ == old(log)@[i]@,
        lower(key@) == "ntrip password"@ ==> final(log)@.last()@
            == "Imported from ntripconfig.txt: NTRIP Password=****"@,
        lower(key@) != "ntrip password"@ ==> mentions(final(log)@.last()@, key@) && mentions(
            final(log)@.last()@,
            value@,
        ),
{
    let n = old(log)@.len() as int;
    assert(texts(final(log)@).len() == final(log)@.len());
    assert(texts(final(log)@)[n] == final(log)@[n]@);
    assert forall|i: int| 0 <= i < n implies (#[trigger] final(log)@[i])@ == old(log)@[i]@ by {
        assert(texts(final(log)@)[i] == final(log)@[i]@);
        assert(texts(old(log)@)[i] == old(log)@[i]@);
    }
    lemma_caster_words();
    lemma_keyed("Ignored invalid value in ntripconfig.txt: "@, key@, value@);
    lemma_keyed("Ignored unknown key in ntripconfig.txt: "@, key@, value@);
    lemma_keyed("Imported from ntripconfig.txt: "@, key@, value@);
}

proof fn lemma_keyed(heading: Seq<char>, key: Seq<char>, value: Seq<char>)
    ensures
        mentions(crate::legacy::keyed_line(heading, key, value), key),
        mentions(crate::legacy::keyed_line(heading, key, value), value),
{
    let line = crate::legacy::keyed_line(heading, key, value);
    lemma_mentions(heading, key, "="@ + value);
    assert(heading + key + ("="@ + value) =~= line);
    lemma_mentions(heading + key + "="@, value, Seq::empty());
    assert(heading + key + "="@ + value + Seq::<char>::empty() =~= line);
}

/// Whether a word says yes.
pub open spec fn says_yes(value: Seq<char>) -> bool {
    let v = lower(trim(value));
    v == "yes"@ || v == "true"@ || v == "1"@
}

/// A word says yes as "yes", "true" or "1", in any case and with any space
/// around it.
pub proof fn law_yes_is_read(value: &str, r: bool)
    requires
        call_ensures(legacy_bool, (value,), r),
    ensures
        r <==> says_yes(value@),
{
    lemma_yes(value@);
}

proof fn lemma_yes(value: Seq<char>)
    ensures
        crate::legacy::spells_on(value) <==> says_yes(value),
{
    reveal_strlit("yes");
    reveal_strlit("true");
    reveal_strlit("1");
    assert(lower("yes"@) =~= "yes"@);
    assert(lower("true"@) =~= "true"@);
    let v = trim(value);
    assert(lower("1"@) =~= "1"@);
    if lower(v) == "1"@ {
        assert(v.len() == 1 && crate::text::lower_char(v[0]) == lower(v)[0]);
        assert(v =~= "1"@);
    }
}

/// Each key of the receiver's part of the old settings fills its own field.
pub proof fn law_receiver_keys(
    s: &mut Settings,
    key: &str,
    value: &str,
    number: Option<Real64>,
    log: &mut Vec<String>,
)
    requires
        call_ensures(import_settings_key, (s, key, value, number, log), ()),
        old(s).profiles@.len() > 0,
        ({
            let k = lower(key@);
            ||| k == "serial port number"@
            ||| k == "serial port speed"@
            ||| k == "serial port data bits"@
            ||| k == "serial port stop bits"@
            ||| k == "receiver type"@
            ||| k == "receiver message rate"@
            ||| k == "receiver correction format"@
        }),
    ensures
        ({
            let k = lower(key@);
            let (a, b) = (old(s).serial, final(s).serial);
            &&& only_groups(*old(s), *final(s))
            &&& final(s).display == old(s).display
            &&& same_rest(*old(s), (Settings { serial: a, ..*final(s) }))
            &&& b.parity == a.parity
            &&& k != "serial port number"@ ==> b.port@ == a.port@
            &&& k != "serial port speed"@ ==> b.baud == a.baud
            &&& k != "serial port data bits"@ ==> b.data_bits == a.data_bits
            &&& k != "serial port stop bits"@ ==> b.stop_bits == a.stop_bits
            &&& k != "receiver type"@ ==> b.novatel_autoconfig == a.novatel_autoconfig
            &&& k != "receiver message rate"@ ==> b.novatel_rate_hz == a.novatel_rate_hz
            &&& k != "receiver correction format"@ ==> b.novatel_format == a.novatel_format
            &&& k == "serial port number"@ ==> b.port@ == a.port@ || (b.port@.take(3) == "COM"@
                && numeral(b.port@.skip(3)) && stands_for(
                value@,
                0xFFFF_FFFF,
                reads(b.port@.skip(3)),
            ))
            &&& k == "serial port speed"@ ==> {
                &&& b.baud == a.baud || stands_for(value@, 0xFFFF_FFFF, b.baud as int)
                &&& forall|n: int| #[trigger] stands_for(value@, 0xFFFF_FFFF, n) ==> b.baud == n
            }
            &&& k == "serial port data bits"@ ==> {
                &&& b.data_bits == a.data_bits || stands_for(value@, 8, b.data_bits as int)
                &&& forall|n: int| #[trigger]
                    stands_for(value@, 255, n) ==> if n == 7 || n == 8 {
                        b.data_bits == n
                    } else {
                        b.data_bits == a.data_bits
                    }
            }
            &&& k == "serial port stop bits"@ ==> forall|n: int| #[trigger]
                stands_for(value@, 255, n) ==> b.stop_bits == (if n == 0 || n == 1 {
                    1u8
                } else if n == 2 {
                    2u8
                } else {
                    a.stop_bits
                })
            &&& k == "receiver type"@ ==> (b.novatel_autoconfig <==> lower(trim(value@))
                == "novatel"@)
            &&& k == "receiver message rate"@ ==> forall|n: int| #[trigger]
                stands_for(value@, 255, n) ==> b.novatel_rate_hz == (if n == 1 || n == 5 || n
                    == 10 {
                    n as u8
                } else {
                    a.novatel_rate_hz
                })
            &&& k == "receiver correction format"@ ==> b.novatel_format == (
            match NovatelFormat::lookup(trim(value@)) {
                Some(f) => f,
                None => a.novatel_format,
            })
        }),
{
    lemma_profiles(*old(s), *final(s));
    lemma_key_words();
    let v = trim(value@);
    lemma_number(v, 0xFFFF_FFFF);
    lemma_number(v, 255);
    reveal_strlit("novatel");
    assert(lower("novatel"@) =~= "novatel"@);
    reveal_strlit("COM");
    if let Some(n) = crate::text::parse_nat(v, 0xFFFF_FFFF) {
        crate::laws::words::law_decimal_reads_back(n);
        let port = "COM"@ + crate::text::dec(n);
        assert(port.take(3) =~= "COM"@);
        assert(port.skip(3) =~= crate::text::dec(n));
    }
    let (a, b) = (old(s).serial, final(s).serial);
    if lower(key@) == "serial port data bits"@ && b.data_bits != a.data_bits {
        assert(stands_for(value@, 8, b.data_bits as int));
    }
}

/// Each key of the program's part of the old settings fills its own field.
pub proof fn law_program_keys(
    s: &mut Settings,
    key: &str,
    value: &str,
    number: Option<Real64>,
    log: &mut Vec<String>,
)
    requires
        call_ensures(import_settings_key, (s, key, value, number, log), ()),
        old(s).profiles@.len() > 0,
        ({
            let k = lower(key@);
            ||| k == "audio alert file"@
            ||| k == "write events to file"@
            ||| k == "write nmea to file"@
            ||| k == "check for updates"@
            ||| k == "check for updates interval"@
            ||| k == "display center"@
            ||| k == "display right"@
            ||| k == "last checked for updates"@
            ||| k == "serial should be connected"@
            ||| k == "ntrip should be connected"@
        }),
    ensures
        ({
            let k = lower(key@);
            let (a, b) = (old(s).app, final(s).app);
            let (c, d) = (old(s).display, final(s).display);
            let (e, f) = (old(s).state, final(s).state);
            &&& only_groups(*old(s), *final(s))
            &&& same_rest(
                *old(s),
                (Settings { app: a, display: c, state: e, ..*final(s) }),
            )
            &&& b.capture_corrections == a.capture_corrections
            &&& b.auto_reconnect == a.auto_reconnect
            &&& b.max_reconnect_attempts == a.max_reconnect_attempts
            &&& b.audio_alert_file@ == if k == "audio alert file"@ {
                trim(value@)
            } else {
                a.audio_alert_file@
            }
            &&& b.write_event_log == if k == "write events to file"@ {
                says_yes(trim(value@))
            } else {
                a.write_event_log
            }
            &&& b.write_nmea_log == if k == "write nmea to file"@ {
                says_yes(trim(value@))
            } else {
                a.write_nmea_log
            }
            &&& k == "check for updates"@ ==> b.check_updates == if says_yes(trim(value@)) {
                CheckUpdates::Startup
            } else {
                CheckUpdates::Off
            }
            &&& k == "check for updates interval"@ ==> b.check_updates == if lower(trim(value@))
                == "weekly"@ {
                CheckUpdates::Weekly
            } else {
                CheckUpdates::Off
            }
            &&& k != "check for updates"@ && k != "check for updates interval"@
                ==> b.check_updates == a.check_updates
            &&& k != "display center"@ ==> d.center == c.center
            &&& k != "display right"@ ==> d.right == c.right
            &&& k == "display center"@ ==> d.center == match DisplayId::lookup(trim(value@)) {
                Some(id) => id,
                None => c.center,
            }
            &&& k == "display right"@ ==> d.right == match DisplayId::lookup(trim(value@)) {
                Some(id) => id,
                None => c.right,
            }
            &&& f.last_update_check@ == if k == "last checked for updates"@ {
                trim(value@)
            } else {
                e.last_update_check@
            }
            &&& f.serial_connected == if k == "serial should be connected"@ {
                says_yes(trim(value@))
            } else {
                e.serial_connected
            }
            &&& f.ntrip_connected == if k == "ntrip should be connected"@ {
                says_yes(trim(value@))
            } else {
                e.ntrip_connected
            }
        }),
{
    lemma_profiles(*old(s), *final(s));
    lemma_key_words();
    let v = trim(value@);
    lemma_yes(v);
    reveal_strlit("weekly");
    assert(lower("weekly"@) =~= "weekly"@);
}

/// Each key of the profile's part of the old settings fills its own field of
/// the first profile: the latitude by one, the longitude by the other.
pub proof fn law_profile_keys(
    s: &mut Settings,
    key: &str,
    value: &str,
    number: Option<Real64>,
    log: &mut Vec<String>,
)
    requires
        call_ensures(import_settings_key, (s, key, value, number, log), ()),
        old(s).profiles@.len() > 0,
        ({
            let k = lower(key@);
            ||| k == "protocol"@
            ||| k == "ntrip use manual gga"@
            ||| k == "ntrip manual latitude"@
            ||| k == "ntrip manual longitude"@
            ||| k == "ntrip only send gga once"@
        }),
    ensures
        ({
            let k = lower(key@);
            let (p, q) = (old(s).profiles@[0], final(s).profiles@[0]);
            &&& only_first(*old(s), *final(s))
            &&& k == "protocol"@ ==> {
                &&& q.protocol == ProtocolCfg::Tcp <==> lower(trim(value@)) == "rawtcpip"@
                &&& alike((Profile { protocol: p.protocol, ..q }), p)
            }
            &&& k == "ntrip use manual gga"@ ==> {
                &&& q.gga_source == GgaSource::Manual <==> says_yes(trim(value@))
                &&& alike((Profile { gga_source: p.gga_source, ..q }), p)
            }
            &&& k == "ntrip manual latitude"@ ==> {
                &&& number matches Some(x) ==> q.manual_lat == x
                &&& number is None ==> q.manual_lat == p.manual_lat
                &&& alike((Profile { manual_lat: p.manual_lat, ..q }), p)
            }
            &&& k == "ntrip manual longitude"@ ==> {
                &&& number matches Some(x) ==> q.manual_lon == x
                &&& number is None ==> q.manual_lon == p.manual_lon
                &&& alike((Profile { manual_lon: p.manual_lon, ..q }), p)
            }
            &&& k == "ntrip only send gga once"@ ==> alike(q, p)
        }),
{
    let (a, b) = (*old(s), *final(s));
    lemma_key_words();
    let v = trim(value@);
    lemma_yes(v);
    reveal_strlit("rawtcpip");
    assert(lower("rawtcpip"@) =~= "rawtcpip"@);
    assert(a@.profiles.len() == a.profiles@.len());
    assert(b@.profiles.len() == b.profiles@.len());
    assert(a@.profiles[0] == a.profiles@[0]@);
    assert(b@.profiles[0] == b.profiles@[0]@);
    assert forall|i: int| 1 <= i < a.profiles@.len() implies alike(
        #[trigger] b.profiles@[i],
        a.profiles@[i],
    ) by {
        assert(a@.profiles[i] == a.profiles@[i]@);
        assert(b@.profiles[i] == b.profiles@[i]@);
    }
}

#[verifier::spinoff_prover]
#[verifier::rlimit(60)]
proof fn lemma_outcome(
    m: crate::settings::SettingsModel,
    key: Seq<char>,
    value: Seq<char>,
    number: Option<Real64>,
)
    ensures
        crate::legacy::settings_key(m, key, value, number).1 is Silent <==> lower(key)
            == "last checked for updates"@,
        crate::legacy::settings_key(m, key, value, number).1 is Automatic <==> lower(key)
            == "ntrip only send gga once"@,
{
    lemma_key_words();
}

proof fn lemma_told(
    a: Seq<String>,
    b: Seq<String>,
    import: crate::legacy::Import,
    key: Seq<char>,
    value: Seq<char>,
)
    requires
        texts(b) == texts(a) + crate::legacy::settings_lines(import, key, value),
    ensures
        b.len() == a.len() + if import is Silent {
            0int
        } else {
            1
        },
        forall|i: int| 0 <= i < a.len() ==> (#[trigger] b[i])@ == a[i]@,
        !(import is Silent) && !(import is Automatic) ==> mentions(b.last()@, key) && mentions(
            b.last()@,
            value,
        ),
{
    assert(texts(b).len() == b.len());
    assert(texts(a).len() == a.len());
    assert forall|i: int| 0 <= i < a.len() implies (#[trigger] b[i])@ == a[i]@ by {
        assert(texts(b)[i] == b[i]@);
        assert(texts(a)[i] == a[i]@);
    }
    if b.len() > a.len() {
        assert(texts(b)[a.len() as int] == b[a.len() as int]@);
    }
    lemma_keyed("Ignored invalid value in Settings.txt: "@, key, value);
    lemma_keyed("Ignored unknown key in Settings.txt: "@, key, value);
    lemma_keyed("Imported from Settings.txt: "@, key, value);
}

/// Every key of the old settings but one is told of, with the key and its
/// value; the date of the last update check is taken over in silence.
#[verifier::spinoff_prover]
#[verifier::rlimit(60)]
pub proof fn law_settings_keys_are_told(
    s: &mut Settings,
    key: &str,
    value: &str,
    number: Option<Real64>,
    log: &mut Vec<String>,
)
    requires
        call_ensures(import_settings_key, (s, key, value, number, log), ()),
        old(s).profiles@.len() > 0,
    ensures
        ({
            let (a, b) = (old(log)@, final(log)@);
            let k = lower(key@);
            &&& b.len() == a.len() + if k == "last checked for updates"@ {
                0int
            } else {
                1
            }
            &&& forall|i: int| 0 <= i < a.len() ==> (#[trigger] b[i])@ == a[i]@
            &&& k != "last checked for updates"@ && k != "ntrip only send gga once"@ ==> mentions(
                b.last()@,
                key@,
            ) && mentions(b.last()@, value@)
        }),
{
    lemma_outcome(old(s)@, key@, value@, number);
    lemma_told(
        old(log)@,
        final(log)@,
        crate::legacy::settings_key(old(s)@, key@, value@, number).1,
        key@,
        value@,
    );
}

/// What was taken, what could not be used and what is not known are told
/// apart by how the line begins.
pub proof fn law_import_outcomes_are_told_apart(
    s: &mut Settings,
    key: &str,
    value: &str,
    number: Option<Real64>,
    log: &mut Vec<String>,
)
    requires
        call_ensures(import_settings_key, (s, key, value, number, log), ()),
        old(s).profiles@.len() > 0,
    ensures
        ({
            let k = lower(key@);
            let line = final(log)@.last()@;
            &&& k == "ntrip manual latitude"@ || k == "ntrip manual longitude"@ ==> (
            number is Some ==> line.take(8) == "Imported"@) && (number is None ==> line.take(15)
                == "Ignored invalid"@)
            &&& k == "serial port speed"@ ==> (final(s).serial.baud != old(s).serial.baud
                ==> line.take(8) == "Imported"@)
            &&& k.len() == 1 ==> line.take(15) == "Ignored unknown"@
        }),
{
    let (a, b) = (old(log)@, final(log)@);
    lemma_key_words();
    assert(texts(b).len() == b.len());
    assert(texts(a).len() == a.len());
    if b.len() > a.len() {
        assert(texts(b)[a.len() as int] == b[a.len() as int]@);
    }
    reveal_strlit("Imported from Settings.txt: ");
    reveal_strlit("Ignored invalid value in Settings.txt: ");
    reveal_strlit("Ignored unknown key in Settings.txt: ");
    reveal_strlit("Imported");
    reveal_strlit("Ignored invalid");
    reveal_strlit("Ignored unknown");
    let e = crate::legacy::keyed_line("Imported from Settings.txt: "@, key@, value@);
    assert(e.take(8) =~= "Imported"@);
    let f = crate::legacy::keyed_line("Ignored invalid value in Settings.txt: "@, key@, value@);
    assert(f.take(15) =~= "Ignored invalid"@);
    let g = crate::legacy::keyed_line("Ignored unknown key in Settings.txt: "@, key@, value@);
    assert(g.take(15) =~= "Ignored unknown"@);
}

/// An import happens where there is a file to import, fills one profile of
/// its own name, and says of each file that it was imported.
pub proof fn law_import_makes_one_profile(
    ntripconfig: &Option<Vec<LegacyPair>>,
    settings_txt: &Option<Vec<LegacyPair>>,
    r: Option<(Settings, Vec<String>)>,
)
    requires
        call_ensures(import_legacy, (ntripconfig, settings_txt), r),
    ensures
        r is Some <==> *ntripconfig is Some || *settings_txt is Some,
        r matches Some((s, log)) ==> {
            &&& s.profiles@.len() == 1
            &&& s.active_profile@ == "Imported"@ && s.profiles@[0].name@ == "Imported"@
            &&& *ntripconfig is Some ==> log@[0]@ == "Importing legacy ntripconfig.txt"@
            &&& *ntripconfig is None ==> log@[0]@ == "Importing legacy Settings.txt"@
            &&& *ntripconfig matches Some(n) ==> {
                &&& *settings_txt is None ==> log@.len() == n@.len() + 1
                &&& *settings_txt is Some ==> log@.len() > n@.len() + 1 && log@[n@.len() as int + 1]@
                    == "Importing legacy Settings.txt"@
            }
        },
{
    if let Some((s, log)) = r {
        let start = crate::legacy::ImportState::start();
        let f = crate::legacy::file_models(*ntripconfig);
        let g = crate::legacy::file_models(*settings_txt);
        let mid = start.with_ntripconfig(f);
        let end = mid.with_settings(g);
        assert(texts(log@).len() == log@.len());
        assert(start.settings.profiles.len() == 1);
        if let Some(pairs) = f {
            lemma_caster_steps(start.logged("Importing legacy ntripconfig.txt"@), pairs);
        }
        if let Some(pairs) = g {
            lemma_settings_steps(mid.logged("Importing legacy Settings.txt"@), pairs);
        }
        assert(end.settings.profiles.len() == 1);
        assert(end.settings.profiles[0].name == "Imported"@);
        assert(s@.profiles.len() == s.profiles@.len());
        assert(s@.profiles[0] == s.profiles@[0]@);
        assert(end.settings.has_profile("Imported"@));
        let filled = crate::settings::SettingsModel {
            profiles: end.settings.profiles,
            ..end.settings
        };
        assert(filled.profiles[0].name == "Imported"@);
        assert(texts(log@)[0] == log@[0]@);
        if let Some(n) = *ntripconfig {
            if *settings_txt is Some {
                assert(texts(log@)[n@.len() as int + 1] == log@[n@.len() as int + 1]@);
            }
        }
    }
}

proof fn lemma_caster_steps(m: crate::legacy::ImportState, pairs: Seq<crate::legacy::PairModel>)
    requires
        m.settings.profiles.len() == 1,
    ensures
        ({
            let e = m.ntripconfig_steps(pairs);
            &&& e.settings.profiles.len() == 1
            &&& e.settings.profiles[0].name == m.settings.profiles[0].name
            &&& e.settings.active_profile == m.settings.active_profile
            &&& e.log.len() == m.log.len() + pairs.len()
            &&& forall|i: int| 0 <= i < m.log.len() ==> #[trigger] e.log[i] == m.log[i]
            &&& e.settings == crate::settings::SettingsModel {
                profiles: e.settings.profiles,
                ..m.settings
            }
            &&& ({
                let (p, q) = (m.settings.profiles[0], e.settings.profiles[0]);
                q == crate::settings::ProfileModel {
                    host: q.host,
                    port: q.port,
                    username: q.username,
                    password: q.password,
                    mountpoint: q.mountpoint,
                    ..p
                }
            })
        }),
    decreases pairs.len(),
{
    if pairs.len() > 0 {
        lemma_caster_steps(m, pairs.drop_last());
    }
}

/// The caster's file says where to connect and as whom, the last word on each
/// being the one that counts, and nothing else: all the rest is as at a first
/// start.
#[verifier::spinoff_prover]
pub proof fn law_caster_file_leaves_the_rest(
    ntripconfig: &Option<Vec<LegacyPair>>,
    settings_txt: &Option<Vec<LegacyPair>>,
    r: Option<(Settings, Vec<String>)>,
    fresh: Settings,
)
    requires
        call_ensures(import_legacy, (ntripconfig, settings_txt), r),
        call_ensures(Settings::default, (), fresh),
        *ntripconfig is Some && *settings_txt is None,
    ensures
        r matches Some((s, _)) && {
            let (p, q) = (s.profiles@[0], fresh.profiles@[0]);
            let v = ntripconfig->0@;
            &&& s.profiles@.len() == 1
            &&& same_rest(s, fresh)
            &&& same_contents(
                (Profile {
                    host: q.host,
                    port: q.port,
                    username: q.username,
                    password: q.password,
                    mountpoint: q.mountpoint,
                    ..p
                }),
                q,
            )
            &&& v.len() == 0 ==> same_contents(p, q)
            &&& v.len() > 0 && lower(v.last().key@) == "ntrip caster"@ ==> p.host@ == trim(
                v.last().value@,
            )
            &&& v.len() > 0 && lower(v.last().key@) == "ntrip username"@ ==> p.username@
                == v.last().value@
            &&& v.len() > 0 && lower(v.last().key@) == "ntrip password"@ ==> p.password@
                == v.last().value@
            &&& v.len() > 0 && lower(v.last().key@) == "ntrip mountpoint"@ ==> p.mountpoint@
                == trim(v.last().value@)
        },
{
    let (s, log) = r->0;
    let v = ntripconfig->0@;
    let start = crate::legacy::ImportState::start();
    let pairs = crate::legacy::pair_models(v);
    let first = start.logged("Importing legacy ntripconfig.txt"@);
    let end = first.ntripconfig_steps(pairs);
    assert(crate::legacy::file_models(*ntripconfig) == Some(pairs));
    assert(crate::legacy::file_models(*settings_txt) is None);
    assert(start.settings.profiles.len() == 1);
    lemma_caster_steps(first, pairs);
    lemma_caster_words();
    assert(fresh@.profiles.len() == 1);
    assert(fresh@.profiles[0] == fresh.profiles@[0]@);
    assert(s@ == end.settings.normalized());
    assert(s@.profiles.len() == s.profiles@.len());
    assert(s@.profiles[0] == s.profiles@[0]@);
    assert(end.settings.profiles[0].ntrip_version == 1);
    assert(end.settings.serial == crate::settings::SerialModel::fresh());
    assert(crate::settings::data_bits_choices()[1] == 8);
    assert(crate::settings::stop_bits_choices()[0] == 1);
    assert(crate::settings::novatel_rate_choices()[1] == 5);
    assert(end.settings.window == crate::settings::WindowCfg::fresh());
    assert(s@.serial == end.settings.serial);
    assert(s@.window == end.settings.window);
    if v.len() > 0 {
        let p = pairs.last();
        assert(p == v.last()@);
        assert(end == first.ntripconfig_steps(pairs.drop_last()).ntripconfig_step(p));
        lemma_caster_steps(first, pairs.drop_last());
    }
}

proof fn lemma_settings_steps(m: crate::legacy::ImportState, pairs: Seq<crate::legacy::PairModel>)
    requires
        m.settings.profiles.len() == 1,
    ensures
        ({
            let e = m.settings_steps(pairs);
            &&& e.settings.profiles.len() == 1
            &&& e.settings.profiles[0].name == m.settings.profiles[0].name
            &&& e.settings.active_profile == m.settings.active_profile
            &&& e.log.len() >= m.log.len()
            &&& forall|i: int| 0 <= i < m.log.len() ==> #[trigger] e.log[i] == m.log[i]
        }),
    decreases pairs.len(),
{
    if pairs.len() > 0 {
        lemma_settings_steps(m, pairs.drop_last());
    }
}

/// The pairs are those of the lines that have one, in order: what stands
/// before the first equals sign, and all that stands behind it.
pub proof fn law_pairs_split_at_the_first_sign(text: &str, r: Vec<(String, String)>)
    requires
        call_ensures(legacy_pairs, (text,), r),
        forall|i: int| 0 <= i < text@.len() ==> #[trigger] text@[i] != '\n',
    ensures
        r@.len() <= 1,
        r@.len() == 1 ==> {
            let (k, v) = (r@[0].0@, r@[0].1@);
            &&& trim(text@) == k + seq!['='] + v
            &&& k.len() >= 2 && k[0] != '#'
            &&& forall|i: int| 0 <= i < k.len() ==> #[trigger] k[i] != '='
        },
        r@.len() == 0 ==> trim(text@).len() < 3 || trim(text@)[0] == '#' || trim(text@)[0] == '='
            || trim(text@)[1] == '=' || !trim(text@).contains('='),
{
    let s = text@;
    let l = trim(s);
    crate::laws::words::lemma_first_at(s, '\n', s.len() as int);
    assert(crate::legacy::pair_texts(r@).len() == r@.len());
    let eq = crate::laws::words::lemma_found_at(l, '=');
    if r@.len() == 1 {
        assert(crate::legacy::pair_texts(r@)[0] == (r@[0].0@, r@[0].1@));
        assert(l =~= l.take(eq) + seq!['='] + l.skip(eq + 1));
    }
    if l.contains('=') {
        let k = choose|k: int| 0 <= k < l.len() && l[k] == '=';
        assert(eq < l.len());
    }
}

/// The text of several lines gives the pairs of the first, then those of the
/// rest.
pub proof fn law_pairs_keep_the_order_of_lines(
    text: &str,
    first: &str,
    rest: &str,
    r: Vec<(String, String)>,
    a: Vec<(String, String)>,
    b: Vec<(String, String)>,
)
    requires
        call_ensures(legacy_pairs, (text,), r),
        call_ensures(legacy_pairs, (first,), a),
        call_ensures(legacy_pairs, (rest,), b),
        text@ == first@ + seq!['\n'] + rest@,
        forall|i: int| 0 <= i < first@.len() ==> #[trigger] first@[i] != '\n',
    ensures
        r@.len() == a@.len() + b@.len(),
        forall|i: int|
            0 <= i < a@.len() ==> (#[trigger] a@[i]).0@ == r@[i].0@ && a@[i].1@ == r@[i].1@,
        forall|i: int|
            0 <= i < b@.len() ==> (#[trigger] b@[i]).0@ == r@[a@.len() + i].0@ && b@[i].1@
                == r@[a@.len() + i].1@,
{
    let n = first@.len() as int;
    crate::laws::words::lemma_first_at(text@, '\n', n);
    crate::laws::words::lemma_first_at(first@, '\n', n);
    assert(text@.take(n) =~= first@);
    assert(text@.skip(n + 1) =~= rest@);
    let (x, y, z) = (
        crate::legacy::pair_texts(r@),
        crate::legacy::pair_texts(a@),
        crate::legacy::pair_texts(b@),
    );
    assert(x == y + z);
    assert forall|i: int| 0 <= i < a@.len() implies (#[trigger] a@[i]).0@ == r@[i].0@ && a@[i].1@
        == r@[i].1@ by {
        assert(x[i] == y[i]);
    }
    assert forall|i: int| 0 <= i < b@.len() implies (#[trigger] b@[i]).0@ == r@[a@.len() + i].0@
        && b@[i].1@ == r@[a@.len() + i].1@ by {
        assert(x[a@.len() + i] == z[i]);
    }
}

/// The keys are different words: two of one length begin differently, or
/// differ further on.
proof fn lemma_key_words()
    ensures
        "serial port number"@.len() == 18 && "serial port number"@[0] == 's',
        "serial port speed"@.len() == 17 && "serial port speed"@[0] == 's',
        "serial port data bits"@.len() == 21 && "serial port data bits"@[0] == 's'
            && "serial port data bits"@[12] == 'd',
        "serial port stop bits"@.len() == 21 && "serial port stop bits"@[0] == 's'
            && "serial port stop bits"@[12] == 's',
        "receiver type"@.len() == 13 && "receiver type"@[0] == 'r',
        "receiver message rate"@.len() == 21 && "receiver message rate"@[0] == 'r'
            && "receiver message rate"@[12] == 's',
        "receiver correction format"@.len() == 26 && "receiver correction format"@[0] == 'r',
        "audio alert file"@.len() == 16 && "audio alert file"@[0] == 'a',
        "write events to file"@.len() == 20 && "write events to file"@[0] == 'w',
        "write nmea to file"@.len() == 18 && "write nmea to file"@[0] == 'w',
        "check for updates"@.len() == 17 && "check for updates"@[0] == 'c',
        "check for updates interval"@.len() == 26 && "check for updates interval"@[0] == 'c',
        "display center"@.len() == 14 && "display center"@[0] == 'd',
        "display right"@.len() == 13 && "display right"@[0] == 'd',
        "last checked for updates"@.len() == 24 && "last checked for updates"@[0] == 'l',
        "serial should be connected"@.len() == 26 && "serial should be connected"@[0] == 's',
        "ntrip should be connected"@.len() == 25 && "ntrip should be connected"@[0] == 'n',
        "protocol"@.len() == 8 && "protocol"@[0] == 'p',
        "ntrip use manual gga"@.len() == 20 && "ntrip use manual gga"@[0] == 'n',
        "ntrip manual latitude"@.len() == 21 && "ntrip manual latitude"@[0] == 'n'
            && "ntrip manual latitude"@[12] == ' ',
        "ntrip manual longitude"@.len() == 22 && "ntrip manual longitude"@[0] == 'n',
        "ntrip only send gga once"@.len() == 24 && "ntrip only send gga once"@[0] == 'n',
{
    reveal_strlit("serial port number");
    reveal_strlit("serial port speed");
    reveal_strlit("serial port data bits");
    reveal_strlit("serial port stop bits");
    reveal_strlit("receiver type");
    reveal_strlit("receiver message rate");
    reveal_strlit("receiver correction format");
    reveal_strlit("audio alert file");
    reveal_strlit("write events to file");
    reveal_strlit("write nmea to file");
    reveal_strlit("check for updates");
    reveal_strlit("check for updates interval");
    reveal_strlit("display center");
    reveal_strlit("display right");
    reveal_strlit("last checked for updates");
    reveal_strlit("serial should be connected");
    reveal_strlit("ntrip should be connected");
    reveal_strlit("protocol");
    reveal_strlit("ntrip use manual gga");
    reveal_strlit("ntrip manual latitude");
    reveal_strlit("ntrip manual longitude");
    reveal_strlit("ntrip only send gga once");
}

} // verus!
