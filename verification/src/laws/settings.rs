//! Laws of the settings: what they start from, what is kept in bounds, and
//! what managing the profiles does to each field.
use vstd::prelude::*;

use crate::ieee::Real64;
use crate::laws::app::in_use;
use crate::laws::words::{law_decimal_reads_back, numeral, reads};
use crate::laws::{lemma_mentions, mentions};
use crate::profiles::{activate, add, duplicate, remove, rename, unique_name};
use crate::settings::{
    file_error, load_or_import, AppCfg, DisplayCfg, Imported, Profile, SerialCfg, Settings,
    SettingsFile, StateCfg, WindowCfg,
};
use crate::text::{texts, trim};
use crate::vocab::{
    BottomTab, CheckUpdates, DisplayId, GgaMode, GgaSource, NovatelFormat, ParityCfg, ProtocolCfg,
};

verus! {

/// Whether two profiles are alike in everything but the name, positions to the
/// bit.
pub open spec fn same_contents(a: Profile, b: Profile) -> bool {
    &&& a.host@ == b.host@ && a.port == b.port
    &&& a.tls == b.tls && a.allow_invalid_certs == b.allow_invalid_certs
    &&& a.ntrip_version == b.ntrip_version && a.protocol == b.protocol
    &&& a.username@ == b.username@ && a.password@ == b.password@
    &&& a.mountpoint@ == b.mountpoint@
    &&& a.gga_mode == b.gga_mode && a.gga_source == b.gga_source
    &&& a.manual_lat == b.manual_lat && a.manual_lon == b.manual_lon
}

/// Whether two profiles are alike in everything.
pub open spec fn alike(a: Profile, b: Profile) -> bool {
    a.name@ == b.name@ && same_contents(a, b)
}

/// Whether everything but the profiles and the one in use is as it was.
pub open spec fn same_rest(a: Settings, b: Settings) -> bool {
    &&& a.schema == b.schema && a.window == b.window && a.display == b.display
    &&& a.app.check_updates == b.app.check_updates
    &&& a.app.audio_alert_file@ == b.app.audio_alert_file@
    &&& a.app.write_event_log == b.app.write_event_log
    &&& a.app.write_nmea_log == b.app.write_nmea_log
    &&& a.app.capture_corrections == b.app.capture_corrections
    &&& a.app.auto_reconnect == b.app.auto_reconnect
    &&& a.app.max_reconnect_attempts == b.app.max_reconnect_attempts
    &&& a.serial.port@ == b.serial.port@ && a.serial.baud == b.serial.baud
    &&& a.serial.data_bits == b.serial.data_bits && a.serial.stop_bits == b.serial.stop_bits
    &&& a.serial.parity == b.serial.parity
    &&& a.serial.novatel_autoconfig == b.serial.novatel_autoconfig
    &&& a.serial.novatel_format == b.serial.novatel_format
    &&& a.serial.novatel_rate_hz == b.serial.novatel_rate_hz
    &&& a.state.last_update_check@ == b.state.last_update_check@
    &&& a.state.serial_connected == b.state.serial_connected
    &&& a.state.ntrip_connected == b.state.ntrip_connected
}

/// Whether a name is that of some profile, the one at `but` left aside.
pub open spec fn named(s: Settings, name: Seq<char>, but: int) -> bool {
    exists|j: int|
        0 <= j < s.profiles@.len() && j != but && (#[trigger] s.profiles@[j]).name@ == name
}

/// A profile starts at the usual port of a plain caster, with nothing filled
/// in.
pub proof fn law_new_profiles_are_plain(p: Profile)
    requires
        call_ensures(Profile::default, (), p),
    ensures
        p.name@ == "Default"@ && p.port == 2101,
        p.host@.len() == 0 && p.username@.len() == 0 && p.password@.len() == 0,
        p.mountpoint@.len() == 0,
        !p.tls && !p.allow_invalid_certs && p.ntrip_version == 1,
        p.protocol == ProtocolCfg::Ntrip,
        p.gga_mode == GgaMode::WhenRequired && p.gga_source == GgaSource::Receiver,
        p.manual_lat.bits == 0 && p.manual_lon.bits == 0,
{
}

/// What the first start works with.
pub proof fn law_first_settings(s: Settings)
    requires
        call_ensures(Settings::default, (), s),
    ensures
        s.schema == 1 && s.profiles@.len() == 1,
        s.active_profile@ == "Default"@ && s.profiles@[0].name@ == "Default"@,
        s.app.check_updates == CheckUpdates::Weekly && s.app.audio_alert_file@.len() == 0,
        s.app.write_event_log && s.app.write_nmea_log && !s.app.capture_corrections,
        s.app.auto_reconnect && s.app.max_reconnect_attempts == 10_000,
        s.window.pos is None && !s.window.graph_open && !s.window.gga_open,
        s.window.tab == BottomTab::Events,
        s.window.width.bits == 0x4466_0000 && s.window.height.bits == 0x442A_0000,
        s.display.center == DisplayId::ElevationFeet && s.display.right == DisplayId::DataAge,
        s.serial.port@.len() == 0 && s.serial.baud == 115_200,
        s.serial.data_bits == 8 && s.serial.stop_bits == 1,
        s.serial.parity == ParityCfg::NoParity && !s.serial.novatel_autoconfig,
        s.serial.novatel_format == NovatelFormat::Rtcmv3 && s.serial.novatel_rate_hz == 5,
        !s.state.serial_connected && !s.state.ntrip_connected,
        s.state.last_update_check@.len() == 0,
{
    assert(s@.profiles.len() == 1);
    assert(s@.profiles[0] == s.profiles@[0]@);
}

/// Each group starts as it does within the whole.
pub proof fn law_groups_start_alike(
    s: Settings,
    app: AppCfg,
    window: WindowCfg,
    display: DisplayCfg,
    serial: SerialCfg,
    state: StateCfg,
    p: Profile,
)
    requires
        call_ensures(Settings::default, (), s),
        call_ensures(AppCfg::default, (), app),
        call_ensures(WindowCfg::default, (), window),
        call_ensures(DisplayCfg::default, (), display),
        call_ensures(SerialCfg::default, (), serial),
        call_ensures(StateCfg::default, (), state),
        call_ensures(Profile::default, (), p),
    ensures
        same_rest(s, (Settings { app, window, display, serial, state, ..s })),
        alike(s.profiles@[0], p),
{
    assert(s@.profiles.len() == 1);
    assert(s@.profiles[0] == s.profiles@[0]@);
}

/// A copy of a profile is like it to the last field.
pub proof fn law_copies_are_alike(p: &Profile, r: Profile)
    requires
        call_ensures(Profile::duplicate, (p,), r),
    ensures
        alike(*p, r),
{
}

/// The profile handed out for editing is the one in use, and editing it
/// touches no other.
pub proof fn law_edits_reach_the_profile_in_use(s: &mut Settings, p: &mut Profile, i: int)
    requires
        call_ensures(Settings::active_mut, (s,), p),
        in_use(*old(s), i),
    ensures
        *old(p) == old(s).profiles@[i],
        final(s).profiles@ == old(s).profiles@.update(i, *final(p)),
        final(s).active_profile@ == old(s).active_profile@,
        same_rest(*old(s), *final(s)),
{
    crate::laws::app::lemma_in_use(*old(s), i);
}

/// Whether two positions are the same number: both zeros are, a value that is
/// no number never is.
pub open spec fn same_number(a: Real64, b: Real64) -> bool {
    let no_number = |x: u64| x % 0x8000_0000_0000_0000 > 0x7FF0_0000_0000_0000;
    &&& !no_number(a.bits) && !no_number(b.bits)
    &&& a.bits == b.bits || (a.bits % 0x8000_0000_0000_0000 == 0 && b.bits
        % 0x8000_0000_0000_0000 == 0)
}

/// Two positions are taken as the same where they are the same number.
pub proof fn law_positions_are_compared_as_numbers(a: Real64, b: Real64, r: bool)
    requires
        call_ensures(Real64::same_value, (a, b), r),
    ensures
        r <==> same_number(a, b),
{
}

/// There is something to save exactly where one of the user's own choices
/// differs.
pub proof fn law_every_choice_is_worth_saving(a: &Settings, b: &Settings, r: bool)
    requires
        call_ensures(Settings::persistable_eq, (a, b), r),
    ensures
        r <==> {
            &&& a.active_profile@ == b.active_profile@
            &&& same_rest(
                *a,
                (Settings { schema: a.schema, window: a.window, state: a.state, ..*b }),
            )
            &&& a.profiles@.len() == b.profiles@.len()
            &&& forall|i: int|
                0 <= i < a.profiles@.len() ==> {
                    let (p, q) = (#[trigger] a.profiles@[i], b.profiles@[i]);
                    &&& alike(
                        p,
                        (Profile { manual_lat: p.manual_lat, manual_lon: p.manual_lon, ..q }),
                    )
                    &&& same_number(p.manual_lat, q.manual_lat)
                    &&& same_number(p.manual_lon, q.manual_lon)
                }
        },
{
    let all = forall|i: int|
        0 <= i < a.profiles@.len() ==> {
            let (p, q) = (#[trigger] a.profiles@[i], b.profiles@[i]);
            &&& alike(p, (Profile { manual_lat: p.manual_lat, manual_lon: p.manual_lon, ..q }))
            &&& same_number(p.manual_lat, q.manual_lat)
            &&& same_number(p.manual_lon, q.manual_lon)
        };
    if a.profiles@.len() == b.profiles@.len() {
        if r {
            assert forall|i: int| 0 <= i < a.profiles@.len() implies {
                let (p, q) = (#[trigger] a.profiles@[i], b.profiles@[i]);
                &&& alike(p, (Profile { manual_lat: p.manual_lat, manual_lon: p.manual_lon, ..q }))
                &&& same_number(p.manual_lat, q.manual_lat)
                &&& same_number(p.manual_lon, q.manual_lon)
            } by {
                assert(a@.profiles[i].same(b@.profiles[i]));
                assert(a@.profiles[i] == a.profiles@[i]@ && b@.profiles[i] == b.profiles@[i]@);
            }
        }
        if all {
            assert forall|i: int| 0 <= i < a@.profiles.len() implies (
            #[trigger] a@.profiles[i]).same(b@.profiles[i]) by {
                let (p, q) = (a.profiles@[i], b.profiles@[i]);
                assert(same_number(p.manual_lat, q.manual_lat));
                assert(a@.profiles[i] == p@ && b@.profiles[i] == q@);
            }
        }
    }
}

/// Whatever was read, what is worked with has a profile, names one of them,
/// and holds no width, height, rate, bit count or version that cannot be used;
/// what could be used before is untouched.
pub proof fn law_settings_are_put_in_order(s: &mut Settings)
    requires
        call_ensures(Settings::normalize, (s,), ()),
    ensures
        ({
            let (a, b) = (*old(s), *final(s));
            &&& b.schema == 1
            &&& b.profiles@.len() == if a.profiles@.len() == 0 {
                1
            } else {
                a.profiles@.len()
            }
            &&& named(b, b.active_profile@, -1)
            &&& named(a, a.active_profile@, -1) ==> b.active_profile@ == a.active_profile@
            &&& a.profiles@.len() > 0 && !named(a, a.active_profile@, -1) ==> b.active_profile@
                == a.profiles@[0].name@
            &&& forall|i: int|
                0 <= i < a.profiles@.len() ==> {
                    let (p, q) = (#[trigger] a.profiles@[i], b.profiles@[i]);
                    &&& q.ntrip_version == if p.ntrip_version == 2 {
                        2u8
                    } else {
                        1u8
                    }
                    &&& alike((Profile { ntrip_version: p.ntrip_version, ..q }), p)
                }
            &&& b.serial.data_bits == if a.serial.data_bits == 7 {
                7u8
            } else {
                8u8
            }
            &&& b.serial.stop_bits == if a.serial.stop_bits == 2 {
                2u8
            } else {
                1u8
            }
            &&& b.serial.novatel_rate_hz == if a.serial.novatel_rate_hz == 1
                || a.serial.novatel_rate_hz == 10 {
                a.serial.novatel_rate_hz
            } else {
                5u8
            }
            &&& same_rest(
                a,
                (Settings {
                    schema: a.schema,
                    window: WindowCfg {
                        width: a.window.width,
                        height: a.window.height,
                        ..b.window
                    },
                    serial: SerialCfg {
                        data_bits: a.serial.data_bits,
                        stop_bits: a.serial.stop_bits,
                        novatel_rate_hz: a.serial.novatel_rate_hz,
                        ..b.serial
                    },
                    ..b
                }),
            )
        }),
{
    let (a, b) = (*old(s), *final(s));
    let (m, n) = (a@, b@);
    assert(n.profiles.len() == b.profiles@.len());
    assert(seq![7u8, 8u8][0] == 7 && seq![7u8, 8u8][1] == 8);
    assert(crate::settings::data_bits_choices()[0] == 7);
    assert(crate::settings::data_bits_choices()[1] == 8);
    assert(crate::settings::stop_bits_choices()[0] == 1);
    assert(crate::settings::stop_bits_choices()[1] == 2);
    assert(crate::settings::novatel_rate_choices()[0] == 1);
    assert(crate::settings::novatel_rate_choices()[1] == 5);
    assert(crate::settings::novatel_rate_choices()[2] == 10);
    let k = choose|k: int|
        0 <= k < n.profiles.len() && (#[trigger] n.profiles[k]).name == n.active_profile;
    assert(n.profiles[k] == b.profiles@[k]@);
    assert(b.profiles@[k].name@ == b.active_profile@);
    if named(a, a.active_profile@, -1) {
        let j = choose|j: int|
            0 <= j < a.profiles@.len() && j != -1 && (#[trigger] a.profiles@[j]).name@
                == a.active_profile@;
        assert(m.profiles[j].name == m.active_profile);
        assert((crate::settings::SettingsModel { profiles: m.profiles, ..m }).profiles[j].name
            == m.active_profile);
    } else if a.profiles@.len() > 0 {
        assert forall|j: int| 0 <= j < m.profiles.len() implies (#[trigger] m.profiles[j]).name
            != m.active_profile by {
            assert(a.profiles@[j].name@ != a.active_profile@);
        }
        assert(m.profiles[0] == a.profiles@[0]@);
    }
    assert forall|i: int| 0 <= i < a.profiles@.len() implies {
        let (p, q) = (#[trigger] a.profiles@[i], b.profiles@[i]);
        &&& q.ntrip_version == if p.ntrip_version == 2 {
            2u8
        } else {
            1u8
        }
        &&& alike((Profile { ntrip_version: p.ntrip_version, ..q }), p)
    } by {
        assert(n.profiles[i] == b.profiles@[i]@);
        assert(m.profiles[i] == a.profiles@[i]@);
    }
}

/// A window's size is kept between its bounds, and one between them is kept as
/// it is.
pub proof fn law_window_size_is_bounded(s: &mut Settings)
    requires
        call_ensures(Settings::normalize, (s,), ()),
    ensures
        ({
            let (a, b) = (old(s).window, final(s).window);
            let number = |x: u32| x % 0x8000_0000 <= 0x7F80_0000;
            &&& number(a.width.bits) ==> 0x442F_0000 <= b.width.bits <= 0x457A_0000
            &&& number(a.height.bits) ==> 0x43F0_0000 <= b.height.bits <= 0x453B_8000
            &&& 0x442F_0000 <= a.width.bits <= 0x457A_0000 ==> b.width == a.width
            &&& 0x43F0_0000 <= a.height.bits <= 0x453B_8000 ==> b.height == a.height
            &&& 0x457A_0000 <= a.width.bits <= 0x7F80_0000 ==> b.width.bits == 0x457A_0000
            &&& 0x453B_8000 <= a.height.bits <= 0x7F80_0000 ==> b.height.bits == 0x453B_8000
        }),
{
}

/// A profile is found by its exact name.
pub proof fn law_profiles_are_found_by_name(s: &Settings, name: &str, r: bool)
    requires
        call_ensures(Settings::has_profile, (s, name), r),
    ensures
        r <==> named(*s, name@, -1),
{
    if r {
        let k = choose|k: int|
            0 <= k < s@.profiles.len() && (#[trigger] s@.profiles[k]).name == name@;
        assert(s.profiles@[k].name@ == name@);
    }
    if named(*s, name@, -1) {
        let k = choose|k: int|
            0 <= k < s.profiles@.len() && k != -1 && (#[trigger] s.profiles@[k]).name@ == name@;
        assert(s@.profiles[k].name == name@);
    }
}

/// A name is taken as it is wished, without the space around it, where it is
/// free; else with the least number behind it, from 2 on, that makes it free.
pub proof fn law_names_stay_apart(s: &Settings, desired: &str, skip: Option<usize>, r: String)
    requires
        call_ensures(unique_name, (s, desired, skip), r),
    ensures
        ({
            let but: int = match skip {
                Some(i) => i as int,
                None => -1,
            };
            let base = if trim(desired@).len() > 0 {
                trim(desired@)
            } else {
                "Profile"@
            };
            &&& !named(*s, r@, but)
            &&& !named(*s, base, but) ==> r@ == base
            &&& named(*s, base, but) ==> {
                let number = r@.skip(base.len() as int + 1);
                &&& r@ == base + seq![' '] + number
                &&& numeral(number) && reads(number) >= 2
                &&& forall|j: nat|
                    2 <= j < reads(number) ==> named(
                        *s,
                        #[trigger] crate::profiles::numbered(base, j),
                        but,
                    )
            }
        }),
{
    let but: int = match skip {
        Some(i) => i as int,
        None => -1,
    };
    let base = crate::profiles::base_name(desired@);
    let sk = crate::profiles::skip_of(skip);
    lemma_taken(*s, r@, skip);
    lemma_taken(*s, base, skip);
    if named(*s, base, but) {
        let k = choose|k: nat| #[trigger]
            crate::profiles::is_first_free(s@, base, sk, k) && r@ == crate::profiles::numbered(
                base,
                k,
            );
        reveal_strlit(" ");
        law_decimal_reads_back(k);
        assert(" "@ =~= seq![' ']);
        let number = r@.skip(base.len() as int + 1);
        assert(number =~= crate::text::dec(k));
        assert(r@ =~= base + seq![' '] + number);
        assert forall|j: nat| 2 <= j < k implies named(
            *s,
            #[trigger] crate::profiles::numbered(base, j),
            but,
        ) by {
            lemma_taken(*s, crate::profiles::numbered(base, j), skip);
        }
    }
}

proof fn lemma_taken(s: Settings, name: Seq<char>, skip: Option<usize>)
    ensures
        crate::profiles::taken(s@, name, crate::profiles::skip_of(skip)) <==> named(
            s,
            name,
            match skip {
                Some(i) => i as int,
                None => -1,
            },
        ),
{
    let but: int = match skip {
        Some(i) => i as int,
        None => -1,
    };
    let sk = crate::profiles::skip_of(skip);
    if crate::profiles::taken(s@, name, sk) {
        let j = choose|j: int|
            0 <= j < s@.profiles.len() && sk != Some(j) && (#[trigger] s@.profiles[j]).name
                == name;
        assert(s.profiles@[j].name@ == name && j != but);
    }
    if named(s, name, but) {
        let j = choose|j: int|
            0 <= j < s.profiles@.len() && j != but && (#[trigger] s.profiles@[j]).name@ == name;
        assert(s@.profiles[j].name == name && sk != Some(j));
    }
}

/// A new profile comes last, empty, under a free name; nothing else moves.
pub proof fn law_added_profiles_come_last(
    s: &mut Settings,
    r: usize,
    fresh: Profile,
    wish: &str,
    name: String,
)
    requires
        call_ensures(add, (s,), r),
        call_ensures(Profile::default, (), fresh),
        call_ensures(unique_name, (&*old(s), wish, None), name),
        wish@ == "New profile"@,
    ensures
        ({
            let (a, b) = (*old(s), *final(s));
            &&& r == a.profiles@.len() && b.profiles@.len() == r + 1
            &&& forall|i: int|
                0 <= i < r ==> alike(#[trigger] b.profiles@[i], a.profiles@[i])
            &&& b.profiles@[r as int].name@ == name@
            &&& same_contents(b.profiles@[r as int], fresh)
            &&& b.active_profile@ == a.active_profile@
            &&& same_rest(a, b)
        }),
{
    let (a, b) = (*old(s), *final(s));
    assert(b@.profiles.len() == b.profiles@.len());
    assert(b@.profiles[r as int] == b.profiles@[r as int]@);
    assert forall|i: int| 0 <= i < r implies alike(#[trigger] b.profiles@[i], a.profiles@[i]) by {
        assert(b@.profiles[i] == b.profiles@[i]@);
        assert(a@.profiles[i] == a.profiles@[i]@);
    }
}

/// A copy comes last and is like its original but for the name, which is the
/// original's with " copy" behind it, made free.
pub proof fn law_duplicated_profiles_come_last(
    s: &mut Settings,
    k: usize,
    r: Option<usize>,
    wish: &str,
    name: String,
)
    requires
        call_ensures(duplicate, (s, k), r),
        k < old(s).profiles@.len(),
        call_ensures(unique_name, (&*old(s), wish, None), name),
        wish@ == old(s).profiles@[k as int].name@ + " copy"@,
        old(s).profiles@.len() < usize::MAX,
    ensures
        ({
            let (a, b) = (*old(s), *final(s));
            let n = a.profiles@.len() as int;
            &&& r == Some(n as usize) && b.profiles@.len() == n + 1
            &&& forall|i: int|
                0 <= i < n ==> alike(#[trigger] b.profiles@[i], a.profiles@[i])
            &&& b.profiles@[n].name@ == name@
            &&& same_contents(b.profiles@[n], a.profiles@[k as int])
            &&& b.active_profile@ == a.active_profile@
            &&& same_rest(a, b)
        }),
{
    let (a, b) = (*old(s), *final(s));
    let n = a.profiles@.len() as int;
    assert(b@.profiles.len() == b.profiles@.len());
    assert(b@.profiles[n] == b.profiles@[n]@);
    assert(a@.profiles[k as int] == a.profiles@[k as int]@);
    assert forall|i: int| 0 <= i < n implies alike(#[trigger] b.profiles@[i], a.profiles@[i]) by {
        assert(b@.profiles[i] == b.profiles@[i]@);
        assert(a@.profiles[i] == a.profiles@[i]@);
    }
}

/// A renamed profile keeps its place and its contents, and stays in use if it
/// was; a blank name renames nothing.
pub proof fn law_renaming_changes_a_name(
    s: &mut Settings,
    k: usize,
    wish: &str,
    r: bool,
    name: String,
)
    requires
        call_ensures(rename, (s, k, wish), r),
        call_ensures(unique_name, (&*old(s), wish, Some(k)), name),
    ensures
        r <==> k < old(s).profiles@.len() && trim(wish@).len() > 0,
        !r ==> *final(s) == *old(s),
        r ==> {
            let (a, b) = (*old(s), *final(s));
            &&& b.profiles@.len() == a.profiles@.len()
            &&& forall|i: int|
                0 <= i < a.profiles@.len() ==> same_contents(
                    #[trigger] b.profiles@[i],
                    a.profiles@[i],
                ) && (i != k ==> b.profiles@[i].name@ == a.profiles@[i].name@)
            &&& b.profiles@[k as int].name@ == name@
            &&& a.active_profile@ == a.profiles@[k as int].name@ ==> b.active_profile@ == name@
            &&& a.active_profile@ != a.profiles@[k as int].name@ ==> b.active_profile@
                == a.active_profile@
            &&& same_rest(a, b)
        },
{
    if r {
        let (a, b) = (*old(s), *final(s));
        assert(b@.profiles.len() == b.profiles@.len());
        assert forall|i: int| 0 <= i < a.profiles@.len() implies same_contents(
            #[trigger] b.profiles@[i],
            a.profiles@[i],
        ) && (i != k ==> b.profiles@[i].name@ == a.profiles@[i].name@) by {
            assert(b@.profiles[i] == b.profiles@[i]@);
            assert(a@.profiles[i] == a.profiles@[i]@);
        }
        assert(b@.profiles[k as int] == b.profiles@[k as int]@);
        assert(a@.profiles[k as int] == a.profiles@[k as int]@);
    }
}

/// Activating changes which profile is in use and no profile.
pub proof fn law_activating_moves_the_choice(s: &mut Settings, k: usize, r: bool)
    requires
        call_ensures(activate, (s, k), r),
    ensures
        !r ==> *final(s) == *old(s),
        r <==> k < old(s).profiles@.len() && old(s).profiles@[k as int].name@
            != old(s).active_profile@,
        k < old(s).profiles@.len() ==> final(s).active_profile@ == old(s).profiles@[k as int].name@,
        final(s).profiles@.len() == old(s).profiles@.len(),
        forall|i: int|
            0 <= i < old(s).profiles@.len() ==> alike(
                #[trigger] final(s).profiles@[i],
                old(s).profiles@[i],
            ),
        same_rest(*old(s), *final(s)),
{
    let (a, b) = (*old(s), *final(s));
    assert(b@.profiles.len() == b.profiles@.len());
    assert forall|i: int| 0 <= i < a.profiles@.len() implies alike(
        #[trigger] b.profiles@[i],
        a.profiles@[i],
    ) by {
        assert(b@.profiles[i] == b.profiles@[i]@);
        assert(a@.profiles[i] == a.profiles@[i]@);
    }
    if k < a.profiles@.len() {
        assert(a@.profiles[k as int] == a.profiles@[k as int]@);
    }
}

/// Where an item stood before the one at `k` was taken out.
pub open spec fn past(i: int, k: int) -> int {
    if i < k {
        i
    } else {
        i + 1
    }
}

/// Removing takes one profile out and closes the gap. The last one stays. If
/// the removed one was in use, the first of the rest is.
pub proof fn law_removing_takes_one_out(s: &mut Settings, k: usize, r: bool)
    requires
        call_ensures(remove, (s, k), r),
    ensures
        r <==> k < old(s).profiles@.len() && old(s).profiles@.len() >= 2,
        !r ==> *final(s) == *old(s),
        r ==> {
            let (a, b) = (*old(s), *final(s));
            &&& b.profiles@.len() + 1 == a.profiles@.len()
            &&& forall|i: int|
                0 <= i < b.profiles@.len() ==> alike(
                    #[trigger] b.profiles@[i],
                    a.profiles@[past(i, k as int)],
                )
            &&& a.active_profile@ == a.profiles@[k as int].name@ ==> b.active_profile@
                == b.profiles@[0].name@
            &&& a.active_profile@ != a.profiles@[k as int].name@ ==> b.active_profile@
                == a.active_profile@
            &&& same_rest(a, b)
        },
{
    if r {
        let (a, b) = (*old(s), *final(s));
        assert(b@.profiles.len() == b.profiles@.len());
        assert forall|i: int| 0 <= i < b.profiles@.len() implies alike(
            #[trigger] b.profiles@[i],
            a.profiles@[past(i, k as int)],
        ) by {
            let j = past(i, k as int);
            assert(b@.profiles[i] == b.profiles@[i]@);
            assert(a@.profiles[j] == a.profiles@[j]@);
        }
        assert(a@.profiles[k as int] == a.profiles@[k as int]@);
        assert(b@.profiles[0] == b.profiles@[0]@);
    }
}

/// What the file holds comes first, what an import brought second, and the
/// first start's settings last; a file that cannot be read is named with the
/// reason, and with where it was kept or why it was not.
pub proof fn law_settings_come_from_the_file(
    file: SettingsFile,
    imported: Option<Imported>,
    bad: &str,
    r: (Settings, Vec<String>),
    fresh: Settings,
    ordered: &mut Settings,
)
    requires
        call_ensures(load_or_import, (file, imported, bad), r),
        call_ensures(Settings::normalize, (ordered,), ()),
        file matches SettingsFile::Parsed(s) ==> *old(ordered) == s,
        call_ensures(Settings::default, (), fresh),
    ensures
        match file {
            SettingsFile::Parsed(s) => r.1@.len() == 0 && r.0@ == final(ordered)@,
            SettingsFile::Broken { reason, preserved } => {
                &&& r.0@ == fresh@
                &&& r.1@.len() == 2
                &&& mentions(r.1@[0]@, reason@) && mentions(r.1@[1]@, bad@)
                &&& preserved matches Err(e) ==> mentions(r.1@[1]@, e@)
            },
            SettingsFile::Missing => match imported {
                Some(i) => {
                    &&& r.0@ == i.settings@
                    &&& r.1@.len() == i.log@.len() + 1
                    &&& forall|k: int|
                        0 <= k < i.log@.len() ==> (#[trigger] i.log@[k])@ == r.1@[k]@
                    &&& i.saved matches Err(e) ==> mentions(r.1@.last()@, e@)
                    &&& i.saved is Ok ==> mentions(r.1@.last()@, "settings saved"@)
                },
                None => r.0@ == fresh@ && r.1@.len() == 0,
            },
        },
{
    assert(texts(r.1@).len() == r.1@.len());
    match file {
        SettingsFile::Parsed(_) => {},
        SettingsFile::Broken { reason, preserved } => {
            assert(texts(r.1@)[0] == r.1@[0]@ && texts(r.1@)[1] == r.1@[1]@);
            lemma_mentions("Could not load settings.toml ("@, reason@, "); using defaults"@);
            match preserved {
                Ok(()) => {
                    lemma_mentions(
                        "The unparseable file was preserved as "@,
                        bad@,
                        "; fix it and rename it back to settings.toml to recover your profiles"@,
                    );
                },
                Err(e) => {
                    let a = "Could not preserve the unparseable file as "@;
                    lemma_mentions(a, bad@, ": "@ + e@);
                    assert(a + bad@ + (": "@ + e@) =~= a + bad@ + ": "@ + e@);
                    lemma_mentions(a + bad@ + ": "@, e@, Seq::empty());
                    assert(a + bad@ + ": "@ + e@ + Seq::<char>::empty() =~= a + bad@ + ": "@ + e@);
                },
            }
        },
        SettingsFile::Missing => {
            if let Some(i) = imported {
                let n = i.log@.len() as int;
                assert(texts(r.1@)[n] == r.1@[n]@);
                assert forall|k: int| 0 <= k < n implies (#[trigger] i.log@[k])@ == r.1@[k]@ by {
                    assert(texts(r.1@)[k] == r.1@[k]@);
                    assert(texts(i.log@)[k] == i.log@[k]@);
                }
                match i.saved {
                    Ok(()) => {
                        reveal_strlit("Imported settings saved to settings.toml");
                        reveal_strlit("settings saved");
                        let t = "Imported settings saved to settings.toml"@;
                        lemma_mentions(t.take(9), "settings saved"@, t.skip(23));
                        assert(t.take(9) + "settings saved"@ + t.skip(23) =~= t);
                    },
                    Err(e) => {
                        let a = "Could not save imported settings: "@;
                        lemma_mentions(a, e@, Seq::empty());
                        assert(a + e@ + Seq::<char>::empty() =~= a + e@);
                    },
                }
            }
        },
    }
}

/// A failure on a file says what was tried, on which file, and why it failed,
/// in this order.
pub proof fn law_file_errors_are_complete(what: &str, path: &str, reason: &str, r: String)
    requires
        call_ensures(file_error, (what, path, reason), r),
    ensures
        r@.take(what@.len() as int) == what@,
        mentions(r@, path@),
        r@.skip(r@.len() - reason@.len()) == reason@,
        r@.len() == what@.len() + path@.len() + reason@.len() + 3,
{
    reveal_strlit(" ");
    reveal_strlit(": ");
    assert(r@.take(what@.len() as int) =~= what@);
    assert(r@.skip(r@.len() - reason@.len()) =~= reason@);
    lemma_mentions(what@ + " "@, path@, ": "@ + reason@);
    assert(what@ + " "@ + path@ + (": "@ + reason@) =~= r@);
}

} // verus!
