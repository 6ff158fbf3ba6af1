//! Settings model and the settings a start begins with.
//!
//! Contracts speak of settings through [`SettingsModel`], which holds the
//! same values with texts as character sequences.
use vstd::prelude::*;

use crate::ieee::{Real32, Real64};
use crate::text::{push_line, same_text, texts};
use crate::vocab::{
    BottomTab, CheckUpdates, DisplayId, GgaMode, GgaSource, NovatelFormat, ParityCfg, ProtocolCfg,
};

verus! {

/// Window width and height bounds, as binary32 patterns: 700 to 4000 by 480
/// to 3000 points, and the default 920 by 680.
pub const WIDTH_MIN: u32 = 0x442F_0000;

pub const WIDTH_MAX: u32 = 0x457A_0000;

pub const HEIGHT_MIN: u32 = 0x43F0_0000;

pub const HEIGHT_MAX: u32 = 0x453B_8000;

pub const WIDTH_DEFAULT: u32 = 0x4466_0000;

pub const HEIGHT_DEFAULT: u32 = 0x442A_0000;

/// All persisted settings.
#[derive(Debug, Clone)]
pub struct Settings {
    pub schema: u32,
    pub active_profile: String,
    pub app: AppCfg,
    pub window: WindowCfg,
    pub display: DisplayCfg,
    pub serial: SerialCfg,
    pub state: StateCfg,
    pub profiles: Vec<Profile>,
}

/// The user-facing options.
#[derive(Debug, Clone)]
pub struct AppCfg {
    pub check_updates: CheckUpdates,
    pub audio_alert_file: String,
    pub write_event_log: bool,
    pub write_nmea_log: bool,
    pub capture_corrections: bool,
    pub auto_reconnect: bool,
    pub max_reconnect_attempts: u32,
}

/// Bookkeeping that the program writes for itself.
#[derive(Debug, Clone)]
pub struct StateCfg {
    /// "YYYY-MM-DD" of the last update check; empty means never.
    pub last_update_check: String,
    pub serial_connected: bool,
    pub ntrip_connected: bool,
}

/// Window geometry and layout.
#[derive(Debug, Clone, Copy)]
pub struct WindowCfg {
    /// Outer position; unset until the first clean exit records one.
    pub pos: Option<(i32, i32)>,
    pub width: Real32,
    pub height: Real32,
    pub graph_open: bool,
    pub tab: BottomTab,
    pub gga_open: bool,
}

/// The two configurable readouts.
#[derive(Debug, Clone, Copy, PartialEq, Eq, Structural)]
pub struct DisplayCfg {
    pub center: DisplayId,
    pub right: DisplayId,
}

/// Receiver link.
#[derive(Debug, Clone)]
pub struct SerialCfg {
    pub port: String,
    pub baud: u32,
    pub data_bits: u8,
    pub stop_bits: u8,
    pub parity: ParityCfg,
    pub novatel_autoconfig: bool,
    pub novatel_format: NovatelFormat,
    pub novatel_rate_hz: u8,
}

/// One caster account.
#[derive(Debug, Clone)]
pub struct Profile {
    pub name: String,
    pub host: String,
    pub port: u16,
    pub tls: bool,
    pub allow_invalid_certs: bool,
    pub ntrip_version: u8,
    pub protocol: ProtocolCfg,
    pub username: String,
    pub password: String,
    pub mountpoint: String,
    pub gga_mode: GgaMode,
    pub gga_source: GgaSource,
    pub manual_lat: Real64,
    pub manual_lon: Real64,
}

// ---------------------------------------------------------------------
// Models
// ---------------------------------------------------------------------

pub struct AppModel {
    pub check_updates: CheckUpdates,
    pub audio_alert_file: Seq<char>,
    pub write_event_log: bool,
    pub write_nmea_log: bool,
    pub capture_corrections: bool,
    pub auto_reconnect: bool,
    pub max_reconnect_attempts: u32,
}

pub struct StateModel {
    pub last_update_check: Seq<char>,
    pub serial_connected: bool,
    pub ntrip_connected: bool,
}

pub struct SerialModel {
    pub port: Seq<char>,
    pub baud: u32,
    pub data_bits: u8,
    pub stop_bits: u8,
    pub parity: ParityCfg,
    pub novatel_autoconfig: bool,
    pub novatel_format: NovatelFormat,
    pub novatel_rate_hz: u8,
}

pub struct ProfileModel {
    pub name: Seq<char>,
    pub host: Seq<char>,
    pub port: u16,
    pub tls: bool,
    pub allow_invalid_certs: bool,
    pub ntrip_version: u8,
    pub protocol: ProtocolCfg,
    pub username: Seq<char>,
    pub password: Seq<char>,
    pub mountpoint: Seq<char>,
    pub gga_mode: GgaMode,
    pub gga_source: GgaSource,
    pub manual_lat: Real64,
    pub manual_lon: Real64,
}

pub struct SettingsModel {
    pub schema: u32,
    pub active_profile: Seq<char>,
    pub app: AppModel,
    pub window: WindowCfg,
    pub display: DisplayCfg,
    pub serial: SerialModel,
    pub state: StateModel,
    pub profiles: Seq<ProfileModel>,
}

impl View for AppCfg {
    type V = AppModel;

    open spec fn view(&self) -> AppModel {
        AppModel {
            check_updates: self.check_updates,
            audio_alert_file: self.audio_alert_file@,
            write_event_log: self.write_event_log,
            write_nmea_log: self.write_nmea_log,
            capture_corrections: self.capture_corrections,
            auto_reconnect: self.auto_reconnect,
            max_reconnect_attempts: self.max_reconnect_attempts,
        }
    }
}

impl View for StateCfg {
    type V = StateModel;

    open spec fn view(&self) -> StateModel {
        StateModel {
            last_update_check: self.last_update_check@,
            serial_connected: self.serial_connected,
            ntrip_connected: self.ntrip_connected,
        }
    }
}

impl View for SerialCfg {
    type V = SerialModel;

    open spec fn view(&self) -> SerialModel {
        SerialModel {
            port: self.port@,
            baud: self.baud,
            data_bits: self.data_bits,
            stop_bits: self.stop_bits,
            parity: self.parity,
            novatel_autoconfig: self.novatel_autoconfig,
            novatel_format: self.novatel_format,
            novatel_rate_hz: self.novatel_rate_hz,
        }
    }
}

impl View for Profile {
    type V = ProfileModel;

    open spec fn view(&self) -> ProfileModel {
        ProfileModel {
            name: self.name@,
            host: self.host@,
            port: self.port,
            tls: self.tls,
            allow_invalid_certs: self.allow_invalid_certs,
            ntrip_version: self.ntrip_version,
            protocol: self.protocol,
            username: self.username@,
            password: self.password@,
            mountpoint: self.mountpoint@,
            gga_mode: self.gga_mode,
            gga_source: self.gga_source,
            manual_lat: self.manual_lat,
            manual_lon: self.manual_lon,
        }
    }
}

/// The models of a list of profiles.
pub open spec fn profile_models(p: Seq<Profile>) -> Seq<ProfileModel> {
    Seq::new(p.len(), |i: int| p[i]@)
}

impl View for Settings {
    type V = SettingsModel;

    open spec fn view(&self) -> SettingsModel {
        SettingsModel {
            schema: self.schema,
            active_profile: self.active_profile@,
            app: self.app@,
            window: self.window,
            display: self.display,
            serial: self.serial@,
            state: self.state@,
            profiles: profile_models(self.profiles@),
        }
    }
}

impl ProfileModel {
    /// A new profile's values.
    pub open spec fn fresh() -> ProfileModel {
        ProfileModel {
            name: "Default"@,
            host: Seq::empty(),
            port: 2101,
            tls: false,
            allow_invalid_certs: false,
            ntrip_version: 1,
            protocol: ProtocolCfg::Ntrip,
            username: Seq::empty(),
            password: Seq::empty(),
            mountpoint: Seq::empty(),
            gga_mode: GgaMode::WhenRequired,
            gga_source: GgaSource::Receiver,
            manual_lat: (Real64 { bits: 0 }),
            manual_lon: (Real64 { bits: 0 }),
        }
    }

    /// Equality of everything a user edits, coordinates by value.
    pub open spec fn same(self, other: ProfileModel) -> bool {
        &&& (ProfileModel { manual_lat: other.manual_lat, manual_lon: other.manual_lon, ..self })
            == other
        &&& self.manual_lat.eq_value(other.manual_lat)
        &&& self.manual_lon.eq_value(other.manual_lon)
    }
}

impl AppModel {
    pub open spec fn fresh() -> AppModel {
        AppModel {
            check_updates: CheckUpdates::Weekly,
            audio_alert_file: Seq::empty(),
            write_event_log: true,
            write_nmea_log: true,
            capture_corrections: false,
            auto_reconnect: true,
            max_reconnect_attempts: 10_000,
        }
    }
}

impl StateModel {
    pub open spec fn fresh() -> StateModel {
        StateModel {
            last_update_check: Seq::empty(),
            serial_connected: false,
            ntrip_connected: false,
        }
    }
}

impl SerialModel {
    pub open spec fn fresh() -> SerialModel {
        SerialModel {
            port: Seq::empty(),
            baud: 115_200,
            data_bits: 8,
            stop_bits: 1,
            parity: ParityCfg::NoParity,
            novatel_autoconfig: false,
            novatel_format: NovatelFormat::Rtcmv3,
            novatel_rate_hz: 5,
        }
    }

    /// The link settings with every out-of-vocabulary number replaced by its
    /// default.
    pub open spec fn normalized(self) -> SerialModel {
        SerialModel {
            data_bits: if data_bits_choices().contains(self.data_bits) {
                self.data_bits
            } else {
                8
            },
            stop_bits: if stop_bits_choices().contains(self.stop_bits) {
                self.stop_bits
            } else {
                1
            },
            novatel_rate_hz: if novatel_rate_choices().contains(self.novatel_rate_hz) {
                self.novatel_rate_hz
            } else {
                5
            },
            ..self
        }
    }
}

impl WindowCfg {
    pub open spec fn fresh() -> WindowCfg {
        WindowCfg {
            pos: None,
            width: (Real32 { bits: WIDTH_DEFAULT }),
            height: (Real32 { bits: HEIGHT_DEFAULT }),
            graph_open: false,
            tab: BottomTab::Events,
            gga_open: false,
        }
    }

    /// The geometry with its size clamped to the layout's bounds.
    pub open spec fn normalized(self) -> WindowCfg {
        WindowCfg {
            width: self.width.clamped(WIDTH_MIN, WIDTH_MAX),
            height: self.height.clamped(HEIGHT_MIN, HEIGHT_MAX),
            ..self
        }
    }
}

impl DisplayCfg {
    pub open spec fn fresh() -> DisplayCfg {
        DisplayCfg { center: DisplayId::ElevationFeet, right: DisplayId::DataAge }
    }
}

impl SettingsModel {
    /// Factory settings.
    pub open spec fn fresh() -> SettingsModel {
        SettingsModel {
            schema: 1,
            active_profile: "Default"@,
            app: AppModel::fresh(),
            window: WindowCfg::fresh(),
            display: DisplayCfg::fresh(),
            serial: SerialModel::fresh(),
            state: StateModel::fresh(),
            profiles: seq![ProfileModel::fresh()],
        }
    }

    /// Whether some profile has this name.
    pub open spec fn has_profile(self, name: Seq<char>) -> bool {
        exists|i: int| 0 <= i < self.profiles.len() && (#[trigger] self.profiles[i]).name == name
    }

    /// The first profile carrying the active name, or the first profile.
    pub open spec fn active_index(self) -> int {
        first_named(self.profiles, self.active_profile)
    }

    /// There is a profile, the active name is one of theirs, and every
    /// numeric setting is in its vocabulary.
    pub open spec fn wf(self) -> bool {
        &&& self.schema == 1
        &&& self.profiles.len() > 0
        &&& self.has_profile(self.active_profile)
        &&& forall|i: int|
            0 <= i < self.profiles.len() ==> (#[trigger] self.profiles[i]).ntrip_version == 1
                || self.profiles[i].ntrip_version == 2
        &&& self.serial == self.serial.normalized()
        &&& self.window == self.window.normalized()
    }

    /// The settings with every invariant re-established.
    pub open spec fn normalized(self) -> SettingsModel {
        let profiles = if self.profiles.len() == 0 {
            seq![ProfileModel::fresh()]
        } else {
            self.profiles
        };
        let filled = SettingsModel { profiles, ..self };
        SettingsModel {
            schema: 1,
            active_profile: if filled.has_profile(self.active_profile) {
                self.active_profile
            } else {
                profiles[0].name
            },
            window: self.window.normalized(),
            serial: self.serial.normalized(),
            profiles: Seq::new(profiles.len(), |i: int| with_known_version(profiles[i])),
            ..self
        }
    }

    /// Equality over what a user deliberately edits: the active profile, the
    /// profiles, and the option, readout and link settings.
    pub open spec fn same_persistable(self, other: SettingsModel) -> bool {
        &&& self.active_profile == other.active_profile
        &&& self.app == other.app
        &&& self.display == other.display
        &&& self.serial == other.serial
        &&& self.profiles.len() == other.profiles.len()
        &&& forall|i: int|
            0 <= i < self.profiles.len() ==> (#[trigger] self.profiles[i]).same(other.profiles[i])
    }
}

/// The profile with an unknown protocol version replaced by version 1.
pub open spec fn with_known_version(p: ProfileModel) -> ProfileModel {
    if p.ntrip_version == 1 || p.ntrip_version == 2 {
        p
    } else {
        ProfileModel { ntrip_version: 1, ..p }
    }
}

/// Index of the first profile of that name, 0 when there is none.
pub open spec fn first_named(p: Seq<ProfileModel>, name: Seq<char>) -> int {
    if exists|i: int| is_first_named(p, name, i) {
        choose|i: int| is_first_named(p, name, i)
    } else {
        0
    }
}

/// Whether `i` is the first index of a profile of that name.
pub open spec fn is_first_named(p: Seq<ProfileModel>, name: Seq<char>, i: int) -> bool {
    &&& 0 <= i < p.len()
    &&& p[i].name == name
    &&& forall|j: int| 0 <= j < i ==> (#[trigger] p[j]).name != name
}

// ---------------------------------------------------------------------
// Defaults
// ---------------------------------------------------------------------

impl Default for Profile {
    fn default() -> (r: Profile)
        ensures
            r@ == ProfileModel::fresh(),
    {
        Profile {
            name: "Default".to_owned(),
            host: String::new(),
            port: 2101,
            tls: false,
            allow_invalid_certs: false,
            ntrip_version: 1,
            protocol: ProtocolCfg::Ntrip,
            username: String::new(),
            password: String::new(),
            mountpoint: String::new(),
            gga_mode: GgaMode::WhenRequired,
            gga_source: GgaSource::Receiver,
            manual_lat: Real64::zero(),
            manual_lon: Real64::zero(),
        }
    }
}

impl Profile {
    /// The same profile again.
    pub fn duplicate(&self) -> (r: Profile)
        ensures
            r@ == self@,
    {
        Profile {
            name: self.name.clone(),
            host: self.host.clone(),
            port: self.port,
            tls: self.tls,
            allow_invalid_certs: self.allow_invalid_certs,
            ntrip_version: self.ntrip_version,
            protocol: self.protocol,
            username: self.username.clone(),
            password: self.password.clone(),
            mountpoint: self.mountpoint.clone(),
            gga_mode: self.gga_mode,
            gga_source: self.gga_source,
            manual_lat: self.manual_lat,
            manual_lon: self.manual_lon,
        }
    }

    fn same(&self, other: &Profile) -> (r: bool)
        ensures
            r == self@.same(other@),
    {
        self.name == other.name && self.host == other.host && self.port == other.port && self.tls
            == other.tls && self.allow_invalid_certs == other.allow_invalid_certs
            && self.ntrip_version == other.ntrip_version && self.protocol == other.protocol
            && self.username == other.username && self.password == other.password
            && self.mountpoint == other.mountpoint && self.gga_mode == other.gga_mode
            && self.gga_source == other.gga_source && self.manual_lat.same_value(other.manual_lat)
            && self.manual_lon.same_value(other.manual_lon)
    }
}

impl Default for AppCfg {
    fn default() -> (r: AppCfg)
        ensures
            r@ == AppModel::fresh(),
    {
        AppCfg {
            check_updates: CheckUpdates::Weekly,
            audio_alert_file: String::new(),
            write_event_log: true,
            write_nmea_log: true,
            capture_corrections: false,
            auto_reconnect: true,
            max_reconnect_attempts: 10_000,
        }
    }
}

impl Default for StateCfg {
    fn default() -> (r: StateCfg)
        ensures
            r@ == StateModel::fresh(),
    {
        StateCfg {
            last_update_check: String::new(),
            serial_connected: false,
            ntrip_connected: false,
        }
    }
}

impl Default for WindowCfg {
    fn default() -> (r: WindowCfg)
        ensures
            r == WindowCfg::fresh(),
    {
        WindowCfg {
            pos: None,
            width: Real32 { bits: WIDTH_DEFAULT },
            height: Real32 { bits: HEIGHT_DEFAULT },
            graph_open: false,
            tab: BottomTab::Events,
            gga_open: false,
        }
    }
}

impl Default for DisplayCfg {
    fn default() -> (r: DisplayCfg)
        ensures
            r == DisplayCfg::fresh(),
    {
        DisplayCfg { center: DisplayId::ElevationFeet, right: DisplayId::DataAge }
    }
}

impl Default for SerialCfg {
    fn default() -> (r: SerialCfg)
        ensures
            r@ == SerialModel::fresh(),
    {
        SerialCfg {
            port: String::new(),
            baud: 115_200,
            data_bits: 8,
            stop_bits: 1,
            parity: ParityCfg::NoParity,
            novatel_autoconfig: false,
            novatel_format: NovatelFormat::Rtcmv3,
            novatel_rate_hz: 5,
        }
    }
}

impl Default for Settings {
    fn default() -> (r: Settings)
        ensures
            r@ == SettingsModel::fresh(),
    {
        let mut profiles: Vec<Profile> = Vec::new();
        profiles.push(Profile::default());
        assert(profile_models(profiles@) =~= seq![ProfileModel::fresh()]);
        Settings {
            schema: 1,
            active_profile: "Default".to_owned(),
            app: AppCfg::default(),
            window: WindowCfg::default(),
            display: DisplayCfg::default(),
            serial: SerialCfg::default(),
            state: StateCfg::default(),
            profiles,
        }
    }
}

// ---------------------------------------------------------------------
// Operations
// ---------------------------------------------------------------------

impl Settings {
    /// Index of the active profile: the first one carrying the active name,
    /// or the first one.
    pub fn active_index(&self) -> (r: usize)
        ensures
            r == self@.active_index(),
            self.profiles@.len() > 0 ==> r < self.profiles@.len(),
    {
        let ghost models = self@.profiles;
        let ghost name = self@.active_profile;
        let mut i: usize = 0;
        while i < self.profiles.len()
            invariant
                i <= self.profiles@.len(),
                models == self@.profiles,
                name == self@.active_profile,
                forall|j: int| 0 <= j < i ==> (#[trigger] models[j]).name != name,
            decreases self.profiles.len() - i,
        {
            if self.profiles[i].name == self.active_profile {
                proof {
                    assert(is_first_named(models, name, i as int));
                    let k = choose|k: int| is_first_named(models, name, k);
                    if k < i {
                        assert(models[k].name != name);
                    } else if i < k {
                        assert(models[i as int].name != name);
                    }
                }
                return i;
            }
            i += 1;
        }
        proof {
            assert forall|k: int| !is_first_named(models, name, k) by {
                if 0 <= k < models.len() {
                    assert(models[k].name != name);
                }
            }
        }
        0
    }

    /// The active profile.
    pub fn active(&self) -> (r: &Profile)
        requires
            self.profiles@.len() > 0,
        ensures
            *r == self.profiles@[self@.active_index()],
    {
        let i: usize = self.active_index();
        &self.profiles[i]
    }

    /// The active profile, for editing.
    pub fn active_mut(&mut self) -> (r: &mut Profile)
        requires
            old(self).profiles@.len() > 0,
        ensures
            *r == old(self).profiles@[old(self)@.active_index()],
            final(self).profiles@ == old(self).profiles@.update(
                old(self)@.active_index(),
                *final(r),
            ),
            final(self)@ == (SettingsModel {
                profiles: final(self)@.profiles,
                ..old(self)@
            }),
    {
        let i: usize = self.active_index();
        &mut self.profiles[i]
    }

    /// Equality over the fields a user deliberately edits.
    pub fn persistable_eq(&self, other: &Settings) -> (r: bool)
        ensures
            r == self@.same_persistable(other@),
    {
        let same_app = self.app.check_updates == other.app.check_updates
            && self.app.audio_alert_file == other.app.audio_alert_file && self.app.write_event_log
            == other.app.write_event_log && self.app.write_nmea_log == other.app.write_nmea_log
            && self.app.capture_corrections == other.app.capture_corrections
            && self.app.auto_reconnect == other.app.auto_reconnect
            && self.app.max_reconnect_attempts == other.app.max_reconnect_attempts;
        let same_serial = self.serial.port == other.serial.port && self.serial.baud
            == other.serial.baud && self.serial.data_bits == other.serial.data_bits
            && self.serial.stop_bits == other.serial.stop_bits && self.serial.parity
            == other.serial.parity && self.serial.novatel_autoconfig
            == other.serial.novatel_autoconfig && self.serial.novatel_format
            == other.serial.novatel_format && self.serial.novatel_rate_hz
            == other.serial.novatel_rate_hz;
        let same_rest = self.active_profile == other.active_profile && self.display
            == other.display && self.profiles.len() == other.profiles.len();
        if !same_app || !same_serial || !same_rest {
            return false;
        }
        let mut i: usize = 0;
        while i < self.profiles.len()
            invariant
                i <= self.profiles@.len(),
                self.profiles@.len() == other.profiles@.len(),
                forall|j: int|
                    0 <= j < i ==> (#[trigger] self@.profiles[j]).same(other@.profiles[j]),
            decreases self.profiles.len() - i,
        {
            if !self.profiles[i].same(&other.profiles[i]) {
                assert(!self@.profiles[i as int].same(other@.profiles[i as int]));
                return false;
            }
            i += 1;
        }
        true
    }

    /// Whether some profile has this name.
    pub fn has_profile(&self, name: &str) -> (r: bool)
        ensures
            r == self@.has_profile(name@),
    {
        let mut i: usize = 0;
        while i < self.profiles.len()
            invariant
                i <= self.profiles@.len(),
                forall|j: int| 0 <= j < i ==> (#[trigger] self@.profiles[j]).name != name@,
            decreases self.profiles.len() - i,
        {
            if same_text(self.profiles[i].name.as_str(), name) {
                assert(self@.profiles[i as int].name == name@);
                return true;
            }
            i += 1;
        }
        false
    }

    /// Re-establish the invariants that a hand-edited or partial file may
    /// break.
    pub fn normalize(&mut self)
        ensures
            final(self)@ == old(self)@.normalized(),
            final(self)@.wf(),
    {
        let ghost start = self@;
        self.schema = 1;
        if self.profiles.len() == 0 {
            self.profiles.push(Profile::default());
            assert(self@.profiles =~= seq![ProfileModel::fresh()]);
        }
        let ghost filled = self@;
        let known = self.has_profile(self.active_profile.as_str());
        if !known {
            self.active_profile = self.profiles[0].name.clone();
        }
        know_versions(&mut self.profiles);
        self.serial.normalize();
        self.window.width = self.window.width.clamp_between(WIDTH_MIN, WIDTH_MAX);
        self.window.height = self.window.height.clamp_between(HEIGHT_MIN, HEIGHT_MAX);
        proof {
            assert(known == (SettingsModel { profiles: filled.profiles, ..start }).has_profile(
                start.active_profile,
            ));
            let goal = start.normalized();
            assert(self@.profiles =~= goal.profiles);
            assert(self@.active_profile == goal.active_profile);
            assert(self@.serial == goal.serial);
            assert(self@.window == goal.window);
            assert(self@ == goal);
            law_normalize_establishes_invariants(start);
        }
    }
}

/// The offered data bits.
pub open spec fn data_bits_choices() -> Seq<u8> {
    seq![7, 8]
}

/// The offered stop bits.
pub open spec fn stop_bits_choices() -> Seq<u8> {
    seq![1, 2]
}

/// The offered message rates of an auto-configured receiver, in Hz.
pub open spec fn novatel_rate_choices() -> Seq<u8> {
    seq![1, 5, 10]
}

proof fn lemma_choices(x: u8)
    ensures
        data_bits_choices().contains(x) == (x == 7 || x == 8),
        stop_bits_choices().contains(x) == (x == 1 || x == 2),
        novatel_rate_choices().contains(x) == (x == 1 || x == 5 || x == 10),
{
    assert(data_bits_choices()[0] == 7 && data_bits_choices()[1] == 8);
    assert(stop_bits_choices()[0] == 1 && stop_bits_choices()[1] == 2);
    let rates = novatel_rate_choices();
    assert(rates[0] == 1 && rates[1] == 5 && rates[2] == 10);
}

impl SerialCfg {
    fn normalize(&mut self)
        ensures
            final(self)@ == old(self)@.normalized(),
    {
        proof {
            lemma_choices(self.data_bits);
            lemma_choices(self.stop_bits);
            lemma_choices(self.novatel_rate_hz);
        }
        if !(self.data_bits == 7 || self.data_bits == 8) {
            self.data_bits = 8;
        }
        if !(self.stop_bits == 1 || self.stop_bits == 2) {
            self.stop_bits = 1;
        }
        let hz: u8 = self.novatel_rate_hz;
        if !(hz == 1 || hz == 5 || hz == 10) {
            self.novatel_rate_hz = 5;
        }
    }
}

fn know_versions(profiles: &mut Vec<Profile>)
    ensures
        profile_models(final(profiles)@) == profile_models(old(profiles)@).map_values(
            |p: ProfileModel| with_known_version(p),
        ),
{
    let ghost start = profile_models(profiles@);
    let mut i: usize = 0;
    while i < profiles.len()
        invariant
            i <= profiles@.len(),
            profiles@.len() == start.len(),
            forall|j: int|
                0 <= j < i ==> (#[trigger] profiles@[j])@ == with_known_version(start[j]),
            forall|j: int| i <= j < start.len() ==> (#[trigger] profiles@[j])@ == start[j],
        decreases profiles.len() - i,
    {
        let v: u8 = profiles[i].ntrip_version;
        if !(v == 1 || v == 2) {
            profiles[i].ntrip_version = 1;
        }
        i += 1;
    }
    assert(profile_models(profiles@) =~= start.map_values(
        |p: ProfileModel| with_known_version(p),
    ));
}

/// Normalizing establishes every invariant, whatever it was given.
pub proof fn law_normalize_establishes_invariants(s: SettingsModel)
    ensures
        s.normalized().wf(),
{
    let n = s.normalized();
    let profiles = if s.profiles.len() == 0 {
        seq![ProfileModel::fresh()]
    } else {
        s.profiles
    };
    let filled = SettingsModel { profiles, ..s };
    if filled.has_profile(s.active_profile) {
        let i = choose|i: int|
            0 <= i < profiles.len() && (#[trigger] profiles[i]).name == s.active_profile;
        assert(n.profiles[i].name == s.active_profile);
    } else {
        assert(n.profiles[0].name == profiles[0].name);
    }
}

/// Normalizing settings that already satisfy the invariants changes nothing.
pub proof fn law_normalize_keeps_valid_settings(s: SettingsModel)
    requires
        s.wf(),
    ensures
        s.normalized() == s,
{
    let filled = SettingsModel { profiles: s.profiles, ..s };
    assert(filled.has_profile(s.active_profile));
    assert(s.normalized().profiles =~= s.profiles);
}

/// The comparison behind the Save button sees neither window geometry nor
/// bookkeeping nor the schema number.
pub proof fn law_persistable_ignores_app_managed_state(
    a: SettingsModel,
    b: SettingsModel,
    schema: u32,
    window: WindowCfg,
    state: StateModel,
)
    ensures
        a.same_persistable(b) == (SettingsModel { schema, window, state, ..a }).same_persistable(b),
        a.same_persistable(b) == a.same_persistable(SettingsModel { schema, window, state, ..b }),
{
    let a2 = SettingsModel { schema, window, state, ..a };
    let b2 = SettingsModel { schema, window, state, ..b };
    assert(a2.profiles == a.profiles);
    assert(b2.profiles == b.profiles);
}

/// The comparison is symmetric.
pub proof fn law_persistable_is_symmetric(a: SettingsModel, b: SettingsModel)
    ensures
        a.same_persistable(b) == b.same_persistable(a),
{
    if a.same_persistable(b) {
        assert forall|i: int| 0 <= i < b.profiles.len() implies (#[trigger] b.profiles[i]).same(
            a.profiles[i],
        ) by {
            assert(a.profiles[i].same(b.profiles[i]));
        }
    }
    if b.same_persistable(a) {
        assert forall|i: int| 0 <= i < a.profiles.len() implies (#[trigger] a.profiles[i]).same(
            b.profiles[i],
        ) by {
            assert(b.profiles[i].same(a.profiles[i]));
        }
    }
}

/// Settings equal themselves, as long as no coordinate is NaN.
pub proof fn law_persistable_is_reflexive(a: SettingsModel)
    requires
        forall|i: int|
            0 <= i < a.profiles.len() ==> !(#[trigger] a.profiles[i]).manual_lat.is_nan()
                && !a.profiles[i].manual_lon.is_nan(),
    ensures
        a.same_persistable(a),
{
}

// ---------------------------------------------------------------------
// Start-up
// ---------------------------------------------------------------------

/// What became of the settings file.
#[derive(Debug)]
pub enum SettingsFile {
    Missing,
    /// It was read and parsed.
    Parsed(Settings),
    /// It could not be loaded; it was, or could not be, preserved under
    /// another name.
    Broken { reason: String, preserved: Result<(), String> },
}

/// The settings imported from another client's files, with the import's log,
/// and whether they could be saved.
#[derive(Debug)]
pub struct Imported {
    pub settings: Settings,
    pub log: Vec<String>,
    pub saved: Result<(), String>,
}

/// The two lines on a settings file that could not be loaded.
pub open spec fn broken_lines(
    reason: Seq<char>,
    preserved: Result<(), String>,
    bad: Seq<char>,
) -> Seq<Seq<char>> {
    seq![
        "Could not load settings.toml ("@ + reason + "); using defaults"@,
        match preserved {
            Ok(()) => "The unparseable file was preserved as "@ + bad
                + "; fix it and rename it back to settings.toml to recover your profiles"@,
            Err(e) => "Could not preserve the unparseable file as "@ + bad + ": "@ + e@,
        },
    ]
}

/// The line on saving imported settings.
pub open spec fn import_saved_line(saved: Result<(), String>) -> Seq<char> {
    match saved {
        Ok(()) => "Imported settings saved to settings.toml"@,
        Err(e) => "Could not save imported settings: "@ + e@,
    }
}

/// The settings to start with, and the lines to log: the file's, normalized;
/// factory settings when it is broken; those of an import on the first run;
/// factory settings otherwise. `bad` is where a broken file is preserved.
pub fn load_or_import(file: SettingsFile, imported: Option<Imported>, bad: &str) -> (r: (
    Settings,
    Vec<String>,
))
    ensures
        match file {
            SettingsFile::Parsed(s) => r.0@ == s@.normalized() && r.1@.len() == 0,
            SettingsFile::Broken { reason, preserved } => r.0@ == SettingsModel::fresh() && texts(
                r.1@,
            ) == broken_lines(reason@, preserved, bad@),
            SettingsFile::Missing => match imported {
                Some(i) => r.0@ == i.settings@ && texts(r.1@) == texts(i.log@).push(
                    import_saved_line(i.saved),
                ),
                None => r.0@ == SettingsModel::fresh() && r.1@.len() == 0,
            },
        },
{
    match file {
        SettingsFile::Parsed(s) => {
            let mut s = s;
            s.normalize();
            (s, Vec::new())
        },
        SettingsFile::Broken { reason, preserved } => {
            let mut log: Vec<String> = Vec::new();
            assert(texts(log@) =~= Seq::<Seq<char>>::empty());
            let mut first = "Could not load settings.toml (".to_owned();
            first.append(reason.as_str());
            first.append("); using defaults");
            push_line(&mut log, first);
            let second = match &preserved {
                Ok(()) => {
                    let mut t = "The unparseable file was preserved as ".to_owned();
                    t.append(bad);
                    t.append(
                        "; fix it and rename it back to settings.toml to recover your profiles",
                    );
                    t
                },
                Err(e) => {
                    let mut t = "Could not preserve the unparseable file as ".to_owned();
                    t.append(bad);
                    t.append(": ");
                    t.append(e.as_str());
                    t
                },
            };
            push_line(&mut log, second);
            assert(texts(log@) =~= broken_lines(reason@, preserved, bad@));
            (Settings::default(), log)
        },
        SettingsFile::Missing => match imported {
            None => (Settings::default(), Vec::new()),
            Some(i) => {
                let mut log = i.log;
                let line = match &i.saved {
                    Ok(()) => "Imported settings saved to settings.toml".to_owned(),
                    Err(e) => {
                        let mut t = "Could not save imported settings: ".to_owned();
                        t.append(e.as_str());
                        t
                    },
                };
                push_line(&mut log, line);
                (i.settings, log)
            },
        },
    }
}

/// An error on a file: what was tried, on which path, and why it failed.
pub fn file_error(what: &str, path: &str, reason: &str) -> (r: String)
    ensures
        r@ == what@ + " "@ + path@ + ": "@ + reason@,
{
    let mut t = what.to_owned();
    t.append(" ");
    t.append(path);
    t.append(": ");
    t.append(reason);
    t
}

} // verus!
