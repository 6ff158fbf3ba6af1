//! The application object: everything that the windows share, and the user's
//! actions on it. Nothing here starts a worker or touches a file; an action
//! says what to start.
use vstd::prelude::*;

use crate::bus::NtripStatus;
use crate::ieee::Real32;
use crate::logging::{civil_days, days_from_civil, year_text, CaptureTarget, LocalStamp};
use crate::paths::{captures_dir, joined_path};
use crate::session::{NtripVersion, Transport};
use crate::settings::{AppModel, Profile, ProfileModel, Settings};
use crate::sourcetable::SourceTable;
use crate::state::{find_stream, found_stream, AppEvent, AppState, Decodes, NtripUi, RtcmTypeStat};
use crate::text::{
    dec_pad, plain_nat, plain_uint, push_dec_pad, push_line, same_text, split, split_at, texts,
    trim, trimmed,
};
use crate::ui::{connlog_window, gga_section, profiles_dialog, sourcetable_browser};
use crate::user_agent;
use crate::vocab::{CheckUpdates, ProtocolCfg};
use crate::workers::ntrip::{NtripJob, ReconnectPolicy};

verus! {

/// The application.
#[derive(Debug)]
pub struct App {
    pub base: String,
    /// The system's path separator.
    pub separator: char,
    pub settings: Settings,
    pub state: AppState,
    /// Whether a caster worker runs.
    pub ntrip: bool,
    /// Whether a receiver worker runs.
    pub serial: bool,
    /// Names and labels of the ports found at the last scan.
    pub ports: Vec<(String, String)>,
    pub show_options: bool,
    pub show_about: bool,
    pub show_profiles: bool,
    pub reveal_password: bool,
    pub mount_popup_open: bool,
    pub srctbl_view: sourcetable_browser::ViewState,
    pub connlog_view: connlog_window::ViewState,
    pub gga_view: gga_section::ViewState,
    pub profiles_view: profiles_dialog::ViewState,
    /// The unclassified responses that the user has seen.
    pub conn_unknown_ack: u64,
    /// Whether the current worker accepts any certificate.
    pub insecure_tls_active: bool,
    /// Clock reading and byte total of the last rate sample.
    pub rate_sample: (u64, u64),
    pub geometry_rescued: bool,
    /// Byte total that the activity envelope last saw.
    pub activity_total: u64,
    /// Clock reading of the envelope's last step.
    pub activity_at: u64,
    /// Whether this session's hint at a missing receiver was given.
    pub receiver_hint_logged: bool,
}

// ---------------------------------------------------------------------
// Start
// ---------------------------------------------------------------------

/// The lines a start logs.
pub open spec fn boot_lines(
    database_error: Option<Seq<char>>,
    boot_log: Seq<Seq<char>>,
    crash_report: Option<Seq<char>>,
    update_due: bool,
) -> Seq<Seq<char>> {
    let a = seq!["Open NTRIP Client v"@ + crate::VERSION@ + " started"@];
    let b = match database_error {
        Some(e) => a.push("Offline location database unavailable: "@ + e),
        None => a,
    };
    let c = b + boot_log;
    let d = match crash_report {
        Some(path) => c.push("The previous run crashed; a crash report was written"@).push(
            "Crash report: "@ + path,
        ),
        None => c,
    };
    if update_due {
        d.push("Update check due - use Options > Check now to open the releases page"@)
    } else {
        d
    }
}

/// The text of an optional string.
pub open spec fn opt_text(s: Option<String>) -> Option<Seq<char>> {
    match s {
        Some(t) => Some(t@),
        None => None,
    }
}

impl App {
    /// The application at start, and the lines it logs: what was loaded, that
    /// the previous run crashed, that an update check is due. A due check only
    /// prompts; nothing opens by itself.
    pub fn new(
        base: String,
        separator: char,
        settings: Settings,
        boot_log: Vec<String>,
        ports: Vec<(String, String)>,
        database_error: Option<String>,
        crash_report: Option<String>,
        today: (i32, u8, u8),
        now: u64,
    ) -> (r: (App, Vec<String>))
        ensures
            r.0.base == base && r.0.separator == separator,
            r.0.settings == settings,
            r.0.ports == ports,
            !r.0.ntrip && !r.0.serial,
            !r.0.show_options && !r.0.show_about && !r.0.show_profiles,
            !r.0.reveal_password && !r.0.mount_popup_open && !r.0.insecure_tls_active,
            !r.0.geometry_rescued && !r.0.receiver_hint_logged,
            r.0.conn_unknown_ack == 0 && r.0.activity_total == 0,
            r.0.rate_sample == (now, 0u64),
            r.0.activity_at == now,
            r.0.state.fresh_at(now),
            r.0.srctbl_view.tab == sourcetable_browser::Tab::Str && r.0.srctbl_view.filter@
                == Seq::<char>::empty() && r.0.srctbl_view.sort is None
                && r.0.srctbl_view.selected is None,
            r.0.connlog_view.filter@ == Seq::<char>::empty() && !r.0.connlog_view.show_hex,
            r.0.gga_view.query@ == Seq::<char>::empty() && r.0.gga_view.resolved_for@
                == Seq::<char>::empty() && r.0.gga_view.hits@.len() == 0
                && r.0.gga_view.selected == 0,
            r.0.profiles_view.selected is None && r.0.profiles_view.renaming is None
                && r.0.profiles_view.confirm_delete is None
                && r.0.profiles_view.rename_buf@ == Seq::<char>::empty()
                && !r.0.profiles_view.rename_focus_pending,
            texts(r.1@) == boot_lines(
                opt_text(database_error),
                texts(boot_log@),
                opt_text(crash_report),
                check_due(settings.app.check_updates, settings.state.last_update_check@, today),
            ),
    {
        let mut lines: Vec<String> = Vec::new();
        assert(texts(lines@) =~= Seq::<Seq<char>>::empty());
        let mut started = "Open NTRIP Client v".to_owned();
        started.append(crate::VERSION);
        started.append(" started");
        push_line(&mut lines, started);
        if let Some(e) = &database_error {
            let mut t = "Offline location database unavailable: ".to_owned();
            t.append(e.as_str());
            push_line(&mut lines, t);
        }
        let ghost before = texts(lines@);
        let mut i: usize = 0;
        while i < boot_log.len()
            invariant
                i <= boot_log@.len(),
                texts(lines@) == before + texts(boot_log@).take(i as int),
            decreases boot_log.len() - i,
        {
            push_line(&mut lines, boot_log[i].clone());
            assert(texts(lines@) =~= before + texts(boot_log@).take(i + 1));
            i += 1;
        }
        assert(texts(boot_log@).take(i as int) =~= texts(boot_log@));
        if let Some(path) = &crash_report {
            push_line(
                &mut lines,
                "The previous run crashed; a crash report was written".to_owned(),
            );
            let mut t = "Crash report: ".to_owned();
            t.append(path.as_str());
            push_line(&mut lines, t);
        }
        let due = update_check_due(
            settings.app.check_updates,
            settings.state.last_update_check.as_str(),
            today,
        );
        if due {
            push_line(
                &mut lines,
                "Update check due - use Options > Check now to open the releases page".to_owned(),
            );
        }
        assert(texts(lines@) =~= boot_lines(
            opt_text(database_error),
            texts(boot_log@),
            opt_text(crash_report),
            due,
        ));
        let app = App {
            base,
            separator,
            settings,
            state: AppState::new(now),
            ntrip: false,
            serial: false,
            ports,
            show_options: false,
            show_about: false,
            show_profiles: false,
            reveal_password: false,
            mount_popup_open: false,
            srctbl_view: sourcetable_browser::ViewState::default(),
            connlog_view: connlog_window::ViewState::default(),
            gga_view: gga_section::ViewState::default(),
            profiles_view: profiles_dialog::ViewState::default(),
            conn_unknown_ack: 0,
            insecure_tls_active: false,
            rate_sample: (now, 0),
            geometry_rescued: false,
            activity_total: 0,
            activity_at: now,
            receiver_hint_logged: false,
        };
        (app, lines)
    }

    pub fn ntrip_busy(&self) -> (r: bool)
        ensures
            r == self.ntrip,
    {
        self.ntrip
    }
}

// ---------------------------------------------------------------------
// Connecting
// ---------------------------------------------------------------------

/// What a connect request leads to.
#[derive(Debug)]
pub enum Connect {
    /// A worker runs already.
    Busy,
    /// No host is configured; this line says so.
    NoHost(&'static str),
    /// Start this job.
    Start(NtripJob),
}

/// What the cached table says of a stream's need for a position.
pub open spec fn listed_requirement(
    n: NtripUi,
    host: Seq<char>,
    port: u16,
    mount: Seq<char>,
) -> Option<bool> {
    match n.sourcetable {
        Some((h, p, table)) => if h@ == host && p == port {
            match found_stream(table.strs@, mount) {
                Some(i) => Some(table.strs@[i].nmea_required),
                None => None,
            }
        } else {
            None
        },
        None => None,
    }
}

/// The mountpoint that a connect asks for: none for the sourcetable.
pub open spec fn asked_mount(p: ProfileModel, table_only: bool) -> Seq<char> {
    if table_only {
        Seq::empty()
    } else {
        trim(p.mountpoint)
    }
}

/// The transport of a connect.
pub open spec fn asked_transport(p: ProfileModel, table_only: bool) -> Transport {
    if !table_only && p.protocol == ProtocolCfg::Tcp {
        Transport::RawTcp
    } else {
        Transport::Ntrip
    }
}

/// Whether a job is what a profile and the options ask for.
pub open spec fn is_job(
    job: NtripJob,
    p: ProfileModel,
    o: AppModel,
    base: Seq<char>,
    separator: char,
    n: NtripUi,
    table_only: bool,
) -> bool {
    let mount = asked_mount(p, table_only);
    let transport = asked_transport(p, table_only);
    let is_table = transport == Transport::Ntrip && mount.len() == 0;
    &&& job.host@ == trim(p.host)
    &&& job.port == p.port
    &&& job.mountpoint@ == mount
    &&& job.username@ == p.username
    &&& job.password@ == p.password
    &&& job.version == (if p.ntrip_version == 2 {
        NtripVersion::V2
    } else {
        NtripVersion::V1
    })
    &&& job.transport == transport
    &&& job.tls == p.tls
    &&& job.allow_invalid_certs == p.allow_invalid_certs
    &&& job.gga_mode == p.gga_mode
    &&& job.gga_source == p.gga_source
    &&& job.manual_lat == p.manual_lat
    &&& job.manual_lon == p.manual_lon
    &&& job.stream_requires_gga == listed_requirement(n, trim(p.host), p.port, mount)
    &&& job.reconnect == (if is_table {
        ReconnectPolicy::OneShot
    } else if o.auto_reconnect {
        ReconnectPolicy::Auto
    } else {
        ReconnectPolicy::OptionsOff
    })
    &&& job.max_attempts == o.max_reconnect_attempts
    &&& job.audio_alert@ == o.audio_alert_file
    &&& match job.capture {
        Some(CaptureTarget::Dir(d)) => o.capture_corrections && !is_table && d@ == joined_path(
            base,
            separator,
            "Captures"@,
        ),
        Some(CaptureTarget::File(_)) => false,
        None => !(o.capture_corrections && !is_table),
    }
    &&& job.user_agent@ == "NTRIP OpenNtripClient/"@ + crate::VERSION@
}

/// The state with the per-session stream figures wiped.
pub open spec fn session_reset(before: AppState, after: AppState) -> bool {
    &&& after.ntrip.rtcm@ == Map::<u16, RtcmTypeStat>::empty()
    &&& after == (AppState {
        ntrip: NtripUi {
            total_bytes: 0,
            last_rx: None,
            rtcm: after.ntrip.rtcm,
            rtcm_crc_failures: 0,
            rtcm_garbage_bytes: 0,
            decodes: Decodes::fresh(),
            ..before.ntrip
        },
        ..before
    })
}

fn build_job(
    p: &Profile,
    s: &Settings,
    state: &AppState,
    base: &str,
    separator: char,
    table_only: bool,
) -> (job: NtripJob)
    ensures
        is_job(job, p@, s.app@, base@, separator, state.ntrip, table_only),
{
    let host = trimmed(p.host.as_str()).to_owned();
    let transport = if table_only {
        Transport::Ntrip
    } else {
        match p.protocol {
            ProtocolCfg::Ntrip => Transport::Ntrip,
            ProtocolCfg::Tcp => Transport::RawTcp,
        }
    };
    let mountpoint = if table_only {
        String::new()
    } else {
        trimmed(p.mountpoint.as_str()).to_owned()
    };
    let is_table = transport == Transport::Ntrip && mountpoint.as_str().is_empty();
    let stream_requires_gga = match state.str_record(host.as_str(), p.port, mountpoint.as_str()) {
        Some(record) => Some(record.nmea_required),
        None => None,
    };
    NtripJob {
        host,
        port: p.port,
        mountpoint,
        username: p.username.clone(),
        password: p.password.clone(),
        version: if p.ntrip_version == 2 {
            NtripVersion::V2
        } else {
            NtripVersion::V1
        },
        transport,
        tls: p.tls,
        allow_invalid_certs: p.allow_invalid_certs,
        gga_mode: p.gga_mode,
        gga_source: p.gga_source,
        manual_lat: p.manual_lat,
        manual_lon: p.manual_lon,
        stream_requires_gga,
        reconnect: if is_table {
            ReconnectPolicy::OneShot
        } else if s.app.auto_reconnect {
            ReconnectPolicy::Auto
        } else {
            ReconnectPolicy::OptionsOff
        },
        max_attempts: s.app.max_reconnect_attempts,
        audio_alert: s.app.audio_alert_file.clone(),
        capture: if s.app.capture_corrections && !is_table {
            Some(CaptureTarget::Dir(captures_dir(base, separator)))
        } else {
            None
        },
        user_agent: user_agent(),
    }
}

impl App {
    /// Connect using the active profile. `table_only` asks for the sourcetable
    /// whatever the profile's mountpoint. A started job wipes the figures of
    /// the session before it.
    pub fn connect_ntrip(&mut self, table_only: bool, now: u64) -> (r: Connect)
        requires
            old(self).settings.profiles@.len() > 0,
        ensures
            ({
                let p = old(self).settings@.profiles[old(self).settings@.active_index()];
                match r {
                    Connect::Busy => old(self).ntrip && *final(self) == *old(self),
                    Connect::NoHost(line) => !old(self).ntrip && trim(p.host).len() == 0 && line@
                        == "No caster host configured"@ && *final(self) == *old(self),
                    Connect::Start(job) => {
                        &&& !old(self).ntrip && trim(p.host).len() > 0
                        &&& is_job(
                            job,
                            p,
                            old(self).settings.app@,
                            old(self).base@,
                            old(self).separator,
                            old(self).state.ntrip,
                            table_only,
                        )
                        &&& session_reset(old(self).state, final(self).state)
                        &&& *final(self) == (App {
                            ntrip: true,
                            insecure_tls_active: job.tls && job.allow_invalid_certs,
                            state: final(self).state,
                            rate_sample: (now, 0u64),
                            activity_total: 0,
                            receiver_hint_logged: false,
                            ..*old(self)
                        })
                    },
                }
            }),
    {
        if self.ntrip {
            return Connect::Busy;
        }
        proof {
            assert(self.settings@.profiles[self.settings@.active_index()]
                == self.settings.profiles@[self.settings@.active_index()]@);
        }
        let p = self.settings.active();
        if trimmed(p.host.as_str()).is_empty() {
            return Connect::NoHost("No caster host configured");
        }
        let job = build_job(
            p,
            &self.settings,
            &self.state,
            self.base.as_str(),
            self.separator,
            table_only,
        );
        self.insecure_tls_active = job.tls && job.allow_invalid_certs;
        self.state.ntrip.reset_stream_stats();
        self.rate_sample = (now, 0);
        self.activity_total = 0;
        self.receiver_hint_logged = false;
        self.ntrip = true;
        Connect::Start(job)
    }

    /// Note for the next start which sessions were live, before the settings
    /// are saved on exit.
    pub fn stamp_resume_intent(&mut self)
        ensures
            final(self).settings.state.serial_connected == old(self).serial,
            final(self).settings.state.ntrip_connected == old(self).ntrip,
            *final(self) == (App {
                settings: Settings {
                    state: crate::settings::StateCfg {
                        serial_connected: old(self).serial,
                        ntrip_connected: old(self).ntrip,
                        ..old(self).settings.state
                    },
                    ..old(self).settings
                },
                ..*old(self)
            }),
    {
        self.settings.state.serial_connected = self.serial;
        self.settings.state.ntrip_connected = self.ntrip;
    }

    /// Whether there is a worker to cancel. It stays in place until its last
    /// event arrives.
    pub fn disconnect_ntrip(&self) -> (r: bool)
        ensures
            r == self.ntrip,
    {
        self.ntrip
    }
}

/// What pressing the receiver link's button leads to.
#[derive(Debug, Clone, Copy)]
pub enum SerialToggle {
    /// Cancel the worker and wait for it.
    Stop,
    /// No port is configured; this line says so.
    NoPort(&'static str),
    /// Start a worker with the link settings.
    Start,
}

impl App {
    /// Open or close the receiver link.
    pub fn toggle_serial(&mut self) -> (r: SerialToggle)
        ensures
            match r {
                SerialToggle::Stop => old(self).serial && *final(self) == (App {
                    serial: false,
                    ..*old(self)
                }),
                SerialToggle::NoPort(line) => !old(self).serial && trim(
                    old(self).settings.serial.port@,
                ).len() == 0 && line@ == "No serial port selected"@ && *final(self) == *old(self),
                SerialToggle::Start => !old(self).serial && trim(
                    old(self).settings.serial.port@,
                ).len() > 0 && *final(self) == (App { serial: true, ..*old(self) }),
            },
    {
        if self.serial {
            self.serial = false;
            return SerialToggle::Stop;
        }
        if trimmed(self.settings.serial.port.as_str()).is_empty() {
            return SerialToggle::NoPort("No serial port selected");
        }
        self.serial = true;
        SerialToggle::Start
    }

    /// Take the result of a port scan.
    pub fn refresh_ports(&mut self, ports: Vec<(String, String)>)
        ensures
            *final(self) == (App { ports, ..*old(self) }),
    {
        self.ports = ports;
    }

    /// The active profile changed: what belonged to the caster before it is
    /// dropped.
    pub fn on_profile_switched(&mut self)
        ensures
            *final(self) == (App {
                reveal_password: false,
                mount_popup_open: false,
                state: AppState {
                    ntrip: NtripUi { sourcetable: None, ..old(self).state.ntrip },
                    ..old(self).state
                },
                ..*old(self)
            }),
    {
        self.reveal_password = false;
        self.mount_popup_open = false;
        self.state.ntrip.sourcetable = None;
    }

    /// Pick a profile by name in the top strip. A live worker belongs to the
    /// active profile, so nothing switches under it. Returns whether the
    /// active profile changed.
    pub fn pick_profile(&mut self, name: &str) -> (r: bool)
        ensures
            r == (!old(self).ntrip && name@ != old(self).settings.active_profile@),
            r ==> final(self).settings.active_profile@ == name@ && *final(self) == (App {
                settings: Settings {
                    active_profile: final(self).settings.active_profile,
                    ..old(self).settings
                },
                reveal_password: false,
                mount_popup_open: false,
                state: AppState {
                    ntrip: NtripUi { sourcetable: None, ..old(self).state.ntrip },
                    ..old(self).state
                },
                ..*old(self)
            }),
            !r ==> *final(self) == *old(self),
    {
        if self.ntrip || same_text(name, self.settings.active_profile.as_str()) {
            return false;
        }
        self.settings.active_profile = name.to_owned();
        self.on_profile_switched();
        true
    }

    /// The table to browse: the cached one, when it is the active caster's.
    pub fn active_table(&self) -> (r: Option<&SourceTable>)
        requires
            self.settings.profiles@.len() > 0,
        ensures
            ({
                let p = self.settings@.profiles[self.settings@.active_index()];
                match self.state.ntrip.sourcetable {
                    Some((h, port, table)) => if h@ == trim(p.host) && port == p.port {
                        r == Some(&table)
                    } else {
                        r is None
                    },
                    None => r is None,
                }
            }),
    {
        proof {
            assert(self.settings@.profiles[self.settings@.active_index()]
                == self.settings.profiles@[self.settings@.active_index()]@);
        }
        let p = self.settings.active();
        match &self.state.ntrip.sourcetable {
            Some((h, port, table)) => if same_text(h.as_str(), trimmed(p.host.as_str())) && *port
                == p.port {
                Some(table)
            } else {
                None
            },
            None => None,
        }
    }
}

/// The event line for the outcome of saving the settings.
pub fn save_line(saved: &Result<(), String>) -> (r: String)
    ensures
        r@ == match *saved {
            Ok(()) => "Settings saved"@,
            Err(e) => "Could not save settings: "@ + e@,
        },
{
    match saved {
        Ok(()) => "Settings saved".to_owned(),
        Err(e) => {
            let mut t = "Could not save settings: ".to_owned();
            t.append(e.as_str());
            t
        },
    }
}

// ---------------------------------------------------------------------
// Update checks
// ---------------------------------------------------------------------

/// A date as YYYY-MM-DD.
pub open spec fn iso_text(t: LocalStamp) -> Seq<char> {
    year_text(t.year as int) + "-"@ + dec_pad(t.month as nat, 2) + "-"@ + dec_pad(t.day as nat, 2)
}

impl App {
    /// The releases page was asked for: record the date, and return the event
    /// line for how opening it went.
    pub fn check_updates_now(&mut self, opened: &Result<(), String>, today: &LocalStamp) -> (r:
        String)
        ensures
            r@ == match *opened {
                Ok(()) => "Opened the releases page in the browser"@,
                Err(e) => "Could not open browser: "@ + e@,
            },
            final(self).settings.state.last_update_check@ == iso_text(*today),
            *final(self) == (App {
                settings: Settings {
                    state: crate::settings::StateCfg {
                        last_update_check: final(self).settings.state.last_update_check,
                        ..old(self).settings.state
                    },
                    ..old(self).settings
                },
                ..*old(self)
            }),
    {
        let mut date = String::new();
        if today.year < 0 {
            date.append("-");
            push_dec_pad(&mut date, (-(today.year as i64)) as u64, 3);
        } else {
            push_dec_pad(&mut date, today.year as u64, 4);
        }
        assert(date@ =~= year_text(today.year as int));
        date.append("-");
        push_dec_pad(&mut date, today.month as u64, 2);
        date.append("-");
        push_dec_pad(&mut date, today.day as u64, 2);
        self.settings.state.last_update_check = date;
        match opened {
            Ok(()) => "Opened the releases page in the browser".to_owned(),
            Err(e) => {
                let mut t = "Could not open browser: ".to_owned();
                t.append(e.as_str());
                t
            },
        }
    }
}

/// The date that a text spells as year, month and day between dashes, each of
/// them in decimal digits only.
pub open spec fn iso_date(s: Seq<char>) -> Option<(i32, u8, u8)> {
    let p = split(s, '-');
    if p.len() == 3 {
        match (
            plain_nat(p[0], i32::MAX as nat),
            plain_nat(p[1], u8::MAX as nat),
            plain_nat(p[2], u8::MAX as nat),
        ) {
            (Some(y), Some(m), Some(d)) => if 1 <= m <= 12 && 1 <= d <= 31 {
                Some((y as i32, m as u8, d as u8))
            } else {
                None
            },
            _ => None,
        }
    } else {
        None
    }
}

/// Read a YYYY-MM-DD date.
pub fn parse_iso_date(s: &str) -> (r: Option<(i32, u8, u8)>)
    ensures
        r == iso_date(s@),
{
    let p = split_at(s, '-');
    let ghost pieces = split(s@, '-');
    assert(pieces.len() == p@.len());
    if p.len() != 3 {
        return None;
    }
    assert(pieces[0] == p@[0]@ && pieces[1] == p@[1]@ && pieces[2] == p@[2]@);
    let y = plain_uint(p[0].as_str(), i32::MAX as u64);
    let m = plain_uint(p[1].as_str(), u8::MAX as u64);
    let d = plain_uint(p[2].as_str(), u8::MAX as u64);
    match (y, m, d) {
        (Some(y), Some(m), Some(d)) => {
            if 1 <= m && m <= 12 && 1 <= d && d <= 31 {
                Some((y as i32, m as u8, d as u8))
            } else {
                None
            }
        },
        _ => None,
    }
}

/// Whether the configured cadence says a check is due.
pub open spec fn check_due(mode: CheckUpdates, last_check: Seq<char>, today: (i32, u8, u8)) -> bool {
    match mode {
        CheckUpdates::Off => false,
        CheckUpdates::Startup => true,
        CheckUpdates::Weekly => match iso_date(last_check) {
            Some((y, m, d)) => civil_days(today.0 as int, today.1 as int, today.2 as int)
                - civil_days(y as int, m as int, d as int) >= 7,
            None => true,
        },
    }
}

/// Whether an update check is due on a local date.
pub fn update_check_due(mode: CheckUpdates, last_check: &str, today: (i32, u8, u8)) -> (r: bool)
    ensures
        r == check_due(mode, last_check@, today),
{
    match mode {
        CheckUpdates::Off => false,
        CheckUpdates::Startup => true,
        CheckUpdates::Weekly => match parse_iso_date(last_check) {
            Some((y, m, d)) => {
                let a: i64 = days_from_civil(today.0, today.1, today.2);
                let b: i64 = days_from_civil(y, m, d);
                proof {
                    crate::logging::lemma_days_bounded(today.0, today.1, today.2);
                    crate::logging::lemma_days_bounded(y, m, d);
                }
                a - b >= 7
            },
            None => true,
        },
    }
}

// ---------------------------------------------------------------------
// Events
// ---------------------------------------------------------------------

/// The line on a profile's mountpoint that a fetched table gives rise to.
pub open spec fn mount_line(table: SourceTable, mount: Seq<char>) -> Seq<char> {
    match found_stream(table.strs@, mount) {
        Some(i) => {
            let s = table.strs@[i];
            let format = if s.format@.len() == 0 {
                "unknown"@
            } else {
                s.format@
            };
            "Sourcetable: mount "@ + mount + " - format "@ + format + (if s.nmea_required {
                ", nmea=1 (this stream requests NMEA GGA)"@
            } else {
                ", nmea=0 (no GGA needed)"@
            })
        },
        None => "Sourcetable: mount "@ + mount + " is not listed by this caster"@,
    }
}

/// What a fetched table says about the profile's mountpoint, above all
/// whether the stream asks for positions. Nothing for another caster's table,
/// or without a mountpoint.
pub fn log_mount_nmea_flag(p: &Profile, host: &str, port: u16, table: &SourceTable) -> (r: Option<
    String,
>)
    ensures
        match r {
            Some(line) => trim(p.mountpoint@).len() > 0 && trim(p.host@) == host@ && p.port == port
                && line@ == mount_line(*table, trim(p.mountpoint@)),
            None => trim(p.mountpoint@).len() == 0 || trim(p.host@) != host@ || p.port != port,
        },
{
    let mount = trimmed(p.mountpoint.as_str());
    if mount.is_empty() || !same_text(trimmed(p.host.as_str()), host) || p.port != port {
        return None;
    }
    let mut line = "Sourcetable: mount ".to_owned();
    line.append(mount);
    match find_stream(&table.strs, mount) {
        Some(i) => {
            let s = &table.strs[i];
            line.append(" - format ");
            line.append(
                if s.format.as_str().is_empty() {
                    "unknown"
                } else {
                    s.format.as_str()
                },
            );
            line.append(
                if s.nmea_required {
                    ", nmea=1 (this stream requests NMEA GGA)"
                } else {
                    ", nmea=0 (no GGA needed)"
                },
            );
        },
        None => {
            line.append(" is not listed by this caster");
        },
    }
    Some(line)
}

/// What an event means beyond the state that it is applied to.
#[derive(Debug)]
pub struct EventNotes {
    pub lines: Vec<String>,
    /// The caster worker ended: wait for it.
    pub join_ntrip: bool,
}

pub open spec fn receiver_hint() -> Seq<Seq<char>> {
    seq![
        "Corrections are flowing; age, DOPs, elevation and speed come from the receiver"@,
        "Connect a GPS receiver on the Serial side to populate those readouts"@,
    ]
}

impl App {
    /// Look at an event before it is applied. The last event of a worker
    /// frees its place; the first stream of a session without a receiver says,
    /// once, why readouts stay empty; a fetched table is held against the
    /// profile's mountpoint.
    pub fn on_event(&mut self, ev: &AppEvent) -> (r: EventNotes)
        requires
            old(self).settings.profiles@.len() > 0,
        ensures
            match *ev {
                AppEvent::Ntrip(NtripStatus::Stopped { .. }) => {
                    &&& r.lines@.len() == 0 && r.join_ntrip == old(self).ntrip
                    &&& *final(self) == (App {
                        ntrip: false,
                        insecure_tls_active: false,
                        ..*old(self)
                    })
                },
                AppEvent::Ntrip(NtripStatus::Streaming) => {
                    let hint = !old(self).serial && !old(self).receiver_hint_logged;
                    &&& !r.join_ntrip
                    &&& texts(r.lines@) == (if hint {
                        receiver_hint()
                    } else {
                        Seq::empty()
                    })
                    &&& *final(self) == (App {
                        receiver_hint_logged: old(self).receiver_hint_logged || hint,
                        ..*old(self)
                    })
                },
                AppEvent::SourcetableReady { host, port, table } => {
                    let p = old(self).settings@.profiles[old(self).settings@.active_index()];
                    &&& !r.join_ntrip && *final(self) == *old(self)
                    &&& texts(r.lines@) == (if trim(p.mountpoint).len() > 0 && trim(p.host)
                        == host@ && p.port == port {
                        seq![mount_line(table, trim(p.mountpoint))]
                    } else {
                        Seq::empty()
                    })
                },
                _ => r.lines@.len() == 0 && !r.join_ntrip && *final(self) == *old(self),
            },
    {
        let mut lines: Vec<String> = Vec::new();
        let mut join_ntrip = false;
        assert(texts(lines@) =~= Seq::<Seq<char>>::empty());
        match ev {
            AppEvent::Ntrip(NtripStatus::Stopped { .. }) => {
                join_ntrip = self.ntrip;
                self.ntrip = false;
                self.insecure_tls_active = false;
            },
            AppEvent::Ntrip(NtripStatus::Streaming) => {
                if !self.serial && !self.receiver_hint_logged {
                    self.receiver_hint_logged = true;
                    push_line(
                        &mut lines,
                        "Corrections are flowing; age, DOPs, elevation and speed come from the receiver".to_owned(),
                    );
                    push_line(
                        &mut lines,
                        "Connect a GPS receiver on the Serial side to populate those readouts".to_owned(),
                    );
                    assert(texts(lines@) =~= receiver_hint());
                }
            },
            AppEvent::SourcetableReady { host, port, table } => {
                proof {
                    assert(self.settings@.profiles[self.settings@.active_index()]
                        == self.settings.profiles@[self.settings@.active_index()]@);
                }
                let p = self.settings.active();
                if let Some(line) = log_mount_nmea_flag(p, host.as_str(), *port, table) {
                    push_line(&mut lines, line);
                    assert(texts(lines@) =~= seq![mount_line(*table, trim(p.mountpoint@))]);
                }
            },
            _ => {},
        }
        EventNotes { lines, join_ntrip }
    }

    /// The receiver worker ended by itself.
    pub fn serial_ended(&mut self)
        ensures
            *final(self) == (App { serial: false, ..*old(self) }),
    {
        self.serial = false;
    }

    /// The activity envelope's inputs of a frame: the time since its last
    /// step, and the byte totals then and now.
    pub fn step_activity(&mut self, now: u64) -> (r: (u64, u64, u64))
        ensures
            r.0 == if now >= old(self).activity_at {
                now - old(self).activity_at
            } else {
                0
            },
            r.1 == old(self).activity_total,
            r.2 == old(self).state.ntrip.total_bytes,
            *final(self) == (App {
                activity_at: now,
                activity_total: old(self).state.ntrip.total_bytes,
                ..*old(self)
            }),
    {
        let dt: u64 = if now >= self.activity_at {
            now - self.activity_at
        } else {
            0
        };
        let last: u64 = self.activity_total;
        let total: u64 = self.state.ntrip.total_bytes;
        self.activity_at = now;
        self.activity_total = total;
        (dt, last, total)
    }

    /// The receive rate is sampled at most once per second: bytes since the
    /// last sample and the nanoseconds they took, when one is due.
    pub fn update_rate_meter(&mut self, now: u64) -> (r: Option<(u64, u64)>)
        ensures
            ({
                let (at, total) = old(self).rate_sample;
                let bytes = old(self).state.ntrip.total_bytes;
                if now >= at + 1_000_000_000 {
                    &&& r == Some(
                        (
                            if bytes >= total {
                                (bytes - total) as u64
                            } else {
                                0
                            },
                            (now - at) as u64,
                        ),
                    )
                    &&& *final(self) == (App { rate_sample: (now, bytes), ..*old(self) })
                } else {
                    r is None && *final(self) == *old(self)
                }
            }),
    {
        let (at, total): (u64, u64) = self.rate_sample;
        if now < at || now - at < 1_000_000_000 {
            return None;
        }
        let bytes: u64 = self.state.ntrip.total_bytes;
        let delta: u64 = if bytes >= total {
            bytes - total
        } else {
            0
        };
        self.rate_sample = (now, bytes);
        Some((delta, now - at))
    }
}

// ---------------------------------------------------------------------
// Window geometry
// ---------------------------------------------------------------------

/// Least overlap of the window with the desktop, in physical pixels and in
/// each axis: enough title bar to grab.
pub const GRAB_PX: i32 = 60;

/// 760 by 480 points as binary32 patterns: the smallest window that the
/// layout fits.
pub const MIN_WIDTH: u32 = 0x443E_0000;

pub const MIN_HEIGHT: u32 = 0x43F0_0000;

/// The largest finite binary32 pattern.
pub const MAX_FINITE32: u32 = 0x7F7F_FFFF;

/// A length no smaller than a positive bound; what is no number gives way to
/// the bound.
pub open spec fn at_least(v: Real32, bound: u32) -> Real32 {
    if v.is_nan() || v.bits >= 0x8000_0000 || v.bits < bound {
        Real32 { bits: bound }
    } else {
        v
    }
}

fn at_least_exec(v: Real32, bound: u32) -> (r: Real32)
    requires
        bound <= MAX_FINITE32,
    ensures
        r == at_least(v, bound),
{
    if v.bits > 0x7F80_0000 || v.bits < bound {
        Real32 { bits: bound }
    } else {
        v
    }
}

/// A restored window size, brought up to the smallest one that fits.
pub fn clamp_to_min(width: Real32, height: Real32) -> (r: (Real32, Real32))
    ensures
        r.0 == at_least(width, MIN_WIDTH),
        r.1 == at_least(height, MIN_HEIGHT),
{
    (at_least_exec(width, MIN_WIDTH), at_least_exec(height, MIN_HEIGHT))
}

/// A rectangle in physical pixels: position and extent.
#[derive(Debug, Clone, Copy, PartialEq, Eq, Structural)]
pub struct PxRect {
    pub x: i32,
    pub y: i32,
    pub w: i32,
    pub h: i32,
}

/// The far edge of an extent, kept within 32 bits.
pub open spec fn far_edge(at: i32, len: i32) -> int {
    if at + len > i32::MAX {
        i32::MAX as int
    } else if at + len < i32::MIN {
        i32::MIN as int
    } else {
        at + len
    }
}

/// How far two extents overlap; negative when they are apart.
pub open spec fn overlap(a: i32, alen: i32, b: i32, blen: i32) -> int {
    let far = if far_edge(a, alen) < far_edge(b, blen) {
        far_edge(a, alen)
    } else {
        far_edge(b, blen)
    };
    far - if a > b {
        a
    } else {
        b
    }
}

/// A coordinate moved onto the primary monitor.
pub open spec fn onto_primary(at: i32, extent: i32) -> int {
    let last = if extent - GRAB_PX > 0 {
        extent - GRAB_PX
    } else {
        0
    };
    if at < 0 {
        0
    } else if at > last {
        last
    } else {
        at as int
    }
}

/// Where a window moves that no longer can be grabbed.
pub open spec fn rescue(win: PxRect, screen: PxRect, primary: (i32, i32)) -> Option<(int, int)> {
    if overlap(win.x, win.w, screen.x, screen.w) >= GRAB_PX && overlap(
        win.y,
        win.h,
        screen.y,
        screen.h,
    ) >= GRAB_PX {
        None
    } else {
        Some((onto_primary(win.x, primary.0), onto_primary(win.y, primary.1)))
    }
}

fn far_edge_exec(at: i32, len: i32) -> (r: i64)
    ensures
        r == far_edge(at, len),
{
    let e: i64 = at as i64 + len as i64;
    if e > i32::MAX as i64 {
        i32::MAX as i64
    } else if e < i32::MIN as i64 {
        i32::MIN as i64
    } else {
        e
    }
}

fn overlap_exec(a: i32, alen: i32, b: i32, blen: i32) -> (r: i64)
    ensures
        r == overlap(a, alen, b, blen),
{
    let fa: i64 = far_edge_exec(a, alen);
    let fb: i64 = far_edge_exec(b, blen);
    let far: i64 = if fa < fb {
        fa
    } else {
        fb
    };
    let near: i64 = if a > b {
        a as i64
    } else {
        b as i64
    };
    far - near
}

fn onto_primary_exec(at: i32, extent: i32) -> (r: i32)
    ensures
        r == onto_primary(at, extent),
{
    let room: i64 = extent as i64 - GRAB_PX as i64;
    let last: i32 = if room > 0 {
        room as i32
    } else {
        0
    };
    if at < 0 {
        0
    } else if at > last {
        last
    } else {
        at
    }
}

/// The position for a restored window that no longer meaningfully lies on the
/// desktop; none for anything visible, every position on a second monitor
/// included. `screen` bounds all monitors, `primary` is the extent of the one
/// at the origin.
pub fn rescue_position(win: PxRect, screen: PxRect, primary: (i32, i32)) -> (r: Option<(i32, i32)>)
    ensures
        match r {
            Some((x, y)) => rescue(win, screen, primary) == Some((x as int, y as int)),
            None => rescue(win, screen, primary) is None,
        },
{
    let dx: i64 = overlap_exec(win.x, win.w, screen.x, screen.w);
    let dy: i64 = overlap_exec(win.y, win.h, screen.y, screen.h);
    if dx >= GRAB_PX as i64 && dy >= GRAB_PX as i64 {
        return None;
    }
    Some((onto_primary_exec(win.x, primary.0), onto_primary_exec(win.y, primary.1)))
}

/// A rescued window that is big enough to grab can be grabbed: it overlaps
/// the primary monitor enough, and is not rescued again.
pub proof fn law_rescued_window_is_visible(win: PxRect, screen: PxRect, primary: (i32, i32))
    requires
        rescue(win, screen, primary) is Some,
        win.w >= GRAB_PX && win.h >= GRAB_PX,
        primary.0 >= GRAB_PX && primary.1 >= GRAB_PX,
        screen.x <= 0 && screen.y <= 0,
        screen.x + screen.w >= primary.0 && screen.y + screen.h >= primary.1,
    ensures
        ({
            let to = rescue(win, screen, primary)->0;
            rescue(PxRect { x: to.0 as i32, y: to.1 as i32, ..win }, screen, primary) is None
        }),
{
}

/// The desktop's metrics, when they make sense: every extent is positive.
pub fn desktop_px(screen: PxRect, primary: (i32, i32)) -> (r: Option<(PxRect, (i32, i32))>)
    ensures
        r == (if screen.w > 0 && screen.h > 0 && primary.0 > 0 && primary.1 > 0 {
            Some((screen, primary))
        } else {
            None
        }),
{
    if screen.w > 0 && screen.h > 0 && primary.0 > 0 && primary.1 > 0 {
        Some((screen, primary))
    } else {
        None
    }
}

impl App {
    /// Whether the boot-time rescue is still to be decided; it then is, once.
    pub fn begin_rescue(&mut self) -> (r: bool)
        ensures
            r == !old(self).geometry_rescued,
            *final(self) == (App { geometry_rescued: true, ..*old(self) }),
    {
        let due = !self.geometry_rescued;
        self.geometry_rescued = true;
        due
    }
}

} // verus!
