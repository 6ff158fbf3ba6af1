//! Closed vocabularies stored as text identifiers.
//!
//! Unknown identifiers fall back to the default instead of failing: a
//! settings file must never keep the program from starting.
use vstd::prelude::*;

use crate::text::{
    eq_ci, lemma_ci_differs, lemma_trim_identity, same_text_ci, trim, trimmed,
};

verus! {

/// Update-check cadence. A due check only ever prompts in the event log.
#[derive(Debug, Clone, Copy, PartialEq, Eq, Structural)]
pub enum CheckUpdates {
    Off,
    Startup,
    Weekly,
}

impl CheckUpdates {
    /// The stored identifier.
    pub open spec fn text(self) -> Seq<char> {
        match self {
            CheckUpdates::Off => "off"@,
            CheckUpdates::Startup => "startup"@,
            CheckUpdates::Weekly => "weekly"@,
        }
    }

    /// The value that an identifier names, up to ASCII case and surrounding
    /// white space.
    pub open spec fn lookup(s: Seq<char>) -> Option<CheckUpdates> {
        let s = trim(s);
        if eq_ci(s, "off"@) {
            Some(CheckUpdates::Off)
        } else if eq_ci(s, "startup"@) {
            Some(CheckUpdates::Startup)
        } else if eq_ci(s, "weekly"@) {
            Some(CheckUpdates::Weekly)
        } else {
            None
        }
    }

    /// Every value, in menu order.
    pub fn all() -> (r: Vec<CheckUpdates>)
        ensures
            r@ == seq![
                CheckUpdates::Off,
                CheckUpdates::Startup,
                CheckUpdates::Weekly,
            ],
    {
        let mut r: Vec<CheckUpdates> = Vec::new();
        r.push(CheckUpdates::Off);
        r.push(CheckUpdates::Startup);
        r.push(CheckUpdates::Weekly);
        assert(r@ =~= seq![
            CheckUpdates::Off,
            CheckUpdates::Startup,
            CheckUpdates::Weekly,
        ]);
        r
    }

    /// The stored identifier.
    pub fn as_str(self) -> (r: &'static str)
        ensures
            r@ == self.text(),
    {
        match self {
            CheckUpdates::Off => "off",
            CheckUpdates::Startup => "startup",
            CheckUpdates::Weekly => "weekly",
        }
    }

    /// Parse a stored identifier.
    pub fn from_id(s: &str) -> (r: Option<CheckUpdates>)
        ensures
            r == CheckUpdates::lookup(s@),
    {
        let s = trimmed(s);
        if same_text_ci(s, "off") {
            return Some(CheckUpdates::Off);
        }
        if same_text_ci(s, "startup") {
            return Some(CheckUpdates::Startup);
        }
        if same_text_ci(s, "weekly") {
            return Some(CheckUpdates::Weekly);
        }
        None
    }

    /// Parse a stored identifier; an unknown one means the default.
    pub fn from_id_or_default(s: &str) -> (r: CheckUpdates)
        ensures
            r == (match CheckUpdates::lookup(s@) {
                Some(v) => v,
                None => CheckUpdates::Weekly,
            }),
    {
        match CheckUpdates::from_id(s) {
            Some(v) => v,
            None => CheckUpdates::Weekly,
        }
    }
}

impl Default for CheckUpdates {
    fn default() -> (r: CheckUpdates)
        ensures
            r == CheckUpdates::Weekly,
    {
        CheckUpdates::Weekly
    }
}

/// Every stored identifier of [`CheckUpdates`] parses back to the value it was
/// written for.
pub proof fn law_check_updates_round_trip(v: CheckUpdates)
    ensures
        CheckUpdates::lookup(v.text()) == Some(v),
{
    reveal_strlit("off");
    reveal_strlit("startup");
    reveal_strlit("weekly");
    lemma_trim_identity(v.text());
    match v {
        CheckUpdates::Off => {},
        CheckUpdates::Startup => {
            lemma_ci_differs("startup"@, "off"@, 0);
        },
        CheckUpdates::Weekly => {
            lemma_ci_differs("weekly"@, "off"@, 0);
            lemma_ci_differs("weekly"@, "startup"@, 0);
        },
    }
}

/// Serial parity.
#[derive(Debug, Clone, Copy, PartialEq, Eq, Structural)]
pub enum ParityCfg {
    NoParity,
    Even,
    Odd,
}

impl ParityCfg {
    /// The stored identifier.
    pub open spec fn text(self) -> Seq<char> {
        match self {
            ParityCfg::NoParity => "none"@,
            ParityCfg::Even => "even"@,
            ParityCfg::Odd => "odd"@,
        }
    }

    /// The value that an identifier names, up to ASCII case and surrounding
    /// white space.
    pub open spec fn lookup(s: Seq<char>) -> Option<ParityCfg> {
        let s = trim(s);
        if eq_ci(s, "none"@) {
            Some(ParityCfg::NoParity)
        } else if eq_ci(s, "even"@) {
            Some(ParityCfg::Even)
        } else if eq_ci(s, "odd"@) {
            Some(ParityCfg::Odd)
        } else {
            None
        }
    }

    /// Every value, in menu order.
    pub fn all() -> (r: Vec<ParityCfg>)
        ensures
            r@ == seq![
                ParityCfg::NoParity,
                ParityCfg::Even,
                ParityCfg::Odd,
            ],
    {
        let mut r: Vec<ParityCfg> = Vec::new();
        r.push(ParityCfg::NoParity);
        r.push(ParityCfg::Even);
        r.push(ParityCfg::Odd);
        assert(r@ =~= seq![
            ParityCfg::NoParity,
            ParityCfg::Even,
            ParityCfg::Odd,
        ]);
        r
    }

    /// The stored identifier.
    pub fn as_str(self) -> (r: &'static str)
        ensures
            r@ == self.text(),
    {
        match self {
            ParityCfg::NoParity => "none",
            ParityCfg::Even => "even",
            ParityCfg::Odd => "odd",
        }
    }

    /// Parse a stored identifier.
    pub fn from_id(s: &str) -> (r: Option<ParityCfg>)
        ensures
            r == ParityCfg::lookup(s@),
    {
        let s = trimmed(s);
        if same_text_ci(s, "none") {
            return Some(ParityCfg::NoParity);
        }
        if same_text_ci(s, "even") {
            return Some(ParityCfg::Even);
        }
        if same_text_ci(s, "odd") {
            return Some(ParityCfg::Odd);
        }
        None
    }

    /// Parse a stored identifier; an unknown one means the default.
    pub fn from_id_or_default(s: &str) -> (r: ParityCfg)
        ensures
            r == (match ParityCfg::lookup(s@) {
                Some(v) => v,
                None => ParityCfg::NoParity,
            }),
    {
        match ParityCfg::from_id(s) {
            Some(v) => v,
            None => ParityCfg::NoParity,
        }
    }
}

impl Default for ParityCfg {
    fn default() -> (r: ParityCfg)
        ensures
            r == ParityCfg::NoParity,
    {
        ParityCfg::NoParity
    }
}

/// Every stored identifier of [`ParityCfg`] parses back to the value it was
/// written for.
pub proof fn law_parity_cfg_round_trip(v: ParityCfg)
    ensures
        ParityCfg::lookup(v.text()) == Some(v),
{
    reveal_strlit("none");
    reveal_strlit("even");
    reveal_strlit("odd");
    lemma_trim_identity(v.text());
    match v {
        ParityCfg::NoParity => {},
        ParityCfg::Even => {
            lemma_ci_differs("even"@, "none"@, 0);
        },
        ParityCfg::Odd => {
            lemma_ci_differs("odd"@, "none"@, 0);
            lemma_ci_differs("odd"@, "even"@, 0);
        },
    }
}

/// Correction format for the NovAtel auto-configuration.
#[derive(Debug, Clone, Copy, PartialEq, Eq, Structural)]
pub enum NovatelFormat {
    Rtcm,
    Rtcmv3,
    Cmr,
    Rtca,
    Omnistar,
    Novatel,
}

impl NovatelFormat {
    /// The stored identifier.
    pub open spec fn text(self) -> Seq<char> {
        match self {
            NovatelFormat::Rtcm => "rtcm"@,
            NovatelFormat::Rtcmv3 => "rtcmv3"@,
            NovatelFormat::Cmr => "cmr"@,
            NovatelFormat::Rtca => "rtca"@,
            NovatelFormat::Omnistar => "omnistar"@,
            NovatelFormat::Novatel => "novatel"@,
        }
    }

    /// The value that an identifier names, up to ASCII case and surrounding
    /// white space.
    pub open spec fn lookup(s: Seq<char>) -> Option<NovatelFormat> {
        let s = trim(s);
        if eq_ci(s, "rtcm"@) {
            Some(NovatelFormat::Rtcm)
        } else if eq_ci(s, "rtcmv3"@) {
            Some(NovatelFormat::Rtcmv3)
        } else if eq_ci(s, "cmr"@) {
            Some(NovatelFormat::Cmr)
        } else if eq_ci(s, "rtca"@) {
            Some(NovatelFormat::Rtca)
        } else if eq_ci(s, "omnistar"@) {
            Some(NovatelFormat::Omnistar)
        } else if eq_ci(s, "novatel"@) {
            Some(NovatelFormat::Novatel)
        } else {
            None
        }
    }

    /// Every value, in menu order.
    pub fn all() -> (r: Vec<NovatelFormat>)
        ensures
            r@ == seq![
                NovatelFormat::Rtcm,
                NovatelFormat::Rtcmv3,
                NovatelFormat::Cmr,
                NovatelFormat::Rtca,
                NovatelFormat::Omnistar,
                NovatelFormat::Novatel,
            ],
    {
        let mut r: Vec<NovatelFormat> = Vec::new();
        r.push(NovatelFormat::Rtcm);
        r.push(NovatelFormat::Rtcmv3);
        r.push(NovatelFormat::Cmr);
        r.push(NovatelFormat::Rtca);
        r.push(NovatelFormat::Omnistar);
        r.push(NovatelFormat::Novatel);
        assert(r@ =~= seq![
            NovatelFormat::Rtcm,
            NovatelFormat::Rtcmv3,
            NovatelFormat::Cmr,
            NovatelFormat::Rtca,
            NovatelFormat::Omnistar,
            NovatelFormat::Novatel,
        ]);
        r
    }

    /// The stored identifier.
    pub fn as_str(self) -> (r: &'static str)
        ensures
            r@ == self.text(),
    {
        match self {
            NovatelFormat::Rtcm => "rtcm",
            NovatelFormat::Rtcmv3 => "rtcmv3",
            NovatelFormat::Cmr => "cmr",
            NovatelFormat::Rtca => "rtca",
            NovatelFormat::Omnistar => "omnistar",
            NovatelFormat::Novatel => "novatel",
        }
    }

    /// Parse a stored identifier.
    pub fn from_id(s: &str) -> (r: Option<NovatelFormat>)
        ensures
            r == NovatelFormat::lookup(s@),
    {
        let s = trimmed(s);
        if same_text_ci(s, "rtcm") {
            return Some(NovatelFormat::Rtcm);
        }
        if same_text_ci(s, "rtcmv3") {
            return Some(NovatelFormat::Rtcmv3);
        }
        if same_text_ci(s, "cmr") {
            return Some(NovatelFormat::Cmr);
        }
        if same_text_ci(s, "rtca") {
            return Some(NovatelFormat::Rtca);
        }
        if same_text_ci(s, "omnistar") {
            return Some(NovatelFormat::Omnistar);
        }
        if same_text_ci(s, "novatel") {
            return Some(NovatelFormat::Novatel);
        }
        None
    }

    /// Parse a stored identifier; an unknown one means the default.
    pub fn from_id_or_default(s: &str) -> (r: NovatelFormat)
        ensures
            r == (match NovatelFormat::lookup(s@) {
                Some(v) => v,
                None => NovatelFormat::Rtcmv3,
            }),
    {
        match NovatelFormat::from_id(s) {
            Some(v) => v,
            None => NovatelFormat::Rtcmv3,
        }
    }
}

impl Default for NovatelFormat {
    fn default() -> (r: NovatelFormat)
        ensures
            r == NovatelFormat::Rtcmv3,
    {
        NovatelFormat::Rtcmv3
    }
}

/// Every stored identifier of [`NovatelFormat`] parses back to the value it was
/// written for.
pub proof fn law_novatel_format_round_trip(v: NovatelFormat)
    ensures
        NovatelFormat::lookup(v.text()) == Some(v),
{
    reveal_strlit("rtcm");
    reveal_strlit("rtcmv3");
    reveal_strlit("cmr");
    reveal_strlit("rtca");
    reveal_strlit("omnistar");
    reveal_strlit("novatel");
    lemma_trim_identity(v.text());
    match v {
        NovatelFormat::Rtcm => {},
        NovatelFormat::Rtcmv3 => {
            lemma_ci_differs("rtcmv3"@, "rtcm"@, 0);
        },
        NovatelFormat::Cmr => {
            lemma_ci_differs("cmr"@, "rtcm"@, 0);
            lemma_ci_differs("cmr"@, "rtcmv3"@, 0);
        },
        NovatelFormat::Rtca => {
            lemma_ci_differs("rtca"@, "rtcm"@, 3);
            lemma_ci_differs("rtca"@, "rtcmv3"@, 0);
            lemma_ci_differs("rtca"@, "cmr"@, 0);
        },
        NovatelFormat::Omnistar => {
            lemma_ci_differs("omnistar"@, "rtcm"@, 0);
            lemma_ci_differs("omnistar"@, "rtcmv3"@, 0);
            lemma_ci_differs("omnistar"@, "cmr"@, 0);
            lemma_ci_differs("omnistar"@, "rtca"@, 0);
        },
        NovatelFormat::Novatel => {
            lemma_ci_differs("novatel"@, "rtcm"@, 0);
            lemma_ci_differs("novatel"@, "rtcmv3"@, 0);
            lemma_ci_differs("novatel"@, "cmr"@, 0);
            lemma_ci_differs("novatel"@, "rtca"@, 0);
            lemma_ci_differs("novatel"@, "omnistar"@, 0);
        },
    }
}

/// Caster protocol.
#[derive(Debug, Clone, Copy, PartialEq, Eq, Structural)]
pub enum ProtocolCfg {
    Ntrip,
    Tcp,
}

impl ProtocolCfg {
    /// The stored identifier.
    pub open spec fn text(self) -> Seq<char> {
        match self {
            ProtocolCfg::Ntrip => "ntrip"@,
            ProtocolCfg::Tcp => "tcp"@,
        }
    }

    /// The value that an identifier names, up to ASCII case and surrounding
    /// white space.
    pub open spec fn lookup(s: Seq<char>) -> Option<ProtocolCfg> {
        let s = trim(s);
        if eq_ci(s, "ntrip"@) {
            Some(ProtocolCfg::Ntrip)
        } else if eq_ci(s, "tcp"@) {
            Some(ProtocolCfg::Tcp)
        } else {
            None
        }
    }

    /// Every value, in menu order.
    pub fn all() -> (r: Vec<ProtocolCfg>)
        ensures
            r@ == seq![
                ProtocolCfg::Ntrip,
                ProtocolCfg::Tcp,
            ],
    {
        let mut r: Vec<ProtocolCfg> = Vec::new();
        r.push(ProtocolCfg::Ntrip);
        r.push(ProtocolCfg::Tcp);
        assert(r@ =~= seq![
            ProtocolCfg::Ntrip,
            ProtocolCfg::Tcp,
        ]);
        r
    }

    /// The stored identifier.
    pub fn as_str(self) -> (r: &'static str)
        ensures
            r@ == self.text(),
    {
        match self {
            ProtocolCfg::Ntrip => "ntrip",
            ProtocolCfg::Tcp => "tcp",
        }
    }

    /// Parse a stored identifier.
    pub fn from_id(s: &str) -> (r: Option<ProtocolCfg>)
        ensures
            r == ProtocolCfg::lookup(s@),
    {
        let s = trimmed(s);
        if same_text_ci(s, "ntrip") {
            return Some(ProtocolCfg::Ntrip);
        }
        if same_text_ci(s, "tcp") {
            return Some(ProtocolCfg::Tcp);
        }
        None
    }

    /// Parse a stored identifier; an unknown one means the default.
    pub fn from_id_or_default(s: &str) -> (r: ProtocolCfg)
        ensures
            r == (match ProtocolCfg::lookup(s@) {
                Some(v) => v,
                None => ProtocolCfg::Ntrip,
            }),
    {
        match ProtocolCfg::from_id(s) {
            Some(v) => v,
            None => ProtocolCfg::Ntrip,
        }
    }
}

impl Default for ProtocolCfg {
    fn default() -> (r: ProtocolCfg)
        ensures
            r == ProtocolCfg::Ntrip,
    {
        ProtocolCfg::Ntrip
    }
}

/// Every stored identifier of [`ProtocolCfg`] parses back to the value it was
/// written for.
pub proof fn law_protocol_cfg_round_trip(v: ProtocolCfg)
    ensures
        ProtocolCfg::lookup(v.text()) == Some(v),
{
    reveal_strlit("ntrip");
    reveal_strlit("tcp");
    lemma_trim_identity(v.text());
    match v {
        ProtocolCfg::Ntrip => {},
        ProtocolCfg::Tcp => {
            lemma_ci_differs("tcp"@, "ntrip"@, 0);
        },
    }
}

/// When to send the position to the caster.
#[derive(Debug, Clone, Copy, PartialEq, Eq, Structural)]
pub enum GgaMode {
    Off,
    WhenRequired,
    Always,
}

impl GgaMode {
    /// The stored identifier.
    pub open spec fn text(self) -> Seq<char> {
        match self {
            GgaMode::Off => "off"@,
            GgaMode::WhenRequired => "when_required"@,
            GgaMode::Always => "always"@,
        }
    }

    /// The value that an identifier names, up to ASCII case and surrounding
    /// white space.
    pub open spec fn lookup(s: Seq<char>) -> Option<GgaMode> {
        let s = trim(s);
        if eq_ci(s, "off"@) {
            Some(GgaMode::Off)
        } else if eq_ci(s, "when_required"@) {
            Some(GgaMode::WhenRequired)
        } else if eq_ci(s, "always"@) {
            Some(GgaMode::Always)
        } else {
            None
        }
    }

    /// Every value, in menu order.
    pub fn all() -> (r: Vec<GgaMode>)
        ensures
            r@ == seq![
                GgaMode::Off,
                GgaMode::WhenRequired,
                GgaMode::Always,
            ],
    {
        let mut r: Vec<GgaMode> = Vec::new();
        r.push(GgaMode::Off);
        r.push(GgaMode::WhenRequired);
        r.push(GgaMode::Always);
        assert(r@ =~= seq![
            GgaMode::Off,
            GgaMode::WhenRequired,
            GgaMode::Always,
        ]);
        r
    }

    /// The stored identifier.
    pub fn as_str(self) -> (r: &'static str)
        ensures
            r@ == self.text(),
    {
        match self {
            GgaMode::Off => "off",
            GgaMode::WhenRequired => "when_required",
            GgaMode::Always => "always",
        }
    }

    /// Parse a stored identifier.
    pub fn from_id(s: &str) -> (r: Option<GgaMode>)
        ensures
            r == GgaMode::lookup(s@),
    {
        let s = trimmed(s);
        if same_text_ci(s, "off") {
            return Some(GgaMode::Off);
        }
        if same_text_ci(s, "when_required") {
            return Some(GgaMode::WhenRequired);
        }
        if same_text_ci(s, "always") {
            return Some(GgaMode::Always);
        }
        None
    }

    /// Parse a stored identifier; an unknown one means the default.
    pub fn from_id_or_default(s: &str) -> (r: GgaMode)
        ensures
            r == (match GgaMode::lookup(s@) {
                Some(v) => v,
                None => GgaMode::WhenRequired,
            }),
    {
        match GgaMode::from_id(s) {
            Some(v) => v,
            None => GgaMode::WhenRequired,
        }
    }
}

impl Default for GgaMode {
    fn default() -> (r: GgaMode)
        ensures
            r == GgaMode::WhenRequired,
    {
        GgaMode::WhenRequired
    }
}

/// Every stored identifier of [`GgaMode`] parses back to the value it was
/// written for.
pub proof fn law_gga_mode_round_trip(v: GgaMode)
    ensures
        GgaMode::lookup(v.text()) == Some(v),
{
    reveal_strlit("off");
    reveal_strlit("when_required");
    reveal_strlit("always");
    lemma_trim_identity(v.text());
    match v {
        GgaMode::Off => {},
        GgaMode::WhenRequired => {
            lemma_ci_differs("when_required"@, "off"@, 0);
        },
        GgaMode::Always => {
            lemma_ci_differs("always"@, "off"@, 0);
            lemma_ci_differs("always"@, "when_required"@, 0);
        },
    }
}

/// Where the position comes from.
#[derive(Debug, Clone, Copy, PartialEq, Eq, Structural)]
pub enum GgaSource {
    Manual,
    Receiver,
}

impl GgaSource {
    /// The stored identifier.
    pub open spec fn text(self) -> Seq<char> {
        match self {
            GgaSource::Manual => "manual"@,
            GgaSource::Receiver => "receiver"@,
        }
    }

    /// The value that an identifier names, up to ASCII case and surrounding
    /// white space.
    pub open spec fn lookup(s: Seq<char>) -> Option<GgaSource> {
        let s = trim(s);
        if eq_ci(s, "manual"@) {
            Some(GgaSource::Manual)
        } else if eq_ci(s, "receiver"@) {
            Some(GgaSource::Receiver)
        } else {
            None
        }
    }

    /// Every value, in menu order.
    pub fn all() -> (r: Vec<GgaSource>)
        ensures
            r@ == seq![
                GgaSource::Manual,
                GgaSource::Receiver,
            ],
    {
        let mut r: Vec<GgaSource> = Vec::new();
        r.push(GgaSource::Manual);
        r.push(GgaSource::Receiver);
        assert(r@ =~= seq![
            GgaSource::Manual,
            GgaSource::Receiver,
        ]);
        r
    }

    /// The stored identifier.
    pub fn as_str(self) -> (r: &'static str)
        ensures
            r@ == self.text(),
    {
        match self {
            GgaSource::Manual => "manual",
            GgaSource::Receiver => "receiver",
        }
    }

    /// Parse a stored identifier.
    pub fn from_id(s: &str) -> (r: Option<GgaSource>)
        ensures
            r == GgaSource::lookup(s@),
    {
        let s = trimmed(s);
        if same_text_ci(s, "manual") {
            return Some(GgaSource::Manual);
        }
        if same_text_ci(s, "receiver") {
            return Some(GgaSource::Receiver);
        }
        None
    }

    /// Parse a stored identifier; an unknown one means the default.
    pub fn from_id_or_default(s: &str) -> (r: GgaSource)
        ensures
            r == (match GgaSource::lookup(s@) {
                Some(v) => v,
                None => GgaSource::Receiver,
            }),
    {
        match GgaSource::from_id(s) {
            Some(v) => v,
            None => GgaSource::Receiver,
        }
    }
}

impl Default for GgaSource {
    fn default() -> (r: GgaSource)
        ensures
            r == GgaSource::Receiver,
    {
        GgaSource::Receiver
    }
}

/// Every stored identifier of [`GgaSource`] parses back to the value it was
/// written for.
pub proof fn law_gga_source_round_trip(v: GgaSource)
    ensures
        GgaSource::lookup(v.text()) == Some(v),
{
    reveal_strlit("manual");
    reveal_strlit("receiver");
    lemma_trim_identity(v.text());
    match v {
        GgaSource::Manual => {},
        GgaSource::Receiver => {
            lemma_ci_differs("receiver"@, "manual"@, 0);
        },
    }
}

/// Active bottom-pane tab.
#[derive(Debug, Clone, Copy, PartialEq, Eq, Structural)]
pub enum BottomTab {
    Events,
    Conn,
    Stream,
    Sourcetable,
}

impl BottomTab {
    /// The stored identifier.
    pub open spec fn text(self) -> Seq<char> {
        match self {
            BottomTab::Events => "events"@,
            BottomTab::Conn => "conn"@,
            BottomTab::Stream => "stream"@,
            BottomTab::Sourcetable => "sourcetable"@,
        }
    }

    /// The value that an identifier names, up to ASCII case and surrounding
    /// white space.
    pub open spec fn lookup(s: Seq<char>) -> Option<BottomTab> {
        let s = trim(s);
        if eq_ci(s, "events"@) {
            Some(BottomTab::Events)
        } else if eq_ci(s, "conn"@) {
            Some(BottomTab::Conn)
        } else if eq_ci(s, "stream"@) {
            Some(BottomTab::Stream)
        } else if eq_ci(s, "sourcetable"@) {
            Some(BottomTab::Sourcetable)
        } else {
            None
        }
    }

    /// Every value, in menu order.
    pub fn all() -> (r: Vec<BottomTab>)
        ensures
            r@ == seq![
                BottomTab::Events,
                BottomTab::Conn,
                BottomTab::Stream,
                BottomTab::Sourcetable,
            ],
    {
        let mut r: Vec<BottomTab> = Vec::new();
        r.push(BottomTab::Events);
        r.push(BottomTab::Conn);
        r.push(BottomTab::Stream);
        r.push(BottomTab::Sourcetable);
        assert(r@ =~= seq![
            BottomTab::Events,
            BottomTab::Conn,
            BottomTab::Stream,
            BottomTab::Sourcetable,
        ]);
        r
    }

    /// The stored identifier.
    pub fn as_str(self) -> (r: &'static str)
        ensures
            r@ == self.text(),
    {
        match self {
            BottomTab::Events => "events",
            BottomTab::Conn => "conn",
            BottomTab::Stream => "stream",
            BottomTab::Sourcetable => "sourcetable",
        }
    }

    /// Parse a stored identifier.
    pub fn from_id(s: &str) -> (r: Option<BottomTab>)
        ensures
            r == BottomTab::lookup(s@),
    {
        let s = trimmed(s);
        if same_text_ci(s, "events") {
            return Some(BottomTab::Events);
        }
        if same_text_ci(s, "conn") {
            return Some(BottomTab::Conn);
        }
        if same_text_ci(s, "stream") {
            return Some(BottomTab::Stream);
        }
        if same_text_ci(s, "sourcetable") {
            return Some(BottomTab::Sourcetable);
        }
        None
    }

    /// Parse a stored identifier; an unknown one means the default.
    pub fn from_id_or_default(s: &str) -> (r: BottomTab)
        ensures
            r == (match BottomTab::lookup(s@) {
                Some(v) => v,
                None => BottomTab::Events,
            }),
    {
        match BottomTab::from_id(s) {
            Some(v) => v,
            None => BottomTab::Events,
        }
    }
}

impl Default for BottomTab {
    fn default() -> (r: BottomTab)
        ensures
            r == BottomTab::Events,
    {
        BottomTab::Events
    }
}

/// Every stored identifier of [`BottomTab`] parses back to the value it was
/// written for.
pub proof fn law_bottom_tab_round_trip(v: BottomTab)
    ensures
        BottomTab::lookup(v.text()) == Some(v),
{
    reveal_strlit("events");
    reveal_strlit("conn");
    reveal_strlit("stream");
    reveal_strlit("sourcetable");
    lemma_trim_identity(v.text());
    match v {
        BottomTab::Events => {},
        BottomTab::Conn => {
            lemma_ci_differs("conn"@, "events"@, 0);
        },
        BottomTab::Stream => {
            lemma_ci_differs("stream"@, "events"@, 0);
            lemma_ci_differs("stream"@, "conn"@, 0);
        },
        BottomTab::Sourcetable => {
            lemma_ci_differs("sourcetable"@, "events"@, 0);
            lemma_ci_differs("sourcetable"@, "conn"@, 0);
            lemma_ci_differs("sourcetable"@, "stream"@, 0);
        },
    }
}

/// Readout identifiers: the receiver's, plus two fed by the caster stream.
#[derive(Debug, Clone, Copy, PartialEq, Eq, Structural)]
pub enum DisplayId {
    Age,
    Hdop,
    Vdop,
    Pdop,
    ElevationFeet,
    ElevationMeters,
    SpeedMph,
    SpeedMphSmoothed,
    SpeedKmh,
    SpeedKmhSmoothed,
    Heading,
    DataAge,
    DataRate,
    Nothing,
}

impl DisplayId {
    /// The name shown to the user.
    pub fn label(self) -> (r: &'static str)
        ensures
            r@ == match self {
                DisplayId::Age => "Correction Age"@,
                DisplayId::Hdop => "HDOP"@,
                DisplayId::Vdop => "VDOP"@,
                DisplayId::Pdop => "PDOP"@,
                DisplayId::ElevationFeet => "Elevation (ft)"@,
                DisplayId::ElevationMeters => "Elevation (m)"@,
                DisplayId::SpeedMph => "Speed (mph)"@,
                DisplayId::SpeedMphSmoothed => "Speed (mph, smoothed)"@,
                DisplayId::SpeedKmh => "Speed (km/h)"@,
                DisplayId::SpeedKmhSmoothed => "Speed (km/h, smoothed)"@,
                DisplayId::Heading => "Heading"@,
                DisplayId::DataAge => "Data Age (stream)"@,
                DisplayId::DataRate => "Data Rate (stream)"@,
                DisplayId::Nothing => "Nothing"@,
            },
    {
        match self {
            DisplayId::Age => "Correction Age",
            DisplayId::Hdop => "HDOP",
            DisplayId::Vdop => "VDOP",
            DisplayId::Pdop => "PDOP",
            DisplayId::ElevationFeet => "Elevation (ft)",
            DisplayId::ElevationMeters => "Elevation (m)",
            DisplayId::SpeedMph => "Speed (mph)",
            DisplayId::SpeedMphSmoothed => "Speed (mph, smoothed)",
            DisplayId::SpeedKmh => "Speed (km/h)",
            DisplayId::SpeedKmhSmoothed => "Speed (km/h, smoothed)",
            DisplayId::Heading => "Heading",
            DisplayId::DataAge => "Data Age (stream)",
            DisplayId::DataRate => "Data Rate (stream)",
            DisplayId::Nothing => "Nothing",
        }
    }

    /// The stored identifier.
    pub open spec fn text(self) -> Seq<char> {
        match self {
            DisplayId::Age => "age"@,
            DisplayId::Hdop => "hdop"@,
            DisplayId::Vdop => "vdop"@,
            DisplayId::Pdop => "pdop"@,
            DisplayId::ElevationFeet => "elevation-feet"@,
            DisplayId::ElevationMeters => "elevation-meters"@,
            DisplayId::SpeedMph => "speed-mph"@,
            DisplayId::SpeedMphSmoothed => "speed-mph-smoothed"@,
            DisplayId::SpeedKmh => "speed-kmh"@,
            DisplayId::SpeedKmhSmoothed => "speed-kmh-smoothed"@,
            DisplayId::Heading => "heading"@,
            DisplayId::DataAge => "data-age"@,
            DisplayId::DataRate => "data-rate"@,
            DisplayId::Nothing => "nothing"@,
        }
    }

    /// The value that an identifier names, up to ASCII case and surrounding
    /// white space.
    pub open spec fn lookup(s: Seq<char>) -> Option<DisplayId> {
        let s = trim(s);
        if eq_ci(s, "age"@) {
            Some(DisplayId::Age)
        } else if eq_ci(s, "hdop"@) {
            Some(DisplayId::Hdop)
        } else if eq_ci(s, "vdop"@) {
            Some(DisplayId::Vdop)
        } else if eq_ci(s, "pdop"@) {
            Some(DisplayId::Pdop)
        } else if eq_ci(s, "elevation-feet"@) {
            Some(DisplayId::ElevationFeet)
        } else if eq_ci(s, "elevation-meters"@) {
            Some(DisplayId::ElevationMeters)
        } else if eq_ci(s, "speed-mph"@) {
            Some(DisplayId::SpeedMph)
        } else if eq_ci(s, "speed-mph-smoothed"@) {
            Some(DisplayId::SpeedMphSmoothed)
        } else if eq_ci(s, "speed-kmh"@) {
            Some(DisplayId::SpeedKmh)
        } else if eq_ci(s, "speed-kmh-smoothed"@) {
            Some(DisplayId::SpeedKmhSmoothed)
        } else if eq_ci(s, "heading"@) {
            Some(DisplayId::Heading)
        } else if eq_ci(s, "data-age"@) {
            Some(DisplayId::DataAge)
        } else if eq_ci(s, "data-rate"@) {
            Some(DisplayId::DataRate)
        } else if eq_ci(s, "nothing"@) {
            Some(DisplayId::Nothing)
        } else {
            None
        }
    }

    /// Every value, in menu order.
    pub fn all() -> (r: Vec<DisplayId>)
        ensures
            r@ == seq![
                DisplayId::Age,
                DisplayId::Hdop,
                DisplayId::Vdop,
                DisplayId::Pdop,
                DisplayId::ElevationFeet,
                DisplayId::ElevationMeters,
                DisplayId::SpeedMph,
                DisplayId::SpeedMphSmoothed,
                DisplayId::SpeedKmh,
                DisplayId::SpeedKmhSmoothed,
                DisplayId::Heading,
                DisplayId::DataAge,
                DisplayId::DataRate,
                DisplayId::Nothing,
            ],
    {
        let mut r: Vec<DisplayId> = Vec::new();
        r.push(DisplayId::Age);
        r.push(DisplayId::Hdop);
        r.push(DisplayId::Vdop);
        r.push(DisplayId::Pdop);
        r.push(DisplayId::ElevationFeet);
        r.push(DisplayId::ElevationMeters);
        r.push(DisplayId::SpeedMph);
        r.push(DisplayId::SpeedMphSmoothed);
        r.push(DisplayId::SpeedKmh);
        r.push(DisplayId::SpeedKmhSmoothed);
        r.push(DisplayId::Heading);
        r.push(DisplayId::DataAge);
        r.push(DisplayId::DataRate);
        r.push(DisplayId::Nothing);
        assert(r@ =~= seq![
            DisplayId::Age,
            DisplayId::Hdop,
            DisplayId::Vdop,
            DisplayId::Pdop,
            DisplayId::ElevationFeet,
            DisplayId::ElevationMeters,
            DisplayId::SpeedMph,
            DisplayId::SpeedMphSmoothed,
            DisplayId::SpeedKmh,
            DisplayId::SpeedKmhSmoothed,
            DisplayId::Heading,
            DisplayId::DataAge,
            DisplayId::DataRate,
            DisplayId::Nothing,
        ]);
        r
    }

    /// The stored identifier.
    pub fn as_str(self) -> (r: &'static str)
        ensures
            r@ == self.text(),
    {
        match self {
            DisplayId::Age => "age",
            DisplayId::Hdop => "hdop",
            DisplayId::Vdop => "vdop",
            DisplayId::Pdop => "pdop",
            DisplayId::ElevationFeet => "elevation-feet",
            DisplayId::ElevationMeters => "elevation-meters",
            DisplayId::SpeedMph => "speed-mph",
            DisplayId::SpeedMphSmoothed => "speed-mph-smoothed",
            DisplayId::SpeedKmh => "speed-kmh",
            DisplayId::SpeedKmhSmoothed => "speed-kmh-smoothed",
            DisplayId::Heading => "heading",
            DisplayId::DataAge => "data-age",
            DisplayId::DataRate => "data-rate",
            DisplayId::Nothing => "nothing",
        }
    }

    /// Parse a stored identifier.
    pub fn from_id(s: &str) -> (r: Option<DisplayId>)
        ensures
            r == DisplayId::lookup(s@),
    {
        let s = trimmed(s);
        if same_text_ci(s, "age") {
            return Some(DisplayId::Age);
        }
        if same_text_ci(s, "hdop") {
            return Some(DisplayId::Hdop);
        }
        if same_text_ci(s, "vdop") {
            return Some(DisplayId::Vdop);
        }
        if same_text_ci(s, "pdop") {
            return Some(DisplayId::Pdop);
        }
        if same_text_ci(s, "elevation-feet") {
            return Some(DisplayId::ElevationFeet);
        }
        if same_text_ci(s, "elevation-meters") {
            return Some(DisplayId::ElevationMeters);
        }
        if same_text_ci(s, "speed-mph") {
            return Some(DisplayId::SpeedMph);
        }
        if same_text_ci(s, "speed-mph-smoothed") {
            return Some(DisplayId::SpeedMphSmoothed);
        }
        if same_text_ci(s, "speed-kmh") {
            return Some(DisplayId::SpeedKmh);
        }
        if same_text_ci(s, "speed-kmh-smoothed") {
            return Some(DisplayId::SpeedKmhSmoothed);
        }
        if same_text_ci(s, "heading") {
            return Some(DisplayId::Heading);
        }
        if same_text_ci(s, "data-age") {
            return Some(DisplayId::DataAge);
        }
        if same_text_ci(s, "data-rate") {
            return Some(DisplayId::DataRate);
        }
        if same_text_ci(s, "nothing") {
            return Some(DisplayId::Nothing);
        }
        None
    }

    /// Parse a stored identifier; an unknown one means the default.
    pub fn from_id_or_default(s: &str) -> (r: DisplayId)
        ensures
            r == (match DisplayId::lookup(s@) {
                Some(v) => v,
                None => DisplayId::Nothing,
            }),
    {
        match DisplayId::from_id(s) {
            Some(v) => v,
            None => DisplayId::Nothing,
        }
    }
}

impl Default for DisplayId {
    fn default() -> (r: DisplayId)
        ensures
            r == DisplayId::Nothing,
    {
        DisplayId::Nothing
    }
}

/// Every stored identifier of [`DisplayId`] parses back to the value it was
/// written for.
pub proof fn law_display_id_round_trip(v: DisplayId)
    ensures
        DisplayId::lookup(v.text()) == Some(v),
{
    reveal_strlit("age");
    reveal_strlit("hdop");
    reveal_strlit("vdop");
    reveal_strlit("pdop");
    reveal_strlit("elevation-feet");
    reveal_strlit("elevation-meters");
    reveal_strlit("speed-mph");
    reveal_strlit("speed-mph-smoothed");
    reveal_strlit("speed-kmh");
    reveal_strlit("speed-kmh-smoothed");
    reveal_strlit("heading");
    reveal_strlit("data-age");
    reveal_strlit("data-rate");
    reveal_strlit("nothing");
    lemma_trim_identity(v.text());
    match v {
        DisplayId::Age => {},
        DisplayId::Hdop => {
            lemma_ci_differs("hdop"@, "age"@, 0);
        },
        DisplayId::Vdop => {
            lemma_ci_differs("vdop"@, "age"@, 0);
            lemma_ci_differs("vdop"@, "hdop"@, 0);
        },
        DisplayId::Pdop => {
            lemma_ci_differs("pdop"@, "age"@, 0);
            lemma_ci_differs("pdop"@, "hdop"@, 0);
            lemma_ci_differs("pdop"@, "vdop"@, 0);
        },
        DisplayId::ElevationFeet => {
            lemma_ci_differs("elevation-feet"@, "age"@, 0);
            lemma_ci_differs("elevation-feet"@, "hdop"@, 0);
            lemma_ci_differs("elevation-feet"@, "vdop"@, 0);
            lemma_ci_differs("elevation-feet"@, "pdop"@, 0);
        },
        DisplayId::ElevationMeters => {
            lemma_ci_differs("elevation-meters"@, "age"@, 0);
            lemma_ci_differs("elevation-meters"@, "hdop"@, 0);
            lemma_ci_differs("elevation-meters"@, "vdop"@, 0);
            lemma_ci_differs("elevation-meters"@, "pdop"@, 0);
            lemma_ci_differs("elevation-meters"@, "elevation-feet"@, 0);
        },
        DisplayId::SpeedMph => {
            lemma_ci_differs("speed-mph"@, "age"@, 0);
            lemma_ci_differs("speed-mph"@, "hdop"@, 0);
            lemma_ci_differs("speed-mph"@, "vdop"@, 0);
            lemma_ci_differs("speed-mph"@, "pdop"@, 0);
            lemma_ci_differs("speed-mph"@, "elevation-feet"@, 0);
            lemma_ci_differs("speed-mph"@, "elevation-meters"@, 0);
        },
        DisplayId::SpeedMphSmoothed => {
            lemma_ci_differs("speed-mph-smoothed"@, "age"@, 0);
            lemma_ci_differs("speed-mph-smoothed"@, "hdop"@, 0);
            lemma_ci_differs("speed-mph-smoothed"@, "vdop"@, 0);
            lemma_ci_differs("speed-mph-smoothed"@, "pdop"@, 0);
            lemma_ci_differs("speed-mph-smoothed"@, "elevation-feet"@, 0);
            lemma_ci_differs("speed-mph-smoothed"@, "elevation-meters"@, 0);
            lemma_ci_differs("speed-mph-smoothed"@, "speed-mph"@, 0);
        },
        DisplayId::SpeedKmh => {
            lemma_ci_differs("speed-kmh"@, "age"@, 0);
            lemma_ci_differs("speed-kmh"@, "hdop"@, 0);
            lemma_ci_differs("speed-kmh"@, "vdop"@, 0);
            lemma_ci_differs("speed-kmh"@, "pdop"@, 0);
            lemma_ci_differs("speed-kmh"@, "elevation-feet"@, 0);
            lemma_ci_differs("speed-kmh"@, "elevation-meters"@, 0);
            lemma_ci_differs("speed-kmh"@, "speed-mph"@, 6);
            lemma_ci_differs("speed-kmh"@, "speed-mph-smoothed"@, 0);
        },
        DisplayId::SpeedKmhSmoothed => {
            lemma_ci_differs("speed-kmh-smoothed"@, "age"@, 0);
            lemma_ci_differs("speed-kmh-smoothed"@, "hdop"@, 0);
            lemma_ci_differs("speed-kmh-smoothed"@, "vdop"@, 0);
            lemma_ci_differs("speed-kmh-smoothed"@, "pdop"@, 0);
            lemma_ci_differs("speed-kmh-smoothed"@, "elevation-feet"@, 0);
            lemma_ci_differs("speed-kmh-smoothed"@, "elevation-meters"@, 0);
            lemma_ci_differs("speed-kmh-smoothed"@, "speed-mph"@, 0);
            lemma_ci_differs("speed-kmh-smoothed"@, "speed-mph-smoothed"@, 6);
            lemma_ci_differs("speed-kmh-smoothed"@, "speed-kmh"@, 0);
        },
        DisplayId::Heading => {
            lemma_ci_differs("heading"@, "age"@, 0);
            lemma_ci_differs("heading"@, "hdop"@, 0);
            lemma_ci_differs("heading"@, "vdop"@, 0);
            lemma_ci_differs("heading"@, "pdop"@, 0);
            lemma_ci_differs("heading"@, "elevation-feet"@, 0);
            lemma_ci_differs("heading"@, "elevation-meters"@, 0);
            lemma_ci_differs("heading"@, "speed-mph"@, 0);
            lemma_ci_differs("heading"@, "speed-mph-smoothed"@, 0);
            lemma_ci_differs("heading"@, "speed-kmh"@, 0);
            lemma_ci_differs("heading"@, "speed-kmh-smoothed"@, 0);
        },
        DisplayId::DataAge => {
            lemma_ci_differs("data-age"@, "age"@, 0);
            lemma_ci_differs("data-age"@, "hdop"@, 0);
            lemma_ci_differs("data-age"@, "vdop"@, 0);
            lemma_ci_differs("data-age"@, "pdop"@, 0);
            lemma_ci_differs("data-age"@, "elevation-feet"@, 0);
            lemma_ci_differs("data-age"@, "elevation-meters"@, 0);
            lemma_ci_differs("data-age"@, "speed-mph"@, 0);
            lemma_ci_differs("data-age"@, "speed-mph-smoothed"@, 0);
            lemma_ci_differs("data-age"@, "speed-kmh"@, 0);
            lemma_ci_differs("data-age"@, "speed-kmh-smoothed"@, 0);
            lemma_ci_differs("data-age"@, "heading"@, 0);
        },
        DisplayId::DataRate => {
            lemma_ci_differs("data-rate"@, "age"@, 0);
            lemma_ci_differs("data-rate"@, "hdop"@, 0);
            lemma_ci_differs("data-rate"@, "vdop"@, 0);
            lemma_ci_differs("data-rate"@, "pdop"@, 0);
            lemma_ci_differs("data-rate"@, "elevation-feet"@, 0);
            lemma_ci_differs("data-rate"@, "elevation-meters"@, 0);
            lemma_ci_differs("data-rate"@, "speed-mph"@, 0);
            lemma_ci_differs("data-rate"@, "speed-mph-smoothed"@, 0);
            lemma_ci_differs("data-rate"@, "speed-kmh"@, 0);
            lemma_ci_differs("data-rate"@, "speed-kmh-smoothed"@, 0);
            lemma_ci_differs("data-rate"@, "heading"@, 0);
            lemma_ci_differs("data-rate"@, "data-age"@, 0);
        },
        DisplayId::Nothing => {
            lemma_ci_differs("nothing"@, "age"@, 0);
            lemma_ci_differs("nothing"@, "hdop"@, 0);
            lemma_ci_differs("nothing"@, "vdop"@, 0);
            lemma_ci_differs("nothing"@, "pdop"@, 0);
            lemma_ci_differs("nothing"@, "elevation-feet"@, 0);
            lemma_ci_differs("nothing"@, "elevation-meters"@, 0);
            lemma_ci_differs("nothing"@, "speed-mph"@, 0);
            lemma_ci_differs("nothing"@, "speed-mph-smoothed"@, 0);
            lemma_ci_differs("nothing"@, "speed-kmh"@, 0);
            lemma_ci_differs("nothing"@, "speed-kmh-smoothed"@, 0);
            lemma_ci_differs("nothing"@, "heading"@, 0);
            lemma_ci_differs("nothing"@, "data-age"@, 0);
            lemma_ci_differs("nothing"@, "data-rate"@, 0);
        },
    }
}

} // verus!
