//! Log and capture files: their names, when they are opened, rolled over and
//! closed, and what the log says about it.
//!
//! Nothing here touches a file. A sink says which file to open and takes the
//! outcome back.
use vstd::prelude::*;

use crate::paths::{join, joined_path};
use crate::span::NANOS_PER_SEC;
use crate::text::{dec, dec_pad, push_dec, push_dec_pad, same_text};

verus! {

/// Where raw corrections are captured.
#[derive(Debug, Clone)]
pub enum CaptureTarget {
    /// A new file per connection in this directory.
    Dir(String),
    /// This one file.
    File(String),
}

/// What a [`CaptureTarget`] says.
pub enum TargetView {
    Dir(Seq<char>),
    File(Seq<char>),
}

impl View for CaptureTarget {
    type V = TargetView;

    open spec fn view(&self) -> TargetView {
        match self {
            CaptureTarget::Dir(d) => TargetView::Dir(d@),
            CaptureTarget::File(p) => TargetView::File(p@),
        }
    }
}

impl CaptureTarget {
    /// The same target again.
    pub fn duplicate(&self) -> (r: CaptureTarget)
        ensures
            r@ == self@,
    {
        match self {
            CaptureTarget::Dir(d) => CaptureTarget::Dir(d.clone()),
            CaptureTarget::File(p) => CaptureTarget::File(p.clone()),
        }
    }
}

/// A command to the logger.
#[derive(Debug)]
pub enum LogCmd {
    /// A stamped line for the daily event log.
    Event(String),
    /// A raw sentence for the daily NMEA record.
    Nmea(String),
    SetEventLog(bool),
    SetNmeaLog(bool),
    /// Arm the capture for one connection. Its file opens with the first data.
    CaptureBegin { target: CaptureTarget, mount: String },
    /// Raw correction bytes, exactly as received.
    CaptureData(Vec<u8>),
    /// The connection is over: close the capture and report its byte count.
    CaptureEnd,
    /// Flush and stop.
    Shutdown,
}

/// A local date and time of day.
#[derive(Debug, Clone, Copy, PartialEq, Eq, Structural)]
pub struct LocalStamp {
    pub year: i32,
    pub month: u8,
    pub day: u8,
    pub hour: u8,
    pub min: u8,
    pub sec: u8,
}

// ---------------------------------------------------------------------
// File names
// ---------------------------------------------------------------------

/// The year in at least four places, the sign included.
pub open spec fn year_text(y: int) -> Seq<char> {
    if y < 0 {
        "-"@ + dec_pad((-y) as nat, 3)
    } else {
        dec_pad(y as nat, 4)
    }
}

/// YYYYMMDD.
pub open spec fn date_text(t: LocalStamp) -> Seq<char> {
    year_text(t.year as int) + dec_pad(t.month as nat, 2) + dec_pad(t.day as nat, 2)
}

/// HHMMSS.
pub open spec fn clock_text(t: LocalStamp) -> Seq<char> {
    dec_pad(t.hour as nat, 2) + dec_pad(t.min as nat, 2) + dec_pad(t.sec as nat, 2)
}

fn push_date(out: &mut String, t: &LocalStamp)
    ensures
        final(out)@ == old(out)@ + date_text(*t),
{
    let ghost start = out@;
    if t.year < 0 {
        out.append("-");
        push_dec_pad(out, (-(t.year as i64)) as u64, 3);
        assert(out@ =~= start + year_text(t.year as int));
    } else {
        push_dec_pad(out, t.year as u64, 4);
    }
    push_dec_pad(out, t.month as u64, 2);
    push_dec_pad(out, t.day as u64, 2);
    assert(out@ =~= start + date_text(*t));
}

fn push_clock(out: &mut String, t: &LocalStamp)
    ensures
        final(out)@ == old(out)@ + clock_text(*t),
{
    let ghost start = out@;
    push_dec_pad(out, t.hour as u64, 2);
    push_dec_pad(out, t.min as u64, 2);
    push_dec_pad(out, t.sec as u64, 2);
    assert(out@ =~= start + clock_text(*t));
}

/// The daily file's name: YYYYMMDD.txt.
pub open spec fn daily_name(t: LocalStamp) -> Seq<char> {
    date_text(t) + ".txt"@
}

/// The daily file's name for a local date.
pub fn daily_filename(t: &LocalStamp) -> (r: String)
    ensures
        r@ == daily_name(*t),
{
    let mut r = String::new();
    push_date(&mut r, t);
    assert(r@ =~= date_text(*t));
    r.append(".txt");
    r
}

/// The crash report's name: crash-YYYYMMDD-HHMMSS.txt.
pub fn crash_filename(t: &LocalStamp) -> (r: String)
    ensures
        r@ == "crash-"@ + date_text(*t) + "-"@ + clock_text(*t) + ".txt"@,
{
    let mut r = "crash-".to_owned();
    push_date(&mut r, t);
    r.append("-");
    push_clock(&mut r, t);
    r.append(".txt");
    r
}

/// Whether a character may stand in a file name as it is.
pub open spec fn file_safe(c: char) -> bool {
    'a' <= c <= 'z' || 'A' <= c <= 'Z' || '0' <= c <= '9' || c == '.' || c == '-'
}

/// A mountpoint with every other character folded to an underscore.
pub open spec fn safe_mount(mount: Seq<char>) -> Seq<char> {
    Seq::new(
        mount.len(),
        |i: int|
            if file_safe(mount[i]) {
                mount[i]
            } else {
                '_'
            },
    )
}

/// The capture file's name: YYYYMMDD_HHMMSS_mount.rtcm.
pub open spec fn capture_name(t: LocalStamp, mount: Seq<char>) -> Seq<char> {
    date_text(t) + "_"@ + clock_text(t) + "_"@ + (if mount.len() == 0 {
        "stream"@
    } else {
        safe_mount(mount)
    }) + ".rtcm"@
}

fn fold_mount(mount: &str) -> (r: String)
    ensures
        r@ == safe_mount(mount@),
{
    let mut r = String::new();
    let n: usize = mount.unicode_len();
    let mut i: usize = 0;
    while i < n
        invariant
            n == mount@.len(),
            i <= n,
            r@ == safe_mount(mount@).take(i as int),
        decreases n - i,
    {
        let c = mount.get_char(i);
        let keep = ('a' <= c && c <= 'z') || ('A' <= c && c <= 'Z') || ('0' <= c && c <= '9') || c
            == '.' || c == '-';
        r.push(
            if keep {
                c
            } else {
                '_'
            },
        );
        assert(safe_mount(mount@).take(i + 1) =~= safe_mount(mount@).take(i as int).push(
            safe_mount(mount@)[i as int],
        ));
        i += 1;
    }
    assert(safe_mount(mount@).take(n as int) =~= safe_mount(mount@));
    r
}

/// The capture file's name for a connection, stamped with the arrival of its
/// first bytes. Casters choose mountpoints, so characters that a path could
/// trip over are folded; a stream without a mountpoint is called "stream".
pub fn capture_filename(t: &LocalStamp, mount: &str) -> (r: String)
    ensures
        r@ == capture_name(*t, mount@),
{
    let mut r = String::new();
    push_date(&mut r, t);
    assert(r@ =~= date_text(*t));
    r.append("_");
    push_clock(&mut r, t);
    r.append("_");
    if mount.is_empty() {
        r.append("stream");
    } else {
        let folded = fold_mount(mount);
        r.append(folded.as_str());
    }
    r.append(".rtcm");
    r
}

/// No capture name holds a path separator.
pub proof fn law_capture_stays_in_its_directory(t: LocalStamp, mount: Seq<char>)
    ensures
        forall|i: int|
            0 <= i < capture_name(t, mount).len() ==> (#[trigger] capture_name(t, mount)[i]) != '/'
                && capture_name(t, mount)[i] != '\\',
{
    reveal_strlit("-");
    reveal_strlit("_");
    reveal_strlit("stream");
    reveal_strlit(".rtcm");
    lemma_date_is_plain(t);
    lemma_pad_is_plain(t.hour as nat, 2);
    lemma_pad_is_plain(t.min as nat, 2);
    lemma_pad_is_plain(t.sec as nat, 2);
}

spec fn plain(s: Seq<char>) -> bool {
    forall|i: int| 0 <= i < s.len() ==> (#[trigger] s[i]) != '/' && s[i] != '\\'
}

proof fn lemma_date_is_plain(t: LocalStamp)
    ensures
        plain(date_text(t)),
{
    reveal_strlit("-");
    if t.year < 0 {
        lemma_pad_is_plain((-t.year) as nat, 3);
    } else {
        lemma_pad_is_plain(t.year as nat, 4);
    }
    lemma_pad_is_plain(t.month as nat, 2);
    lemma_pad_is_plain(t.day as nat, 2);
}

proof fn lemma_pad_is_plain(n: nat, w: nat)
    ensures
        plain(dec_pad(n, w)),
{
    lemma_dec_is_plain(n);
}

proof fn lemma_dec_is_plain(n: nat)
    ensures
        plain(dec(n)),
    decreases n,
{
    if n >= 10 {
        lemma_dec_is_plain(n / 10);
    }
}

// ---------------------------------------------------------------------
// Days
// ---------------------------------------------------------------------

/// Whether a year of the Gregorian calendar has a 29th of February.
pub open spec fn leap(y: int) -> bool {
    y % 4 == 0 && (y % 100 != 0 || y % 400 == 0)
}

/// Days of a month.
pub open spec fn month_days(y: int, m: int) -> int {
    if m == 2 {
        if leap(y) {
            29
        } else {
            28
        }
    } else if m == 4 || m == 6 || m == 9 || m == 11 {
        30
    } else {
        31
    }
}

/// Whether these numbers are a date.
pub open spec fn is_date(y: int, m: int, d: int) -> bool {
    1 <= m <= 12 && 1 <= d <= month_days(y, m)
}

/// The day after a date.
pub open spec fn next_date(y: int, m: int, d: int) -> (int, int, int) {
    if d < month_days(y, m) {
        (y, m, d + 1)
    } else if m < 12 {
        (y, m + 1, 1)
    } else {
        (y + 1, 1, 1)
    }
}

/// Days from 1970-01-01 to a date, counted in years that start in March.
pub open spec fn civil_days(year: int, month: int, day: int) -> int {
    let y = if month <= 2 {
        year - 1
    } else {
        year
    };
    let mp = if month > 2 {
        month - 3
    } else {
        month + 9
    };
    365 * y + y / 4 - y / 100 + y / 400 + (153 * mp + 2) / 5 + day - 1 - 719_468
}

/// The day count is the distance from 1970-01-01: it is 0 there, and each
/// date's is one more than that of the date before it.
#[verifier::spinoff_prover]
pub proof fn law_days_count_every_date(y: int, m: int, d: int)
    requires
        is_date(y, m, d),
    ensures
        civil_days(1970, 1, 1) == 0,
        ({
            let n = next_date(y, m, d);
            is_date(n.0, n.1, n.2) && civil_days(n.0, n.1, n.2) == civil_days(y, m, d) + 1
        }),
{
    if m == 2 {
        let p = y - 1;
        assert(y / 4 - p / 4 == if y % 4 == 0 {
            1int
        } else {
            0
        });
        assert(y / 100 - p / 100 == if y % 100 == 0 {
            1int
        } else {
            0
        });
        assert(y / 400 - p / 400 == if y % 400 == 0 {
            1int
        } else {
            0
        });
        assert(y % 100 == 0 ==> y % 4 == 0);
        assert(y % 400 == 0 ==> y % 100 == 0);
    } else if m == 1 {
        assert(civil_days(y, 2, 1) == civil_days(y, 1, 31) + 1);
    } else if m <= 6 {
        assert(m == 3 || m == 4 || m == 5 || m == 6);
    } else {
        assert(m == 7 || m == 8 || m == 9 || m == 10 || m == 11 || m == 12);
    }
}

/// Dates a week apart differ by 7, wherever the week falls.
pub proof fn law_a_week_is_seven_days(y: int, m: int, d: int)
    requires
        is_date(y, m, d),
    ensures
        ({
            let w = after_days(y, m, d, 7);
            civil_days(w.0, w.1, w.2) == civil_days(y, m, d) + 7
        }),
{
    lemma_after_days(y, m, d, 7);
}

/// The date `n` days after a date.
pub open spec fn after_days(y: int, m: int, d: int, n: nat) -> (int, int, int)
    decreases n,
{
    if n == 0 {
        (y, m, d)
    } else {
        let p = after_days(y, m, d, (n - 1) as nat);
        next_date(p.0, p.1, p.2)
    }
}

/// The date `n` days on is a date, with a day count that is `n` more.
pub proof fn lemma_after_days(y: int, m: int, d: int, n: nat)
    requires
        is_date(y, m, d),
    ensures
        ({
            let p = after_days(y, m, d, n);
            is_date(p.0, p.1, p.2) && civil_days(p.0, p.1, p.2) == civil_days(y, m, d) + n
        }),
    decreases n,
{
    if n > 0 {
        lemma_after_days(y, m, d, (n - 1) as nat);
        let p = after_days(y, m, d, (n - 1) as nat);
        law_days_count_every_date(p.0, p.1, p.2);
    }
}

/// Day counts stay far from the limits of 64 bits.
pub proof fn lemma_days_bounded(year: i32, month: u8, day: u8)
    ensures
        -0x100_0000_0000 <= civil_days(year as int, month as int, day as int) <= 0x100_0000_0000,
{
}

fn floor_div(a: i64, b: i64) -> (r: i64)
    requires
        0 < b <= 400,
        -0x1_0000_0000 <= a <= 0x1_0000_0000,
    ensures
        r == a as int / b as int,
{
    if a >= 0 {
        a / b
    } else {
        let q: i64 = (-a - 1) / b;
        proof {
            let m = (-a - 1) as int;
            let n = b as int;
            vstd::arithmetic::div_mod::lemma_fundamental_div_mod(m, n);
            assert(a == n * (-(m / n) - 1) + (n - 1 - m % n)) by (nonlinear_arith)
                requires
                    -a - 1 == n * (m / n) + m % n,
            ;
            vstd::arithmetic::div_mod::lemma_fundamental_div_mod_converse(
                a as int,
                n,
                -(m / n) - 1,
                n - 1 - m % n,
            );
        }
        -q - 1
    }
}

/// Days since 1970-01-01 for a date.
pub fn days_from_civil(year: i32, month: u8, day: u8) -> (r: i64)
    ensures
        r == civil_days(year as int, month as int, day as int),
{
    let y: i64 = if month <= 2 {
        year as i64 - 1
    } else {
        year as i64
    };
    let mp: i64 = if month > 2 {
        month as i64 - 3
    } else {
        month as i64 + 9
    };
    let leaps: i64 = floor_div(y, 4) - floor_div(y, 100) + floor_div(y, 400);
    365 * y + leaps + (153 * mp + 2) / 5 + day as i64 - 1 - 719_468
}

// ---------------------------------------------------------------------
// Daily files
// ---------------------------------------------------------------------

/// One file per day. It opens with the first line, so that a sink that is
/// off leaves no file and no directory behind.
#[derive(Debug)]
pub struct DailySink {
    pub dir: String,
    /// The system's path separator.
    pub separator: char,
    pub enabled: bool,
    /// The name of the open file.
    pub current: Option<String>,
    /// Whether the open file has unflushed lines.
    pub dirty: bool,
    /// Whether an open failure was already reported.
    pub failed: bool,
}

/// What to do with a line.
#[derive(Debug)]
pub enum SinkStep {
    /// The sink is off.
    Discard,
    /// Append it to the open file.
    Append,
    /// Open this file for appending, after flushing and closing the one that
    /// is open, if any.
    Open { name: String, path: String, flush: bool, rolled: bool },
}

/// Something to report.
#[derive(Debug)]
pub enum SinkEvent {
    Quiet,
    RolledTo(String),
    Failed(String),
}

/// What a [`DailySink`] holds.
pub struct DailyModel {
    pub dir: Seq<char>,
    pub separator: char,
    pub enabled: bool,
    pub current: Option<Seq<char>>,
    pub dirty: bool,
    pub failed: bool,
}

impl View for DailySink {
    type V = DailyModel;

    open spec fn view(&self) -> DailyModel {
        DailyModel {
            dir: self.dir@,
            separator: self.separator,
            enabled: self.enabled,
            current: match self.current {
                Some(name) => Some(name@),
                None => None,
            },
            dirty: self.dirty,
            failed: self.failed,
        }
    }
}

impl DailySink {
    pub fn new(dir: String, separator: char, enabled: bool) -> (r: DailySink)
        ensures
            r == (DailySink {
                dir,
                separator,
                enabled,
                current: None,
                dirty: false,
                failed: false,
            }),
    {
        DailySink { dir, separator, enabled, current: None, dirty: false, failed: false }
    }

    /// Whether the open file belongs to this date.
    pub open spec fn is_current(self, t: LocalStamp) -> bool {
        self.current matches Some(c) && c@ == daily_name(t)
    }

    /// Turn the sink on or off. Off closes the open file; the result says
    /// whether it has lines to flush first.
    pub fn set_enabled(&mut self, enabled: bool) -> (r: bool)
        ensures
            *final(self) == (DailySink {
                enabled,
                current: if enabled {
                    old(self).current
                } else {
                    None
                },
                dirty: enabled && old(self).dirty,
                failed: false,
                ..*old(self)
            }),
            r == (!enabled && old(self).dirty && old(self).current is Some),
    {
        let mut flush = false;
        self.enabled = enabled;
        if !enabled {
            flush = self.flush();
            self.current = None;
        }
        self.failed = false;
        flush
    }

    /// A line arrives. Only a line dated otherwise than the open file opens
    /// one; with a file open before it, that is a rollover.
    pub fn write_line(&mut self, now: &LocalStamp) -> (r: SinkStep)
        ensures
            match r {
                SinkStep::Discard => !old(self).enabled && *final(self) == *old(self),
                SinkStep::Append => old(self).enabled && old(self).is_current(*now) && *final(self)
                    == *old(self),
                SinkStep::Open { name, path, flush, rolled } => {
                    &&& old(self).enabled && !old(self).is_current(*now)
                    &&& name@ == daily_name(*now)
                    &&& path@ == joined_path(
                        old(self).dir@,
                        old(self).separator,
                        daily_name(*now),
                    )
                    &&& flush == (old(self).dirty && old(self).current is Some)
                    &&& rolled == (old(self).current is Some)
                    &&& *final(self) == (DailySink { current: None, dirty: false, ..*old(self) })
                },
            },
    {
        if !self.enabled {
            return SinkStep::Discard;
        }
        let name = daily_filename(now);
        let same = match &self.current {
            Some(cur) => same_text(cur.as_str(), name.as_str()),
            None => false,
        };
        if same {
            return SinkStep::Append;
        }
        let rolled = self.current.is_some();
        let flush = self.flush();
        self.current = None;
        let path = join(self.dir.as_str(), self.separator, name.as_str());
        SinkStep::Open { name, path, flush, rolled }
    }

    /// The file that [`DailySink::write_line`] asked for is open; the line can
    /// be appended.
    pub fn opened(&mut self, name: String, rolled: bool) -> (r: SinkEvent)
        ensures
            final(self).current matches Some(c) && c@ == name@,
            *final(self) == (DailySink {
                current: final(self).current,
                failed: false,
                ..*old(self)
            }),
            match r {
                SinkEvent::RolledTo(n) => rolled && n@ == name@,
                SinkEvent::Quiet => !rolled,
                SinkEvent::Failed(_) => false,
            },
    {
        self.current = Some(name.clone());
        self.failed = false;
        if rolled {
            SinkEvent::RolledTo(name)
        } else {
            SinkEvent::Quiet
        }
    }

    /// The file could not be opened; the line is lost. Only the first failure
    /// in a row is reported.
    pub fn open_failed(&mut self, path: &str, reason: &str) -> (r: SinkEvent)
        ensures
            *final(self) == (DailySink { failed: true, ..*old(self) }),
            match r {
                SinkEvent::Failed(m) => !old(self).failed && m@ == "Could not open "@ + path@
                    + ": "@ + reason@,
                SinkEvent::Quiet => old(self).failed,
                SinkEvent::RolledTo(_) => false,
            },
    {
        if self.failed {
            return SinkEvent::Quiet;
        }
        self.failed = true;
        let mut m = "Could not open ".to_owned();
        m.append(path);
        m.append(": ");
        m.append(reason);
        SinkEvent::Failed(m)
    }

    /// A line was appended to the open file.
    pub fn appended(&mut self)
        ensures
            *final(self) == (DailySink { dirty: true, ..*old(self) }),
    {
        self.dirty = true;
    }

    /// Whether the open file has lines to flush; they count as flushed now.
    pub fn flush(&mut self) -> (r: bool)
        ensures
            *final(self) == (DailySink { dirty: false, ..*old(self) }),
            r == (old(self).dirty && old(self).current is Some),
    {
        let due = self.dirty && self.current.is_some();
        self.dirty = false;
        due
    }
}

/// A line as it stands in a file.
pub fn record(line: &str) -> (r: String)
    ensures
        r@ == line@ + "\r\n"@,
{
    let mut r = line.to_owned();
    r.append("\r\n");
    r
}

/// The notice that a sink event gives rise to, and whether it also goes to
/// the event file: a rollover does, so that the new file starts with it.
pub fn sink_notice(event: SinkEvent) -> (r: Option<(String, bool)>)
    ensures
        match event {
            SinkEvent::Quiet => r is None,
            SinkEvent::RolledTo(name) => r matches Some((t, file)) && file && t@
                == "Log rolled over to "@ + name@,
            SinkEvent::Failed(m) => r matches Some((t, file)) && !file && t@ == m@,
        },
{
    match event {
        SinkEvent::Quiet => None,
        SinkEvent::RolledTo(name) => {
            let mut t = "Log rolled over to ".to_owned();
            t.append(name.as_str());
            Some((t, true))
        },
        SinkEvent::Failed(m) => Some((m, false)),
    }
}

// ---------------------------------------------------------------------
// Capture
// ---------------------------------------------------------------------

/// The raw-corrections capture. Armed per connection; the file opens with the
/// first data, so that an idle connection leaves nothing behind.
#[derive(Debug)]
pub struct CaptureSink {
    /// The system's path separator.
    pub separator: char,
    /// Where to capture, and the mountpoint, while a connection is on.
    pub armed: Option<(CaptureTarget, String)>,
    /// The open file and the bytes written to it.
    pub open: Option<(String, u64)>,
    pub dirty: bool,
    /// Whether opening failed for this connection.
    pub failed: bool,
}

/// What a [`CaptureSink`] holds.
pub struct CaptureModel {
    pub separator: char,
    pub armed: Option<(TargetView, Seq<char>)>,
    pub open: Option<(Seq<char>, u64)>,
    pub dirty: bool,
    pub failed: bool,
}

impl View for CaptureSink {
    type V = CaptureModel;

    open spec fn view(&self) -> CaptureModel {
        CaptureModel {
            separator: self.separator,
            armed: match self.armed {
                Some((target, mount)) => Some((target@, mount@)),
                None => None,
            },
            open: match self.open {
                Some((path, count)) => Some((path@, count)),
                None => None,
            },
            dirty: self.dirty,
            failed: self.failed,
        }
    }
}

/// What to do with captured bytes.
#[derive(Debug)]
pub enum CaptureStep {
    /// Not armed, or the file could not be opened.
    Discard,
    /// Append them to the open file.
    Append,
    /// Make the directory of this file, if it has one, and create it.
    Create(String),
}

/// Where a capture goes.
pub open spec fn capture_path(
    target: TargetView,
    separator: char,
    mount: Seq<char>,
    now: LocalStamp,
) -> Seq<char> {
    match target {
        TargetView::File(p) => p,
        TargetView::Dir(dir) => joined_path(dir, separator, capture_name(now, mount)),
    }
}

/// The receipt for a closed capture.
pub open spec fn receipt(path: Seq<char>, count: u64) -> Seq<char> {
    "Correction capture closed: "@ + path + " ("@ + dec(count as nat) + " bytes)"@
}

impl CaptureSink {
    pub fn new(separator: char) -> (r: CaptureSink)
        ensures
            r == (CaptureSink {
                separator,
                armed: None,
                open: None,
                dirty: false,
                failed: false,
            }),
    {
        CaptureSink { separator, armed: None, open: None, dirty: false, failed: false }
    }

    /// A connection starts. A capture that is still open is closed first, and
    /// its receipt returned.
    pub fn begin(&mut self, target: CaptureTarget, mount: String) -> (r: Option<String>)
        ensures
            *final(self) == (CaptureSink {
                armed: Some((target, mount)),
                open: None,
                dirty: false,
                failed: false,
                ..*old(self)
            }),
            match old(self).open {
                Some((path, count)) => r matches Some(t) && t@ == receipt(path@, count),
                None => r is None,
            },
    {
        let leftover = self.end();
        self.armed = Some((target, mount));
        self.failed = false;
        leftover
    }

    /// Bytes arrive.
    pub fn data(&self, now: &LocalStamp) -> (r: CaptureStep)
        ensures
            match r {
                CaptureStep::Append => self.open is Some,
                CaptureStep::Discard => self.open is None && (self.armed is None || self.failed),
                CaptureStep::Create(path) => self.open is None && !self.failed && (
                self.armed matches Some((target, mount)) && path@ == capture_path(
                    target@,
                    self.separator,
                    mount@,
                    *now,
                )),
            },
    {
        if self.open.is_some() {
            return CaptureStep::Append;
        }
        match &self.armed {
            None => CaptureStep::Discard,
            Some((target, mount)) => {
                if self.failed {
                    return CaptureStep::Discard;
                }
                match target {
                    CaptureTarget::File(p) => CaptureStep::Create(p.clone()),
                    CaptureTarget::Dir(dir) => {
                        let name = capture_filename(now, mount.as_str());
                        CaptureStep::Create(join(dir.as_str(), self.separator, name.as_str()))
                    },
                }
            },
        }
    }

    /// The file is open; the bytes can be appended. Returns the notice.
    pub fn opened(&mut self, path: String) -> (r: String)
        ensures
            final(self).open matches Some((p, n)) && p@ == path@ && n == 0,
            *final(self) == (CaptureSink { open: final(self).open, ..*old(self) }),
            r@ == "Capturing corrections to "@ + path@,
    {
        let mut t = "Capturing corrections to ".to_owned();
        t.append(path.as_str());
        self.open = Some((path, 0));
        t
    }

    /// The file could not be created; nothing more is tried for this
    /// connection. Returns the notice.
    pub fn open_failed(&mut self, path: &str, reason: &str) -> (r: String)
        ensures
            *final(self) == (CaptureSink { failed: true, ..*old(self) }),
            r@ == "Could not open capture file "@ + path@ + ": "@ + reason@,
    {
        self.failed = true;
        let mut t = "Could not open capture file ".to_owned();
        t.append(path);
        t.append(": ");
        t.append(reason);
        t
    }

    /// Whether the byte count can take `n` more.
    pub open spec fn has_room(self, n: nat) -> bool {
        self.open matches Some((_, count)) ==> count + n <= u64::MAX
    }

    /// The sink once `n` bytes were appended to the open file.
    pub open spec fn with_bytes(self, n: nat) -> CaptureSink {
        match self.open {
            Some((path, count)) => CaptureSink {
                open: Some((path, (count + n) as u64)),
                dirty: true,
                ..self
            },
            None => self,
        }
    }

    /// The sink once blocks of these sizes were appended, in order.
    pub open spec fn with_blocks(self, sizes: Seq<nat>) -> CaptureSink
        decreases sizes.len(),
    {
        if sizes.len() == 0 {
            self
        } else {
            self.with_blocks(sizes.drop_last()).with_bytes(sizes.last())
        }
    }

    /// `n` bytes were appended to the open file.
    pub fn appended(&mut self, n: usize)
        requires
            old(self).has_room(n as nat),
        ensures
            *final(self) == old(self).with_bytes(n as nat),
    {
        match self.open.take() {
            Some((path, count)) => {
                self.open = Some((path, count + n as u64));
                self.dirty = true;
            },
            None => {},
        }
    }

    /// The connection is over: disarm, and close the file, if one is open,
    /// with a receipt.
    pub fn end(&mut self) -> (r: Option<String>)
        ensures
            *final(self) == (CaptureSink { armed: None, open: None, dirty: false, ..*old(self) }),
            match old(self).open {
                Some((path, count)) => r matches Some(t) && t@ == receipt(path@, count),
                None => r is None,
            },
    {
        self.armed = None;
        self.dirty = false;
        match self.open.take() {
            None => None,
            Some((path, count)) => {
                let mut t = "Correction capture closed: ".to_owned();
                t.append(path.as_str());
                t.append(" (");
                push_dec(&mut t, count);
                t.append(" bytes)");
                Some(t)
            },
        }
    }

    /// Whether the open file has bytes to flush; they count as flushed now.
    pub fn flush(&mut self) -> (r: bool)
        ensures
            *final(self) == (CaptureSink { dirty: false, ..*old(self) }),
            r == (old(self).dirty && old(self).open is Some),
    {
        let due = self.dirty && self.open.is_some();
        self.dirty = false;
        due
    }
}

/// Bytes over all blocks.
pub open spec fn byte_total(sizes: Seq<nat>) -> nat
    decreases sizes.len(),
{
    if sizes.len() == 0 {
        0
    } else {
        byte_total(sizes.drop_last()) + sizes.last()
    }
}

/// A capture's receipt counts every byte that was captured.
pub proof fn law_receipt_counts_every_byte(c: CaptureSink, path: String, sizes: Seq<nat>)
    requires
        c.open == Some((path, 0u64)),
        byte_total(sizes) <= u64::MAX,
    ensures
        c.with_blocks(sizes).open == Some((path, byte_total(sizes) as u64)),
    decreases sizes.len(),
{
    if sizes.len() > 0 {
        law_receipt_counts_every_byte(c, path, sizes.drop_last());
    }
}

// ---------------------------------------------------------------------
// Flush cadence
// ---------------------------------------------------------------------

/// Files are flushed on a deadline of the clock, so that a steady stream of
/// lines cannot put it off.
#[derive(Debug)]
pub struct FlushClock {
    /// Clock reading of the next flush.
    pub next: u64,
}

impl FlushClock {
    /// How long the logger may wait for a command.
    pub open spec fn pause(self, now: u64) -> int {
        if now < self.next {
            self.next - now
        } else {
            0
        }
    }

    pub fn new(now: u64) -> (r: FlushClock)
        requires
            now <= u64::MAX - NANOS_PER_SEC,
        ensures
            r.next == now + NANOS_PER_SEC,
    {
        FlushClock { next: now + NANOS_PER_SEC }
    }

    /// How long the logger may wait for a command.
    pub fn wait(&self, now: u64) -> (r: u64)
        ensures
            r == self.pause(now),
    {
        if now < self.next {
            self.next - now
        } else {
            0
        }
    }

    /// Whether it is time to flush; the next flush is then a second away.
    pub fn due(&mut self, now: u64) -> (r: bool)
        requires
            now <= u64::MAX - NANOS_PER_SEC,
        ensures
            r == (now >= old(self).next),
            final(self).next == if r {
                now + NANOS_PER_SEC
            } else {
                old(self).next as int
            },
    {
        if now >= self.next {
            self.next = now + NANOS_PER_SEC;
            true
        } else {
            false
        }
    }
}

/// A logger that pauses no longer than told is back by the time of the next
/// flush, and that time is at most a second away, however many lines arrive.
pub proof fn law_flush_is_never_starved(c: FlushClock, now: u64)
    requires
        c.next <= now + NANOS_PER_SEC,
    ensures
        now + c.pause(now) >= c.next,
        c.pause(now) <= NANOS_PER_SEC,
{
}

} // verus!
