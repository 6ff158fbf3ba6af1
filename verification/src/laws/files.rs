//! Laws of the files: what they are called, what goes into which, and when.
use vstd::prelude::*;

use crate::bus::stamp;
use crate::laws::words::{lemma_pad_reads, numeral, reads};
use crate::laws::{lemma_mentions, mentions};
use crate::logger::{FileAct, LogEvent, LogFile, LogNext, LogRun};
use crate::logging::{
    capture_filename, crash_filename, daily_filename, days_from_civil, next_date, record,
    sink_notice, CaptureSink, CaptureStep, CaptureTarget, DailySink, FlushClock, LocalStamp, LogCmd,
    SinkEvent, SinkStep,
};
use crate::paths::{
    captures_dir, crash_marker, join, logs_dir, nmea_dir, settings_file, settings_preserved,
    settings_temporary,
};
use crate::text::{dec, dec_pad};
use crate::{crash_report, take_crash_notice, user_agent, write_crash_report, ReportStep};

verus! {

/// Two digits for a number below 100, four for one below 10000.
proof fn lemma_width(n: nat)
    ensures
        n < 100 ==> dec_pad(n, 2).len() == 2,
        n < 10_000 ==> dec_pad(n, 4).len() == 4,
{
    reveal_with_fuel(dec, 5);
}

/// Whether a stamp is one that a clock of this era shows.
pub open spec fn shown(t: LocalStamp) -> bool {
    0 <= t.year < 10_000 && t.month < 100 && t.day < 100 && t.hour < 100 && t.min < 100 && t.sec
        < 100
}

/// Whether a text begins with the date, year first, in eight digits.
pub open spec fn begins_with_date(s: Seq<char>, t: LocalStamp) -> bool {
    &&& s.len() >= 8
    &&& numeral(s.take(4)) && reads(s.take(4)) == t.year
    &&& numeral(s.subrange(4, 6)) && reads(s.subrange(4, 6)) == t.month
    &&& numeral(s.subrange(6, 8)) && reads(s.subrange(6, 8)) == t.day
}

/// Whether a text begins with the time of day, hour first, in six digits.
pub open spec fn begins_with_time(s: Seq<char>, t: LocalStamp) -> bool {
    &&& s.len() >= 6
    &&& numeral(s.take(2)) && reads(s.take(2)) == t.hour
    &&& numeral(s.subrange(2, 4)) && reads(s.subrange(2, 4)) == t.min
    &&& numeral(s.subrange(4, 6)) && reads(s.subrange(4, 6)) == t.sec
}

proof fn lemma_date(t: LocalStamp, more: Seq<char>)
    requires
        shown(t),
    ensures
        begins_with_date(crate::logging::date_text(t) + more, t),
        crate::logging::date_text(t).len() == 8,
        begins_with_time(crate::logging::clock_text(t) + more, t),
        crate::logging::clock_text(t).len() == 6,
{
    let (y, m, d) = (
        dec_pad(t.year as nat, 4),
        dec_pad(t.month as nat, 2),
        dec_pad(t.day as nat, 2),
    );
    let (h, i, s) = (
        dec_pad(t.hour as nat, 2),
        dec_pad(t.min as nat, 2),
        dec_pad(t.sec as nat, 2),
    );
    lemma_width(t.year as nat);
    lemma_width(t.month as nat);
    lemma_width(t.day as nat);
    lemma_width(t.hour as nat);
    lemma_width(t.min as nat);
    lemma_width(t.sec as nat);
    lemma_pad_reads(t.year as nat, 4);
    lemma_pad_reads(t.month as nat, 2);
    lemma_pad_reads(t.day as nat, 2);
    lemma_pad_reads(t.hour as nat, 2);
    lemma_pad_reads(t.min as nat, 2);
    lemma_pad_reads(t.sec as nat, 2);
    let a = crate::logging::date_text(t) + more;
    assert(a.take(4) =~= y);
    assert(a.subrange(4, 6) =~= m);
    assert(a.subrange(6, 8) =~= d);
    let b = crate::logging::clock_text(t) + more;
    assert(b.take(2) =~= h);
    assert(b.subrange(2, 4) =~= i);
    assert(b.subrange(4, 6) =~= s);
}

/// A daily file is called by its date, so a file holds the lines of one day.
pub proof fn law_daily_files_are_dated(t: &LocalStamp, r: String)
    requires
        call_ensures(daily_filename, (t,), r),
        shown(*t),
    ensures
        begins_with_date(r@, *t),
        r@.skip(8) == ".txt"@,
{
    lemma_date(*t, ".txt"@);
    assert(r@.skip(8) =~= ".txt"@);
}

/// A crash report is called by the date and the time of the crash.
pub proof fn law_crash_reports_are_dated(t: &LocalStamp, r: String)
    requires
        call_ensures(crash_filename, (t,), r),
        shown(*t),
    ensures
        r@.take(6) == "crash-"@,
        begins_with_date(r@.skip(6), *t),
        begins_with_time(r@.skip(15), *t),
        r@.skip(21) == ".txt"@,
{
    reveal_strlit("crash-");
    reveal_strlit("-");
    let (d, c) = (crate::logging::date_text(*t), crate::logging::clock_text(*t));
    lemma_date(*t, "-"@ + c + ".txt"@);
    lemma_date(*t, ".txt"@);
    assert(r@.take(6) =~= "crash-"@);
    assert(r@.skip(6) =~= d + ("-"@ + c + ".txt"@));
    assert(r@.skip(15) =~= c + ".txt"@);
    assert(r@.skip(21) =~= ".txt"@);
}

/// A capture is called by the date and the time of its start and by the
/// stream, in which what a file name cannot hold is an underscore.
pub proof fn law_captures_are_named_for_the_stream(t: &LocalStamp, mount: &str, r: String)
    requires
        call_ensures(capture_filename, (t, mount), r),
        shown(*t),
        mount@.len() > 0,
    ensures
        begins_with_date(r@, *t),
        r@[8] == '_',
        begins_with_time(r@.skip(9), *t),
        r@[15] == '_',
        r@.len() == 16 + mount@.len() + 5,
        r@.skip(16 + mount@.len() as int) == ".rtcm"@,
        forall|i: int|
            0 <= i < mount@.len() ==> {
                let c = #[trigger] mount@[i];
                let kept = 'a' <= c <= 'z' || 'A' <= c <= 'Z' || '0' <= c <= '9' || c == '.' || c
                    == '-';
                r@[16 + i] == if kept {
                    c
                } else {
                    '_'
                }
            },
{
    reveal_strlit("_");
    reveal_strlit(".rtcm");
    let (d, c) = (crate::logging::date_text(*t), crate::logging::clock_text(*t));
    let m = crate::logging::safe_mount(mount@);
    lemma_date(*t, "_"@ + c + "_"@ + m + ".rtcm"@);
    lemma_date(*t, "_"@ + m + ".rtcm"@);
    assert(r@ =~= d + ("_"@ + c + "_"@ + m + ".rtcm"@));
    assert(r@.skip(9) =~= c + ("_"@ + m + ".rtcm"@));
    assert(r@.skip(16 + mount@.len() as int) =~= ".rtcm"@);
    assert forall|i: int| 0 <= i < mount@.len() implies {
        let c = #[trigger] mount@[i];
        let kept = 'a' <= c <= 'z' || 'A' <= c <= 'Z' || '0' <= c <= '9' || c == '.' || c == '-';
        r@[16 + i] == if kept {
            c
        } else {
            '_'
        }
    } by {
        assert(r@[16 + i] == m[i]);
    }
}

/// The count of days goes up by one from each date to the next, and is 0 at
/// the first of January 1970.
pub proof fn law_days_are_counted(y: i32, m: u8, d: u8, ny: i32, nm: u8, nd: u8, a: i64, b: i64)
    requires
        call_ensures(days_from_civil, (y, m, d), a),
        call_ensures(days_from_civil, (ny, nm, nd), b),
        crate::logging::is_date(y as int, m as int, d as int),
        next_date(y as int, m as int, d as int) == (ny as int, nm as int, nd as int),
    ensures
        b == a + 1,
        y == 1970 && m == 1 && d == 1 ==> a == 0,
        nd == d + 1 && nm == m && ny == y || nd == 1 && (nm == m + 1 && ny == y || m == 12 && d
            == 31 && nm == 1 && ny == y + 1),
        d < 28 ==> nd == d + 1,
        d == 28 && m == 2 ==> (nm == 2 <==> y % 4 == 0 && (y % 100 != 0 || y % 400 == 0)),
{
    crate::logging::law_days_count_every_date(y as int, m as int, d as int);
}

/// A line of a log carries the time of day before it, hour first.
pub proof fn law_lines_are_stamped(hour: u8, min: u8, sec: u8, text: &str, r: String)
    requires
        call_ensures(stamp, (hour, min, sec, text), r),
        hour < 100 && min < 100 && sec < 100,
    ensures
        r@.len() == 9 + text@.len(),
        numeral(r@.take(2)) && reads(r@.take(2)) == hour,
        r@[2] == ':',
        numeral(r@.subrange(3, 5)) && reads(r@.subrange(3, 5)) == min,
        r@[5] == ':',
        numeral(r@.subrange(6, 8)) && reads(r@.subrange(6, 8)) == sec,
        r@[8] == ' ',
        r@.skip(9) == text@,
{
    reveal_strlit(":");
    reveal_strlit(" ");
    lemma_width(hour as nat);
    lemma_width(min as nat);
    lemma_width(sec as nat);
    lemma_pad_reads(hour as nat, 2);
    lemma_pad_reads(min as nat, 2);
    lemma_pad_reads(sec as nat, 2);
    assert(r@.take(2) =~= dec_pad(hour as nat, 2));
    assert(r@.subrange(3, 5) =~= dec_pad(min as nat, 2));
    assert(r@.subrange(6, 8) =~= dec_pad(sec as nat, 2));
    assert(r@.skip(9) =~= text@);
}

/// A path is the directory and the name with one separator between them, and
/// never a second one.
pub proof fn law_paths_are_joined(base: &str, separator: char, name: &str, r: String)
    requires
        call_ensures(join, (base, separator, name), r),
    ensures
        base@.len() == 0 ==> r@ == name@,
        base@.len() > 0 && base@.last() != separator && base@.last() != '/' ==> r@ == base@
            + seq![separator] + name@,
        base@.len() > 0 && (base@.last() == separator || base@.last() == '/') ==> r@ == base@
            + name@,
{
    assert(base@.push(separator) =~= base@ + seq![separator]);
}

/// Everything lies under the one directory, each thing under its own name.
pub proof fn law_files_have_their_places(
    base: &str,
    separator: char,
    settings: String,
    temporary: String,
    preserved: String,
    logs: String,
    nmea: String,
    captures: String,
    marker: String,
)
    requires
        call_ensures(settings_file, (base, separator), settings),
        call_ensures(settings_temporary, (base, separator), temporary),
        call_ensures(settings_preserved, (base, separator), preserved),
        call_ensures(logs_dir, (base, separator), logs),
        call_ensures(nmea_dir, (base, separator), nmea),
        call_ensures(captures_dir, (base, separator), captures),
        call_ensures(crash_marker, (base, separator), marker),
    ensures
        settings@.skip(settings@.len() - 13) == "settings.toml"@,
        temporary@ == settings@ + ".tmp"@,
        preserved@ == settings@ + ".bad"@,
        logs@.skip(logs@.len() - 4) == "Logs"@,
        nmea@.skip(nmea@.len() - 4) == "NMEA"@,
        logs@.len() == nmea@.len(),
        captures@.skip(captures@.len() - 8) == "Captures"@,
        marker@.skip(marker@.len() - 17) == "crash-pending.txt"@,
        settings@.take(base@.len() as int) == base@,
        logs@.take(base@.len() as int) == base@ && nmea@.take(base@.len() as int) == base@,
        captures@.take(base@.len() as int) == base@ && marker@.take(base@.len() as int) == base@,
{
    reveal_strlit("settings.toml");
    reveal_strlit("settings.toml.tmp");
    reveal_strlit("settings.toml.bad");
    reveal_strlit(".tmp");
    reveal_strlit(".bad");
    reveal_strlit("Logs");
    reveal_strlit("NMEA");
    reveal_strlit("Captures");
    reveal_strlit("crash-pending.txt");
    assert(settings@.skip(settings@.len() - 13) =~= "settings.toml"@);
    assert(temporary@ =~= settings@ + ".tmp"@);
    assert(preserved@ =~= settings@ + ".bad"@);
    assert(logs@.skip(logs@.len() - 4) =~= "Logs"@);
    assert(nmea@.skip(nmea@.len() - 4) =~= "NMEA"@);
    assert(captures@.skip(captures@.len() - 8) =~= "Captures"@);
    assert(marker@.skip(marker@.len() - 17) =~= "crash-pending.txt"@);
    assert(settings@.take(base@.len() as int) =~= base@);
    assert(logs@.take(base@.len() as int) =~= base@);
    assert(nmea@.take(base@.len() as int) =~= base@);
    assert(captures@.take(base@.len() as int) =~= base@);
    assert(marker@.take(base@.len() as int) =~= base@);
}

/// A line goes to the file of its day: onto the one that is open, or to one
/// that is to be opened, and nowhere where the log is off.
pub proof fn law_lines_go_to_the_file_of_the_day(
    sink: &mut DailySink,
    now: &LocalStamp,
    r: SinkStep,
    today: String,
    dir: &str,
    name: &str,
    path: String,
)
    requires
        call_ensures(DailySink::write_line, (sink, now), r),
        call_ensures(daily_filename, (now,), today),
        call_ensures(join, (dir, old(sink).separator, name), path),
        dir@ == old(sink).dir@ && name@ == today@,
    ensures
        r is Discard <==> !old(sink).enabled,
        r is Append <==> old(sink).enabled && (old(sink).current matches Some(c) && c@ == today@),
        !(r is Open) ==> *final(sink) == *old(sink),
        r matches SinkStep::Open { name: n, path: p, flush, rolled } ==> {
            &&& n@ == today@ && p@ == path@
            &&& rolled <==> old(sink).current is Some
            &&& flush <==> rolled && old(sink).dirty
            &&& final(sink).current is None && !final(sink).dirty
            &&& final(sink).enabled && final(sink).failed == old(sink).failed
        },
{
}

/// A file that was opened is the current one; that one failed to open is told
/// once, until one opens or the log is switched.
pub proof fn law_open_results_are_told(
    a: &mut DailySink,
    name: String,
    rolled: bool,
    x: SinkEvent,
    b: &mut DailySink,
    path: &str,
    reason: &str,
    y: SinkEvent,
)
    requires
        call_ensures(DailySink::opened, (a, name, rolled), x),
        call_ensures(DailySink::open_failed, (b, path, reason), y),
    ensures
        final(a).current matches Some(c) && c@ == name@,
        !final(a).failed && final(a).enabled == old(a).enabled,
        x is RolledTo <==> rolled,
        x is Quiet <==> !rolled,
        x matches SinkEvent::RolledTo(n) ==> n@ == name@,
        final(b).failed && final(b).current == old(b).current,
        y is Failed <==> !old(b).failed,
        y is Quiet <==> old(b).failed,
        y matches SinkEvent::Failed(m) ==> mentions(m@, path@) && mentions(m@, reason@),
{
    if let SinkEvent::Failed(m) = y {
        let a = "Could not open "@;
        lemma_mentions(a, path@, ": "@ + reason@);
        assert(a + path@ + (": "@ + reason@) =~= m@);
        lemma_mentions(a + path@ + ": "@, reason@, Seq::empty());
        assert(a + path@ + ": "@ + reason@ + Seq::<char>::empty() =~= m@);
    }
}

/// What was written and not yet flushed is flushed, before a file is left and
/// when asked, and only once.
pub proof fn law_written_lines_are_flushed(
    a: &mut DailySink,
    b: &mut DailySink,
    due: bool,
    c: &mut DailySink,
    again: bool,
    d: &mut DailySink,
    off: bool,
)
    requires
        call_ensures(DailySink::appended, (a,), ()),
        *old(b) == *final(a),
        call_ensures(DailySink::flush, (b,), due),
        *old(c) == *final(b),
        call_ensures(DailySink::flush, (c,), again),
        *old(d) == *final(a),
        call_ensures(DailySink::set_enabled, (d, false), off),
        old(a).current is Some,
    ensures
        due && !again && off,
        !final(d).enabled && final(d).current is None,
        final(b).current == old(a).current && final(b).enabled == old(a).enabled,
{
}

/// Switching a log on keeps the file that is open and lets failures be told
/// again.
pub proof fn law_switching_on_forgets_failures(sink: &mut DailySink, r: bool)
    requires
        call_ensures(DailySink::set_enabled, (sink, true), r),
    ensures
        final(sink).enabled && !final(sink).failed && !r,
        final(sink).current == old(sink).current && final(sink).dirty == old(sink).dirty,
        final(sink).dir == old(sink).dir,
{
}

/// A record is its line and a line end; a new sink is empty and as it was
/// asked for.
pub proof fn law_records_end_their_line(
    line: &str,
    r: String,
    dir: String,
    separator: char,
    enabled: bool,
    sink: DailySink,
)
    requires
        call_ensures(record, (line,), r),
        call_ensures(DailySink::new, (dir, separator, enabled), sink),
    ensures
        r@ == line@.push('\r').push('\n'),
        sink.dir == dir && sink.separator == separator && sink.enabled == enabled,
        sink.current is None && !sink.dirty && !sink.failed,
{
    reveal_strlit("\r\n");
    assert(r@ =~= line@.push('\r').push('\n'));
}

/// A roll-over is told, in the new file too; a failure is told in the window
/// alone, since there is no file to tell it in.
pub proof fn law_notices_go_where_they_can(event: SinkEvent, r: Option<(String, bool)>)
    requires
        call_ensures(sink_notice, (event,), r),
    ensures
        r is None <==> event is Quiet,
        event matches SinkEvent::RolledTo(name) ==> (r matches Some(n) && n.1 && mentions(n.0@, name@)),
        event matches SinkEvent::Failed(m) ==> (r matches Some(n) && !n.1 && n.0@ == m@),
{
    if let SinkEvent::RolledTo(name) = event {
        lemma_mentions("Log rolled over to "@, name@, Seq::empty());
        assert("Log rolled over to "@ + name@ + Seq::<char>::empty() =~= "Log rolled over to "@
            + name@);
    }
}

/// Corrections go to the capture that is open; with none open, one is made
/// where it was asked for, unless that failed before: the named file itself,
/// or in the named directory a file of the stream's name.
pub proof fn law_capture_opens_with_the_first_bytes(
    sink: &CaptureSink,
    now: &LocalStamp,
    r: CaptureStep,
    dir: &str,
    mount: &str,
    name: String,
    leaf: &str,
    path: String,
)
    requires
        call_ensures(CaptureSink::data, (sink, now), r),
        call_ensures(capture_filename, (now, mount), name),
        call_ensures(join, (dir, sink.separator, leaf), path),
        leaf@ == name@,
    ensures
        r is Append <==> sink.open is Some,
        r is Create <==> sink.open is None && sink.armed is Some && !sink.failed,
        r matches CaptureStep::Create(p) ==> match sink.armed {
            Some((CaptureTarget::File(f), _)) => p@ == f@,
            Some((CaptureTarget::Dir(d), m)) => d@ == dir@ && m@ == mount@ ==> p@ == path@,
            None => false,
        },
{
}

/// A capture that is begun and opened counts every byte from nothing, and its
/// receipt names the file and the count; without a file there is no receipt.
pub proof fn law_captures_are_receipted(
    a: &mut CaptureSink,
    path: String,
    line: String,
    b: &mut CaptureSink,
    n: usize,
    c: &mut CaptureSink,
    receipt: Option<String>,
)
    requires
        call_ensures(CaptureSink::opened, (a, path), line),
        *old(b) == *final(a),
        call_ensures(CaptureSink::appended, (b, n), ()),
        *old(c) == *final(b),
        call_ensures(CaptureSink::end, (c,), receipt),
    ensures
        mentions(line@, path@),
        final(b).dirty && (final(b).open matches Some(o) && o.1 == n),
        receipt matches Some(t) && mentions(t@, path@) && mentions(t@, dec(n as nat)),
        final(c).open is None && final(c).armed is None && !final(c).dirty,
{
    lemma_mentions("Capturing corrections to "@, path@, Seq::empty());
    assert("Capturing corrections to "@ + path@ + Seq::<char>::empty() =~= line@);
    let t = receipt->0@;
    let h = "Correction capture closed: "@;
    let d = dec(n as nat);
    lemma_mentions(h, path@, " ("@ + d + " bytes)"@);
    assert(h + path@ + (" ("@ + d + " bytes)"@) =~= t);
    lemma_mentions(h + path@ + " ("@, d, " bytes)"@);
}

/// Bytes add up; each block adds its own.
pub proof fn law_captured_bytes_add_up(a: &mut CaptureSink, n: usize, b: &mut CaptureSink, m: usize)
    requires
        call_ensures(CaptureSink::appended, (a, n), ()),
        *old(b) == *final(a),
        call_ensures(CaptureSink::appended, (b, m), ()),
        old(a).open matches Some(o) && o.1 + n + m <= u64::MAX,
    ensures
        old(a).open matches Some(s) && (final(b).open matches Some(o) && o.0 == s.0 && o.1 == s.1
            + n + m),
        final(b).armed == old(a).armed && final(b).failed == old(a).failed,
{
}

/// A capture is armed for what was asked, ends what was open before, and may
/// try again where an earlier one failed.
pub proof fn law_captures_are_armed(
    sink: &mut CaptureSink,
    target: CaptureTarget,
    mount: String,
    r: Option<String>,
    other: &mut CaptureSink,
    path: &str,
    reason: &str,
    line: String,
)
    requires
        call_ensures(CaptureSink::begin, (sink, target, mount), r),
        call_ensures(CaptureSink::open_failed, (other, path, reason), line),
    ensures
        final(sink).armed == Some((target, mount)),
        final(sink).open is None && !final(sink).failed && !final(sink).dirty,
        r is Some <==> old(sink).open is Some,
        final(other).failed && final(other).armed == old(other).armed,
        mentions(line@, path@) && mentions(line@, reason@),
{
    let a = "Could not open capture file "@;
    lemma_mentions(a, path@, ": "@ + reason@);
    assert(a + path@ + (": "@ + reason@) =~= line@);
    lemma_mentions(a + path@ + ": "@, reason@, Seq::empty());
    assert(a + path@ + ": "@ + reason@ + Seq::<char>::empty() =~= line@);
}

/// The clock strikes once a second, and the wait ends when it strikes.
pub proof fn law_flush_clock_strikes_each_second(
    start: u64,
    c: FlushClock,
    clock: &mut FlushClock,
    now: u64,
    r: bool,
    wait: u64,
)
    requires
        call_ensures(FlushClock::new, (start,), c),
        *old(clock) == c,
        call_ensures(FlushClock::due, (clock, now), r),
        call_ensures(FlushClock::wait, (&c, now), wait),
        start <= u64::MAX - 1_000_000_000 && now <= u64::MAX - 1_000_000_000,
    ensures
        r <==> now >= start + 1_000_000_000,
        !r ==> now + wait == start + 1_000_000_000 && *final(clock) == c,
        r ==> wait == 0 && final(clock).next == now + 1_000_000_000,
{
}

/// Whether no text goes to a file.
pub open spec fn untouched(acts: Seq<FileAct>, file: LogFile) -> bool {
    forall|i: int| 0 <= i < acts.len() ==> !(#[trigger] acts[i] matches FileAct::Text(f, _) && f
        == file)
}

/// A line of the event log goes to that log's file and never to the other: at
/// once where the file of the day is open, or else that file is asked for, in
/// the log's own directory.
#[verifier::spinoff_prover]
#[verifier::rlimit(40)]
pub proof fn law_event_lines_reach_their_log(
    run: &mut LogRun,
    line: String,
    now: &LocalStamp,
    clock: u64,
    r: (Vec<FileAct>, LogNext),
    today: String,
)
    requires
        call_ensures(
            LogRun::step,
            (run, LogEvent::Command(LogCmd::Event(line)), now, clock),
            r,
        ),
        call_ensures(daily_filename, (now,), today),
        old(run)@.pending is None,
        !old(run)@.stopping,
        clock <= u64::MAX - 1_000_000_000,
    ensures
        untouched(r.0@, LogFile::Nmea),
        !old(run)@.events.enabled ==> untouched(r.0@, LogFile::Events),
        old(run)@.events.enabled && old(run)@.events.current == Some(today@) ==> (r.0@[0]
            matches FileAct::Text(f, t) && f == LogFile::Events && t@ == line@.push('\r').push(
            '\n',
        )),
        old(run)@.events.enabled && old(run)@.events.current != Some(today@) ==> (r.1
            matches LogNext::Append { file, dir, path } && file == LogFile::Events && dir@
            == old(run)@.events.dir && mentions(path@, today@)),
{
    lemma_acts(r.0@);
    reveal_strlit("\r\n");
    assert(line@ + "\r\n"@ =~= line@.push('\r').push('\n'));
    lemma_joined(old(run)@.events.dir, old(run)@.events.separator, today@);
    if r.0@.len() > 0 {
        assert(r.0@[0]@ == crate::logger::acts_of(r.0@)[0]);
    }
}

/// A line of the receiver goes to the receiver's log and never to the other, in
/// the same way.
#[verifier::spinoff_prover]
#[verifier::rlimit(40)]
pub proof fn law_receiver_lines_reach_their_log(
    run: &mut LogRun,
    line: String,
    now: &LocalStamp,
    clock: u64,
    r: (Vec<FileAct>, LogNext),
    today: String,
)
    requires
        call_ensures(
            LogRun::step,
            (run, LogEvent::Command(LogCmd::Nmea(line)), now, clock),
            r,
        ),
        call_ensures(daily_filename, (now,), today),
        old(run)@.pending is None,
        !old(run)@.stopping,
        clock <= u64::MAX - 1_000_000_000,
    ensures
        untouched(r.0@, LogFile::Events),
        !old(run)@.nmea.enabled ==> untouched(r.0@, LogFile::Nmea),
        old(run)@.nmea.enabled && old(run)@.nmea.current == Some(today@) ==> (r.0@[0]
            matches FileAct::Text(f, t) && f == LogFile::Nmea && t@ == line@.push('\r').push(
            '\n',
        )),
        old(run)@.nmea.enabled && old(run)@.nmea.current != Some(today@) ==> (r.1
            matches LogNext::Append { file, dir, path } && file == LogFile::Nmea && dir@
            == old(run)@.nmea.dir && mentions(path@, today@)),
{
    lemma_acts(r.0@);
    reveal_strlit("\r\n");
    assert(line@ + "\r\n"@ =~= line@.push('\r').push('\n'));
    lemma_joined(old(run)@.nmea.dir, old(run)@.nmea.separator, today@);
    if r.0@.len() > 0 {
        assert(r.0@[0]@ == crate::logger::acts_of(r.0@)[0]);
    }
}

proof fn lemma_acts(acts: Seq<FileAct>)
    ensures
        crate::logger::acts_of(acts).len() == acts.len(),
        forall|i: int|
            0 <= i < acts.len() ==> (#[trigger] acts[i])@ == crate::logger::acts_of(acts)[i],
{
}

proof fn lemma_joined(base: Seq<char>, separator: char, name: Seq<char>)
    ensures
        mentions(crate::paths::joined_path(base, separator, name), name),
{
    let e = Seq::<char>::empty();
    lemma_mentions(base, name, e);
    lemma_mentions(base.push(separator), name, e);
    lemma_mentions(e, name, e);
    assert(base + name + e =~= base + name);
    assert(base.push(separator) + name + e =~= base.push(separator) + name);
    assert(e + name + e =~= name);
}

/// The line that waited for its file is the first thing written to it.
#[verifier::spinoff_prover]
pub proof fn law_waiting_lines_are_written_first(
    run: &mut LogRun,
    now: &LocalStamp,
    clock: u64,
    r: (Vec<FileAct>, LogNext),
    wait: Seq<char>,
    is_nmea: bool,
)
    requires
        call_ensures(LogRun::step, (run, LogEvent::Opened(Ok(())), now, clock), r),
        old(run)@.pending matches Some(crate::logger::PendingView::Line { nmea, line, .. }) && nmea
            == is_nmea && line == wait,
        clock <= u64::MAX - 1_000_000_000,
    ensures
        r.0@.len() > 0,
        r.0@[0] matches FileAct::Text(f, t) && t@ == wait.push('\r').push('\n') && (f
            == LogFile::Nmea <==> is_nmea) && (f == LogFile::Events <==> !is_nmea),
{
    lemma_acts(r.0@);
    reveal_strlit("\r\n");
    assert(wait + "\r\n"@ =~= wait.push('\r').push('\n'));
    assert(r.0@[0]@ == crate::logger::acts_of(r.0@)[0]);
}

/// Corrections are written to the capture as they came, and to nothing else,
/// once it is open; the bytes that opened it are the first in it.
#[verifier::spinoff_prover]
pub proof fn law_capture_holds_the_corrections(
    run: &mut LogRun,
    event: LogEvent,
    now: &LocalStamp,
    clock: u64,
    r: (Vec<FileAct>, LogNext),
    bytes: Vec<u8>,
)
    requires
        call_ensures(LogRun::step, (run, event, now, clock), r),
        old(run)@.expects(event),
        old(run)@.has_room(event),
        clock <= u64::MAX - 1_000_000_000,
    ensures
        event == LogEvent::Command(LogCmd::CaptureData(bytes)) ==> match (
            old(run)@.capture.open,
            old(run)@.capture.armed,
        ) {
            (Some(o), _) => (r.0@[0] matches FileAct::Bytes(b) && b@ == bytes@) && final(run)@.capture.open == Some((o.0, (o.1 + bytes@.len()) as u64)),
            (None, None) => forall|i: int|
                0 <= i < r.0@.len() ==> !((#[trigger] r.0@[i]) is Bytes),
            (None, Some(_)) => r.1 is Create <==> !old(run)@.capture.failed,
        },
        event == LogEvent::Opened(Ok(())) ==> (old(run)@.pending
            matches Some(crate::logger::PendingView::Bytes { path, bytes: w }) ==> (r.0@[0]
            matches FileAct::Bytes(b) && b@ == w) && final(run)@.capture.open == Some(
            (path, w.len() as u64),
        )),
{
    lemma_acts(r.0@);
    if r.0@.len() > 0 {
        assert(r.0@[0]@ == crate::logger::acts_of(r.0@)[0]);
    }
}

/// Whether a file is flushed.
pub open spec fn flushes(acts: Seq<FileAct>, file: LogFile) -> bool {
    exists|i: int| 0 <= i < acts.len() && (#[trigger] acts[i] matches FileAct::Flush(f) && f == file)
}

/// With nothing to do the logger waits for its next flush and does nothing
/// else; when that is due, it flushes what was written, each file by itself,
/// and then waits a second.
#[verifier::spinoff_prover]
pub proof fn law_logger_rests_until_the_flush(
    run: &mut LogRun,
    now: &LocalStamp,
    clock: u64,
    r: (Vec<FileAct>, LogNext),
)
    requires
        call_ensures(LogRun::step, (run, LogEvent::Quiet, now, clock), r),
        old(run)@.pending is None && !old(run)@.stopping,
        clock <= u64::MAX - 1_000_000_000,
    ensures
        ({
            let m = old(run)@;
            &&& clock < m.next_flush ==> r.0@.len() == 0 && r.1 == LogNext::Wait(
                (m.next_flush - clock) as u64,
            ) && final(run)@ == m
            &&& clock >= m.next_flush ==> {
                &&& r.1 == LogNext::Wait(1_000_000_000) && final(run)@.next_flush == clock
                    + 1_000_000_000
                &&& flushes(r.0@, LogFile::Events) <==> m.events.dirty && m.events.current is Some
                &&& flushes(r.0@, LogFile::Nmea) <==> m.nmea.dirty && m.nmea.current is Some
                &&& flushes(r.0@, LogFile::Capture) <==> m.capture.dirty && m.capture.open is Some
                &&& !final(run)@.events.dirty && !final(run)@.nmea.dirty
                &&& !final(run)@.capture.dirty && final(run)@.capture.open == m.capture.open
            }
        }),
{
    lemma_acts(r.0@);
    lemma_quiet_flushes(old(run)@, r.0@, clock);
}

proof fn lemma_quiet_flushes(m: crate::logger::LogModel, acts: Seq<FileAct>, clock: u64)
    requires
        clock >= m.next_flush ==> crate::logger::acts_of(acts) == Seq::<
            crate::logger::FileActView,
        >::empty() + m.flush_dailies() + m.flush_capture(),
    ensures
        clock >= m.next_flush ==> {
            &&& flushes(acts, LogFile::Events) <==> m.events.dirty && m.events.current is Some
            &&& flushes(acts, LogFile::Nmea) <==> m.nmea.dirty && m.nmea.current is Some
            &&& flushes(acts, LogFile::Capture) <==> m.capture.dirty && m.capture.open is Some
        },
{
    if clock >= m.next_flush {
        let v = crate::logger::acts_of(acts);
        let e = m.events.dirty && m.events.current is Some;
        let n = m.nmea.dirty && m.nmea.current is Some;
        let c = m.capture.dirty && m.capture.open is Some;
        lemma_acts(acts);
        assert(v.len() == acts.len());
        let i: int = if e {
            1
        } else {
            0
        };
        let j: int = if n {
            i + 1
        } else {
            i
        };
        if e {
            assert(acts[0]@ == v[0]);
        }
        if n {
            assert(acts[i]@ == v[i]);
        }
        if c {
            assert(acts[j]@ == v[j]);
        }
        assert forall|k: int| 0 <= k < acts.len() implies (#[trigger] acts[k])@ == v[k] by {}
    }
}

/// Asked to stop with no capture open, the logger flushes what was written and
/// stops.
#[verifier::spinoff_prover]
pub proof fn law_logger_stops_when_asked(
    run: &mut LogRun,
    event: LogEvent,
    now: &LocalStamp,
    clock: u64,
    r: (Vec<FileAct>, LogNext),
)
    requires
        call_ensures(LogRun::step, (run, event, now, clock), r),
        event == LogEvent::Gone || event == LogEvent::Command(LogCmd::Shutdown),
        old(run)@.pending is None && old(run)@.capture.open is None,
        clock <= u64::MAX - 1_000_000_000,
    ensures
        r.1 is Stop,
        old(run)@.events.dirty && old(run)@.events.current is Some ==> flushes(
            r.0@,
            LogFile::Events,
        ),
        old(run)@.nmea.dirty && old(run)@.nmea.current is Some ==> flushes(r.0@, LogFile::Nmea),
{
    lemma_acts(r.0@);
    let m = old(run)@;
    let v = crate::logger::acts_of(r.0@);
    let e = m.events.dirty && m.events.current is Some;
    let n = m.nmea.dirty && m.nmea.current is Some;
    if e {
        assert(r.0@[0]@ == v[0]);
    }
    if n {
        let i: int = if e {
            1
        } else {
            0
        };
        assert(r.0@[i]@ == v[i]);
    }
}

/// A line of the logger's own is shown when it is written, and no other line
/// is; a file that took over from another tells so.
#[verifier::spinoff_prover]
pub proof fn law_own_lines_are_shown(
    run: &mut LogRun,
    now: &LocalStamp,
    clock: u64,
    r: (Vec<FileAct>, LogNext),
    own: bool,
    rolls: bool,
    text: Seq<char>,
    file: Seq<char>,
)
    requires
        call_ensures(LogRun::step, (run, LogEvent::Opened(Ok(())), now, clock), r),
        old(run)@.pending matches Some(
            crate::logger::PendingView::Line { nmea, name, rolled, line, notice, .. },
        ) && !nmea && name == file && rolled == rolls && line == text && notice == own,
        old(run)@.events.enabled && !old(run)@.stopping,
        file == crate::logging::daily_name(*now),
        clock < old(run)@.next_flush && clock <= u64::MAX - 1_000_000_000,
    ensures
        own ==> (r.0@[1] matches FileAct::Show(t) && t@ == text),
        !own && !rolls ==> r.0@.len() == 1,
        rolls ==> (r.0@.last() matches FileAct::Show(t) && mentions(t@, file)),
        final(run)@.events.current == Some(file) && final(run)@.events.dirty,
        !final(run)@.events.failed,
{
    lemma_acts(r.0@);
    let v = crate::logger::acts_of(r.0@);
    let n = r.0@.len() as int;
    assert(r.0@[n - 1]@ == v[n - 1]);
    if own {
        assert(r.0@[1]@ == v[1]);
    }
    if rolls {
        let a = "Log rolled over to "@;
        let words = a + file;
        let t = crate::logger::event_line(*now, words);
        let k = t.len() - file.len();
        assert(t.subrange(k, k + file.len()) =~= file);
    }
}

/// Switching a log touches that log alone.
#[verifier::spinoff_prover]
pub proof fn law_switches_touch_their_own_log(
    run: &mut LogRun,
    event: LogEvent,
    now: &LocalStamp,
    clock: u64,
    r: (Vec<FileAct>, LogNext),
    on: bool,
)
    requires
        call_ensures(LogRun::step, (run, event, now, clock), r),
        old(run)@.pending is None && !old(run)@.stopping,
        clock < old(run)@.next_flush && clock <= u64::MAX - 1_000_000_000,
    ensures
        event == LogEvent::Command(LogCmd::SetEventLog(on)) ==> final(run)@.events.enabled == on
            && final(run)@.nmea == old(run)@.nmea && final(run)@.capture == old(run)@.capture && (
        !on ==> final(run)@.events.current is None),
        event == LogEvent::Command(LogCmd::SetNmeaLog(on)) ==> final(run)@.nmea.enabled == on
            && final(run)@.events == old(run)@.events && final(run)@.capture == old(run)@.capture
            && (!on ==> final(run)@.nmea.current is None),
{
    lemma_acts(r.0@);
}

/// A new run has the two logs in their own directories, each as it was
/// switched, and nothing open.
pub proof fn law_logger_starts_empty(
    logs: String,
    nmea: String,
    separator: char,
    event_log_on: bool,
    nmea_log_on: bool,
    clock: u64,
    r: LogRun,
)
    requires
        call_ensures(LogRun::new, (logs, nmea, separator, event_log_on, nmea_log_on, clock), r),
        clock <= u64::MAX - 1_000_000_000,
    ensures
        r@.events.dir == logs@ && r@.nmea.dir == nmea@,
        r@.events.enabled == event_log_on && r@.nmea.enabled == nmea_log_on,
        r@.events.current is None && r@.nmea.current is None,
        r@.capture.open is None && r@.capture.armed is None,
        r@.next_flush == clock + 1_000_000_000,
        r@.pending is None && !r@.stopping,
{
}

/// The program names itself with its version; a crash report holds what is
/// known of the crash, and the path of one is read without the space around
/// it.
pub proof fn law_crashes_are_reported(
    agent: String,
    info: &str,
    backtrace: &str,
    report: String,
    marker: Option<&str>,
    notice: Option<String>,
)
    requires
        call_ensures(user_agent, (), agent),
        call_ensures(crash_report, (info, backtrace), report),
        call_ensures(take_crash_notice, (marker,), notice),
    ensures
        mentions(agent@, crate::VERSION@),
        agent@.take(5) == "NTRIP"@,
        mentions(report@, crate::VERSION@) && mentions(report@, info@) && mentions(
            report@,
            backtrace@,
        ),
        notice is Some <==> (marker matches Some(m) && crate::text::trim(m@).len() > 0),
        notice matches Some(p) ==> p@ == crate::text::trim(marker->0@),
{
    let e = Seq::<char>::empty();
    reveal_strlit("NTRIP OpenNtripClient/");
    reveal_strlit("NTRIP");
    lemma_mentions("NTRIP OpenNtripClient/"@, crate::VERSION@, e);
    assert("NTRIP OpenNtripClient/"@ + crate::VERSION@ + e =~= agent@);
    assert(agent@.take(5) =~= "NTRIP"@);
    let a = "Open NTRIP Client v"@;
    let b = " crashed\n\n"@;
    let c = "\n\nbacktrace:\n"@;
    let v = crate::VERSION@;
    lemma_mentions(a, v, b + info@ + c + backtrace@ + "\n"@);
    assert(a + v + (b + info@ + c + backtrace@ + "\n"@) =~= report@);
    lemma_mentions(a + v + b, info@, c + backtrace@ + "\n"@);
    assert(a + v + b + info@ + (c + backtrace@ + "\n"@) =~= report@);
    lemma_mentions(a + v + b + info@ + c, backtrace@, "\n"@);
}

/// A report is tried beside the logs first and elsewhere second, and is lost
/// only where both failed.
pub proof fn law_crash_report_has_two_tries(
    first: bool,
    second: bool,
    a: ReportStep,
    b: ReportStep,
)
    requires
        call_ensures(write_crash_report, (ReportStep::TryLogs, first), a),
        call_ensures(write_crash_report, (a, second), b),
    ensures
        first ==> b == ReportStep::InLogs,
        !first && second ==> b == ReportStep::InFallback,
        !first && !second ==> b == ReportStep::Lost,
{
}

} // verus!
