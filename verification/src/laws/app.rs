//! Laws of the application object: what a click starts, and what an event
//! leaves behind.
use vstd::prelude::*;

use crate::ieee::Real32;
use crate::laws::words::{lemma_date_parts, lemma_pad_reads, numeral, reads};
use crate::laws::{lemma_mentions, lemma_mentions_first, mentions};
use crate::logging::{after_days, is_date, CaptureTarget, LocalStamp};
use crate::session::{NtripVersion, Transport};
use crate::settings::{Profile, Settings};
use crate::sourcetable::{SourceTable, StrRecord};
use crate::state::{AppEvent, AppState};
use crate::text::{texts, trim};
use crate::ui::main_window::{
    clamp_to_min, desktop_px, log_mount_nmea_flag, parse_iso_date, rescue_position, save_line,
    update_check_due, App, Connect, EventNotes, PxRect, SerialToggle,
};
use crate::vocab::{CheckUpdates, ProtocolCfg};
use crate::workers::ntrip::ReconnectPolicy;

verus! {

/// Whether the profile at `i` is the one in use: the first of the chosen name,
/// and without one of that name the first of all.
pub open spec fn in_use(s: Settings, i: int) -> bool {
    &&& 0 <= i < s.profiles@.len()
    &&& s.profiles@[i].name@ == s.active_profile@ || i == 0
    &&& forall|j: int|
        0 <= j < s.profiles@.len() && (j < i || s.profiles@[i].name@ != s.active_profile@)
            ==> (#[trigger] s.profiles@[j]).name@ != s.active_profile@
}

/// Which profile is in use.
pub proof fn lemma_in_use(s: Settings, i: int)
    requires
        in_use(s, i),
    ensures
        s@.active_index() == i,
        s@.profiles[i] == s.profiles@[i]@,
{
    let p = s@.profiles;
    let name = s@.active_profile;
    assert forall|j: int| 0 <= j < p.len() implies (#[trigger] p[j]).name
        == s.profiles@[j].name@ by {}
    if s.profiles@[i].name@ == name {
        assert(crate::settings::is_first_named(p, name, i));
        let k = choose|k: int| crate::settings::is_first_named(p, name, k);
        if k < i {
            assert(s.profiles@[k].name@ != name);
        } else if i < k {
            assert(p[i].name != name);
        }
    } else {
        assert forall|k: int| !crate::settings::is_first_named(p, name, k) by {
            if 0 <= k < p.len() {
                assert(s.profiles@[k].name@ != name);
            }
        }
    }
}

/// The profile in use is the first of the chosen name, or else the first.
pub proof fn law_profile_in_use(s: &Settings, i: int, at: usize, p: &Profile)
    requires
        call_ensures(Settings::active_index, (s,), at),
        call_ensures(Settings::active, (s,), p),
        in_use(*s, i),
    ensures
        at == i,
        *p == s.profiles@[i],
{
    lemma_in_use(*s, i);
}

/// A connection goes to the caster of the profile in use, under its own
/// credentials and position, and nothing of another profile or field.
pub proof fn law_connection_follows_the_profile(
    app: &mut App,
    table_only: bool,
    now: u64,
    r: Connect,
    i: int,
)
    requires
        call_ensures(App::connect_ntrip, (app, table_only, now), r),
        in_use(old(app).settings, i),
    ensures
        ({
            let p = old(app).settings.profiles@[i];
            &&& r is Busy <==> old(app).ntrip
            &&& r is NoHost <==> !old(app).ntrip && trim(p.host@).len() == 0
            &&& r !is Start ==> *final(app) == *old(app)
            &&& r matches Connect::Start(job) ==> {
                &&& job.host@ == trim(p.host@) && job.port == p.port
                &&& job.username@ == p.username@ && job.password@ == p.password@
                &&& job.mountpoint@ == if table_only {
                    Seq::empty()
                } else {
                    trim(p.mountpoint@)
                }
                &&& job.tls == p.tls && job.allow_invalid_certs == p.allow_invalid_certs
                &&& job.gga_mode == p.gga_mode && job.gga_source == p.gga_source
                &&& job.manual_lat == p.manual_lat && job.manual_lon == p.manual_lon
                &&& job.version == NtripVersion::V2 <==> p.ntrip_version == 2
                &&& job.transport == Transport::RawTcp <==> p.protocol == ProtocolCfg::Tcp
                    && !table_only
            }
        }),
{
    lemma_in_use(old(app).settings, i);
}

/// What the options say of reconnecting, alerts and captures reaches the
/// connection; a request for the table alone is made once and not captured.
pub proof fn law_connection_follows_the_options(
    app: &mut App,
    table_only: bool,
    now: u64,
    r: Connect,
)
    requires
        call_ensures(App::connect_ntrip, (app, table_only, now), r),
        old(app).settings.profiles@.len() > 0,
    ensures
        r matches Connect::Start(job) ==> {
            let o = old(app).settings.app;
            let table = job.transport == Transport::Ntrip && job.mountpoint@.len() == 0;
            &&& table_only ==> table
            &&& job.reconnect == ReconnectPolicy::OneShot <==> table
            &&& job.reconnect == ReconnectPolicy::Auto <==> !table && o.auto_reconnect
            &&& job.reconnect == ReconnectPolicy::OptionsOff <==> !table && !o.auto_reconnect
            &&& job.max_attempts == o.max_reconnect_attempts
            &&& job.audio_alert@ == o.audio_alert_file@
            &&& job.capture is Some <==> o.capture_corrections && !table
            &&& job.capture matches Some(target) ==> (target matches CaptureTarget::Dir(d)
                && mentions(d@, "Captures"@) && d@.len() >= old(app).base@.len() && d@.take(
                old(app).base@.len() as int,
            ) == old(app).base@)
        },
{
    if let Connect::Start(job) = r {
        if let Some(CaptureTarget::Dir(d)) = job.capture {
            let b = old(app).base@;
            let sep = old(app).separator;
            let word = "Captures"@;
            lemma_mentions(b, word, Seq::empty());
            lemma_mentions(b.push(sep), word, Seq::empty());
            assert(b + word + Seq::<char>::empty() =~= b + word);
            assert(b.push(sep) + word + Seq::<char>::empty() =~= b.push(sep) + word);
            assert(b.len() == 0 ==> b + word =~= word);
            assert(d@.take(b.len() as int) =~= b);
        }
    }
}

/// Whether the stream wants positions is what the table shown says of it.
pub proof fn law_connection_knows_the_stream(
    app: &mut App,
    table_only: bool,
    now: u64,
    r: Connect,
    host: &str,
    port: u16,
    mount: &str,
    found: Option<&StrRecord>,
)
    requires
        call_ensures(App::connect_ntrip, (app, table_only, now), r),
        call_ensures(AppState::str_record, (&old(app).state, host, port, mount), found),
        old(app).settings.profiles@.len() > 0,
        r matches Connect::Start(job) ==> host@ == job.host@ && port == job.port && mount@
            == job.mountpoint@,
    ensures
        r matches Connect::Start(job) ==> job.stream_requires_gga == match found {
            Some(record) => Some(record.nmea_required),
            None => None,
        },
{
}

/// A new connection counts from nothing, is told apart from an idle
/// application, and warns while certificates go unchecked; what was shown of
/// the receiver and of the logs stays.
pub proof fn law_connecting_starts_over(app: &mut App, table_only: bool, now: u64, r: Connect)
    requires
        call_ensures(App::connect_ntrip, (app, table_only, now), r),
        old(app).settings.profiles@.len() > 0,
    ensures
        r matches Connect::Start(job) ==> {
            let (a, b) = (*old(app), *final(app));
            &&& b.ntrip && !b.receiver_hint_logged
            &&& b.insecure_tls_active <==> job.tls && job.allow_invalid_certs
            &&& b.rate_sample.0 == now && b.rate_sample.1 == 0
            &&& b.activity_total == 0 && b.activity_at == a.activity_at
            &&& b.state.ntrip.total_bytes == 0 && b.state.ntrip.last_rx is None
            &&& b.state.ntrip.rtcm_crc_failures == 0 && b.state.ntrip.rtcm_garbage_bytes == 0
            &&& b.state.ntrip.rtcm@.dom() == Set::<u16>::empty()
            &&& b.state.ntrip.status == a.state.ntrip.status
            &&& b.state.ntrip.sourcetable == a.state.ntrip.sourcetable
            &&& b.state.gnss == a.state.gnss && b.state.events == a.state.events
            &&& b.state.conn == a.state.conn && b.state.serial == a.state.serial
            &&& b.settings == a.settings && b.serial == a.serial
        },
{
}

/// The receiver's switch stops what runs, starts what can run, and refuses
/// where no port is chosen; nothing else moves.
pub proof fn law_serial_switch(app: &mut App, r: SerialToggle)
    requires
        call_ensures(App::toggle_serial, (app,), r),
    ensures
        r is Stop <==> old(app).serial,
        r is Start <==> !old(app).serial && trim(old(app).settings.serial.port@).len() > 0,
        final(app).serial <==> r is Start,
        final(app).ntrip == old(app).ntrip,
        final(app).settings == old(app).settings,
        final(app).state == old(app).state,
        r matches SerialToggle::NoPort(line) ==> line@ == "No serial port selected"@,
{
}

/// What ran at the end is what is remembered as running: the receiver's side
/// under its own name, the caster's under its own.
pub proof fn law_resume_intent(app: &mut App)
    requires
        call_ensures(App::stamp_resume_intent, (app,), ()),
    ensures
        final(app).settings.state.serial_connected == old(app).serial,
        final(app).settings.state.ntrip_connected == old(app).ntrip,
        final(app).settings.state.last_update_check@
            == old(app).settings.state.last_update_check@,
        final(app).settings.profiles == old(app).settings.profiles,
        final(app).settings.app == old(app).settings.app,
        final(app).settings.active_profile == old(app).settings.active_profile,
        final(app).ntrip == old(app).ntrip && final(app).serial == old(app).serial,
{
}

/// Another profile can be picked while nothing runs. Then its name is the one
/// in use, the old table is gone and the password is covered again.
pub proof fn law_picking_a_profile(app: &mut App, name: &str, r: bool)
    requires
        call_ensures(App::pick_profile, (app, name), r),
    ensures
        r <==> !old(app).ntrip && name@ != old(app).settings.active_profile@,
        !r ==> *final(app) == *old(app),
        r ==> {
            &&& final(app).settings.active_profile@ == name@
            &&& final(app).settings.profiles == old(app).settings.profiles
            &&& final(app).settings.app == old(app).settings.app
            &&& final(app).settings.serial == old(app).settings.serial
            &&& final(app).state.ntrip.sourcetable is None
            &&& !final(app).reveal_password && !final(app).mount_popup_open
            &&& final(app).state.ntrip.total_bytes == old(app).state.ntrip.total_bytes
            &&& final(app).serial == old(app).serial
        },
{
}

/// A table is shown for the profile in use only where it came from that
/// profile's caster.
pub proof fn law_table_belongs_to_the_caster(app: &App, r: Option<&SourceTable>, i: int)
    requires
        call_ensures(App::active_table, (app,), r),
        in_use(app.settings, i),
    ensures
        r matches Some(t) ==> (app.state.ntrip.sourcetable matches Some(s) && *t == s.2 && s.0@
            == trim(app.settings.profiles@[i].host@) && s.1 == app.settings.profiles@[i].port),
        r is None ==> (app.state.ntrip.sourcetable matches Some(s) ==> s.0@ != trim(
            app.settings.profiles@[i].host@,
        ) || s.1 != app.settings.profiles@[i].port),
{
    lemma_in_use(app.settings, i);
}

/// The end of the caster's side frees it and takes the warning down; the
/// receiver's side ends on its own, and neither ends the other.
pub proof fn law_ends_free_their_side(a: &mut App, b: &mut App, ev: &AppEvent, r: EventNotes)
    requires
        call_ensures(App::on_event, (a, ev), r),
        call_ensures(App::serial_ended, (b,), ()),
        old(a).settings.profiles@.len() > 0,
    ensures
        !final(b).serial && final(b).ntrip == old(b).ntrip && final(b).state == old(b).state,
        final(a).serial == old(a).serial,
        final(a).state == old(a).state && final(a).settings == old(a).settings,
        (*ev matches AppEvent::Ntrip(s) && s is Stopped) ==> !final(a).ntrip && !final(a).insecure_tls_active && (r.join_ntrip <==> old(a).ntrip),
        !(*ev matches AppEvent::Ntrip(s) && s is Stopped) ==> !r.join_ntrip && final(a).ntrip
            == old(a).ntrip && final(a).insecure_tls_active == old(a).insecure_tls_active,
{
}

/// Once in a connection, and only without a receiver, the start of the stream
/// is followed by the advice to connect one.
pub proof fn law_receiver_hint_comes_once(app: &mut App, ev: &AppEvent, r: EventNotes)
    requires
        call_ensures(App::on_event, (app, ev), r),
        old(app).settings.profiles@.len() > 0,
        *ev matches AppEvent::Ntrip(s) && s is Streaming,
    ensures
        r.lines@.len() == 2 <==> !old(app).serial && !old(app).receiver_hint_logged,
        r.lines@.len() == 2 || r.lines@.len() == 0,
        r.lines@.len() == 2 ==> final(app).receiver_hint_logged && mentions(
            r.lines@[1]@,
            "Connect a GPS receiver"@,
        ),
        final(app).receiver_hint_logged <==> old(app).receiver_hint_logged || !old(app).serial,
{
    assert(texts(r.lines@).len() == r.lines@.len());
    if r.lines@.len() == 2 {
        assert(texts(r.lines@)[1] == r.lines@[1]@);
        let t = "Connect a GPS receiver on the Serial side to populate those readouts"@;
        reveal_strlit("Connect a GPS receiver on the Serial side to populate those readouts");
        reveal_strlit("Connect a GPS receiver");
        assert(t.take(22) =~= "Connect a GPS receiver"@);
        lemma_mentions_first(t, "Connect a GPS receiver"@);
    }
}

/// A table that arrives is held against the profile in use: with a line where
/// it is of the profile's caster and the profile names a stream, and then the
/// line names the stream and says whether it wants positions.
pub proof fn law_table_is_held_against_the_profile(
    p: &Profile,
    host: &str,
    port: u16,
    table: &SourceTable,
    r: Option<String>,
    k: int,
)
    requires
        call_ensures(log_mount_nmea_flag, (p, host, port, table), r),
        0 <= k < table.strs@.len(),
        table.strs@[k].mountpoint@ == trim(p.mountpoint@),
        forall|j: int|
            0 <= j < k ==> (#[trigger] table.strs@[j]).mountpoint@ != trim(p.mountpoint@),
    ensures
        r is Some <==> trim(p.mountpoint@).len() > 0 && trim(p.host@) == host@ && p.port == port,
        r matches Some(line) ==> {
            &&& mentions(line@, trim(p.mountpoint@))
            &&& mentions(line@, table.strs@[k].format@)
            &&& table.strs@[k].nmea_required ==> mentions(line@, "nmea=1"@)
            &&& !table.strs@[k].nmea_required ==> mentions(line@, "nmea=0"@)
            &&& !table.strs@[k].nmea_required ==> line@.last() == ')' && line@[line@.len() - 2]
                == 'd'
        },
{
    if let Some(line) = r {
        let mount = trim(p.mountpoint@);
        lemma_exact_is_found(table.strs@, mount, k);
        let s = table.strs@[k];
        let format = if s.format@.len() == 0 {
            "unknown"@
        } else {
            s.format@
        };
        let a = "Sourcetable: mount "@;
        let b = " - format "@;
        let end = if s.nmea_required {
            ", nmea=1 (this stream requests NMEA GGA)"@
        } else {
            ", nmea=0 (no GGA needed)"@
        };
        assert(line@ == a + mount + b + format + end);
        lemma_mentions(a, mount, b + format + end);
        assert(a + mount + (b + format + end) =~= line@);
        lemma_mentions(a + mount + b, format, end);
        if s.format@.len() == 0 {
            assert(line@.subrange(0, 0) =~= s.format@);
        }
        reveal_strlit(", nmea=1 (this stream requests NMEA GGA)");
        reveal_strlit(", nmea=0 (no GGA needed)");
        reveal_strlit("nmea=1");
        reveal_strlit("nmea=0");
        let before = a + mount + b + format + end.take(2);
        if s.nmea_required {
            lemma_mentions(before, "nmea=1"@, end.skip(8));
            assert(end =~= end.take(2) + "nmea=1"@ + end.skip(8));
            assert(before + "nmea=1"@ + end.skip(8) =~= line@);
        } else {
            lemma_mentions(before, "nmea=0"@, end.skip(8));
            assert(end =~= end.take(2) + "nmea=0"@ + end.skip(8));
            assert(before + "nmea=0"@ + end.skip(8) =~= line@);
        }
    }
}

proof fn lemma_exact_is_found(strs: Seq<StrRecord>, mount: Seq<char>, k: int)
    requires
        0 <= k < strs.len(),
        strs[k].mountpoint@ == mount,
        forall|j: int| 0 <= j < k ==> (#[trigger] strs[j]).mountpoint@ != mount,
    ensures
        crate::state::exact_stream(strs, mount) == Some(k),
    decreases strs.len(),
{
    let head = strs.drop_last();
    if k < head.len() {
        lemma_exact_is_found(head, mount, k);
    } else {
        lemma_none_is_found(head, mount);
    }
}

proof fn lemma_none_is_found(strs: Seq<StrRecord>, mount: Seq<char>)
    requires
        forall|j: int| 0 <= j < strs.len() ==> (#[trigger] strs[j]).mountpoint@ != mount,
    ensures
        crate::state::exact_stream(strs, mount) is None,
    decreases strs.len(),
{
    if strs.len() > 0 {
        let head = strs.drop_last();
        assert forall|j: int| 0 <= j < head.len() implies (#[trigger] head[j]).mountpoint@
            != mount by {
            assert(head[j] == strs[j]);
        }
        lemma_none_is_found(head, mount);
    }
}

/// The table's arrival reaches that line through the profile in use.
pub proof fn law_arrival_is_noted(
    app: &mut App,
    ev: &AppEvent,
    r: EventNotes,
    i: int,
    p: &Profile,
    host: &str,
    table: &SourceTable,
    line: Option<String>,
)
    requires
        call_ensures(App::on_event, (app, ev), r),
        in_use(old(app).settings, i),
        *p == old(app).settings.profiles@[i],
        *ev matches AppEvent::SourcetableReady { host: h, port, table: t } && h@ == host@ && t
            == *table && call_ensures(log_mount_nmea_flag, (p, host, port, table), line),
    ensures
        r.lines@.len() == 1 <==> line is Some,
        r.lines@.len() <= 1,
        line matches Some(l) ==> r.lines@[0]@ == l@,
{
    lemma_in_use(old(app).settings, i);
    assert(texts(r.lines@).len() == r.lines@.len());
    if line is Some {
        assert(texts(r.lines@)[0] == r.lines@[0]@);
    }
}

/// The time since the last look and the totals at both looks; the next look
/// starts from this one.
pub proof fn law_activity_is_measured(app: &mut App, now: u64, r: (u64, u64, u64))
    requires
        call_ensures(App::step_activity, (app, now), r),
    ensures
        now >= old(app).activity_at ==> old(app).activity_at + r.0 == now,
        now < old(app).activity_at ==> r.0 == 0,
        r.1 == old(app).activity_total,
        r.2 == final(app).state.ntrip.total_bytes,
        final(app).activity_at == now && final(app).activity_total == r.2,
        final(app).state == old(app).state && final(app).rate_sample == old(app).rate_sample,
{
}

/// A rate is taken once a second has passed, never before: over the bytes and
/// the time since the last one, from which the next is counted.
pub proof fn law_rate_is_taken_each_second(app: &mut App, now: u64, r: Option<(u64, u64)>)
    requires
        call_ensures(App::update_rate_meter, (app, now), r),
    ensures
        r is Some <==> now - old(app).rate_sample.0 >= 1_000_000_000,
        r matches Some((bytes, time)) ==> {
            &&& old(app).rate_sample.0 + time == now
            &&& old(app).rate_sample.1 <= old(app).state.ntrip.total_bytes ==> old(app).rate_sample.1 + bytes == old(app).state.ntrip.total_bytes
            &&& final(app).rate_sample == (now, old(app).state.ntrip.total_bytes)
        },
        r is None ==> *final(app) == *old(app),
{
}

/// A saving that failed says why, and one that did not says so.
pub proof fn law_saving_is_reported(saved: &Result<(), String>, r: String)
    requires
        call_ensures(save_line, (saved,), r),
    ensures
        *saved is Ok ==> r@ == "Settings saved"@,
        *saved matches Err(e) ==> r@.take(25) == "Could not save settings: "@ && r@.skip(25) == e@,
{
    if let Err(e) = *saved {
        reveal_strlit("Could not save settings: ");
        assert(r@.take(25) =~= "Could not save settings: "@);
        assert(r@.skip(25) =~= e@);
    }
}

/// What is taken as a date is three numerals with a dash between each two: the
/// year, a month and a day of it, in this order.
pub proof fn law_dates_are_read(
    s: &str,
    y: Seq<char>,
    m: Seq<char>,
    d: Seq<char>,
    r: Option<(i32, u8, u8)>,
)
    requires
        call_ensures(parse_iso_date, (s,), r),
        numeral(y) && numeral(m) && numeral(d),
        s@ == y + seq!['-'] + m + seq!['-'] + d,
    ensures
        r is Some <==> reads(y) <= 0x7FFF_FFFF && 1 <= reads(m) <= 12 && 1 <= reads(d) <= 31,
        r matches Some(date) ==> date.0 == reads(y) && date.1 == reads(m) && date.2 == reads(d),
{
    lemma_date_parts(y, m, d);
}

/// A check that was made on one day is due again a week later and not before,
/// in the weekly rhythm; at every start in the one, and never in the other.
pub proof fn law_update_check_rhythm(
    app: &mut App,
    opened: &Result<(), String>,
    day: &LocalStamp,
    line: String,
    mode: CheckUpdates,
    last: &str,
    today: (i32, u8, u8),
    later: nat,
    due: bool,
)
    requires
        call_ensures(App::check_updates_now, (app, opened, day), line),
        call_ensures(update_check_due, (mode, last, today), due),
        last@ == final(app).settings.state.last_update_check@,
        day.year >= 0 && is_date(day.year as int, day.month as int, day.day as int),
        (today.0 as int, today.1 as int, today.2 as int) == after_days(
            day.year as int,
            day.month as int,
            day.day as int,
            later,
        ),
    ensures
        mode == CheckUpdates::Off ==> !due,
        mode == CheckUpdates::Startup ==> due,
        mode == CheckUpdates::Weekly ==> (due <==> later >= 7),
{
    let y = crate::text::dec_pad(day.year as nat, 4);
    let m = crate::text::dec_pad(day.month as nat, 2);
    let d = crate::text::dec_pad(day.day as nat, 2);
    lemma_pad_reads(day.year as nat, 4);
    lemma_pad_reads(day.month as nat, 2);
    lemma_pad_reads(day.day as nat, 2);
    reveal_strlit("-");
    assert("-"@ =~= seq!['-']);
    lemma_date_parts(y, m, d);
    crate::logging::lemma_after_days(
        day.year as int,
        day.month as int,
        day.day as int,
        later,
    );
}

/// Without a readable date of the last check, the weekly rhythm asks for one.
pub proof fn law_unknown_check_date_is_due(
    s: &str,
    date: Option<(i32, u8, u8)>,
    today: (i32, u8, u8),
    due: bool,
)
    requires
        call_ensures(parse_iso_date, (s,), date),
        call_ensures(update_check_due, (CheckUpdates::Weekly, s, today), due),
        date is None,
    ensures
        due,
{
}

/// A check that is made is remembered and reported, and changes nothing else.
pub proof fn law_update_check_is_recorded(
    app: &mut App,
    opened: &Result<(), String>,
    day: &LocalStamp,
    line: String,
)
    requires
        call_ensures(App::check_updates_now, (app, opened, day), line),
    ensures
        *opened matches Err(e) ==> mentions(line@, e@) && mentions(line@, "Could not open"@),
        *opened is Ok ==> mentions(line@, "Opened the releases page"@),
        final(app).settings.profiles == old(app).settings.profiles,
        final(app).settings.app == old(app).settings.app,
        final(app).settings.state.ntrip_connected == old(app).settings.state.ntrip_connected,
        final(app).settings.state.serial_connected == old(app).settings.state.serial_connected,
        final(app).ntrip == old(app).ntrip && final(app).state == old(app).state,
{
    reveal_strlit("Could not open browser: ");
    reveal_strlit("Could not open");
    reveal_strlit("Opened the releases page in the browser");
    reveal_strlit("Opened the releases page");
    match *opened {
        Ok(()) => {
            assert(line@.take(24) =~= "Opened the releases page"@);
            lemma_mentions_first(line@, "Opened the releases page"@);
        },
        Err(e) => {
            lemma_mentions("Could not open browser: "@, e@, Seq::empty());
            assert("Could not open browser: "@ + e@ + Seq::<char>::empty() =~= line@);
            assert(line@.take(14) =~= "Could not open"@);
            lemma_mentions_first(line@, "Could not open"@);
        },
    }
}

/// The first line names the program, the rest of the start's own lines keep
/// their order, and the crash and the due check are told behind them.
pub proof fn law_start_is_told(
    base: String,
    separator: char,
    settings: Settings,
    boot_log: Vec<String>,
    ports: Vec<(String, String)>,
    database_error: Option<String>,
    crash_report: Option<String>,
    today: (i32, u8, u8),
    now: u64,
    r: (App, Vec<String>),
    last: &str,
    due: bool,
)
    requires
        call_ensures(
            App::new,
            (
                base,
                separator,
                settings,
                boot_log,
                ports,
                database_error,
                crash_report,
                today,
                now,
            ),
            r,
        ),
        call_ensures(update_check_due, (settings.app.check_updates, last, today), due),
        last@ == settings.state.last_update_check@,
    ensures
        ({
            let at: int = if database_error is Some {
                2
            } else {
                1
            };
            let n = boot_log@.len();
            let crash: int = if crash_report is Some {
                2
            } else {
                0
            };
            &&& r.1@.len() == at + n + crash + if due {
                1int
            } else {
                0
            }
            &&& mentions(r.1@[0]@, crate::VERSION@)
            &&& database_error matches Some(e) ==> mentions(r.1@[1]@, e@)
            &&& forall|i: int| 0 <= i < n ==> (#[trigger] boot_log@[i])@ == r.1@[at + i]@
            &&& crash_report matches Some(path) ==> mentions(r.1@[at + n + 1]@, path@)
            &&& due ==> mentions(r.1@.last()@, "Update check due"@)
        }),
        r.0.settings == settings && r.0.ports == ports && r.0.base == base,
        !r.0.ntrip && !r.0.serial && !r.0.insecure_tls_active,
        r.0.rate_sample == (now, 0u64) && r.0.activity_at == now && r.0.activity_total == 0,
{
    let t = texts(r.1@);
    let at: int = if database_error is Some {
        2
    } else {
        1
    };
    let n = boot_log@.len();
    assert(t.len() == r.1@.len());
    assert(t[0] == r.1@[0]@);
    lemma_mentions("Open NTRIP Client v"@, crate::VERSION@, " started"@);
    if let Some(e) = database_error {
        assert(t[1] == r.1@[1]@);
        lemma_mentions("Offline location database unavailable: "@, e@, Seq::empty());
        assert("Offline location database unavailable: "@ + e@ + Seq::<char>::empty()
            =~= "Offline location database unavailable: "@ + e@);
    }
    assert forall|i: int| 0 <= i < n implies (#[trigger] boot_log@[i])@ == r.1@[at + i]@ by {
        assert(t[at + i] == r.1@[at + i]@);
        assert(texts(boot_log@)[i] == boot_log@[i]@);
    }
    if let Some(path) = crash_report {
        assert(t[at + n + 1] == r.1@[at + n + 1]@);
        lemma_mentions("Crash report: "@, path@, Seq::empty());
        assert("Crash report: "@ + path@ + Seq::<char>::empty() =~= "Crash report: "@ + path@);
    }
    if due {
        assert(t.last() == r.1@.last()@);
        reveal_strlit("Update check due - use Options > Check now to open the releases page");
        reveal_strlit("Update check due");
        assert(t.last().take(16) =~= "Update check due"@);
        lemma_mentions_first(t.last(), "Update check due"@);
    }
}

/// A window is never smaller than the least size, and a size that is large
/// enough is left alone.
pub proof fn law_window_has_a_least_size(width: Real32, height: Real32, r: (Real32, Real32))
    requires
        call_ensures(clamp_to_min, (width, height), r),
    ensures
        0x443E_0000 <= r.0.bits <= 0x7F80_0000,
        0x43F0_0000 <= r.1.bits <= 0x7F80_0000,
        0x443E_0000 <= width.bits <= 0x7F80_0000 ==> r.0 == width,
        0x43F0_0000 <= height.bits <= 0x7F80_0000 ==> r.1 == height,
        r.0 == width || r.0.bits == 0x443E_0000,
        r.1 == height || r.1.bits == 0x43F0_0000,
{
}

/// Whether a place lies in both of two stretches.
pub open spec fn shared(a: i32, alen: i32, b: i32, blen: i32, x: int) -> bool {
    a <= x < a + alen && b <= x < b + blen
}

/// A window of which 60 pixels each way can be seen stays where it is. Any
/// other is moved onto the first screen, along each axis no further than it
/// must be.
pub proof fn law_lost_windows_come_back(
    win: PxRect,
    screen: PxRect,
    primary: (i32, i32),
    r: Option<(i32, i32)>,
)
    requires
        call_ensures(rescue_position, (win, screen, primary), r),
        win.x + win.w <= i32::MAX && win.y + win.h <= i32::MAX,
        screen.x + screen.w <= i32::MAX && screen.y + screen.h <= i32::MAX,
        win.w >= 0 && win.h >= 0 && screen.w >= 0 && screen.h >= 0,
    ensures
        r is None <==> exists|x: int, y: int|
            #![trigger shared(win.x, win.w, screen.x, screen.w, x), shared(win.y, win.h, screen.y, screen.h, y)]
            shared(win.x, win.w, screen.x, screen.w, x) && shared(
                win.x,
                win.w,
                screen.x,
                screen.w,
                x + 59,
            ) && shared(win.y, win.h, screen.y, screen.h, y) && shared(
                win.y,
                win.h,
                screen.y,
                screen.h,
                y + 59,
            ),
        r matches Some((x, y)) ==> {
            &&& x >= 0 && y >= 0
            &&& primary.0 >= 60 ==> x + 60 <= primary.0
            &&& primary.1 >= 60 ==> y + 60 <= primary.1
            &&& 0 <= win.x && win.x + 60 <= primary.0 ==> x == win.x
            &&& 0 <= win.y && win.y + 60 <= primary.1 ==> y == win.y
            &&& win.x < 0 ==> x == 0
            &&& win.y < 0 ==> y == 0
        },
{
    let x = if win.x > screen.x {
        win.x as int
    } else {
        screen.x as int
    };
    let y = if win.y > screen.y {
        win.y as int
    } else {
        screen.y as int
    };
    if r is None {
        assert(shared(win.x, win.w, screen.x, screen.w, x));
        assert(shared(win.x, win.w, screen.x, screen.w, x + 59));
        assert(shared(win.y, win.h, screen.y, screen.h, y));
        assert(shared(win.y, win.h, screen.y, screen.h, y + 59));
    }
}

/// The desktop is used as it is told where every extent of it is known.
pub proof fn law_desktop_is_used_as_told(
    screen: PxRect,
    primary: (i32, i32),
    r: Option<(PxRect, (i32, i32))>,
)
    requires
        call_ensures(desktop_px, (screen, primary), r),
    ensures
        r is Some <==> screen.w >= 1 && screen.h >= 1 && primary.0 >= 1 && primary.1 >= 1,
        r matches Some(d) ==> d.0 == screen && d.1 == primary,
{
}

/// A window is brought back at the first look only.
pub proof fn law_rescue_is_tried_once(app: &mut App, again: &mut App, first: bool, second: bool)
    requires
        call_ensures(App::begin_rescue, (app,), first),
        call_ensures(App::begin_rescue, (again,), second),
        *old(again) == *final(app),
        !old(app).geometry_rescued,
    ensures
        first && !second,
        final(app).settings == old(app).settings && final(app).state == old(app).state,
{
}

} // verus!
