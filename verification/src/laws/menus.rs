//! Laws of the smaller parts of the window: tabs, hints, dialogs and notices.
use vstd::prelude::*;

use crate::audio::{alert_line, alert_path, no_player, open_url, opener, play_wav, players, Launch};
use crate::laws::words::found_ci;
use crate::laws::{lemma_mentions, lemma_mentions_first, mentions};
use crate::profiles;
use crate::settings::Settings;
use crate::sourcetable::{CasRecord, NetRecord, SourceTable, StrRecord};
use crate::text::{dec, texts, trim};
use crate::ui::about::{link_failed, third_party};
use crate::ui::gga_section;
use crate::ui::gga_section::{disclosure_label, search_notice, GeoHit};
use crate::ui::main_window::App;
use crate::ui::options_dialog::{audio_test_line, last_checked};
use crate::ui::profiles_dialog;
use crate::ui::profiles_dialog::{
    cancel_rename, confirm_delete, duplicate_profile, new_profile, Outcome,
};
use crate::ui::sourcetable_browser::{
    cas_matches, cas_rows, empty_hint, footer_counts, net_matches, net_rows, resolve_selection,
    row_selected, sort_header, str_matches, str_rows, sync_view, tabs, toolbar, unparsed_rows,
    SortKey, Tab, Toolbar, ViewState,
};
use crate::ui::theme::{
    visuals, Color, Visuals, ACCENT, DANGER, INK_PRIMARY, PAPER_3, SUCCESS, WARNING,
};

verus! {

/// A record passes the filter where the filter stands in one of its texts, and
/// each kind of record is searched in its own texts.
pub proof fn law_records_are_searched(
    s: &StrRecord,
    c: &CasRecord,
    n: &NetRecord,
    filter: &str,
    a: bool,
    b: bool,
    d: bool,
)
    requires
        call_ensures(str_matches, (s, filter), a),
        call_ensures(cas_matches, (c, filter), b),
        call_ensures(net_matches, (n, filter), d),
    ensures
        a <==> found_ci(s.mountpoint@, filter@) || found_ci(s.identifier@, filter@) || found_ci(
            s.format@,
            filter@,
        ) || found_ci(s.country@, filter@),
        b <==> found_ci(c.host@, filter@) || found_ci(c.identifier@, filter@) || found_ci(
            c.operator@,
            filter@,
        ) || found_ci(c.country@, filter@),
        d <==> found_ci(n.identifier@, filter@) || found_ci(n.operator@, filter@),
{
    crate::laws::words::lemma_found(s.mountpoint@, filter@);
    crate::laws::words::lemma_found(s.identifier@, filter@);
    crate::laws::words::lemma_found(s.format@, filter@);
    crate::laws::words::lemma_found(s.country@, filter@);
    crate::laws::words::lemma_found(c.host@, filter@);
    crate::laws::words::lemma_found(c.identifier@, filter@);
    crate::laws::words::lemma_found(c.operator@, filter@);
    crate::laws::words::lemma_found(c.country@, filter@);
    crate::laws::words::lemma_found(n.identifier@, filter@);
    crate::laws::words::lemma_found(n.operator@, filter@);
}

/// The footer counts the records of each kind and, with a filter, the rows
/// that the open tab shows, of those it has.
pub proof fn law_footer_counts_what_is_shown(
    table: &SourceTable,
    tab: Tab,
    filter_box: &str,
    r: String,
    filter: &str,
    s: Vec<usize>,
    c: Vec<usize>,
    n: Vec<usize>,
    u: Vec<usize>,
)
    requires
        call_ensures(footer_counts, (table, tab, filter_box), r),
        filter@ == trim(filter_box@),
        table.strs@.len() <= usize::MAX,
        call_ensures(str_rows, (&table.strs, filter, None), s),
        call_ensures(cas_rows, (&table.casters, filter), c),
        call_ensures(net_rows, (&table.networks, filter), n),
        call_ensures(unparsed_rows, (&table.unparsed, filter), u),
    ensures
        mentions(r@, dec(table.strs@.len()) + " streams"@),
        mentions(r@, dec(table.casters@.len()) + " casters"@),
        mentions(r@, dec(table.networks@.len()) + " networks"@),
        table.unparsed@.len() > 0 ==> mentions(r@, dec(table.unparsed@.len()) + " unparsed"@),
        filter@.len() > 0 ==> ({
            let (shown, total) = match tab {
                Tab::Str => (s@.len(), table.strs@.len()),
                Tab::Cas => (c@.len(), table.casters@.len()),
                Tab::Net => (n@.len(), table.networks@.len()),
                Tab::Unparsed => (u@.len(), table.unparsed@.len()),
            };
            mentions(r@, "shows "@ + dec(shown) + " of "@ + dec(total))
        }),
{
    crate::ui::sourcetable_browser::law_unsorted_rows_keep_caster_order(
        table.strs@,
        filter@,
        s@,
    );
    let shown = crate::ui::sourcetable_browser::shown_count(*table, tab, filter@);
    let total = crate::ui::sourcetable_browser::total_count(*table, tab);
    lemma_footer(*table, filter@, dec(shown), dec(total), r@, shown, total);
}

#[verifier::spinoff_prover]
proof fn lemma_footer(
    table: SourceTable,
    filter: Seq<char>,
    x: Seq<char>,
    y: Seq<char>,
    r: Seq<char>,
    shown: nat,
    total: nat,
)
    requires
        r == crate::ui::sourcetable_browser::footer_text(table, filter, shown, total),
        x == dec(shown) && y == dec(total),
    ensures
        mentions(r, dec(table.strs@.len()) + " streams"@),
        mentions(r, dec(table.casters@.len()) + " casters"@),
        mentions(r, dec(table.networks@.len()) + " networks"@),
        table.unparsed@.len() > 0 ==> mentions(r, dec(table.unparsed@.len()) + " unparsed"@),
        filter.len() > 0 ==> mentions(r, "shows "@ + x + " of "@ + y),
{
    let (a, b, c, d) = (
        dec(table.strs@.len()),
        dec(table.casters@.len()),
        dec(table.networks@.len()),
        dec(table.unparsed@.len()),
    );
    reveal_strlit(" streams, ");
    reveal_strlit(" casters, ");
    reveal_strlit(" streams");
    reveal_strlit(" casters");
    reveal_strlit(" unparsed lines");
    reveal_strlit(" unparsed");
    reveal_strlit(" - filter shows ");
    reveal_strlit("shows ");
    let h1 = a + " streams, "@;
    let h2 = h1 + b + " casters, "@;
    let counts = h2 + c + " networks"@;
    assert(" streams, "@.take(8) =~= " streams"@);
    assert(" casters, "@.take(8) =~= " casters"@);
    assert(" unparsed lines"@.take(9) =~= " unparsed"@);
    assert(" - filter shows "@.skip(10) =~= "shows "@);
    let full = if table.unparsed@.len() > 0 {
        counts + ", "@ + d + " unparsed lines"@
    } else {
        counts
    };
    let (p, q, s, t) = (a + " streams"@, b + " casters"@, c + " networks"@, d + " unparsed"@);
    let (i, j) = (h1.len() as int, h2.len() as int);
    assert(r.subrange(0int, 0int + p.len()) =~= p);
    assert(r.subrange(i, i + q.len()) =~= q);
    assert(r.subrange(j, j + s.len()) =~= s);
    if table.unparsed@.len() > 0 {
        let k = (counts + ", "@).len() as int;
        assert(r.subrange(k, k + t.len()) =~= t);
    }
    if filter.len() > 0 {
        let k = full.len() as int + 10;
        let z = "shows "@ + x + " of "@ + y;
        assert(r.subrange(k, k + z.len()) =~= z);
    }
}

/// The tabs are those of the records, and one for the lines that are none only
/// where there are such lines; the view leaves that one with them.
pub proof fn law_unparsed_tab_needs_lines(
    table: &SourceTable,
    r: Vec<(Tab, &'static str)>,
    view: &mut ViewState,
)
    requires
        call_ensures(tabs, (table,), r),
        call_ensures(sync_view, (view, table), ()),
    ensures
        r@[0].0 == Tab::Str && r@[1].0 == Tab::Cas && r@[2].0 == Tab::Net,
        mentions(r@[0].1@, "Streams"@) && mentions(r@[1].1@, "Casters"@) && mentions(
            r@[2].1@,
            "Networks"@,
        ),
        r@.len() == 4 <==> table.unparsed@.len() > 0,
        r@.len() == 4 ==> r@[3].0 == Tab::Unparsed,
        r@.len() == 3 || r@.len() == 4,
        final(view).tab == Tab::Unparsed ==> table.unparsed@.len() > 0,
        table.unparsed@.len() > 0 || old(view).tab != Tab::Unparsed ==> final(view).tab == old(view).tab,
        final(view).filter == old(view).filter && final(view).sort == old(view).sort,
{
    reveal_strlit("Streams (STR)");
    reveal_strlit("Casters (CAS)");
    reveal_strlit("Networks (NET)");
    reveal_strlit("Streams");
    reveal_strlit("Casters");
    reveal_strlit("Networks");
    assert("Streams (STR)"@.take(7) =~= "Streams"@);
    assert("Casters (CAS)"@.take(7) =~= "Casters"@);
    assert("Networks (NET)"@.take(8) =~= "Networks"@);
    lemma_mentions_first("Streams (STR)"@, "Streams"@);
    lemma_mentions_first("Casters (CAS)"@, "Casters"@);
    lemma_mentions_first("Networks (NET)"@, "Networks"@);
}

/// A refresh needs a caster and a free line, and its hint says what it will
/// fetch or what it lacks.
pub proof fn law_refresh_needs_a_caster(
    view: &ViewState,
    host: &str,
    port: u16,
    busy: bool,
    r: Toolbar,
    h: Vec<String>,
)
    requires
        call_ensures(toolbar, (view, host, port, busy), r),
        call_ensures(empty_hint, (host, port), h),
    ensures
        r.refresh_enabled <==> host@.len() > 0 && !busy,
        r.refresh_enabled ==> mentions(r.refresh_hint@, host@ + ":"@ + dec(port as nat)),
        host@.len() > 0 ==> r.caption@ == host@ + ":"@ + dec(port as nat),
        host@.len() > 0 && busy ==> mentions(r.refresh_hint@, "disconnect"@),
        r.clear_offered <==> view.filter@.len() > 0,
        host@.len() > 0 ==> h@.len() == 2 && mentions(h@[0]@, host@ + ":"@ + dec(port as nat)),
        host@.len() == 0 ==> h@.len() == 1,
{
    let part = host@ + ":"@ + dec(port as nat);
    assert(texts(h@).len() == h@.len());
    assert(texts(h@)[0] == h@[0]@);
    if host@.len() > 0 {
        let a = "No sourcetable loaded for "@;
        let n = a.len() as int;
        assert(h@[0]@.subrange(n, n + part.len()) =~= part);
        if busy {
            reveal_strlit("Busy - disconnect first");
            reveal_strlit("disconnect");
            assert(r.refresh_hint@.subrange(7int, 7int + "disconnect"@.len()) =~= "disconnect"@);
        } else {
            let b = "Download the sourcetable from "@;
            let k = b.len() as int;
            assert(r.refresh_hint@.subrange(k, k + part.len()) =~= part);
        }
    }
}

/// The sorted column is marked, upwards or downwards, and no other; the chosen
/// stream's row is marked, and the choice counts while the table has it.
pub proof fn law_marks_follow_the_view(
    view: &ViewState,
    label: &str,
    key: SortKey,
    r: String,
    s: &StrRecord,
    chosen: bool,
    strs: &Vec<StrRecord>,
    selected: Option<&str>,
    m: Option<&str>,
)
    requires
        call_ensures(sort_header, (view, label, key), r),
        call_ensures(row_selected, (view, s), chosen),
        call_ensures(resolve_selection, (strs, selected), m),
    ensures
        view.sort == Some((key, true)) ==> r@ == label@.push(' ').push('^'),
        view.sort == Some((key, false)) ==> r@ == label@.push(' ').push('v'),
        !(view.sort matches Some(k) && k.0 == key) ==> r@ == label@,
        chosen <==> (view.selected matches Some(x) && x@ == s.mountpoint@),
        m matches Some(x) ==> (selected matches Some(y) && x@ == y@),
{
    reveal_strlit(" ^");
    reveal_strlit(" v");
    reveal_strlit("");
    assert(label@ + " ^"@ =~= label@.push(' ').push('^'));
    assert(label@ + " v"@ =~= label@.push(' ').push('v'));
    assert(label@ + ""@ =~= label@);
}

/// A new profile from the list is the settings' own, chosen and open for its
/// name; a renaming that was open is settled first.
pub proof fn law_new_from_the_list(
    settings: &mut Settings,
    view: &mut profiles_dialog::ViewState,
    r: (usize, bool),
    direct: &mut Settings,
    at: usize,
)
    requires
        call_ensures(new_profile, (settings, view), r),
        old(settings).profiles@.len() <= u32::MAX - 2,
        old(view).renaming is None,
        *old(direct) == *old(settings),
        call_ensures(profiles::add, (direct,), at),
    ensures
        final(settings)@ == final(direct)@,
        r.0 == at && !r.1,
        final(view).selected == Some(at) && final(view).renaming == Some(at),
        final(view).rename_buf@ == final(direct).profiles@[at as int].name@,
        final(view).confirm_delete is None,
{
    assert(final(direct)@.profiles.len() == final(direct).profiles@.len());
    assert(final(direct)@.profiles[at as int] == final(direct).profiles@[at as int]@);
}

/// A copy from the list is the settings' own, and chosen.
pub proof fn law_copy_from_the_list(
    settings: &mut Settings,
    view: &mut profiles_dialog::ViewState,
    i: usize,
    r: (bool, bool),
    direct: &mut Settings,
    at: Option<usize>,
)
    requires
        call_ensures(duplicate_profile, (settings, view, i), r),
        old(settings).profiles@.len() <= u32::MAX - 2,
        old(view).renaming is None,
        *old(direct) == *old(settings),
        call_ensures(profiles::duplicate, (direct, i), at),
    ensures
        final(settings)@ == final(direct)@,
        r.0 <==> at is Some,
        at is Some ==> final(view).selected == at,
        at is None ==> final(view).selected == old(view).selected,
{
    assert(old(settings)@.profiles.len() == old(settings).profiles@.len());
}

/// A deletion that was confirmed removes that profile as the settings do, is
/// told with its name, and lets the table go only where another profile is in
/// use by it; while connected nothing is deleted.
pub proof fn law_deleting_from_the_list(
    app: &mut App,
    view: &mut profiles_dialog::ViewState,
    r: Outcome,
    i: usize,
    direct: &mut Settings,
    done: bool,
)
    requires
        call_ensures(confirm_delete, (app, view), r),
        old(app).settings.profiles@.len() <= u32::MAX - 2,
        old(view).renaming is None,
        old(view).confirm_delete == Some(i),
        *old(direct) == old(app).settings,
        call_ensures(profiles::remove, (direct, i), done),
    ensures
        old(app).ntrip ==> *final(app) == *old(app) && !r.save,
        r.save <==> !old(app).ntrip && done,
        r.save ==> {
            &&& final(app).settings@ == final(direct)@
            &&& r.lines@.len() == 1 && mentions(
                r.lines@[0]@,
                old(app).settings.profiles@[i as int].name@,
            )
            &&& final(view).confirm_delete is None
            &&& old(app).settings.active_profile@ == old(app).settings.profiles@[i as int].name@
                && final(direct).active_profile@ != old(app).settings.active_profile@ ==> final(app).state.ntrip.sourcetable is None
            &&& old(app).settings.active_profile@ != old(app).settings.profiles@[i as int].name@
                ==> final(app).state == old(app).state
        },
        final(app).ntrip == old(app).ntrip && final(app).serial == old(app).serial,
{
    let s = old(app).settings;
    assert(s@.profiles.len() == s.profiles@.len());
    if i < s.profiles@.len() {
        assert(s@.profiles[i as int] == s.profiles@[i as int]@);
    }
    if r.save {
        assert(texts(r.lines@).len() == r.lines@.len());
        assert(texts(r.lines@)[0] == r.lines@[0]@);
        lemma_mentions("Profile \""@, s.profiles@[i as int].name@, "\" deleted"@);
    }
}

/// A row shows its profile's name, and whether it is the one in use; a dropped
/// renaming leaves nothing behind.
pub proof fn law_profile_rows(
    name: &str,
    active: &str,
    r: (String, bool),
    view: &mut profiles_dialog::ViewState,
)
    requires
        call_ensures(profiles_dialog::row_label, (name, active), r),
        call_ensures(cancel_rename, (view,), ()),
    ensures
        r.1 <==> name@ == active@,
        !r.1 ==> r.0@ == name@,
        r.1 ==> r.0@ == name@ + "  (active)"@,
        final(view).renaming is None && final(view).rename_buf@.len() == 0,
        final(view).selected == old(view).selected,
        final(view).confirm_delete == old(view).confirm_delete,
{
}

/// A hit's row shows its name, then its latitude, then its longitude.
pub proof fn law_hit_rows(
    hit: &GeoHit,
    lat: &str,
    lon: &str,
    r: String,
    open: bool,
    d: &'static str,
)
    requires
        call_ensures(gga_section::row_label, (hit, lat, lon), r),
        call_ensures(disclosure_label, (open,), d),
    ensures
        r@.take(hit.display@.len() as int) == hit.display@,
        mentions(r@, lat@ + ", "@ + lon@),
        d@[0] == 'v' <==> open,
{
    reveal_strlit("v GGA position reporting");
    reveal_strlit("> GGA position reporting");
    let part = lat@ + ", "@ + lon@;
    let n = (hit.display@ + "  ("@).len() as int;
    assert(r@.take(hit.display@.len() as int) =~= hit.display@);
    assert(r@.subrange(n, n + part.len()) =~= part);
}

/// A search without its database says so; one that found nothing says so only
/// where something was asked for.
pub proof fn law_empty_searches_are_told(
    view: &gga_section::ViewState,
    database: bool,
    r: Option<&'static str>,
)
    requires
        call_ensures(search_notice, (view, database), r),
    ensures
        r is None <==> database && (view.hits@.len() > 0 || trim(view.query@).len() == 0),
        !database ==> mentions(r->0@, "unavailable"@),
        database ==> (r matches Some(t) ==> t@ == "No matches."@),
{
    if !database {
        reveal_strlit(
            "Offline location database unavailable (see the event log); the coordinate fields above still work.",
        );
        reveal_strlit("unavailable");
        assert(r->0@.subrange(26int, 26int + "unavailable"@.len()) =~= "unavailable"@);
    }
}

/// A sound is played from its path without the space around it; no path is no
/// sound and no failure, and a failure is told with the file or the reason.
pub proof fn law_alert_failures_are_told(
    path: &str,
    found: bool,
    played: &Result<(), String>,
    p: Option<&str>,
    r: Result<(), String>,
    line: Option<String>,
    test: Option<String>,
)
    requires
        call_ensures(alert_path, (path,), p),
        call_ensures(play_wav, (path, found, played), r),
        call_ensures(alert_line, (&r,), line),
        call_ensures(audio_test_line, (&r,), test),
    ensures
        p is Some <==> trim(path@).len() > 0,
        p matches Some(q) ==> q@ == trim(path@),
        r is Ok <==> trim(path@).len() == 0 || found && *played is Ok,
        r matches Err(e) ==> !found ==> mentions(e@, trim(path@)),
        r matches Err(e) ==> found ==> (*played matches Err(why) && e@ == why@),
        line is Some <==> r is Err,
        test is Some <==> r is Err,
        r matches Err(e) ==> (line matches Some(t) && mentions(t@, e@)) && (test matches Some(t)
            && mentions(t@, e@)),
{
    if let Err(e) = r {
        let a = "Audio alert failed: "@;
        let b = "Audio test failed: "@;
        let (n, k) = (a.len() as int, b.len() as int);
        assert(line->0@.subrange(n, n + e@.len()) =~= e@);
        assert(test->0@.subrange(k, k + e@.len()) =~= e@);
        if !found {
            let c = "audio file not found: "@;
            let i = c.len() as int;
            let t = trim(path@);
            assert(e@.subrange(i, i + t.len()) =~= t);
        }
    }
}

/// Players are tried in their order, and what opens a page is the system's
/// own; that none could be started is told with its name and its reason.
pub proof fn law_system_tools(
    macos: bool,
    p: Vec<&'static str>,
    o: &'static str,
    player: &str,
    reason: &str,
    none: String,
    last: &str,
    l: &str,
)
    requires
        call_ensures(players, (macos,), p),
        call_ensures(opener, (macos,), o),
        call_ensures(no_player, (player, reason), none),
        call_ensures(last_checked, (last,), l),
    ensures
        macos ==> p@.len() == 1 && p@[0]@ == "afplay"@ && o@ == "open"@,
        !macos ==> p@.len() == 2 && p@[0]@ == "aplay"@ && p@[1]@ == "paplay"@ && o@ == "xdg-open"@,
        mentions(none@, player@ + ": "@ + reason@),
        last@.len() > 0 ==> l@ == last@,
        last@.len() == 0 ==> l@ == "never"@,
{
    let part = player@ + ": "@ + reason@;
    let a = "no audio player available ("@;
    let n = a.len() as int;
    assert(none@.subrange(n, n + part.len()) =~= part);
}

/// A page counts as opened where its opener started, or the shell's answer is
/// beyond its codes of failure; a failure names the opener or the page.
pub proof fn law_pages_are_opened(
    url: &str,
    launch: &Launch,
    r: Result<(), String>,
    l: Option<String>,
)
    requires
        call_ensures(open_url, (url, launch), r),
        call_ensures(link_failed, (&r,), l),
    ensures
        r is Ok <==> *launch is Spawned || (*launch matches Launch::ShellCode(c) && c > 32),
        *launch matches Launch::SpawnFailed { opener: o, reason } ==> (r matches Err(e) && e@ == o@
            + ": "@ + reason@),
        *launch matches Launch::ShellCode(c) ==> (r matches Err(e) ==> e@.skip(
            e@.len() - url@.len(),
        ) == url@),
        l is Some <==> r is Err,
        r matches Err(e) ==> (l matches Some(t) && mentions(t@, e@)),
{
    if let Err(e) = r {
        let a = "Could not open browser: "@;
        let n = a.len() as int;
        assert(l->0@.subrange(n, n + e@.len()) =~= e@);
        if *launch is ShellCode {
            assert(e@.skip(e@.len() - url@.len()) =~= url@);
        }
    }
}

/// Every notice names a part and its license.
pub proof fn law_notices_are_complete(r: Vec<(&'static str, &'static str)>)
    requires
        call_ensures(third_party, (), r),
    ensures
        r@.len() == 10,
        r@[2].0@ == "rustls (TLS)"@ && r@[2].1@ == "Apache-2.0 OR ISC OR MIT"@,
        r@[1].0@ == "serialport (receiver I/O)"@ && r@[1].1@ == "MPL-2.0"@,
        r@[8].0@ == "GeoNames city data"@ && r@[8].1@ == "CC BY 4.0"@,
{
    assert(r@[1] == r@[1] && r@[2] == r@[2] && r@[8] == r@[8]);
}

/// Ink can be read on the paper it stands on: each channel of the text is at
/// least 128 below the same channel of every paper. What means well is green,
/// what warns and what fails is red before all.
pub proof fn law_ink_stands_out(
    v: Visuals,
    ink: (u8, u8, u8, u8),
    paper: (u8, u8, u8, u8),
    a: (u8, u8, u8, u8),
    b: (u8, u8, u8, u8),
    c: (u8, u8, u8, u8),
)
    requires
        call_ensures(visuals, (), v),
        call_ensures(Color::rgba, (INK_PRIMARY,), ink),
        call_ensures(Color::rgba, (PAPER_3,), paper),
        call_ensures(Color::rgba, (SUCCESS,), a),
        call_ensures(Color::rgba, (WARNING,), b),
        call_ensures(Color::rgba, (DANGER,), c),
    ensures
        ink.0 + 128 <= paper.0 && ink.1 + 128 <= paper.1 && ink.2 + 128 <= paper.2,
        a.1 > a.0 && a.1 > a.2,
        b.0 > b.1 && b.0 > b.2,
        c.0 > c.1 && c.0 > c.2,
        ink.3 == 255 && paper.3 == 255,
        v.text_edit == PAPER_3 && v.noninteractive.ink == INK_PRIMARY,
        v.hyperlink == ACCENT && v.warn == WARNING && v.error == DANGER,
        v.hovered.ink == INK_PRIMARY && v.active.ink == INK_PRIMARY && v.inactive.ink
            == INK_PRIMARY,
{
}

} // verus!
