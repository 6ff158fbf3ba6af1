//! Laws of the controls: what an entry, a row or a button does.
use vstd::prelude::*;

use crate::bus::NtripStatus;
use crate::ieee::Real64;
use crate::laws::settings::alike;
use crate::laws::{lemma_mentions, mentions};
use crate::profiles;
use crate::settings::{Profile, Settings};
use crate::sourcetable::SourceTable;
use crate::span::Span;
use crate::text::{dec, texts, trim};
use crate::ui::gga_section;
use crate::ui::gga_section::{
    arrows, body, hit_coords, manual_editor, mode_label, needs_lookup, step_selection, summary,
    take_hits, GeoHit, Gesture,
};
use crate::ui::main_window::App;
use crate::ui::ntrip_block::{
    buttons, menu_stays_open, mountpoint_combo, settle_override, status_text, Buttons, MountMenu,
};
use crate::ui::profiles_dialog;
use crate::ui::profiles_dialog::{
    activate_block_reason, begin_rename, clamp_view, delete_block_reason, end_rename,
    selection_after_remove, Outcome,
};
use crate::ui::theme::{Color, DANGER, SUCCESS, WARNING};
use crate::vocab::{GgaMode, GgaSource};

verus! {

/// A place that is picked becomes the manual position: its latitude the
/// latitude, its longitude the longitude, and nothing else of the profile.
pub proof fn law_picked_places_become_the_position(
    p: &mut Profile,
    view: &mut gga_section::ViewState,
    gesture: Gesture,
    receiver: Option<(Real64, Real64)>,
)
    requires
        call_ensures(manual_editor, (p, view, gesture, receiver), ()),
    ensures
        ({
            let hits = old(view).hits@;
            let at: int = match gesture {
                Gesture::Row(i) => i as int,
                _ => old(view).selected as int,
            };
            &&& alike(
                *old(p),
                (Profile {
                    manual_lat: old(p).manual_lat,
                    manual_lon: old(p).manual_lon,
                    ..*final(p)
                }),
            )
            &&& gesture is Receiver ==> match receiver {
                Some(r) => final(p).manual_lat == r.0 && final(p).manual_lon == r.1,
                None => *final(p) == *old(p),
            }
            &&& !(gesture is Receiver) && hits.len() == 0 ==> *final(p) == *old(p)
            &&& !(gesture is Receiver) && at < hits.len() ==> final(p).manual_lat == hits[at].lat
                && final(p).manual_lon == hits[at].lon
            &&& final(view).hits == old(view).hits && final(view).query == old(view).query
            &&& gesture matches Gesture::Row(i) ==> final(view).selected == i
        }),
{
}

/// The coordinates of the chosen hit are its own; a choice beyond the end is
/// the last.
pub proof fn law_hits_give_their_coordinates(
    hits: &Vec<GeoHit>,
    selected: usize,
    r: Option<(Real64, Real64)>,
)
    requires
        call_ensures(hit_coords, (hits, selected), r),
    ensures
        r is None <==> hits@.len() == 0,
        selected < hits@.len() ==> (r matches Some(c) && c.0 == hits@[selected as int].lat && c.1
            == hits@[selected as int].lon),
        0 < hits@.len() <= selected ==> (r matches Some(c) && c.0 == hits@.last().lat && c.1
            == hits@.last().lon),
{
}

/// The arrows move the choice by one row, within the list, and back again.
pub proof fn law_arrows_move_by_one(
    selected: usize,
    len: usize,
    down: usize,
    up: usize,
    back: usize,
)
    requires
        call_ensures(step_selection, (selected, len, true), down),
        call_ensures(step_selection, (selected, len, false), up),
        call_ensures(step_selection, (down, len, false), back),
        selected < len,
    ensures
        selected + 1 < len ==> down == selected + 1 && back == selected,
        selected + 1 == len ==> down == selected,
        selected > 0 ==> up == selected - 1,
        selected == 0 ==> up == 0,
{
}

/// The keys count only where the search has the focus and found something.
pub proof fn law_arrows_need_the_focus(
    view: &mut gga_section::ViewState,
    focused: bool,
    up: bool,
    down: bool,
)
    requires
        call_ensures(arrows, (view, focused, up, down), ()),
    ensures
        !focused || old(view).hits@.len() == 0 ==> *final(view) == *old(view),
        !up && !down ==> *final(view) == *old(view),
        focused && down && !up && old(view).selected + 1 < old(view).hits@.len() <= usize::MAX
            ==> final(view).selected == old(view).selected + 1,
        focused && up && !down && 0 < old(view).selected < old(view).hits@.len() <= usize::MAX
            ==> final(view).selected == old(view).selected - 1,
        final(view).hits == old(view).hits && final(view).query == old(view).query,
{
}

/// A search is made for each new query, once; its hits are shown from the
/// first.
pub proof fn law_queries_are_looked_up_once(
    view: &mut gga_section::ViewState,
    hits: Vec<GeoHit>,
    before: bool,
    after: bool,
)
    requires
        call_ensures(needs_lookup, (&*old(view),), before),
        call_ensures(take_hits, (view, hits), ()),
        call_ensures(needs_lookup, (&*final(view),), after),
    ensures
        before <==> old(view).query@ != old(view).resolved_for@,
        !after,
        final(view).hits == hits && final(view).selected == 0,
        final(view).query == old(view).query,
{
}

/// The summary tells the mode and the source, and with a manual position the
/// latitude before the longitude; what is off is only off.
pub proof fn law_position_summary(
    mode: GgaMode,
    source: GgaSource,
    lat: &str,
    lon: &str,
    r: String,
    word: &'static str,
    b: (bool, bool),
)
    requires
        call_ensures(summary, (mode, source, lat, lon), r),
        call_ensures(mode_label, (mode,), word),
        call_ensures(body, (mode, source), b),
    ensures
        mode == GgaMode::Off ==> r@ == "off"@,
        mode == GgaMode::Always ==> word@ == "always"@,
        mode == GgaMode::WhenRequired ==> word@ == "when required"@,
        mode != GgaMode::Off ==> r@.take(word@.len() as int) == word@,
        mode != GgaMode::Off && source == GgaSource::Receiver ==> mentions(r@, "receiver"@),
        mode != GgaMode::Off && source == GgaSource::Manual ==> mentions(r@, "manual"@)
            && mentions(r@, lat@ + ", "@ + lon@),
        b.0 <==> mode == GgaMode::WhenRequired,
        b.1 <==> source == GgaSource::Manual,
{
    if mode != GgaMode::Off {
        let w = word@;
        assert(r@.take(w.len() as int) =~= w);
        if source == GgaSource::Receiver {
            let n = (w + ", "@).len() as int;
            assert(r@.subrange(n, n + "receiver"@.len()) =~= "receiver"@);
        } else {
            reveal_strlit("manual ");
            reveal_strlit("manual");
            let n = (w + ", "@).len() as int;
            assert(r@.subrange(n, n + "manual"@.len()) =~= "manual"@);
            let k = (w + ", "@ + "manual "@).len() as int;
            let t = lat@ + ", "@ + lon@;
            assert(r@.subrange(k, k + t.len()) =~= t);
        }
    }
}

/// The menu has one entry for each stream of the table, in its order, that
/// begins with the stream's mountpoint; without streams it says so.
pub proof fn law_stream_menu(table: Option<&SourceTable>, r: MountMenu, i: int)
    requires
        call_ensures(mountpoint_combo, (table,), r),
    ensures
        r is Streams <==> (table matches Some(t) && t.strs@.len() > 0),
        r matches MountMenu::Streams(e) ==> {
            let t = table->0;
            &&& e@.len() == t.strs@.len()
            &&& 0 <= i < e@.len() ==> e@[i]@.take(t.strs@[i].mountpoint@.len() as int)
                == t.strs@[i].mountpoint@ && (t.strs@[i].format@.len() > 0 ==> mentions(
                e@[i]@,
                t.strs@[i].format@,
            ))
        },
{
    if let MountMenu::Streams(e) = r {
        let t = table->0;
        assert(texts(e@).len() == e@.len());
        if 0 <= i < e@.len() {
            let s = t.strs@[i];
            assert(texts(e@)[i] == e@[i]@);
            assert(e@[i]@.take(s.mountpoint@.len() as int) =~= s.mountpoint@);
            let n = (s.mountpoint@ + "  ("@).len() as int;
            if s.format@.len() > 0 {
                assert(e@[i]@.subrange(n, n + s.format@.len()) =~= s.format@);
            }
        }
    }
}

/// The menu closes with a choice, and with a click elsewhere once it was open.
pub proof fn law_menu_closes(
    open: bool,
    was_open: bool,
    picked: bool,
    elsewhere: bool,
    r: bool,
)
    requires
        call_ensures(menu_stays_open, (open, was_open, picked, elsewhere), r),
    ensures
        picked ==> !r,
        was_open && elsewhere ==> !r,
        !open ==> !r,
        open && !picked && !elsewhere ==> r,
        open && !picked && !was_open ==> r,
{
}

/// Without encryption nothing is left to override.
pub proof fn law_override_needs_encryption(p: &mut Profile, r: bool)
    requires
        call_ensures(settle_override, (p,), r),
    ensures
        r <==> old(p).tls,
        final(p).allow_invalid_certs <==> old(p).tls && old(p).allow_invalid_certs,
        alike(*old(p), (Profile { allow_invalid_certs: old(p).allow_invalid_certs, ..*final(p) })),
{
}

/// One button connects and disconnects, the other fetches the table: both need
/// a caster, and while connected only the first works.
pub proof fn law_buttons(busy: bool, host: &str, r: Buttons)
    requires
        call_ensures(buttons, (busy, host), r),
    ensures
        busy ==> r.connect_label@ == "Disconnect"@ && r.connect_enabled && !r.table_enabled,
        !busy ==> r.connect_label@ == "Connect"@ && (r.connect_enabled <==> trim(host@).len() > 0)
            && (r.table_enabled <==> trim(host@).len() > 0),
{
}

/// The status line tells the attempt, the limit, or how it ended, in the color
/// of what it means: good only while data flows, bad only after a failure.
pub proof fn law_status_line(
    status: &NtripStatus,
    stalled: Option<Span>,
    max: u32,
    r: (String, Color),
)
    requires
        call_ensures(status_text, (status, stalled, max), r),
    ensures
        r.1 == SUCCESS <==> *status is Streaming && stalled is None,
        r.1 == DANGER <==> (*status matches NtripStatus::Stopped { failed, .. } && failed),
        r.1 == WARNING <==> *status is ReconnectWait || *status is Streaming && stalled is Some,
        *status matches NtripStatus::Connecting { attempt } ==> mentions(
            r.0@,
            dec(attempt as nat),
        ),
        *status matches NtripStatus::ReconnectWait { next_attempt } ==> mentions(
            r.0@,
            dec(next_attempt as nat) + " of "@ + dec(max as nat),
        ),
        *status matches NtripStatus::Stopped { summary, .. } ==> r.0@ == summary@,
        *status is Streaming ==> r.0@.take(9) == "Streaming"@,
        *status is Idle ==> r.0@ == "Not connected"@,
{
    match *status {
        NtripStatus::Connecting { attempt } => {
            lemma_mentions("Connecting (attempt "@, dec(attempt as nat), ")..."@);
        },
        NtripStatus::ReconnectWait { next_attempt } => {
            let a = "Reconnecting in 10 s (attempt "@;
            let t = dec(next_attempt as nat) + " of "@ + dec(max as nat);
            let n = a.len() as int;
            assert(r.0@.subrange(n, n + t.len()) =~= t);
        },
        NtripStatus::Streaming => {
            reveal_strlit("Streaming");
            reveal_strlit("Streaming - no data for ");
            assert(r.0@.take(9) =~= "Streaming"@);
        },
        _ => {},
    }
}

/// A profile can be deleted where one is chosen, another remains, and nothing
/// runs; activated where one is chosen, another is active, and nothing runs.
pub proof fn law_profile_buttons(
    count: usize,
    busy: bool,
    chosen: bool,
    active: bool,
    d: Option<&'static str>,
    a: Option<&'static str>,
)
    requires
        call_ensures(delete_block_reason, (count, busy, chosen), d),
        call_ensures(activate_block_reason, (busy, chosen, active), a),
    ensures
        d is None <==> chosen && count >= 2 && !busy,
        a is None <==> chosen && !active && !busy,
        !chosen ==> d->0@ == a->0@,
{
}

/// After a removal the choice stays on the profile it was on, and where that
/// one is gone on the one that took its place.
pub proof fn law_choice_follows_its_profile(s: usize, removed: usize, len: usize, r: Option<usize>)
    requires
        call_ensures(selection_after_remove, (Some(s), removed, len), r),
        s <= len && removed <= len && len > 0,
    ensures
        s < removed ==> r == Some(s),
        s > removed ==> r == Some((s - 1) as usize),
        s == removed && s < len ==> r == Some(s),
        s == removed && s == len ==> r == Some((len - 1) as usize),
{
}

/// What is chosen, renamed or about to be deleted is a profile that exists.
pub proof fn law_view_stays_in_bounds(view: &mut profiles_dialog::ViewState, n: usize)
    requires
        call_ensures(clamp_view, (view, n), ()),
    ensures
        final(view).selected matches Some(i) ==> i < n && old(view).selected == Some(i),
        final(view).renaming matches Some(i) ==> i < n && old(view).renaming == Some(i),
        final(view).confirm_delete matches Some(i) ==> i < n && old(view).confirm_delete == Some(i),
        old(view).selected matches Some(i) ==> i < n ==> final(view).selected == Some(i),
        old(view).renaming matches Some(i) ==> i < n ==> final(view).renaming == Some(i)
            && final(view).rename_buf@ == old(view).rename_buf@,
        old(view).confirm_delete matches Some(i) ==> i < n ==> final(view).confirm_delete == Some(i),
{
}

/// A renaming begins with the name as it is; committed, it renames that
/// profile to what was typed, and dropped, it renames nothing.
pub proof fn law_renaming_in_place(
    view: &mut profiles_dialog::ViewState,
    i: usize,
    current: &str,
    settings: &mut Settings,
    open: &mut profiles_dialog::ViewState,
    commit: bool,
    r: bool,
    typed: &str,
    direct: &mut Settings,
    done: bool,
)
    requires
        call_ensures(begin_rename, (view, i, current), ()),
        call_ensures(end_rename, (settings, open, commit), r),
        old(open).renaming == Some(i),
        typed@ == old(open).rename_buf@,
        call_ensures(profiles::rename, (direct, i, typed), done),
        *old(direct) == *old(settings),
    ensures
        final(view).renaming == Some(i) && final(view).rename_buf@ == current@,
        final(view).confirm_delete is None && final(view).selected == old(view).selected,
        final(open).renaming is None && final(open).rename_buf@.len() == 0,
        final(open).selected == old(open).selected,
        !commit ==> !r && *final(settings) == *old(settings),
        r ==> done && final(settings)@ == final(direct)@,
        !r ==> *final(settings) == *old(settings),
        commit && done && old(settings).profiles@[i as int].name@ != trim(typed@) ==> r,
{
    if i < old(settings).profiles@.len() {
        assert(old(settings)@.profiles[i as int] == old(settings).profiles@[i as int]@);
    }
    assert(old(settings)@.profiles.len() == old(settings).profiles@.len());
}

/// Activating from the list does what the settings' own does, tells of it,
/// and asks for a save; while connected it does nothing.
pub proof fn law_activating_from_the_list(
    app: &mut App,
    i: usize,
    r: Outcome,
    direct: &mut Settings,
    done: bool,
)
    requires
        call_ensures(profiles_dialog::activate, (app, i), r),
        call_ensures(profiles::activate, (direct, i), done),
        *old(direct) == old(app).settings,
    ensures
        r.save <==> done && !old(app).ntrip,
        r.save ==> final(app).settings@ == final(direct)@ && final(app).state.ntrip.sourcetable is None && !final(app).reveal_password && r.lines@.len() == 1
            && mentions(r.lines@[0]@, old(app).settings.profiles@[i as int].name@),
        !r.save ==> *final(app) == *old(app) && r.lines@.len() == 0,
        final(app).ntrip == old(app).ntrip && final(app).serial == old(app).serial,
{
    assert(old(app).settings@.profiles.len() == old(app).settings.profiles@.len());
    if i < old(app).settings.profiles@.len() {
        assert(old(app).settings@.profiles[i as int] == old(app).settings.profiles@[i as int]@);
    }
    if r.save {
        assert(texts(r.lines@).len() == r.lines@.len());
        assert(texts(r.lines@)[0] == r.lines@[0]@);
        lemma_mentions(
            "Profile \""@,
            old(app).settings.profiles@[i as int].name@,
            "\" activated"@,
        );
    }
}

} // verus!
