//! The profile manager. While a caster worker runs, it belongs to the active
//! profile: activating and deleting wait until it ended. Renaming is always
//! possible, since the worker identifies nothing by a profile's name.
use vstd::prelude::*;

use crate::profiles;
use crate::settings::{Settings, SettingsModel};
use crate::state::{AppState, NtripUi};
use crate::text::{push_line, same_text, texts, trim, trimmed};
use crate::ui::main_window::App;

verus! {

/// What the dialog remembers between frames.
#[derive(Debug)]
pub struct ViewState {
    pub selected: Option<usize>,
    /// The profile being renamed; the edit happens in `rename_buf`.
    pub renaming: Option<usize>,
    pub rename_buf: String,
    /// Focus the rename box on the frame it appears.
    pub rename_focus_pending: bool,
    /// The profile whose deletion awaits confirmation.
    pub confirm_delete: Option<usize>,
}

impl Default for ViewState {
    fn default() -> (r: ViewState)
        ensures
            r.selected is None && r.renaming is None && r.confirm_delete is None,
            r.rename_buf@ == Seq::<char>::empty(),
            !r.rename_focus_pending,
    {
        ViewState {
            selected: None,
            renaming: None,
            rename_buf: String::new(),
            rename_focus_pending: false,
            confirm_delete: None,
        }
    }
}

/// Why Delete is disabled right now; none when it is allowed.
pub fn delete_block_reason(profile_count: usize, busy: bool, have_selection: bool) -> (r: Option<
    &'static str,
>)
    ensures
        match r {
            None => have_selection && profile_count > 1 && !busy,
            Some(t) => if !have_selection {
                t@ == "Select a profile first"@
            } else if profile_count <= 1 {
                t@ == "The last profile cannot be deleted"@
            } else {
                busy && t@ == "Disconnect before deleting profiles"@
            },
        },
{
    if !have_selection {
        return Some("Select a profile first");
    }
    if profile_count <= 1 {
        return Some("The last profile cannot be deleted");
    }
    if busy {
        return Some("Disconnect before deleting profiles");
    }
    None
}

/// Why Activate is disabled right now; none when it is allowed.
pub fn activate_block_reason(busy: bool, have_selection: bool, selected_is_active: bool) -> (r:
    Option<&'static str>)
    ensures
        match r {
            None => have_selection && !selected_is_active && !busy,
            Some(t) => if !have_selection {
                t@ == "Select a profile first"@
            } else if selected_is_active {
                t@ == "Already the active profile"@
            } else {
                busy && t@ == "Disconnect before switching profiles"@
            },
        },
{
    if !have_selection {
        return Some("Select a profile first");
    }
    if selected_is_active {
        return Some("Already the active profile");
    }
    if busy {
        return Some("Disconnect before switching profiles");
    }
    None
}

/// Where the selection lands after a deletion.
pub open spec fn selection_after(
    selected: Option<usize>,
    removed: usize,
    new_len: usize,
) -> Option<usize> {
    match selected {
        None => None,
        Some(s) => if new_len == 0 {
            None
        } else {
            let moved = if s > removed {
                (s - 1) as usize
            } else {
                s
            };
            Some(
                if moved < new_len {
                    moved
                } else {
                    (new_len - 1) as usize
                },
            )
        },
    }
}

/// Where the selection lands after deleting `removed` from a list now
/// `new_len` long: on the same item, or, when that was the deleted one, on the
/// item that slid into its place, clamped to the end.
pub fn selection_after_remove(selected: Option<usize>, removed: usize, new_len: usize) -> (r:
    Option<usize>)
    ensures
        r == selection_after(selected, removed, new_len),
{
    match selected {
        None => None,
        Some(s) => {
            if new_len == 0 {
                return None;
            }
            let moved: usize = if s > removed {
                s - 1
            } else {
                s
            };
            if moved < new_len {
                Some(moved)
            } else {
                Some(new_len - 1)
            }
        },
    }
}

/// A selected profile that was not the deleted one stays selected.
pub proof fn law_selection_follows_its_profile<T>(list: Seq<T>, selected: usize, removed: usize)
    requires
        selected < list.len() <= usize::MAX,
        removed < list.len(),
        selected != removed,
    ensures
        ({
            let left = list.remove(removed as int);
            let s = selection_after(Some(selected), removed, left.len() as usize);
            s is Some && s->0 < left.len() && left[s->0 as int] == list[selected as int]
        }),
{
}

/// An index that no longer names a profile is forgotten.
pub open spec fn still(i: Option<usize>, n: nat) -> Option<usize> {
    match i {
        Some(k) => if k < n {
            Some(k)
        } else {
            None
        },
        None => None,
    }
}

fn still_exec(i: Option<usize>, n: usize) -> (r: Option<usize>)
    ensures
        r == still(i, n as nat),
{
    match i {
        Some(k) => if k < n {
            Some(k)
        } else {
            None
        },
        None => None,
    }
}

/// Whether every stored index names one of `n` profiles.
pub open spec fn in_bounds(v: ViewState, n: nat) -> bool {
    v.selected == still(v.selected, n) && v.renaming == still(v.renaming, n) && v.confirm_delete
        == still(v.confirm_delete, n)
}

/// Forget every index that no longer names a profile: the list may have been
/// edited elsewhere.
pub fn clamp_view(view: &mut ViewState, n: usize)
    ensures
        in_bounds(*final(view), n as nat),
        final(view).selected == still(old(view).selected, n as nat),
        final(view).renaming == still(old(view).renaming, n as nat),
        final(view).confirm_delete == still(old(view).confirm_delete, n as nat),
        final(view).rename_focus_pending == old(view).rename_focus_pending,
        final(view).rename_buf@ == (if old(view).renaming is Some && final(view).renaming is None {
            Seq::empty()
        } else {
            old(view).rename_buf@
        }),
{
    view.selected = still_exec(view.selected, n);
    if view.renaming.is_some() && still_exec(view.renaming, n).is_none() {
        view.renaming = None;
        view.rename_buf = String::new();
    }
    view.confirm_delete = still_exec(view.confirm_delete, n);
}

/// A profile's row.
pub fn row_label(name: &str, active: &str) -> (r: (String, bool))
    ensures
        r.1 == (name@ == active@),
        r.0@ == (if name@ == active@ {
            name@ + "  (active)"@
        } else {
            name@
        }),
{
    let mut s = name.to_owned();
    if same_text(name, active) {
        s.append("  (active)");
        (s, true)
    } else {
        (s, false)
    }
}

/// Start renaming profile `i`, which is called `current`.
pub fn begin_rename(view: &mut ViewState, i: usize, current: &str)
    ensures
        final(view).rename_buf@ == current@,
        *final(view) == (ViewState {
            selected: old(view).selected,
            renaming: Some(i),
            rename_buf: final(view).rename_buf,
            rename_focus_pending: true,
            confirm_delete: None,
        }),
{
    view.renaming = Some(i);
    view.rename_buf = current.to_owned();
    view.rename_focus_pending = true;
    view.confirm_delete = None;
}

/// Give up a rename.
pub fn cancel_rename(view: &mut ViewState)
    ensures
        final(view).rename_buf@ == Seq::<char>::empty(),
        *final(view) == (ViewState {
            renaming: None,
            rename_buf: final(view).rename_buf,
            ..*old(view)
        }),
{
    view.renaming = None;
    view.rename_buf = String::new();
}

/// Whether a rename would change the profile's name.
pub open spec fn rename_lands(s: SettingsModel, i: usize, buf: Seq<char>) -> bool {
    i < s.profiles.len() && s.profiles[i as int].name != trim(buf) && trim(buf).len() > 0
}

/// Leave rename mode and, if `commit` asks for it, write the new name. Returns
/// whether the settings are to be saved; a rename that changes nothing saves
/// nothing.
pub fn end_rename(settings: &mut Settings, view: &mut ViewState, commit: bool) -> (r: bool)
    requires
        old(settings).profiles@.len() <= u32::MAX - 2,
    ensures
        match old(view).renaming {
            None => !r && *final(view) == *old(view) && *final(settings) == *old(settings),
            Some(i) => {
                &&& final(view).rename_buf@ == Seq::<char>::empty()
                &&& *final(view) == (ViewState {
                    renaming: None,
                    rename_buf: final(view).rename_buf,
                    rename_focus_pending: false,
                    ..*old(view)
                })
                &&& r == (commit && rename_lands(old(settings)@, i, old(view).rename_buf@))
                &&& r ==> final(settings)@ == profiles::renamed(
                    old(settings)@,
                    i as int,
                    old(view).rename_buf@,
                )
                &&& !r ==> *final(settings) == *old(settings)
            },
        },
{
    match view.renaming {
        None => false,
        Some(i) => {
            view.renaming = None;
            let buf = view.rename_buf.clone();
            view.rename_buf = String::new();
            view.rename_focus_pending = false;
            if !commit || i >= settings.profiles.len() {
                return false;
            }
            assert(settings@.profiles[i as int].name == settings.profiles@[i as int].name@);
            if same_text(settings.profiles[i].name.as_str(), trimmed(buf.as_str())) {
                return false;
            }
            profiles::rename(settings, i, buf.as_str())
        },
    }
}

/// The settings once a rename that is under way is committed.
pub open spec fn settled(s: SettingsModel, v: ViewState) -> SettingsModel {
    match v.renaming {
        Some(i) => if rename_lands(s, i, v.rename_buf@) {
            profiles::renamed(s, i as int, v.rename_buf@)
        } else {
            s
        },
        None => s,
    }
}

/// Whether a rename that is under way changes a name.
pub open spec fn settles(s: SettingsModel, v: ViewState) -> bool {
    v.renaming matches Some(i) && rename_lands(s, i, v.rename_buf@)
}

/// Whether `after` is `before` outside rename mode, as far as that mode goes.
pub open spec fn left_rename(before: ViewState, after: ViewState) -> bool {
    &&& after.renaming is None
    &&& after.rename_buf@ == (if before.renaming is Some {
        Seq::empty()
    } else {
        before.rename_buf@
    })
    &&& after.rename_focus_pending == (before.renaming is None && before.rename_focus_pending)
}

/// The application with these settings and nothing left of the caster that
/// was active before.
pub open spec fn switched(app: App, settings: Settings) -> App {
    App {
        settings,
        reveal_password: false,
        mount_popup_open: false,
        state: AppState {
            ntrip: NtripUi { sourcetable: None, ..app.state.ntrip },
            ..app.state
        },
        ..app
    }
}

/// What an action leaves to be done.
#[derive(Debug)]
pub struct Outcome {
    pub lines: Vec<String>,
    /// Whether a rename was committed first, which saves by itself.
    pub renamed: bool,
    pub save: bool,
}

/// Make profile `i` active, unless a caster worker runs. A real change drops
/// what belonged to the caster before it.
pub fn activate(app: &mut App, i: usize) -> (r: Outcome)
    ensures
        ({
            let s = old(app).settings@;
            let changes = !old(app).ntrip && i < s.profiles.len() && s.profiles[i as int].name
                != s.active_profile;
            &&& r.save == changes && !r.renamed
            &&& changes ==> {
                &&& texts(r.lines@) == seq![
                    "Profile \""@ + s.profiles[i as int].name + "\" activated"@,
                ]
                &&& final(app).settings@ == profiles::activated(s, i as int)
                &&& *final(app) == switched(*old(app), final(app).settings)
            }
            &&& !changes ==> r.lines@.len() == 0 && *final(app) == *old(app)
        }),
{
    let mut lines: Vec<String> = Vec::new();
    let ghost s = app.settings@;
    proof {
        if i < s.profiles.len() {
            assert(s.profiles[i as int].name == app.settings.profiles@[i as int].name@);
        }
    }
    if app.ntrip {
        return Outcome { lines, renamed: false, save: false };
    }
    if !profiles::activate(&mut app.settings, i) {
        return Outcome { lines, renamed: false, save: false };
    }
    assert(app.settings@.profiles[i as int].name == s.profiles[i as int].name);
    let mut t = "Profile \"".to_owned();
    t.append(app.settings.profiles[i].name.as_str());
    t.append("\" activated");
    assert(texts(lines@) =~= Seq::<Seq<char>>::empty());
    push_line(&mut lines, t);
    assert(texts(lines@) =~= seq!["Profile \""@ + s.profiles[i as int].name + "\" activated"@]);
    app.on_profile_switched();
    Outcome { lines, renamed: false, save: true }
}

/// The New button: finish a rename that is under way, append a profile,
/// select it and start naming it. Returns its index, and whether the rename
/// changed a name.
pub fn new_profile(settings: &mut Settings, view: &mut ViewState) -> (r: (usize, bool))
    requires
        old(settings).profiles@.len() <= u32::MAX - 2,
    ensures
        ({
            let s = settled(old(settings)@, *old(view));
            &&& final(settings)@ == profiles::added(s)
            &&& r.0 == s.profiles.len() && r.1 == settles(old(settings)@, *old(view))
            &&& final(view).selected == Some(r.0) && final(view).renaming == Some(r.0)
            &&& final(view).confirm_delete is None && final(view).rename_focus_pending
            &&& final(view).rename_buf@ == final(settings)@.profiles[r.0 as int].name
        }),
{
    let ghost before = settings@.profiles.len();
    let renamed = end_rename(settings, view, true);
    assert(settings@.profiles.len() == before);
    assert(settings.profiles@.len() == settings@.profiles.len());
    let i: usize = profiles::add(settings);
    view.selected = Some(i);
    view.confirm_delete = None;
    assert(settings.profiles@.len() == settings@.profiles.len());
    assert(settings@.profiles[i as int].name == settings.profiles@[i as int].name@);
    begin_rename(view, i, settings.profiles[i].name.as_str());
    (i, renamed)
}

/// The Duplicate button on the selected profile: finish a rename that is
/// under way, append the copy and select it. Returns whether there is a copy,
/// and whether the rename changed a name.
pub fn duplicate_profile(settings: &mut Settings, view: &mut ViewState, i: usize) -> (r: (
    bool,
    bool,
))
    requires
        old(settings).profiles@.len() <= u32::MAX - 2,
    ensures
        ({
            let s = settled(old(settings)@, *old(view));
            &&& r.0 == (i < s.profiles.len()) && r.1 == settles(old(settings)@, *old(view))
            &&& left_rename(*old(view), *final(view))
            &&& r.0 ==> final(settings)@ == profiles::duplicated(s, i as int) && final(view).selected
                == Some(s.profiles.len() as usize) && final(view).confirm_delete is None
            &&& !r.0 ==> final(settings)@ == s && final(view).selected == old(view).selected
                && final(view).confirm_delete == old(view).confirm_delete
        }),
{
    let ghost before = settings@.profiles.len();
    let renamed = end_rename(settings, view, true);
    assert(settings@.profiles.len() == before);
    assert(settings.profiles@.len() == settings@.profiles.len());
    match profiles::duplicate(settings, i) {
        Some(j) => {
            view.selected = Some(j);
            view.confirm_delete = None;
            (true, renamed)
        },
        None => (false, renamed),
    }
}

/// Finish a rename that is under way and remove a profile. Returns whether the
/// rename changed a name, whether the profile is gone, and whether another one
/// is active for it.
fn settle_and_remove(settings: &mut Settings, view: &mut ViewState, i: usize) -> (r: (
    bool,
    bool,
    bool,
))
    requires
        old(settings).profiles@.len() <= u32::MAX - 2,
    ensures
        r.0 == settles(old(settings)@, *old(view)),
        left_rename(*old(view), *final(view)),
        final(view).selected == old(view).selected,
        final(view).confirm_delete == old(view).confirm_delete,
        ({
            let s = settled(old(settings)@, *old(view));
            &&& s.profiles.len() == old(settings)@.profiles.len()
            &&& r.1 == (s.profiles.len() > 1 && i < s.profiles.len())
            &&& r.1 ==> final(settings)@.profiles.len() == s.profiles.len() - 1
            &&& final(settings)@ == (if r.1 {
                profiles::removed(s, i as int)
            } else {
                s
            })
            &&& r.2 == (final(settings)@.active_profile != s.active_profile)
        }),
{
    let renamed = end_rename(settings, view, true);
    assert(settings@ == settled(old(settings)@, *old(view)));
    assert(settings@.profiles.len() == settings.profiles@.len());
    let active_before = settings.active_profile.clone();
    let removed = profiles::remove(settings, i);
    let switched = !same_text(settings.active_profile.as_str(), active_before.as_str());
    (renamed, removed, switched)
}

/// The confirmed deletion of the profile that awaits it: finish a rename that
/// is under way, delete, and keep a sensible selection. Nothing is deleted
/// while a caster worker runs.
#[verifier::rlimit(100)]
#[verifier::spinoff_prover]
pub fn confirm_delete(app: &mut App, view: &mut ViewState) -> (r: Outcome)
    requires
        old(app).settings.profiles@.len() <= u32::MAX - 2,
    ensures
        old(app).ntrip || old(view).confirm_delete is None ==> r.lines@.len() == 0 && !r.save
            && !r.renamed && *final(app) == *old(app) && *final(view) == *old(view),
        !old(app).ntrip && old(view).confirm_delete is Some ==> ({
            let i = old(view).confirm_delete->0;
            let s = settled(old(app).settings@, *old(view));
            let deletes = s.profiles.len() > 1 && i < s.profiles.len();
            &&& final(view).confirm_delete is None && left_rename(*old(view), *final(view))
            &&& r.renamed == settles(old(app).settings@, *old(view))
            &&& deletes ==> {
                &&& r.save
                &&& final(app).settings@ == profiles::removed(s, i as int)
                &&& final(view).selected == selection_after(
                    old(view).selected,
                    i,
                    (s.profiles.len() - 1) as usize,
                )
                &&& texts(r.lines@) == seq![
                    "Profile \""@ + old(app).settings@.profiles[i as int].name + "\" deleted"@,
                ]
                &&& *final(app) == (if final(app).settings@.active_profile != s.active_profile {
                    switched(*old(app), final(app).settings)
                } else {
                    App { settings: final(app).settings, ..*old(app) }
                })
            }
            &&& !deletes ==> {
                &&& r.lines@.len() == 0 && !r.save
                &&& final(app).settings@ == s
                &&& *final(app) == (App { settings: final(app).settings, ..*old(app) })
                &&& final(view).selected == old(view).selected
            }
        }),
{
    let mut lines: Vec<String> = Vec::new();
    assert(texts(lines@) =~= Seq::<Seq<char>>::empty());
    if app.ntrip {
        return Outcome { lines, renamed: false, save: false };
    }
    match view.confirm_delete {
        None => Outcome { lines, renamed: false, save: false },
        Some(i) => {
            let ghost start = app.settings@;
            let name = if i < app.settings.profiles.len() {
                assert(start.profiles[i as int].name == app.settings.profiles@[i as int].name@);
                app.settings.profiles[i].name.clone()
            } else {
                String::new()
            };
            view.confirm_delete = None;
            let (renamed, removed, switched) = settle_and_remove(&mut app.settings, view, i);
            if !removed {
                return Outcome { lines, renamed, save: false };
            }
            let ghost s = settled(start, *old(view));
            let ghost removed_from = app.settings;
            assert(app.settings.profiles@.len() == app.settings@.profiles.len());
            assert(app.settings.profiles@.len() == s.profiles.len() - 1);
            view.selected =
                selection_after_remove(view.selected, i, app.settings.profiles.len());
            let mut t = "Profile \"".to_owned();
            t.append(name.as_str());
            t.append("\" deleted");
            push_line(&mut lines, t);
            assert(texts(lines@) =~= seq![
                "Profile \""@ + start.profiles[i as int].name + "\" deleted"@,
            ]);
            if switched {
                app.on_profile_switched();
            }
            assert(app.settings == removed_from);
            Outcome { lines, renamed, save: true }
        },
    }
}

} // verus!
