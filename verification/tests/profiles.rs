//! Profile management and its dialog.
use open_ntrip_client::profiles;
use open_ntrip_client::settings::{Profile, Settings};
use open_ntrip_client::ui::main_window::App;
use open_ntrip_client::ui::profiles_dialog::{
    activate, activate_block_reason, begin_rename, cancel_rename, clamp_view, confirm_delete,
    delete_block_reason, duplicate_profile, end_rename, new_profile, row_label,
    selection_after_remove, ViewState,
};
use open_ntrip_client::vocab::{GgaMode, GgaSource};

fn settings_with(names: &[&str]) -> Settings {
    let mut s = Settings::default();
    s.active_profile = names[0].to_string();
    s.profiles = names
        .iter()
        .map(|n| Profile { name: n.to_string(), ..Profile::default() })
        .collect();
    s
}

fn app_with(names: &[&str]) -> App {
    App::new(
        "base".to_string(),
        '/',
        settings_with(names),
        Vec::new(),
        Vec::new(),
        None,
        None,
        (2026, 7, 16),
        0,
    )
    .0
}

#[test]
fn add_uses_unique_names() {
    let mut s = settings_with(&["Default"]);
    let a = profiles::add(&mut s);
    let b = profiles::add(&mut s);
    assert_eq!(s.profiles[a].name, "New profile");
    assert_eq!(s.profiles[b].name, "New profile 2");
    assert_eq!(profiles::add(&mut s), 3);
    assert_eq!(s.profiles[3].name, "New profile 3");
    assert_eq!(s.active_profile, "Default", "adding never steals focus");
}

#[test]
fn add_starts_from_connectable_defaults() {
    let mut s = settings_with(&["Default"]);
    let i = profiles::add(&mut s);
    let p = &s.profiles[i];
    // The fresh profile must be usable after typing only a host: the
    // standard caster port and parity-shaped GGA behavior come along.
    assert_eq!(p.port, 2101);
    assert_eq!(p.gga_mode, GgaMode::WhenRequired);
    assert_eq!(p.gga_source, GgaSource::Receiver);
    assert!(!p.tls);
    assert_eq!(p.ntrip_version, 1);
    assert!(p.host.is_empty());
    assert!(p.mountpoint.is_empty());
}

#[test]
fn duplicate_copies_everything_but_the_name() {
    let mut s = settings_with(&["Rig"]);
    s.profiles[0].host = "caster.example".to_string();
    s.profiles[0].password = "secret".to_string();
    s.profiles[0].tls = true;
    let i = profiles::duplicate(&mut s, 0).unwrap();
    assert_eq!(s.profiles[i].name, "Rig copy");
    assert_eq!(s.profiles[i].host, "caster.example");
    assert_eq!(s.profiles[i].password, "secret");
    assert!(s.profiles[i].tls);
    let j = profiles::duplicate(&mut s, 0).unwrap();
    assert_eq!(s.profiles[j].name, "Rig copy 2");
    assert_eq!(profiles::duplicate(&mut s, 99), None);
}

#[test]
fn rename_follows_active_and_resolves_collisions() {
    let mut s = settings_with(&["A", "B"]);
    assert!(profiles::rename(&mut s, 0, "Field rig"));
    assert_eq!(s.profiles[0].name, "Field rig");
    assert_eq!(s.active_profile, "Field rig", "active follows its rename");

    // Renaming the non-active profile leaves the pointer alone.
    assert!(profiles::rename(&mut s, 1, "Bench"));
    assert_eq!(s.active_profile, "Field rig");

    // Collision gets suffixed rather than silently merging identities.
    assert!(profiles::rename(&mut s, 1, "Field rig"));
    assert_eq!(s.profiles[1].name, "Field rig 2");

    // Renaming to the profile's own current name is a no-op success.
    assert!(profiles::rename(&mut s, 0, "Field rig"));
    assert_eq!(s.profiles[0].name, "Field rig");

    assert!(!profiles::rename(&mut s, 0, "   "), "blank names rejected");
    assert_eq!(s.profiles[0].name, "Field rig");
    assert!(!profiles::rename(&mut s, 9, "X"), "out of range rejected");
}

#[test]
fn rename_trims_and_numbers_past_taken_suffixes() {
    let mut s = settings_with(&["A", "X", "X 2", "X 4"]);
    assert!(profiles::rename(&mut s, 0, "  X "));
    assert_eq!(s.profiles[0].name, "X 3");
    assert_eq!(s.active_profile, "X 3");
    assert_eq!(profiles::unique_name(&s, "   ", None), "Profile");
}

#[test]
fn activate_switches_only_on_real_change() {
    let mut s = settings_with(&["A", "B"]);
    assert!(profiles::activate(&mut s, 1), "switching to B is a change");
    assert_eq!(s.active_profile, "B");
    assert!(!profiles::activate(&mut s, 1), "re-activating B is a no-op");
    assert_eq!(s.active_profile, "B");
    assert!(!profiles::activate(&mut s, 9), "out of range rejected");
    assert_eq!(s.active_profile, "B");
    assert!(profiles::activate(&mut s, 0));
    assert_eq!(s.active_profile, "A");
}

#[test]
fn remove_guards_the_last_profile_and_reassigns_active() {
    let mut s = settings_with(&["A", "B", "C"]);
    s.active_profile = "B".to_string();

    assert!(profiles::remove(&mut s, 1), "deleting the active profile");
    assert_eq!(s.active_profile, "A", "first remaining becomes active");
    assert_eq!(s.profiles.len(), 2);

    assert!(profiles::remove(&mut s, 1), "deleting a non-active profile");
    assert_eq!(s.active_profile, "A");
    assert_eq!(s.profiles.len(), 1);

    assert!(!profiles::remove(&mut s, 0), "the last profile is undeletable");
    assert_eq!(s.profiles.len(), 1);
    assert!(!profiles::remove(&mut s, 5), "out of range rejected");

    // The surviving state still satisfies the accessors' invariants.
    assert_eq!(s.active().name, "A");
}

#[test]
fn delete_guard_covers_selection_last_profile_and_connection() {
    assert!(
        delete_block_reason(3, false, false).is_some(),
        "no selection"
    );
    assert_eq!(
        delete_block_reason(1, false, true),
        Some("The last profile cannot be deleted")
    );
    assert_eq!(
        delete_block_reason(3, true, true),
        Some("Disconnect before deleting profiles")
    );
    assert_eq!(delete_block_reason(2, false, true), None);
    // Last-profile beats busy: the reason shown is the permanent one.
    assert_eq!(
        delete_block_reason(1, true, true),
        Some("The last profile cannot be deleted")
    );
}

#[test]
fn activate_guard_covers_selection_identity_and_connection() {
    assert!(activate_block_reason(false, false, false).is_some());
    assert_eq!(
        activate_block_reason(false, true, true),
        Some("Already the active profile")
    );
    assert_eq!(
        activate_block_reason(true, true, false),
        Some("Disconnect before switching profiles")
    );
    assert_eq!(activate_block_reason(false, true, false), None);
}

#[test]
fn dialog_rename_saves_only_real_changes() {
    let mut s = settings_with(&["A", "B"]);
    let mut v = ViewState::default();
    begin_rename(&mut v, 0, "A");
    assert_eq!(v.rename_buf, "A");
    assert!(v.rename_focus_pending);
    assert!(!end_rename(&mut s, &mut v, true), "same name: nothing to save");
    begin_rename(&mut v, 0, "A");
    v.rename_buf = " Field ".to_string();
    assert!(end_rename(&mut s, &mut v, true));
    assert_eq!(s.profiles[0].name, "Field");
    assert_eq!(s.active_profile, "Field");
    assert!(v.renaming.is_none() && v.rename_buf.is_empty());
    begin_rename(&mut v, 1, "B");
    v.rename_buf = "C".to_string();
    assert!(!end_rename(&mut s, &mut v, false), "not committed");
    begin_rename(&mut v, 1, "B");
    cancel_rename(&mut v);
    assert!(!end_rename(&mut s, &mut v, true), "nothing under way");
    assert_eq!(s.profiles[1].name, "B");
}

#[test]
fn dialog_forgets_stale_indices() {
    let mut v = ViewState::default();
    v.selected = Some(3);
    v.renaming = Some(1);
    v.rename_buf = "x".to_string();
    v.confirm_delete = Some(0);
    clamp_view(&mut v, 1);
    assert_eq!(v.selected, None);
    assert_eq!(v.renaming, None);
    assert!(v.rename_buf.is_empty());
    assert_eq!(v.confirm_delete, Some(0));
}

#[test]
fn dialog_new_and_duplicate_select_the_result() {
    let mut s = settings_with(&["A"]);
    let mut v = ViewState::default();
    assert_eq!(new_profile(&mut s, &mut v), (1, false));
    assert_eq!(v.selected, Some(1));
    assert_eq!(v.renaming, Some(1));
    assert_eq!(v.rename_buf, "New profile");
    v.rename_buf = "Rig".to_string();
    assert_eq!(duplicate_profile(&mut s, &mut v, 1), (true, true));
    assert_eq!(s.profiles[1].name, "Rig");
    assert_eq!(s.profiles[2].name, "Rig copy");
    assert_eq!(v.selected, Some(2));
    assert_eq!(duplicate_profile(&mut s, &mut v, 9), (false, false));
}

#[test]
fn dialog_activation_and_deletion_wait_for_the_worker() {
    let mut app = app_with(&["A", "B"]);
    let mut v = ViewState::default();
    app.ntrip = true;
    assert!(!activate(&mut app, 1).save);
    v.confirm_delete = Some(1);
    assert!(!confirm_delete(&mut app, &mut v).save);
    assert_eq!(app.settings.profiles.len(), 2);

    app.ntrip = false;
    app.reveal_password = true;
    let out = activate(&mut app, 1);
    assert!(out.save);
    assert_eq!(out.lines, vec!["Profile \"B\" activated".to_string()]);
    assert!(!app.reveal_password, "what belonged to the old caster is dropped");
    assert!(!activate(&mut app, 1).save, "re-activation changes nothing");

    v.selected = Some(1);
    let out = confirm_delete(&mut app, &mut v);
    assert!(out.save);
    assert_eq!(out.lines, vec!["Profile \"B\" deleted".to_string()]);
    assert_eq!(app.settings.active_profile, "A");
    assert_eq!(v.selected, Some(0));
    v.confirm_delete = Some(0);
    let out = confirm_delete(&mut app, &mut v);
    assert!(!out.save && out.lines.is_empty(), "the last profile stays");
}

#[test]
fn dialog_row_marks_the_active_profile() {
    assert_eq!(row_label("A", "A"), ("A  (active)".to_string(), true));
    assert_eq!(row_label("B", "A"), ("B".to_string(), false));
}

#[test]
fn selection_stays_on_its_profile_after_a_deletion() {
    assert_eq!(selection_after_remove(Some(3), 1, 3), Some(2));
    assert_eq!(selection_after_remove(Some(0), 1, 3), Some(0));
}

#[test]
fn selection_survives_removals_sensibly() {
    // Deleting the selected middle row: stay on the row that slid up.
    assert_eq!(selection_after_remove(Some(1), 1, 2), Some(1));
    // Deleting the selected last row: clamp to the new end.
    assert_eq!(selection_after_remove(Some(2), 2, 2), Some(1));
    // Deleting above the selection: selection follows its item down.
    assert_eq!(selection_after_remove(Some(2), 0, 2), Some(1));
    // Deleting below the selection: selection keeps its item.
    assert_eq!(selection_after_remove(Some(0), 2, 2), Some(0));
    // No selection stays no selection.
    assert_eq!(selection_after_remove(None, 0, 2), None);
    // Total even for the impossible empty list.
    assert_eq!(selection_after_remove(Some(0), 0, 0), None);
}
