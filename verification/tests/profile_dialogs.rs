use eve_preview_manager::manager_ui::{ProfileAction, ProfileSelector};
use eve_preview_manager::profile::{Config, Profile};
use eve_preview_manager::profile_dialogs::profile_label;

fn config(names: &[&str]) -> Config {
    let mut c = Config::default();
    c.profiles.clear();
    for n in names {
        c.profiles.push(Profile::default_with_name(n.to_string(), String::new(), None));
    }
    c.global.selected_profile = names[0].to_string();
    c
}

#[test]
fn dropdown_labels() {
    let mut p = Profile::default_with_name("Main".to_string(), String::new(), None);
    assert_eq!(profile_label(&p), "Main");
    p.profile_description = "PvP setup".to_string();
    assert_eq!(profile_label(&p), "Main - PvP setup");
}

#[test]
fn pick_and_load_a_profile() {
    let mut c = config(&["A", "B"]);
    let mut sel = ProfileSelector::new();
    let mut active = 0;
    assert!(!sel.can_load(active));
    sel.pick(0);
    assert!(!sel.can_load(active));
    sel.sync_pending(active);
    assert!(sel.pending_profile_idx.is_none());
    sel.pick(1);
    assert_eq!(sel.displayed_index(active), 1);
    assert!(sel.can_load(active));
    assert_eq!(sel.load(&mut c, &mut active), ProfileAction::SwitchProfile);
    assert_eq!(active, 1);
    assert_eq!(c.global.selected_profile, "B");
    assert!(sel.pending_profile_idx.is_none());
    assert_eq!(sel.load(&mut c, &mut active), ProfileAction::Nothing);
}

#[test]
fn create_duplicate_and_edit_profiles() {
    let mut c = config(&["A"]);
    let mut sel = ProfileSelector::new();
    sel.open_new();
    assert!(sel.show_new_dialog);
    assert_eq!(sel.confirm_new(&mut c, None), ProfileAction::Nothing);
    sel.edit_profile_name = "Fresh".to_string();
    assert_eq!(sel.confirm_new(&mut c, None), ProfileAction::ProfileCreated);
    assert_eq!(c.profiles.len(), 2);
    assert_eq!(c.profiles[1].profile_name, "Fresh");
    assert!(!sel.show_new_dialog);

    c.profiles[0].thumbnail_opacity = 42;
    sel.open_duplicate(&c, 0);
    assert_eq!(sel.edit_profile_name, "A (copy)");
    assert_eq!(sel.action_target_idx, Some(0));
    assert_eq!(sel.confirm_duplicate(&mut c, 0), ProfileAction::ProfileCreated);
    assert_eq!(c.profiles[2].profile_name, "A (copy)");
    assert_eq!(c.profiles[2].thumbnail_opacity, 42);
    sel.after_action(ProfileAction::ProfileCreated);
    assert!(sel.action_target_idx.is_none());

    sel.open_edit(&c, 0);
    assert_eq!(sel.edit_profile_name, "A");
    sel.edit_profile_name = "Alpha".to_string();
    assert_eq!(sel.confirm_edit(&mut c, 0), ProfileAction::ProfileUpdated);
    assert_eq!(c.profiles[0].profile_name, "Alpha");
    assert_eq!(c.global.selected_profile, "Alpha");
}

#[test]
fn delete_profiles_and_follow_the_active_one() {
    let mut c = config(&["A", "B", "C"]);
    c.global.selected_profile = "C".to_string();
    let mut sel = ProfileSelector::new();
    let mut active = 2;
    sel.pick(0);
    assert!(sel.open_delete(&c, active));
    assert_eq!(sel.action_target_idx, Some(0));
    assert_eq!(sel.confirm_delete(&mut c, &mut active), ProfileAction::ProfileDeleted);
    assert_eq!(active, 1);
    assert_eq!(c.profiles[active].profile_name, "C");
    assert_eq!(c.global.selected_profile, "C");
    sel.after_action(ProfileAction::ProfileDeleted);

    // Deleting the active last profile selects the new last one.
    assert!(sel.open_delete(&c, active));
    assert_eq!(sel.confirm_delete(&mut c, &mut active), ProfileAction::ProfileDeleted);
    assert_eq!(active, 0);
    assert_eq!(c.global.selected_profile, "B");
    // The only profile cannot be deleted.
    sel.after_action(ProfileAction::ProfileDeleted);
    assert!(!sel.open_delete(&c, active));
}
