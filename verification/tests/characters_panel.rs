use eve_preview_manager::characters_panel::{
    fresh_group_name, group_capture_name, move_member, remove_character, remove_member, selection_label,
    set_static_preview, switch_override, CharacterOverride,
};
use eve_preview_manager::domain::{CharacterSettings, PreviewMode};
use eve_preview_manager::hotkey::HotkeyBinding;
use eve_preview_manager::manager_ui::{
    apply_captured_binding, CachedOverrides, CaptureTarget, CharactersState, ThemeDefaults, VisualSettingsState,
};
use eve_preview_manager::profile::{CycleGroup, Profile};

fn profile() -> Profile {
    Profile::default_with_name("P".to_string(), String::new(), None)
}

fn names(v: &[&str]) -> Vec<String> {
    v.iter().map(|s| s.to_string()).collect()
}

fn defaults() -> ThemeDefaults {
    ThemeDefaults {
        active_border_color: "#FF00FF00".to_string(),
        active_border_size: 3,
        inactive_border_color: "#00000000".to_string(),
        inactive_border_size: 1,
        text_color: "#FFFFFFFF".to_string(),
    }
}

#[test]
fn new_group_names_count_up() {
    let mut p = profile();
    assert_eq!(fresh_group_name(&p.cycle_groups), "New Group");
    let mut state = CharactersState::new();
    state.add_group(&mut p);
    assert_eq!(p.cycle_groups[1].name, "New Group");
    assert_eq!(state.selected_cycle_group_index, 1);
    state.add_group(&mut p);
    assert_eq!(p.cycle_groups[2].name, "New Group 2");
    p.cycle_groups[1].name = "Renamed".to_string();
    assert_eq!(fresh_group_name(&p.cycle_groups), "New Group");
}

#[test]
fn prepare_restores_a_group_and_selection() {
    let mut p = profile();
    p.cycle_groups.clear();
    let mut state = CharactersState::new();
    state.selected_cycle_group_index = 4;
    assert!(state.prepare_groups(&mut p));
    assert_eq!(p.cycle_groups.len(), 1);
    assert_eq!(p.cycle_groups[0].name, "Default");
    assert_eq!(state.selected_cycle_group_index, 0);
    assert!(!state.prepare_groups(&mut p));
}

#[test]
fn rename_duplicate_delete_groups() {
    let mut p = profile();
    let mut state = CharactersState::new();
    p.cycle_groups[0].characters = names(&["A", "B"]);
    state.begin_rename(&p);
    assert_eq!(state.rename_buffer, "Default");
    state.rename_buffer = "Mains".to_string();
    assert!(state.finish_rename(&mut p, true));
    assert_eq!(p.cycle_groups[0].name, "Mains");
    state.begin_rename(&p);
    state.rename_buffer = "Ignored".to_string();
    assert!(!state.finish_rename(&mut p, false));
    assert_eq!(p.cycle_groups[0].name, "Mains");
    assert!(state.renaming_group_idx.is_none());

    state.duplicate_group(&mut p);
    assert_eq!(p.cycle_groups.len(), 2);
    assert_eq!(p.cycle_groups[1].name, "Mains (Copy)");
    assert_eq!(p.cycle_groups[1].characters, names(&["A", "B"]));
    assert_eq!(state.selected_cycle_group_index, 1);

    assert!(state.delete_group(&mut p));
    assert_eq!(p.cycle_groups.len(), 1);
    assert_eq!(state.selected_cycle_group_index, 0);
    // The last group stays.
    assert!(!state.delete_group(&mut p));
    assert_eq!(p.cycle_groups.len(), 1);
}

#[test]
fn drag_members_into_place() {
    let mut p = profile();
    p.cycle_groups[0].characters = names(&["A", "B", "C", "D"]);
    // Drag A below C (row 3): it lands after C.
    move_member(&mut p, 0, 0, 3);
    assert_eq!(p.cycle_groups[0].characters, names(&["B", "C", "A", "D"]));
    // Drag D onto row 0.
    move_member(&mut p, 0, 3, 0);
    assert_eq!(p.cycle_groups[0].characters, names(&["D", "B", "C", "A"]));
    // Drop below the last member.
    move_member(&mut p, 0, 1, 4);
    assert_eq!(p.cycle_groups[0].characters, names(&["D", "C", "A", "B"]));
    // Dropping on its own place changes nothing.
    move_member(&mut p, 0, 2, 2);
    move_member(&mut p, 0, 2, 3);
    assert_eq!(p.cycle_groups[0].characters, names(&["D", "C", "A", "B"]));
    remove_member(&mut p, 0, 1);
    assert_eq!(p.cycle_groups[0].characters, names(&["D", "A", "B"]));
}

#[test]
fn group_capture_names_reach_their_group() {
    assert_eq!(group_capture_name(0, true), "GROUP:0:FWD");
    assert_eq!(group_capture_name(12, false), "GROUP:12:BWD");
    let mut p = profile();
    let mut state = CharactersState::new();
    state.add_group(&mut p);
    let name = group_capture_name(1, false);
    let b = HotkeyBinding::new(59, true, false, false, false);
    assert!(apply_captured_binding(&mut p, &CaptureTarget::Character(name), b.clone()));
    assert_eq!(p.cycle_groups[1].hotkey_backward, Some(b));
    assert_eq!(p.cycle_groups[0].hotkey_backward, None);
}

#[test]
fn add_characters_from_the_list() {
    let mut p = profile();
    p.character_thumbnails.insert("Alpha".to_string(), CharacterSettings::new(0, 0, 0, 0));
    p.character_thumbnails.insert("Beta".to_string(), CharacterSettings::new(0, 0, 0, 0));
    p.cycle_groups[0].characters = names(&["Beta"]);
    let mut state = CharactersState::new();
    state.open_add_characters(&p);
    assert!(state.show_add_characters_popup);
    assert_eq!(state.character_selections.len(), 2);
    assert_eq!(state.character_selections.get("Alpha"), Some(&false));
    state.toggle_all_selections();
    assert_eq!(state.character_selections.get("Alpha"), Some(&true));
    assert_eq!(state.character_selections.get("Beta"), Some(&true));
    assert_eq!(selection_label("Beta", &p.cycle_groups[0].characters), "Beta (already in this group)");
    assert_eq!(selection_label("Alpha", &p.cycle_groups[0].characters), "Alpha");
    assert!(state.add_selected(&mut p));
    assert!(!state.show_add_characters_popup);
    assert_eq!(p.cycle_groups[0].characters, names(&["Beta", "Alpha"]));
    // Everything ticked: the toggle clears all.
    state.toggle_all_selections();
    assert_eq!(state.character_selections.get("Alpha"), Some(&false));
    assert!(!state.add_selected(&mut p));
}

#[test]
fn removing_a_character_clears_it_everywhere() {
    let mut p = profile();
    p.character_thumbnails.insert("Alpha".to_string(), CharacterSettings::new(1, 2, 3, 4));
    p.character_hotkeys.insert("Alpha".to_string(), HotkeyBinding::new(15, false, false, false, false));
    p.cycle_groups[0].characters = names(&["Alpha", "Beta", "Alpha"]);
    let mut g = CycleGroup::default_group();
    g.characters = names(&["Gamma", "Alpha"]);
    p.cycle_groups.push(g);
    remove_character(&mut p, "Alpha");
    assert!(p.character_thumbnails.get("Alpha").is_none());
    assert!(p.character_hotkeys.get("Alpha").is_none());
    assert_eq!(p.cycle_groups[0].characters, names(&["Beta"]));
    assert_eq!(p.cycle_groups[1].characters, names(&["Gamma"]));
}

#[test]
fn overrides_switch_off_and_back_on() {
    let d = defaults();
    let mut s = CharacterSettings::new(0, 0, 0, 0);
    let mut c = CachedOverrides::new();
    switch_override(&mut s, &mut c, &d, CharacterOverride::ActiveBorder, true);
    assert_eq!(s.override_active_border_color.as_deref(), Some("#FF00FF00"));
    assert_eq!(s.override_active_border_size, Some(3));
    s.override_active_border_color = Some("#FF123456".to_string());
    s.override_active_border_size = Some(9);
    switch_override(&mut s, &mut c, &d, CharacterOverride::ActiveBorder, false);
    assert!(s.override_active_border_color.is_none());
    assert_eq!(c.active_border_size, Some(9));
    switch_override(&mut s, &mut c, &d, CharacterOverride::ActiveBorder, true);
    assert_eq!(s.override_active_border_color.as_deref(), Some("#FF123456"));
    assert_eq!(s.override_active_border_size, Some(9));

    switch_override(&mut s, &mut c, &d, CharacterOverride::TextColor, true);
    assert_eq!(s.override_text_color.as_deref(), Some("#FFFFFFFF"));
    switch_override(&mut s, &mut c, &d, CharacterOverride::InactiveBorder, true);
    assert_eq!(s.override_inactive_border_size, Some(1));

    set_static_preview(&mut s, true);
    assert_eq!(s.preview_mode, PreviewMode::Static { color: "#000000".to_string() });
    set_static_preview(&mut s, false);
    assert_eq!(s.preview_mode, PreviewMode::Live);
}

#[test]
fn editor_overrides_keep_values_per_character() {
    let mut p = profile();
    let mut settings = CharacterSettings::new(0, 0, 0, 0);
    settings.override_text_color = Some("#FFABCDEF".to_string());
    p.character_thumbnails.insert("Alpha".to_string(), settings);
    let mut state = CharactersState::new();
    let d = defaults();
    state.switch_character_override(&mut p, "Alpha", &d, CharacterOverride::TextColor, false);
    assert!(p.character_thumbnails.get("Alpha").unwrap().override_text_color.is_none());
    state.switch_character_override(&mut p, "Alpha", &d, CharacterOverride::TextColor, true);
    assert_eq!(p.character_thumbnails.get("Alpha").unwrap().override_text_color.as_deref(), Some("#FFABCDEF"));
}

#[test]
fn resize_tool_sets_one_or_all_sizes() {
    let mut p = profile();
    p.character_thumbnails.insert("Alpha".to_string(), CharacterSettings::new(0, 0, 320, 180));
    p.character_thumbnails.insert("Beta".to_string(), CharacterSettings::new(5, 5, 200, 100));
    let mut v = VisualSettingsState::new(Ok(Vec::new()));
    v.select_resize_target(&p, "---");
    assert_eq!(v.last_target, "---");
    v.select_resize_target(&p, "Beta");
    assert_eq!((v.current_width, v.current_height), (200, 100));
    v.current_width = 400;
    v.current_height = 225;
    assert!(v.apply_size(&mut p, "Beta"));
    assert_eq!(p.character_thumbnails.get("Beta").unwrap().dimensions.width, 400);
    assert_eq!(p.character_thumbnails.get("Beta").unwrap().x, 5);
    assert!(!v.apply_size(&mut p, "Nobody"));

    v.select_resize_target(&p, "All Characters");
    assert_eq!((v.current_width, v.current_height), (320, 180));
    assert!(!v.apply_size(&mut p, "All Characters"));
    assert!(v.show_resize_confirmation);
    // Declining changes nothing.
    assert!(!v.confirm_resize_all(&mut p, false));
    assert!(!v.show_resize_confirmation);
    assert_eq!(p.character_thumbnails.get("Beta").unwrap().dimensions.width, 400);
    assert!(!v.apply_size(&mut p, "All Characters"));
    assert!(v.confirm_resize_all(&mut p, true));
    assert_eq!(p.character_thumbnails.get("Alpha").unwrap().dimensions.height, 180);
    assert_eq!(p.character_thumbnails.get("Beta").unwrap().dimensions.width, 320);
    assert!(v.pending_resize_all.is_none());
}
