use eve_preview_manager::color::Color32;
use eve_preview_manager::domain::CharacterSettings;
use eve_preview_manager::key_capture::CaptureState;
use eve_preview_manager::manager_ui::{
    CaptureTarget, CharactersState, DaemonStatus, GuiTab, HotkeySettingsState, ProfileAction, ProfileSelector,
    ThemeDefaults, VisualSettingsState,
};
use eve_preview_manager::profile::{Config, Profile};

#[test]
fn daemon_status_labels() {
    assert_eq!(DaemonStatus::Running.label(), "Preview daemon running");
    assert_eq!(DaemonStatus::Starting.label(), "Preview daemon starting...");
    assert_eq!(DaemonStatus::Stopped.label(), "Preview daemon stopped");
    assert_eq!(DaemonStatus::Crashed(Some(3)).label(), "Preview daemon crashed (exit 3)");
    assert_eq!(DaemonStatus::Crashed(Some(-9)).label(), "Preview daemon crashed (exit -9)");
    assert_eq!(DaemonStatus::Crashed(None).label(), "Preview daemon crashed");
    assert_eq!(DaemonStatus::from_exit(true, Some(0)), DaemonStatus::Stopped);
    assert_eq!(DaemonStatus::from_exit(false, Some(1)), DaemonStatus::Crashed(Some(1)));
    assert_ne!(GuiTab::Behavior, GuiTab::Hotkeys);
    assert_eq!(ProfileAction::Nothing, ProfileAction::Nothing);
}

#[test]
fn key_capture_dialog_state() {
    let mut s = HotkeySettingsState::new(Ok(vec![("id".to_string(), "Name".to_string())]));
    assert_eq!(s.available_devices.len(), 1);
    assert!(!s.is_dialog_open());
    s.start_key_capture_for_character("Pilot".to_string(), Ok(()));
    assert!(s.is_dialog_open());
    assert!(s.is_capturing_for("Pilot"));
    assert!(!s.is_capturing_for("Other"));
    assert!(!s.is_capturing_custom_rule("Pilot"));
    assert_eq!(s.current_capture_state, Some(CaptureState::new()));
    s.start_key_capture_for_custom_rule("Browser".to_string(), Err("no devices".to_string()));
    assert!(!s.is_dialog_open());
    assert_eq!(s.capture_error.as_deref(), Some("Failed to start key capture: no devices"));
    s.start_key_capture(CaptureTarget::ToggleSkip, Ok(()));
    assert!(s.is_dialog_open());
    assert_eq!(s.capture_error, None);
    s.cancel_capture();
    assert!(!s.is_dialog_open());
    let e = HotkeySettingsState::new(Err("denied".to_string()));
    assert!(e.available_devices.is_empty());
    assert_eq!(e.device_load_error.as_deref(), Some("denied"));
}

#[test]
fn font_list_fallback() {
    let v = VisualSettingsState::new(Err("no fontconfig".to_string()));
    assert_eq!(v.available_fonts, vec!["Monospace".to_string()]);
    assert_eq!((v.current_width, v.current_height), (250, 141));
    assert_eq!(v.last_target, "---");
    let v = VisualSettingsState::new(Ok(vec!["A".to_string(), "B".to_string()]));
    assert_eq!(v.available_fonts.len(), 2);
    assert!(v.font_load_error.is_none());
}

#[test]
fn panels_start_empty() {
    let mut c = CharactersState::new();
    assert!(c.cached_overrides.is_empty());
    c.expanded_rows.insert("Pilot".to_string(), true);
    c.load_from_profile(&Profile::default());
    assert!(c.cached_overrides.is_empty());
    assert!(c.expanded_rows.contains_key("Pilot"));
    let p = ProfileSelector::new();
    assert!(!p.show_new_dialog && p.pending_profile_idx.is_none());
    let t = ThemeDefaults::of_profile(&Profile::default());
    assert_eq!(t.active_border_size, Profile::default().thumbnail_active_border_size);
}

#[test]
fn manager_saves_disk_positions_without_resurrecting() {
    let mut gui = Config::default();
    gui.profiles[0].character_thumbnails.insert("Kept".to_string(), CharacterSettings::new(1, 1, 100, 50));
    let mut disk = Config::default();
    disk.profiles[0].character_thumbnails.insert("Kept".to_string(), CharacterSettings::new(9, 8, 7, 6));
    disk.profiles[0].character_thumbnails.insert("Deleted".to_string(), CharacterSettings::new(0, 0, 0, 0));
    let saved = gui.merge_disk_character_positions(&disk);
    let k = saved.profiles[0].character_thumbnails.get("Kept").unwrap();
    assert_eq!((k.x, k.y, k.dimensions.width), (9, 8, 100));
    assert!(!saved.profiles[0].character_thumbnails.contains_key("Deleted"));
}

#[test]
fn manager_takes_in_new_characters_and_positions() {
    let mut gui = Config::default();
    gui.profiles[0].character_thumbnails.insert("Known".to_string(), CharacterSettings::new(1, 1, 1, 1));
    let mut disk = Config::default();
    disk.profiles[0].character_thumbnails.insert("Known".to_string(), CharacterSettings::new(5, 5, 5, 5));
    disk.profiles[0].character_thumbnails.insert("New".to_string(), CharacterSettings::new(2, 2, 2, 2));
    disk.profiles[0].character_thumbnails.insert("".to_string(), CharacterSettings::new(3, 3, 3, 3));
    let merged = gui.with_new_characters_from(&disk);
    let p = &merged.profiles[0];
    assert_eq!(p.character_thumbnails.get("Known").unwrap().x, 1);
    assert_eq!(p.character_thumbnails.get("New").unwrap().x, 2);
    assert!(!p.character_thumbnails.contains_key(""));

    let mut profile = Profile::default();
    profile.record_thumbnail_position("Pilot", 10, 20, 30, 40);
    let s = profile.character_thumbnails.get("Pilot").unwrap();
    assert_eq!((s.x, s.y, s.dimensions.width, s.dimensions.height), (10, 20, 30, 40));
}

#[test]
fn profile_selection() {
    let mut config = Config::default();
    config.profiles.push(Profile::default_with_name("Second".to_string(), String::new(), None));
    assert!(config.select_profile(1));
    assert_eq!(config.global.selected_profile, "Second");
    assert_eq!(config.selected_profile_index(), 1);
    assert!(!config.select_profile(5));
    assert_eq!(config.selected_profile_index(), 1);
}

#[test]
fn daemon_status_colors() {
    assert_eq!(DaemonStatus::Running.color(), Color32 { r: 100, g: 200, b: 100, a: 255 });
    assert_eq!(DaemonStatus::Starting.color(), Color32 { r: 255, g: 200, b: 0, a: 255 });
    assert_eq!(DaemonStatus::Stopped.color(), Color32 { r: 200, g: 0, b: 0, a: 255 });
    assert_eq!(DaemonStatus::Crashed(Some(1)).color(), Color32 { r: 200, g: 0, b: 0, a: 255 });
}
