use eve_preview_manager::constants;
use eve_preview_manager::domain::CharacterSettings;
use eve_preview_manager::hotkey::HotkeyBinding;
use eve_preview_manager::profile::{Config, CycleGroup, GlobalSettings, Profile, ProfileHelper, SaveStrategy};

#[test]
fn test_profile_default_with_name() {
    let profile = Profile::default_with_name("Test Profile".to_string(), "A test profile".to_string(), None);

    assert_eq!(profile.profile_name, "Test Profile");
    assert_eq!(profile.profile_description, "A test profile");
    assert_eq!(profile.thumbnail_opacity, constants::THUMBNAIL_OPACITY_PERCENT);
    assert_eq!(profile.thumbnail_active_border_size, constants::BORDER_SIZE);
    assert!(profile.character_thumbnails.is_empty());
    assert!(profile.custom_source_thumbnails.is_empty());
}

#[test]
fn test_config_default() {
    let config = Config::default();

    assert_eq!(config.profiles.len(), 1);
    assert_eq!(config.global.selected_profile, constants::PROFILE_NAME);
    assert_eq!(config.global.window_width, constants::MANAGER_WINDOW_WIDTH);
    assert_eq!(config.global.window_height, constants::MANAGER_WINDOW_HEIGHT);
}

#[test]
fn test_global_settings_defaults() {
    let settings = GlobalSettings::default();

    assert_eq!(settings.selected_profile, "default");
    assert_eq!(settings.window_width, constants::MANAGER_WINDOW_WIDTH);
    assert_eq!(settings.window_height, constants::MANAGER_WINDOW_HEIGHT);
}

#[test]
fn test_profile_behavior_defaults() {
    let profile = Profile::default_with_name("Test".to_string(), String::new(), None);

    assert_eq!(profile.thumbnail_snap_threshold, constants::SNAP_THRESHOLD);
    assert_eq!(profile.thumbnail_preserve_position_on_swap, constants::PRESERVE_POSITION_ON_SWAP);
    assert_eq!(profile.thumbnail_default_width, constants::THUMBNAIL_WIDTH);
    assert_eq!(profile.thumbnail_default_height, constants::THUMBNAIL_HEIGHT);
    assert_eq!(profile.client_minimize_on_switch, constants::MINIMIZE_CLIENTS_ON_SWITCH);
    assert!(!profile.client_minimize_show_overlay);
    assert_eq!(profile.thumbnail_hide_not_focused, constants::HIDE_WHEN_NO_FOCUS);
}

#[test]
fn test_save_strategy_variants() {
    let strategy = SaveStrategy::Preserve;
    assert_eq!(strategy, SaveStrategy::Preserve);
    assert_ne!(strategy, SaveStrategy::Overwrite);
}

#[test]
fn test_profile_cycle_group() {
    let mut profile = Profile::default_with_name("Cycle Test".to_string(), String::new(), None);
    // Populate the default group
    profile.cycle_groups[0].characters = vec![
        "Character1".to_string(),
        "Character2".to_string(),
        "Character3".to_string(),
    ];

    assert_eq!(profile.cycle_groups[0].characters.len(), 3);
    assert_eq!(profile.cycle_groups[0].characters[0], "Character1");
}

#[test]
fn default_profile_has_one_empty_default_group() {
    let profile = Profile::default_with_name("P".to_string(), String::new(), None);
    assert_eq!(profile.cycle_groups.len(), 1);
    assert_eq!(profile.cycle_groups[0].name, "Default");
    assert!(profile.cycle_groups[0].characters.is_empty());
    let g = CycleGroup::default_group();
    assert_eq!(g.name, "Default");
    assert!(g.hotkey_forward.is_none() && g.hotkey_backward.is_none());
}

#[test]
fn detected_font_becomes_text_font() {
    let p = Profile::default_with_name("P".to_string(), String::new(), Some("DejaVu Sans Mono".to_string()));
    assert_eq!(p.thumbnail_text_font, "DejaVu Sans Mono");
}

#[test]
fn active_profile_lookup() {
    let mut config = Config::default();
    assert!(config.get_active_profile().is_some());
    assert_eq!(config.active_profile_index(), Some(0));
    config.global.selected_profile = "missing".to_string();
    assert!(config.get_active_profile().is_none());
    assert_eq!(config.selected_profile_index(), 0);
    if let Some(p) = config.get_active_profile_mut() {
        p.thumbnail_opacity = 1;
    }
    assert_eq!(config.profiles[0].thumbnail_opacity, constants::THUMBNAIL_OPACITY_PERCENT);
}

#[test]
fn writing_the_active_profile_is_read_back() {
    let mut config = Config::default();
    let mut second = Profile::default_with_name("Second".to_string(), String::new(), None);
    second.thumbnail_opacity = 40;
    config.profiles.push(second);
    config.global.selected_profile = "Second".to_string();
    config.get_active_profile_mut().unwrap().thumbnail_opacity = 55;
    assert_eq!(config.get_active_profile().unwrap().thumbnail_opacity, 55);
    assert_eq!(config.profiles[0].thumbnail_opacity, constants::THUMBNAIL_OPACITY_PERCENT);
    assert_eq!(config.active_profile_index(), Some(1));
}

#[test]
fn preserve_merge_takes_disk_placements_only_for_known_characters() {
    let mut mem = Config::default();
    let mut kept = CharacterSettings::new(1, 2, 300, 200);
    kept.notes = Some("note".to_string());
    mem.profiles[0].character_thumbnails.insert("A".to_string(), kept);
    mem.profiles[0].custom_source_thumbnails.insert("Src".to_string(), CharacterSettings::new(0, 0, 10, 10));
    let mut disk = Config::default();
    disk.profiles[0].character_thumbnails.insert("A".to_string(), CharacterSettings::new(50, 60, 1, 1));
    disk.profiles[0].character_thumbnails.insert("Deleted".to_string(), CharacterSettings::new(5, 5, 5, 5));
    disk.profiles[0].custom_source_thumbnails.insert("Src".to_string(), CharacterSettings::new(7, 8, 1, 1));

    let merged = mem.merge_disk_positions(&disk);
    let a = merged.profiles[0].character_thumbnails.get("A").unwrap();
    assert_eq!((a.x, a.y), (50, 60));
    assert_eq!((a.dimensions.width, a.dimensions.height), (1, 1));
    assert_eq!(a.notes, Some("note".to_string()));
    assert!(!merged.profiles[0].character_thumbnails.contains_key("Deleted"));
    let s = merged.profiles[0].custom_source_thumbnails.get("Src").unwrap();
    assert_eq!((s.x, s.y), (7, 8));
    assert_eq!((s.dimensions.width, s.dimensions.height), (1, 1));
}

#[test]
fn profile_switch_hotkey_is_optional() {
    let mut p = Profile::default_with_name("P".to_string(), String::new(), None);
    assert!(p.hotkey_profile_switch.is_none());
    p.hotkey_profile_switch = Some(HotkeyBinding::new(59, true, false, false, false));
    assert_eq!(p.hotkey_profile_switch.as_ref().unwrap().display_name(), "Ctrl+F1");
}

#[test]
fn test_migration_legacy_hotkeys() {
    // A profile read from the format that predates cycle groups: no groups,
    // but the legacy group members and its two hotkeys.
    let mut old = Profile::default_with_name("Legacy Test".to_string(), String::new(), None);
    old.cycle_groups.clear();
    let dummy_binding = HotkeyBinding::new(15, false, false, false, false);
    let profile = Profile::from_helper(ProfileHelper {
        profile: old,
        hotkey_cycle_forward: Some(dummy_binding.clone()),
        hotkey_cycle_backward: Some(dummy_binding),
        hotkey_cycle_group: vec!["A".to_string(), "B".to_string()],
    });

    assert_eq!(profile.cycle_groups.len(), 1);
    let group = &profile.cycle_groups[0];
    assert_eq!(group.name, "Default");
    assert_eq!(group.characters, vec!["A", "B"]);
    assert!(group.hotkey_forward.is_some());
    assert!(group.hotkey_backward.is_some());
}

#[test]
fn migration_keeps_stored_groups() {
    let mut stored = Profile::default_with_name("Stored".to_string(), String::new(), None);
    stored.cycle_groups[0].name = "Mains".to_string();
    stored.cycle_groups[0].characters = vec!["Kept".to_string()];
    let profile = Profile::from_helper(ProfileHelper {
        profile: stored,
        hotkey_cycle_forward: Some(HotkeyBinding::new(15, false, false, false, false)),
        hotkey_cycle_backward: None,
        hotkey_cycle_group: vec!["Ignored".to_string()],
    });
    assert_eq!(profile.cycle_groups.len(), 1);
    assert_eq!(profile.cycle_groups[0].name, "Mains");
    assert_eq!(profile.cycle_groups[0].characters, vec!["Kept"]);
    assert!(profile.cycle_groups[0].hotkey_forward.is_none());
}

#[test]
fn migration_without_legacy_fields_gives_empty_default_group() {
    let mut old = Profile::default_with_name("Empty".to_string(), String::new(), None);
    old.cycle_groups.clear();
    let profile = Profile::from_helper(ProfileHelper {
        profile: old,
        hotkey_cycle_forward: None,
        hotkey_cycle_backward: None,
        hotkey_cycle_group: Vec::new(),
    });
    assert_eq!(profile.cycle_groups.len(), 1);
    assert_eq!(profile.cycle_groups[0].name, "Default");
    assert!(profile.cycle_groups[0].characters.is_empty());
    assert!(profile.cycle_groups[0].hotkey_forward.is_none());
}
