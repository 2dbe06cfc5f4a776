use eve_preview_manager::domain::{CharacterSettings, Position, PreviewMode};
use eve_preview_manager::hotkey::HotkeyBinding;
use eve_preview_manager::ipc::DaemonMessage;
use eve_preview_manager::name_map::NameMap;
use eve_preview_manager::profile::{Config, CustomWindowRule, CycleGroup, HotkeyBackendType, Profile};
use eve_preview_manager::runtime::{new_character_settings, DaemonConfig};

#[allow(clippy::too_many_arguments)]
fn test_config(
    opacity_percent: u8,
    border_size: u16,
    border_color: &str,
    text_x: i16,
    text_y: i16,
    text_color: &str,
    hide_when_no_focus: bool,
    snap_threshold: u16,
) -> DaemonConfig {
    DaemonConfig {
        profile: Profile {
            profile_name: "Test Profile".to_string(),
            profile_description: String::new(),
            thumbnail_default_width: 480,
            thumbnail_default_height: 270,
            thumbnail_enabled: true,
            thumbnail_opacity: opacity_percent,
            thumbnail_active_border: border_size > 0, // In tests, valid size > 0 implies enabled
            thumbnail_active_border_size: border_size,
            thumbnail_active_border_color: border_color.to_string(),
            thumbnail_inactive_border: false,
            thumbnail_inactive_border_size: 0,
            thumbnail_inactive_border_color: "#00000000".to_string(),
            thumbnail_text_size: 18,
            thumbnail_text_x: text_x,
            thumbnail_text_y: text_y,
            thumbnail_text_font: String::new(),
            thumbnail_text_color: text_color.to_string(),
            thumbnail_auto_save_position: false,
            thumbnail_snap_threshold: snap_threshold,
            thumbnail_hide_not_focused: hide_when_no_focus,
            thumbnail_preserve_position_on_swap: false,
            client_minimize_on_switch: false,
            client_minimize_show_overlay: false,
            hotkey_backend: HotkeyBackendType::X11,
            hotkey_input_device: None,
            cycle_groups: vec![CycleGroup::default_group()],
            hotkey_logged_out_cycle: false,
            hotkey_require_eve_focus: true,
            hotkey_profile_switch: None,
            hotkey_toggle_skip: None,
            hotkey_toggle_previews: None,
            character_hotkeys: NameMap::new(),
            character_thumbnails: NameMap::new(),
            custom_source_thumbnails: NameMap::new(),
            custom_windows: Vec::new(),
        },
        character_thumbnails: NameMap::new(),
        custom_source_thumbnails: NameMap::new(),
        profile_hotkeys: Vec::new(),
        runtime_hidden: false,
    }
}

#[test]
fn test_build_display_config_valid_colors() {
    let state = test_config(75, 3, "#FF00FF00", 15, 25, "#FFFFFFFF", true, 20);

    let config = state.build_display_config();
    assert_eq!(config.active_border_size, 3);
    assert_eq!(config.text_offset.x, 15);
    assert_eq!(config.text_offset.y, 25);
    assert!(config.hide_when_no_focus);
    assert_eq!(config.opacity, 0xBF000000);
    assert_eq!(config.active_border_color.red, 0);
    assert_eq!(config.active_border_color.green, 65535);
    assert_eq!(config.active_border_color.blue, 0);
    assert_eq!(config.active_border_color.alpha, 65535);
    assert!(!config.minimized_overlay_enabled);
}

#[test]
fn test_build_display_config_border_disabled_override() {
    let mut state = test_config(100, 5, "invalid", 10, 20, "also_invalid", false, 15);
    // Explicitly disable border, even though size is 5
    state.profile.thumbnail_active_border = false;

    let config = state.build_display_config();

    // Should enforce size 0
    assert_eq!(config.active_border_size, 0);

    // Other defaults should still apply
    assert_eq!(config.opacity, 0xFF000000);
}

#[test]
fn test_build_display_config_invalid_colors_fallback() {
    let state = test_config(100, 5, "invalid", 10, 20, "also_invalid", false, 15);

    let config = state.build_display_config();
    assert_eq!(config.opacity, 0xFF000000);
    assert_eq!(config.active_border_size, 5); // Enabled in test helper
    assert_eq!(config.active_border_color.red, 65535);
    assert_eq!(config.active_border_color.blue, 0);
    assert_eq!(config.active_border_color.alpha, 65535);
}

#[test]
fn test_handle_character_change_both_names() {
    let mut state = test_config(75, 3, "#FF00FF00", 10, 20, "#FFFFFFFF", false, 15);

    state
        .character_thumbnails
        .insert("NewChar".to_string(), CharacterSettings::new(500, 600, 240, 135));

    let current_pos = Position::new(100, 200);
    let result = state.handle_character_change("OldChar", "NewChar", current_pos, 480, 270, None);

    let old_settings = state.character_thumbnails.get("OldChar").unwrap();
    assert_eq!(old_settings.x, 100);
    assert_eq!(old_settings.y, 200);
    assert_eq!(old_settings.dimensions.width, 480);
    assert_eq!(old_settings.dimensions.height, 270);

    if let Some(new_pos) = result {
        assert_eq!(new_pos.x, 500);
        assert_eq!(new_pos.y, 600);
    }

    let new_settings = state.character_thumbnails.get("NewChar").unwrap();
    assert_eq!(new_settings.x, 500);
    assert_eq!(new_settings.y, 600);
}

#[test]
fn test_handle_character_change_logout() {
    let mut state = test_config(75, 3, "#FF00FF00", 10, 20, "#FFFFFFFF", false, 15);

    let current_pos = Position::new(300, 400);
    let result = state.handle_character_change("LoggingOut", "", current_pos, 480, 270, None);

    let settings = state.character_thumbnails.get("LoggingOut").unwrap();
    assert_eq!(settings.x, 300);
    assert_eq!(settings.y, 400);
    assert_eq!(settings.dimensions.width, 480);
    assert_eq!(settings.dimensions.height, 270);

    assert_eq!(result, None);
}

#[test]
fn test_handle_character_change_new_character_no_saved_position() {
    let mut state = test_config(75, 3, "#FF00FF00", 10, 20, "#FFFFFFFF", false, 15);

    let current_pos = Position::new(700, 800);
    let result = state.handle_character_change("", "BrandNewChar", current_pos, 480, 270, None);

    assert_eq!(result, None);
}

#[test]
fn test_save_filters_empty_keys_logic() {
    let mut state = test_config(75, 3, "#FF00FF00", 10, 20, "#FFFFFFFF", false, 15);

    // 1. Verify handle_character_change doesn't insert empty old_name
    let _ = state.handle_character_change("", "NewChar", Position::new(0, 0), 100, 100, None);
    assert!(!state.character_thumbnails.contains_key(""));

    // 2. Verify it doesn't try to look up empty new_name
    let _ = state.handle_character_change("OldChar", "", Position::new(0, 0), 100, 100, None);
    assert!(!state.character_thumbnails.contains_key(""));
}

#[test]
fn character_change_refreshes_overrides_from_disk_but_keeps_position() {
    let mut state = test_config(75, 3, "#FF00FF00", 10, 20, "#FFFFFFFF", false, 15);
    state.character_thumbnails.insert("Arriving".to_string(), CharacterSettings::new(11, 22, 33, 44));

    let mut disk = Config::default();
    let mut on_disk = CharacterSettings::new(900, 900, 1, 1);
    on_disk.preview_mode = PreviewMode::Static { color: "#112233".to_string() };
    on_disk.alias = Some("Alt".to_string());
    let mut disk_profile = Profile::default_with_name("Test Profile".to_string(), String::new(), None);
    disk_profile.character_thumbnails.insert("Arriving".to_string(), on_disk);
    disk.profiles.push(disk_profile);

    let r = state
        .handle_character_change("", "Arriving", Position::new(0, 0), 1, 1, Some(&disk))
        .unwrap();
    assert_eq!((r.x, r.y, r.dimensions.width, r.dimensions.height), (11, 22, 33, 44));
    assert_eq!(r.alias, Some("Alt".to_string()));
    assert_eq!(r.preview_mode, PreviewMode::Static { color: "#112233".to_string() });
}

#[test]
fn character_change_takes_disk_entry_when_memory_has_none() {
    let mut state = test_config(75, 3, "#FF00FF00", 10, 20, "#FFFFFFFF", false, 15);
    let mut disk = Config::default();
    let mut disk_profile = Profile::default_with_name("Test Profile".to_string(), String::new(), None);
    disk_profile.character_thumbnails.insert("Known".to_string(), CharacterSettings::new(5, 6, 7, 8));
    disk.profiles.push(disk_profile);
    let r = state
        .handle_character_change("", "Known", Position::new(0, 0), 1, 1, Some(&disk))
        .unwrap();
    assert_eq!((r.x, r.y, r.dimensions.width, r.dimensions.height), (5, 6, 7, 8));
}

#[test]
fn display_config_applies_custom_rules() {
    let mut state = test_config(75, 3, "#FF00FF00", 10, 20, "#FFFFFFFF", false, 15);
    state.profile.character_thumbnails.insert("Char".to_string(), CharacterSettings::new(1, 1, 10, 10));
    state.profile.custom_source_thumbnails.insert("Browser".to_string(), CharacterSettings::new(2, 2, 20, 20));
    state.profile.custom_windows.push(CustomWindowRule {
        title_pattern: None,
        class_pattern: Some("firefox".to_string()),
        alias: "Browser".to_string(),
        default_width: 300,
        default_height: 200,
        limit: false,
        active_border_color: Some("#FF0000FF".to_string()),
        inactive_border_color: None,
        active_border_size: Some(7),
        inactive_border_size: None,
        text_color: None,
        preview_mode: None,
        text_size: None,
        text_x: None,
        text_y: None,
        hotkey: None,
    });
    state.profile.custom_windows.push(CustomWindowRule {
        title_pattern: Some("Mail".to_string()),
        class_pattern: None,
        alias: "Mail".to_string(),
        default_width: 320,
        default_height: 240,
        limit: true,
        active_border_color: None,
        inactive_border_color: None,
        active_border_size: None,
        inactive_border_size: None,
        text_color: Some("#FFFFFFFF".to_string()),
        preview_mode: Some(PreviewMode::Static { color: "#000000".to_string() }),
        text_size: None,
        text_x: None,
        text_y: None,
        hotkey: None,
    });
    let d = state.build_display_config();
    let browser = d.character_settings.get("Browser").unwrap();
    assert_eq!((browser.x, browser.y), (2, 2));
    assert_eq!(browser.override_active_border_size, Some(7));
    assert_eq!(browser.override_active_border_color, Some("#FF0000FF".to_string()));
    let mail = d.character_settings.get("Mail").unwrap();
    assert_eq!((mail.x, mail.y, mail.dimensions.width, mail.dimensions.height), (0, 0, 320, 240));
    assert_eq!(mail.override_text_color, Some("#FFFFFFFF".to_string()));
    assert_eq!(mail.preview_mode, PreviewMode::Static { color: "#000000".to_string() });
    assert!(d.character_settings.contains_key("Char"));
}

#[test]
fn daemon_config_from_config_splits_sources_and_collects_switch_hotkeys() {
    let mut config = Config::default();
    config.profiles[0].character_thumbnails.insert("Char".to_string(), CharacterSettings::new(1, 1, 1, 1));
    config.profiles[0].character_thumbnails.insert("Src".to_string(), CharacterSettings::new(2, 2, 2, 2));
    config.profiles[0].custom_windows.push(CustomWindowRule {
        title_pattern: None,
        class_pattern: None,
        alias: "Src".to_string(),
        default_width: 1,
        default_height: 1,
        limit: false,
        active_border_color: None,
        inactive_border_color: None,
        active_border_size: None,
        inactive_border_size: None,
        text_color: None,
        preview_mode: None,
        text_size: None,
        text_x: None,
        text_y: None,
        hotkey: None,
    });
    config.profiles[0].hotkey_profile_switch = Some(HotkeyBinding::new(59, false, false, false, false));
    let mut other = Profile::default_with_name("Other".to_string(), String::new(), None);
    other.hotkey_profile_switch = Some(HotkeyBinding::new(60, false, false, false, false));
    config.profiles.push(other);

    let d = DaemonConfig::from_config(&config);
    assert!(d.character_thumbnails.contains_key("Char"));
    assert!(!d.character_thumbnails.contains_key("Src"));
    assert!(d.custom_source_thumbnails.contains_key("Src"));
    assert_eq!(d.profile_hotkeys.len(), 2);
    assert_eq!(
        d.profile_for_hotkey(&HotkeyBinding::new(60, false, false, false, false)).map(|s| s.as_str()),
        Some("Other")
    );
    assert_eq!(d.profile_for_hotkey(&HotkeyBinding::new(61, false, false, false, false)), None);
    assert!(!d.runtime_hidden);
}

#[test]
fn detected_geometry_updates_characters_and_reports() {
    let mut state = test_config(75, 3, "#FF00FF00", 10, 20, "#FFFFFFFF", false, 15);
    let mut existing = CharacterSettings::new(0, 0, 1, 1);
    existing.preview_mode = PreviewMode::Static { color: "#000000".to_string() };
    state.character_thumbnails.insert("Pilot".to_string(), existing);

    let msgs = state.record_detected_geometry("Pilot", true, 10, 20, 300, 200, true);
    let s = state.character_thumbnails.get("Pilot").unwrap();
    assert_eq!((s.x, s.y, s.dimensions.width, s.dimensions.height), (10, 20, 300, 200));
    assert_eq!(s.preview_mode, PreviewMode::Static { color: "#000000".to_string() });
    assert_eq!(
        msgs,
        vec![
            DaemonMessage::PositionChanged { name: "Pilot".to_string(), x: 10, y: 20, width: 300, height: 200, is_custom: false },
            DaemonMessage::CharacterDetected { name: "Pilot".to_string(), is_custom: false },
        ]
    );

    let msgs = state.record_detected_geometry("Src", false, 1, 2, 3, 4, false);
    assert_eq!(msgs.len(), 1);
    assert!(state.custom_source_thumbnails.contains_key("Src"));
    assert!(state.record_detected_geometry("", true, 1, 2, 3, 4, true).is_empty());
}

#[test]
fn swap_settings_follow_the_preserve_flag() {
    let s = new_character_settings(true, Position::new(5, 6), Position::new(100, 100), 10, 20);
    assert_eq!((s.x, s.y), (5, 6));
    let s = new_character_settings(false, Position::new(5, 6), Position::new(100, 100), 10, 20);
    assert_eq!((s.x, s.y, s.dimensions.width, s.dimensions.height), (120, 120, 10, 20));

    let mut state = test_config(75, 3, "#FF00FF00", 10, 20, "#FFFFFFFF", false, 15);
    let msgs = state.adopt_new_character("Fresh", s);
    assert_eq!(msgs.len(), 2);
    assert_eq!(msgs[0], DaemonMessage::CharacterDetected { name: "Fresh".to_string(), is_custom: false });
    assert!(state.character_thumbnails.contains_key("Fresh"));
}

#[test]
fn dragged_position_is_saved_for_named_characters() {
    let mut state = test_config(75, 3, "#FF00FF00", 10, 20, "#FFFFFFFF", false, 15);
    let m = state.record_dragged_position("Pilot", 40, 50, 60, 70);
    assert_eq!(m, DaemonMessage::PositionChanged { name: "Pilot".to_string(), x: 40, y: 50, width: 60, height: 70, is_custom: false });
    assert_eq!(state.character_thumbnails.get("Pilot").unwrap().x, 40);
    let _ = state.record_dragged_position("", 1, 1, 1, 1);
    assert!(!state.character_thumbnails.contains_key(""));
}

#[test]
fn default_thumbnail_size_comes_from_profile() {
    let state = test_config(75, 3, "#FF00FF00", 10, 20, "#FFFFFFFF", false, 15);
    assert_eq!(state.default_thumbnail_size(1920, 1080), (480, 270));
}
