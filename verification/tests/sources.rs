use eve_preview_manager::domain::PreviewMode;
use eve_preview_manager::profile::Profile;
use eve_preview_manager::sources::{
    describe_rule, listable_applications, pattern_from_text, set_rule_override, RuleOverride, SourcesTab, WindowInfo,
};

fn win(id: u32, class: &str, title: &str) -> WindowInfo {
    WindowInfo { id, title: title.to_string(), class: class.to_string() }
}

fn profile_with_rule() -> (SourcesTab, Profile) {
    let mut tab = SourcesTab::default();
    let mut profile = Profile::default_with_name("P".to_string(), String::new(), None);
    tab.new_rule.alias = "Browser".to_string();
    tab.new_rule.class_pattern = Some("firefox".to_string());
    assert!(tab.add_source(&mut profile));
    (tab, profile)
}

#[test]
fn sources_tab_starts_empty() {
    let tab = SourcesTab::default();
    assert_eq!(tab.new_rule.default_width, 250);
    assert_eq!(tab.new_rule.default_height, 140);
    assert!(tab.new_rule.alias.is_empty());
    assert!(!tab.new_rule_is_valid());
    assert!(tab.running_apps.is_none());
    assert!(tab.expanded_rows.is_empty());
    assert_eq!(tab.picker_label(), "Select from running applications...");
}

#[test]
fn application_listing_skips_eve_and_repeats() {
    let apps = vec![
        win(1, "firefox", "Mail"),
        win(2, "firefox", "Mail"),
        win(3, "exefile.exe", "EVE - Pilot"),
        win(4, "exefile.exe", "EVE"),
        win(5, "firefox", "Mail"),
        win(6, "kitty", "shell"),
        win(7, "firefox", "Mail"),
        win(8, "exefile.exe", "EVE-like"),
    ];
    let listed = listable_applications(&apps);
    let ids: Vec<u32> = listed.iter().map(|w| w.id).collect();
    assert_eq!(ids, vec![1, 6, 7, 8]);
}

#[test]
fn refresh_and_pick_application() {
    let mut tab = SourcesTab::default();
    tab.refresh_apps(Err("no display".to_string()));
    assert_eq!(tab.error_msg.as_deref(), Some("Failed to list apps: no display"));
    assert!(tab.running_apps.is_none());
    tab.refresh_apps(Ok(vec![win(1, "firefox", "Mail"), win(2, "kitty", "shell")]));
    assert!(tab.error_msg.is_none());
    tab.new_rule.title_pattern = Some("old".to_string());
    tab.select_app(1);
    assert_eq!(tab.selected_app_idx, Some(1));
    assert_eq!(tab.new_rule.alias, "kitty");
    assert_eq!(tab.new_rule.class_pattern.as_deref(), Some("kitty"));
    assert!(tab.new_rule.title_pattern.is_none());
    assert_eq!(tab.picker_label(), "kitty (shell)");
}

#[test]
fn adding_a_source_uses_profile_size_and_clears_form() {
    let mut tab = SourcesTab::default();
    let mut profile = Profile::default_with_name("P".to_string(), String::new(), None);
    profile.thumbnail_default_width = 320;
    profile.thumbnail_default_height = 180;
    // Without a pattern the form cannot be added.
    tab.new_rule.alias = "Browser".to_string();
    assert!(!tab.add_source(&mut profile));
    assert!(profile.custom_windows.is_empty());
    tab.new_rule.title_pattern = pattern_from_text("Mozilla".to_string());
    tab.new_rule.limit = true;
    assert!(tab.add_source(&mut profile));
    assert_eq!(profile.custom_windows.len(), 1);
    let rule = &profile.custom_windows[0];
    assert_eq!(rule.alias, "Browser");
    assert_eq!(rule.title_pattern.as_deref(), Some("Mozilla"));
    assert!(rule.limit);
    assert_eq!((rule.default_width, rule.default_height), (320, 180));
    assert!(tab.new_rule.alias.is_empty());
    assert!(tab.new_rule.title_pattern.is_none());
    assert!(!tab.new_rule.limit);
    assert_eq!(pattern_from_text(String::new()), None);
}

#[test]
fn rule_rows_and_details() {
    let (mut tab, mut profile) = profile_with_rule();
    assert_eq!(describe_rule(&profile.custom_windows[0]), "Class: firefox");
    profile.custom_windows[0].title_pattern = Some("Mail".to_string());
    assert_eq!(describe_rule(&profile.custom_windows[0]), "Class: firefox, Title: Mail");
    profile.custom_windows[0].class_pattern = None;
    assert_eq!(describe_rule(&profile.custom_windows[0]), "Title: Mail");
    tab.toggle_row(0);
    tab.toggle_row(3);
    assert!(tab.expanded_rows.contains(&0));
    tab.toggle_row(3);
    assert!(!tab.expanded_rows.contains(&3));
    tab.remove_rule(&mut profile, 0);
    assert!(profile.custom_windows.is_empty());
    assert!(tab.expanded_rows.is_empty());
}

#[test]
fn rule_overrides_switch_from_profile_settings() {
    let (_tab, mut profile) = profile_with_rule();
    profile.thumbnail_active_border_color = "#FF112233".to_string();
    profile.thumbnail_active_border_size = 4;
    set_rule_override(&mut profile, 0, RuleOverride::ActiveBorder, true);
    assert_eq!(profile.custom_windows[0].active_border_color.as_deref(), Some("#FF112233"));
    assert_eq!(profile.custom_windows[0].active_border_size, Some(4));
    set_rule_override(&mut profile, 0, RuleOverride::ActiveBorder, false);
    assert!(profile.custom_windows[0].active_border_color.is_none());
    assert!(profile.custom_windows[0].active_border_size.is_none());
    set_rule_override(&mut profile, 0, RuleOverride::TextColor, true);
    assert_eq!(profile.custom_windows[0].text_color, Some(profile.thumbnail_text_color.clone()));
    set_rule_override(&mut profile, 0, RuleOverride::InactiveBorder, true);
    assert_eq!(profile.custom_windows[0].inactive_border_size, Some(profile.thumbnail_inactive_border_size));
    set_rule_override(&mut profile, 0, RuleOverride::StaticPreview, true);
    assert_eq!(profile.custom_windows[0].preview_mode, Some(PreviewMode::Static { color: "#000000".to_string() }));
    set_rule_override(&mut profile, 0, RuleOverride::StaticPreview, false);
    assert_eq!(profile.custom_windows[0].preview_mode, None);
}
