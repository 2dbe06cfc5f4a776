use eve_preview_manager::domain::{CharacterSettings, EveWindowType, Position, PreviewMode, TextOffset, ThumbnailState};

#[test]
fn test_thumbnail_state_normal_unfocused() {
    let state = ThumbnailState::Normal { focused: false };

    assert!(!state.is_focused());
    assert!(!state.is_minimized());
}

#[test]
fn test_thumbnail_state_normal_focused() {
    let state = ThumbnailState::Normal { focused: true };

    assert!(state.is_focused());
    assert!(!state.is_minimized());
}

#[test]
fn test_thumbnail_state_minimized() {
    let state = ThumbnailState::Minimized;

    assert!(!state.is_focused());
    assert!(state.is_minimized());
}

#[test]
fn test_thumbnail_state_default() {
    let state = ThumbnailState::default();
    assert_eq!(state, ThumbnailState::Normal { focused: false });
    assert!(!state.is_focused());
}

#[test]
fn test_eve_window_type_logged_in() {
    let window = EveWindowType::LoggedIn("TestCharacter".to_string());
    assert_eq!(window.character_name(), "TestCharacter");

    let window2 = EveWindowType::LoggedIn("AnotherChar".to_string());
    assert_ne!(window, window2);
}

#[test]
fn test_eve_window_type_logged_out() {
    let window = EveWindowType::LoggedOut;
    assert_eq!(window.character_name(), "");

    let window2 = EveWindowType::LoggedOut;
    assert_eq!(window, window2);
}

#[test]
fn test_eve_window_type_equality() {
    let logged_in1 = EveWindowType::LoggedIn("Char1".to_string());
    let logged_in2 = EveWindowType::LoggedIn("Char1".to_string());
    let logged_in3 = EveWindowType::LoggedIn("Char2".to_string());
    let logged_out = EveWindowType::LoggedOut;

    assert_eq!(logged_in1, logged_in2);
    assert_ne!(logged_in1, logged_in3);
    assert_ne!(logged_in1, logged_out);
}

#[test]
fn test_character_settings_new() {
    let settings = CharacterSettings::new(100, 200, 640, 480);
    assert_eq!(settings.x, 100);
    assert_eq!(settings.y, 200);
    assert_eq!(settings.dimensions.width, 640);
    assert_eq!(settings.dimensions.height, 480);
}

#[test]
fn test_character_settings_position() {
    let settings = CharacterSettings::new(150, 250, 800, 600);
    let pos = settings.position();
    assert_eq!(pos.x, 150);
    assert_eq!(pos.y, 250);
}

#[test]
fn test_character_settings_zero_dimensions() {
    // Zero dimensions mean "use auto-detect"
    let settings = CharacterSettings::new(100, 100, 0, 0);
    assert_eq!(settings.dimensions.width, 0);
    assert_eq!(settings.dimensions.height, 0);
}

#[test]
fn new_character_settings_have_no_overrides() {
    let s = CharacterSettings::new(1, 2, 3, 4);
    assert_eq!(s.alias, None);
    assert_eq!(s.notes, None);
    assert_eq!(s.override_active_border_color, None);
    assert_eq!(s.override_text_color, None);
    assert_eq!(s.preview_mode, PreviewMode::Live);
    assert_eq!(s.position(), Position::new(1, 2));
}

#[test]
fn focus_change_transitions() {
    let focused = ThumbnailState::Normal { focused: true };
    let unfocused = ThumbnailState::Normal { focused: false };
    assert_eq!(unfocused.after_focus_change(true), (focused, true));
    assert_eq!(ThumbnailState::Minimized.after_focus_change(true), (focused, true));
    assert_eq!(focused.after_focus_change(true), (focused, false));
    assert_eq!(focused.after_focus_change(false), (unfocused, true));
    assert_eq!(unfocused.after_focus_change(false), (unfocused, false));
    assert_eq!(ThumbnailState::Minimized.after_focus_change(false), (ThumbnailState::Minimized, false));
}

#[test]
fn text_offset_keeps_coordinates() {
    let t = TextOffset::from_border_edge(-3, 7);
    assert_eq!((t.x, t.y), (-3, 7));
}
