use eve_preview_manager::hotkey::HotkeyBinding;
use eve_preview_manager::key_capture::CaptureResult;
use eve_preview_manager::manager_ui::{
    apply_captured_binding, backend_label, binding_text, capture_device_label, hotkey_controls_enabled, CaptureTarget,
    HotkeySettingsState,
};
use eve_preview_manager::profile::HotkeyBackendType;
use eve_preview_manager::profile::{CustomWindowRule, Profile};
use eve_preview_manager::text::{parse_usize_str, split_at_char};

fn profile() -> Profile {
    Profile::default_with_name("P".to_string(), String::new(), None)
}

fn tab() -> HotkeyBinding {
    HotkeyBinding::new(15, false, false, false, false)
}

fn rule(alias: &str) -> CustomWindowRule {
    CustomWindowRule {
        title_pattern: None,
        class_pattern: Some(alias.to_lowercase()),
        alias: alias.to_string(),
        default_width: 250,
        default_height: 140,
        limit: false,
        active_border_color: None,
        inactive_border_color: None,
        active_border_size: None,
        inactive_border_size: None,
        text_color: None,
        text_size: None,
        text_x: None,
        text_y: None,
        preview_mode: None,
        hotkey: None,
    }
}

#[test]
fn split_and_parse_like_std() {
    assert_eq!(split_at_char("GROUP:1:FWD", ':'), vec!["GROUP", "1", "FWD"]);
    assert_eq!(split_at_char("", ':'), vec![""]);
    assert_eq!(split_at_char("a::", ':'), vec!["a", "", ""]);
    assert_eq!(parse_usize_str("42"), Some(42));
    assert_eq!(parse_usize_str("+7"), Some(7));
    assert_eq!(parse_usize_str("+"), None);
    assert_eq!(parse_usize_str("-1"), None);
    assert_eq!(parse_usize_str("1x"), None);
    assert_eq!(parse_usize_str(""), None);
    assert_eq!(parse_usize_str("99999999999999999999999"), None);
    assert_eq!(parse_usize_str(&usize::MAX.to_string()), Some(usize::MAX));
}

#[test]
fn captured_binding_goes_to_profile_hotkeys() {
    let mut p = profile();
    assert!(apply_captured_binding(&mut p, &CaptureTarget::ToggleSkip, tab()));
    assert_eq!(p.hotkey_toggle_skip, Some(tab()));
    assert!(apply_captured_binding(&mut p, &CaptureTarget::TogglePreviews, tab()));
    assert_eq!(p.hotkey_toggle_previews, Some(tab()));
    assert!(apply_captured_binding(&mut p, &CaptureTarget::Profile, tab()));
    assert_eq!(p.hotkey_profile_switch, Some(tab()));
}

#[test]
fn captured_binding_for_character_and_group() {
    let mut p = profile();
    assert!(apply_captured_binding(&mut p, &CaptureTarget::Character("Pilot".to_string()), tab()));
    assert_eq!(p.character_hotkeys.get("Pilot"), Some(&tab()));

    assert!(apply_captured_binding(&mut p, &CaptureTarget::Character("GROUP:0:FWD".to_string()), tab()));
    assert_eq!(p.cycle_groups[0].hotkey_forward, Some(tab()));
    assert!(apply_captured_binding(&mut p, &CaptureTarget::Character("GROUP:+0:BWD".to_string()), tab()));
    assert_eq!(p.cycle_groups[0].hotkey_backward, Some(tab()));

    // Names in the group protocol that designate no group change nothing.
    for name in ["GROUP:1:FWD", "GROUP:0:UP", "GROUP:x:FWD", "GROUP:0:FWD:x", "GROUP:"] {
        let before = p.character_hotkeys.len();
        assert!(!apply_captured_binding(&mut p, &CaptureTarget::Character(name.to_string()), tab()));
        assert_eq!(p.character_hotkeys.len(), before);
    }
}

#[test]
fn captured_binding_for_custom_rule() {
    let mut p = profile();
    p.custom_windows.push(rule("Browser"));
    p.custom_windows.push(rule("Browser"));
    assert!(apply_captured_binding(&mut p, &CaptureTarget::CustomRule("Browser".to_string()), tab()));
    assert_eq!(p.custom_windows[0].hotkey, Some(tab()));
    assert_eq!(p.custom_windows[1].hotkey, None);
    assert!(!apply_captured_binding(&mut p, &CaptureTarget::CustomRule("Mail".to_string()), tab()));
}

#[test]
fn capture_dialog_texts() {
    assert_eq!(capture_device_label("usb-Logitech_G502-event-kbd"), "usb Logitech G502 (Keyboard)");
    assert_eq!(capture_device_label("usb-Razer_Naga-event-mouse"), "usb Razer Naga (Mouse)");
    let mut s = HotkeySettingsState::new(Ok(Vec::new()));
    assert_eq!(s.target_name(), "Unknown");
    s.start_key_capture(CaptureTarget::Character("Pilot".to_string()), Ok(()));
    assert_eq!(s.target_name(), "Character: Pilot");
    s.start_key_capture(CaptureTarget::CustomRule("Mail".to_string()), Ok(()));
    assert_eq!(s.target_name(), "Custom Source: Mail");
    s.start_key_capture(CaptureTarget::Profile, Ok(()));
    assert_eq!(s.target_name(), "Switch to Profile");
}

#[test]
fn capture_result_then_accept() {
    let mut p = profile();
    let mut s = HotkeySettingsState::new(Ok(Vec::new()));
    s.start_key_capture(CaptureTarget::ToggleSkip, Ok(()));
    s.receive_capture_result(CaptureResult::Captured(tab()));
    assert!(s.show_key_capture_dialog);
    assert!(s.accept_capture(&mut p));
    assert!(!s.show_key_capture_dialog);
    assert!(s.capture_target.is_none());
    assert_eq!(p.hotkey_toggle_skip, Some(tab()));
    // Nothing captured: accepting does nothing.
    assert!(!s.accept_capture(&mut p));
}

#[test]
fn escape_closes_the_capture_dialog() {
    let mut s = HotkeySettingsState::new(Ok(Vec::new()));
    s.start_key_capture(CaptureTarget::ToggleSkip, Ok(()));
    s.receive_capture_result(CaptureResult::Cancelled);
    assert!(!s.show_key_capture_dialog);
    assert!(s.capture_result.is_none());
    s.start_key_capture(CaptureTarget::ToggleSkip, Ok(()));
    s.receive_capture_result(CaptureResult::Timeout);
    assert!(s.show_key_capture_dialog);
    assert!(matches!(s.capture_result, Some(CaptureResult::Timeout)));
}

#[test]
fn hotkey_panel_texts() {
    assert_eq!(backend_label(HotkeyBackendType::X11), "X11 (Recommended)");
    assert_eq!(backend_label(HotkeyBackendType::Evdev), "evdev (Advanced - Requires Permissions)");
    assert_eq!(binding_text(&None), "Not set");
    assert_eq!(binding_text(&Some(HotkeyBinding::new(59, true, false, false, false))), "Ctrl+F1");
    let s = HotkeySettingsState::new(Ok(vec![
        ("usb-kbd".to_string(), "Keyboard".to_string()),
        ("usb-kbd".to_string(), "Second".to_string()),
    ]));
    assert_eq!(s.device_label(&None), "---");
    assert_eq!(s.device_label(&Some("auto".to_string())), "Auto-Detect (Recommended)");
    assert_eq!(s.device_label(&Some("all".to_string())), "All Devices");
    assert_eq!(s.device_label(&Some("usb-kbd".to_string())), "Keyboard");
    assert_eq!(s.device_label(&Some("gone".to_string())), "Auto-Detect (Recommended)");
}

#[test]
fn hotkey_controls_need_a_device_with_evdev() {
    let mut p = profile();
    p.hotkey_backend = HotkeyBackendType::X11;
    p.hotkey_input_device = None;
    assert!(hotkey_controls_enabled(&p));
    p.hotkey_backend = HotkeyBackendType::Evdev;
    assert!(!hotkey_controls_enabled(&p));
    p.hotkey_input_device = Some("auto".to_string());
    assert!(hotkey_controls_enabled(&p));
}

#[test]
fn starting_a_character_capture_clears_what_came_before() {
    let mut s = HotkeySettingsState::new(Ok(vec![("id".to_string(), "Name".to_string())]));
    s.start_key_capture_for_character("Pilot".to_string(), Err("busy".to_string()));
    assert_eq!(s.capture_error.as_deref(), Some("Failed to start key capture: busy"));
    s.start_key_capture(CaptureTarget::ToggleSkip, Ok(()));
    s.receive_capture_result(CaptureResult::Timeout);
    s.start_key_capture_for_character("Pilot".to_string(), Ok(()));
    assert!(s.is_capturing_for("Pilot"));
    assert!(s.capture_error.is_none());
    assert!(s.capture_result.is_none());
    let c = s.current_capture_state.as_ref().unwrap();
    assert!(c.key_code.is_none() && !c.ctrl && !c.shift && !c.alt && !c.super_key);
    assert_eq!(s.available_devices.len(), 1);
    s.start_key_capture_for_custom_rule("Mail".to_string(), Ok(()));
    assert!(s.is_capturing_custom_rule("Mail"));
    assert!(s.capture_error.is_none());
}

#[test]
fn a_replaced_or_cancelled_capture_is_told_to_stop() {
    let mut s = HotkeySettingsState::new(Ok(Vec::new()));
    assert!(!s.capture_running);
    assert!(!s.start_key_capture_for_character("A".to_string(), Ok(())));
    assert!(s.capture_running);
    assert!(s.start_key_capture_for_custom_rule("Mail".to_string(), Ok(())));
    assert!(s.start_key_capture(CaptureTarget::ToggleSkip, Err("no".to_string())));
    assert!(!s.capture_running);
    assert!(!s.cancel_capture());
    s.start_key_capture(CaptureTarget::ToggleSkip, Ok(()));
    assert!(s.cancel_capture());
    s.start_key_capture(CaptureTarget::ToggleSkip, Ok(()));
    assert!(!s.receive_capture_result(CaptureResult::Timeout));
    assert!(s.receive_capture_result(CaptureResult::Cancelled));
}
