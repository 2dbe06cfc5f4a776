use eve_preview_manager::hotkey::{key_code_to_name, linux_name_to_key_code, HotkeyBinding};

#[test]
fn test_display_name() {
    let binding = HotkeyBinding::new(15, false, false, false, false);
    assert_eq!(binding.display_name(), "Tab");

    let binding = HotkeyBinding::new(15, false, true, false, false);
    assert_eq!(binding.display_name(), "Shift+Tab");

    let binding = HotkeyBinding::new(59, true, false, false, false);
    assert_eq!(binding.display_name(), "Ctrl+F1");

    let binding = HotkeyBinding::new(59, true, true, true, false);
    assert_eq!(binding.display_name(), "Ctrl+Shift+Alt+F1");
}

#[test]
fn test_matches() {
    let binding = HotkeyBinding::new(15, false, true, false, false);

    assert!(binding.matches(15, false, true, false, false));
    assert!(!binding.matches(15, false, false, false, false));
    assert!(!binding.matches(16, false, true, false, false));
}

#[test]
fn test_key_code_names() {
    assert_eq!(key_code_to_name(15), "Tab");
    assert_eq!(key_code_to_name(59), "F1");
    assert_eq!(key_code_to_name(57), "Space");
    assert_eq!(key_code_to_name(30), "A");
}

#[test]
fn test_to_key_array() {
    let binding = HotkeyBinding::new(15, false, false, false, false);
    assert_eq!(binding.to_key_array(), vec!["KEY_TAB"]);

    let binding = HotkeyBinding::new(15, false, true, false, false);
    assert_eq!(binding.to_key_array(), vec!["KEY_LEFTSHIFT", "KEY_TAB"]);

    let binding = HotkeyBinding::new(59, true, true, false, false);
    assert_eq!(binding.to_key_array(), vec!["KEY_LEFTCTRL", "KEY_LEFTSHIFT", "KEY_F1"]);
}

#[test]
fn test_from_key_array() {
    let keys = vec!["KEY_TAB".to_string()];
    let binding = HotkeyBinding::from_key_array(&keys).unwrap();
    assert_eq!(binding.key_code, 15);
    assert!(!binding.shift);

    let keys = vec!["KEY_LEFTSHIFT".to_string(), "KEY_TAB".to_string()];
    let binding = HotkeyBinding::from_key_array(&keys).unwrap();
    assert_eq!(binding.key_code, 15);
    assert!(binding.shift);
}

#[test]
fn test_evdev_keycode_conversion() {
    // Test that we can convert to/from KEY_* names
    assert_eq!(format!("{:?}", evdev::KeyCode(15)), "KEY_TAB");
    assert_eq!(format!("{:?}", evdev::KeyCode(59)), "KEY_F1");

    // Test linux_name_to_key_code using evdev's parser
    assert_eq!(linux_name_to_key_code("KEY_TAB"), Some(15));
    assert_eq!(linux_name_to_key_code("KEY_F1"), Some(59));
    assert_eq!(linux_name_to_key_code("KEY_LEFTSHIFT"), Some(42));
    assert_eq!(linux_name_to_key_code("INVALID_KEY"), None);
}

#[test]
fn test_key_code_to_name_comprehensive() {
    // Common keys
    assert_eq!(key_code_to_name(15), "Tab");
    assert_eq!(key_code_to_name(59), "F1");
    assert_eq!(key_code_to_name(57), "Space");
    assert_eq!(key_code_to_name(30), "A");

    // Modifiers
    assert_eq!(key_code_to_name(29), "Left Ctrl");
    assert_eq!(key_code_to_name(42), "Left Shift");
    assert_eq!(key_code_to_name(125), "Left Super");

    // Numpad (using evdev's KP_ prefix)
    assert_eq!(key_code_to_name(79), "Numpad 1"); // KEY_KP1
    assert_eq!(key_code_to_name(96), "Numpad Enter"); // KEY_KPENTER

    // Navigation
    assert_eq!(key_code_to_name(104), "Page Up"); // KEY_PAGEUP
    assert_eq!(key_code_to_name(102), "Home");

    // Less common keys
    assert_eq!(key_code_to_name(113), "Mute"); // KEY_MUTE
    assert_eq!(key_code_to_name(114), "Volume Down"); // KEY_VOLUMEDOWN
    assert_eq!(key_code_to_name(115), "Volume Up"); // KEY_VOLUMEUP
}

#[test]
fn key_array_round_trip_keeps_key_and_modifiers() {
    for (code, ctrl, shift, alt, sup) in [(15u16, false, false, false, false), (59, true, true, true, true), (2, false, true, false, true)] {
        let b = HotkeyBinding::new(code, ctrl, shift, alt, sup);
        let back = HotkeyBinding::from_key_array(&b.to_key_array()).unwrap();
        assert_eq!(back, b);
    }
}

#[test]
fn from_key_array_errors() {
    assert_eq!(HotkeyBinding::from_key_array(&[]).unwrap_err(), "Empty key array");
    assert_eq!(
        HotkeyBinding::from_key_array(&["KEY_LEFTCTRL".to_string()]).unwrap_err(),
        "No main key found in array"
    );
    assert_eq!(
        HotkeyBinding::from_key_array(&["KEY_TAB".to_string(), "KEY_LEFTCTRL".to_string()]).unwrap_err(),
        "Non-modifier key 'KEY_TAB' must be last in array"
    );
    assert_eq!(
        HotkeyBinding::from_key_array(&["KEY_NOPE".to_string()]).unwrap_err(),
        "Unknown key name: KEY_NOPE"
    );
}

#[test]
fn default_binding_is_tab() {
    let b = HotkeyBinding::default();
    assert_eq!(b.key_code, 15);
    assert!(!b.ctrl && !b.shift && !b.alt && !b.super_key);
    assert!(b.source_devices.is_empty());
}

#[test]
fn with_devices_keeps_devices() {
    let b = HotkeyBinding::with_devices(15, false, true, false, false, vec!["device1".to_string(), "device2".to_string()]);
    assert_eq!(b.source_devices, vec!["device1", "device2"]);
    assert_eq!(b.display_name(), "Shift+Tab");
}

#[test]
fn super_modifier_and_unknown_names() {
    assert_eq!(HotkeyBinding::new(30, false, false, false, true).display_name(), "Super+A");
    assert_eq!(key_code_to_name(1), "Esc");
    assert_eq!(key_code_to_name(14), "Backspace");
    assert_eq!(key_code_to_name(65535), "Unknown Key: 65535");
}
