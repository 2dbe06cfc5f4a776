use eve_preview_manager::hotkey::HotkeyBinding;
use eve_preview_manager::input::{
    auto_device_indices, classify_input_device, device_selection, evdev_keycode_to_x11, evdev_to_x11_key,
    friendly_device_name, grab_modmasks, held_modifiers_of, is_event_device_name, is_potential_hotkey,
    normalize_modmask, required_devices, resolve_hotkey, x11_command_for, CycleCommand, DeviceSelection,
    EvdevBackend, HotkeyConfiguration, X11Backend, MOD_1, MOD_2, MOD_CONTROL, MOD_LOCK, MOD_SHIFT,
};

#[test]
fn test_evdev_to_x11_keycode() {
    assert_eq!(evdev_keycode_to_x11(1), Some(9)); // ESC: 1 -> 9
    assert_eq!(evdev_keycode_to_x11(15), Some(23)); // TAB: 15 -> 23
    assert_eq!(evdev_keycode_to_x11(59), Some(67)); // F1: 59 -> 67

    assert_eq!(evdev_keycode_to_x11(0), Some(8)); // Minimum valid
    assert_eq!(evdev_keycode_to_x11(247), Some(255)); // Maximum valid
    assert_eq!(evdev_keycode_to_x11(248), None); // Beyond range
}

#[test]
fn test_evdev_to_x11_binding() {
    let binding = HotkeyBinding::new(15, false, false, false, false);
    let result = evdev_to_x11_key(&binding);
    assert_eq!(result, Some((23, 0u16)));

    let binding = HotkeyBinding::new(15, false, true, false, false);
    let result = evdev_to_x11_key(&binding);
    assert_eq!(result, Some((23, MOD_SHIFT)));

    let binding = HotkeyBinding::new(59, true, false, true, false);
    let result = evdev_to_x11_key(&binding);
    assert_eq!(result, Some((67, MOD_CONTROL | MOD_1)));
}

#[test]
fn test_normalize_modmask() {
    let state = MOD_SHIFT;
    assert_eq!(normalize_modmask(state), MOD_SHIFT);

    let state = MOD_SHIFT | MOD_2;
    assert_eq!(normalize_modmask(state), MOD_SHIFT);

    let state = MOD_CONTROL | MOD_LOCK;
    assert_eq!(normalize_modmask(state), MOD_CONTROL);
}

fn config() -> HotkeyConfiguration {
    HotkeyConfiguration {
        forward_key: Some(HotkeyBinding::new(15, false, false, false, false)),
        backward_key: Some(HotkeyBinding::new(15, false, true, false, false)),
        character_hotkeys: vec![
            HotkeyBinding::with_devices(59, false, false, false, false, vec!["kbd".to_string()]),
            HotkeyBinding::with_devices(59, false, false, false, false, vec!["mouse".to_string()]),
        ],
        profile_hotkeys: vec![HotkeyBinding::with_devices(60, true, false, false, false, vec!["kbd".to_string()])],
        toggle_skip_key: Some(HotkeyBinding::new(61, false, false, false, false)),
    }
}

#[test]
fn hotkey_resolution_priority() {
    let c = config();
    assert_eq!(resolve_hotkey(&c, 15, false, false, false, false), Some(CycleCommand::Forward));
    assert_eq!(resolve_hotkey(&c, 15, false, true, false, false), Some(CycleCommand::Backward));
    assert_eq!(resolve_hotkey(&c, 61, false, false, false, false), Some(CycleCommand::ToggleSkip));
    assert_eq!(
        resolve_hotkey(&c, 59, false, false, false, false),
        Some(CycleCommand::CharacterHotkey(c.character_hotkeys[0].clone()))
    );
    assert_eq!(
        resolve_hotkey(&c, 60, true, false, false, false),
        Some(CycleCommand::ProfileHotkey(c.profile_hotkeys[0].clone()))
    );
    assert_eq!(resolve_hotkey(&c, 60, false, false, false, false), None);
    assert!(is_potential_hotkey(&c, 60));
    assert!(!is_potential_hotkey(&c, 62));
}

#[test]
fn modifiers_across_devices() {
    let states = vec![vec![30u16, 42], vec![272u16], vec![97u16, 125]];
    assert_eq!(held_modifiers_of(&states), (true, true, false, true));
    assert_eq!(held_modifiers_of(&vec![]), (false, false, false, false));
    assert_eq!(held_modifiers_of(&vec![vec![100u16]]), (false, false, true, false));
}

#[test]
fn required_devices_are_the_union() {
    let mut devs = required_devices(&config());
    devs.sort();
    assert_eq!(devs, vec!["kbd".to_string(), "mouse".to_string()]);
}

#[test]
fn auto_mode_device_choice() {
    let ids = vec!["a".to_string(), "kbd".to_string(), "b".to_string()];
    assert_eq!(auto_device_indices(&vec!["kbd".to_string()], &ids), vec![1]);
    assert_eq!(auto_device_indices(&vec![], &ids), vec![0, 1, 2]);
    assert_eq!(auto_device_indices(&vec!["gone".to_string()], &ids), vec![0, 1, 2]);
}

#[test]
fn device_names_and_classes() {
    assert_eq!(friendly_device_name("usb-Logitech_G502-event-mouse"), "usb Logitech G502");
    assert_eq!(friendly_device_name("usb-Keychron_K2-event-kbd"), "usb Keychron K2");
    assert!(is_event_device_name("usb-Keychron_K2-event-kbd"));
    assert!(!is_event_device_name("usb-Keychron_K2-if01"));
    assert_eq!(classify_input_device(Some(&vec![15u16, 272])), Some("keyboard+mouse"));
    assert_eq!(classify_input_device(Some(&vec![15u16])), Some("keyboard"));
    assert_eq!(classify_input_device(Some(&vec![272u16])), Some("mouse"));
    assert_eq!(classify_input_device(Some(&vec![1u16])), None);
    assert_eq!(classify_input_device(None), None);
}

#[test]
fn device_selection_modes() {
    assert_eq!(device_selection(None), DeviceSelection::Disabled);
    assert_eq!(device_selection(Some("all")), DeviceSelection::All);
    assert_eq!(device_selection(Some("auto")), DeviceSelection::Auto);
    assert_eq!(device_selection(Some("usb-x")), DeviceSelection::Device("usb-x".to_string()));
}

#[test]
fn x11_grabs_and_commands() {
    assert_eq!(grab_modmasks(MOD_SHIFT), [1, 17, 3, 19]);
    let c = config();
    // Tab with Num Lock held still cycles forward.
    assert_eq!(x11_command_for(&c, 23, MOD_2), Some(CycleCommand::Forward));
    assert_eq!(x11_command_for(&c, 23, MOD_SHIFT | MOD_LOCK), Some(CycleCommand::Backward));
    // The later character grab of F1 wins.
    assert_eq!(x11_command_for(&c, 67, 0), Some(CycleCommand::CharacterHotkey(c.character_hotkeys[1].clone())));
    assert_eq!(x11_command_for(&c, 68, MOD_CONTROL), None);
}

#[test]
fn backend_capabilities() {
    let x = X11Backend::capabilities();
    assert!(!x.requires_permissions && x.permission_description.is_none());
    let e = EvdevBackend::capabilities();
    assert!(e.requires_permissions && e.supports_cross_device_modifiers && e.supports_device_filtering);
    assert_eq!(
        e.permission_description.as_deref(),
        Some("Requires 'input' group membership. Run: sudo usermod -a -G input $USER")
    );
    assert_eq!(X11Backend::name(), "X11");
    assert_eq!(EvdevBackend::name(), "evdev");
}
