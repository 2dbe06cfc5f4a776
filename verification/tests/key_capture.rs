use eve_preview_manager::key_capture::{x11_key_press, x11_key_release, CaptureState, CaptureStep, EvdevCapture};

#[test]
fn capture_state_descriptions() {
    let mut s = CaptureState::new();
    assert_eq!(s.description, "Press any key or mouse button...");
    s.ctrl = true;
    s.shift = true;
    s.update_description();
    assert_eq!(s.description, "Ctrl+Shift+?");
    s.key_code = Some(59);
    s.update_description();
    assert_eq!(s.description, "Ctrl+Shift+F1");
    s.ctrl = false;
    s.shift = false;
    s.key_code = None;
    s.update_description();
    assert_eq!(s.description, "Press any key or mouse button...");
    assert_eq!(CaptureState::default(), CaptureState::new());
}

#[test]
fn evdev_capture_collects_devices_sorted() {
    let mut c = EvdevCapture::new();
    assert!(matches!(c.key_event(1, 42, 1, "zkbd"), CaptureStep::Updated));
    assert!(c.state().shift);
    assert_eq!(c.state().description, "Shift+?");
    assert!(matches!(c.key_event(2, 0, 0, "zkbd"), CaptureStep::Ignored));
    assert!(matches!(c.key_event(1, 272, 1, "mouse"), CaptureStep::Ignored));
    match c.key_event(1, 275, 1, "amouse") {
        CaptureStep::Captured(b) => {
            assert_eq!(b.key_code, 275);
            assert!(b.shift && !b.ctrl);
            assert_eq!(b.source_devices, vec!["amouse".to_string(), "zkbd".to_string()]);
        },
        other => panic!("expected a capture, got {:?}", other),
    }
    assert_eq!(c.devices(), &vec!["amouse".to_string(), "zkbd".to_string()]);
}

#[test]
fn evdev_capture_release_and_escape() {
    let mut c = EvdevCapture::new();
    c.key_event(1, 29, 1, "kbd");
    assert!(c.state().ctrl);
    c.key_event(1, 29, 0, "kbd");
    assert!(!c.state().ctrl);
    assert_eq!(c.state().description, "Press any key or mouse button...");
    assert!(matches!(c.key_event(1, 30, 0, "kbd"), CaptureStep::Updated));
    assert!(matches!(c.key_event(1, 1, 1, "kbd"), CaptureStep::Cancelled));
    assert_eq!(c.devices(), &vec!["kbd".to_string()]);
}

#[test]
fn x11_capture_steps() {
    let mut s = CaptureState::new();
    // Left Ctrl (X11 keycode 37 = evdev 29) shows as held at once.
    assert!(matches!(x11_key_press(&mut s, 37, 0), CaptureStep::Updated));
    assert!(s.ctrl);
    assert!(matches!(x11_key_release(&mut s, 37), CaptureStep::Updated));
    assert!(!s.ctrl);
    // F1 (X11 67) with Control and Mod1 held.
    match x11_key_press(&mut s, 67, 4 | 8) {
        CaptureStep::Captured(b) => {
            assert_eq!(b.key_code, 59);
            assert!(b.ctrl && b.alt && !b.shift && !b.super_key);
            assert!(b.source_devices.is_empty());
        },
        other => panic!("expected a capture, got {:?}", other),
    }
    assert_eq!(s.description, "Ctrl+Alt+F1");
    let mut t = CaptureState::new();
    assert!(matches!(x11_key_press(&mut t, 9, 0), CaptureStep::Cancelled));
}
