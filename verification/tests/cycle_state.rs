use std::collections::HashMap;

use eve_preview_manager::cycle_state::CycleState;
use eve_preview_manager::profile::CycleGroup;

fn group(name: &str, chars: &[&str]) -> CycleGroup {
    CycleGroup {
        name: name.to_string(),
        characters: chars.iter().map(|c| c.to_string()).collect(),
        hotkey_forward: None,
        hotkey_backward: None,
    }
}

#[test]
fn test_cycle_forward_multi_group() {
    let group1 = CycleGroup {
        name: "G1".to_string(),
        characters: vec!["A".to_string(), "B".to_string()],
        hotkey_forward: None,
        hotkey_backward: None,
    };
    let mut state = CycleState::new(vec![group1]);
    state.add_window("A".to_string(), 100);
    state.add_window("B".to_string(), 200);

    assert_eq!(state.cycle_forward("G1", None), Some((200, "B".to_string())));
}

#[test]
fn cycling_wraps_and_skips() {
    let mut state = CycleState::new(vec![group("G", &["A", "B", "C"])]);
    state.add_window("A".to_string(), 1);
    state.add_window("B".to_string(), 2);
    state.add_window("C".to_string(), 3);
    assert_eq!(state.cycle_forward("G", None), Some((2, "B".to_string())));
    assert_eq!(state.cycle_forward("G", None), Some((3, "C".to_string())));
    assert_eq!(state.cycle_forward("G", None), Some((1, "A".to_string())));
    assert!(state.toggle_skip("B"));
    assert!(state.is_skipped("B"));
    assert_eq!(state.cycle_forward("G", None), Some((3, "C".to_string())));
    assert_eq!(state.cycle_backward("G", None), Some((1, "A".to_string())));
    assert!(!state.toggle_skip("B"));
    assert!(!state.is_skipped("B"));
    assert_eq!(state.cycle_backward("G", None), Some((3, "C".to_string())));
}

#[test]
fn backward_after_forward_returns() {
    let mut state = CycleState::new(vec![group("G", &["A", "B", "C", "D"])]);
    state.add_window("A".to_string(), 1);
    state.add_window("D".to_string(), 4);
    state.set_current("A");
    assert_eq!(state.cycle_forward("G", None), Some((4, "D".to_string())));
    assert_eq!(state.cycle_backward("G", None), Some((1, "A".to_string())));
}

#[test]
fn cycle_unknown_or_empty_group_or_nothing_reachable() {
    let mut state = CycleState::new(vec![group("G", &["A"]), group("Empty", &[])]);
    assert_eq!(state.cycle_forward("Nope", None), None);
    assert_eq!(state.cycle_forward("G", None), None);
    state.add_window("A".to_string(), 1);
    assert_eq!(state.cycle_forward("Empty", None), None);
    assert_eq!(state.cycle_forward("G", None), Some((1, "A".to_string())));
    state.toggle_skip("A");
    assert_eq!(state.cycle_forward("G", None), None);
}

#[test]
fn logged_out_windows_are_cycled_when_given() {
    let mut state = CycleState::new(vec![group("G", &["A", "B"])]);
    state.add_window("A".to_string(), 1);
    let mut logged_out = HashMap::new();
    logged_out.insert(9u32, "B".to_string());
    assert_eq!(state.cycle_forward("G", None), Some((1, "A".to_string())));
    assert_eq!(state.cycle_forward("G", Some(&logged_out)), Some((9, "B".to_string())));
}

#[test]
fn remove_and_update_windows() {
    let mut state = CycleState::new(vec![group("G", &["A", "B"])]);
    state.add_window("A".to_string(), 1);
    state.add_window("B".to_string(), 2);
    state.remove_window(2);
    assert_eq!(state.cycle_forward("G", None), Some((1, "A".to_string())));
    state.update_character(1, "B".to_string());
    assert_eq!(state.cycle_forward("G", None), Some((1, "B".to_string())));
    assert_eq!(state.activate_character("A", None), None);
}

#[test]
fn activate_and_set_current() {
    let mut state = CycleState::new(vec![group("G", &["A", "B", "C"])]);
    state.add_window("A".to_string(), 1);
    state.add_window("B".to_string(), 2);
    state.add_window("C".to_string(), 3);
    assert_eq!(state.activate_character("C", None), Some((3, "C")));
    assert_eq!(state.cycle_forward("G", None), Some((1, "A".to_string())));
    assert!(state.set_current("B"));
    assert!(!state.set_current("Z"));
    assert_eq!(state.cycle_forward("G", None), Some((3, "C".to_string())));
    assert!(state.set_current_by_window(1));
    assert_eq!(state.cycle_forward("G", None), Some((2, "B".to_string())));
    assert!(!state.set_current_by_window(77));
}

#[test]
fn next_in_shared_hotkey_group() {
    let mut state = CycleState::new(vec![group("Default", &["C", "A"])]);
    state.add_window("A".to_string(), 1);
    state.add_window("B".to_string(), 2);
    state.add_window("C".to_string(), 3);
    state.add_window("Z".to_string(), 4);
    // Order: C, A (Default group order), then B, Z (alphabetical).
    let shared = vec!["Z".to_string(), "B".to_string(), "A".to_string(), "C".to_string()];
    state.set_current_by_window(3);
    assert_eq!(state.activate_next_in_group(&shared, None), Some((1, "A".to_string())));
    assert_eq!(state.activate_next_in_group(&shared, None), Some((2, "B".to_string())));
    assert_eq!(state.activate_next_in_group(&shared, None), Some((4, "Z".to_string())));
    assert_eq!(state.activate_next_in_group(&shared, None), Some((3, "C".to_string())));
    state.toggle_skip("A");
    assert_eq!(state.activate_next_in_group(&shared, None), Some((2, "B".to_string())));
    assert_eq!(state.activate_next_in_group(&[], None), None);
}
