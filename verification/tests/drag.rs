use eve_preview_manager::domain::Position;
use eve_preview_manager::drag::{DragState, BUTTON_LEFT, BUTTON_RIGHT};
use eve_preview_manager::snapping::Rect;

#[test]
fn right_drag_moves_and_snaps() {
    let mut d = DragState::new();
    assert_eq!(d.drag_target(10, 10, 50, 50, 15), None);
    let targets = vec![Rect { x: 160, y: 100, width: 50, height: 50 }];
    assert!(!d.press(BUTTON_RIGHT, Position::new(500, 500), Position::new(100, 100), targets));
    assert!(d.dragging);
    // Pointer moved by (+3, 0): the thumbnail would be at 103, its right edge
    // 153 snaps to the target's left edge 160.
    assert_eq!(d.drag_target(503, 500, 50, 50, 15), Some(Position::new(110, 100)));
    // Far from any edge: follows the pointer.
    assert_eq!(d.drag_target(300, 200, 50, 50, 15), Some(Position::new(-100, -200)));
    assert!(d.release());
    assert!(!d.dragging);
    assert!(!d.release());
}

#[test]
fn left_click_selects_without_dragging() {
    let mut d = DragState::new();
    assert!(d.press(BUTTON_LEFT, Position::new(1, 2), Position::new(3, 4), vec![]));
    assert!(!d.dragging);
    assert_eq!(d.drag_start, Position::new(1, 2));
    assert_eq!(d.win_start, Position::new(3, 4));
}
