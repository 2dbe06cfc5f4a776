//! Mouse interaction with thumbnails: a right-button drag moves a
//! thumbnail (snapping to the others), a left click selects and focuses
//! its client.

use vstd::prelude::*;
use crate::domain::Position;
use crate::snapping::{Rect, find_snap_position, snap_in_range, spec_snap_position};

verus! {

/// X11 button numbers.
pub const BUTTON_LEFT: u8 = 1;
pub const BUTTON_RIGHT: u8 = 3;

/// Drag state of one thumbnail.
#[derive(Debug)]
pub struct DragState {
    pub dragging: bool,
    /// Pointer position when the button went down.
    pub drag_start: Position,
    /// Thumbnail position when the button went down.
    pub win_start: Position,
    /// The other visible thumbnails, to snap to.
    pub snap_targets: Vec<Rect>,
}

/// Where the dragged thumbnail goes before snapping: moved by as much as
/// the pointer moved since the press.
pub open spec fn dragged_to(s: DragState, root_x: i16, root_y: i16) -> (int, int) {
    (s.win_start.x + (root_x - s.drag_start.x), s.win_start.y + (root_y - s.drag_start.y))
}

/// Whether the drag arithmetic stays within i16.
pub open spec fn drag_in_range(s: DragState, root_x: i16, root_y: i16) -> bool {
    &&& i16::MIN <= root_x - s.drag_start.x <= i16::MAX
    &&& i16::MIN <= root_y - s.drag_start.y <= i16::MAX
    &&& i16::MIN <= dragged_to(s, root_x, root_y).0 <= i16::MAX
    &&& i16::MIN <= dragged_to(s, root_x, root_y).1 <= i16::MAX
}

impl DragState {
    /// Not dragging.
    pub fn new() -> (s: DragState)
        ensures
            !s.dragging,
            s.drag_start == (Position { x: 0, y: 0 }),
            s.win_start == (Position { x: 0, y: 0 }),
            s.snap_targets@.len() == 0,
    {
        DragState {
            dragging: false,
            drag_start: Position::new(0, 0),
            win_start: Position::new(0, 0),
            snap_targets: Vec::new(),
        }
    }

    /// A button went down on the thumbnail at `pointer`, the thumbnail being
    /// at `window_pos`. The right button starts a drag with the other
    /// thumbnails as snap targets. Returns whether the thumbnail's character
    /// becomes the current one (the left button).
    pub fn press(&mut self, button: u8, pointer: Position, window_pos: Position, targets: Vec<Rect>) -> (select: bool)
        ensures
            final(self).drag_start == pointer,
            final(self).win_start == window_pos,
            button == BUTTON_RIGHT ==> final(self).dragging && final(self).snap_targets@ == targets@,
            button != BUTTON_RIGHT ==> final(self).dragging == old(self).dragging
                && final(self).snap_targets@ == old(self).snap_targets@,
            select == (button == BUTTON_LEFT),
    {
        self.drag_start = pointer;
        self.win_start = window_pos;
        if button == BUTTON_RIGHT {
            self.snap_targets = targets;
            self.dragging = true;
        }
        button == BUTTON_LEFT
    }

    /// The button went up: the drag (if any) ends. Returns whether a drag
    /// ended (its final position is then saved).
    pub fn release(&mut self) -> (was_dragging: bool)
        ensures
            was_dragging == old(self).dragging,
            !final(self).dragging,
            final(self).snap_targets@.len() == 0,
            final(self).drag_start == old(self).drag_start,
            final(self).win_start == old(self).win_start,
    {
        let was = self.dragging;
        self.dragging = false;
        self.snap_targets = Vec::new();
        was
    }

    /// Where the thumbnail goes when the pointer is at `(root_x, root_y)`
    /// during a drag: moved with the pointer, then snapped to the targets'
    /// edges within `threshold` pixels. `None` when not dragging.
    pub fn drag_target(&self, root_x: i16, root_y: i16, width: u16, height: u16, threshold: u16) -> (r: Option<Position>)
        requires
            self.dragging ==> drag_in_range(*self, root_x, root_y),
            self.dragging ==> snap_in_range(
                Rect { x: dragged_to(*self, root_x, root_y).0 as i16, y: dragged_to(*self, root_x, root_y).1 as i16, width, height },
                self.snap_targets@,
                threshold,
            ),
        ensures
            !self.dragging ==> r is None,
            self.dragging ==> {
                let moved = Rect {
                    x: dragged_to(*self, root_x, root_y).0 as i16,
                    y: dragged_to(*self, root_x, root_y).1 as i16,
                    width,
                    height,
                };
                r == Some(match spec_snap_position(moved, self.snap_targets@, threshold) {
                    Some(p) => p,
                    None => Position { x: moved.x, y: moved.y },
                })
            },
    {
        if !self.dragging {
            return None;
        }
        let dx = root_x - self.drag_start.x;
        let dy = root_y - self.drag_start.y;
        let new_x = self.win_start.x + dx;
        let new_y = self.win_start.y + dy;
        let dragged = Rect { x: new_x, y: new_y, width, height };
        match find_snap_position(dragged, self.snap_targets.as_slice(), threshold) {
            Some(p) => Some(p),
            None => Some(Position::new(new_x, new_y)),
        }
    }
}

} // verus!
