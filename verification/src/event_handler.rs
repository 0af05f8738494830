//! From the keys pressed in a frame to the action the player asks for.
//!
//! The arrow keys describe a direction on screen; the grid is isometric, so
//! that direction is turned into the grid step whose projection points the
//! same way on screen.
use vstd::prelude::*;
use crate::actions::Action;
use crate::grid::{iso_x, iso_y, sign, Vector2i, Vector2i_Ext};

verus! {

/// The state of the input in one frame: which of the interface actions were
/// just pressed, and whether a Shift key is held down.
#[derive(Clone, Copy, Debug, PartialEq, Eq, Structural)]
pub struct EventHandler {
    pub ui_cancel: bool,
    pub ui_left: bool,
    pub ui_right: bool,
    pub ui_up: bool,
    pub ui_down: bool,
    pub shift: bool,
}

/// The grid step whose isometric projection points along the screen
/// direction `(sx, sy)`: the signs of the inverse projection of that direction.
pub open spec fn grid_step_toward(sx: int, sy: int) -> Vector2i {
    Vector2i { x: sign(sx + sy) as i32, y: sign(sy - sx) as i32 }
}

impl EventHandler {
    /// Horizontal screen direction asked for: left wins over right.
    pub open spec fn screen_x(self) -> int {
        if self.ui_left {
            -1
        } else if self.ui_right {
            1
        } else {
            0
        }
    }

    /// Vertical screen direction asked for (down is positive): up wins over down.
    pub open spec fn screen_y(self) -> int {
        if self.ui_up {
            -1
        } else if self.ui_down {
            1
        } else {
            0
        }
    }

    /// The action asked for: leaving when cancel was pressed, otherwise a
    /// strike (with Shift) or a movement toward the pressed arrows, and none
    /// when no arrow was pressed.
    pub open spec fn requested_action(self) -> Option<Action> {
        if self.ui_cancel {
            Some(Action::Escape)
        } else if self.screen_x() == 0 && self.screen_y() == 0 {
            None
        } else {
            let direction = grid_step_toward(self.screen_x(), self.screen_y());
            if self.shift {
                Some(Action::Strike { direction })
            } else {
                Some(Action::Movement { direction })
            }
        }
    }

    /// The action that the input of this frame asks for.
    pub fn get_action(o: &Self) -> (a: Option<Action>)
        ensures
            a == o.requested_action(),
    {
        if o.ui_cancel {
            return Some(Action::Escape);
        }
        let sx: i32 = if o.ui_left {
            -1
        } else if o.ui_right {
            1
        } else {
            0
        };
        let sy: i32 = if o.ui_up {
            -1
        } else if o.ui_down {
            1
        } else {
            0
        };
        let (x, y): (i32, i32) = if sx == 0 && sy == 0 {
            return None;
        } else if sx == 1 && sy == 0 {
            (1, -1)
        } else if sx == -1 && sy == 0 {
            (-1, 1)
        } else if sx == 0 && sy == 1 {
            (1, 1)
        } else if sx == 0 && sy == -1 {
            (-1, -1)
        } else if sx == 1 && sy == 1 {
            (1, 0)
        } else if sx == 1 && sy == -1 {
            (0, -1)
        } else if sx == -1 && sy == 1 {
            (0, 1)
        } else {
            (-1, 0)
        };
        let direction = Vector2i::new(x, y);
        Some(
            if o.shift {
                Action::Strike { direction }
            } else {
                Action::Movement { direction }
            },
        )
    }
}

/// Every direction that the input can ask for is one of the eight grid
/// steps, so it always has a direction identifier and an animation.
pub proof fn lemma_requested_direction_is_step(o: EventHandler)
    ensures
        o.requested_action() matches Some(Action::Movement { direction }) ==> direction.is_step(),
        o.requested_action() matches Some(Action::Strike { direction }) ==> direction.is_step(),
{
}

/// The grid step chosen for the pressed arrows moves the sprite on screen the
/// way the arrows point: the world offset of the step has the sign of the
/// pressed screen direction on each axis.
pub proof fn lemma_step_follows_arrows(o: EventHandler)
    ensures
        o.requested_action() matches Some(Action::Movement { direction }) ==> sign(
            iso_x(direction.x as int, direction.y as int),
        ) == o.screen_x() && sign(iso_y(direction.x as int, direction.y as int)) == o.screen_y(),
        o.requested_action() matches Some(Action::Strike { direction }) ==> sign(
            iso_x(direction.x as int, direction.y as int),
        ) == o.screen_x() && sign(iso_y(direction.x as int, direction.y as int)) == o.screen_y(),
        o.requested_action() matches Some(Action::Movement { direction }) ==> direction.world_fits(),
{
}

} // verus!
