//! The game of the first version: the player's cell, moved by the actions.
use vstd::prelude::*;
use crate::grid::Vector2i;
use crate::v01::grid::ConvBetween_Grid_World;

verus! {

/// A request of the first version: leave, or move by an offset.
#[derive(Clone, Copy, Debug, PartialEq, Eq, Structural)]
pub enum Action {
    Escape,
    Movement { offset: Vector2i },
}

/// What the caller has to do after a frame.
#[derive(Clone, Copy, Debug, PartialEq, Eq, Structural)]
pub enum Outcome {
    /// Nothing happened.
    Idle,
    /// The game is to end.
    Quit,
    /// The player moved: its sprite goes to the world position `world`.
    Moved { world: Vector2i },
}

/// The state of the first version: the cell of the player.
#[derive(Clone, Copy, Debug, PartialEq, Eq, Structural)]
pub struct Game {
    pub playerGridPos: Vector2i,
}

impl Game {
    /// Whether `action` can be applied: the player's new cell and its world
    /// position have `i32` coordinates.
    pub open spec fn can_apply(self, action: Option<Action>) -> bool {
        match action {
            Some(Action::Movement { offset }) => self.playerGridPos.sum_fits(offset)
                && self.playerGridPos.sum(offset).square_world_fits(),
            _ => true,
        }
    }

    /// The game at its start: the player on the cell `(0, 0)`.
    pub fn init() -> (g: Game)
        ensures
            g.playerGridPos == (Vector2i { x: 0, y: 0 }),
    {
        Game { playerGridPos: Vector2i::zero() }
    }

    /// Applies the action of a frame: a movement moves the player by its
    /// offset, escape ends the game.
    pub fn process(o: &mut Self, action: Option<Action>) -> (r: Outcome)
        requires
            old(o).can_apply(action),
        ensures
            match action {
                Some(Action::Movement { offset }) => final(o).playerGridPos == old(
                    o,
                ).playerGridPos.sum(offset) && r == Outcome::Moved {
                    world: final(o).playerGridPos.square_world(),
                },
                Some(Action::Escape) => *final(o) == *old(o) && r == Outcome::Quit,
                None => *final(o) == *old(o) && r == Outcome::Idle,
            },
    {
        match action {
            Some(Action::Movement { offset }) => {
                o.playerGridPos = o.playerGridPos.plus(offset);
                Outcome::Moved { world: o.playerGridPos.grid_to_world() }
            },
            Some(Action::Escape) => Outcome::Quit,
            None => Outcome::Idle,
        }
    }
}

} // verus!
