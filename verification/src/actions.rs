//! What the player asks an entity to do in one turn.
use vstd::prelude::*;
use crate::grid::Vector2i;

verus! {

/// A request for one turn of the game.
#[derive(Clone, Copy, Debug, PartialEq, Eq, Structural)]
pub enum Action {
    /// Leave the game.
    Escape,
    /// Walk one step in a grid direction.
    Movement { direction: Vector2i },
    /// Hit whatever stands one step away in a grid direction.
    Strike { direction: Vector2i },
}

} // verus!
