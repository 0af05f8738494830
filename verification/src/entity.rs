//! The turn state machine of an entity on the grid.
//!
//! An entity listens to input until it is asked to act; it then performs the
//! requested turn (its sprite slides toward the destination cell, which is
//! timed by the caller) until it arrives, and listens again.
use vstd::prelude::*;
use crate::actions::Action;
use crate::grid::{direction_id, Vector2i, Vector2i_Ext};

verus! {

/// What an entity is doing.
#[derive(Clone, Copy, Debug, PartialEq, Eq, Structural)]
pub enum Mode {
    /// Waiting for the next requested action.
    ListeningToInput,
    /// Performing a turn toward the cell `dest`; the entity ends there only
    /// when the turn changes its position (a walk, not a strike).
    PerformingRequestedTurn { dest: Vector2i, isActualPosChange: bool },
}

/// The kind of turn an entity starts.
#[derive(Clone, Copy, Debug, PartialEq, Eq, Structural)]
pub enum TurnKind {
    /// A step to a neighbouring cell: a first footstep sounds at once.
    Walk,
    /// A blow at a neighbouring cell.
    Strike,
}

/// The sound that the delay of a turn ends with.
#[derive(Clone, Copy, Debug, PartialEq, Eq, Structural)]
pub enum Sound {
    /// The second footstep of a walk.
    DirtStep,
    /// The hit of a strike.
    Melee,
}

/// What the caller has to do after an entity handled a requested action.
#[derive(Debug)]
pub enum Reaction {
    /// Nothing was requested.
    Nothing,
    /// The game is to end.
    Quit,
    /// A turn starts: play the animation named `animation`, and time the
    /// turn's sound for its kind.
    TurnStarted { kind: TurnKind, animation: String },
}

/// The grid state of an entity.
#[derive(Clone, Copy, Debug, PartialEq, Eq, Structural)]
pub struct Entity {
    /// The cell it stands on.
    pub gridPos: Vector2i,
    /// The direction of the turn in progress; zero between turns.
    pub direction: Vector2i,
    pub mode: Mode,
}

/// The characters of `walk_`.
pub open spec fn walk_prefix() -> Seq<char> {
    seq!['w', 'a', 'l', 'k', '_']
}

/// The characters of `strike_`.
pub open spec fn strike_prefix() -> Seq<char> {
    seq!['s', 't', 'r', 'i', 'k', 'e', '_']
}

/// The characters of `stand_`.
pub open spec fn stand_prefix() -> Seq<char> {
    seq!['s', 't', 'a', 'n', 'd', '_']
}

/// The name of the animation of `prefix` in the grid direction `d`.
pub open spec fn animation_name(prefix: Seq<char>, d: Vector2i) -> Seq<char> {
    prefix + direction_id(d.step_index())
}

impl Entity {
    /// The state after the action `a` was handled.
    pub open spec fn after_action(self, a: Option<Action>) -> Entity {
        match a {
            Some(Action::Movement { direction }) => Entity {
                mode: Mode::PerformingRequestedTurn {
                    dest: self.gridPos.sum(direction),
                    isActualPosChange: true,
                },
                direction,
                ..self
            },
            Some(Action::Strike { direction }) => Entity {
                mode: Mode::PerformingRequestedTurn {
                    dest: self.gridPos.sum(direction),
                    isActualPosChange: false,
                },
                direction,
                ..self
            },
            _ => self,
        }
    }

    /// The state once the turn in progress has arrived: the entity stands on
    /// the destination if the turn moves it, and listens again.
    pub open spec fn after_arrival(self) -> Entity {
        match self.mode {
            Mode::PerformingRequestedTurn { dest, isActualPosChange } => Entity {
                gridPos: if isActualPosChange {
                    dest
                } else {
                    self.gridPos
                },
                direction: Vector2i { x: 0, y: 0 },
                mode: Mode::ListeningToInput,
            },
            Mode::ListeningToInput => self,
        }
    }

    /// Whether the action `a` can be handled: a turn goes one grid step from a
    /// cell whose neighbour in that direction has `i32` coordinates.
    pub open spec fn can_handle(self, a: Option<Action>) -> bool {
        match a {
            Some(Action::Movement { direction }) => direction.is_step() && self.gridPos.sum_fits(
                direction,
            ),
            Some(Action::Strike { direction }) => direction.is_step() && self.gridPos.sum_fits(
                direction,
            ),
            _ => true,
        }
    }

    /// The sound that ends the delay of the turn that `o` performs.
    pub open spec fn on_sound_of(o: Entity) -> Option<Sound> {
        match o.mode {
            Mode::PerformingRequestedTurn { isActualPosChange, .. } => Some(
                if isActualPosChange {
                    Sound::DirtStep
                } else {
                    Sound::Melee
                },
            ),
            Mode::ListeningToInput => None,
        }
    }

    /// An entity standing on `startPos`, listening to input.
    pub fn new(startPos: Vector2i) -> (e: Entity)
        ensures
            e.gridPos == startPos,
            e.direction == (Vector2i { x: 0, y: 0 }),
            e.mode == Mode::ListeningToInput,
    {
        Entity { gridPos: startPos, direction: Vector2i::zero(), mode: Mode::ListeningToInput }
    }

    /// Puts the entity on the cell `gridPos`; returns the world position of
    /// that cell, where its sprite goes.
    pub fn set_gridPos(o: &mut Self, gridPos: Vector2i) -> (w: Vector2i)
        requires
            gridPos.world_fits(),
        ensures
            *final(o) == (Entity { gridPos, ..*old(o) }),
            w == gridPos.world(),
    {
        let w = gridPos.grid_to_world();
        o.gridPos = gridPos;
        w
    }

    /// The sound that ends the delay of the turn in progress: the second
    /// footstep of a walk or the hit of a strike; none between turns.
    pub fn on_soundDelay_timeout(o: &Self) -> (s: Option<Sound>)
        ensures
            s == Entity::on_sound_of(*o),
    {
        match o.mode {
            Mode::PerformingRequestedTurn { isActualPosChange, .. } => {
                if isActualPosChange {
                    Some(Sound::DirtStep)
                } else {
                    Some(Sound::Melee)
                }
            },
            Mode::ListeningToInput => None,
        }
    }

    /// Handles a requested action: a movement or a strike starts a turn in
    /// its direction, toward the neighbouring cell; escape ends the game.
    pub fn process_action(o: &mut Self, action: Option<Action>) -> (r: Reaction)
        requires
            old(o).can_handle(action),
        ensures
            *final(o) == old(o).after_action(action),
            match action {
                None => r is Nothing,
                Some(Action::Escape) => r is Quit,
                Some(Action::Movement { direction }) => r matches Reaction::TurnStarted {
                    kind,
                    animation,
                } && kind == TurnKind::Walk && animation@ == animation_name(walk_prefix(), direction),
                Some(Action::Strike { direction }) => r matches Reaction::TurnStarted {
                    kind,
                    animation,
                } && kind == TurnKind::Strike && animation@ == animation_name(
                    strike_prefix(),
                    direction,
                ),
            },
    {
        match action {
            Some(Action::Movement { direction }) => {
                let id = direction.to_direction_id();
                proof {
                    reveal_strlit("walk_");
                }
                let animation = String::from_str("walk_").concat(id);
                o.mode = Mode::PerformingRequestedTurn {
                    dest: o.gridPos.plus(direction),
                    isActualPosChange: true,
                };
                o.direction = direction;
                Reaction::TurnStarted { kind: TurnKind::Walk, animation }
            },
            Some(Action::Strike { direction }) => {
                let id = direction.to_direction_id();
                proof {
                    reveal_strlit("strike_");
                }
                let animation = String::from_str("strike_").concat(id);
                o.mode = Mode::PerformingRequestedTurn {
                    dest: o.gridPos.plus(direction),
                    isActualPosChange: false,
                };
                o.direction = direction;
                Reaction::TurnStarted { kind: TurnKind::Strike, animation }
            },
            Some(Action::Escape) => Reaction::Quit,
            None => Reaction::Nothing,
        }
    }

    /// Advances the turn in progress. The caller slides the sprite and tells
    /// whether it has `arrived` at the destination; on arrival the entity
    /// ends the turn and the name of the standing animation in the turn's
    /// direction is returned.
    pub fn perform_turn(o: &mut Self, arrived: bool) -> (r: Option<String>)
        requires
            old(o).mode is PerformingRequestedTurn,
            arrived ==> old(o).direction.is_step(),
        ensures
            !arrived ==> *final(o) == *old(o) && r is None,
            arrived ==> *final(o) == old(o).after_arrival(),
            arrived ==> (r matches Some(name) && name@ == animation_name(
                stand_prefix(),
                old(o).direction,
            )),
    {
        if !arrived {
            return None;
        }
        if let Mode::PerformingRequestedTurn { dest, isActualPosChange } = o.mode {
            if isActualPosChange {
                o.gridPos = dest;
            }
        }
        let id = o.direction.to_direction_id();
        proof {
            reveal_strlit("stand_");
        }
        let name = String::from_str("stand_").concat(id);
        o.direction = Vector2i::zero();
        o.mode = Mode::ListeningToInput;
        Some(name)
    }
}

/// A walk, once arrived, leaves the entity on the neighbouring cell in the
/// walk's direction, listening again with no direction; a strike leaves it
/// where it stood.
pub proof fn lemma_turn_outcome(e: Entity, a: Action)
    requires
        e.can_handle(Some(a)),
    ensures
        a matches Action::Movement { direction } ==> e.after_action(Some(a)).after_arrival()
            == (Entity {
            gridPos: e.gridPos.sum(direction),
            direction: Vector2i { x: 0, y: 0 },
            mode: Mode::ListeningToInput,
        }),
        a matches Action::Strike { .. } ==> e.after_action(Some(a)).after_arrival() == (Entity {
            gridPos: e.gridPos,
            direction: Vector2i { x: 0, y: 0 },
            mode: Mode::ListeningToInput,
        }),
        a is Escape ==> e.after_action(Some(a)) == e,
{
}

/// The sound that ends a turn matches its kind: the second footstep for a
/// walk, the hit for a strike.
pub proof fn lemma_turn_sound(e: Entity, a: Action)
    ensures
        a is Movement ==> Entity::on_sound_of(e.after_action(Some(a))) == Some(Sound::DirtStep),
        a is Strike ==> Entity::on_sound_of(e.after_action(Some(a))) == Some(Sound::Melee),
{
}

/// Every turn that an action with a direction starts, a walk or a strike,
/// aims at the neighbouring cell in that direction: its destination is the
/// current cell plus the direction, coordinate by coordinate, and its world
/// position is the current cell's plus the direction's, so the sliding sprite
/// reaches it. Only a walk changes the position; the cell does not change
/// until arrival, and the turn keeps the direction.
pub proof fn lemma_turn_destination(e: Entity, a: Action, direction: Vector2i)
    requires
        e.can_handle(Some(a)),
        a == (Action::Movement { direction }) || a == (Action::Strike { direction }),
    ensures
        e.after_action(Some(a)).mode matches Mode::PerformingRequestedTurn { dest, isActualPosChange }
            && dest.x == e.gridPos.x + direction.x && dest.y == e.gridPos.y + direction.y
            && isActualPosChange == (a is Movement),
        e.after_action(Some(a)).gridPos == e.gridPos,
        e.after_action(Some(a)).direction == direction,
        e.gridPos.world_fits() && e.gridPos.sum(direction).world_fits() ==> (
        e.after_action(Some(a)).mode matches Mode::PerformingRequestedTurn { dest, .. }
            && dest.world().x == e.gridPos.world().x + direction.world().x
            && dest.world().y == e.gridPos.world().y + direction.world().y),
{
}

} // verus!
