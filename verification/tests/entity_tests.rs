use roguelike::actions::Action;
use roguelike::entity::{Entity, Mode, Reaction, Sound, TurnKind};
use roguelike::grid::Vector2i;
use roguelike::v01::game::{Action as FirstAction, Game, Outcome};

#[test]
fn new_entity_listens() {
    let e = Entity::new(Vector2i::new(9, 2));
    assert_eq!(e.gridPos, Vector2i::new(9, 2));
    assert_eq!(e.direction, Vector2i::new(0, 0));
    assert_eq!(e.mode, Mode::ListeningToInput);
    assert_eq!(Entity::on_soundDelay_timeout(&e), None);
}

#[test]
fn set_grid_pos_returns_world_position() {
    let mut e = Entity::new(Vector2i::new(0, 0));
    let w = Entity::set_gridPos(&mut e, Vector2i::new(10, 1));
    assert_eq!(w, Vector2i::new(432, 264));
    assert_eq!(e.gridPos, Vector2i::new(10, 1));
}

#[test]
fn walk_turn() {
    let mut e = Entity::new(Vector2i::new(9, 2));
    let r = Entity::process_action(&mut e, Some(Action::Movement { direction: Vector2i::new(1, -1) }));
    match r {
        Reaction::TurnStarted { kind, animation } => {
            assert_eq!(kind, TurnKind::Walk);
            assert_eq!(animation, "walk_05");
        }
        _ => panic!("expected a turn"),
    }
    assert_eq!(
        e.mode,
        Mode::PerformingRequestedTurn { dest: Vector2i::new(10, 1), isActualPosChange: true }
    );
    assert_eq!(e.direction, Vector2i::new(1, -1));
    assert_eq!(Entity::on_soundDelay_timeout(&e), Some(Sound::DirtStep));
    assert_eq!(Entity::perform_turn(&mut e, false), None);
    assert_eq!(e.gridPos, Vector2i::new(9, 2));
    assert_eq!(Entity::perform_turn(&mut e, true), Some("stand_05".to_string()));
    assert_eq!(e.gridPos, Vector2i::new(10, 1));
    assert_eq!(e.direction, Vector2i::new(0, 0));
    assert_eq!(e.mode, Mode::ListeningToInput);
}

#[test]
fn strike_turn_stays() {
    let mut e = Entity::new(Vector2i::new(3, 3));
    let r = Entity::process_action(&mut e, Some(Action::Strike { direction: Vector2i::new(-1, 0) }));
    match r {
        Reaction::TurnStarted { kind, animation } => {
            assert_eq!(kind, TurnKind::Strike);
            assert_eq!(animation, "strike_03");
        }
        _ => panic!("expected a turn"),
    }
    assert_eq!(Entity::on_soundDelay_timeout(&e), Some(Sound::Melee));
    assert_eq!(Entity::perform_turn(&mut e, true), Some("stand_03".to_string()));
    assert_eq!(e.gridPos, Vector2i::new(3, 3));
    assert_eq!(e.mode, Mode::ListeningToInput);
}

#[test]
fn escape_and_nothing() {
    let mut e = Entity::new(Vector2i::new(1, 1));
    assert!(matches!(Entity::process_action(&mut e, Some(Action::Escape)), Reaction::Quit));
    assert!(matches!(Entity::process_action(&mut e, None), Reaction::Nothing));
    assert_eq!(e, Entity::new(Vector2i::new(1, 1)));
}

#[test]
fn first_version_game() {
    let mut g = Game::init();
    assert_eq!(g.playerGridPos, Vector2i::new(0, 0));
    let r = Game::process(&mut g, Some(FirstAction::Movement { offset: Vector2i::new(2, -1) }));
    assert_eq!(r, Outcome::Moved { world: Vector2i::new(32, -16) });
    assert_eq!(g.playerGridPos, Vector2i::new(2, -1));
    assert_eq!(Game::process(&mut g, None), Outcome::Idle);
    assert_eq!(Game::process(&mut g, Some(FirstAction::Escape)), Outcome::Quit);
    assert_eq!(g.playerGridPos, Vector2i::new(2, -1));
}
