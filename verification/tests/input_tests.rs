use roguelike::actions::Action;
use roguelike::event_handler::EventHandler;
use roguelike::grid::{Vector2i, Vector2i_Ext};

fn keys(cancel: bool, left: bool, right: bool, up: bool, down: bool, shift: bool) -> EventHandler {
    EventHandler { ui_cancel: cancel, ui_left: left, ui_right: right, ui_up: up, ui_down: down, shift }
}

#[test]
fn nothing_pressed_gives_no_action() {
    assert_eq!(EventHandler::get_action(&keys(false, false, false, false, false, false)), None);
    assert_eq!(EventHandler::get_action(&keys(false, false, false, false, false, true)), None);
}

#[test]
fn cancel_wins() {
    assert_eq!(EventHandler::get_action(&keys(true, true, false, true, false, true)), Some(Action::Escape));
}

#[test]
fn arrows_map_to_isometric_steps() {
    let cases = [
        ((false, true, false, false), (1, -1)),
        ((true, false, false, false), (-1, 1)),
        ((false, false, false, true), (1, 1)),
        ((false, false, true, false), (-1, -1)),
        ((false, true, false, true), (1, 0)),
        ((false, true, true, false), (0, -1)),
        ((true, false, false, true), (0, 1)),
        ((true, false, true, false), (-1, 0)),
    ];
    for ((left, right, up, down), (x, y)) in cases {
        let a = EventHandler::get_action(&keys(false, left, right, up, down, false));
        assert_eq!(a, Some(Action::Movement { direction: Vector2i::new(x, y) }));
        let s = EventHandler::get_action(&keys(false, left, right, up, down, true));
        assert_eq!(s, Some(Action::Strike { direction: Vector2i::new(x, y) }));
    }
}

#[test]
fn left_wins_over_right_and_up_over_down() {
    let a = EventHandler::get_action(&keys(false, true, true, true, true, false));
    assert_eq!(a, Some(Action::Movement { direction: Vector2i::new(-1, 0) }));
}

#[test]
fn steps_follow_arrows_on_screen() {
    // Right arrow: the sprite moves right on screen only.
    let a = EventHandler::get_action(&keys(false, false, true, false, false, false));
    match a {
        Some(Action::Movement { direction }) => {
            let w = direction.grid_to_world();
            assert!(w.x > 0 && w.y == 0);
        }
        _ => panic!("expected a movement"),
    }
    // Up arrow: the sprite moves up on screen only.
    let a = EventHandler::get_action(&keys(false, false, false, true, false, false));
    match a {
        Some(Action::Movement { direction }) => {
            let w = direction.grid_to_world();
            assert!(w.x == 0 && w.y < 0);
        }
        _ => panic!("expected a movement"),
    }
}

#[test]
fn every_requested_direction_is_a_step() {
    for bits in 0u32..64 {
        let b = |k: u32| bits & (1 << k) != 0;
        let h = keys(b(0), b(1), b(2), b(3), b(4), b(5));
        match EventHandler::get_action(&h) {
            Some(Action::Movement { direction }) | Some(Action::Strike { direction }) => {
                assert!(direction.is_unit_step());
                let w = direction.grid_to_world();
                let sx = if h.ui_left { -1 } else if h.ui_right { 1 } else { 0 };
                let sy = if h.ui_up { -1 } else if h.ui_down { 1 } else { 0 };
                assert_eq!((w.x.signum(), w.y.signum()), (sx, sy));
            }
            Some(Action::Escape) => assert!(h.ui_cancel),
            None => assert!(!h.ui_cancel && !h.ui_left && !h.ui_right && !h.ui_up && !h.ui_down),
        }
    }
}
