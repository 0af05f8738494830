use roguelike::grid::{Vector2i, Vector2i_Ext, TILE_HALF_HEIGHT, TILE_HALF_WIDTH, TILE_HEIGHT, TILE_WIDTH};
use roguelike::v01::grid::{ConvBetween_Grid_World, Vector2i_Ext as FromArray};

#[test]
fn tile_halves_are_halves() {
    assert_eq!(TILE_HALF_WIDTH * 2, TILE_WIDTH);
    assert_eq!(TILE_HALF_HEIGHT * 2, TILE_HEIGHT);
}

#[test]
fn grid_to_world_isometric() {
    assert_eq!(Vector2i_Ext::grid_to_world(Vector2i::new(0, 0)), Vector2i::new(0, 0));
    assert_eq!(Vector2i_Ext::grid_to_world(Vector2i::new(1, 0)), Vector2i::new(48, 24));
    assert_eq!(Vector2i_Ext::grid_to_world(Vector2i::new(0, 1)), Vector2i::new(-48, 24));
    assert_eq!(Vector2i_Ext::grid_to_world(Vector2i::new(9, 2)), Vector2i::new(336, 264));
    assert_eq!(Vector2i_Ext::grid_to_world(Vector2i::new(-3, 5)), Vector2i::new(-384, 48));
}

#[test]
fn grid_to_world_is_linear() {
    let a = Vector2i::new(9, 2);
    let b = Vector2i::new(1, -1);
    let sum = Vector2i_Ext::grid_to_world(a.plus(b));
    let wa = Vector2i_Ext::grid_to_world(a);
    let wb = Vector2i_Ext::grid_to_world(b);
    assert_eq!(sum, Vector2i::new(wa.x + wb.x, wa.y + wb.y));
}

#[test]
fn checked_grid_to_world_detects_overflow() {
    assert_eq!(Vector2i::new(2, 1).checked_grid_to_world(), Some(Vector2i::new(48, 72)));
    assert_eq!(Vector2i::new(i32::MAX, 0).checked_grid_to_world(), None);
    assert_eq!(Vector2i::new(0, i32::MIN).checked_grid_to_world(), None);
    assert_eq!(Vector2i::new(44739242, 0).checked_grid_to_world(), Some(Vector2i::new(2147483616, 1073741808)));
    assert_eq!(Vector2i::new(44739243, 0).checked_grid_to_world(), None);
}

#[test]
fn checked_plus_detects_overflow() {
    assert_eq!(Vector2i::new(1, 2).checked_plus(Vector2i::new(3, -4)), Some(Vector2i::new(4, -2)));
    assert_eq!(Vector2i::new(i32::MAX, 0).checked_plus(Vector2i::new(1, 0)), None);
    assert_eq!(Vector2i::new(0, i32::MIN).checked_plus(Vector2i::new(0, -1)), None);
}

#[test]
fn direction_ids() {
    let cases = [
        ((0, -1), "00"),
        ((1, 0), "01"),
        ((0, 1), "02"),
        ((-1, 0), "03"),
        ((-1, -1), "04"),
        ((1, -1), "05"),
        ((1, 1), "06"),
        ((-1, 1), "07"),
    ];
    for ((x, y), id) in cases {
        assert_eq!(Vector2i::new(x, y).to_direction_id(), id);
    }
}

#[test]
fn unit_steps() {
    assert!(Vector2i::new(1, -1).is_unit_step());
    assert!(Vector2i::new(0, 1).is_unit_step());
    assert!(!Vector2i::new(0, 0).is_unit_step());
    assert!(!Vector2i::new(2, 0).is_unit_step());
}

#[test]
fn square_grid_to_world() {
    assert_eq!(ConvBetween_Grid_World::grid_to_world(Vector2i::new(3, -2)), Vector2i::new(48, -32));
    assert_eq!(ConvBetween_Grid_World::grid_to_world(Vector2i::new(0, 0)), Vector2i::new(0, 0));
}

#[test]
fn from_array_coordinates() {
    let v: Vector2i = FromArray::from_array([7, -3]);
    assert_eq!(v, Vector2i::new(7, -3));
}

#[test]
fn default_values() {
    let n: i32 = roguelike::utils::default();
    assert_eq!(n, 0);
    let s: String = roguelike::utils::default();
    assert_eq!(s, "");
}

#[test]
fn direction_ids_are_distinct() {
    let steps = [(0, -1), (1, 0), (0, 1), (-1, 0), (-1, -1), (1, -1), (1, 1), (-1, 1)];
    let ids: Vec<&str> = steps.iter().map(|&(x, y)| Vector2i::new(x, y).to_direction_id()).collect();
    for i in 0..ids.len() {
        for j in 0..ids.len() {
            assert_eq!(i == j, ids[i] == ids[j]);
        }
    }
}

#[test]
fn square_grid_is_linear() {
    let a = Vector2i::new(4, -7);
    let b = Vector2i::new(-1, 3);
    let s = ConvBetween_Grid_World::grid_to_world(a.plus(b));
    let wa = ConvBetween_Grid_World::grid_to_world(a);
    let wb = ConvBetween_Grid_World::grid_to_world(b);
    assert_eq!(s, Vector2i::new(wa.x + wb.x, wa.y + wb.y));
}
