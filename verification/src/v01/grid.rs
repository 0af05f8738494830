//! The square grid of the first version: cells of 16 by 16 world units.
use vstd::prelude::*;
use crate::grid::{fits_i32, Vector2i};

verus! {

/// Side in world units of a square tile.
pub const TILE_SIZE: i32 = 16;

/// Conversion of a grid cell to the world position of its corner.
pub trait ConvBetween_Grid_World: Sized {
    /// Whether the world position of `self` fits in `i32` coordinates.
    spec fn square_world_fits(&self) -> bool;

    /// The world position of the grid cell `self`.
    spec fn square_world(&self) -> Self;

    /// The world position of the grid cell `self`: each coordinate times the
    /// tile size.
    fn grid_to_world(self) -> (w: Self)
        requires
            self.square_world_fits(),
        ensures
            w == self.square_world(),
    ;
}

impl ConvBetween_Grid_World for Vector2i {
    open spec fn square_world_fits(&self) -> bool {
        fits_i32(self.x * TILE_SIZE) && fits_i32(self.y * TILE_SIZE)
    }

    open spec fn square_world(&self) -> Vector2i {
        Vector2i { x: (self.x * TILE_SIZE) as i32, y: (self.y * TILE_SIZE) as i32 }
    }

    fn grid_to_world(self) -> (w: Vector2i) {
        Vector2i { x: self.x * 16, y: self.y * 16 }
    }
}

/// Construction of a vector from an array of its coordinates.
pub trait Vector2i_Ext: Sized {
    /// The vector with coordinates `a[0]` and `a[1]`.
    spec fn from_coordinates(a: [i32; 2]) -> Self;

    /// The vector with coordinates `a[0]` and `a[1]`.
    fn from_array(a: [i32; 2]) -> (v: Self)
        ensures
            v == Self::from_coordinates(a),
    ;
}

impl Vector2i_Ext for Vector2i {
    open spec fn from_coordinates(a: [i32; 2]) -> Vector2i {
        Vector2i { x: a@[0], y: a@[1] }
    }

    fn from_array(a: [i32; 2]) -> (v: Vector2i) {
        Vector2i::new(a[0], a[1])
    }
}

/// On the square grid, the world position of a cell is linear in the cell:
/// moving by an offset moves the world position by the offset's world size.
pub proof fn lemma_square_world_of_sum(a: Vector2i, b: Vector2i)
    requires
        a.sum_fits(b),
        a.square_world_fits(),
        b.square_world_fits(),
        a.sum(b).square_world_fits(),
    ensures
        a.sum(b).square_world().x == a.square_world().x + b.square_world().x,
        a.sum(b).square_world().y == a.square_world().y + b.square_world().y,
{
}

} // verus!
