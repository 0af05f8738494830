//! Integer vectors and the isometric projection between grid cells and world
//! positions.
use vstd::prelude::*;

verus! {

/// Width in world units of one isometric tile.
pub const TILE_WIDTH: i32 = 96;

/// Height in world units of one isometric tile.
pub const TILE_HEIGHT: i32 = 48;

/// Half of a tile's width: the world distance along `x` of one grid step.
pub const TILE_HALF_WIDTH: i32 = 48;

/// Half of a tile's height: the world distance along `y` of one grid step.
pub const TILE_HALF_HEIGHT: i32 = 24;

/// A pair of 32-bit integer coordinates: a grid cell, a grid direction or a
/// world position.
#[derive(Clone, Copy, Debug, PartialEq, Eq, Structural)]
pub struct Vector2i {
    pub x: i32,
    pub y: i32,
}

/// Whether an integer fits in an `i32`.
pub open spec fn fits_i32(v: int) -> bool {
    i32::MIN <= v <= i32::MAX
}

/// The sign of an integer: -1, 0 or 1.
pub open spec fn sign(v: int) -> int {
    if v < 0 {
        -1
    } else if v > 0 {
        1
    } else {
        0
    }
}

/// World `x` of the grid point `(x, y)` under the isometric projection.
pub open spec fn iso_x(x: int, y: int) -> int {
    (x - y) * TILE_HALF_WIDTH
}

/// World `y` of the grid point `(x, y)` under the isometric projection.
pub open spec fn iso_y(x: int, y: int) -> int {
    (x + y) * TILE_HALF_HEIGHT
}

/// The two characters of the identifier of direction number `i`: `"00"` to `"07"`.
pub open spec fn direction_id(i: int) -> Seq<char> {
    seq!['0', digit_char(i)]
}

/// The decimal digit character of `0 <= i <= 9`.
pub open spec fn digit_char(i: int) -> char {
    if i == 0 {
        '0'
    } else if i == 1 {
        '1'
    } else if i == 2 {
        '2'
    } else if i == 3 {
        '3'
    } else if i == 4 {
        '4'
    } else if i == 5 {
        '5'
    } else if i == 6 {
        '6'
    } else if i == 7 {
        '7'
    } else if i == 8 {
        '8'
    } else {
        '9'
    }
}

impl Vector2i {
    /// Whether the sum of `self` and `other` fits in `i32` coordinates.
    pub open spec fn sum_fits(self, other: Vector2i) -> bool {
        fits_i32(self.x + other.x) && fits_i32(self.y + other.y)
    }

    /// The component-wise sum of two vectors.
    pub open spec fn sum(self, other: Vector2i) -> Vector2i {
        Vector2i { x: (self.x + other.x) as i32, y: (self.y + other.y) as i32 }
    }

    /// Whether `self` is one of the eight neighbouring steps on the grid.
    pub open spec fn is_step(self) -> bool {
        -1 <= self.x <= 1 && -1 <= self.y <= 1 && !(self.x == 0 && self.y == 0)
    }

    /// Number of the step `self` among the eight grid directions, clockwise on
    /// screen for the four axis steps, then the four diagonals.
    pub open spec fn step_index(self) -> int {
        if self.x == 0 && self.y == -1 {
            0
        } else if self.x == 1 && self.y == 0 {
            1
        } else if self.x == 0 && self.y == 1 {
            2
        } else if self.x == -1 && self.y == 0 {
            3
        } else if self.x == -1 && self.y == -1 {
            4
        } else if self.x == 1 && self.y == -1 {
            5
        } else if self.x == 1 && self.y == 1 {
            6
        } else {
            7
        }
    }

    /// A vector from its two coordinates.
    pub fn new(x: i32, y: i32) -> (v: Vector2i)
        ensures
            v.x == x,
            v.y == y,
    {
        Vector2i { x, y }
    }

    /// The zero vector.
    pub fn zero() -> (v: Vector2i)
        ensures
            v.x == 0,
            v.y == 0,
    {
        Vector2i { x: 0, y: 0 }
    }

    /// The component-wise sum of two vectors.
    pub fn plus(self, other: Vector2i) -> (v: Vector2i)
        requires
            self.sum_fits(other),
        ensures
            v.x == self.x + other.x,
            v.y == self.y + other.y,
            v == self.sum(other),
    {
        Vector2i { x: self.x + other.x, y: self.y + other.y }
    }

    /// The component-wise sum of two vectors, or `None` when a coordinate
    /// leaves the range of `i32`.
    pub fn checked_plus(self, other: Vector2i) -> (v: Option<Vector2i>)
        ensures
            v is Some <==> self.sum_fits(other),
            v matches Some(w) ==> w.x == self.x + other.x && w.y == self.y + other.y,
    {
        let x: i64 = self.x as i64 + other.x as i64;
        let y: i64 = self.y as i64 + other.y as i64;
        if i32::MIN as i64 <= x && x <= i32::MAX as i64 && i32::MIN as i64 <= y && y
            <= i32::MAX as i64 {
            Some(Vector2i { x: x as i32, y: y as i32 })
        } else {
            None
        }
    }

    /// Whether `self` is one of the eight neighbouring steps on the grid.
    pub fn is_unit_step(self) -> (b: bool)
        ensures
            b == self.is_step(),
    {
        -1 <= self.x && self.x <= 1 && -1 <= self.y && self.y <= 1 && !(self.x == 0 && self.y
            == 0)
    }

    /// The isometric world position of the grid cell `self`, or `None` when
    /// a coordinate leaves the range of `i32`.
    pub fn checked_grid_to_world(self) -> (w: Option<Vector2i>)
        ensures
            w is Some <==> self.world_fits(),
            w matches Some(v) ==> v == self.world(),
    {
        let wx: i64 = (self.x as i64 - self.y as i64) * 48;
        let wy: i64 = (self.x as i64 + self.y as i64) * 24;
        if i32::MIN as i64 <= wx && wx <= i32::MAX as i64 && i32::MIN as i64 <= wy && wy
            <= i32::MAX as i64 {
            Some(Vector2i { x: wx as i32, y: wy as i32 })
        } else {
            None
        }
    }
}

/// Conversions of grid vectors: the isometric projection to world positions,
/// and the identifier of a grid direction used in animation names.
pub trait Vector2i_Ext: Sized {
    /// Whether the world position of `self` fits in `i32` coordinates.
    spec fn world_fits(&self) -> bool;

    /// The world position of the grid cell `self`.
    spec fn world(&self) -> Self;

    /// Whether `self` is a direction that has an identifier.
    spec fn has_direction_id(&self) -> bool;

    /// The identifier of the direction `self`.
    spec fn spec_direction_id(&self) -> Seq<char>;

    /// The isometric world position of the grid cell `self`.
    fn grid_to_world(self) -> (w: Self)
        requires
            self.world_fits(),
        ensures
            w == self.world(),
    ;

    /// The identifier of the grid direction `self`, `"00"` to `"07"`.
    fn to_direction_id(self) -> (id: &'static str)
        requires
            self.has_direction_id(),
        ensures
            id@ == self.spec_direction_id(),
    ;
}

impl Vector2i_Ext for Vector2i {
    open spec fn world_fits(&self) -> bool {
        fits_i32(iso_x(self.x as int, self.y as int)) && fits_i32(iso_y(self.x as int, self.y as int))
    }

    open spec fn world(&self) -> Vector2i {
        Vector2i {
            x: iso_x(self.x as int, self.y as int) as i32,
            y: iso_y(self.x as int, self.y as int) as i32,
        }
    }

    open spec fn has_direction_id(&self) -> bool {
        self.is_step()
    }

    open spec fn spec_direction_id(&self) -> Seq<char> {
        direction_id(self.step_index())
    }

    fn grid_to_world(self) -> (w: Vector2i) {
        Vector2i {
            x: (self.x - self.y) * TILE_HALF_WIDTH,
            y: (self.x + self.y) * TILE_HALF_HEIGHT,
        }
    }

    fn to_direction_id(self) -> (id: &'static str) {
        let (x, y) = (self.x, self.y);
        if x == 0 && y == -1 {
            proof {
                reveal_strlit("00");
            }
            "00"
        } else if x == 1 && y == 0 {
            proof {
                reveal_strlit("01");
            }
            "01"
        } else if x == 0 && y == 1 {
            proof {
                reveal_strlit("02");
            }
            "02"
        } else if x == -1 && y == 0 {
            proof {
                reveal_strlit("03");
            }
            "03"
        } else if x == -1 && y == -1 {
            proof {
                reveal_strlit("04");
            }
            "04"
        } else if x == 1 && y == -1 {
            proof {
                reveal_strlit("05");
            }
            "05"
        } else if x == 1 && y == 1 {
            proof {
                reveal_strlit("06");
            }
            "06"
        } else {
            proof {
                reveal_strlit("07");
            }
            "07"
        }
    }
}

/// The isometric projection is linear: the world position of the sum of two
/// grid vectors is the sum of their world positions. A turn therefore reaches
/// its destination cell by sliding the sprite by the world offset of its
/// direction.
pub proof fn lemma_world_of_sum(a: Vector2i, b: Vector2i)
    requires
        a.sum_fits(b),
        a.world_fits(),
        b.world_fits(),
        a.sum(b).world_fits(),
    ensures
        a.sum(b).world().x == a.world().x + b.world().x,
        a.sum(b).world().y == a.world().y + b.world().y,
{
}

/// The eight grid steps have eight different identifiers, so each direction
/// has animations of its own.
pub proof fn lemma_direction_ids_distinct(a: Vector2i, b: Vector2i)
    requires
        a.is_step(),
        b.is_step(),
        a != b,
    ensures
        a.spec_direction_id() != b.spec_direction_id(),
        0 <= a.step_index() < 8,
{
    if a.spec_direction_id() == b.spec_direction_id() {
        assert(a.spec_direction_id()[1] == b.spec_direction_id()[1]);
    }
}

} // verus!
