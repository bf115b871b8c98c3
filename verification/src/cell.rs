//! Grid coordinates and the vector arithmetic on them.
//!
//! A [`Cell`] is a pair of `i32` coordinates. Sums, differences and products
//! are those of the integers wherever these fit in an `i32`, and wrap around
//! at the ends of its range otherwise, so every operation is total.

use vstd::prelude::*;

use crate::config::{NUM_COLS, NUM_ROWS};

verus! {

/// A position on the grid, or a displacement between two positions.
#[derive(Clone, Copy, Debug, PartialEq, Eq, Hash, Structural)]
pub struct Cell {
    pub x: i32,
    pub y: i32,
}

impl Cell {
    /// Component-wise sum.
    pub open spec fn spec_plus(self, rhs: Cell) -> Cell {
        Cell { x: self.x.wrapping_add(rhs.x), y: self.y.wrapping_add(rhs.y) }
    }

    /// Component-wise difference.
    pub open spec fn spec_minus(self, rhs: Cell) -> Cell {
        Cell { x: self.x.wrapping_sub(rhs.x), y: self.y.wrapping_sub(rhs.y) }
    }

    /// The opposite displacement.
    pub open spec fn spec_negate(self) -> Cell {
        Cell { x: 0i32.wrapping_sub(self.x), y: 0i32.wrapping_sub(self.y) }
    }

    /// The displacement repeated `k` times.
    pub open spec fn spec_scale(self, k: i32) -> Cell {
        Cell { x: self.x.wrapping_mul(k), y: self.y.wrapping_mul(k) }
    }

    /// Complex product of `self` and `rhs`: `rhs` turned by the angle of `self`
    /// and stretched by its length.
    pub open spec fn spec_rotate(self, rhs: Cell) -> Cell {
        Cell {
            x: self.x.wrapping_mul(rhs.x).wrapping_sub(self.y.wrapping_mul(rhs.y)),
            y: self.y.wrapping_mul(rhs.x).wrapping_add(self.x.wrapping_mul(rhs.y)),
        }
    }

    /// Whether the remainder by `rhs` exists and fits: no component of `rhs`
    /// is zero, and none is `-1` where `self` has the least `i32`.
    pub open spec fn rem_defined(self, rhs: Cell) -> bool {
        &&& rhs.x != 0
        &&& rhs.y != 0
        &&& !(self.x == i32::MIN && rhs.x == -1)
        &&& !(self.y == i32::MIN && rhs.y == -1)
    }

    /// Component-wise remainder that is never negative.
    pub open spec fn spec_rem_euclid(self, rhs: Cell) -> Cell {
        Cell { x: (self.x % rhs.x) as i32, y: (self.y % rhs.y) as i32 }
    }

    /// Whether the cell lies on the grid.
    pub open spec fn spec_in_grid(self) -> bool {
        0 <= self.x < NUM_COLS && 0 <= self.y < NUM_ROWS
    }

    pub fn new(x: i32, y: i32) -> (r: Cell)
        ensures
            r == (Cell { x, y }),
    {
        Cell { x, y }
    }

    /// The unit step towards larger `x`.
    pub fn right() -> (r: Cell)
        ensures
            r == (Cell { x: 1, y: 0 }),
    {
        Cell { x: 1, y: 0 }
    }

    /// The unit step towards smaller `x`.
    pub fn left() -> (r: Cell)
        ensures
            r == (Cell { x: -1i32, y: 0 }),
    {
        Cell { x: -1, y: 0 }
    }

    /// The unit step towards larger `y`.
    pub fn down() -> (r: Cell)
        ensures
            r == (Cell { x: 0, y: 1 }),
    {
        Cell { x: 0, y: 1 }
    }

    /// The unit step towards smaller `y`.
    pub fn up() -> (r: Cell)
        ensures
            r == (Cell { x: 0, y: -1i32 }),
    {
        Cell { x: 0, y: -1 }
    }

    #[verifier::when_used_as_spec(spec_plus)]
    pub fn plus(self, rhs: Cell) -> (r: Cell)
        ensures
            r == self.spec_plus(rhs),
            i32::MIN <= self.x + rhs.x <= i32::MAX ==> r.x == self.x + rhs.x,
            i32::MIN <= self.y + rhs.y <= i32::MAX ==> r.y == self.y + rhs.y,
    {
        Cell { x: self.x.wrapping_add(rhs.x), y: self.y.wrapping_add(rhs.y) }
    }

    #[verifier::when_used_as_spec(spec_minus)]
    pub fn minus(self, rhs: Cell) -> (r: Cell)
        ensures
            r == self.spec_minus(rhs),
            i32::MIN <= self.x - rhs.x <= i32::MAX ==> r.x == self.x - rhs.x,
            i32::MIN <= self.y - rhs.y <= i32::MAX ==> r.y == self.y - rhs.y,
    {
        Cell { x: self.x.wrapping_sub(rhs.x), y: self.y.wrapping_sub(rhs.y) }
    }

    #[verifier::when_used_as_spec(spec_negate)]
    pub fn negate(self) -> (r: Cell)
        ensures
            r == self.spec_negate(),
            self.x != i32::MIN ==> r.x == -self.x,
            self.y != i32::MIN ==> r.y == -self.y,
    {
        let zero: i32 = 0;
        Cell { x: zero.wrapping_sub(self.x), y: zero.wrapping_sub(self.y) }
    }

    #[verifier::when_used_as_spec(spec_scale)]
    pub fn scale(self, k: i32) -> (r: Cell)
        ensures
            r == self.spec_scale(k),
            i32::MIN <= self.x * k <= i32::MAX ==> r.x == self.x * k,
            i32::MIN <= self.y * k <= i32::MAX ==> r.y == self.y * k,
    {
        Cell { x: self.x.wrapping_mul(k), y: self.y.wrapping_mul(k) }
    }

    #[verifier::when_used_as_spec(spec_rotate)]
    pub fn rotate(self, rhs: Cell) -> (r: Cell)
        ensures
            r == self.spec_rotate(rhs),
    {
        Cell {
            x: self.x.wrapping_mul(rhs.x).wrapping_sub(self.y.wrapping_mul(rhs.y)),
            y: self.y.wrapping_mul(rhs.x).wrapping_add(self.x.wrapping_mul(rhs.y)),
        }
    }

    #[verifier::when_used_as_spec(spec_rem_euclid)]
    pub fn rem_euclid(self, rhs: Cell) -> (r: Cell)
        requires
            self.rem_defined(rhs),
        ensures
            r == self.spec_rem_euclid(rhs),
            rhs.x > 0 ==> 0 <= r.x < rhs.x,
            rhs.y > 0 ==> 0 <= r.y < rhs.y,
    {
        Cell {
            x: self.x.checked_rem_euclid(rhs.x).unwrap(),
            y: self.y.checked_rem_euclid(rhs.y).unwrap(),
        }
    }

    #[verifier::when_used_as_spec(spec_in_grid)]
    pub fn in_grid(self) -> (r: bool)
        ensures
            r == self.spec_in_grid(),
    {
        0 <= self.x && self.x < NUM_COLS && 0 <= self.y && self.y < NUM_ROWS
    }
}

/// The extent of the grid as a divisor for wrapping a position onto it.
pub open spec fn spec_grid_size() -> Cell {
    Cell { x: NUM_COLS, y: NUM_ROWS }
}

#[verifier::when_used_as_spec(spec_grid_size)]
pub fn grid_size() -> (r: Cell)
    ensures
        r == spec_grid_size(),
{
    Cell { x: NUM_COLS, y: NUM_ROWS }
}

} // verus!
