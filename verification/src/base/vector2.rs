//! Two-dimensional vectors whose coordinates count hundredths of a world unit.

use vstd::prelude::*;

verus! {

/// The integer `v` held inside the range of `i64`.
pub open spec fn clamp_i64(v: int) -> int {
    if v < i64::MIN as int {
        i64::MIN as int
    } else if v > i64::MAX as int {
        i64::MAX as int
    } else {
        v
    }
}

/// Adds two coordinates; a sum that leaves the range of `i64` stays at the
/// nearest bound.
pub fn saturating_sum(a: i64, b: i64) -> (sum: i64)
    ensures
        sum == clamp_i64(a + b),
{
    if b >= 0 {
        if a > i64::MAX - b {
            i64::MAX
        } else {
            a + b
        }
    } else {
        if a < i64::MIN - b {
            i64::MIN
        } else {
            a + b
        }
    }
}

/// How many fixed-point steps make one world unit.
pub const UNIT: i64 = 100;

/// A vector in hundredths of a world unit.
#[derive(Clone, Copy, Debug, PartialEq, Eq, Structural)]
pub struct Vector2 {
    pub x: i64,
    pub y: i64,
}

impl Vector2 {
    /// The origin.
    pub fn zero() -> (v: Vector2)
        ensures
            v == (Vector2 { x: 0, y: 0 }),
    {
        Vector2 { x: 0, y: 0 }
    }

    /// One whole world unit towards negative `x`.
    pub fn left() -> (v: Vector2)
        ensures
            v.x == -UNIT,
            v.y == 0,
    {
        Vector2 { x: -UNIT, y: 0 }
    }

    /// One whole world unit towards positive `x`.
    pub fn right() -> (v: Vector2)
        ensures
            v == (Vector2 { x: UNIT, y: 0 }),
    {
        Vector2 { x: UNIT, y: 0 }
    }

    /// One whole world unit towards positive `y`.
    pub fn up() -> (v: Vector2)
        ensures
            v == (Vector2 { x: 0, y: UNIT }),
    {
        Vector2 { x: 0, y: UNIT }
    }

    /// One whole world unit towards negative `y`.
    pub fn down() -> (v: Vector2)
        ensures
            v.x == 0,
            v.y == -UNIT,
    {
        Vector2 { x: 0, y: -UNIT }
    }

    /// The vector with the given coordinates.
    pub fn new(x: i64, y: i64) -> (v: Vector2)
        ensures
            v.x == x,
            v.y == y,
    {
        Vector2 { x, y }
    }

    /// Component-wise sum; a coordinate that leaves the range of `i64` stays
    /// at the nearest bound.
    pub fn add(self, second: Vector2) -> (sum: Vector2)
        ensures
            sum.x == clamp_i64(self.x + second.x),
            sum.y == clamp_i64(self.y + second.y),
    {
        Vector2 { x: saturating_sum(self.x, second.x), y: saturating_sum(self.y, second.y) }
    }
}

} // verus!
