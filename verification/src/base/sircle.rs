//! Circles, the only collision shape of the game.

use vstd::prelude::*;
use crate::base::vector2::Vector2;

verus! {

/// A circle; radius and centre count hundredths of a world unit.
#[derive(Clone, Copy, Debug, PartialEq, Eq, Structural)]
pub struct Sircle {
    pub radius: i64,
    pub position: Vector2,
}

} // verus!
