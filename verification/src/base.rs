//! Geometry primitives in fixed-point world units.

pub mod sircle;
pub mod vector2;
