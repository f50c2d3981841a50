//! The vocabulary of the simulation: collision states, frame events,
//! animation frames and the states of an entity.

use vstd::prelude::*;
use crate::base::sircle::Sircle;
use crate::base::vector2::Vector2;
use crate::client::renderer::Texture;

verus! {

/// Whether hits can reach an entity.
#[derive(Clone, Copy, Debug, PartialEq, Eq, Structural)]
pub enum ColisionState {
    Vulnerable,
    Invincible,
    UnTouchable,
}

/// A region in which an entity can be hit, with the state that governs it.
#[derive(Clone, Copy, Debug, PartialEq, Eq, Structural)]
pub struct ColisionSircle {
    pub colision_shape: Sircle,
    pub state: ColisionState,
}

/// A declared effect of a frame or of a hit. Vectors, magnitudes, damage and
/// stun count hundredths; the duration of a state change counts ticks.
#[derive(Clone, Copy, Debug, PartialEq, Eq, Structural)]
pub enum FrameEvent {
    SetVelocity(Vector2),
    AddVelocity(Vector2),
    SetVelocityFromPoint(Vector2, i64),
    AddVelocityFromPoint(Vector2, i64),
    MoveTo(Vector2),
    DealDamage(i64),
    ApplyHitStun(i64),
    ChangeColisionState(ColisionState, u32),
}

/// A region that hits, with the events it applies on contact, in order.
#[derive(Clone, Debug)]
pub struct HitSircle {
    pub colision_shape: Sircle,
    pub impact_events: Vec<FrameEvent>,
}

/// For how many ticks a frame is held.
pub type HoldSize = u8;

/// One frame of an animation.
#[derive(Clone, Debug)]
pub struct AnimationFrame {
    pub hurt_sircles: Vec<ColisionSircle>,
    pub hit_sircles: Vec<HitSircle>,
    pub events: Vec<FrameEvent>,
    pub texture: Texture,
    pub hold: HoldSize,
}

/// Which animation an entity plays, the index of its current frame, and for
/// how many ticks that frame has been held.
#[derive(Clone, Copy, Debug, PartialEq, Eq, Structural)]
pub enum AnimationState {
    Idling(usize, HoldSize),
    Running(usize, HoldSize),
    Jump(usize, HoldSize),
    Rizing(usize, HoldSize),
    Falling(usize, HoldSize),
    LightAttack(usize, HoldSize),
    HeavyAttack(usize, HoldSize),
    AirBornLightAttack(usize, HoldSize),
    AirBornHeavyAttack(usize, HoldSize),
}

/// A horizontal direction.
#[derive(Clone, Copy, Debug, PartialEq, Eq, Structural)]
pub enum Direction {
    Left,
    Right,
}

impl Direction {
    /// `-1` for left and `1` for right.
    pub open spec fn sign_of(self) -> int {
        match self {
            Direction::Left => -1,
            Direction::Right => 1,
        }
    }

    /// `-1` for left and `1` for right.
    pub fn sign(self) -> (s: i64)
        ensures
            s == self.sign_of(),
    {
        match self {
            Direction::Left => -1,
            Direction::Right => 1,
        }
    }
}

/// What an entity is free to do.
#[derive(Clone, Copy, Debug, PartialEq, Eq, Structural)]
pub enum State {
    Actionable,
    Acting,
    HitStun(u32),
}

} // verus!
