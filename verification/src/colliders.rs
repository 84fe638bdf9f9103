//! The shapes a body can have.

use vstd::prelude::*;
use crate::fixed::{fixed, Fixed, SCALE};
use crate::vec2::{vec2_of, Vec2};

verus! {

/// A circle about the body's position.
#[derive(Debug, Clone, Copy, PartialEq, Eq, Structural)]
pub struct CircleCollider {
    pub radius: Fixed,
}

impl Default for CircleCollider {
    /// A circle of radius 20.
    fn default() -> (c: CircleCollider)
        ensures
            c.radius == fixed(20 * SCALE),
    {
        CircleCollider { radius: Fixed::from_int(20) }
    }
}

/// An axis-aligned box about the body's position. `size` is its full extent.
#[derive(Debug, Clone, Copy, PartialEq, Eq, Structural)]
pub struct BoxCollider {
    pub size: Vec2,
}

impl Default for BoxCollider {
    /// The unit box.
    fn default() -> (c: BoxCollider)
        ensures
            c.size == vec2_of(SCALE as int, SCALE as int),
    {
        BoxCollider { size: Vec2::splat(Fixed::from_int(1)) }
    }
}

/// The shape of a body: one of a closed set.
#[derive(Debug, Clone, Copy, PartialEq, Eq, Structural)]
pub enum Collider {
    Circle(CircleCollider),
    Box(BoxCollider),
}

} // verus!
