//! The state of a body, piece by piece, and the bundles that bodies are made
//! from.

use vstd::prelude::*;
use crate::colliders::{BoxCollider, CircleCollider};
use crate::consts::SUBSTEPS_PER_SECOND;
use crate::fixed::{fixed, Fixed, SCALE};
use crate::vec2::{vec2_of, Vec2};

verus! {

/// Where a body is.
#[derive(Debug, Clone, Copy, PartialEq, Eq, Structural)]
pub struct Pos(pub Vec2);

/// Where a body was before the current substep's integration.
#[derive(Debug, Clone, Copy, PartialEq, Eq, Structural)]
pub struct PrevPos(pub Vec2);

/// How fast a body moves, per second.
#[derive(Debug, Clone, Copy, PartialEq, Eq, Structural)]
pub struct Vel(pub Vec2);

/// The velocity right after integration, before any position was corrected.
#[derive(Debug, Clone, Copy, PartialEq, Eq, Structural)]
pub struct PreSolveVel(pub Vec2);

/// The mass of a dynamic body. It is positive: a mass of zero or less cannot
/// be made. A body without a mass is static.
#[derive(Debug, Clone, Copy, PartialEq, Eq, Structural)]
pub struct Mass(Fixed);

impl Mass {
    #[verifier::type_invariant]
    spec fn positive(self) -> bool {
        self.0@ > 0
    }

    /// The raw count of the mass.
    pub closed spec fn value(self) -> int {
        self.0@
    }

    /// The mass `value`, or `None` for a value of zero or less.
    pub fn new(value: Fixed) -> (mass: Option<Mass>)
        ensures
            mass is Some <==> value@ > 0,
            mass matches Some(m) ==> m.value() == value@,
    {
        if value.raw > 0 {
            Some(Mass(value))
        } else {
            None
        }
    }

    pub fn get(&self) -> (value: Fixed)
        ensures
            value@ == self.value(),
            value@ > 0,
    {
        proof {
            use_type_invariant(self);
        }
        self.0
    }
}

impl Default for Mass {
    /// The mass one.
    fn default() -> (mass: Mass)
        ensures
            mass.value() == SCALE,
    {
        Mass(Fixed::from_int(1))
    }
}

/// How much of the normal velocity a body keeps in a collision: zero for a
/// perfectly inelastic body, one for a perfectly elastic one.
#[derive(Debug, Clone, Copy, PartialEq, Eq, Structural)]
pub struct Restitution(pub Fixed);

impl Default for Restitution {
    /// A restitution of 0.3.
    fn default() -> (restitution: Restitution)
        ensures
            restitution.0 == fixed(300_000_000),
    {
        Restitution(Fixed::from_raw(300_000_000))
    }
}

/// An axis-aligned bounding box.
#[derive(Debug, Clone, Copy, PartialEq, Eq, Structural)]
pub struct Aabb {
    /// The bottom-left corner.
    pub min: Vec2,
    /// The top-right corner.
    pub max: Vec2,
}

impl Aabb {
    /// The boxes share a point: they overlap or touch on both axes.
    pub open spec fn spec_intersects(&self, other: &Aabb) -> bool {
        &&& self.max.x@ >= other.min.x@
        &&& self.max.y@ >= other.min.y@
        &&& self.min.x@ <= other.max.x@
        &&& self.min.y@ <= other.max.y@
    }

    /// The boxes share a point: they overlap or touch on both axes.
    #[verifier::when_used_as_spec(spec_intersects)]
    pub fn intersects(&self, other: &Aabb) -> (hit: bool)
        ensures
            hit == self.spec_intersects(other),
    {
        self.max.x.raw >= other.min.x.raw && self.max.y.raw >= other.min.y.raw && self.min.x.raw
            <= other.max.x.raw && self.min.y.raw <= other.max.y.raw
    }
}

impl Default for Aabb {
    /// The box that holds the origin alone.
    fn default() -> (aabb: Aabb)
        ensures
            aabb == (Aabb { min: vec2_of(0, 0), max: vec2_of(0, 0) }),
    {
        Aabb { min: Vec2::zero(), max: Vec2::zero() }
    }
}

/// The position a body had one substep before it was at `pos` with velocity
/// `vel`: `pos - vel / SUBSTEPS_PER_SECOND`.
pub open spec fn position_before(pos: Vec2, vel: Vec2) -> Vec2 {
    pos.sub(vel.div_int(SUBSTEPS_PER_SECOND))
}

/// What a dynamic circle is made from.
#[derive(Debug, Clone, Copy, PartialEq, Eq, Structural)]
pub struct ParticleBundle {
    pub pos: Pos,
    pub prev_pos: PrevPos,
    pub vel: Vel,
    pub pre_solve_vel: PreSolveVel,
    pub mass: Mass,
    pub restitution: Restitution,
    pub collider: CircleCollider,
    pub aabb: Aabb,
}

impl ParticleBundle {
    /// A particle at `pos` that moves with `vel`, of mass one, restitution
    /// 0.3 and radius 20. Its previous position is set one substep back
    /// along the velocity.
    pub fn new_with_pos_and_vel(pos: Vec2, vel: Vec2) -> (bundle: ParticleBundle)
        ensures
            bundle.pos == Pos(pos),
            bundle.prev_pos == PrevPos(position_before(pos, vel)),
            bundle.vel == Vel(vel),
            bundle.pre_solve_vel == PreSolveVel(vec2_of(0, 0)),
            bundle.mass.value() == SCALE,
            bundle.restitution.0 == fixed(300_000_000),
            bundle.collider.radius == fixed(20 * SCALE),
            bundle.aabb == (Aabb { min: vec2_of(0, 0), max: vec2_of(0, 0) }),
    {
        ParticleBundle {
            pos: Pos(pos),
            prev_pos: PrevPos(pos.sub(vel.div_int(SUBSTEPS_PER_SECOND))),
            vel: Vel(vel),
            pre_solve_vel: PreSolveVel(Vec2::zero()),
            mass: Mass::default(),
            restitution: Restitution::default(),
            collider: CircleCollider::default(),
            aabb: Aabb::default(),
        }
    }
}

impl Default for ParticleBundle {
    /// A particle at rest at the origin.
    fn default() -> (bundle: ParticleBundle)
        ensures
            bundle.pos == Pos(vec2_of(0, 0)),
            bundle.prev_pos == PrevPos(vec2_of(0, 0)),
            bundle.vel == Vel(vec2_of(0, 0)),
            bundle.pre_solve_vel == PreSolveVel(vec2_of(0, 0)),
            bundle.mass.value() == SCALE,
            bundle.restitution.0 == fixed(300_000_000),
            bundle.collider.radius == fixed(20 * SCALE),
            bundle.aabb == (Aabb { min: vec2_of(0, 0), max: vec2_of(0, 0) }),
    {
        ParticleBundle::new_with_pos_and_vel(Vec2::zero(), Vec2::zero())
    }
}

/// What a dynamic box is made from.
#[derive(Debug, Clone, Copy, PartialEq, Eq, Structural)]
pub struct DynamicBoxBundle {
    pub pos: Pos,
    pub prev_pos: PrevPos,
    pub vel: Vel,
    pub pre_solve_vel: PreSolveVel,
    pub mass: Mass,
    pub restitution: Restitution,
    pub collider: BoxCollider,
    pub aabb: Aabb,
}

impl DynamicBoxBundle {
    /// A unit box at `pos` that moves with `vel`, of mass one and restitution
    /// 0.3. Its previous position is set one substep back along the velocity.
    pub fn new_with_pos_and_vel(pos: Vec2, vel: Vec2) -> (bundle: DynamicBoxBundle)
        ensures
            bundle.pos == Pos(pos),
            bundle.prev_pos == PrevPos(position_before(pos, vel)),
            bundle.vel == Vel(vel),
            bundle.pre_solve_vel == PreSolveVel(vec2_of(0, 0)),
            bundle.mass.value() == SCALE,
            bundle.restitution.0 == fixed(300_000_000),
            bundle.collider.size == vec2_of(SCALE as int, SCALE as int),
            bundle.aabb == (Aabb { min: vec2_of(0, 0), max: vec2_of(0, 0) }),
    {
        DynamicBoxBundle {
            pos: Pos(pos),
            prev_pos: PrevPos(pos.sub(vel.div_int(SUBSTEPS_PER_SECOND))),
            vel: Vel(vel),
            pre_solve_vel: PreSolveVel(Vec2::zero()),
            mass: Mass::default(),
            restitution: Restitution::default(),
            collider: BoxCollider::default(),
            aabb: Aabb::default(),
        }
    }
}

impl Default for DynamicBoxBundle {
    /// A unit box at rest at the origin.
    fn default() -> (bundle: DynamicBoxBundle)
        ensures
            bundle.pos == Pos(vec2_of(0, 0)),
            bundle.prev_pos == PrevPos(vec2_of(0, 0)),
            bundle.vel == Vel(vec2_of(0, 0)),
            bundle.pre_solve_vel == PreSolveVel(vec2_of(0, 0)),
            bundle.mass.value() == SCALE,
            bundle.restitution.0 == fixed(300_000_000),
            bundle.collider.size == vec2_of(SCALE as int, SCALE as int),
            bundle.aabb == (Aabb { min: vec2_of(0, 0), max: vec2_of(0, 0) }),
    {
        DynamicBoxBundle::new_with_pos_and_vel(Vec2::zero(), Vec2::zero())
    }
}

/// What an immovable circle is made from.
#[derive(Debug, Clone, Copy, PartialEq, Eq, Structural)]
pub struct StaticCircleBundle {
    pub pos: Pos,
    pub collider: CircleCollider,
    pub restitution: Restitution,
}

impl Default for StaticCircleBundle {
    /// A circle of radius 20 at the origin, of restitution 0.3.
    fn default() -> (bundle: StaticCircleBundle)
        ensures
            bundle.pos == Pos(vec2_of(0, 0)),
            bundle.collider.radius == fixed(20 * SCALE),
            bundle.restitution.0 == fixed(300_000_000),
    {
        StaticCircleBundle {
            pos: Pos(Vec2::zero()),
            collider: CircleCollider::default(),
            restitution: Restitution::default(),
        }
    }
}

/// What an immovable box is made from.
#[derive(Debug, Clone, Copy, PartialEq, Eq, Structural)]
pub struct StaticBoxBundle {
    pub pos: Pos,
    pub collider: BoxCollider,
    pub restitution: Restitution,
}

impl Default for StaticBoxBundle {
    /// A unit box at the origin, of restitution 0.3.
    fn default() -> (bundle: StaticBoxBundle)
        ensures
            bundle.pos == Pos(vec2_of(0, 0)),
            bundle.collider.size == vec2_of(SCALE as int, SCALE as int),
            bundle.restitution.0 == fixed(300_000_000),
    {
        StaticBoxBundle {
            pos: Pos(Vec2::zero()),
            collider: BoxCollider::default(),
            restitution: Restitution::default(),
        }
    }
}

} // verus!
