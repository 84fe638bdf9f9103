//! Bodies and the flat store that holds them.
//!
//! A body is found by the identity that the host gave it. An identity that no
//! body in the store has is stale: whatever refers to it is passed over.

use vstd::prelude::*;
use crate::colliders::Collider;
use crate::components::{
    Aabb, DynamicBoxBundle, Mass, ParticleBundle, Pos, PreSolveVel, PrevPos, Restitution,
    StaticBoxBundle, StaticCircleBundle, Vel,
};
use crate::vec2::{vec2_of, Vec2};

verus! {

/// One simulated body. A body with a mass is dynamic; one without is static
/// and never moves.
#[derive(Debug, Clone, Copy, PartialEq, Eq, Structural)]
pub struct Body {
    /// The identity that the host knows the body by.
    pub entity: u64,
    pub pos: Pos,
    pub prev_pos: PrevPos,
    pub vel: Vel,
    pub pre_solve_vel: PreSolveVel,
    pub mass: Option<Mass>,
    pub restitution: Restitution,
    pub collider: Collider,
    pub aabb: Aabb,
    /// The position as it was last published to the host.
    pub translation: Vec2,
}

impl Body {
    /// A dynamic circle.
    pub fn particle(entity: u64, bundle: ParticleBundle) -> (body: Body)
        ensures
            body == (Body {
                entity,
                pos: bundle.pos,
                prev_pos: bundle.prev_pos,
                vel: bundle.vel,
                pre_solve_vel: bundle.pre_solve_vel,
                mass: Some(bundle.mass),
                restitution: bundle.restitution,
                collider: Collider::Circle(bundle.collider),
                aabb: bundle.aabb,
                translation: bundle.pos.0,
            }),
    {
        Body {
            entity,
            pos: bundle.pos,
            prev_pos: bundle.prev_pos,
            vel: bundle.vel,
            pre_solve_vel: bundle.pre_solve_vel,
            mass: Some(bundle.mass),
            restitution: bundle.restitution,
            collider: Collider::Circle(bundle.collider),
            aabb: bundle.aabb,
            translation: bundle.pos.0,
        }
    }

    /// A dynamic box.
    pub fn dynamic_box(entity: u64, bundle: DynamicBoxBundle) -> (body: Body)
        ensures
            body == (Body {
                entity,
                pos: bundle.pos,
                prev_pos: bundle.prev_pos,
                vel: bundle.vel,
                pre_solve_vel: bundle.pre_solve_vel,
                mass: Some(bundle.mass),
                restitution: bundle.restitution,
                collider: Collider::Box(bundle.collider),
                aabb: bundle.aabb,
                translation: bundle.pos.0,
            }),
    {
        Body {
            entity,
            pos: bundle.pos,
            prev_pos: bundle.prev_pos,
            vel: bundle.vel,
            pre_solve_vel: bundle.pre_solve_vel,
            mass: Some(bundle.mass),
            restitution: bundle.restitution,
            collider: Collider::Box(bundle.collider),
            aabb: bundle.aabb,
            translation: bundle.pos.0,
        }
    }

    /// An immovable circle, at rest where the bundle puts it.
    pub fn static_circle(entity: u64, bundle: StaticCircleBundle) -> (body: Body)
        ensures
            body == (Body {
                entity,
                pos: bundle.pos,
                prev_pos: PrevPos(bundle.pos.0),
                vel: Vel(vec2_of(0, 0)),
                pre_solve_vel: PreSolveVel(vec2_of(0, 0)),
                mass: None,
                restitution: bundle.restitution,
                collider: Collider::Circle(bundle.collider),
                aabb: Aabb { min: vec2_of(0, 0), max: vec2_of(0, 0) },
                translation: bundle.pos.0,
            }),
    {
        Body {
            entity,
            pos: bundle.pos,
            prev_pos: PrevPos(bundle.pos.0),
            vel: Vel(Vec2::zero()),
            pre_solve_vel: PreSolveVel(Vec2::zero()),
            mass: None,
            restitution: bundle.restitution,
            collider: Collider::Circle(bundle.collider),
            aabb: Aabb::default(),
            translation: bundle.pos.0,
        }
    }

    /// An immovable box, at rest where the bundle puts it.
    pub fn static_box(entity: u64, bundle: StaticBoxBundle) -> (body: Body)
        ensures
            body == (Body {
                entity,
                pos: bundle.pos,
                prev_pos: PrevPos(bundle.pos.0),
                vel: Vel(vec2_of(0, 0)),
                pre_solve_vel: PreSolveVel(vec2_of(0, 0)),
                mass: None,
                restitution: bundle.restitution,
                collider: Collider::Box(bundle.collider),
                aabb: Aabb { min: vec2_of(0, 0), max: vec2_of(0, 0) },
                translation: bundle.pos.0,
            }),
    {
        Body {
            entity,
            pos: bundle.pos,
            prev_pos: PrevPos(bundle.pos.0),
            vel: Vel(Vec2::zero()),
            pre_solve_vel: PreSolveVel(Vec2::zero()),
            mass: None,
            restitution: bundle.restitution,
            collider: Collider::Box(bundle.collider),
            aabb: Aabb::default(),
            translation: bundle.pos.0,
        }
    }
}

/// The index of the first body from `from` on that has the identity `entity`.
pub open spec fn index_from(bodies: Seq<Body>, entity: u64, from: int) -> Option<int>
    decreases bodies.len() - from,
{
    if from < 0 || from >= bodies.len() {
        None
    } else if bodies[from].entity == entity {
        Some(from)
    } else {
        index_from(bodies, entity, from + 1)
    }
}

/// The index of the first body that has the identity `entity`; `None` for a
/// stale identity.
pub open spec fn index_of(bodies: Seq<Body>, entity: u64) -> Option<int> {
    index_from(bodies, entity, 0)
}

/// What `index_from` finds is a body with that identity, and no body between
/// `from` and it has it; when it finds none, no body from `from` on has it.
pub proof fn lemma_index_from(bodies: Seq<Body>, entity: u64, from: int)
    requires
        0 <= from,
    ensures
        match index_from(bodies, entity, from) {
            Some(i) => {
                &&& from <= i < bodies.len()
                &&& bodies[i].entity == entity
                &&& forall|k: int| from <= k < i ==> bodies[k].entity != entity
            },
            None => forall|k: int| from <= k < bodies.len() ==> bodies[k].entity != entity,
        },
    decreases bodies.len() - from,
{
    if from < bodies.len() && bodies[from].entity != entity {
        lemma_index_from(bodies, entity, from + 1);
    }
}

/// Where a body is found depends on the identities alone.
pub proof fn lemma_index_from_same_entities(a: Seq<Body>, b: Seq<Body>, entity: u64, from: int)
    requires
        a.len() == b.len(),
        forall|k: int| 0 <= k < a.len() ==> a[k].entity == b[k].entity,
    ensures
        index_from(a, entity, from) == index_from(b, entity, from),
    decreases a.len() - from,
{
    if 0 <= from < a.len() && a[from].entity != entity {
        lemma_index_from_same_entities(a, b, entity, from + 1);
    }
}

/// Finds the body with the identity `entity`.
pub fn find_body(bodies: &Vec<Body>, entity: u64) -> (found: Option<usize>)
    ensures
        found matches Some(i) ==> index_of(bodies@, entity) == Some(i as int) && i < bodies.len(),
        found is None ==> index_of(bodies@, entity) is None,
{
    let mut i: usize = 0;
    while i < bodies.len()
        invariant
            i <= bodies.len(),
            index_of(bodies@, entity) == index_from(bodies@, entity, i as int),
        decreases bodies.len() - i,
    {
        if bodies[i].entity == entity {
            return Some(i);
        }
        i = i + 1;
    }
    None
}

/// No two bodies of the store have the same identity.
pub open spec fn unique_identities(bodies: Seq<Body>) -> bool {
    forall|i: int, j: int| 0 <= i < j < bodies.len() ==> bodies[i].entity != bodies[j].entity
}

/// In a store of unique identities, the identity of a body finds that body.
pub proof fn lemma_unique_identity_finds_body(bodies: Seq<Body>, i: int)
    requires
        unique_identities(bodies),
        0 <= i < bodies.len(),
    ensures
        index_of(bodies, bodies[i].entity) == Some(i),
{
    lemma_index_from(bodies, bodies[i].entity, 0);
}

/// Stores that agree on the identities are unique together.
pub proof fn lemma_same_entities_stay_unique(before: Seq<Body>, after: Seq<Body>)
    requires
        unique_identities(before),
        after.len() == before.len(),
        forall|k: int| 0 <= k < before.len() ==> after[k].entity == before[k].entity,
    ensures
        unique_identities(after),
{
}

/// Whether no two bodies of the store have the same identity.
pub fn has_unique_identities(bodies: &Vec<Body>) -> (unique: bool)
    ensures
        unique == unique_identities(bodies@),
{
    let n: usize = bodies.len();
    let mut j: usize = 0;
    while j < n
        invariant
            n == bodies.len(),
            j <= n,
            forall|a: int, b: int| 0 <= a < b < j ==> bodies@[a].entity != bodies@[b].entity,
        decreases n - j,
    {
        let mut i: usize = 0;
        while i < j
            invariant
                n == bodies.len(),
                i <= j < n,
                forall|a: int| 0 <= a < i ==> bodies@[a].entity != bodies@[j as int].entity,
            decreases j - i,
        {
            if bodies[i].entity == bodies[j].entity {
                return false;
            }
            i = i + 1;
        }
        j = j + 1;
    }
    true
}

} // verus!
