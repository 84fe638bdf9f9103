//! The solver's passes. Each is a full pass over the bodies, the candidate
//! pairs or the recorded contacts; `substep` runs them in order.

use vstd::prelude::*;
use crate::body::{find_body, index_of, Body};
use crate::colliders::Collider;
use crate::components::{Aabb, Mass, Pos, PreSolveVel, PrevPos, Vel};
use crate::consts::{COLLISION_PAIR_VEL_MARGIN_FACTOR, STEPS_PER_SECOND, SUBSTEPS_PER_SECOND};
use crate::contact::{
    ball_ball, ball_ball_contact, ball_box, ball_box_contact, box_box, box_box_contact, Contact,
};
use crate::fixed::{ratio, scale_ratio, Fixed};
use crate::resources::{CollisionPairs, Contacts, Gravity, StaticContacts};
use crate::vec2::Vec2;

verus! {

/// The XPBD solver: its passes are this type's associated functions.
#[derive(Debug, Clone, Copy, PartialEq, Eq, Structural)]
pub struct XpbdPlugin;

/// The safety margin of a body that moves with `vel`: the way it goes in
/// `COLLISION_PAIR_VEL_MARGIN_FACTOR` physics steps.
pub open spec fn velocity_margin(vel: Vec2) -> Fixed {
    ratio(vel.length()@, COLLISION_PAIR_VEL_MARGIN_FACTOR as int, STEPS_PER_SECOND as int)
}

/// The box about `pos` that reaches `half_extents` to each side.
pub open spec fn bounding_box(pos: Vec2, half_extents: Vec2) -> Aabb {
    Aabb { min: pos.sub(half_extents), max: pos.add(half_extents) }
}

/// The half extents of a body's bounding box: those of its shape, widened by
/// the safety margin of its velocity.
pub open spec fn half_extents(body: Body) -> Vec2 {
    let margin = velocity_margin(body.vel.0);
    match body.collider {
        Collider::Circle(circle) => Vec2 {
            x: circle.radius.add(margin),
            y: circle.radius.add(margin),
        },
        Collider::Box(box_) => box_.size.div_int(2).add(Vec2 { x: margin, y: margin }),
    }
}

/// The body with its bounding box brought up to date, if it is a circle.
pub open spec fn with_circle_aabb(body: Body) -> Body {
    if body.collider is Circle {
        Body { aabb: bounding_box(body.pos.0, half_extents(body)), ..body }
    } else {
        body
    }
}

/// The body with its bounding box brought up to date, if it is a box.
pub open spec fn with_box_aabb(body: Body) -> Body {
    if body.collider is Box {
        Body { aabb: bounding_box(body.pos.0, half_extents(body)), ..body }
    } else {
        body
    }
}

/// The body after one substep of free motion under `gravity`. A dynamic body
/// remembers where it was, gains `gravity / SUBSTEPS_PER_SECOND` in velocity,
/// moves by the new velocity over `SUBSTEPS_PER_SECOND`, and records the new
/// velocity as its pre-solve velocity. A static body stays as it is.
pub open spec fn integrated(body: Body, gravity: Vec2) -> Body {
    if body.mass is Some {
        let vel = body.vel.0.add(gravity.div_int(SUBSTEPS_PER_SECOND));
        Body {
            prev_pos: PrevPos(body.pos.0),
            vel: Vel(vel),
            pos: Pos(body.pos.0.add(vel.div_int(SUBSTEPS_PER_SECOND))),
            pre_solve_vel: PreSolveVel(vel),
            ..body
        }
    } else {
        body
    }
}

/// The body with its velocity derived from the way it went in this substep:
/// `(pos - prev_pos) * SUBSTEPS_PER_SECOND` for a dynamic body.
pub open spec fn with_derived_velocity(body: Body) -> Body {
    if body.mass is Some {
        Body { vel: Vel(body.pos.0.sub(body.prev_pos.0).mul_int(SUBSTEPS_PER_SECOND)), ..body }
    } else {
        body
    }
}

/// The body with its position published to the host.
pub open spec fn published(body: Body) -> Body {
    Body { translation: body.pos.0, ..body }
}

/// The positions of two dynamic bodies after their overlap of `penetration`
/// along `normal` has been undone. The bodies part by `normal * penetration`
/// in all; the first body takes the share `mass_b / (mass_a + mass_b)` of it,
/// rounded toward zero, and the second body takes the rest, so the lighter
/// body moves more.
pub open spec fn constrained_positions(
    pos_a: Vec2,
    pos_b: Vec2,
    mass_a: int,
    mass_b: int,
    normal: Vec2,
    penetration: Fixed,
) -> (Vec2, Vec2) {
    let push = normal.scale(penetration);
    let share_a = Vec2 {
        x: ratio(push.x@, mass_b, mass_a + mass_b),
        y: ratio(push.y@, mass_b, mass_a + mass_b),
    };
    let share_b = push.sub(share_a);
    (pos_a.sub(share_a), pos_b.add(share_b))
}

/// The position of a dynamic body after its overlap of `penetration` along
/// `normal` with a static body has been undone: the dynamic body takes all of
/// the correction.
pub open spec fn constrained_position(pos: Vec2, normal: Vec2, penetration: Fixed) -> Vec2 {
    pos.sub(normal.scale(penetration))
}

/// Splits `amount` between two bodies in inverse proportion to their masses:
/// the part of the first body, `amount * mass_b / (mass_a + mass_b)`.
fn share_of_first(amount: Vec2, mass_a: &Mass, mass_b: &Mass) -> (share: Vec2)
    ensures
        share == (Vec2 {
            x: ratio(amount.x@, mass_b.value(), mass_a.value() + mass_b.value()),
            y: ratio(amount.y@, mass_b.value(), mass_a.value() + mass_b.value()),
        }),
{
    let m_a = mass_a.get();
    let m_b = mass_b.get();
    let total: i128 = m_a.raw as i128 + m_b.raw as i128;
    Vec2::new(scale_ratio(amount.x.raw, m_b.raw, total), scale_ratio(amount.y.raw, m_b.raw, total))
}

/// Undoes the overlap of two dynamic bodies.
pub fn constrain_body_positions(
    pos_a: &mut Pos,
    pos_b: &mut Pos,
    mass_a: &Mass,
    mass_b: &Mass,
    normal: Vec2,
    penetration: Fixed,
)
    ensures
        (final(pos_a).0, final(pos_b).0) == constrained_positions(
            old(pos_a).0,
            old(pos_b).0,
            mass_a.value(),
            mass_b.value(),
            normal,
            penetration,
        ),
{
    let push = normal.scale(penetration);
    let share_a = share_of_first(push, mass_a, mass_b);
    let share_b = push.sub(share_a);
    pos_a.0 = pos_a.0.sub(share_a);
    pos_b.0 = pos_b.0.add(share_b);
}

/// Undoes the overlap of a dynamic body with a static one.
pub fn constrain_body_position(pos: &mut Pos, normal: Vec2, penetration: Fixed)
    ensures
        final(pos).0 == constrained_position(old(pos).0, normal, penetration),
{
    pos.0 = pos.0.sub(normal.scale(penetration));
}

/// The half extents of the bounding box of `body`.
fn body_half_extents(body: &Body) -> (extents: Vec2)
    ensures
        extents == half_extents(*body),
{
    let margin = scale_ratio(
        body.vel.0.length().raw,
        COLLISION_PAIR_VEL_MARGIN_FACTOR,
        STEPS_PER_SECOND as i128,
    );
    match body.collider {
        Collider::Circle(circle) => Vec2::splat(circle.radius.add(margin)),
        Collider::Box(box_) => box_.size.div_int(2).add(Vec2::splat(margin)),
    }
}

impl XpbdPlugin {
    /// Brings the bounding box of every circle up to date.
    pub fn update_aabb_circle(bodies: &mut Vec<Body>)
        ensures
            final(bodies)@.len() == old(bodies)@.len(),
            forall|k: int|
                0 <= k < old(bodies)@.len() ==> final(bodies)@[k] == with_circle_aabb(
                    old(bodies)@[k],
                ),
    {
        let mut i: usize = 0;
        while i < bodies.len()
            invariant
                i <= bodies.len(),
                bodies@.len() == old(bodies)@.len(),
                forall|k: int| 0 <= k < i ==> bodies@[k] == with_circle_aabb(old(bodies)@[k]),
                forall|k: int| i <= k < bodies@.len() ==> bodies@[k] == old(bodies)@[k],
            decreases bodies.len() - i,
        {
            let mut body = bodies[i];
            match body.collider {
                Collider::Circle(_) => {
                    let extents = body_half_extents(&body);
                    body.aabb = Aabb { min: body.pos.0.sub(extents), max: body.pos.0.add(extents) };
                    bodies.set(i, body);
                },
                Collider::Box(_) => {},
            }
            i = i + 1;
        }
    }

    /// Brings the bounding box of every box up to date.
    pub fn update_aabb_box(bodies: &mut Vec<Body>)
        ensures
            final(bodies)@.len() == old(bodies)@.len(),
            forall|k: int|
                0 <= k < old(bodies)@.len() ==> final(bodies)@[k] == with_box_aabb(old(bodies)@[k]),
    {
        let mut i: usize = 0;
        while i < bodies.len()
            invariant
                i <= bodies.len(),
                bodies@.len() == old(bodies)@.len(),
                forall|k: int| 0 <= k < i ==> bodies@[k] == with_box_aabb(old(bodies)@[k]),
                forall|k: int| i <= k < bodies@.len() ==> bodies@[k] == old(bodies)@[k],
            decreases bodies.len() - i,
        {
            let mut body = bodies[i];
            match body.collider {
                Collider::Circle(_) => {},
                Collider::Box(_) => {
                    let extents = body_half_extents(&body);
                    body.aabb = Aabb { min: body.pos.0.sub(extents), max: body.pos.0.add(extents) };
                    bodies.set(i, body);
                },
            }
            i = i + 1;
        }
    }

    /// Moves every dynamic body freely for one substep.
    pub fn integrate(bodies: &mut Vec<Body>, gravity: &Gravity)
        ensures
            final(bodies)@.len() == old(bodies)@.len(),
            forall|k: int|
                0 <= k < old(bodies)@.len() ==> final(bodies)@[k] == integrated(
                    old(bodies)@[k],
                    gravity.0,
                ),
    {
        let mut i: usize = 0;
        while i < bodies.len()
            invariant
                i <= bodies.len(),
                bodies@.len() == old(bodies)@.len(),
                forall|k: int| 0 <= k < i ==> bodies@[k] == integrated(old(bodies)@[k], gravity.0),
                forall|k: int| i <= k < bodies@.len() ==> bodies@[k] == old(bodies)@[k],
            decreases bodies.len() - i,
        {
            let mut body = bodies[i];
            if body.mass.is_some() {
                body.prev_pos = PrevPos(body.pos.0);
                body.vel = Vel(body.vel.0.add(gravity.0.div_int(SUBSTEPS_PER_SECOND)));
                body.pos = Pos(body.pos.0.add(body.vel.0.div_int(SUBSTEPS_PER_SECOND)));
                body.pre_solve_vel = PreSolveVel(body.vel.0);
                bodies.set(i, body);
            }
            i = i + 1;
        }
    }

    /// Forgets the contacts of the substep before.
    pub fn clear_contacts(contacts: &mut Contacts, static_contacts: &mut StaticContacts)
        ensures
            final(contacts).0@ == Seq::<(u64, u64, Vec2)>::empty(),
            final(static_contacts).0@ == Seq::<(u64, u64, Vec2)>::empty(),
    {
        contacts.0.clear();
        static_contacts.0.clear();
    }

    /// Derives the velocity of every dynamic body from the way it went.
    pub fn update_vel(bodies: &mut Vec<Body>)
        ensures
            final(bodies)@.len() == old(bodies)@.len(),
            forall|k: int|
                0 <= k < old(bodies)@.len() ==> final(bodies)@[k] == with_derived_velocity(
                    old(bodies)@[k],
                ),
    {
        let mut i: usize = 0;
        while i < bodies.len()
            invariant
                i <= bodies.len(),
                bodies@.len() == old(bodies)@.len(),
                forall|k: int| 0 <= k < i ==> bodies@[k] == with_derived_velocity(old(bodies)@[k]),
                forall|k: int| i <= k < bodies@.len() ==> bodies@[k] == old(bodies)@[k],
            decreases bodies.len() - i,
        {
            let mut body = bodies[i];
            if body.mass.is_some() {
                body.vel = Vel(body.pos.0.sub(body.prev_pos.0).mul_int(SUBSTEPS_PER_SECOND));
                bodies.set(i, body);
            }
            i = i + 1;
        }
    }

    /// Publishes the position of every body to the host.
    pub fn sync_transforms(bodies: &mut Vec<Body>)
        ensures
            final(bodies)@.len() == old(bodies)@.len(),
            forall|k: int|
                0 <= k < old(bodies)@.len() ==> final(bodies)@[k] == published(old(bodies)@[k]),
    {
        let mut i: usize = 0;
        while i < bodies.len()
            invariant
                i <= bodies.len(),
                bodies@.len() == old(bodies)@.len(),
                forall|k: int| 0 <= k < i ==> bodies@[k] == published(old(bodies)@[k]),
                forall|k: int| i <= k < bodies@.len() ==> bodies@[k] == old(bodies)@[k],
            decreases bodies.len() - i,
        {
            let mut body = bodies[i];
            body.translation = body.pos.0;
            bodies.set(i, body);
            i = i + 1;
        }
    }
}

/// The candidate pairs of body `i` with the bodies after it and before `j`,
/// in the order of the store: those whose bounding boxes intersect.
pub open spec fn row_pairs(bodies: Seq<Body>, i: int, j: int) -> Seq<(u64, u64)>
    recommends
        0 <= i < j <= bodies.len(),
    decreases j - i,
{
    if j <= i + 1 {
        Seq::empty()
    } else {
        let before = row_pairs(bodies, i, j - 1);
        if bodies[i].aabb.intersects(&bodies[j - 1].aabb) {
            before.push((bodies[i].entity, bodies[j - 1].entity))
        } else {
            before
        }
    }
}

/// The candidate pairs whose first body is among the first `i` of the store.
pub open spec fn candidate_pairs_upto(bodies: Seq<Body>, i: int) -> Seq<(u64, u64)>
    decreases i,
{
    if i <= 0 {
        Seq::empty()
    } else {
        candidate_pairs_upto(bodies, i - 1) + row_pairs(bodies, i - 1, bodies.len() as int)
    }
}

/// The candidate pairs of the broad phase: every pair of two different bodies
/// whose bounding boxes intersect, once, the earlier body of the store first.
pub open spec fn candidate_pairs(bodies: Seq<Body>) -> Seq<(u64, u64)> {
    candidate_pairs_upto(bodies, bodies.len() as int)
}

impl XpbdPlugin {
    /// Collects the candidate pairs anew.
    pub fn collect_collision_pairs(bodies: &Vec<Body>, collision_pairs: &mut CollisionPairs)
        ensures
            final(collision_pairs).0@ == candidate_pairs(bodies@),
    {
        collision_pairs.0.clear();
        let n: usize = bodies.len();
        let mut i: usize = 0;
        while i < n
            invariant
                n == bodies.len(),
                i <= n,
                collision_pairs.0@ == candidate_pairs_upto(bodies@, i as int),
            decreases n - i,
        {
            let ghost done = collision_pairs.0@;
            let mut j: usize = i + 1;
            while j < n
                invariant
                    n == bodies.len(),
                    i < n,
                    i + 1 <= j <= n,
                    done == candidate_pairs_upto(bodies@, i as int),
                    collision_pairs.0@ == done + row_pairs(bodies@, i as int, j as int),
                decreases n - j,
            {
                let ghost row = row_pairs(bodies@, i as int, j as int);
                if bodies[i].aabb.intersects(&bodies[j].aabb) {
                    collision_pairs.0.push((bodies[i].entity, bodies[j].entity));
                    assert(collision_pairs.0@ == done + row.push(
                        (bodies@[i as int].entity, bodies@[j as int].entity),
                    ));
                }
                j = j + 1;
            }
            i = i + 1;
        }
    }
}

/// The pairs of shapes that a pass tests: the shape of the first body and
/// that of the second.
#[derive(Debug, Clone, Copy, PartialEq, Eq, Structural)]
pub enum Shapes {
    /// A circle against a circle.
    Circles,
    /// A circle against a box.
    CircleBox,
    /// A box against a box.
    Boxes,
}

/// The contact of body `a` with body `b`, if they have the shapes that the
/// pass tests and overlap.
pub open spec fn contact_between(shapes: Shapes, a: Body, b: Body) -> Option<Contact> {
    match (shapes, a.collider, b.collider) {
        (Shapes::Circles, Collider::Circle(circle_a), Collider::Circle(circle_b)) => {
            ball_ball_contact(a.pos.0, circle_a.radius, b.pos.0, circle_b.radius)
        },
        (Shapes::CircleBox, Collider::Circle(circle_a), Collider::Box(box_b)) => {
            ball_box_contact(a.pos.0, circle_a.radius, b.pos.0, box_b.size)
        },
        (Shapes::Boxes, Collider::Box(box_a), Collider::Box(box_b)) => {
            box_box_contact(a.pos.0, box_a.size, b.pos.0, box_b.size)
        },
        _ => None,
    }
}

/// The narrow phase for one pair of bodies.
fn narrow_phase(shapes: Shapes, a: &Body, b: &Body) -> (contact: Option<Contact>)
    ensures
        contact == contact_between(shapes, *a, *b),
{
    match shapes {
        Shapes::Circles => match a.collider {
            Collider::Circle(circle_a) => match b.collider {
                Collider::Circle(circle_b) => ball_ball(
                    a.pos.0,
                    circle_a.radius,
                    b.pos.0,
                    circle_b.radius,
                ),
                Collider::Box(_) => None,
            },
            Collider::Box(_) => None,
        },
        Shapes::CircleBox => match a.collider {
            Collider::Circle(circle_a) => match b.collider {
                Collider::Circle(_) => None,
                Collider::Box(box_b) => ball_box(a.pos.0, circle_a.radius, b.pos.0, box_b.size),
            },
            Collider::Box(_) => None,
        },
        Shapes::Boxes => match a.collider {
            Collider::Circle(_) => None,
            Collider::Box(box_a) => match b.collider {
                Collider::Circle(_) => None,
                Collider::Box(box_b) => box_box(a.pos.0, box_a.size, b.pos.0, box_b.size),
            },
        },
    }
}

/// The body at another position.
pub open spec fn moved_to(body: Body, pos: Vec2) -> Body {
    Body { pos: Pos(pos), ..body }
}

/// The bodies and the contacts after the position pass has dealt with one
/// candidate pair. A pair is passed over when either identity is stale, when
/// both are the same body, or when either body is static. When the two bodies
/// overlap, both are moved apart and the contact is recorded.
pub open spec fn solve_pair(
    shapes: Shapes,
    bodies: Seq<Body>,
    contacts: Seq<(u64, u64, Vec2)>,
    pair: (u64, u64),
) -> (Seq<Body>, Seq<(u64, u64, Vec2)>) {
    match (index_of(bodies, pair.0), index_of(bodies, pair.1)) {
        (Some(i), Some(j)) => {
            if i != j && bodies[i].mass is Some && bodies[j].mass is Some {
                match contact_between(shapes, bodies[i], bodies[j]) {
                    Some(contact) => {
                        let (pos_a, pos_b) = constrained_positions(
                            bodies[i].pos.0,
                            bodies[j].pos.0,
                            bodies[i].mass->0.value(),
                            bodies[j].mass->0.value(),
                            contact.normal,
                            contact.penetration,
                        );
                        (
                            bodies.update(i, moved_to(bodies[i], pos_a)).update(
                                j,
                                moved_to(bodies[j], pos_b),
                            ),
                            contacts.push((pair.0, pair.1, contact.normal)),
                        )
                    },
                    None => (bodies, contacts),
                }
            } else {
                (bodies, contacts)
            }
        },
        _ => (bodies, contacts),
    }
}

/// The bodies and the contacts after the position pass has dealt with the
/// first `k` candidate pairs, one after the other: each correction sees the
/// corrections before it.
pub open spec fn solve_pairs_upto(
    shapes: Shapes,
    bodies: Seq<Body>,
    contacts: Seq<(u64, u64, Vec2)>,
    pairs: Seq<(u64, u64)>,
    k: int,
) -> (Seq<Body>, Seq<(u64, u64, Vec2)>)
    decreases k,
{
    if k <= 0 {
        (bodies, contacts)
    } else {
        let (before, recorded) = solve_pairs_upto(shapes, bodies, contacts, pairs, k - 1);
        solve_pair(shapes, before, recorded, pairs[k - 1])
    }
}

/// Between `before` and `after` nothing but positions of dynamic bodies has
/// changed: every body has kept all else, and every static body its position
/// too.
pub open spec fn only_positions_moved(before: Seq<Body>, after: Seq<Body>) -> bool {
    &&& after.len() == before.len()
    &&& forall|k: int| 0 <= k < before.len() ==> after[k] == moved_to(before[k], after[k].pos.0)
    &&& forall|k: int| 0 <= k < before.len() && before[k].mass is None ==> after[k] == before[k]
}

/// The position pass over the candidate pairs, for one pair of shapes.
fn solve_pairs(
    shapes: Shapes,
    bodies: &mut Vec<Body>,
    collision_pairs: &CollisionPairs,
    contacts: &mut Contacts,
)
    ensures
        (final(bodies)@, final(contacts).0@) == solve_pairs_upto(
            shapes,
            old(bodies)@,
            old(contacts).0@,
            collision_pairs.0@,
            collision_pairs.0@.len() as int,
        ),
        only_positions_moved(old(bodies)@, final(bodies)@),
{
    let mut k: usize = 0;
    while k < collision_pairs.0.len()
        invariant
            k <= collision_pairs.0.len(),
            (bodies@, contacts.0@) == solve_pairs_upto(
                shapes,
                old(bodies)@,
                old(contacts).0@,
                collision_pairs.0@,
                k as int,
            ),
            only_positions_moved(old(bodies)@, bodies@),
        decreases collision_pairs.0.len() - k,
    {
        let pair = collision_pairs.0[k];
        let found_a = find_body(bodies, pair.0);
        let found_b = find_body(bodies, pair.1);
        if let Some(i) = found_a {
            if let Some(j) = found_b {
                if i != j {
                    let mut a = bodies[i];
                    let mut b = bodies[j];
                    if let Some(mass_a) = a.mass {
                        if let Some(mass_b) = b.mass {
                            if let Some(contact) = narrow_phase(shapes, &a, &b) {
                                constrain_body_positions(
                                    &mut a.pos,
                                    &mut b.pos,
                                    &mass_a,
                                    &mass_b,
                                    contact.normal,
                                    contact.penetration,
                                );
                                bodies.set(i, a);
                                bodies.set(j, b);
                                contacts.0.push((pair.0, pair.1, contact.normal));
                            }
                        }
                    }
                }
            }
        }
        k = k + 1;
    }
}

impl XpbdPlugin {
    /// Moves overlapping dynamic circles apart and records their contacts.
    pub fn solve_pos(
        bodies: &mut Vec<Body>,
        collision_pairs: &CollisionPairs,
        contacts: &mut Contacts,
    )
        ensures
            (final(bodies)@, final(contacts).0@) == solve_pairs_upto(
                Shapes::Circles,
                old(bodies)@,
                old(contacts).0@,
                collision_pairs.0@,
                collision_pairs.0@.len() as int,
            ),
            only_positions_moved(old(bodies)@, final(bodies)@),
    {
        solve_pairs(Shapes::Circles, bodies, collision_pairs, contacts)
    }

    /// Moves overlapping dynamic boxes apart and records their contacts.
    pub fn solve_pos_box_box(
        bodies: &mut Vec<Body>,
        contacts: &mut Contacts,
        collision_pairs: &CollisionPairs,
    )
        ensures
            (final(bodies)@, final(contacts).0@) == solve_pairs_upto(
                Shapes::Boxes,
                old(bodies)@,
                old(contacts).0@,
                collision_pairs.0@,
                collision_pairs.0@.len() as int,
            ),
            only_positions_moved(old(bodies)@, final(bodies)@),
    {
        solve_pairs(Shapes::Boxes, bodies, collision_pairs, contacts)
    }
}

/// The bodies and the static contacts after the dynamic body `i` has been
/// tested against the static body `j`. When `i` is dynamic, `j` is static and
/// they overlap, `i` alone is moved, by the whole penetration, and the
/// contact is recorded.
pub open spec fn solve_static_pair(
    shapes: Shapes,
    bodies: Seq<Body>,
    contacts: Seq<(u64, u64, Vec2)>,
    i: int,
    j: int,
) -> (Seq<Body>, Seq<(u64, u64, Vec2)>) {
    if bodies[i].mass is Some && bodies[j].mass is None {
        match contact_between(shapes, bodies[i], bodies[j]) {
            Some(contact) => (
                bodies.update(
                    i,
                    moved_to(
                        bodies[i],
                        constrained_position(bodies[i].pos.0, contact.normal, contact.penetration),
                    ),
                ),
                contacts.push((bodies[i].entity, bodies[j].entity, contact.normal)),
            ),
            None => (bodies, contacts),
        }
    } else {
        (bodies, contacts)
    }
}

/// The bodies and the static contacts after body `i` has been tested against
/// the first `j` bodies of the store, one after the other.
pub open spec fn solve_static_row(
    shapes: Shapes,
    bodies: Seq<Body>,
    contacts: Seq<(u64, u64, Vec2)>,
    i: int,
    j: int,
) -> (Seq<Body>, Seq<(u64, u64, Vec2)>)
    decreases j,
{
    if j <= 0 {
        (bodies, contacts)
    } else {
        let (before, recorded) = solve_static_row(shapes, bodies, contacts, i, j - 1);
        solve_static_pair(shapes, before, recorded, i, j - 1)
    }
}

/// The bodies and the static contacts after each of the first `i` bodies has
/// been tested against every body of the store.
pub open spec fn solve_statics_upto(
    shapes: Shapes,
    bodies: Seq<Body>,
    contacts: Seq<(u64, u64, Vec2)>,
    i: int,
) -> (Seq<Body>, Seq<(u64, u64, Vec2)>)
    decreases i,
{
    if i <= 0 {
        (bodies, contacts)
    } else {
        let (before, recorded) = solve_statics_upto(shapes, bodies, contacts, i - 1);
        solve_static_row(shapes, before, recorded, i - 1, before.len() as int)
    }
}

/// The position pass of every dynamic body against every static body, for
/// one pair of shapes.
fn solve_statics(shapes: Shapes, bodies: &mut Vec<Body>, contacts: &mut StaticContacts)
    ensures
        (final(bodies)@, final(contacts).0@) == solve_statics_upto(
            shapes,
            old(bodies)@,
            old(contacts).0@,
            old(bodies)@.len() as int,
        ),
        only_positions_moved(old(bodies)@, final(bodies)@),
{
    let n: usize = bodies.len();
    let mut i: usize = 0;
    while i < n
        invariant
            n == bodies.len(),
            i <= n,
            (bodies@, contacts.0@) == solve_statics_upto(
                shapes,
                old(bodies)@,
                old(contacts).0@,
                i as int,
            ),
            only_positions_moved(old(bodies)@, bodies@),
        decreases n - i,
    {
        let ghost row_start = (bodies@, contacts.0@);
        let mut j: usize = 0;
        while j < n
            invariant
                n == bodies.len(),
                n == row_start.0.len(),
                i < n,
                j <= n,
                row_start == solve_statics_upto(
                    shapes,
                    old(bodies)@,
                    old(contacts).0@,
                    i as int,
                ),
                (bodies@, contacts.0@) == solve_static_row(
                    shapes,
                    row_start.0,
                    row_start.1,
                    i as int,
                    j as int,
                ),
                only_positions_moved(old(bodies)@, bodies@),
            decreases n - j,
        {
            let mut a = bodies[i];
            let b = bodies[j];
            if a.mass.is_some() && b.mass.is_none() {
                if let Some(contact) = narrow_phase(shapes, &a, &b) {
                    constrain_body_position(&mut a.pos, contact.normal, contact.penetration);
                    bodies.set(i, a);
                    contacts.0.push((a.entity, b.entity, contact.normal));
                }
            }
            j = j + 1;
        }
        i = i + 1;
    }
}

impl XpbdPlugin {
    /// Moves dynamic circles out of static circles and records the contacts.
    pub fn solve_pos_statics(bodies: &mut Vec<Body>, contacts: &mut StaticContacts)
        ensures
            (final(bodies)@, final(contacts).0@) == solve_statics_upto(
                Shapes::Circles,
                old(bodies)@,
                old(contacts).0@,
                old(bodies)@.len() as int,
            ),
            only_positions_moved(old(bodies)@, final(bodies)@),
    {
        solve_statics(Shapes::Circles, bodies, contacts)
    }

    /// Moves dynamic circles out of static boxes and records the contacts.
    pub fn solve_pos_static_boxes(bodies: &mut Vec<Body>, contacts: &mut StaticContacts)
        ensures
            (final(bodies)@, final(contacts).0@) == solve_statics_upto(
                Shapes::CircleBox,
                old(bodies)@,
                old(contacts).0@,
                old(bodies)@.len() as int,
            ),
            only_positions_moved(old(bodies)@, final(bodies)@),
    {
        solve_statics(Shapes::CircleBox, bodies, contacts)
    }

    /// Moves dynamic boxes out of static boxes and records the contacts.
    pub fn solve_pos_static_box_box(bodies: &mut Vec<Body>, contacts: &mut StaticContacts)
        ensures
            (final(bodies)@, final(contacts).0@) == solve_statics_upto(
                Shapes::Boxes,
                old(bodies)@,
                old(contacts).0@,
                old(bodies)@.len() as int,
            ),
            only_positions_moved(old(bodies)@, final(bodies)@),
    {
        solve_statics(Shapes::Boxes, bodies, contacts)
    }
}

/// The restitution of a contact: the mean of the two bodies' restitutions.
pub open spec fn blended_restitution(a: Fixed, b: Fixed) -> Fixed {
    a.add(b).div_int(2)
}

/// The change of relative velocity that a contact calls for: along the
/// normal, the amount that cancels the relative normal velocity `normal_vel`
/// and adds the pre-solve relative normal velocity, reversed and scaled by
/// the restitution.
pub open spec fn velocity_correction(
    relative_vel: Vec2,
    pre_solve_relative_vel: Vec2,
    normal: Vec2,
    restitution: Fixed,
) -> Vec2 {
    let pre_solve_normal_vel = pre_solve_relative_vel.dot(normal);
    let normal_vel = relative_vel.dot(normal);
    normal.scale(normal_vel.neg().sub(restitution.mul(pre_solve_normal_vel)))
}

/// The velocities of two dynamic bodies after their contact is resolved. The
/// relative velocity changes by the correction in all; the first body takes
/// the share `mass_b / (mass_a + mass_b)` of it, rounded toward zero, and
/// the second body takes the rest.
pub open spec fn resolved_velocities(
    vel_a: Vec2,
    vel_b: Vec2,
    pre_solve_vel_a: Vec2,
    pre_solve_vel_b: Vec2,
    mass_a: int,
    mass_b: int,
    normal: Vec2,
    restitution: Fixed,
) -> (Vec2, Vec2) {
    let correction = velocity_correction(
        vel_a.sub(vel_b),
        pre_solve_vel_a.sub(pre_solve_vel_b),
        normal,
        restitution,
    );
    let share_a = Vec2 {
        x: ratio(correction.x@, mass_b, mass_a + mass_b),
        y: ratio(correction.y@, mass_b, mass_a + mass_b),
    };
    let share_b = correction.sub(share_a);
    (vel_a.add(share_a), vel_b.sub(share_b))
}

/// The velocity of a dynamic body after its contact with a static body is
/// resolved: the body takes all of the correction.
pub open spec fn resolved_velocity(
    vel: Vec2,
    pre_solve_vel: Vec2,
    normal: Vec2,
    restitution: Fixed,
) -> Vec2 {
    vel.add(velocity_correction(vel, pre_solve_vel, normal, restitution))
}

/// The body with another velocity.
pub open spec fn with_velocity(body: Body, vel: Vec2) -> Body {
    Body { vel: Vel(vel), ..body }
}

/// The bodies after the velocity pass has dealt with one contact of two
/// dynamic bodies. A contact is passed over when either identity is stale,
/// when both are the same body, or when either body is static.
pub open spec fn solve_vel_contact(bodies: Seq<Body>, contact: (u64, u64, Vec2)) -> Seq<Body> {
    match (index_of(bodies, contact.0), index_of(bodies, contact.1)) {
        (Some(i), Some(j)) => {
            if i != j && bodies[i].mass is Some && bodies[j].mass is Some {
                let (vel_a, vel_b) = resolved_velocities(
                    bodies[i].vel.0,
                    bodies[j].vel.0,
                    bodies[i].pre_solve_vel.0,
                    bodies[j].pre_solve_vel.0,
                    bodies[i].mass->0.value(),
                    bodies[j].mass->0.value(),
                    contact.2,
                    blended_restitution(bodies[i].restitution.0, bodies[j].restitution.0),
                );
                bodies.update(i, with_velocity(bodies[i], vel_a)).update(
                    j,
                    with_velocity(bodies[j], vel_b),
                )
            } else {
                bodies
            }
        },
        _ => bodies,
    }
}

/// The bodies after the velocity pass has dealt with the first `k` contacts.
pub open spec fn solve_vel_upto(bodies: Seq<Body>, contacts: Seq<(u64, u64, Vec2)>, k: int) -> Seq<
    Body,
>
    decreases k,
{
    if k <= 0 {
        bodies
    } else {
        solve_vel_contact(solve_vel_upto(bodies, contacts, k - 1), contacts[k - 1])
    }
}

/// The bodies after the velocity pass has dealt with one contact of a
/// dynamic body with a static one. A contact is passed over when either
/// identity is stale, when the first body is static or the second dynamic.
pub open spec fn solve_vel_static_contact(bodies: Seq<Body>, contact: (u64, u64, Vec2)) -> Seq<
    Body,
> {
    match (index_of(bodies, contact.0), index_of(bodies, contact.1)) {
        (Some(i), Some(j)) => {
            if bodies[i].mass is Some && bodies[j].mass is None {
                bodies.update(
                    i,
                    with_velocity(
                        bodies[i],
                        resolved_velocity(
                            bodies[i].vel.0,
                            bodies[i].pre_solve_vel.0,
                            contact.2,
                            blended_restitution(bodies[i].restitution.0, bodies[j].restitution.0),
                        ),
                    ),
                )
            } else {
                bodies
            }
        },
        _ => bodies,
    }
}

/// The bodies after the velocity pass has dealt with the first `k` static
/// contacts.
pub open spec fn solve_vel_static_upto(
    bodies: Seq<Body>,
    contacts: Seq<(u64, u64, Vec2)>,
    k: int,
) -> Seq<Body>
    decreases k,
{
    if k <= 0 {
        bodies
    } else {
        solve_vel_static_contact(solve_vel_static_upto(bodies, contacts, k - 1), contacts[k - 1])
    }
}

/// Between `before` and `after` nothing but velocities of dynamic bodies has
/// changed.
pub open spec fn only_velocities_changed(before: Seq<Body>, after: Seq<Body>) -> bool {
    &&& after.len() == before.len()
    &&& forall|k: int|
        0 <= k < before.len() ==> after[k] == with_velocity(before[k], after[k].vel.0)
    &&& forall|k: int| 0 <= k < before.len() && before[k].mass is None ==> after[k] == before[k]
}

/// The correction of the relative velocity at a contact.
fn correction_along(
    relative_vel: Vec2,
    pre_solve_relative_vel: Vec2,
    normal: Vec2,
    restitution: Fixed,
) -> (correction: Vec2)
    ensures
        correction == velocity_correction(
            relative_vel,
            pre_solve_relative_vel,
            normal,
            restitution,
        ),
{
    let pre_solve_normal_vel = pre_solve_relative_vel.dot(normal);
    let normal_vel = relative_vel.dot(normal);
    normal.scale(normal_vel.neg().sub(restitution.mul(pre_solve_normal_vel)))
}

impl XpbdPlugin {
    /// Resolves the velocities at the contacts of two dynamic bodies.
    pub fn solve_vel(bodies: &mut Vec<Body>, contacts: &Contacts)
        ensures
            final(bodies)@ == solve_vel_upto(
                old(bodies)@,
                contacts.0@,
                contacts.0@.len() as int,
            ),
            only_velocities_changed(old(bodies)@, final(bodies)@),
    {
        let mut k: usize = 0;
        while k < contacts.0.len()
            invariant
                k <= contacts.0.len(),
                bodies@ == solve_vel_upto(old(bodies)@, contacts.0@, k as int),
                only_velocities_changed(old(bodies)@, bodies@),
            decreases contacts.0.len() - k,
        {
            let contact = contacts.0[k];
            let found_a = find_body(bodies, contact.0);
            let found_b = find_body(bodies, contact.1);
            if let Some(i) = found_a {
                if let Some(j) = found_b {
                    if i != j {
                        let mut a = bodies[i];
                        let mut b = bodies[j];
                        if let Some(mass_a) = a.mass {
                            if let Some(mass_b) = b.mass {
                                let restitution = a.restitution.0.add(b.restitution.0).div_int(2);
                                let correction = correction_along(
                                    a.vel.0.sub(b.vel.0),
                                    a.pre_solve_vel.0.sub(b.pre_solve_vel.0),
                                    contact.2,
                                    restitution,
                                );
                                let share_a = share_of_first(correction, &mass_a, &mass_b);
                                let share_b = correction.sub(share_a);
                                a.vel = Vel(a.vel.0.add(share_a));
                                b.vel = Vel(b.vel.0.sub(share_b));
                                bodies.set(i, a);
                                bodies.set(j, b);
                            }
                        }
                    }
                }
            }
            k = k + 1;
        }
    }

    /// Resolves the velocities at the contacts of a dynamic body with a
    /// static one.
    pub fn solve_vel_static(bodies: &mut Vec<Body>, contacts: &StaticContacts)
        ensures
            final(bodies)@ == solve_vel_static_upto(
                old(bodies)@,
                contacts.0@,
                contacts.0@.len() as int,
            ),
            only_velocities_changed(old(bodies)@, final(bodies)@),
    {
        let mut k: usize = 0;
        while k < contacts.0.len()
            invariant
                k <= contacts.0.len(),
                bodies@ == solve_vel_static_upto(old(bodies)@, contacts.0@, k as int),
                only_velocities_changed(old(bodies)@, bodies@),
            decreases contacts.0.len() - k,
        {
            let contact = contacts.0[k];
            let found_a = find_body(bodies, contact.0);
            let found_b = find_body(bodies, contact.1);
            if let Some(i) = found_a {
                if let Some(j) = found_b {
                    let mut a = bodies[i];
                    let b = bodies[j];
                    if a.mass.is_some() && b.mass.is_none() {
                        let restitution = a.restitution.0.add(b.restitution.0).div_int(2);
                        let correction = correction_along(
                            a.vel.0,
                            a.pre_solve_vel.0,
                            contact.2,
                            restitution,
                        );
                        a.vel = Vel(a.vel.0.add(correction));
                        bodies.set(i, a);
                    }
                }
            }
            k = k + 1;
        }
    }
}

} // verus!
