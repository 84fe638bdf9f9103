//! Laws of the solver: what holds of the passes for all bodies.
//!
//! Every operation holds its result at the ends of the number range, and a
//! result that is held back obeys no law of motion. So the laws of a single
//! sum ask that the sum fits the range, and say so; the laws of restitution,
//! which go through many sums and products, ask instead that the velocities
//! are `moderate`: at most `2^58` raw counts in magnitude.

use vstd::prelude::*;
use crate::body::{
    index_of, lemma_index_from, lemma_index_from_same_entities, lemma_same_entities_stay_unique,
    lemma_unique_identity_finds_body, unique_identities, Body,
};
use crate::contact::{lemma_normals_have_unit_length, unit_length};
use crate::colliders::Collider;
use crate::consts::SUBSTEPS_PER_SECOND;
use crate::fixed::{clamp, magnitude, ratio, trunc_div, Fixed, SCALE};
use crate::plugin::{
    candidate_pairs, candidate_pairs_upto, constrained_positions, contact_between, integrated,
    moved_to, only_positions_moved, only_velocities_changed, resolved_velocities,
    resolved_velocity, row_pairs, solve_pairs_upto, solve_static_pair, solve_static_row,
    solve_statics_upto, solve_vel_static_upto, solve_vel_upto, velocity_correction,
    with_derived_velocity, Shapes,
};
use crate::vec2::{vec2_of, Vec2};
use crate::world::{
    after_broad_phase, after_position_solve, after_substep, after_velocity_solve, each_body,
    WorldView,
};

verus! {

/// The largest magnitude of a raw count that the laws speak of: `2^58`.
pub open spec fn moderate_bound() -> int {
    0x400_0000_0000_0000
}

/// The raw count is at most `2^58` in magnitude.
pub open spec fn moderate(v: int) -> bool {
    -moderate_bound() <= v <= moderate_bound()
}

/// Both raw counts of the vector are at most `2^58` in magnitude.
pub open spec fn moderate_vec(v: Vec2) -> bool {
    moderate(v.x@) && moderate(v.y@)
}

/// The quotient rounded toward zero brackets the dividend: it is off by less
/// than one divisor, on the side of zero.
pub proof fn lemma_trunc_div(a: int, d: int)
    requires
        d > 0,
    ensures
        a >= 0 ==> 0 <= trunc_div(a, d) * d <= a < (trunc_div(a, d) + 1) * d,
        a <= 0 ==> (trunc_div(a, d) - 1) * d < a <= trunc_div(a, d) * d <= 0,
        magnitude(trunc_div(a, d)) <= magnitude(a),
{
    let m = magnitude(a);
    let q = m / d;
    vstd::arithmetic::div_mod::lemma_fundamental_div_mod(m, d);
    vstd::arithmetic::div_mod::lemma_mod_pos_bound(m, d);
    assert(q >= 0 && q <= m) by (nonlinear_arith)
        requires
            m == d * q + m % d,
            0 <= m % d < d,
            m >= 0,
            d > 0,
    ;
    assert(q * d == d * q && (q + 1) * d == d * q + d) by (nonlinear_arith);
    assert((-q) * d == -(d * q) && (-q - 1) * d == -(d * q) - d) by (nonlinear_arith);
    let t = trunc_div(a, d);
    if a > 0 {
        assert(t == q);
    } else if a < 0 {
        assert(t == -q);
        assert((t - 1) * d == (-q - 1) * d);
    } else {
        assert(q == 0);
        assert(t == 0);
        assert(t * d == 0 && (t + 1) * d == d && (t - 1) * d == -d) by (nonlinear_arith)
            requires
                t == 0,
        ;
    }
}

/// A share of an amount: with positive masses, `amount * mass_b / (mass_a +
/// mass_b)` lies between zero and the amount, and is off the exact share by
/// less than one raw count.
pub proof fn lemma_share(amount: int, mass_a: int, mass_b: int)
    requires
        mass_a > 0,
        mass_b > 0,
        i64::MIN <= amount <= i64::MAX,
    ensures
        ({
            let share = ratio(amount, mass_b, mass_a + mass_b)@;
            &&& share == trunc_div(amount * mass_b, mass_a + mass_b)
            &&& amount >= 0 ==> 0 <= share <= amount
            &&& amount <= 0 ==> amount <= share <= 0
            &&& magnitude(share * (mass_a + mass_b) - amount * mass_b) < mass_a + mass_b
        }),
{
    let total = mass_a + mass_b;
    let product = amount * mass_b;
    let q = trunc_div(product, total);
    lemma_trunc_div(product, total);
    assert(q * total - product == -(product - q * total));
    if amount >= 0 {
        assert(0 <= product <= amount * total) by (nonlinear_arith)
            requires
                product == amount * mass_b,
                amount >= 0,
                0 < mass_b < total,
        ;
        assert(q <= amount) by (nonlinear_arith)
            requires
                q * total <= product,
                product <= amount * total,
                total > 0,
        ;
    } else {
        assert(amount * total <= product <= 0) by (nonlinear_arith)
            requires
                product == amount * mass_b,
                amount <= 0,
                0 < mass_b < total,
        ;
        assert(q >= amount) by (nonlinear_arith)
            requires
                q * total >= product,
                product >= amount * total,
                total > 0,
        ;
    }
    assert(clamp(q) == q);
    assert(ratio(amount, mass_b, total)@ == q);
    assert((q + 1) * total == q * total + total && (q - 1) * total == q * total - total)
        by (nonlinear_arith);
}

/// The raw count is one that a number can have.
pub open spec fn in_range(v: int) -> bool {
    i64::MIN <= v <= i64::MAX
}

/// Neither of two bodies at `at_a` and `at_b` leaves the number range when
/// `amount` is split between them by their masses, taken from the first and
/// added to the second.
pub open spec fn split_fits(at_a: Vec2, at_b: Vec2, mass_a: int, mass_b: int, amount: Vec2) -> bool {
    let share_x = ratio(amount.x@, mass_b, mass_a + mass_b)@;
    let share_y = ratio(amount.y@, mass_b, mass_a + mass_b)@;
    &&& in_range(at_a.x@ - share_x)
    &&& in_range(at_a.y@ - share_y)
    &&& in_range(at_b.x@ + (amount.x@ - share_x))
    &&& in_range(at_b.y@ + (amount.y@ - share_y))
}

/// Mass-weighted correction. When two dynamic bodies that overlap by
/// `penetration` along `normal` are moved apart, and neither is moved past
/// the ends of the number range, the first body moves against the normal and
/// the second along it; together they part by exactly `normal *
/// penetration`; the first body takes the share `mass_b / (mass_a + mass_b)`
/// of that, the second the share `mass_a / (mass_a + mass_b)`, each to within
/// one raw count. Weighted by the masses the two moves cancel, to within
/// `mass_a + mass_b` raw counts: the centre of mass stays.
pub proof fn lemma_mass_weighted_correction(
    pos_a: Vec2,
    pos_b: Vec2,
    mass_a: int,
    mass_b: int,
    normal: Vec2,
    penetration: Fixed,
)
    requires
        mass_a > 0,
        mass_b > 0,
        split_fits(pos_a, pos_b, mass_a, mass_b, normal.scale(penetration)),
    ensures
        ({
            let push = normal.scale(penetration);
            let (new_a, new_b) = constrained_positions(
                pos_a,
                pos_b,
                mass_a,
                mass_b,
                normal,
                penetration,
            );
            let total = mass_a + mass_b;
            let back_x = pos_a.x@ - new_a.x@;
            let back_y = pos_a.y@ - new_a.y@;
            let forth_x = new_b.x@ - pos_b.x@;
            let forth_y = new_b.y@ - pos_b.y@;
            &&& back_x + forth_x == push.x@
            &&& back_y + forth_y == push.y@
            &&& magnitude(back_x * total - push.x@ * mass_b) < total
            &&& magnitude(back_y * total - push.y@ * mass_b) < total
            &&& magnitude(forth_x * total - push.x@ * mass_a) < total
            &&& magnitude(forth_y * total - push.y@ * mass_a) < total
            &&& magnitude(mass_b * forth_x - mass_a * back_x) < total
            &&& magnitude(mass_b * forth_y - mass_a * back_y) < total
            &&& push.x@ >= 0 ==> back_x >= 0 && forth_x >= 0
            &&& push.x@ <= 0 ==> back_x <= 0 && forth_x <= 0
            &&& push.y@ >= 0 ==> back_y >= 0 && forth_y >= 0
            &&& push.y@ <= 0 ==> back_y <= 0 && forth_y <= 0
        }),
{
    let push = normal.scale(penetration);
    let total = mass_a + mass_b;
    lemma_share(push.x@, mass_a, mass_b);
    lemma_share(push.y@, mass_a, mass_b);
    let share_x = ratio(push.x@, mass_b, total)@;
    let share_y = ratio(push.y@, mass_b, total)@;
    assert((push.x@ - share_x) * total - push.x@ * mass_a == -(share_x * total - push.x@ * mass_b))
        by (nonlinear_arith)
        requires
            total == mass_a + mass_b,
    ;
    assert((push.y@ - share_y) * total - push.y@ * mass_a == -(share_y * total - push.y@ * mass_b))
        by (nonlinear_arith)
        requires
            total == mass_a + mass_b,
    ;
    assert(mass_b * (push.x@ - share_x) - mass_a * share_x == -(share_x * total - push.x@
        * mass_b)) by (nonlinear_arith)
        requires
            total == mass_a + mass_b,
    ;
    assert(mass_b * (push.y@ - share_y) - mass_a * share_y == -(share_y * total - push.y@
        * mass_b)) by (nonlinear_arith)
        requires
            total == mass_a + mass_b,
    ;
}

/// Static immovability, for one pair. When a dynamic body is tested against a
/// static one, no body but the dynamic one changes, and it changes in its
/// position alone: it is moved by the whole penetration against the normal
/// when the two overlap, and not at all otherwise. The contact is recorded
/// exactly when they overlap.
pub proof fn lemma_static_contact(
    shapes: Shapes,
    bodies: Seq<Body>,
    contacts: Seq<(u64, u64, Vec2)>,
    i: int,
    j: int,
)
    requires
        0 <= i < bodies.len(),
        0 <= j < bodies.len(),
        bodies[i].mass is Some,
        bodies[j].mass is None,
    ensures
        ({
            let (after, recorded) = solve_static_pair(shapes, bodies, contacts, i, j);
            &&& after.len() == bodies.len()
            &&& forall|k: int| 0 <= k < bodies.len() && k != i ==> after[k] == bodies[k]
            &&& after[j] == bodies[j]
            &&& match contact_between(shapes, bodies[i], bodies[j]) {
                Some(contact) => {
                    &&& after[i] == moved_to(
                        bodies[i],
                        bodies[i].pos.0.sub(contact.normal.scale(contact.penetration)),
                    )
                    &&& recorded == contacts.push(
                        (bodies[i].entity, bodies[j].entity, contact.normal),
                    )
                },
                None => after[i] == bodies[i] && recorded == contacts,
            }
        }),
{
}

/// The position pass over the candidate pairs changes nothing but positions
/// of dynamic bodies, and only adds to the contacts.
pub proof fn lemma_solve_pairs_frame(
    shapes: Shapes,
    bodies: Seq<Body>,
    contacts: Seq<(u64, u64, Vec2)>,
    pairs: Seq<(u64, u64)>,
    k: int,
)
    ensures
        only_positions_moved(bodies, solve_pairs_upto(shapes, bodies, contacts, pairs, k).0),
        solve_pairs_upto(shapes, bodies, contacts, pairs, k).1.len() >= contacts.len(),
    decreases k,
{
    if k > 0 {
        lemma_solve_pairs_frame(shapes, bodies, contacts, pairs, k - 1);
        let (before, recorded) = solve_pairs_upto(shapes, bodies, contacts, pairs, k - 1);
        lemma_index_from(before, pairs[k - 1].0, 0);
        lemma_index_from(before, pairs[k - 1].1, 0);
    }
}

/// Testing one body against the first `j` bodies changes nothing but
/// positions of dynamic bodies.
pub proof fn lemma_solve_static_row_frame(
    shapes: Shapes,
    bodies: Seq<Body>,
    contacts: Seq<(u64, u64, Vec2)>,
    i: int,
    j: int,
)
    requires
        0 <= i < bodies.len(),
        j <= bodies.len(),
    ensures
        only_positions_moved(bodies, solve_static_row(shapes, bodies, contacts, i, j).0),
    decreases j,
{
    if j > 0 {
        lemma_solve_static_row_frame(shapes, bodies, contacts, i, j - 1);
    }
}

/// The position pass against the static bodies changes nothing but positions
/// of dynamic bodies.
pub proof fn lemma_solve_statics_frame(
    shapes: Shapes,
    bodies: Seq<Body>,
    contacts: Seq<(u64, u64, Vec2)>,
    i: int,
)
    requires
        i <= bodies.len(),
    ensures
        only_positions_moved(bodies, solve_statics_upto(shapes, bodies, contacts, i).0),
    decreases i,
{
    if i > 0 {
        lemma_solve_statics_frame(shapes, bodies, contacts, i - 1);
        let (before, recorded) = solve_statics_upto(shapes, bodies, contacts, i - 1);
        lemma_solve_static_row_frame(shapes, before, recorded, i - 1, before.len() as int);
    }
}

/// The velocity pass over the contacts of two dynamic bodies changes nothing
/// but velocities of dynamic bodies.
pub proof fn lemma_solve_vel_frame(bodies: Seq<Body>, contacts: Seq<(u64, u64, Vec2)>, k: int)
    ensures
        only_velocities_changed(bodies, solve_vel_upto(bodies, contacts, k)),
    decreases k,
{
    if k > 0 {
        lemma_solve_vel_frame(bodies, contacts, k - 1);
        let before = solve_vel_upto(bodies, contacts, k - 1);
        lemma_index_from(before, contacts[k - 1].0, 0);
        lemma_index_from(before, contacts[k - 1].1, 0);
    }
}

/// The velocity pass over the contacts with static bodies changes nothing but
/// velocities of dynamic bodies.
pub proof fn lemma_solve_vel_static_frame(
    bodies: Seq<Body>,
    contacts: Seq<(u64, u64, Vec2)>,
    k: int,
)
    ensures
        only_velocities_changed(bodies, solve_vel_static_upto(bodies, contacts, k)),
    decreases k,
{
    if k > 0 {
        lemma_solve_vel_static_frame(bodies, contacts, k - 1);
        let before = solve_vel_static_upto(bodies, contacts, k - 1);
        lemma_index_from(before, contacts[k - 1].0, 0);
        lemma_index_from(before, contacts[k - 1].1, 0);
    }
}

/// Idempotence of integration. Without gravity, a body at rest is where it
/// was after it has been integrated and its velocity derived anew, and it is
/// still at rest.
pub proof fn lemma_rest_is_kept(body: Body)
    requires
        body.vel.0 == vec2_of(0, 0),
    ensures
        with_derived_velocity(integrated(body, vec2_of(0, 0))).pos == body.pos,
        with_derived_velocity(integrated(body, vec2_of(0, 0))).vel == body.vel,
{
    assert(0int / (SUBSTEPS_PER_SECOND as int) == 0);
}

/// The body is the same as `before` but for its bounding box and the
/// position that it has published.
pub open spec fn same_but_bookkeeping(before: Body, after: Body) -> bool {
    after == (Body { aabb: after.aabb, translation: after.translation, ..before })
}

/// Static immovability, for a whole substep. A substep keeps the number and
/// the order of the bodies, their identities, masses, shapes and
/// restitutions; and a static body keeps its position and its velocities as
/// well: nothing of it changes but its bounding box and the position that it
/// has published.
pub proof fn lemma_statics_never_move(w: WorldView)
    ensures
        after_substep(w).bodies.len() == w.bodies.len(),
        after_substep(w).xpbd_loop == w.xpbd_loop,
        after_substep(w).gravity == w.gravity,
        forall|k: int|
            0 <= k < w.bodies.len() ==> {
                &&& (#[trigger] after_substep(w).bodies[k]).entity == w.bodies[k].entity
                &&& after_substep(w).bodies[k].mass == w.bodies[k].mass
                &&& after_substep(w).bodies[k].collider == w.bodies[k].collider
                &&& after_substep(w).bodies[k].restitution == w.bodies[k].restitution
            },
        forall|k: int|
            0 <= k < w.bodies.len() && w.bodies[k].mass is None ==> same_but_bookkeeping(
                w.bodies[k],
                #[trigger] after_substep(w).bodies[k],
            ),
{
    let collected = if w.xpbd_loop.current_substep == 0 {
        after_broad_phase(w)
    } else {
        w
    };
    let moved = WorldView {
        bodies: each_body(collected.bodies, |b: Body| integrated(b, collected.gravity)),
        ..collected
    };
    lemma_position_solve_frame(moved);
    let placed = after_position_solve(moved);
    lemma_velocity_solve_frame(placed);
}

/// The position passes together change nothing but positions of dynamic
/// bodies.
pub proof fn lemma_position_solve_frame(w: WorldView)
    ensures
        only_positions_moved(w.bodies, after_position_solve(w).bodies),
        after_position_solve(w).xpbd_loop == w.xpbd_loop,
        after_position_solve(w).gravity == w.gravity,
        after_position_solve(w).collision_pairs == w.collision_pairs,
{
    let n = w.collision_pairs.len() as int;
    let (circles, circle_contacts) = solve_pairs_upto(
        Shapes::Circles,
        w.bodies,
        Seq::empty(),
        w.collision_pairs,
        n,
    );
    lemma_solve_pairs_frame(Shapes::Circles, w.bodies, Seq::empty(), w.collision_pairs, n);
    let (boxes, contacts) = solve_pairs_upto(
        Shapes::Boxes,
        circles,
        circle_contacts,
        w.collision_pairs,
        n,
    );
    lemma_solve_pairs_frame(Shapes::Boxes, circles, circle_contacts, w.collision_pairs, n);
    let (first, first_contacts) = solve_statics_upto(
        Shapes::Circles,
        boxes,
        Seq::empty(),
        boxes.len() as int,
    );
    lemma_solve_statics_frame(Shapes::Circles, boxes, Seq::empty(), boxes.len() as int);
    let (second, second_contacts) = solve_statics_upto(
        Shapes::CircleBox,
        first,
        first_contacts,
        first.len() as int,
    );
    lemma_solve_statics_frame(Shapes::CircleBox, first, first_contacts, first.len() as int);
    lemma_solve_statics_frame(Shapes::Boxes, second, second_contacts, second.len() as int);
}

/// The velocity passes together change nothing but velocities of dynamic
/// bodies.
pub proof fn lemma_velocity_solve_frame(w: WorldView)
    ensures
        only_velocities_changed(w.bodies, after_velocity_solve(w).bodies),
        after_velocity_solve(w).xpbd_loop == w.xpbd_loop,
        after_velocity_solve(w).gravity == w.gravity,
        after_velocity_solve(w).collision_pairs == w.collision_pairs,
        after_velocity_solve(w).contacts == w.contacts,
        after_velocity_solve(w).static_contacts == w.static_contacts,
{
    let derived = each_body(w.bodies, |b: Body| with_derived_velocity(b));
    let resolved = solve_vel_upto(derived, w.contacts, w.contacts.len() as int);
    lemma_solve_vel_frame(derived, w.contacts, w.contacts.len() as int);
    lemma_solve_vel_static_frame(resolved, w.static_contacts, w.static_contacts.len() as int);
}

/// A raw count is at most `2^59` in magnitude: what the difference of two
/// moderate numbers is.
pub open spec fn moderate_difference(v: int) -> bool {
    -2 * moderate_bound() <= v <= 2 * moderate_bound()
}

/// The component is that of a vector no longer than one.
pub open spec fn unit_part(u: int) -> bool {
    -SCALE <= u <= SCALE
}

/// The product of `x` with a part `u` of a unit vector, rounded toward zero,
/// is no larger than `x` in magnitude, and off the exact product by less
/// than one raw count.
pub proof fn lemma_mul_unit_part(x: int, u: int)
    requires
        unit_part(u),
    ensures
        magnitude(trunc_div(x * u, SCALE as int)) <= magnitude(x),
        magnitude(x * u - SCALE * trunc_div(x * u, SCALE as int)) < SCALE,
        u == 0 ==> trunc_div(x * u, SCALE as int) == 0,
        u == SCALE ==> trunc_div(x * u, SCALE as int) == x,
        u == -SCALE ==> trunc_div(x * u, SCALE as int) == -x,
{
    let a = x * u;
    let t = trunc_div(a, SCALE as int);
    lemma_trunc_div(a, SCALE as int);
    let mx = magnitude(x);
    assert(magnitude(a) <= mx * SCALE) by (nonlinear_arith)
        requires
            a == x * u,
            -SCALE <= u <= SCALE,
            mx == x || mx == -x,
            mx >= 0,
    ;
    assert(t * SCALE == SCALE * t && (t + 1) * SCALE == SCALE * t + SCALE && (t - 1) * SCALE
        == SCALE * t - SCALE) by (nonlinear_arith);
    if u == 0 {
        assert(a == 0) by (nonlinear_arith)
            requires
                a == x * u,
                u == 0,
        ;
    }
    if u == SCALE {
        assert(a == SCALE * x) by (nonlinear_arith)
            requires
                a == x * u,
                u == SCALE,
        ;
    }
    if u == -SCALE {
        assert(a == SCALE * (-x)) by (nonlinear_arith)
            requires
                a == x * u,
                u == -SCALE,
        ;
    }
}

/// The inner product with a vector no longer than one, for a vector whose
/// raw counts are at most `bound`: it is at most `2 * bound`, and no sum in
/// it is held back.
pub proof fn lemma_dot_unit(v: Vec2, n: Vec2, bound: int)
    requires
        unit_part(n.x@),
        unit_part(n.y@),
        0 <= bound <= 0x3000_0000_0000_0000,
        -bound <= v.x@ <= bound,
        -bound <= v.y@ <= bound,
    ensures
        v.dot(n)@ == trunc_div(v.x@ * n.x@, SCALE as int) + trunc_div(v.y@ * n.y@, SCALE as int),
        -2 * bound <= v.dot(n)@ <= 2 * bound,
{
    lemma_mul_unit_part(v.x@, n.x@);
    lemma_mul_unit_part(v.y@, n.y@);
}

/// The inner product of `(x, y)` with `(u, w)` as the solver computes it:
/// each product rounded toward zero.
pub open spec fn projection(x: int, y: int, u: int, w: int) -> int {
    trunc_div(x * u, SCALE as int) + trunc_div(y * w, SCALE as int)
}

/// Adding `amount` times a vector `(u, w)` no longer than one to `(x, y)`
/// adds `amount` to the inner product with `(u, w)`, up to six roundings and
/// up to the `excess` by which the squared length of `(u, w)` differs from
/// one.
pub proof fn lemma_projection_gains_amount(x: int, y: int, u: int, w: int, amount: int)
    requires
        unit_part(u),
        unit_part(w),
    ensures
        ({
            let c1 = trunc_div(amount * u, SCALE as int);
            let c2 = trunc_div(amount * w, SCALE as int);
            let gap = projection(x + c1, y + c2, u, w) - projection(x, y, u, w) - amount;
            let excess = u * u + w * w - SCALE * SCALE;
            (SCALE * SCALE) * magnitude(gap) < 6 * (SCALE * SCALE) + magnitude(amount * excess)
        }),
{
    let sc = SCALE as int;
    lemma_mul_unit_part(x, u);
    lemma_mul_unit_part(y, w);
    lemma_mul_unit_part(amount, u);
    lemma_mul_unit_part(amount, w);
    let t3 = trunc_div(x * u, sc);
    let t4 = trunc_div(y * w, sc);
    let c1 = trunc_div(amount * u, sc);
    let c2 = trunc_div(amount * w, sc);
    let y1 = x + c1;
    let y2 = y + c2;
    lemma_mul_unit_part(y1, u);
    lemma_mul_unit_part(y2, w);
    let t5 = trunc_div(y1 * u, sc);
    let t6 = trunc_div(y2 * w, sc);
    let r1 = amount * u - sc * c1;
    let r2 = amount * w - sc * c2;
    let r3 = x * u - sc * t3;
    let r4 = y * w - sc * t4;
    let r5 = y1 * u - sc * t5;
    let r6 = y2 * w - sc * t6;
    let gap = (t5 + t6) - (t3 + t4) - amount;
    let excess = u * u + w * w - sc * sc;
    lemma_gap_identity(x, y, u, w, amount, c1, c2, t3, t4, t5, t6);
    let r1u = r1 * u;
    let r2w = r2 * w;
    assert(-(sc - 1) * sc <= r1u <= (sc - 1) * sc) by (nonlinear_arith)
        requires
            r1u == r1 * u,
            -(sc - 1) <= r1 <= sc - 1,
            -sc <= u <= sc,
            sc > 0,
    ;
    assert(-(sc - 1) * sc <= r2w <= (sc - 1) * sc) by (nonlinear_arith)
        requires
            r2w == r2 * w,
            -(sc - 1) <= r2 <= sc - 1,
            -sc <= w <= sc,
            sc > 0,
    ;
    assert((sc - 1) * sc == 999_999_999_000_000_000 && sc * sc == 1_000_000_000_000_000_000)
        by (nonlinear_arith)
        requires
            sc == 1_000_000_000,
    ;
    let lhs = (sc * sc) * gap;
    assert(lhs == sc * (r3 + r4 - r5 - r6) + amount * excess - r1u - r2w);
    assert(magnitude(lhs) < 6 * (sc * sc) + magnitude(amount * excess));
    assert((sc * sc) * magnitude(gap) == magnitude(lhs)) by (nonlinear_arith)
        requires
            lhs == (sc * sc) * gap,
            sc * sc > 0,
    ;
}

/// The algebra behind `lemma_projection_gains_amount`: the gap, scaled by
/// `SCALE^2`, in terms of the remainders of the six roundings.
proof fn lemma_gap_identity(
    x: int,
    y: int,
    u: int,
    w: int,
    amount: int,
    c1: int,
    c2: int,
    t3: int,
    t4: int,
    t5: int,
    t6: int,
)
    ensures
        ({
            let sc = SCALE as int;
            let r1 = amount * u - sc * c1;
            let r2 = amount * w - sc * c2;
            let r3 = x * u - sc * t3;
            let r4 = y * w - sc * t4;
            let r5 = (x + c1) * u - sc * t5;
            let r6 = (y + c2) * w - sc * t6;
            let gap = (t5 + t6) - (t3 + t4) - amount;
            let excess = u * u + w * w - sc * sc;
            (sc * sc) * gap == sc * (r3 + r4 - r5 - r6) + amount * excess - r1 * u - r2 * w
        }),
{
    let sc = SCALE as int;
    let r1 = amount * u - sc * c1;
    let r2 = amount * w - sc * c2;
    let c1u = c1 * u;
    let c2w = c2 * w;
    let uua = (u * u) * amount;
    let wwa = (w * w) * amount;
    let r1u = r1 * u;
    let r2w = r2 * w;
    let excess = u * u + w * w - sc * sc;
    assert((x + c1) * u == x * u + c1u) by (nonlinear_arith)
        requires
            c1u == c1 * u,
    ;
    assert((y + c2) * w == y * w + c2w) by (nonlinear_arith)
        requires
            c2w == c2 * w,
    ;
    assert(sc * c1u == uua - r1u) by (nonlinear_arith)
        requires
            r1 == amount * u - sc * c1,
            c1u == c1 * u,
            uua == (u * u) * amount,
            r1u == r1 * u,
    ;
    assert(sc * c2w == wwa - r2w) by (nonlinear_arith)
        requires
            r2 == amount * w - sc * c2,
            c2w == c2 * w,
            wwa == (w * w) * amount,
            r2w == r2 * w,
    ;
    assert(amount * excess == uua + wwa - (sc * sc) * amount) by (nonlinear_arith)
        requires
            excess == u * u + w * w - sc * sc,
            uua == (u * u) * amount,
            wwa == (w * w) * amount,
    ;
    assert(sc * sc == 1_000_000_000_000_000_000) by (nonlinear_arith)
        requires
            sc == 1_000_000_000,
    ;
}

/// The normal is a unit vector along an axis.
pub open spec fn axis_normal(normal: Vec2) -> bool {
    ||| normal.x@ == 0 && (normal.y@ == SCALE || normal.y@ == -SCALE)
    ||| normal.y@ == 0 && (normal.x@ == SCALE || normal.x@ == -SCALE)
}

/// The relative normal velocity that a contact is resolved to: the pre-solve
/// relative normal velocity, reversed and scaled by the restitution.
pub open spec fn target_normal_velocity(
    pre_solve_relative_vel: Vec2,
    normal: Vec2,
    restitution: Fixed,
) -> int {
    -restitution.mul(pre_solve_relative_vel.dot(normal))@
}

/// What holds of the numbers in the velocity correction when the velocities
/// are moderate: nothing is held back at the ends of the range.
proof fn lemma_correction_in_range(
    relative_vel: Vec2,
    pre_solve_relative_vel: Vec2,
    normal: Vec2,
    restitution: Fixed,
)
    requires
        moderate_difference(relative_vel.x@),
        moderate_difference(relative_vel.y@),
        moderate_difference(pre_solve_relative_vel.x@),
        moderate_difference(pre_solve_relative_vel.y@),
        unit_part(normal.x@),
        unit_part(normal.y@),
        0 <= restitution@ <= SCALE,
    ensures
        ({
            let correction = velocity_correction(
                relative_vel,
                pre_solve_relative_vel,
                normal,
                restitution,
            );
            let target = target_normal_velocity(pre_solve_relative_vel, normal, restitution);
            let amount = target - relative_vel.dot(normal)@;
            let sum = relative_vel.add(correction);
            &&& relative_vel.dot(normal)@ == projection(
                relative_vel.x@,
                relative_vel.y@,
                normal.x@,
                normal.y@,
            )
            &&& magnitude(amount) <= 8 * moderate_bound()
            &&& correction.x@ == trunc_div(amount * normal.x@, SCALE as int)
            &&& correction.y@ == trunc_div(amount * normal.y@, SCALE as int)
            &&& magnitude(correction.x@) <= magnitude(amount)
            &&& magnitude(correction.y@) <= magnitude(amount)
            &&& sum.x@ == relative_vel.x@ + correction.x@
            &&& sum.y@ == relative_vel.y@ + correction.y@
            &&& sum.dot(normal)@ == projection(sum.x@, sum.y@, normal.x@, normal.y@)
            &&& restitution@ == 0 ==> target == 0
            &&& restitution@ == SCALE ==> target == -pre_solve_relative_vel.dot(normal)@
        }),
{
    let b = 2 * moderate_bound();
    lemma_dot_unit(relative_vel, normal, b);
    lemma_dot_unit(pre_solve_relative_vel, normal, b);
    let nv = relative_vel.dot(normal)@;
    let pnv = pre_solve_relative_vel.dot(normal)@;
    lemma_mul_unit_part(pnv, restitution@);
    assert(restitution@ * pnv == pnv * restitution@) by (nonlinear_arith);
    let target = target_normal_velocity(pre_solve_relative_vel, normal, restitution);
    assert(target == -trunc_div(pnv * restitution@, SCALE as int));
    let amount = target - nv;
    let scalar = relative_vel.dot(normal).neg().sub(
        restitution.mul(pre_solve_relative_vel.dot(normal)),
    );
    assert(scalar@ == amount);
    lemma_mul_unit_part(amount, normal.x@);
    lemma_mul_unit_part(amount, normal.y@);
    assert(normal.x@ * amount == amount * normal.x@ && normal.y@ * amount == amount * normal.y@)
        by (nonlinear_arith);
    let correction = velocity_correction(
        relative_vel,
        pre_solve_relative_vel,
        normal,
        restitution,
    );
    assert(correction == normal.scale(scalar));
    assert(correction.x@ == trunc_div(amount * normal.x@, SCALE as int));
    assert(correction.y@ == trunc_div(amount * normal.y@, SCALE as int));
    let sum = relative_vel.add(correction);
    lemma_dot_unit(sum, normal, 5 * b);
}

/// Restitution, at the heart of both velocity passes. Once the correction is
/// added to the relative velocity, the relative normal velocity is the
/// target, up to rounding and up to the `excess` by which the squared length
/// of the normal differs from one: with `amount` what was to be added to the
/// normal velocity, `SCALE^2 |after - target| < 6 SCALE^2 + |amount excess|`.
///
/// With a restitution of zero the target is zero: the contact is perfectly
/// inelastic. With a restitution of one the target is the pre-solve relative
/// normal velocity with its sign reversed: the contact is perfectly elastic.
pub proof fn lemma_correction_reaches_target(
    relative_vel: Vec2,
    pre_solve_relative_vel: Vec2,
    normal: Vec2,
    restitution: Fixed,
)
    requires
        moderate_difference(relative_vel.x@),
        moderate_difference(relative_vel.y@),
        moderate_difference(pre_solve_relative_vel.x@),
        moderate_difference(pre_solve_relative_vel.y@),
        unit_part(normal.x@),
        unit_part(normal.y@),
        0 <= restitution@ <= SCALE,
    ensures
        ({
            let correction = velocity_correction(
                relative_vel,
                pre_solve_relative_vel,
                normal,
                restitution,
            );
            let after = relative_vel.add(correction).dot(normal)@;
            let target = target_normal_velocity(pre_solve_relative_vel, normal, restitution);
            let amount = target - relative_vel.dot(normal)@;
            let excess = normal.x@ * normal.x@ + normal.y@ * normal.y@ - SCALE * SCALE;
            &&& (SCALE * SCALE) * magnitude(after - target) < 6 * (SCALE * SCALE) + magnitude(
                amount * excess,
            )
            &&& unit_length(normal) ==> (SCALE * SCALE) * magnitude(after - target) < 6 * (SCALE
                * SCALE) + magnitude(amount) * (4 * SCALE + 2)
            &&& axis_normal(normal) ==> after == target
            &&& restitution@ == 0 ==> target == 0
            &&& restitution@ == SCALE ==> target == -pre_solve_relative_vel.dot(normal)@
        }),
{
    lemma_correction_in_range(relative_vel, pre_solve_relative_vel, normal, restitution);
    let target = target_normal_velocity(pre_solve_relative_vel, normal, restitution);
    let amount = target - relative_vel.dot(normal)@;
    lemma_projection_gains_amount(
        relative_vel.x@,
        relative_vel.y@,
        normal.x@,
        normal.y@,
        amount,
    );
    let excess = normal.x@ * normal.x@ + normal.y@ * normal.y@ - SCALE * SCALE;
    if unit_length(normal) {
        assert(magnitude(amount * excess) <= magnitude(amount) * (4 * SCALE + 2))
            by (nonlinear_arith)
            requires
                -(4 * SCALE + 2) <= excess <= 0,
        ;
    }
    if axis_normal(normal) {
        let correction = velocity_correction(
            relative_vel,
            pre_solve_relative_vel,
            normal,
            restitution,
        );
        lemma_mul_unit_part(relative_vel.x@, normal.x@);
        lemma_mul_unit_part(relative_vel.y@, normal.y@);
        lemma_mul_unit_part(amount, normal.x@);
        lemma_mul_unit_part(amount, normal.y@);
        lemma_mul_unit_part(relative_vel.x@ + correction.x@, normal.x@);
        lemma_mul_unit_part(relative_vel.y@ + correction.y@, normal.y@);
    }
}

/// Restitution bounds, for two dynamic bodies. After their contact is
/// resolved, the relative velocity of the two bodies has changed by the
/// whole correction, whatever their masses, so their relative normal
/// velocity is the target up to rounding: zero for a restitution of zero,
/// the reverse of the pre-solve relative normal velocity for a restitution
/// of one. Along an axis it is the target exactly.
pub proof fn lemma_restitution_bounds(
    vel_a: Vec2,
    vel_b: Vec2,
    pre_solve_vel_a: Vec2,
    pre_solve_vel_b: Vec2,
    mass_a: int,
    mass_b: int,
    normal: Vec2,
    restitution: Fixed,
)
    requires
        mass_a > 0,
        mass_b > 0,
        moderate_vec(vel_a),
        moderate_vec(vel_b),
        moderate_vec(pre_solve_vel_a),
        moderate_vec(pre_solve_vel_b),
        unit_part(normal.x@),
        unit_part(normal.y@),
        0 <= restitution@ <= SCALE,
    ensures
        ({
            let (new_a, new_b) = resolved_velocities(
                vel_a,
                vel_b,
                pre_solve_vel_a,
                pre_solve_vel_b,
                mass_a,
                mass_b,
                normal,
                restitution,
            );
            let after = new_a.sub(new_b).dot(normal)@;
            let target = target_normal_velocity(
                pre_solve_vel_a.sub(pre_solve_vel_b),
                normal,
                restitution,
            );
            let amount = target - vel_a.sub(vel_b).dot(normal)@;
            let excess = normal.x@ * normal.x@ + normal.y@ * normal.y@ - SCALE * SCALE;
            &&& (SCALE * SCALE) * magnitude(after - target) < 6 * (SCALE * SCALE) + magnitude(
                amount * excess,
            )
            &&& unit_length(normal) ==> (SCALE * SCALE) * magnitude(after - target) < 6 * (SCALE
                * SCALE) + magnitude(amount) * (4 * SCALE + 2)
            &&& axis_normal(normal) ==> after == target
            &&& restitution@ == 0 ==> target == 0
            &&& restitution@ == SCALE ==> target == -pre_solve_vel_a.sub(pre_solve_vel_b).dot(
                normal,
            )@
        }),
{
    let relative_vel = vel_a.sub(vel_b);
    let pre_solve_relative_vel = pre_solve_vel_a.sub(pre_solve_vel_b);
    lemma_correction_in_range(relative_vel, pre_solve_relative_vel, normal, restitution);
    lemma_correction_reaches_target(relative_vel, pre_solve_relative_vel, normal, restitution);
    let correction = velocity_correction(
        relative_vel,
        pre_solve_relative_vel,
        normal,
        restitution,
    );
    lemma_share(correction.x@, mass_a, mass_b);
    lemma_share(correction.y@, mass_a, mass_b);
    let (new_a, new_b) = resolved_velocities(
        vel_a,
        vel_b,
        pre_solve_vel_a,
        pre_solve_vel_b,
        mass_a,
        mass_b,
        normal,
        restitution,
    );
    assert(new_a.sub(new_b) == relative_vel.add(correction));
}

/// Restitution bounds, for a dynamic body against a static one. After the
/// contact is resolved, the normal velocity of the dynamic body is the
/// target up to rounding: zero for a restitution of zero, the reverse of its
/// pre-solve normal velocity for a restitution of one. Along an axis it is
/// the target exactly.
pub proof fn lemma_restitution_bounds_static(
    vel: Vec2,
    pre_solve_vel: Vec2,
    normal: Vec2,
    restitution: Fixed,
)
    requires
        moderate_vec(vel),
        moderate_vec(pre_solve_vel),
        unit_part(normal.x@),
        unit_part(normal.y@),
        0 <= restitution@ <= SCALE,
    ensures
        ({
            let after = resolved_velocity(vel, pre_solve_vel, normal, restitution).dot(normal)@;
            let target = target_normal_velocity(pre_solve_vel, normal, restitution);
            let amount = target - vel.dot(normal)@;
            let excess = normal.x@ * normal.x@ + normal.y@ * normal.y@ - SCALE * SCALE;
            &&& (SCALE * SCALE) * magnitude(after - target) < 6 * (SCALE * SCALE) + magnitude(
                amount * excess,
            )
            &&& unit_length(normal) ==> (SCALE * SCALE) * magnitude(after - target) < 6 * (SCALE
                * SCALE) + magnitude(amount) * (4 * SCALE + 2)
            &&& axis_normal(normal) ==> after == target
            &&& restitution@ == 0 ==> target == 0
            &&& restitution@ == SCALE ==> target == -pre_solve_vel.dot(normal)@
        }),
{
    lemma_correction_reaches_target(vel, pre_solve_vel, normal, restitution);
}

/// `pair` names the bodies `i` and `k` of the store, `i` before `k`, and
/// their bounding boxes intersect.
pub open spec fn is_candidate(bodies: Seq<Body>, i: int, k: int, pair: (u64, u64)) -> bool {
    &&& 0 <= i < k < bodies.len()
    &&& bodies[i].aabb.intersects(&bodies[k].aabb)
    &&& pair == (bodies[i].entity, bodies[k].entity)
}

/// The candidate pairs of body `i` hold every body after it whose bounding
/// box intersects its own.
pub proof fn lemma_row_pairs_complete(bodies: Seq<Body>, i: int, j: int, k: int)
    requires
        0 <= i < k < j <= bodies.len(),
        bodies[i].aabb.intersects(&bodies[k].aabb),
    ensures
        row_pairs(bodies, i, j).contains((bodies[i].entity, bodies[k].entity)),
    decreases j,
{
    let before = row_pairs(bodies, i, j - 1);
    let row = row_pairs(bodies, i, j);
    if k == j - 1 {
        assert(row == before.push((bodies[i].entity, bodies[k].entity)));
        assert(row[row.len() - 1] == (bodies[i].entity, bodies[k].entity));
    } else {
        lemma_row_pairs_complete(bodies, i, j - 1, k);
        let at = choose|at: int|
            0 <= at < before.len() && before[at] == (bodies[i].entity, bodies[k].entity);
        assert(row[at] == (bodies[i].entity, bodies[k].entity));
    }
}

/// The candidate pairs of body `i` hold nothing else, and at most one pair
/// for each body after it.
pub proof fn lemma_row_pairs_sound(bodies: Seq<Body>, i: int, j: int, at: int)
    requires
        0 <= i,
        j <= bodies.len(),
        0 <= at < row_pairs(bodies, i, j).len(),
    ensures
        exists|k: int|
            i < k < j && #[trigger] is_candidate(bodies, i, k, row_pairs(bodies, i, j)[at]),
        row_pairs(bodies, i, j).len() <= j - i - 1,
    decreases j - i,
{
    if j > i + 1 {
        let before = row_pairs(bodies, i, j - 1);
        lemma_row_pairs_length(bodies, i, j - 1);
        if at < before.len() {
            lemma_row_pairs_sound(bodies, i, j - 1, at);
            let pair = before[at];
            let k = choose|k: int| i < k < j - 1 && #[trigger] is_candidate(bodies, i, k, pair);
            assert(is_candidate(bodies, i, k, row_pairs(bodies, i, j)[at]));
        } else {
            assert(is_candidate(bodies, i, j - 1, row_pairs(bodies, i, j)[at]));
        }
    }
}

/// Body `i` has at most one candidate pair for each body after it.
pub proof fn lemma_row_pairs_length(bodies: Seq<Body>, i: int, j: int)
    ensures
        row_pairs(bodies, i, j).len() <= if j > i + 1 {
            j - i - 1
        } else {
            0
        },
    decreases j - i,
{
    if j > i + 1 {
        lemma_row_pairs_length(bodies, i, j - 1);
    }
}

/// The broad phase is complete: every two different bodies whose bounding
/// boxes intersect are a candidate pair, the earlier body of the store first.
pub proof fn lemma_candidate_pairs_complete(bodies: Seq<Body>, i: int, k: int)
    requires
        0 <= i < k < bodies.len(),
        bodies[i].aabb.intersects(&bodies[k].aabb),
    ensures
        candidate_pairs(bodies).contains((bodies[i].entity, bodies[k].entity)),
{
    lemma_candidate_pairs_upto_complete(bodies, bodies.len() as int, i, k);
}

proof fn lemma_candidate_pairs_upto_complete(bodies: Seq<Body>, upto: int, i: int, k: int)
    requires
        0 <= i < k < bodies.len(),
        i < upto <= bodies.len(),
        bodies[i].aabb.intersects(&bodies[k].aabb),
    ensures
        candidate_pairs_upto(bodies, upto).contains((bodies[i].entity, bodies[k].entity)),
    decreases upto,
{
    let pair = (bodies[i].entity, bodies[k].entity);
    let before = candidate_pairs_upto(bodies, upto - 1);
    let row = row_pairs(bodies, upto - 1, bodies.len() as int);
    let all = candidate_pairs_upto(bodies, upto);
    assert(all == before + row);
    if i == upto - 1 {
        lemma_row_pairs_complete(bodies, i, bodies.len() as int, k);
        let at = choose|at: int| 0 <= at < row.len() && row[at] == pair;
        assert(all[before.len() + at] == pair);
    } else {
        lemma_candidate_pairs_upto_complete(bodies, upto - 1, i, k);
        let at = choose|at: int| 0 <= at < before.len() && before[at] == pair;
        assert(all[at] == pair);
    }
}

/// The broad phase is sound: every candidate pair names two different
/// bodies of the store whose bounding boxes intersect, the earlier first.
pub proof fn lemma_candidate_pairs_sound(bodies: Seq<Body>, at: int)
    requires
        0 <= at < candidate_pairs(bodies).len(),
    ensures
        exists|i: int, k: int| is_candidate(bodies, i, k, candidate_pairs(bodies)[at]),
{
    lemma_candidate_pairs_upto_sound(bodies, bodies.len() as int, at);
}

proof fn lemma_candidate_pairs_upto_sound(bodies: Seq<Body>, upto: int, at: int)
    requires
        upto <= bodies.len(),
        0 <= at < candidate_pairs_upto(bodies, upto).len(),
    ensures
        exists|i: int, k: int| is_candidate(bodies, i, k, candidate_pairs_upto(bodies, upto)[at]),
    decreases upto,
{
    if upto > 0 {
        let before = candidate_pairs_upto(bodies, upto - 1);
        let row = row_pairs(bodies, upto - 1, bodies.len() as int);
        let all = candidate_pairs_upto(bodies, upto);
        assert(all == before + row);
        if at < before.len() {
            lemma_candidate_pairs_upto_sound(bodies, upto - 1, at);
            let (i, k) = choose|i: int, k: int| is_candidate(bodies, i, k, before[at]);
            assert(is_candidate(bodies, i, k, all[at]));
        } else {
            let i = upto - 1;
            let pair = row[at - before.len()];
            lemma_row_pairs_sound(bodies, i, bodies.len() as int, at - before.len());
            let k = choose|k: int|
                i < k < bodies.len() && #[trigger] is_candidate(bodies, i, k, pair);
            assert(is_candidate(bodies, i, k, all[at]));
        }
    }
}

/// The broad phase names no pair twice over: `n` bodies have at most
/// `n (n - 1) / 2` candidate pairs.
pub proof fn lemma_candidate_pairs_length(bodies: Seq<Body>)
    ensures
        2 * candidate_pairs(bodies).len() <= bodies.len() * (bodies.len() - 1),
{
    lemma_candidate_pairs_upto_length(bodies, bodies.len() as int);
    let n = bodies.len() as int;
    assert(n * (n - 1) == n * (2 * n - n - 1)) by (nonlinear_arith);
}

proof fn lemma_candidate_pairs_upto_length(bodies: Seq<Body>, upto: int)
    requires
        0 <= upto <= bodies.len(),
    ensures
        2 * candidate_pairs_upto(bodies, upto).len() <= upto * (2 * bodies.len() - upto - 1),
    decreases upto,
{
    let n = bodies.len() as int;
    if upto > 0 {
        lemma_candidate_pairs_upto_length(bodies, upto - 1);
        lemma_row_pairs_length(bodies, upto - 1, n);
        assert((upto - 1) * (2 * n - (upto - 1) - 1) + 2 * (n - upto) == upto * (2 * n - upto - 1))
            by (nonlinear_arith);
    } else {
        assert(upto * (2 * n - upto - 1) == 0) by (nonlinear_arith)
            requires
                upto == 0,
        ;
    }
}

/// A position pass over the candidate pairs that records no contact moves
/// no body.
pub proof fn lemma_solve_pairs_without_contact(
    shapes: Shapes,
    bodies: Seq<Body>,
    contacts: Seq<(u64, u64, Vec2)>,
    pairs: Seq<(u64, u64)>,
    k: int,
)
    requires
        solve_pairs_upto(shapes, bodies, contacts, pairs, k).1.len() <= contacts.len(),
    ensures
        solve_pairs_upto(shapes, bodies, contacts, pairs, k) == (bodies, contacts),
    decreases k,
{
    if k > 0 {
        lemma_solve_pairs_frame(shapes, bodies, contacts, pairs, k - 1);
        lemma_solve_pairs_without_contact(shapes, bodies, contacts, pairs, k - 1);
    }
}

/// Testing a body against the static bodies only adds to the contacts.
pub proof fn lemma_solve_static_row_records(
    shapes: Shapes,
    bodies: Seq<Body>,
    contacts: Seq<(u64, u64, Vec2)>,
    i: int,
    j: int,
)
    ensures
        solve_static_row(shapes, bodies, contacts, i, j).1.len() >= contacts.len(),
        solve_static_row(shapes, bodies, contacts, i, j).1.len() == contacts.len()
            ==> solve_static_row(shapes, bodies, contacts, i, j) == (bodies, contacts),
    decreases j,
{
    if j > 0 {
        lemma_solve_static_row_records(shapes, bodies, contacts, i, j - 1);
    }
}

/// A position pass against the static bodies only adds to the contacts, and
/// one that records no contact moves no body.
pub proof fn lemma_solve_statics_records(
    shapes: Shapes,
    bodies: Seq<Body>,
    contacts: Seq<(u64, u64, Vec2)>,
    i: int,
)
    ensures
        solve_statics_upto(shapes, bodies, contacts, i).1.len() >= contacts.len(),
        solve_statics_upto(shapes, bodies, contacts, i).1.len() == contacts.len()
            ==> solve_statics_upto(shapes, bodies, contacts, i) == (bodies, contacts),
    decreases i,
{
    if i > 0 {
        lemma_solve_statics_records(shapes, bodies, contacts, i - 1);
        let (before, recorded) = solve_statics_upto(shapes, bodies, contacts, i - 1);
        lemma_solve_static_row_records(shapes, before, recorded, i - 1, before.len() as int);
    }
}

/// Position passes that record no contact move no body.
pub proof fn lemma_position_solve_without_contact(w: WorldView)
    requires
        after_position_solve(w).contacts.len() == 0,
        after_position_solve(w).static_contacts.len() == 0,
    ensures
        after_position_solve(w).bodies == w.bodies,
{
    let n = w.collision_pairs.len() as int;
    let none = Seq::<(u64, u64, Vec2)>::empty();
    let (circles, circle_contacts) = solve_pairs_upto(
        Shapes::Circles,
        w.bodies,
        none,
        w.collision_pairs,
        n,
    );
    lemma_solve_pairs_frame(Shapes::Boxes, circles, circle_contacts, w.collision_pairs, n);
    lemma_solve_pairs_without_contact(Shapes::Circles, w.bodies, none, w.collision_pairs, n);
    lemma_solve_pairs_without_contact(
        Shapes::Boxes,
        circles,
        circle_contacts,
        w.collision_pairs,
        n,
    );
    let boxes = circles;
    let (first, first_contacts) = solve_statics_upto(
        Shapes::Circles,
        boxes,
        none,
        boxes.len() as int,
    );
    let (second, second_contacts) = solve_statics_upto(
        Shapes::CircleBox,
        first,
        first_contacts,
        first.len() as int,
    );
    lemma_solve_statics_records(Shapes::Circles, boxes, none, boxes.len() as int);
    lemma_solve_statics_records(Shapes::CircleBox, first, first_contacts, first.len() as int);
    lemma_solve_statics_records(Shapes::Boxes, second, second_contacts, second.len() as int);
}

/// Idempotence of integration, for a whole substep. Without gravity, a
/// substep in which no contact is found leaves every body that is at rest
/// where it is, and at rest.
pub proof fn lemma_substep_at_rest(w: WorldView, k: int)
    requires
        w.gravity == vec2_of(0, 0),
        0 <= k < w.bodies.len(),
        w.bodies[k].vel.0 == vec2_of(0, 0),
        after_substep(w).contacts.len() == 0,
        after_substep(w).static_contacts.len() == 0,
    ensures
        after_substep(w).bodies.len() == w.bodies.len(),
        after_substep(w).bodies[k].pos == w.bodies[k].pos,
        after_substep(w).bodies[k].vel == w.bodies[k].vel,
{
    let collected = if w.xpbd_loop.current_substep == 0 {
        after_broad_phase(w)
    } else {
        w
    };
    let moved = WorldView {
        bodies: each_body(collected.bodies, |b: Body| integrated(b, collected.gravity)),
        ..collected
    };
    let placed = after_position_solve(moved);
    lemma_velocity_solve_frame(placed);
    lemma_position_solve_without_contact(moved);
    lemma_rest_is_kept(collected.bodies[k]);
    assert(placed.contacts =~= Seq::<(u64, u64, Vec2)>::empty());
    assert(placed.static_contacts =~= Seq::<(u64, u64, Vec2)>::empty());
}

/// Identities are stable: a substep leaves every body where it is in the
/// store, so an identity names the same body before and after, and a stale
/// identity stays stale.
pub proof fn lemma_identities_are_stable(w: WorldView, entity: u64)
    ensures
        index_of(after_substep(w).bodies, entity) == index_of(w.bodies, entity),
{
    lemma_statics_never_move(w);
    lemma_index_from_same_entities(after_substep(w).bodies, w.bodies, entity, 0);
}

/// A substep keeps the identities unique.
pub proof fn lemma_substep_keeps_identities(w: WorldView)
    ensures
        unique_identities(w.bodies) ==> unique_identities(after_substep(w).bodies),
{
    lemma_statics_never_move(w);
    if unique_identities(w.bodies) {
        lemma_same_entities_stay_unique(w.bodies, after_substep(w).bodies);
    }
}

/// Each pass keeps the identities unique: a pass that changes nothing but
/// positions, or nothing but velocities, leaves every identity where it is.
pub proof fn lemma_passes_keep_identities(before: Seq<Body>, after: Seq<Body>)
    requires
        unique_identities(before),
        only_positions_moved(before, after) || only_velocities_changed(before, after),
    ensures
        unique_identities(after),
{
    lemma_same_entities_stay_unique(before, after);
}

/// In a store of unique identities every candidate pair of the broad phase
/// names the two bodies that it was made from: two different bodies whose
/// bounding boxes intersect, each found by its identity.
pub proof fn lemma_candidate_pair_resolves(bodies: Seq<Body>, at: int)
    requires
        unique_identities(bodies),
        0 <= at < candidate_pairs(bodies).len(),
    ensures
        exists|i: int, k: int|
            {
                &&& #[trigger] is_candidate(bodies, i, k, candidate_pairs(bodies)[at])
                &&& index_of(bodies, candidate_pairs(bodies)[at].0) == Some(i)
                &&& index_of(bodies, candidate_pairs(bodies)[at].1) == Some(k)
            },
{
    lemma_candidate_pairs_sound(bodies, at);
    let pair = candidate_pairs(bodies)[at];
    let (i, k) = choose|i: int, k: int| is_candidate(bodies, i, k, pair);
    lemma_unique_identity_finds_body(bodies, i);
    lemma_unique_identity_finds_body(bodies, k);
}

/// Every contact that the narrow phase finds between two bodies has a normal
/// of length one.
pub proof fn lemma_contact_normal_is_unit(shapes: Shapes, a: Body, b: Body)
    ensures
        contact_between(shapes, a, b) matches Some(c) ==> unit_length(c.normal),
{
    let radius_a = match a.collider {
        Collider::Circle(circle) => circle.radius,
        Collider::Box(_) => Fixed { raw: 0 },
    };
    let radius_b = match b.collider {
        Collider::Circle(circle) => circle.radius,
        Collider::Box(_) => Fixed { raw: 0 },
    };
    let size_a = match a.collider {
        Collider::Circle(_) => vec2_of(0, 0),
        Collider::Box(box_) => box_.size,
    };
    let size_b = match b.collider {
        Collider::Circle(_) => vec2_of(0, 0),
        Collider::Box(box_) => box_.size,
    };
    lemma_normals_have_unit_length(a.pos.0, radius_a, size_a, b.pos.0, radius_b, size_b);
}

/// Neither of two velocities leaves the number range when `correction` is
/// split between them by the masses, added to the first and taken from the
/// second.
pub open spec fn exchange_fits(
    vel_a: Vec2,
    vel_b: Vec2,
    mass_a: int,
    mass_b: int,
    correction: Vec2,
) -> bool {
    let share_x = ratio(correction.x@, mass_b, mass_a + mass_b)@;
    let share_y = ratio(correction.y@, mass_b, mass_a + mass_b)@;
    &&& in_range(vel_a.x@ + share_x)
    &&& in_range(vel_a.y@ + share_y)
    &&& in_range(vel_b.x@ - (correction.x@ - share_x))
    &&& in_range(vel_b.y@ - (correction.y@ - share_y))
}

/// Momentum is kept. When the velocities of two dynamic bodies are resolved
/// at a contact, and neither velocity is held back at the ends of the number
/// range, the changes of the two velocities have opposite directions, and
/// weighted by the masses they cancel to within `mass_a + mass_b` raw counts:
/// the velocity of the heavier body changes less, in inverse proportion to
/// the masses.
pub proof fn lemma_momentum_is_kept(
    vel_a: Vec2,
    vel_b: Vec2,
    pre_solve_vel_a: Vec2,
    pre_solve_vel_b: Vec2,
    mass_a: int,
    mass_b: int,
    normal: Vec2,
    restitution: Fixed,
)
    requires
        mass_a > 0,
        mass_b > 0,
        exchange_fits(
            vel_a,
            vel_b,
            mass_a,
            mass_b,
            velocity_correction(
                vel_a.sub(vel_b),
                pre_solve_vel_a.sub(pre_solve_vel_b),
                normal,
                restitution,
            ),
        ),
    ensures
        ({
            let (new_a, new_b) = resolved_velocities(
                vel_a,
                vel_b,
                pre_solve_vel_a,
                pre_solve_vel_b,
                mass_a,
                mass_b,
                normal,
                restitution,
            );
            let change_ax = new_a.x@ - vel_a.x@;
            let change_ay = new_a.y@ - vel_a.y@;
            let change_bx = new_b.x@ - vel_b.x@;
            let change_by = new_b.y@ - vel_b.y@;
            &&& magnitude(mass_a * change_ax + mass_b * change_bx) < mass_a + mass_b
            &&& magnitude(mass_a * change_ay + mass_b * change_by) < mass_a + mass_b
            &&& change_ax > 0 ==> change_bx <= 0
            &&& change_ax < 0 ==> change_bx >= 0
            &&& change_bx > 0 ==> change_ax <= 0
            &&& change_bx < 0 ==> change_ax >= 0
            &&& change_ay > 0 ==> change_by <= 0
            &&& change_ay < 0 ==> change_by >= 0
            &&& change_by > 0 ==> change_ay <= 0
            &&& change_by < 0 ==> change_ay >= 0
        }),
{
    let correction = velocity_correction(
        vel_a.sub(vel_b),
        pre_solve_vel_a.sub(pre_solve_vel_b),
        normal,
        restitution,
    );
    let total = mass_a + mass_b;
    lemma_share(correction.x@, mass_a, mass_b);
    lemma_share(correction.y@, mass_a, mass_b);
    let share_x = ratio(correction.x@, mass_b, total)@;
    let share_y = ratio(correction.y@, mass_b, total)@;
    assert(mass_a * share_x + mass_b * (-(correction.x@ - share_x)) == share_x * total
        - correction.x@ * mass_b) by (nonlinear_arith)
        requires
            total == mass_a + mass_b,
    ;
    assert(mass_a * share_y + mass_b * (-(correction.y@ - share_y)) == share_y * total
        - correction.y@ * mass_b) by (nonlinear_arith)
        requires
            total == mass_a + mass_b,
    ;
}

/// The separation gained. When two dynamic bodies that overlap by a
/// `penetration` of zero or more along `normal` are moved apart, and neither is moved past
/// the ends of the number range, the vector from the first to the second
/// grows by exactly `normal * penetration`, so nothing changes across the
/// normal; and along the normal the two are `penetration` further apart, up
/// to six roundings and up to the `excess` by which the squared length of
/// the normal differs from one.
pub proof fn lemma_separation_gained(
    pos_a: Vec2,
    pos_b: Vec2,
    mass_a: int,
    mass_b: int,
    normal: Vec2,
    penetration: Fixed,
)
    requires
        mass_a > 0,
        mass_b > 0,
        penetration@ >= 0,
        unit_part(normal.x@),
        unit_part(normal.y@),
        split_fits(pos_a, pos_b, mass_a, mass_b, normal.scale(penetration)),
    ensures
        ({
            let push = normal.scale(penetration);
            let (new_a, new_b) = constrained_positions(
                pos_a,
                pos_b,
                mass_a,
                mass_b,
                normal,
                penetration,
            );
            let gap_x = pos_b.x@ - pos_a.x@;
            let gap_y = pos_b.y@ - pos_a.y@;
            let new_gap_x = new_b.x@ - new_a.x@;
            let new_gap_y = new_b.y@ - new_a.y@;
            let gained = projection(new_gap_x, new_gap_y, normal.x@, normal.y@) - projection(
                gap_x,
                gap_y,
                normal.x@,
                normal.y@,
            );
            let excess = normal.x@ * normal.x@ + normal.y@ * normal.y@ - SCALE * SCALE;
            &&& new_gap_x == gap_x + push.x@
            &&& new_gap_y == gap_y + push.y@
            &&& push.x@ == trunc_div(penetration@ * normal.x@, SCALE as int)
            &&& push.y@ == trunc_div(penetration@ * normal.y@, SCALE as int)
            &&& (SCALE * SCALE) * magnitude(gained - penetration@) < 6 * (SCALE * SCALE)
                + magnitude(penetration@ * excess)
            &&& unit_length(normal) ==> (SCALE * SCALE) * magnitude(gained - penetration@) < 6 * (
            SCALE * SCALE) + magnitude(penetration@) * (4 * SCALE + 2)
        }),
{
    let push = normal.scale(penetration);
    assert(push.x@ == trunc_div(penetration@ * normal.x@, SCALE as int) && push.y@ == trunc_div(
        penetration@ * normal.y@,
        SCALE as int,
    )) by {
        lemma_mul_unit_part(penetration@, normal.x@);
        lemma_mul_unit_part(penetration@, normal.y@);
        assert(normal.x@ * penetration@ == penetration@ * normal.x@ && normal.y@ * penetration@
            == penetration@ * normal.y@) by (nonlinear_arith);
        assert(push.x == normal.x.mul(penetration));
        assert(push.y == normal.y.mul(penetration));
    }
    lemma_mass_weighted_correction(pos_a, pos_b, mass_a, mass_b, normal, penetration);
    lemma_projection_gains_amount(
        pos_b.x@ - pos_a.x@,
        pos_b.y@ - pos_a.y@,
        normal.x@,
        normal.y@,
        penetration@,
    );
    let excess = normal.x@ * normal.x@ + normal.y@ * normal.y@ - SCALE * SCALE;
    if unit_length(normal) {
        assert(magnitude(penetration@ * excess) <= magnitude(penetration@) * (4 * SCALE + 2))
            by (nonlinear_arith)
            requires
                -(4 * SCALE + 2) <= excess <= 0,
        ;
    }
}

} // verus!
