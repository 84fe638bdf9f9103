use xpbd::body::{find_body, Body};
use xpbd::colliders::{BoxCollider, CircleCollider};
use xpbd::components::{
    DynamicBoxBundle, Mass, ParticleBundle, Pos, Restitution, StaticBoxBundle, StaticCircleBundle,
};
use xpbd::fixed::{Fixed, SCALE};
use xpbd::plugin::{constrain_body_position, constrain_body_positions, XpbdPlugin};
use xpbd::resources::{CollisionPairs, Contacts, Gravity, StaticContacts};
use xpbd::vec2::Vec2;

fn fx(value: f64) -> Fixed {
    Fixed::from_raw((value * SCALE as f64).round() as i64)
}

fn v(x: f64, y: f64) -> Vec2 {
    Vec2::new(fx(x), fx(y))
}

fn mass(value: f64) -> Mass {
    Mass::new(fx(value)).unwrap()
}

fn particle(entity: u64, pos: Vec2, vel: Vec2, radius: f64, m: f64) -> Body {
    let mut bundle = ParticleBundle::new_with_pos_and_vel(pos, vel);
    bundle.collider = CircleCollider { radius: fx(radius) };
    bundle.mass = mass(m);
    Body::particle(entity, bundle)
}

fn dynamic_box(entity: u64, pos: Vec2, vel: Vec2, size: Vec2, m: f64) -> Body {
    let mut bundle = DynamicBoxBundle::new_with_pos_and_vel(pos, vel);
    bundle.collider = BoxCollider { size };
    bundle.mass = mass(m);
    Body::dynamic_box(entity, bundle)
}

fn static_circle(entity: u64, pos: Vec2, radius: f64) -> Body {
    Body::static_circle(
        entity,
        StaticCircleBundle {
            pos: Pos(pos),
            collider: CircleCollider { radius: fx(radius) },
            restitution: Restitution::default(),
        },
    )
}

fn static_box(entity: u64, pos: Vec2, size: Vec2) -> Body {
    Body::static_box(
        entity,
        StaticBoxBundle {
            pos: Pos(pos),
            collider: BoxCollider { size },
            restitution: Restitution::default(),
        },
    )
}

#[test]
fn mass_of_zero_or_less_is_rejected() {
    assert!(Mass::new(fx(0.)).is_none());
    assert!(Mass::new(fx(-1.)).is_none());
    assert!(Mass::new(Fixed::from_raw(i64::MIN)).is_none());
    assert_eq!(Mass::new(Fixed::from_raw(1)).unwrap().get(), Fixed::from_raw(1));
    assert_eq!(Mass::new(fx(10.)).unwrap().get(), fx(10.));
    assert_eq!(Mass::default().get(), fx(1.));
}

#[test]
fn defaults_of_the_components() {
    assert_eq!(Restitution::default().0, fx(0.3));
    assert_eq!(CircleCollider::default().radius, fx(20.));
    assert_eq!(BoxCollider::default().size, v(1., 1.));
    assert_eq!(Gravity::default().0, v(0., -9.81));
}

#[test]
fn new_bundle_looks_one_substep_back() {
    let bundle = ParticleBundle::new_with_pos_and_vel(v(-50., 0.), v(60., 0.));
    assert_eq!(bundle.pos.0, v(-50., 0.));
    assert_eq!(bundle.vel.0, v(60., 0.));
    assert_eq!(bundle.prev_pos.0, v(-50.1, 0.));
    let bundle = DynamicBoxBundle::new_with_pos_and_vel(v(1., 2.), v(-600., 1200.));
    assert_eq!(bundle.prev_pos.0, v(2., 0.));
}

#[test]
fn mass_weighted_correction() {
    // Masses 10 and 2, penetration 6 along x: the heavy body takes a sixth.
    let mut pos_a = Pos(v(0., 0.));
    let mut pos_b = Pos(v(10., 0.));
    constrain_body_positions(&mut pos_a, &mut pos_b, &mass(10.), &mass(2.), v(1., 0.), fx(6.));
    assert_eq!(pos_a.0, v(-1., 0.));
    assert_eq!(pos_b.0, v(15., 0.));
}

#[test]
fn mass_weighted_correction_parts_by_the_whole_penetration() {
    let mut pos_a = Pos(v(1., 1.));
    let mut pos_b = Pos(v(2., 2.));
    constrain_body_positions(&mut pos_a, &mut pos_b, &mass(3.), &mass(7.), v(0.6, 0.8), fx(1.));
    // The first body takes 7 tenths of (0.6, 0.8), the second the rest.
    assert_eq!(pos_a.0, v(1. - 0.42, 1. - 0.56));
    assert_eq!(pos_b.0, v(2. + 0.18, 2. + 0.24));
    let parted = pos_b.0.sub(pos_a.0).sub(v(1., 1.));
    assert_eq!(parted, v(0.6, 0.8));
}

#[test]
fn correction_against_a_static_body_moves_the_whole_way() {
    let mut pos = Pos(v(3., 4.));
    constrain_body_position(&mut pos, v(0., -1.), fx(0.5));
    assert_eq!(pos.0, v(3., 4.5));
}

#[test]
fn integrate_without_gravity_or_velocity_changes_nothing() {
    let body = particle(1, v(12.5, -3.25), v(0., 0.), 20., 1.);
    let fixed = static_circle(2, v(500., 500.), 20.);
    let mut bodies = vec![body, fixed];
    XpbdPlugin::integrate(&mut bodies, &Gravity(v(0., 0.)));
    XpbdPlugin::update_vel(&mut bodies);
    assert_eq!(bodies[0].pos, body.pos);
    assert_eq!(bodies[0].vel, body.vel);
    assert_eq!(bodies[0].prev_pos.0, body.pos.0);
    assert_eq!(bodies[1], fixed);
}

#[test]
fn integrate_moves_by_velocity_and_gravity() {
    let mut bodies = vec![particle(1, v(0., 0.), v(600., 0.), 20., 1.)];
    XpbdPlugin::integrate(&mut bodies, &Gravity(v(0., -6.)));
    assert_eq!(bodies[0].prev_pos.0, v(0., 0.));
    assert_eq!(bodies[0].vel.0, v(600., -0.01));
    assert_eq!(bodies[0].pre_solve_vel.0, v(600., -0.01));
    assert_eq!(bodies[0].pos.0, Vec2::new(fx(1.), Fixed::from_raw(-16_666)));
    XpbdPlugin::update_vel(&mut bodies);
    assert_eq!(bodies[0].vel.0, Vec2::new(fx(600.), Fixed::from_raw(-16_666 * 600)));
}

#[test]
fn integrate_leaves_static_bodies_alone() {
    let fixed = static_box(7, v(0., -150.), v(1000., 20.));
    let mut bodies = vec![fixed];
    XpbdPlugin::integrate(&mut bodies, &Gravity::default());
    XpbdPlugin::update_vel(&mut bodies);
    assert_eq!(bodies[0], fixed);
}

#[test]
fn bounding_boxes_grow_with_speed() {
    let mut bodies = vec![
        particle(1, v(10., 20.), v(0., 0.), 5., 1.),
        particle(2, v(0., 0.), v(30., 40.), 5., 1.),
        dynamic_box(3, v(0., 0.), v(0., -60.), v(4., 2.), 1.),
    ];
    XpbdPlugin::update_aabb_circle(&mut bodies);
    XpbdPlugin::update_aabb_box(&mut bodies);
    assert_eq!(bodies[0].aabb.min, v(5., 15.));
    assert_eq!(bodies[0].aabb.max, v(15., 25.));
    // Speed 50: the margin is 2 * 50 / 60.
    let reach = fx(5.).add(Fixed::from_raw(1_666_666_666));
    assert_eq!(bodies[1].aabb.max, Vec2::splat(reach));
    assert_eq!(bodies[1].aabb.min, Vec2::splat(reach.neg()));
    // Speed 60: the margin is 2.
    assert_eq!(bodies[2].aabb.min, v(-4., -3.));
    assert_eq!(bodies[2].aabb.max, v(4., 3.));
}

#[test]
fn update_aabb_circle_skips_boxes() {
    let boxed = dynamic_box(3, v(0., 0.), v(0., -60.), v(4., 2.), 1.);
    let mut bodies = vec![boxed];
    XpbdPlugin::update_aabb_circle(&mut bodies);
    assert_eq!(bodies[0], boxed);
    let round = particle(4, v(0., 0.), v(0., 0.), 1., 1.);
    let mut bodies = vec![round];
    XpbdPlugin::update_aabb_box(&mut bodies);
    assert_eq!(bodies[0], round);
}

#[test]
fn aabbs_intersect_when_they_touch() {
    let mut bodies = vec![
        particle(1, v(0., 0.), v(0., 0.), 1., 1.),
        particle(2, v(2., 0.), v(0., 0.), 1., 1.),
        particle(3, v(2., 2.5), v(0., 0.), 1., 1.),
    ];
    XpbdPlugin::update_aabb_circle(&mut bodies);
    assert!(bodies[0].aabb.intersects(&bodies[1].aabb));
    assert!(bodies[1].aabb.intersects(&bodies[0].aabb));
    assert!(!bodies[0].aabb.intersects(&bodies[2].aabb));
    assert!(!bodies[1].aabb.intersects(&bodies[2].aabb));
}

#[test]
fn collision_pairs_are_every_overlapping_pair_once() {
    let mut bodies = vec![
        particle(10, v(0., 0.), v(0., 0.), 1., 1.),
        particle(11, v(100., 0.), v(0., 0.), 1., 1.),
        particle(12, v(1., 0.), v(0., 0.), 1., 1.),
        static_circle(13, v(0., 1.), 1.),
    ];
    XpbdPlugin::update_aabb_circle(&mut bodies);
    let mut pairs = CollisionPairs(vec![(99, 98)]);
    XpbdPlugin::collect_collision_pairs(&bodies, &mut pairs);
    assert_eq!(pairs.0, vec![(10, 12), (10, 13), (12, 13)]);
}

#[test]
fn solve_pos_parts_overlapping_circles() {
    let mut bodies = vec![
        particle(1, v(0., 0.), v(0., 0.), 2., 10.),
        particle(2, v(3., 0.), v(0., 0.), 2., 2.),
    ];
    let pairs = CollisionPairs(vec![(1, 2)]);
    let mut contacts = Contacts::new();
    XpbdPlugin::solve_pos(&mut bodies, &pairs, &mut contacts);
    // Penetration 1: the heavy body gives way by a sixth of it.
    assert_eq!(bodies[0].pos.0, Vec2::new(Fixed::from_raw(-166_666_666), fx(0.)));
    assert_eq!(bodies[1].pos.0, Vec2::new(Fixed::from_raw(3_833_333_334), fx(0.)));
    assert_eq!(contacts.0, vec![(1, 2, v(1., 0.))]);
}

#[test]
fn solve_pos_passes_over_stale_and_static_and_boxes() {
    let round = particle(1, v(0., 0.), v(0., 0.), 2., 1.);
    let fixed = static_circle(2, v(1., 0.), 2.);
    let boxed = dynamic_box(3, v(0., 0.), v(0., 0.), v(4., 4.), 1.);
    let mut bodies = vec![round, fixed, boxed];
    let pairs = CollisionPairs(vec![(1, 2), (1, 3), (1, 77), (77, 1), (1, 1)]);
    let mut contacts = Contacts::new();
    XpbdPlugin::solve_pos(&mut bodies, &pairs, &mut contacts);
    assert_eq!(bodies, vec![round, fixed, boxed]);
    assert!(contacts.0.is_empty());
    XpbdPlugin::solve_pos_box_box(&mut bodies, &mut contacts, &pairs);
    assert_eq!(bodies, vec![round, fixed, boxed]);
    assert!(contacts.0.is_empty());
}

#[test]
fn solve_pos_box_box_parts_overlapping_boxes() {
    let mut bodies = vec![
        dynamic_box(1, v(0., 0.), v(0., 0.), v(2., 2.), 1.),
        dynamic_box(2, v(0.5, 1.5), v(0., 0.), v(2., 2.), 1.),
    ];
    let pairs = CollisionPairs(vec![(1, 2)]);
    let mut contacts = Contacts::new();
    XpbdPlugin::solve_pos_box_box(&mut bodies, &mut contacts, &pairs);
    assert_eq!(bodies[0].pos.0, v(0., -0.25));
    assert_eq!(bodies[1].pos.0, v(0.5, 1.75));
    assert_eq!(contacts.0, vec![(1, 2, v(0., 1.))]);
}

#[test]
fn later_corrections_see_earlier_ones() {
    // Three circles in a row: parting the first pair pushes the middle one
    // deeper into the third.
    let mut bodies = vec![
        particle(1, v(0., 0.), v(0., 0.), 1., 1.),
        particle(2, v(1., 0.), v(0., 0.), 1., 1.),
        particle(3, v(2.5, 0.), v(0., 0.), 1., 1.),
    ];
    let pairs = CollisionPairs(vec![(1, 2), (2, 3)]);
    let mut contacts = Contacts::new();
    XpbdPlugin::solve_pos(&mut bodies, &pairs, &mut contacts);
    assert_eq!(bodies[0].pos.0, v(-0.5, 0.));
    // The middle body went to 1.5, which overlaps the third by 1.
    assert_eq!(bodies[1].pos.0, v(1., 0.));
    assert_eq!(bodies[2].pos.0, v(3., 0.));
    assert_eq!(contacts.0.len(), 2);
}

#[test]
fn static_bodies_do_not_move() {
    let fixed_circle = static_circle(1, v(0., 0.), 2.);
    let fixed_box = static_box(2, v(0., -10.), v(20., 2.));
    let mut bodies = vec![
        fixed_circle,
        particle(3, v(3., 0.), v(0., 0.), 2., 1.),
        fixed_box,
        particle(4, v(5., -8.5), v(0., 0.), 1., 1.),
        dynamic_box(5, v(-5., -8.5), v(0., 0.), v(2., 2.), 1.),
    ];
    let mut contacts = StaticContacts::new();
    XpbdPlugin::solve_pos_statics(&mut bodies, &mut contacts);
    XpbdPlugin::solve_pos_static_boxes(&mut bodies, &mut contacts);
    XpbdPlugin::solve_pos_static_box_box(&mut bodies, &mut contacts);
    assert_eq!(bodies[0], fixed_circle);
    assert_eq!(bodies[2], fixed_box);
    // Each dynamic body was moved out by the whole penetration.
    assert_eq!(bodies[1].pos.0, v(4., 0.));
    assert_eq!(bodies[3].pos.0, v(5., -8.));
    assert_eq!(bodies[4].pos.0, v(-5., -8.));
    assert_eq!(
        contacts.0,
        vec![(3, 1, v(-1., 0.)), (4, 2, v(0., -1.)), (5, 2, v(0., -1.))]
    );
}

#[test]
fn restitution_zero_cancels_the_normal_velocity() {
    let mut a = particle(1, v(0., 0.), v(3., 1.), 1., 10.);
    let mut b = particle(2, v(1.5, 0.), v(-5., 2.), 1., 2.);
    a.restitution = Restitution(fx(0.));
    b.restitution = Restitution(fx(0.));
    a.pre_solve_vel.0 = v(4., 1.);
    b.pre_solve_vel.0 = v(-6., 2.);
    let mut bodies = vec![a, b];
    XpbdPlugin::solve_vel(&mut bodies, &Contacts(vec![(1, 2, v(1., 0.))]));
    let relative = bodies[0].vel.0.sub(bodies[1].vel.0);
    assert_eq!(relative.dot(v(1., 0.)), fx(0.));
    // The tangential velocities stay.
    assert_eq!(bodies[0].vel.0.y, fx(1.));
    assert_eq!(bodies[1].vel.0.y, fx(2.));
}

#[test]
fn restitution_one_reverses_the_normal_velocity() {
    let mut a = particle(1, v(0., 0.), v(3., 1.), 1., 10.);
    let mut b = particle(2, v(1.5, 0.), v(-5., 2.), 1., 2.);
    a.restitution = Restitution(fx(1.));
    b.restitution = Restitution(fx(1.));
    a.pre_solve_vel.0 = v(4., 1.);
    b.pre_solve_vel.0 = v(-6., 2.);
    let mut bodies = vec![a, b];
    XpbdPlugin::solve_vel(&mut bodies, &Contacts(vec![(1, 2, v(1., 0.))]));
    let relative = bodies[0].vel.0.sub(bodies[1].vel.0);
    // The pre-solve relative normal velocity was 10.
    assert_eq!(relative.dot(v(1., 0.)), fx(-10.));
}

#[test]
fn solve_vel_splits_by_inverse_mass() {
    let mut a = particle(1, v(0., 0.), v(6., 0.), 1., 10.);
    let mut b = particle(2, v(1.5, 0.), v(-6., 0.), 1., 2.);
    a.restitution = Restitution(fx(0.5));
    b.restitution = Restitution(fx(0.5));
    a.pre_solve_vel.0 = v(6., 0.);
    b.pre_solve_vel.0 = v(-6., 0.);
    let mut bodies = vec![a, b];
    XpbdPlugin::solve_vel(&mut bodies, &Contacts(vec![(1, 2, v(1., 0.))]));
    // The correction is -(12 + 0.5 * 12) = -18: a sixth for the heavy body.
    assert_eq!(bodies[0].vel.0, v(3., 0.));
    assert_eq!(bodies[1].vel.0, v(9., 0.));
}

#[test]
fn solve_vel_passes_over_stale_contacts() {
    let a = particle(1, v(0., 0.), v(6., 0.), 1., 10.);
    let fixed = static_circle(2, v(1.5, 0.), 1.);
    let mut bodies = vec![a, fixed];
    XpbdPlugin::solve_vel(
        &mut bodies,
        &Contacts(vec![(1, 9, v(1., 0.)), (9, 1, v(1., 0.)), (1, 2, v(1., 0.)), (1, 1, v(1., 0.))]),
    );
    assert_eq!(bodies, vec![a, fixed]);
    XpbdPlugin::solve_vel_static(
        &mut bodies,
        &StaticContacts(vec![(1, 9, v(1., 0.)), (9, 2, v(1., 0.)), (2, 1, v(1., 0.))]),
    );
    assert_eq!(bodies, vec![a, fixed]);
}

#[test]
fn solve_vel_static_bounces_off_the_floor() {
    let mut ball = particle(1, v(0., 0.), v(2., 0.), 1., 1.);
    ball.pre_solve_vel.0 = v(2., -10.);
    ball.restitution = Restitution(fx(0.5));
    let mut floor = static_box(2, v(0., -1.5), v(10., 1.));
    floor.restitution = Restitution(fx(0.3));
    let mut bodies = vec![ball, floor];
    XpbdPlugin::solve_vel_static(&mut bodies, &StaticContacts(vec![(1, 2, v(0., -1.))]));
    // The blended restitution is 0.4: the ball leaves at 4 upward.
    assert_eq!(bodies[0].vel.0, v(2., 4.));
    assert_eq!(bodies[1], floor);
}

#[test]
fn clear_contacts_empties_both_lists() {
    let mut contacts = Contacts(vec![(1, 2, v(1., 0.))]);
    let mut static_contacts = StaticContacts(vec![(1, 3, v(0., 1.)), (2, 3, v(0., 1.))]);
    XpbdPlugin::clear_contacts(&mut contacts, &mut static_contacts);
    assert!(contacts.0.is_empty());
    assert!(static_contacts.0.is_empty());
}

#[test]
fn sync_transforms_publishes_positions() {
    let mut bodies = vec![
        particle(1, v(1., 2.), v(0., 0.), 1., 1.),
        static_circle(2, v(3., 4.), 1.),
    ];
    bodies[0].pos = Pos(v(5., 6.));
    XpbdPlugin::sync_transforms(&mut bodies);
    assert_eq!(bodies[0].translation, v(5., 6.));
    assert_eq!(bodies[1].translation, v(3., 4.));
}

#[test]
fn find_body_gives_the_first_with_the_identity() {
    let bodies = vec![
        particle(5, v(0., 0.), v(0., 0.), 1., 1.),
        particle(6, v(0., 0.), v(0., 0.), 1., 1.),
        particle(5, v(1., 0.), v(0., 0.), 1., 1.),
    ];
    assert_eq!(find_body(&bodies, 5), Some(0));
    assert_eq!(find_body(&bodies, 6), Some(1));
    assert_eq!(find_body(&bodies, 7), None);
    assert_eq!(find_body(&Vec::new(), 5), None);
}

#[test]
fn solve_pos_parts_circles_that_almost_coincide() {
    // Two circles of radius 20 whose centres are one raw count apart on each
    // axis end at a distance of the sum of the radii.
    let mut bodies = vec![
        particle(1, v(0., 0.), v(0., 0.), 20., 1.),
        particle(2, Vec2::new(Fixed::from_raw(1), Fixed::from_raw(1)), v(0., 0.), 20., 1.),
    ];
    let pairs = CollisionPairs(vec![(1, 2)]);
    let mut contacts = Contacts::new();
    XpbdPlugin::solve_pos(&mut bodies, &pairs, &mut contacts);
    let gap = bodies[1].pos.0.sub(bodies[0].pos.0);
    assert_eq!(gap.x, gap.y);
    let distance = gap.length().raw;
    assert!((distance - 40 * SCALE).abs() < 100, "the circles are {distance} apart");
    assert_eq!(
        contacts.0,
        vec![(1, 2, Vec2::new(Fixed::from_raw(707_106_781), Fixed::from_raw(707_106_781)))]
    );
}
