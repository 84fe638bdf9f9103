use xpbd::body::{has_unique_identities, Body};
use xpbd::colliders::{BoxCollider, CircleCollider};
use xpbd::components::{Mass, ParticleBundle, Pos, Restitution, StaticBoxBundle};
use xpbd::consts::{DELTA_TIME, NUM_SUBSTEPS};
use xpbd::fixed::{Fixed, SCALE};
use xpbd::plugin::XpbdPlugin;
use xpbd::resources::Gravity;
use xpbd::vec2::Vec2;
use xpbd::world::World;
use xpbd::xpbd_loop::XpbdLoop;

fn fx(value: f64) -> Fixed {
    Fixed::from_raw((value * SCALE as f64).round() as i64)
}

fn v(x: f64, y: f64) -> Vec2 {
    Vec2::new(fx(x), fx(y))
}

fn as_f64(value: Fixed) -> f64 {
    value.raw as f64 / SCALE as f64
}

fn particle(entity: u64, pos: Vec2, vel: Vec2, radius: f64, mass: f64) -> Body {
    let mut bundle = ParticleBundle::new_with_pos_and_vel(pos, vel);
    bundle.collider = CircleCollider { radius: fx(radius) };
    bundle.mass = Mass::new(fx(mass)).unwrap();
    Body::particle(entity, bundle)
}

fn overlapping(world: &World) -> bool {
    let gap = world.bodies[1].pos.0.sub(world.bodies[0].pos.0).length();
    gap.raw < fx(40.).raw
}

#[test]
fn new_world_is_empty() {
    let world = World::new();
    assert!(world.bodies.is_empty());
    assert!(world.contacts.0.is_empty());
    assert!(world.static_contacts.0.is_empty());
    assert!(world.collision_pairs.0.is_empty());
    assert_eq!(world.gravity, Gravity::default());
    assert_eq!(world.xpbd_loop, XpbdLoop::new());
}

#[test]
fn two_circles_collide_and_separate() {
    let mut world = World::new();
    world.gravity = Gravity(v(0., 0.));
    world.bodies.push(particle(1, v(-50., 0.), v(60., 0.), 20., 10.));
    world.bodies.push(particle(2, v(50., 0.), v(-60., 0.), 20., 2.));

    // Run the fixed-step loop, substep by substep, until a contact is found.
    let mut substeps = 0;
    loop {
        if xpbd::xpbd_loop::run_criteria(DELTA_TIME, &mut world.xpbd_loop)
            != xpbd::xpbd_loop::ShouldRun::YesAndCheckAgain
        {
            continue;
        }
        XpbdPlugin::substep(&mut world);
        substeps += 1;
        if !world.contacts.0.is_empty() {
            break;
        }
        // Until they meet, the circles move freely and do not overlap.
        assert_eq!(world.bodies[0].vel.0, v(60., 0.));
        assert_eq!(world.bodies[1].vel.0, v(-60., 0.));
        assert!(!overlapping(&world));
        assert!(substeps < 1000);
    }
    // They close in at 120 per second over a gap of 60: half a second.
    assert_eq!(substeps, 301);
    assert_eq!(world.contacts.0, vec![(1, 2, v(1., 0.))]);

    // After the substep has resolved the contact they overlap no more.
    assert!(!overlapping(&world));
    let gap = world.bodies[1].pos.0.sub(world.bodies[0].pos.0);
    assert_eq!(gap, v(40., 0.));

    // They move apart, and the heavy one has changed its velocity less.
    let heavy = world.bodies[0].vel.0;
    let light = world.bodies[1].vel.0;
    assert!(light.x.raw - heavy.x.raw > 0);
    let heavy_change = (as_f64(heavy.x) - 60.).abs();
    let light_change = (as_f64(light.x) + 60.).abs();
    assert!(heavy_change < light_change);
    // The changes are in inverse proportion to the masses: 2 to 10.
    assert!((light_change / heavy_change - 5.).abs() < 1e-6);
    // Momentum is kept.
    let momentum = 10. * as_f64(heavy.x) + 2. * as_f64(light.x);
    assert!((momentum - 480.).abs() < 1e-4);

    // One more substep: no contact, and they keep moving apart.
    assert_eq!(
        xpbd::xpbd_loop::run_criteria(DELTA_TIME, &mut world.xpbd_loop),
        xpbd::xpbd_loop::ShouldRun::YesAndCheckAgain
    );
    XpbdPlugin::substep(&mut world);
    assert!(world.contacts.0.is_empty());
    assert!(!overlapping(&world));
}

#[test]
fn a_substep_at_rest_changes_nothing() {
    let body = particle(1, v(3., 4.), v(0., 0.), 20., 1.);
    let mut world = World::new();
    world.gravity = Gravity(v(0., 0.));
    world.bodies.push(body);
    world.xpbd_loop.current_substep = 1;
    XpbdPlugin::substep(&mut world);
    assert_eq!(world.bodies[0].pos, body.pos);
    assert_eq!(world.bodies[0].vel, body.vel);
}

#[test]
fn run_frame_runs_whole_steps() {
    let mut world = World::new();
    world.gravity = Gravity(v(0., 0.));
    world.bodies.push(particle(1, v(0., 0.), v(600., -1200.), 20., 1.));
    assert_eq!(XpbdPlugin::run_frame(&mut world, DELTA_TIME - 1), 0);
    assert_eq!(world.bodies[0].pos.0, v(0., 0.));
    assert_eq!(XpbdPlugin::run_frame(&mut world, DELTA_TIME + 1), 2 * NUM_SUBSTEPS as u64);
    // Twenty substeps of free motion at (1, -2) per substep.
    assert_eq!(world.bodies[0].pos.0, v(20., -40.));
    assert_eq!(world.bodies[0].translation, v(20., -40.));
    assert_eq!(world.xpbd_loop, XpbdLoop::new());
}

#[test]
fn positions_are_published_on_the_last_substep_only() {
    let mut world = World::new();
    world.gravity = Gravity(v(0., 0.));
    world.bodies.push(particle(1, v(0., 0.), v(600., 0.), 20., 1.));
    for substep in 0..NUM_SUBSTEPS {
        world.xpbd_loop.current_substep = substep;
        XpbdPlugin::substep(&mut world);
        let published = if substep == NUM_SUBSTEPS - 1 { v(10., 0.) } else { v(0., 0.) };
        assert_eq!(world.bodies[0].translation, published);
    }
}

#[test]
fn the_broad_phase_runs_on_the_first_substep_only() {
    let mut world = World::new();
    world.gravity = Gravity(v(0., 0.));
    world.bodies.push(particle(1, v(0., 0.), v(0., 0.), 20., 1.));
    world.bodies.push(particle(2, v(100., 0.), v(0., 0.), 20., 1.));
    world.xpbd_loop.current_substep = 0;
    XpbdPlugin::substep(&mut world);
    assert!(world.collision_pairs.0.is_empty());
    // The second body is put on top of the first, in the middle of a step: the
    // pairs are not collected again, so the overlap goes unnoticed.
    world.bodies[1].pos = Pos(v(10., 0.));
    world.bodies[1].prev_pos.0 = v(10., 0.);
    world.xpbd_loop.current_substep = 1;
    XpbdPlugin::substep(&mut world);
    assert!(world.collision_pairs.0.is_empty());
    assert!(world.contacts.0.is_empty());
    assert_eq!(world.bodies[1].pos.0, v(10., 0.));
    // The next step finds the pair and parts the two.
    world.xpbd_loop.current_substep = 0;
    XpbdPlugin::substep(&mut world);
    assert_eq!(world.collision_pairs.0, vec![(1, 2)]);
    assert_eq!(world.contacts.0, vec![(1, 2, v(1., 0.))]);
    assert_eq!(world.bodies[0].pos.0, v(-15., 0.));
    assert_eq!(world.bodies[1].pos.0, v(25., 0.));
}

#[test]
fn a_ball_comes_to_lie_on_the_floor() {
    let mut world = World::new();
    let mut ball = particle(1, v(0., 5.), v(0., 0.), 1., 1.);
    ball.restitution = Restitution(fx(0.));
    world.bodies.push(ball);
    let mut floor = StaticBoxBundle::default();
    floor.pos = Pos(v(0., -1.));
    floor.collider = BoxCollider { size: v(100., 2.) };
    floor.restitution = Restitution(fx(0.));
    let floor = Body::static_box(2, floor);
    world.bodies.push(floor);
    for _ in 0..180 {
        XpbdPlugin::run_frame(&mut world, DELTA_TIME);
    }
    // The floor has not moved; the ball rests on it, one radius above.
    assert_eq!(world.bodies[1].pos, floor.pos);
    assert!((as_f64(world.bodies[0].pos.0.y) - 1.).abs() < 1e-3);
    assert!(as_f64(world.bodies[0].vel.0.y).abs() < 0.05);
    assert_eq!(world.bodies[0].pos.0.x, fx(0.));
}

#[test]
fn a_body_removed_between_frames_is_forgotten() {
    let mut world = World::new();
    world.gravity = Gravity(v(0., 0.));
    world.bodies.push(particle(1, v(0., 0.), v(0., 0.), 20., 1.));
    world.bodies.push(particle(2, v(30., 0.), v(0., 0.), 20., 1.));
    XpbdPlugin::run_frame(&mut world, DELTA_TIME);
    assert_eq!(world.collision_pairs.0, vec![(1, 2)]);
    world.bodies.remove(1);
    let alone = world.bodies[0];
    // A substep in the middle of a step still holds the stale pair.
    world.xpbd_loop.current_substep = 3;
    XpbdPlugin::substep(&mut world);
    assert_eq!(world.collision_pairs.0, vec![(1, 2)]);
    assert!(world.contacts.0.is_empty());
    assert_eq!(world.bodies[0].pos, alone.pos);
    world.xpbd_loop.current_substep = 0;
    XpbdPlugin::run_frame(&mut world, DELTA_TIME);
    assert!(world.collision_pairs.0.is_empty());
}

#[test]
fn spawn_and_despawn() {
    let mut world = World::new();
    let first = particle(1, v(0., 0.), v(0., 0.), 20., 1.);
    let second = particle(2, v(100., 0.), v(0., 0.), 20., 1.);
    let third = particle(3, v(200., 0.), v(0., 0.), 20., 1.);
    assert!(world.spawn(first));
    assert!(world.spawn(second));
    assert!(world.spawn(third));
    assert_eq!(world.bodies, vec![first, second, third]);
    // A body whose identity is taken is turned away.
    let intruder = particle(2, v(-100., 0.), v(0., 0.), 20., 1.);
    assert!(!world.spawn(intruder));
    assert_eq!(world.bodies, vec![first, second, third]);
    assert!(has_unique_identities(&world.bodies));
    assert_eq!(world.despawn(2), Some(second));
    assert_eq!(world.bodies, vec![first, third]);
    assert_eq!(world.despawn(2), None);
    assert_eq!(world.bodies, vec![first, third]);
}

#[test]
fn identities_stay_unique_over_frames() {
    let mut world = World::new();
    assert!(has_unique_identities(&world.bodies));
    assert!(world.spawn(particle(7, v(0., 0.), v(10., 0.), 20., 1.)));
    assert!(world.spawn(particle(3, v(30., 0.), v(-10., 0.), 20., 2.)));
    assert!(world.spawn(particle(9, v(0., 35.), v(0., -10.), 20., 3.)));
    for _ in 0..10 {
        XpbdPlugin::run_frame(&mut world, DELTA_TIME);
        assert!(has_unique_identities(&world.bodies));
        let identities: Vec<u64> = world.bodies.iter().map(|body| body.entity).collect();
        assert_eq!(identities, vec![7, 3, 9]);
    }
    // Every candidate pair names two bodies of the world.
    for (a, b) in world.collision_pairs.0.iter() {
        assert!(a != b);
        assert!(world.bodies.iter().any(|body| body.entity == *a));
        assert!(world.bodies.iter().any(|body| body.entity == *b));
    }
    world.bodies.push(particle(3, v(0., 0.), v(0., 0.), 20., 1.));
    assert!(!has_unique_identities(&world.bodies));
}
