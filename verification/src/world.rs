//! A world of bodies and the loop that advances it by whole substeps.

use vstd::prelude::*;
use crate::body::{find_body, index_of, lemma_index_from, unique_identities, Body};
use crate::theorems::lemma_substep_keeps_identities;
use crate::consts::NUM_SUBSTEPS;
use crate::plugin::{
    candidate_pairs, integrated, published, solve_pairs_upto, solve_statics_upto,
    solve_vel_static_upto, solve_vel_upto, with_box_aabb, with_circle_aabb, with_derived_velocity,
    Shapes, XpbdPlugin,
};
use crate::resources::{CollisionPairs, Contacts, Gravity, StaticContacts};
use crate::vec2::Vec2;
use crate::xpbd_loop::{
    budget, first_substep, frame_end, frame_substeps, last_substep, lemma_frame_within_budget,
    lemma_poll_spends_budget, poll_answer, poll_state, run_criteria, ShouldRun, XpbdLoop,
};

verus! {

/// The bodies of a simulation and all that the solver keeps between passes.
#[derive(Debug)]
pub struct World {
    pub bodies: Vec<Body>,
    pub gravity: Gravity,
    pub contacts: Contacts,
    pub static_contacts: StaticContacts,
    pub collision_pairs: CollisionPairs,
    pub xpbd_loop: XpbdLoop,
}

/// A world as contracts see it.
pub struct WorldView {
    pub bodies: Seq<Body>,
    pub gravity: Vec2,
    pub contacts: Seq<(u64, u64, Vec2)>,
    pub static_contacts: Seq<(u64, u64, Vec2)>,
    pub collision_pairs: Seq<(u64, u64)>,
    pub xpbd_loop: XpbdLoop,
}

impl View for World {
    type V = WorldView;

    open spec fn view(&self) -> WorldView {
        WorldView {
            bodies: self.bodies@,
            gravity: self.gravity.0,
            contacts: self.contacts.0@,
            static_contacts: self.static_contacts.0@,
            collision_pairs: self.collision_pairs.0@,
            xpbd_loop: self.xpbd_loop,
        }
    }
}

/// The bodies with `change` applied to each.
pub open spec fn each_body(bodies: Seq<Body>, change: spec_fn(Body) -> Body) -> Seq<Body> {
    Seq::new(bodies.len(), |k: int| change(bodies[k]))
}

/// The world after the broad phase: every bounding box is brought up to
/// date, and the candidate pairs are collected anew.
pub open spec fn after_broad_phase(w: WorldView) -> WorldView {
    let bodies = each_body(w.bodies, |b: Body| with_circle_aabb(with_box_aabb(b)));
    WorldView { bodies, collision_pairs: candidate_pairs(bodies), ..w }
}

/// The world after the position passes: the contacts of the substep before
/// are forgotten, then dynamic circles are parted, then dynamic boxes, then
/// dynamic circles are moved out of static circles, dynamic circles out of
/// static boxes, and dynamic boxes out of static boxes.
pub open spec fn after_position_solve(w: WorldView) -> WorldView {
    let (circles, circle_contacts) = solve_pairs_upto(
        Shapes::Circles,
        w.bodies,
        Seq::empty(),
        w.collision_pairs,
        w.collision_pairs.len() as int,
    );
    let (boxes, contacts) = solve_pairs_upto(
        Shapes::Boxes,
        circles,
        circle_contacts,
        w.collision_pairs,
        w.collision_pairs.len() as int,
    );
    let (first, first_contacts) = solve_statics_upto(
        Shapes::Circles,
        boxes,
        Seq::empty(),
        boxes.len() as int,
    );
    let (second, second_contacts) = solve_statics_upto(
        Shapes::CircleBox,
        first,
        first_contacts,
        first.len() as int,
    );
    let (third, static_contacts) = solve_statics_upto(
        Shapes::Boxes,
        second,
        second_contacts,
        second.len() as int,
    );
    WorldView { bodies: third, contacts, static_contacts, ..w }
}

/// The world after the velocity passes: velocities are derived from the way
/// the bodies went, then resolved at the contacts of two dynamic bodies, then
/// at the contacts with static bodies.
pub open spec fn after_velocity_solve(w: WorldView) -> WorldView {
    let derived = each_body(w.bodies, |b: Body| with_derived_velocity(b));
    let resolved = solve_vel_upto(derived, w.contacts, w.contacts.len() as int);
    WorldView {
        bodies: solve_vel_static_upto(
            resolved,
            w.static_contacts,
            w.static_contacts.len() as int,
        ),
        ..w
    }
}

/// The world after one substep. The broad phase runs on the first substep of
/// a step only, and positions are published on the last only.
pub open spec fn after_substep(w: WorldView) -> WorldView {
    let collected = if w.xpbd_loop.current_substep == 0 {
        after_broad_phase(w)
    } else {
        w
    };
    let moved = WorldView {
        bodies: each_body(collected.bodies, |b: Body| integrated(b, collected.gravity)),
        ..collected
    };
    let solved = after_velocity_solve(after_position_solve(moved));
    if w.xpbd_loop.current_substep == NUM_SUBSTEPS - 1 {
        WorldView { bodies: each_body(solved.bodies, |b: Body| published(b)), ..solved }
    } else {
        solved
    }
}

/// The world with the scheduler in another state.
pub open spec fn with_loop(w: WorldView, xpbd_loop: XpbdLoop) -> WorldView {
    WorldView { xpbd_loop, ..w }
}

/// The world after a frame of `delta` nanoseconds: the scheduler is polled,
/// and one substep runs for every `YesAndCheckAgain`, until it answers `No`.
pub open spec fn after_frame(w: WorldView, delta: u64) -> WorldView
    decreases budget(w.xpbd_loop, delta),
    when w.xpbd_loop.wf()
    via after_frame_decreases
{
    let polled = with_loop(w, poll_state(w.xpbd_loop, delta));
    if poll_answer(w.xpbd_loop, delta) == ShouldRun::YesAndCheckAgain {
        after_frame(after_substep(polled), delta)
    } else {
        polled
    }
}

#[via_fn]
proof fn after_frame_decreases(w: WorldView, delta: u64) {
    lemma_poll_spends_budget(w.xpbd_loop, delta);
}

impl World {
    /// A world without bodies, under the default gravity, with the scheduler
    /// at rest.
    pub fn new() -> (world: World)
        ensures
            world@.bodies == Seq::<Body>::empty(),
            world@.gravity == crate::vec2::vec2_of(0, -9_810_000_000),
            world@.contacts == Seq::<(u64, u64, Vec2)>::empty(),
            world@.static_contacts == Seq::<(u64, u64, Vec2)>::empty(),
            world@.collision_pairs == Seq::<(u64, u64)>::empty(),
            world@.xpbd_loop == XpbdLoop::initial(),
    {
        World {
            bodies: Vec::new(),
            gravity: Gravity::default(),
            contacts: Contacts::new(),
            static_contacts: StaticContacts::new(),
            collision_pairs: CollisionPairs::new(),
            xpbd_loop: XpbdLoop::new(),
        }
    }
}

impl Default for World {
    /// The world without bodies.
    fn default() -> (world: World)
        ensures
            world@.bodies == Seq::<Body>::empty(),
            world@.gravity == crate::vec2::vec2_of(0, -9_810_000_000),
            world@.contacts == Seq::<(u64, u64, Vec2)>::empty(),
            world@.static_contacts == Seq::<(u64, u64, Vec2)>::empty(),
            world@.collision_pairs == Seq::<(u64, u64)>::empty(),
            world@.xpbd_loop == XpbdLoop::initial(),
    {
        World::new()
    }
}

impl World {
    /// Puts a body into the world, after the bodies that are there, unless a
    /// body of the world has its identity already: then the world stays as it
    /// is. Returns whether the body was put in.
    pub fn spawn(&mut self, body: Body) -> (spawned: bool)
        ensures
            spawned == (index_of(old(self)@.bodies, body.entity) is None),
            spawned ==> final(self)@ == (WorldView {
                bodies: old(self)@.bodies.push(body),
                ..old(self)@
            }),
            !spawned ==> final(self)@ == old(self)@,
            unique_identities(old(self)@.bodies) ==> unique_identities(final(self)@.bodies),
    {
        match find_body(&self.bodies, body.entity) {
            Some(_) => false,
            None => {
                proof {
                    lemma_index_from(self.bodies@, body.entity, 0);
                }
                self.bodies.push(body);
                true
            },
        }
    }

    /// Takes the body with the identity `entity` out of the world and hands
    /// it back; the other bodies keep their order. Pairs and contacts that
    /// name it stay, and are passed over from now on. For an identity that no
    /// body has, nothing changes.
    pub fn despawn(&mut self, entity: u64) -> (removed: Option<Body>)
        ensures
            match index_of(old(self)@.bodies, entity) {
                Some(i) => {
                    &&& removed == Some(old(self)@.bodies[i])
                    &&& final(self)@ == (WorldView {
                        bodies: old(self)@.bodies.remove(i),
                        ..old(self)@
                    })
                },
                None => removed is None && final(self)@ == old(self)@,
            },
            unique_identities(old(self)@.bodies) ==> unique_identities(final(self)@.bodies),
    {
        match find_body(&self.bodies, entity) {
            Some(i) => {
                proof {
                    lemma_index_from(self.bodies@, entity, 0);
                }
                Some(self.bodies.remove(i))
            },
            None => None,
        }
    }
}

impl XpbdPlugin {
    /// The broad phase: brings every bounding box up to date and collects
    /// the candidate pairs anew.
    pub fn broad_phase(world: &mut World)
        ensures
            final(world)@ == after_broad_phase(old(world)@),
    {
        XpbdPlugin::update_aabb_box(&mut world.bodies);
        XpbdPlugin::update_aabb_circle(&mut world.bodies);
        assert(world.bodies@ =~= each_body(
            old(world)@.bodies,
            |b: Body| with_circle_aabb(with_box_aabb(b)),
        ));
        XpbdPlugin::collect_collision_pairs(&world.bodies, &mut world.collision_pairs);
    }

    /// The position passes, in order.
    pub fn solve_positions(world: &mut World)
        ensures
            final(world)@ == after_position_solve(old(world)@),
    {
        XpbdPlugin::clear_contacts(&mut world.contacts, &mut world.static_contacts);
        XpbdPlugin::solve_pos(&mut world.bodies, &world.collision_pairs, &mut world.contacts);
        XpbdPlugin::solve_pos_box_box(&mut world.bodies, &mut world.contacts, &world.collision_pairs);
        XpbdPlugin::solve_pos_statics(&mut world.bodies, &mut world.static_contacts);
        XpbdPlugin::solve_pos_static_boxes(&mut world.bodies, &mut world.static_contacts);
        XpbdPlugin::solve_pos_static_box_box(&mut world.bodies, &mut world.static_contacts);
    }

    /// The velocity passes, in order.
    pub fn solve_velocities(world: &mut World)
        ensures
            final(world)@ == after_velocity_solve(old(world)@),
    {
        XpbdPlugin::update_vel(&mut world.bodies);
        assert(world.bodies@ =~= each_body(old(world)@.bodies, |b: Body| with_derived_velocity(b)));
        XpbdPlugin::solve_vel(&mut world.bodies, &world.contacts);
        XpbdPlugin::solve_vel_static(&mut world.bodies, &world.static_contacts);
    }

    /// Runs the passes of one substep in order.
    pub fn substep(world: &mut World)
        ensures
            final(world)@ == after_substep(old(world)@),
            unique_identities(old(world)@.bodies) ==> unique_identities(final(world)@.bodies),
    {
        proof {
            lemma_substep_keeps_identities(old(world)@);
        }
        if first_substep(&world.xpbd_loop) == ShouldRun::Yes {
            XpbdPlugin::broad_phase(world);
        }
        let ghost collected = world@;
        XpbdPlugin::integrate(&mut world.bodies, &world.gravity);
        assert(world.bodies@ =~= each_body(
            collected.bodies,
            |b: Body| integrated(b, collected.gravity),
        ));
        XpbdPlugin::solve_positions(world);
        XpbdPlugin::solve_velocities(world);
        let ghost solved = world@;
        if last_substep(&world.xpbd_loop) == ShouldRun::Yes {
            XpbdPlugin::sync_transforms(&mut world.bodies);
            assert(world.bodies@ =~= each_body(solved.bodies, |b: Body| published(b)));
        }
    }

    /// Advances the world by one frame of `delta` nanoseconds of wall-clock
    /// time, and returns the number of substeps that ran.
    pub fn run_frame(world: &mut World, delta: u64) -> (substeps: u64)
        requires
            old(world).xpbd_loop.wf(),
        ensures
            final(world)@ == after_frame(old(world)@, delta),
            final(world)@.xpbd_loop == frame_end(old(world)@.xpbd_loop, delta),
            final(world)@.xpbd_loop.wf(),
            substeps == frame_substeps(old(world)@.xpbd_loop, delta),
            unique_identities(old(world)@.bodies) ==> unique_identities(final(world)@.bodies),
    {
        let mut substeps: u64 = 0;
        proof {
            lemma_frame_within_budget(world.xpbd_loop, delta);
        }
        loop
            invariant_except_break
                world.xpbd_loop.wf(),
                after_frame(world@, delta) == after_frame(old(world)@, delta),
                frame_end(world@.xpbd_loop, delta) == frame_end(old(world)@.xpbd_loop, delta),
                substeps + frame_substeps(world@.xpbd_loop, delta) == frame_substeps(
                    old(world)@.xpbd_loop,
                    delta,
                ),
                frame_substeps(old(world)@.xpbd_loop, delta) <= u64::MAX,
            invariant
                unique_identities(old(world)@.bodies) ==> unique_identities(world@.bodies),
            ensures
                world@ == after_frame(old(world)@, delta),
                world@.xpbd_loop == frame_end(old(world)@.xpbd_loop, delta),
                world@.xpbd_loop.wf(),
                substeps == frame_substeps(old(world)@.xpbd_loop, delta),
            decreases budget(world@.xpbd_loop, delta),
        {
            proof {
                lemma_poll_spends_budget(world.xpbd_loop, delta);
            }
            let ghost before = world@;
            let answer = run_criteria(delta, &mut world.xpbd_loop);
            assert(world@ == with_loop(before, poll_state(before.xpbd_loop, delta)));
            match answer {
                ShouldRun::YesAndCheckAgain => {
                    XpbdPlugin::substep(world);
                    substeps = substeps + 1;
                },
                _ => {
                    break ;
                },
            }
        }
        substeps
    }
}

} // verus!
