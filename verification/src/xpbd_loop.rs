//! The fixed-timestep accumulator that turns variable frame times into whole
//! physics steps of `NUM_SUBSTEPS` substeps each.
//!
//! The host polls `run_criteria` repeatedly within a frame and runs one
//! substep for every `YesAndCheckAgain` it gets back, until it is told `No`.
//!
//! A slow frame is caught up in full: the scheduler sets no limit to the
//! steps of one frame, and only holds the accumulator at the largest `u64`.
//! A host that cannot afford to catch up after a stall passes its delta
//! through `clamp_delta` first, and so lets simulated time fall behind the
//! wall clock by what was cut off.

use vstd::prelude::*;
use crate::consts::{DELTA_TIME, NUM_SUBSTEPS};

verus! {

/// What the scheduler answers to a poll.
#[derive(Debug, Clone, Copy, PartialEq, Eq, Structural)]
pub enum ShouldRun {
    /// Run now; do not poll again.
    Yes,
    /// Do not run; the frame is over.
    No,
    /// Run one substep now, then poll again.
    YesAndCheckAgain,
}

/// State of the scheduler. Time is kept in whole nanoseconds.
#[derive(Debug, Clone, Copy, PartialEq, Eq, Structural)]
pub struct XpbdLoop {
    pub has_added_time: bool,
    pub accumulator: u64,
    pub substepping: bool,
    pub current_substep: u32,
    pub queued_steps: u32,
    pub paused: bool,
}

/// `a + b`, held at the largest `u64`.
pub open spec fn saturating_sum(a: int, b: int) -> int {
    if a + b > u64::MAX {
        u64::MAX as int
    } else {
        a + b
    }
}

/// The state after the frame's time has been credited, if it had not been yet:
/// the frame's delta when running, one `DELTA_TIME` per queued step when paused.
pub open spec fn credit_time(s: XpbdLoop, delta: u64) -> XpbdLoop {
    if s.has_added_time {
        s
    } else {
        let amount: int = if s.paused {
            DELTA_TIME * s.queued_steps
        } else {
            delta as int
        };
        XpbdLoop {
            has_added_time: true,
            accumulator: saturating_sum(s.accumulator as int, amount) as u64,
            ..s
        }
    }
}

/// The state after a whole step has been completed: one queued step is
/// consumed when paused, one `DELTA_TIME` is paid from the accumulator
/// otherwise, and the substep counter is reset.
pub open spec fn finish_step(s: XpbdLoop) -> XpbdLoop {
    if s.paused && s.queued_steps > 0 {
        XpbdLoop {
            queued_steps: (s.queued_steps - 1) as u32,
            current_substep: 0,
            substepping: false,
            ..s
        }
    } else {
        XpbdLoop {
            accumulator: (s.accumulator - DELTA_TIME) as u64,
            current_substep: 0,
            substepping: false,
            ..s
        }
    }
}

/// The state in which a poll leaves the scheduler.
pub open spec fn poll_state(s: XpbdLoop, delta: u64) -> XpbdLoop {
    if s.paused && s.queued_steps == 0 {
        s
    } else {
        let credited = credit_time(s, delta);
        if credited.substepping && credited.current_substep + 1 < NUM_SUBSTEPS {
            XpbdLoop { current_substep: (credited.current_substep + 1) as u32, ..credited }
        } else {
            let idle = if credited.substepping {
                finish_step(credited)
            } else {
                credited
            };
            if idle.accumulator >= DELTA_TIME {
                XpbdLoop { substepping: true, current_substep: 0, ..idle }
            } else {
                XpbdLoop { has_added_time: false, ..idle }
            }
        }
    }
}

/// The answer of a poll: `YesAndCheckAgain` exactly when a substep is to run.
pub open spec fn poll_answer(s: XpbdLoop, delta: u64) -> ShouldRun {
    if s.paused && s.queued_steps == 0 {
        ShouldRun::No
    } else {
        let credited = credit_time(s, delta);
        if credited.substepping && credited.current_substep + 1 < NUM_SUBSTEPS {
            ShouldRun::YesAndCheckAgain
        } else {
            let idle = if credited.substepping {
                finish_step(credited)
            } else {
                credited
            };
            if idle.accumulator >= DELTA_TIME {
                ShouldRun::YesAndCheckAgain
            } else {
                ShouldRun::No
            }
        }
    }
}

impl XpbdLoop {
    /// A step in progress has been paid for, and its substep counter is in range.
    pub open spec fn wf(self) -> bool {
        &&& self.current_substep < NUM_SUBSTEPS
        &&& self.substepping ==> self.accumulator >= DELTA_TIME
        &&& !self.substepping ==> self.current_substep == 0
    }

    /// The scheduler at rest: running, nothing accumulated, nothing queued.
    pub open spec fn initial() -> XpbdLoop {
        XpbdLoop {
            has_added_time: false,
            accumulator: 0,
            substepping: false,
            current_substep: 0,
            queued_steps: 0,
            paused: false,
        }
    }

    /// Whether the state is well formed.
    pub fn is_wf(&self) -> (ok: bool)
        ensures
            ok == self.wf(),
    {
        self.current_substep < NUM_SUBSTEPS && (!self.substepping || self.accumulator
            >= DELTA_TIME) && (self.substepping || self.current_substep == 0)
    }

    pub fn new() -> (s: XpbdLoop)
        ensures
            s == Self::initial(),
            s.wf(),
    {
        XpbdLoop {
            has_added_time: false,
            accumulator: 0,
            substepping: false,
            current_substep: 0,
            queued_steps: 0,
            paused: false,
        }
    }

    /// Queues one more single step to run while paused.
    pub fn _step(&mut self)
        requires
            old(self).queued_steps < u32::MAX,
        ensures
            *final(self) == (XpbdLoop { queued_steps: (old(self).queued_steps + 1) as u32, ..*old(self) }),
    {
        self.queued_steps = self.queued_steps + 1;
    }

    pub fn _pause(&mut self)
        ensures
            *final(self) == (XpbdLoop { paused: true, ..*old(self) }),
    {
        self.paused = true;
    }

    pub fn _resume(&mut self)
        ensures
            *final(self) == (XpbdLoop { paused: false, ..*old(self) }),
    {
        self.paused = false;
    }
}

impl Default for XpbdLoop {
    fn default() -> (s: XpbdLoop)
        ensures
            s == XpbdLoop::initial(),
    {
        XpbdLoop::new()
    }
}

/// Polls the scheduler once. `delta` is the frame's wall-clock time in
/// nanoseconds; it is credited on the first poll of a frame only.
pub fn run_criteria(delta: u64, state: &mut XpbdLoop) -> (answer: ShouldRun)
    requires
        old(state).wf(),
    ensures
        final(state).wf(),
        *final(state) == poll_state(*old(state), delta),
        answer == poll_answer(*old(state), delta),
{
    if state.paused && state.queued_steps == 0 {
        return ShouldRun::No;
    }
    if !state.has_added_time {
        state.has_added_time = true;
        if state.paused {
            let queued: u64 = state.queued_steps as u64;
            assert(DELTA_TIME * queued <= 16_666_667 * 0xffff_ffff) by (nonlinear_arith)
                requires
                    queued <= 0xffff_ffff,
            ;
            state.accumulator = state.accumulator.saturating_add(DELTA_TIME * queued);
        } else {
            state.accumulator = state.accumulator.saturating_add(delta);
        }
    }
    if state.substepping {
        if state.current_substep < NUM_SUBSTEPS - 1 {
            state.current_substep = state.current_substep + 1;
            return ShouldRun::YesAndCheckAgain;
        }
        if state.paused && state.queued_steps > 0 {
            state.queued_steps = state.queued_steps - 1;
        } else {
            state.accumulator = state.accumulator - DELTA_TIME;
        }
        state.current_substep = 0;
        state.substepping = false;
    }
    if state.accumulator >= DELTA_TIME {
        state.substepping = true;
        state.current_substep = 0;
        ShouldRun::YesAndCheckAgain
    } else {
        state.has_added_time = false;
        ShouldRun::No
    }
}

/// `Yes` on the first substep of a step, when the broad phase is refreshed.
pub fn first_substep(state: &XpbdLoop) -> (answer: ShouldRun)
    ensures
        answer == if state.current_substep == 0 {
            ShouldRun::Yes
        } else {
            ShouldRun::No
        },
{
    if state.current_substep == 0 {
        ShouldRun::Yes
    } else {
        ShouldRun::No
    }
}

/// `Yes` on the last substep of a step, when positions are published.
pub fn last_substep(state: &XpbdLoop) -> (answer: ShouldRun)
    ensures
        answer == if state.current_substep == NUM_SUBSTEPS - 1 {
            ShouldRun::Yes
        } else {
            ShouldRun::No
        },
{
    if state.current_substep == NUM_SUBSTEPS - 1 {
        ShouldRun::Yes
    } else {
        ShouldRun::No
    }
}

/// An upper bound on the substeps that the rest of the frame can still run:
/// whole steps that are paid for or queued, and what is left of the step in
/// progress.
pub open spec fn budget(s: XpbdLoop, delta: u64) -> nat {
    let c = credit_time(s, delta);
    let steps: int = if c.paused {
        c.queued_steps as int
    } else {
        c.accumulator as int / DELTA_TIME as int
    };
    let within: int = if c.substepping {
        NUM_SUBSTEPS - c.current_substep
    } else {
        NUM_SUBSTEPS + 1
    };
    (steps * (NUM_SUBSTEPS + 2) + within) as nat
}

/// The number of substeps that run in a frame that starts in state `s`: the
/// polls that are answered `YesAndCheckAgain` before the first `No`.
pub open spec fn frame_substeps(s: XpbdLoop, delta: u64) -> nat
    decreases budget(s, delta),
    when s.wf()
    via frame_substeps_decreases
{
    if poll_answer(s, delta) == ShouldRun::YesAndCheckAgain {
        1 + frame_substeps(poll_state(s, delta), delta)
    } else {
        0
    }
}

#[via_fn]
proof fn frame_substeps_decreases(s: XpbdLoop, delta: u64) {
    lemma_poll_spends_budget(s, delta);
}

/// The state in which a frame that starts in state `s` leaves the scheduler.
pub open spec fn frame_end(s: XpbdLoop, delta: u64) -> XpbdLoop
    decreases budget(s, delta),
    when s.wf()
    via frame_end_decreases
{
    if poll_answer(s, delta) == ShouldRun::YesAndCheckAgain {
        frame_end(poll_state(s, delta), delta)
    } else {
        poll_state(s, delta)
    }
}

#[via_fn]
proof fn frame_end_decreases(s: XpbdLoop, delta: u64) {
    lemma_poll_spends_budget(s, delta);
}

/// A poll keeps the state well formed, and one that lets a substep run
/// spends budget: a frame ends after finitely many polls.
pub proof fn lemma_poll_spends_budget(s: XpbdLoop, delta: u64)
    requires
        s.wf(),
    ensures
        poll_state(s, delta).wf(),
        poll_answer(s, delta) != ShouldRun::Yes,
        poll_answer(s, delta) == ShouldRun::YesAndCheckAgain ==> budget(poll_state(s, delta), delta)
            < budget(s, delta),
{
}

/// The total number of substeps that run over a sequence of frames.
pub open spec fn frames_substeps(s: XpbdLoop, deltas: Seq<u64>) -> nat
    decreases deltas.len(),
{
    if deltas.len() == 0 {
        0
    } else {
        frame_substeps(s, deltas[0]) + frames_substeps(frame_end(s, deltas[0]), deltas.skip(1))
    }
}

/// The state after a sequence of frames.
pub open spec fn frames_end(s: XpbdLoop, deltas: Seq<u64>) -> XpbdLoop
    decreases deltas.len(),
{
    if deltas.len() == 0 {
        s
    } else {
        frames_end(frame_end(s, deltas[0]), deltas.skip(1))
    }
}

/// The sum of a sequence of frame times.
pub open spec fn total_time(deltas: Seq<u64>) -> int
    decreases deltas.len(),
{
    if deltas.len() == 0 {
        0
    } else {
        deltas[0] + total_time(deltas.skip(1))
    }
}

/// The scheduler between frames while running: no step in progress, less than
/// one step's time carried over, the frame's time not yet credited.
pub open spec fn at_rest(s: XpbdLoop) -> bool {
    &&& s.wf()
    &&& !s.paused
    &&& !s.substepping
    &&& !s.has_added_time
    &&& s.accumulator < DELTA_TIME
}

/// Once the frame's time is credited, a running scheduler completes the step
/// in progress and then one whole step for every `DELTA_TIME` that the
/// accumulator still holds; it keeps the remainder.
pub proof fn lemma_credited_frame(s: XpbdLoop, delta: u64)
    requires
        s.wf(),
        !s.paused,
        s.has_added_time,
    ensures
        frame_substeps(s, delta) == if s.substepping {
            NUM_SUBSTEPS - 1 - s.current_substep + NUM_SUBSTEPS * (s.accumulator as int
                / DELTA_TIME as int - 1)
        } else {
            NUM_SUBSTEPS * (s.accumulator as int / DELTA_TIME as int)
        },
        frame_end(s, delta) == (XpbdLoop {
            accumulator: (s.accumulator as int % DELTA_TIME as int) as u64,
            substepping: false,
            current_substep: 0,
            has_added_time: false,
            ..s
        }),
    decreases budget(s, delta),
{
    lemma_poll_spends_budget(s, delta);
    if poll_answer(s, delta) == ShouldRun::YesAndCheckAgain {
        lemma_credited_frame(poll_state(s, delta), delta);
    }
}

/// A frame of a scheduler at rest runs `NUM_SUBSTEPS` substeps for every whole
/// `DELTA_TIME` in the accumulated time, and carries the remainder over.
pub proof fn lemma_frame_runs_whole_steps(s: XpbdLoop, delta: u64)
    requires
        at_rest(s),
        s.accumulator + delta <= u64::MAX,
    ensures
        frame_substeps(s, delta) == NUM_SUBSTEPS * ((s.accumulator + delta) / DELTA_TIME as int),
        frame_end(s, delta) == (XpbdLoop {
            accumulator: ((s.accumulator + delta) % DELTA_TIME as int) as u64,
            ..s
        }),
        at_rest(frame_end(s, delta)),
{
    lemma_poll_spends_budget(s, delta);
    if poll_answer(s, delta) == ShouldRun::YesAndCheckAgain {
        lemma_credited_frame(poll_state(s, delta), delta);
    }
}

/// Over any sequence of frames, a scheduler at rest runs `NUM_SUBSTEPS`
/// substeps for every whole `DELTA_TIME` in the total time, however the time
/// is divided among the frames.
pub proof fn lemma_frames_run_whole_steps(s: XpbdLoop, deltas: Seq<u64>)
    requires
        at_rest(s),
        s.accumulator + total_time(deltas) <= u64::MAX,
    ensures
        frames_substeps(s, deltas) == NUM_SUBSTEPS * ((s.accumulator + total_time(deltas))
            / DELTA_TIME as int),
        frames_end(s, deltas) == (XpbdLoop {
            accumulator: ((s.accumulator + total_time(deltas)) % DELTA_TIME as int) as u64,
            ..s
        }),
    decreases deltas.len(),
{
    if deltas.len() > 0 {
        lemma_total_time_nonnegative(deltas.skip(1));
        lemma_frame_runs_whole_steps(s, deltas[0]);
        lemma_frames_run_whole_steps(frame_end(s, deltas[0]), deltas.skip(1));
    }
}

/// Frame times do not go back.
pub proof fn lemma_total_time_nonnegative(deltas: Seq<u64>)
    ensures
        total_time(deltas) >= 0,
    decreases deltas.len(),
{
    if deltas.len() > 0 {
        lemma_total_time_nonnegative(deltas.skip(1));
    }
}

/// Scheduler determinism: frames whose times sum to exactly `steps` times
/// `DELTA_TIME` run exactly `steps * NUM_SUBSTEPS` substeps from the initial
/// state, whatever the individual frame times are.
pub proof fn lemma_scheduler_determinism(deltas: Seq<u64>, steps: nat)
    requires
        total_time(deltas) == steps * DELTA_TIME,
        steps * DELTA_TIME <= u64::MAX,
    ensures
        frames_substeps(XpbdLoop::initial(), deltas) == steps * NUM_SUBSTEPS,
        frames_end(XpbdLoop::initial(), deltas) == XpbdLoop::initial(),
{
    lemma_frames_run_whole_steps(XpbdLoop::initial(), deltas);
}

/// A frame runs no more substeps than its budget, which fits in 64 bits.
pub proof fn lemma_frame_within_budget(s: XpbdLoop, delta: u64)
    requires
        s.wf(),
    ensures
        frame_substeps(s, delta) <= budget(s, delta) <= u64::MAX,
        frame_end(s, delta).wf(),
    decreases budget(s, delta),
{
    lemma_poll_spends_budget(s, delta);
    if poll_answer(s, delta) == ShouldRun::YesAndCheckAgain {
        lemma_frame_within_budget(poll_state(s, delta), delta);
    }
}

/// The most time that the accumulator may hold for a frame to run no more
/// than `max_steps` steps: that many steps and one nanosecond less than one
/// more.
pub open spec fn catch_up_limit(max_steps: u32) -> int {
    max_steps * DELTA_TIME + (DELTA_TIME - 1)
}

/// The part of `delta` that fits under the catch-up limit: all of it when
/// the accumulated time stays within the limit, what is left up to the limit
/// otherwise.
pub open spec fn clamped_delta(accumulator: u64, delta: u64, max_steps: u32) -> int {
    if accumulator + delta <= catch_up_limit(max_steps) {
        delta as int
    } else if accumulator <= catch_up_limit(max_steps) {
        catch_up_limit(max_steps) - accumulator
    } else {
        0
    }
}

/// Cuts a frame time down so that the frame runs at most `max_steps` whole
/// steps. What is cut off is lost: simulated time falls behind by it.
pub fn clamp_delta(state: &XpbdLoop, delta: u64, max_steps: u32) -> (clamped: u64)
    ensures
        clamped == clamped_delta(state.accumulator, delta, max_steps),
        clamped <= delta,
{
    let steps: u64 = max_steps as u64;
    assert(steps * DELTA_TIME <= 0xffff_ffff * 16_666_667) by (nonlinear_arith)
        requires
            steps <= 0xffff_ffff,
            DELTA_TIME == 16_666_667,
    ;
    let limit: u64 = steps * DELTA_TIME + (DELTA_TIME - 1);
    if state.accumulator > limit {
        0
    } else if delta <= limit - state.accumulator {
        delta
    } else {
        limit - state.accumulator
    }
}

/// A frame of a scheduler at rest whose time went through `clamp_delta` runs
/// at most `max_steps` steps, and it runs what an unclamped frame runs
/// whenever that is no more than `max_steps` steps.
pub proof fn lemma_clamped_frame(s: XpbdLoop, delta: u64, max_steps: u32)
    requires
        at_rest(s),
    ensures
        ({
            let clamped = clamped_delta(s.accumulator, delta, max_steps) as u64;
            &&& clamped == clamped_delta(s.accumulator, delta, max_steps)
            &&& frame_substeps(s, clamped) <= max_steps * NUM_SUBSTEPS
            &&& (s.accumulator + delta) / DELTA_TIME as int <= max_steps ==> clamped == delta
        }),
{
    let clamped = clamped_delta(s.accumulator, delta, max_steps) as u64;
    lemma_frame_runs_whole_steps(s, clamped);
}

} // verus!
