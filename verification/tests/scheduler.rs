use xpbd::consts::{DELTA_TIME, NUM_SUBSTEPS};
use xpbd::xpbd_loop::{
    clamp_delta, first_substep, last_substep, run_criteria, ShouldRun, XpbdLoop,
};

fn run_frame(state: &mut XpbdLoop, delta: u64) -> u32 {
    let mut substeps = 0;
    while run_criteria(delta, state) == ShouldRun::YesAndCheckAgain {
        substeps += 1;
    }
    substeps
}

fn run_frames(deltas: &[u64]) -> (XpbdLoop, u32) {
    let mut state = XpbdLoop::new();
    let mut substeps = 0;
    for delta in deltas {
        substeps += run_frame(&mut state, *delta);
    }
    (state, substeps)
}

#[test]
fn three_steps_in_one_frame() {
    let mut state = XpbdLoop::new();
    assert_eq!(run_frame(&mut state, 3 * DELTA_TIME), 3 * NUM_SUBSTEPS);
    assert_eq!(state, XpbdLoop::new());
}

#[test]
fn three_steps_however_the_time_is_chunked() {
    let chunkings: Vec<Vec<u64>> = vec![
        vec![3 * DELTA_TIME],
        vec![DELTA_TIME, DELTA_TIME, DELTA_TIME],
        vec![1, 3 * DELTA_TIME - 1],
        vec![3 * DELTA_TIME - 1, 1],
        vec![DELTA_TIME / 2, DELTA_TIME, DELTA_TIME, DELTA_TIME - DELTA_TIME / 2],
        vec![0, 2 * DELTA_TIME + 5, 0, DELTA_TIME - 5, 0],
        vec![10_000_000, 10_000_000, 10_000_000, 10_000_000, 10_000_001],
    ];
    for deltas in chunkings {
        assert_eq!(deltas.iter().sum::<u64>(), 3 * DELTA_TIME);
        let (state, substeps) = run_frames(&deltas);
        assert_eq!(substeps, 3 * NUM_SUBSTEPS);
        assert_eq!(state, XpbdLoop::new());
    }
}

#[test]
fn short_frames_accumulate() {
    let mut state = XpbdLoop::new();
    assert_eq!(run_frame(&mut state, DELTA_TIME - 1), 0);
    assert_eq!(state.accumulator, DELTA_TIME - 1);
    assert!(!state.has_added_time);
    assert_eq!(run_frame(&mut state, 2), NUM_SUBSTEPS);
    assert_eq!(state.accumulator, 1);
}

#[test]
fn a_step_runs_its_substeps_in_order() {
    let mut state = XpbdLoop::new();
    for substep in 0..NUM_SUBSTEPS {
        assert_eq!(run_criteria(DELTA_TIME, &mut state), ShouldRun::YesAndCheckAgain);
        assert!(state.substepping);
        assert!(state.has_added_time);
        assert_eq!(state.current_substep, substep);
        assert_eq!(state.accumulator, DELTA_TIME);
        let first = if substep == 0 { ShouldRun::Yes } else { ShouldRun::No };
        let last = if substep == NUM_SUBSTEPS - 1 { ShouldRun::Yes } else { ShouldRun::No };
        assert_eq!(first_substep(&state), first);
        assert_eq!(last_substep(&state), last);
    }
    assert_eq!(run_criteria(DELTA_TIME, &mut state), ShouldRun::No);
    assert_eq!(state, XpbdLoop::new());
}

#[test]
fn the_frame_time_is_credited_once() {
    let mut state = XpbdLoop::new();
    assert_eq!(run_criteria(DELTA_TIME, &mut state), ShouldRun::YesAndCheckAgain);
    // A later poll of the same frame does not add its delta again.
    assert_eq!(run_criteria(5 * DELTA_TIME, &mut state), ShouldRun::YesAndCheckAgain);
    assert_eq!(state.accumulator, DELTA_TIME);
}

#[test]
fn paused_without_queued_steps_does_nothing() {
    let mut state = XpbdLoop::new();
    state._pause();
    let paused = state;
    assert_eq!(run_criteria(10 * DELTA_TIME, &mut state), ShouldRun::No);
    assert_eq!(state, paused);
    state._resume();
    assert!(!state.paused);
    assert_eq!(run_frame(&mut state, DELTA_TIME), NUM_SUBSTEPS);
}

#[test]
fn paused_single_step() {
    let mut state = XpbdLoop::new();
    state._pause();
    state._step();
    assert_eq!(state.queued_steps, 1);
    // The first poll credits one step's time and begins the step.
    assert_eq!(run_criteria(999, &mut state), ShouldRun::YesAndCheckAgain);
    assert_eq!(state.accumulator, DELTA_TIME);
    assert_eq!(state.current_substep, 0);
    for substep in 1..NUM_SUBSTEPS {
        assert_eq!(run_criteria(999, &mut state), ShouldRun::YesAndCheckAgain);
        assert_eq!(state.current_substep, substep);
    }
    // The step is complete: the queued step is consumed, the time is not.
    assert_eq!(run_criteria(999, &mut state), ShouldRun::YesAndCheckAgain);
    assert_eq!(state.queued_steps, 0);
    assert_eq!(state.accumulator, DELTA_TIME);
    assert_eq!(state.current_substep, 0);
    assert!(state.substepping);
    assert_eq!(run_criteria(999, &mut state), ShouldRun::No);
}

#[test]
fn paused_credits_every_queued_step() {
    let mut state = XpbdLoop::new();
    state._pause();
    state._step();
    state._step();
    state._step();
    assert_eq!(run_criteria(0, &mut state), ShouldRun::YesAndCheckAgain);
    assert_eq!(state.accumulator, 3 * DELTA_TIME);
    assert_eq!(state.queued_steps, 3);
}

#[test]
fn accumulator_is_held_at_the_largest_value() {
    let mut state = XpbdLoop::new();
    state.accumulator = u64::MAX - 5;
    assert_eq!(run_criteria(100, &mut state), ShouldRun::YesAndCheckAgain);
    assert_eq!(state.accumulator, u64::MAX);
}

#[test]
fn default_is_the_initial_state() {
    let state = XpbdLoop::default();
    assert_eq!(state, XpbdLoop::new());
    assert!(!state.paused && !state.substepping && !state.has_added_time);
    assert_eq!((state.accumulator, state.current_substep, state.queued_steps), (0, 0, 0));
}

#[test]
fn well_formed_states() {
    let mut state = XpbdLoop::new();
    assert!(state.is_wf());
    run_criteria(DELTA_TIME, &mut state);
    assert!(state.is_wf());
    state.current_substep = NUM_SUBSTEPS;
    assert!(!state.is_wf());
    state.current_substep = 0;
    state.accumulator = DELTA_TIME - 1;
    assert!(!state.is_wf());
    state.substepping = false;
    assert!(state.is_wf());
    state.current_substep = 1;
    assert!(!state.is_wf());
}

#[test]
fn clamped_frames_run_no_more_than_the_limit() {
    let mut state = XpbdLoop::new();
    // A stall of a hundred steps is cut down to four.
    let delta = clamp_delta(&state, 100 * DELTA_TIME, 4);
    assert_eq!(delta, 5 * DELTA_TIME - 1);
    assert_eq!(run_frame(&mut state, delta), 4 * NUM_SUBSTEPS);
    assert_eq!(state.accumulator, DELTA_TIME - 1);
    // With that much carried over, the next frame has room for less.
    assert_eq!(clamp_delta(&state, 100 * DELTA_TIME, 4), 4 * DELTA_TIME);
    // A frame within the limit is not cut.
    assert_eq!(clamp_delta(&state, 2 * DELTA_TIME, 4), 2 * DELTA_TIME);
    assert_eq!(clamp_delta(&state, 0, 0), 0);
    // Nothing fits when the accumulator is over the limit already.
    state.accumulator = 10 * DELTA_TIME;
    assert_eq!(clamp_delta(&state, 5, 4), 0);
    assert_eq!(clamp_delta(&XpbdLoop::new(), u64::MAX, u32::MAX), 71_582_789_698_322_431);
}
