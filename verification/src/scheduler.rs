//! The cycle scheduler's state machine: one cycle at a time, started on a
//! fixed tick, back to idle whether the cycle succeeded or failed.

use vstd::prelude::*;

verus! {

/// Whether a cycle is in flight. Only one scheduler exists per process, so
/// this state alone enforces that cycles never overlap.
#[derive(Clone, Copy, Debug, PartialEq, Eq, Structural)]
pub enum SchedulerState {
    Idle,
    Running,
}

/// Reacts to an interval tick: a cycle starts only from `Idle`; a tick that
/// lands while a cycle is still in flight starts nothing and is not made
/// up for later.
pub fn on_tick(state: SchedulerState) -> (r: (SchedulerState, bool))
    ensures
        r.0 == SchedulerState::Running,
        r.1 == (state == SchedulerState::Idle),
{
    match state {
        SchedulerState::Idle => (SchedulerState::Running, true),
        SchedulerState::Running => (SchedulerState::Running, false),
    }
}

/// Ends the in-flight cycle: the scheduler returns to `Idle`
/// unconditionally, whether the cycle succeeded or failed, so one failed
/// cycle never blocks the next tick.
pub fn on_cycle_end(state: SchedulerState) -> (r: SchedulerState)
    ensures
        r == SchedulerState::Idle,
{
    let _ = state;
    SchedulerState::Idle
}

} // verus!
