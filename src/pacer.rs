//! The frame pacer: how long to idle after a frame's work, and by how much the
//! work overran its budget.

use vstd::prelude::*;

verus! {

/// Nanoseconds in one millisecond.
pub const NANOS_PER_MILLI: u64 = 1_000_000;

/// One sixtieth of a second, truncated to whole nanoseconds.
pub const TARGET_FRAME_NANOS: u64 = 16_666_666;

/// What to do after a frame's work: idle for `sleep_for` nanoseconds, and, when
/// the work took at least the whole budget, by how much it went over.
#[derive(Clone, Copy, Debug, PartialEq, Eq)]
pub struct FramePlan {
    pub sleep_for: u64,
    pub overrun: Option<u64>,
}

/// A pacer for a fixed frame budget of `target` nanoseconds.
#[derive(Clone, Copy, Debug, PartialEq, Eq)]
pub struct FramePacer {
    pub target: u64,
}

/// The plan for a frame whose work took `elapsed` nanoseconds of a budget of
/// `target`: idle for the rest of the budget, or, with none left, report the
/// overrun and do not idle.
pub open spec fn plan_of(target: u64, elapsed: u64) -> FramePlan {
    if elapsed < target {
        FramePlan { sleep_for: (target - elapsed) as u64, overrun: None }
    } else {
        FramePlan { sleep_for: 0, overrun: Some((elapsed - target) as u64) }
    }
}

impl FramePacer {
    pub fn new(target: u64) -> (p: FramePacer)
        ensures
            p.target == target,
    {
        FramePacer { target }
    }

    /// A pacer for sixty frames a second.
    pub fn sixty_hz() -> (p: FramePacer)
        ensures
            p.target == TARGET_FRAME_NANOS,
    {
        FramePacer { target: TARGET_FRAME_NANOS }
    }

    /// Plans the idle time after a frame whose work took `elapsed` nanoseconds.
    pub fn plan(&self, elapsed: u64) -> (p: FramePlan)
        ensures
            p == plan_of(self.target, elapsed),
    {
        if elapsed < self.target {
            FramePlan { sleep_for: self.target - elapsed, overrun: None }
        } else {
            FramePlan { sleep_for: 0, overrun: Some(elapsed - self.target) }
        }
    }
}


/// The plan is the rest of the budget with no overrun while the work fits in
/// it, and no idle time with the excess as overrun once it does not.
pub proof fn lemma_plan_splits_budget(target: u64, elapsed: u64)
    ensures
        elapsed < target ==> plan_of(target, elapsed).sleep_for == target - elapsed
            && plan_of(target, elapsed).overrun is None,
        elapsed >= target ==> plan_of(target, elapsed).sleep_for == 0
            && plan_of(target, elapsed).overrun == Some((elapsed - target) as u64),
        elapsed + plan_of(target, elapsed).sleep_for >= target,
{
}

} // verus!
