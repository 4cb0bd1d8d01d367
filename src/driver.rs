//! The two loop drivers, as state machines that the environment runs. Each
//! frame the environment calls the step, hands the driver the step's result and
//! the clock's readings, and performs the action the driver returns: the
//! blocking driver asks for a thread sleep or for the process to end, the
//! host-driven driver never blocks and asks at most to be deregistered.

use vstd::prelude::*;
use crate::pacer::{FramePacer, FramePlan, plan_of, NANOS_PER_MILLI};
use crate::stats::{FrameStats, WindowReport, milli_fps_of, report_of};

verus! {

/// What one call of the step asks of the driver.
#[derive(Clone, Copy, Debug, PartialEq, Eq)]
pub enum Flow {
    Continue,
    Stop,
}

#[derive(Clone, Copy, Debug, PartialEq, Eq)]
pub enum Phase {
    Running,
    Terminated,
}

/// The phase after a step that returned `flow`: a stop terminates the run, and
/// a terminated run stays terminated.
pub open spec fn phase_after(phase: Phase, flow: Flow) -> Phase {
    if phase is Terminated || flow is Stop {
        Phase::Terminated
    } else {
        Phase::Running
    }
}

/// The phase after steps that returned `flows`, in order, from `phase`.
pub open spec fn phase_after_all(phase: Phase, flows: Seq<Flow>) -> Phase
    decreases flows.len(),
{
    if flows.len() == 0 {
        phase
    } else {
        phase_after(phase_after_all(phase, flows.drop_last()), flows.last())
    }
}

/// Once a step has returned `Stop`, the run is terminated for good: whatever
/// later steps would have returned, the driver lets no further step run.
pub proof fn lemma_stop_is_final(flows: Seq<Flow>, i: int, j: int)
    requires
        0 <= i < j <= flows.len(),
        flows[i] is Stop,
    ensures
        phase_after_all(Phase::Running, flows.take(j)) is Terminated,
    decreases j,
{
    let prefix = flows.take(j);
    assert(prefix.drop_last() =~= flows.take(j - 1));
    if j - 1 > i {
        lemma_stop_is_final(flows, i, j - 1);
    } else {
        assert(prefix.last() == flows[i]);
    }
}

/// The whole milliseconds of `nanos`, held at `u32::MAX`.
pub open spec fn whole_millis(nanos: u64) -> u32 {
    if nanos / NANOS_PER_MILLI > u32::MAX {
        u32::MAX
    } else {
        (nanos / NANOS_PER_MILLI) as u32
    }
}

/// The nanoseconds that a pause of `ms` milliseconds lasts: what the blocking
/// driver's `Sleep` action asks the environment's sleep to wait.
pub fn sleep(ms: u32) -> (nanos: u64)
    ensures
        nanos == ms * NANOS_PER_MILLI,
{
    ms as u64 * NANOS_PER_MILLI
}

/// What the blocking driver asks of the environment after a step.
#[derive(Clone, Copy, Debug, PartialEq, Eq)]
pub enum BlockingAction {
    /// Block the thread for `millis` milliseconds, then start the next frame.
    Sleep { millis: u32 },
    /// End the process now.
    Exit,
}

/// The driver's answer after a step: the action, and the overrun to report.
#[derive(Clone, Copy, Debug, PartialEq, Eq)]
pub struct FrameOutcome {
    pub action: BlockingAction,
    pub overrun: Option<u64>,
}

pub open spec fn elapsed_between(start: u64, end: u64) -> u64 {
    if end >= start {
        (end - start) as u64
    } else {
        0
    }
}

fn elapsed_nanos(start: u64, end: u64) -> (r: u64)
    ensures
        r == elapsed_between(start, end),
{
    if end >= start {
        end - start
    } else {
        0
    }
}

/// The driver that owns its loop: between frames it has the thread sleep for
/// the rest of the frame budget.
pub struct BlockingDriver {
    pub phase: Phase,
    pub pacer: FramePacer,
    pub stats: FrameStats,
    /// When the current frame's work began.
    pub frame_start: u64,
    /// When the previous frame ended, after its idle time.
    pub prev_frame_end: u64,
    /// The idle time planned for the current frame.
    pub idle: u64,
}

impl BlockingDriver {
    pub open spec fn wf(&self) -> bool {
        &&& self.stats.wf()
        &&& self.stats.target == self.pacer.target
    }

    /// A running driver with budget `pacer`, started at clock reading `now`.
    pub fn new(pacer: FramePacer, now: u64) -> (d: BlockingDriver)
        ensures
            d.wf(),
            d.phase is Running,
            d.pacer == pacer,
            d.prev_frame_end == now,
            d.stats.fps_samples@.len() == 0,
    {
        BlockingDriver {
            phase: Phase::Running,
            pacer,
            stats: FrameStats::new(pacer.target),
            frame_start: now,
            prev_frame_end: now,
            idle: 0,
        }
    }

    /// Starts a frame at clock reading `now`; false, and the step must not be
    /// called, once the run is terminated.
    pub fn begin_frame(&mut self, now: u64) -> (go: bool)
        requires
            old(self).wf(),
        ensures
            final(self).wf(),
            go == (old(self).phase is Running),
            final(self).phase == old(self).phase,
            final(self).stats == old(self).stats,
            final(self).pacer == old(self).pacer,
            final(self).prev_frame_end == old(self).prev_frame_end,
            go ==> final(self).frame_start == now,
    {
        match self.phase {
            Phase::Running => {
                self.frame_start = now;
                true
            },
            Phase::Terminated => false,
        }
    }

    /// Takes the step's result at clock reading `now`, after its work. A stop
    /// ends the run; otherwise the driver plans the frame's idle time.
    pub fn end_frame(&mut self, flow: Flow, now: u64) -> (out: FrameOutcome)
        requires
            old(self).wf(),
        ensures
            final(self).wf(),
            final(self).phase == phase_after(old(self).phase, flow),
            final(self).stats == old(self).stats,
            final(self).pacer == old(self).pacer,
            final(self).prev_frame_end == old(self).prev_frame_end,
            final(self).frame_start == old(self).frame_start,
            final(self).phase is Terminated ==> out == (FrameOutcome {
                action: BlockingAction::Exit,
                overrun: None,
            }),
            final(self).phase is Running ==> {
                let plan = plan_of(old(self).pacer.target, elapsed_between(old(self).frame_start, now));
                &&& out == (FrameOutcome {
                    action: BlockingAction::Sleep { millis: whole_millis(plan.sleep_for) },
                    overrun: plan.overrun,
                })
                &&& final(self).idle == plan.sleep_for
            },
    {
        if matches!(self.phase, Phase::Terminated) || matches!(flow, Flow::Stop) {
            self.phase = Phase::Terminated;
            return FrameOutcome { action: BlockingAction::Exit, overrun: None };
        }
        let plan: FramePlan = self.pacer.plan(elapsed_nanos(self.frame_start, now));
        self.idle = plan.sleep_for;
        let ms = plan.sleep_for / NANOS_PER_MILLI;
        let millis: u32 = if ms > u32::MAX as u64 {
            u32::MAX
        } else {
            ms as u32
        };
        FrameOutcome { action: BlockingAction::Sleep { millis }, overrun: plan.overrun }
    }

    /// Ends the frame at clock reading `now`, after its idle time: records its
    /// frame rate and idle time, and yields the report of a completed window.
    pub fn finish_frame(&mut self, now: u64) -> (report: Option<WindowReport>)
        requires
            old(self).wf(),
        ensures
            final(self).wf(),
            final(self).phase == old(self).phase,
            final(self).pacer == old(self).pacer,
            final(self).prev_frame_end == now,
            ({
                let fps = old(self).stats.fps_samples@.push(
                    milli_fps_of(elapsed_between(old(self).prev_frame_end, now) as int),
                );
                let idles = old(self).stats.idle_samples@.push(old(self).idle as int);
                if fps.len() == crate::stats::WINDOW_FRAMES {
                    &&& report == Some(report_of(old(self).pacer.target as int, fps, idles))
                    &&& final(self).stats.fps_samples@.len() == 0
                } else {
                    &&& report is None
                    &&& final(self).stats.fps_samples@ == fps
                    &&& final(self).stats.idle_samples@ == idles
                }
            }),
    {
        let period = elapsed_nanos(self.prev_frame_end, now);
        self.prev_frame_end = now;
        self.stats.record(period, self.idle)
    }
}

/// What the host-driven driver asks of the host after a step.
#[derive(Clone, Copy, Debug, PartialEq, Eq)]
pub enum HostAction {
    /// Keep the step registered. `idle` is the rest of the frame budget, for
    /// the record only: the host decides when the next tick comes.
    Continue { idle: u64, overrun: Option<u64>, report: Option<WindowReport> },
    /// Remove the step from the host's frame callbacks.
    Deregister,
}

/// The driver for a host that owns the loop and calls the step once per tick.
/// It never blocks; a stop deregisters the step instead of ending the process.
pub struct HostDriver {
    pub phase: Phase,
    pub pacer: FramePacer,
    pub stats: FrameStats,
    /// When the previous tick began.
    pub prev_tick: u64,
}

impl HostDriver {
    pub open spec fn wf(&self) -> bool {
        &&& self.stats.wf()
        &&& self.stats.target == self.pacer.target
    }

    /// A registered driver with budget `pacer`, registered at clock reading `now`.
    pub fn new(pacer: FramePacer, now: u64) -> (d: HostDriver)
        ensures
            d.wf(),
            d.phase is Running,
            d.pacer == pacer,
            d.prev_tick == now,
            d.stats.fps_samples@.len() == 0,
    {
        HostDriver { phase: Phase::Running, pacer, stats: FrameStats::new(pacer.target), prev_tick: now }
    }

    /// Takes the result of the step of a tick whose work ran from clock reading
    /// `start` to `end`.
    pub fn on_tick(&mut self, flow: Flow, start: u64, end: u64) -> (action: HostAction)
        requires
            old(self).wf(),
        ensures
            final(self).wf(),
            final(self).phase == phase_after(old(self).phase, flow),
            final(self).pacer == old(self).pacer,
            final(self).phase is Terminated ==> action is Deregister,
            final(self).phase is Running ==> {
                let plan = plan_of(old(self).pacer.target, elapsed_between(start, end));
                let fps = old(self).stats.fps_samples@.push(
                    milli_fps_of(elapsed_between(old(self).prev_tick, start) as int),
                );
                let idles = old(self).stats.idle_samples@.push(plan.sleep_for as int);
                &&& final(self).prev_tick == start
                &&& action matches HostAction::Continue { idle, overrun, report }
                &&& idle == plan.sleep_for
                &&& overrun == plan.overrun
                &&& if fps.len() == crate::stats::WINDOW_FRAMES {
                    &&& report == Some(report_of(old(self).pacer.target as int, fps, idles))
                    &&& final(self).stats.fps_samples@.len() == 0
                } else {
                    &&& report is None
                    &&& final(self).stats.fps_samples@ == fps
                    &&& final(self).stats.idle_samples@ == idles
                }
            },
    {
        if matches!(self.phase, Phase::Terminated) || matches!(flow, Flow::Stop) {
            self.phase = Phase::Terminated;
            return HostAction::Deregister;
        }
        let plan: FramePlan = self.pacer.plan(elapsed_nanos(start, end));
        let period = elapsed_nanos(self.prev_tick, start);
        self.prev_tick = start;
        let report = self.stats.record(period, plan.sleep_for);
        HostAction::Continue { idle: plan.sleep_for, overrun: plan.overrun, report }
    }
}

} // verus!
