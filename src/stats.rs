//! Running frame-rate statistics over a window of frames: the mean of the
//! instantaneous frame rates and the mean idle time, reported and restarted
//! once per window.

use vstd::prelude::*;

verus! {

/// Frames in one averaging window: a minute at sixty frames a second.
pub const WINDOW_FRAMES: u64 = 3600;

/// Nanoseconds in one second, times a thousand: a frame period in nanoseconds
/// divides it into a frame rate in thousandths of a frame per second.
pub const MILLI_FPS_NANOS: u64 = 1_000_000_000_000;

pub open spec fn sum(s: Seq<int>) -> int
    decreases s.len(),
{
    if s.len() == 0 {
        0
    } else {
        sum(s.drop_last()) + s.last()
    }
}

/// The running mean that the update `avg' = avg + (x - avg) / n` keeps over the
/// samples `s`, in exact arithmetic, as a fraction `(numerator, denominator)`.
pub open spec fn incremental_mean(s: Seq<int>) -> (int, int)
    decreases s.len(),
{
    if s.len() == 0 {
        (0, 1)
    } else {
        let prev = incremental_mean(s.drop_last());
        let n = s.len() as int;
        // prev.0 / prev.1 + (x - prev.0 / prev.1) / n
        (prev.0 * (n - 1) + s.last() * prev.1, prev.1 * n)
    }
}

/// The incremental mean of one or more samples is their arithmetic mean: its
/// fraction equals `sum(s) / s.len()`, and so does its whole part.
pub proof fn lemma_incremental_mean_is_mean(s: Seq<int>)
    requires
        s.len() >= 1,
    ensures
        incremental_mean(s).1 > 0,
        incremental_mean(s).0 * s.len() == sum(s) * incremental_mean(s).1,
        incremental_mean(s).0 / incremental_mean(s).1 == sum(s) / (s.len() as int),
{
    lemma_incremental_mean_fraction(s);
    let (p, q) = incremental_mean(s);
    let n = s.len() as int;
    let t = sum(s);
    lemma_same_fraction_same_floor(p, q, t, n);
}

proof fn lemma_incremental_mean_fraction(s: Seq<int>)
    ensures
        incremental_mean(s).1 > 0,
        incremental_mean(s).0 * s.len() == sum(s) * incremental_mean(s).1,
    decreases s.len(),
{
    if s.len() > 0 {
        let rest = s.drop_last();
        lemma_incremental_mean_fraction(rest);
        let (p0, q0) = incremental_mean(rest);
        let m = rest.len() as int;
        let x = s.last();
        let t0 = sum(rest);
        assert(((p0 * m + x * q0) * (m + 1)) == (t0 + x) * (q0 * (m + 1))) by (nonlinear_arith)
            requires
                p0 * m == t0 * q0,
        ;
        assert(q0 * (m + 1) > 0) by (nonlinear_arith)
            requires
                q0 > 0,
                m >= 0,
        ;
    }
}

proof fn lemma_same_fraction_same_floor(p: int, q: int, t: int, n: int)
    requires
        q > 0,
        n > 0,
        p * n == t * q,
    ensures
        p / q == t / n,
{
    let a = p / q;
    let b = t / n;
    assert(p == a * q + p % q && 0 <= p % q < q) by {
        vstd::arithmetic::div_mod::lemma_fundamental_div_mod(p, q);
    }
    assert(t == b * n + t % n && 0 <= t % n < n) by {
        vstd::arithmetic::div_mod::lemma_fundamental_div_mod(t, n);
    }
    let r = p % q;
    let u = t % n;
    // p * n == t * q gives (a - b) * q * n == u * q - r * n, whose size is under q * n.
    assert(a == b) by (nonlinear_arith)
        requires
            p == a * q + r,
            t == b * n + u,
            0 <= r < q,
            0 <= u < n,
            p * n == t * q,
            q > 0,
            n > 0,
    ;
}

/// The instantaneous frame rate of a frame that lasted `period` nanoseconds, in
/// thousandths of a frame per second. A period under a nanosecond, below the
/// clock's resolution, counts as one nanosecond.
pub open spec fn milli_fps_of(period: int) -> int {
    (MILLI_FPS_NANOS as int) / (if period < 1 { 1 } else { period })
}

pub fn milli_fps(period: u64) -> (r: u64)
    ensures
        r == milli_fps_of(period as int),
        r <= MILLI_FPS_NANOS,
{
    let p: u64 = if period < 1 { 1 } else { period };
    assert(MILLI_FPS_NANOS / p <= MILLI_FPS_NANOS) by (nonlinear_arith)
        requires
            p >= 1,
    ;
    MILLI_FPS_NANOS / p
}

/// The means over one completed window, and the mean time spent working,
/// `target - mean_idle` (zero where the mean idle time exceeds the target).
#[derive(Clone, Copy, Debug, PartialEq, Eq)]
pub struct WindowReport {
    pub mean_milli_fps: u64,
    pub mean_idle: u64,
    pub mean_process: u64,
}

/// The samples of the current window: the frame rate of each frame, in
/// thousandths of a frame per second, and the idle time of each, in nanoseconds.
pub struct FrameStats {
    pub target: u64,
    pub frames: u64,
    pub fps_total: u128,
    pub idle_total: u128,
    pub fps_samples: Ghost<Seq<int>>,
    pub idle_samples: Ghost<Seq<int>>,
}

pub open spec fn all_within(s: Seq<int>, lo: int, hi: int) -> bool {
    forall|i: int| 0 <= i < s.len() ==> lo <= #[trigger] s[i] <= hi
}

pub open spec fn mean(s: Seq<int>) -> int {
    if s.len() == 0 {
        0
    } else {
        sum(s) / (s.len() as int)
    }
}

pub open spec fn report_of(target: int, fps: Seq<int>, idle: Seq<int>) -> WindowReport {
    WindowReport {
        mean_milli_fps: mean(fps) as u64,
        mean_idle: mean(idle) as u64,
        mean_process: (if mean(idle) > target { 0 } else { target - mean(idle) }) as u64,
    }
}

proof fn lemma_sum_bounds(s: Seq<int>, hi: int)
    requires
        all_within(s, 0, hi),
    ensures
        0 <= sum(s) <= s.len() * hi,
    decreases s.len(),
{
    if s.len() > 0 {
        let rest = s.drop_last();
        assert(all_within(rest, 0, hi)) by {
            assert forall|i: int| 0 <= i < rest.len() implies 0 <= #[trigger] rest[i] <= hi by {
                assert(rest[i] == s[i]);
            }
        }
        lemma_sum_bounds(rest, hi);
        assert((rest.len() + 1) * hi == rest.len() * hi + hi) by (nonlinear_arith);
    }
}

proof fn lemma_mean_bounds(s: Seq<int>, hi: int)
    requires
        all_within(s, 0, hi),
        hi >= 0,
    ensures
        0 <= sum(s) <= s.len() * hi,
        0 <= mean(s) <= hi,
{
    lemma_sum_bounds(s, hi);
    if s.len() > 0 {
        let n = s.len() as int;
        let t = sum(s);
        assert(0 <= t / n <= hi) by (nonlinear_arith)
            requires
                0 <= t <= n * hi,
                n > 0,
        ;
    }
}

proof fn lemma_push_keeps_within(s: Seq<int>, x: int, lo: int, hi: int)
    requires
        all_within(s, lo, hi),
        lo <= x <= hi,
    ensures
        all_within(s.push(x), lo, hi),
{
    assert forall|i: int| 0 <= i < s.push(x).len() implies lo <= #[trigger] s.push(x)[i] <= hi by {
        if i < s.len() {
            assert(s.push(x)[i] == s[i]);
        }
    }
}

impl FrameStats {
    pub open spec fn wf(&self) -> bool {
        &&& self.frames == self.fps_samples@.len()
        &&& self.frames == self.idle_samples@.len()
        &&& self.frames < WINDOW_FRAMES
        &&& self.fps_total == sum(self.fps_samples@)
        &&& self.idle_total == sum(self.idle_samples@)
        &&& all_within(self.fps_samples@, 0, MILLI_FPS_NANOS as int)
        &&& all_within(self.idle_samples@, 0, u64::MAX as int)
    }

    pub fn new(target: u64) -> (s: FrameStats)
        ensures
            s.wf(),
            s.target == target,
            s.fps_samples@ == Seq::<int>::empty(),
            s.idle_samples@ == Seq::<int>::empty(),
    {
        FrameStats {
            target,
            frames: 0,
            fps_total: 0,
            idle_total: 0,
            fps_samples: Ghost(Seq::empty()),
            idle_samples: Ghost(Seq::empty()),
        }
    }

    /// The mean frame rate of the window so far, in thousandths of a frame per
    /// second; zero before the first frame.
    pub fn mean_milli_fps(&self) -> (r: u64)
        requires
            self.wf(),
        ensures
            r == mean(self.fps_samples@),
    {
        proof {
            lemma_mean_bounds(self.fps_samples@, MILLI_FPS_NANOS as int);
        }
        if self.frames == 0 {
            0
        } else {
            (self.fps_total / (self.frames as u128)) as u64
        }
    }

    /// Records a frame that lasted `period` nanoseconds and idled `idle` of them.
    /// The frame that completes a window yields the window's report, and the
    /// next window starts empty.
    pub fn record(&mut self, period: u64, idle: u64) -> (report: Option<WindowReport>)
        requires
            old(self).wf(),
        ensures
            final(self).wf(),
            final(self).target == old(self).target,
            ({
                let fps = old(self).fps_samples@.push(milli_fps_of(period as int));
                let idles = old(self).idle_samples@.push(idle as int);
                if fps.len() == WINDOW_FRAMES {
                    &&& report == Some(report_of(old(self).target as int, fps, idles))
                    &&& report.unwrap().mean_milli_fps == incremental_mean(fps).0 / incremental_mean(fps).1
                    &&& final(self).fps_samples@ == Seq::<int>::empty()
                    &&& final(self).idle_samples@ == Seq::<int>::empty()
                } else {
                    &&& report is None
                    &&& final(self).fps_samples@ == fps
                    &&& final(self).idle_samples@ == idles
                }
            }),
    {
        let sample = milli_fps(period);
        let ghost fps = self.fps_samples@.push(sample as int);
        let ghost idles = self.idle_samples@.push(idle as int);
        proof {
            lemma_push_keeps_within(self.fps_samples@, sample as int, 0, MILLI_FPS_NANOS as int);
            lemma_push_keeps_within(self.idle_samples@, idle as int, 0, u64::MAX as int);
            lemma_mean_bounds(fps, MILLI_FPS_NANOS as int);
            lemma_mean_bounds(idles, u64::MAX as int);
            assert(fps.drop_last() =~= self.fps_samples@);
            assert(idles.drop_last() =~= self.idle_samples@);
            assert(fps.len() * (MILLI_FPS_NANOS as int) <= WINDOW_FRAMES * MILLI_FPS_NANOS) by (nonlinear_arith)
                requires fps.len() <= WINDOW_FRAMES;
            assert(idles.len() * (u64::MAX as int) <= WINDOW_FRAMES * u64::MAX) by (nonlinear_arith)
                requires idles.len() <= WINDOW_FRAMES;
        }
        let frames = self.frames + 1;
        let fps_total = self.fps_total + sample as u128;
        let idle_total = self.idle_total + idle as u128;
        if frames == WINDOW_FRAMES {
            let mean_fps = (fps_total / (frames as u128)) as u64;
            let mean_idle = (idle_total / (frames as u128)) as u64;
            let mean_process = if mean_idle > self.target { 0 } else { self.target - mean_idle };
            proof {
                lemma_incremental_mean_is_mean(fps);
            }
            self.frames = 0;
            self.fps_total = 0;
            self.idle_total = 0;
            self.fps_samples = Ghost(Seq::empty());
            self.idle_samples = Ghost(Seq::empty());
            Some(WindowReport { mean_milli_fps: mean_fps, mean_idle, mean_process })
        } else {
            self.frames = frames;
            self.fps_total = fps_total;
            self.idle_total = idle_total;
            self.fps_samples = Ghost(fps);
            self.idle_samples = Ghost(idles);
            None
        }
    }
}

} // verus!
