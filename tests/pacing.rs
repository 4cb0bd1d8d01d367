use frame_loop::pacer::{FramePacer, FramePlan, TARGET_FRAME_NANOS};
use frame_loop::sleep;
use frame_loop::stats::{milli_fps, FrameStats, WINDOW_FRAMES};

#[test]
fn plan_under_budget_sleeps_for_the_rest() {
    let pacer = FramePacer::sixty_hz();
    let plan = pacer.plan(10_000_000);
    assert_eq!(plan, FramePlan { sleep_for: 6_666_666, overrun: None });
    let ms = plan.sleep_for as f64 / 1_000_000.0;
    assert!((ms - 6.667).abs() < 0.001);
}

#[test]
fn plan_over_budget_reports_overrun() {
    let pacer = FramePacer::sixty_hz();
    let plan = pacer.plan(20_000_000);
    assert_eq!(plan.sleep_for, 0);
    assert_eq!(plan.overrun, Some(3_333_334));
    let ms = plan.overrun.unwrap() as f64 / 1_000_000.0;
    assert!((ms - 3.333).abs() < 0.001);
}

#[test]
fn plan_at_exact_budget_overruns_by_zero() {
    let pacer = FramePacer::new(1000);
    assert_eq!(pacer.plan(1000), FramePlan { sleep_for: 0, overrun: Some(0) });
    assert_eq!(pacer.plan(999), FramePlan { sleep_for: 1, overrun: None });
    assert_eq!(pacer.plan(0), FramePlan { sleep_for: 1000, overrun: None });
    assert_eq!(pacer.plan(u64::MAX), FramePlan { sleep_for: 0, overrun: Some(u64::MAX - 1000) });
}

#[test]
fn sixty_hz_target_is_a_sixtieth_of_a_second() {
    assert_eq!(TARGET_FRAME_NANOS, 16_666_666);
    assert_eq!(FramePacer::sixty_hz().target, TARGET_FRAME_NANOS);
}

#[test]
fn sleep_converts_millis_to_nanos() {
    assert_eq!(sleep(0), 0);
    assert_eq!(sleep(6), 6_000_000);
    assert_eq!(sleep(u32::MAX), u32::MAX as u64 * 1_000_000);
}

#[test]
fn frame_rate_of_periods() {
    assert_eq!(milli_fps(16_666_666), 60_000);
    assert_eq!(milli_fps(1_000_000_000), 1_000);
    assert_eq!(milli_fps(0), 1_000_000_000_000);
    assert_eq!(milli_fps(1), 1_000_000_000_000);
    assert_eq!(milli_fps(u64::MAX), 0);
}

#[test]
fn running_mean_matches_arithmetic_mean() {
    let periods: [u64; 7] = [16_666_666, 20_000_000, 10_000_000, 33_333_333, 16_000_000, 17_000_000, 8_000_000];
    let mut stats = FrameStats::new(TARGET_FRAME_NANOS);
    let mut incremental = 0f64;
    let mut total: u64 = 0;
    for (i, p) in periods.iter().enumerate() {
        assert_eq!(stats.record(*p, 0), None);
        let sample = milli_fps(*p);
        total += sample;
        let n = (i + 1) as f64;
        incremental = incremental + (sample as f64 - incremental) / n;
        let direct = total as f64 / n;
        assert!((incremental - direct).abs() < 1e-6);
        assert_eq!(stats.mean_milli_fps(), total / (i as u64 + 1));
        assert!((stats.mean_milli_fps() as f64 - incremental).abs() < 1.0);
    }
}

#[test]
fn mean_of_empty_window_is_zero() {
    let stats = FrameStats::new(TARGET_FRAME_NANOS);
    assert_eq!(stats.mean_milli_fps(), 0);
    assert_eq!(stats.frames, 0);
}

#[test]
fn window_reports_and_restarts() {
    let mut stats = FrameStats::new(TARGET_FRAME_NANOS);
    for i in 0..WINDOW_FRAMES - 1 {
        let period = if i % 2 == 0 { 10_000_000 } else { 20_000_000 };
        assert_eq!(stats.record(period, 4_000_000), None);
    }
    let report = stats.record(20_000_000, 4_000_000).expect("a full window reports");
    // Half the frames at 100 fps and half at 50 fps.
    assert_eq!(report.mean_milli_fps, 75_000);
    assert_eq!(report.mean_idle, 4_000_000);
    assert_eq!(report.mean_process, TARGET_FRAME_NANOS - 4_000_000);
    assert_eq!(stats.frames, 0);
    assert_eq!(stats.mean_milli_fps(), 0);
    assert_eq!(stats.record(10_000_000, 0), None);
    assert_eq!(stats.mean_milli_fps(), 100_000);
}

#[test]
fn mean_process_is_zero_when_idle_exceeds_target() {
    let mut stats = FrameStats::new(1_000);
    let mut last = None;
    for _ in 0..WINDOW_FRAMES {
        last = stats.record(1_000_000, 5_000);
    }
    let report = last.unwrap();
    assert_eq!(report.mean_idle, 5_000);
    assert_eq!(report.mean_process, 0);
    assert_eq!(report.mean_milli_fps, 1_000_000);
}
