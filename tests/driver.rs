use frame_loop::clock::{reading_after, Clock};
use frame_loop::console::console_to_release;
use frame_loop::driver::{BlockingAction, BlockingDriver, Flow, FrameOutcome, HostAction, HostDriver, Phase};
use frame_loop::pacer::FramePacer;
use frame_loop::stats::WINDOW_FRAMES;

#[test]
fn blocking_driver_sleeps_for_the_rest_of_the_frame() {
    let mut d = BlockingDriver::new(FramePacer::sixty_hz(), 1_000);
    assert!(d.begin_frame(2_000));
    let out = d.end_frame(Flow::Continue, 2_000 + 10_000_000);
    assert_eq!(out, FrameOutcome { action: BlockingAction::Sleep { millis: 6 }, overrun: None });
    assert_eq!(d.idle, 6_666_666);
    assert_eq!(d.finish_frame(2_000 + 16_666_666), None);
    assert_eq!(d.stats.frames, 1);
    assert_eq!(d.prev_frame_end, 2_000 + 16_666_666);
}

#[test]
fn blocking_driver_reports_overrun() {
    let mut d = BlockingDriver::new(FramePacer::sixty_hz(), 0);
    assert!(d.begin_frame(0));
    let out = d.end_frame(Flow::Continue, 20_000_000);
    assert_eq!(out, FrameOutcome { action: BlockingAction::Sleep { millis: 0 }, overrun: Some(3_333_334) });
    assert_eq!(d.phase, Phase::Running);
}

#[test]
fn stop_exits_and_no_step_runs_again() {
    let mut d = BlockingDriver::new(FramePacer::sixty_hz(), 0);
    assert!(d.begin_frame(0));
    let out = d.end_frame(Flow::Stop, 5);
    assert_eq!(out, FrameOutcome { action: BlockingAction::Exit, overrun: None });
    assert_eq!(d.phase, Phase::Terminated);
    assert!(!d.begin_frame(10));
    assert_eq!(d.end_frame(Flow::Continue, 20).action, BlockingAction::Exit);
    assert!(!d.begin_frame(30));
}

#[test]
fn blocking_driver_reports_each_window() {
    let mut d = BlockingDriver::new(FramePacer::sixty_hz(), 0);
    let mut now: u64 = 0;
    let mut reports = 0;
    for _ in 0..WINDOW_FRAMES {
        assert!(d.begin_frame(now));
        now += 4_000_000;
        d.end_frame(Flow::Continue, now);
        now += 16_000_000;
        if let Some(r) = d.finish_frame(now) {
            reports += 1;
            assert_eq!(r.mean_milli_fps, 50_000);
            assert_eq!(r.mean_idle, 12_666_666);
            assert_eq!(r.mean_process, 4_000_000);
        }
    }
    assert_eq!(reports, 1);
    assert_eq!(d.stats.frames, 0);
}

#[test]
fn clock_readings_never_go_back() {
    let mut c = Clock::new();
    let mut prev = c.now();
    for _ in 0..1000 {
        let t = c.now();
        assert!(t >= prev);
        prev = t;
    }
}

#[test]
fn host_driver_never_sleeps_and_deregisters_on_stop() {
    let mut d = HostDriver::new(FramePacer::sixty_hz(), 0);
    match d.on_tick(Flow::Continue, 16_000_000, 26_000_000) {
        HostAction::Continue { idle, overrun, report } => {
            assert_eq!(idle, 6_666_666);
            assert_eq!(overrun, None);
            assert_eq!(report, None);
        }
        HostAction::Deregister => panic!("a continuing step stays registered"),
    }
    assert_eq!(d.prev_tick, 16_000_000);
    match d.on_tick(Flow::Continue, 32_000_000, 52_000_000) {
        HostAction::Continue { idle, overrun, .. } => {
            assert_eq!(idle, 0);
            assert_eq!(overrun, Some(3_333_334));
        }
        HostAction::Deregister => panic!("a continuing step stays registered"),
    }
    assert_eq!(d.stats.frames, 2);
    assert_eq!(d.on_tick(Flow::Stop, 48_000_000, 49_000_000), HostAction::Deregister);
    assert_eq!(d.phase, Phase::Terminated);
    assert_eq!(d.on_tick(Flow::Continue, 64_000_000, 65_000_000), HostAction::Deregister);
}

#[test]
fn console_is_released_only_without_a_terminal() {
    assert!(console_to_release(false));
    assert!(!console_to_release(true));
}

#[test]
fn clock_reading_follows_the_system_clock_and_never_goes_back() {
    assert_eq!(reading_after(5, 10), 10);
    assert_eq!(reading_after(10, 5), 10);
    assert_eq!(reading_after(10, 10), 10);
    assert_eq!(reading_after(0, u64::MAX as u128 + 1), u64::MAX);
    assert_eq!(reading_after(u64::MAX, u128::MAX), u64::MAX);
}
