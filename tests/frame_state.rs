use frame_loop::driver::Flow;
use frame_loop::frame_state::{
    advance_frame, move_coordinate, FrameState, Input, Key, Layout, Reaction, StepResult,
};

fn layout() -> Layout {
    Layout { width: 640, height: 480, step: 32, frame_count: 8 }
}

fn key(k: Key) -> Input {
    Input::KeyDown { key: k, shift: false }
}

fn shifted(k: Key) -> Input {
    Input::KeyDown { key: k, shift: true }
}

#[test]
fn moving_left_from_the_edge_wraps_to_the_far_side() {
    let mut s = FrameState::new(1);
    assert_eq!(s.apply_input(key(Key::Left), &layout()), Reaction::Nothing);
    assert_eq!(s.x, 640 - 32);
    assert_eq!(s.y, 0);
}

#[test]
fn moving_right_past_the_edge_wraps_to_zero() {
    let mut s = FrameState::new(1);
    s.x = 608;
    s.apply_input(key(Key::Right), &layout());
    assert_eq!(s.x, 0);
    s.apply_input(key(Key::Right), &layout());
    assert_eq!(s.x, 32);
}

#[test]
fn vertical_moves_wrap_at_the_height() {
    let mut s = FrameState::new(1);
    s.apply_input(key(Key::Up), &layout());
    assert_eq!(s.y, 480 - 32);
    s.apply_input(key(Key::Down), &layout());
    assert_eq!(s.y, 0);
    s.apply_input(key(Key::Down), &layout());
    assert_eq!(s.y, 32);
}

#[test]
fn move_coordinate_edges() {
    assert_eq!(move_coordinate(0, false, 640, 32), 608);
    assert_eq!(move_coordinate(10, false, 640, 32), 608);
    assert_eq!(move_coordinate(32, false, 640, 32), 0);
    assert_eq!(move_coordinate(600, true, 640, 32), 632);
    assert_eq!(move_coordinate(608, true, 640, 32), 0);
    assert_eq!(move_coordinate(620, true, 640, 32), 0);
    assert_eq!(move_coordinate(100, true, 640, 32), 132);
    // A canvas narrower than a step leaves only the start.
    assert_eq!(move_coordinate(0, false, 20, 32), 0);
    // After the canvas shrank, a move from past its end wraps to the start.
    assert_eq!(move_coordinate(900, false, 640, 32), 0);
    assert_eq!(move_coordinate(u32::MAX, true, u32::MAX, u32::MAX), 0);
}

#[test]
fn animation_index_cycles() {
    let mut s = FrameState::new(1);
    for k in 1..=20u32 {
        s.apply_input(key(Key::Space), &layout());
        assert_eq!(s.frame, k % 8);
        assert!(s.frame <= 7);
    }
    assert_eq!(advance_frame(7, 8), 0);
    assert_eq!(advance_frame(3, 8), 4);
    assert_eq!(advance_frame(0, 1), 0);
    assert_eq!(advance_frame(0, 0), 0);
}

#[test]
fn pause_toggles_and_holds_the_animation() {
    let mut s = FrameState::new(1);
    s.apply_input(key(Key::P), &layout());
    assert!(s.paused);
    s.apply_input(key(Key::Space), &layout());
    assert_eq!(s.frame, 0);
    s.apply_input(key(Key::Left), &layout());
    assert_eq!(s.x, 608);
    s.apply_input(key(Key::P), &layout());
    assert!(!s.paused);
    s.apply_input(key(Key::Space), &layout());
    assert_eq!(s.frame, 1);
}

#[test]
fn volume_keys_change_only_the_volume() {
    let mut s = FrameState::new(5);
    s.x = 64;
    s.y = 96;
    assert_eq!(s.apply_input(shifted(Key::Up), &layout()), Reaction::SetVolume(6));
    assert_eq!(s.apply_input(shifted(Key::Down), &layout()), Reaction::SetVolume(5));
    assert_eq!(s.apply_input(shifted(Key::Down), &layout()), Reaction::SetVolume(4));
    assert_eq!((s.x, s.y, s.volume), (64, 96, 4));
}

#[test]
fn movement_keys_leave_the_volume() {
    let mut s = FrameState::new(5);
    for k in [Key::Left, Key::Right, Key::Up, Key::Down] {
        assert_eq!(s.apply_input(key(k), &layout()), Reaction::Nothing);
        assert_eq!(s.volume, 5);
    }
    assert_eq!(s.apply_input(shifted(Key::Left), &layout()), Reaction::Nothing);
    assert_eq!(s.volume, 5);
}

#[test]
fn volume_is_clamped() {
    let mut s = FrameState::new(128);
    assert_eq!(s.apply_input(shifted(Key::Up), &layout()), Reaction::Nothing);
    assert_eq!(s.volume, 128);
    let mut s = FrameState::new(0);
    assert_eq!(s.apply_input(shifted(Key::Down), &layout()), Reaction::Nothing);
    assert_eq!(s.volume, 0);
}

#[test]
fn quit_inputs_stop() {
    let before = FrameState::new(1);
    for input in [Input::Quit, key(Key::Escape), key(Key::Q), shifted(Key::Q)] {
        let mut s = before;
        assert_eq!(s.apply_input(input, &layout()), Reaction::Stop);
        assert_eq!(s, before);
    }
    let mut s = before;
    assert_eq!(s.apply_input(Input::Other, &layout()), Reaction::Nothing);
    assert_eq!(s.apply_input(key(Key::Other), &layout()), Reaction::Nothing);
    assert_eq!(s, before);
}

#[test]
fn step_stops_at_the_first_quit() {
    let mut s = FrameState::new(1);
    let inputs = vec![key(Key::Right), shifted(Key::Up), Input::Quit, key(Key::Right), shifted(Key::Up)];
    let r = s.step_inputs(&inputs, &layout());
    assert_eq!(r, StepResult { flow: Flow::Stop, volume: Some(2) });
    assert_eq!(s.x, 32);
    assert_eq!(s.volume, 2);
}

#[test]
fn step_reports_the_last_new_volume() {
    let mut s = FrameState::new(10);
    let inputs = vec![shifted(Key::Up), shifted(Key::Up), key(Key::Down), shifted(Key::Down)];
    let r = s.step_inputs(&inputs, &layout());
    assert_eq!(r, StepResult { flow: Flow::Continue, volume: Some(11) });
    assert_eq!(s.y, 32);
    let r = s.step_inputs(&vec![], &layout());
    assert_eq!(r, StepResult { flow: Flow::Continue, volume: None });
    let r = s.step_inputs(&vec![key(Key::Space)], &layout());
    assert_eq!(r, StepResult { flow: Flow::Continue, volume: None });
    assert_eq!(s.frame, 1);
}

#[test]
fn animation_cycles_from_any_start_frame() {
    let mut s = FrameState::new(1);
    s.frame = 5;
    for k in 1..=20u32 {
        s.apply_input(key(Key::Space), &layout());
        assert_eq!(s.frame, (5 + k) % 8);
    }
}
