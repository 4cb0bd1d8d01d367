//! The small state that the per-frame step keeps (sprite position, animation
//! frame, pause flag, volume) and how one input changes it.

use vstd::prelude::*;
use crate::driver::Flow;
use crate::settings::MAX_VOLUME;

verus! {

#[derive(Clone, Copy, Debug, PartialEq, Eq)]
pub enum Key {
    Escape,
    Q,
    Left,
    Right,
    Up,
    Down,
    Space,
    P,
    Other,
}

/// One input event, as the step reads it: a close request, a key press (with
/// whether shift was held), or anything else.
#[derive(Clone, Copy, Debug, PartialEq, Eq)]
pub enum Input {
    Quit,
    KeyDown { key: Key, shift: bool },
    Other,
}

/// What an input asks of the step beyond the state change: to stop, or to
/// apply and persist a new volume.
#[derive(Clone, Copy, Debug, PartialEq, Eq)]
pub enum Reaction {
    Nothing,
    Stop,
    SetVolume(u32),
}

/// The canvas extents, the distance one movement key moves the sprite, and the
/// number of frames in the sprite sheet.
#[derive(Clone, Copy, Debug, PartialEq, Eq)]
pub struct Layout {
    pub width: u32,
    pub height: u32,
    pub step: u32,
    pub frame_count: u32,
}

#[derive(Clone, Copy, Debug, PartialEq, Eq)]
pub struct FrameState {
    pub x: u32,
    pub y: u32,
    pub frame: u32,
    pub paused: bool,
    pub volume: u32,
}

/// Where a coordinate moved to `c` lands on an axis of `extent` pixels: before
/// the start it wraps to one step short of the end (to the start where the axis
/// is shorter than a step); at or past the end it wraps to the start.
pub open spec fn wrap_coordinate(c: int, extent: int, step: int) -> int {
    if c < 0 {
        if extent >= step {
            extent - step
        } else {
            0
        }
    } else if c >= extent {
        0
    } else {
        c
    }
}

/// The animation frame after `frame`, back to the first after the last.
pub open spec fn next_frame(frame: int, count: int) -> int {
    if frame + 1 >= count {
        0
    } else {
        frame + 1
    }
}

pub open spec fn is_move(input: Input) -> bool {
    match input {
        Input::KeyDown { key: Key::Left, .. } | Input::KeyDown { key: Key::Right, .. } => true,
        Input::KeyDown { key: Key::Up, shift } | Input::KeyDown { key: Key::Down, shift } => !shift,
        _ => false,
    }
}

pub open spec fn is_volume_key(input: Input) -> bool {
    match input {
        Input::KeyDown { key: Key::Up, shift } | Input::KeyDown { key: Key::Down, shift } => shift,
        _ => false,
    }
}

/// The state and reaction after `input` on state `s`.
pub open spec fn apply_spec(s: FrameState, input: Input, layout: Layout) -> (FrameState, Reaction) {
    let w = layout.width as int;
    let h = layout.height as int;
    let d = layout.step as int;
    match input {
        Input::Quit => (s, Reaction::Stop),
        Input::KeyDown { key, shift } => match key {
            Key::Escape | Key::Q => (s, Reaction::Stop),
            Key::Left => (FrameState { x: wrap_coordinate(s.x - d, w, d) as u32, ..s }, Reaction::Nothing),
            Key::Right => (FrameState { x: wrap_coordinate(s.x + d, w, d) as u32, ..s }, Reaction::Nothing),
            Key::Up => if shift {
                if s.volume < MAX_VOLUME {
                    (FrameState { volume: (s.volume + 1) as u32, ..s }, Reaction::SetVolume((s.volume + 1) as u32))
                } else {
                    (s, Reaction::Nothing)
                }
            } else {
                (FrameState { y: wrap_coordinate(s.y - d, h, d) as u32, ..s }, Reaction::Nothing)
            },
            Key::Down => if shift {
                if s.volume > 0 {
                    (FrameState { volume: (s.volume - 1) as u32, ..s }, Reaction::SetVolume((s.volume - 1) as u32))
                } else {
                    (s, Reaction::Nothing)
                }
            } else {
                (FrameState { y: wrap_coordinate(s.y + d, h, d) as u32, ..s }, Reaction::Nothing)
            },
            Key::Space => if s.paused {
                (s, Reaction::Nothing)
            } else {
                (FrameState { frame: next_frame(s.frame as int, layout.frame_count as int) as u32, ..s }, Reaction::Nothing)
            },
            Key::P => (FrameState { paused: !s.paused, ..s }, Reaction::Nothing),
            Key::Other => (s, Reaction::Nothing),
        },
        Input::Other => (s, Reaction::Nothing),
    }
}

/// Moves coordinate `c` one step forward or back on an axis of `extent`
/// pixels, wrapping at its ends.
pub fn move_coordinate(c: u32, forward: bool, extent: u32, step: u32) -> (r: u32)
    ensures
        r == wrap_coordinate(if forward { c + step } else { c - step }, extent as int, step as int),
{
    let moved: i64 = if forward { c as i64 + step as i64 } else { c as i64 - step as i64 };
    if moved < 0 {
        if extent >= step {
            extent - step
        } else {
            0
        }
    } else if moved >= extent as i64 {
        0
    } else {
        moved as u32
    }
}

pub fn advance_frame(frame: u32, count: u32) -> (r: u32)
    ensures
        r == next_frame(frame as int, count as int),
{
    if frame as u64 + 1 >= count as u64 {
        0
    } else {
        frame + 1
    }
}

/// What one frame's inputs ask of the driver and of the environment: whether
/// to go on, and the volume to apply and persist, if one changed.
#[derive(Clone, Copy, Debug, PartialEq, Eq)]
pub struct StepResult {
    pub flow: Flow,
    pub volume: Option<u32>,
}

/// The state, flow and last new volume after applying `inputs` in order to `s`,
/// stopping at the first input that asks to stop.
pub open spec fn apply_all(s: FrameState, inputs: Seq<Input>, layout: Layout) -> (FrameState, Flow, Option<u32>)
    decreases inputs.len(),
{
    if inputs.len() == 0 {
        (s, Flow::Continue, None)
    } else {
        let (s1, r) = apply_spec(s, inputs[0], layout);
        if r is Stop {
            (s1, Flow::Stop, None)
        } else {
            let rest = apply_all(s1, inputs.drop_first(), layout);
            (
                rest.0,
                rest.1,
                if rest.2 is Some {
                    rest.2
                } else if r is SetVolume {
                    Some(r->0)
                } else {
                    None
                },
            )
        }
    }
}

/// `result` with `volume` as its new volume where it has none of its own.
pub open spec fn with_earlier_volume(result: (FrameState, Flow, Option<u32>), volume: Option<u32>) -> (FrameState, Flow, Option<u32>) {
    (result.0, result.1, if result.2 is Some { result.2 } else { volume })
}

pub open spec fn is_quit(input: Input) -> bool {
    match input {
        Input::Quit => true,
        Input::KeyDown { key: Key::Escape, .. } | Input::KeyDown { key: Key::Q, .. } => true,
        _ => false,
    }
}

/// A close request, Escape or Q among a frame's inputs stops the step.
pub proof fn lemma_quit_input_stops(s: FrameState, inputs: Seq<Input>, layout: Layout, i: int)
    requires
        0 <= i < inputs.len(),
        is_quit(inputs[i]),
    ensures
        apply_all(s, inputs, layout).1 is Stop,
    decreases i,
{
    if i > 0 {
        let (s1, r) = apply_spec(s, inputs[0], layout);
        if !(r is Stop) {
            assert(inputs.drop_first()[i - 1] == inputs[i]);
            lemma_quit_input_stops(s1, inputs.drop_first(), layout, i - 1);
        }
    }
}

impl FrameState {
    pub open spec fn wf(&self) -> bool {
        self.volume <= MAX_VOLUME
    }

    /// The state at start-up: the sprite at the origin on its first frame,
    /// running, at `volume`.
    pub fn new(volume: u32) -> (s: FrameState)
        requires
            volume <= MAX_VOLUME,
        ensures
            s.wf(),
            s == (FrameState { x: 0, y: 0, frame: 0, paused: false, volume }),
    {
        FrameState { x: 0, y: 0, frame: 0, paused: false, volume }
    }

    /// Applies one input to the state.
    pub fn apply_input(&mut self, input: Input, layout: &Layout) -> (r: Reaction)
        requires
            old(self).wf(),
        ensures
            final(self).wf(),
            (*final(self), r) == apply_spec(*old(self), input, *layout),
    {
        match input {
            Input::Quit => Reaction::Stop,
            Input::KeyDown { key, shift } => match key {
                Key::Escape | Key::Q => Reaction::Stop,
                Key::Left => {
                    self.x = move_coordinate(self.x, false, layout.width, layout.step);
                    Reaction::Nothing
                },
                Key::Right => {
                    self.x = move_coordinate(self.x, true, layout.width, layout.step);
                    Reaction::Nothing
                },
                Key::Up => {
                    if shift {
                        if self.volume < MAX_VOLUME {
                            self.volume = self.volume + 1;
                            Reaction::SetVolume(self.volume)
                        } else {
                            Reaction::Nothing
                        }
                    } else {
                        self.y = move_coordinate(self.y, false, layout.height, layout.step);
                        Reaction::Nothing
                    }
                },
                Key::Down => {
                    if shift {
                        if self.volume > 0 {
                            self.volume = self.volume - 1;
                            Reaction::SetVolume(self.volume)
                        } else {
                            Reaction::Nothing
                        }
                    } else {
                        self.y = move_coordinate(self.y, true, layout.height, layout.step);
                        Reaction::Nothing
                    }
                },
                Key::Space => {
                    if !self.paused {
                        self.frame = advance_frame(self.frame, layout.frame_count);
                    }
                    Reaction::Nothing
                },
                Key::P => {
                    self.paused = !self.paused;
                    Reaction::Nothing
                },
                Key::Other => Reaction::Nothing,
            },
            Input::Other => Reaction::Nothing,
        }
    }

    /// Applies one frame's inputs in order, up to the first that asks to stop.
    pub fn step_inputs(&mut self, inputs: &Vec<Input>, layout: &Layout) -> (r: StepResult)
        requires
            old(self).wf(),
        ensures
            final(self).wf(),
            (*final(self), r.flow, r.volume) == apply_all(*old(self), inputs@, *layout),
    {
        let ghost s0 = *self;
        let n = inputs.len();
        let mut volume: Option<u32> = None;
        let mut i: usize = 0;
        assert(inputs@.subrange(0, n as int) =~= inputs@);
        while i < n
            invariant
                self.wf(),
                s0 == *old(self),
                n == inputs@.len(),
                i <= n,
                apply_all(s0, inputs@, *layout) == with_earlier_volume(
                    apply_all(*self, inputs@.subrange(i as int, n as int), *layout),
                    volume,
                ),
            decreases n - i,
        {
            let ghost before = *self;
            let ghost rest = inputs@.subrange(i as int, n as int);
            assert(rest.drop_first() =~= inputs@.subrange(i as int + 1, n as int));
            assert(rest[0] == inputs@[i as int]);
            let r = self.apply_input(inputs[i], layout);
            match r {
                Reaction::Stop => {
                    assert(apply_all(before, rest, *layout) == (*self, Flow::Stop, None::<u32>));
                    return StepResult { flow: Flow::Stop, volume };
                },
                Reaction::SetVolume(v) => {
                    volume = Some(v);
                },
                Reaction::Nothing => {},
            }
            i = i + 1;
        }
        StepResult { flow: Flow::Continue, volume }
    }
}


/// Positions wrap at the canvas edges: a move that would put the sprite at
/// `-step` puts it at `extent - step`, and one that reaches or passes the
/// extent puts it at 0, on either axis.
pub proof fn lemma_position_wraps(s: FrameState, layout: Layout)
    requires
        layout.step > 0,
        layout.width >= layout.step,
        layout.height >= layout.step,
    ensures
        s.x == 0 ==> apply_spec(s, Input::KeyDown { key: Key::Left, shift: false }, layout).0.x
            == layout.width - layout.step,
        s.x + layout.step >= layout.width ==> apply_spec(
            s,
            Input::KeyDown { key: Key::Right, shift: false },
            layout,
        ).0.x == 0,
        s.y == 0 ==> apply_spec(s, Input::KeyDown { key: Key::Up, shift: false }, layout).0.y
            == layout.height - layout.step,
        s.y + layout.step >= layout.height ==> apply_spec(
            s,
            Input::KeyDown { key: Key::Down, shift: false },
            layout,
        ).0.y == 0,
{
}

/// `frame` after `k` advances, starting from `frame`.
pub open spec fn advance_times(frame: int, count: int, k: nat) -> int
    decreases k,
{
    if k == 0 {
        frame
    } else {
        next_frame(advance_times(frame, count, (k - 1) as nat), count)
    }
}

/// Advancing the animation cycles through `0..count` and back: after `k`
/// advances from a frame `frame` below `count` the index is
/// `(frame + k) % count`, never above `count - 1`.
pub proof fn lemma_animation_cycles(frame: int, count: int, k: nat)
    requires
        0 <= frame < count,
    ensures
        advance_times(frame, count, k) == (frame + k) % count,
        0 <= advance_times(frame, count, k) < count,
    decreases k,
{
    if k == 0 {
        vstd::arithmetic::div_mod::lemma_small_mod(frame as nat, count as nat);
    } else {
        let j = (k - 1) as nat;
        lemma_animation_cycles(frame, count, j);
        let ki = frame + k;
        let ji = frame + j;
        let r = ji % count;
        let q = ji / count;
        assert(ji == q * count + r && 0 <= r < count) by {
            vstd::arithmetic::div_mod::lemma_fundamental_div_mod(ji, count);
        }
        if r + 1 >= count {
            assert(ki == (q + 1) * count) by (nonlinear_arith)
                requires
                    ji == q * count + r,
                    r == count - 1,
                    ki == ji + 1,
            ;
            vstd::arithmetic::div_mod::lemma_mod_multiples_basic(q + 1, count);
        } else {
            assert(ki == count * q + (r + 1)) by (nonlinear_arith)
                requires
                    ji == q * count + r,
                    ki == ji + 1,
            ;
            vstd::arithmetic::div_mod::lemma_mod_multiples_vanish(q, r + 1, count);
            vstd::arithmetic::div_mod::lemma_small_mod((r + 1) as nat, count as nat);
        }
    }
}

/// The state after `k` presses of Space from `s`.
pub open spec fn press_space_times(s: FrameState, layout: Layout, k: nat) -> FrameState
    decreases k,
{
    if k == 0 {
        s
    } else {
        apply_spec(
            press_space_times(s, layout, (k - 1) as nat),
            Input::KeyDown { key: Key::Space, shift: false },
            layout,
        ).0
    }
}

/// While the animation is not paused, `k` presses of Space from a frame below
/// the sprite sheet's frame count leave it at `(frame + k) % frame_count`,
/// never above `frame_count - 1`.
pub proof fn lemma_space_cycles_frames(s: FrameState, layout: Layout, k: nat)
    requires
        !s.paused,
        s.frame < layout.frame_count,
    ensures
        press_space_times(s, layout, k).frame == (s.frame + k) % (layout.frame_count as int),
        press_space_times(s, layout, k).frame < layout.frame_count,
        !press_space_times(s, layout, k).paused,
    decreases k,
{
    let count = layout.frame_count as int;
    lemma_animation_cycles(s.frame as int, count, k);
    if k > 0 {
        let j = (k - 1) as nat;
        lemma_space_cycles_frames(s, layout, j);
        lemma_animation_cycles(s.frame as int, count, j);
        assert(press_space_times(s, layout, j).frame == advance_times(s.frame as int, count, j));
    }
}

/// Volume keys never move the sprite, and movement keys never change the
/// volume or ask for a new one.
pub proof fn lemma_volume_and_movement_independent(s: FrameState, input: Input, layout: Layout)
    ensures
        is_volume_key(input) ==> apply_spec(s, input, layout).0.x == s.x && apply_spec(
            s,
            input,
            layout,
        ).0.y == s.y,
        is_move(input) ==> apply_spec(s, input, layout).0.volume == s.volume && !(apply_spec(
            s,
            input,
            layout,
        ).1 is SetVolume),
{
}

/// A close request, Escape and Q stop the step and change nothing else.
pub proof fn lemma_quit_inputs_stop(s: FrameState, layout: Layout, shift: bool)
    ensures
        apply_spec(s, Input::Quit, layout) == (s, Reaction::Stop),
        apply_spec(s, Input::KeyDown { key: Key::Escape, shift }, layout) == (s, Reaction::Stop),
        apply_spec(s, Input::KeyDown { key: Key::Q, shift }, layout) == (s, Reaction::Stop),
{
}

} // verus!
