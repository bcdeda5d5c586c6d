//! Deterministic side-scroller movement: the flat-floor trace used to
//! preview a physics profile, and the shared velocity rules.
use vstd::prelude::*;
use crate::project::PhysicsProfile;

verus! {

/// The buttons held or pressed on one frame.
#[derive(Debug, Clone, Copy, PartialEq, Eq, Default)]
pub struct InputFrame {
    pub left: bool,
    pub right: bool,
    pub jump_pressed: bool,
    pub jump_held: bool,
    pub climb_up: bool,
    pub climb_down: bool,
}

/// The player state after one frame of a trace.
#[derive(Debug, Clone, Copy, PartialEq, Eq)]
pub struct TraceFrame {
    pub frame: u32,
    pub x_fp: i32,
    pub y_fp: i32,
    pub vx_fp: i32,
    pub vy_fp: i32,
    pub grounded: bool,
}

/// The state that a trace carries from frame to frame.
#[derive(Debug, Clone, Copy, PartialEq, Eq)]
pub struct SimState {
    pub x_fp: i32,
    pub y_fp: i32,
    pub vx_fp: i32,
    pub vy_fp: i32,
    pub grounded: bool,
    pub coyote_left: u8,
    pub jump_buffer_left: u8,
}

/// One pixel in fixed-point units.
pub const FIXED_POINT_ONE: i32 = 256;

pub open spec fn in_i32(v: int) -> bool {
    i32::MIN <= v <= i32::MAX
}

pub open spec fn spec_max(a: int, b: int) -> int {
    if a >= b { a } else { b }
}

pub open spec fn spec_min(a: int, b: int) -> int {
    if a <= b { a } else { b }
}

/// Horizontal direction asked by an input: -1 for left alone, 1 for right
/// alone, 0 otherwise.
pub open spec fn spec_direction(input: InputFrame) -> int {
    if input.left && !input.right {
        -1
    } else if !input.left && input.right {
        1
    } else {
        0
    }
}

/// A speed moved toward zero by `amount`, never past it.
pub open spec fn spec_friction(value: int, amount: int) -> int {
    if value > 0 {
        spec_max(value - amount, 0)
    } else if value < 0 {
        spec_min(value + amount, 0)
    } else {
        0
    }
}

pub open spec fn friction_fits(value: int, amount: int) -> bool {
    &&& value > 0 ==> in_i32(value - amount)
    &&& value < 0 ==> in_i32(value + amount)
}

/// Horizontal speed after a frame that asks for `dir`: accelerate up to the
/// run speed in that direction, or slow down by the acceleration.
pub open spec fn spec_run_velocity(vx: int, accel: int, max_run: int, dir: int) -> int {
    if dir < 0 {
        spec_max(vx - accel, -max_run)
    } else if dir > 0 {
        spec_min(vx + accel, max_run)
    } else {
        spec_friction(vx, accel)
    }
}

pub open spec fn run_velocity_fits(vx: int, accel: int, max_run: int, dir: int) -> bool {
    if dir < 0 {
        in_i32(vx - accel) && in_i32(-max_run)
    } else if dir > 0 {
        in_i32(vx + accel)
    } else {
        friction_fits(vx, accel)
    }
}

/// Vertical speed on a ladder: up is negative.
pub open spec fn spec_climb_velocity(input: InputFrame, ladder_speed: int) -> int {
    if input.climb_up {
        -ladder_speed
    } else if input.climb_down {
        ladder_speed
    } else {
        0
    }
}

/// Vertical speed after gravity, capped at the fall speed.
pub open spec fn spec_fall_velocity(vy: int, gravity: int, max_fall: int) -> int {
    spec_min(vy + gravity, max_fall)
}

/// Moves `value` toward zero by `amount`.
pub fn apply_friction(value: i32, amount: i32) -> (r: i32)
    requires
        friction_fits(value as int, amount as int),
    ensures
        r == spec_friction(value as int, amount as int),
{
    if value > 0 {
        let v = value - amount;
        if v >= 0 { v } else { 0 }
    } else if value < 0 {
        let v = value + amount;
        if v <= 0 { v } else { 0 }
    } else {
        0
    }
}

/// Horizontal direction of an input.
pub fn direction(input: InputFrame) -> (d: i32)
    ensures
        d == spec_direction(input),
{
    if input.left && !input.right {
        -1
    } else if !input.left && input.right {
        1
    } else {
        0
    }
}

/// Horizontal speed after one frame.
pub fn run_velocity(vx: i32, accel: i32, max_run: i32, dir: i32) -> (r: i32)
    requires
        run_velocity_fits(vx as int, accel as int, max_run as int, dir as int),
    ensures
        r == spec_run_velocity(vx as int, accel as int, max_run as int, dir as int),
{
    if dir < 0 {
        let v = vx - accel;
        let floor = -max_run;
        if v >= floor { v } else { floor }
    } else if dir > 0 {
        let v = vx + accel;
        if v <= max_run { v } else { max_run }
    } else {
        apply_friction(vx, accel)
    }
}

/// Vertical speed after gravity.
pub fn fall_velocity(vy: i32, gravity: i32, max_fall: i32) -> (r: i32)
    requires
        in_i32(vy + gravity),
    ensures
        r == spec_fall_velocity(vy as int, gravity as int, max_fall as int),
{
    let v = vy + gravity;
    if v <= max_fall { v } else { max_fall }
}

/// Vertical speed of a climb.
pub fn climb_velocity(input: InputFrame, ladder_speed: i32) -> (r: i32)
    requires
        input.climb_up ==> in_i32(-ladder_speed),
    ensures
        r == spec_climb_velocity(input, ladder_speed as int),
{
    if input.climb_up {
        -ladder_speed
    } else if input.climb_down {
        ladder_speed
    } else {
        0
    }
}

/// Pixels to fixed-point units.
pub open spec fn spec_fp_from_pixels(pixels: int) -> int {
    pixels * 256
}

/// Fixed-point units to whole pixels, rounding toward minus infinity.
pub open spec fn spec_fp_to_pixels_floor(value: int) -> int {
    value / 256
}

/// Pixels to fixed-point units.
pub fn fixed_point_from_pixels(pixels: i32) -> (r: i32)
    requires
        in_i32(pixels * 256),
    ensures
        r == spec_fp_from_pixels(pixels as int),
{
    pixels * FIXED_POINT_ONE
}

/// Fixed-point units to whole pixels, rounding toward minus infinity.
pub fn fixed_point_to_pixels_floor(value_fp: i32) -> (r: i32)
    ensures
        r == spec_fp_to_pixels_floor(value_fp as int),
{
    match value_fp.checked_div_euclid(FIXED_POINT_ONE) {
        Some(q) => q,
        None => 0,
    }
}

/// The state of a trace before its first frame.
pub open spec fn sim_initial(p: PhysicsProfile) -> SimState {
    SimState {
        x_fp: 0,
        y_fp: 0,
        vx_fp: 0,
        vy_fp: 0,
        grounded: true,
        coyote_left: p.coyote_frames,
        jump_buffer_left: 0,
    }
}

/// Jump buffer after the press of this frame, before its countdown.
pub open spec fn sim_buffer_pressed(p: PhysicsProfile, s: SimState, input: InputFrame) -> int {
    if input.jump_pressed { p.jump_buffer_frames as int } else { s.jump_buffer_left as int }
}

/// Acceleration that applies to a state.
pub open spec fn sim_accel(p: PhysicsProfile, grounded: bool) -> int {
    if grounded { p.ground_accel_fp as int } else { p.air_accel_fp as int }
}

/// Coyote frames after this frame's countdown.
pub open spec fn sim_coyote(p: PhysicsProfile, s: SimState) -> int {
    if s.grounded {
        p.coyote_frames as int
    } else if s.coyote_left > 0 {
        s.coyote_left - 1
    } else {
        0
    }
}

/// Jump buffer after this frame's countdown.
pub open spec fn sim_buffer(p: PhysicsProfile, s: SimState, input: InputFrame) -> int {
    let b = sim_buffer_pressed(p, s, input);
    if b > 0 { b - 1 } else { 0 }
}

/// Whether a jump starts on this frame.
pub open spec fn sim_jumps(p: PhysicsProfile, s: SimState, input: InputFrame) -> bool {
    sim_buffer(p, s, input) > 0 && (s.grounded || sim_coyote(p, s) > 0)
}

/// Horizontal speed at the end of this frame.
pub open spec fn sim_vx(p: PhysicsProfile, s: SimState, input: InputFrame) -> int {
    spec_run_velocity(
        s.vx_fp as int,
        sim_accel(p, s.grounded),
        p.max_run_speed_fp as int,
        spec_direction(input),
    )
}

/// Vertical speed before landing.
pub open spec fn sim_vy(p: PhysicsProfile, s: SimState, input: InputFrame) -> int {
    let vy0 = if sim_jumps(p, s, input) { p.jump_velocity_fp as int } else { s.vy_fp as int };
    if input.climb_up || input.climb_down {
        spec_climb_velocity(input, p.ladder_speed_fp as int)
    } else {
        spec_fall_velocity(vy0, p.gravity_fp as int, p.max_fall_speed_fp as int)
    }
}

/// Every intermediate value of this frame fits in `i32`.
pub open spec fn sim_step_fits(p: PhysicsProfile, s: SimState, input: InputFrame) -> bool {
    let vy0 = if sim_jumps(p, s, input) { p.jump_velocity_fp as int } else { s.vy_fp as int };
    &&& run_velocity_fits(
        s.vx_fp as int,
        sim_accel(p, s.grounded),
        p.max_run_speed_fp as int,
        spec_direction(input),
    )
    &&& (input.climb_up ==> in_i32(-(p.ladder_speed_fp as int)))
    &&& (!(input.climb_up || input.climb_down) ==> in_i32(vy0 + p.gravity_fp))
    &&& in_i32(s.x_fp + sim_vx(p, s, input))
    &&& in_i32(s.y_fp + sim_vy(p, s, input))
}

/// The state after one frame of the flat-floor simulation, where the floor
/// is the line `y == 0`.
pub open spec fn sim_step(p: PhysicsProfile, s: SimState, input: InputFrame) -> SimState {
    let jumps = sim_jumps(p, s, input);
    let coyote = if jumps { 0 } else { sim_coyote(p, s) };
    let buffer = if jumps { 0 } else { sim_buffer(p, s, input) };
    let vx = sim_vx(p, s, input);
    let vy = sim_vy(p, s, input);
    let x = s.x_fp + vx;
    let y = s.y_fp + vy;
    if y >= 0 {
        SimState {
            x_fp: x as i32,
            y_fp: 0,
            vx_fp: vx as i32,
            vy_fp: 0,
            grounded: true,
            coyote_left: coyote as u8,
            jump_buffer_left: buffer as u8,
        }
    } else {
        SimState {
            x_fp: x as i32,
            y_fp: y as i32,
            vx_fp: vx as i32,
            vy_fp: vy as i32,
            grounded: false,
            coyote_left: coyote as u8,
            jump_buffer_left: buffer as u8,
        }
    }
}

/// The state after the first `n` inputs.
pub open spec fn sim_state_after(p: PhysicsProfile, inputs: Seq<InputFrame>, n: nat) -> SimState
    decreases n,
{
    if n == 0 {
        sim_initial(p)
    } else {
        sim_step(p, sim_state_after(p, inputs, (n - 1) as nat), inputs[n - 1])
    }
}

/// No frame of the simulation of `inputs` leaves the `i32` range.
pub open spec fn trace_fits(p: PhysicsProfile, inputs: Seq<InputFrame>) -> bool {
    forall|i: nat|
        i < inputs.len() ==> #[trigger] sim_step_fits(
            p,
            sim_state_after(p, inputs, i),
            inputs[i as int],
        )
}

/// The trace record of frame `i`, taken from the state after it.
pub open spec fn trace_frame_of(i: int, s: SimState) -> TraceFrame {
    TraceFrame {
        frame: i as u32,
        x_fp: s.x_fp,
        y_fp: s.y_fp,
        vx_fp: s.vx_fp,
        vy_fp: s.vy_fp,
        grounded: s.grounded,
    }
}

/// One frame of the flat-floor simulation.
pub fn sim_advance(p: &PhysicsProfile, s: SimState, input: InputFrame) -> (r: SimState)
    requires
        sim_step_fits(*p, s, input),
    ensures
        r == sim_step(*p, s, input),
{
    let mut state = s;
    if input.jump_pressed {
        state.jump_buffer_left = p.jump_buffer_frames;
    }
    let dir = direction(input);
    let accel = if state.grounded { p.ground_accel_fp } else { p.air_accel_fp };
    state.vx_fp = run_velocity(state.vx_fp, accel, p.max_run_speed_fp, dir);

    if state.grounded {
        state.coyote_left = p.coyote_frames;
    } else if state.coyote_left > 0 {
        state.coyote_left = state.coyote_left - 1;
    }
    if state.jump_buffer_left > 0 {
        state.jump_buffer_left = state.jump_buffer_left - 1;
    }
    if state.jump_buffer_left > 0 && (state.grounded || state.coyote_left > 0) {
        state.vy_fp = p.jump_velocity_fp;
        state.grounded = false;
        state.coyote_left = 0;
        state.jump_buffer_left = 0;
    }
    if input.climb_up || input.climb_down {
        state.vy_fp = climb_velocity(input, p.ladder_speed_fp);
    } else {
        state.vy_fp = fall_velocity(state.vy_fp, p.gravity_fp, p.max_fall_speed_fp);
    }
    state.x_fp = state.x_fp + state.vx_fp;
    state.y_fp = state.y_fp + state.vy_fp;
    if state.y_fp >= 0 {
        state.y_fp = 0;
        state.vy_fp = 0;
        state.grounded = true;
    } else {
        state.grounded = false;
    }
    state
}

/// Runs the flat-floor simulation over `inputs` and records every frame.
pub fn simulate_trace(profile: &PhysicsProfile, inputs: &[InputFrame]) -> (out: Vec<TraceFrame>)
    requires
        trace_fits(*profile, inputs@),
    ensures
        out.len() == inputs.len(),
        forall|i: int|
            0 <= i < inputs.len() ==> out[i] == trace_frame_of(
                i,
                #[trigger] sim_state_after(*profile, inputs@, (i + 1) as nat),
            ),
{
    let mut state = SimState {
        x_fp: 0,
        y_fp: 0,
        vx_fp: 0,
        vy_fp: 0,
        grounded: true,
        coyote_left: profile.coyote_frames,
        jump_buffer_left: 0,
    };
    let mut output: Vec<TraceFrame> = Vec::new();
    let n = inputs.len();
    let mut i: usize = 0;
    while i < n
        invariant
            n == inputs.len(),
            0 <= i <= n,
            output.len() == i,
            trace_fits(*profile, inputs@),
            state == sim_state_after(*profile, inputs@, i as nat),
            forall|j: int|
                0 <= j < i ==> output[j] == trace_frame_of(
                    j,
                    #[trigger] sim_state_after(*profile, inputs@, (j + 1) as nat),
                ),
        decreases n - i,
    {
        proof {
            assert(sim_step_fits(*profile, sim_state_after(*profile, inputs@, i as nat), inputs@[(i as nat) as int]));
        }
        state = sim_advance(profile, state, inputs[i]);
        output.push(
            TraceFrame {
                frame: #[verifier::truncate] (i as u32),
                x_fp: state.x_fp,
                y_fp: state.y_fp,
                vx_fp: state.vx_fp,
                vy_fp: state.vy_fp,
                grounded: state.grounded,
            },
        );
        i = i + 1;
    }
    output
}

/// Law: every frame of the flat-floor simulation stays on or above the
/// floor line, is grounded exactly when it stands on it, and has no
/// vertical speed while grounded.
pub proof fn lemma_trace_stays_above_floor(p: PhysicsProfile, inputs: Seq<InputFrame>, n: nat)
    requires
        1 <= n <= inputs.len(),
        trace_fits(p, inputs),
    ensures
        sim_state_after(p, inputs, n).y_fp <= 0,
        sim_state_after(p, inputs, n).grounded <==> sim_state_after(p, inputs, n).y_fp == 0,
        sim_state_after(p, inputs, n).grounded ==> sim_state_after(p, inputs, n).vy_fp == 0,
{
    let s = sim_state_after(p, inputs, (n - 1) as nat);
    assert(sim_step_fits(p, s, inputs[((n - 1) as nat) as int]));
}

/// Law: with non-negative accelerations and run speed, the horizontal
/// speed of every frame of a trace stays within the run speed, and each
/// frame moves the position by that frame's speed.
pub proof fn lemma_trace_speed_bounded(p: PhysicsProfile, inputs: Seq<InputFrame>, n: nat)
    requires
        p.ground_accel_fp >= 0,
        p.air_accel_fp >= 0,
        p.max_run_speed_fp >= 0,
        n <= inputs.len(),
        trace_fits(p, inputs),
    ensures
        -p.max_run_speed_fp <= sim_state_after(p, inputs, n).vx_fp <= p.max_run_speed_fp,
        n >= 1 ==> sim_state_after(p, inputs, n).x_fp == sim_state_after(p, inputs, (n - 1) as nat).x_fp
            + sim_state_after(p, inputs, n).vx_fp,
    decreases n,
{
    if n >= 1 {
        let m = (n - 1) as nat;
        lemma_trace_speed_bounded(p, inputs, m);
        let s = sim_state_after(p, inputs, m);
        let input = inputs[m as int];
        assert(sim_step_fits(p, s, input));
        let v = sim_vx(p, s, input);
        assert(-p.max_run_speed_fp <= v <= p.max_run_speed_fp);
        assert(sim_state_after(p, inputs, n) == sim_step(p, s, input));
    }
}

proof fn lemma_prefix_state(p: PhysicsProfile, inputs: Seq<InputFrame>, k: nat, n: nat)
    requires
        n <= k <= inputs.len(),
    ensures
        sim_state_after(p, inputs.take(k as int), n) == sim_state_after(p, inputs, n),
    decreases n,
{
    if n >= 1 {
        lemma_prefix_state(p, inputs, k, (n - 1) as nat);
        assert(inputs.take(k as int)[n - 1] == inputs[n - 1]);
    }
}

/// Law: the state after the first `n` frames depends only on the first
/// `n` inputs, so a trace of a shorter input list is a prefix of the trace
/// of the longer one, and fits whenever the longer one does.
pub proof fn lemma_trace_prefix(p: PhysicsProfile, inputs: Seq<InputFrame>, k: nat)
    requires
        k <= inputs.len(),
    ensures
        forall|n: nat| n <= k ==> #[trigger] sim_state_after(p, inputs.take(k as int), n) == sim_state_after(p, inputs, n),
        trace_fits(p, inputs) ==> trace_fits(p, inputs.take(k as int)),
{
    assert forall|n: nat| n <= k implies #[trigger] sim_state_after(p, inputs.take(k as int), n) == sim_state_after(
        p,
        inputs,
        n,
    ) by {
        lemma_prefix_state(p, inputs, k, n);
    }
    if trace_fits(p, inputs) {
        assert forall|i: nat| i < inputs.take(k as int).len() implies #[trigger] sim_step_fits(
            p,
            sim_state_after(p, inputs.take(k as int), i),
            inputs.take(k as int)[i as int],
        ) by {
            lemma_prefix_state(p, inputs, k, i);
            assert(sim_step_fits(p, sim_state_after(p, inputs, i), inputs[i as int]));
        }
    }
}

/// Law: a frame that starts in the air with no coyote frames left and asks
/// for no climb cannot jump: its vertical speed is the old one plus
/// gravity, capped at the fall speed, unless that lands the player on the
/// floor, where it stops.
pub proof fn lemma_no_jump_in_mid_air(p: PhysicsProfile, s: SimState, input: InputFrame)
    requires
        sim_step_fits(p, s, input),
        !s.grounded,
        s.coyote_left == 0,
        !input.climb_up,
        !input.climb_down,
    ensures
        ({
            let fall = if s.vy_fp + p.gravity_fp <= p.max_fall_speed_fp {
                s.vy_fp + p.gravity_fp
            } else {
                p.max_fall_speed_fp as int
            };
            let n = sim_step(p, s, input);
            if s.y_fp + fall >= 0 {
                n.grounded && n.y_fp == 0 && n.vy_fp == 0
            } else {
                !n.grounded && n.y_fp == s.y_fp + fall && n.vy_fp == fall
            }
        }),
{
}

} // verus!
