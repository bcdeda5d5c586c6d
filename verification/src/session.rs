//! An interactive playtest of a scene: the player rectangle moves frame by
//! frame under a physics profile and collides with the scene's tiles.
use vstd::prelude::*;
use crate::project::{Checkpoint, PhysicsProfile, PointI16, SceneResource, SpawnPoint};
use crate::platformer::{
    InputFrame, in_i32, spec_run_velocity, run_velocity_fits, sim_accel, spec_direction,
    spec_climb_velocity, spec_fall_velocity, fixed_point_from_pixels, direction, run_velocity,
    climb_velocity, fall_velocity,
};
use crate::collision::{
    TileFlag, rect_has_flag, stands_on_solid, spec_resolve_horizontal, spec_resolve_vertical,
    rect_overlaps_flag, touching_solid_below, resolve_horizontal_collision,
    resolve_vertical_collision,
};
use crate::text::str_equal;

verus! {

/// The player state that a playtest shows after each frame.
#[derive(Debug, Clone, Copy, PartialEq, Eq, Default)]
pub struct PlaytestState {
    pub frame: u32,
    pub x_fp: i32,
    pub y_fp: i32,
    pub vx_fp: i32,
    pub vy_fp: i32,
    pub grounded: bool,
    pub on_ladder: bool,
    pub touching_hazard: bool,
}

/// Why a playtest could not be restarted.
#[derive(Debug, Clone, PartialEq, Eq)]
pub enum PlaytestError {
    /// No spawn point of the scene has this id.
    MissingSpawn(String),
    /// No checkpoint of the scene has this id.
    MissingCheckpoint(String),
}

/// The message of a restart error.
pub open spec fn spec_playtest_error_message(e: PlaytestError) -> Seq<char> {
    match e {
        PlaytestError::MissingSpawn(id) => "spawn '"@ + id@ + "' is missing"@,
        PlaytestError::MissingCheckpoint(id) => "checkpoint '"@ + id@ + "' is missing"@,
    }
}

impl PlaytestError {
    /// The message of the error.
    pub fn message(&self) -> (m: String)
        ensures
            m@ == spec_playtest_error_message(*self),
    {
        match self {
            PlaytestError::MissingSpawn(id) => {
                let mut m = String::from_str("spawn '");
                m.append(id.as_str());
                m.append("' is missing");
                m
            },
            PlaytestError::MissingCheckpoint(id) => {
                let mut m = String::from_str("checkpoint '");
                m.append(id.as_str());
                m.append("' is missing");
                m
            },
        }
    }
}

/// Width and height of the player rectangle, in pixels.
pub const DEFAULT_PLAYER_WIDTH_PX: i16 = 16;
pub const DEFAULT_PLAYER_HEIGHT_PX: i16 = 16;

/// A playtest of one scene under one physics profile.
#[derive(Debug)]
pub struct PlaytestSession {
    scene: SceneResource,
    profile: PhysicsProfile,
    state: PlaytestState,
    coyote_left: u8,
    jump_buffer_left: u8,
    player_width_px: i16,
    player_height_px: i16,
}

/// A coordinate that the session keeps its player within.
pub open spec fn position_bounded(v: int) -> bool {
    -0x1000_0000 <= v <= 0x1000_0000
}

/// The player rectangle at (`x`, `y`) touches a ladder tile.
pub open spec fn ladder_at(scene: SceneResource, x: int, y: int) -> bool {
    rect_has_flag(scene, x, y, 16, 16, TileFlag::Ladder)
}

/// The player rectangle at (`x`, `y`) touches a hazard tile.
pub open spec fn hazard_at(scene: SceneResource, x: int, y: int) -> bool {
    rect_has_flag(scene, x, y, 16, 16, TileFlag::Hazard)
}

/// The player state after a restart at `position`, frame count zero and
/// standing still.
pub open spec fn spec_reset_state(scene: SceneResource, position: PointI16) -> PlaytestState {
    let x = position.x * 256;
    let y = position.y * 256;
    PlaytestState {
        frame: 0,
        x_fp: x as i32,
        y_fp: y as i32,
        vx_fp: 0,
        vy_fp: 0,
        grounded: stands_on_solid(scene, x, y, 16, 16),
        on_ladder: ladder_at(scene, x, y),
        touching_hazard: hazard_at(scene, x, y),
    }
}

/// Coyote frames after a restart: full when it starts on the ground.
pub open spec fn spec_reset_coyote(scene: SceneResource, p: PhysicsProfile, position: PointI16) -> u8 {
    if spec_reset_state(scene, position).grounded { p.coyote_frames } else { 0 }
}

/// The position where a playtest starts by default: the first spawn, else
/// the first checkpoint, else the scene origin.
pub open spec fn spec_default_start(scene: SceneResource) -> PointI16 {
    if scene.spawns.len() > 0 {
        scene.spawns[0].position
    } else if scene.checkpoints.len() > 0 {
        scene.checkpoints[0].position
    } else {
        PointI16 { x: 0, y: 0 }
    }
}

/// Jump buffer of this frame: refilled by a press, else counting down.
pub open spec fn session_buffer(p: PhysicsProfile, buffer: u8, input: InputFrame) -> int {
    if input.jump_pressed {
        p.jump_buffer_frames as int
    } else if buffer > 0 {
        buffer - 1
    } else {
        0
    }
}

/// Coyote frames of this frame: refilled on the ground, else counting down.
pub open spec fn session_coyote(p: PhysicsProfile, s: PlaytestState, coyote: u8) -> int {
    if s.grounded {
        p.coyote_frames as int
    } else if coyote > 0 {
        coyote - 1
    } else {
        0
    }
}

/// The player climbs on this frame: it touches a ladder and asks to climb.
pub open spec fn session_climbs(scene: SceneResource, s: PlaytestState, input: InputFrame) -> bool {
    ladder_at(scene, s.x_fp as int, s.y_fp as int) && (input.climb_up || input.climb_down)
}

/// The player starts a jump on this frame: a buffered press while on the
/// ground, within coyote time, or on a ladder.
pub open spec fn session_jumps(
    scene: SceneResource,
    p: PhysicsProfile,
    s: PlaytestState,
    coyote: u8,
    buffer: u8,
    input: InputFrame,
) -> bool {
    &&& !session_climbs(scene, s, input)
    &&& session_buffer(p, buffer, input) > 0
    &&& (s.grounded || session_coyote(p, s, coyote) > 0 || ladder_at(
        scene,
        s.x_fp as int,
        s.y_fp as int,
    ))
}

/// Horizontal speed asked by this frame, before collision.
pub open spec fn session_vx(p: PhysicsProfile, s: PlaytestState, input: InputFrame) -> int {
    spec_run_velocity(
        s.vx_fp as int,
        sim_accel(p, s.grounded),
        p.max_run_speed_fp as int,
        spec_direction(input),
    )
}

/// Vertical speed asked by this frame, before collision.
pub open spec fn session_vy(
    scene: SceneResource,
    p: PhysicsProfile,
    s: PlaytestState,
    coyote: u8,
    buffer: u8,
    input: InputFrame,
) -> int {
    if session_climbs(scene, s, input) {
        spec_climb_velocity(input, p.ladder_speed_fp as int)
    } else if session_jumps(scene, p, s, coyote, buffer, input) {
        p.jump_velocity_fp as int
    } else {
        spec_fall_velocity(s.vy_fp as int, p.gravity_fp as int, p.max_fall_speed_fp as int)
    }
}

/// Every intermediate value of this frame fits in `i32`.
pub open spec fn session_step_fits(
    scene: SceneResource,
    p: PhysicsProfile,
    s: PlaytestState,
    coyote: u8,
    buffer: u8,
    input: InputFrame,
) -> bool {
    &&& run_velocity_fits(
        s.vx_fp as int,
        sim_accel(p, s.grounded),
        p.max_run_speed_fp as int,
        spec_direction(input),
    )
    &&& (session_climbs(scene, s, input) && input.climb_up ==> in_i32(
        -(p.ladder_speed_fp as int),
    ))
    &&& (!session_climbs(scene, s, input) && !session_jumps(scene, p, s, coyote, buffer, input)
        ==> in_i32(s.vy_fp + p.gravity_fp))
    &&& in_i32(s.x_fp + session_vx(p, s, input))
    &&& in_i32(s.x_fp + session_vx(p, s, input) + 4096)
    &&& in_i32(s.y_fp + session_vy(scene, p, s, coyote, buffer, input))
    &&& in_i32(s.y_fp + session_vy(scene, p, s, coyote, buffer, input) + 4352)
}

/// Horizontal collision of this frame.
pub open spec fn session_horizontal(p: PhysicsProfile, scene: SceneResource, s: PlaytestState, input: InputFrame) -> (int, bool) {
    let vx = session_vx(p, s, input);
    spec_resolve_horizontal(scene, s.x_fp + vx, s.y_fp as int, 16, 16, vx)
}

/// Vertical collision of this frame.
pub open spec fn session_vertical(
    scene: SceneResource,
    p: PhysicsProfile,
    s: PlaytestState,
    coyote: u8,
    buffer: u8,
    input: InputFrame,
) -> (int, bool, bool) {
    let vy = session_vy(scene, p, s, coyote, buffer, input);
    let x = session_horizontal(p, scene, s, input).0;
    spec_resolve_vertical(scene, x, s.y_fp + vy, 16, 16, vy)
}

/// The player state after one frame.
pub open spec fn session_next_state(
    scene: SceneResource,
    p: PhysicsProfile,
    s: PlaytestState,
    coyote: u8,
    buffer: u8,
    input: InputFrame,
) -> PlaytestState {
    let (x, hit_x) = session_horizontal(p, scene, s, input);
    let (y, hit_y, grounded) = session_vertical(scene, p, s, coyote, buffer, input);
    PlaytestState {
        frame: if s.frame == u32::MAX { u32::MAX } else { (s.frame + 1) as u32 },
        x_fp: x as i32,
        y_fp: y as i32,
        vx_fp: if hit_x { 0 } else { session_vx(p, s, input) as i32 },
        vy_fp: if hit_y { 0 } else { session_vy(scene, p, s, coyote, buffer, input) as i32 },
        grounded,
        on_ladder: ladder_at(scene, x, y),
        touching_hazard: hazard_at(scene, x, y),
    }
}

/// Coyote frames after one frame.
pub open spec fn session_next_coyote(
    scene: SceneResource,
    p: PhysicsProfile,
    s: PlaytestState,
    coyote: u8,
    buffer: u8,
    input: InputFrame,
) -> u8 {
    if session_vertical(scene, p, s, coyote, buffer, input).2 {
        p.coyote_frames
    } else if session_jumps(scene, p, s, coyote, buffer, input) {
        0
    } else {
        session_coyote(p, s, coyote) as u8
    }
}

/// Jump buffer after one frame.
pub open spec fn session_next_buffer(
    scene: SceneResource,
    p: PhysicsProfile,
    s: PlaytestState,
    coyote: u8,
    buffer: u8,
    input: InputFrame,
) -> u8 {
    if session_jumps(scene, p, s, coyote, buffer, input) {
        0
    } else {
        session_buffer(p, buffer, input) as u8
    }
}

/// Law: a frame that starts with the player touching no ladder tile never
/// climbs: unless a collision stops it, its vertical speed is the jump
/// speed or the old speed plus gravity, capped at the fall speed, and
/// never the ladder speed of a climb.
pub proof fn lemma_no_climb_without_ladder(
    scene: SceneResource,
    p: PhysicsProfile,
    s: PlaytestState,
    coyote: u8,
    buffer: u8,
    input: InputFrame,
)
    requires
        session_step_fits(scene, p, s, coyote, buffer, input),
        !rect_has_flag(scene, s.x_fp as int, s.y_fp as int, 16, 16, TileFlag::Ladder),
    ensures
        ({
            let fall = if s.vy_fp + p.gravity_fp <= p.max_fall_speed_fp {
                s.vy_fp + p.gravity_fp
            } else {
                p.max_fall_speed_fp as int
            };
            let n = session_next_state(scene, p, s, coyote, buffer, input);
            n.vy_fp == 0 || n.vy_fp == p.jump_velocity_fp || n.vy_fp == fall
        }),
{
}

/// Index of the first spawn with this id.
pub open spec fn is_first_spawn(spawns: Seq<SpawnPoint>, id: Seq<char>, i: int) -> bool {
    &&& 0 <= i < spawns.len()
    &&& spawns[i].id@ == id
    &&& forall|j: int| 0 <= j < i ==> #[trigger] spawns[j].id@ != id
}

/// Index of the first checkpoint with this id.
pub open spec fn is_first_checkpoint(checkpoints: Seq<Checkpoint>, id: Seq<char>, i: int) -> bool {
    &&& 0 <= i < checkpoints.len()
    &&& checkpoints[i].id@ == id
    &&& forall|j: int| 0 <= j < i ==> #[trigger] checkpoints[j].id@ != id
}

/// Every result of the resolvers keeps the player within bounds.
proof fn lemma_resolved_bounded(scene: SceneResource, x: int, y: int, dx: int, dy: int)
    requires
        in_i32(x + 4096),
        in_i32(y + 4352),
    ensures
        position_bounded(spec_resolve_horizontal(scene, x, y, 16, 16, dx).0),
        position_bounded(spec_resolve_vertical(scene, x, y, 16, 16, dy).0),
{
}

/// Whether a value fits in `i32`.
pub fn fits_i32(v: i64) -> (r: bool)
    ensures
        r == in_i32(v as int),
{
    i32::MIN as i64 <= v && v <= i32::MAX as i64
}

impl PlaytestSession {
    #[verifier::type_invariant]
    spec fn inv(&self) -> bool {
        &&& self.player_width_px == 16
        &&& self.player_height_px == 16
        &&& position_bounded(self.state.x_fp as int)
        &&& position_bounded(self.state.y_fp as int)
    }

    /// The scene being played.
    pub closed spec fn spec_scene(&self) -> SceneResource {
        self.scene
    }

    /// The physics profile in use.
    pub closed spec fn spec_profile(&self) -> PhysicsProfile {
        self.profile
    }

    /// The current player state.
    pub closed spec fn spec_state(&self) -> PlaytestState {
        self.state
    }

    /// Coyote frames left.
    pub closed spec fn spec_coyote(&self) -> u8 {
        self.coyote_left
    }

    /// Buffered jump frames left.
    pub closed spec fn spec_buffer(&self) -> u8 {
        self.jump_buffer_left
    }

    /// The next frame stays within `i32` arithmetic.
    pub open spec fn step_fits(&self, input: InputFrame) -> bool {
        session_step_fits(
            self.spec_scene(),
            self.spec_profile(),
            self.spec_state(),
            self.spec_coyote(),
            self.spec_buffer(),
            input,
        )
    }

    /// The session is in the state of a restart at `position`.
    pub open spec fn is_reset_at(&self, scene: SceneResource, p: PhysicsProfile, position: PointI16) -> bool {
        &&& self.spec_scene() == scene
        &&& self.spec_profile() == p
        &&& self.spec_state() == spec_reset_state(scene, position)
        &&& self.spec_coyote() == spec_reset_coyote(scene, p, position)
        &&& self.spec_buffer() == 0
    }

    /// Starts a playtest of `scene` at its default start.
    pub fn new(scene: SceneResource, profile: PhysicsProfile) -> (s: Self)
        ensures
            s.is_reset_at(scene, profile, spec_default_start(scene)),
    {
        let mut session = PlaytestSession {
            scene,
            profile,
            state: PlaytestState {
                frame: 0,
                x_fp: 0,
                y_fp: 0,
                vx_fp: 0,
                vy_fp: 0,
                grounded: false,
                on_ladder: false,
                touching_hazard: false,
            },
            coyote_left: 0,
            jump_buffer_left: 0,
            player_width_px: DEFAULT_PLAYER_WIDTH_PX,
            player_height_px: DEFAULT_PLAYER_HEIGHT_PX,
        };
        session.reset_to_default_start();
        session
    }

    /// The current player state.
    pub fn state(&self) -> (s: PlaytestState)
        ensures
            s == self.spec_state(),
    {
        self.state
    }

    /// Restarts at the first spawn, else at the first checkpoint, else at
    /// the scene origin.
    pub fn reset_to_default_start(&mut self) -> (r: PlaytestState)
        ensures
            final(self).is_reset_at(
                old(self).spec_scene(),
                old(self).spec_profile(),
                spec_default_start(old(self).spec_scene()),
            ),
            r == final(self).spec_state(),
    {
        let position = if self.scene.spawns.len() > 0 {
            self.scene.spawns[0].position
        } else if self.scene.checkpoints.len() > 0 {
            self.scene.checkpoints[0].position
        } else {
            PointI16 { x: 0, y: 0 }
        };
        self.reset_to_position(position)
    }

    /// Restarts at `position`, standing still.
    pub fn reset_to_position(&mut self, position: PointI16) -> (r: PlaytestState)
        ensures
            final(self).is_reset_at(old(self).spec_scene(), old(self).spec_profile(), position),
            r == final(self).spec_state(),
    {
        proof {
            use_type_invariant(&*self);
        }
        let x_fp = fixed_point_from_pixels(position.x as i32);
        let y_fp = fixed_point_from_pixels(position.y as i32);
        let on_ladder = rect_overlaps_flag(&self.scene, x_fp, y_fp, 16, 16, TileFlag::Ladder);
        let touching_hazard = rect_overlaps_flag(&self.scene, x_fp, y_fp, 16, 16, TileFlag::Hazard);
        let grounded = touching_solid_below(&self.scene, x_fp, y_fp, 16, 16);
        self.state = PlaytestState {
            frame: 0,
            x_fp,
            y_fp,
            vx_fp: 0,
            vy_fp: 0,
            grounded,
            on_ladder,
            touching_hazard,
        };
        self.jump_buffer_left = 0;
        self.coyote_left = if grounded { self.profile.coyote_frames } else { 0 };
        self.state
    }

    /// Restarts at a spawn point.
    pub fn reset_to_spawn(&mut self, spawn: &SpawnPoint) -> (r: PlaytestState)
        ensures
            final(self).is_reset_at(old(self).spec_scene(), old(self).spec_profile(), spawn.position),
            r == final(self).spec_state(),
    {
        self.reset_to_position(spawn.position)
    }

    /// Restarts at a checkpoint.
    pub fn reset_to_checkpoint(&mut self, checkpoint: &Checkpoint) -> (r: PlaytestState)
        ensures
            final(self).is_reset_at(
                old(self).spec_scene(),
                old(self).spec_profile(),
                checkpoint.position,
            ),
            r == final(self).spec_state(),
    {
        self.reset_to_position(checkpoint.position)
    }

    /// Restarts at the first spawn of the scene with this id; fails, and
    /// changes nothing, when there is none.
    pub fn reset_to_spawn_id(&mut self, spawn_id: &str) -> (r: Result<PlaytestState, PlaytestError>)
        ensures
            match r {
                Ok(s) => exists|i: int|
                    #![trigger old(self).spec_scene().spawns@[i]]
                    is_first_spawn(old(self).spec_scene().spawns@, spawn_id@, i)
                        && final(self).is_reset_at(
                        old(self).spec_scene(),
                        old(self).spec_profile(),
                        old(self).spec_scene().spawns@[i].position,
                    ) && s == final(self).spec_state(),
                Err(e) => {
                    &&& forall|i: int|
                        0 <= i < old(self).spec_scene().spawns@.len()
                            ==> #[trigger] old(self).spec_scene().spawns@[i].id@ != spawn_id@
                    &&& e matches PlaytestError::MissingSpawn(id) && id@ == spawn_id@
                    &&& *final(self) == *old(self)
                },
            },
    {
        let n = self.scene.spawns.len();
        let mut i: usize = 0;
        while i < n
            invariant
                n == self.scene.spawns@.len(),
                i <= n,
                *self == *old(self),
                forall|j: int| 0 <= j < i ==> #[trigger] self.scene.spawns@[j].id@ != spawn_id@,
            decreases n - i,
        {
            if str_equal(self.scene.spawns[i].id.as_str(), spawn_id) {
                assert(is_first_spawn(self.scene.spawns@, spawn_id@, i as int));
                let position = self.scene.spawns[i].position;
                let state = self.reset_to_position(position);
                return Ok(state);
            }
            i = i + 1;
        }
        Err(PlaytestError::MissingSpawn(String::from_str(spawn_id)))
    }

    /// Restarts at the first checkpoint of the scene with this id; fails,
    /// and changes nothing, when there is none.
    pub fn reset_to_checkpoint_id(&mut self, checkpoint_id: &str) -> (r: Result<
        PlaytestState,
        PlaytestError,
    >)
        ensures
            match r {
                Ok(s) => exists|i: int|
                    #![trigger old(self).spec_scene().checkpoints@[i]]
                    is_first_checkpoint(old(self).spec_scene().checkpoints@, checkpoint_id@, i)
                        && final(self).is_reset_at(
                        old(self).spec_scene(),
                        old(self).spec_profile(),
                        old(self).spec_scene().checkpoints@[i].position,
                    ) && s == final(self).spec_state(),
                Err(e) => {
                    &&& forall|i: int|
                        0 <= i < old(self).spec_scene().checkpoints@.len()
                            ==> #[trigger] old(self).spec_scene().checkpoints@[i].id@
                            != checkpoint_id@
                    &&& e matches PlaytestError::MissingCheckpoint(id) && id@ == checkpoint_id@
                    &&& *final(self) == *old(self)
                },
            },
    {
        let n = self.scene.checkpoints.len();
        let mut i: usize = 0;
        while i < n
            invariant
                n == self.scene.checkpoints@.len(),
                i <= n,
                *self == *old(self),
                forall|j: int|
                    0 <= j < i ==> #[trigger] self.scene.checkpoints@[j].id@ != checkpoint_id@,
            decreases n - i,
        {
            if str_equal(self.scene.checkpoints[i].id.as_str(), checkpoint_id) {
                assert(is_first_checkpoint(self.scene.checkpoints@, checkpoint_id@, i as int));
                let position = self.scene.checkpoints[i].position;
                let state = self.reset_to_position(position);
                return Ok(state);
            }
            i = i + 1;
        }
        Err(PlaytestError::MissingCheckpoint(String::from_str(checkpoint_id)))
    }

    /// Whether the next frame with `input` stays within `i32` arithmetic,
    /// so that `step` may be called.
    pub fn can_step(&self, input: InputFrame) -> (ok: bool)
        ensures
            ok == self.step_fits(input),
    {
        proof {
            use_type_invariant(self);
        }
        let s = self.state;
        let p = &self.profile;
        let buffer: i64 = if input.jump_pressed {
            p.jump_buffer_frames as i64
        } else if self.jump_buffer_left > 0 {
            self.jump_buffer_left as i64 - 1
        } else {
            0
        };
        let coyote: i64 = if s.grounded {
            p.coyote_frames as i64
        } else if self.coyote_left > 0 {
            self.coyote_left as i64 - 1
        } else {
            0
        };
        let ladder_contact = rect_overlaps_flag(&self.scene, s.x_fp, s.y_fp, 16, 16, TileFlag::Ladder);
        let climbs = ladder_contact && (input.climb_up || input.climb_down);
        let jumps = !climbs && buffer > 0 && (s.grounded || coyote > 0 || ladder_contact);
        let dir = direction(input);
        let accel = if s.grounded { p.ground_accel_fp } else { p.air_accel_fp } as i64;
        let vx0 = s.vx_fp as i64;
        let max_run = p.max_run_speed_fp as i64;
        let run_fits = if dir < 0 {
            fits_i32(vx0 - accel) && fits_i32(-max_run)
        } else if dir > 0 {
            fits_i32(vx0 + accel)
        } else if vx0 > 0 {
            fits_i32(vx0 - accel)
        } else if vx0 < 0 {
            fits_i32(vx0 + accel)
        } else {
            true
        };
        if !run_fits {
            return false;
        }
        let vx = run_velocity(s.vx_fp, accel as i32, p.max_run_speed_fp, dir) as i64;
        let ladder = p.ladder_speed_fp as i64;
        if climbs && input.climb_up && !fits_i32(-ladder) {
            return false;
        }
        let vy: i64 = if climbs {
            if input.climb_up { -ladder } else { ladder }
        } else if jumps {
            p.jump_velocity_fp as i64
        } else {
            let sum = s.vy_fp as i64 + p.gravity_fp as i64;
            if !fits_i32(sum) {
                return false;
            }
            if sum <= p.max_fall_speed_fp as i64 { sum } else { p.max_fall_speed_fp as i64 }
        };
        let x = s.x_fp as i64;
        let y = s.y_fp as i64;
        fits_i32(x + vx) && fits_i32(x + vx + 4096) && fits_i32(y + vy) && fits_i32(y + vy + 4352)
    }

    /// Advances the playtest by one frame.
    pub fn step(&mut self, input: InputFrame) -> (r: PlaytestState)
        requires
            old(self).step_fits(input),
        ensures
            final(self).spec_scene() == old(self).spec_scene(),
            final(self).spec_profile() == old(self).spec_profile(),
            final(self).spec_state() == session_next_state(
                old(self).spec_scene(),
                old(self).spec_profile(),
                old(self).spec_state(),
                old(self).spec_coyote(),
                old(self).spec_buffer(),
                input,
            ),
            final(self).spec_coyote() == session_next_coyote(
                old(self).spec_scene(),
                old(self).spec_profile(),
                old(self).spec_state(),
                old(self).spec_coyote(),
                old(self).spec_buffer(),
                input,
            ),
            final(self).spec_buffer() == session_next_buffer(
                old(self).spec_scene(),
                old(self).spec_profile(),
                old(self).spec_state(),
                old(self).spec_coyote(),
                old(self).spec_buffer(),
                input,
            ),
            r == final(self).spec_state(),
    {
        proof {
            use_type_invariant(&*self);
        }
        let s = self.state;
        let frame = s.frame.saturating_add(1);
        let mut buffer = self.jump_buffer_left;
        if input.jump_pressed {
            buffer = self.profile.jump_buffer_frames;
        } else if buffer > 0 {
            buffer = buffer - 1;
        }
        let mut coyote = self.coyote_left;
        if s.grounded {
            coyote = self.profile.coyote_frames;
        } else if coyote > 0 {
            coyote = coyote - 1;
        }
        let ladder_contact = rect_overlaps_flag(&self.scene, s.x_fp, s.y_fp, 16, 16, TileFlag::Ladder);
        let dir = direction(input);
        let accel = if s.grounded { self.profile.ground_accel_fp } else { self.profile.air_accel_fp };
        let vx = run_velocity(s.vx_fp, accel, self.profile.max_run_speed_fp, dir);
        let vy;
        if ladder_contact && (input.climb_up || input.climb_down) {
            vy = climb_velocity(input, self.profile.ladder_speed_fp);
        } else if buffer > 0 && (s.grounded || coyote > 0 || ladder_contact) {
            vy = self.profile.jump_velocity_fp;
            buffer = 0;
            coyote = 0;
        } else {
            vy = fall_velocity(s.vy_fp, self.profile.gravity_fp, self.profile.max_fall_speed_fp);
        }
        assert(ladder_contact == ladder_at(self.scene, s.x_fp as int, s.y_fp as int));
        assert(vx == session_vx(self.profile, s, input));
        assert(vy == session_vy(self.scene, self.profile, s, self.coyote_left, self.jump_buffer_left, input));
        let (x_fp, hit_x) = resolve_horizontal_collision(&self.scene, s.x_fp + vx, s.y_fp, 16, 16, vx);
        proof {
            lemma_resolved_bounded(self.scene, s.x_fp + vx, s.y_fp as int, vx as int, vy as int);
        }
        let vx_after = if hit_x { 0 } else { vx };
        let (y_fp, hit_y, grounded) = resolve_vertical_collision(&self.scene, x_fp, s.y_fp + vy, 16, 16, vy);
        proof {
            lemma_resolved_bounded(self.scene, x_fp as int, s.y_fp + vy, vx as int, vy as int);
        }
        let vy_after = if hit_y { 0 } else { vy };
        let on_ladder = rect_overlaps_flag(&self.scene, x_fp, y_fp, 16, 16, TileFlag::Ladder);
        let touching_hazard = rect_overlaps_flag(&self.scene, x_fp, y_fp, 16, 16, TileFlag::Hazard);
        if grounded {
            coyote = self.profile.coyote_frames;
        }
        self.state = PlaytestState {
            frame,
            x_fp,
            y_fp,
            vx_fp: vx_after,
            vy_fp: vy_after,
            grounded,
            on_ladder,
            touching_hazard,
        };
        self.coyote_left = coyote;
        self.jump_buffer_left = buffer;
        self.state
    }
}

} // verus!
