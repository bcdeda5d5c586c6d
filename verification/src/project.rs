//! The project data that the compilers, the exporter and the playtest
//! simulation read: scenes, their tile layers and collision flags, the
//! objects placed in them, and the graphics resources they refer to.
use vstd::prelude::*;
use crate::events::{EventScript, TriggerKind};

verus! {

/// A point in scene pixels.
#[derive(Debug, Clone, Copy, PartialEq, Eq, Default, Structural)]
pub struct PointI16 {
    pub x: i16,
    pub y: i16,
}

/// A rectangle in scene pixels.
#[derive(Debug, Clone, Copy, PartialEq, Eq, Default, Structural)]
pub struct RectI16 {
    pub x: i16,
    pub y: i16,
    pub width: u16,
    pub height: u16,
}

/// A size measured in 8x8 tiles.
#[derive(Debug, Clone, Copy, PartialEq, Eq, Default, Structural)]
pub struct GridSize {
    pub width: u16,
    pub height: u16,
}

impl GridSize {
    /// Number of cells of a grid of this size.
    pub fn tile_count(&self) -> (n: usize)
        ensures
            n == self.width * self.height,
    {
        assert(self.width * self.height <= 65535 * 65535) by (nonlinear_arith)
            requires
                self.width <= 65535,
                self.height <= 65535,
        ;
        (self.width as usize) * (self.height as usize)
    }
}

/// The genre of a scene, which decides the compiler that handles it.
#[derive(Debug, Clone, Copy, PartialEq, Eq, Structural)]
pub enum SceneKind {
    SideScroller,
    TopDown,
}

/// Facing of a placed entity.
#[derive(Debug, Clone, Copy, PartialEq, Eq, Structural)]
pub enum Facing {
    Left,
    Right,
}

/// Per-cell collision flags of a scene, in row-major order.
#[derive(Debug, Clone)]
pub struct CollisionLayer {
    pub solids: Vec<bool>,
    pub ladders: Vec<bool>,
    pub hazards: Vec<bool>,
}

/// A named position where the player may enter a scene.
#[derive(Debug, Clone)]
pub struct SpawnPoint {
    pub id: String,
    pub position: PointI16,
}

/// A named position where the player resumes after a failure.
#[derive(Debug, Clone)]
pub struct Checkpoint {
    pub id: String,
    pub position: PointI16,
}

/// One tile layer of a scene: tile indices in row-major order.
#[derive(Debug, Clone)]
pub struct TileLayer {
    pub id: String,
    pub tileset_id: String,
    pub visible: bool,
    pub parallax_x: u8,
    pub parallax_y: u8,
    pub tiles: Vec<u16>,
}

/// Kind of a placed entity.
#[derive(Debug, Clone, Copy, PartialEq, Eq, Structural)]
pub enum EntityKind {
    Prop,
    Pickup,
    Enemy,
    Switch,
    Solid,
}

/// What an entity does when the player triggers it.
#[derive(Debug, Clone)]
pub enum EntityAction {
    NoAction,
    HealPlayer { amount: u8 },
    SetEntityActive { target_entity_id: String, active: bool },
}

/// How an entity moves on its own.
#[derive(Debug, Clone, Copy, PartialEq, Eq, Structural)]
pub enum MovementPattern {
    Stationary,
    Patrol { left_offset: i16, right_offset: i16, speed: u8 },
}

/// Combat numbers of an entity.
#[derive(Debug, Clone, Copy, PartialEq, Eq, Structural)]
pub struct CombatStats {
    pub contact_damage: u8,
    pub max_health: u8,
}

/// An entity placed in a scene.
#[derive(Debug, Clone)]
pub struct EntityPlacement {
    pub id: String,
    pub archetype: String,
    pub kind: EntityKind,
    pub position: PointI16,
    pub facing: Facing,
    pub hitbox: RectI16,
    pub combat: CombatStats,
    pub action: EntityAction,
    pub movement: MovementPattern,
    pub active: bool,
    pub one_shot: bool,
}

/// A region of a scene that starts an event script.
#[derive(Debug, Clone)]
pub struct TriggerVolume {
    pub id: String,
    pub kind: TriggerKind,
    pub rect: RectI16,
    pub script_id: String,
}

/// A scene: its grid, layers, collision flags, placed objects, trigger
/// regions and event scripts.
#[derive(Debug, Clone)]
pub struct SceneResource {
    pub id: String,
    pub kind: SceneKind,
    pub size_tiles: GridSize,
    pub chunk_size_tiles: GridSize,
    pub background_color_index: u8,
    pub layers: Vec<TileLayer>,
    pub collision: CollisionLayer,
    pub spawns: Vec<SpawnPoint>,
    pub checkpoints: Vec<Checkpoint>,
    pub entities: Vec<EntityPlacement>,
    pub triggers: Vec<TriggerVolume>,
    pub scripts: Vec<EventScript>,
}

/// Family of a physics profile, which decides its template values.
#[derive(Debug, Clone, Copy, PartialEq, Eq, Structural)]
pub enum PhysicsFamily {
    MegaManLike,
    MarioLike,
    Custom,
}

/// Movement constants of the player, speeds in 1/256 pixel per frame.
#[derive(Debug, Clone)]
pub struct PhysicsProfile {
    pub id: String,
    pub family: PhysicsFamily,
    pub gravity_fp: i32,
    pub max_fall_speed_fp: i32,
    pub ground_accel_fp: i32,
    pub air_accel_fp: i32,
    pub max_run_speed_fp: i32,
    pub jump_velocity_fp: i32,
    pub coyote_frames: u8,
    pub jump_buffer_frames: u8,
    pub ladder_speed_fp: i32,
}

/// An RGBA color of a palette.
#[derive(Debug, Clone, Copy, PartialEq, Eq, Structural)]
pub struct RgbaColor {
    pub r: u8,
    pub g: u8,
    pub b: u8,
    pub a: u8,
}

/// A palette of up to sixteen colors.
#[derive(Debug, Clone)]
pub struct PaletteResource {
    pub id: String,
    pub colors: Vec<RgbaColor>,
}

/// An 8x8 tile: sixty-four palette indices in row-major order.
#[derive(Debug, Clone)]
pub struct Tile8 {
    pub pixels: Vec<u8>,
}

/// A set of tiles drawn with one palette.
#[derive(Debug, Clone)]
pub struct TilesetResource {
    pub id: String,
    pub palette_id: String,
    pub name: String,
    pub tiles: Vec<Tile8>,
}

/// One tile of a metasprite, placed relative to the sprite origin.
#[derive(Debug, Clone, Copy, PartialEq, Eq, Structural)]
pub struct SpriteTileRef {
    pub tile_index: u16,
    pub x: i16,
    pub y: i16,
    pub palette_slot: u8,
    pub h_flip: bool,
    pub v_flip: bool,
}

/// A sprite built from several tiles.
#[derive(Debug, Clone)]
pub struct MetaspriteResource {
    pub id: String,
    pub palette_id: String,
    pub pieces: Vec<SpriteTileRef>,
}

/// One frame of an animation.
#[derive(Debug, Clone)]
pub struct AnimationFrame {
    pub metasprite_id: String,
    pub duration_frames: u16,
}

/// A sequence of metasprites.
#[derive(Debug, Clone)]
pub struct AnimationResource {
    pub id: String,
    pub frames: Vec<AnimationFrame>,
}

/// The fixed-point shift of positions and speeds: one pixel is 256 units.
pub const FIXED_POINT_SHIFT: u32 = 8;

/// The physics profile of the MegaMan-like template.
pub fn default_megaman_like_physics() -> (p: PhysicsProfile)
    ensures
        p.gravity_fp == 72,
        p.max_fall_speed_fp == 1024,
        p.ground_accel_fp == 90,
        p.air_accel_fp == 56,
        p.max_run_speed_fp == 448,
        p.jump_velocity_fp == -1050,
        p.coyote_frames == 4,
        p.jump_buffer_frames == 4,
        p.ladder_speed_fp == 256,
        p.family == PhysicsFamily::MegaManLike,
{
    template_physics_profile(PhysicsFamily::MegaManLike, String::from_str("megaman_like"))
}

/// The template profile of a physics family, with the given id.
pub fn template_physics_profile(family: PhysicsFamily, id: String) -> (p: PhysicsProfile)
    ensures
        p.id == id,
        p.family == family,
        family != PhysicsFamily::MarioLike ==> {
            &&& p.gravity_fp == 72
            &&& p.max_fall_speed_fp == 1024
            &&& p.ground_accel_fp == 90
            &&& p.air_accel_fp == 56
            &&& p.max_run_speed_fp == 448
            &&& p.jump_velocity_fp == -1050
            &&& p.coyote_frames == 4
            &&& p.jump_buffer_frames == 4
            &&& p.ladder_speed_fp == 256
        },
        family == PhysicsFamily::MarioLike ==> {
            &&& p.gravity_fp == 56
            &&& p.max_fall_speed_fp == 1229
            &&& p.ground_accel_fp == 115
            &&& p.air_accel_fp == 72
            &&& p.max_run_speed_fp == 563
            &&& p.jump_velocity_fp == -1229
            &&& p.coyote_frames == 6
            &&& p.jump_buffer_frames == 5
            &&& p.ladder_speed_fp == 307
        },
{
    match family {
        PhysicsFamily::MarioLike => PhysicsProfile {
            id,
            family,
            gravity_fp: 56,
            max_fall_speed_fp: 1229,
            ground_accel_fp: 115,
            air_accel_fp: 72,
            max_run_speed_fp: 563,
            jump_velocity_fp: -1229,
            coyote_frames: 6,
            jump_buffer_frames: 5,
            ladder_speed_fp: 307,
        },
        _ => PhysicsProfile {
            id,
            family,
            gravity_fp: 72,
            max_fall_speed_fp: 1024,
            ground_accel_fp: 90,
            air_accel_fp: 56,
            max_run_speed_fp: 448,
            jump_velocity_fp: -1050,
            coyote_frames: 4,
            jump_buffer_frames: 4,
            ladder_speed_fp: 256,
        },
    }
}

} // verus!
