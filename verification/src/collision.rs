//! Tile collision of a scene: which flags a rectangle touches, and how a
//! moving rectangle is pushed out of solid tiles and back into the scene.
use vstd::prelude::*;
use crate::project::SceneResource;
use crate::platformer::{in_i32, fixed_point_from_pixels, fixed_point_to_pixels_floor};

verus! {

/// Pixels per tile edge.
pub const TILE_SIZE_PX: i32 = 8;

/// The collision flags of one tile cell.
#[derive(Debug, Clone, Copy, PartialEq, Eq, Default)]
pub struct CollisionTile {
    pub solid: bool,
    pub ladder: bool,
    pub hazard: bool,
}

/// Which flag of a tile a query asks for.
#[derive(Debug, Clone, Copy, PartialEq, Eq)]
pub enum TileFlag {
    Solid,
    Ladder,
    Hazard,
}

pub open spec fn tile_has(tile: CollisionTile, flag: TileFlag) -> bool {
    match flag {
        TileFlag::Solid => tile.solid,
        TileFlag::Ladder => tile.ladder,
        TileFlag::Hazard => tile.hazard,
    }
}

/// A flag list read at `index`, missing entries reading as unset.
pub open spec fn flag_at(flags: Seq<bool>, index: int) -> bool {
    0 <= index < flags.len() && flags[index]
}

/// The collision flags of cell (`tx`, `ty`); every cell outside the scene
/// is solid.
pub open spec fn spec_collision_tile(scene: SceneResource, tx: int, ty: int) -> CollisionTile {
    if tx < 0 || ty < 0 || tx >= scene.size_tiles.width || ty >= scene.size_tiles.height {
        CollisionTile { solid: true, ladder: false, hazard: false }
    } else {
        let index = ty * scene.size_tiles.width + tx;
        CollisionTile {
            solid: flag_at(scene.collision.solids@, index),
            ladder: flag_at(scene.collision.ladders@, index),
            hazard: flag_at(scene.collision.hazards@, index),
        }
    }
}

/// The tile that holds the pixel coordinate `px`.
pub open spec fn tile_of(px: int) -> int {
    px / 8
}

/// The last pixel covered by a span that starts at `pos_fp` and is
/// `size_px` pixels long.
pub open spec fn last_px(pos_fp: int, size_px: int) -> int {
    (pos_fp + size_px * 256 - 1) / 256
}

/// The rectangle at (`x`, `y`) of `w` by `h` pixels touches a tile with
/// `flag`.
pub open spec fn rect_has_flag(
    scene: SceneResource,
    x: int,
    y: int,
    w: int,
    h: int,
    flag: TileFlag,
) -> bool {
    exists|tx: int, ty: int|
        tile_of(x / 256) <= tx <= tile_of(last_px(x, w)) && tile_of(y / 256) <= ty <= tile_of(
            last_px(y, h),
        ) && #[trigger] tile_has(spec_collision_tile(scene, tx, ty), flag)
}

/// Some tile of column `tx` between rows `top` and `bottom` is solid.
pub open spec fn column_has_solid(scene: SceneResource, tx: int, top: int, bottom: int) -> bool {
    exists|ty: int| top <= ty <= bottom && #[trigger] spec_collision_tile(scene, tx, ty).solid
}

/// Some tile of row `ty` between columns `left` and `right` is solid.
pub open spec fn row_has_solid(scene: SceneResource, ty: int, left: int, right: int) -> bool {
    exists|tx: int| left <= tx <= right && #[trigger] spec_collision_tile(scene, tx, ty).solid
}

/// Width of a scene in pixels.
pub open spec fn scene_width_px(scene: SceneResource) -> int {
    scene.size_tiles.width * 8
}

/// Height of a scene in pixels.
pub open spec fn scene_height_px(scene: SceneResource) -> int {
    scene.size_tiles.height * 8
}

/// Where a rectangle that moved horizontally by `delta` ends up, and whether
/// it was stopped: pushed back inside the scene edges, or against the first
/// solid column on its leading side.
pub open spec fn spec_resolve_horizontal(
    scene: SceneResource,
    x: int,
    y: int,
    w: int,
    h: int,
    delta: int,
) -> (int, bool) {
    let left = x / 256;
    let right = last_px(x, w);
    let top = tile_of(y / 256);
    let bottom = tile_of(last_px(y, h));
    if left < 0 {
        (0, true)
    } else if right >= scene_width_px(scene) {
        ((scene_width_px(scene) - w) * 256, true)
    } else if delta > 0 {
        let tx = tile_of(right);
        if column_has_solid(scene, tx, top, bottom) {
            ((tx * 8 - w) * 256, true)
        } else {
            (x, false)
        }
    } else if delta < 0 {
        let tx = tile_of(left);
        if column_has_solid(scene, tx, top, bottom) {
            ((tx + 1) * 8 * 256, true)
        } else {
            (x, false)
        }
    } else {
        (x, false)
    }
}

/// The rectangle stands on a solid tile: the one-pixel row below it touches
/// one.
pub open spec fn stands_on_solid(scene: SceneResource, x: int, y: int, w: int, h: int) -> bool {
    rect_has_flag(scene, x, y + h * 256, w, 1, TileFlag::Solid)
}

/// Where a rectangle that moved vertically by `delta` ends up, whether it
/// was stopped, and whether it stands on ground afterwards.
pub open spec fn spec_resolve_vertical(
    scene: SceneResource,
    x: int,
    y: int,
    w: int,
    h: int,
    delta: int,
) -> (int, bool, bool) {
    let left = tile_of(x / 256);
    let right = tile_of(last_px(x, w));
    let top = y / 256;
    let bottom = last_px(y, h);
    if top < 0 {
        (0, true, false)
    } else if bottom >= scene_height_px(scene) {
        ((scene_height_px(scene) - h) * 256, true, true)
    } else if delta > 0 && row_has_solid(scene, tile_of(bottom), left, right) {
        ((tile_of(bottom) * 8 - h) * 256, true, true)
    } else if delta < 0 && row_has_solid(scene, tile_of(top), left, right) {
        let clamped = (tile_of(top) + 1) * 8 * 256;
        (clamped, true, stands_on_solid(scene, x, clamped, w, h))
    } else {
        (y, false, stands_on_solid(scene, x, y, w, h))
    }
}

/// A size that the collision queries accept: positive, and whole in
/// fixed point.
pub open spec fn size_fits(px: int) -> bool {
    1 <= px && in_i32(px * 256)
}

/// A rectangle that a vertical move pushes down out of the tile above it
/// can still be tested for ground below its new position.
pub open spec fn vertical_push_fits(scene: SceneResource, x: int, y: int, w: int, h: int, delta: int) -> bool {
    let top = y / 256;
    (top >= 0 && last_px(y, h) < scene_height_px(scene) && delta < 0 && row_has_solid(
        scene,
        tile_of(top),
        tile_of(x / 256),
        tile_of(last_px(x, w)),
    )) ==> in_i32((tile_of(top) + 1) * 8 * 256 + h * 256 + 256)
}

/// A flag list read at `index`, missing entries reading as unset.
pub fn flag_at_index(flags: &Vec<bool>, index: usize) -> (r: bool)
    ensures
        r == flag_at(flags@, index as int),
{
    if index < flags.len() {
        flags[index]
    } else {
        false
    }
}

/// The collision flags of cell (`tile_x`, `tile_y`).
pub fn scene_collision_tile(scene: &SceneResource, tile_x: i32, tile_y: i32) -> (t: CollisionTile)
    ensures
        t == spec_collision_tile(*scene, tile_x as int, tile_y as int),
{
    if tile_x < 0 || tile_y < 0 || tile_x >= scene.size_tiles.width as i32 || tile_y
        >= scene.size_tiles.height as i32 {
        return CollisionTile { solid: true, ladder: false, hazard: false };
    }
    let w = scene.size_tiles.width as usize;
    assert((tile_y as int) * (w as int) <= 65534 * 65535) by (nonlinear_arith)
        requires
            0 <= tile_y < 65535,
            w <= 65535,
    ;
    let index = (tile_y as usize) * w + (tile_x as usize);
    CollisionTile {
        solid: flag_at_index(&scene.collision.solids, index),
        ladder: flag_at_index(&scene.collision.ladders, index),
        hazard: flag_at_index(&scene.collision.hazards, index),
    }
}

/// Whether a tile has the flag.
pub fn tile_flag(tile: CollisionTile, flag: TileFlag) -> (r: bool)
    ensures
        r == tile_has(tile, flag),
{
    match flag {
        TileFlag::Solid => tile.solid,
        TileFlag::Ladder => tile.ladder,
        TileFlag::Hazard => tile.hazard,
    }
}

/// Whether the rectangle at (`x_fp`, `y_fp`) of `width_px` by `height_px`
/// pixels touches a tile with `flag`.
#[verifier::loop_isolation(false)]
pub fn rect_overlaps_flag(
    scene: &SceneResource,
    x_fp: i32,
    y_fp: i32,
    width_px: i32,
    height_px: i32,
    flag: TileFlag,
) -> (r: bool)
    requires
        size_fits(width_px as int),
        size_fits(height_px as int),
        in_i32(x_fp + width_px * 256),
        in_i32(y_fp + height_px * 256),
    ensures
        r == rect_has_flag(*scene, x_fp as int, y_fp as int, width_px as int, height_px as int, flag),
{
    let width_fp = fixed_point_from_pixels(width_px);
    let height_fp = fixed_point_from_pixels(height_px);
    let left_px = fixed_point_to_pixels_floor(x_fp);
    let top_px = fixed_point_to_pixels_floor(y_fp);
    let right_px = fixed_point_to_pixels_floor(x_fp + width_fp - 1);
    let bottom_px = fixed_point_to_pixels_floor(y_fp + height_fp - 1);
    let left_tile = tile_of_px(left_px);
    let right_tile = tile_of_px(right_px);
    let top_tile = tile_of_px(top_px);
    let bottom_tile = tile_of_px(bottom_px);
    let ghost sx = x_fp as int;
    let ghost sy = y_fp as int;
    let ghost w = width_px as int;
    let ghost h = height_px as int;

    let mut tile_y = top_tile;
    while tile_y <= bottom_tile
        invariant
            top_tile <= tile_y,
            tile_y <= bottom_tile + 1,
            bottom_tile < i32::MAX,
            left_tile == tile_of(sx / 256),
            right_tile == tile_of(last_px(sx, w)),
            top_tile == tile_of(sy / 256),
            bottom_tile == tile_of(last_px(sy, h)),
            left_tile <= right_tile,
            right_tile < i32::MAX,
            forall|tx: int, ty: int|
                left_tile <= tx <= right_tile && top_tile <= ty < tile_y ==> !#[trigger] tile_has(
                    spec_collision_tile(*scene, tx, ty),
                    flag,
                ),
        decreases bottom_tile + 1 - tile_y,
    {
        let mut tile_x = left_tile;
        while tile_x <= right_tile
            invariant
                left_tile <= tile_x,
                tile_x <= right_tile + 1,
                right_tile < i32::MAX,
                top_tile <= tile_y <= bottom_tile,
                forall|tx: int| left_tile <= tx < tile_x ==> !#[trigger] tile_has(
                    spec_collision_tile(*scene, tx, tile_y as int),
                    flag,
                ),
            decreases right_tile + 1 - tile_x,
        {
            if tile_flag(scene_collision_tile(scene, tile_x, tile_y), flag) {
                assert(tile_has(spec_collision_tile(*scene, tile_x as int, tile_y as int), flag));
                return true;
            }
            tile_x = tile_x + 1;
        }
        assert forall|tx: int, ty: int|
            left_tile <= tx <= right_tile && top_tile <= ty < tile_y + 1 implies !#[trigger] tile_has(
                spec_collision_tile(*scene, tx, ty),
                flag,
            ) by {
            if ty == tile_y as int {
                assert(left_tile <= tx < tile_x);
            }
        }
        tile_y = tile_y + 1;
    }
    false
}

/// The tile that holds pixel coordinate `px`.
pub fn tile_of_px(px: i32) -> (t: i32)
    ensures
        t == tile_of(px as int),
{
    match px.checked_div_euclid(TILE_SIZE_PX) {
        Some(q) => q,
        None => 0,
    }
}

/// Whether column `tile_x` holds a solid tile between rows `top` and
/// `bottom`.
pub fn column_solid(scene: &SceneResource, tile_x: i32, top: i32, bottom: i32) -> (r: bool)
    requires
        bottom < i32::MAX,
    ensures
        r == column_has_solid(*scene, tile_x as int, top as int, bottom as int),
{
    let mut tile_y = top;
    while tile_y <= bottom
        invariant
            bottom < i32::MAX,
            top <= bottom ==> top <= tile_y <= bottom + 1,
            top > bottom ==> tile_y == top,
            forall|ty: int| top <= ty < tile_y ==> !#[trigger] spec_collision_tile(
                *scene,
                tile_x as int,
                ty,
            ).solid,
        decreases bottom + 1 - tile_y,
    {
        if scene_collision_tile(scene, tile_x, tile_y).solid {
            assert(spec_collision_tile(*scene, tile_x as int, tile_y as int).solid);
            return true;
        }
        tile_y = tile_y + 1;
    }
    false
}

/// Whether row `tile_y` holds a solid tile between columns `left` and
/// `right`.
pub fn row_solid(scene: &SceneResource, tile_y: i32, left: i32, right: i32) -> (r: bool)
    requires
        right < i32::MAX,
    ensures
        r == row_has_solid(*scene, tile_y as int, left as int, right as int),
{
    let mut tile_x = left;
    while tile_x <= right
        invariant
            right < i32::MAX,
            left <= right ==> left <= tile_x <= right + 1,
            left > right ==> tile_x == left,
            forall|tx: int| left <= tx < tile_x ==> !#[trigger] spec_collision_tile(
                *scene,
                tx,
                tile_y as int,
            ).solid,
        decreases right + 1 - tile_x,
    {
        if scene_collision_tile(scene, tile_x, tile_y).solid {
            assert(spec_collision_tile(*scene, tile_x as int, tile_y as int).solid);
            return true;
        }
        tile_x = tile_x + 1;
    }
    false
}

/// Pushes a rectangle that moved horizontally by `delta_fp` out of solid
/// tiles and back into the scene.
pub fn resolve_horizontal_collision(
    scene: &SceneResource,
    x_fp: i32,
    y_fp: i32,
    width_px: i32,
    height_px: i32,
    delta_fp: i32,
) -> (r: (i32, bool))
    requires
        size_fits(width_px as int),
        size_fits(height_px as int),
        in_i32(x_fp + width_px * 256),
        in_i32(y_fp + height_px * 256),
    ensures
        (r.0 as int, r.1) == spec_resolve_horizontal(
            *scene,
            x_fp as int,
            y_fp as int,
            width_px as int,
            height_px as int,
            delta_fp as int,
        ),
{
    let scene_width_px = (scene.size_tiles.width as i32) * TILE_SIZE_PX;
    let width_fp = fixed_point_from_pixels(width_px);
    let height_fp = fixed_point_from_pixels(height_px);
    let left_px = fixed_point_to_pixels_floor(x_fp);
    let top_px = fixed_point_to_pixels_floor(y_fp);
    let right_px = fixed_point_to_pixels_floor(x_fp + width_fp - 1);
    let bottom_px = fixed_point_to_pixels_floor(y_fp + height_fp - 1);
    let top_tile = tile_of_px(top_px);
    let bottom_tile = tile_of_px(bottom_px);

    if left_px < 0 {
        return (0, true);
    }
    if right_px >= scene_width_px {
        return (fixed_point_from_pixels(scene_width_px - width_px), true);
    }
    if delta_fp > 0 {
        let tile_x = tile_of_px(right_px);
        if column_solid(scene, tile_x, top_tile, bottom_tile) {
            (fixed_point_from_pixels(tile_x * TILE_SIZE_PX - width_px), true)
        } else {
            (x_fp, false)
        }
    } else if delta_fp < 0 {
        let tile_x = tile_of_px(left_px);
        if column_solid(scene, tile_x, top_tile, bottom_tile) {
            (fixed_point_from_pixels((tile_x + 1) * TILE_SIZE_PX), true)
        } else {
            (x_fp, false)
        }
    } else {
        (x_fp, false)
    }
}

/// Whether the rectangle stands on a solid tile.
pub fn touching_solid_below(
    scene: &SceneResource,
    x_fp: i32,
    y_fp: i32,
    width_px: i32,
    height_px: i32,
) -> (r: bool)
    requires
        size_fits(width_px as int),
        size_fits(height_px as int),
        in_i32(x_fp + width_px * 256),
        in_i32(y_fp + height_px * 256 + 256),
    ensures
        r == stands_on_solid(*scene, x_fp as int, y_fp as int, width_px as int, height_px as int),
{
    let below = y_fp + fixed_point_from_pixels(height_px);
    rect_overlaps_flag(scene, x_fp, below, width_px, 1, TileFlag::Solid)
}

/// Pushes a rectangle that moved vertically by `delta_fp` out of solid
/// tiles and back into the scene, and tells whether it stands on ground.
pub fn resolve_vertical_collision(
    scene: &SceneResource,
    x_fp: i32,
    y_fp: i32,
    width_px: i32,
    height_px: i32,
    delta_fp: i32,
) -> (r: (i32, bool, bool))
    requires
        size_fits(width_px as int),
        size_fits(height_px as int),
        in_i32(x_fp + width_px * 256),
        in_i32(y_fp + height_px * 256 + 256),
        vertical_push_fits(*scene, x_fp as int, y_fp as int, width_px as int, height_px as int, delta_fp as int),
    ensures
        (r.0 as int, r.1, r.2) == spec_resolve_vertical(
            *scene,
            x_fp as int,
            y_fp as int,
            width_px as int,
            height_px as int,
            delta_fp as int,
        ),
{
    let scene_height_px = (scene.size_tiles.height as i32) * TILE_SIZE_PX;
    let width_fp = fixed_point_from_pixels(width_px);
    let height_fp = fixed_point_from_pixels(height_px);
    let left_px = fixed_point_to_pixels_floor(x_fp);
    let top_px = fixed_point_to_pixels_floor(y_fp);
    let right_px = fixed_point_to_pixels_floor(x_fp + width_fp - 1);
    let bottom_px = fixed_point_to_pixels_floor(y_fp + height_fp - 1);
    let left_tile = tile_of_px(left_px);
    let right_tile = tile_of_px(right_px);

    if top_px < 0 {
        return (0, true, false);
    }
    if bottom_px >= scene_height_px {
        return (fixed_point_from_pixels(scene_height_px - height_px), true, true);
    }
    if delta_fp > 0 {
        let tile_y = tile_of_px(bottom_px);
        if row_solid(scene, tile_y, left_tile, right_tile) {
            return (fixed_point_from_pixels(tile_y * TILE_SIZE_PX - height_px), true, true);
        }
    } else if delta_fp < 0 {
        let tile_y = tile_of_px(top_px);
        if row_solid(scene, tile_y, left_tile, right_tile) {
            let clamped = fixed_point_from_pixels((tile_y + 1) * TILE_SIZE_PX);
            let grounded = touching_solid_below(scene, x_fp, clamped, width_px, height_px);
            return (clamped, true, grounded);
        }
    }
    let grounded = touching_solid_below(scene, x_fp, y_fp, width_px, height_px);
    (y_fp, false, grounded)
}

} // verus!
