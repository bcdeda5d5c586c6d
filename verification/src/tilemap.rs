//! The background map of the runtime: a fixed 64x32 display map sampled
//! from the entry scene, and the scaling of scene coordinates onto it.
use vstd::prelude::*;
use crate::errors::{ExportError, ExportErrorView};
use crate::project::{SceneResource, TileLayer, TilesetResource};

verus! {

/// Width of the display map in tiles: two 32x32 screens side by side.
pub const DISPLAY_MAP_WIDTH_TILES: usize = 64;
/// Height of the display map in tiles.
pub const DISPLAY_MAP_HEIGHT_TILES: usize = 32;
/// Width of the visible screen in tiles.
pub const VISIBLE_SCREEN_WIDTH_TILES: usize = 32;

/// The scene column that display column `x` samples.
pub open spec fn source_x(x: int, src_width: int) -> int {
    x * src_width / 64
}

/// The scene row that display row `y` samples.
pub open spec fn source_y(y: int, src_height: int) -> int {
    y * src_height / 32
}

/// The scene cell that display cell (`x`, `y`) samples.
pub open spec fn source_index(x: int, y: int, src_width: int, src_height: int) -> int {
    source_y(y, src_height) * src_width + source_x(x, src_width)
}

/// Where display cell (`x`, `y`) lives in the screen-ordered map: the left
/// 32x32 screen first, then the right one.
pub open spec fn screen_index(x: int, y: int) -> int {
    if x < 32 {
        y * 32 + x
    } else {
        1024 + y * 32 + (x - 32)
    }
}

/// Display cell (`x`, `y`) samples a tile that exists in the layer and in
/// the tileset.
pub open spec fn display_cell_ok(
    scene: SceneResource,
    layer: TileLayer,
    tileset: TilesetResource,
    x: int,
    y: int,
) -> bool {
    let index = source_index(x, y, scene.size_tiles.width as int, scene.size_tiles.height as int);
    index < layer.tiles@.len() && layer.tiles@[index] < tileset.tiles@.len()
}

/// The error for a display cell that does not sample a usable tile.
pub open spec fn display_cell_error(
    scene: SceneResource,
    layer: TileLayer,
    tileset: TilesetResource,
    x: int,
    y: int,
    e: ExportError,
) -> bool {
    let index = source_index(x, y, scene.size_tiles.width as int, scene.size_tiles.height as int);
    if index >= layer.tiles@.len() {
        e matches ExportError::MissingTileIndex { scene_id, index: i } && scene_id@ == scene.id@ && i
            == index
    } else {
        e matches ExportError::TileOutOfRange { scene_id, tile, tileset_id, tile_count } && scene_id@
            == scene.id@ && tile == layer.tiles@[index] && tileset_id@ == tileset.id@ && tile_count
            == tileset.tiles@.len()
    }
}

/// Cell (`x2`, `y2`) comes before cell (`x`, `y`) in row-major order.
pub open spec fn scanned_before(x2: int, y2: int, x: int, y: int) -> bool {
    y2 < y || (y2 == y && x2 < x)
}

/// The display map: each display cell holds the tile that it samples.
pub fn build_display_tilemap(
    scene: &SceneResource,
    layer: &TileLayer,
    tileset: &TilesetResource,
) -> (r: Result<Vec<u16>, ExportError>)
    ensures
        (scene.size_tiles.width == 0 || scene.size_tiles.height == 0) ==> (r matches Err(
            ExportError::ZeroSizedMap { scene_id },
        ) && scene_id@ == scene.id@),
        (scene.size_tiles.width > 0 && scene.size_tiles.height > 0) ==> match r {
            Ok(entries) => {
                &&& entries@.len() == 2048
                &&& forall|x: int, y: int|
                    0 <= x < 64 && 0 <= y < 32 ==> #[trigger] display_cell_ok(*scene, *layer, *tileset, x, y)
                &&& forall|x: int, y: int|
                    0 <= x < 64 && 0 <= y < 32 ==> entries@[screen_index(x, y)] == layer.tiles@[
                        #[trigger] source_index(
                            x,
                            y,
                            scene.size_tiles.width as int,
                            scene.size_tiles.height as int,
                        )
                    ]
            },
            Err(e) => exists|x: int, y: int|
                0 <= x < 64 && 0 <= y < 32 && !#[trigger] display_cell_ok(*scene, *layer, *tileset, x, y)
                    && display_cell_error(*scene, *layer, *tileset, x, y, e) && (forall|x2: int, y2: int|
                    0 <= x2 < 64 && 0 <= y2 < 32 && scanned_before(x2, y2, x, y)
                        ==> #[trigger] display_cell_ok(*scene, *layer, *tileset, x2, y2)),
        },
{
    let src_width = scene.size_tiles.width as usize;
    let src_height = scene.size_tiles.height as usize;
    if src_width == 0 || src_height == 0 {
        return Err(ExportError::ZeroSizedMap { scene_id: scene.id.clone() });
    }
    let mut entries: Vec<u16> = Vec::new();
    let mut k: usize = 0;
    while k < 2048
        invariant
            k <= 2048,
            entries.len() == k,
        decreases 2048 - k,
    {
        entries.push(0);
        k = k + 1;
    }
    let ghost w = src_width as int;
    let ghost h = src_height as int;
    let mut y: usize = 0;
    while y < 32
        invariant
            y <= 32,
            w == scene.size_tiles.width,
            h == scene.size_tiles.height,
            src_width == w,
            src_height == h,
            1 <= w <= 65535,
            1 <= h <= 65535,
            entries.len() == 2048,
            forall|x2: int, y2: int|
                0 <= x2 < 64 && 0 <= y2 < y ==> #[trigger] display_cell_ok(*scene, *layer, *tileset, x2, y2),
            forall|x2: int, y2: int|
                0 <= x2 < 64 && 0 <= y2 < y ==> entries@[screen_index(x2, y2)] == layer.tiles@[
                    #[trigger] source_index(x2, y2, w, h)
                ],
        decreases 32 - y,
    {
        assert(y * src_height <= 31 * 65535) by (nonlinear_arith)
            requires
                y < 32,
                src_height <= 65535,
        ;
        assert((y * src_height) / 32 < src_height) by (nonlinear_arith)
            requires
                y < 32,
                src_height >= 1,
        ;
        let src_y = (y * src_height) / 32;
        let mut x: usize = 0;
        while x < 64
            invariant
                x <= 64,
                y < 32,
                w == scene.size_tiles.width,
                h == scene.size_tiles.height,
                src_width == w,
                src_height == h,
                1 <= w <= 65535,
                1 <= h <= 65535,
                src_y == source_y(y as int, h),
                src_y < h,
                entries.len() == 2048,
                forall|x2: int, y2: int|
                    0 <= x2 < 64 && 0 <= y2 < y ==> #[trigger] display_cell_ok(
                        *scene,
                        *layer,
                        *tileset,
                        x2,
                        y2,
                    ),
                forall|x2: int| 0 <= x2 < x ==> #[trigger] display_cell_ok(*scene, *layer, *tileset, x2, y as int),
                forall|x2: int, y2: int|
                    (0 <= x2 < 64 && 0 <= y2 < y) || (0 <= x2 < x && y2 == y) ==> entries@[screen_index(
                        x2,
                        y2,
                    )] == layer.tiles@[#[trigger] source_index(x2, y2, w, h)],
            decreases 64 - x,
        {
            assert(x * src_width <= 63 * 65535) by (nonlinear_arith)
                requires
                    x < 64,
                    src_width <= 65535,
            ;
            assert((x * src_width) / 64 < src_width) by (nonlinear_arith)
                requires
                    x < 64,
                    src_width >= 1,
            ;
            let src_x = (x * src_width) / 64;
            assert(src_y * src_width + src_x < 65535 * 65535) by (nonlinear_arith)
                requires
                    src_y < src_height,
                    src_x < src_width,
                    src_height <= 65535,
                    src_width <= 65535,
            ;
            let source = src_y * src_width + src_x;
            assert(source == source_index(x as int, y as int, w, h));
            if source >= layer.tiles.len() {
                let e = ExportError::MissingTileIndex { scene_id: scene.id.clone(), index: source };
                assert(!display_cell_ok(*scene, *layer, *tileset, x as int, y as int));
                return Err(e);
            }
            let tile_index = layer.tiles[source];
            if tile_index as usize >= tileset.tiles.len() {
                let e = ExportError::TileOutOfRange {
                    scene_id: scene.id.clone(),
                    tile: tile_index,
                    tileset_id: tileset.id.clone(),
                    tile_count: tileset.tiles.len(),
                };
                assert(!display_cell_ok(*scene, *layer, *tileset, x as int, y as int));
                return Err(e);
            }
            let screen = if x < 32 { y * 32 + x } else { 32 * 32 + y * 32 + (x - 32) };
            assert(screen == screen_index(x as int, y as int));
            entries.set(screen, tile_index);
            assert(display_cell_ok(*scene, *layer, *tileset, x as int, y as int));
            x = x + 1;
        }
        y = y + 1;
    }
    Ok(entries)
}

/// Scene pixels per display pixel base: a scene dimension in pixels, at
/// least 1.
pub open spec fn source_pixels(tiles: int) -> int {
    if tiles * 8 >= 1 { tiles * 8 } else { 1 }
}

/// A scene x coordinate scaled onto the display map; negative values clamp
/// to 0.
pub open spec fn spec_scale_x(width_tiles: int, x: int) -> int {
    (if x > 0 { x } else { 0 }) * 512 / source_pixels(width_tiles)
}

/// A scene y coordinate scaled onto the display map; negative values clamp
/// to 0.
pub open spec fn spec_scale_y(height_tiles: int, y: int) -> int {
    (if y > 0 { y } else { 0 }) * 256 / source_pixels(height_tiles)
}

/// Integer division rounding toward zero.
pub open spec fn div_toward_zero(a: int, b: int) -> int {
    if a >= 0 { a / b } else { -((-a) / b) }
}

/// A signed scene x offset scaled onto the display map.
pub open spec fn spec_scale_delta_x(width_tiles: int, x: int) -> i16 {
    div_toward_zero(x * 512, source_pixels(width_tiles)) as i16
}

/// A signed scene y offset scaled onto the display map.
pub open spec fn spec_scale_delta_y(height_tiles: int, y: int) -> i16 {
    div_toward_zero(y * 256, source_pixels(height_tiles)) as i16
}

/// A scene width scaled onto the display map, at least 1.
pub open spec fn spec_scale_width(width_tiles: int, width: int) -> u16 {
    let v = width * 512 / source_pixels(width_tiles);
    (if v >= 1 { v } else { 1 }) as u16
}

/// A scene height scaled onto the display map, at least 1.
pub open spec fn spec_scale_height(height_tiles: int, height: int) -> u16 {
    let v = height * 256 / source_pixels(height_tiles);
    (if v >= 1 { v } else { 1 }) as u16
}

/// A scene x coordinate scaled onto the display map.
pub fn scale_scene_x(scene: &SceneResource, x: i16) -> (r: usize)
    ensures
        r == spec_scale_x(scene.size_tiles.width as int, x as int),
{
    let source = if scene.size_tiles.width as usize * 8 >= 1 { scene.size_tiles.width as usize * 8 } else { 1 };
    let clamped: usize = if x > 0 { x as usize } else { 0 };
    (clamped * DISPLAY_MAP_WIDTH_TILES * 8) / source
}

/// A scene y coordinate scaled onto the display map.
pub fn scale_scene_y(scene: &SceneResource, y: i16) -> (r: usize)
    ensures
        r == spec_scale_y(scene.size_tiles.height as int, y as int),
{
    let source = if scene.size_tiles.height as usize * 8 >= 1 { scene.size_tiles.height as usize * 8 } else { 1 };
    let clamped: usize = if y > 0 { y as usize } else { 0 };
    (clamped * DISPLAY_MAP_HEIGHT_TILES * 8) / source
}

/// Divides rounding toward zero.
fn div_trunc(a: i32, b: i32) -> (q: i32)
    requires
        b >= 1,
    ensures
        q == div_toward_zero(a as int, b as int),
{
    match a.checked_div(b) {
        Some(q) => q,
        None => 0,
    }
}

/// A signed scene x offset scaled onto the display map.
pub fn scale_scene_delta_x(scene: &SceneResource, x: i16) -> (r: i16)
    ensures
        r == spec_scale_delta_x(scene.size_tiles.width as int, x as int),
{
    let source = if scene.size_tiles.width as i32 * 8 >= 1 { scene.size_tiles.width as i32 * 8 } else { 1 };
    div_trunc((x as i32) * 512, source) as i16
}

/// A signed scene y offset scaled onto the display map.
pub fn scale_scene_delta_y(scene: &SceneResource, y: i16) -> (r: i16)
    ensures
        r == spec_scale_delta_y(scene.size_tiles.height as int, y as int),
{
    let source = if scene.size_tiles.height as i32 * 8 >= 1 { scene.size_tiles.height as i32 * 8 } else { 1 };
    div_trunc((y as i32) * 256, source) as i16
}

/// A scene width scaled onto the display map.
pub fn scale_scene_width(scene: &SceneResource, width: u16) -> (r: u16)
    ensures
        r == spec_scale_width(scene.size_tiles.width as int, width as int),
{
    let source = if scene.size_tiles.width as usize * 8 >= 1 { scene.size_tiles.width as usize * 8 } else { 1 };
    let v = (width as usize * 512) / source;
    (if v >= 1 { v } else { 1 }) as u16
}

/// A scene height scaled onto the display map.
pub fn scale_scene_height(scene: &SceneResource, height: u16) -> (r: u16)
    ensures
        r == spec_scale_height(scene.size_tiles.height as int, height as int),
{
    let source = if scene.size_tiles.height as usize * 8 >= 1 { scene.size_tiles.height as usize * 8 } else { 1 };
    let v = (height as usize * 256) / source;
    (if v >= 1 { v } else { 1 }) as u16
}

/// The display column of entry `k` of the screen-ordered map.
pub open spec fn cell_x(k: int) -> int {
    if k < 1024 { k % 32 } else { 32 + (k - 1024) % 32 }
}

/// The display row of entry `k` of the screen-ordered map.
pub open spec fn cell_y(k: int) -> int {
    if k < 1024 { k / 32 } else { (k - 1024) / 32 }
}

/// The screen-ordered display map of a scene layer: each entry holds the
/// tile its display cell samples.
pub open spec fn display_entries(scene: SceneResource, layer: TileLayer) -> Seq<u16> {
    Seq::new(
        2048,
        |k: int|
            layer.tiles@[source_index(
                cell_x(k),
                cell_y(k),
                scene.size_tiles.width as int,
                scene.size_tiles.height as int,
            )],
    )
}

/// The error value for a display cell that does not sample a usable tile.
pub open spec fn display_cell_error_view(scene: SceneResource, layer: TileLayer, tileset: TilesetResource, x: int, y: int) -> ExportErrorView {
    let index = source_index(x, y, scene.size_tiles.width as int, scene.size_tiles.height as int);
    if index >= layer.tiles@.len() {
        ExportErrorView::MissingTileIndex { scene_id: scene.id@, index: index as usize }
    } else {
        ExportErrorView::TileOutOfRange {
            scene_id: scene.id@,
            tile: layer.tiles@[index],
            tileset_id: tileset.id@,
            tile_count: tileset.tiles@.len() as usize,
        }
    }
}

/// The display map of a scene layer drawn with a tileset: refused for a
/// scene without size, else the map, or the error of the first display
/// cell, in row order, that does not sample a usable tile.
pub open spec fn spec_display_map(scene: SceneResource, layer: TileLayer, tileset: TilesetResource) -> Result<Seq<u16>, ExportErrorView> {
    if scene.size_tiles.width == 0 || scene.size_tiles.height == 0 {
        Err(ExportErrorView::ZeroSizedMap { scene_id: scene.id@ })
    } else if forall|x: int, y: int|
        0 <= x < 64 && 0 <= y < 32 ==> #[trigger] display_cell_ok(scene, layer, tileset, x, y) {
        Ok(display_entries(scene, layer))
    } else {
        let (x, y) = choose|x: int, y: int|
            0 <= x < 64 && 0 <= y < 32 && !#[trigger] display_cell_ok(scene, layer, tileset, x, y) && (forall|
                x2: int,
                y2: int,
            |
                0 <= x2 < 64 && 0 <= y2 < 32 && scanned_before(x2, y2, x, y) ==> #[trigger] display_cell_ok(
                    scene,
                    layer,
                    tileset,
                    x2,
                    y2,
                ));
        Err(display_cell_error_view(scene, layer, tileset, x, y))
    }
}

/// What `build_display_tilemap` returns, as a value.
pub proof fn lemma_display_map(scene: SceneResource, layer: TileLayer, tileset: TilesetResource, r: Result<Vec<u16>, ExportError>)
    requires
        (scene.size_tiles.width == 0 || scene.size_tiles.height == 0) ==> (r matches Err(
            ExportError::ZeroSizedMap { scene_id },
        ) && scene_id@ == scene.id@),
        (scene.size_tiles.width > 0 && scene.size_tiles.height > 0) ==> match r {
            Ok(entries) => {
                &&& entries@.len() == 2048
                &&& forall|x: int, y: int|
                    0 <= x < 64 && 0 <= y < 32 ==> #[trigger] display_cell_ok(scene, layer, tileset, x, y)
                &&& forall|x: int, y: int|
                    0 <= x < 64 && 0 <= y < 32 ==> entries@[screen_index(x, y)] == layer.tiles@[
                        #[trigger] source_index(
                            x,
                            y,
                            scene.size_tiles.width as int,
                            scene.size_tiles.height as int,
                        )
                    ]
            },
            Err(e) => exists|x: int, y: int|
                0 <= x < 64 && 0 <= y < 32 && !#[trigger] display_cell_ok(scene, layer, tileset, x, y)
                    && display_cell_error(scene, layer, tileset, x, y, e) && (forall|x2: int, y2: int|
                    0 <= x2 < 64 && 0 <= y2 < 32 && scanned_before(x2, y2, x, y)
                        ==> #[trigger] display_cell_ok(scene, layer, tileset, x2, y2)),
        },
    ensures
        match r {
            Ok(entries) => spec_display_map(scene, layer, tileset) == Ok::<Seq<u16>, ExportErrorView>(entries@),
            Err(e) => spec_display_map(scene, layer, tileset) == Err::<Seq<u16>, ExportErrorView>(e@),
        },
{
    let w = scene.size_tiles.width as int;
    let h = scene.size_tiles.height as int;
    if w > 0 && h > 0 {
        match r {
            Ok(entries) => {
                assert forall|k: int| 0 <= k < 2048 implies entries@[k] == #[trigger] display_entries(scene, layer)[k] by {
                    let x = cell_x(k);
                    let y = cell_y(k);
                    assert(0 <= x < 64 && 0 <= y < 32);
                    assert(screen_index(x, y) == k);
                    assert(entries@[screen_index(x, y)] == layer.tiles@[source_index(x, y, w, h)]);
                }
                assert(entries@ =~= display_entries(scene, layer));
            },
            Err(e) => {
                let (x0, y0) = choose|x: int, y: int|
                    0 <= x < 64 && 0 <= y < 32 && !#[trigger] display_cell_ok(scene, layer, tileset, x, y)
                        && display_cell_error(scene, layer, tileset, x, y, e) && (forall|x2: int, y2: int|
                        0 <= x2 < 64 && 0 <= y2 < 32 && scanned_before(x2, y2, x, y)
                            ==> #[trigger] display_cell_ok(scene, layer, tileset, x2, y2));
                assert(!display_cell_ok(scene, layer, tileset, x0, y0));
                let (x, y) = choose|x: int, y: int|
                    0 <= x < 64 && 0 <= y < 32 && !#[trigger] display_cell_ok(scene, layer, tileset, x, y) && (forall|
                        x2: int,
                        y2: int,
                    |
                        0 <= x2 < 64 && 0 <= y2 < 32 && scanned_before(x2, y2, x, y) ==> #[trigger] display_cell_ok(
                            scene,
                            layer,
                            tileset,
                            x2,
                            y2,
                        ));
                if scanned_before(x, y, x0, y0) {
                    assert(display_cell_ok(scene, layer, tileset, x, y));
                }
                if scanned_before(x0, y0, x, y) {
                    assert(display_cell_ok(scene, layer, tileset, x0, y0));
                }
                assert(x == x0 && y == y0);
            },
        }
    }
}

} // verus!
