//! Why an export or a scene compilation fails.
use vstd::prelude::*;
use vstd::string::StringExecFns;
use crate::text::{decimal, push_decimal};

verus! {

/// Why an export or a scene compilation fails.
#[derive(Debug, Clone, PartialEq, Eq)]
pub enum ExportError {
    /// A tile does not hold exactly 64 pixels.
    TileSizeMismatch { tileset_id: String, tile_index: usize },
    /// A tile pixel does not fit in four bits.
    PixelOutOfRange { tileset_id: String, tile_index: usize, pixel_index: usize },
    /// A scene has no width or no height.
    ZeroSizedMap { scene_id: String },
    /// A scene's tile layer ends before a cell that the display map samples.
    MissingTileIndex { scene_id: String, index: usize },
    /// A scene uses a tile past the end of its tileset.
    TileOutOfRange { scene_id: String, tile: u16, tileset_id: String, tile_count: usize },
    /// A ROM image is too small to hold a LoROM header.
    RomTooSmall { len: usize },
    /// An entity's action refers to an entity that the scene does not hold.
    UnknownTargetEntity { entity_id: String, target_entity_id: String },
    /// The project's entry scene does not exist.
    MissingEntryScene { scene_id: String },
    /// A scene has no tile layer to compile.
    SceneHasNoLayers { scene_id: String },
    /// The entry scene has no tile layer to export as the background.
    NoLayerToExport { scene_id: String },
    /// A layer refers to a tileset that does not exist.
    MissingTileset { scene_id: String, tileset_id: String },
    /// A tileset refers to a palette that does not exist.
    MissingPalette { owner_id: String, palette_id: String },
    /// A metasprite refers to a palette that does not exist.
    MetaspriteMissingPalette { metasprite_id: String, palette_id: String },
    /// A scene holds more entities than the runtime supports.
    TooManyEntities { scene_id: String, count: usize },
    /// A scene has no spawn point.
    NoSpawnPoint { scene_id: String },
    /// An animation does not exist.
    MissingAnimation { animation_id: String },
    /// An animation has no frames.
    AnimationHasNoFrames { animation_id: String },
    /// A metasprite does not exist.
    MissingMetasprite { metasprite_id: String },
    /// A metasprite does not use the palette that the runtime expects.
    PaletteMismatch { metasprite_id: String, palette_id: String, expected_palette_id: String },
    /// No tileset with the metasprite's palette holds all of its tiles.
    NoTilesetForMetasprite { metasprite_id: String, palette_id: String, max_tile_index: u16 },
    /// The runtime object tiles would exceed 255 tiles.
    TooManyObjTiles,
    /// A piece of a metasprite that the object graphics use sits so far
    /// right that its tile's edge leaves the `i16` range; the build cannot
    /// go on.
    PieceOutOfRange { metasprite_id: String },
    /// A scene cannot be compiled by any genre module.
    NoGenreModule { scene_id: String },
    /// The platformer compiler was given a scene of another genre.
    NotSideScroller,
}

/// What an export error says, with its names as character sequences.
pub ghost enum ExportErrorView {
    TileSizeMismatch { tileset_id: Seq<char>, tile_index: usize },
    PixelOutOfRange { tileset_id: Seq<char>, tile_index: usize, pixel_index: usize },
    ZeroSizedMap { scene_id: Seq<char> },
    MissingTileIndex { scene_id: Seq<char>, index: usize },
    TileOutOfRange { scene_id: Seq<char>, tile: u16, tileset_id: Seq<char>, tile_count: usize },
    RomTooSmall { len: usize },
    UnknownTargetEntity { entity_id: Seq<char>, target_entity_id: Seq<char> },
    MissingEntryScene { scene_id: Seq<char> },
    SceneHasNoLayers { scene_id: Seq<char> },
    NoLayerToExport { scene_id: Seq<char> },
    MissingTileset { scene_id: Seq<char>, tileset_id: Seq<char> },
    MissingPalette { owner_id: Seq<char>, palette_id: Seq<char> },
    MetaspriteMissingPalette { metasprite_id: Seq<char>, palette_id: Seq<char> },
    TooManyEntities { scene_id: Seq<char>, count: usize },
    NoSpawnPoint { scene_id: Seq<char> },
    MissingAnimation { animation_id: Seq<char> },
    AnimationHasNoFrames { animation_id: Seq<char> },
    MissingMetasprite { metasprite_id: Seq<char> },
    PaletteMismatch { metasprite_id: Seq<char>, palette_id: Seq<char>, expected_palette_id: Seq<char> },
    NoTilesetForMetasprite { metasprite_id: Seq<char>, palette_id: Seq<char>, max_tile_index: u16 },
    TooManyObjTiles,
    PieceOutOfRange { metasprite_id: Seq<char> },
    NoGenreModule { scene_id: Seq<char> },
    NotSideScroller,
}

impl View for ExportError {
    type V = ExportErrorView;

    open spec fn view(&self) -> ExportErrorView {
        match self {
            ExportError::TileSizeMismatch { tileset_id, tile_index } => ExportErrorView::TileSizeMismatch { tileset_id: tileset_id@, tile_index: *tile_index },
            ExportError::PixelOutOfRange { tileset_id, tile_index, pixel_index } => ExportErrorView::PixelOutOfRange { tileset_id: tileset_id@, tile_index: *tile_index, pixel_index: *pixel_index },
            ExportError::ZeroSizedMap { scene_id } => ExportErrorView::ZeroSizedMap { scene_id: scene_id@ },
            ExportError::MissingTileIndex { scene_id, index } => ExportErrorView::MissingTileIndex { scene_id: scene_id@, index: *index },
            ExportError::TileOutOfRange { scene_id, tile, tileset_id, tile_count } => ExportErrorView::TileOutOfRange { scene_id: scene_id@, tile: *tile, tileset_id: tileset_id@, tile_count: *tile_count },
            ExportError::RomTooSmall { len } => ExportErrorView::RomTooSmall { len: *len },
            ExportError::UnknownTargetEntity { entity_id, target_entity_id } => ExportErrorView::UnknownTargetEntity { entity_id: entity_id@, target_entity_id: target_entity_id@ },
            ExportError::MissingEntryScene { scene_id } => ExportErrorView::MissingEntryScene { scene_id: scene_id@ },
            ExportError::SceneHasNoLayers { scene_id } => ExportErrorView::SceneHasNoLayers { scene_id: scene_id@ },
            ExportError::NoLayerToExport { scene_id } => ExportErrorView::NoLayerToExport { scene_id: scene_id@ },
            ExportError::MissingTileset { scene_id, tileset_id } => ExportErrorView::MissingTileset { scene_id: scene_id@, tileset_id: tileset_id@ },
            ExportError::MissingPalette { owner_id, palette_id } => ExportErrorView::MissingPalette { owner_id: owner_id@, palette_id: palette_id@ },
            ExportError::MetaspriteMissingPalette { metasprite_id, palette_id } => ExportErrorView::MetaspriteMissingPalette { metasprite_id: metasprite_id@, palette_id: palette_id@ },
            ExportError::TooManyEntities { scene_id, count } => ExportErrorView::TooManyEntities { scene_id: scene_id@, count: *count },
            ExportError::NoSpawnPoint { scene_id } => ExportErrorView::NoSpawnPoint { scene_id: scene_id@ },
            ExportError::MissingAnimation { animation_id } => ExportErrorView::MissingAnimation { animation_id: animation_id@ },
            ExportError::AnimationHasNoFrames { animation_id } => ExportErrorView::AnimationHasNoFrames { animation_id: animation_id@ },
            ExportError::MissingMetasprite { metasprite_id } => ExportErrorView::MissingMetasprite { metasprite_id: metasprite_id@ },
            ExportError::PaletteMismatch { metasprite_id, palette_id, expected_palette_id } => ExportErrorView::PaletteMismatch { metasprite_id: metasprite_id@, palette_id: palette_id@, expected_palette_id: expected_palette_id@ },
            ExportError::NoTilesetForMetasprite { metasprite_id, palette_id, max_tile_index } => ExportErrorView::NoTilesetForMetasprite { metasprite_id: metasprite_id@, palette_id: palette_id@, max_tile_index: *max_tile_index },
            ExportError::TooManyObjTiles => ExportErrorView::TooManyObjTiles,
            ExportError::PieceOutOfRange { metasprite_id } => ExportErrorView::PieceOutOfRange { metasprite_id: metasprite_id@ },
            ExportError::NoGenreModule { scene_id } => ExportErrorView::NoGenreModule { scene_id: scene_id@ },
            ExportError::NotSideScroller => ExportErrorView::NotSideScroller,
        }
    }
}

/// The result is a build stopped by a piece out of range.
pub open spec fn stopped_by_piece<T>(r: Result<T, ExportErrorView>) -> bool {
    r matches Err(e) && e is PieceOutOfRange
}

/// `'<id>'`.
pub open spec fn quoted(id: Seq<char>) -> Seq<char> {
    "'"@ + id + "'"@
}

/// The message of an export error; `None` for a ROM too small for its
/// header or checksum, whose message names the ROM file (see
/// `rom::rom_too_small_message`), and for a piece out of range, where the
/// build stops without a message.
pub open spec fn spec_export_message(e: ExportErrorView) -> Option<Seq<char>> {
    match e {
        ExportErrorView::TileSizeMismatch { tileset_id, tile_index } => Some(
            "tileset "@ + quoted(tileset_id) + " tile "@ + decimal(tile_index as nat) + " must contain 64 pixels to export"@,
        ),
        ExportErrorView::PixelOutOfRange { tileset_id, tile_index, pixel_index } => Some(
            "tileset "@ + quoted(tileset_id) + " tile "@ + decimal(tile_index as nat) + " pixel "@ + decimal(
                pixel_index as nat,
            ) + " exceeds 4bpp range"@,
        ),
        ExportErrorView::ZeroSizedMap { scene_id } => Some(
            "scene "@ + quoted(scene_id) + " has an invalid zero-sized map"@,
        ),
        ExportErrorView::MissingTileIndex { scene_id, index } => Some(
            "scene "@ + quoted(scene_id) + " tilemap is missing index "@ + decimal(index as nat),
        ),
        ExportErrorView::TileOutOfRange { scene_id, tile, tileset_id, tile_count } => Some(
            "scene "@ + quoted(scene_id) + " uses tile "@ + decimal(tile as nat) + " but tileset "@ + quoted(tileset_id)
                + " only has "@ + decimal(tile_count as nat) + " tiles"@,
        ),
        ExportErrorView::RomTooSmall { .. } => None,
        ExportErrorView::UnknownTargetEntity { entity_id, target_entity_id } => Some(
            "entity "@ + quoted(entity_id) + " references unknown target entity "@ + quoted(target_entity_id),
        ),
        ExportErrorView::MissingEntryScene { scene_id } => Some("entry scene "@ + quoted(scene_id) + " is missing"@),
        ExportErrorView::SceneHasNoLayers { scene_id } => Some(
            "scene "@ + quoted(scene_id) + " has no layers to compile"@,
        ),
        ExportErrorView::NoLayerToExport { scene_id } => Some(
            "scene "@ + quoted(scene_id) + " has no visible layer to export"@,
        ),
        ExportErrorView::MissingTileset { scene_id, tileset_id } => Some(
            "scene "@ + quoted(scene_id) + " references missing tileset "@ + quoted(tileset_id),
        ),
        ExportErrorView::MissingPalette { owner_id, palette_id } => Some(
            "tileset "@ + quoted(owner_id) + " references missing palette "@ + quoted(palette_id),
        ),
        ExportErrorView::MetaspriteMissingPalette { metasprite_id, palette_id } => Some(
            "metasprite "@ + quoted(metasprite_id) + " references missing palette "@ + quoted(palette_id),
        ),
        ExportErrorView::TooManyEntities { scene_id, count } => Some(
            "scene "@ + quoted(scene_id) + " has "@ + decimal(count as nat)
                + " entities but the current runtime supports at most 16"@,
        ),
        ExportErrorView::NoSpawnPoint { scene_id } => Some("scene "@ + quoted(scene_id) + " has no spawn point"@),
        ExportErrorView::MissingAnimation { animation_id } => Some("animation "@ + quoted(animation_id) + " is missing"@),
        ExportErrorView::AnimationHasNoFrames { animation_id } => Some(
            "animation "@ + quoted(animation_id) + " has no frames"@,
        ),
        ExportErrorView::MissingMetasprite { metasprite_id } => Some(
            "metasprite "@ + quoted(metasprite_id) + " is missing"@,
        ),
        ExportErrorView::PaletteMismatch { metasprite_id, palette_id, expected_palette_id } => Some(
            "metasprite "@ + quoted(metasprite_id) + " uses palette "@ + quoted(palette_id)
                + " but the runtime expects palette "@ + quoted(expected_palette_id),
        ),
        ExportErrorView::NoTilesetForMetasprite { metasprite_id, palette_id, max_tile_index } => Some(
            "no tileset with palette "@ + quoted(palette_id) + " contains metasprite "@ + quoted(metasprite_id)
                + " up to tile "@ + decimal(max_tile_index as nat),
        ),
        ExportErrorView::TooManyObjTiles => Some("runtime OBJ tile count exceeded 255 tiles"@),
        ExportErrorView::PieceOutOfRange { .. } => None,
        ExportErrorView::NoGenreModule { scene_id } => Some(
            "no genre module can compile scene "@ + quoted(scene_id),
        ),
        ExportErrorView::NotSideScroller => Some("platformer compiler only supports side-scroller scenes"@),
    }
}

fn push_quoted(s: &mut String, id: &str)
    ensures
        final(s)@ == old(s)@ + quoted(id@),
{
    s.append("'");
    s.append(id);
    s.append("'");
}

fn push_number(s: &mut String, n: usize)
    ensures
        final(s)@ == old(s)@ + decimal(n as nat),
{
    push_decimal(s, n as u128);
}

impl ExportError {
    /// The message of the error; `None` for a ROM too small for its header
    /// or checksum, whose message names the ROM file, and for a piece out
    /// of range, where the build stops without a message.
    pub fn message(&self) -> (m: Option<String>)
        ensures
            match spec_export_message(self@) {
                Some(t) => m matches Some(x) && x@ == t,
                None => m is None,
            },
    {
        let mut s = String::new();
        match self {
            ExportError::TileSizeMismatch { tileset_id, tile_index } => {
                s.append("tileset ");
                push_quoted(&mut s, tileset_id.as_str());
                s.append(" tile ");
                push_number(&mut s, *tile_index);
                s.append(" must contain 64 pixels to export");
            },
            ExportError::PixelOutOfRange { tileset_id, tile_index, pixel_index } => {
                s.append("tileset ");
                push_quoted(&mut s, tileset_id.as_str());
                s.append(" tile ");
                push_number(&mut s, *tile_index);
                s.append(" pixel ");
                push_number(&mut s, *pixel_index);
                s.append(" exceeds 4bpp range");
            },
            ExportError::ZeroSizedMap { scene_id } => {
                s.append("scene ");
                push_quoted(&mut s, scene_id.as_str());
                s.append(" has an invalid zero-sized map");
            },
            ExportError::MissingTileIndex { scene_id, index } => {
                s.append("scene ");
                push_quoted(&mut s, scene_id.as_str());
                s.append(" tilemap is missing index ");
                push_number(&mut s, *index);
            },
            ExportError::TileOutOfRange { scene_id, tile, tileset_id, tile_count } => {
                s.append("scene ");
                push_quoted(&mut s, scene_id.as_str());
                s.append(" uses tile ");
                push_number(&mut s, *tile as usize);
                s.append(" but tileset ");
                push_quoted(&mut s, tileset_id.as_str());
                s.append(" only has ");
                push_number(&mut s, *tile_count);
                s.append(" tiles");
            },
            ExportError::RomTooSmall { .. } => {
                return None;
            },
            ExportError::UnknownTargetEntity { entity_id, target_entity_id } => {
                s.append("entity ");
                push_quoted(&mut s, entity_id.as_str());
                s.append(" references unknown target entity ");
                push_quoted(&mut s, target_entity_id.as_str());
            },
            ExportError::MissingEntryScene { scene_id } => {
                s.append("entry scene ");
                push_quoted(&mut s, scene_id.as_str());
                s.append(" is missing");
            },
            ExportError::SceneHasNoLayers { scene_id } => {
                s.append("scene ");
                push_quoted(&mut s, scene_id.as_str());
                s.append(" has no layers to compile");
            },
            ExportError::NoLayerToExport { scene_id } => {
                s.append("scene ");
                push_quoted(&mut s, scene_id.as_str());
                s.append(" has no visible layer to export");
            },
            ExportError::MissingTileset { scene_id, tileset_id } => {
                s.append("scene ");
                push_quoted(&mut s, scene_id.as_str());
                s.append(" references missing tileset ");
                push_quoted(&mut s, tileset_id.as_str());
            },
            ExportError::MissingPalette { owner_id, palette_id } => {
                s.append("tileset ");
                push_quoted(&mut s, owner_id.as_str());
                s.append(" references missing palette ");
                push_quoted(&mut s, palette_id.as_str());
            },
            ExportError::MetaspriteMissingPalette { metasprite_id, palette_id } => {
                s.append("metasprite ");
                push_quoted(&mut s, metasprite_id.as_str());
                s.append(" references missing palette ");
                push_quoted(&mut s, palette_id.as_str());
            },
            ExportError::TooManyEntities { scene_id, count } => {
                s.append("scene ");
                push_quoted(&mut s, scene_id.as_str());
                s.append(" has ");
                push_number(&mut s, *count);
                s.append(" entities but the current runtime supports at most 16");
            },
            ExportError::NoSpawnPoint { scene_id } => {
                s.append("scene ");
                push_quoted(&mut s, scene_id.as_str());
                s.append(" has no spawn point");
            },
            ExportError::MissingAnimation { animation_id } => {
                s.append("animation ");
                push_quoted(&mut s, animation_id.as_str());
                s.append(" is missing");
            },
            ExportError::AnimationHasNoFrames { animation_id } => {
                s.append("animation ");
                push_quoted(&mut s, animation_id.as_str());
                s.append(" has no frames");
            },
            ExportError::MissingMetasprite { metasprite_id } => {
                s.append("metasprite ");
                push_quoted(&mut s, metasprite_id.as_str());
                s.append(" is missing");
            },
            ExportError::PaletteMismatch { metasprite_id, palette_id, expected_palette_id } => {
                s.append("metasprite ");
                push_quoted(&mut s, metasprite_id.as_str());
                s.append(" uses palette ");
                push_quoted(&mut s, palette_id.as_str());
                s.append(" but the runtime expects palette ");
                push_quoted(&mut s, expected_palette_id.as_str());
            },
            ExportError::NoTilesetForMetasprite { metasprite_id, palette_id, max_tile_index } => {
                s.append("no tileset with palette ");
                push_quoted(&mut s, palette_id.as_str());
                s.append(" contains metasprite ");
                push_quoted(&mut s, metasprite_id.as_str());
                s.append(" up to tile ");
                push_number(&mut s, *max_tile_index as usize);
            },
            ExportError::TooManyObjTiles => {
                s.append("runtime OBJ tile count exceeded 255 tiles");
            },
            ExportError::PieceOutOfRange { .. } => {
                return None;
            },
            ExportError::NoGenreModule { scene_id } => {
                s.append("no genre module can compile scene ");
                push_quoted(&mut s, scene_id.as_str());
            },
            ExportError::NotSideScroller => {
                s.append("platformer compiler only supports side-scroller scenes");
            },
        }
        Some(s)
    }
}

} // verus!
