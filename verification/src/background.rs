//! The background graphics of a project: the palette, tiles and display
//! map of the first layer of its entry scene.
use vstd::prelude::*;
use crate::bundle::{first_with_id, palette_ids, scene_ids, tileset_ids, ProjectBundle};
use crate::compile::{push_le16, tile_data};
use crate::errors::{ExportError, ExportErrorView};
use crate::palette::{encode_palette_bytes, entry_word, le_words, lemma_words_le};
use crate::project::{PaletteResource, SceneResource, TileLayer, TilesetResource};
use crate::tilemap::{build_display_tilemap, lemma_display_map, spec_display_map};
use crate::tiles::{encode_4bpp_tiles, lemma_encoded_tiles, spec_encoded_tiles, tile_pixels};

verus! {

/// The background graphics: palette and tile bytes, the display map as
/// little-endian words, and its size.
#[derive(Debug, Clone)]
pub struct BgAssets {
    pub palette_bytes: Vec<u8>,
    pub tile_bytes: Vec<u8>,
    pub tilemap_bytes: Vec<u8>,
    pub map_width_tiles: usize,
    pub map_height_tiles: usize,
    pub max_scroll_x_pixels: usize,
}

/// What the background graphics hold.
#[verifier::ext_equal]
pub ghost struct BgAssetsView {
    pub palette_bytes: Seq<u8>,
    pub tile_bytes: Seq<u8>,
    pub tilemap_bytes: Seq<u8>,
    pub map_width_tiles: usize,
    pub map_height_tiles: usize,
    pub max_scroll_x_pixels: usize,
}

impl View for BgAssets {
    type V = BgAssetsView;

    open spec fn view(&self) -> BgAssetsView {
        BgAssetsView {
            palette_bytes: self.palette_bytes@,
            tile_bytes: self.tile_bytes@,
            tilemap_bytes: self.tilemap_bytes@,
            map_width_tiles: self.map_width_tiles,
            map_height_tiles: self.map_height_tiles,
            max_scroll_x_pixels: self.max_scroll_x_pixels,
        }
    }
}

/// The entry scene, its first layer, that layer's tileset and the
/// tileset's palette, or the error for the first one missing.
pub open spec fn spec_bg_sources(bundle: ProjectBundle) -> Result<
    (SceneResource, TileLayer, TilesetResource, PaletteResource),
    ExportErrorView,
> {
    let entry = bundle.manifest.gameplay.entry_scene@;
    match first_with_id(scene_ids(bundle.scenes@), entry) {
        None => Err(ExportErrorView::MissingEntryScene { scene_id: entry }),
        Some(si) => {
            let scene = bundle.scenes@[si];
            if scene.layers@.len() == 0 {
                Err(ExportErrorView::NoLayerToExport { scene_id: scene.id@ })
            } else {
                let layer = scene.layers@[0];
                match first_with_id(tileset_ids(bundle.tilesets@), layer.tileset_id@) {
                    None => Err(ExportErrorView::MissingTileset { scene_id: scene.id@, tileset_id: layer.tileset_id@ }),
                    Some(ti) => {
                        let tileset = bundle.tilesets@[ti];
                        match first_with_id(palette_ids(bundle.palettes@), tileset.palette_id@) {
                            None => Err(
                                ExportErrorView::MissingPalette {
                                    owner_id: tileset.id@,
                                    palette_id: tileset.palette_id@,
                                },
                            ),
                            Some(pi) => Ok((scene, layer, tileset, bundle.palettes@[pi])),
                        }
                    },
                }
            }
        },
    }
}

/// The background graphics of a project.
pub open spec fn spec_bg_assets(bundle: ProjectBundle) -> Result<BgAssetsView, ExportErrorView> {
    match spec_bg_sources(bundle) {
        Err(e) => Err(e),
        Ok((scene, layer, tileset, palette)) => match spec_encoded_tiles(tileset.id@, tile_pixels(tileset.tiles@)) {
            Err(e) => Err(e),
            Ok(tile_bytes) => match spec_display_map(scene, layer, tileset) {
                Err(e) => Err(e),
                Ok(entries) => Ok(
                    BgAssetsView {
                        palette_bytes: le_words(|i: int| entry_word(palette.colors@, i)),
                        tile_bytes,
                        tilemap_bytes: tile_data(entries, entries.len() as int),
                        map_width_tiles: 64,
                        map_height_tiles: 32,
                        max_scroll_x_pixels: 256,
                    },
                ),
            },
        },
    }
}

/// Builds the background graphics of a project.
pub fn build_bg_assets(bundle: &ProjectBundle) -> (r: Result<BgAssets, ExportError>)
    ensures
        match r {
            Ok(bg) => spec_bg_assets(*bundle) == Ok::<BgAssetsView, ExportErrorView>(bg@),
            Err(e) => spec_bg_assets(*bundle) == Err::<BgAssetsView, ExportErrorView>(e@),
        },
{
    let scene = match bundle.scene(bundle.manifest.gameplay.entry_scene.as_str()) {
        Some(s) => s,
        None => {
            return Err(ExportError::MissingEntryScene { scene_id: bundle.manifest.gameplay.entry_scene.clone() });
        },
    };
    if scene.layers.len() == 0 {
        return Err(ExportError::NoLayerToExport { scene_id: scene.id.clone() });
    }
    let layer = &scene.layers[0];
    let tileset = match bundle.tileset(layer.tileset_id.as_str()) {
        Some(t) => t,
        None => {
            return Err(ExportError::MissingTileset { scene_id: scene.id.clone(), tileset_id: layer.tileset_id.clone() });
        },
    };
    let palette = match bundle.palette(tileset.palette_id.as_str()) {
        Some(p) => p,
        None => {
            return Err(ExportError::MissingPalette { owner_id: tileset.id.clone(), palette_id: tileset.palette_id.clone() });
        },
    };
    let palette_bytes = encode_palette_bytes(palette);
    proof {
        lemma_words_le(palette_bytes@, |i: int| entry_word(palette.colors@, i));
    }
    let encoded = encode_4bpp_tiles(tileset);
    proof {
        lemma_encoded_tiles(*tileset, encoded);
    }
    let tile_bytes = match encoded {
        Ok(b) => b,
        Err(e) => {
            return Err(e);
        },
    };
    let map = build_display_tilemap(scene, layer, tileset);
    proof {
        lemma_display_map(*scene, *layer, *tileset, map);
    }
    let entries = match map {
        Ok(m) => m,
        Err(e) => {
            return Err(e);
        },
    };
    let mut tilemap_bytes: Vec<u8> = Vec::new();
    let mut k: usize = 0;
    while k < entries.len()
        invariant
            k <= entries@.len(),
            tilemap_bytes@ == tile_data(entries@, k as int),
        decreases entries@.len() - k,
    {
        push_le16(&mut tilemap_bytes, entries[k]);
        k = k + 1;
    }
    Ok(
        BgAssets {
            palette_bytes,
            tile_bytes,
            tilemap_bytes,
            map_width_tiles: 64,
            map_height_tiles: 32,
            max_scroll_x_pixels: 256,
        },
    )
}

} // verus!
