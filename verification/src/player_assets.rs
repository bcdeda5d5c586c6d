//! The player, shot, entity and HUD graphics of a project's entry scene,
//! and the entity table the runtime reads.
use vstd::prelude::*;
use crate::assets::{
    appended, build_single_tile_visual, build_visual_from_metasprite, encode_entity_action,
    find_animation, find_metasprite, push_entity_row, resolve_archetype_metasprite,
    spec_entity_action, spec_find_animation, spec_find_metasprite, spec_resolve_archetype,
    spec_visual_checked, entity_row, AssemblyView, ObjAssembly, PieceView, VisualView,
};
use crate::bundle::{first_with_id, palette_ids, scene_ids, HealthHudStyle, ProjectBundle};
use crate::errors::{stopped_by_piece, ExportError, ExportErrorView};
use crate::palette::{encode_obj_palette_bytes, le_words, lemma_words_le, obj_entry_word};
use crate::project::{
    EntityPlacement, MetaspriteResource, PaletteResource, SceneResource, TilesetResource,
};
use crate::text::str_equal;
use crate::tilemap::{scale_scene_x, scale_scene_y, spec_scale_x, spec_scale_y};
use crate::tiles::{
    encode_4bpp_tiles, hud_cell_rows, hud_cell_tile, hud_heart_rows, hud_heart_tile, hud_pip_rows,
    hud_pip_tile, lemma_encoded_tiles, rows_pixels, spec_encoded_tiles, tile_pixels,
};

verus! {

/// The tables after the visual of a metasprite is added, and its index.
pub open spec fn metasprite_visual(
    bundle: ProjectBundle,
    m: MetaspriteResource,
    palette_id: Seq<char>,
    a: AssemblyView,
) -> Result<(AssemblyView, u8), ExportErrorView> {
    match spec_visual_checked(bundle, m, palette_id) {
        Err(e) => Err(e),
        Ok(v) => appended(a, v),
    }
}

/// The names of the archetypes that have a visual.
pub open spec fn known_names(known: Seq<(Seq<char>, u8)>) -> Seq<Seq<char>> {
    known.map_values(|p: (Seq<char>, u8)| p.0)
}

/// The visual index recorded for an archetype.
pub open spec fn known_visual(known: Seq<(Seq<char>, u8)>, name: Seq<char>) -> u8 {
    match first_with_id(known_names(known), name) {
        Some(i) => known[i].1,
        None => 0,
    }
}

/// The tables after a visual is added for each archetype among the first
/// `n` entities that has none yet, and the visual of each such archetype.
pub open spec fn entity_visuals(
    bundle: ProjectBundle,
    palette_id: Seq<char>,
    entities: Seq<EntityPlacement>,
    n: int,
    a0: AssemblyView,
) -> Result<(AssemblyView, Seq<(Seq<char>, u8)>), ExportErrorView>
    decreases n,
{
    if n <= 0 {
        Ok((a0, seq![]))
    } else {
        match entity_visuals(bundle, palette_id, entities, n - 1, a0) {
            Err(e) => Err(e),
            Ok((a, known)) => {
                let name = entities[n - 1].archetype@;
                if first_with_id(known_names(known), name) is Some {
                    Ok((a, known))
                } else {
                    match spec_resolve_archetype(bundle, name) {
                        Err(e) => Err(e),
                        Ok(m) => match metasprite_visual(bundle, m, palette_id, a) {
                            Err(e) => Err(e),
                            Ok((a2, index)) => Ok((a2, known.push((name, index)))),
                        },
                    }
                }
            },
        }
    }
}

/// A visual of one tile at the origin.
pub open spec fn single_visual(pixels: Seq<u8>) -> VisualView {
    VisualView { pieces: seq![PieceView { pixels, x: 0, y: 0, attr: 0x30 }], width: 8 }
}

/// The pixels of the six HUD tiles: pip, heart and cell, each full then
/// empty.
pub open spec fn hud_pixels(k: int) -> Seq<u8> {
    if k == 0 {
        rows_pixels(hud_pip_rows(true))
    } else if k == 1 {
        rows_pixels(hud_pip_rows(false))
    } else if k == 2 {
        rows_pixels(hud_heart_rows(true))
    } else if k == 3 {
        rows_pixels(hud_heart_rows(false))
    } else if k == 4 {
        rows_pixels(hud_cell_rows(true))
    } else {
        rows_pixels(hud_cell_rows(false))
    }
}

/// The tables after the first `k` HUD visuals are added, and their indices.
pub open spec fn hud_visuals(a0: AssemblyView, k: int) -> Result<(AssemblyView, Seq<u8>), ExportErrorView>
    decreases k,
{
    if k <= 0 {
        Ok((a0, seq![]))
    } else {
        match hud_visuals(a0, k - 1) {
            Err(e) => Err(e),
            Ok((a, indices)) => match appended(a, single_visual(hud_pixels(k - 1))) {
                Err(e) => Err(e),
                Ok((a2, index)) => Ok((a2, indices.push(index))),
            },
        }
    }
}

/// The runtime rows of the first `n` entities of a scene.
pub open spec fn entity_rows(scene: SceneResource, known: Seq<(Seq<char>, u8)>, n: int) -> Result<Seq<u8>, ExportErrorView>
    decreases n,
{
    if n <= 0 {
        Ok(seq![])
    } else {
        match entity_rows(scene, known, n - 1) {
            Err(e) => Err(e),
            Ok(rows) => {
                let e = scene.entities@[n - 1];
                match spec_entity_action(e, scene.entities@) {
                    Err(err) => Err(err),
                    Ok(action) => Ok(rows + entity_row(scene, e, known_visual(known, e.archetype@), action)),
                }
            },
        }
    }
}

/// The object graphics and tables of a project.
#[derive(Debug, Clone)]
pub struct PlayerAssets {
    pub obj_palette_bytes: Vec<u8>,
    pub obj_tile_bytes: Vec<u8>,
    pub visual_header_bytes: Vec<u8>,
    pub visual_piece_bytes: Vec<u8>,
    pub player_visual: u8,
    pub player_alt_visual: u8,
    pub bullet_visual: u8,
    pub hud_pip_full_visual: u8,
    pub hud_pip_empty_visual: u8,
    pub hud_heart_full_visual: u8,
    pub hud_heart_empty_visual: u8,
    pub hud_cell_full_visual: u8,
    pub hud_cell_empty_visual: u8,
    pub hud_style: u8,
    pub player_max_health: u8,
    pub player_starting_health: u8,
    pub entity_bytes: Vec<u8>,
    pub entity_count: u8,
    pub start_x: usize,
    pub start_y: usize,
    pub ground_y: usize,
    pub world_width_pixels: usize,
    pub player_max_x: usize,
}

/// What the object graphics of a project hold.
#[verifier::ext_equal]
pub ghost struct PlayerAssetsView {
    pub obj_palette_bytes: Seq<u8>,
    pub obj_tile_bytes: Seq<u8>,
    pub visual_header_bytes: Seq<u8>,
    pub visual_piece_bytes: Seq<u8>,
    pub visuals: (u8, u8, u8),
    pub hud_visuals: Seq<u8>,
    pub hud_style: u8,
    pub player_max_health: u8,
    pub player_starting_health: u8,
    pub entity_bytes: Seq<u8>,
    pub entity_count: u8,
    pub start_x: usize,
    pub start_y: usize,
    pub ground_y: usize,
    pub world_width_pixels: usize,
    pub player_max_x: usize,
}

impl View for PlayerAssets {
    type V = PlayerAssetsView;

    open spec fn view(&self) -> PlayerAssetsView {
        PlayerAssetsView {
            obj_palette_bytes: self.obj_palette_bytes@,
            obj_tile_bytes: self.obj_tile_bytes@,
            visual_header_bytes: self.visual_header_bytes@,
            visual_piece_bytes: self.visual_piece_bytes@,
            visuals: (self.player_visual, self.player_alt_visual, self.bullet_visual),
            hud_visuals: seq![
                self.hud_pip_full_visual,
                self.hud_pip_empty_visual,
                self.hud_heart_full_visual,
                self.hud_heart_empty_visual,
                self.hud_cell_full_visual,
                self.hud_cell_empty_visual,
            ],
            hud_style: self.hud_style,
            player_max_health: self.player_max_health,
            player_starting_health: self.player_starting_health,
            entity_bytes: self.entity_bytes@,
            entity_count: self.entity_count,
            start_x: self.start_x,
            start_y: self.start_y,
            ground_y: self.ground_y,
            world_width_pixels: self.world_width_pixels,
            player_max_x: self.player_max_x,
        }
    }
}

/// The tables before any visual: the blank tile alone.
pub open spec fn initial_assembly() -> AssemblyView {
    AssemblyView { tiles: seq![Seq::new(64, |i: int| 0u8)], headers: seq![], pieces: seq![] }
}

/// The code of a HUD style.
pub open spec fn hud_style_code(s: HealthHudStyle) -> u8 {
    match s {
        HealthHudStyle::MegaPipsTopLeft => 0,
        HealthHudStyle::HeartsTopRight => 1,
        HealthHudStyle::CellsTopCenter => 2,
    }
}

/// The id of the tileset the object tiles are encoded as.
pub open spec fn runtime_obj_tileset_id() -> Seq<char> {
    "generated_runtime_obj_tiles"@
}

/// The object graphics once the entry scene, the player's palette and the
/// player's, alternate and shot metasprites are known.
pub open spec fn player_assets_from(
    bundle: ProjectBundle,
    scene: SceneResource,
    palette: PaletteResource,
    player: MetaspriteResource,
    alt: MetaspriteResource,
    shot: MetaspriteResource,
) -> Result<PlayerAssetsView, ExportErrorView> {
    let pid = palette.id@;
    let n = scene.entities@.len() as int;
    match metasprite_visual(bundle, player, pid, initial_assembly()) {
        Err(e) => Err(e),
        Ok((a1, pv)) => match metasprite_visual(bundle, alt, pid, a1) {
            Err(e) => Err(e),
            Ok((a2, av)) => match metasprite_visual(bundle, shot, pid, a2) {
                Err(e) => Err(e),
                Ok((a3, bv)) => match entity_visuals(bundle, pid, scene.entities@, n, a3) {
                    Err(e) => Err(e),
                    Ok((a4, known)) => match hud_visuals(a4, 6) {
                        Err(e) => Err(e),
                        Ok((a5, hud)) => match spec_encoded_tiles(runtime_obj_tileset_id(), a5.tiles) {
                            Err(e) => Err(e),
                            Ok(tile_bytes) => match entity_rows(scene, known, n) {
                                Err(e) => Err(e),
                                Ok(rows) => {
                                    let player_settings = bundle.manifest.gameplay.player;
                                    let scaled_y = spec_scale_y(scene.size_tiles.height as int, scene.spawns@[0].position.y as int);
                                    let ground_y = if scaled_y >= 16 { scaled_y - 16 } else { 0 };
                                    Ok(
                                        PlayerAssetsView {
                                            obj_palette_bytes: le_words(|i: int| obj_entry_word(palette.colors@, i)),
                                            obj_tile_bytes: tile_bytes,
                                            visual_header_bytes: a5.headers,
                                            visual_piece_bytes: a5.pieces,
                                            visuals: (pv, av, bv),
                                            hud_visuals: hud,
                                            hud_style: hud_style_code(player_settings.health_hud),
                                            player_max_health: player_settings.max_health,
                                            player_starting_health: if player_settings.starting_health
                                                < player_settings.max_health {
                                                player_settings.starting_health
                                            } else {
                                                player_settings.max_health
                                            },
                                            entity_bytes: rows,
                                            entity_count: n as u8,
                                            start_x: spec_scale_x(
                                                scene.size_tiles.width as int,
                                                scene.spawns@[0].position.x as int,
                                            ) as usize,
                                            start_y: ground_y as usize,
                                            ground_y: ground_y as usize,
                                            world_width_pixels: 512,
                                            player_max_x: 496,
                                        },
                                    )
                                },
                            },
                        },
                    },
                },
            },
        },
    }
}

proof fn lemma_entity_rows_len(scene: SceneResource, known: Seq<(Seq<char>, u8)>, n: int)
    requires
        n >= 0,
    ensures
        entity_rows(scene, known, n) matches Ok(rows) ==> rows.len() == 24 * n,
    decreases n,
{
    if n > 0 {
        lemma_entity_rows_len(scene, known, n - 1);
    }
}

/// The entry scene of a project, when it has one.
pub open spec fn entry_scene_of(bundle: ProjectBundle) -> Option<SceneResource> {
    match first_with_id(scene_ids(bundle.scenes@), bundle.manifest.gameplay.entry_scene@) {
        Some(si) => Some(bundle.scenes@[si]),
        None => None,
    }
}

/// Law: built object graphics give the player visual 0, its alternate 1
/// and the shot 2; hold 24 bytes per entity of the entry scene; start the
/// player at no more than its maximum health; and use a world 512 pixels
/// wide with the player kept left of pixel 496.
pub proof fn lemma_player_assets_shape(bundle: ProjectBundle)
    ensures
        spec_player_assets(bundle) matches Ok(v) ==> {
            let player = bundle.manifest.gameplay.player;
            &&& v.visuals == (0u8, 1u8, 2u8)
            &&& entry_scene_of(bundle) matches Some(scene) && v.entity_count == scene.entities@.len()
                && v.entity_bytes.len() == 24 * scene.entities@.len()
            &&& v.player_max_health == player.max_health
            &&& v.player_starting_health == if player.starting_health < player.max_health {
                player.starting_health
            } else {
                player.max_health
            }
            &&& v.world_width_pixels == 512
            &&& v.player_max_x == 496
        },
{
    match first_with_id(scene_ids(bundle.scenes@), bundle.manifest.gameplay.entry_scene@) {
        Some(si) => {
            let scene = bundle.scenes@[si];
            assert forall|known: Seq<(Seq<char>, u8)>| #[trigger] entity_rows(scene, known, scene.entities@.len() as int)
                is Ok implies entity_rows(scene, known, scene.entities@.len() as int)->Ok_0.len() == 24
                * scene.entities@.len() by {
                lemma_entity_rows_len(scene, known, scene.entities@.len() as int);
            }
        },
        None => {},
    }
}

/// The object graphics of a project, built for its entry scene: the
/// player's idle animation (first frame, and second frame or the first
/// again), the `player_shot` metasprite, one visual per entity archetype,
/// the HUD tiles, and the entity table; the first step that fails gives
/// the error.
pub open spec fn spec_player_assets(bundle: ProjectBundle) -> Result<PlayerAssetsView, ExportErrorView> {
    let entry = bundle.manifest.gameplay.entry_scene@;
    match first_with_id(scene_ids(bundle.scenes@), entry) {
        None => Err(ExportErrorView::MissingEntryScene { scene_id: entry }),
        Some(si) => {
            let scene = bundle.scenes@[si];
            if scene.entities@.len() > 16 {
                Err(ExportErrorView::TooManyEntities { scene_id: scene.id@, count: scene.entities@.len() as usize })
            } else if scene.spawns@.len() == 0 {
                Err(ExportErrorView::NoSpawnPoint { scene_id: scene.id@ })
            } else {
                match spec_find_animation(bundle, "player_idle"@) {
                    Err(e) => Err(e),
                    Ok(animation) => if animation.frames@.len() == 0 {
                        Err(ExportErrorView::AnimationHasNoFrames { animation_id: animation.id@ })
                    } else {
                        let frame = animation.frames@[0];
                        let alt_frame = if animation.frames@.len() > 1 { animation.frames@[1] } else { frame };
                        match spec_find_metasprite(bundle, frame.metasprite_id@) {
                            Err(e) => Err(e),
                            Ok(player) => match spec_find_metasprite(bundle, alt_frame.metasprite_id@) {
                                Err(e) => Err(e),
                                Ok(alt) => match spec_find_metasprite(bundle, "player_shot"@) {
                                    Err(e) => Err(e),
                                    Ok(shot) => match first_with_id(palette_ids(bundle.palettes@), player.palette_id@) {
                                        None => Err(
                                            ExportErrorView::MetaspriteMissingPalette {
                                                metasprite_id: player.id@,
                                                palette_id: player.palette_id@,
                                            },
                                        ),
                                        Some(pi) => player_assets_from(
                                            bundle,
                                            scene,
                                            bundle.palettes@[pi],
                                            player,
                                            alt,
                                            shot,
                                        ),
                                    },
                                },
                            },
                        }
                    },
                }
            }
        },
    }
}

proof fn lemma_entity_visuals_err(
    bundle: ProjectBundle,
    palette_id: Seq<char>,
    entities: Seq<EntityPlacement>,
    k: int,
    n: int,
    a0: AssemblyView,
)
    requires
        0 <= k <= n,
        entity_visuals(bundle, palette_id, entities, k, a0) is Err,
    ensures
        entity_visuals(bundle, palette_id, entities, n, a0) == entity_visuals(bundle, palette_id, entities, k, a0),
    decreases n - k,
{
    if k < n {
        lemma_entity_visuals_err(bundle, palette_id, entities, k, n - 1, a0);
    }
}

proof fn lemma_entity_rows_err(scene: SceneResource, known: Seq<(Seq<char>, u8)>, k: int, n: int)
    requires
        0 <= k <= n,
        entity_rows(scene, known, k) is Err,
    ensures
        entity_rows(scene, known, n) == entity_rows(scene, known, k),
    decreases n - k,
{
    if k < n {
        lemma_entity_rows_err(scene, known, k, n - 1);
    }
}

/// Adds the visual of a metasprite drawn with the runtime palette.
fn append_metasprite_visual(
    objs: &mut ObjAssembly,
    bundle: &ProjectBundle,
    m: &MetaspriteResource,
    palette_id: &str,
) -> (r: Result<u8, ExportError>)
    ensures
        match r {
            Ok(index) => metasprite_visual(*bundle, *m, palette_id@, old(objs)@) == Ok::<
                (AssemblyView, u8),
                ExportErrorView,
            >((final(objs)@, index)),
            Err(e) => metasprite_visual(*bundle, *m, palette_id@, old(objs)@) == Err::<
                (AssemblyView, u8),
                ExportErrorView,
            >(e@),
        },
{
    match build_visual_from_metasprite(bundle, m, palette_id) {
        Err(e) => Err(e),
        Ok(v) => objs.append_visual(&v),
    }
}

/// The position of the archetype among the recorded ones.
fn find_known(known: &Vec<(String, u8)>, name: &str) -> (r: Option<usize>)
    ensures
        match r {
            Some(i) => first_with_id(known_names(known_view(known@)), name@) == Some(i as int)
                && i < known@.len(),
            None => first_with_id(known_names(known_view(known@)), name@) is None,
        },
{
    let ghost ids = known_names(known_view(known@));
    let mut i: usize = 0;
    while i < known.len()
        invariant
            i <= known@.len(),
            ids == known_names(known_view(known@)),
            crate::bundle::first_match(ids, name@, i as int) is None,
        decreases known@.len() - i,
    {
        assert(ids[i as int] == known@[i as int].0@);
        if str_equal(known[i].0.as_str(), name) {
            proof {
                crate::bundle::lemma_first_with_id(ids, name@);
                lemma_first_match_found(ids, name@, i as int);
            }
            return Some(i);
        }
        i = i + 1;
    }
    assert(ids.len() == i);
    None
}

proof fn lemma_first_match_found(ids: Seq<Seq<char>>, id: Seq<char>, i: int)
    requires
        0 <= i < ids.len(),
        ids[i] == id,
        crate::bundle::first_match(ids, id, i) is None,
    ensures
        first_with_id(ids, id) == Some(i),
{
    crate::bundle::lemma_first_with_id(ids, id);
    lemma_first_match_none(ids, id, i);
}

proof fn lemma_first_match_none(ids: Seq<Seq<char>>, id: Seq<char>, n: int)
    requires
        0 <= n <= ids.len(),
        crate::bundle::first_match(ids, id, n) is None,
    ensures
        forall|j: int| 0 <= j < n ==> ids[j] != id,
    decreases n,
{
    if n > 0 {
        lemma_first_match_none(ids, id, n - 1);
    }
}

/// The recorded archetype visuals with names as character sequences.
pub open spec fn known_view(known: Seq<(String, u8)>) -> Seq<(Seq<char>, u8)> {
    known.map_values(|p: (String, u8)| (p.0@, p.1))
}

/// Adds a visual for each entity archetype that has none yet.
fn add_entity_visuals(
    objs: &mut ObjAssembly,
    bundle: &ProjectBundle,
    palette_id: &str,
    entities: &Vec<EntityPlacement>,
) -> (r: Result<Vec<(String, u8)>, ExportError>)
    ensures
        match r {
            Ok(known) => entity_visuals(*bundle, palette_id@, entities@, entities@.len() as int, old(objs)@)
                == Ok::<(AssemblyView, Seq<(Seq<char>, u8)>), ExportErrorView>((final(objs)@, known_view(known@))),
            Err(e) => entity_visuals(*bundle, palette_id@, entities@, entities@.len() as int, old(objs)@)
                == Err::<(AssemblyView, Seq<(Seq<char>, u8)>), ExportErrorView>(e@),
        },
{
    let ghost a0 = objs@;
    let mut known: Vec<(String, u8)> = Vec::new();
    assert(known_view(known@) =~= Seq::<(Seq<char>, u8)>::empty());
    let mut k: usize = 0;
    while k < entities.len()
        invariant
            k <= entities@.len(),
            a0 == old(objs)@,
            entity_visuals(*bundle, palette_id@, entities@, k as int, a0) == Ok::<
                (AssemblyView, Seq<(Seq<char>, u8)>),
                ExportErrorView,
            >((objs@, known_view(known@))),
        decreases entities@.len() - k,
    {
        let entity = &entities[k];
        match find_known(&known, entity.archetype.as_str()) {
            Some(_) => {},
            None => {
                let m = match resolve_archetype_metasprite(bundle, entity.archetype.as_str()) {
                    Ok(m) => m,
                    Err(e) => {
                        proof {
                            assert(entities@[k as int] == *entity);
                            assert(entity_visuals(*bundle, palette_id@, entities@, k + 1, a0) == Err::<
                                (AssemblyView, Seq<(Seq<char>, u8)>),
                                ExportErrorView,
                            >(e@));
                            lemma_entity_visuals_err(*bundle, palette_id@, entities@, k + 1, entities@.len() as int, a0);
                        }
                        return Err(e);
                    },
                };
                let ghost before = objs@;
                match append_metasprite_visual(objs, bundle, m, palette_id) {
                    Ok(index) => {
                        let ghost kv = known_view(known@);
                        known.push((entity.archetype.clone(), index));
                        assert(known_view(known@) =~= kv.push((entity.archetype@, index)));
                    },
                    Err(e) => {
                        proof {
                            assert(entities@[k as int] == *entity);
                            assert(entity_visuals(*bundle, palette_id@, entities@, k + 1, a0) == Err::<
                                (AssemblyView, Seq<(Seq<char>, u8)>),
                                ExportErrorView,
                            >(e@));
                            lemma_entity_visuals_err(*bundle, palette_id@, entities@, k + 1, entities@.len() as int, a0);
                        }
                        return Err(e);
                    },
                }
            },
        }
        k = k + 1;
    }
    Ok(known)
}

proof fn lemma_hud_visuals_err(a0: AssemblyView, k: int, n: int)
    requires
        0 <= k <= n,
        hud_visuals(a0, k) is Err,
    ensures
        hud_visuals(a0, n) == hud_visuals(a0, k),
    decreases n - k,
{
    if k < n {
        lemma_hud_visuals_err(a0, k, n - 1);
    }
}

/// Adds the six HUD visuals: pip, heart and cell, each full then empty.
fn add_hud_visuals(objs: &mut ObjAssembly) -> (r: Result<Vec<u8>, ExportError>)
    ensures
        match r {
            Ok(indices) => hud_visuals(old(objs)@, 6) == Ok::<(AssemblyView, Seq<u8>), ExportErrorView>(
                (final(objs)@, indices@),
            ) && indices@.len() == 6,
            Err(e) => hud_visuals(old(objs)@, 6) == Err::<(AssemblyView, Seq<u8>), ExportErrorView>(e@),
        },
{
    let ghost a0 = objs@;
    let mut indices: Vec<u8> = Vec::new();
    let mut k: usize = 0;
    while k < 6
        invariant
            k <= 6,
            a0 == old(objs)@,
            indices@.len() == k,
            hud_visuals(a0, k as int) == Ok::<(AssemblyView, Seq<u8>), ExportErrorView>((objs@, indices@)),
        decreases 6 - k,
    {
        let tile = if k == 0 {
            hud_pip_tile(true)
        } else if k == 1 {
            hud_pip_tile(false)
        } else if k == 2 {
            hud_heart_tile(true)
        } else if k == 3 {
            hud_heart_tile(false)
        } else if k == 4 {
            hud_cell_tile(true)
        } else {
            hud_cell_tile(false)
        };
        assert(tile.pixels@ == hud_pixels(k as int));
        let visual = build_single_tile_visual(tile);
        match objs.append_visual(&visual) {
            Ok(index) => {
                indices.push(index);
            },
            Err(e) => {
                proof {
                    lemma_hud_visuals_err(a0, k + 1, 6);
                }
                return Err(e);
            },
        }
        k = k + 1;
    }
    Ok(indices)
}

/// The runtime rows of every entity of a scene.
fn entity_table(scene: &SceneResource, known: &Vec<(String, u8)>) -> (r: Result<Vec<u8>, ExportError>)
    ensures
        match r {
            Ok(bytes) => entity_rows(*scene, known_view(known@), scene.entities@.len() as int) == Ok::<
                Seq<u8>,
                ExportErrorView,
            >(bytes@),
            Err(e) => entity_rows(*scene, known_view(known@), scene.entities@.len() as int) == Err::<
                Seq<u8>,
                ExportErrorView,
            >(e@),
        },
{
    let mut bytes: Vec<u8> = Vec::new();
    let mut k: usize = 0;
    while k < scene.entities.len()
        invariant
            k <= scene.entities@.len(),
            entity_rows(*scene, known_view(known@), k as int) == Ok::<Seq<u8>, ExportErrorView>(bytes@),
        decreases scene.entities@.len() - k,
    {
        let entity = &scene.entities[k];
        let visual = match find_known(known, entity.archetype.as_str()) {
            Some(i) => known[i].1,
            None => 0,
        };
        assert(visual == known_visual(known_view(known@), entity.archetype@));
        match encode_entity_action(entity, &scene.entities) {
            Ok(action) => {
                push_entity_row(&mut bytes, scene, entity, visual, action);
            },
            Err(e) => {
                proof {
                    lemma_entity_rows_err(*scene, known_view(known@), k + 1, scene.entities@.len() as int);
                }
                return Err(e);
            },
        }
        k = k + 1;
    }
    Ok(bytes)
}

/// Builds the object graphics of a project for its entry scene, on any
/// project: where a metasprite that the build uses has a piece out of
/// range, it stops with `ExportError::PieceOutOfRange`.
pub fn build_player_assets_checked(bundle: &ProjectBundle) -> (r: Result<PlayerAssets, ExportError>)
    ensures
        match r {
            Ok(assets) => spec_player_assets(*bundle) == Ok::<PlayerAssetsView, ExportErrorView>(assets@),
            Err(e) => spec_player_assets(*bundle) == Err::<PlayerAssetsView, ExportErrorView>(e@),
        },
        r matches Ok(a) ==> {
            &&& a.player_visual == 0 && a.player_alt_visual == 1 && a.bullet_visual == 2
            &&& a.entity_bytes@.len() == 24 * a.entity_count
            &&& a.world_width_pixels == 512 && a.player_max_x == 496
            &&& a.player_starting_health <= a.player_max_health
        },
{
    proof {
        lemma_player_assets_shape(*bundle);
    }
    let scene = match bundle.scene(bundle.manifest.gameplay.entry_scene.as_str()) {
        Some(s) => s,
        None => {
            return Err(ExportError::MissingEntryScene { scene_id: bundle.manifest.gameplay.entry_scene.clone() });
        },
    };
    if scene.entities.len() > 16 {
        return Err(ExportError::TooManyEntities { scene_id: scene.id.clone(), count: scene.entities.len() });
    }
    if scene.spawns.len() == 0 {
        return Err(ExportError::NoSpawnPoint { scene_id: scene.id.clone() });
    }
    let animation = match find_animation(bundle, "player_idle") {
        Ok(a) => a,
        Err(e) => {
            return Err(e);
        },
    };
    if animation.frames.len() == 0 {
        return Err(ExportError::AnimationHasNoFrames { animation_id: animation.id.clone() });
    }
    let frame = &animation.frames[0];
    let alt_frame = if animation.frames.len() > 1 { &animation.frames[1] } else { frame };
    let player = match find_metasprite(bundle, frame.metasprite_id.as_str()) {
        Ok(m) => m,
        Err(e) => {
            return Err(e);
        },
    };
    let alt = match find_metasprite(bundle, alt_frame.metasprite_id.as_str()) {
        Ok(m) => m,
        Err(e) => {
            return Err(e);
        },
    };
    let shot = match find_metasprite(bundle, "player_shot") {
        Ok(m) => m,
        Err(e) => {
            return Err(e);
        },
    };
    let palette = match bundle.palette(player.palette_id.as_str()) {
        Some(p) => p,
        None => {
            return Err(
                ExportError::MetaspriteMissingPalette {
                    metasprite_id: player.id.clone(),
                    palette_id: player.palette_id.clone(),
                },
            );
        },
    };
    assemble_player_assets(bundle, scene, palette, player, alt, shot)
}

/// Builds the object graphics of a project for its entry scene. The
/// project must not stop the build on a piece out of range: no metasprite
/// that the build reaches may have a piece too far right.
pub fn build_player_assets(bundle: &ProjectBundle) -> (r: Result<PlayerAssets, ExportError>)
    requires
        !stopped_by_piece(spec_player_assets(*bundle)),
    ensures
        match r {
            Ok(assets) => spec_player_assets(*bundle) == Ok::<PlayerAssetsView, ExportErrorView>(assets@),
            Err(e) => spec_player_assets(*bundle) == Err::<PlayerAssetsView, ExportErrorView>(e@),
        },
        r matches Ok(a) ==> {
            &&& a.player_visual == 0 && a.player_alt_visual == 1 && a.bullet_visual == 2
            &&& a.entity_bytes@.len() == 24 * a.entity_count
            &&& a.world_width_pixels == 512 && a.player_max_x == 496
            &&& a.player_starting_health <= a.player_max_health
        },
{
    build_player_assets_checked(bundle)
}

/// Builds the object graphics once the entry scene, the player's palette
/// and the three metasprites are known.
#[verifier::spinoff_prover]
#[verifier::rlimit(80)]
fn assemble_player_assets(
    bundle: &ProjectBundle,
    scene: &SceneResource,
    palette: &PaletteResource,
    player: &MetaspriteResource,
    alt: &MetaspriteResource,
    shot: &MetaspriteResource,
) -> (r: Result<PlayerAssets, ExportError>)
    requires
        scene.spawns@.len() > 0,
    ensures
        match r {
            Ok(assets) => player_assets_from(*bundle, *scene, *palette, *player, *alt, *shot) == Ok::<
                PlayerAssetsView,
                ExportErrorView,
            >(assets@),
            Err(e) => player_assets_from(*bundle, *scene, *palette, *player, *alt, *shot) == Err::<
                PlayerAssetsView,
                ExportErrorView,
            >(e@),
        },
{
    let spawn = &scene.spawns[0];
    let pid = palette.id.as_str();
    let mut objs = ObjAssembly::new();
    let player_visual = match append_metasprite_visual(&mut objs, bundle, player, pid) {
        Ok(i) => i,
        Err(e) => {
            return Err(e);
        },
    };
    let player_alt_visual = match append_metasprite_visual(&mut objs, bundle, alt, pid) {
        Ok(i) => i,
        Err(e) => {
            return Err(e);
        },
    };
    let bullet_visual = match append_metasprite_visual(&mut objs, bundle, shot, pid) {
        Ok(i) => i,
        Err(e) => {
            return Err(e);
        },
    };
    let known = match add_entity_visuals(&mut objs, bundle, pid, &scene.entities) {
        Ok(k) => k,
        Err(e) => {
            return Err(e);
        },
    };
    let hud = match add_hud_visuals(&mut objs) {
        Ok(h) => h,
        Err(e) => {
            return Err(e);
        },
    };
    let ghost a5 = objs@;
    let ObjAssembly { runtime_tiles, visual_header_bytes, visual_piece_bytes } = objs;
    let obj_tileset = TilesetResource {
        id: String::from_str("generated_runtime_obj_tiles"),
        palette_id: palette.id.clone(),
        name: String::from_str("Generated Runtime OBJ Tiles"),
        tiles: runtime_tiles,
    };
    let encoded = encode_4bpp_tiles(&obj_tileset);
    proof {
        lemma_encoded_tiles(obj_tileset, encoded);
        assert(tile_pixels(obj_tileset.tiles@) == a5.tiles);
    }
    let obj_tile_bytes = match encoded {
        Ok(b) => b,
        Err(e) => {
            return Err(e);
        },
    };
    let entity_bytes = match entity_table(scene, &known) {
        Ok(b) => b,
        Err(e) => {
            return Err(e);
        },
    };
    let obj_palette_bytes = encode_obj_palette_bytes(palette);
    proof {
        lemma_words_le(obj_palette_bytes@, |i: int| obj_entry_word(palette.colors@, i));
    }
    let scaled_x = scale_scene_x(scene, spawn.position.x);
    let scaled_y = scale_scene_y(scene, spawn.position.y);
    let ground_y = if scaled_y >= 16 { scaled_y - 16 } else { 0 };
    let settings = bundle.manifest.gameplay.player;
    let assets = PlayerAssets {
        obj_palette_bytes,
        obj_tile_bytes,
        visual_header_bytes,
        visual_piece_bytes,
        player_visual,
        player_alt_visual,
        bullet_visual,
        hud_pip_full_visual: hud[0],
        hud_pip_empty_visual: hud[1],
        hud_heart_full_visual: hud[2],
        hud_heart_empty_visual: hud[3],
        hud_cell_full_visual: hud[4],
        hud_cell_empty_visual: hud[5],
        hud_style: match settings.health_hud {
            HealthHudStyle::MegaPipsTopLeft => 0,
            HealthHudStyle::HeartsTopRight => 1,
            HealthHudStyle::CellsTopCenter => 2,
        },
        player_max_health: settings.max_health,
        player_starting_health: if settings.starting_health < settings.max_health {
            settings.starting_health
        } else {
            settings.max_health
        },
        entity_bytes,
        entity_count: scene.entities.len() as u8,
        start_x: scaled_x,
        start_y: ground_y,
        ground_y,
        world_width_pixels: 512,
        player_max_x: 496,
    };
    proof {
        assert(hud@.len() == 6);
        assert(assets@.hud_visuals =~= hud@);
    }
    Ok(assets)
}


} // verus!
