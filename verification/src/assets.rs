//! The runtime object graphics of a project: the visuals of the player,
//! its shot, the entities and the HUD, built from metasprites and tiles.
use vstd::prelude::*;
use crate::bundle::{animation_ids, first_with_id, metasprite_ids, ProjectBundle};
use crate::errors::{ExportError, ExportErrorView};
use crate::compile::le16;
use crate::project::{
    AnimationResource, EntityAction, EntityKind, EntityPlacement, Facing, MetaspriteResource,
    MovementPattern, SceneResource, SpriteTileRef, Tile8, TilesetResource,
};
use crate::tilemap::{
    scale_scene_delta_x, scale_scene_delta_y, scale_scene_height, scale_scene_width, scale_scene_x,
    scale_scene_y, spec_scale_delta_x, spec_scale_delta_y, spec_scale_height, spec_scale_width,
    spec_scale_x, spec_scale_y,
};
use crate::text::str_equal;
use crate::tiles::copy_tile;

verus! {

/// One tile of a runtime visual: its pixels, offset and attribute byte.
#[derive(Debug, Clone)]
pub struct RuntimeVisualPieceBuild {
    pub tile: Tile8,
    pub x: i8,
    pub y: i8,
    pub attr: u8,
}

/// A runtime visual: its tiles and its width in pixels.
#[derive(Debug, Clone)]
pub struct RuntimeVisualBuild {
    pub pieces: Vec<RuntimeVisualPieceBuild>,
    pub width_pixels: u8,
}

/// What a piece of a runtime visual holds.
#[verifier::ext_equal]
pub ghost struct PieceView {
    pub pixels: Seq<u8>,
    pub x: i8,
    pub y: i8,
    pub attr: u8,
}

/// What a runtime visual holds.
#[verifier::ext_equal]
pub ghost struct VisualView {
    pub pieces: Seq<PieceView>,
    pub width: u8,
}

impl View for RuntimeVisualPieceBuild {
    type V = PieceView;

    open spec fn view(&self) -> PieceView {
        PieceView { pixels: self.tile.pixels@, x: self.x, y: self.y, attr: self.attr }
    }
}

impl View for RuntimeVisualBuild {
    type V = VisualView;

    open spec fn view(&self) -> VisualView {
        VisualView { pieces: self.pieces@.map_values(|p: RuntimeVisualPieceBuild| p@), width: self.width_pixels }
    }
}

/// The animation with the given id, or the error naming it.
pub open spec fn spec_find_animation(bundle: ProjectBundle, id: Seq<char>) -> Result<AnimationResource, ExportErrorView> {
    match first_with_id(animation_ids(bundle.animations@), id) {
        Some(i) => Ok(bundle.animations@[i]),
        None => Err(ExportErrorView::MissingAnimation { animation_id: id }),
    }
}

/// The metasprite with the given id, or the error naming it.
pub open spec fn spec_find_metasprite(bundle: ProjectBundle, id: Seq<char>) -> Result<MetaspriteResource, ExportErrorView> {
    match first_with_id(metasprite_ids(bundle.metasprites@), id) {
        Some(i) => Ok(bundle.metasprites@[i]),
        None => Err(ExportErrorView::MissingMetasprite { metasprite_id: id }),
    }
}

/// Finds an animation by id.
pub fn find_animation<'a>(bundle: &'a ProjectBundle, id: &str) -> (r: Result<&'a AnimationResource, ExportError>)
    ensures
        match r {
            Ok(a) => spec_find_animation(*bundle, id@) == Ok::<AnimationResource, ExportErrorView>(*a),
            Err(e) => spec_find_animation(*bundle, id@) == Err::<AnimationResource, ExportErrorView>(e@),
        },
{
    match bundle.animation(id) {
        Some(a) => Ok(a),
        None => Err(ExportError::MissingAnimation { animation_id: id.to_owned() }),
    }
}

/// Finds a metasprite by id.
pub fn find_metasprite<'a>(bundle: &'a ProjectBundle, id: &str) -> (r: Result<&'a MetaspriteResource, ExportError>)
    ensures
        match r {
            Ok(m) => spec_find_metasprite(*bundle, id@) == Ok::<MetaspriteResource, ExportErrorView>(*m),
            Err(e) => spec_find_metasprite(*bundle, id@) == Err::<MetaspriteResource, ExportErrorView>(e@),
        },
{
    match bundle.metasprite(id) {
        Some(m) => Ok(m),
        None => Err(ExportError::MissingMetasprite { metasprite_id: id.to_owned() }),
    }
}

/// The metasprite an entity archetype is drawn with: the first frame of
/// the animation of that name, else the metasprite of that name.
pub open spec fn spec_resolve_archetype(bundle: ProjectBundle, archetype: Seq<char>) -> Result<MetaspriteResource, ExportErrorView> {
    match first_with_id(animation_ids(bundle.animations@), archetype) {
        Some(i) => {
            let animation = bundle.animations@[i];
            if animation.frames@.len() == 0 {
                Err(ExportErrorView::AnimationHasNoFrames { animation_id: animation.id@ })
            } else {
                spec_find_metasprite(bundle, animation.frames@[0].metasprite_id@)
            }
        },
        None => spec_find_metasprite(bundle, archetype),
    }
}

/// The metasprite an entity archetype is drawn with.
pub fn resolve_archetype_metasprite<'a>(bundle: &'a ProjectBundle, archetype: &str) -> (r: Result<
    &'a MetaspriteResource,
    ExportError,
>)
    ensures
        match r {
            Ok(m) => spec_resolve_archetype(*bundle, archetype@) == Ok::<MetaspriteResource, ExportErrorView>(*m),
            Err(e) => spec_resolve_archetype(*bundle, archetype@) == Err::<MetaspriteResource, ExportErrorView>(e@),
        },
{
    match bundle.animation(archetype) {
        Some(animation) => {
            if animation.frames.len() == 0 {
                return Err(ExportError::AnimationHasNoFrames { animation_id: animation.id.clone() });
            }
            find_metasprite(bundle, animation.frames[0].metasprite_id.as_str())
        },
        None => find_metasprite(bundle, archetype),
    }
}

/// The largest tile index of the first `n` pieces; 0 for none.
pub open spec fn max_tile_index(pieces: Seq<SpriteTileRef>, n: int) -> u16
    decreases n,
{
    if n <= 0 {
        0
    } else {
        let m = max_tile_index(pieces, n - 1);
        if pieces[n - 1].tile_index > m { pieces[n - 1].tile_index } else { m }
    }
}

/// A tileset can draw a metasprite: same palette, and a tile for its
/// largest tile index.
pub open spec fn tileset_fits(t: TilesetResource, palette_id: Seq<char>, max_index: u16) -> bool {
    t.palette_id@ == palette_id && t.tiles@.len() > max_index
}

/// The first of the first `n` tilesets that can draw a metasprite.
pub open spec fn first_fitting(tilesets: Seq<TilesetResource>, palette_id: Seq<char>, max_index: u16, n: int) -> Option<int>
    decreases n,
{
    if n <= 0 {
        None
    } else {
        match first_fitting(tilesets, palette_id, max_index, n - 1) {
            Some(i) => Some(i),
            None => if tileset_fits(tilesets[n - 1], palette_id, max_index) { Some(n - 1) } else { None },
        }
    }
}

/// The tileset a metasprite's tiles are taken from.
pub open spec fn spec_tileset_for(bundle: ProjectBundle, m: MetaspriteResource) -> Result<TilesetResource, ExportErrorView> {
    let max_index = max_tile_index(m.pieces@, m.pieces@.len() as int);
    match first_fitting(bundle.tilesets@, m.palette_id@, max_index, bundle.tilesets@.len() as int) {
        Some(i) => Ok(bundle.tilesets@[i]),
        None => Err(
            ExportErrorView::NoTilesetForMetasprite {
                metasprite_id: m.id@,
                palette_id: m.palette_id@,
                max_tile_index: max_index,
            },
        ),
    }
}

proof fn lemma_first_fitting_stays(tilesets: Seq<TilesetResource>, palette_id: Seq<char>, max_index: u16, n: int, m: int)
    requires
        n <= m,
        first_fitting(tilesets, palette_id, max_index, n) is Some,
    ensures
        first_fitting(tilesets, palette_id, max_index, m) == first_fitting(tilesets, palette_id, max_index, n),
    decreases m - n,
{
    if n < m {
        lemma_first_fitting_stays(tilesets, palette_id, max_index, n, m - 1);
    }
}

proof fn lemma_first_fitting_fits(tilesets: Seq<TilesetResource>, palette_id: Seq<char>, max_index: u16, n: int)
    requires
        0 <= n <= tilesets.len(),
    ensures
        first_fitting(tilesets, palette_id, max_index, n) matches Some(i) ==> 0 <= i < n && tileset_fits(
            tilesets[i],
            palette_id,
            max_index,
        ),
    decreases n,
{
    if n > 0 {
        lemma_first_fitting_fits(tilesets, palette_id, max_index, n - 1);
    }
}

proof fn lemma_max_tile_index_bounds(pieces: Seq<SpriteTileRef>, n: int)
    requires
        0 <= n <= pieces.len(),
    ensures
        forall|k: int| 0 <= k < n ==> (#[trigger] pieces[k]).tile_index <= max_tile_index(pieces, n),
    decreases n,
{
    if n > 0 {
        lemma_max_tile_index_bounds(pieces, n - 1);
    }
}

/// The largest tile index of a metasprite's pieces.
fn metasprite_max_tile_index(m: &MetaspriteResource) -> (r: u16)
    ensures
        r == max_tile_index(m.pieces@, m.pieces@.len() as int),
{
    let mut best: u16 = 0;
    let mut i: usize = 0;
    while i < m.pieces.len()
        invariant
            i <= m.pieces@.len(),
            best == max_tile_index(m.pieces@, i as int),
        decreases m.pieces@.len() - i,
    {
        if m.pieces[i].tile_index > best {
            best = m.pieces[i].tile_index;
        }
        i = i + 1;
    }
    best
}

/// The first tileset with the metasprite's palette that holds all of its
/// tiles.
pub fn find_tileset_for_metasprite<'a>(bundle: &'a ProjectBundle, metasprite: &MetaspriteResource) -> (r: Result<
    &'a TilesetResource,
    ExportError,
>)
    ensures
        match r {
            Ok(t) => spec_tileset_for(*bundle, *metasprite) == Ok::<TilesetResource, ExportErrorView>(*t)
                && tileset_fits(*t, metasprite.palette_id@, max_tile_index(metasprite.pieces@, metasprite.pieces@.len() as int)),
            Err(e) => spec_tileset_for(*bundle, *metasprite) == Err::<TilesetResource, ExportErrorView>(e@),
        },
{
    let max_index = metasprite_max_tile_index(metasprite);
    let mut i: usize = 0;
    while i < bundle.tilesets.len()
        invariant
            i <= bundle.tilesets@.len(),
            max_index == max_tile_index(metasprite.pieces@, metasprite.pieces@.len() as int),
            first_fitting(bundle.tilesets@, metasprite.palette_id@, max_index, i as int) is None,
        decreases bundle.tilesets@.len() - i,
    {
        let t = &bundle.tilesets[i];
        if str_equal(t.palette_id.as_str(), metasprite.palette_id.as_str()) && t.tiles.len() > max_index as usize {
            proof {
                lemma_first_fitting_stays(
                    bundle.tilesets@,
                    metasprite.palette_id@,
                    max_index,
                    i + 1,
                    bundle.tilesets@.len() as int,
                );
            }
            return Ok(t);
        }
        i = i + 1;
    }
    Err(
        ExportError::NoTilesetForMetasprite {
            metasprite_id: metasprite.id.clone(),
            palette_id: metasprite.palette_id.clone(),
            max_tile_index: max_index,
        },
    )
}

/// The width a piece reaches: its offset plus a tile, at least a tile.
pub open spec fn piece_reach(p: SpriteTileRef) -> int {
    if p.x + 8 > 8 { p.x + 8 } else { 8 }
}

/// The widest reach of the first `n` pieces; 8 for none.
pub open spec fn widest_reach(pieces: Seq<SpriteTileRef>, n: int) -> int
    decreases n,
{
    if n <= 0 {
        8
    } else if n == 1 {
        piece_reach(pieces[0])
    } else {
        let m = widest_reach(pieces, n - 1);
        if piece_reach(pieces[n - 1]) > m { piece_reach(pieces[n - 1]) } else { m }
    }
}

/// The width of a visual: the widest reach of its pieces, within 8..=64.
pub open spec fn visual_width(pieces: Seq<SpriteTileRef>) -> u8 {
    let w = widest_reach(pieces, pieces.len() as int);
    (if w < 8 { 8 } else if w > 64 { 64 } else { w }) as u8
}

/// The attribute byte of a piece: priority bits, then the flips.
pub open spec fn piece_attr(p: SpriteTileRef) -> u8 {
    (0x30 + (if p.h_flip { 0x40int } else { 0 }) + (if p.v_flip { 0x80int } else { 0 })) as u8
}

/// The runtime piece drawn for a metasprite piece with tiles from `tiles`.
pub open spec fn runtime_piece(p: SpriteTileRef, tiles: Seq<Tile8>) -> PieceView {
    PieceView { pixels: tiles[p.tile_index as int].pixels@, x: p.x as i8, y: p.y as i8, attr: piece_attr(p) }
}

/// The runtime visual of a metasprite drawn with the expected palette.
pub open spec fn spec_visual_of(bundle: ProjectBundle, m: MetaspriteResource, expected_palette_id: Seq<char>) -> Result<VisualView, ExportErrorView> {
    if m.palette_id@ != expected_palette_id {
        Err(
            ExportErrorView::PaletteMismatch {
                metasprite_id: m.id@,
                palette_id: m.palette_id@,
                expected_palette_id,
            },
        )
    } else {
        match spec_tileset_for(bundle, m) {
            Err(e) => Err(e),
            Ok(tileset) => Ok(
                VisualView {
                    pieces: m.pieces@.map_values(|p: SpriteTileRef| runtime_piece(p, tileset.tiles@)),
                    width: visual_width(m.pieces@),
                },
            ),
        }
    }
}

/// Every piece's offset leaves room for a tile within `i16`.
pub open spec fn pieces_in_range(m: MetaspriteResource) -> bool {
    forall|i: int| 0 <= i < m.pieces@.len() ==> (#[trigger] m.pieces@[i]).x + 8 <= i16::MAX
}

/// The runtime visual of a metasprite as the build makes it: as
/// `spec_visual_of` gives it, but a metasprite whose pieces leave the
/// `i16` range stops the build once its palette and tileset are found.
pub open spec fn spec_visual_checked(
    bundle: ProjectBundle,
    m: MetaspriteResource,
    expected_palette_id: Seq<char>,
) -> Result<VisualView, ExportErrorView> {
    match spec_visual_of(bundle, m, expected_palette_id) {
        Err(e) => Err(e),
        Ok(v) => if pieces_in_range(m) {
            Ok(v)
        } else {
            Err(ExportErrorView::PieceOutOfRange { metasprite_id: m.id@ })
        },
    }
}

/// Whether every piece of a metasprite leaves room for a tile within `i16`.
fn pieces_fit(m: &MetaspriteResource) -> (r: bool)
    ensures
        r == pieces_in_range(*m),
{
    let mut i: usize = 0;
    while i < m.pieces.len()
        invariant
            i <= m.pieces@.len(),
            forall|j: int| 0 <= j < i ==> (#[trigger] m.pieces@[j]).x + 8 <= i16::MAX,
        decreases m.pieces@.len() - i,
    {
        if m.pieces[i].x > i16::MAX - 8 {
            return false;
        }
        i = i + 1;
    }
    true
}

/// The runtime visual of a metasprite, whose palette must be the one the
/// runtime expects.
pub fn build_visual_from_metasprite(
    bundle: &ProjectBundle,
    metasprite: &MetaspriteResource,
    expected_palette_id: &str,
) -> (r: Result<RuntimeVisualBuild, ExportError>)
    ensures
        match r {
            Ok(v) => spec_visual_checked(*bundle, *metasprite, expected_palette_id@) == Ok::<VisualView, ExportErrorView>(v@),
            Err(e) => spec_visual_checked(*bundle, *metasprite, expected_palette_id@) == Err::<VisualView, ExportErrorView>(e@),
        },
{
    if !str_equal(metasprite.palette_id.as_str(), expected_palette_id) {
        return Err(
            ExportError::PaletteMismatch {
                metasprite_id: metasprite.id.clone(),
                palette_id: metasprite.palette_id.clone(),
                expected_palette_id: expected_palette_id.to_owned(),
            },
        );
    }
    let tileset = match find_tileset_for_metasprite(bundle, metasprite) {
        Ok(t) => t,
        Err(e) => {
            return Err(e);
        },
    };
    if !pieces_fit(metasprite) {
        return Err(ExportError::PieceOutOfRange { metasprite_id: metasprite.id.clone() });
    }
    let n = metasprite.pieces.len();
    proof {
        lemma_max_tile_index_bounds(metasprite.pieces@, n as int);
    }
    let mut widest: i16 = 8;
    let mut pieces: Vec<RuntimeVisualPieceBuild> = Vec::new();
    let mut i: usize = 0;
    let ghost max_index = max_tile_index(metasprite.pieces@, n as int);
    while i < n
        invariant
            n == metasprite.pieces@.len(),
            i <= n,
            pieces_in_range(*metasprite),
            tileset_fits(*tileset, metasprite.palette_id@, max_index),
            max_index == max_tile_index(metasprite.pieces@, n as int),
            forall|k: int| 0 <= k < n ==> (#[trigger] metasprite.pieces@[k]).tile_index <= max_index,
            widest == (if i == 0 { 8 } else { widest_reach(metasprite.pieces@, i as int) }),
            pieces@.map_values(|p: RuntimeVisualPieceBuild| p@) == metasprite.pieces@.take(i as int).map_values(
                |p: SpriteTileRef| runtime_piece(p, tileset.tiles@),
            ),
        decreases n - i,
    {
        let p = metasprite.pieces[i];
        assert(p == metasprite.pieces@[i as int]);
        let reach: i16 = if p.x + 8 > 8 { p.x + 8 } else { 8 };
        if i == 0 || reach > widest {
            widest = reach;
        }
        let tile = copy_tile(&tileset.tiles[p.tile_index as usize]);
        let mut attr: u8 = 0x30;
        if p.h_flip {
            attr = attr + 0x40;
        }
        if p.v_flip {
            attr = attr + 0x80;
        }
        let ghost before = pieces@.map_values(|q: RuntimeVisualPieceBuild| q@);
        pieces.push(RuntimeVisualPieceBuild { tile, x: p.x as i8, y: p.y as i8, attr });
        proof {
            assert(pieces@.map_values(|q: RuntimeVisualPieceBuild| q@) =~= before.push(
                runtime_piece(p, tileset.tiles@),
            ));
            assert(metasprite.pieces@.take(i + 1) =~= metasprite.pieces@.take(i as int).push(p));
            assert(metasprite.pieces@.take(i + 1).map_values(|q: SpriteTileRef| runtime_piece(q, tileset.tiles@))
                =~= metasprite.pieces@.take(i as int).map_values(
                |q: SpriteTileRef| runtime_piece(q, tileset.tiles@),
            ).push(runtime_piece(p, tileset.tiles@)));
        }
        i = i + 1;
    }
    let width: u8 = if widest < 8 {
        8
    } else if widest > 64 {
        64
    } else {
        widest as u8
    };
    proof {
        assert(metasprite.pieces@.take(n as int) =~= metasprite.pieces@);
    }
    let v = RuntimeVisualBuild { pieces, width_pixels: width };
    assert(v@ =~= VisualView {
        pieces: metasprite.pieces@.map_values(|p: SpriteTileRef| runtime_piece(p, tileset.tiles@)),
        width: visual_width(metasprite.pieces@),
    });
    Ok(v)
}

/// A visual of one tile at the origin.
pub fn build_single_tile_visual(tile: Tile8) -> (v: RuntimeVisualBuild)
    ensures
        v@ == (VisualView { pieces: seq![PieceView { pixels: tile.pixels@, x: 0, y: 0, attr: 0x30 }], width: 8 }),
{
    let ghost pixels = tile.pixels@;
    let mut pieces = Vec::new();
    pieces.push(RuntimeVisualPieceBuild { tile, x: 0, y: 0, attr: 0x30 });
    let v = RuntimeVisualBuild { pieces, width_pixels: 8 };
    assert(v@.pieces =~= seq![PieceView { pixels, x: 0, y: 0, attr: 0x30 }]);
    v
}

/// The object tiles and visual tables built so far.
#[verifier::ext_equal]
pub ghost struct AssemblyView {
    pub tiles: Seq<Seq<u8>>,
    pub headers: Seq<u8>,
    pub pieces: Seq<u8>,
}

/// The object tiles of the runtime and the tables that place them: three
/// header bytes per visual, four bytes per piece.
#[derive(Debug)]
pub struct ObjAssembly {
    pub runtime_tiles: Vec<Tile8>,
    pub visual_header_bytes: Vec<u8>,
    pub visual_piece_bytes: Vec<u8>,
}

impl View for ObjAssembly {
    type V = AssemblyView;

    open spec fn view(&self) -> AssemblyView {
        AssemblyView {
            tiles: self.runtime_tiles@.map_values(|t: Tile8| t.pixels@),
            headers: self.visual_header_bytes@,
            pieces: self.visual_piece_bytes@,
        }
    }
}

/// The piece table rows of the first `n` pieces, whose tiles are placed
/// from tile `start` on.
pub open spec fn piece_rows(pieces: Seq<PieceView>, start: int, n: int) -> Seq<u8>
    decreases n,
{
    if n <= 0 {
        seq![]
    } else {
        piece_rows(pieces, start, n - 1) + seq![
            (start + n - 1) as u8,
            pieces[n - 1].x as u8,
            pieces[n - 1].y as u8,
            pieces[n - 1].attr,
        ]
    }
}

/// The tables after a visual is added, and its index; adding fails when
/// the object tiles would pass 256.
pub open spec fn appended(a: AssemblyView, v: VisualView) -> Result<(AssemblyView, u8), ExportErrorView> {
    if a.tiles.len() + v.pieces.len() > 256 {
        Err(ExportErrorView::TooManyObjTiles)
    } else {
        Ok(
            (
                AssemblyView {
                    tiles: a.tiles + v.pieces.map_values(|p: PieceView| p.pixels),
                    headers: a.headers + seq![
                        (a.pieces.len() / 4) as u8,
                        v.pieces.len() as u8,
                        if v.width > 8 { v.width } else { 8 },
                    ],
                    pieces: a.pieces + piece_rows(v.pieces, a.tiles.len() as int, v.pieces.len() as int),
                },
                (a.headers.len() / 3) as u8,
            ),
        )
    }
}

impl ObjAssembly {
    /// The tables with only the blank tile, which index 0 stands for.
    pub fn new() -> (a: Self)
        ensures
            a@ == (AssemblyView { tiles: seq![Seq::new(64, |i: int| 0u8)], headers: seq![], pieces: seq![] }),
    {
        let mut pixels: Vec<u8> = Vec::new();
        let mut i: usize = 0;
        while i < 64
            invariant
                i <= 64,
                pixels@ == Seq::new(i as nat, |k: int| 0u8),
            decreases 64 - i,
        {
            pixels.push(0);
            proof {
                assert(pixels@ =~= Seq::new((i + 1) as nat, |k: int| 0u8));
            }
            i = i + 1;
        }
        let mut runtime_tiles = Vec::new();
        runtime_tiles.push(Tile8 { pixels });
        let a = ObjAssembly { runtime_tiles, visual_header_bytes: Vec::new(), visual_piece_bytes: Vec::new() };
        assert(a@.tiles =~= seq![Seq::new(64, |i: int| 0u8)]);
        a
    }

    /// Adds a visual, returning its index.
    pub fn append_visual(&mut self, visual: &RuntimeVisualBuild) -> (r: Result<u8, ExportError>)
        ensures
            match r {
                Ok(index) => appended(old(self)@, visual@) == Ok::<(AssemblyView, u8), ExportErrorView>(
                    (final(self)@, index),
                ),
                Err(e) => appended(old(self)@, visual@) == Err::<(AssemblyView, u8), ExportErrorView>(e@)
                    && final(self)@ == old(self)@,
            },
    {
        let n = visual.pieces.len();
        let start = self.runtime_tiles.len();
        if start > 256 || n > 256 - start {
            return Err(ExportError::TooManyObjTiles);
        }
        let visual_index = (self.visual_header_bytes.len() / 3) as u8;
        let piece_start = (self.visual_piece_bytes.len() / 4) as u8;
        self.visual_header_bytes.push(piece_start);
        self.visual_header_bytes.push(n as u8);
        self.visual_header_bytes.push(if visual.width_pixels > 8 { visual.width_pixels } else { 8 });
        let ghost pv = visual@.pieces;
        let ghost tiles0 = old(self)@.tiles;
        let ghost rows0 = old(self)@.pieces;
        let mut k: usize = 0;
        while k < n
            invariant
                n == visual.pieces@.len(),
                pv == visual@.pieces,
                start == tiles0.len(),
                start + n <= 256,
                k <= n,
                self.runtime_tiles@.len() == start + k,
                self.visual_header_bytes@ == old(self)@.headers + seq![
                    (rows0.len() / 4) as u8,
                    n as u8,
                    if visual.width_pixels > 8 { visual.width_pixels } else { 8u8 },
                ],
                self@.tiles == tiles0 + pv.take(k as int).map_values(|p: PieceView| p.pixels),
                self.visual_piece_bytes@ == rows0 + piece_rows(pv, start as int, k as int),
            decreases n - k,
        {
            let piece = &visual.pieces[k];
            let tile_index = self.runtime_tiles.len();
            assert(tile_index == start + k);
            let ghost tiles_before = self@.tiles;
            self.runtime_tiles.push(copy_tile(&piece.tile));
            self.visual_piece_bytes.push(tile_index as u8);
            self.visual_piece_bytes.push(piece.x as u8);
            self.visual_piece_bytes.push(piece.y as u8);
            self.visual_piece_bytes.push(piece.attr);
            proof {
                assert(pv[k as int] == piece@);
                assert(self@.tiles =~= tiles_before.push(piece.tile.pixels@));
                assert(pv.take(k + 1).map_values(|p: PieceView| p.pixels) =~= pv.take(k as int).map_values(
                    |p: PieceView| p.pixels,
                ).push(piece.tile.pixels@));
                assert(self.visual_piece_bytes@ =~= rows0 + piece_rows(pv, start as int, k + 1));
            }
            k = k + 1;
        }
        proof {
            assert(pv.take(n as int) =~= pv);
            assert(self@ =~= appended(old(self)@, visual@)->Ok_0.0);
        }
        Ok(visual_index)
    }
}

/// The last of the first `n` ids that equals `id`, if any.
pub open spec fn last_match(ids: Seq<Seq<char>>, id: Seq<char>, n: int) -> Option<int>
    decreases n,
{
    if n <= 0 {
        None
    } else if ids[n - 1] == id {
        Some(n - 1)
    } else {
        last_match(ids, id, n - 1)
    }
}

/// The ids of entities.
pub open spec fn entity_ids(s: Seq<EntityPlacement>) -> Seq<Seq<char>> {
    s.map_values(|e: EntityPlacement| e.id@)
}

/// The action bytes of an entity: kind, argument, target entity (255 for
/// none); a target is the last entity of the scene with that id.
pub open spec fn spec_entity_action(e: EntityPlacement, entities: Seq<EntityPlacement>) -> Result<(u8, u8, u8), ExportErrorView> {
    match e.action {
        EntityAction::NoAction => Ok((0, 0, 255)),
        EntityAction::HealPlayer { amount } => Ok((1, amount, 255)),
        EntityAction::SetEntityActive { target_entity_id, active } => match last_match(
            entity_ids(entities),
            target_entity_id@,
            entities.len() as int,
        ) {
            Some(i) => Ok((2, if active { 1 } else { 0 }, i as u8)),
            None => Err(
                ExportErrorView::UnknownTargetEntity { entity_id: e.id@, target_entity_id: target_entity_id@ },
            ),
        },
    }
}

/// The action bytes of an entity among the entities of its scene.
pub fn encode_entity_action(entity: &EntityPlacement, entities: &Vec<EntityPlacement>) -> (r: Result<(u8, u8, u8), ExportError>)
    ensures
        match r {
            Ok(bytes) => spec_entity_action(*entity, entities@) == Ok::<(u8, u8, u8), ExportErrorView>(bytes),
            Err(e) => spec_entity_action(*entity, entities@) == Err::<(u8, u8, u8), ExportErrorView>(e@),
        },
{
    match &entity.action {
        EntityAction::NoAction => Ok((0, 0, 255)),
        EntityAction::HealPlayer { amount } => Ok((1, *amount, 255)),
        EntityAction::SetEntityActive { target_entity_id, active } => {
            let ghost ids = entity_ids(entities@);
            let mut i: usize = entities.len();
            while i > 0
                invariant
                    i <= entities@.len(),
                    ids == entity_ids(entities@),
                    entity.action == (EntityAction::SetEntityActive {
                        target_entity_id: *target_entity_id,
                        active: *active,
                    }),
                    last_match(ids, target_entity_id@, entities@.len() as int) == last_match(
                        ids,
                        target_entity_id@,
                        i as int,
                    ),
                decreases i,
            {
                assert(ids[i - 1] == entities@[i - 1].id@);
                if str_equal(entities[i - 1].id.as_str(), target_entity_id.as_str()) {
                    assert(last_match(ids, target_entity_id@, i as int) == Some((i - 1) as int));
                    return Ok((2, if *active { 1 } else { 0 }, (i - 1) as u8));
                }
                i = i - 1;
            }
            Err(
                ExportError::UnknownTargetEntity {
                    entity_id: entity.id.clone(),
                    target_entity_id: target_entity_id.clone(),
                },
            )
        },
    }
}

/// The movement bytes of an entity: kind, speed (at least 1 when it
/// patrols), and the leftmost and rightmost x it reaches on the display
/// map.
pub open spec fn spec_entity_movement(scene: SceneResource, e: EntityPlacement) -> (u8, u8, u16, u16) {
    let w = scene.size_tiles.width as int;
    let base = spec_scale_x(w, e.position.x as int);
    match e.movement {
        MovementPattern::Stationary => (0, 0, base as u16, base as u16),
        MovementPattern::Patrol { left_offset, right_offset, speed } => {
            let left = base + spec_scale_delta_x(w, left_offset as int);
            let right = base + spec_scale_delta_x(w, right_offset as int);
            let low = if left < right { left } else { right };
            let high = if left > right { left } else { right };
            (
                1,
                if speed > 1 { speed } else { 1 },
                (if low > 0 { low } else { 0 }) as u16,
                (if high > 0 { high } else { 0 }) as u16,
            )
        },
    }
}

/// The movement bytes of an entity.
pub fn encode_entity_movement(scene: &SceneResource, entity: &EntityPlacement) -> (r: (u8, u8, u16, u16))
    ensures
        r == spec_entity_movement(*scene, *entity),
{
    let base = scale_scene_x(scene, entity.position.x);
    match entity.movement {
        MovementPattern::Stationary => (0, 0, base as u16, base as u16),
        MovementPattern::Patrol { left_offset, right_offset, speed } => {
            assert(base <= 32767 * 512) by (nonlinear_arith)
                requires
                    base == spec_scale_x(scene.size_tiles.width as int, entity.position.x as int),
            {
                let w = scene.size_tiles.width as int;
                let x = entity.position.x as int;
                let c = if x > 0 { x } else { 0 };
                let src = crate::tilemap::source_pixels(w);
                assert(src >= 1);
                assert(c * 512 / src <= c * 512);
            }
            let base = base as i32;
            let left = base + scale_scene_delta_x(scene, left_offset) as i32;
            let right = base + scale_scene_delta_x(scene, right_offset) as i32;
            let low = if left < right { left } else { right };
            let high = if left > right { left } else { right };
            (
                1,
                if speed > 1 { speed } else { 1 },
                (if low > 0 { low } else { 0 }) as u16,
                (if high > 0 { high } else { 0 }) as u16,
            )
        },
    }
}

/// The flags byte of an entity: active in bit 0, one-shot in bit 1.
pub open spec fn entity_flags(e: EntityPlacement) -> u8 {
    ((if e.active { 1int } else { 0 }) + (if e.one_shot { 2int } else { 0 })) as u8
}

/// The kind byte of an entity.
pub open spec fn entity_kind_code(k: EntityKind) -> u8 {
    match k {
        EntityKind::Prop => 0,
        EntityKind::Pickup => 1,
        EntityKind::Enemy => 2,
        EntityKind::Switch => 3,
        EntityKind::Solid => 4,
    }
}

/// The facing byte of an entity at run time.
pub open spec fn runtime_facing_code(f: Facing) -> u8 {
    match f {
        Facing::Right => 0,
        Facing::Left => 1,
    }
}

/// The 24 bytes of an entity at run time, given its visual and action.
pub open spec fn entity_row(scene: SceneResource, e: EntityPlacement, visual: u8, action: (u8, u8, u8)) -> Seq<u8> {
    let w = scene.size_tiles.width as int;
    let h = scene.size_tiles.height as int;
    let m = spec_entity_movement(scene, e);
    seq![
        entity_kind_code(e.kind),
        entity_flags(e),
        visual,
        runtime_facing_code(e.facing),
        spec_scale_delta_x(w, e.hitbox.x as int) as i8 as u8,
        spec_scale_delta_y(h, e.hitbox.y as int) as i8 as u8,
        spec_scale_width(w, e.hitbox.width as int) as u8,
        spec_scale_height(h, e.hitbox.height as int) as u8,
        e.combat.contact_damage,
        e.combat.max_health,
        action.0,
        action.1,
        action.2,
        m.0,
        m.1,
        0,
    ] + le16(spec_scale_x(w, e.position.x as int) as u16) + le16(spec_scale_y(h, e.position.y as int) as u16)
        + le16(m.2) + le16(m.3)
}

/// Appends the 24 bytes of an entity at run time.
pub fn push_entity_row(
    bytes: &mut Vec<u8>,
    scene: &SceneResource,
    entity: &EntityPlacement,
    visual: u8,
    action: (u8, u8, u8),
)
    ensures
        final(bytes)@ == old(bytes)@ + entity_row(*scene, *entity, visual, action),
{
    let movement = encode_entity_movement(scene, entity);
    let hitbox_x = scale_scene_delta_x(scene, entity.hitbox.x) as i8;
    let hitbox_y = scale_scene_delta_y(scene, entity.hitbox.y) as i8;
    let hitbox_w = scale_scene_width(scene, entity.hitbox.width) as u8;
    let hitbox_h = scale_scene_height(scene, entity.hitbox.height) as u8;
    let x = scale_scene_x(scene, entity.position.x) as u16;
    let y = scale_scene_y(scene, entity.position.y) as u16;
    let flags: u8 = (if entity.active { 1 } else { 0 }) + (if entity.one_shot { 2 } else { 0 });
    bytes.push(
        match entity.kind {
            EntityKind::Prop => 0,
            EntityKind::Pickup => 1,
            EntityKind::Enemy => 2,
            EntityKind::Switch => 3,
            EntityKind::Solid => 4,
        },
    );
    bytes.push(flags);
    bytes.push(visual);
    bytes.push(
        match entity.facing {
            Facing::Right => 0,
            Facing::Left => 1,
        },
    );
    bytes.push(hitbox_x as u8);
    bytes.push(hitbox_y as u8);
    bytes.push(hitbox_w);
    bytes.push(hitbox_h);
    bytes.push(entity.combat.contact_damage);
    bytes.push(entity.combat.max_health);
    bytes.push(action.0);
    bytes.push(action.1);
    bytes.push(action.2);
    bytes.push(movement.0);
    bytes.push(movement.1);
    bytes.push(0);
    bytes.push((x % 256) as u8);
    bytes.push((x / 256) as u8);
    bytes.push((y % 256) as u8);
    bytes.push((y / 256) as u8);
    bytes.push((movement.2 % 256) as u8);
    bytes.push((movement.2 / 256) as u8);
    bytes.push((movement.3 % 256) as u8);
    bytes.push((movement.3 / 256) as u8);
    assert(final(bytes)@ =~= old(bytes)@ + entity_row(*scene, *entity, visual, action));
}

} // verus!
