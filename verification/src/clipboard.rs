//! Copying a tile selection of a scene, with the objects it holds, into a
//! clipboard, and pasting a clipboard back at an anchor tile.
use vstd::prelude::*;
use vstd::string::StringExecFns;
use crate::editor::TileSelectionRect;
use crate::layers::SceneSelection;
use crate::project::{
    Checkpoint, EntityAction, EntityPlacement, PointI16, RectI16, SceneResource, SpawnPoint, TileLayer,
    TriggerVolume,
};
use crate::scene_edit::{edited_layer, rect_fits};
use crate::assets::entity_ids;
use crate::text::{decimal, push_decimal};
use crate::unique_ids::{fresh_copy, id_views, next_unique_layer_id, pasted_id_strings, pasted_ids};

verus! {

/// A copied block of a scene: the cells of the edited layer and the
/// collision flags, row after row, and the objects the selection held,
/// placed relative to its top-left pixel.
#[derive(Debug, Clone)]
pub struct SceneClipboard {
    pub width_tiles: usize,
    pub height_tiles: usize,
    pub tiles: Vec<u16>,
    pub solids: Vec<bool>,
    pub ladders: Vec<bool>,
    pub hazards: Vec<bool>,
    pub spawns: Vec<SpawnPoint>,
    pub checkpoints: Vec<Checkpoint>,
    pub entities: Vec<EntityPlacement>,
    pub triggers: Vec<TriggerVolume>,
}

/// Cell `i`, or `dflt` past the end.
pub open spec fn cell_or<T>(cells: Seq<T>, i: int, dflt: T) -> T {
    if 0 <= i < cells.len() {
        cells[i]
    } else {
        dflt
    }
}

/// The selected cells of row `y`.
pub open spec fn grabbed_row<T>(cells: Seq<T>, rect: TileSelectionRect, w: int, y: int, dflt: T) -> Seq<T> {
    Seq::new((rect.max_x - rect.min_x + 1) as nat, |j: int| cell_or(cells, y * w + rect.min_x + j, dflt))
}

/// The selected cells of the rows from the top one up to `y_end`, row
/// after row.
pub open spec fn grabbed_rows<T>(cells: Seq<T>, rect: TileSelectionRect, w: int, y_end: int, dflt: T) -> Seq<T>
    decreases y_end - rect.min_y,
{
    if y_end <= rect.min_y {
        Seq::empty()
    } else {
        grabbed_rows(cells, rect, w, y_end - 1, dflt) + grabbed_row(cells, rect, w, y_end - 1, dflt)
    }
}

/// The selected cells, row after row; none when the corners are reversed.
pub open spec fn grabbed<T>(cells: Seq<T>, rect: TileSelectionRect, w: int, dflt: T) -> Seq<T> {
    if rect.min_x > rect.max_x {
        Seq::empty()
    } else {
        grabbed_rows(cells, rect, w, rect.max_y + 1, dflt)
    }
}

/// The selected cells of a grid `w` cells wide, row after row; `dflt` for
/// cells past the end.
fn grab_cells<T: Copy>(cells: &Vec<T>, rect: TileSelectionRect, w: usize, dflt: T) -> (out: Vec<T>)
    requires
        rect_fits(rect, w as int),
    ensures
        out@ == grabbed(cells@, rect, w as int, dflt),
{
    let mut out: Vec<T> = Vec::new();
    if rect.min_x > rect.max_x {
        return out;
    }
    let ghost wi = w as int;
    let mut y = rect.min_y;
    while y <= rect.max_y
        invariant
            rect_fits(rect, wi),
            wi == w,
            rect.min_x <= rect.max_x,
            y == rect.min_y || rect.min_y < y <= rect.max_y + 1,
            out@ == grabbed_rows(cells@, rect, wi, y as int, dflt),
        decreases rect.max_y + 1 - y,
    {
        let ghost prefix = out@;
        let ghost row = grabbed_row(cells@, rect, wi, y as int, dflt);
        let mut x = rect.min_x;
        while x <= rect.max_x
            invariant
                rect_fits(rect, wi),
                wi == w,
                rect.min_x <= x <= rect.max_x + 1,
                rect.min_y <= y <= rect.max_y,
                row == grabbed_row(cells@, rect, wi, y as int, dflt),
                out@ == prefix + row.take(x - rect.min_x),
            decreases rect.max_x + 1 - x,
        {
            assert(y * w <= rect.max_y * w) by (nonlinear_arith)
                requires
                    y <= rect.max_y,
            ;
            let i = y * w + x;
            let v = if i < cells.len() { cells[i] } else { dflt };
            assert(row[x - rect.min_x] == v);
            out.push(v);
            assert(row.take(x - rect.min_x + 1) =~= row.take(x - rect.min_x).push(v));
            x = x + 1;
        }
        assert(row.take(rect.max_x + 1 - rect.min_x) =~= row);
        y = y + 1;
    }
    out
}

/// The top-left pixel of a selection.
pub open spec fn selection_origin(rect: TileSelectionRect) -> PointI16 {
    PointI16 { x: (rect.min_x * 8) as i16, y: (rect.min_y * 8) as i16 }
}

/// `p - o` fits a pixel position.
pub open spec fn shift_fits(p: PointI16, o: PointI16) -> bool {
    i16::MIN <= p.x - o.x <= i16::MAX && i16::MIN <= p.y - o.y <= i16::MAX
}

/// `p - o`.
pub open spec fn shifted(p: PointI16, o: PointI16) -> PointI16 {
    PointI16 { x: (p.x - o.x) as i16, y: (p.y - o.y) as i16 }
}

/// The picked spawns that exist, moved by `-o`, in the order picked.
pub open spec fn copied_spawns(items: Seq<SpawnPoint>, picks: Seq<usize>, o: PointI16) -> Seq<SpawnPoint>
    decreases picks.len(),
{
    if picks.len() == 0 {
        Seq::empty()
    } else {
        let prev = copied_spawns(items, picks.drop_last(), o);
        let k = picks.last() as int;
        if k < items.len() {
            prev.push(SpawnPoint { position: shifted(items[k].position, o), ..items[k] })
        } else {
            prev
        }
    }
}

/// The picked checkpoints that exist, moved by `-o`, in the order picked.
pub open spec fn copied_checkpoints(items: Seq<Checkpoint>, picks: Seq<usize>, o: PointI16) -> Seq<Checkpoint>
    decreases picks.len(),
{
    if picks.len() == 0 {
        Seq::empty()
    } else {
        let prev = copied_checkpoints(items, picks.drop_last(), o);
        let k = picks.last() as int;
        if k < items.len() {
            prev.push(Checkpoint { position: shifted(items[k].position, o), ..items[k] })
        } else {
            prev
        }
    }
}

/// The picked entities that exist, moved by `-o`, in the order picked.
pub open spec fn copied_entities(items: Seq<EntityPlacement>, picks: Seq<usize>, o: PointI16) -> Seq<
    EntityPlacement,
>
    decreases picks.len(),
{
    if picks.len() == 0 {
        Seq::empty()
    } else {
        let prev = copied_entities(items, picks.drop_last(), o);
        let k = picks.last() as int;
        if k < items.len() {
            prev.push(EntityPlacement { position: shifted(items[k].position, o), ..items[k] })
        } else {
            prev
        }
    }
}

/// A trigger's rectangle moved by `-o`.
pub open spec fn shifted_rect(r: RectI16, o: PointI16) -> RectI16 {
    RectI16 { x: (r.x - o.x) as i16, y: (r.y - o.y) as i16, ..r }
}

/// The picked triggers that exist, moved by `-o`, in the order picked.
pub open spec fn copied_triggers(items: Seq<TriggerVolume>, picks: Seq<usize>, o: PointI16) -> Seq<TriggerVolume>
    decreases picks.len(),
{
    if picks.len() == 0 {
        Seq::empty()
    } else {
        let prev = copied_triggers(items, picks.drop_last(), o);
        let k = picks.last() as int;
        if k < items.len() {
            prev.push(TriggerVolume { rect: shifted_rect(items[k].rect, o), ..items[k] })
        } else {
            prev
        }
    }
}

/// Every picked object that exists can be moved by `-o`.
pub open spec fn picks_fit(positions: Seq<PointI16>, picks: Seq<usize>, o: PointI16) -> bool {
    forall|j: int| 0 <= j < picks.len() && picks[j] < positions.len() ==> shift_fits(positions[picks[j] as int], o)
}

/// The objects that the selection holds can all be moved to be relative
/// to its top-left pixel.
pub open spec fn selection_objects_fit(scene: SceneResource, selection: SceneSelection) -> bool {
    let o = selection_origin(selection.rect);
    &&& picks_fit(scene.spawns@.map_values(|s: SpawnPoint| s.position), selection.spawns@, o)
    &&& picks_fit(scene.checkpoints@.map_values(|c: Checkpoint| c.position), selection.checkpoints@, o)
    &&& picks_fit(scene.entities@.map_values(|e: EntityPlacement| e.position), selection.entities@, o)
    &&& picks_fit(
        scene.triggers@.map_values(|t: TriggerVolume| PointI16 { x: t.rect.x, y: t.rect.y }),
        selection.triggers@,
        o,
    )
}

fn shift_point(p: PointI16, o: PointI16) -> (r: PointI16)
    requires
        shift_fits(p, o),
    ensures
        r == shifted(p, o),
{
    PointI16 { x: p.x - o.x, y: p.y - o.y }
}

fn copy_action(a: &EntityAction) -> (r: EntityAction)
    ensures
        r == *a,
{
    match a {
        EntityAction::NoAction => EntityAction::NoAction,
        EntityAction::HealPlayer { amount } => EntityAction::HealPlayer { amount: *amount },
        EntityAction::SetEntityActive { target_entity_id, active } => EntityAction::SetEntityActive {
            target_entity_id: target_entity_id.clone(),
            active: *active,
        },
    }
}

fn copy_spawns(items: &Vec<SpawnPoint>, picks: &Vec<usize>, o: PointI16) -> (out: Vec<SpawnPoint>)
    requires
        picks_fit(items@.map_values(|s: SpawnPoint| s.position), picks@, o),
    ensures
        out@ == copied_spawns(items@, picks@, o),
{
    let mut out: Vec<SpawnPoint> = Vec::new();
    let mut j: usize = 0;
    while j < picks.len()
        invariant
            j <= picks@.len(),
            picks_fit(items@.map_values(|s: SpawnPoint| s.position), picks@, o),
            out@ == copied_spawns(items@, picks@.take(j as int), o),
        decreases picks@.len() - j,
    {
        assert(picks@.take(j + 1).drop_last() =~= picks@.take(j as int));
        let k = picks[j];
        if k < items.len() {
            let s = &items[k];
            assert(items@.map_values(|s: SpawnPoint| s.position)[k as int] == s.position);
            out.push(SpawnPoint { id: s.id.clone(), position: shift_point(s.position, o) });
        }
        j = j + 1;
    }
    assert(picks@.take(j as int) =~= picks@);
    out
}

fn copy_checkpoints(items: &Vec<Checkpoint>, picks: &Vec<usize>, o: PointI16) -> (out: Vec<Checkpoint>)
    requires
        picks_fit(items@.map_values(|c: Checkpoint| c.position), picks@, o),
    ensures
        out@ == copied_checkpoints(items@, picks@, o),
{
    let mut out: Vec<Checkpoint> = Vec::new();
    let mut j: usize = 0;
    while j < picks.len()
        invariant
            j <= picks@.len(),
            picks_fit(items@.map_values(|c: Checkpoint| c.position), picks@, o),
            out@ == copied_checkpoints(items@, picks@.take(j as int), o),
        decreases picks@.len() - j,
    {
        assert(picks@.take(j + 1).drop_last() =~= picks@.take(j as int));
        let k = picks[j];
        if k < items.len() {
            let c = &items[k];
            assert(items@.map_values(|c: Checkpoint| c.position)[k as int] == c.position);
            out.push(Checkpoint { id: c.id.clone(), position: shift_point(c.position, o) });
        }
        j = j + 1;
    }
    assert(picks@.take(j as int) =~= picks@);
    out
}

fn copy_entities(items: &Vec<EntityPlacement>, picks: &Vec<usize>, o: PointI16) -> (out: Vec<EntityPlacement>)
    requires
        picks_fit(items@.map_values(|e: EntityPlacement| e.position), picks@, o),
    ensures
        out@ == copied_entities(items@, picks@, o),
{
    let mut out: Vec<EntityPlacement> = Vec::new();
    let mut j: usize = 0;
    while j < picks.len()
        invariant
            j <= picks@.len(),
            picks_fit(items@.map_values(|e: EntityPlacement| e.position), picks@, o),
            out@ == copied_entities(items@, picks@.take(j as int), o),
        decreases picks@.len() - j,
    {
        assert(picks@.take(j + 1).drop_last() =~= picks@.take(j as int));
        let k = picks[j];
        if k < items.len() {
            let e = &items[k];
            assert(items@.map_values(|e: EntityPlacement| e.position)[k as int] == e.position);
            out.push(
                EntityPlacement {
                    id: e.id.clone(),
                    archetype: e.archetype.clone(),
                    kind: e.kind,
                    position: shift_point(e.position, o),
                    facing: e.facing,
                    hitbox: e.hitbox,
                    combat: e.combat,
                    action: copy_action(&e.action),
                    movement: e.movement,
                    active: e.active,
                    one_shot: e.one_shot,
                },
            );
        }
        j = j + 1;
    }
    assert(picks@.take(j as int) =~= picks@);
    out
}

fn copy_triggers(items: &Vec<TriggerVolume>, picks: &Vec<usize>, o: PointI16) -> (out: Vec<TriggerVolume>)
    requires
        picks_fit(items@.map_values(|t: TriggerVolume| PointI16 { x: t.rect.x, y: t.rect.y }), picks@, o),
    ensures
        out@ == copied_triggers(items@, picks@, o),
{
    let mut out: Vec<TriggerVolume> = Vec::new();
    let mut j: usize = 0;
    while j < picks.len()
        invariant
            j <= picks@.len(),
            picks_fit(items@.map_values(|t: TriggerVolume| PointI16 { x: t.rect.x, y: t.rect.y }), picks@, o),
            out@ == copied_triggers(items@, picks@.take(j as int), o),
        decreases picks@.len() - j,
    {
        assert(picks@.take(j + 1).drop_last() =~= picks@.take(j as int));
        let k = picks[j];
        if k < items.len() {
            let t = &items[k];
            assert(items@.map_values(|t: TriggerVolume| PointI16 { x: t.rect.x, y: t.rect.y })[k as int] == PointI16 {
                x: t.rect.x,
                y: t.rect.y,
            });
            let p = shift_point(PointI16 { x: t.rect.x, y: t.rect.y }, o);
            out.push(
                TriggerVolume {
                    id: t.id.clone(),
                    kind: t.kind,
                    rect: RectI16 { x: p.x, y: p.y, width: t.rect.width, height: t.rect.height },
                    script_id: t.script_id.clone(),
                },
            );
        }
        j = j + 1;
    }
    assert(picks@.take(j as int) =~= picks@);
    out
}

/// A selection's width in tiles as the clipboard records it: 1 when the
/// corners are reversed.
pub open spec fn span(lo: usize, hi: usize) -> nat {
    (if hi >= lo { hi - lo } else { 0 }) as nat + 1
}

/// The status after copying a selection.
pub open spec fn spec_copy_status(w: nat, h: nat, layer_id: Seq<char>) -> Seq<char> {
    "Copied "@ + decimal(w) + "x"@ + decimal(h) + " selection from '"@ + layer_id + "'"@
}

/// Copies the selected cells of the edited layer (the selected one,
/// clamped to the last) and of the collision flags, and the objects the
/// selection holds, moved to be relative to its top-left pixel; with the
/// status to report. `None` for a scene without layers.
pub fn copy_selection(scene: &SceneResource, selected_layer: usize, selection: &SceneSelection) -> (r: Option<
    (SceneClipboard, String),
>)
    requires
        rect_fits(selection.rect, scene.size_tiles.width as int),
        selection.rect.min_x * 8 <= usize::MAX,
        selection.rect.min_y * 8 <= usize::MAX,
        selection_objects_fit(*scene, *selection),
    ensures
        scene.layers@.len() == 0 ==> r is None,
        scene.layers@.len() > 0 ==> {
            let rect = selection.rect;
            let w = scene.size_tiles.width as int;
            let layer = scene.layers@[edited_layer(selected_layer as int, scene.layers@.len() as int)];
            let o = selection_origin(rect);
            r matches Some((clip, status)) && {
                &&& clip.width_tiles == span(rect.min_x, rect.max_x)
                &&& clip.height_tiles == span(rect.min_y, rect.max_y)
                &&& clip.tiles@ == grabbed(layer.tiles@, rect, w, 0u16)
                &&& clip.solids@ == grabbed(scene.collision.solids@, rect, w, false)
                &&& clip.ladders@ == grabbed(scene.collision.ladders@, rect, w, false)
                &&& clip.hazards@ == grabbed(scene.collision.hazards@, rect, w, false)
                &&& clip.spawns@ == copied_spawns(scene.spawns@, selection.spawns@, o)
                &&& clip.checkpoints@ == copied_checkpoints(scene.checkpoints@, selection.checkpoints@, o)
                &&& clip.entities@ == copied_entities(scene.entities@, selection.entities@, o)
                &&& clip.triggers@ == copied_triggers(scene.triggers@, selection.triggers@, o)
                &&& status@ == spec_copy_status(clip.width_tiles as nat, clip.height_tiles as nat, layer.id@)
            }
        },
{
    let count = scene.layers.len();
    if count == 0 {
        return None;
    }
    let layer = &scene.layers[if selected_layer < count - 1 { selected_layer } else { count - 1 }];
    let rect = selection.rect;
    let w = scene.size_tiles.width as usize;
    let width_tiles = rect.width_tiles();
    let height_tiles = rect.height_tiles();
    let tiles = grab_cells(&layer.tiles, rect, w, 0u16);
    let solids = grab_cells(&scene.collision.solids, rect, w, false);
    let ladders = grab_cells(&scene.collision.ladders, rect, w, false);
    let hazards = grab_cells(&scene.collision.hazards, rect, w, false);
    let o = rect.origin_pixels();
    let spawns = copy_spawns(&scene.spawns, &selection.spawns, o);
    let checkpoints = copy_checkpoints(&scene.checkpoints, &selection.checkpoints, o);
    let entities = copy_entities(&scene.entities, &selection.entities, o);
    let triggers = copy_triggers(&scene.triggers, &selection.triggers, o);
    let mut status = String::from_str("Copied ");
    push_decimal(&mut status, width_tiles as u128);
    status.append("x");
    push_decimal(&mut status, height_tiles as u128);
    status.append(" selection from '");
    status.append(layer.id.as_str());
    status.append("'");
    let clip = SceneClipboard {
        width_tiles,
        height_tiles,
        tiles,
        solids,
        ladders,
        hazards,
        spawns,
        checkpoints,
        entities,
        triggers,
    };
    Some((clip, status))
}


/// The clipboard cell that lands on scene cell `i` when a `cw` by `ch`
/// block is pasted with its top-left cell at column `ax`, row `ay` of a
/// `sw` by `sh` scene.
pub open spec fn paste_source(i: int, sw: int, sh: int, ax: int, ay: int, cw: int, ch: int) -> Option<int> {
    if sw > 0 && 0 <= i < sw * sh && ax <= i % sw < ax + cw && ay <= i / sw < ay + ch {
        Some((i / sw - ay) * cw + (i % sw - ax))
    } else {
        None
    }
}

/// The cells after pasting: each scene cell that a clipboard cell lands
/// on takes it.
pub open spec fn pasted<T>(cells: Seq<T>, clip: Seq<T>, sw: int, sh: int, ax: int, ay: int, cw: int, ch: int) -> Seq<
    T,
> {
    Seq::new(
        cells.len(),
        |i: int|
            match paste_source(i, sw, sh, ax, ay, cw, ch) {
                Some(k) if 0 <= k < clip.len() => clip[k],
                _ => cells[i],
            },
    )
}

/// The cells after pasting the clipboard cells before number `done`.
pub open spec fn pasted_upto<T>(
    cells: Seq<T>,
    clip: Seq<T>,
    sw: int,
    sh: int,
    ax: int,
    ay: int,
    cw: int,
    ch: int,
    done: int,
) -> Seq<T> {
    Seq::new(
        cells.len(),
        |i: int|
            match paste_source(i, sw, sh, ax, ay, cw, ch) {
                Some(k) if 0 <= k < clip.len() && k < done => clip[k],
                _ => cells[i],
            },
    )
}

proof fn lemma_cell_split(x: int, y: int, w: int)
    requires
        0 <= x < w,
        0 <= y,
    ensures
        (y * w + x) % w == x,
        (y * w + x) / w == y,
{
    vstd::arithmetic::div_mod::lemma_fundamental_div_mod_converse(y * w + x, w, y, x);
}

/// The only scene cell that clipboard cell `ly * cw + lx` can land on is
/// column `ax + lx`, row `ay + ly`.
proof fn lemma_paste_target(i: int, sw: int, sh: int, ax: int, ay: int, cw: int, ch: int, lx: int, ly: int)
    requires
        0 <= lx < cw,
        0 <= ly < ch,
        0 <= ax,
        0 <= ay,
        paste_source(i, sw, sh, ax, ay, cw, ch) == Some(ly * cw + lx),
    ensures
        i % sw == ax + lx,
        i / sw == ay + ly,
        i == (ay + ly) * sw + (ax + lx),
{
    let tx = i % sw;
    let ty = i / sw;
    lemma_cell_split(tx - ax, ty - ay, cw);
    lemma_cell_split(lx, ly, cw);
    vstd::arithmetic::div_mod::lemma_fundamental_div_mod(i, sw);
    assert(sw * ty == ty * sw) by (nonlinear_arith);
}

/// Pastes the clipboard cells of a `cw` by `ch` block, row after row, with
/// its top-left cell at column `ax`, row `ay` of a `sw` by `sh` grid;
/// cells that land outside the grid, or that the clipboard lacks, are
/// skipped.
fn paste_cells<T: Copy>(
    cells: &mut Vec<T>,
    clip: &Vec<T>,
    sw: usize,
    sh: usize,
    ax: usize,
    ay: usize,
    cw: usize,
    ch: usize,
)
    requires
        sw * sh <= old(cells)@.len(),
        ax + cw <= usize::MAX,
        ay + ch <= usize::MAX,
        cw * ch <= usize::MAX,
    ensures
        final(cells)@ == pasted(old(cells)@, clip@, sw as int, sh as int, ax as int, ay as int, cw as int, ch as int),
{
    let total = cells.len();
    assert(sw * sh <= usize::MAX);
    let ghost orig = cells@;
    let ghost (swi, shi, axi, ayi, cwi, chi) = (sw as int, sh as int, ax as int, ay as int, cw as int, ch as int);
    assert(cells@ =~= pasted_upto(orig, clip@, swi, shi, axi, ayi, cwi, chi, 0));
    let mut ly: usize = 0;
    while ly < ch
        invariant
            swi == sw && shi == sh && axi == ax && ayi == ay && cwi == cw && chi == ch,
            sw * sh <= orig.len(),
            sw * sh <= usize::MAX,
            cells@.len() == orig.len(),
            ax + cw <= usize::MAX,
            ay + ch <= usize::MAX,
            cw * ch <= usize::MAX,
            ly <= ch,
            cells@ == pasted_upto(orig, clip@, swi, shi, axi, ayi, cwi, chi, ly * cw),
        decreases ch - ly,
    {
        assert(ly * cw + cw <= cw * ch) by (nonlinear_arith)
            requires
                ly < ch,
        ;
        let mut lx: usize = 0;
        while lx < cw
            invariant
                swi == sw && shi == sh && axi == ax && ayi == ay && cwi == cw && chi == ch,
                sw * sh <= orig.len(),
                sw * sh <= usize::MAX,
                cells@.len() == orig.len(),
                ax + cw <= usize::MAX,
                ay + ch <= usize::MAX,
                ly < ch,
                lx <= cw,
                ly * cw + cw <= cw * ch,
                cw * ch <= usize::MAX,
                cells@ == pasted_upto(orig, clip@, swi, shi, axi, ayi, cwi, chi, ly * cw + lx),
            decreases cw - lx,
        {
            let tx = ax + lx;
            let ty = ay + ly;
            let s = ly * cw + lx;
            let ghost before = cells@;
            if tx < sw && ty < sh {
                assert(ty * sw + tx < sw * sh) by (nonlinear_arith)
                    requires
                        tx < sw,
                        ty < sh,
                ;
                let t = ty * sw + tx;
                proof {
                    lemma_cell_split(tx as int, ty as int, swi);
                    assert(paste_source(t as int, swi, shi, axi, ayi, cwi, chi) == Some(s as int));
                }
                if s < clip.len() {
                    cells.set(t, clip[s]);
                }
                proof {
                    assert forall|i: int| 0 <= i < cells@.len() implies cells@[i] == pasted_upto(
                        orig,
                        clip@,
                        swi,
                        shi,
                        axi,
                        ayi,
                        cwi,
                        chi,
                        s + 1,
                    )[i] by {
                        if i != t {
                            if paste_source(i, swi, shi, axi, ayi, cwi, chi) == Some(s as int) {
                                lemma_paste_target(i, swi, shi, axi, ayi, cwi, chi, lx as int, ly as int);
                            }
                        }
                    }
                    assert(cells@ =~= pasted_upto(orig, clip@, swi, shi, axi, ayi, cwi, chi, s + 1));
                }
            } else {
                proof {
                    assert forall|i: int| 0 <= i < cells@.len() implies cells@[i] == pasted_upto(
                        orig,
                        clip@,
                        swi,
                        shi,
                        axi,
                        ayi,
                        cwi,
                        chi,
                        s + 1,
                    )[i] by {
                        if paste_source(i, swi, shi, axi, ayi, cwi, chi) == Some(s as int) {
                            lemma_paste_target(i, swi, shi, axi, ayi, cwi, chi, lx as int, ly as int);
                            vstd::arithmetic::div_mod::lemma_mod_bound(i, swi);
                            vstd::arithmetic::div_mod::lemma_div_pos_is_pos(i, swi);
                            assert(i / swi < shi) by (nonlinear_arith)
                                requires
                                    0 <= i < swi * shi,
                                    swi > 0,
                                    i / swi * swi <= i,
                            {
                                vstd::arithmetic::div_mod::lemma_fundamental_div_mod(i, swi);
                            }
                        }
                    }
                    assert(cells@ =~= pasted_upto(orig, clip@, swi, shi, axi, ayi, cwi, chi, s + 1));
                }
            }
            lx = lx + 1;
        }
        assert((ly + 1) * cw == ly * cw + cw) by (nonlinear_arith);
        ly = ly + 1;
    }
    proof {
        assert(ly * cw == cw * ch) by (nonlinear_arith)
            requires
                ly == ch,
        ;
        assert forall|i: int| 0 <= i < cells@.len() implies cells@[i] == pasted(
            orig,
            clip@,
            swi,
            shi,
            axi,
            ayi,
            cwi,
            chi,
        )[i] by {
            if let Some(k) = paste_source(i, swi, shi, axi, ayi, cwi, chi) {
                let tx = i % swi;
                let ty = i / swi;
                assert(swi > 0 && axi <= tx < axi + cwi && ayi <= ty < ayi + chi);
                assert(k == (ty - ayi) * cwi + (tx - axi));
                assert(k < cwi * chi) by (nonlinear_arith)
                    requires
                        k == (ty - ayi) * cwi + (tx - axi),
                        0 <= tx - axi < cwi,
                        0 <= ty - ayi < chi,
                ;
            }
        }
        assert(cells@ =~= pasted(orig, clip@, swi, shi, axi, ayi, cwi, chi));
    }
}


/// The tiles a paste covers: the clipboard's block with its top-left tile
/// at the anchor.
pub open spec fn pasted_rect(clip: SceneClipboard, anchor: (usize, usize)) -> TileSelectionRect {
    TileSelectionRect {
        min_x: anchor.0,
        min_y: anchor.1,
        max_x: (anchor.0 + if clip.width_tiles > 0 { clip.width_tiles - 1 } else { 0 }) as usize,
        max_y: (anchor.1 + if clip.height_tiles > 0 { clip.height_tiles - 1 } else { 0 }) as usize,
    }
}

/// The status after a paste.
pub open spec fn spec_paste_status(layer_name: Seq<char>, anchor: (usize, usize)) -> Seq<char> {
    "Pasted selection into '"@ + layer_name + "' at "@ + decimal(anchor.0 as nat) + ", "@ + decimal(anchor.1 as nat)
}

/// Pastes the clipboard's cells with its top-left cell at the anchor tile:
/// into the edited layer (the selected one, clamped to the last) and the
/// collision flags, skipping cells that land outside the scene. A scene
/// without layers is left as it is. The tiles the paste covers and the
/// status to report.
pub fn paste_clipboard_cells(
    scene: &mut SceneResource,
    selected_layer: usize,
    clip: &SceneClipboard,
    anchor: (usize, usize),
) -> (r: (TileSelectionRect, String))
    requires
        anchor.0 + clip.width_tiles <= usize::MAX,
        anchor.1 + clip.height_tiles <= usize::MAX,
        clip.width_tiles * clip.height_tiles <= usize::MAX,
        old(scene).layers@.len() > 0 ==> {
            let n = old(scene).size_tiles.width * old(scene).size_tiles.height;
            &&& n <= old(scene).layers@[edited_layer(selected_layer as int, old(scene).layers@.len() as int)].tiles@.len()
            &&& n <= old(scene).collision.solids@.len()
            &&& n <= old(scene).collision.ladders@.len()
            &&& n <= old(scene).collision.hazards@.len()
        },
    ensures
        r.0 == pasted_rect(*clip, anchor),
        old(scene).layers@.len() == 0 ==> *final(scene) == *old(scene) && r.1@ == spec_paste_status("layer"@, anchor),
        old(scene).layers@.len() > 0 ==> {
            let k = edited_layer(selected_layer as int, old(scene).layers@.len() as int);
            let sw = old(scene).size_tiles.width as int;
            let sh = old(scene).size_tiles.height as int;
            let (ax, ay) = (anchor.0 as int, anchor.1 as int);
            let (cw, ch) = (clip.width_tiles as int, clip.height_tiles as int);
            let before = old(scene).collision;
            let after = final(scene).collision;
            &&& crate::scene_edit::same_apart_from_cells(*final(scene), *old(scene))
            &&& crate::scene_edit::layer_replaced(
                old(scene).layers@,
                final(scene).layers@,
                k,
                pasted(old(scene).layers@[k].tiles@, clip.tiles@, sw, sh, ax, ay, cw, ch),
            )
            &&& after.solids@ == pasted(before.solids@, clip.solids@, sw, sh, ax, ay, cw, ch)
            &&& after.ladders@ == pasted(before.ladders@, clip.ladders@, sw, sh, ax, ay, cw, ch)
            &&& after.hazards@ == pasted(before.hazards@, clip.hazards@, sw, sh, ax, ay, cw, ch)
            &&& r.1@ == spec_paste_status(old(scene).layers@[k].id@, anchor)
        },
{
    proof {
        reveal_strlit("layer");
    }
    let rect = TileSelectionRect {
        min_x: anchor.0,
        min_y: anchor.1,
        max_x: anchor.0 + if clip.width_tiles > 0 { clip.width_tiles - 1 } else { 0 },
        max_y: anchor.1 + if clip.height_tiles > 0 { clip.height_tiles - 1 } else { 0 },
    };
    let count = scene.layers.len();
    let mut status = String::from_str("Pasted selection into '");
    if count == 0 {
        status.append("layer");
    } else {
        let k = if selected_layer < count - 1 { selected_layer } else { count - 1 };
        let sw = scene.size_tiles.width as usize;
        let sh = scene.size_tiles.height as usize;
        let (cw, ch) = (clip.width_tiles, clip.height_tiles);
        let mut layers: Vec<TileLayer> = Vec::new();
        std::mem::swap(&mut layers, &mut scene.layers);
        let ghost before = layers@;
        let mut layer = layers.remove(k);
        paste_cells(&mut layer.tiles, &clip.tiles, sw, sh, anchor.0, anchor.1, cw, ch);
        status.append(layer.id.as_str());
        layers.insert(k, layer);
        std::mem::swap(&mut layers, &mut scene.layers);
        paste_cells(&mut scene.collision.solids, &clip.solids, sw, sh, anchor.0, anchor.1, cw, ch);
        paste_cells(&mut scene.collision.ladders, &clip.ladders, sw, sh, anchor.0, anchor.1, cw, ch);
        paste_cells(&mut scene.collision.hazards, &clip.hazards, sw, sh, anchor.0, anchor.1, cw, ch);
        proof {
            assert forall|j: int| 0 <= j < before.len() && j != k implies scene.layers@[j] == before[j] by {
                if j < k {
                    assert(before.remove(k as int)[j] == before[j]);
                } else {
                    assert(before.remove(k as int)[j - 1] == before[j]);
                }
            }
        }
    }
    status.append("' at ");
    push_decimal(&mut status, anchor.0 as u128);
    status.append(", ");
    push_decimal(&mut status, anchor.1 as u128);
    (rect, status)
}


proof fn lemma_grabbed_rows_index<T>(cells: Seq<T>, rect: TileSelectionRect, w: int, y_end: int, dflt: T)
    requires
        rect.min_x <= rect.max_x,
        rect.min_y <= y_end,
    ensures
        grabbed_rows(cells, rect, w, y_end, dflt).len() == (y_end - rect.min_y) * (rect.max_x - rect.min_x + 1),
        forall|r: int, j: int|
            0 <= r < y_end - rect.min_y && 0 <= j < rect.max_x - rect.min_x + 1 ==> #[trigger] grabbed_rows(
                cells,
                rect,
                w,
                y_end,
                dflt,
            )[r * (rect.max_x - rect.min_x + 1) + j] == cell_or(cells, (rect.min_y + r) * w + rect.min_x + j, dflt),
    decreases y_end - rect.min_y,
{
    let cw = rect.max_x - rect.min_x + 1;
    if y_end > rect.min_y {
        lemma_grabbed_rows_index(cells, rect, w, y_end - 1, dflt);
        let prev = grabbed_rows(cells, rect, w, y_end - 1, dflt);
        let row = grabbed_row(cells, rect, w, y_end - 1, dflt);
        let all = grabbed_rows(cells, rect, w, y_end, dflt);
        let rows = y_end - 1 - rect.min_y;
        assert(all == prev + row);
        assert(row.len() == cw);
        assert(prev.len() + cw == (y_end - rect.min_y) * cw) by (nonlinear_arith)
            requires
                prev.len() == rows * cw,
                rows == y_end - 1 - rect.min_y,
        ;
        assert forall|r: int, j: int| 0 <= r < y_end - rect.min_y && 0 <= j < cw implies #[trigger] all[r * cw + j]
            == cell_or(cells, (rect.min_y + r) * w + rect.min_x + j, dflt) by {
            if r < rows {
                assert(r * cw + j < rows * cw) by (nonlinear_arith)
                    requires
                        r < rows,
                        0 <= j < cw,
                ;
                assert(all[r * cw + j] == prev[r * cw + j]);
            } else {
                assert(r * cw == prev.len()) by (nonlinear_arith)
                    requires
                        r == rows,
                        prev.len() == rows * cw,
                ;
                assert(all[r * cw + j] == row[j]);
            }
        }
    } else {
        assert((y_end - rect.min_y) * cw == 0) by (nonlinear_arith)
            requires
                y_end == rect.min_y,
        ;
    }
}

/// Law: pasting a block copied from a selection inside a grid back at the
/// selection's top-left cell leaves every cell as it was.
pub proof fn lemma_paste_copy_in_place<T>(cells: Seq<T>, rect: TileSelectionRect, sw: int, sh: int, dflt: T)
    requires
        rect.min_x <= rect.max_x < sw,
        rect.min_y <= rect.max_y < sh,
        sw * sh <= cells.len(),
    ensures
        pasted(
            cells,
            grabbed(cells, rect, sw, dflt),
            sw,
            sh,
            rect.min_x as int,
            rect.min_y as int,
            rect.max_x - rect.min_x + 1,
            rect.max_y - rect.min_y + 1,
        ) == cells,
{
    let cw = rect.max_x - rect.min_x + 1;
    let ch = rect.max_y - rect.min_y + 1;
    let (ax, ay) = (rect.min_x as int, rect.min_y as int);
    let g = grabbed(cells, rect, sw, dflt);
    lemma_grabbed_rows_index(cells, rect, sw, rect.max_y + 1, dflt);
    let out = pasted(cells, g, sw, sh, ax, ay, cw, ch);
    assert forall|i: int| 0 <= i < cells.len() implies out[i] == cells[i] by {
        if let Some(k) = paste_source(i, sw, sh, ax, ay, cw, ch) {
            let tx = i % sw;
            let ty = i / sw;
            let r = ty - ay;
            let j = tx - ax;
            assert(0 <= r < ch && 0 <= j < cw);
            assert(k == r * cw + j);
            assert(k < g.len()) by (nonlinear_arith)
                requires
                    k == r * cw + j,
                    0 <= r < ch,
                    0 <= j < cw,
                    g.len() == ch * cw,
            ;
            assert(g[r * cw + j] == cell_or(cells, (ay + r) * sw + ax + j, dflt));
            vstd::arithmetic::div_mod::lemma_fundamental_div_mod(i, sw);
            assert(sw * ty == ty * sw) by (nonlinear_arith);
            assert((ay + r) * sw + ax + j == i);
        }
    }
    assert(out =~= cells);
}

/// The pixel of the anchor tile's top-left corner, cut to 16 bits.
pub open spec fn paste_origin(anchor: (usize, usize)) -> PointI16 {
    PointI16 { x: (anchor.0 * 8) as i16, y: (anchor.1 * 8) as i16 }
}

/// `p + o` fits a pixel position.
pub open spec fn move_fits(p: PointI16, o: PointI16) -> bool {
    i16::MIN <= p.x + o.x <= i16::MAX && i16::MIN <= p.y + o.y <= i16::MAX
}

/// `p + o`.
pub open spec fn moved(p: PointI16, o: PointI16) -> PointI16 {
    PointI16 { x: (p.x + o.x) as i16, y: (p.y + o.y) as i16 }
}

/// A trigger's rectangle moved by `o`.
pub open spec fn moved_rect(r: RectI16, o: PointI16) -> RectI16 {
    RectI16 { x: (r.x + o.x) as i16, y: (r.y + o.y) as i16, ..r }
}

/// The corner of a trigger's rectangle.
pub open spec fn rect_corner(r: RectI16) -> PointI16 {
    PointI16 { x: r.x, y: r.y }
}

fn move_point(p: PointI16, o: PointI16) -> (r: PointI16)
    requires
        move_fits(p, o),
    ensures
        r == moved(p, o),
{
    PointI16 { x: p.x + o.x, y: p.y + o.y }
}

/// The indices `from`, `from + 1`, ... of `n` items.
pub open spec fn index_run(from: int, n: int) -> Seq<usize> {
    Seq::new(n as nat, |j: int| (from + j) as usize)
}

/// The slugs of the ids of a clipboard's objects, kind by kind and in
/// order: pasted objects are renamed from them.
pub struct ObjectSlugs {
    pub spawns: Vec<String>,
    pub checkpoints: Vec<String>,
    pub entities: Vec<String>,
    pub triggers: Vec<String>,
}

/// The ids of spawns.
pub open spec fn spawn_ids(s: Seq<SpawnPoint>) -> Seq<Seq<char>> {
    s.map_values(|x: SpawnPoint| x.id@)
}

/// The ids of checkpoints.
pub open spec fn checkpoint_ids(s: Seq<Checkpoint>) -> Seq<Seq<char>> {
    s.map_values(|x: Checkpoint| x.id@)
}

/// The ids of triggers.
pub open spec fn trigger_ids(s: Seq<TriggerVolume>) -> Seq<Seq<char>> {
    s.map_values(|x: TriggerVolume| x.id@)
}

fn move_rect(r: RectI16, o: PointI16) -> (m: RectI16)
    requires
        move_fits(rect_corner(r), o),
    ensures
        m == moved_rect(r, o),
{
    RectI16 { x: r.x + o.x, y: r.y + o.y, width: r.width, height: r.height }
}

fn spawn_id_strings(items: &Vec<SpawnPoint>) -> (ids: Vec<String>)
    ensures
        id_views(ids@) == spawn_ids(items@),
        ids@.len() == items@.len(),
{
    let mut ids: Vec<String> = Vec::new();
    let mut i: usize = 0;
    while i < items.len()
        invariant
            i <= items@.len(),
            ids@.len() == i,
            id_views(ids@) == spawn_ids(items@).take(i as int),
        decreases items@.len() - i,
    {
        let ghost prev = id_views(ids@);
        ids.push(items[i].id.clone());
        assert(id_views(ids@) =~= prev.push(items@[i as int].id@));
        assert(spawn_ids(items@).take(i + 1) =~= spawn_ids(items@).take(i as int).push(items@[i as int].id@));
        i = i + 1;
    }
    assert(spawn_ids(items@).take(i as int) =~= spawn_ids(items@));
    ids
}

/// Appends the clipboard's spawns, moved by `o` and renamed from their
/// slugs among the ids already there; the indices they get.
fn paste_spawns(items: &mut Vec<SpawnPoint>, clip: &Vec<SpawnPoint>, slugs: &Vec<String>, o: PointI16) -> (picked: Vec<usize>)
    requires
        slugs@.len() == clip@.len(),
        old(items)@.len() + clip@.len() < usize::MAX,
        forall|j: int| 0 <= j < clip@.len() ==> move_fits((#[trigger] clip@[j]).position, o),
    ensures
        final(items)@.len() == old(items)@.len() + clip@.len(),
        final(items)@.take(old(items)@.len() as int) == old(items)@,
        forall|j: int|
            0 <= j < clip@.len() ==> {
                let it = #[trigger] final(items)@[old(items)@.len() + j];
                &&& it.id@ == pasted_ids(spawn_ids(old(items)@), id_views(slugs@))[j]
                &&& it.position == moved(clip@[j].position, o)
            },
        picked@ == index_run(old(items)@.len() as int, clip@.len() as int),
        forall|j: int|
            0 <= j < clip@.len() ==> !spawn_ids(old(items)@).contains(
                (#[trigger] final(items)@[old(items)@.len() + j]).id@,
            ),
        forall|a: int, b: int|
            0 <= a < b < clip@.len() ==> (#[trigger] final(items)@[old(items)@.len() + a]).id@
                != (#[trigger] final(items)@[old(items)@.len() + b]).id@,
{
    let taken = spawn_id_strings(items);
    let ids = pasted_id_strings(&taken, slugs);
    let ghost before = items@;
    let n = items.len();
    let mut picked: Vec<usize> = Vec::new();
    let mut j: usize = 0;
    while j < clip.len()
        invariant
            before == old(items)@,
            n == before.len(),
            n + clip@.len() < usize::MAX,
            ids@.len() == clip@.len(),
            id_views(ids@) == pasted_ids(spawn_ids(before), id_views(slugs@)),
            forall|q: int| 0 <= q < clip@.len() ==> move_fits((#[trigger] clip@[q]).position, o),
            j <= clip@.len(),
            items@.len() == n + j,
            items@.take(n as int) == before,
            forall|q: int|
                0 <= q < j ==> {
                    let it = #[trigger] items@[n + q];
                    &&& it.id@ == pasted_ids(spawn_ids(before), id_views(slugs@))[q]
                    &&& it.position == moved(clip@[q].position, o)
                },
            picked@ == index_run(n as int, j as int),
        decreases clip@.len() - j,
    {
        let c = &clip[j];
        assert(id_views(ids@)[j as int] == ids@[j as int]@);
        let item = SpawnPoint { id: ids[j].clone(), position: move_point(c.position, o) };
        let ghost prev = items@;
        items.push(item);
        picked.push(n + j);
        proof {
            assert(items@.take(n as int) =~= prev.take(n as int));
            assert forall|q: int| 0 <= q < j + 1 implies #[trigger] items@[n + q] == (if q < j {
                prev[n + q]
            } else {
                item
            }) by {}
            assert(picked@ =~= index_run(n as int, j + 1));
        }
        j = j + 1;
    }
    proof {
        assert forall|q: int| 0 <= q < clip@.len() implies !spawn_ids(before).contains(
            (#[trigger] items@[n + q]).id@,
        ) by {
            assert(items@[n + q].id@ == id_views(ids@)[q]);
        }
        assert forall|a: int, b: int| 0 <= a < b < clip@.len() implies (#[trigger] items@[n + a]).id@
            != (#[trigger] items@[n + b]).id@ by {
            assert(items@[n + a].id@ == id_views(ids@)[a]);
            assert(items@[n + b].id@ == id_views(ids@)[b]);
        }
    }
    picked
}

fn checkpoint_id_strings(items: &Vec<Checkpoint>) -> (ids: Vec<String>)
    ensures
        id_views(ids@) == checkpoint_ids(items@),
        ids@.len() == items@.len(),
{
    let mut ids: Vec<String> = Vec::new();
    let mut i: usize = 0;
    while i < items.len()
        invariant
            i <= items@.len(),
            ids@.len() == i,
            id_views(ids@) == checkpoint_ids(items@).take(i as int),
        decreases items@.len() - i,
    {
        let ghost prev = id_views(ids@);
        ids.push(items[i].id.clone());
        assert(id_views(ids@) =~= prev.push(items@[i as int].id@));
        assert(checkpoint_ids(items@).take(i + 1) =~= checkpoint_ids(items@).take(i as int).push(items@[i as int].id@));
        i = i + 1;
    }
    assert(checkpoint_ids(items@).take(i as int) =~= checkpoint_ids(items@));
    ids
}

/// Appends the clipboard's checkpoints, moved by `o` and renamed from their
/// slugs among the ids already there; the indices they get.
fn paste_checkpoints(items: &mut Vec<Checkpoint>, clip: &Vec<Checkpoint>, slugs: &Vec<String>, o: PointI16) -> (picked: Vec<usize>)
    requires
        slugs@.len() == clip@.len(),
        old(items)@.len() + clip@.len() < usize::MAX,
        forall|j: int| 0 <= j < clip@.len() ==> move_fits((#[trigger] clip@[j]).position, o),
    ensures
        final(items)@.len() == old(items)@.len() + clip@.len(),
        final(items)@.take(old(items)@.len() as int) == old(items)@,
        forall|j: int|
            0 <= j < clip@.len() ==> {
                let it = #[trigger] final(items)@[old(items)@.len() + j];
                &&& it.id@ == pasted_ids(checkpoint_ids(old(items)@), id_views(slugs@))[j]
                &&& it.position == moved(clip@[j].position, o)
            },
        picked@ == index_run(old(items)@.len() as int, clip@.len() as int),
        forall|j: int|
            0 <= j < clip@.len() ==> !checkpoint_ids(old(items)@).contains(
                (#[trigger] final(items)@[old(items)@.len() + j]).id@,
            ),
        forall|a: int, b: int|
            0 <= a < b < clip@.len() ==> (#[trigger] final(items)@[old(items)@.len() + a]).id@
                != (#[trigger] final(items)@[old(items)@.len() + b]).id@,
{
    let taken = checkpoint_id_strings(items);
    let ids = pasted_id_strings(&taken, slugs);
    let ghost before = items@;
    let n = items.len();
    let mut picked: Vec<usize> = Vec::new();
    let mut j: usize = 0;
    while j < clip.len()
        invariant
            before == old(items)@,
            n == before.len(),
            n + clip@.len() < usize::MAX,
            ids@.len() == clip@.len(),
            id_views(ids@) == pasted_ids(checkpoint_ids(before), id_views(slugs@)),
            forall|q: int| 0 <= q < clip@.len() ==> move_fits((#[trigger] clip@[q]).position, o),
            j <= clip@.len(),
            items@.len() == n + j,
            items@.take(n as int) == before,
            forall|q: int|
                0 <= q < j ==> {
                    let it = #[trigger] items@[n + q];
                    &&& it.id@ == pasted_ids(checkpoint_ids(before), id_views(slugs@))[q]
                    &&& it.position == moved(clip@[q].position, o)
                },
            picked@ == index_run(n as int, j as int),
        decreases clip@.len() - j,
    {
        let c = &clip[j];
        assert(id_views(ids@)[j as int] == ids@[j as int]@);
        let item = Checkpoint { id: ids[j].clone(), position: move_point(c.position, o) };
        let ghost prev = items@;
        items.push(item);
        picked.push(n + j);
        proof {
            assert(items@.take(n as int) =~= prev.take(n as int));
            assert forall|q: int| 0 <= q < j + 1 implies #[trigger] items@[n + q] == (if q < j {
                prev[n + q]
            } else {
                item
            }) by {}
            assert(picked@ =~= index_run(n as int, j + 1));
        }
        j = j + 1;
    }
    proof {
        assert forall|q: int| 0 <= q < clip@.len() implies !checkpoint_ids(before).contains(
            (#[trigger] items@[n + q]).id@,
        ) by {
            assert(items@[n + q].id@ == id_views(ids@)[q]);
        }
        assert forall|a: int, b: int| 0 <= a < b < clip@.len() implies (#[trigger] items@[n + a]).id@
            != (#[trigger] items@[n + b]).id@ by {
            assert(items@[n + a].id@ == id_views(ids@)[a]);
            assert(items@[n + b].id@ == id_views(ids@)[b]);
        }
    }
    picked
}

fn entity_id_strings(items: &Vec<EntityPlacement>) -> (ids: Vec<String>)
    ensures
        id_views(ids@) == entity_ids(items@),
        ids@.len() == items@.len(),
{
    let mut ids: Vec<String> = Vec::new();
    let mut i: usize = 0;
    while i < items.len()
        invariant
            i <= items@.len(),
            ids@.len() == i,
            id_views(ids@) == entity_ids(items@).take(i as int),
        decreases items@.len() - i,
    {
        let ghost prev = id_views(ids@);
        ids.push(items[i].id.clone());
        assert(id_views(ids@) =~= prev.push(items@[i as int].id@));
        assert(entity_ids(items@).take(i + 1) =~= entity_ids(items@).take(i as int).push(items@[i as int].id@));
        i = i + 1;
    }
    assert(entity_ids(items@).take(i as int) =~= entity_ids(items@));
    ids
}

/// Appends the clipboard's entities, moved by `o` and renamed from their
/// slugs among the ids already there; the indices they get.
fn paste_entities(items: &mut Vec<EntityPlacement>, clip: &Vec<EntityPlacement>, slugs: &Vec<String>, o: PointI16) -> (picked: Vec<usize>)
    requires
        slugs@.len() == clip@.len(),
        old(items)@.len() + clip@.len() < usize::MAX,
        forall|j: int| 0 <= j < clip@.len() ==> move_fits((#[trigger] clip@[j]).position, o),
    ensures
        final(items)@.len() == old(items)@.len() + clip@.len(),
        final(items)@.take(old(items)@.len() as int) == old(items)@,
        forall|j: int|
            0 <= j < clip@.len() ==> {
                let it = #[trigger] final(items)@[old(items)@.len() + j];
                &&& it.id@ == pasted_ids(entity_ids(old(items)@), id_views(slugs@))[j]
                &&& it == (EntityPlacement { id: it.id, position: moved(clip@[j].position, o), ..clip@[j] })
            },
        picked@ == index_run(old(items)@.len() as int, clip@.len() as int),
        forall|j: int|
            0 <= j < clip@.len() ==> !entity_ids(old(items)@).contains(
                (#[trigger] final(items)@[old(items)@.len() + j]).id@,
            ),
        forall|a: int, b: int|
            0 <= a < b < clip@.len() ==> (#[trigger] final(items)@[old(items)@.len() + a]).id@
                != (#[trigger] final(items)@[old(items)@.len() + b]).id@,
{
    let taken = entity_id_strings(items);
    let ids = pasted_id_strings(&taken, slugs);
    let ghost before = items@;
    let n = items.len();
    let mut picked: Vec<usize> = Vec::new();
    let mut j: usize = 0;
    while j < clip.len()
        invariant
            before == old(items)@,
            n == before.len(),
            n + clip@.len() < usize::MAX,
            ids@.len() == clip@.len(),
            id_views(ids@) == pasted_ids(entity_ids(before), id_views(slugs@)),
            forall|q: int| 0 <= q < clip@.len() ==> move_fits((#[trigger] clip@[q]).position, o),
            j <= clip@.len(),
            items@.len() == n + j,
            items@.take(n as int) == before,
            forall|q: int|
                0 <= q < j ==> {
                    let it = #[trigger] items@[n + q];
                    &&& it.id@ == pasted_ids(entity_ids(before), id_views(slugs@))[q]
                    &&& it == (EntityPlacement { id: it.id, position: moved(clip@[q].position, o), ..clip@[q] })
                },
            picked@ == index_run(n as int, j as int),
        decreases clip@.len() - j,
    {
        let c = &clip[j];
        assert(id_views(ids@)[j as int] == ids@[j as int]@);
        let item = EntityPlacement {
            id: ids[j].clone(),
            archetype: c.archetype.clone(),
            kind: c.kind,
            position: move_point(c.position, o),
            facing: c.facing,
            hitbox: c.hitbox,
            combat: c.combat,
            action: copy_action(&c.action),
            movement: c.movement,
            active: c.active,
            one_shot: c.one_shot,
        };
        let ghost prev = items@;
        items.push(item);
        picked.push(n + j);
        proof {
            assert(items@.take(n as int) =~= prev.take(n as int));
            assert forall|q: int| 0 <= q < j + 1 implies #[trigger] items@[n + q] == (if q < j {
                prev[n + q]
            } else {
                item
            }) by {}
            assert(picked@ =~= index_run(n as int, j + 1));
        }
        j = j + 1;
    }
    proof {
        assert forall|q: int| 0 <= q < clip@.len() implies !entity_ids(before).contains(
            (#[trigger] items@[n + q]).id@,
        ) by {
            assert(items@[n + q].id@ == id_views(ids@)[q]);
        }
        assert forall|a: int, b: int| 0 <= a < b < clip@.len() implies (#[trigger] items@[n + a]).id@
            != (#[trigger] items@[n + b]).id@ by {
            assert(items@[n + a].id@ == id_views(ids@)[a]);
            assert(items@[n + b].id@ == id_views(ids@)[b]);
        }
    }
    picked
}

fn trigger_id_strings(items: &Vec<TriggerVolume>) -> (ids: Vec<String>)
    ensures
        id_views(ids@) == trigger_ids(items@),
        ids@.len() == items@.len(),
{
    let mut ids: Vec<String> = Vec::new();
    let mut i: usize = 0;
    while i < items.len()
        invariant
            i <= items@.len(),
            ids@.len() == i,
            id_views(ids@) == trigger_ids(items@).take(i as int),
        decreases items@.len() - i,
    {
        let ghost prev = id_views(ids@);
        ids.push(items[i].id.clone());
        assert(id_views(ids@) =~= prev.push(items@[i as int].id@));
        assert(trigger_ids(items@).take(i + 1) =~= trigger_ids(items@).take(i as int).push(items@[i as int].id@));
        i = i + 1;
    }
    assert(trigger_ids(items@).take(i as int) =~= trigger_ids(items@));
    ids
}

/// Appends the clipboard's triggers, moved by `o` and renamed from their
/// slugs among the ids already there; the indices they get.
fn paste_triggers(items: &mut Vec<TriggerVolume>, clip: &Vec<TriggerVolume>, slugs: &Vec<String>, o: PointI16) -> (picked: Vec<usize>)
    requires
        slugs@.len() == clip@.len(),
        old(items)@.len() + clip@.len() < usize::MAX,
        forall|j: int| 0 <= j < clip@.len() ==> move_fits(rect_corner((#[trigger] clip@[j]).rect), o),
    ensures
        final(items)@.len() == old(items)@.len() + clip@.len(),
        final(items)@.take(old(items)@.len() as int) == old(items)@,
        forall|j: int|
            0 <= j < clip@.len() ==> {
                let it = #[trigger] final(items)@[old(items)@.len() + j];
                &&& it.id@ == pasted_ids(trigger_ids(old(items)@), id_views(slugs@))[j]
                &&& it == (TriggerVolume { id: it.id, rect: moved_rect(clip@[j].rect, o), ..clip@[j] })
            },
        picked@ == index_run(old(items)@.len() as int, clip@.len() as int),
        forall|j: int|
            0 <= j < clip@.len() ==> !trigger_ids(old(items)@).contains(
                (#[trigger] final(items)@[old(items)@.len() + j]).id@,
            ),
        forall|a: int, b: int|
            0 <= a < b < clip@.len() ==> (#[trigger] final(items)@[old(items)@.len() + a]).id@
                != (#[trigger] final(items)@[old(items)@.len() + b]).id@,
{
    let taken = trigger_id_strings(items);
    let ids = pasted_id_strings(&taken, slugs);
    let ghost before = items@;
    let n = items.len();
    let mut picked: Vec<usize> = Vec::new();
    let mut j: usize = 0;
    while j < clip.len()
        invariant
            before == old(items)@,
            n == before.len(),
            n + clip@.len() < usize::MAX,
            ids@.len() == clip@.len(),
            id_views(ids@) == pasted_ids(trigger_ids(before), id_views(slugs@)),
            forall|q: int| 0 <= q < clip@.len() ==> move_fits(rect_corner((#[trigger] clip@[q]).rect), o),
            j <= clip@.len(),
            items@.len() == n + j,
            items@.take(n as int) == before,
            forall|q: int|
                0 <= q < j ==> {
                    let it = #[trigger] items@[n + q];
                    &&& it.id@ == pasted_ids(trigger_ids(before), id_views(slugs@))[q]
                    &&& it == (TriggerVolume { id: it.id, rect: moved_rect(clip@[q].rect, o), ..clip@[q] })
                },
            picked@ == index_run(n as int, j as int),
        decreases clip@.len() - j,
    {
        let c = &clip[j];
        assert(id_views(ids@)[j as int] == ids@[j as int]@);
        let item = TriggerVolume {
            id: ids[j].clone(),
            kind: c.kind,
            rect: move_rect(c.rect, o),
            script_id: c.script_id.clone(),
        };
        let ghost prev = items@;
        items.push(item);
        picked.push(n + j);
        proof {
            assert(items@.take(n as int) =~= prev.take(n as int));
            assert forall|q: int| 0 <= q < j + 1 implies #[trigger] items@[n + q] == (if q < j {
                prev[n + q]
            } else {
                item
            }) by {}
            assert(picked@ =~= index_run(n as int, j + 1));
        }
        j = j + 1;
    }
    proof {
        assert forall|q: int| 0 <= q < clip@.len() implies !trigger_ids(before).contains(
            (#[trigger] items@[n + q]).id@,
        ) by {
            assert(items@[n + q].id@ == id_views(ids@)[q]);
        }
        assert forall|a: int, b: int| 0 <= a < b < clip@.len() implies (#[trigger] items@[n + a]).id@
            != (#[trigger] items@[n + b]).id@ by {
            assert(items@[n + a].id@ == id_views(ids@)[a]);
            assert(items@[n + b].id@ == id_views(ids@)[b]);
        }
    }
    picked
}

/// Pastes the clipboard's objects with its top-left at the anchor tile:
/// each kind is appended to the scene's in order, moved by the anchor
/// tile's pixel position (cut to 16 bits) and renamed, from the slugs of
/// their ids, to the first free copy name among the ids of that kind
/// already in the scene and those given before, so that no pasted id is
/// one the scene had or another pasted one of its kind. Nothing else
/// changes. The new selection: the tiles the paste covers and the new
/// objects.
pub fn paste_clipboard_objects(
    scene: &mut SceneResource,
    clip: &SceneClipboard,
    anchor: (usize, usize),
    slugs: &ObjectSlugs,
) -> (sel: SceneSelection)
    requires
        anchor.0 * 8 <= usize::MAX,
        anchor.1 * 8 <= usize::MAX,
        anchor.0 + clip.width_tiles <= usize::MAX,
        anchor.1 + clip.height_tiles <= usize::MAX,
        slugs.spawns@.len() == clip.spawns@.len(),
        slugs.checkpoints@.len() == clip.checkpoints@.len(),
        slugs.entities@.len() == clip.entities@.len(),
        slugs.triggers@.len() == clip.triggers@.len(),
        old(scene).spawns@.len() + clip.spawns@.len() < usize::MAX,
        old(scene).checkpoints@.len() + clip.checkpoints@.len() < usize::MAX,
        old(scene).entities@.len() + clip.entities@.len() < usize::MAX,
        old(scene).triggers@.len() + clip.triggers@.len() < usize::MAX,
        forall|j: int|
            0 <= j < clip.spawns@.len() ==> move_fits((#[trigger] clip.spawns@[j]).position, paste_origin(anchor)),
        forall|j: int|
            0 <= j < clip.checkpoints@.len() ==> move_fits(
                (#[trigger] clip.checkpoints@[j]).position,
                paste_origin(anchor),
            ),
        forall|j: int|
            0 <= j < clip.entities@.len() ==> move_fits((#[trigger] clip.entities@[j]).position, paste_origin(anchor)),
        forall|j: int|
            0 <= j < clip.triggers@.len() ==> move_fits(
                rect_corner((#[trigger] clip.triggers@[j]).rect),
                paste_origin(anchor),
            ),
    ensures
        ({
            let o = paste_origin(anchor);
            let (b, a) = (*old(scene), *final(scene));
            let (ns, nc, ne, nt) = (
                b.spawns@.len() as int,
                b.checkpoints@.len() as int,
                b.entities@.len() as int,
                b.triggers@.len() as int,
            );
            &&& sel.rect == pasted_rect(*clip, anchor)
            &&& sel.spawns@ == index_run(ns, clip.spawns@.len() as int)
            &&& sel.checkpoints@ == index_run(nc, clip.checkpoints@.len() as int)
            &&& sel.entities@ == index_run(ne, clip.entities@.len() as int)
            &&& sel.triggers@ == index_run(nt, clip.triggers@.len() as int)
            &&& a == (SceneResource {
                spawns: a.spawns,
                checkpoints: a.checkpoints,
                entities: a.entities,
                triggers: a.triggers,
                ..b
            })
            &&& a.spawns@.len() == ns + clip.spawns@.len() && a.spawns@.take(ns) == b.spawns@
            &&& forall|j: int|
                0 <= j < clip.spawns@.len() ==> !spawn_ids(b.spawns@).contains((#[trigger] a.spawns@[ns + j]).id@)
            &&& forall|x: int, y: int|
                0 <= x < y < clip.spawns@.len() ==> (#[trigger] a.spawns@[ns + x]).id@ != (#[trigger] a.spawns@[ns
                    + y]).id@
            &&& forall|j: int|
                0 <= j < clip.spawns@.len() ==> {
                    let it = #[trigger] a.spawns@[ns + j];
                    &&& it.id@ == pasted_ids(spawn_ids(b.spawns@), id_views(slugs.spawns@))[j]
                    &&& it.position == moved(clip.spawns@[j].position, o)
                }
            &&& a.checkpoints@.len() == nc + clip.checkpoints@.len() && a.checkpoints@.take(nc) == b.checkpoints@
            &&& forall|j: int|
                0 <= j < clip.checkpoints@.len() ==> !checkpoint_ids(b.checkpoints@).contains((#[trigger] a.checkpoints@[nc + j]).id@)
            &&& forall|x: int, y: int|
                0 <= x < y < clip.checkpoints@.len() ==> (#[trigger] a.checkpoints@[nc + x]).id@ != (#[trigger] a.checkpoints@[nc
                    + y]).id@
            &&& forall|j: int|
                0 <= j < clip.checkpoints@.len() ==> {
                    let it = #[trigger] a.checkpoints@[nc + j];
                    &&& it.id@ == pasted_ids(checkpoint_ids(b.checkpoints@), id_views(slugs.checkpoints@))[j]
                    &&& it.position == moved(clip.checkpoints@[j].position, o)
                }
            &&& a.entities@.len() == ne + clip.entities@.len() && a.entities@.take(ne) == b.entities@
            &&& forall|j: int|
                0 <= j < clip.entities@.len() ==> !entity_ids(b.entities@).contains((#[trigger] a.entities@[ne + j]).id@)
            &&& forall|x: int, y: int|
                0 <= x < y < clip.entities@.len() ==> (#[trigger] a.entities@[ne + x]).id@ != (#[trigger] a.entities@[ne
                    + y]).id@
            &&& forall|j: int|
                0 <= j < clip.entities@.len() ==> {
                    let it = #[trigger] a.entities@[ne + j];
                    &&& it.id@ == pasted_ids(entity_ids(b.entities@), id_views(slugs.entities@))[j]
                    &&& it == (EntityPlacement { id: it.id, position: moved(clip.entities@[j].position, o), ..clip.entities@[j] })
                }
            &&& a.triggers@.len() == nt + clip.triggers@.len() && a.triggers@.take(nt) == b.triggers@
            &&& forall|j: int|
                0 <= j < clip.triggers@.len() ==> !trigger_ids(b.triggers@).contains((#[trigger] a.triggers@[nt + j]).id@)
            &&& forall|x: int, y: int|
                0 <= x < y < clip.triggers@.len() ==> (#[trigger] a.triggers@[nt + x]).id@ != (#[trigger] a.triggers@[nt
                    + y]).id@
            &&& forall|j: int|
                0 <= j < clip.triggers@.len() ==> {
                    let it = #[trigger] a.triggers@[nt + j];
                    &&& it.id@ == pasted_ids(trigger_ids(b.triggers@), id_views(slugs.triggers@))[j]
                    &&& it == (TriggerVolume { id: it.id, rect: moved_rect(clip.triggers@[j].rect, o), ..clip.triggers@[j] })
                }
        }),
{
    let o = PointI16 { x: (anchor.0 * 8) as i16, y: (anchor.1 * 8) as i16 };
    let spawns = paste_spawns(&mut scene.spawns, &clip.spawns, &slugs.spawns, o);
    let checkpoints = paste_checkpoints(&mut scene.checkpoints, &clip.checkpoints, &slugs.checkpoints, o);
    let entities = paste_entities(&mut scene.entities, &clip.entities, &slugs.entities, o);
    let triggers = paste_triggers(&mut scene.triggers, &clip.triggers, &slugs.triggers, o);
    let rect = TileSelectionRect {
        min_x: anchor.0,
        min_y: anchor.1,
        max_x: anchor.0 + if clip.width_tiles > 0 { clip.width_tiles - 1 } else { 0 },
        max_y: anchor.1 + if clip.height_tiles > 0 { clip.height_tiles - 1 } else { 0 },
    };
    SceneSelection { rect, spawns, checkpoints, entities, triggers }
}

/// A copy of spawn `k` placed right after it, moved 16 pixels to the right
/// and named by [`next_unique_layer_id`] among the scene's spawn ids, where
/// `slug` is the slug of the copied spawn's id. The index of the copy and
/// its id; `None`, with the spawns unchanged, when there is no spawn `k`.
pub fn duplicate_spawn(items: &mut Vec<SpawnPoint>, k: usize, slug: &str) -> (r: Option<(usize, String)>)
    requires
        old(items)@.len() < usize::MAX,
        k < old(items)@.len() ==> (old(items)@[k as int]).position.x + 16 <= i16::MAX,
    ensures
        k >= old(items)@.len() ==> r is None && final(items)@ == old(items)@,
        k < old(items)@.len() ==> match r {
            None => false,
            Some((at, id)) => {
                let before = old(items)@;
                let copy = final(items)@[k + 1];
                &&& at == k + 1
                &&& id@ == fresh_copy(spawn_ids(before), slug@)
                &&& !spawn_ids(before).contains(id@)
                &&& final(items)@.len() == before.len() + 1
                &&& final(items)@.take(k + 1) == before.take(k + 1)
                &&& final(items)@.skip(k + 2) == before.skip(k + 1)
                &&& copy.id@ == id@
                &&& copy == (SpawnPoint { id: copy.id, position: PointI16 { x: (before[k as int].position.x + 16) as i16, ..before[k as int].position } })
            },
        },
{
    if k >= items.len() {
        return None;
    }
    let ghost before = items@;
    let ids = spawn_id_strings(items);
    let id = next_unique_layer_id(&ids, slug);
    let c = &items[k];
    let copy = SpawnPoint { id: id.clone(), position: PointI16 { x: c.position.x + 16, y: c.position.y } };
    items.insert(k + 1, copy);
    proof {
        assert(items@ == before.insert(k + 1, copy));
        assert(items@.take(k + 1) =~= before.take(k + 1));
        assert(items@.skip(k + 2) =~= before.skip(k + 1));
    }
    Some((k + 1, id))
}

/// A copy of checkpoint `k` placed right after it, moved 16 pixels to the right
/// and named by [`next_unique_layer_id`] among the scene's checkpoint ids, where
/// `slug` is the slug of the copied checkpoint's id. The index of the copy and
/// its id; `None`, with the checkpoints unchanged, when there is no checkpoint `k`.
pub fn duplicate_checkpoint(items: &mut Vec<Checkpoint>, k: usize, slug: &str) -> (r: Option<(usize, String)>)
    requires
        old(items)@.len() < usize::MAX,
        k < old(items)@.len() ==> (old(items)@[k as int]).position.x + 16 <= i16::MAX,
    ensures
        k >= old(items)@.len() ==> r is None && final(items)@ == old(items)@,
        k < old(items)@.len() ==> match r {
            None => false,
            Some((at, id)) => {
                let before = old(items)@;
                let copy = final(items)@[k + 1];
                &&& at == k + 1
                &&& id@ == fresh_copy(checkpoint_ids(before), slug@)
                &&& !checkpoint_ids(before).contains(id@)
                &&& final(items)@.len() == before.len() + 1
                &&& final(items)@.take(k + 1) == before.take(k + 1)
                &&& final(items)@.skip(k + 2) == before.skip(k + 1)
                &&& copy.id@ == id@
                &&& copy == (Checkpoint { id: copy.id, position: PointI16 { x: (before[k as int].position.x + 16) as i16, ..before[k as int].position } })
            },
        },
{
    if k >= items.len() {
        return None;
    }
    let ghost before = items@;
    let ids = checkpoint_id_strings(items);
    let id = next_unique_layer_id(&ids, slug);
    let c = &items[k];
    let copy = Checkpoint { id: id.clone(), position: PointI16 { x: c.position.x + 16, y: c.position.y } };
    items.insert(k + 1, copy);
    proof {
        assert(items@ == before.insert(k + 1, copy));
        assert(items@.take(k + 1) =~= before.take(k + 1));
        assert(items@.skip(k + 2) =~= before.skip(k + 1));
    }
    Some((k + 1, id))
}

/// A copy of entity `k` placed right after it, moved 16 pixels to the right
/// and named by [`next_unique_layer_id`] among the scene's entity ids, where
/// `slug` is the slug of the copied entity's id. The index of the copy and
/// its id; `None`, with the entities unchanged, when there is no entity `k`.
pub fn duplicate_entity(items: &mut Vec<EntityPlacement>, k: usize, slug: &str) -> (r: Option<(usize, String)>)
    requires
        old(items)@.len() < usize::MAX,
        k < old(items)@.len() ==> (old(items)@[k as int]).position.x + 16 <= i16::MAX,
    ensures
        k >= old(items)@.len() ==> r is None && final(items)@ == old(items)@,
        k < old(items)@.len() ==> match r {
            None => false,
            Some((at, id)) => {
                let before = old(items)@;
                let copy = final(items)@[k + 1];
                &&& at == k + 1
                &&& id@ == fresh_copy(entity_ids(before), slug@)
                &&& !entity_ids(before).contains(id@)
                &&& final(items)@.len() == before.len() + 1
                &&& final(items)@.take(k + 1) == before.take(k + 1)
                &&& final(items)@.skip(k + 2) == before.skip(k + 1)
                &&& copy.id@ == id@
                &&& copy == (EntityPlacement { id: copy.id, position: PointI16 { x: (before[k as int].position.x + 16) as i16, ..before[k as int].position }, ..before[k as int] })
            },
        },
{
    if k >= items.len() {
        return None;
    }
    let ghost before = items@;
    let ids = entity_id_strings(items);
    let id = next_unique_layer_id(&ids, slug);
    let c = &items[k];
    let copy = EntityPlacement {
        id: id.clone(),
        archetype: c.archetype.clone(),
        kind: c.kind,
        position: PointI16 { x: c.position.x + 16, y: c.position.y },
        facing: c.facing,
        hitbox: c.hitbox,
        combat: c.combat,
        action: copy_action(&c.action),
        movement: c.movement,
        active: c.active,
        one_shot: c.one_shot,
    };
    items.insert(k + 1, copy);
    proof {
        assert(items@ == before.insert(k + 1, copy));
        assert(items@.take(k + 1) =~= before.take(k + 1));
        assert(items@.skip(k + 2) =~= before.skip(k + 1));
    }
    Some((k + 1, id))
}

/// A copy of trigger `k` placed right after it, moved 16 pixels to the right
/// and named by [`next_unique_layer_id`] among the scene's trigger ids, where
/// `slug` is the slug of the copied trigger's id. The index of the copy and
/// its id; `None`, with the triggers unchanged, when there is no trigger `k`.
pub fn duplicate_trigger(items: &mut Vec<TriggerVolume>, k: usize, slug: &str) -> (r: Option<(usize, String)>)
    requires
        old(items)@.len() < usize::MAX,
        k < old(items)@.len() ==> (old(items)@[k as int]).rect.x + 16 <= i16::MAX,
    ensures
        k >= old(items)@.len() ==> r is None && final(items)@ == old(items)@,
        k < old(items)@.len() ==> match r {
            None => false,
            Some((at, id)) => {
                let before = old(items)@;
                let copy = final(items)@[k + 1];
                &&& at == k + 1
                &&& id@ == fresh_copy(trigger_ids(before), slug@)
                &&& !trigger_ids(before).contains(id@)
                &&& final(items)@.len() == before.len() + 1
                &&& final(items)@.take(k + 1) == before.take(k + 1)
                &&& final(items)@.skip(k + 2) == before.skip(k + 1)
                &&& copy.id@ == id@
                &&& copy == (TriggerVolume { id: copy.id, rect: RectI16 { x: (before[k as int].rect.x + 16) as i16, ..before[k as int].rect }, ..before[k as int] })
            },
        },
{
    if k >= items.len() {
        return None;
    }
    let ghost before = items@;
    let ids = trigger_id_strings(items);
    let id = next_unique_layer_id(&ids, slug);
    let c = &items[k];
    let copy = TriggerVolume {
        id: id.clone(),
        kind: c.kind,
        rect: RectI16 { x: c.rect.x + 16, y: c.rect.y, width: c.rect.width, height: c.rect.height },
        script_id: c.script_id.clone(),
    };
    items.insert(k + 1, copy);
    proof {
        assert(items@ == before.insert(k + 1, copy));
        assert(items@.take(k + 1) =~= before.take(k + 1));
        assert(items@.skip(k + 2) =~= before.skip(k + 1));
    }
    Some((k + 1, id))
}

} // verus!
