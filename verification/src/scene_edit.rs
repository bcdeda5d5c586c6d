//! Edits of a scene's cells: painting a selection, drawing a line across
//! it, and mirroring it.
use vstd::prelude::*;
use crate::editor::{bresenham_line, span_x, span_y, walk_at_end, walk_point, within_box, TileSelectionRect};
use crate::project::{SceneResource, TileLayer};
use crate::text::{decimal, push_decimal};
use vstd::arithmetic::div_mod::lemma_fundamental_div_mod_converse;

verus! {

/// What a selection action writes into the selected cells.
#[derive(Debug, Clone, Copy, PartialEq, Eq, Structural)]
pub enum SelectionAction {
    PaintTile(u16),
    SetSolid(bool),
    SetLadder(bool),
    SetHazard(bool),
}

/// Row `y` of the selection covers cell `i` of a grid `w` cells wide: the
/// cell lies `i - y * w` cells into the row, within the selected columns.
pub open spec fn row_covers(rect: TileSelectionRect, w: int, i: int, y: int) -> bool {
    rect.min_y <= y <= rect.max_y && rect.min_x <= i - y * w <= rect.max_x
}

/// Some selected row covers cell `i`.
pub open spec fn covers(rect: TileSelectionRect, w: int, i: int) -> bool {
    exists|y: int| #[trigger] row_covers(rect, w, i, y)
}

/// The cells with every covered one set to `v`.
pub open spec fn painted<T>(cells: Seq<T>, rect: TileSelectionRect, w: int, v: T) -> Seq<T> {
    Seq::new(cells.len(), |i: int| if covers(rect, w, i) { v } else { cells[i] })
}

/// Some cell of a grid of `len` cells is covered.
pub open spec fn any_covered(rect: TileSelectionRect, w: int, len: int) -> bool {
    exists|i: int| 0 <= i < len && #[trigger] covers(rect, w, i)
}

/// Cell `i` was reached by the scan of rows before `y` and of the columns
/// before `x` in row `y`.
pub open spec fn scanned(rect: TileSelectionRect, w: int, i: int, y: int, x: int) -> bool {
    (exists|y2: int| y2 < y && #[trigger] row_covers(rect, w, i, y2)) || (rect.min_y <= y <= rect.max_y
        && rect.min_x <= i - y * w < x)
}

/// The selection's cell indices fit in a machine word.
pub open spec fn rect_fits(rect: TileSelectionRect, w: int) -> bool {
    rect.max_y * w + rect.max_x < usize::MAX && rect.max_y < usize::MAX && rect.max_x < usize::MAX
}

/// Sets every covered cell to `v`; `true` when at least one was set.
pub fn paint_cells<T: Copy>(cells: &mut Vec<T>, rect: TileSelectionRect, w: usize, v: T) -> (edited: bool)
    requires
        rect_fits(rect, w as int),
    ensures
        final(cells)@ == painted(old(cells)@, rect, w as int, v),
        edited == any_covered(rect, w as int, old(cells)@.len() as int),
{
    let ghost wi = w as int;
    let ghost len = cells@.len() as int;
    let ghost start = cells@;
    let mut edited = false;
    let mut y = rect.min_y;
    proof {
        assert forall|i: int| !#[trigger] scanned(rect, wi, i, y as int, rect.min_x as int) by {
            if exists|y2: int| y2 < y && #[trigger] row_covers(rect, wi, i, y2) {
                let y2 = choose|y2: int| y2 < y && #[trigger] row_covers(rect, wi, i, y2);
            }
        }
    }
    while y <= rect.max_y
        invariant
            rect_fits(rect, wi),
            wi == w,
            len == cells@.len(),
            len == start.len(),
            rect.min_y <= y,
            y > rect.max_y ==> y == rect.min_y || y == rect.max_y + 1,
            forall|i: int|
                0 <= i < len ==> cells@[i] == (if #[trigger] scanned(rect, wi, i, y as int, rect.min_x as int) {
                    v
                } else {
                    start[i]
                }),
            edited == exists|i: int| 0 <= i < len && #[trigger] scanned(rect, wi, i, y as int, rect.min_x as int),
        decreases rect.max_y + 1 - y,
    {
        assert(y * w + rect.max_x < usize::MAX) by (nonlinear_arith)
            requires
                y <= rect.max_y,
                rect.max_y * w + rect.max_x < usize::MAX,
        ;
        let row_start = y * w;
        let mut x = rect.min_x;
        proof {
            assert forall|i: int| #[trigger] scanned(rect, wi, i, y as int, x as int) == scanned(
                rect,
                wi,
                i,
                y as int,
                rect.min_x as int,
            ) by {}
        }
        while x <= rect.max_x
            invariant
                rect_fits(rect, wi),
                wi == w,
                len == cells@.len(),
                len == start.len(),
                rect.min_y <= y <= rect.max_y,
                row_start == y * w,
                row_start + rect.max_x < usize::MAX,
                rect.min_x <= x,
                x > rect.max_x ==> x == rect.min_x || x == rect.max_x + 1,
                forall|i: int|
                    0 <= i < len ==> cells@[i] == (if #[trigger] scanned(rect, wi, i, y as int, x as int) {
                        v
                    } else {
                        start[i]
                    }),
                edited == exists|i: int| 0 <= i < len && #[trigger] scanned(rect, wi, i, y as int, x as int),
            decreases rect.max_x + 1 - x,
        {
            let index = row_start + x;
            let ghost before_edited = edited;
            if index < cells.len() {
                cells.set(index, v);
                edited = true;
            }
            proof {
                assert forall|i: int| #[trigger] scanned(rect, wi, i, y as int, x + 1) == (scanned(
                    rect,
                    wi,
                    i,
                    y as int,
                    x as int,
                ) || i == index) by {}
                if index < len {
                    assert(scanned(rect, wi, index as int, y as int, x + 1));
                } else {
                    if exists|i: int| 0 <= i < len && #[trigger] scanned(rect, wi, i, y as int, x + 1) {
                        let i = choose|i: int| 0 <= i < len && #[trigger] scanned(rect, wi, i, y as int, x + 1);
                        assert(scanned(rect, wi, i, y as int, x as int));
                    }
                    if before_edited {
                        let i = choose|i: int| 0 <= i < len && #[trigger] scanned(rect, wi, i, y as int, x as int);
                        assert(scanned(rect, wi, i, y as int, x + 1));
                    }
                }
            }
            x = x + 1;
        }
        proof {
            assert forall|i: int| #[trigger] scanned(rect, wi, i, y + 1, rect.min_x as int) == scanned(
                rect,
                wi,
                i,
                y as int,
                x as int,
            ) by {
                if scanned(rect, wi, i, y as int, x as int) {
                    if rect.min_y <= y <= rect.max_y && rect.min_x <= i - y * wi < x {
                        assert(row_covers(rect, wi, i, y as int));
                    }
                }
                if scanned(rect, wi, i, y + 1, rect.min_x as int) {
                    if exists|y2: int| y2 < y + 1 && #[trigger] row_covers(rect, wi, i, y2) {
                        let y2 = choose|y2: int| y2 < y + 1 && #[trigger] row_covers(rect, wi, i, y2);
                        if y2 < y {
                            assert(exists|y3: int| y3 < y && #[trigger] row_covers(rect, wi, i, y3));
                        }
                    }
                }
            }
        }
        proof {
            if edited {
                let i = choose|i: int| 0 <= i < len && #[trigger] scanned(rect, wi, i, y as int, x as int);
                assert(scanned(rect, wi, i, y + 1, rect.min_x as int));
            }
            if exists|i: int| 0 <= i < len && #[trigger] scanned(rect, wi, i, y + 1, rect.min_x as int) {
                let i = choose|i: int| 0 <= i < len && #[trigger] scanned(rect, wi, i, y + 1, rect.min_x as int);
                assert(scanned(rect, wi, i, y as int, x as int));
            }
        }
        y = y + 1;
    }
    proof {
        assert forall|i: int| #[trigger] scanned(rect, wi, i, y as int, rect.min_x as int) == covers(rect, wi, i) by {
            if covers(rect, wi, i) {
                let y2 = choose|y2: int| #[trigger] row_covers(rect, wi, i, y2);
                assert(y2 < y);
            }
            if scanned(rect, wi, i, y as int, rect.min_x as int) {
                if exists|y2: int| y2 < y && #[trigger] row_covers(rect, wi, i, y2) {
                    let y2 = choose|y2: int| y2 < y && #[trigger] row_covers(rect, wi, i, y2);
                    assert(row_covers(rect, wi, i, y2));
                }
            }
        }
        assert forall|i: int| 0 <= i < len implies cells@[i] == #[trigger] painted(start, rect, wi, v)[i] by {
            assert(scanned(rect, wi, i, y as int, rect.min_x as int) == covers(rect, wi, i));
        }
        assert(cells@ =~= painted(start, rect, wi, v));
        if edited {
            let i = choose|i: int| 0 <= i < len && #[trigger] scanned(rect, wi, i, y as int, rect.min_x as int);
            assert(covers(rect, wi, i));
        }
        if any_covered(rect, wi, len) {
            let i = choose|i: int| 0 <= i < len && #[trigger] covers(rect, wi, i);
            assert(scanned(rect, wi, i, y as int, rect.min_x as int));
        }
    }
    edited
}

/// Two scenes agree on everything but their layers and collision flags.
pub open spec fn same_apart_from_cells(a: SceneResource, b: SceneResource) -> bool {
    &&& a.id == b.id
    &&& a.kind == b.kind
    &&& a.size_tiles == b.size_tiles
    &&& a.chunk_size_tiles == b.chunk_size_tiles
    &&& a.background_color_index == b.background_color_index
    &&& a.spawns == b.spawns
    &&& a.checkpoints == b.checkpoints
    &&& a.entities == b.entities
    &&& a.triggers == b.triggers
    &&& a.scripts == b.scripts
}

/// Two layers agree on everything but their tiles.
pub open spec fn same_apart_from_tiles(a: TileLayer, b: TileLayer) -> bool {
    a.id == b.id && a.tileset_id == b.tileset_id && a.visible == b.visible && a.parallax_x == b.parallax_x
        && a.parallax_y == b.parallax_y
}

/// Layer `k` of `after` is layer `k` of `before` with `tiles` as its
/// tiles; every other layer is unchanged.
pub open spec fn layer_replaced(before: Seq<TileLayer>, after: Seq<TileLayer>, k: int, tiles: Seq<u16>) -> bool {
    &&& after.len() == before.len()
    &&& 0 <= k < before.len()
    &&& forall|j: int| 0 <= j < before.len() && j != k ==> after[j] == before[j]
    &&& same_apart_from_tiles(after[k], before[k])
    &&& after[k].tiles@ == tiles
}

/// The layer a selection edit works on: the selected one, or the last
/// one when the selection is past the end.
pub open spec fn edited_layer(selected: int, count: int) -> int {
    if selected < count - 1 { selected } else { count - 1 }
}

/// Paints the covered cells of layer `k` with a tile.
fn paint_layer(scene: &mut SceneResource, k: usize, rect: TileSelectionRect, tile: u16) -> (edited: bool)
    requires
        k < old(scene).layers@.len(),
        rect_fits(rect, old(scene).size_tiles.width as int),
    ensures
        same_apart_from_cells(*final(scene), *old(scene)),
        final(scene).collision == old(scene).collision,
        layer_replaced(
            old(scene).layers@,
            final(scene).layers@,
            k as int,
            painted(old(scene).layers@[k as int].tiles@, rect, old(scene).size_tiles.width as int, tile),
        ),
        edited == any_covered(rect, old(scene).size_tiles.width as int, old(scene).layers@[k as int].tiles@.len() as int),
{
    let w = scene.size_tiles.width as usize;
    let mut layers: Vec<TileLayer> = Vec::new();
    std::mem::swap(&mut layers, &mut scene.layers);
    let ghost before = layers@;
    let mut layer = layers.remove(k);
    let edited = paint_cells(&mut layer.tiles, rect, w, tile);
    layers.insert(k, layer);
    std::mem::swap(&mut layers, &mut scene.layers);
    proof {
        assert forall|j: int| 0 <= j < before.len() && j != k implies scene.layers@[j] == before[j] by {
            if j < k {
                assert(before.remove(k as int)[j] == before[j]);
            } else {
                assert(before.remove(k as int)[j - 1] == before[j]);
            }
        }
    }
    edited
}

/// Writes a selection action into the selected cells of a scene: a tile
/// into the edited layer, or a collision flag; `true` when some cell was
/// written.
pub fn apply_selection_action(
    scene: &mut SceneResource,
    selected_layer: usize,
    rect: TileSelectionRect,
    action: SelectionAction,
) -> (edited: bool)
    requires
        rect_fits(rect, old(scene).size_tiles.width as int),
    ensures
        same_apart_from_cells(*final(scene), *old(scene)),
        ({
            let w = old(scene).size_tiles.width as int;
            let before = old(scene).collision;
            let after = final(scene).collision;
            match action {
                SelectionAction::PaintTile(tile) => {
                    &&& after == before
                    &&& if old(scene).layers@.len() == 0 {
                        final(scene).layers == old(scene).layers && !edited
                    } else {
                        let k = edited_layer(selected_layer as int, old(scene).layers@.len() as int);
                        &&& layer_replaced(
                            old(scene).layers@,
                            final(scene).layers@,
                            k,
                            painted(old(scene).layers@[k].tiles@, rect, w, tile),
                        )
                        &&& edited == any_covered(rect, w, old(scene).layers@[k].tiles@.len() as int)
                    }
                },
                SelectionAction::SetSolid(v) => {
                    &&& final(scene).layers == old(scene).layers
                    &&& after.solids@ == painted(before.solids@, rect, w, v)
                    &&& after.ladders == before.ladders && after.hazards == before.hazards
                    &&& edited == any_covered(rect, w, before.solids@.len() as int)
                },
                SelectionAction::SetLadder(v) => {
                    &&& final(scene).layers == old(scene).layers
                    &&& after.ladders@ == painted(before.ladders@, rect, w, v)
                    &&& after.solids == before.solids && after.hazards == before.hazards
                    &&& edited == any_covered(rect, w, before.ladders@.len() as int)
                },
                SelectionAction::SetHazard(v) => {
                    &&& final(scene).layers == old(scene).layers
                    &&& after.hazards@ == painted(before.hazards@, rect, w, v)
                    &&& after.solids == before.solids && after.ladders == before.ladders
                    &&& edited == any_covered(rect, w, before.hazards@.len() as int)
                },
            }
        }),
{
    let w = scene.size_tiles.width as usize;
    match action {
        SelectionAction::PaintTile(tile) => {
            let count = scene.layers.len();
            if count == 0 {
                return false;
            }
            let k = if selected_layer < count - 1 { selected_layer } else { count - 1 };
            paint_layer(scene, k, rect, tile)
        },
        SelectionAction::SetSolid(v) => paint_cells(&mut scene.collision.solids, rect, w, v),
        SelectionAction::SetLadder(v) => paint_cells(&mut scene.collision.ladders, rect, w, v),
        SelectionAction::SetHazard(v) => paint_cells(&mut scene.collision.hazards, rect, w, v),
    }
}

/// The status shown after a selection action on a `width` by `height`
/// selection.
pub open spec fn spec_action_status(action: SelectionAction, width: nat, height: nat) -> Seq<char> {
    let size = decimal(width) + "x"@ + decimal(height);
    match action {
        SelectionAction::PaintTile(tile) => if tile == 0 {
            "Cleared tiles in "@ + size + " selection"@
        } else {
            "Filled "@ + size + " selection with tile "@ + decimal(tile as nat)
        },
        SelectionAction::SetSolid(v) => if v {
            "Marked "@ + size + " selection as solid"@
        } else {
            "Cleared solid collision in "@ + size + " selection"@
        },
        SelectionAction::SetLadder(v) => if v {
            "Marked "@ + size + " selection as ladder"@
        } else {
            "Cleared ladder collision in "@ + size + " selection"@
        },
        SelectionAction::SetHazard(v) => if v {
            "Marked "@ + size + " selection as hazard"@
        } else {
            "Cleared hazard collision in "@ + size + " selection"@
        },
    }
}

/// The status shown after a selection action.
pub fn selection_action_status(action: SelectionAction, width: usize, height: usize) -> (s: String)
    ensures
        s@ == spec_action_status(action, width as nat, height as nat),
{
    let mut size = String::new();
    push_decimal(&mut size, width as u128);
    size.append("x");
    push_decimal(&mut size, height as u128);
    let mut s = String::new();
    match action {
        SelectionAction::PaintTile(tile) => {
            if tile == 0 {
                s.append("Cleared tiles in ");
                s.append(size.as_str());
                s.append(" selection");
            } else {
                s.append("Filled ");
                s.append(size.as_str());
                s.append(" selection with tile ");
                push_decimal(&mut s, tile as u128);
            }
        },
        SelectionAction::SetSolid(v) => {
            if v {
                s.append("Marked ");
                s.append(size.as_str());
                s.append(" selection as solid");
            } else {
                s.append("Cleared solid collision in ");
                s.append(size.as_str());
                s.append(" selection");
            }
        },
        SelectionAction::SetLadder(v) => {
            if v {
                s.append("Marked ");
                s.append(size.as_str());
                s.append(" selection as ladder");
            } else {
                s.append("Cleared ladder collision in ");
                s.append(size.as_str());
                s.append(" selection");
            }
        },
        SelectionAction::SetHazard(v) => {
            if v {
                s.append("Marked ");
                s.append(size.as_str());
                s.append(" selection as hazard");
            } else {
                s.append("Cleared hazard collision in ");
                s.append(size.as_str());
                s.append(" selection");
            }
        },
    }
    assert(s@ =~= spec_action_status(action, width as nat, height as nat));
    s
}

/// Cell `i` of a grid `w` cells wide lies in the selection.
pub open spec fn in_selection(rect: TileSelectionRect, w: int, i: int) -> bool {
    w > 0 && rect.min_x <= i % w <= rect.max_x && rect.min_y <= i / w <= rect.max_y
}

/// The cell whose content cell `i` of the selection takes when the
/// selection is mirrored: across its middle column when `horizontal`,
/// across its middle row otherwise.
pub open spec fn mirror_of(rect: TileSelectionRect, w: int, i: int, horizontal: bool) -> int {
    let x = i % w;
    let y = i / w;
    if horizontal {
        y * w + (rect.max_x - (x - rect.min_x))
    } else {
        (rect.max_y - (y - rect.min_y)) * w + x
    }
}

/// The cells with the selection mirrored.
pub open spec fn mirrored<T>(cells: Seq<T>, rect: TileSelectionRect, w: int, horizontal: bool) -> Seq<T> {
    Seq::new(
        cells.len(),
        |i: int| if in_selection(rect, w, i) { cells[mirror_of(rect, w, i, horizontal)] } else { cells[i] },
    )
}

/// A non-empty selection lies within the grid's width and its cells
/// within `len` cells.
pub open spec fn selection_inside(rect: TileSelectionRect, w: int, len: int) -> bool {
    (rect.min_x <= rect.max_x && rect.min_y <= rect.max_y) ==> (rect.max_x < w && rect.max_y * w + rect.max_x
        < len)
}

/// The cell at column `x`, row `y` of a grid `w` cells wide.
proof fn lemma_cell(x: int, y: int, w: int)
    requires
        0 <= x < w,
        0 <= y,
    ensures
        (y * w + x) % w == x,
        (y * w + x) / w == y,
{
    lemma_fundamental_div_mod_converse(y * w + x, w, y, x);
}

/// Mirrors the selected cells.
pub fn mirror_cells<T: Copy>(cells: &mut Vec<T>, rect: TileSelectionRect, w: usize, horizontal: bool)
    requires
        selection_inside(rect, w as int, old(cells)@.len() as int),
    ensures
        final(cells)@ == mirrored(old(cells)@, rect, w as int, horizontal),
{
    if rect.min_x > rect.max_x || rect.min_y > rect.max_y {
        proof {
            assert forall|i: int| 0 <= i < cells@.len() implies !#[trigger] in_selection(rect, w as int, i) by {}
            assert(cells@ =~= mirrored(cells@, rect, w as int, horizontal));
        }
        return;
    }
    let ghost wi = w as int;
    let ghost len = cells@.len() as int;
    let mut original: Vec<T> = Vec::new();
    let mut k: usize = 0;
    while k < cells.len()
        invariant
            k <= cells@.len(),
            original@ == cells@.take(k as int),
        decreases cells@.len() - k,
    {
        original.push(cells[k]);
        assert(cells@.take(k + 1) =~= cells@.take(k as int).push(cells@[k as int]));
        k = k + 1;
    }
    assert(cells@.take(k as int) =~= cells@);
    let ghost orig = original@;
    assert(len == cells.len());
    assert(rect.max_y * w + rect.max_x < len);
    assert(rect.max_y <= rect.max_y * w) by (nonlinear_arith)
        requires
            w > 0,
    ;
    let mut y = rect.min_y;
    while y <= rect.max_y
        invariant
            rect.min_x <= rect.max_x < wi,
            rect.min_y <= y <= rect.max_y + 1,
            rect.max_y * wi + rect.max_x < len,
            rect.max_y < len,
            len <= usize::MAX,
            wi == w,
            wi > 0,
            len == cells@.len(),
            orig == original@,
            orig.len() == len,
            forall|i: int|
                0 <= i < len ==> #[trigger] cells@[i] == (if in_selection(rect, wi, i) && i / wi < y {
                    orig[mirror_of(rect, wi, i, horizontal)]
                } else {
                    orig[i]
                }),
        decreases rect.max_y + 1 - y,
    {
        let mut x = rect.min_x;
        while x <= rect.max_x
            invariant
                rect.min_x <= rect.max_x < wi,
                rect.min_y <= y <= rect.max_y,
                rect.min_x <= x <= rect.max_x + 1,
                rect.max_y * wi + rect.max_x < len,
                len <= usize::MAX,
                wi == w,
                wi > 0,
                len == cells@.len(),
                orig == original@,
                orig.len() == len,
                forall|i: int|
                    0 <= i < len ==> #[trigger] cells@[i] == (if in_selection(rect, wi, i) && (i / wi < y || (i / wi
                        == y && i % wi < x)) {
                        orig[mirror_of(rect, wi, i, horizontal)]
                    } else {
                        orig[i]
                    }),
            decreases rect.max_x + 1 - x,
        {
            assert(y * w + x <= rect.max_y * w + rect.max_x) by (nonlinear_arith)
                requires
                    y <= rect.max_y,
                    x <= rect.max_x,
                    w > 0,
            ;
            let target = y * w + x;
            let source_x = if horizontal { rect.max_x - (x - rect.min_x) } else { x };
            let source_y = if horizontal { y } else { rect.max_y - (y - rect.min_y) };
            assert(source_y * w + source_x <= rect.max_y * w + rect.max_x) by (nonlinear_arith)
                requires
                    source_y <= rect.max_y,
                    source_x <= rect.max_x,
                    w > 0,
            ;
            let source = source_y * w + source_x;
            proof {
                lemma_cell(x as int, y as int, wi);
                lemma_cell(source_x as int, source_y as int, wi);
                assert(in_selection(rect, wi, target as int));
                assert(mirror_of(rect, wi, target as int, horizontal) == source);
            }
            let value = original[source];
            let ghost before = cells@;
            cells.set(target, value);
            proof {
                assert forall|i: int| 0 <= i < len implies #[trigger] cells@[i] == (if in_selection(rect, wi, i) && (i
                    / wi < y || (i / wi == y && i % wi < x + 1)) {
                    orig[mirror_of(rect, wi, i, horizontal)]
                } else {
                    orig[i]
                }) by {
                    if i != target {
                        assert(cells@[i] == before[i]);
                        if in_selection(rect, wi, i) && i / wi == y && i % wi == x {
                            lemma_cell(x as int, y as int, wi);
                            assert(i == (i / wi) * wi + i % wi) by {
                                vstd::arithmetic::div_mod::lemma_fundamental_div_mod(i, wi);
                            }
                        }
                    }
                }
            }
            x = x + 1;
        }
        proof {
            assert forall|i: int| 0 <= i < len implies #[trigger] cells@[i] == (if in_selection(rect, wi, i) && i / wi
                < y + 1 {
                orig[mirror_of(rect, wi, i, horizontal)]
            } else {
                orig[i]
            }) by {
                if in_selection(rect, wi, i) && i / wi == y {
                    assert(i % wi < x);
                }
            }
        }
        y = y + 1;
    }
    proof {
        assert forall|i: int| 0 <= i < len implies cells@[i] == #[trigger] mirrored(orig, rect, wi, horizontal)[i] by {
            if in_selection(rect, wi, i) {
                assert(i / wi < y);
            }
        }
        assert(cells@ =~= mirrored(orig, rect, wi, horizontal));
    }
}

/// Mirrors the selected cells of the edited layer and of the collision
/// flags; a scene without layers is left as it is.
pub fn mirror_selection(scene: &mut SceneResource, selected_layer: usize, rect: TileSelectionRect, horizontal: bool)
    requires
        old(scene).layers@.len() > 0 ==> {
            let w = old(scene).size_tiles.width as int;
            let k = edited_layer(selected_layer as int, old(scene).layers@.len() as int);
            &&& selection_inside(rect, w, old(scene).layers@[k].tiles@.len() as int)
            &&& selection_inside(rect, w, old(scene).collision.solids@.len() as int)
            &&& selection_inside(rect, w, old(scene).collision.ladders@.len() as int)
            &&& selection_inside(rect, w, old(scene).collision.hazards@.len() as int)
        },
    ensures
        same_apart_from_cells(*final(scene), *old(scene)),
        old(scene).layers@.len() == 0 ==> *final(scene) == *old(scene),
        old(scene).layers@.len() > 0 ==> {
            let w = old(scene).size_tiles.width as int;
            let k = edited_layer(selected_layer as int, old(scene).layers@.len() as int);
            let before = old(scene).collision;
            let after = final(scene).collision;
            &&& layer_replaced(
                old(scene).layers@,
                final(scene).layers@,
                k,
                mirrored(old(scene).layers@[k].tiles@, rect, w, horizontal),
            )
            &&& after.solids@ == mirrored(before.solids@, rect, w, horizontal)
            &&& after.ladders@ == mirrored(before.ladders@, rect, w, horizontal)
            &&& after.hazards@ == mirrored(before.hazards@, rect, w, horizontal)
        },
{
    let count = scene.layers.len();
    if count == 0 {
        return;
    }
    let k = if selected_layer < count - 1 { selected_layer } else { count - 1 };
    let w = scene.size_tiles.width as usize;
    let mut layers: Vec<TileLayer> = Vec::new();
    std::mem::swap(&mut layers, &mut scene.layers);
    let ghost before = layers@;
    let mut layer = layers.remove(k);
    mirror_cells(&mut layer.tiles, rect, w, horizontal);
    layers.insert(k, layer);
    std::mem::swap(&mut layers, &mut scene.layers);
    mirror_cells(&mut scene.collision.solids, rect, w, horizontal);
    mirror_cells(&mut scene.collision.ladders, rect, w, horizontal);
    mirror_cells(&mut scene.collision.hazards, rect, w, horizontal);
    proof {
        assert forall|j: int| 0 <= j < before.len() && j != k implies scene.layers@[j] == before[j] by {
            if j < k {
                assert(before.remove(k as int)[j] == before[j]);
            } else {
                assert(before.remove(k as int)[j - 1] == before[j]);
            }
        }
    }
}

/// The cell index of a point of a grid `w` cells wide.
pub open spec fn line_index(p: (i32, i32), w: int) -> int {
    p.1 * w + p.0
}

/// Cell `i` is one of the first `n + 1` cells of the line.
pub open spec fn on_line(start: (i32, i32), end: (i32, i32), n: int, w: int, i: int) -> bool {
    exists|k: int| 0 <= k <= n && line_index(#[trigger] walk_point(start, end, k), w) == i
}

/// The tiles with the cells of the line, which has `n + 1` cells, set to
/// `tile`.
pub open spec fn line_drawn(tiles: Seq<u16>, start: (i32, i32), end: (i32, i32), n: int, w: int, tile: u16) -> Seq<u16> {
    Seq::new(tiles.len(), |i: int| if on_line(start, end, n, w, i) { tile } else { tiles[i] })
}

/// The corners of the selection as line end points.
pub open spec fn line_start(rect: TileSelectionRect) -> (i32, i32) {
    (rect.min_x as i32, rect.min_y as i32)
}

/// The far corner of the selection as a line end point.
pub open spec fn line_end(rect: TileSelectionRect) -> (i32, i32) {
    (rect.max_x as i32, rect.max_y as i32)
}

/// The selection's corners are small enough for a line between them, and
/// its cell indices fit in a machine word.
pub open spec fn line_fits(rect: TileSelectionRect, w: int) -> bool {
    let big_x = if rect.min_x > rect.max_x { rect.min_x } else { rect.max_x };
    let big_y = if rect.min_y > rect.max_y { rect.min_y } else { rect.max_y };
    &&& big_x <= 0x1FFF_FFFF
    &&& big_y <= 0x1FFF_FFFF
    &&& big_y * w + big_x <= usize::MAX
}

/// Draws the line from the selection's first corner to its far corner
/// into the selected layer; nothing happens when no layer is selected.
pub fn draw_line_in_selection(scene: &mut SceneResource, selected_layer: usize, rect: TileSelectionRect, tile: u16)
    requires
        line_fits(rect, old(scene).size_tiles.width as int),
    ensures
        same_apart_from_cells(*final(scene), *old(scene)),
        final(scene).collision == old(scene).collision,
        selected_layer >= old(scene).layers@.len() ==> final(scene).layers == old(scene).layers,
        selected_layer < old(scene).layers@.len() ==> exists|n: int|
            #[trigger] walk_at_end(line_start(rect), line_end(rect), n) && (forall|i: int|
                0 <= i < n ==> !#[trigger] walk_at_end(line_start(rect), line_end(rect), i)) && layer_replaced(
                old(scene).layers@,
                final(scene).layers@,
                selected_layer as int,
                line_drawn(
                    old(scene).layers@[selected_layer as int].tiles@,
                    line_start(rect),
                    line_end(rect),
                    n,
                    old(scene).size_tiles.width as int,
                    tile,
                ),
            ),
{
    if selected_layer >= scene.layers.len() {
        return;
    }
    let start = (rect.min_x as i32, rect.min_y as i32);
    let end = (rect.max_x as i32, rect.max_y as i32);
    let points = bresenham_line(start, end);
    let w = scene.size_tiles.width as usize;
    let ghost wi = w as int;
    let mut layers: Vec<TileLayer> = Vec::new();
    std::mem::swap(&mut layers, &mut scene.layers);
    let ghost before = layers@;
    let mut layer = layers.remove(selected_layer);
    let ghost removed = layer;
    let ghost old_tiles = layer.tiles@;
    let ghost n = points@.len() - 1;
    let mut j: usize = 0;
    while j < points.len()
        invariant
            j <= points@.len(),
            line_fits(rect, wi),
            wi == w,
            start == line_start(rect),
            end == line_end(rect),
            n == points@.len() - 1,
            forall|i: int| 0 <= i < points@.len() ==> #[trigger] points@[i] == walk_point(start, end, i),
            forall|i: int| 0 <= i < points@.len() ==> #[trigger] within_box(start, end, points@[i]),
            layer.tiles@.len() == old_tiles.len(),
            same_apart_from_tiles(layer, removed),
            forall|i: int|
                0 <= i < old_tiles.len() ==> #[trigger] layer.tiles@[i] == (if exists|k: int|
                    0 <= k < j && line_index(#[trigger] walk_point(start, end, k), wi) == i {
                    tile
                } else {
                    old_tiles[i]
                }),
        decreases points@.len() - j,
    {
        let p = points[j];
        assert(within_box(start, end, p));
        assert(p.1 as int * wi + p.0 as int <= usize::MAX) by (nonlinear_arith)
            requires
                within_box(start, end, p),
                line_fits(rect, wi),
                start == line_start(rect),
                end == line_end(rect),
                wi >= 0,
        {
            assert(rect.min_x <= 0x1FFF_FFFF && rect.max_x <= 0x1FFF_FFFF);
        }
        let index = (p.1 as usize) * w + (p.0 as usize);
        let ghost prev = layer.tiles@;
        if index < layer.tiles.len() {
            layer.tiles.set(index, tile);
        }
        proof {
            assert(points@[j as int] == walk_point(start, end, j as int));
            assert forall|i: int| 0 <= i < old_tiles.len() implies #[trigger] layer.tiles@[i] == (if exists|k: int|
                0 <= k < j + 1 && line_index(#[trigger] walk_point(start, end, k), wi) == i {
                tile
            } else {
                old_tiles[i]
            }) by {
                if i == index {
                    assert(line_index(walk_point(start, end, j as int), wi) == i);
                } else {
                    if exists|k: int| 0 <= k < j + 1 && line_index(#[trigger] walk_point(start, end, k), wi) == i {
                        let k = choose|k: int| 0 <= k < j + 1 && line_index(#[trigger] walk_point(start, end, k), wi) == i;
                        assert(k < j);
                    }
                }
            }
        }
        j = j + 1;
    }
    layers.insert(selected_layer, layer);
    std::mem::swap(&mut layers, &mut scene.layers);
    proof {
        assert forall|jj: int| 0 <= jj < before.len() && jj != selected_layer implies scene.layers@[jj] == before[jj] by {
            if jj < selected_layer {
                assert(before.remove(selected_layer as int)[jj] == before[jj]);
            } else {
                assert(before.remove(selected_layer as int)[jj - 1] == before[jj]);
            }
        }
        let drawn = line_drawn(old_tiles, start, end, n, wi, tile);
        assert forall|i: int| 0 <= i < old_tiles.len() implies scene.layers@[selected_layer as int].tiles@[i] == #[trigger] drawn[i] by {
            assert(on_line(start, end, n, wi, i) == exists|k: int|
                0 <= k < points@.len() && line_index(#[trigger] walk_point(start, end, k), wi) == i);
        }
        assert(scene.layers@[selected_layer as int].tiles@ =~= drawn);
        assert(walk_at_end(start, end, n));
        assert(forall|i: int| 0 <= i < n ==> !#[trigger] walk_at_end(start, end, i));
        assert(layer_replaced(before, scene.layers@, selected_layer as int, drawn));
        assert(start == line_start(rect) && end == line_end(rect));
    }
}

} // verus!
