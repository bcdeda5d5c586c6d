//! Flood fill of a tile layer: the region of equal tiles connected to a
//! start cell, through cells that share an edge, takes a new tile.
use vstd::prelude::*;
use vstd::arithmetic::div_mod::lemma_fundamental_div_mod_converse;

verus! {

/// Cells `a` and `b` of a `w` by `h` grid share an edge.
pub open spec fn adjacent(w: int, h: int, a: int, b: int) -> bool {
    &&& 0 <= a < w * h
    &&& 0 <= b < w * h
    &&& {
        ||| a / w == b / w && (a % w == b % w + 1 || b % w == a % w + 1)
        ||| a % w == b % w && (a / w == b / w + 1 || b / w == a / w + 1)
    }
}

/// The tile of cell `i`; a cell past the end of the layer reads as 0.
pub open spec fn tile_at(tiles: Seq<u16>, i: int) -> u16 {
    if 0 <= i < tiles.len() {
        tiles[i]
    } else {
        0
    }
}

/// `p` is a walk over cells holding `source`, each step to a cell that
/// shares an edge.
pub open spec fn is_walk(tiles: Seq<u16>, w: int, h: int, source: u16, p: Seq<int>) -> bool {
    &&& p.len() > 0
    &&& forall|k: int| 0 <= k < p.len() ==> 0 <= #[trigger] p[k] < w * h && tile_at(tiles, p[k]) == source
    &&& forall|k: int| 0 <= k < p.len() - 1 ==> adjacent(w, h, #[trigger] p[k], p[k + 1])
}

/// Cell `i` can be reached from `start` over cells holding `source`.
pub open spec fn reachable(tiles: Seq<u16>, w: int, h: int, source: u16, start: int, i: int) -> bool {
    exists|p: Seq<int>| #[trigger] is_walk(tiles, w, h, source, p) && p[0] == start && p.last() == i
}

/// The tiles after a flood fill from `start` with `replacement`: every
/// cell reachable from the start over cells holding the start's tile
/// takes the new tile.
pub open spec fn flood_filled(tiles: Seq<u16>, w: int, h: int, start: int, replacement: u16) -> Seq<u16> {
    Seq::new(
        tiles.len(),
        |i: int| if reachable(tiles, w, h, tiles[start], start, i) { replacement } else { tiles[i] },
    )
}

/// The cell at column `x`, row `y` of a grid `w` cells wide.
proof fn lemma_cell(x: int, y: int, w: int)
    requires
        0 <= x < w,
        0 <= y,
    ensures
        (y * w + x) % w == x,
        (y * w + x) / w == y,
{
    lemma_fundamental_div_mod_converse(y * w + x, w, y, x);
}

/// A walk extended by one more cell that shares an edge with its end.
proof fn lemma_extend_walk(tiles: Seq<u16>, w: int, h: int, source: u16, start: int, d: int, c: int)
    requires
        reachable(tiles, w, h, source, start, d),
        adjacent(w, h, d, c),
        tile_at(tiles, c) == source,
    ensures
        reachable(tiles, w, h, source, start, c),
{
    let p = choose|p: Seq<int>| #[trigger] is_walk(tiles, w, h, source, p) && p[0] == start && p.last() == d;
    let q = p.push(c);
    assert(is_walk(tiles, w, h, source, q)) by {
        assert forall|k: int| 0 <= k < q.len() - 1 implies adjacent(w, h, #[trigger] q[k], q[k + 1]) by {
            if k < p.len() - 1 {
                assert(q[k] == p[k] && q[k + 1] == p[k + 1]);
            }
        }
    }
    assert(q[0] == start && q.last() == c);
}

/// How a flood fill ended.
#[derive(Debug, Clone, Copy, PartialEq, Eq, Structural)]
pub enum FloodOutcome {
    /// The start cell is past the end of the layer; nothing changed.
    OutOfRange,
    /// The start cell already holds the new tile; nothing changed.
    AlreadyMatches,
    /// The region was filled.
    Filled,
}

/// The number of `true` entries among the first `n`.
pub open spec fn trues(s: Seq<bool>, n: int) -> int
    decreases n,
{
    if n <= 0 {
        0
    } else {
        trues(s, n - 1) + if s[n - 1] { 1int } else { 0 }
    }
}

proof fn lemma_trues_bounds(s: Seq<bool>, n: int)
    requires
        0 <= n <= s.len(),
    ensures
        0 <= trues(s, n) <= n,
    decreases n,
{
    if n > 0 {
        lemma_trues_bounds(s, n - 1);
    }
}

proof fn lemma_trues_set(s: Seq<bool>, n: int, c: int)
    requires
        0 <= c < n <= s.len(),
        !s[c],
    ensures
        trues(s.update(c, true), n) == trues(s, n) + 1,
    decreases n,
{
    if n - 1 > c {
        lemma_trues_set(s, n - 1, c);
    } else {
        lemma_trues_same(s, s.update(c, true), c);
    }
}

proof fn lemma_trues_same(a: Seq<bool>, b: Seq<bool>, n: int)
    requires
        0 <= n <= a.len(),
        n <= b.len(),
        forall|k: int| 0 <= k < n ==> a[k] == b[k],
    ensures
        trues(a, n) == trues(b, n),
    decreases n,
{
    if n > 0 {
        lemma_trues_same(a, b, n - 1);
    }
}

/// The cell index of a queued position.
pub open spec fn cell_of(p: (usize, usize), w: int) -> int {
    p.1 * w + p.0
}

/// Some queued position is cell `d`.
pub open spec fn queued(q: Seq<(usize, usize)>, w: int, d: int) -> bool {
    exists|k: int| 0 <= k < q.len() && #[trigger] cell_of(q[k], w) == d
}

/// Fills, in a layer `width` by `height` cells, the region of cells equal
/// to the start cell's tile that is connected to it through shared edges.
/// Cells past the end of a short layer read as tile 0; the region must not
/// reach them, as it cannot on a layer with a tile for every cell.
pub fn flood_fill(
    tiles: &mut Vec<u16>,
    width: usize,
    height: usize,
    start_x: usize,
    start_y: usize,
    replacement: u16,
) -> (r: FloodOutcome)
    requires
        width * height <= usize::MAX,
        start_y * width + start_x <= usize::MAX,
        ({
            let start = start_y * width + start_x;
            let before = old(tiles)@;
            start < before.len() && before[start] != replacement && start_x < width && start_y < height
                ==> forall|i: int| #[trigger]
                reachable(before, width as int, height as int, before[start], start, i) ==> i < before.len()
        }),
    ensures
        ({
            let start = start_y * width + start_x;
            let before = old(tiles)@;
            if start >= before.len() {
                r == FloodOutcome::OutOfRange && final(tiles)@ == before
            } else if before[start] == replacement {
                r == FloodOutcome::AlreadyMatches && final(tiles)@ == before
            } else if start_x >= width || start_y >= height {
                r == FloodOutcome::Filled && final(tiles)@ == before
            } else {
                r == FloodOutcome::Filled && final(tiles)@ == flood_filled(
                    before,
                    width as int,
                    height as int,
                    start,
                    replacement,
                )
            }
        }),
{
    let target = start_y * width + start_x;
    if target >= tiles.len() {
        return FloodOutcome::OutOfRange;
    }
    let source = tiles[target];
    if source == replacement {
        return FloodOutcome::AlreadyMatches;
    }
    if start_x >= width || start_y >= height {
        return FloodOutcome::Filled;
    }
    let ghost w = width as int;
    let ghost h = height as int;
    let ghost orig = tiles@;
    let ghost len = tiles@.len() as int;
    let ghost c0 = target as int;
    let n = width * height;
    proof {
        lemma_cell(start_x as int, start_y as int, w);
        assert(c0 < n) by (nonlinear_arith)
            requires
                c0 == start_y * w + start_x,
                start_x < w,
                start_y < h,
                n == w * h,
        ;
        let p0 = seq![c0];
        assert(tile_at(orig, c0) == source);
        assert(is_walk(orig, w, h, source, p0));
        assert(reachable(orig, w, h, source, c0, c0));
    }
    let mut visited: Vec<bool> = Vec::new();
    let mut k: usize = 0;
    while k < n
        invariant
            k <= n,
            visited@ == Seq::new(k as nat, |i: int| false),
        decreases n - k,
    {
        visited.push(false);
        assert(visited@ =~= Seq::new((k + 1) as nat, |i: int| false));
        k = k + 1;
    }
    proof {
        lemma_trues_same(visited@, Seq::new(n as nat, |i: int| false), n as int);
        assert(trues(visited@, n as int) == 0) by {
            lemma_trues_zero(n as int);
        }
    }
    let mut queue: Vec<(usize, usize)> = Vec::new();
    queue.push((start_x, start_y));
    assert(cell_of(queue@[0], w) == c0);
    while queue.len() > 0
        invariant
            w == width,
            h == height,
            n == w * h,
            len == tiles@.len(),
            len == orig.len(),
            0 <= c0 < n,
            c0 < len,
            orig[c0] == source,
            forall|i: int| #[trigger] reachable(orig, w, h, source, c0, i) ==> i < len,
            source != replacement,
            visited@.len() == n,
            0 <= trues(visited@, n as int) <= n,
            forall|c: int|
                0 <= c < len ==> #[trigger] tiles@[c] == (if c < n && visited@[c] && tile_at(orig, c) == source {
                    replacement
                } else {
                    orig[c]
                }),
            forall|j: int| 0 <= j < queue@.len() ==> (#[trigger] queue@[j]).0 < width && queue@[j].1 < height,
            forall|j: int|
                0 <= j < queue@.len() && tile_at(orig, cell_of(#[trigger] queue@[j], w)) == source ==> reachable(
                    orig,
                    w,
                    h,
                    source,
                    c0,
                    cell_of(queue@[j], w),
                ),
            forall|c: int|
                0 <= c < n && #[trigger] visited@[c] && tile_at(orig, c) == source ==> reachable(orig, w, h, source, c0, c),
            forall|c: int, d: int|
                0 <= c < n && #[trigger] visited@[c] && tile_at(orig, c) == source && #[trigger] adjacent(w, h, c, d)
                    ==> visited@[d] || queued(queue@, w, d),
            visited@[c0] || queued(queue@, w, c0),
        decreases n - trues(visited@, n as int), queue@.len(),
    {
        let ghost q0 = queue@;
        let ghost vis0 = visited@;
        let ghost tiles0 = tiles@;
        let e = queue.pop().unwrap();
        let x = e.0;
        let y = e.1;
        assert(e == q0[q0.len() - 1]);
        assert(queue@ =~= q0.drop_last());
        assert(y * width + x < n) by (nonlinear_arith)
            requires
                x < width,
                y < height,
                n == width * height,
        ;
        let c = y * width + x;
        proof {
            lemma_cell(x as int, y as int, w);
            assert(cell_of(e, w) == c);
            assert forall|d: int| #[trigger] queued(q0, w, d) && d != c implies queued(queue@, w, d) by {
                let j = choose|j: int| 0 <= j < q0.len() && #[trigger] cell_of(q0[j], w) == d;
                assert(j < q0.len() - 1);
                assert(queue@[j] == q0[j]);
            }
        }
        if visited[c] {
            proof {
                assert forall|c2: int, d: int|
                    0 <= c2 < n && #[trigger] visited@[c2] && tile_at(orig, c2) == source && #[trigger] adjacent(w, h, c2, d)
                        implies visited@[d] || queued(queue@, w, d) by {
                    if !visited@[d] {
                        assert(queued(q0, w, d));
                    }
                }
                if !visited@[c0] {
                    assert(queued(q0, w, c0));
                }
            }
            continue;
        }
        proof {
            lemma_trues_set(visited@, n as int, c as int);
        }
        visited.set(c, true);
        proof {
            lemma_trues_bounds(visited@, n as int);
        }
        let current: u16 = if c < tiles.len() { tiles[c] } else { 0 };
        assert(current == tile_at(orig, c as int));
        if current != source {
            proof {
                assert forall|c2: int, d: int|
                    0 <= c2 < n && #[trigger] visited@[c2] && tile_at(orig, c2) == source && #[trigger] adjacent(w, h, c2, d)
                        implies visited@[d] || queued(queue@, w, d) by {
                    assert(c2 != c);
                    assert(vis0[c2]);
                    if !visited@[d] {
                        assert(queued(q0, w, d));
                    }
                }
                if !visited@[c0] {
                    assert(queued(q0, w, c0));
                }
                assert forall|c2: int| 0 <= c2 < len implies #[trigger] tiles@[c2] == (if c2 < n && visited@[c2]
                    && tile_at(orig, c2) == source {
                    replacement
                } else {
                    orig[c2]
                }) by {
                    assert(tiles@[c2] == tiles0[c2]);
                }
            }
            continue;
        }
        proof {
            assert(tile_at(orig, c as int) == source);
            assert(reachable(orig, w, h, source, c0, c as int));
        }
        tiles.set(c, replacement);
        let ghost q1 = queue@;
        if x > 0 {
            queue.push((x - 1, y));
        }
        if x + 1 < width {
            queue.push((x + 1, y));
        }
        if y > 0 {
            queue.push((x, y - 1));
        }
        if y + 1 < height {
            queue.push((x, y + 1));
        }
        proof {
            let qn = queue@;
            assert forall|j: int| 0 <= j < q1.len() implies qn[j] == q1[j] by {}
            assert forall|d: int| #[trigger] queued(q1, w, d) implies queued(qn, w, d) by {
                let j = choose|j: int| 0 <= j < q1.len() && #[trigger] cell_of(q1[j], w) == d;
                assert(qn[j] == q1[j]);
            }
            assert forall|j: int| q1.len() <= j < qn.len() implies adjacent(w, h, c as int, cell_of(#[trigger] qn[j], w))
                && qn[j].0 < width && qn[j].1 < height by {
                lemma_pushed_neighbour(w, h, x as int, y as int, qn[j]);
            }
            assert forall|d: int| #[trigger] adjacent(w, h, c as int, d) implies queued(qn, w, d) by {
                lemma_neighbours(w, h, x as int, y as int, d);
                if x > 0 && d == y * w + (x - 1) {
                    assert(cell_of(qn[q1.len() as int], w) == d);
                } else if x + 1 < w && d == y * w + (x + 1) {
                    let j = q1.len() + (if x > 0 { 1int } else { 0 });
                    assert(cell_of(qn[j], w) == d);
                } else if y > 0 && d == (y - 1) * w + x {
                    let j = q1.len() + (if x > 0 { 1int } else { 0 }) + (if x + 1 < w { 1int } else { 0 });
                    assert(cell_of(qn[j], w) == d);
                } else {
                    let j = q1.len() + (if x > 0 { 1int } else { 0 }) + (if x + 1 < w { 1int } else { 0 }) + (if y
                        > 0 {
                        1int
                    } else {
                        0
                    });
                    assert(cell_of(qn[j], w) == d);
                }
            }
            assert forall|j: int|
                0 <= j < qn.len() && tile_at(orig, cell_of(#[trigger] qn[j], w)) == source implies reachable(
                    orig,
                    w,
                    h,
                    source,
                    c0,
                    cell_of(qn[j], w),
                ) by {
                if j >= q1.len() {
                    lemma_extend_walk(orig, w, h, source, c0, c as int, cell_of(qn[j], w));
                } else {
                    assert(qn[j] == q0[j]);
                }
            }
            assert forall|c2: int, d: int|
                0 <= c2 < n && #[trigger] visited@[c2] && tile_at(orig, c2) == source && #[trigger] adjacent(w, h, c2, d)
                    implies visited@[d] || queued(qn, w, d) by {
                if c2 != c {
                    assert(vis0[c2]);
                    if !visited@[d] {
                        assert(queued(q0, w, d));
                        assert(d != c);
                        assert(queued(q1, w, d));
                    }
                }
            }
            if !visited@[c0] {
                assert(queued(q0, w, c0));
                assert(queued(q1, w, c0));
            }
            assert forall|c2: int| 0 <= c2 < len implies #[trigger] tiles@[c2] == (if c2 < n && visited@[c2]
                && tile_at(orig, c2) == source {
                replacement
            } else {
                orig[c2]
            }) by {
                if c2 != c {
                    assert(tiles@[c2] == tiles0[c2]);
                }
            }
            assert forall|c2: int|
                0 <= c2 < n && #[trigger] visited@[c2] && tile_at(orig, c2) == source implies reachable(
                    orig,
                    w,
                    h,
                    source,
                    c0,
                    c2,
                ) by {
                if c2 != c {
                    assert(vis0[c2]);
                }
            }
        }
    }
    proof {
        assert forall|c2: int, d: int|
            0 <= c2 < n && visited@[c2] && tile_at(orig, c2) == source && #[trigger] adjacent(w, h, c2, d) implies visited@[d] by {
            if !visited@[d] {
                assert(queued(queue@, w, d));
                let j = choose|j: int| 0 <= j < queue@.len() && #[trigger] cell_of(queue@[j], w) == d;
            }
        }
        if !visited@[c0] {
            assert(queued(queue@, w, c0));
            let j = choose|j: int| 0 <= j < queue@.len() && #[trigger] cell_of(queue@[j], w) == c0;
        }
        let filled = flood_filled(orig, w, h, c0, replacement);
        assert forall|i: int| 0 <= i < len implies tiles@[i] == #[trigger] filled[i] by {
            if reachable(orig, w, h, source, c0, i) {
                let p = choose|p: Seq<int>| #[trigger] is_walk(orig, w, h, source, p) && p[0] == c0 && p.last() == i;
                lemma_walk_visited(orig, w, h, source, c0, visited@, p, p.len() - 1);
                assert(p[p.len() - 1] == i);
            }
            if i < n && visited@[i] && tile_at(orig, i) == source {
                assert(reachable(orig, w, h, source, c0, i));
            }
        }
        assert(tiles@ =~= filled);
    }
    FloodOutcome::Filled
}

/// Every cell of a walk from a visited start is visited, when every
/// visited cell holding the walked tile has only visited neighbours.
proof fn lemma_walk_visited(
    orig: Seq<u16>,
    w: int,
    h: int,
    source: u16,
    c0: int,
    visited: Seq<bool>,
    p: Seq<int>,
    k: int,
)
    requires
        visited.len() == w * h,
        0 <= c0 < w * h,
        visited[c0],
        is_walk(orig, w, h, source, p),
        p[0] == c0,
        0 <= k < p.len(),
        forall|c2: int, d: int|
            0 <= c2 < w * h && visited[c2] && tile_at(orig, c2) == source && #[trigger] adjacent(w, h, c2, d) ==> visited[d],
    ensures
        visited[p[k]],
    decreases k,
{
    if k > 0 {
        lemma_walk_visited(orig, w, h, source, c0, visited, p, k - 1);
        assert(adjacent(w, h, p[k - 1], p[k]));
        assert(tile_at(orig, p[k - 1]) == source);
    }
}

/// The cells that share an edge with column `x`, row `y`.
proof fn lemma_neighbours(w: int, h: int, x: int, y: int, d: int)
    requires
        0 <= x < w,
        0 <= y < h,
        adjacent(w, h, y * w + x, d),
    ensures
        (x > 0 && d == y * w + (x - 1)) || (x + 1 < w && d == y * w + (x + 1)) || (y > 0 && d == (y - 1) * w + x)
            || (y + 1 < h && d == (y + 1) * w + x),
{
    lemma_cell(x, y, w);
    vstd::arithmetic::div_mod::lemma_fundamental_div_mod(d, w);
    vstd::arithmetic::div_mod::lemma_mod_bound(d, w);
    let dx = d % w;
    let dy = d / w;
    assert(dy * w == w * dy) by (nonlinear_arith);
    assert((y - 1) * w == y * w - w) by (nonlinear_arith);
    assert((y + 1) * w == y * w + w) by (nonlinear_arith);
    assert(d == dy * w + dx);
}

/// A pushed neighbour of column `x`, row `y` shares an edge with it and
/// lies in the grid.
proof fn lemma_pushed_neighbour(w: int, h: int, x: int, y: int, p: (usize, usize))
    requires
        w <= usize::MAX,
        h <= usize::MAX,
        0 <= x < w,
        0 <= y < h,
        (x > 0 && p == ((x - 1) as usize, y as usize)) || (x + 1 < w && p == ((x + 1) as usize, y as usize)) || (
        y > 0 && p == (x as usize, (y - 1) as usize)) || (y + 1 < h && p == (x as usize, (y + 1) as usize)),
    ensures
        adjacent(w, h, y * w + x, cell_of(p, w)),
        p.0 < w && p.1 < h,
{
    lemma_cell(x, y, w);
    assert(p.0 < w && p.1 < h);
    lemma_cell(p.0 as int, p.1 as int, w);
    assert(y * w + x < w * h) by (nonlinear_arith)
        requires
            0 <= x < w,
            0 <= y < h,
    ;
    assert(p.1 * w + p.0 < w * h) by (nonlinear_arith)
        requires
            p.0 < w,
            p.1 < h,
    ;
    let a = y * w + x;
    let b = cell_of(p, w);
    assert(a / w == y && a % w == x);
    assert(b / w == p.1 && b % w == p.0);
}

proof fn lemma_trues_zero(n: int)
    requires
        n >= 0,
    ensures
        trues(Seq::new(n as nat, |i: int| false), n) == 0,
    decreases n,
{
    if n > 0 {
        lemma_trues_same(Seq::new(n as nat, |i: int| false), Seq::new((n - 1) as nat, |i: int| false), n - 1);
        lemma_trues_zero(n - 1);
    }
}


/// Law: after a fill the start cell holds the new tile, so filling from it
/// again with the same tile changes nothing.
pub proof fn lemma_fill_covers_start(tiles: Seq<u16>, w: int, h: int, start: int, replacement: u16)
    requires
        0 <= start < w * h,
        start < tiles.len(),
    ensures
        flood_filled(tiles, w, h, start, replacement)[start] == replacement,
{
    let p = seq![start];
    assert(is_walk(tiles, w, h, tiles[start], p));
    assert(reachable(tiles, w, h, tiles[start], start, start));
}

/// Law: on a layer with a tile for every cell of its `w` by `h` grid, no
/// cell that a fill reaches lies past the layer's end.
pub proof fn lemma_full_layer_fill_in_range(tiles: Seq<u16>, w: int, h: int, source: u16, start: int, i: int)
    requires
        w * h <= tiles.len(),
        reachable(tiles, w, h, source, start, i),
    ensures
        0 <= i < tiles.len(),
{
    let p = choose|p: Seq<int>| #[trigger] is_walk(tiles, w, h, source, p) && p[0] == start && p.last() == i;
    assert(p[p.len() - 1] == i);
}

} // verus!
