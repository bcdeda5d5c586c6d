//! Fresh ids for copies: a copy of something whose id slugs to `s` is
//! named `s_copy`, or `s_copy_2`, `s_copy_3`, ... when that is taken.
use vstd::prelude::*;
use vstd::string::StringExecFns;
use crate::layers::{lemma_decimal_injective, lemma_decimal_nonempty};
use crate::project::{SceneResource, TileLayer};
use crate::text::{decimal, push_decimal, str_equal};
use crate::usage::{count_true, lemma_count_le};

verus! {

/// The ids of strings.
pub open spec fn id_views(v: Seq<String>) -> Seq<Seq<char>> {
    v.map_values(|x: String| x@)
}

/// Whether `ids` holds `id`.
pub fn holds(ids: &Vec<String>, id: &str) -> (r: bool)
    ensures
        r == id_views(ids@).contains(id@),
{
    let mut i: usize = 0;
    while i < ids.len()
        invariant
            i <= ids@.len(),
            forall|j: int| 0 <= j < i ==> ids@[j]@ != id@,
        decreases ids@.len() - i,
    {
        if str_equal(ids[i].as_str(), id) {
            assert(id_views(ids@)[i as int] == id@);
            return true;
        }
        i = i + 1;
    }
    proof {
        if id_views(ids@).contains(id@) {
            let k = choose|k: int| 0 <= k < id_views(ids@).len() && id_views(ids@)[k] == id@;
            assert(ids@[k]@ == id@);
        }
    }
    false
}

/// The `k`-th name tried for a copy (counting from one): `<slug>_copy`,
/// then `<slug>_copy_<k>`.
pub open spec fn copy_name(slug: Seq<char>, k: nat) -> Seq<char> {
    if k <= 1 {
        slug + "_copy"@
    } else {
        slug + "_copy_"@ + decimal(k)
    }
}

/// `k` is the first try, from one, whose name `existing` lacks.
pub open spec fn first_free_copy(existing: Seq<Seq<char>>, slug: Seq<char>, k: nat) -> bool {
    &&& k >= 1
    &&& !existing.contains(copy_name(slug, k))
    &&& forall|m: nat| 1 <= m < k ==> existing.contains(#[trigger] copy_name(slug, m))
}

/// The name a copy gets among `existing`: the first free try.
pub open spec fn fresh_copy(existing: Seq<Seq<char>>, slug: Seq<char>) -> Seq<char> {
    copy_name(slug, choose|k: nat| first_free_copy(existing, slug, k))
}

/// The names copies get, one after another, whose ids slug to `slugs`:
/// each the first free try among `taken` and the names given before it.
pub open spec fn pasted_ids(taken: Seq<Seq<char>>, slugs: Seq<Seq<char>>) -> Seq<Seq<char>>
    decreases slugs.len(),
{
    if slugs.len() == 0 {
        Seq::empty()
    } else {
        let prev = pasted_ids(taken, slugs.drop_last());
        prev.push(fresh_copy(taken + prev, slugs.last()))
    }
}

proof fn lemma_first_free_unique(existing: Seq<Seq<char>>, slug: Seq<char>, a: nat, b: nat)
    requires
        first_free_copy(existing, slug, a),
        first_free_copy(existing, slug, b),
    ensures
        a == b,
{
    if a < b {
        assert(existing.contains(copy_name(slug, a)));
    } else if b < a {
        assert(existing.contains(copy_name(slug, b)));
    }
}

proof fn lemma_copy_name_injective(slug: Seq<char>, a: nat, b: nat)
    requires
        a >= 1,
        b >= 1,
        copy_name(slug, a) == copy_name(slug, b),
    ensures
        a == b,
{
    reveal_strlit("_copy");
    reveal_strlit("_copy_");
    assert("_copy"@.len() == 5);
    assert("_copy_"@.len() == 6);
    if a >= 2 && b >= 2 {
        let p = slug + "_copy_"@;
        assert(copy_name(slug, a).skip(p.len() as int) =~= decimal(a));
        assert(copy_name(slug, b).skip(p.len() as int) =~= decimal(b));
        lemma_decimal_injective(a, b);
    } else if a >= 2 {
        lemma_decimal_nonempty(a);
        assert(copy_name(slug, a) == slug + "_copy_"@ + decimal(a));
        assert(copy_name(slug, b) == slug + "_copy"@);
        assert((slug + "_copy_"@ + decimal(a)).len() == slug.len() + 6 + decimal(a).len());
    } else if b >= 2 {
        lemma_decimal_nonempty(b);
        assert(copy_name(slug, b) == slug + "_copy_"@ + decimal(b));
        assert(copy_name(slug, a) == slug + "_copy"@);
        assert((slug + "_copy_"@ + decimal(b)).len() == slug.len() + 6 + decimal(b).len());
    }
}

/// Which of `existing` are among the first `n - 1` tries.
spec fn copy_hits(existing: Seq<Seq<char>>, slug: Seq<char>, n: nat) -> Seq<bool> {
    Seq::new(existing.len(), |i: int| exists|m: nat| 1 <= m < n && existing[i] == #[trigger] copy_name(slug, m))
}

proof fn lemma_count_grows(a: Seq<bool>, b: Seq<bool>, j: int)
    requires
        a.len() == b.len(),
        forall|i: int| 0 <= i < a.len() && #[trigger] a[i] ==> b[i],
        0 <= j < a.len(),
        b[j] && !a[j],
    ensures
        count_true(b) >= count_true(a) + 1,
    decreases a.len(),
{
    if j < a.len() - 1 {
        lemma_count_grows(a.drop_last(), b.drop_last(), j);
    } else {
        lemma_count_mono(a.drop_last(), b.drop_last());
    }
}

proof fn lemma_count_mono(a: Seq<bool>, b: Seq<bool>)
    requires
        a.len() == b.len(),
        forall|i: int| 0 <= i < a.len() && #[trigger] a[i] ==> b[i],
    ensures
        count_true(b) >= count_true(a),
    decreases a.len(),
{
    if a.len() > 0 {
        lemma_count_mono(a.drop_last(), b.drop_last());
    }
}

/// The `k`-th name tried for a copy.
fn copy_name_string(slug: &str, k: usize) -> (s: String)
    ensures
        s@ == copy_name(slug@, k as nat),
{
    let mut s = slug.to_string();
    if k <= 1 {
        s.append("_copy");
    } else {
        s.append("_copy_");
        push_decimal(&mut s, k as u128);
    }
    s
}

/// The first name for a copy that `existing` does not hold: `<slug>_copy`,
/// else `<slug>_copy_2`, `<slug>_copy_3`, and so on. `slug` is the slug
/// of the id being copied.
pub fn next_unique_layer_id(existing: &Vec<String>, slug: &str) -> (id: String)
    requires
        existing@.len() < usize::MAX,
    ensures
        exists|k: nat| #[trigger] first_free_copy(id_views(existing@), slug@, k) && id@ == copy_name(slug@, k),
        id@ == fresh_copy(id_views(existing@), slug@),
        !id_views(existing@).contains(id@),
{
    let ghost ids = id_views(existing@);
    let len = existing.len();
    let mut n: usize = 1;
    let mut id = copy_name_string(slug, n);
    while holds(existing, id.as_str())
        invariant
            ids == id_views(existing@),
            len == ids.len(),
            len < usize::MAX,
            1 <= n <= len + 1,
            id@ == copy_name(slug@, n as nat),
            forall|m: nat| 1 <= m < n ==> ids.contains(#[trigger] copy_name(slug@, m)),
            count_true(copy_hits(ids, slug@, n as nat)) >= n - 1,
        decreases len + 1 - n,
    {
        proof {
            let a = copy_hits(ids, slug@, n as nat);
            let b = copy_hits(ids, slug@, (n + 1) as nat);
            let j = choose|j: int| 0 <= j < ids.len() && ids[j] == copy_name(slug@, n as nat);
            assert forall|i: int| 0 <= i < a.len() && #[trigger] a[i] implies b[i] by {
                let m = choose|m: nat| 1 <= m < n && ids[i] == #[trigger] copy_name(slug@, m);
                assert(1 <= m < n + 1 && ids[i] == copy_name(slug@, m));
            }
            assert(b[j]) by {
                assert(1 <= n < n + 1 && ids[j] == copy_name(slug@, n as nat));
            }
            assert(!a[j]) by {
                if a[j] {
                    let m = choose|m: nat| 1 <= m < n && ids[j] == #[trigger] copy_name(slug@, m);
                    lemma_copy_name_injective(slug@, m, n as nat);
                }
            }
            lemma_count_grows(a, b, j);
            lemma_count_le(b);
        }
        n = n + 1;
        id = copy_name_string(slug, n);
    }
    assert(first_free_copy(ids, slug@, n as nat));
    proof {
        let k = choose|k: nat| first_free_copy(ids, slug@, k);
        lemma_first_free_unique(ids, slug@, k, n as nat);
    }
    id
}

/// Like [`next_unique_layer_id`], and records the new id in `existing`.
pub fn next_unique_copy_id(existing: &mut Vec<String>, slug: &str) -> (id: String)
    requires
        old(existing)@.len() < usize::MAX,
    ensures
        exists|k: nat| #[trigger] first_free_copy(id_views(old(existing)@), slug@, k) && id@ == copy_name(slug@, k),
        id@ == fresh_copy(id_views(old(existing)@), slug@),
        !id_views(old(existing)@).contains(id@),
        id_views(final(existing)@) == id_views(old(existing)@).push(id@),
        final(existing)@.len() == old(existing)@.len() + 1,
{
    let id = next_unique_layer_id(existing, slug);
    let ghost before = existing@;
    existing.push(id.clone());
    assert(id_views(existing@) =~= id_views(before).push(id@));
    id
}

/// The ids after renaming duplicates in order: an id that an earlier item
/// already has is replaced by the first free copy name among the ids kept
/// so far, `slugs` holding the slug of each id.
pub open spec fn deduped_ids(ids: Seq<Seq<char>>, slugs: Seq<Seq<char>>) -> Seq<Seq<char>>
    decreases ids.len(),
{
    if ids.len() == 0 {
        Seq::empty()
    } else {
        let prev = deduped_ids(ids.drop_last(), slugs.drop_last());
        if prev.contains(ids.last()) {
            prev.push(fresh_copy(prev, slugs.last()))
        } else {
            prev.push(ids.last())
        }
    }
}

proof fn lemma_deduped_len(ids: Seq<Seq<char>>, slugs: Seq<Seq<char>>)
    ensures
        deduped_ids(ids, slugs).len() == ids.len(),
    decreases ids.len(),
{
    if ids.len() > 0 {
        lemma_deduped_len(ids.drop_last(), slugs.drop_last());
    }
}

/// Renames every id that an earlier one already has, in order, to the
/// first free copy name among the ids kept before it; `slugs` holds the
/// slug of each id. Afterwards no two ids are equal. Whether any id was
/// renamed.
pub fn rename_duplicate_ids(ids: &mut Vec<String>, slugs: &Vec<String>) -> (renamed: bool)
    requires
        old(ids)@.len() == slugs@.len(),
        old(ids)@.len() < usize::MAX,
    ensures
        final(ids)@.len() == old(ids)@.len(),
        id_views(final(ids)@) == deduped_ids(id_views(old(ids)@), id_views(slugs@)),
        id_views(final(ids)@).no_duplicates(),
        renamed <==> id_views(final(ids)@) != id_views(old(ids)@),
{
    let ghost orig = id_views(ids@);
    let ghost sl = id_views(slugs@);
    let mut seen: Vec<String> = Vec::new();
    let mut renamed = false;
    let mut i: usize = 0;
    while i < ids.len()
        invariant
            orig.len() == ids@.len(),
            sl == id_views(slugs@),
            sl.len() == orig.len(),
            orig.len() < usize::MAX,
            i <= orig.len(),
            id_views(seen@) == deduped_ids(orig.take(i as int), sl.take(i as int)),
            id_views(seen@) == id_views(ids@).take(i as int),
            id_views(ids@).skip(i as int) == orig.skip(i as int),
            id_views(seen@).no_duplicates(),
            renamed <==> id_views(ids@) != orig,
        decreases orig.len() - i,
    {
        proof {
            lemma_deduped_len(orig.take(i as int), sl.take(i as int));
            assert(orig.take(i + 1).drop_last() =~= orig.take(i as int));
            assert(sl.take(i + 1).drop_last() =~= sl.take(i as int));
            assert(id_views(ids@)[i as int] == orig[i as int]) by {
                assert(id_views(ids@).skip(i as int)[0] == orig.skip(i as int)[0]);
            }
        }
        let ghost before = ids@;
        let ghost seen_before = id_views(seen@);
        if holds(&seen, ids[i].as_str()) {
            let fresh = next_unique_layer_id(&seen, slugs[i].as_str());
            proof {
                assert(fresh@ != orig[i as int]);
            }
            ids.set(i, fresh);
            renamed = true;
            proof {
                assert(id_views(ids@) =~= id_views(before).update(i as int, fresh@));
                assert(id_views(ids@)[i as int] != orig[i as int]);
            }
        } else {
            proof {
                if renamed {
                    assert(id_views(ids@) != orig);
                }
            }
        }
        let ghost mid = ids@;
        seen.push(ids[i].clone());
        proof {
            assert(id_views(seen@) =~= seen_before.push(id_views(ids@)[i as int]));
            assert(id_views(seen@) =~= id_views(ids@).take(i + 1));
            assert(id_views(ids@).skip(i + 1) =~= orig.skip(i + 1)) by {
                assert forall|q: int| 0 <= q < orig.len() - (i + 1) implies #[trigger] id_views(ids@).skip(i + 1)[q] == orig.skip(
                    i + 1,
                )[q] by {
                    assert(id_views(ids@)[i + 1 + q] == id_views(before)[i + 1 + q]);
                    assert(id_views(before).skip(i as int)[q + 1] == orig.skip(i as int)[q + 1]);
                }
            }
            assert(!seen_before.contains(id_views(ids@)[i as int]));
        }
        i = i + 1;
    }
    proof {
        assert(orig.take(i as int) =~= orig);
        assert(sl.take(i as int) =~= sl);
        assert(id_views(ids@).take(i as int) =~= id_views(ids@));
    }
    renamed
}

/// The names that copies get, one after another, among `taken`: each the
/// first free copy name of its slug among `taken` and the names given
/// before it.
pub fn pasted_id_strings(taken: &Vec<String>, slugs: &Vec<String>) -> (ids: Vec<String>)
    requires
        taken@.len() + slugs@.len() < usize::MAX,
    ensures
        id_views(ids@) == pasted_ids(id_views(taken@), id_views(slugs@)),
        ids@.len() == slugs@.len(),
        forall|j: int| 0 <= j < ids@.len() ==> !id_views(taken@).contains(#[trigger] ids@[j]@),
        id_views(ids@).no_duplicates(),
{
    let ghost t0 = id_views(taken@);
    let ghost sl = id_views(slugs@);
    let mut seen: Vec<String> = Vec::new();
    let mut i: usize = 0;
    while i < taken.len()
        invariant
            i <= taken@.len(),
            id_views(seen@) == t0.take(i as int),
            t0 == id_views(taken@),
        decreases taken@.len() - i,
    {
        let ghost prev = id_views(seen@);
        seen.push(taken[i].clone());
        assert(id_views(seen@) =~= prev.push(taken@[i as int]@));
        assert(t0.take(i + 1) =~= t0.take(i as int).push(t0[i as int]));
        i = i + 1;
    }
    assert(t0.take(i as int) =~= t0);
    assert(seen@.len() == id_views(seen@).len());
    let mut ids: Vec<String> = Vec::new();
    let mut j: usize = 0;
    while j < slugs.len()
        invariant
            t0 == id_views(taken@),
            sl == id_views(slugs@),
            t0.len() + sl.len() < usize::MAX,
            j <= sl.len(),
            id_views(ids@) == pasted_ids(t0, sl.take(j as int)),
            ids@.len() == j,
            seen@.len() == t0.len() + j,
            id_views(seen@) == t0 + id_views(ids@),
            forall|q: int| 0 <= q < ids@.len() ==> !t0.contains(#[trigger] ids@[q]@),
            id_views(ids@).no_duplicates(),
        decreases sl.len() - j,
    {
        let ghost seen_before = id_views(seen@);
        let fresh = next_unique_copy_id(&mut seen, slugs[j].as_str());
        let ghost prev = id_views(ids@);
        let ghost prev_ids = ids@;
        ids.push(fresh);
        proof {
            assert forall|q: int| 0 <= q < ids@.len() implies !t0.contains(#[trigger] ids@[q]@) by {
                if q < j {
                    assert(ids@[q] == prev_ids[q]);
                } else {
                    if t0.contains(fresh@) {
                        let k = choose|k: int| 0 <= k < t0.len() && t0[k] == fresh@;
                        assert(seen_before[k] == fresh@);
                    }
                }
            }
            assert forall|a: int, b: int| 0 <= a < b < id_views(ids@).len() implies id_views(ids@)[a] != id_views(ids@)[b] by {
                assert(id_views(ids@)[a] == prev[a]);
                if b == j {
                    assert(id_views(ids@)[b] == fresh@);
                    assert(seen_before[t0.len() + a] == prev[a]);
                    if fresh@ == prev[a] {
                        assert(seen_before.contains(fresh@));
                    }
                } else {
                    assert(id_views(ids@)[b] == prev[b]);
                }
            }
            assert(sl.take(j + 1).drop_last() =~= sl.take(j as int));
            assert(id_views(ids@) =~= prev.push(fresh@));
            assert(id_views(seen@) =~= t0 + id_views(ids@));
        }
        j = j + 1;
    }
    assert(sl.take(j as int) =~= sl);
    ids
}

/// The ids of a scene's layers.
pub open spec fn layer_ids(layers: Seq<TileLayer>) -> Seq<Seq<char>> {
    layers.map_values(|l: TileLayer| l.id@)
}

/// A copy of layer `k` placed right after it, named by
/// [`next_unique_layer_id`] among the scene's layer ids, where `slug` is
/// the slug of the copied layer's id. The index of the copy and its id;
/// `None`, with the scene unchanged, when there is no layer `k`.
pub fn duplicate_layer(scene: &mut SceneResource, k: usize, slug: &str) -> (r: Option<(usize, String)>)
    requires
        old(scene).layers@.len() < usize::MAX,
    ensures
        k >= old(scene).layers@.len() ==> r is None && *final(scene) == *old(scene),
        k < old(scene).layers@.len() ==> match r {
            None => false,
            Some((at, id)) => {
                let before = old(scene).layers@;
                let copy = final(scene).layers@[k + 1];
                &&& at == k + 1
                &&& exists|n: nat| #[trigger] first_free_copy(layer_ids(before), slug@, n) && id@ == copy_name(slug@, n)
                &&& final(scene).layers@.len() == before.len() + 1
                &&& final(scene).layers@.take(k + 1) == before.take(k + 1)
                &&& final(scene).layers@.skip(k + 2) == before.skip(k + 1)
                &&& copy.id@ == id@
                &&& copy.tileset_id@ == before[k as int].tileset_id@
                &&& copy.visible == before[k as int].visible
                &&& copy.parallax_x == before[k as int].parallax_x
                &&& copy.parallax_y == before[k as int].parallax_y
                &&& copy.tiles@ == before[k as int].tiles@
                &&& crate::scene_edit::same_apart_from_cells(*final(scene), *old(scene))
                &&& final(scene).collision == old(scene).collision
            },
        },
{
    if k >= scene.layers.len() {
        return None;
    }
    let ghost before = scene.layers@;
    let mut ids: Vec<String> = Vec::new();
    let mut i: usize = 0;
    while i < scene.layers.len()
        invariant
            before == scene.layers@,
            i <= before.len(),
            id_views(ids@) == layer_ids(before).take(i as int),
        decreases before.len() - i,
    {
        let ghost prev = id_views(ids@);
        ids.push(scene.layers[i].id.clone());
        proof {
            assert(id_views(ids@) =~= prev.push(before[i as int].id@));
            assert(layer_ids(before).take(i + 1) =~= layer_ids(before).take(i as int).push(before[i as int].id@));
        }
        i = i + 1;
    }
    assert(layer_ids(before).take(i as int) =~= layer_ids(before));
    let id = next_unique_layer_id(&ids, slug);
    let source = &scene.layers[k];
    let tiles = source.tiles.clone();
    assert(tiles@ =~= source.tiles@);
    let copy = TileLayer {
        id: id.clone(),
        tileset_id: source.tileset_id.clone(),
        visible: source.visible,
        parallax_x: source.parallax_x,
        parallax_y: source.parallax_y,
        tiles,
    };
    scene.layers.insert(k + 1, copy);
    proof {
        assert(scene.layers@ == before.insert(k + 1, copy));
        assert(scene.layers@.take(k + 1) =~= before.take(k + 1));
        assert(scene.layers@.skip(k + 2) =~= before.skip(k + 1));
    }
    Some((k + 1, id))
}

} // verus!
