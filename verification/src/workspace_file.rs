//! The stored workspace: the current dock layout and the layouts saved
//! under a name, kept in a normal form before they are written or used.
use vstd::prelude::*;
use crate::editor::{ascii_lower, to_ascii_lower};
use crate::events::{all_whitespace, is_blank, spec_trim, trimmed};
use crate::workspace::{view_normalized, DockLayout, LayoutView};

verus! {

/// A dock layout saved under a name.
#[derive(Debug, Clone)]
pub struct SavedDockLayout {
    pub name: String,
    pub layout: DockLayout,
}

/// What a saved layout holds.
#[verifier::ext_equal]
pub ghost struct SavedView {
    pub name: Seq<char>,
    pub layout: LayoutView,
}

impl View for SavedDockLayout {
    type V = SavedView;

    open spec fn view(&self) -> SavedView {
        SavedView { name: self.name@, layout: self.layout@ }
    }
}

/// The workspace file: the current layout, the saved ones, and the name
/// of the saved layout in use, if any.
#[derive(Debug, Clone)]
pub struct WorkspaceFile {
    pub current_layout: DockLayout,
    pub saved_layouts: Vec<SavedDockLayout>,
    pub active_saved_layout: Option<String>,
}

/// The views of saved layouts.
pub open spec fn saved_views(s: Seq<SavedDockLayout>) -> Seq<SavedView> {
    s.map_values(|l: SavedDockLayout| l@)
}

/// `a` comes before `b` in lexicographic order of their characters, which
/// is the byte order of their UTF-8 forms.
pub open spec fn name_less(a: Seq<char>, b: Seq<char>) -> bool
    decreases a.len(),
{
    if b.len() == 0 {
        false
    } else if a.len() == 0 {
        true
    } else if a[0] != b[0] {
        (a[0] as u32) < (b[0] as u32)
    } else {
        name_less(a.drop_first(), b.drop_first())
    }
}

/// The two names are equal once ASCII letters are lowercased.
pub open spec fn same_name_ignoring_case(a: Seq<char>, b: Seq<char>) -> bool {
    a.len() == b.len() && forall|i: int| 0 <= i < a.len() ==> ascii_lower(#[trigger] a[i]) == ascii_lower(b[i])
}

/// The saved layouts whose names are not blank, in order.
pub open spec fn named_only(s: Seq<SavedView>) -> Seq<SavedView>
    decreases s.len(),
{
    if s.len() == 0 {
        s
    } else if all_whitespace(s.last().name) {
        named_only(s.drop_last())
    } else {
        named_only(s.drop_last()).push(s.last())
    }
}

/// `x` inserted into `s` after every entry whose name does not come after
/// its own.
pub open spec fn insert_by_name(s: Seq<SavedView>, x: SavedView) -> Seq<SavedView>
    decreases s.len(),
{
    if s.len() == 0 || !name_less(x.name, s.last().name) {
        s.push(x)
    } else {
        insert_by_name(s.drop_last(), x).push(s.last())
    }
}

/// The stable sort of saved layouts by name.
pub open spec fn sorted_by_name(s: Seq<SavedView>) -> Seq<SavedView>
    decreases s.len(),
{
    if s.len() == 0 {
        s
    } else {
        insert_by_name(sorted_by_name(s.drop_last()), s.last())
    }
}

/// Consecutive entries whose names are equal ignoring ASCII case are
/// reduced to the first of them.
pub open spec fn dedup_names(s: Seq<SavedView>) -> Seq<SavedView>
    decreases s.len(),
{
    if s.len() == 0 {
        s
    } else {
        let r = dedup_names(s.drop_last());
        if r.len() > 0 && same_name_ignoring_case(s.last().name, r.last().name) {
            r
        } else {
            r.push(s.last())
        }
    }
}

/// A saved layout with its layout normalized.
pub open spec fn normalize_saved(v: SavedView) -> SavedView {
    SavedView { name: v.name, layout: view_normalized(v.layout) }
}

/// The saved layouts of a normalized workspace file.
pub open spec fn normalized_saved(s: Seq<SavedView>) -> Seq<SavedView> {
    dedup_names(sorted_by_name(named_only(s))).map_values(|v: SavedView| normalize_saved(v))
}

/// Some saved layout is named `name`, ignoring ASCII case.
pub open spec fn names_layout(s: Seq<SavedView>, name: Seq<char>) -> bool {
    exists|i: int| 0 <= i < s.len() && same_name_ignoring_case(#[trigger] s[i].name, name)
}

/// Whether `a` comes before `b`.
pub fn names_in_order(a: &str, b: &str) -> (r: bool)
    ensures
        r == name_less(a@, b@),
{
    let n = a.unicode_len();
    let m = b.unicode_len();
    let mut i: usize = 0;
    assert(a@.skip(0) =~= a@);
    assert(b@.skip(0) =~= b@);
    while i < n && i < m
        invariant
            n == a@.len(),
            m == b@.len(),
            i <= n,
            i <= m,
            a@.subrange(0, i as int) == b@.subrange(0, i as int),
            name_less(a@, b@) == name_less(a@.skip(i as int), b@.skip(i as int)),
        decreases n - i,
    {
        let ca = a.get_char(i);
        let cb = b.get_char(i);
        assert(a@.skip(i as int)[0] == ca && b@.skip(i as int)[0] == cb);
        if ca != cb {
            return (ca as u32) < (cb as u32);
        }
        assert(a@.skip(i as int).drop_first() =~= a@.skip(i + 1));
        assert(b@.skip(i as int).drop_first() =~= b@.skip(i + 1));
        assert(a@.subrange(0, i + 1) =~= a@.subrange(0, i as int).push(ca));
        assert(b@.subrange(0, i + 1) =~= b@.subrange(0, i as int).push(cb));
        i = i + 1;
    }
    i < m
}

/// Whether two names are equal ignoring ASCII case.
pub fn names_match_ignoring_case(a: &str, b: &str) -> (r: bool)
    ensures
        r == same_name_ignoring_case(a@, b@),
{
    let n = a.unicode_len();
    if n != b.unicode_len() {
        return false;
    }
    let mut i: usize = 0;
    while i < n
        invariant
            n == a@.len(),
            n == b@.len(),
            i <= n,
            forall|j: int| 0 <= j < i ==> ascii_lower(#[trigger] a@[j]) == ascii_lower(b@[j]),
        decreases n - i,
    {
        if to_ascii_lower(a.get_char(i)) != to_ascii_lower(b.get_char(i)) {
            return false;
        }
        i = i + 1;
    }
    true
}

/// `x` inserted by name into a sorted vector.
fn insert_sorted(v: &mut Vec<SavedDockLayout>, x: SavedDockLayout)
    ensures
        saved_views(final(v)@) == insert_by_name(saved_views(old(v)@), x@),
{
    let mut tail: Vec<SavedDockLayout> = Vec::new();
    let ghost target = insert_by_name(saved_views(old(v)@), x@);
    loop
        invariant
            target == insert_by_name(saved_views(v@), x@) + saved_views(tail@).reverse(),
        ensures
            target == insert_by_name(saved_views(v@), x@) + saved_views(tail@).reverse(),
            v@.len() == 0 || !name_less(x@.name, saved_views(v@).last().name),
        decreases v@.len(),
    {
        if v.len() == 0 {
            break;
        }
        let last_index = v.len() - 1;
        if !names_in_order(x.name.as_str(), v[last_index].name.as_str()) {
            assert(saved_views(v@).last() == v@[last_index as int]@);
            break;
        }
        let ghost before_v = saved_views(v@);
        let ghost before_tail = saved_views(tail@);
        let last = v.pop().unwrap();
        tail.push(last);
        proof {
            assert(saved_views(v@) =~= before_v.drop_last());
            assert(saved_views(tail@) =~= before_tail.push(before_v.last()));
            assert(saved_views(tail@).reverse() =~= seq![before_v.last()] + before_tail.reverse());
            assert(insert_by_name(before_v, x@) == insert_by_name(before_v.drop_last(), x@).push(
                before_v.last(),
            ));
            assert(insert_by_name(before_v, x@) + before_tail.reverse() =~= insert_by_name(
                saved_views(v@),
                x@,
            ) + saved_views(tail@).reverse());
        }
    }
    let ghost vs = saved_views(v@);
    assert(insert_by_name(vs, x@) == vs.push(x@));
    v.push(x);
    assert(saved_views(v@) =~= vs.push(x@));
    while tail.len() > 0
        invariant
            target == saved_views(v@) + saved_views(tail@).reverse(),
        decreases tail@.len(),
    {
        let ghost before_v = saved_views(v@);
        let ghost before_tail = saved_views(tail@);
        let item = tail.pop().unwrap();
        v.push(item);
        proof {
            assert(saved_views(tail@) =~= before_tail.drop_last());
            assert(saved_views(v@) =~= before_v.push(before_tail.last()));
            assert(before_tail.reverse() =~= seq![before_tail.last()] + before_tail.drop_last().reverse());
            assert(saved_views(v@) + saved_views(tail@).reverse() =~= before_v + before_tail.reverse());
        }
    }
    assert(saved_views(tail@).reverse() =~= Seq::<SavedView>::empty());
    assert(saved_views(v@) =~= target);
}

/// Moves every entry of `v` into a new vector, last first.
fn reversed(v: &mut Vec<SavedDockLayout>) -> (r: Vec<SavedDockLayout>)
    ensures
        final(v)@.len() == 0,
        saved_views(r@) == saved_views(old(v)@).reverse(),
{
    let mut r: Vec<SavedDockLayout> = Vec::new();
    let ghost original = saved_views(v@);
    while v.len() > 0
        invariant
            original == saved_views(v@) + saved_views(r@).reverse(),
        decreases v@.len(),
    {
        let ghost before_v = saved_views(v@);
        let ghost before_r = saved_views(r@);
        let item = v.pop().unwrap();
        r.push(item);
        proof {
            assert(saved_views(v@) =~= before_v.drop_last());
            assert(saved_views(r@) =~= before_r.push(before_v.last()));
            assert(saved_views(r@).reverse() =~= seq![before_v.last()] + before_r.reverse());
            assert(before_v =~= before_v.drop_last().push(before_v.last()));
            assert(original =~= saved_views(v@) + saved_views(r@).reverse());
        }
    }
    assert(original =~= saved_views(r@).reverse());
    assert(saved_views(r@) =~= original.reverse());
    r
}

/// The saved layouts, named ones only, stably sorted by name.
fn sort_named(v: &mut Vec<SavedDockLayout>) -> (r: Vec<SavedDockLayout>)
    ensures
        saved_views(r@) == sorted_by_name(named_only(saved_views(old(v)@))),
{
    let ghost original = saved_views(v@);
    let mut queue = reversed(v);
    let mut sorted: Vec<SavedDockLayout> = Vec::new();
    let ghost mut done: Seq<SavedView> = Seq::empty();
    while queue.len() > 0
        invariant
            original == done + saved_views(queue@).reverse(),
            saved_views(sorted@) == sorted_by_name(named_only(done)),
        decreases queue@.len(),
    {
        let ghost before_q = saved_views(queue@);
        let item = queue.pop().unwrap();
        let ghost x = item@;
        proof {
            assert(saved_views(queue@) =~= before_q.drop_last());
            assert(before_q.reverse() =~= seq![x] + saved_views(queue@).reverse());
            assert(done.push(x).drop_last() =~= done);
        }
        if !is_blank(item.name.as_str()) {
            insert_sorted(&mut sorted, item);
            proof {
                assert(named_only(done.push(x)) == named_only(done).push(x));
                assert(named_only(done).push(x).drop_last() =~= named_only(done));
            }
        } else {
            assert(named_only(done.push(x)) == named_only(done));
        }
        proof {
            done = done.push(x);
            assert(original =~= done + saved_views(queue@).reverse());
        }
    }
    assert(done =~= original);
    sorted
}

/// Consecutive layouts with names equal ignoring ASCII case reduced to the
/// first of them, each layout normalized.
fn dedup_and_normalize(v: &mut Vec<SavedDockLayout>) -> (r: Vec<SavedDockLayout>)
    ensures
        saved_views(r@) == dedup_names(saved_views(old(v)@)).map_values(|x: SavedView| normalize_saved(x)),
{
    let ghost original = saved_views(v@);
    let mut queue = reversed(v);
    let mut out: Vec<SavedDockLayout> = Vec::new();
    let ghost mut done: Seq<SavedView> = Seq::empty();
    while queue.len() > 0
        invariant
            original == done + saved_views(queue@).reverse(),
            saved_views(out@) == dedup_names(done).map_values(|x: SavedView| normalize_saved(x)),
        decreases queue@.len(),
    {
        let ghost before_q = saved_views(queue@);
        let ghost before_out = saved_views(out@);
        let item = queue.pop().unwrap();
        let ghost x = item@;
        proof {
            assert(saved_views(queue@) =~= before_q.drop_last());
            assert(before_q.reverse() =~= seq![x] + saved_views(queue@).reverse());
            assert(done.push(x).drop_last() =~= done);
        }
        let r_len = out.len();
        let duplicate = r_len > 0 && names_match_ignoring_case(item.name.as_str(), out[r_len - 1].name.as_str());
        proof {
            let r = dedup_names(done);
            assert(saved_views(out@).len() == out@.len());
            assert(r.map_values(|y: SavedView| normalize_saved(y)).len() == r.len());
            assert(r.len() == out@.len());
            if r.len() > 0 {
                assert(saved_views(out@)[r.len() - 1] == normalize_saved(r.last()));
            }
        }
        if !duplicate {
            let mut item = item;
            item.layout.normalize();
            out.push(item);
            proof {
                assert(saved_views(out@) =~= before_out.push(normalize_saved(x)));
                assert(dedup_names(done.push(x)) == dedup_names(done).push(x));
                assert(dedup_names(done).push(x).map_values(|y: SavedView| normalize_saved(y))
                    =~= dedup_names(done).map_values(|y: SavedView| normalize_saved(y)).push(normalize_saved(x)));
            }
        } else {
            assert(dedup_names(done.push(x)) == dedup_names(done));
        }
        proof {
            done = done.push(x);
            assert(original =~= done + saved_views(queue@).reverse());
        }
    }
    assert(done =~= original);
    out
}

/// Whether a saved layout has the given name, ignoring ASCII case.
fn has_layout_named(layouts: &Vec<SavedDockLayout>, name: &str) -> (r: bool)
    ensures
        r == names_layout(saved_views(layouts@), name@),
{
    let mut i: usize = 0;
    while i < layouts.len()
        invariant
            i <= layouts@.len(),
            forall|j: int| 0 <= j < i ==> !same_name_ignoring_case(#[trigger] saved_views(layouts@)[j].name, name@),
        decreases layouts@.len() - i,
    {
        if names_match_ignoring_case(layouts[i].name.as_str(), name) {
            assert(same_name_ignoring_case(saved_views(layouts@)[i as int].name, name@));
            return true;
        }
        i = i + 1;
    }
    false
}

impl WorkspaceFile {
    /// Normalizes the current layout; keeps the saved layouts whose names
    /// are not blank, sorted by name, one per name ignoring ASCII case,
    /// each normalized; and forgets the layout in use when none of them
    /// has its name.
    pub fn normalize(&mut self)
        ensures
            final(self).current_layout@ == view_normalized(old(self).current_layout@),
            saved_views(final(self).saved_layouts@) == normalized_saved(saved_views(old(self).saved_layouts@)),
            final(self).active_saved_layout == (match old(self).active_saved_layout {
                Some(name) => if names_layout(saved_views(final(self).saved_layouts@), name@) {
                    Some(name)
                } else {
                    None::<String>
                },
                None => None,
            }),
    {
        self.current_layout.normalize();
        let mut sorted = sort_named(&mut self.saved_layouts);
        let kept = dedup_and_normalize(&mut sorted);
        self.saved_layouts = kept;
        let keep_active = match &self.active_saved_layout {
            Some(name) => has_layout_named(&self.saved_layouts, name.as_str()),
            None => true,
        };
        if !keep_active {
            self.active_saved_layout = None;
        }
    }
}

impl Default for WorkspaceFile {
    fn default() -> (f: Self)
        ensures
            f.current_layout@ == crate::workspace::default_layout_view(),
            f.saved_layouts@.len() == 0,
            f.active_saved_layout is None,
    {
        WorkspaceFile { current_layout: DockLayout::default(), saved_layouts: Vec::new(), active_saved_layout: None }
    }
}


pub(crate) proof fn lemma_name_less_asym(a: Seq<char>, b: Seq<char>)
    requires
        name_less(a, b),
    ensures
        !name_less(b, a),
    decreases a.len(),
{
    if a.len() > 0 && b.len() > 0 && a[0] == b[0] {
        lemma_name_less_asym(a.drop_first(), b.drop_first());
    }
}

pub(crate) proof fn lemma_name_less_trans(a: Seq<char>, b: Seq<char>, c: Seq<char>)
    requires
        name_less(a, b),
        name_less(b, c),
    ensures
        name_less(a, c),
    decreases a.len(),
{
    if a.len() > 0 && a[0] == b[0] && b[0] == c[0] {
        lemma_name_less_trans(a.drop_first(), b.drop_first(), c.drop_first());
    }
}

pub(crate) proof fn lemma_name_less_total(a: Seq<char>, b: Seq<char>)
    requires
        !name_less(a, b),
        !name_less(b, a),
    ensures
        a == b,
    decreases a.len(),
{
    if a.len() > 0 && b.len() > 0 {
        if a[0] == b[0] {
            lemma_name_less_total(a.drop_first(), b.drop_first());
            assert(a =~= seq![a[0]] + a.drop_first());
            assert(b =~= seq![b[0]] + b.drop_first());
        } else {
            vstd::utf8::char_u32_cast(a[0], a[0] as u32);
            vstd::utf8::char_u32_cast(b[0], b[0] as u32);
            assert((a[0] as u32) != (b[0] as u32));
        }
    }
    assert(a =~= b);
}

/// `a` does not come after `b`.
proof fn lemma_not_after_trans(a: Seq<char>, b: Seq<char>, c: Seq<char>)
    requires
        !name_less(b, a),
        !name_less(c, b),
    ensures
        !name_less(c, a),
{
    if name_less(c, a) {
        if name_less(a, b) {
            lemma_name_less_trans(c, a, b);
        } else {
            lemma_name_less_total(a, b);
        }
    }
}

/// No saved layout's name comes before that of one earlier.
pub open spec fn names_sorted(x: Seq<SavedView>) -> bool {
    forall|i: int, j: int| 0 <= i < j < x.len() ==> !name_less(#[trigger] x[j].name, #[trigger] x[i].name)
}

/// No two neighbouring saved layouts have names equal ignoring ASCII case.
pub open spec fn names_apart(x: Seq<SavedView>) -> bool {
    forall|i: int| 0 < i < x.len() ==> !same_name_ignoring_case(#[trigger] x[i].name, x[i - 1].name)
}

/// Every saved layout has a name that is not blank.
pub open spec fn all_named(x: Seq<SavedView>) -> bool {
    forall|i: int| 0 <= i < x.len() ==> !all_whitespace(#[trigger] x[i].name)
}

proof fn lemma_named_only_props(s: Seq<SavedView>)
    ensures
        all_named(named_only(s)),
        forall|k: int| 0 <= k < named_only(s).len() ==> s.contains(#[trigger] named_only(s)[k]),
        all_named(s) ==> named_only(s) == s,
    decreases s.len(),
{
    if s.len() > 0 {
        let rest = s.drop_last();
        lemma_named_only_props(rest);
        let r = named_only(rest);
        assert forall|k: int| 0 <= k < r.len() implies s.contains(#[trigger] r[k]) by {
            let m = choose|m: int| 0 <= m < rest.len() && rest[m] == r[k];
            assert(s[m] == r[k]);
        }
        if !all_whitespace(s.last().name) {
            assert(s.contains(s.last())) by {
                assert(s[s.len() - 1] == s.last());
            }
            assert forall|k: int| 0 <= k < r.push(s.last()).len() implies s.contains(#[trigger] r.push(s.last())[k]) by {
                if k < r.len() {
                    assert(r.push(s.last())[k] == r[k]);
                }
            }
        }
        if all_named(s) {
            assert(all_named(rest)) by {
                assert forall|i: int| 0 <= i < rest.len() implies !all_whitespace(#[trigger] rest[i].name) by {
                    assert(rest[i] == s[i]);
                }
            }
            assert(!all_whitespace(s[s.len() - 1].name));
            assert(s =~= rest.push(s.last()));
        }
    }
}

proof fn lemma_insert_props(s: Seq<SavedView>, x: SavedView)
    ensures
        insert_by_name(s, x).len() == s.len() + 1,
        forall|k: int|
            0 <= k < insert_by_name(s, x).len() ==> #[trigger] insert_by_name(s, x)[k] == x || s.contains(
                insert_by_name(s, x)[k],
            ),
        names_sorted(s) ==> names_sorted(insert_by_name(s, x)),
    decreases s.len(),
{
    let out = insert_by_name(s, x);
    if s.len() == 0 || !name_less(x.name, s.last().name) {
        assert forall|k: int| 0 <= k < out.len() implies #[trigger] out[k] == x || s.contains(out[k]) by {
            if k < s.len() {
                assert(out[k] == s[k]);
            }
        }
        if names_sorted(s) {
            assert forall|i: int, j: int| 0 <= i < j < out.len() implies !name_less(
                #[trigger] out[j].name,
                #[trigger] out[i].name,
            ) by {
                if j == s.len() {
                    assert(out[i] == s[i]);
                    if i < s.len() - 1 {
                        lemma_not_after_trans(s[i].name, s.last().name, x.name);
                    }
                } else {
                    assert(out[i] == s[i] && out[j] == s[j]);
                }
            }
        }
    } else {
        let rest = s.drop_last();
        lemma_insert_props(rest, x);
        let r = insert_by_name(rest, x);
        assert(out == r.push(s.last()));
        assert forall|k: int| 0 <= k < out.len() implies #[trigger] out[k] == x || s.contains(out[k]) by {
            if k < r.len() {
                assert(out[k] == r[k]);
                if r[k] != x {
                    let m = choose|m: int| 0 <= m < rest.len() && rest[m] == r[k];
                    assert(s[m] == r[k]);
                }
            } else {
                assert(s[s.len() - 1] == out[k]);
            }
        }
        if names_sorted(s) {
            assert(names_sorted(rest)) by {
                assert forall|i: int, j: int| 0 <= i < j < rest.len() implies !name_less(
                    #[trigger] rest[j].name,
                    #[trigger] rest[i].name,
                ) by {
                    assert(rest[i] == s[i] && rest[j] == s[j]);
                }
            }
            lemma_name_less_asym(x.name, s.last().name);
            assert forall|i: int, j: int| 0 <= i < j < out.len() implies !name_less(
                #[trigger] out[j].name,
                #[trigger] out[i].name,
            ) by {
                if j == r.len() {
                    assert(out[j] == s.last());
                    assert(out[i] == r[i]);
                    if r[i] != x {
                        let m = choose|m: int| 0 <= m < s.len() && s[m] == r[i];
                        if m < s.len() - 1 {
                            assert(!name_less(s[s.len() - 1].name, s[m].name));
                        } else {
                            assert(m == s.len() - 1);
                            let m2 = choose|m2: int| 0 <= m2 < rest.len() && rest[m2] == r[i];
                            assert(!name_less(s[s.len() - 1].name, s[m2].name));
                        }
                    }
                } else {
                    assert(out[i] == r[i] && out[j] == r[j]);
                }
            }
        }
    }
}

proof fn lemma_sorted_props(s: Seq<SavedView>)
    ensures
        names_sorted(sorted_by_name(s)),
        sorted_by_name(s).len() == s.len(),
        forall|k: int| 0 <= k < sorted_by_name(s).len() ==> s.contains(#[trigger] sorted_by_name(s)[k]),
        names_sorted(s) ==> sorted_by_name(s) == s,
    decreases s.len(),
{
    if s.len() > 0 {
        let rest = s.drop_last();
        lemma_sorted_props(rest);
        let r = sorted_by_name(rest);
        lemma_insert_props(r, s.last());
        let out = sorted_by_name(s);
        assert forall|k: int| 0 <= k < out.len() implies s.contains(#[trigger] out[k]) by {
            if out[k] == s.last() {
                assert(s[s.len() - 1] == out[k]);
            } else {
                let m = choose|m: int| 0 <= m < r.len() && r[m] == out[k];
                let m2 = choose|m2: int| 0 <= m2 < rest.len() && rest[m2] == r[m];
                assert(s[m2] == out[k]);
            }
        }
        if names_sorted(s) {
            assert(names_sorted(rest)) by {
                assert forall|i: int, j: int| 0 <= i < j < rest.len() implies !name_less(
                    #[trigger] rest[j].name,
                    #[trigger] rest[i].name,
                ) by {
                    assert(rest[i] == s[i] && rest[j] == s[j]);
                }
            }
            if rest.len() > 0 {
                assert(!name_less(s[s.len() - 1].name, s[s.len() - 2].name));
            }
            assert(s =~= rest.push(s.last()));
        }
    }
}

#[verifier::spinoff_prover]
#[verifier::rlimit(40)]
proof fn lemma_dedup_props(s: Seq<SavedView>)
    ensures
        names_apart(dedup_names(s)),
        forall|k: int| 0 <= k < dedup_names(s).len() ==> s.contains(#[trigger] dedup_names(s)[k]),
        names_sorted(s) ==> names_sorted(dedup_names(s)),
        names_apart(s) ==> dedup_names(s) == s,
    decreases s.len(),
{
    if s.len() > 0 {
        let rest = s.drop_last();
        lemma_dedup_props(rest);
        let r = dedup_names(rest);
        let out = dedup_names(s);
        assert forall|k: int| 0 <= k < r.len() implies s.contains(#[trigger] r[k]) by {
            let m = choose|m: int| 0 <= m < rest.len() && rest[m] == r[k];
            assert(s[m] == r[k]);
        }
        if !(r.len() > 0 && same_name_ignoring_case(s.last().name, r.last().name)) {
            assert(out == r.push(s.last()));
            assert forall|k: int| 0 <= k < out.len() implies s.contains(#[trigger] out[k]) by {
                if k < r.len() {
                    assert(out[k] == r[k]);
                } else {
                    assert(s[s.len() - 1] == out[k]);
                }
            }
            assert forall|i: int| 0 < i < out.len() implies !same_name_ignoring_case(
                #[trigger] out[i].name,
                out[i - 1].name,
            ) by {
                if i < r.len() {
                    assert(out[i] == r[i] && out[i - 1] == r[i - 1]);
                } else {
                    assert(out[i - 1] == r.last());
                }
            }
            if names_sorted(s) {
                assert(names_sorted(rest)) by {
                    assert forall|i: int, j: int| 0 <= i < j < rest.len() implies !name_less(
                        #[trigger] rest[j].name,
                        #[trigger] rest[i].name,
                    ) by {
                        assert(rest[i] == s[i] && rest[j] == s[j]);
                    }
                }
                assert forall|i: int, j: int| 0 <= i < j < out.len() implies !name_less(
                    #[trigger] out[j].name,
                    #[trigger] out[i].name,
                ) by {
                    if j == r.len() {
                        assert(out[i] == r[i]);
                        let m = choose|m: int| 0 <= m < rest.len() && rest[m] == r[i];
                        assert(rest[m] == s[m]);
                        assert(!name_less(s[s.len() - 1].name, s[m].name));
                    } else {
                        assert(out[i] == r[i] && out[j] == r[j]);
                    }
                }
            }
        }
        if names_apart(s) {
            assert(names_apart(rest)) by {
                assert forall|i: int| 0 < i < rest.len() implies !same_name_ignoring_case(
                    #[trigger] rest[i].name,
                    rest[i - 1].name,
                ) by {
                    assert(rest[i] == s[i] && rest[i - 1] == s[i - 1]);
                }
            }
            if rest.len() > 0 {
                assert(!same_name_ignoring_case(s[s.len() - 1].name, s[s.len() - 2].name));
                assert(r.last() == s[s.len() - 2]);
            }
            assert(s =~= rest.push(s.last()));
        }
    }
}

/// Law: normalizing the saved layouts twice gives what normalizing them
/// once gives.
pub proof fn lemma_normalized_saved_idempotent(s: Seq<SavedView>)
    requires
        forall|i: int| 0 <= i < s.len() ==> crate::workspace::layout_valid(#[trigger] s[i].layout),
    ensures
        normalized_saved(normalized_saved(s)) == normalized_saved(s),
{
    let a = named_only(s);
    lemma_named_only_props(s);
    let b = sorted_by_name(a);
    lemma_sorted_props(a);
    let z = dedup_names(b);
    lemma_dedup_props(b);
    let y = normalized_saved(s);
    assert(y == z.map_values(|v: SavedView| normalize_saved(v)));
    assert forall|k: int| 0 <= k < z.len() implies #[trigger] y[k].name == z[k].name
        && crate::workspace::layout_valid(z[k].layout) by {
        let m1 = choose|m: int| 0 <= m < b.len() && b[m] == z[k];
        let m2 = choose|m: int| 0 <= m < a.len() && a[m] == b[m1];
        let m3 = choose|m: int| 0 <= m < s.len() && s[m] == a[m2];
        assert(crate::workspace::layout_valid(s[m3].layout));
    }
    assert(all_named(z)) by {
        assert forall|i: int| 0 <= i < z.len() implies !all_whitespace(#[trigger] z[i].name) by {
            let m1 = choose|m: int| 0 <= m < b.len() && b[m] == z[i];
            let m2 = choose|m: int| 0 <= m < a.len() && a[m] == b[m1];
            assert(!all_whitespace(a[m2].name));
        }
    }
    assert(all_named(y));
    assert(names_sorted(y)) by {
        assert forall|i: int, j: int| 0 <= i < j < y.len() implies !name_less(
            #[trigger] y[j].name,
            #[trigger] y[i].name,
        ) by {
            assert(y[i].name == z[i].name && y[j].name == z[j].name);
        }
    }
    assert(names_apart(y)) by {
        assert forall|i: int| 0 < i < y.len() implies !same_name_ignoring_case(#[trigger] y[i].name, y[i - 1].name) by {
            assert(y[i].name == z[i].name && y[i - 1].name == z[i - 1].name);
        }
    }
    lemma_named_only_props(y);
    lemma_sorted_props(y);
    lemma_dedup_props(y);
    assert forall|k: int| 0 <= k < y.len() implies #[trigger] normalize_saved(y[k]) == y[k] by {
        crate::workspace::lemma_normalize_idempotent(z[k].layout);
    }
    assert(normalized_saved(y) =~= y);
}


/// The index of the first saved layout named `name`, ignoring ASCII case.
#[verifier::opaque]
pub open spec fn first_named(s: Seq<SavedView>, name: Seq<char>) -> Option<int> {
    if names_layout(s, name) {
        Some(
            choose|i: int|
                0 <= i < s.len() && same_name_ignoring_case(#[trigger] s[i].name, name) && forall|j: int|
                    0 <= j < i ==> !same_name_ignoring_case(#[trigger] s[j].name, name),
        )
    } else {
        None
    }
}

/// The saved layouts after storing `x`: it takes the place of the first
/// one with its name, ignoring ASCII case, or joins the end; then they are
/// stably sorted by name.
pub open spec fn stored(s: Seq<SavedView>, x: SavedView) -> Seq<SavedView> {
    sorted_by_name(
        match first_named(s, x.name) {
            Some(i) => s.update(i, x),
            None => s.push(x),
        },
    )
}

/// The saved layouts without those named `name`, ignoring ASCII case.
pub open spec fn without_named(s: Seq<SavedView>, name: Seq<char>) -> Seq<SavedView> {
    s.filter(|v: SavedView| !same_name_ignoring_case(v.name, name))
}

/// The first saved layout named `name`, ignoring ASCII case.
fn find_named(layouts: &Vec<SavedDockLayout>, name: &str) -> (r: Option<usize>)
    ensures
        match r {
            Some(i) => first_named(saved_views(layouts@), name@) == Some(i as int) && i < layouts@.len(),
            None => first_named(saved_views(layouts@), name@) is None,
        },
{
    reveal(first_named);
    let ghost views = saved_views(layouts@);
    let mut i: usize = 0;
    while i < layouts.len()
        invariant
            views == saved_views(layouts@),
            i <= layouts@.len(),
            forall|j: int| 0 <= j < i ==> !same_name_ignoring_case(#[trigger] views[j].name, name@),
        decreases layouts@.len() - i,
    {
        if names_match_ignoring_case(layouts[i].name.as_str(), name) {
            proof {
                assert(same_name_ignoring_case(views[i as int].name, name@));
                assert(0 <= i < views.len() && same_name_ignoring_case(views[i as int].name, name@) && forall|j: int|
                    0 <= j < i ==> !same_name_ignoring_case(#[trigger] views[j].name, name@));
                let w = choose|k: int|
                    0 <= k < views.len() && same_name_ignoring_case(#[trigger] views[k].name, name@) && forall|j: int|
                        0 <= j < k ==> !same_name_ignoring_case(#[trigger] views[j].name, name@);
                reveal(first_named);
                assert(names_layout(views, name@));
                assert(first_named(views, name@) == Some(w));
                if w < i {
                    assert(!same_name_ignoring_case(views[w].name, name@));
                } else if w > i {
                    assert(!same_name_ignoring_case(views[i as int].name, name@));
                }
                assert(w == i);
            }
            return Some(i);
        }
        i = i + 1;
    }
    proof {
        if names_layout(views, name@) {
            let k = choose|k: int| 0 <= k < views.len() && same_name_ignoring_case(#[trigger] views[k].name, name@);
            assert(!same_name_ignoring_case(views[k].name, name@));
        }
    }
    None
}

/// The saved layouts stably sorted by name.
fn sort_by_name(v: &mut Vec<SavedDockLayout>) -> (r: Vec<SavedDockLayout>)
    ensures
        saved_views(r@) == sorted_by_name(saved_views(old(v)@)),
{
    let ghost original = saved_views(v@);
    let mut queue = reversed(v);
    let mut sorted: Vec<SavedDockLayout> = Vec::new();
    let ghost mut done: Seq<SavedView> = Seq::empty();
    while queue.len() > 0
        invariant
            original == done + saved_views(queue@).reverse(),
            saved_views(sorted@) == sorted_by_name(done),
        decreases queue@.len(),
    {
        let ghost before_q = saved_views(queue@);
        let item = queue.pop().unwrap();
        let ghost x = item@;
        proof {
            assert(saved_views(queue@) =~= before_q.drop_last());
            assert(before_q.reverse() =~= seq![x] + saved_views(queue@).reverse());
            assert(done.push(x).drop_last() =~= done);
        }
        insert_sorted(&mut sorted, item);
        proof {
            done = done.push(x);
            assert(original =~= done + saved_views(queue@).reverse());
        }
    }
    assert(done =~= original);
    sorted
}

impl WorkspaceFile {
    /// Saves the current layout under `name`, trimmed: it replaces the
    /// first saved layout of that name, ignoring ASCII case, or is added;
    /// the saved layouts are then sorted by name, and the saved one becomes
    /// the one in use. The trimmed name; `None`, with nothing changed, for
    /// a blank name.
    pub fn save_current_layout(&mut self, name: &str) -> (r: Option<String>)
        ensures
            spec_trim(name@).len() == 0 ==> r is None && saved_views(final(self).saved_layouts@) == saved_views(
                old(self).saved_layouts@,
            ) && final(self).active_saved_layout == old(self).active_saved_layout,
            spec_trim(name@).len() > 0 ==> (r matches Some(n) && n@ == spec_trim(name@) && saved_views(
                final(self).saved_layouts@,
            ) == stored(
                saved_views(old(self).saved_layouts@),
                SavedView { name: n@, layout: old(self).current_layout@ },
            ) && final(self).active_saved_layout == Some(n)),
            final(self).current_layout@ == old(self).current_layout@,
    {
        let trimmed_name = trimmed(name);
        if trimmed_name.unicode_len() == 0 {
            return None;
        }
        let saved = SavedDockLayout { name: trimmed_name.clone(), layout: self.current_layout.copy() };
        let ghost x = saved@;
        let ghost before = saved_views(self.saved_layouts@);
        match find_named(&self.saved_layouts, trimmed_name.as_str()) {
            Some(i) => {
                self.saved_layouts.set(i, saved);
                assert(saved_views(self.saved_layouts@) =~= before.update(i as int, x));
            },
            None => {
                self.saved_layouts.push(saved);
                assert(saved_views(self.saved_layouts@) =~= before.push(x));
            },
        }
        let ghost mid = saved_views(self.saved_layouts@);
        let sorted = sort_by_name(&mut self.saved_layouts);
        assert(saved_views(sorted@) == sorted_by_name(mid));
        self.saved_layouts = sorted;
        self.active_saved_layout = Some(trimmed_name.clone());
        Some(trimmed_name)
    }

    /// Deletes the saved layouts named `name`, ignoring ASCII case, and
    /// forgets the layout in use when it has that name; `false`, with
    /// nothing changed, when no saved layout has it.
    pub fn delete_saved_layout(&mut self, name: &str) -> (removed: bool)
        ensures
            removed == names_layout(saved_views(old(self).saved_layouts@), name@),
            saved_views(final(self).saved_layouts@) == without_named(saved_views(old(self).saved_layouts@), name@),
            final(self).current_layout@ == old(self).current_layout@,
            final(self).active_saved_layout == (match old(self).active_saved_layout {
                Some(active) => if removed && same_name_ignoring_case(active@, name@) {
                    None::<String>
                } else {
                    Some(active)
                },
                None => None,
            }),
    {
        let ghost before = saved_views(self.saved_layouts@);
        let mut old_layouts: Vec<SavedDockLayout> = Vec::new();
        std::mem::swap(&mut old_layouts, &mut self.saved_layouts);
        let mut queue = reversed(&mut old_layouts);
        let mut kept: Vec<SavedDockLayout> = Vec::new();
        let ghost mut done: Seq<SavedView> = Seq::empty();
        let mut removed = false;
        while queue.len() > 0
            invariant
                before == done + saved_views(queue@).reverse(),
                saved_views(kept@) == without_named(done, name@),
                removed == names_layout(done, name@),
            decreases queue@.len(),
        {
            let ghost before_q = saved_views(queue@);
            let item = queue.pop().unwrap();
            let ghost x = item@;
            proof {
                assert(saved_views(queue@) =~= before_q.drop_last());
                assert(before_q.reverse() =~= seq![x] + saved_views(queue@).reverse());
                assert(done.push(x).drop_last() =~= done);
                reveal(Seq::filter);
                assert(without_named(done.push(x), name@) == if !same_name_ignoring_case(x.name, name@) {
                    without_named(done, name@).push(x)
                } else {
                    without_named(done, name@)
                });
            }
            let matched = names_match_ignoring_case(item.name.as_str(), name);
            proof {
                let d2 = done.push(x);
                if matched {
                    assert(same_name_ignoring_case(d2[d2.len() - 1].name, name@));
                } else if names_layout(d2, name@) {
                    let k = choose|k: int| 0 <= k < d2.len() && same_name_ignoring_case(#[trigger] d2[k].name, name@);
                    assert(k < done.len());
                    assert(d2[k] == done[k]);
                }
                if names_layout(done, name@) {
                    let k = choose|k: int| 0 <= k < done.len() && same_name_ignoring_case(#[trigger] done[k].name, name@);
                    assert(d2[k] == done[k]);
                }
            }
            if matched {
                removed = true;
            } else {
                let ghost before_kept = saved_views(kept@);
                kept.push(item);
                assert(saved_views(kept@) =~= before_kept.push(x));
            }
            proof {
                done = done.push(x);
                assert(before =~= done + saved_views(queue@).reverse());
            }
        }
        assert(done =~= before);
        self.saved_layouts = kept;
        if removed {
            let clear = match &self.active_saved_layout {
                Some(active) => names_match_ignoring_case(active.as_str(), name),
                None => false,
            };
            if clear {
                self.active_saved_layout = None;
            }
        }
        removed
    }

    /// Makes the first saved layout named `name`, ignoring ASCII case, the
    /// current layout and the one in use; its name, or `None`, with
    /// nothing changed, when no saved layout has that name.
    pub fn load_saved_layout(&mut self, name: &str) -> (r: Option<String>)
        ensures
            saved_views(final(self).saved_layouts@) == saved_views(old(self).saved_layouts@),
            match first_named(saved_views(old(self).saved_layouts@), name@) {
                Some(i) => {
                    let v = saved_views(old(self).saved_layouts@)[i];
                    &&& r matches Some(n) && n@ == v.name
                    &&& final(self).current_layout@ == v.layout
                    &&& final(self).active_saved_layout == r
                },
                None => r is None && final(self).current_layout@ == old(self).current_layout@
                    && final(self).active_saved_layout == old(self).active_saved_layout,
            },
    {
        match find_named(&self.saved_layouts, name) {
            Some(i) => {
                let layout = self.saved_layouts[i].layout.copy();
                let found = self.saved_layouts[i].name.clone();
                self.current_layout = layout;
                self.active_saved_layout = Some(found.clone());
                Some(found)
            },
            None => None,
        }
    }
}


/// No two saved layouts have names equal ignoring ASCII case.
pub open spec fn names_unique(s: Seq<SavedView>) -> bool {
    forall|i: int, j: int|
        0 <= i < j < s.len() ==> !same_name_ignoring_case(#[trigger] s[i].name, #[trigger] s[j].name)
}

proof fn lemma_same_name_equiv(a: Seq<char>, b: Seq<char>, c: Seq<char>)
    ensures
        same_name_ignoring_case(a, a),
        same_name_ignoring_case(a, b) ==> same_name_ignoring_case(b, a),
        same_name_ignoring_case(a, b) && same_name_ignoring_case(b, c) ==> same_name_ignoring_case(a, c),
{
    if same_name_ignoring_case(a, b) {
        assert forall|i: int| 0 <= i < b.len() implies ascii_lower(#[trigger] b[i]) == ascii_lower(a[i]) by {
            assert(ascii_lower(a[i]) == ascii_lower(b[i]));
        }
        if same_name_ignoring_case(b, c) {
            assert forall|i: int| 0 <= i < a.len() implies ascii_lower(#[trigger] a[i]) == ascii_lower(c[i]) by {
                assert(ascii_lower(a[i]) == ascii_lower(b[i]));
                assert(ascii_lower(b[i]) == ascii_lower(c[i]));
            }
        }
    }
}

/// Where `insert_by_name` puts `x`: between a prefix and the rest.
proof fn lemma_insert_splits(s: Seq<SavedView>, x: SavedView)
    ensures
        exists|k: int| 0 <= k <= s.len() && #[trigger] insert_by_name(s, x) == s.take(k) + seq![x] + s.skip(k),
    decreases s.len(),
{
    if s.len() == 0 || !name_less(x.name, s.last().name) {
        let k = s.len() as int;
        assert(insert_by_name(s, x) =~= s.take(k) + seq![x] + s.skip(k));
    } else {
        let rest = s.drop_last();
        lemma_insert_splits(rest, x);
        let k = choose|k: int| 0 <= k <= rest.len() && #[trigger] insert_by_name(rest, x) == rest.take(k) + seq![x]
            + rest.skip(k);
        assert(insert_by_name(s, x) =~= s.take(k) + seq![x] + s.skip(k));
    }
}

proof fn lemma_sorted_unique(s: Seq<SavedView>)
    requires
        names_unique(s),
    ensures
        names_unique(sorted_by_name(s)),
        forall|k: int| 0 <= k < s.len() ==> sorted_by_name(s).contains(#[trigger] s[k]),
    decreases s.len(),
{
    if s.len() > 0 {
        let rest = s.drop_last();
        let y = s.last();
        assert(names_unique(rest)) by {
            assert forall|i: int, j: int| 0 <= i < j < rest.len() implies !same_name_ignoring_case(
                #[trigger] rest[i].name,
                #[trigger] rest[j].name,
            ) by {
                assert(rest[i] == s[i] && rest[j] == s[j]);
            }
        }
        lemma_sorted_unique(rest);
        lemma_sorted_props(rest);
        let r = sorted_by_name(rest);
        lemma_insert_splits(r, y);
        let k = choose|k: int| 0 <= k <= r.len() && #[trigger] insert_by_name(r, y) == r.take(k) + seq![y] + r.skip(k);
        let out = sorted_by_name(s);
        assert(out == r.take(k) + seq![y] + r.skip(k));
        assert forall|m: int| 0 <= m < r.len() implies !same_name_ignoring_case(#[trigger] r[m].name, y.name)
            && !same_name_ignoring_case(y.name, r[m].name) by {
            let p = choose|p: int| 0 <= p < rest.len() && rest[p] == r[m];
            assert(s[p] == r[m]);
            assert(!same_name_ignoring_case(s[p].name, s[s.len() - 1].name));
            lemma_same_name_equiv(y.name, r[m].name, y.name);
        }
        assert forall|i: int, j: int| 0 <= i < j < out.len() implies !same_name_ignoring_case(
            #[trigger] out[i].name,
            #[trigger] out[j].name,
        ) by {
            if i == k {
                assert(out[i] == y);
                assert(out[j] == r[j - 1]);
            } else if j == k {
                assert(out[j] == y);
                assert(out[i] == r[i]);
            } else {
                let i2 = if i < k { i } else { i - 1 };
                let j2 = if j < k { j } else { j - 1 };
                assert(out[i] == r[i2] && out[j] == r[j2]);
                assert(i2 < j2);
            }
        }
        assert forall|m: int| 0 <= m < s.len() implies out.contains(#[trigger] s[m]) by {
            if m == s.len() - 1 {
                assert(out[k] == y);
            } else {
                assert(s[m] == rest[m]);
                assert(r.contains(rest[m]));
                let p = choose|p: int| 0 <= p < r.len() && r[p] == rest[m];
                if p < k {
                    assert(out[p] == r[p]);
                } else {
                    assert(out[p + 1] == r[p]);
                }
            }
        }
    }
}

/// Law: after a layout is stored under its name, looking that name up
/// finds exactly the stored layout, and names stay unique ignoring ASCII
/// case, when they were unique before.
pub proof fn lemma_stored_then_found(s: Seq<SavedView>, x: SavedView)
    requires
        names_unique(s),
    ensures
        names_unique(stored(s, x)),
        first_named(stored(s, x), x.name) matches Some(i) && stored(s, x)[i] == x,
{
    reveal(first_named);
    lemma_same_name_equiv(x.name, x.name, x.name);
    let mid = match first_named(s, x.name) {
        Some(i) => s.update(i, x),
        None => s.push(x),
    };
    match first_named(s, x.name) {
        Some(i) => {
            assert(0 <= i < s.len() && same_name_ignoring_case(s[i].name, x.name));
            assert forall|a: int, b: int| 0 <= a < b < mid.len() implies !same_name_ignoring_case(
                #[trigger] mid[a].name,
                #[trigger] mid[b].name,
            ) by {
                if a == i {
                    assert(mid[a] == x && mid[b] == s[b]);
                    if same_name_ignoring_case(x.name, s[b].name) {
                        lemma_same_name_equiv(s[i].name, x.name, s[b].name);
                    }
                } else if b == i {
                    assert(mid[b] == x && mid[a] == s[a]);
                    if same_name_ignoring_case(s[a].name, x.name) {
                        lemma_same_name_equiv(x.name, s[i].name, s[i].name);
                        lemma_same_name_equiv(s[a].name, x.name, s[i].name);
                    }
                } else {
                    assert(mid[a] == s[a] && mid[b] == s[b]);
                }
            }
            assert(mid[i] == x);
        },
        None => {
            assert forall|a: int, b: int| 0 <= a < b < mid.len() implies !same_name_ignoring_case(
                #[trigger] mid[a].name,
                #[trigger] mid[b].name,
            ) by {
                if b == s.len() {
                    assert(mid[b] == x && mid[a] == s[a]);
                    if same_name_ignoring_case(s[a].name, x.name) {
                        assert(names_layout(s, x.name));
                    }
                } else {
                    assert(mid[a] == s[a] && mid[b] == s[b]);
                }
            }
            assert(mid[s.len() as int] == x);
        },
    }
    assert(mid.contains(x));
    lemma_sorted_unique(mid);
    let out = stored(s, x);
    assert(out == sorted_by_name(mid));
    let p = choose|p: int| 0 <= p < mid.len() && mid[p] == x;
    assert(out.contains(mid[p]));
    let j = choose|j: int| 0 <= j < out.len() && out[j] == x;
    assert(same_name_ignoring_case(out[j].name, x.name));
    assert(names_layout(out, x.name));
    let w = choose|w: int|
        0 <= w < out.len() && same_name_ignoring_case(#[trigger] out[w].name, x.name) && forall|m: int|
            0 <= m < w ==> !same_name_ignoring_case(#[trigger] out[m].name, x.name);
    assert forall|m: int| 0 <= m < j implies !same_name_ignoring_case(#[trigger] out[m].name, x.name) by {
        if same_name_ignoring_case(out[m].name, x.name) {
            assert(!same_name_ignoring_case(out[m].name, out[j].name));
        }
    }
    assert(0 <= j < out.len() && same_name_ignoring_case(out[j].name, x.name) && forall|m: int|
        0 <= m < j ==> !same_name_ignoring_case(#[trigger] out[m].name, x.name));
    if w != j {
        if w < j {
        } else {
            assert(!same_name_ignoring_case(out[j].name, x.name));
        }
    }
    assert(first_named(out, x.name) == Some(j));
}


/// Law: once the layouts named `name` are deleted, no saved layout has that
/// name, ignoring ASCII case, so looking it up finds nothing.
pub proof fn lemma_deleted_not_found(s: Seq<SavedView>, name: Seq<char>)
    ensures
        !names_layout(without_named(s, name), name),
        first_named(without_named(s, name), name) is None,
{
    reveal(first_named);
    let out = without_named(s, name);
    assert forall|i: int| 0 <= i < out.len() implies !same_name_ignoring_case(#[trigger] out[i].name, name) by {
        s.lemma_filter_pred(|v: SavedView| !same_name_ignoring_case(v.name, name), i);
    }
}


impl WorkspaceFile {
    /// Switches to a preset's layout, no saved layout in use; the status to
    /// report. The custom preset has no layout of its own: `None`, with
    /// nothing changed.
    pub fn apply_preset(&mut self, preset: crate::editor::WorkspacePreset) -> (r: Option<String>)
        ensures
            preset == crate::editor::WorkspacePreset::Custom ==> r is None && final(self).current_layout@ == old(
                self,
            ).current_layout@ && final(self).active_saved_layout == old(self).active_saved_layout && saved_views(
                final(self).saved_layouts@,
            ) == saved_views(old(self).saved_layouts@),
            preset != crate::editor::WorkspacePreset::Custom ==> (r matches Some(s) && s@ == "Workspace: "@
                + crate::editor::spec_preset_label(preset)) && final(self).current_layout@
                == crate::editor::preset_layout_view(preset) && final(self).active_saved_layout is None && saved_views(
                final(self).saved_layouts@,
            ) == saved_views(old(self).saved_layouts@),
    {
        if let crate::editor::WorkspacePreset::Custom = preset {
            return None;
        }
        self.current_layout = preset.layout();
        self.active_saved_layout = None;
        let mut s = String::from_str("Workspace: ");
        s.append(preset.label());
        Some(s)
    }
}

} // verus!
