//! The assets a user marks as favorites in the asset browser, kept per
//! kind of asset.
use vstd::prelude::*;
use crate::bundle::{first_with_id, lemma_first_with_id};
use crate::text::str_equal;
use crate::unique_ids::id_views;

verus! {

/// The favorite asset ids, by kind, in the order they were marked.
#[derive(Debug, Clone)]
pub struct EditorFavorites {
    pub scenes: Vec<String>,
    pub palettes: Vec<String>,
    pub tilesets: Vec<String>,
    pub metasprites: Vec<String>,
    pub animations: Vec<String>,
    pub dialogues: Vec<String>,
    pub sprite_sources: Vec<String>,
}

/// The favorites of a kind (`scene`, `palette`, `tileset`, `metasprite`,
/// `animation`, `dialogue` or `sprite_source`); `None` for any other kind.
pub open spec fn favorites_of(f: EditorFavorites, kind: Seq<char>) -> Option<Seq<Seq<char>>> {
    if kind == "scene"@ {
        Some(id_views(f.scenes@))
    } else if kind == "palette"@ {
        Some(id_views(f.palettes@))
    } else if kind == "tileset"@ {
        Some(id_views(f.tilesets@))
    } else if kind == "metasprite"@ {
        Some(id_views(f.metasprites@))
    } else if kind == "animation"@ {
        Some(id_views(f.animations@))
    } else if kind == "dialogue"@ {
        Some(id_views(f.dialogues@))
    } else if kind == "sprite_source"@ {
        Some(id_views(f.sprite_sources@))
    } else {
        None
    }
}

/// A list after toggling `id`: its first occurrence removed, or, when it
/// is absent, added at the end.
pub open spec fn toggled(l: Seq<Seq<char>>, id: Seq<char>) -> Seq<Seq<char>> {
    match first_with_id(l, id) {
        Some(i) => l.remove(i),
        None => l.push(id),
    }
}

/// The asset is a favorite of its kind.
pub open spec fn spec_is_favorite(f: EditorFavorites, kind: Seq<char>, id: Seq<char>) -> bool {
    favorites_of(f, kind) matches Some(l) && l.contains(id)
}

/// `b` is `a` with the list of `kind` replaced by `l`.
pub open spec fn favorites_replaced(a: EditorFavorites, b: EditorFavorites, kind: Seq<char>, l: Seq<Seq<char>>) -> bool {
    forall|k: Seq<char>|
        #[trigger] favorites_of(b, k) == if k == kind {
            Some(l)
        } else {
            favorites_of(a, k)
        }
}

fn toggle_in(values: &mut Vec<String>, id: &str)
    ensures
        id_views(final(values)@) == toggled(id_views(old(values)@), id@),
{
    let ghost ids = id_views(values@);
    proof {
        lemma_first_with_id(ids, id@);
    }
    let mut i: usize = 0;
    while i < values.len()
        invariant
            ids == id_views(values@),
            ids == id_views(old(values)@),
            i <= values@.len(),
            forall|j: int| 0 <= j < i ==> ids[j] != id@,
            match first_with_id(ids, id@) {
                Some(k) => 0 <= k < ids.len() && ids[k] == id@ && forall|j: int| 0 <= j < k ==> ids[j] != id@,
                None => forall|j: int| 0 <= j < ids.len() ==> ids[j] != id@,
            },
        decreases values@.len() - i,
    {
        if str_equal(values[i].as_str(), id) {
            assert(first_with_id(ids, id@) == Some(i as int)) by {
                match first_with_id(ids, id@) {
                    Some(k) => {
                        if k < i {
                            assert(ids[k] != id@);
                        } else if k > i {
                            assert(ids[i as int] != id@);
                        }
                    },
                    None => {
                        assert(ids[i as int] != id@);
                    },
                }
            }
            values.remove(i);
            assert(id_views(values@) =~= ids.remove(i as int));
            return;
        }
        i = i + 1;
    }
    values.push(id.to_string());
    assert(id_views(values@) =~= ids.push(id@));
}

impl EditorFavorites {
    /// No favorites.
    pub fn new() -> (f: Self)
        ensures
            forall|k: Seq<char>| #[trigger] favorites_of(f, k) matches Some(l) ==> l.len() == 0,
    {
        EditorFavorites {
            scenes: Vec::new(),
            palettes: Vec::new(),
            tilesets: Vec::new(),
            metasprites: Vec::new(),
            animations: Vec::new(),
            dialogues: Vec::new(),
            sprite_sources: Vec::new(),
        }
    }

    /// Whether the asset of this kind and id is a favorite; `false` for an
    /// unknown kind.
    pub fn is_asset_favorite(&self, kind: &str, id: &str) -> (r: bool)
        ensures
            r == spec_is_favorite(*self, kind@, id@),
    {
        let values = if str_equal(kind, "scene") {
            &self.scenes
        } else if str_equal(kind, "palette") {
            &self.palettes
        } else if str_equal(kind, "tileset") {
            &self.tilesets
        } else if str_equal(kind, "metasprite") {
            &self.metasprites
        } else if str_equal(kind, "animation") {
            &self.animations
        } else if str_equal(kind, "dialogue") {
            &self.dialogues
        } else if str_equal(kind, "sprite_source") {
            &self.sprite_sources
        } else {
            return false;
        };
        crate::unique_ids::holds(values, id)
    }

    /// Marks the asset as a favorite of its kind, or unmarks it when it
    /// was one (its first occurrence is dropped); an unknown kind changes
    /// nothing.
    pub fn toggle_asset_favorite(&mut self, kind: &str, id: &str)
        ensures
            match favorites_of(*old(self), kind@) {
                None => *final(self) == *old(self),
                Some(l) => favorites_replaced(*old(self), *final(self), kind@, toggled(l, id@)),
            },
    {
        if str_equal(kind, "scene") {
            toggle_in(&mut self.scenes, id);
        } else if str_equal(kind, "palette") {
            toggle_in(&mut self.palettes, id);
        } else if str_equal(kind, "tileset") {
            toggle_in(&mut self.tilesets, id);
        } else if str_equal(kind, "metasprite") {
            toggle_in(&mut self.metasprites, id);
        } else if str_equal(kind, "animation") {
            toggle_in(&mut self.animations, id);
        } else if str_equal(kind, "dialogue") {
            toggle_in(&mut self.dialogues, id);
        } else if str_equal(kind, "sprite_source") {
            toggle_in(&mut self.sprite_sources, id);
        }
    }
}

/// Law: on lists that hold each id once, toggling flips whether the id is
/// in the list and keeps each id held once.
pub proof fn lemma_toggle_flips(l: Seq<Seq<char>>, id: Seq<char>)
    requires
        l.no_duplicates(),
    ensures
        toggled(l, id).contains(id) == !l.contains(id),
        toggled(l, id).no_duplicates(),
        forall|x: Seq<char>| x != id ==> (toggled(l, id).contains(x) == l.contains(x)),
{
    lemma_first_with_id(l, id);
    match first_with_id(l, id) {
        Some(i) => {
            let r = l.remove(i);
            assert forall|x: Seq<char>| r.contains(x) implies l.contains(x) && x != id by {
                let k = choose|k: int| 0 <= k < r.len() && r[k] == x;
                if k < i {
                    assert(l[k] == x);
                } else {
                    assert(l[k + 1] == x);
                }
            }
            assert forall|x: Seq<char>| x != id && l.contains(x) implies r.contains(x) by {
                let k = choose|k: int| 0 <= k < l.len() && l[k] == x;
                if k < i {
                    assert(r[k] == x);
                } else {
                    assert(k != i);
                    assert(r[k - 1] == x);
                }
            }
        },
        None => {
            let r = l.push(id);
            assert(r[l.len() as int] == id);
            assert forall|x: Seq<char>| x != id && r.contains(x) implies l.contains(x) by {
                let k = choose|k: int| 0 <= k < r.len() && r[k] == x;
                assert(l[k] == x);
            }
            assert forall|x: Seq<char>| l.contains(x) implies r.contains(x) by {
                let k = choose|k: int| 0 <= k < l.len() && l[k] == x;
                assert(r[k] == x);
            }
        },
    }
}

/// Law: for a known kind whose list holds each id once, a toggle flips
/// whether the asset is a favorite, leaves every other id of the kind as
/// it was, and keeps each id held once.
pub proof fn lemma_favorite_toggle(f: EditorFavorites, g: EditorFavorites, kind: Seq<char>, id: Seq<char>)
    requires
        favorites_of(f, kind) matches Some(l) && l.no_duplicates(),
        favorites_replaced(f, g, kind, toggled(favorites_of(f, kind)->0, id)),
    ensures
        spec_is_favorite(g, kind, id) == !spec_is_favorite(f, kind, id),
        forall|x: Seq<char>| x != id ==> spec_is_favorite(g, kind, x) == spec_is_favorite(f, kind, x),
        favorites_of(g, kind)->0.no_duplicates(),
{
    let l = favorites_of(f, kind)->0;
    lemma_toggle_flips(l, id);
    assert(favorites_of(g, kind) == Some(toggled(l, id)));
}

} // verus!
