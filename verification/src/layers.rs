//! Layer and object bookkeeping of the scene editor: which objects a tile
//! selection holds, moving, removing and hiding layers, locks on layers,
//! sampling a tile, and the physics profile a playtest uses.
use vstd::prelude::*;
use vstd::string::StringExecFns;
use crate::editor::{layer_bounds_pixels, layer_bounds_result, SceneObjectGroup, TileSelectionRect};
use crate::bundle::{first_with_id, palette_ids, tileset_ids, ProjectBundle};
use crate::project::{PaletteResource, PhysicsProfile, PointI16, RectI16, SceneResource, TileLayer, TilesetResource};
use crate::scene_edit::edited_layer;
use crate::text::{decimal, digit_char, push_decimal, str_equal};

verus! {

/// The pixel edges of a selection fit in a machine word.
pub open spec fn pixels_fit(rect: TileSelectionRect) -> bool {
    &&& rect.min_x * 8 <= usize::MAX
    &&& rect.min_y * 8 <= usize::MAX
    &&& (rect.max_x + 1) * 8 <= usize::MAX
    &&& (rect.max_y + 1) * 8 <= usize::MAX
}

/// The selection holds the pixel `p`.
pub open spec fn holds_point(rect: TileSelectionRect, p: PointI16) -> bool {
    p.x >= (rect.min_x * 8) as i16 && p.x < ((rect.max_x + 1) * 8) as i16 && p.y >= (rect.min_y * 8) as i16 && p.y
        < ((rect.max_y + 1) * 8) as i16
}

/// The selection overlaps the pixel rectangle `r`.
pub open spec fn meets_rect(rect: TileSelectionRect, r: RectI16) -> bool {
    r.x < ((rect.max_x + 1) * 8) as i16 && crate::editor::saturating_add_i16(r.x as int, r.width as i16 as int) > (
    rect.min_x * 8) as i16 && r.y < ((rect.max_y + 1) * 8) as i16 && crate::editor::saturating_add_i16(
        r.y as int,
        r.height as i16 as int,
    ) > (rect.min_y * 8) as i16
}

/// The indices of the `true` entries, in order.
pub open spec fn picked(flags: Seq<bool>) -> Seq<usize>
    decreases flags.len(),
{
    if flags.len() == 0 {
        Seq::empty()
    } else {
        let prev = picked(flags.drop_last());
        if flags.last() {
            prev.push((flags.len() - 1) as usize)
        } else {
            prev
        }
    }
}

/// The objects of a scene that a tile selection holds, by index.
#[derive(Debug, Clone, PartialEq, Eq)]
pub struct SceneSelection {
    pub rect: TileSelectionRect,
    pub spawns: Vec<usize>,
    pub checkpoints: Vec<usize>,
    pub entities: Vec<usize>,
    pub triggers: Vec<usize>,
}

proof fn lemma_picked_take(flags: Seq<bool>, i: int)
    requires
        0 <= i < flags.len(),
    ensures
        picked(flags.take(i + 1)) == if flags[i] {
            picked(flags.take(i)).push(i as usize)
        } else {
            picked(flags.take(i))
        },
{
    assert(flags.take(i + 1).drop_last() =~= flags.take(i));
}

/// The spawns, checkpoints and entities whose position the selection
/// holds, and the triggers whose rectangle it overlaps.
pub fn build_scene_selection(scene: &SceneResource, rect: TileSelectionRect) -> (sel: SceneSelection)
    requires
        pixels_fit(rect),
    ensures
        sel.rect == rect,
        sel.spawns@ == picked(Seq::new(scene.spawns@.len(), |k: int| holds_point(rect, scene.spawns@[k].position))),
        sel.checkpoints@ == picked(
            Seq::new(scene.checkpoints@.len(), |k: int| holds_point(rect, scene.checkpoints@[k].position)),
        ),
        sel.entities@ == picked(
            Seq::new(scene.entities@.len(), |k: int| holds_point(rect, scene.entities@[k].position)),
        ),
        sel.triggers@ == picked(Seq::new(scene.triggers@.len(), |k: int| meets_rect(rect, scene.triggers@[k].rect))),
{
    let ghost f1 = Seq::new(scene.spawns@.len(), |k: int| holds_point(rect, scene.spawns@[k].position));
    let mut spawns: Vec<usize> = Vec::new();
    let mut i: usize = 0;
    while i < scene.spawns.len()
        invariant
            pixels_fit(rect),
            i <= scene.spawns@.len(),
            f1 == Seq::new(scene.spawns@.len(), |k: int| holds_point(rect, scene.spawns@[k].position)),
            spawns@ == picked(f1.take(i as int)),
        decreases scene.spawns@.len() - i,
    {
        proof {
            lemma_picked_take(f1, i as int);
        }
        if rect.contains_point_pixels(scene.spawns[i].position) {
            spawns.push(i);
        }
        i = i + 1;
    }
    assert(f1.take(i as int) =~= f1);
    let ghost f2 = Seq::new(scene.checkpoints@.len(), |k: int| holds_point(rect, scene.checkpoints@[k].position));
    let mut checkpoints: Vec<usize> = Vec::new();
    let mut i: usize = 0;
    while i < scene.checkpoints.len()
        invariant
            pixels_fit(rect),
            i <= scene.checkpoints@.len(),
            f2 == Seq::new(scene.checkpoints@.len(), |k: int| holds_point(rect, scene.checkpoints@[k].position)),
            checkpoints@ == picked(f2.take(i as int)),
        decreases scene.checkpoints@.len() - i,
    {
        proof {
            lemma_picked_take(f2, i as int);
        }
        if rect.contains_point_pixels(scene.checkpoints[i].position) {
            checkpoints.push(i);
        }
        i = i + 1;
    }
    assert(f2.take(i as int) =~= f2);
    let ghost f3 = Seq::new(scene.entities@.len(), |k: int| holds_point(rect, scene.entities@[k].position));
    let mut entities: Vec<usize> = Vec::new();
    let mut i: usize = 0;
    while i < scene.entities.len()
        invariant
            pixels_fit(rect),
            i <= scene.entities@.len(),
            f3 == Seq::new(scene.entities@.len(), |k: int| holds_point(rect, scene.entities@[k].position)),
            entities@ == picked(f3.take(i as int)),
        decreases scene.entities@.len() - i,
    {
        proof {
            lemma_picked_take(f3, i as int);
        }
        if rect.contains_point_pixels(scene.entities[i].position) {
            entities.push(i);
        }
        i = i + 1;
    }
    assert(f3.take(i as int) =~= f3);
    let ghost f4 = Seq::new(scene.triggers@.len(), |k: int| meets_rect(rect, scene.triggers@[k].rect));
    let mut triggers: Vec<usize> = Vec::new();
    let mut i: usize = 0;
    while i < scene.triggers.len()
        invariant
            pixels_fit(rect),
            i <= scene.triggers@.len(),
            f4 == Seq::new(scene.triggers@.len(), |k: int| meets_rect(rect, scene.triggers@[k].rect)),
            triggers@ == picked(f4.take(i as int)),
        decreases scene.triggers@.len() - i,
    {
        proof {
            lemma_picked_take(f4, i as int);
        }
        if rect.intersects_rect_pixels(scene.triggers[i].rect) {
            triggers.push(i);
        }
        i = i + 1;
    }
    assert(f4.take(i as int) =~= f4);
    SceneSelection { rect, spawns, checkpoints, entities, triggers }
}

/// The status `"<verb> layer '<id>'"`.
pub open spec fn spec_layer_status(verb: Seq<char>, id: Seq<char>) -> Seq<char> {
    verb + " layer '"@ + id + "'"@
}

/// The status `"<verb> layer '<id>'"` that a layer edit reports.
pub fn layer_status(verb: &str, id: &str) -> (s: String)
    ensures
        s@ == spec_layer_status(verb@, id@),
{
    let mut s = String::from_str(verb);
    s.append(" layer '");
    s.append(id);
    s.append("'");
    s
}

/// Where the selected layer moves: one place up for direction -1, one
/// place down for 1, when that stays within the layers.
pub open spec fn move_target(len: int, selected: int, direction: int) -> Option<int> {
    let s = edited_layer(selected, len);
    if direction == -1 && s > 0 {
        Some(s - 1)
    } else if direction == 1 && s + 1 < len {
        Some(s + 1)
    } else {
        None
    }
}

/// Swaps the selected layer (clamped to the last) with its neighbour in
/// the given direction; the index it moved to, or `None` when it cannot
/// move that way.
pub fn move_layer(layers: &mut Vec<TileLayer>, selected: usize, direction: i32) -> (r: Option<usize>)
    ensures
        ({
            let before = old(layers)@;
            let s = edited_layer(selected as int, before.len() as int);
            match move_target(before.len() as int, selected as int, direction as int) {
                Some(t) => r == Some(t as usize) && final(layers)@ == before.update(s, before[t]).update(
                    t,
                    before[s],
                ),
                None => r is None && final(layers)@ == before,
            }
        }),
{
    let len = layers.len();
    if len == 0 {
        return None;
    }
    let s = if selected < len - 1 { selected } else { len - 1 };
    let ghost before = layers@;
    if direction == -1 && s > 0 {
        let moved = layers.remove(s);
        layers.insert(s - 1, moved);
        assert(layers@ =~= before.update(s as int, before[s - 1]).update(s - 1, before[s as int]));
        Some(s - 1)
    } else if direction == 1 && s + 1 < len {
        let moved = layers.remove(s + 1);
        layers.insert(s, moved);
        assert(layers@ =~= before.update(s as int, before[s + 1]).update(s + 1, before[s as int]));
        Some(s + 1)
    } else {
        None
    }
}

/// Removes the selected layer (clamped to the last) unless it is the only
/// one; the layer selected afterwards (the one before it, or the first)
/// and the removed layer.
pub fn remove_layer(layers: &mut Vec<TileLayer>, selected: usize) -> (r: Option<(usize, TileLayer)>)
    ensures
        old(layers)@.len() <= 1 ==> r is None && final(layers)@ == old(layers)@,
        old(layers)@.len() > 1 ==> {
            let s = edited_layer(selected as int, old(layers)@.len() as int);
            &&& r == Some((if s > 0 { (s - 1) as usize } else { 0usize }, old(layers)@[s]))
            &&& final(layers)@ == old(layers)@.remove(s)
        },
{
    let len = layers.len();
    if len <= 1 {
        return None;
    }
    let s = if selected < len - 1 { selected } else { len - 1 };
    let removed = layers.remove(s);
    let next = if s > 0 { s - 1 } else { 0 };
    Some((next, removed))
}

/// Shows a hidden layer or hides a shown one (the index clamped to the
/// last layer), with the status to report; `None` when there are no
/// layers.
pub fn toggle_layer_visibility(layers: &mut Vec<TileLayer>, layer_index: usize) -> (r: Option<String>)
    ensures
        old(layers)@.len() == 0 ==> r is None && final(layers)@ == old(layers)@,
        old(layers)@.len() > 0 ==> {
            let k = edited_layer(layer_index as int, old(layers)@.len() as int);
            let was = old(layers)@[k];
            let now = TileLayer { visible: !was.visible, ..was };
            &&& final(layers)@ == old(layers)@.update(k, now)
            &&& r matches Some(s) && s@ == spec_layer_status(
                if was.visible {
                    "Hid"@
                } else {
                    "Showed"@
                },
                was.id@,
            )
        },
{
    let len = layers.len();
    if len == 0 {
        return None;
    }
    let k = if layer_index < len - 1 { layer_index } else { len - 1 };
    let mut layer = layers.remove(k);
    layer.visible = !layer.visible;
    let status = layer_status(if layer.visible { "Showed" } else { "Hid" }, layer.id.as_str());
    let ghost before = old(layers)@;
    layers.insert(k, layer);
    assert(layers@ =~= before.update(k as int, TileLayer { visible: !before[k as int].visible, ..before[k as int] }));
    Some(status)
}

/// The status after sampling a tile.
pub open spec fn spec_sample_status(tile: u16, layer_id: Seq<char>) -> Seq<char> {
    "Sampled tile "@ + decimal(tile as nat) + " from '"@ + layer_id + "'"@
}

/// The tile of a layer's cell (0 past its end), for painting, with the
/// status to report.
pub fn sample_tile(layer: &TileLayer, cell_index: usize) -> (r: (u16, String))
    ensures
        r.0 == (if cell_index < layer.tiles@.len() { layer.tiles@[cell_index as int] } else { 0 }),
        r.1@ == spec_sample_status(r.0, layer.id@),
{
    let tile = if cell_index < layer.tiles.len() { layer.tiles[cell_index] } else { 0 };
    let mut s = String::from_str("Sampled tile ");
    push_decimal(&mut s, tile as u128);
    s.append(" from '");
    s.append(layer.id.as_str());
    s.append("'");
    (tile, s)
}

/// The first profile with the given id.
pub open spec fn first_profile(presets: Seq<PhysicsProfile>, id: Seq<char>) -> Option<int> {
    if exists|i: int| 0 <= i < presets.len() && #[trigger] presets[i].id@ == id {
        Some(choose|i: int| 0 <= i < presets.len() && #[trigger] presets[i].id@ == id && forall|j: int|
            0 <= j < i ==> presets[j].id@ != id)
    } else {
        None
    }
}

/// The physics profile a playtest runs with: the selected one, else the
/// first; `None` without profiles.
pub fn select_physics_profile<'a>(presets: &'a Vec<PhysicsProfile>, selected_id: &str) -> (r: Option<
    &'a PhysicsProfile,
>)
    ensures
        presets@.len() == 0 ==> r is None,
        presets@.len() > 0 ==> match first_profile(presets@, selected_id@) {
            Some(i) => r == Some(&presets@[i]),
            None => r == Some(&presets@[0]),
        },
{
    let mut i: usize = 0;
    while i < presets.len()
        invariant
            i <= presets@.len(),
            forall|j: int| 0 <= j < i ==> #[trigger] presets@[j].id@ != selected_id@,
        decreases presets@.len() - i,
    {
        if str_equal(presets[i].id.as_str(), selected_id) {
            proof {
                let w = choose|k: int|
                    0 <= k < presets@.len() && #[trigger] presets@[k].id@ == selected_id@ && forall|j: int|
                        0 <= j < k ==> presets@[j].id@ != selected_id@;
                assert(0 <= i < presets@.len() && presets@[i as int].id@ == selected_id@ && forall|j: int|
                    0 <= j < i ==> presets@[j].id@ != selected_id@);
                assert(w == i) by {
                    if w < i {
                        assert(presets@[w].id@ != selected_id@);
                    } else if w > i {
                        assert(presets@[i as int].id@ != selected_id@);
                    }
                }
            }
            return Some(&presets[i]);
        }
        i = i + 1;
    }
    if presets.len() > 0 {
        Some(&presets[0])
    } else {
        None
    }
}

/// The locked layers of a project, by scene index and layer index.
pub struct LayerLocks {
    keys: Vec<(usize, usize)>,
}

impl View for LayerLocks {
    type V = Set<(usize, usize)>;

    closed spec fn view(&self) -> Set<(usize, usize)> {
        self.keys@.to_set()
    }
}

impl LayerLocks {
    /// Each key is held once.
    #[verifier::type_invariant]
    closed spec fn keys_distinct(self) -> bool {
        self.keys@.no_duplicates()
    }

    /// No layer locked.
    pub fn new() -> (l: Self)
        ensures
            l@ == Set::<(usize, usize)>::empty(),
    {
        let l = LayerLocks { keys: Vec::new() };
        assert(l.keys@.to_set() =~= Set::empty());
        l
    }

    fn position(&self, key: (usize, usize)) -> (r: Option<usize>)
        ensures
            match r {
                Some(i) => i < self.keys@.len() && self.keys@[i as int] == key,
                None => !self.keys@.contains(key),
            },
    {
        let mut i: usize = 0;
        while i < self.keys.len()
            invariant
                i <= self.keys@.len(),
                forall|j: int| 0 <= j < i ==> #[trigger] self.keys@[j] != key,
            decreases self.keys@.len() - i,
        {
            let k = self.keys[i];
            if k.0 == key.0 && k.1 == key.1 {
                return Some(i);
            }
            i = i + 1;
        }
        None
    }

    /// Whether a layer is locked.
    pub fn is_locked(&self, scene_index: usize, layer_index: usize) -> (r: bool)
        ensures
            r == self@.contains((scene_index, layer_index)),
    {
        self.position((scene_index, layer_index)).is_some()
    }

    /// Locks an unlocked layer or unlocks a locked one; whether it is
    /// locked afterwards.
    pub fn toggle(&mut self, scene_index: usize, layer_index: usize) -> (locked: bool)
        ensures
            locked == !old(self)@.contains((scene_index, layer_index)),
            locked ==> final(self)@ == old(self)@.insert((scene_index, layer_index)),
            !locked ==> final(self)@ == old(self)@.remove((scene_index, layer_index)),
    {
        proof {
            use_type_invariant(&*self);
        }
        let key = (scene_index, layer_index);
        match self.position(key) {
            Some(i) => {
                let ghost before = self.keys@;
                let mut keys = Vec::new();
                std::mem::swap(&mut keys, &mut self.keys);
                keys.remove(i);
                proof {
                    assert forall|x: (usize, usize)| keys@.contains(x) implies x != key by {
                        let j = choose|j: int| 0 <= j < keys@.len() && keys@[j] == x;
                        if j < i {
                            assert(keys@[j] == before[j]);
                        } else {
                            assert(keys@[j] == before[j + 1]);
                        }
                    }
                    assert(keys@.to_set() =~= before.to_set().remove(key)) by {
                        assert forall|x: (usize, usize)| before.to_set().remove(key).contains(x) implies keys@.contains(
                            x,
                        ) by {
                            let j = choose|j: int| 0 <= j < before.len() && before[j] == x;
                            if j < i {
                                assert(keys@[j] == x);
                            } else {
                                assert(j != i);
                                assert(keys@[j - 1] == x);
                            }
                        }
                        assert forall|x: (usize, usize)| keys@.contains(x) implies before.to_set().remove(
                            key,
                        ).contains(x) by {
                            let j = choose|j: int| 0 <= j < keys@.len() && keys@[j] == x;
                            if j < i {
                                assert(before[j] == x);
                            } else {
                                assert(before[j + 1] == x);
                            }
                        }
                    }
                    assert(keys@.no_duplicates()) by {
                        assert forall|a: int, b: int| 0 <= a < b < keys@.len() implies keys@[a] != keys@[b] by {
                            let a2 = if a < i { a } else { a + 1 };
                            let b2 = if b < i { b } else { b + 1 };
                            assert(keys@[a] == before[a2] && keys@[b] == before[b2]);
                        }
                    }
                }
                self.keys = keys;
                false
            },
            None => {
                let ghost before = self.keys@;
                let mut keys = Vec::new();
                std::mem::swap(&mut keys, &mut self.keys);
                keys.push(key);
                proof {
                    assert(keys@.to_set() =~= before.to_set().insert(key)) by {
                        assert forall|x: (usize, usize)| keys@.contains(x) implies before.to_set().insert(key).contains(
                            x,
                        ) by {
                            let j = choose|j: int| 0 <= j < keys@.len() && keys@[j] == x;
                            if j < before.len() {
                                assert(before[j] == x);
                            }
                        }
                        assert forall|x: (usize, usize)| before.to_set().insert(key).contains(x) implies keys@.contains(
                            x,
                        ) by {
                            if x == key {
                                assert(keys@[before.len() as int] == x);
                            } else {
                                let j = choose|j: int| 0 <= j < before.len() && before[j] == x;
                                assert(keys@[j] == x);
                            }
                        }
                    }
                    assert(keys@.no_duplicates()) by {
                        assert forall|a: int, b: int| 0 <= a < b < keys@.len() implies keys@[a] != keys@[b] by {
                            if b == before.len() {
                                assert(before.contains(keys@[a]) ==> keys@[a] != key);
                                assert(keys@[a] == before[a]);
                            }
                        }
                    }
                }
                self.keys = keys;
                true
            },
        }
    }

    /// Unlocks every layer of a scene.
    pub fn clear_scene(&mut self, scene_index: usize)
        ensures
            final(self)@ == old(self)@.filter(|k: (usize, usize)| k.0 != scene_index),
    {
        proof {
            use_type_invariant(&*self);
        }
        let ghost before = self.keys@;
        let mut kept: Vec<(usize, usize)> = Vec::new();
        let mut i: usize = 0;
        while i < self.keys.len()
            invariant
                before == self.keys@,
                before.no_duplicates(),
                i <= before.len(),
                kept@.no_duplicates(),
                forall|x: (usize, usize)|
                    #[trigger] kept@.contains(x) <==> (x.0 != scene_index && exists|j: int|
                        0 <= j < i && before[j] == x),
                forall|x: (usize, usize)|
                    kept@.contains(x) ==> forall|j: int| i <= j < before.len() ==> #[trigger] before[j] != x,
            decreases before.len() - i,
        {
            let k = self.keys[i];
            if k.0 != scene_index {
                proof {
                    assert(!kept@.contains(k)) by {
                        if kept@.contains(k) {
                            assert(before[i as int] != k);
                        }
                    }
                }
                let ghost prev = kept@;
                kept.push(k);
                proof {
                    assert forall|x: (usize, usize)| #[trigger] kept@.contains(x) <==> (x.0 != scene_index && exists|j: int|
                        0 <= j < i + 1 && before[j] == x) by {
                        if kept@.contains(x) {
                            let m = choose|m: int| 0 <= m < kept@.len() && kept@[m] == x;
                            if m < prev.len() {
                                assert(prev.contains(x));
                            } else {
                                assert(before[i as int] == x);
                            }
                        }
                        if x.0 != scene_index && exists|j: int| 0 <= j < i + 1 && before[j] == x {
                            let j = choose|j: int| 0 <= j < i + 1 && before[j] == x;
                            if j < i {
                                assert(prev.contains(x));
                                let m = choose|m: int| 0 <= m < prev.len() && prev[m] == x;
                                assert(kept@[m] == x);
                            } else {
                                assert(kept@[prev.len() as int] == x);
                            }
                        }
                    }
                    assert forall|x: (usize, usize)| kept@.contains(x) implies forall|j: int|
                        i + 1 <= j < before.len() ==> #[trigger] before[j] != x by {
                        assert forall|j: int| i + 1 <= j < before.len() implies #[trigger] before[j] != x by {
                            let m = choose|m: int| 0 <= m < kept@.len() && kept@[m] == x;
                            if m < prev.len() {
                                assert(prev.contains(x));
                            } else {
                                assert(x == before[i as int]);
                            }
                        }
                    }
                }
            } else {
                proof {
                    assert forall|x: (usize, usize)| #[trigger] kept@.contains(x) <==> (x.0 != scene_index && exists|j: int|
                        0 <= j < i + 1 && before[j] == x) by {
                        if x.0 != scene_index && exists|j: int| 0 <= j < i + 1 && before[j] == x {
                            let j = choose|j: int| 0 <= j < i + 1 && before[j] == x;
                            assert(j < i);
                        }
                    }
                }
            }
            i = i + 1;
        }
        proof {
            assert(kept@.to_set() =~= before.to_set().filter(|k: (usize, usize)| k.0 != scene_index)) by {
                assert forall|x: (usize, usize)| kept@.to_set().contains(x) == before.to_set().filter(
                    |k: (usize, usize)| k.0 != scene_index,
                ).contains(x) by {
                    assert(kept@.contains(x) == kept@.to_set().contains(x));
                }
            }
        }
        self.keys = kept;
    }
}


/// The id `layer_<n>` of a new layer.
pub open spec fn layer_name(n: nat) -> Seq<char> {
    "layer_"@ + decimal(n)
}

/// Some layer has the id.
pub open spec fn id_taken(layers: Seq<TileLayer>, id: Seq<char>) -> bool {
    exists|i: int| 0 <= i < layers.len() && #[trigger] layers[i].id@ == id
}

/// `n` is the first number from `from` on whose layer name no layer has.
pub open spec fn first_free_name(layers: Seq<TileLayer>, from: nat, n: nat) -> bool {
    &&& from <= n
    &&& !id_taken(layers, layer_name(n))
    &&& forall|m: nat| from <= m < n ==> id_taken(layers, #[trigger] layer_name(m))
}

pub(crate) proof fn lemma_decimal_nonempty(n: nat)
    ensures
        decimal(n).len() >= 1,
    decreases n,
{
    if n >= 10 {
        lemma_decimal_nonempty(n / 10);
    }
}

pub(crate) proof fn lemma_decimal_injective(a: nat, b: nat)
    requires
        decimal(a) == decimal(b),
    ensures
        a == b,
    decreases a,
{
    if a < 10 && b < 10 {
        assert(decimal(a) == seq![digit_char(a as int)]);
        assert(decimal(b) == seq![digit_char(b as int)]);
        assert(decimal(a)[0] == digit_char(a as int));
        assert(decimal(b)[0] == digit_char(b as int));
    } else if a < 10 {
        lemma_decimal_nonempty(b / 10);
        assert(decimal(b).len() >= 2);
    } else if b < 10 {
        lemma_decimal_nonempty(a / 10);
        assert(decimal(a).len() >= 2);
    } else {
        let da = decimal(a);
        let db = decimal(b);
        assert(da.last() == db.last());
        assert(digit_char((a % 10) as int) == digit_char((b % 10) as int));
        assert(a % 10 == b % 10);
        assert(da.drop_last() =~= decimal(a / 10));
        assert(db.drop_last() =~= decimal(b / 10));
        lemma_decimal_injective(a / 10, b / 10);
        assert(a == 10 * (a / 10) + a % 10);
        assert(b == 10 * (b / 10) + b % 10);
    }
}

proof fn lemma_layer_name_injective(a: nat, b: nat)
    requires
        layer_name(a) == layer_name(b),
    ensures
        a == b,
{
    reveal_strlit("layer_");
    let p = "layer_"@;
    assert(layer_name(a).skip(p.len() as int) =~= decimal(a));
    assert(layer_name(b).skip(p.len() as int) =~= decimal(b));
    lemma_decimal_injective(a, b);
}

/// The layer ids equal to the name of a number in `[from, n)`.
pub open spec fn name_hits(layers: Seq<TileLayer>, from: nat, n: nat) -> Seq<bool> {
    Seq::new(
        layers.len(),
        |i: int| exists|m: nat| from <= m < n && layers[i].id@ == #[trigger] layer_name(m),
    )
}

proof fn lemma_count_grows(a: Seq<bool>, b: Seq<bool>, j: int)
    requires
        a.len() == b.len(),
        forall|i: int| 0 <= i < a.len() && #[trigger] a[i] ==> b[i],
        0 <= j < a.len(),
        b[j] && !a[j],
    ensures
        crate::usage::count_true(b) >= crate::usage::count_true(a) + 1,
    decreases a.len(),
{
    let n = a.len() - 1;
    if j < n {
        lemma_count_grows(a.drop_last(), b.drop_last(), j);
    } else {
        lemma_count_mono(a.drop_last(), b.drop_last());
    }
}

proof fn lemma_count_mono(a: Seq<bool>, b: Seq<bool>)
    requires
        a.len() == b.len(),
        forall|i: int| 0 <= i < a.len() && #[trigger] a[i] ==> b[i],
    ensures
        crate::usage::count_true(b) >= crate::usage::count_true(a),
    decreases a.len(),
{
    if a.len() > 0 {
        lemma_count_mono(a.drop_last(), b.drop_last());
    }
}

/// The id `layer_<n>`.
fn layer_name_string(n: usize) -> (s: String)
    ensures
        s@ == layer_name(n as nat),
{
    let mut s = String::from_str("layer_");
    push_decimal(&mut s, n as u128);
    s
}

/// Whether some layer has the id.
fn layer_id_taken(layers: &Vec<TileLayer>, id: &str) -> (r: bool)
    ensures
        r == id_taken(layers@, id@),
{
    let mut i: usize = 0;
    while i < layers.len()
        invariant
            i <= layers@.len(),
            forall|j: int| 0 <= j < i ==> #[trigger] layers@[j].id@ != id@,
        decreases layers@.len() - i,
    {
        if str_equal(layers[i].id.as_str(), id) {
            return true;
        }
        i = i + 1;
    }
    false
}

/// Adds a visible, empty layer at the end of a scene, named `layer_<n>`
/// for the first `n` from the layer count plus one whose name is free.
/// It draws with the tileset of the selected layer (clamped to the last),
/// or with `fallback_tileset` when the scene has no layers. The new
/// layer's index and id; `None`, with the scene unchanged, when there is
/// no tileset to draw with.
pub fn add_layer(scene: &mut SceneResource, selected_layer: usize, fallback_tileset: Option<&str>) -> (r: Option<
    (usize, String),
>)
    requires
        2 * old(scene).layers@.len() + 1 <= usize::MAX,
    ensures
        ({
            let before = old(scene).layers@;
            let tileset: Option<Seq<char>> = if before.len() > 0 {
                Some(before[edited_layer(selected_layer as int, before.len() as int)].tileset_id@)
            } else {
                match fallback_tileset {
                    Some(t) => Some(t@),
                    None => None,
                }
            };
            match tileset {
                None => r is None && *final(scene) == *old(scene),
                Some(t) => match r {
                    None => false,
                    Some((k, id)) => {
                        let added = final(scene).layers@[before.len() as int];
                        &&& k == before.len()
                        &&& exists|n: nat|
                            #![trigger layer_name(n)]
                            first_free_name(before, (before.len() + 1) as nat, n) && id@ == layer_name(n)
                                && added.id@ == layer_name(n)
                        &&& final(scene).layers@.len() == before.len() + 1
                        &&& final(scene).layers@.take(before.len() as int) == before
                        &&& added.tileset_id@ == t
                        &&& added.visible
                        &&& added.parallax_x == 1 && added.parallax_y == 1
                        &&& added.tiles@ == Seq::new(
                            (old(scene).size_tiles.width * old(scene).size_tiles.height) as nat,
                            |i: int| 0u16,
                        )
                        &&& crate::scene_edit::same_apart_from_cells(*final(scene), *old(scene))
                        &&& final(scene).collision == old(scene).collision
                    },
                },
            }
        }),
{
    let len = scene.layers.len();
    let tileset: String = if len > 0 {
        let k = if selected_layer < len - 1 { selected_layer } else { len - 1 };
        scene.layers[k].tileset_id.clone()
    } else {
        match fallback_tileset {
            Some(t) => t.to_string(),
            None => {
                return None;
            },
        }
    };
    let ghost before = scene.layers@;
    let ghost from = (len + 1) as nat;
    let mut n: usize = len + 1;
    let mut id = layer_name_string(n);
    while layer_id_taken(&scene.layers, id.as_str())
        invariant
            before == scene.layers@,
            len == before.len(),
            2 * len + 1 <= usize::MAX,
            from == len + 1,
            from <= n <= from + len,
            id@ == layer_name(n as nat),
            forall|m: nat| from <= m < n ==> id_taken(before, #[trigger] layer_name(m)),
            crate::usage::count_true(name_hits(before, from, n as nat)) >= n - from,
        decreases len + from - n,
    {
        proof {
            crate::usage::lemma_count_le(name_hits(before, from, n as nat));
            let j = choose|j: int| 0 <= j < before.len() && #[trigger] before[j].id@ == layer_name(n as nat);
            let a = name_hits(before, from, n as nat);
            let b = name_hits(before, from, (n + 1) as nat);
            assert forall|i: int| 0 <= i < a.len() && #[trigger] a[i] implies b[i] by {
                let m = choose|m: nat| from <= m < n && before[i].id@ == #[trigger] layer_name(m);
                assert(from <= m < n + 1 && before[i].id@ == layer_name(m));
            }
            assert(b[j]) by {
                assert(from <= n < n + 1 && before[j].id@ == layer_name(n as nat));
            }
            assert(!a[j]) by {
                if a[j] {
                    let m = choose|m: nat| from <= m < n && before[j].id@ == #[trigger] layer_name(m);
                    lemma_layer_name_injective(m, n as nat);
                }
            }
            lemma_count_grows(a, b, j);
            crate::usage::lemma_count_le(b);
        }
        n = n + 1;
        id = layer_name_string(n);
    }
    let tiles: Vec<u16> = vec![0; scene.size_tiles.tile_count()];
    assert(tiles@ =~= Seq::new((scene.size_tiles.width * scene.size_tiles.height) as nat, |i: int| 0u16));
    let result_id = id.clone();
    scene.layers.push(TileLayer { id, tileset_id: tileset, visible: true, parallax_x: 1, parallax_y: 1, tiles });
    proof {
        assert(first_free_name(before, from, n as nat));
        assert(scene.layers@.take(len as int) =~= before);
    }
    Some((len, result_id))
}


/// The layer of a scene that an index picks: clamped to the last layer;
/// `None` for a missing scene or a scene without layers.
pub open spec fn spec_layer_at(scenes: Seq<SceneResource>, scene_index: int, layer_index: int) -> Option<TileLayer> {
    if 0 <= scene_index < scenes.len() && scenes[scene_index].layers@.len() > 0 {
        let layers = scenes[scene_index].layers@;
        Some(layers[edited_layer(layer_index, layers.len() as int)])
    } else {
        None
    }
}

/// The layer of a scene that an index picks, clamped to the last layer.
pub fn layer_at(scenes: &Vec<SceneResource>, scene_index: usize, layer_index: usize) -> (r: Option<&TileLayer>)
    ensures
        match spec_layer_at(scenes@, scene_index as int, layer_index as int) {
            Some(l) => r == Some(&l),
            None => r is None,
        },
{
    if scene_index >= scenes.len() {
        return None;
    }
    let layers = &scenes[scene_index].layers;
    let len = layers.len();
    if len == 0 {
        return None;
    }
    let k = if layer_index < len - 1 { layer_index } else { len - 1 };
    Some(&layers[k])
}

/// Solos a layer, or clears the solo when that layer is the soloed one;
/// the new solo and the status to report.
pub fn toggle_layer_solo(
    current: Option<(usize, usize)>,
    scenes: &Vec<SceneResource>,
    scene_index: usize,
    layer_index: usize,
) -> (r: (Option<(usize, usize)>, String))
    ensures
        current == Some((scene_index, layer_index)) ==> r.0 is None && r.1@ == "Cleared layer solo"@,
        current != Some((scene_index, layer_index)) ==> r.0 == Some((scene_index, layer_index)) && r.1@ == match spec_layer_at(
            scenes@,
            scene_index as int,
            layer_index as int,
        ) {
            Some(l) => "Solo layer '"@ + l.id@ + "'"@,
            None => "Soloed layer"@,
        },
{
    let soloed = match current {
        Some(key) => key.0 == scene_index && key.1 == layer_index,
        None => false,
    };
    if soloed {
        return (None, String::from_str("Cleared layer solo"));
    }
    let status = match layer_at(scenes, scene_index, layer_index) {
        Some(layer) => {
            let mut s = String::from_str("Solo layer '");
            s.append(layer.id.as_str());
            s.append("'");
            s
        },
        None => String::from_str("Soloed layer"),
    };
    (Some((scene_index, layer_index)), status)
}

/// Solos an object group, or clears the solo when that group is the
/// soloed one; the new solo and the status to report.
pub fn toggle_group_solo(current: Option<SceneObjectGroup>, group: SceneObjectGroup) -> (r: (
    Option<SceneObjectGroup>,
    String,
))
    ensures
        current == Some(group) ==> r.0 is None && r.1@ == "Cleared object-group solo"@,
        current != Some(group) ==> r.0 == Some(group) && r.1@ == "Solo "@ + group_label(group),
{
    if current == Some(group) {
        return (None, String::from_str("Cleared object-group solo"));
    }
    let mut s = String::from_str("Solo ");
    s.append(group.label());
    (Some(group), s)
}

/// The name shown for an object group.
pub open spec fn group_label(group: SceneObjectGroup) -> Seq<char> {
    match group {
        SceneObjectGroup::Spawns => "Spawns"@,
        SceneObjectGroup::Checkpoints => "Checkpoints"@,
        SceneObjectGroup::Entities => "Entities"@,
        SceneObjectGroup::Triggers => "Triggers"@,
        SceneObjectGroup::Scripts => "Scripts"@,
    }
}

/// The pixel rectangle of a whole scene, each side clamped to `u16`.
pub open spec fn scene_rect(scene: SceneResource) -> RectI16 {
    RectI16 {
        x: 0,
        y: 0,
        width: (if scene.size_tiles.width * 8 > u16::MAX { u16::MAX as int } else { scene.size_tiles.width * 8 }) as u16,
        height: (if scene.size_tiles.height * 8 > u16::MAX { u16::MAX as int } else { scene.size_tiles.height * 8 }) as u16,
    }
}

/// Eight times `v`, clamped to `u16`.
fn times8_clamped(v: u16) -> (r: u16)
    ensures
        r == (if v * 8 > u16::MAX { u16::MAX as int } else { v * 8 }),
{
    let p = v as u32 * 8;
    if p > 0xFFFF { 0xFFFF } else { p as u16 }
}

/// The view rectangle that focuses a whole scene, with the status to
/// report.
pub fn focus_scene(scene: &SceneResource) -> (r: (RectI16, String))
    ensures
        r.0 == scene_rect(*scene),
        r.1@ == "Focused scene '"@ + scene.id@ + "'"@,
{
    let rect = RectI16 {
        x: 0,
        y: 0,
        width: times8_clamped(scene.size_tiles.width),
        height: times8_clamped(scene.size_tiles.height),
    };
    let mut s = String::from_str("Focused scene '");
    s.append(scene.id.as_str());
    s.append("'");
    (rect, s)
}

/// The view rectangle that focuses a layer: the bounds of its non-empty
/// tiles, else the whole scene; with the status to report. `None` for a
/// missing layer.
pub fn focus_layer(scene: &SceneResource, layer_index: usize) -> (r: Option<(RectI16, String)>)
    requires
        layer_index < scene.layers@.len() ==> scene.layers@[layer_index as int].tiles@.len() * 8 <= usize::MAX,
    ensures
        layer_index >= scene.layers@.len() ==> r is None,
        layer_index < scene.layers@.len() ==> {
            let layer = scene.layers@[layer_index as int];
            r matches Some((rect, s)) && s@ == "Focused layer '"@ + layer.id@ + "'"@ && exists|b: Option<RectI16>|
                layer_bounds_result(*scene, layer, b) && rect == match b {
                    Some(x) => x,
                    None => scene_rect(*scene),
                }
        },
{
    if layer_index >= scene.layers.len() {
        return None;
    }
    let layer = &scene.layers[layer_index];
    let bounds = layer_bounds_pixels(scene, layer);
    let rect = match bounds {
        Some(x) => x,
        None => RectI16 {
            x: 0,
            y: 0,
            width: times8_clamped(scene.size_tiles.width),
            height: times8_clamped(scene.size_tiles.height),
        },
    };
    let mut s = String::from_str("Focused layer '");
    s.append(layer.id.as_str());
    s.append("'");
    Some((rect, s))
}


/// Law: every index a selection picks is in range and picks a `true`
/// entry, and the indices increase.
pub proof fn lemma_picked_in_range(flags: Seq<bool>)
    requires
        flags.len() <= usize::MAX,
    ensures
        forall|j: int| 0 <= j < picked(flags).len() ==> (#[trigger] picked(flags)[j]) < flags.len() && flags[picked(flags)[j] as int],
        forall|a: int, b: int| 0 <= a < b < picked(flags).len() ==> picked(flags)[a] < picked(flags)[b],
    decreases flags.len(),
{
    if flags.len() > 0 {
        let rest = flags.drop_last();
        lemma_picked_in_range(rest);
        let prev = picked(rest);
        assert forall|j: int| 0 <= j < prev.len() implies prev[j] < flags.len() - 1 && flags[prev[j] as int] by {
            assert(rest[prev[j] as int] == flags[prev[j] as int]);
        }
        if flags.last() {
            let all = prev.push((flags.len() - 1) as usize);
            assert(picked(flags) == all);
            assert forall|j: int| 0 <= j < all.len() implies (#[trigger] all[j]) < flags.len() && flags[all[j] as int] by {
                if j < prev.len() {
                    assert(all[j] == prev[j]);
                }
            }
            assert forall|a: int, b: int| 0 <= a < b < all.len() implies all[a] < all[b] by {
                assert(all[a] == prev[a]);
                if b < prev.len() {
                    assert(all[b] == prev[b]);
                }
            }
        }
    }
}

/// The layers after swapping positions `s` and `t`.
pub open spec fn swapped(layers: Seq<TileLayer>, s: int, t: int) -> Seq<TileLayer> {
    layers.update(s, layers[t]).update(t, layers[s])
}

/// Law: moving a layer one way and then back puts every layer where it
/// was.
pub proof fn lemma_move_layer_round_trip(layers: Seq<TileLayer>, selected: int, direction: int)
    requires
        0 <= selected,
        direction == 1 || direction == -1,
        move_target(layers.len() as int, selected, direction) is Some,
    ensures
        ({
            let s = edited_layer(selected, layers.len() as int);
            let t = move_target(layers.len() as int, selected, direction)->0;
            &&& move_target(layers.len() as int, t, -direction) == Some(s)
            &&& swapped(swapped(layers, s, t), t, s) == layers
        }),
{
    let n = layers.len() as int;
    let s = edited_layer(selected, n);
    let t = move_target(n, selected, direction)->0;
    assert(0 <= s < n && 0 <= t < n);
    assert(edited_layer(t, n) == t);
    let once = swapped(layers, s, t);
    let twice = swapped(once, t, s);
    assert forall|i: int| 0 <= i < n implies twice[i] == layers[i] by {
        if i == s {
            assert(twice[i] == once[t]);
        } else if i == t {
            assert(twice[i] == once[s]);
        } else {
            assert(twice[i] == once[i]);
        }
    }
    assert(twice =~= layers);
}

/// Law: toggling the lock of a layer twice leaves the locks as they were.
pub proof fn lemma_lock_toggle_twice(locks: Set<(usize, usize)>, key: (usize, usize))
    ensures
        !locks.contains(key) ==> locks.insert(key).remove(key) == locks,
        locks.contains(key) ==> locks.remove(key).insert(key) == locks,
{
    assert(!locks.contains(key) ==> locks.insert(key).remove(key) =~= locks);
    assert(locks.contains(key) ==> locks.remove(key).insert(key) =~= locks);
}


/// The tileset the picked layer draws with, and that tileset's palette:
/// the first of each with the id; `None` when either is missing.
pub fn active_tileset_and_palette<'a>(
    bundle: &'a ProjectBundle,
    scene_index: usize,
    layer_index: usize,
) -> (r: Option<(&'a TilesetResource, &'a PaletteResource)>)
    ensures
        match spec_layer_at(bundle.scenes@, scene_index as int, layer_index as int) {
            None => r is None,
            Some(l) => match first_with_id(tileset_ids(bundle.tilesets@), l.tileset_id@) {
                None => r is None,
                Some(t) => match first_with_id(palette_ids(bundle.palettes@), bundle.tilesets@[t].palette_id@) {
                    None => r is None,
                    Some(p) => r == Some((&bundle.tilesets@[t], &bundle.palettes@[p])),
                },
            },
        },
{
    let layer = match layer_at(&bundle.scenes, scene_index, layer_index) {
        Some(l) => l,
        None => {
            return None;
        },
    };
    let tileset = match bundle.tileset(layer.tileset_id.as_str()) {
        Some(t) => t,
        None => {
            return None;
        },
    };
    match bundle.palette(tileset.palette_id.as_str()) {
        Some(p) => Some((tileset, p)),
        None => None,
    }
}

/// The status after selecting a layer.
pub open spec fn spec_select_status(layer_id: Seq<char>) -> Seq<char> {
    "Active layer: '"@ + layer_id + "'"@
}

/// The status after selecting a layer of a scene: the picked layer's id;
/// `None` when no layer is picked.
pub fn select_layer_status(scenes: &Vec<SceneResource>, scene_index: usize, layer_index: usize) -> (r: Option<
    String,
>)
    ensures
        match spec_layer_at(scenes@, scene_index as int, layer_index as int) {
            Some(l) => r matches Some(s) && s@ == spec_select_status(l.id@),
            None => r is None,
        },
{
    match layer_at(scenes, scene_index, layer_index) {
        Some(layer) => {
            let mut s = String::from_str("Active layer: '");
            s.append(layer.id.as_str());
            s.append("'");
            Some(s)
        },
        None => None,
    }
}


/// The view rectangle that focuses a point object, sixteen pixels square,
/// with the status to report.
pub fn focus_point(label: &str, point: PointI16) -> (r: (RectI16, String))
    ensures
        r.0 == (RectI16 { x: point.x, y: point.y, width: 16, height: 16 }),
        r.1@ == "Focused "@ + label@,
{
    let mut s = String::from_str("Focused ");
    s.append(label);
    (RectI16 { x: point.x, y: point.y, width: 16, height: 16 }, s)
}

} // verus!
