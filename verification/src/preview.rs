//! Which metasprite an animation or an entity shows at a given tick of the
//! editor's preview clock (sixty ticks a second).
use vstd::prelude::*;
use crate::bundle::{animation_ids, first_with_id, metasprite_ids, ProjectBundle};
use crate::text::str_equal;
use crate::workspace_file::{lemma_name_less_total, lemma_name_less_trans, name_less, names_in_order};
use crate::project::{AnimationFrame, AnimationResource, EntityPlacement, MetaspriteResource};

verus! {

/// How many ticks a frame lasts: its duration, at least one.
pub open spec fn frame_ticks(f: AnimationFrame) -> int {
    if f.duration_frames > 1 { f.duration_frames as int } else { 1 }
}

/// How many ticks the first `n` frames last.
pub open spec fn ticks_before(frames: Seq<AnimationFrame>, n: int) -> int
    decreases n,
{
    if n <= 0 {
        0
    } else {
        ticks_before(frames, n - 1) + frame_ticks(frames[n - 1])
    }
}

/// The frame shown at tick `t` of a loop of the frames: the one whose
/// ticks hold `t` modulo the loop's length.
pub open spec fn shows_frame(frames: Seq<AnimationFrame>, t: int, k: int) -> bool {
    let total = ticks_before(frames, frames.len() as int);
    0 <= k < frames.len() && ticks_before(frames, k) <= t % total < ticks_before(frames, k + 1)
}

proof fn lemma_ticks_grow(frames: Seq<AnimationFrame>, n: int)
    requires
        0 <= n <= frames.len(),
    ensures
        ticks_before(frames, n) >= n,
        forall|m: int| 0 <= m <= n ==> #[trigger] ticks_before(frames, m) <= ticks_before(frames, n),
    decreases n,
{
    if n > 0 {
        lemma_ticks_grow(frames, n - 1);
    }
}

/// The frame shown at a tick; none for an animation without frames.
pub fn frame_for_tick(animation: &AnimationResource, tick: u32) -> (r: Option<usize>)
    requires
        ticks_before(animation.frames@, animation.frames@.len() as int) <= u32::MAX,
    ensures
        animation.frames@.len() == 0 <==> r is None,
        r matches Some(k) ==> shows_frame(animation.frames@, tick as int, k as int),
{
    let frames = &animation.frames;
    let n = frames.len();
    if n == 0 {
        return None;
    }
    proof {
        lemma_ticks_grow(frames@, n as int);
    }
    let mut total: u32 = 0;
    let mut i: usize = 0;
    while i < n
        invariant
            n == frames@.len(),
            frames@ == animation.frames@,
            i <= n,
            total == ticks_before(frames@, i as int),
            ticks_before(frames@, n as int) <= u32::MAX,
            forall|m: int| 0 <= m <= n ==> #[trigger] ticks_before(frames@, m) <= ticks_before(frames@, n as int),
        decreases n - i,
    {
        let d = frames[i].duration_frames;
        assert(ticks_before(frames@, i + 1) <= ticks_before(frames@, n as int));
        assert(ticks_before(frames@, i + 1) == ticks_before(frames@, i as int) + frame_ticks(frames@[i as int]));
        total = total + if d > 1 { d as u32 } else { 1 };
        i = i + 1;
    }
    let t = tick % total;
    let mut cursor: u32 = 0;
    let mut k: usize = 0;
    while k < n
        invariant
            n == frames@.len(),
            frames@ == animation.frames@,
            n > 0,
            k <= n,
            total == ticks_before(frames@, n as int),
            total >= 1,
            t == tick as int % total as int,
            cursor == ticks_before(frames@, k as int),
            cursor <= t,
            forall|m: int| 0 <= m <= n ==> #[trigger] ticks_before(frames@, m) <= ticks_before(frames@, n as int),
        decreases n - k,
    {
        let d = frames[k].duration_frames;
        let length: u32 = if d > 1 { d as u32 } else { 1 };
        assert(ticks_before(frames@, k + 1) <= total);
        assert(ticks_before(frames@, k + 1) == ticks_before(frames@, k as int) + frame_ticks(frames@[k as int]));
        if t < cursor + length {
            return Some(k);
        }
        cursor = cursor + length;
        k = k + 1;
    }
    proof {
        assert(t < total);
    }
    None
}

/// The metasprite shown by an animation at a tick, if that frame's
/// metasprite exists.
pub fn metasprite_for_animation_tick<'a>(bundle: &'a ProjectBundle, animation: &AnimationResource, tick: u32) -> (r: Option<&'a MetaspriteResource>)
    requires
        ticks_before(animation.frames@, animation.frames@.len() as int) <= u32::MAX,
    ensures
        animation.frames@.len() == 0 ==> r is None,
        animation.frames@.len() > 0 ==> exists|k: int| #[trigger] shows_frame(animation.frames@, tick as int, k)
            && match first_with_id(metasprite_ids(bundle.metasprites@), animation.frames@[k].metasprite_id@) {
                Some(i) => r == Some(&bundle.metasprites@[i]),
                None => r is None,
            },
{
    match frame_for_tick(animation, tick) {
        None => None,
        Some(k) => bundle.metasprite(animation.frames[k].metasprite_id.as_str()),
    }
}

/// The id under which an archetype's idle animation is looked up.
pub open spec fn idle_id(archetype: Seq<char>) -> Seq<char> {
    archetype + "_idle"@
}

/// The name of an archetype's idle animation.
fn idle_animation_id(archetype: &str) -> (s: String)
    ensures
        s@ == idle_id(archetype@),
{
    let mut s = archetype.to_owned();
    s.append("_idle");
    s
}

/// Whether an entity is drawn with an animation: one named after its
/// archetype, or after its archetype with `_idle`.
pub fn entity_has_animation(bundle: &ProjectBundle, entity: &EntityPlacement) -> (r: bool)
    ensures
        r == (first_with_id(animation_ids(bundle.animations@), entity.archetype@) is Some || first_with_id(
            animation_ids(bundle.animations@),
            idle_id(entity.archetype@),
        ) is Some),
{
    if bundle.animation(entity.archetype.as_str()).is_some() {
        return true;
    }
    let idle = idle_animation_id(entity.archetype.as_str());
    bundle.animation(idle.as_str()).is_some()
}

/// The animation an entity is drawn with: the one named after its
/// archetype; else, when no metasprite has that name, the one named after
/// its archetype with `_idle`.
pub open spec fn entity_animation(bundle: ProjectBundle, entity: EntityPlacement) -> Option<int> {
    let ids = animation_ids(bundle.animations@);
    match first_with_id(ids, entity.archetype@) {
        Some(a) => Some(a),
        None => if first_with_id(metasprite_ids(bundle.metasprites@), entity.archetype@) is Some {
            None
        } else {
            first_with_id(ids, idle_id(entity.archetype@))
        },
    }
}

/// Every animation's frames fit the preview clock's counter.
pub open spec fn animations_fit(bundle: ProjectBundle) -> bool {
    forall|i: int|
        0 <= i < bundle.animations@.len() ==> ticks_before(
            (#[trigger] bundle.animations@[i]).frames@,
            bundle.animations@[i].frames@.len() as int,
        ) <= u32::MAX
}

/// The frames of the animation an entity is drawn with, if any, fit the
/// preview clock's counter.
pub open spec fn entity_ticks_fit(bundle: ProjectBundle, entity: EntityPlacement) -> bool {
    entity_animation(bundle, entity) matches Some(a) ==> ticks_before(
        bundle.animations@[a].frames@,
        bundle.animations@[a].frames@.len() as int,
    ) <= u32::MAX
}

/// The metasprite an entity shows at a tick: the frame of its animation,
/// else the metasprite named after its archetype, else the frame of its
/// idle animation.
pub fn metasprite_for_entity_tick<'a>(bundle: &'a ProjectBundle, entity: &EntityPlacement, tick: u32) -> (r: Option<&'a MetaspriteResource>)
    requires
        entity_ticks_fit(*bundle, *entity),
    ensures
        match entity_animation(*bundle, *entity) {
            Some(a) => {
                let frames = bundle.animations@[a].frames@;
                &&& frames.len() == 0 ==> r is None
                &&& frames.len() > 0 ==> exists|k: int| #[trigger] shows_frame(frames, tick as int, k)
                    && match first_with_id(metasprite_ids(bundle.metasprites@), frames[k].metasprite_id@) {
                        Some(i) => r == Some(&bundle.metasprites@[i]),
                        None => r is None,
                    }
            },
            None => match first_with_id(metasprite_ids(bundle.metasprites@), entity.archetype@) {
                Some(i) => r == Some(&bundle.metasprites@[i]),
                None => r is None,
            },
        },
{
    proof {
        crate::bundle::lemma_first_with_id(animation_ids(bundle.animations@), entity.archetype@);
        crate::bundle::lemma_first_with_id(animation_ids(bundle.animations@), idle_id(entity.archetype@));
    }
    if let Some(animation) = bundle.animation(entity.archetype.as_str()) {
        return metasprite_for_animation_tick(bundle, animation, tick);
    }
    if let Some(metasprite) = bundle.metasprite(entity.archetype.as_str()) {
        return Some(metasprite);
    }
    let idle = idle_animation_id(entity.archetype.as_str());
    match bundle.animation(idle.as_str()) {
        Some(animation) => metasprite_for_animation_tick(bundle, animation, tick),
        None => None,
    }
}

/// Whether an animation's frames fit the preview clock's counter.
pub fn frames_fit(frames: &Vec<AnimationFrame>) -> (r: bool)
    ensures
        r == (ticks_before(frames@, frames@.len() as int) <= u32::MAX),
{
    proof {
        lemma_ticks_grow(frames@, frames@.len() as int);
    }
    let mut total: u64 = 0;
    let mut i: usize = 0;
    while i < frames.len()
        invariant
            i <= frames@.len(),
            total == ticks_before(frames@, i as int),
            total <= u32::MAX,
            forall|m: int|
                0 <= m <= frames@.len() ==> #[trigger] ticks_before(frames@, m) <= ticks_before(
                    frames@,
                    frames@.len() as int,
                ),
        decreases frames@.len() - i,
    {
        let d = frames[i].duration_frames;
        assert(ticks_before(frames@, i + 1) == ticks_before(frames@, i as int) + frame_ticks(frames@[i as int]));
        total = total + if d > 1 { d as u64 } else { 1 };
        if total > 0xFFFF_FFFF {
            assert(ticks_before(frames@, i + 1) <= ticks_before(frames@, frames@.len() as int));
            return false;
        }
        i = i + 1;
    }
    true
}

/// Whether the frames of the animation an entity is drawn with, if any,
/// fit the preview clock's counter.
pub fn entity_animation_fits(bundle: &ProjectBundle, entity: &EntityPlacement) -> (r: bool)
    ensures
        r == entity_ticks_fit(*bundle, *entity),
{
    proof {
        crate::bundle::lemma_first_with_id(animation_ids(bundle.animations@), entity.archetype@);
        crate::bundle::lemma_first_with_id(animation_ids(bundle.animations@), idle_id(entity.archetype@));
    }
    if let Some(animation) = bundle.animation(entity.archetype.as_str()) {
        return frames_fit(&animation.frames);
    }
    if bundle.metasprite(entity.archetype.as_str()).is_some() {
        return true;
    }
    let idle = idle_animation_id(entity.archetype.as_str());
    match bundle.animation(idle.as_str()) {
        Some(animation) => frames_fit(&animation.frames),
        None => true,
    }
}

/// Whether every animation's frames fit the preview clock's counter.
pub fn animation_ticks_fit(bundle: &ProjectBundle) -> (r: bool)
    ensures
        r == animations_fit(*bundle),
{
    let mut i: usize = 0;
    while i < bundle.animations.len()
        invariant
            i <= bundle.animations@.len(),
            forall|j: int|
                0 <= j < i ==> ticks_before(
                    (#[trigger] bundle.animations@[j]).frames@,
                    bundle.animations@[j].frames@.len() as int,
                ) <= u32::MAX,
        decreases bundle.animations@.len() - i,
    {
        if !frames_fit(&bundle.animations[i].frames) {
            return false;
        }
        i = i + 1;
    }
    true
}


/// Each id comes strictly before every later one.
pub open spec fn strictly_sorted(ids: Seq<Seq<char>>) -> bool {
    forall|i: int, j: int| 0 <= i < j < ids.len() ==> name_less(#[trigger] ids[i], #[trigger] ids[j])
}

/// The ids of strings.
pub open spec fn string_views(s: Seq<String>) -> Seq<Seq<char>> {
    s.map_values(|x: String| x@)
}

/// Inserts `id` into a strictly sorted list of ids unless it holds it.
fn insert_id_sorted(ids: &mut Vec<String>, id: &String)
    requires
        strictly_sorted(string_views(old(ids)@)),
    ensures
        strictly_sorted(string_views(final(ids)@)),
        forall|x: Seq<char>| string_views(final(ids)@).contains(x) <==> (string_views(old(ids)@).contains(x) || x == id@),
{
    let ghost before = string_views(ids@);
    let mut p: usize = 0;
    while p < ids.len() && names_in_order(ids[p].as_str(), id.as_str())
        invariant
            before == string_views(ids@),
            p <= ids@.len(),
            forall|i: int| 0 <= i < p ==> name_less(#[trigger] before[i], id@),
        decreases ids@.len() - p,
    {
        p = p + 1;
    }
    if p < ids.len() && str_equal(ids[p].as_str(), id.as_str()) {
        proof {
            assert forall|x: Seq<char>| before.contains(x) <==> (before.contains(x) || x == id@) by {
                if x == id@ {
                    assert(before[p as int] == x);
                }
            }
        }
        return;
    }
    proof {
        if p < before.len() {
            assert(!name_less(before[p as int], id@));
            assert(before[p as int] != id@);
            if !name_less(id@, before[p as int]) {
                lemma_name_less_total(id@, before[p as int]);
            }
        }
    }
    ids.insert(p, id.clone());
    proof {
        let after = string_views(ids@);
        assert(after =~= before.insert(p as int, id@));
        assert forall|i: int, j: int| 0 <= i < j < after.len() implies name_less(
            #[trigger] after[i],
            #[trigger] after[j],
        ) by {
            if j < p {
                assert(after[i] == before[i] && after[j] == before[j]);
            } else if j == p {
                assert(after[i] == before[i]);
            } else if i == p {
                assert(after[j] == before[j - 1]);
                if j - 1 > p {
                    lemma_name_less_trans(id@, before[p as int], before[j - 1]);
                }
            } else if i < p {
                assert(after[i] == before[i] && after[j] == before[j - 1]);
                if j - 1 >= p {
                    assert(name_less(before[i], id@));
                    if j - 1 > p {
                        lemma_name_less_trans(id@, before[p as int], before[j - 1]);
                    }
                    lemma_name_less_trans(before[i], id@, before[j - 1]);
                }
            } else {
                assert(after[i] == before[i - 1] && after[j] == before[j - 1]);
            }
        }
        assert forall|x: Seq<char>| after.contains(x) <==> (before.contains(x) || x == id@) by {
            if after.contains(x) {
                let k = choose|k: int| 0 <= k < after.len() && after[k] == x;
                if k < p {
                    assert(before[k] == x);
                } else if k > p {
                    assert(before[k - 1] == x);
                }
            }
            if before.contains(x) {
                let k = choose|k: int| 0 <= k < before.len() && before[k] == x;
                if k < p {
                    assert(after[k] == x);
                } else {
                    assert(after[k + 1] == x);
                }
            }
            if x == id@ {
                assert(after[p as int] == x);
            }
        }
    }
}

/// The ids an entity can be drawn with: those of the animations and of the
/// metasprites, sorted by name, each once.
pub fn available_visual_ids(bundle: &ProjectBundle) -> (ids: Vec<String>)
    ensures
        strictly_sorted(string_views(ids@)),
        forall|x: Seq<char>|
            string_views(ids@).contains(x) <==> (animation_ids(bundle.animations@).contains(x) || metasprite_ids(
                bundle.metasprites@,
            ).contains(x)),
{
    let mut ids: Vec<String> = Vec::new();
    let ghost anims = animation_ids(bundle.animations@);
    let ghost metas = metasprite_ids(bundle.metasprites@);
    let mut i: usize = 0;
    while i < bundle.animations.len()
        invariant
            anims == animation_ids(bundle.animations@),
            i <= bundle.animations@.len(),
            strictly_sorted(string_views(ids@)),
            forall|x: Seq<char>| string_views(ids@).contains(x) <==> anims.take(i as int).contains(x),
        decreases bundle.animations@.len() - i,
    {
        insert_id_sorted(&mut ids, &bundle.animations[i].id);
        proof {
            assert(anims[i as int] == bundle.animations@[i as int].id@);
            assert(anims.take(i + 1) =~= anims.take(i as int).push(anims[i as int]));
            let t1 = anims.take(i + 1);
            let t0 = anims.take(i as int);
            assert forall|x: Seq<char>| t1.contains(x) <==> (t0.contains(x) || x == anims[i as int]) by {
                if t1.contains(x) {
                    let k = choose|k: int| 0 <= k < t1.len() && #[trigger] t1[k] == x;
                    if k < i {
                        assert(t0[k] == x);
                    }
                }
                if t0.contains(x) {
                    let k = choose|k: int| 0 <= k < t0.len() && #[trigger] t0[k] == x;
                    assert(t1[k] == x);
                }
                if x == anims[i as int] {
                    assert(t1[i as int] == x);
                }
            }
        }
        i = i + 1;
    }
    assert(anims.take(i as int) =~= anims);
    let mut j: usize = 0;
    while j < bundle.metasprites.len()
        invariant
            anims == animation_ids(bundle.animations@),
            metas == metasprite_ids(bundle.metasprites@),
            j <= bundle.metasprites@.len(),
            strictly_sorted(string_views(ids@)),
            forall|x: Seq<char>|
                #![trigger string_views(ids@).contains(x)]
                #![trigger anims.contains(x)]
                #![trigger metas.take(j as int).contains(x)]
                string_views(ids@).contains(x) <==> (anims.contains(x) || metas.take(j as int).contains(x)),
        decreases bundle.metasprites@.len() - j,
    {
        let ghost old_ids = string_views(ids@);
        insert_id_sorted(&mut ids, &bundle.metasprites[j].id);
        proof {
            assert(metas[j as int] == bundle.metasprites@[j as int].id@);
            let t1 = metas.take(j + 1);
            let t0 = metas.take(j as int);
            assert forall|x: Seq<char>| t1.contains(x) <==> (t0.contains(x) || x == metas[j as int]) by {
                if t1.contains(x) {
                    let k = choose|k: int| 0 <= k < t1.len() && #[trigger] t1[k] == x;
                    if k < j {
                        assert(t0[k] == x);
                    }
                }
                if t0.contains(x) {
                    let k = choose|k: int| 0 <= k < t0.len() && #[trigger] t0[k] == x;
                    assert(t1[k] == x);
                }
                if x == metas[j as int] {
                    assert(t1[j as int] == x);
                }
            }
            assert forall|x: Seq<char>| string_views(ids@).contains(x) <==> (anims.contains(x) || t1.contains(x)) by {
                assert(t1.contains(x) <==> (t0.contains(x) || x == metas[j as int]));
                assert(old_ids.contains(x) <==> (anims.contains(x) || t0.contains(x)));
                assert(string_views(ids@).contains(x) <==> (old_ids.contains(x) || x == metas[j as int]));
            }
        }
        j = j + 1;
    }
    assert(metas.take(j as int) =~= metas);
    ids
}

/// What the preview panel follows.
#[derive(Debug, Clone, Copy, PartialEq, Eq, Structural, Default)]
pub enum PreviewFocus {
    #[default]
    Nothing,
    Animation,
    Entity,
}

/// Whether the preview panel has something to show: the selected
/// animation, or the selected entity of the selected scene when it is
/// drawn with an animation.
pub open spec fn spec_has_context_preview(
    bundle: ProjectBundle,
    focus: PreviewFocus,
    selected_animation: usize,
    selected_scene: usize,
    selected_entity: Option<usize>,
) -> bool {
    match focus {
        PreviewFocus::Animation => selected_animation < bundle.animations@.len(),
        PreviewFocus::Entity => selected_scene < bundle.scenes@.len() && match selected_entity {
            Some(e) => e < bundle.scenes@[selected_scene as int].entities@.len() && draws_with_animation(
                bundle,
                bundle.scenes@[selected_scene as int].entities@[e as int],
            ),
            None => false,
        },
        PreviewFocus::Nothing => false,
    }
}

/// An entity is drawn with an animation named after its archetype, or
/// after its archetype with `_idle`.
pub open spec fn draws_with_animation(bundle: ProjectBundle, entity: EntityPlacement) -> bool {
    first_with_id(animation_ids(bundle.animations@), entity.archetype@) is Some || first_with_id(
        animation_ids(bundle.animations@),
        idle_id(entity.archetype@),
    ) is Some
}

/// Whether the preview panel has something to show.
pub fn has_context_preview(
    bundle: &ProjectBundle,
    focus: PreviewFocus,
    selected_animation: usize,
    selected_scene: usize,
    selected_entity: Option<usize>,
) -> (r: bool)
    ensures
        r == spec_has_context_preview(*bundle, focus, selected_animation, selected_scene, selected_entity),
{
    match focus {
        PreviewFocus::Animation => selected_animation < bundle.animations.len(),
        PreviewFocus::Entity => {
            if selected_scene >= bundle.scenes.len() {
                return false;
            }
            let scene = &bundle.scenes[selected_scene];
            match selected_entity {
                Some(e) => e < scene.entities.len() && entity_has_animation(bundle, &scene.entities[e]),
                None => false,
            }
        },
        PreviewFocus::Nothing => false,
    }
}

/// Whether previews need redrawing every frame: the preview panel shows
/// an animation, or an entity of the selected scene is drawn with one.
pub fn needs_animation_repaint(
    bundle: &ProjectBundle,
    focus: PreviewFocus,
    selected_animation: usize,
    selected_scene: usize,
    selected_entity: Option<usize>,
) -> (r: bool)
    ensures
        r == (spec_has_context_preview(*bundle, focus, selected_animation, selected_scene, selected_entity) || (
        selected_scene < bundle.scenes@.len() && exists|k: int|
            0 <= k < bundle.scenes@[selected_scene as int].entities@.len() && #[trigger] draws_with_animation(
                *bundle,
                bundle.scenes@[selected_scene as int].entities@[k],
            ))),
{
    if has_context_preview(bundle, focus, selected_animation, selected_scene, selected_entity) {
        return true;
    }
    if selected_scene >= bundle.scenes.len() {
        return false;
    }
    let scene = &bundle.scenes[selected_scene];
    let mut k: usize = 0;
    while k < scene.entities.len()
        invariant
            selected_scene < bundle.scenes@.len(),
            *scene == bundle.scenes@[selected_scene as int],
            k <= scene.entities@.len(),
            forall|m: int| 0 <= m < k ==> !#[trigger] draws_with_animation(*bundle, scene.entities@[m]),
        decreases scene.entities@.len() - k,
    {
        if entity_has_animation(bundle, &scene.entities[k]) {
            assert(scene.entities@[k as int] == bundle.scenes@[selected_scene as int].entities@[k as int]);
            assert(draws_with_animation(*bundle, bundle.scenes@[selected_scene as int].entities@[k as int]));
            return true;
        }
        k = k + 1;
    }
    false
}

} // verus!
