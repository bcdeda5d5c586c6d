//! Where an asset of a project is used: the one-line summary that the asset
//! browser shows for a scene, palette, tileset, metasprite, animation or
//! dialogue.
use vstd::prelude::*;
use crate::bundle::ProjectBundle;
use crate::events::{EventCommand, EventScript};
use crate::project::{AnimationResource, SceneResource};
use vstd::string::StringExecFns;
use crate::text::{decimal, push_decimal, str_equal};

verus! {

/// The number of `true` entries.
pub open spec fn count_true(s: Seq<bool>) -> nat
    decreases s.len(),
{
    if s.len() == 0 {
        0
    } else {
        count_true(s.drop_last()) + if s.last() {
            1nat
        } else {
            0nat
        }
    }
}

/// The sum of the entries.
pub open spec fn sum_nat(s: Seq<nat>) -> nat
    decreases s.len(),
{
    if s.len() == 0 {
        0
    } else {
        sum_nat(s.drop_last()) + s.last()
    }
}

/// A count as a machine word holds it: clamped to `usize::MAX`.
pub open spec fn capped(n: nat) -> nat {
    if n > usize::MAX {
        usize::MAX as nat
    } else {
        n
    }
}

proof fn lemma_count_take(s: Seq<bool>, i: int)
    requires
        0 <= i < s.len(),
    ensures
        count_true(s.take(i + 1)) == count_true(s.take(i)) + if s[i] {
            1nat
        } else {
            0nat
        },
{
    assert(s.take(i + 1).drop_last() =~= s.take(i));
}

pub(crate) proof fn lemma_count_le(s: Seq<bool>)
    ensures
        count_true(s) <= s.len(),
    decreases s.len(),
{
    if s.len() > 0 {
        lemma_count_le(s.drop_last());
    }
}

proof fn lemma_sum_take(s: Seq<nat>, i: int)
    requires
        0 <= i < s.len(),
    ensures
        sum_nat(s.take(i + 1)) == sum_nat(s.take(i)) + s[i],
{
    assert(s.take(i + 1).drop_last() =~= s.take(i));
}

/// A command loads the scene `id`.
pub open spec fn loads_scene(c: EventCommand, id: Seq<char>) -> bool {
    match c {
        EventCommand::LoadScene { scene_id, .. } => scene_id@ == id,
        _ => false,
    }
}

/// A command shows the dialogue `id`.
pub open spec fn shows_dialogue(c: EventCommand, id: Seq<char>) -> bool {
    match c {
        EventCommand::ShowDialogue { dialogue_id, .. } => dialogue_id@ == id,
        _ => false,
    }
}

/// Which commands of a script load the scene `id`.
pub open spec fn load_flags(script: EventScript, id: Seq<char>) -> Seq<bool> {
    Seq::new(script.commands@.len(), |k: int| loads_scene(script.commands@[k], id))
}

/// How many commands of a scene's scripts load the scene `id`.
pub open spec fn scene_loads(scene: SceneResource, id: Seq<char>) -> nat {
    sum_nat(Seq::new(scene.scripts@.len(), |k: int| count_true(load_flags(scene.scripts@[k], id))))
}

/// How many script commands of all scenes load the scene `id`.
pub open spec fn load_refs(scenes: Seq<SceneResource>, id: Seq<char>) -> nat {
    sum_nat(Seq::new(scenes.len(), |k: int| capped(scene_loads(scenes[k], id))))
}

/// Some command of a script shows the dialogue `id`.
pub open spec fn script_shows(script: EventScript, id: Seq<char>) -> bool {
    exists|k: int| 0 <= k < script.commands@.len() && #[trigger] shows_dialogue(script.commands@[k], id)
}

/// How many scripts of a scene show the dialogue `id`.
pub open spec fn scene_dialogue_scripts(scene: SceneResource, id: Seq<char>) -> nat {
    count_true(Seq::new(scene.scripts@.len(), |k: int| script_shows(scene.scripts@[k], id)))
}

/// How many scripts of all scenes show the dialogue `id`.
pub open spec fn dialogue_refs(scenes: Seq<SceneResource>, id: Seq<char>) -> nat {
    sum_nat(Seq::new(scenes.len(), |k: int| scene_dialogue_scripts(scenes[k], id)))
}

/// How many layers of a scene draw with the tileset `id`.
pub open spec fn scene_layer_uses(scene: SceneResource, id: Seq<char>) -> nat {
    count_true(Seq::new(scene.layers@.len(), |k: int| scene.layers@[k].tileset_id@ == id))
}

/// How many layers of all scenes draw with the tileset `id`.
pub open spec fn layer_uses(scenes: Seq<SceneResource>, id: Seq<char>) -> nat {
    sum_nat(Seq::new(scenes.len(), |k: int| scene_layer_uses(scenes[k], id)))
}

/// How many entities of a scene have the archetype `id`.
pub open spec fn scene_entity_uses(scene: SceneResource, id: Seq<char>) -> nat {
    count_true(Seq::new(scene.entities@.len(), |k: int| scene.entities@[k].archetype@ == id))
}

/// How many entities of all scenes have the archetype `id`.
pub open spec fn entity_uses(scenes: Seq<SceneResource>, id: Seq<char>) -> nat {
    sum_nat(Seq::new(scenes.len(), |k: int| scene_entity_uses(scenes[k], id)))
}

/// How many tilesets use the palette `id`.
pub open spec fn tileset_palette_uses(b: ProjectBundle, id: Seq<char>) -> nat {
    count_true(Seq::new(b.tilesets@.len(), |k: int| b.tilesets@[k].palette_id@ == id))
}

/// How many metasprites use the palette `id`.
pub open spec fn metasprite_palette_uses(b: ProjectBundle, id: Seq<char>) -> nat {
    count_true(Seq::new(b.metasprites@.len(), |k: int| b.metasprites@[k].palette_id@ == id))
}

/// Some frame of an animation shows the metasprite `id`.
pub open spec fn animation_shows(a: AnimationResource, id: Seq<char>) -> bool {
    exists|k: int| 0 <= k < a.frames@.len() && #[trigger] a.frames@[k].metasprite_id@ == id
}

/// How many animations show the metasprite `id`.
pub open spec fn animation_uses(b: ProjectBundle, id: Seq<char>) -> nat {
    count_true(Seq::new(b.animations@.len(), |k: int| animation_shows(b.animations@[k], id)))
}

/// The usage summary of the asset `id` of the kind `kind`.
pub open spec fn spec_usage_summary(b: ProjectBundle, kind: Seq<char>, id: Seq<char>) -> Seq<char> {
    if kind == "scene"@ {
        let entry = b.manifest.gameplay.entry_scene@ == id;
        let loads = capped(load_refs(b.scenes@, id));
        let loaded = "loaded by "@ + decimal(loads) + " script command(s)"@;
        if entry && loads > 0 {
            "entry scene | "@ + loaded
        } else if entry {
            "entry scene"@
        } else if loads > 0 {
            loaded
        } else {
            "No inbound references"@
        }
    } else if kind == "palette"@ {
        decimal(tileset_palette_uses(b, id)) + " tileset(s) | "@ + decimal(metasprite_palette_uses(b, id))
            + " metasprite(s)"@
    } else if kind == "tileset"@ {
        "Used by "@ + decimal(capped(layer_uses(b.scenes@, id))) + " layer(s)"@
    } else if kind == "metasprite"@ {
        decimal(animation_uses(b, id)) + " animation(s) | "@ + decimal(capped(entity_uses(b.scenes@, id)))
            + " entity placement(s)"@
    } else if kind == "animation"@ {
        "Used by "@ + decimal(capped(entity_uses(b.scenes@, id))) + " entity placement(s)"@
    } else if kind == "dialogue"@ {
        "Referenced by "@ + decimal(capped(dialogue_refs(b.scenes@, id))) + " script(s)"@
    } else {
        "No usage metadata"@
    }
}

/// How many commands of a script load the scene `id`.
fn count_script_loads(script: &EventScript, id: &str) -> (n: usize)
    ensures
        n == count_true(load_flags(*script, id@)),
{
    let ghost flags = load_flags(*script, id@);
    let mut n: usize = 0;
    let mut i: usize = 0;
    while i < script.commands.len()
        invariant
            i <= script.commands@.len(),
            flags == load_flags(*script, id@),
            n == count_true(flags.take(i as int)),
            n <= i,
        decreases script.commands@.len() - i,
    {
        proof {
            lemma_count_take(flags, i as int);
        }
        let hit = match &script.commands[i] {
            EventCommand::LoadScene { scene_id, .. } => str_equal(scene_id.as_str(), id),
            _ => false,
        };
        if hit {
            n = n + 1;
        }
        i = i + 1;
    }
    assert(flags.take(i as int) =~= flags);
    n
}

/// How many commands of a scene's scripts load the scene `id`, clamped.
fn count_scene_loads(scene: &SceneResource, id: &str) -> (n: usize)
    ensures
        n == capped(scene_loads(*scene, id@)),
{
    let ghost vals = Seq::new(scene.scripts@.len(), |k: int| count_true(load_flags(scene.scripts@[k], id@)));
    let mut n: usize = 0;
    let mut i: usize = 0;
    while i < scene.scripts.len()
        invariant
            i <= scene.scripts@.len(),
            vals == Seq::new(scene.scripts@.len(), |k: int| count_true(load_flags(scene.scripts@[k], id@))),
            n == capped(sum_nat(vals.take(i as int))),
        decreases scene.scripts@.len() - i,
    {
        proof {
            lemma_sum_take(vals, i as int);
        }
        let x = count_script_loads(&scene.scripts[i], id);
        n = n.saturating_add(x);
        i = i + 1;
    }
    assert(vals.take(i as int) =~= vals);
    n
}

/// How many script commands of all scenes load the scene `id`, clamped.
fn count_load_refs(scenes: &Vec<SceneResource>, id: &str) -> (n: usize)
    ensures
        n == capped(load_refs(scenes@, id@)),
{
    let ghost vals = Seq::new(scenes@.len(), |k: int| capped(scene_loads(scenes@[k], id@)));
    let mut n: usize = 0;
    let mut i: usize = 0;
    while i < scenes.len()
        invariant
            i <= scenes@.len(),
            vals == Seq::new(scenes@.len(), |k: int| capped(scene_loads(scenes@[k], id@))),
            n == capped(sum_nat(vals.take(i as int))),
        decreases scenes@.len() - i,
    {
        proof {
            lemma_sum_take(vals, i as int);
        }
        let x = count_scene_loads(&scenes[i], id);
        n = n.saturating_add(x);
        i = i + 1;
    }
    assert(vals.take(i as int) =~= vals);
    n
}

/// Whether some command of a script shows the dialogue `id`.
fn script_shows_dialogue(script: &EventScript, id: &str) -> (r: bool)
    ensures
        r == script_shows(*script, id@),
{
    let mut i: usize = 0;
    while i < script.commands.len()
        invariant
            i <= script.commands@.len(),
            forall|k: int| 0 <= k < i ==> !#[trigger] shows_dialogue(script.commands@[k], id@),
        decreases script.commands@.len() - i,
    {
        let hit = match &script.commands[i] {
            EventCommand::ShowDialogue { dialogue_id, .. } => str_equal(dialogue_id.as_str(), id),
            _ => false,
        };
        if hit {
            assert(shows_dialogue(script.commands@[i as int], id@));
            return true;
        }
        i = i + 1;
    }
    false
}

/// How many scripts of all scenes show the dialogue `id`, clamped.
fn count_dialogue_refs(scenes: &Vec<SceneResource>, id: &str) -> (n: usize)
    ensures
        n == capped(dialogue_refs(scenes@, id@)),
{
    let ghost vals = Seq::new(scenes@.len(), |k: int| scene_dialogue_scripts(scenes@[k], id@));
    let mut n: usize = 0;
    let mut i: usize = 0;
    while i < scenes.len()
        invariant
            i <= scenes@.len(),
            vals == Seq::new(scenes@.len(), |k: int| scene_dialogue_scripts(scenes@[k], id@)),
            n == capped(sum_nat(vals.take(i as int))),
        decreases scenes@.len() - i,
    {
        proof {
            lemma_sum_take(vals, i as int);
        }
        let scene = &scenes[i];
        let ghost flags = Seq::new(scene.scripts@.len(), |k: int| script_shows(scene.scripts@[k], id@));
        let mut m: usize = 0;
        let mut j: usize = 0;
        while j < scene.scripts.len()
            invariant
                j <= scene.scripts@.len(),
                flags == Seq::new(scene.scripts@.len(), |k: int| script_shows(scene.scripts@[k], id@)),
                m == count_true(flags.take(j as int)),
                m <= j,
            decreases scene.scripts@.len() - j,
        {
            proof {
                lemma_count_take(flags, j as int);
            }
            if script_shows_dialogue(&scene.scripts[j], id) {
                m = m + 1;
            }
            j = j + 1;
        }
        assert(flags.take(j as int) =~= flags);
        n = n.saturating_add(m);
        i = i + 1;
    }
    assert(vals.take(i as int) =~= vals);
    n
}

/// How many layers of all scenes draw with the tileset `id`, clamped.
fn count_layer_uses(scenes: &Vec<SceneResource>, id: &str) -> (n: usize)
    ensures
        n == capped(layer_uses(scenes@, id@)),
{
    let ghost vals = Seq::new(scenes@.len(), |k: int| scene_layer_uses(scenes@[k], id@));
    let mut n: usize = 0;
    let mut i: usize = 0;
    while i < scenes.len()
        invariant
            i <= scenes@.len(),
            vals == Seq::new(scenes@.len(), |k: int| scene_layer_uses(scenes@[k], id@)),
            n == capped(sum_nat(vals.take(i as int))),
        decreases scenes@.len() - i,
    {
        proof {
            lemma_sum_take(vals, i as int);
        }
        let scene = &scenes[i];
        let ghost flags = Seq::new(scene.layers@.len(), |k: int| scene.layers@[k].tileset_id@ == id@);
        let mut m: usize = 0;
        let mut j: usize = 0;
        while j < scene.layers.len()
            invariant
                j <= scene.layers@.len(),
                flags == Seq::new(scene.layers@.len(), |k: int| scene.layers@[k].tileset_id@ == id@),
                m == count_true(flags.take(j as int)),
                m <= j,
            decreases scene.layers@.len() - j,
        {
            proof {
                lemma_count_take(flags, j as int);
            }
            if str_equal(scene.layers[j].tileset_id.as_str(), id) {
                m = m + 1;
            }
            j = j + 1;
        }
        assert(flags.take(j as int) =~= flags);
        n = n.saturating_add(m);
        i = i + 1;
    }
    assert(vals.take(i as int) =~= vals);
    n
}

/// How many entities of all scenes have the archetype `id`, clamped.
fn count_entity_uses(scenes: &Vec<SceneResource>, id: &str) -> (n: usize)
    ensures
        n == capped(entity_uses(scenes@, id@)),
{
    let ghost vals = Seq::new(scenes@.len(), |k: int| scene_entity_uses(scenes@[k], id@));
    let mut n: usize = 0;
    let mut i: usize = 0;
    while i < scenes.len()
        invariant
            i <= scenes@.len(),
            vals == Seq::new(scenes@.len(), |k: int| scene_entity_uses(scenes@[k], id@)),
            n == capped(sum_nat(vals.take(i as int))),
        decreases scenes@.len() - i,
    {
        proof {
            lemma_sum_take(vals, i as int);
        }
        let scene = &scenes[i];
        let ghost flags = Seq::new(scene.entities@.len(), |k: int| scene.entities@[k].archetype@ == id@);
        let mut m: usize = 0;
        let mut j: usize = 0;
        while j < scene.entities.len()
            invariant
                j <= scene.entities@.len(),
                flags == Seq::new(scene.entities@.len(), |k: int| scene.entities@[k].archetype@ == id@),
                m == count_true(flags.take(j as int)),
                m <= j,
            decreases scene.entities@.len() - j,
        {
            proof {
                lemma_count_take(flags, j as int);
            }
            if str_equal(scene.entities[j].archetype.as_str(), id) {
                m = m + 1;
            }
            j = j + 1;
        }
        assert(flags.take(j as int) =~= flags);
        n = n.saturating_add(m);
        i = i + 1;
    }
    assert(vals.take(i as int) =~= vals);
    n
}

/// How many tilesets and how many metasprites use the palette `id`.
fn count_palette_uses(b: &ProjectBundle, id: &str) -> (r: (usize, usize))
    ensures
        r.0 == tileset_palette_uses(*b, id@),
        r.1 == metasprite_palette_uses(*b, id@),
{
    let ghost flags = Seq::new(b.tilesets@.len(), |k: int| b.tilesets@[k].palette_id@ == id@);
    let mut t: usize = 0;
    let mut i: usize = 0;
    while i < b.tilesets.len()
        invariant
            i <= b.tilesets@.len(),
            flags == Seq::new(b.tilesets@.len(), |k: int| b.tilesets@[k].palette_id@ == id@),
            t == count_true(flags.take(i as int)),
            t <= i,
        decreases b.tilesets@.len() - i,
    {
        proof {
            lemma_count_take(flags, i as int);
        }
        if str_equal(b.tilesets[i].palette_id.as_str(), id) {
            t = t + 1;
        }
        i = i + 1;
    }
    assert(flags.take(i as int) =~= flags);
    let ghost flags2 = Seq::new(b.metasprites@.len(), |k: int| b.metasprites@[k].palette_id@ == id@);
    let mut m: usize = 0;
    let mut j: usize = 0;
    while j < b.metasprites.len()
        invariant
            j <= b.metasprites@.len(),
            flags2 == Seq::new(b.metasprites@.len(), |k: int| b.metasprites@[k].palette_id@ == id@),
            m == count_true(flags2.take(j as int)),
            m <= j,
        decreases b.metasprites@.len() - j,
    {
        proof {
            lemma_count_take(flags2, j as int);
        }
        if str_equal(b.metasprites[j].palette_id.as_str(), id) {
            m = m + 1;
        }
        j = j + 1;
    }
    assert(flags2.take(j as int) =~= flags2);
    (t, m)
}

/// Whether some frame of an animation shows the metasprite `id`.
fn animation_shows_metasprite(a: &AnimationResource, id: &str) -> (r: bool)
    ensures
        r == animation_shows(*a, id@),
{
    let mut i: usize = 0;
    while i < a.frames.len()
        invariant
            i <= a.frames@.len(),
            forall|k: int| 0 <= k < i ==> #[trigger] a.frames@[k].metasprite_id@ != id@,
        decreases a.frames@.len() - i,
    {
        if str_equal(a.frames[i].metasprite_id.as_str(), id) {
            return true;
        }
        i = i + 1;
    }
    false
}

/// How many animations show the metasprite `id`.
fn count_animation_uses(b: &ProjectBundle, id: &str) -> (n: usize)
    ensures
        n == animation_uses(*b, id@),
{
    let ghost flags = Seq::new(b.animations@.len(), |k: int| animation_shows(b.animations@[k], id@));
    let mut n: usize = 0;
    let mut i: usize = 0;
    while i < b.animations.len()
        invariant
            i <= b.animations@.len(),
            flags == Seq::new(b.animations@.len(), |k: int| animation_shows(b.animations@[k], id@)),
            n == count_true(flags.take(i as int)),
            n <= i,
        decreases b.animations@.len() - i,
    {
        proof {
            lemma_count_take(flags, i as int);
        }
        if animation_shows_metasprite(&b.animations[i], id) {
            n = n + 1;
        }
        i = i + 1;
    }
    assert(flags.take(i as int) =~= flags);
    n
}

/// The one-line summary of where the asset `id` of the kind `kind`
/// (`scene`, `palette`, `tileset`, `metasprite`, `animation` or
/// `dialogue`) is used in a project.
pub fn asset_usage_summary(bundle: &ProjectBundle, kind: &str, id: &str) -> (s: String)
    ensures
        s@ == spec_usage_summary(*bundle, kind@, id@),
{
    proof {
        reveal_strlit("scene");
        reveal_strlit("palette");
        reveal_strlit("tileset");
        reveal_strlit("metasprite");
        reveal_strlit("animation");
        reveal_strlit("dialogue");
    }
    let mut s = String::new();
    if str_equal(kind, "scene") {
        let entry = str_equal(bundle.manifest.gameplay.entry_scene.as_str(), id);
        let loads = count_load_refs(&bundle.scenes, id);
        if entry && loads > 0 {
            s.append("entry scene | ");
            s.append("loaded by ");
            push_decimal(&mut s, loads as u128);
            s.append(" script command(s)");
        } else if entry {
            s.append("entry scene");
        } else if loads > 0 {
            s.append("loaded by ");
            push_decimal(&mut s, loads as u128);
            s.append(" script command(s)");
        } else {
            s.append("No inbound references");
        }
    } else if str_equal(kind, "palette") {
        let (t, m) = count_palette_uses(bundle, id);
        push_decimal(&mut s, t as u128);
        s.append(" tileset(s) | ");
        push_decimal(&mut s, m as u128);
        s.append(" metasprite(s)");
    } else if str_equal(kind, "tileset") {
        let n = count_layer_uses(&bundle.scenes, id);
        s.append("Used by ");
        push_decimal(&mut s, n as u128);
        s.append(" layer(s)");
    } else if str_equal(kind, "metasprite") {
        let a = count_animation_uses(bundle, id);
        let e = count_entity_uses(&bundle.scenes, id);
        push_decimal(&mut s, a as u128);
        s.append(" animation(s) | ");
        push_decimal(&mut s, e as u128);
        s.append(" entity placement(s)");
    } else if str_equal(kind, "animation") {
        let e = count_entity_uses(&bundle.scenes, id);
        s.append("Used by ");
        push_decimal(&mut s, e as u128);
        s.append(" entity placement(s)");
    } else if str_equal(kind, "dialogue") {
        let n = count_dialogue_refs(&bundle.scenes, id);
        s.append("Referenced by ");
        push_decimal(&mut s, n as u128);
        s.append(" script(s)");
    } else {
        s.append("No usage metadata");
    }
    assert(s@ =~= spec_usage_summary(*bundle, kind@, id@));
    s
}

} // verus!
