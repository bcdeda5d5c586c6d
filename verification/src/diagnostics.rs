//! The diagnostics list of the editor: which findings of the project check
//! the list shows, and the quick fixes it offers for some of them.
use vstd::prelude::*;
use vstd::string::StringExecFns;
use crate::bundle::{first_with_id, palette_ids, scene_ids, tileset_ids, ProjectBundle};
use crate::editor::{filter_matches, lowered, spec_filter_matches, to_ascii_lower, DiagnosticsViewState};
use crate::events::{spec_trim, trimmed, DialogueGraph, DialogueNode, EventCommand, EventScript};
use crate::project::{PaletteResource, RgbaColor, SceneResource, TilesetResource};
use crate::text::{decimal, push_char, push_decimal, str_equal};
use crate::unique_ids::{deduped_ids, id_views, rename_duplicate_ids};

verus! {

/// How serious a finding is.
#[derive(Debug, Clone, Copy, PartialEq, Eq, Structural)]
pub enum Severity {
    Error,
    Warning,
}

/// One finding of the project check: its code, its message, and the path
/// of the asset it is about (`scene:<id>`, `palette:<id>` and so on).
#[derive(Debug, Clone, PartialEq, Eq)]
pub struct Diagnostic {
    pub severity: Severity,
    pub code: String,
    pub message: String,
    pub path: Option<String>,
}

/// The path of a finding, empty when it has none.
pub open spec fn path_text(d: Diagnostic) -> Seq<char> {
    match d.path {
        Some(p) => p@,
        None => Seq::empty(),
    }
}

/// The list shows a finding: its severity is shown, and the search, trimmed
/// and lowercased, is empty or occurs in its code, message or path with
/// ASCII letters lowercased.
pub open spec fn spec_matches_filters(view: DiagnosticsViewState, d: Diagnostic) -> bool {
    let severity_shown = match d.severity {
        Severity::Error => view.show_errors,
        Severity::Warning => view.show_warnings,
    };
    let search = lowered(spec_trim(view.search@));
    severity_shown && (search.len() == 0 || spec_filter_matches(search, d.code@) || spec_filter_matches(
        search,
        d.message@,
    ) || spec_filter_matches(search, path_text(d)))
}

/// A text with its ASCII letters lowercased.
pub(crate) fn lowercase_ascii(s: &str) -> (r: String)
    ensures
        r@ == lowered(s@),
{
    let n = s.unicode_len();
    let mut r = String::new();
    let mut i: usize = 0;
    while i < n
        invariant
            n == s@.len(),
            i <= n,
            r@ == lowered(s@).take(i as int),
        decreases n - i,
    {
        push_char(&mut r, to_ascii_lower(s.get_char(i)));
        assert(r@ =~= lowered(s@).take(i + 1));
        i = i + 1;
    }
    assert(lowered(s@).take(n as int) =~= lowered(s@));
    r
}

/// Whether the list shows a finding.
pub fn diagnostic_matches_filters(view: &DiagnosticsViewState, d: &Diagnostic) -> (r: bool)
    ensures
        r == spec_matches_filters(*view, *d),
{
    let shown = match d.severity {
        Severity::Error => view.show_errors,
        Severity::Warning => view.show_warnings,
    };
    if !shown {
        return false;
    }
    let t = trimmed(view.search.as_str());
    let search = lowercase_ascii(t.as_str());
    if search.unicode_len() == 0 {
        return true;
    }
    let path_hit = match &d.path {
        Some(p) => filter_matches(search.as_str(), p.as_str()),
        None => filter_matches(search.as_str(), ""),
    };
    proof {
        reveal_strlit("");
    }
    filter_matches(search.as_str(), d.code.as_str()) || filter_matches(search.as_str(), d.message.as_str())
        || path_hit
}

fn copy_diagnostic(d: &Diagnostic) -> (r: Diagnostic)
    ensures
        r == *d,
{
    Diagnostic {
        severity: d.severity,
        code: d.code.clone(),
        message: d.message.clone(),
        path: match &d.path {
            Some(p) => Some(p.clone()),
            None => None,
        },
    }
}

/// Copies the findings of `items` that the list shows onto `out`.
fn push_shown(view: &DiagnosticsViewState, items: &Vec<Diagnostic>, out: &mut Vec<Diagnostic>)
    ensures
        final(out)@ == old(out)@ + items@.filter(|d: Diagnostic| spec_matches_filters(*view, d)),
{
    let ghost start = out@;
    let mut i: usize = 0;
    while i < items.len()
        invariant
            i <= items@.len(),
            out@ == start + items@.take(i as int).filter(|d: Diagnostic| spec_matches_filters(*view, d)),
        decreases items@.len() - i,
    {
        proof {
            reveal(Seq::filter);
            assert(items@.take(i + 1).drop_last() =~= items@.take(i as int));
        }
        if diagnostic_matches_filters(view, &items[i]) {
            out.push(copy_diagnostic(&items[i]));
            assert(out@ =~= start + items@.take(i + 1).filter(|d: Diagnostic| spec_matches_filters(*view, d)));
        }
        i = i + 1;
    }
    assert(items@.take(i as int) =~= items@);
}

/// The findings the list shows: errors first, then warnings.
pub fn filtered_diagnostics(view: &DiagnosticsViewState, errors: &Vec<Diagnostic>, warnings: &Vec<Diagnostic>) -> (r:
    Vec<Diagnostic>)
    ensures
        r@ == (errors@ + warnings@).filter(|d: Diagnostic| spec_matches_filters(*view, d)),
{
    let mut out: Vec<Diagnostic> = Vec::new();
    push_shown(view, errors, &mut out);
    push_shown(view, warnings, &mut out);
    proof {
        Seq::filter_distributes_over_add(errors@, warnings@, |d: Diagnostic| spec_matches_filters(*view, d));
    }
    assert(out@ =~= (errors@ + warnings@).filter(|d: Diagnostic| spec_matches_filters(*view, d)));
    out
}


/// `s` without `prefix`, when it starts with it.
pub open spec fn spec_strip(s: Seq<char>, prefix: Seq<char>) -> Option<Seq<char>> {
    if prefix.len() <= s.len() && s.take(prefix.len() as int) == prefix {
        Some(s.skip(prefix.len() as int))
    } else {
        None
    }
}

/// The id that the path of a finding names after `prefix`.
pub open spec fn path_id(d: Diagnostic, prefix: Seq<char>) -> Option<Seq<char>> {
    match d.path {
        Some(p) => spec_strip(p@, prefix),
        None => None,
    }
}

/// `s` without `prefix`, when it starts with it.
fn strip_prefix(s: &str, prefix: &str) -> (r: Option<String>)
    ensures
        match spec_strip(s@, prefix@) {
            Some(rest) => r matches Some(x) && x@ == rest,
            None => r is None,
        },
{
    let n = s.unicode_len();
    let m = prefix.unicode_len();
    if m > n {
        return None;
    }
    let mut i: usize = 0;
    while i < m
        invariant
            n == s@.len(),
            m == prefix@.len(),
            m <= n,
            i <= m,
            forall|j: int| 0 <= j < i ==> s@[j] == prefix@[j],
        decreases m - i,
    {
        if s.get_char(i) != prefix.get_char(i) {
            assert(s@.take(m as int)[i as int] != prefix@[i as int]);
            return None;
        }
        i = i + 1;
    }
    assert(s@.take(m as int) =~= prefix@);
    let mut rest = String::new();
    let mut k: usize = m;
    while k < n
        invariant
            n == s@.len(),
            m <= k <= n,
            rest@ == s@.subrange(m as int, k as int),
        decreases n - k,
    {
        push_char(&mut rest, s.get_char(k));
        assert(rest@ =~= s@.subrange(m as int, k + 1));
        k = k + 1;
    }
    assert(s@.subrange(m as int, n as int) =~= s@.skip(m as int));
    Some(rest)
}

/// The codes of the findings that have a quick fix.
pub open spec fn spec_has_quick_fix(code: Seq<char>) -> bool {
    ||| code == "manifest.missing_entry_scene"@
    ||| code == "asset.palette_too_large"@
    ||| code == "asset.missing_palette"@
    ||| code == "scene.trigger_missing_script"@
    ||| code == "script.dialogue_missing"@
    ||| code == "script.target_scene_missing"@
    ||| code == "scene.duplicate_id"@
    ||| code == "dialogue.duplicate_id"@
    ||| code == "manifest.duplicate_physics"@
}

/// Whether the list offers a quick fix for a finding.
pub fn diagnostic_has_quick_fix(d: &Diagnostic) -> (r: bool)
    ensures
        r == spec_has_quick_fix(d.code@),
{
    let c = d.code.as_str();
    str_equal(c, "manifest.missing_entry_scene") || str_equal(c, "asset.palette_too_large") || str_equal(
        c,
        "asset.missing_palette",
    ) || str_equal(c, "scene.trigger_missing_script") || str_equal(c, "script.dialogue_missing") || str_equal(
        c,
        "script.target_scene_missing",
    ) || str_equal(c, "scene.duplicate_id") || str_equal(c, "dialogue.duplicate_id") || str_equal(
        c,
        "manifest.duplicate_physics",
    )
}

/// Two bundles agree on everything but the parts flagged.
pub open spec fn bundle_same_but(
    a: ProjectBundle,
    b: ProjectBundle,
    entry: bool,
    scenes: bool,
    dialogues: bool,
    palettes: bool,
    tilesets: bool,
) -> bool {
    &&& a.manifest.meta == b.manifest.meta
    &&& a.manifest.build == b.manifest.build
    &&& a.manifest.editor == b.manifest.editor
    &&& a.manifest.gameplay.player == b.manifest.gameplay.player
    &&& !entry ==> a.manifest.gameplay.entry_scene == b.manifest.gameplay.entry_scene
    &&& !scenes ==> a.scenes == b.scenes
    &&& !dialogues ==> a.dialogues == b.dialogues
    &&& !palettes ==> a.palettes == b.palettes
    &&& !tilesets ==> a.tilesets == b.tilesets
    &&& a.metasprites == b.metasprites
    &&& a.animations == b.animations
}

/// The entry scene made the first scene; `None` without scenes.
pub open spec fn entry_fixed(o: ProjectBundle, f: ProjectBundle, status: Option<String>) -> bool {
    if o.scenes@.len() > 0 {
        &&& bundle_same_but(f, o, true, false, false, false, false)
        &&& f.manifest.gameplay.entry_scene == o.scenes@[0].id
        &&& status matches Some(s) && s@ == "Set entry scene to '"@ + o.scenes@[0].id@ + "'"@
    } else {
        status is None && f == o
    }
}

fn fix_entry_scene(b: &mut ProjectBundle) -> (status: Option<String>)
    ensures
        entry_fixed(*old(b), *final(b), status),
{
    if b.scenes.len() == 0 {
        return None;
    }
    let id = b.scenes[0].id.clone();
    let mut s = String::from_str("Set entry scene to '");
    s.append(id.as_str());
    s.append("'");
    b.manifest.gameplay.entry_scene = id;
    Some(s)
}

/// The first palette named by the finding's path cut to `max` colors.
pub open spec fn palette_fixed(o: ProjectBundle, f: ProjectBundle, d: Diagnostic, max: usize, status: Option<String>) -> bool {
    match path_id(d, "palette:"@) {
        Some(id) => match first_with_id(palette_ids(o.palettes@), id) {
            Some(p) => {
                let before = o.palettes@[p];
                &&& bundle_same_but(f, o, false, false, false, true, false)
                &&& f.palettes@.len() == o.palettes@.len()
                &&& forall|j: int| 0 <= j < o.palettes@.len() && j != p ==> f.palettes@[j] == o.palettes@[j]
                &&& f.palettes@[p].id == before.id
                &&& f.palettes@[p].colors@ == if max <= before.colors@.len() {
                    before.colors@.take(max as int)
                } else {
                    before.colors@
                }
                &&& status matches Some(s) && s@ == "Trimmed palette '"@ + before.id@ + "' to "@ + decimal(max as nat)
                    + " colors"@
            },
            None => status is None && f == o,
        },
        None => status is None && f == o,
    }
}

fn fix_palette_size(b: &mut ProjectBundle, d: &Diagnostic, max: usize) -> (status: Option<String>)
    ensures
        palette_fixed(*old(b), *final(b), *d, max, status),
{
    proof {
        reveal_strlit("palette:");
    }
    let id = match &d.path {
        Some(p) => match strip_prefix(p.as_str(), "palette:") {
            Some(id) => id,
            None => {
                return None;
            },
        },
        None => {
            return None;
        },
    };
    let p = match b.palette_index(id.as_str()) {
        Some(p) => p,
        None => {
            return None;
        },
    };
    let mut palettes: Vec<PaletteResource> = Vec::new();
    std::mem::swap(&mut palettes, &mut b.palettes);
    let ghost before = palettes@;
    let mut palette = palettes.remove(p);
    palette.colors.truncate(max);
    let mut s = String::from_str("Trimmed palette '");
    s.append(palette.id.as_str());
    s.append("' to ");
    push_decimal(&mut s, max as u128);
    s.append(" colors");
    palettes.insert(p, palette);
    proof {
        assert forall|j: int| 0 <= j < before.len() && j != p implies palettes@[j] == before[j] by {
            if j < p {
                assert(before.remove(p as int)[j] == before[j]);
            } else {
                assert(before.remove(p as int)[j - 1] == before[j]);
            }
        }
        assert(before[p as int].colors@.subrange(0, max as int) =~= before[p as int].colors@.take(max as int));
    }
    std::mem::swap(&mut palettes, &mut b.palettes);
    Some(s)
}

/// The first tileset named by the finding's path given the first palette.
pub open spec fn tileset_palette_fixed(o: ProjectBundle, f: ProjectBundle, d: Diagnostic, status: Option<String>) -> bool {
    match path_id(d, "tileset:"@) {
        Some(id) => if o.palettes@.len() > 0 {
            match first_with_id(tileset_ids(o.tilesets@), id) {
                Some(t) => {
                    let before = o.tilesets@[t];
                    &&& bundle_same_but(f, o, false, false, false, false, true)
                    &&& f.tilesets@ == o.tilesets@.update(t, TilesetResource { palette_id: o.palettes@[0].id, ..before })
                    &&& status matches Some(s) && s@ == "Reassigned '"@ + before.id@ + "' to palette '"@
                        + o.palettes@[0].id@ + "'"@
                },
                None => status is None && f == o,
            }
        } else {
            status is None && f == o
        },
        None => status is None && f == o,
    }
}

fn fix_tileset_palette(b: &mut ProjectBundle, d: &Diagnostic) -> (status: Option<String>)
    ensures
        tileset_palette_fixed(*old(b), *final(b), *d, status),
{
    proof {
        reveal_strlit("tileset:");
    }
    let id = match &d.path {
        Some(p) => match strip_prefix(p.as_str(), "tileset:") {
            Some(id) => id,
            None => {
                return None;
            },
        },
        None => {
            return None;
        },
    };
    if b.palettes.len() == 0 {
        return None;
    }
    let t = match b.tileset_index(id.as_str()) {
        Some(t) => t,
        None => {
            return None;
        },
    };
    let palette_id = b.palettes[0].id.clone();
    let mut tilesets: Vec<TilesetResource> = Vec::new();
    std::mem::swap(&mut tilesets, &mut b.tilesets);
    let ghost before = tilesets@;
    let mut tileset = tilesets.remove(t);
    let mut s = String::from_str("Reassigned '");
    s.append(tileset.id.as_str());
    s.append("' to palette '");
    s.append(palette_id.as_str());
    s.append("'");
    tileset.palette_id = palette_id;
    tilesets.insert(t, tileset);
    assert(tilesets@ =~= before.update(t as int, TilesetResource { palette_id: b.palettes@[0].id, ..before[t as int] }));
    std::mem::swap(&mut tilesets, &mut b.tilesets);
    Some(s)
}


/// Two scenes agree on everything but their scripts.
pub open spec fn same_but_scripts(a: SceneResource, b: SceneResource) -> bool {
    &&& a.id == b.id && a.kind == b.kind && a.size_tiles == b.size_tiles
    &&& a.chunk_size_tiles == b.chunk_size_tiles && a.background_color_index == b.background_color_index
    &&& a.layers == b.layers && a.collision == b.collision && a.spawns == b.spawns
    &&& a.checkpoints == b.checkpoints && a.entities == b.entities && a.triggers == b.triggers
}

/// The ids of strings.
pub open spec fn views_of(s: Seq<String>) -> Seq<Seq<char>> {
    s.map_values(|x: String| x@)
}

/// `new` is `old` with a scene load (or, for `dialogue`, a dialogue) whose
/// target is not among `valid` sent to `to` instead.
pub open spec fn redirected_as(old: EventCommand, new: EventCommand, valid: Seq<Seq<char>>, to: Seq<char>, dialogue: bool) -> bool {
    match old {
        EventCommand::LoadScene { scene_id, spawn } => if !dialogue && !valid.contains(scene_id@) {
            new matches EventCommand::LoadScene { scene_id: s2, spawn: p2 } && s2@ == to && p2 == spawn
        } else {
            new == old
        },
        EventCommand::ShowDialogue { dialogue_id, node_id } => if dialogue && !valid.contains(dialogue_id@) {
            new matches EventCommand::ShowDialogue { dialogue_id: d2, node_id: n2 } && d2@ == to && n2 == node_id
        } else {
            new == old
        },
        _ => new == old,
    }
}

/// Every script command of the scenes redirected, nothing else changed.
pub open spec fn scenes_redirected(
    o: Seq<SceneResource>,
    f: Seq<SceneResource>,
    valid: Seq<Seq<char>>,
    to: Seq<char>,
    dialogue: bool,
) -> bool {
    &&& f.len() == o.len()
    &&& forall|i: int|
        0 <= i < o.len() ==> {
            &&& same_but_scripts(#[trigger] f[i], o[i])
            &&& f[i].scripts@.len() == o[i].scripts@.len()
            &&& forall|j: int|
                0 <= j < o[i].scripts@.len() ==> {
                    &&& (#[trigger] f[i].scripts@[j]).id == o[i].scripts@[j].id
                    &&& f[i].scripts@[j].commands@.len() == o[i].scripts@[j].commands@.len()
                    &&& forall|k: int|
                        0 <= k < o[i].scripts@[j].commands@.len() ==> redirected_as(
                            o[i].scripts@[j].commands@[k],
                            #[trigger] f[i].scripts@[j].commands@[k],
                            valid,
                            to,
                            dialogue,
                        )
                }
        }
}

/// Whether `valid` holds `id`.
fn holds_id(valid: &Vec<String>, id: &str) -> (r: bool)
    ensures
        r == views_of(valid@).contains(id@),
{
    let mut i: usize = 0;
    while i < valid.len()
        invariant
            i <= valid@.len(),
            forall|j: int| 0 <= j < i ==> valid@[j]@ != id@,
        decreases valid@.len() - i,
    {
        if str_equal(valid[i].as_str(), id) {
            assert(views_of(valid@)[i as int] == id@);
            return true;
        }
        i = i + 1;
    }
    proof {
        if views_of(valid@).contains(id@) {
            let k = choose|k: int| 0 <= k < views_of(valid@).len() && views_of(valid@)[k] == id@;
            assert(valid@[k]@ == id@);
        }
    }
    false
}

fn copy_option_string(o: &Option<String>) -> (r: Option<String>)
    ensures
        r == *o,
{
    match o {
        Some(x) => Some(x.clone()),
        None => None,
    }
}

/// Redirects the commands of one script.
fn redirect_commands(commands: &mut Vec<EventCommand>, valid: &Vec<String>, to: &String, dialogue: bool)
    ensures
        final(commands)@.len() == old(commands)@.len(),
        forall|k: int|
            0 <= k < old(commands)@.len() ==> redirected_as(
                old(commands)@[k],
                #[trigger] final(commands)@[k],
                views_of(valid@),
                to@,
                dialogue,
            ),
{
    let ghost before = commands@;
    let mut k: usize = 0;
    while k < commands.len()
        invariant
            commands@.len() == before.len(),
            k <= before.len(),
            forall|m: int| 0 <= m < k ==> redirected_as(before[m], #[trigger] commands@[m], views_of(valid@), to@, dialogue),
            forall|m: int| k <= m < before.len() ==> #[trigger] commands@[m] == before[m],
        decreases before.len() - k,
    {
        let replacement = match &commands[k] {
            EventCommand::LoadScene { scene_id, spawn } => if !dialogue && !holds_id(valid, scene_id.as_str()) {
                Some(EventCommand::LoadScene { scene_id: to.clone(), spawn: copy_option_string(spawn) })
            } else {
                None
            },
            EventCommand::ShowDialogue { dialogue_id, node_id } => if dialogue && !holds_id(
                valid,
                dialogue_id.as_str(),
            ) {
                Some(EventCommand::ShowDialogue { dialogue_id: to.clone(), node_id: copy_option_string(node_id) })
            } else {
                None
            },
            _ => None,
        };
        if let Some(c) = replacement {
            commands.set(k, c);
        }
        k = k + 1;
    }
}

/// Redirects the commands of every script of every scene.
fn redirect_scenes(scenes: &mut Vec<SceneResource>, valid: &Vec<String>, to: &String, dialogue: bool)
    ensures
        scenes_redirected(old(scenes)@, final(scenes)@, views_of(valid@), to@, dialogue),
{
    let ghost before = scenes@;
    let mut rest: Vec<SceneResource> = Vec::new();
    std::mem::swap(&mut rest, scenes);
    let mut done: Vec<SceneResource> = Vec::new();
    while rest.len() > 0
        invariant
            before.len() == done@.len() + rest@.len(),
            forall|m: int| 0 <= m < rest@.len() ==> #[trigger] rest@[m] == before[done@.len() + m],
            scenes_redirected(before.take(done@.len() as int), done@, views_of(valid@), to@, dialogue),
        decreases rest@.len(),
    {
        let ghost n = done@.len() as int;
        let mut scene = rest.remove(0);
        let ghost old_scene = scene;
        assert(old_scene == before[n]);
        let mut scripts: Vec<EventScript> = Vec::new();
        std::mem::swap(&mut scripts, &mut scene.scripts);
        let ghost old_scripts = scripts@;
        let mut new_scripts: Vec<EventScript> = Vec::new();
        let mut j: usize = 0;
        while scripts.len() > 0
            invariant
                old_scripts.len() == new_scripts@.len() + scripts@.len(),
                forall|m: int| 0 <= m < scripts@.len() ==> #[trigger] scripts@[m] == old_scripts[new_scripts@.len() + m],
                forall|m: int|
                    0 <= m < new_scripts@.len() ==> {
                        &&& (#[trigger] new_scripts@[m]).id == old_scripts[m].id
                        &&& new_scripts@[m].commands@.len() == old_scripts[m].commands@.len()
                        &&& forall|k: int|
                            0 <= k < old_scripts[m].commands@.len() ==> redirected_as(
                                old_scripts[m].commands@[k],
                                #[trigger] new_scripts@[m].commands@[k],
                                views_of(valid@),
                                to@,
                                dialogue,
                            )
                    },
            decreases scripts@.len(),
        {
            let mut script = scripts.remove(0);
            redirect_commands(&mut script.commands, valid, to, dialogue);
            new_scripts.push(script);
        }
        scene.scripts = new_scripts;
        let ghost prev = done@;
        done.push(scene);
        proof {
            assert(before.take(n + 1) =~= before.take(n).push(before[n]));
            assert forall|i: int| 0 <= i < n + 1 implies same_but_scripts(#[trigger] done@[i], before.take(n + 1)[i]) by {
                if i < n {
                    assert(done@[i] == prev[i]);
                    assert(before.take(n + 1)[i] == before.take(n)[i]);
                }
            }
        }
    }
    assert(before.take(done@.len() as int) =~= before);
    *scenes = done;
}

/// The ids of the scripts of a scene.
pub open spec fn script_ids(scene: SceneResource) -> Seq<Seq<char>> {
    scene.scripts@.map_values(|x: EventScript| x.id@)
}

/// The script ids that triggers of a scene name but no script of it has,
/// in trigger order.
pub open spec fn missing_scripts(scene: SceneResource) -> Seq<Seq<char>> {
    Seq::new(scene.triggers@.len(), |i: int| scene.triggers@[i].script_id@).filter(
        |id: Seq<char>| !script_ids(scene).contains(id),
    )
}


/// Stub scripts added to the scene named by the finding's path for the
/// script ids its triggers name but it lacks; `None` when none is lacking.
pub open spec fn stubs_added(o: ProjectBundle, f: ProjectBundle, d: Diagnostic, status: Option<String>) -> bool {
    match path_id(d, "scene:"@) {
        Some(id) => match first_with_id(scene_ids(o.scenes@), id) {
            Some(k) => {
                let scene = o.scenes@[k];
                let miss = missing_scripts(scene);
                if miss.len() > 0 {
                    let after = f.scenes@[k];
                    &&& bundle_same_but(f, o, false, true, false, false, false)
                    &&& f.scenes@.len() == o.scenes@.len()
                    &&& forall|j: int| 0 <= j < o.scenes@.len() && j != k ==> f.scenes@[j] == o.scenes@[j]
                    &&& same_but_scripts(after, scene)
                    &&& after.scripts@.len() == scene.scripts@.len() + miss.len()
                    &&& after.scripts@.take(scene.scripts@.len() as int) == scene.scripts@
                    &&& forall|m: int|
                        0 <= m < miss.len() ==> (#[trigger] after.scripts@[scene.scripts@.len() + m]).id@ == miss[m]
                            && after.scripts@[scene.scripts@.len() + m].commands@.len() == 0
                    &&& status matches Some(s) && s@ == "Added "@ + decimal(miss.len()) + " missing script stub(s) to '"@
                        + scene.id@ + "'"@
                } else {
                    status is None && f == o
                }
            },
            None => status is None && f == o,
        },
        None => status is None && f == o,
    }
}

fn fix_script_stubs(b: &mut ProjectBundle, d: &Diagnostic) -> (status: Option<String>)
    ensures
        stubs_added(*old(b), *final(b), *d, status),
{
    proof {
        reveal_strlit("scene:");
    }
    let id = match &d.path {
        Some(p) => match strip_prefix(p.as_str(), "scene:") {
            Some(id) => id,
            None => {
                return None;
            },
        },
        None => {
            return None;
        },
    };
    let k = match b.scene_index(id.as_str()) {
        Some(k) => k,
        None => {
            return None;
        },
    };
    let ghost scene0 = b.scenes@[k as int];
    let ghost ids = Seq::new(scene0.triggers@.len(), |i: int| scene0.triggers@[i].script_id@);
    let ghost pred = |x: Seq<char>| !script_ids(scene0).contains(x);
    let mut missing: Vec<String> = Vec::new();
    let mut i: usize = 0;
    {
        let scene = &b.scenes[k];
        while i < scene.triggers.len()
            invariant
                *scene == scene0,
                ids == Seq::new(scene0.triggers@.len(), |i: int| scene0.triggers@[i].script_id@),
                pred == (|x: Seq<char>| !script_ids(scene0).contains(x)),
                i <= scene.triggers@.len(),
                views_of(missing@) == ids.take(i as int).filter(pred),
            decreases scene.triggers@.len() - i,
        {
            proof {
                reveal(Seq::filter);
                assert(ids.take(i + 1).drop_last() =~= ids.take(i as int));
            }
            let wanted = scene.triggers[i].script_id.as_str();
            let mut found = false;
            let mut j: usize = 0;
            while j < scene.scripts.len()
                invariant
                    *scene == scene0,
                    j <= scene.scripts@.len(),
                    found == exists|m: int| 0 <= m < j && scene.scripts@[m].id@ == wanted@,
                decreases scene.scripts@.len() - j,
            {
                if str_equal(scene.scripts[j].id.as_str(), wanted) {
                    found = true;
                }
                j = j + 1;
            }
            proof {
                assert(found == script_ids(scene0).contains(wanted@)) by {
                    if found {
                        let m = choose|m: int| 0 <= m < j && scene.scripts@[m].id@ == wanted@;
                        assert(script_ids(scene0)[m] == wanted@);
                    }
                    if script_ids(scene0).contains(wanted@) {
                        let m = choose|m: int| 0 <= m < script_ids(scene0).len() && script_ids(scene0)[m] == wanted@;
                        assert(scene.scripts@[m].id@ == wanted@);
                    }
                }
                assert(ids[i as int] == wanted@);
            }
            if !found {
                let ghost before_missing = views_of(missing@);
                missing.push(scene.triggers[i].script_id.clone());
                assert(views_of(missing@) =~= before_missing.push(wanted@));
            }
            i = i + 1;
        }
        assert(ids.take(i as int) =~= ids);
    }
    assert(missing_scripts(scene0) == ids.filter(pred));
    if missing.len() == 0 {
        return None;
    }
    let count = missing.len();
    let mut scenes: Vec<SceneResource> = Vec::new();
    std::mem::swap(&mut scenes, &mut b.scenes);
    let ghost before = scenes@;
    let mut scene = scenes.remove(k);
    let ghost old_scripts = scene.scripts@;
    let mut m: usize = 0;
    while m < missing.len()
        invariant
            m <= missing@.len(),
            scene.scripts@.len() == old_scripts.len() + m,
            scene.scripts@.take(old_scripts.len() as int) == old_scripts,
            same_but_scripts(scene, scene0),
            forall|q: int|
                0 <= q < m ==> (#[trigger] scene.scripts@[old_scripts.len() + q]).id@ == missing@[q]@
                    && scene.scripts@[old_scripts.len() + q].commands@.len() == 0,
        decreases missing@.len() - m,
    {
        let ghost prev = scene.scripts@;
        scene.scripts.push(EventScript { id: missing[m].clone(), commands: Vec::new() });
        proof {
            assert(scene.scripts@.take(old_scripts.len() as int) =~= prev.take(old_scripts.len() as int));
            assert forall|q: int| 0 <= q < m + 1 implies (#[trigger] scene.scripts@[old_scripts.len() + q]).id@
                == missing@[q]@ && scene.scripts@[old_scripts.len() + q].commands@.len() == 0 by {
                if q < m {
                    assert(scene.scripts@[old_scripts.len() + q] == prev[old_scripts.len() + q]);
                }
            }
        }
        m = m + 1;
    }
    let mut s = String::from_str("Added ");
    push_decimal(&mut s, count as u128);
    s.append(" missing script stub(s) to '");
    s.append(scene.id.as_str());
    s.append("'");
    scenes.insert(k, scene);
    proof {
        assert forall|j: int| 0 <= j < before.len() && j != k implies scenes@[j] == before[j] by {
            if j < k {
                assert(before.remove(k as int)[j] == before[j]);
            } else {
                assert(before.remove(k as int)[j - 1] == before[j]);
            }
        }
        assert forall|q: int| 0 <= q < missing_scripts(scene0).len() implies (#[trigger] scenes@[k as int].scripts@[
            old_scripts.len() + q]).id@ == missing_scripts(scene0)[q] && scenes@[k as int].scripts@[old_scripts.len()
            + q].commands@.len() == 0 by {
            assert(views_of(missing@)[q] == missing@[q]@);
        }
    }
    std::mem::swap(&mut scenes, &mut b.scenes);
    Some(s)
}


/// Scene loads of a missing scene sent to the first scene.
pub open spec fn loads_fixed(o: ProjectBundle, f: ProjectBundle, status: Option<String>) -> bool {
    if o.scenes@.len() > 0 {
        &&& bundle_same_but(f, o, false, true, false, false, false)
        &&& scenes_redirected(o.scenes@, f.scenes@, scene_ids(o.scenes@), o.scenes@[0].id@, false)
        &&& status matches Some(s) && s@ == "Redirected missing scene loads to '"@ + o.scenes@[0].id@ + "'"@
    } else {
        status is None && f == o
    }
}

fn fix_scene_loads(b: &mut ProjectBundle) -> (status: Option<String>)
    ensures
        loads_fixed(*old(b), *final(b), status),
{
    if b.scenes.len() == 0 {
        return None;
    }
    let fallback = b.scenes[0].id.clone();
    let mut valid: Vec<String> = Vec::new();
    let mut i: usize = 0;
    while i < b.scenes.len()
        invariant
            i <= b.scenes@.len(),
            views_of(valid@) == scene_ids(b.scenes@).take(i as int),
        decreases b.scenes@.len() - i,
    {
        let ghost prev = views_of(valid@);
        valid.push(b.scenes[i].id.clone());
        proof {
            assert(scene_ids(b.scenes@)[i as int] == b.scenes@[i as int].id@);
            assert(views_of(valid@) =~= prev.push(b.scenes@[i as int].id@));
            assert(scene_ids(b.scenes@).take(i + 1) =~= scene_ids(b.scenes@).take(i as int).push(scene_ids(b.scenes@)[i as int]));
        }
        i = i + 1;
    }
    assert(scene_ids(b.scenes@).take(i as int) =~= scene_ids(b.scenes@));
    redirect_scenes(&mut b.scenes, &valid, &fallback, false);
    let mut s = String::from_str("Redirected missing scene loads to '");
    s.append(fallback.as_str());
    s.append("'");
    Some(s)
}

/// The ids of dialogues.
pub open spec fn dialogue_ids(s: Seq<DialogueGraph>) -> Seq<Seq<char>> {
    s.map_values(|x: DialogueGraph| x.id@)
}

/// The placeholder dialogue that missing dialogue references are sent to.
pub open spec fn is_placeholder(g: DialogueGraph) -> bool {
    &&& g.id@ == "auto_dialogue"@
    &&& g.opening_node@ == "start"@
    &&& g.nodes@.len() == 1
    &&& g.nodes@[0].id@ == "start"@
    &&& g.nodes@[0].speaker@ == "System"@
    &&& g.nodes@[0].text@ == "Placeholder dialogue"@
    &&& g.nodes@[0].commands@.len() == 0
    &&& g.nodes@[0].choices@.len() == 0
    &&& g.nodes@[0].next is None
}

/// A placeholder dialogue added when missing, and every dialogue shown by
/// a script that no dialogue has sent to it.
pub open spec fn dialogues_fixed(o: ProjectBundle, f: ProjectBundle, status: Option<String>) -> bool {
    &&& bundle_same_but(f, o, false, true, true, false, false)
    &&& if dialogue_ids(o.dialogues@).contains("auto_dialogue"@) {
        f.dialogues == o.dialogues
    } else {
        f.dialogues@.len() == o.dialogues@.len() + 1 && f.dialogues@.take(o.dialogues@.len() as int) == o.dialogues@
            && is_placeholder(f.dialogues@[o.dialogues@.len() as int])
    }
    &&& scenes_redirected(o.scenes@, f.scenes@, dialogue_ids(f.dialogues@), "auto_dialogue"@, true)
    &&& status matches Some(s) && s@ == "Redirected missing dialogue references to a placeholder dialogue"@
}

fn fix_dialogues(b: &mut ProjectBundle) -> (status: Option<String>)
    ensures
        dialogues_fixed(*old(b), *final(b), status),
{
    let placeholder = String::from_str("auto_dialogue");
    let mut valid: Vec<String> = Vec::new();
    let mut i: usize = 0;
    while i < b.dialogues.len()
        invariant
            i <= b.dialogues@.len(),
            views_of(valid@) == dialogue_ids(b.dialogues@).take(i as int),
        decreases b.dialogues@.len() - i,
    {
        let ghost prev = views_of(valid@);
        valid.push(b.dialogues[i].id.clone());
        proof {
            assert(dialogue_ids(b.dialogues@)[i as int] == b.dialogues@[i as int].id@);
            assert(views_of(valid@) =~= prev.push(b.dialogues@[i as int].id@));
            assert(dialogue_ids(b.dialogues@).take(i + 1) =~= dialogue_ids(b.dialogues@).take(i as int).push(dialogue_ids(b.dialogues@)[i as int]));
        }
        i = i + 1;
    }
    assert(dialogue_ids(b.dialogues@).take(i as int) =~= dialogue_ids(b.dialogues@));
    if !holds_id(&valid, placeholder.as_str()) {
        let ghost before = b.dialogues@;
        let mut nodes: Vec<DialogueNode> = Vec::new();
        nodes.push(
            DialogueNode {
                id: String::from_str("start"),
                speaker: String::from_str("System"),
                text: String::from_str("Placeholder dialogue"),
                commands: Vec::new(),
                choices: Vec::new(),
                next: None,
            },
        );
        b.dialogues.push(
            DialogueGraph { id: placeholder.clone(), opening_node: String::from_str("start"), nodes },
        );
        let ghost before_valid = views_of(valid@);
        valid.push(placeholder.clone());
        proof {
            assert(views_of(valid@) =~= before_valid.push("auto_dialogue"@));
            assert(dialogue_ids(b.dialogues@) =~= dialogue_ids(before).push("auto_dialogue"@));
            assert(b.dialogues@.take(before.len() as int) =~= before);
        }
    }
    redirect_scenes(&mut b.scenes, &valid, &placeholder, true);
    Some(String::from_str("Redirected missing dialogue references to a placeholder dialogue"))
}

/// What a quick fix does to the project for a finding. Renaming duplicate
/// scene and dialogue ids is not among them: the new ids come from the
/// slugs of the old ones, which the caller gives to
/// [`rename_duplicate_scene_ids`] and [`rename_duplicate_dialogue_ids`];
/// for those findings, as for any other code, the project is left as it
/// is here.
pub open spec fn quick_fix_done(o: ProjectBundle, f: ProjectBundle, d: Diagnostic, max_colors: usize, status: Option<String>) -> bool {
    let c = d.code@;
    if c == "manifest.missing_entry_scene"@ {
        entry_fixed(o, f, status)
    } else if c == "asset.palette_too_large"@ {
        palette_fixed(o, f, d, max_colors, status)
    } else if c == "asset.missing_palette"@ {
        tileset_palette_fixed(o, f, d, status)
    } else if c == "scene.trigger_missing_script"@ {
        stubs_added(o, f, d, status)
    } else if c == "script.dialogue_missing"@ {
        dialogues_fixed(o, f, status)
    } else if c == "script.target_scene_missing"@ {
        loads_fixed(o, f, status)
    } else {
        status is None && f == o
    }
}

/// Applies the quick fix for a finding, palettes being cut to
/// `max_colors` colors; the status to report, or `None`, with the project
/// unchanged, when there was nothing to fix.
pub fn apply_diagnostic_quick_fix(bundle: &mut ProjectBundle, d: &Diagnostic, max_colors: usize) -> (status: Option<
    String,
>)
    ensures
        quick_fix_done(*old(bundle), *final(bundle), *d, max_colors, status),
{
    let c = d.code.as_str();
    if str_equal(c, "manifest.missing_entry_scene") {
        fix_entry_scene(bundle)
    } else if str_equal(c, "asset.palette_too_large") {
        fix_palette_size(bundle, d, max_colors)
    } else if str_equal(c, "asset.missing_palette") {
        fix_tileset_palette(bundle, d)
    } else if str_equal(c, "scene.trigger_missing_script") {
        fix_script_stubs(bundle, d)
    } else if str_equal(c, "script.dialogue_missing") {
        fix_dialogues(bundle)
    } else if str_equal(c, "script.target_scene_missing") {
        fix_scene_loads(bundle)
    } else {
        None
    }
}


/// The "scene.duplicate_id" quick fix: every scene id that an earlier
/// scene already has is renamed, in order, to the first free copy name
/// among the ids kept before it (see [`rename_duplicate_ids`]); `slugs`
/// holds the slug of each scene's id. Nothing but the ids changes, and
/// afterwards no two scenes share an id. The status to report.
pub fn rename_duplicate_scene_ids(bundle: &mut ProjectBundle, slugs: &Vec<String>) -> (status: String)
    requires
        old(bundle).scenes@.len() == slugs@.len(),
        old(bundle).scenes@.len() < usize::MAX,
    ensures
        scene_ids(final(bundle).scenes@) == deduped_ids(scene_ids(old(bundle).scenes@), id_views(slugs@)),
        scene_ids(final(bundle).scenes@).no_duplicates(),
        final(bundle).scenes@.len() == old(bundle).scenes@.len(),
        forall|i: int|
            0 <= i < old(bundle).scenes@.len() ==> #[trigger] final(bundle).scenes@[i] == (SceneResource {
                id: final(bundle).scenes@[i].id,
                ..old(bundle).scenes@[i]
            }),
        final(bundle).manifest == old(bundle).manifest,
        final(bundle).dialogues == old(bundle).dialogues,
        final(bundle).palettes == old(bundle).palettes,
        final(bundle).tilesets == old(bundle).tilesets,
        final(bundle).metasprites == old(bundle).metasprites,
        final(bundle).animations == old(bundle).animations,
        status@ == "Renamed duplicate scene ids"@,
{
    let ghost before = bundle.scenes@;
    let mut ids: Vec<String> = Vec::new();
    let mut i: usize = 0;
    while i < bundle.scenes.len()
        invariant
            before == bundle.scenes@,
            i <= before.len(),
            id_views(ids@) == scene_ids(before).take(i as int),
        decreases before.len() - i,
    {
        let ghost prev = id_views(ids@);
        ids.push(bundle.scenes[i].id.clone());
        proof {
            assert(id_views(ids@) =~= prev.push(before[i as int].id@));
            assert(scene_ids(before).take(i + 1) =~= scene_ids(before).take(i as int).push(before[i as int].id@));
        }
        i = i + 1;
    }
    assert(scene_ids(before).take(i as int) =~= scene_ids(before));
    rename_duplicate_ids(&mut ids, slugs);
    let mut j: usize = 0;
    while j < ids.len()
        invariant
            ids@.len() == before.len(),
            bundle.scenes@.len() == before.len(),
            j <= before.len(),
            forall|q: int|
                0 <= q < before.len() ==> #[trigger] bundle.scenes@[q] == (SceneResource {
                    id: bundle.scenes@[q].id,
                    ..before[q]
                }),
            forall|q: int| 0 <= q < j ==> #[trigger] bundle.scenes@[q].id@ == ids@[q]@,
            forall|q: int| j <= q < before.len() ==> #[trigger] bundle.scenes@[q].id == before[q].id,
            bundle.manifest == old(bundle).manifest,
            bundle.dialogues == old(bundle).dialogues,
            bundle.palettes == old(bundle).palettes,
            bundle.tilesets == old(bundle).tilesets,
            bundle.metasprites == old(bundle).metasprites,
            bundle.animations == old(bundle).animations,
        decreases before.len() - j,
    {
        let ghost prev = bundle.scenes@;
        let mut scene = bundle.scenes.remove(j);
        scene.id = ids[j].clone();
        bundle.scenes.insert(j, scene);
        proof {
            assert(bundle.scenes@ =~= prev.update(j as int, scene));
        }
        j = j + 1;
    }
    assert(scene_ids(bundle.scenes@) =~= id_views(ids@));
    String::from_str("Renamed duplicate scene ids")
}

/// The "dialogue.duplicate_id" quick fix: every dialogue id that an
/// earlier dialogue already has is renamed, in order, to the first free
/// copy name among the ids kept before it; `slugs` holds the slug of each
/// dialogue's id. Nothing but the ids changes, and afterwards no two
/// dialogues share an id. The status to report.
pub fn rename_duplicate_dialogue_ids(bundle: &mut ProjectBundle, slugs: &Vec<String>) -> (status: String)
    requires
        old(bundle).dialogues@.len() == slugs@.len(),
        old(bundle).dialogues@.len() < usize::MAX,
    ensures
        dialogue_ids(final(bundle).dialogues@) == deduped_ids(dialogue_ids(old(bundle).dialogues@), id_views(slugs@)),
        dialogue_ids(final(bundle).dialogues@).no_duplicates(),
        final(bundle).dialogues@.len() == old(bundle).dialogues@.len(),
        forall|i: int|
            0 <= i < old(bundle).dialogues@.len() ==> #[trigger] final(bundle).dialogues@[i] == (DialogueGraph {
                id: final(bundle).dialogues@[i].id,
                ..old(bundle).dialogues@[i]
            }),
        final(bundle).manifest == old(bundle).manifest,
        final(bundle).scenes == old(bundle).scenes,
        final(bundle).palettes == old(bundle).palettes,
        final(bundle).tilesets == old(bundle).tilesets,
        final(bundle).metasprites == old(bundle).metasprites,
        final(bundle).animations == old(bundle).animations,
        status@ == "Renamed duplicate dialogue ids"@,
{
    let ghost before = bundle.dialogues@;
    let mut ids: Vec<String> = Vec::new();
    let mut i: usize = 0;
    while i < bundle.dialogues.len()
        invariant
            before == bundle.dialogues@,
            i <= before.len(),
            id_views(ids@) == dialogue_ids(before).take(i as int),
        decreases before.len() - i,
    {
        let ghost prev = id_views(ids@);
        ids.push(bundle.dialogues[i].id.clone());
        proof {
            assert(id_views(ids@) =~= prev.push(before[i as int].id@));
            assert(dialogue_ids(before).take(i + 1) =~= dialogue_ids(before).take(i as int).push(before[i as int].id@));
        }
        i = i + 1;
    }
    assert(dialogue_ids(before).take(i as int) =~= dialogue_ids(before));
    rename_duplicate_ids(&mut ids, slugs);
    let mut j: usize = 0;
    while j < ids.len()
        invariant
            ids@.len() == before.len(),
            bundle.dialogues@.len() == before.len(),
            j <= before.len(),
            forall|q: int|
                0 <= q < before.len() ==> #[trigger] bundle.dialogues@[q] == (DialogueGraph {
                    id: bundle.dialogues@[q].id,
                    ..before[q]
                }),
            forall|q: int| 0 <= q < j ==> #[trigger] bundle.dialogues@[q].id@ == ids@[q]@,
            bundle.manifest == old(bundle).manifest,
            bundle.scenes == old(bundle).scenes,
            bundle.palettes == old(bundle).palettes,
            bundle.tilesets == old(bundle).tilesets,
            bundle.metasprites == old(bundle).metasprites,
            bundle.animations == old(bundle).animations,
        decreases before.len() - j,
    {
        let ghost prev = bundle.dialogues@;
        let mut dialogue = bundle.dialogues.remove(j);
        dialogue.id = ids[j].clone();
        bundle.dialogues.insert(j, dialogue);
        proof {
            assert(bundle.dialogues@ =~= prev.update(j as int, dialogue));
        }
        j = j + 1;
    }
    assert(dialogue_ids(bundle.dialogues@) =~= id_views(ids@));
    String::from_str("Renamed duplicate dialogue ids")
}

/// Where the editor takes the user for the path of a finding.
#[derive(Debug, Clone, PartialEq, Eq)]
pub enum DiagnosticTarget {
    /// The project settings, in the inspector.
    ProjectSettings,
    /// The scene at this index.
    Scene(usize),
    /// The asset browser, filtered to this dialogue id.
    Dialogue(String),
    /// The asset browser, filtered to this asset id.
    Asset(String),
    /// Nowhere.
    Nowhere,
}

/// The asset id after a `palette:`, `tileset:`, `metasprite:` or
/// `animation:` prefix, the first of them that matches.
pub open spec fn asset_path_id(path: Seq<char>) -> Option<Seq<char>> {
    if spec_strip(path, "palette:"@) is Some {
        spec_strip(path, "palette:"@)
    } else if spec_strip(path, "tileset:"@) is Some {
        spec_strip(path, "tileset:"@)
    } else if spec_strip(path, "metasprite:"@) is Some {
        spec_strip(path, "metasprite:"@)
    } else {
        spec_strip(path, "animation:"@)
    }
}

/// Where the path of a finding leads: `project.toml` to the settings,
/// `scene:<id>` to the first scene with the id (nowhere when none has it),
/// `dialogue:<id>` to the asset browser filtered to the dialogue, and an
/// asset path to the asset browser filtered to the asset.
pub fn diagnostic_target(path: &str, scenes: &Vec<SceneResource>) -> (r: DiagnosticTarget)
    ensures
        path@ == "project.toml"@ ==> r == DiagnosticTarget::ProjectSettings,
        path@ != "project.toml"@ ==> match spec_strip(path@, "scene:"@) {
            Some(id) => match first_with_id(scene_ids(scenes@), id) {
                Some(k) => r == DiagnosticTarget::Scene(k as usize),
                None => r == DiagnosticTarget::Nowhere,
            },
            None => match spec_strip(path@, "dialogue:"@) {
                Some(id) => r matches DiagnosticTarget::Dialogue(x) && x@ == id,
                None => match asset_path_id(path@) {
                    Some(id) => r matches DiagnosticTarget::Asset(x) && x@ == id,
                    None => r == DiagnosticTarget::Nowhere,
                },
            },
        },
{
    if str_equal(path, "project.toml") {
        return DiagnosticTarget::ProjectSettings;
    }
    if let Some(id) = strip_prefix(path, "scene:") {
        let mut i: usize = 0;
        let ghost ids = scene_ids(scenes@);
        while i < scenes.len()
            invariant
                ids == scene_ids(scenes@),
                path@ != "project.toml"@,
                spec_strip(path@, "scene:"@) == Some(id@),
                i <= scenes@.len(),
                crate::bundle::first_match(ids, id@, i as int) is None,
            decreases scenes@.len() - i,
        {
            assert(ids[i as int] == scenes@[i as int].id@);
            if str_equal(scenes[i].id.as_str(), id.as_str()) {
                proof {
                    crate::bundle::lemma_first_match_stays(ids, id@, i + 1, ids.len() as int);
                }
                return DiagnosticTarget::Scene(i);
            }
            i = i + 1;
        }
        assert(ids.len() == i);
        return DiagnosticTarget::Nowhere;
    }
    if let Some(id) = strip_prefix(path, "dialogue:") {
        return DiagnosticTarget::Dialogue(id);
    }
    if let Some(id) = strip_prefix(path, "palette:") {
        return DiagnosticTarget::Asset(id);
    }
    if let Some(id) = strip_prefix(path, "tileset:") {
        return DiagnosticTarget::Asset(id);
    }
    if let Some(id) = strip_prefix(path, "metasprite:") {
        return DiagnosticTarget::Asset(id);
    }
    match strip_prefix(path, "animation:") {
        Some(id) => DiagnosticTarget::Asset(id),
        None => DiagnosticTarget::Nowhere,
    }
}

/// The status shown on going to a target.
pub open spec fn spec_target_status(t: DiagnosticTarget) -> Option<Seq<char>> {
    match t {
        DiagnosticTarget::ProjectSettings => Some("Opened project settings in the inspector."@),
        DiagnosticTarget::Dialogue(id) => Some("Filtered asset browser to dialogue '"@ + id@ + "'"@),
        DiagnosticTarget::Asset(id) => Some("Filtered asset browser to '"@ + id@ + "'"@),
        _ => None,
    }
}

/// The status shown on going to a target; none for a scene, which
/// reports its own focus, or for nowhere.
pub fn target_status(t: &DiagnosticTarget) -> (r: Option<String>)
    ensures
        match spec_target_status(*t) {
            Some(s) => r matches Some(x) && x@ == s,
            None => r is None,
        },
{
    match t {
        DiagnosticTarget::ProjectSettings => Some(String::from_str("Opened project settings in the inspector.")),
        DiagnosticTarget::Dialogue(id) => {
            let mut s = String::from_str("Filtered asset browser to dialogue '");
            s.append(id.as_str());
            s.append("'");
            Some(s)
        },
        DiagnosticTarget::Asset(id) => {
            let mut s = String::from_str("Filtered asset browser to '");
            s.append(id.as_str());
            s.append("'");
            Some(s)
        },
        _ => None,
    }
}


/// Every command of every script of the scenes that loads a scene (or, for
/// `dialogue`, shows a dialogue) names one of `valid`.
pub open spec fn all_targets_valid(scenes: Seq<SceneResource>, valid: Seq<Seq<char>>, dialogue: bool) -> bool {
    forall|i: int, j: int, k: int|
        0 <= i < scenes.len() && 0 <= j < scenes[i].scripts@.len() && 0 <= k < scenes[i].scripts@[j].commands@.len()
            ==> match #[trigger] scenes[i].scripts@[j].commands@[k] {
            EventCommand::LoadScene { scene_id, .. } => !dialogue ==> valid.contains(scene_id@),
            EventCommand::ShowDialogue { dialogue_id, .. } => dialogue ==> valid.contains(dialogue_id@),
            _ => true,
        }
}

proof fn lemma_redirect_targets_valid(
    o: Seq<SceneResource>,
    f: Seq<SceneResource>,
    valid: Seq<Seq<char>>,
    to: Seq<char>,
    dialogue: bool,
)
    requires
        scenes_redirected(o, f, valid, to, dialogue),
        valid.contains(to),
    ensures
        all_targets_valid(f, valid, dialogue),
{
    assert forall|i: int, j: int, k: int|
        0 <= i < f.len() && 0 <= j < f[i].scripts@.len() && 0 <= k < f[i].scripts@[j].commands@.len() implies match
        #[trigger] f[i].scripts@[j].commands@[k] {
        EventCommand::LoadScene { scene_id, .. } => !dialogue ==> valid.contains(scene_id@),
        EventCommand::ShowDialogue { dialogue_id, .. } => dialogue ==> valid.contains(dialogue_id@),
        _ => true,
    } by {
        assert(same_but_scripts(f[i], o[i]));
        assert(f[i].scripts@[j].id == o[i].scripts@[j].id);
        assert(redirected_as(o[i].scripts@[j].commands@[k], f[i].scripts@[j].commands@[k], valid, to, dialogue));
    }
}

/// Law: after the fix for missing scene loads, every scene load of every
/// script names a scene of the project.
pub proof fn lemma_loads_fixed_name_scenes(o: ProjectBundle, f: ProjectBundle, status: Option<String>)
    requires
        loads_fixed(o, f, status),
        o.scenes@.len() > 0,
    ensures
        all_targets_valid(f.scenes@, scene_ids(f.scenes@), false),
{
    let ids = scene_ids(o.scenes@);
    assert(ids[0] == o.scenes@[0].id@);
    lemma_redirect_targets_valid(o.scenes@, f.scenes@, ids, o.scenes@[0].id@, false);
    assert forall|i: int| 0 <= i < f.scenes@.len() implies scene_ids(f.scenes@)[i] == ids[i] by {
        assert(same_but_scripts(f.scenes@[i], o.scenes@[i]));
    }
    assert(scene_ids(f.scenes@) =~= ids);
}

/// Law: after the fix for missing dialogues, every dialogue shown by every
/// script is a dialogue of the project.
pub proof fn lemma_dialogues_fixed_name_dialogues(o: ProjectBundle, f: ProjectBundle, status: Option<String>)
    requires
        dialogues_fixed(o, f, status),
    ensures
        all_targets_valid(f.scenes@, dialogue_ids(f.dialogues@), true),
{
    reveal_strlit("auto_dialogue");
    let ids = dialogue_ids(f.dialogues@);
    if dialogue_ids(o.dialogues@).contains("auto_dialogue"@) {
        assert(f.dialogues == o.dialogues);
    } else {
        let n = o.dialogues@.len() as int;
        assert(ids[n] == f.dialogues@[n].id@);
    }
    lemma_redirect_targets_valid(o.scenes@, f.scenes@, ids, "auto_dialogue"@, true);
}

} // verus!
