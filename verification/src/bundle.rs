//! A loaded project: its manifest settings and its resources, with lookup
//! of each resource by id.
use vstd::prelude::*;
use crate::text::str_equal;
use crate::events::DialogueGraph;
use crate::project::{
    AnimationResource, MetaspriteResource, PaletteResource, SceneResource, TilesetResource,
};

verus! {

/// Name and file-name slug of a project.
#[derive(Debug, Clone)]
pub struct ProjectMeta {
    pub name: String,
    pub slug: String,
}

/// Paths of the assembler and the linker.
#[derive(Debug, Clone)]
pub struct AssemblerSettings {
    pub ca65_path: String,
    pub ld65_path: String,
}

/// Where and how a ROM is built.
#[derive(Debug, Clone)]
pub struct BuildSettings {
    pub output_dir: String,
    pub rom_bank_count: u16,
    pub assembler: AssemblerSettings,
}

/// How the player's health is drawn.
#[derive(Debug, Clone, Copy, PartialEq, Eq, Structural)]
pub enum HealthHudStyle {
    MegaPipsTopLeft,
    HeartsTopRight,
    CellsTopCenter,
}

/// The player's health settings.
#[derive(Debug, Clone, Copy, PartialEq, Eq, Structural)]
pub struct PlayerSettings {
    pub max_health: u8,
    pub starting_health: u8,
    pub health_hud: HealthHudStyle,
}

/// The scene a game starts in and the player's settings.
#[derive(Debug, Clone)]
pub struct GameplaySettings {
    pub entry_scene: String,
    pub player: PlayerSettings,
}

/// Editor preferences stored with the project.
#[derive(Debug, Clone)]
pub struct EditorSettings {
    pub preferred_emulator: Option<String>,
}

/// The settings of a project.
#[derive(Debug, Clone)]
pub struct ProjectManifest {
    pub meta: ProjectMeta,
    pub build: BuildSettings,
    pub gameplay: GameplaySettings,
    pub editor: EditorSettings,
}

/// A project: its settings and every resource it holds.
#[derive(Debug, Clone)]
pub struct ProjectBundle {
    pub manifest: ProjectManifest,
    pub scenes: Vec<SceneResource>,
    pub dialogues: Vec<DialogueGraph>,
    pub palettes: Vec<PaletteResource>,
    pub tilesets: Vec<TilesetResource>,
    pub metasprites: Vec<MetaspriteResource>,
    pub animations: Vec<AnimationResource>,
}

/// The first of the first `n` ids that equals `id`, if any.
pub open spec fn first_match(ids: Seq<Seq<char>>, id: Seq<char>, n: int) -> Option<int>
    decreases n,
{
    if n <= 0 {
        None
    } else {
        match first_match(ids, id, n - 1) {
            Some(i) => Some(i),
            None => if ids[n - 1] == id { Some(n - 1) } else { None },
        }
    }
}

/// The position of the first id equal to `id`, if any.
pub open spec fn first_with_id(ids: Seq<Seq<char>>, id: Seq<char>) -> Option<int> {
    first_match(ids, id, ids.len() as int)
}

/// Law: the first match is the first position holding the id, and there
/// is none exactly when no position holds it.
pub proof fn lemma_first_with_id(ids: Seq<Seq<char>>, id: Seq<char>)
    ensures
        match first_with_id(ids, id) {
            Some(i) => 0 <= i < ids.len() && ids[i] == id && forall|j: int| 0 <= j < i ==> ids[j] != id,
            None => forall|j: int| 0 <= j < ids.len() ==> ids[j] != id,
        },
{
    lemma_first_match(ids, id, ids.len() as int);
}

proof fn lemma_first_match(ids: Seq<Seq<char>>, id: Seq<char>, n: int)
    requires
        0 <= n <= ids.len(),
    ensures
        match first_match(ids, id, n) {
            Some(i) => 0 <= i < n && ids[i] == id && forall|j: int| 0 <= j < i ==> ids[j] != id,
            None => forall|j: int| 0 <= j < n ==> ids[j] != id,
        },
    decreases n,
{
    if n > 0 {
        lemma_first_match(ids, id, n - 1);
    }
}

/// Once found among the first `n` ids, the first match stays the same for
/// longer prefixes.
pub(crate) proof fn lemma_first_match_stays(ids: Seq<Seq<char>>, id: Seq<char>, n: int, m: int)
    requires
        n <= m,
        first_match(ids, id, n) is Some,
    ensures
        first_match(ids, id, m) == first_match(ids, id, n),
    decreases m - n,
{
    if n < m {
        lemma_first_match_stays(ids, id, n, m - 1);
    }
}

/// The ids of scenes.
pub open spec fn scene_ids(s: Seq<SceneResource>) -> Seq<Seq<char>> {
    s.map_values(|r: SceneResource| r.id@)
}

/// The ids of palettes.
pub open spec fn palette_ids(s: Seq<PaletteResource>) -> Seq<Seq<char>> {
    s.map_values(|r: PaletteResource| r.id@)
}

/// The ids of tilesets.
pub open spec fn tileset_ids(s: Seq<TilesetResource>) -> Seq<Seq<char>> {
    s.map_values(|r: TilesetResource| r.id@)
}

/// The ids of metasprites.
pub open spec fn metasprite_ids(s: Seq<MetaspriteResource>) -> Seq<Seq<char>> {
    s.map_values(|r: MetaspriteResource| r.id@)
}

/// The ids of animations.
pub open spec fn animation_ids(s: Seq<AnimationResource>) -> Seq<Seq<char>> {
    s.map_values(|r: AnimationResource| r.id@)
}

impl ProjectBundle {
    /// The position of the first scene with the given id.
    pub fn scene_index(&self, id: &str) -> (r: Option<usize>)
        ensures
            r matches Some(i) ==> first_with_id(scene_ids(self.scenes@), id@) == Some(i as int)
                && i < self.scenes@.len(),
            r is None ==> first_with_id(scene_ids(self.scenes@), id@) is None,
    {
        let ghost ids = scene_ids(self.scenes@);
        let mut i: usize = 0;
        while i < self.scenes.len()
            invariant
                ids == scene_ids(self.scenes@),
                i <= self.scenes.len(),
                first_match(ids, id@, i as int) is None,
            decreases self.scenes.len() - i,
        {
            assert(ids[i as int] == self.scenes@[i as int].id@);
            if str_equal(self.scenes[i].id.as_str(), id) {
                proof {
                    lemma_first_match_stays(ids, id@, i + 1, ids.len() as int);
                }
                return Some(i);
            }
            i = i + 1;
        }
        assert(ids.len() == i);
        None
    }

    /// The position of the first palette with the given id.
    pub fn palette_index(&self, id: &str) -> (r: Option<usize>)
        ensures
            r matches Some(i) ==> first_with_id(palette_ids(self.palettes@), id@) == Some(i as int)
                && i < self.palettes@.len(),
            r is None ==> first_with_id(palette_ids(self.palettes@), id@) is None,
    {
        let ghost ids = palette_ids(self.palettes@);
        let mut i: usize = 0;
        while i < self.palettes.len()
            invariant
                ids == palette_ids(self.palettes@),
                i <= self.palettes.len(),
                first_match(ids, id@, i as int) is None,
            decreases self.palettes.len() - i,
        {
            assert(ids[i as int] == self.palettes@[i as int].id@);
            if str_equal(self.palettes[i].id.as_str(), id) {
                proof {
                    lemma_first_match_stays(ids, id@, i + 1, ids.len() as int);
                }
                return Some(i);
            }
            i = i + 1;
        }
        assert(ids.len() == i);
        None
    }

    /// The position of the first tileset with the given id.
    pub fn tileset_index(&self, id: &str) -> (r: Option<usize>)
        ensures
            r matches Some(i) ==> first_with_id(tileset_ids(self.tilesets@), id@) == Some(i as int)
                && i < self.tilesets@.len(),
            r is None ==> first_with_id(tileset_ids(self.tilesets@), id@) is None,
    {
        let ghost ids = tileset_ids(self.tilesets@);
        let mut i: usize = 0;
        while i < self.tilesets.len()
            invariant
                ids == tileset_ids(self.tilesets@),
                i <= self.tilesets.len(),
                first_match(ids, id@, i as int) is None,
            decreases self.tilesets.len() - i,
        {
            assert(ids[i as int] == self.tilesets@[i as int].id@);
            if str_equal(self.tilesets[i].id.as_str(), id) {
                proof {
                    lemma_first_match_stays(ids, id@, i + 1, ids.len() as int);
                }
                return Some(i);
            }
            i = i + 1;
        }
        assert(ids.len() == i);
        None
    }

    /// The first scene with the given id.
    pub fn scene(&self, id: &str) -> (r: Option<&SceneResource>)
        ensures
            match first_with_id(scene_ids(self.scenes@), id@) {
                Some(i) => r == Some(&self.scenes@[i]),
                None => r is None,
            },
    {
        match self.scene_index(id) {
            Some(i) => Some(&self.scenes[i]),
            None => None,
        }
    }

    /// The first palette with the given id.
    pub fn palette(&self, id: &str) -> (r: Option<&PaletteResource>)
        ensures
            match first_with_id(palette_ids(self.palettes@), id@) {
                Some(i) => r == Some(&self.palettes@[i]),
                None => r is None,
            },
    {
        let ghost ids = palette_ids(self.palettes@);
        let mut i: usize = 0;
        while i < self.palettes.len()
            invariant
                ids == palette_ids(self.palettes@),
                i <= self.palettes.len(),
                first_match(ids, id@, i as int) is None,
            decreases self.palettes.len() - i,
        {
            assert(ids[i as int] == self.palettes@[i as int].id@);
            if str_equal(self.palettes[i].id.as_str(), id) {
                proof {
                    lemma_first_match_stays(ids, id@, i + 1, ids.len() as int);
                }
                return Some(&self.palettes[i]);
            }
            i = i + 1;
        }
        assert(ids.len() == i);
        None
    }

    /// The first tileset with the given id.
    pub fn tileset(&self, id: &str) -> (r: Option<&TilesetResource>)
        ensures
            match first_with_id(tileset_ids(self.tilesets@), id@) {
                Some(i) => r == Some(&self.tilesets@[i]),
                None => r is None,
            },
    {
        let ghost ids = tileset_ids(self.tilesets@);
        let mut i: usize = 0;
        while i < self.tilesets.len()
            invariant
                ids == tileset_ids(self.tilesets@),
                i <= self.tilesets.len(),
                first_match(ids, id@, i as int) is None,
            decreases self.tilesets.len() - i,
        {
            assert(ids[i as int] == self.tilesets@[i as int].id@);
            if str_equal(self.tilesets[i].id.as_str(), id) {
                proof {
                    lemma_first_match_stays(ids, id@, i + 1, ids.len() as int);
                }
                return Some(&self.tilesets[i]);
            }
            i = i + 1;
        }
        assert(ids.len() == i);
        None
    }

    /// The first metasprite with the given id.
    pub fn metasprite(&self, id: &str) -> (r: Option<&MetaspriteResource>)
        ensures
            match first_with_id(metasprite_ids(self.metasprites@), id@) {
                Some(i) => r == Some(&self.metasprites@[i]),
                None => r is None,
            },
    {
        let ghost ids = metasprite_ids(self.metasprites@);
        let mut i: usize = 0;
        while i < self.metasprites.len()
            invariant
                ids == metasprite_ids(self.metasprites@),
                i <= self.metasprites.len(),
                first_match(ids, id@, i as int) is None,
            decreases self.metasprites.len() - i,
        {
            assert(ids[i as int] == self.metasprites@[i as int].id@);
            if str_equal(self.metasprites[i].id.as_str(), id) {
                proof {
                    lemma_first_match_stays(ids, id@, i + 1, ids.len() as int);
                }
                return Some(&self.metasprites[i]);
            }
            i = i + 1;
        }
        assert(ids.len() == i);
        None
    }

    /// The first animation with the given id.
    pub fn animation(&self, id: &str) -> (r: Option<&AnimationResource>)
        ensures
            match first_with_id(animation_ids(self.animations@), id@) {
                Some(i) => r == Some(&self.animations@[i]),
                None => r is None,
            },
    {
        let ghost ids = animation_ids(self.animations@);
        let mut i: usize = 0;
        while i < self.animations.len()
            invariant
                ids == animation_ids(self.animations@),
                i <= self.animations.len(),
                first_match(ids, id@, i as int) is None,
            decreases self.animations.len() - i,
        {
            assert(ids[i as int] == self.animations@[i as int].id@);
            if str_equal(self.animations[i].id.as_str(), id) {
                proof {
                    lemma_first_match_stays(ids, id@, i + 1, ids.len() as int);
                }
                return Some(&self.animations[i]);
            }
            i = i + 1;
        }
        assert(ids.len() == i);
        None
    }
}

} // verus!
