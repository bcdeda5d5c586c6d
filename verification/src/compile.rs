//! The side-scroller scene compiler: a scene becomes the bytes of its first
//! tile layer and of its entities, with a few numbers noted beside them.
use vstd::prelude::*;
use crate::bundle::ProjectBundle;
use crate::errors::ExportError;
use crate::project::{EntityPlacement, Facing, SceneKind, SceneResource};
use crate::text::{decimal, decimal_string};

verus! {

/// A compiled scene: its bytes, and notes keyed by name in ascending order.
#[derive(Debug, Clone)]
pub struct CompiledScene {
    pub scene_id: String,
    pub genre: SceneKind,
    pub data_bytes: Vec<u8>,
    pub metadata: Vec<(String, String)>,
}

/// The two little-endian bytes of a 16-bit value.
pub open spec fn le16(v: u16) -> Seq<u8> {
    seq![(v % 256) as u8, (v / 256) as u8]
}

/// The bytes of the first `n` tiles, two little-endian bytes each.
pub open spec fn tile_data(tiles: Seq<u16>, n: int) -> Seq<u8>
    decreases n,
{
    if n <= 0 {
        seq![]
    } else {
        tile_data(tiles, n - 1) + le16(tiles[n - 1])
    }
}

/// The byte that encodes a facing in scene data.
pub open spec fn scene_facing_code(f: Facing) -> u8 {
    match f {
        Facing::Left => 0,
        Facing::Right => 1,
    }
}

/// The six bytes of an entity: x and y little-endian, the facing, and the
/// byte length of its archetype name as a machine word truncated to a byte.
pub open spec fn entity_record(e: EntityPlacement) -> Seq<u8> {
    le16(e.position.x as u16) + le16(e.position.y as u16) + seq![
        scene_facing_code(e.facing),
        vstd::utf8::encode_utf8(e.archetype@).len() as usize as u8,
    ]
}

/// The records of the first `n` entities.
pub open spec fn entity_data(entities: Seq<EntityPlacement>, n: int) -> Seq<u8>
    decreases n,
{
    if n <= 0 {
        seq![]
    } else {
        entity_data(entities, n - 1) + entity_record(entities[n - 1])
    }
}

/// The bytes of a scene: its first layer's tiles, then its entities.
pub open spec fn scene_data(scene: SceneResource) -> Seq<u8> {
    tile_data(scene.layers@[0].tiles@, scene.layers@[0].tiles@.len() as int) + entity_data(
        scene.entities@,
        scene.entities@.len() as int,
    )
}

/// The notes of a compiled scene, keyed and ordered by name.
pub open spec fn scene_notes(scene: SceneResource) -> Seq<(Seq<char>, Seq<char>)> {
    seq![
        ("chunk_height"@, decimal(scene.chunk_size_tiles.height as nat)),
        ("chunk_width"@, decimal(scene.chunk_size_tiles.width as nat)),
        ("entity_count"@, decimal(scene.entities@.len())),
    ]
}

/// The notes as character sequences.
pub open spec fn notes_view(notes: Seq<(String, String)>) -> Seq<(Seq<char>, Seq<char>)> {
    notes.map_values(|p: (String, String)| (p.0@, p.1@))
}

/// The compilation of a scene: it fails for a scene without layers.
pub open spec fn compiled_as(scene: SceneResource, r: Result<CompiledScene, ExportError>) -> bool {
    if scene.layers@.len() == 0 {
        r == Err::<CompiledScene, ExportError>(ExportError::SceneHasNoLayers { scene_id: scene.id })
    } else {
        r matches Ok(c) && c.scene_id@ == scene.id@ && c.genre == SceneKind::SideScroller
            && c.data_bytes@ == scene_data(scene) && notes_view(c.metadata@) == scene_notes(scene)
    }
}

proof fn lemma_tile_data_len(tiles: Seq<u16>, n: int)
    requires
        n >= 0,
    ensures
        tile_data(tiles, n).len() == 2 * n,
    decreases n,
{
    if n > 0 {
        lemma_tile_data_len(tiles, n - 1);
    }
}

proof fn lemma_entity_data_bytes(entities: Seq<EntityPlacement>, n: int, k: int)
    requires
        0 <= k < n,
    ensures
        entity_data(entities, n).len() == 6 * n,
        entity_data(entities, n)[6 * k + 4] == (if entities[k].facing == Facing::Left { 0u8 } else { 1u8 }),
    decreases n,
{
    if n - 1 > k {
        lemma_entity_data_bytes(entities, n - 1, k);
    } else if n - 1 > 0 {
        lemma_entity_data_bytes(entities, n - 1, 0);
    }
}

/// Law: the data of a compiled scene holds two bytes per tile of its first
/// layer, then six per entity; the fifth byte of entity `k`'s record is 0
/// when it faces left and 1 when it faces right.
pub proof fn lemma_compiled_entity_facing(scene: SceneResource, c: CompiledScene, k: int)
    requires
        compiled_as(scene, Ok(c)),
        0 <= k < scene.entities@.len(),
    ensures
        c.data_bytes@.len() == 2 * scene.layers@[0].tiles@.len() + 6 * scene.entities@.len(),
        c.data_bytes@[2 * scene.layers@[0].tiles@.len() + 6 * k + 4] == (if scene.entities@[k].facing
            == Facing::Left {
            0u8
        } else {
            1u8
        }),
{
    let t = scene.layers@[0].tiles@.len() as int;
    lemma_tile_data_len(scene.layers@[0].tiles@, t);
    lemma_entity_data_bytes(scene.entities@, scene.entities@.len() as int, k);
}

/// Appends the two little-endian bytes of a value.
pub fn push_le16(bytes: &mut Vec<u8>, v: u16)
    ensures
        final(bytes)@ == old(bytes)@ + le16(v),
{
    bytes.push((v % 256) as u8);
    bytes.push((v / 256) as u8);
    assert(final(bytes)@ =~= old(bytes)@ + le16(v));
}

/// The compiler of side-scroller scenes.
#[derive(Debug, Clone, Copy, Default)]
pub struct PlatformerSceneCompiler;

impl PlatformerSceneCompiler {
    /// The genre this compiler handles.
    pub fn genre(&self) -> (k: SceneKind)
        ensures
            k == SceneKind::SideScroller,
    {
        SceneKind::SideScroller
    }

    /// Compiles a scene; the project is not consulted.
    pub fn compile_scene(&self, bundle: &ProjectBundle, scene: &SceneResource) -> (r: Result<
        CompiledScene,
        ExportError,
    >)
        ensures
            compiled_as(*scene, r),
    {
        compile_scene_data(scene)
    }
}

/// The bytes and notes of a scene.
fn compile_scene_data(scene: &SceneResource) -> (r: Result<CompiledScene, ExportError>)
    ensures
        compiled_as(*scene, r),
{
    if scene.layers.len() == 0 {
        return Err(ExportError::SceneHasNoLayers { scene_id: scene.id.clone() });
    }
    let layer = &scene.layers[0];
    let mut data_bytes: Vec<u8> = Vec::new();
    let mut i: usize = 0;
    while i < layer.tiles.len()
        invariant
            i <= layer.tiles@.len(),
            data_bytes@ == tile_data(layer.tiles@, i as int),
        decreases layer.tiles@.len() - i,
    {
        push_le16(&mut data_bytes, layer.tiles[i]);
        i = i + 1;
    }
    let ghost tiles_part = data_bytes@;
    let mut k: usize = 0;
    while k < scene.entities.len()
        invariant
            k <= scene.entities@.len(),
            data_bytes@ == tiles_part + entity_data(scene.entities@, k as int),
        decreases scene.entities@.len() - k,
    {
        let entity = &scene.entities[k];
        let ghost before = data_bytes@;
        push_le16(&mut data_bytes, entity.position.x as u16);
        push_le16(&mut data_bytes, entity.position.y as u16);
        data_bytes.push(
            match entity.facing {
                Facing::Left => 0,
                Facing::Right => 1,
            },
        );
        let name_len = entity.archetype.as_str().len();
        data_bytes.push(name_len as u8);
        assert(data_bytes@ =~= before + entity_record(scene.entities@[k as int]));
        assert(data_bytes@ =~= tiles_part + entity_data(scene.entities@, k + 1));
        k = k + 1;
    }
    let mut metadata: Vec<(String, String)> = Vec::new();
    metadata.push(
        (String::from_str("chunk_height"), decimal_string(scene.chunk_size_tiles.height as u128)),
    );
    metadata.push(
        (String::from_str("chunk_width"), decimal_string(scene.chunk_size_tiles.width as u128)),
    );
    metadata.push((String::from_str("entity_count"), decimal_string(scene.entities.len() as u128)));
    proof {
        reveal_strlit("chunk_height");
        reveal_strlit("chunk_width");
        reveal_strlit("entity_count");
        assert(notes_view(metadata@) =~= scene_notes(*scene));
    }
    Ok(CompiledScene { scene_id: scene.id.clone(), genre: SceneKind::SideScroller, data_bytes, metadata })
}

/// The genre module of side-scroller scenes.
#[derive(Debug, Clone, Copy, Default)]
pub struct PlatformerGenreModule {
    pub compiler: PlatformerSceneCompiler,
}

impl PlatformerGenreModule {
    /// The module with its compiler.
    pub fn new() -> (m: Self)
        ensures
            m == (PlatformerGenreModule { compiler: PlatformerSceneCompiler }),
    {
        PlatformerGenreModule { compiler: PlatformerSceneCompiler }
    }

    /// The id of the genre.
    pub fn id(&self) -> (s: &'static str)
        ensures
            s@ == "side_scroller"@,
    {
        "side_scroller"
    }

    /// Whether the module compiles a scene: side scrollers only.
    pub fn supports(&self, scene: &SceneResource) -> (r: bool)
        ensures
            r == (scene.kind == SceneKind::SideScroller),
    {
        scene.kind == SceneKind::SideScroller
    }

    /// The compiler of the module.
    pub fn scene_compiler(&self) -> (c: &PlatformerSceneCompiler)
        ensures
            *c == self.compiler,
    {
        &self.compiler
    }
}

/// Compiles a side-scroller scene; any other scene is refused.
pub fn compile_scene(scene: &SceneResource) -> (r: Result<CompiledScene, ExportError>)
    ensures
        scene.kind != SceneKind::SideScroller ==> r == Err::<CompiledScene, ExportError>(
            ExportError::NotSideScroller,
        ),
        scene.kind == SceneKind::SideScroller ==> compiled_as(*scene, r),
{
    if scene.kind != SceneKind::SideScroller {
        return Err(ExportError::NotSideScroller);
    }
    compile_scene_data(scene)
}

/// The compilation of every scene of a project, in order: the first scene
/// that no genre module supports, or that fails to compile, fails it all.
pub open spec fn all_compiled(scenes: Seq<SceneResource>, r: Result<Vec<CompiledScene>, ExportError>) -> bool {
    match r {
        Ok(out) => out@.len() == scenes.len() && forall|i: int|
            0 <= i < scenes.len() ==> scenes[i].kind == SceneKind::SideScroller && compiled_as(
                scenes[i],
                Ok(#[trigger] out@[i]),
            ),
        Err(e) => exists|i: int|
            0 <= i < scenes.len() && (forall|j: int|
                0 <= j < i ==> #[trigger] scenes[j].kind == SceneKind::SideScroller
                    && scenes[j].layers@.len() > 0) && if scenes[i].kind != SceneKind::SideScroller {
                e == ExportError::NoGenreModule { scene_id: scenes[i].id }
            } else {
                scenes[i].layers@.len() == 0 && e == ExportError::SceneHasNoLayers { scene_id: scenes[i].id }
            },
    }
}

/// Compiles every scene of a project with the module that supports it.
pub fn compile_scenes(bundle: &ProjectBundle) -> (r: Result<Vec<CompiledScene>, ExportError>)
    ensures
        all_compiled(bundle.scenes@, r),
{
    let module = PlatformerGenreModule::new();
    let mut out: Vec<CompiledScene> = Vec::new();
    let mut i: usize = 0;
    while i < bundle.scenes.len()
        invariant
            i <= bundle.scenes@.len(),
            out@.len() == i,
            forall|j: int|
                0 <= j < i ==> bundle.scenes@[j].kind == SceneKind::SideScroller && compiled_as(
                    bundle.scenes@[j],
                    Ok(#[trigger] out@[j]),
                ),
        decreases bundle.scenes@.len() - i,
    {
        let scene = &bundle.scenes[i];
        assert(forall|j: int| 0 <= j < i ==> compiled_as(bundle.scenes@[j], Ok(#[trigger] out@[j])));
        if !module.supports(scene) {
            let r = Err(ExportError::NoGenreModule { scene_id: scene.id.clone() });
            assert(forall|j: int|
                0 <= j < i ==> #[trigger] bundle.scenes@[j].kind == SceneKind::SideScroller
                    && bundle.scenes@[j].layers@.len() > 0) by {
                assert forall|j: int| 0 <= j < i implies #[trigger] bundle.scenes@[j].kind
                    == SceneKind::SideScroller && bundle.scenes@[j].layers@.len() > 0 by {
                    assert(compiled_as(bundle.scenes@[j], Ok(out@[j])));
                }
            }
            return r;
        }
        let compiled = module.scene_compiler().compile_scene(bundle, scene);
        match compiled {
            Ok(c) => {
                let ghost prev = out@;
                out.push(c);
                assert forall|j: int| 0 <= j < i + 1 implies bundle.scenes@[j].kind == SceneKind::SideScroller
                    && compiled_as(bundle.scenes@[j], Ok(#[trigger] out@[j])) by {
                    if j < i {
                        assert(out@[j] == prev[j]);
                    } else {
                        assert(out@[j] == c);
                    }
                }
            },
            Err(e) => {
                assert(forall|j: int|
                    0 <= j < i ==> #[trigger] bundle.scenes@[j].kind == SceneKind::SideScroller
                        && bundle.scenes@[j].layers@.len() > 0) by {
                    assert forall|j: int| 0 <= j < i implies #[trigger] bundle.scenes@[j].kind
                        == SceneKind::SideScroller && bundle.scenes@[j].layers@.len() > 0 by {
                        assert(compiled_as(bundle.scenes@[j], Ok(out@[j])));
                    }
                }
                return Err(e);
            },
        }
        i = i + 1;
    }
    Ok(out)
}

/// What a build report keeps of a compiled scene.
#[derive(Debug, Clone)]
pub struct CompiledSceneSummary {
    pub scene_id: String,
    pub byte_len: usize,
    pub metadata: Vec<(String, String)>,
}

impl CompiledSceneSummary {
    /// The summary of a compiled scene.
    pub fn of(scene: &CompiledScene) -> (s: Self)
        ensures
            s.scene_id@ == scene.scene_id@,
            s.byte_len == scene.data_bytes@.len(),
            notes_view(s.metadata@) == notes_view(scene.metadata@),
    {
        let mut metadata: Vec<(String, String)> = Vec::new();
        let mut i: usize = 0;
        while i < scene.metadata.len()
            invariant
                i <= scene.metadata@.len(),
                metadata@.len() == i,
                notes_view(metadata@) == notes_view(scene.metadata@.take(i as int)),
            decreases scene.metadata@.len() - i,
        {
            let pair = &scene.metadata[i];
            let key = pair.0.clone();
            let value = pair.1.clone();
            let ghost prev = metadata@;
            metadata.push((key, value));
            assert forall|j: int| 0 <= j < i + 1 implies #[trigger] notes_view(metadata@)[j] == notes_view(
                scene.metadata@.take(i + 1),
            )[j] by {
                if j < i {
                    assert(metadata@[j] == prev[j]);
                    assert(notes_view(prev)[j] == notes_view(scene.metadata@.take(i as int))[j]);
                }
            }
            assert(notes_view(metadata@) =~= notes_view(scene.metadata@.take(i + 1)));
            i = i + 1;
        }
        assert(scene.metadata@.take(i as int) =~= scene.metadata@);
        CompiledSceneSummary { scene_id: scene.scene_id.clone(), byte_len: scene.data_bytes.len(), metadata }
    }
}

} // verus!
