use snesmaker::bundle::{
    AssemblerSettings, BuildSettings, EditorSettings, GameplaySettings, HealthHudStyle, PlayerSettings,
    ProjectBundle, ProjectManifest, ProjectMeta,
};
use snesmaker::events::{EventCommand, EventScript};
use snesmaker::project::{
    AnimationFrame, AnimationResource, CollisionLayer, CombatStats, EntityAction, EntityKind,
    EntityPlacement, Facing, GridSize, MetaspriteResource, MovementPattern, PointI16, RectI16, SceneKind,
    SceneResource, TileLayer, TilesetResource,
};
use snesmaker::usage::asset_usage_summary;

fn layer(tileset: &str) -> TileLayer {
    TileLayer {
        id: "l".to_string(),
        tileset_id: tileset.to_string(),
        visible: true,
        parallax_x: 1,
        parallax_y: 1,
        tiles: vec![0; 4],
    }
}

fn entity(archetype: &str) -> EntityPlacement {
    EntityPlacement {
        id: "e".to_string(),
        archetype: archetype.to_string(),
        kind: EntityKind::Prop,
        position: PointI16 { x: 0, y: 0 },
        facing: Facing::Right,
        hitbox: RectI16 { x: 0, y: 0, width: 8, height: 8 },
        combat: CombatStats { contact_damage: 0, max_health: 1 },
        action: EntityAction::NoAction,
        movement: MovementPattern::Stationary,
        active: true,
        one_shot: false,
    }
}

fn scene(id: &str, layers: Vec<TileLayer>, entities: Vec<EntityPlacement>, scripts: Vec<EventScript>) -> SceneResource {
    SceneResource {
        id: id.to_string(),
        kind: SceneKind::SideScroller,
        size_tiles: GridSize { width: 2, height: 2 },
        chunk_size_tiles: GridSize { width: 2, height: 2 },
        background_color_index: 0,
        layers,
        collision: CollisionLayer { solids: vec![false; 4], ladders: vec![false; 4], hazards: vec![false; 4] },
        spawns: vec![],
        checkpoints: vec![],
        entities,
        triggers: vec![],
        scripts,
    }
}

fn load(scene_id: &str) -> EventCommand {
    EventCommand::LoadScene { scene_id: scene_id.to_string(), spawn: None }
}

fn talk(dialogue_id: &str) -> EventCommand {
    EventCommand::ShowDialogue { dialogue_id: dialogue_id.to_string(), node_id: None }
}

fn script(commands: Vec<EventCommand>) -> EventScript {
    EventScript { id: "s".to_string(), commands }
}

fn bundle() -> ProjectBundle {
    ProjectBundle {
        manifest: ProjectManifest {
            meta: ProjectMeta { name: "Usage".to_string(), slug: "usage".to_string() },
            build: BuildSettings {
                output_dir: "build".to_string(),
                rom_bank_count: 4,
                assembler: AssemblerSettings {
                    ca65_path: "ca65".to_string(),
                    ld65_path: "ld65".to_string(),
                },
            },
            gameplay: GameplaySettings {
                entry_scene: "intro".to_string(),
                player: PlayerSettings {
                    max_health: 8,
                    starting_health: 8,
                    health_hud: HealthHudStyle::MegaPipsTopLeft,
                },
            },
            editor: EditorSettings { preferred_emulator: None },
        },
        scenes: vec![
            scene(
                "intro",
                vec![layer("grass"), layer("rock")],
                vec![entity("slime"), entity("bat")],
                vec![script(vec![load("cave"), talk("hello"), load("cave")]), script(vec![talk("hello")])],
            ),
            scene(
                "cave",
                vec![layer("rock")],
                vec![entity("slime")],
                vec![script(vec![load("intro")]), script(vec![talk("bye")])],
            ),
        ],
        dialogues: vec![],
        palettes: vec![],
        tilesets: vec![
            TilesetResource { id: "grass".to_string(), palette_id: "green".to_string(), name: "Grass".to_string(), tiles: vec![] },
            TilesetResource { id: "rock".to_string(), palette_id: "grey".to_string(), name: "Rock".to_string(), tiles: vec![] },
        ],
        metasprites: vec![
            MetaspriteResource { id: "slime".to_string(), palette_id: "green".to_string(), pieces: vec![] },
            MetaspriteResource { id: "bat".to_string(), palette_id: "green".to_string(), pieces: vec![] },
        ],
        animations: vec![
            AnimationResource {
                id: "slime_walk".to_string(),
                frames: vec![
                    AnimationFrame { metasprite_id: "slime".to_string(), duration_frames: 4 },
                    AnimationFrame { metasprite_id: "slime".to_string(), duration_frames: 4 },
                ],
            },
            AnimationResource {
                id: "bat".to_string(),
                frames: vec![AnimationFrame { metasprite_id: "bat".to_string(), duration_frames: 4 }],
            },
        ],
    }
}

#[test]
fn scenes_report_entry_and_loads() {
    let b = bundle();
    assert_eq!(asset_usage_summary(&b, "scene", "intro"), "entry scene | loaded by 1 script command(s)");
    assert_eq!(asset_usage_summary(&b, "scene", "cave"), "loaded by 2 script command(s)");
    assert_eq!(asset_usage_summary(&b, "scene", "nowhere"), "No inbound references");
    let mut lonely = bundle();
    lonely.scenes[1].scripts.clear();
    assert_eq!(asset_usage_summary(&lonely, "scene", "intro"), "entry scene");
}

#[test]
fn graphics_report_their_users() {
    let b = bundle();
    assert_eq!(asset_usage_summary(&b, "palette", "green"), "1 tileset(s) | 2 metasprite(s)");
    assert_eq!(asset_usage_summary(&b, "tileset", "rock"), "Used by 2 layer(s)");
    assert_eq!(asset_usage_summary(&b, "metasprite", "slime"), "1 animation(s) | 2 entity placement(s)");
    assert_eq!(asset_usage_summary(&b, "animation", "bat"), "Used by 1 entity placement(s)");
}

#[test]
fn dialogues_count_scripts_once() {
    let b = bundle();
    assert_eq!(asset_usage_summary(&b, "dialogue", "hello"), "Referenced by 2 script(s)");
    assert_eq!(asset_usage_summary(&b, "dialogue", "bye"), "Referenced by 1 script(s)");
    assert_eq!(asset_usage_summary(&b, "sound", "x"), "No usage metadata");
}
