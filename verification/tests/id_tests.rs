use snesmaker::bundle::{
    AssemblerSettings, BuildSettings, EditorSettings, GameplaySettings, HealthHudStyle, PlayerSettings,
    ProjectBundle, ProjectManifest, ProjectMeta,
};
use snesmaker::clipboard::{
    copy_selection, duplicate_entity, duplicate_spawn, duplicate_trigger, paste_clipboard_objects, ObjectSlugs,
};
use snesmaker::diagnostics::{rename_duplicate_dialogue_ids, rename_duplicate_scene_ids};
use snesmaker::editor::TileSelectionRect;
use snesmaker::events::{DialogueGraph, TriggerKind};
use snesmaker::favorites::EditorFavorites;
use snesmaker::layers::build_scene_selection;
use snesmaker::project::{
    Checkpoint, CollisionLayer, CombatStats, EntityAction, EntityKind, EntityPlacement, Facing, GridSize,
    MovementPattern, PointI16, RectI16, SceneKind, SceneResource, SpawnPoint, TileLayer, TriggerVolume,
};
use snesmaker::unique_ids::{
    duplicate_layer, next_unique_copy_id, next_unique_layer_id, rename_duplicate_ids,
};

fn strings(v: &[&str]) -> Vec<String> {
    v.iter().map(|s| s.to_string()).collect()
}

fn layer(id: &str, tiles: Vec<u16>) -> TileLayer {
    TileLayer {
        id: id.to_string(),
        tileset_id: "bricks".to_string(),
        visible: false,
        parallax_x: 2,
        parallax_y: 1,
        tiles,
    }
}

fn entity(id: &str, x: i16, y: i16) -> EntityPlacement {
    EntityPlacement {
        id: id.to_string(),
        archetype: "slime".to_string(),
        kind: EntityKind::Enemy,
        position: PointI16 { x, y },
        facing: Facing::Left,
        hitbox: RectI16 { x: 0, y: 0, width: 8, height: 8 },
        combat: CombatStats { contact_damage: 1, max_health: 2 },
        action: EntityAction::NoAction,
        movement: MovementPattern::Stationary,
        active: true,
        one_shot: false,
    }
}

fn scene(id: &str) -> SceneResource {
    SceneResource {
        id: id.to_string(),
        kind: SceneKind::SideScroller,
        size_tiles: GridSize { width: 4, height: 2 },
        chunk_size_tiles: GridSize { width: 4, height: 2 },
        background_color_index: 0,
        layers: vec![layer("back", (0..8).collect()), layer("back_copy", vec![0; 8])],
        collision: CollisionLayer { solids: vec![false; 8], ladders: vec![false; 8], hazards: vec![false; 8] },
        spawns: vec![SpawnPoint { id: "start".to_string(), position: PointI16 { x: 2, y: 3 } }],
        checkpoints: vec![Checkpoint { id: "mid".to_string(), position: PointI16 { x: 4, y: 4 } }],
        entities: vec![entity("slime", 1, 1)],
        triggers: vec![TriggerVolume {
            id: "door".to_string(),
            kind: TriggerKind::Touch,
            rect: RectI16 { x: 2, y: 2, width: 4, height: 4 },
            script_id: "open".to_string(),
        }],
        scripts: vec![],
    }
}

fn project(scenes: Vec<SceneResource>, dialogues: Vec<DialogueGraph>) -> ProjectBundle {
    ProjectBundle {
        manifest: ProjectManifest {
            meta: ProjectMeta { name: "Ids".to_string(), slug: "ids".to_string() },
            build: BuildSettings {
                output_dir: "build".to_string(),
                rom_bank_count: 4,
                assembler: AssemblerSettings { ca65_path: "ca65".to_string(), ld65_path: "ld65".to_string() },
            },
            gameplay: GameplaySettings {
                entry_scene: "town".to_string(),
                player: PlayerSettings { max_health: 4, starting_health: 4, health_hud: HealthHudStyle::MegaPipsTopLeft },
            },
            editor: EditorSettings { preferred_emulator: None },
        },
        scenes,
        dialogues,
        palettes: vec![],
        tilesets: vec![],
        metasprites: vec![],
        animations: vec![],
    }
}

#[test]
fn copies_are_named_after_the_first_free_suffix() {
    assert_eq!(next_unique_layer_id(&strings(&["a", "b"]), "hero"), "hero_copy");
    assert_eq!(next_unique_layer_id(&strings(&["hero_copy"]), "hero"), "hero_copy_2");
    assert_eq!(
        next_unique_layer_id(&strings(&["hero_copy_2", "hero_copy", "hero_copy_3"]), "hero"),
        "hero_copy_4"
    );
    assert_eq!(next_unique_layer_id(&strings(&["hero_copy", "hero_copy_3"]), "hero"), "hero_copy_2");

    let mut taken = strings(&["x_copy"]);
    assert_eq!(next_unique_copy_id(&mut taken, "x"), "x_copy_2");
    assert_eq!(next_unique_copy_id(&mut taken, "x"), "x_copy_3");
    assert_eq!(taken, strings(&["x_copy", "x_copy_2", "x_copy_3"]));
}

#[test]
fn duplicated_layers_follow_the_original() {
    let mut s = scene("town");
    let (at, id) = duplicate_layer(&mut s, 0, "back").unwrap();
    assert_eq!((at, id.as_str()), (1, "back_copy_2"));
    let ids: Vec<&str> = s.layers.iter().map(|l| l.id.as_str()).collect();
    assert_eq!(ids, vec!["back", "back_copy_2", "back_copy"]);
    assert_eq!(s.layers[1].tiles, (0..8).collect::<Vec<u16>>());
    assert_eq!(s.layers[1].tileset_id, "bricks");
    assert!(!s.layers[1].visible);
    assert_eq!(s.layers[1].parallax_x, 2);

    let before = format!("{:?}", s);
    assert!(duplicate_layer(&mut s, 3, "x").is_none());
    assert_eq!(format!("{:?}", s), before);
}

#[test]
fn duplicate_ids_are_renamed_in_order() {
    let mut ids = strings(&["a", "b", "a", "a", "a_copy"]);
    let slugs = strings(&["a", "b", "a", "a", "a_copy"]);
    assert!(rename_duplicate_ids(&mut ids, &slugs));
    assert_eq!(ids, strings(&["a", "b", "a_copy", "a_copy_2", "a_copy_copy"]));

    let mut ids = strings(&["a", "b"]);
    assert!(!rename_duplicate_ids(&mut ids, &strings(&["a", "b"])));
    assert_eq!(ids, strings(&["a", "b"]));
}

#[test]
fn duplicate_scene_and_dialogue_ids_are_fixed() {
    let dialogue = |id: &str| DialogueGraph { id: id.to_string(), opening_node: "n".to_string(), nodes: vec![] };
    let mut b = project(
        vec![scene("Town"), scene("Town"), scene("cave")],
        vec![dialogue("hi"), dialogue("hi")],
    );
    let status = rename_duplicate_scene_ids(&mut b, &strings(&["town", "town", "cave"]));
    assert_eq!(status, "Renamed duplicate scene ids");
    let ids: Vec<&str> = b.scenes.iter().map(|s| s.id.as_str()).collect();
    assert_eq!(ids, vec!["Town", "town_copy", "cave"]);
    assert_eq!(b.scenes[1].layers.len(), 2);

    let status = rename_duplicate_dialogue_ids(&mut b, &strings(&["hi", "hi"]));
    assert_eq!(status, "Renamed duplicate dialogue ids");
    assert_eq!(b.dialogues[1].id, "hi_copy");
    assert_eq!(b.dialogues[1].opening_node, "n");
}

#[test]
fn pasted_objects_are_moved_and_renamed() {
    let mut s = scene("town");
    let selection = build_scene_selection(&s, TileSelectionRect { min_x: 0, min_y: 0, max_x: 1, max_y: 1 });
    let (clip, _) = copy_selection(&s, 0, &selection).unwrap();
    assert_eq!(clip.spawns.len(), 1);
    let slugs = ObjectSlugs {
        spawns: strings(&["start"]),
        checkpoints: strings(&["mid"]),
        entities: strings(&["slime"]),
        triggers: strings(&["door"]),
    };
    let sel = paste_clipboard_objects(&mut s, &clip, (2, 0), &slugs);
    assert_eq!(sel.rect, TileSelectionRect { min_x: 2, min_y: 0, max_x: 3, max_y: 1 });
    assert_eq!((sel.spawns.clone(), sel.checkpoints.clone()), (vec![1], vec![1]));
    assert_eq!((sel.entities.clone(), sel.triggers.clone()), (vec![1], vec![1]));
    assert_eq!(s.spawns[1].id, "start_copy");
    assert_eq!(s.spawns[1].position, PointI16 { x: 18, y: 3 });
    assert_eq!(s.checkpoints[1].id, "mid_copy");
    assert_eq!(s.entities[1].id, "slime_copy");
    assert_eq!(s.entities[1].position, PointI16 { x: 17, y: 1 });
    assert_eq!(s.entities[1].archetype, "slime");
    assert_eq!(s.triggers[1].id, "door_copy");
    assert_eq!(s.triggers[1].rect, RectI16 { x: 18, y: 2, width: 4, height: 4 });

    let again = paste_clipboard_objects(&mut s, &clip, (0, 1), &slugs);
    assert_eq!(again.spawns, vec![2]);
    assert_eq!(s.spawns[2].id, "start_copy_2");
    assert_eq!(s.spawns[2].position, PointI16 { x: 2, y: 11 });
}

#[test]
fn favorites_toggle_per_kind() {
    let mut f = EditorFavorites::new();
    assert!(!f.is_asset_favorite("scene", "town"));
    f.toggle_asset_favorite("scene", "town");
    f.toggle_asset_favorite("palette", "warm");
    f.toggle_asset_favorite("sprite_source", "hero.png");
    assert!(f.is_asset_favorite("scene", "town"));
    assert!(!f.is_asset_favorite("palette", "town"));
    assert!(f.is_asset_favorite("sprite_source", "hero.png"));
    f.toggle_asset_favorite("scene", "cave");
    f.toggle_asset_favorite("scene", "town");
    assert!(!f.is_asset_favorite("scene", "town"));
    assert_eq!(f.scenes, strings(&["cave"]));
    f.toggle_asset_favorite("sound", "boom");
    assert!(!f.is_asset_favorite("sound", "boom"));
    assert_eq!(f.palettes, strings(&["warm"]));
}

#[test]
fn duplicated_objects_sit_to_the_right_of_the_original() {
    let mut s = scene("town");
    let (at, id) = duplicate_spawn(&mut s.spawns, 0, "start").unwrap();
    assert_eq!((at, id.as_str()), (1, "start_copy"));
    assert_eq!(s.spawns[1].position, PointI16 { x: 18, y: 3 });
    let (_, id) = duplicate_spawn(&mut s.spawns, 0, "start").unwrap();
    assert_eq!(id, "start_copy_2");
    let ids: Vec<&str> = s.spawns.iter().map(|x| x.id.as_str()).collect();
    assert_eq!(ids, vec!["start", "start_copy_2", "start_copy"]);

    let (_, id) = duplicate_entity(&mut s.entities, 0, "slime").unwrap();
    assert_eq!(id, "slime_copy");
    assert_eq!(s.entities[1].position, PointI16 { x: 17, y: 1 });
    assert_eq!(s.entities[1].archetype, "slime");
    let (_, id) = duplicate_trigger(&mut s.triggers, 0, "door").unwrap();
    assert_eq!(id, "door_copy");
    assert_eq!(s.triggers[1].rect, RectI16 { x: 18, y: 2, width: 4, height: 4 });
    assert!(duplicate_trigger(&mut s.triggers, 5, "x").is_none());
    assert_eq!(s.triggers.len(), 2);
}
