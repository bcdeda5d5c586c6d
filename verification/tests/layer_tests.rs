use snesmaker::bundle::{
    AssemblerSettings, BuildSettings, EditorSettings, GameplaySettings, HealthHudStyle, PlayerSettings,
    ProjectBundle, ProjectManifest, ProjectMeta,
};
use snesmaker::project::{PaletteResource, TilesetResource};
use snesmaker::clipboard::{copy_selection, paste_clipboard_cells};
use snesmaker::editor::{SceneObjectGroup, TileSelectionRect};
use snesmaker::events::{EventCommand, EventScript, TriggerKind};
use snesmaker::layers::{
    active_tileset_and_palette, add_layer, build_scene_selection, focus_point, select_layer_status, focus_layer, focus_scene, layer_at, layer_status, move_layer,
    remove_layer, sample_tile, select_physics_profile, toggle_group_solo, toggle_layer_solo,
    toggle_layer_visibility, LayerLocks, SceneSelection,
};
use snesmaker::project::{
    default_megaman_like_physics, template_physics_profile, Checkpoint, CollisionLayer, CombatStats,
    EntityAction, EntityKind, EntityPlacement, Facing, GridSize, MovementPattern, PhysicsFamily, PointI16,
    RectI16, SceneKind, SceneResource, SpawnPoint, TileLayer, TriggerVolume,
};

fn layer(id: &str, tileset: &str, tiles: Vec<u16>) -> TileLayer {
    TileLayer {
        id: id.to_string(),
        tileset_id: tileset.to_string(),
        visible: true,
        parallax_x: 1,
        parallax_y: 1,
        tiles,
    }
}

fn entity(id: &str, x: i16, y: i16) -> EntityPlacement {
    EntityPlacement {
        id: id.to_string(),
        archetype: "slime".to_string(),
        kind: EntityKind::Enemy,
        position: PointI16 { x, y },
        facing: Facing::Left,
        hitbox: RectI16 { x: 0, y: 0, width: 8, height: 8 },
        combat: CombatStats { contact_damage: 1, max_health: 2 },
        action: EntityAction::HealPlayer { amount: 2 },
        movement: MovementPattern::Stationary,
        active: true,
        one_shot: false,
    }
}

fn scene() -> SceneResource {
    SceneResource {
        id: "room".to_string(),
        kind: SceneKind::SideScroller,
        size_tiles: GridSize { width: 4, height: 3 },
        chunk_size_tiles: GridSize { width: 4, height: 3 },
        background_color_index: 0,
        layers: vec![
            layer("back", "hills", (0..12).collect()),
            layer("front", "bricks", vec![0; 12]),
        ],
        collision: CollisionLayer {
            solids: vec![false, true, false, false, false, false, false, false, true, true, true, true],
            ladders: vec![false; 12],
            hazards: vec![false; 12],
        },
        spawns: vec![
            SpawnPoint { id: "start".to_string(), position: PointI16 { x: 9, y: 9 } },
            SpawnPoint { id: "far".to_string(), position: PointI16 { x: 30, y: 20 } },
        ],
        checkpoints: vec![Checkpoint { id: "mid".to_string(), position: PointI16 { x: 12, y: 2 } }],
        entities: vec![entity("slime_1", 4, 4), entity("slime_2", 20, 4)],
        triggers: vec![TriggerVolume {
            id: "door".to_string(),
            kind: TriggerKind::Touch,
            rect: RectI16 { x: 14, y: 14, width: 4, height: 4 },
            script_id: "open".to_string(),
        }],
        scripts: vec![EventScript {
            id: "open".to_string(),
            commands: vec![EventCommand::LoadScene { scene_id: "next".to_string(), spawn: None }],
        }],
    }
}

fn rect(min_x: usize, min_y: usize, max_x: usize, max_y: usize) -> TileSelectionRect {
    TileSelectionRect { min_x, min_y, max_x, max_y }
}

#[test]
fn selections_pick_the_objects_inside() {
    let sel = build_scene_selection(&scene(), rect(0, 0, 1, 1));
    assert_eq!(sel.rect, rect(0, 0, 1, 1));
    assert_eq!(sel.spawns, vec![0]);
    assert_eq!(sel.checkpoints, vec![0]);
    assert_eq!(sel.entities, vec![0]);
    assert_eq!(sel.triggers, vec![0]);

    let sel = build_scene_selection(&scene(), rect(3, 2, 3, 2));
    assert_eq!(sel.spawns, vec![1]);
    assert!(sel.checkpoints.is_empty() && sel.entities.is_empty());
    assert!(sel.triggers.is_empty());
}

#[test]
fn layers_move_one_place_at_a_time() {
    let mut layers = scene().layers;
    assert_eq!(move_layer(&mut layers, 0, -1), None);
    assert_eq!(move_layer(&mut layers, 9, 1), None);
    assert_eq!(move_layer(&mut layers, 0, 1), Some(1));
    assert_eq!(layers[0].id, "front");
    assert_eq!(layers[1].id, "back");
    assert_eq!(move_layer(&mut layers, 5, -1), Some(0));
    assert_eq!(layers[0].id, "back");
    assert_eq!(move_layer(&mut layers, 0, 2), None);
}

#[test]
fn the_last_layer_cannot_be_removed() {
    let mut layers = scene().layers;
    let (next, removed) = remove_layer(&mut layers, 7).unwrap();
    assert_eq!((next, removed.id.as_str()), (0, "front"));
    assert_eq!(layers.len(), 1);
    assert!(remove_layer(&mut layers, 0).is_none());
    assert_eq!(layers.len(), 1);
}

#[test]
fn visibility_toggles_with_a_status() {
    let mut layers = scene().layers;
    assert_eq!(toggle_layer_visibility(&mut layers, 1).as_deref(), Some("Hid layer 'front'"));
    assert!(!layers[1].visible);
    assert_eq!(toggle_layer_visibility(&mut layers, 8).as_deref(), Some("Showed layer 'front'"));
    assert!(layers[1].visible);
    let mut none: Vec<TileLayer> = vec![];
    assert!(toggle_layer_visibility(&mut none, 0).is_none());
    assert_eq!(layer_status("Moved", "back"), "Moved layer 'back'");
}

#[test]
fn new_layers_get_the_first_free_name() {
    let mut s = scene();
    s.layers[1].id = "layer_3".to_string();
    let (index, id) = add_layer(&mut s, 1, None).unwrap();
    assert_eq!((index, id.as_str()), (2, "layer_4"));
    assert_eq!(s.layers[2].tileset_id, "bricks");
    assert_eq!(s.layers[2].tiles, vec![0; 12]);
    assert!(s.layers[2].visible);

    let mut empty = scene();
    empty.layers.clear();
    assert!(add_layer(&mut empty, 0, None).is_none());
    let (index, id) = add_layer(&mut empty, 0, Some("tiles")).unwrap();
    assert_eq!((index, id.as_str()), (0, "layer_1"));
    assert_eq!(empty.layers[0].tileset_id, "tiles");
}

#[test]
fn sampling_reads_a_cell() {
    let s = scene();
    assert_eq!(sample_tile(&s.layers[0], 5), (5, "Sampled tile 5 from 'back'".to_string()));
    assert_eq!(sample_tile(&s.layers[0], 50), (0, "Sampled tile 0 from 'back'".to_string()));
}

#[test]
fn playtests_use_the_selected_physics() {
    let presets = vec![
        default_megaman_like_physics(),
        template_physics_profile(PhysicsFamily::MarioLike, "floaty".to_string()),
    ];
    assert_eq!(select_physics_profile(&presets, "floaty").map(|p| p.id.as_str()), Some("floaty"));
    assert_eq!(
        select_physics_profile(&presets, "missing").map(|p| p.id.as_str()),
        Some(presets[0].id.as_str())
    );
    assert!(select_physics_profile(&vec![], "floaty").is_none());
}

#[test]
fn locks_toggle_and_clear_per_scene() {
    let mut locks = LayerLocks::new();
    assert!(locks.toggle(0, 1));
    assert!(locks.toggle(2, 0));
    assert!(locks.is_locked(0, 1));
    assert!(!locks.toggle(0, 1));
    assert!(!locks.is_locked(0, 1));
    assert!(locks.toggle(2, 3));
    locks.clear_scene(2);
    assert!(!locks.is_locked(2, 0) && !locks.is_locked(2, 3));
}

#[test]
fn solos_toggle_with_statuses() {
    let scenes = vec![scene()];
    let (solo, status) = toggle_layer_solo(None, &scenes, 0, 9);
    assert_eq!((solo, status.as_str()), (Some((0, 9)), "Solo layer 'front'"));
    let (solo, status) = toggle_layer_solo(solo, &scenes, 0, 9);
    assert_eq!((solo, status.as_str()), (None, "Cleared layer solo"));
    let (_, status) = toggle_layer_solo(None, &scenes, 3, 0);
    assert_eq!(status, "Soloed layer");
    assert_eq!(layer_at(&scenes, 0, 0).map(|l| l.id.as_str()), Some("back"));

    let (group, status) = toggle_group_solo(None, SceneObjectGroup::Entities);
    assert_eq!((group, status.as_str()), (Some(SceneObjectGroup::Entities), "Solo Entities"));
    let (group, status) = toggle_group_solo(group, SceneObjectGroup::Entities);
    assert_eq!((group, status.as_str()), (None, "Cleared object-group solo"));
}

#[test]
fn focus_covers_the_scene_or_the_layer_tiles() {
    let s = scene();
    assert_eq!(focus_scene(&s), (RectI16 { x: 0, y: 0, width: 32, height: 24 }, "Focused scene 'room'".to_string()));
    let (r, status) = focus_layer(&s, 0).unwrap();
    assert_eq!(r, RectI16 { x: 0, y: 0, width: 32, height: 24 });
    assert_eq!(status, "Focused layer 'back'");
    let (r, _) = focus_layer(&s, 1).unwrap();
    assert_eq!(r, RectI16 { x: 0, y: 0, width: 32, height: 24 });
    assert!(focus_layer(&s, 2).is_none());
}

#[test]
fn copied_blocks_paste_back_elsewhere() {
    let mut s = scene();
    let selection = build_scene_selection(&s, rect(0, 0, 1, 1));
    let (clip, status) = copy_selection(&s, 0, &selection).unwrap();
    assert_eq!(status, "Copied 2x2 selection from 'back'");
    assert_eq!((clip.width_tiles, clip.height_tiles), (2, 2));
    assert_eq!(clip.tiles, vec![0, 1, 4, 5]);
    assert_eq!(clip.solids, vec![false, true, false, false]);
    assert_eq!(clip.spawns[0].position, PointI16 { x: 9, y: 9 });
    assert_eq!(clip.entities[0].id, "slime_1");

    let moved = build_scene_selection(&s, rect(1, 1, 2, 2));
    let (clip2, _) = copy_selection(&s, 0, &moved).unwrap();
    assert_eq!(clip2.spawns[0].position, PointI16 { x: 1, y: 1 });
    assert_eq!(clip2.triggers[0].rect, RectI16 { x: 6, y: 6, width: 4, height: 4 });

    let (pasted, status) = paste_clipboard_cells(&mut s, 0, &clip, (3, 1));
    assert_eq!(pasted, rect(3, 1, 4, 2));
    assert_eq!(status, "Pasted selection into 'back' at 3, 1");
    assert_eq!(s.layers[0].tiles, vec![0, 1, 2, 3, 4, 5, 6, 0, 8, 9, 10, 4]);
    assert_eq!(s.collision.solids[11], false);
    assert_eq!(s.collision.solids[10], true);
    assert_eq!(s.layers[1].tiles, vec![0; 12]);
}

#[test]
fn empty_selections_copy_no_cells() {
    let s = scene();
    let selection = SceneSelection {
        rect: rect(2, 0, 1, 0),
        spawns: vec![7],
        checkpoints: vec![],
        entities: vec![],
        triggers: vec![],
    };
    let (clip, _) = copy_selection(&s, 0, &selection).unwrap();
    assert!(clip.tiles.is_empty());
    assert!(clip.spawns.is_empty());
    assert_eq!(clip.width_tiles, 1);
}

#[test]
fn active_layers_name_their_tileset_and_palette() {
    let b = ProjectBundle {
        manifest: ProjectManifest {
            meta: ProjectMeta { name: "L".to_string(), slug: "l".to_string() },
            build: BuildSettings {
                output_dir: "build".to_string(),
                rom_bank_count: 4,
                assembler: AssemblerSettings { ca65_path: "ca65".to_string(), ld65_path: "ld65".to_string() },
            },
            gameplay: GameplaySettings {
                entry_scene: "room".to_string(),
                player: PlayerSettings { max_health: 4, starting_health: 4, health_hud: HealthHudStyle::MegaPipsTopLeft },
            },
            editor: EditorSettings { preferred_emulator: None },
        },
        scenes: vec![scene()],
        dialogues: vec![],
        palettes: vec![PaletteResource { id: "earth".to_string(), colors: vec![] }],
        tilesets: vec![TilesetResource {
            id: "bricks".to_string(),
            palette_id: "earth".to_string(),
            name: "Bricks".to_string(),
            tiles: vec![],
        }],
        metasprites: vec![],
        animations: vec![],
    };
    let (tileset, palette) = active_tileset_and_palette(&b, 0, 4).unwrap();
    assert_eq!((tileset.id.as_str(), palette.id.as_str()), ("bricks", "earth"));
    assert!(active_tileset_and_palette(&b, 0, 0).is_none());
    assert!(active_tileset_and_palette(&b, 1, 0).is_none());
    assert_eq!(select_layer_status(&b.scenes, 0, 1).as_deref(), Some("Active layer: 'front'"));
    assert_eq!(select_layer_status(&b.scenes, 2, 1), None);
}

#[test]
fn points_are_focused_in_a_small_square() {
    let (r, status) = focus_point("spawn 'start'", PointI16 { x: 40, y: -8 });
    assert_eq!(r, RectI16 { x: 40, y: -8, width: 16, height: 16 });
    assert_eq!(status, "Focused spawn 'start'");
}
