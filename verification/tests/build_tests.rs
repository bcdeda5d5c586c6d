use snesmaker::assembly::{choose_emulator, AssemblerStatus};
use snesmaker::background::build_bg_assets;
use snesmaker::bundle::{
    AssemblerSettings, BuildSettings, EditorSettings, GameplaySettings, HealthHudStyle, PlayerSettings,
    ProjectBundle, ProjectManifest, ProjectMeta,
};
use snesmaker::compile::{compile_scene, compile_scenes, CompiledSceneSummary, PlatformerGenreModule, PlatformerSceneCompiler};
use snesmaker::errors::ExportError;
use snesmaker::player_assets::{build_player_assets, build_player_assets_checked};
use snesmaker::project::{
    AnimationFrame, AnimationResource, CollisionLayer, CombatStats, EntityAction, EntityKind,
    EntityPlacement, Facing, GridSize, MetaspriteResource, MovementPattern, PaletteResource,
    PointI16, RectI16, RgbaColor, SceneKind, SceneResource, SpawnPoint, SpriteTileRef, Tile8,
    TileLayer, TilesetResource,
};
use snesmaker::project_data::generated_project_data;

fn piece(tile_index: u16, x: i16) -> SpriteTileRef {
    SpriteTileRef { tile_index, x, y: 0, palette_slot: 0, h_flip: x > 0, v_flip: false }
}

fn sprite(id: &str, palette: &str, pieces: Vec<SpriteTileRef>) -> MetaspriteResource {
    MetaspriteResource { id: id.to_string(), palette_id: palette.to_string(), pieces }
}

fn entity(id: &str, archetype: &str, x: i16, action: EntityAction) -> EntityPlacement {
    EntityPlacement {
        id: id.to_string(),
        archetype: archetype.to_string(),
        kind: EntityKind::Enemy,
        position: PointI16 { x, y: 8 },
        facing: Facing::Left,
        hitbox: RectI16 { x: 0, y: 0, width: 8, height: 8 },
        combat: CombatStats { contact_damage: 1, max_health: 3 },
        action,
        movement: MovementPattern::Patrol { left_offset: -8, right_offset: 8, speed: 0 },
        active: true,
        one_shot: false,
    }
}

fn scene(kind: SceneKind) -> SceneResource {
    SceneResource {
        id: "intro".to_string(),
        kind,
        size_tiles: GridSize { width: 4, height: 2 },
        chunk_size_tiles: GridSize { width: 4, height: 2 },
        background_color_index: 0,
        layers: vec![TileLayer {
            id: "bg".to_string(),
            tileset_id: "tiles".to_string(),
            visible: true,
            parallax_x: 1,
            parallax_y: 1,
            tiles: vec![0, 1, 2, 3, 0, 1, 2, 3],
        }],
        collision: CollisionLayer { solids: vec![false; 8], ladders: vec![false; 8], hazards: vec![false; 8] },
        spawns: vec![SpawnPoint { id: "start".to_string(), position: PointI16 { x: 8, y: 8 } }],
        checkpoints: vec![],
        entities: vec![
            entity("slime_1", "slime", 16, EntityAction::SetEntityActive { target_entity_id: "door_1".to_string(), active: true }),
            entity("door_1", "door", 24, EntityAction::NoAction),
        ],
        triggers: vec![],
        scripts: vec![],
    }
}

fn bundle() -> ProjectBundle {
    let tile = |v: u8| Tile8 { pixels: vec![v; 64] };
    ProjectBundle {
        manifest: ProjectManifest {
            meta: ProjectMeta { name: "Demo".to_string(), slug: "demo".to_string() },
            build: BuildSettings {
                output_dir: "build".to_string(),
                rom_bank_count: 4,
                assembler: AssemblerSettings { ca65_path: "ca65".to_string(), ld65_path: "ld65".to_string() },
            },
            gameplay: GameplaySettings {
                entry_scene: "intro".to_string(),
                player: PlayerSettings { max_health: 6, starting_health: 9, health_hud: HealthHudStyle::HeartsTopRight },
            },
            editor: EditorSettings { preferred_emulator: Some("snes9x".to_string()) },
        },
        scenes: vec![scene(SceneKind::SideScroller)],
        dialogues: vec![],
        palettes: vec![PaletteResource {
            id: "pal".to_string(),
            colors: vec![RgbaColor { r: 0, g: 0, b: 0, a: 0 }, RgbaColor { r: 255, g: 0, b: 0, a: 255 }],
        }],
        tilesets: vec![TilesetResource {
            id: "tiles".to_string(),
            palette_id: "pal".to_string(),
            name: "Tiles".to_string(),
            tiles: vec![tile(0), tile(1), tile(2), tile(3)],
        }],
        metasprites: vec![
            sprite("player_a", "pal", vec![piece(1, 0), piece(2, 8)]),
            sprite("player_b", "pal", vec![piece(1, 0)]),
            sprite("player_shot", "pal", vec![piece(3, 0)]),
            sprite("slime", "pal", vec![piece(2, 0)]),
            sprite("door", "pal", vec![piece(3, 0)]),
        ],
        animations: vec![AnimationResource {
            id: "player_idle".to_string(),
            frames: vec![
                AnimationFrame { metasprite_id: "player_a".to_string(), duration_frames: 8 },
                AnimationFrame { metasprite_id: "player_b".to_string(), duration_frames: 8 },
            ],
        }],
    }
}

#[test]
fn scenes_compile_to_tiles_then_entities() {
    let compiled = compile_scene(&scene(SceneKind::SideScroller)).expect("compile");
    assert_eq!(compiled.scene_id, "intro");
    assert_eq!(compiled.genre, SceneKind::SideScroller);
    assert_eq!(compiled.data_bytes.len(), 8 * 2 + 2 * 6);
    assert_eq!(&compiled.data_bytes[0..4], &[0, 0, 1, 0]);
    assert_eq!(&compiled.data_bytes[16..22], &[16, 0, 8, 0, 0, 5]);
    assert_eq!(
        compiled.metadata,
        vec![
            ("chunk_height".to_string(), "2".to_string()),
            ("chunk_width".to_string(), "4".to_string()),
            ("entity_count".to_string(), "2".to_string()),
        ]
    );
    let summary = CompiledSceneSummary::of(&compiled);
    assert_eq!(summary.byte_len, 28);
    assert_eq!(summary.metadata, compiled.metadata);
}

#[test]
fn scene_compilation_refuses_other_genres_and_empty_scenes() {
    assert_eq!(compile_scene(&scene(SceneKind::TopDown)).map(|c| c.scene_id), Err(ExportError::NotSideScroller));
    let mut empty = scene(SceneKind::SideScroller);
    empty.layers.clear();
    assert_eq!(
        PlatformerSceneCompiler.compile_scene(&bundle(), &empty).map(|c| c.scene_id),
        Err(ExportError::SceneHasNoLayers { scene_id: "intro".to_string() })
    );
    let module = PlatformerGenreModule::new();
    assert_eq!(module.id(), "side_scroller");
    assert!(module.supports(&scene(SceneKind::SideScroller)));
    assert!(!module.supports(&scene(SceneKind::TopDown)));
    assert_eq!(module.scene_compiler().genre(), SceneKind::SideScroller);
    let mut b = bundle();
    b.scenes.push(scene(SceneKind::TopDown));
    assert_eq!(
        compile_scenes(&b).map(|v| v.len()),
        Err(ExportError::NoGenreModule { scene_id: "intro".to_string() })
    );
    assert_eq!(compile_scenes(&bundle()).map(|v| v.len()), Ok(1));
}

#[test]
fn player_assets_number_visuals_in_order() {
    let b = bundle();
    let assets = build_player_assets(&b).expect("player assets");
    assert_eq!((assets.player_visual, assets.player_alt_visual, assets.bullet_visual), (0, 1, 2));
    assert_eq!(assets.hud_pip_full_visual, 5);
    assert_eq!(assets.hud_cell_empty_visual, 10);
    assert_eq!(assets.visual_header_bytes.len(), 33);
    assert_eq!(&assets.visual_header_bytes[0..3], &[0, 2, 16]);
    assert_eq!(&assets.visual_piece_bytes[0..8], &[1, 0, 0, 0x30, 2, 8, 0, 0x70]);
    assert_eq!(assets.obj_tile_bytes.len(), 13 * 32);
    assert_eq!(assets.entity_count, 2);
    assert_eq!(assets.entity_bytes.len(), 48);
    assert_eq!(&assets.entity_bytes[0..4], &[2, 1, 3, 1]);
    assert_eq!(&assets.entity_bytes[10..13], &[2, 1, 1]);
    assert_eq!(assets.entity_bytes[24 + 2], 4);
    assert_eq!(assets.hud_style, 1);
    assert_eq!(assets.player_starting_health, 6);
    assert_eq!(assets.world_width_pixels, 512);
    assert_eq!(assets.player_max_x, 496);
    assert_eq!(assets.start_x, 8 * 512 / 32);
    assert_eq!(assets.ground_y, 8 * 256 / 16 - 16);
}

#[test]
fn player_assets_report_the_first_missing_piece() {
    let mut b = bundle();
    b.manifest.gameplay.entry_scene = "nowhere".to_string();
    assert_eq!(build_player_assets(&b).err(), Some(ExportError::MissingEntryScene { scene_id: "nowhere".to_string() }));

    let mut b = bundle();
    b.scenes[0].spawns.clear();
    assert_eq!(build_player_assets(&b).err(), Some(ExportError::NoSpawnPoint { scene_id: "intro".to_string() }));

    let mut b = bundle();
    b.animations.clear();
    assert_eq!(
        build_player_assets(&b).err(),
        Some(ExportError::MissingAnimation { animation_id: "player_idle".to_string() })
    );

    let mut b = bundle();
    b.metasprites[2].palette_id = "other".to_string();
    assert_eq!(
        build_player_assets(&b).err(),
        Some(ExportError::PaletteMismatch {
            metasprite_id: "player_shot".to_string(),
            palette_id: "other".to_string(),
            expected_palette_id: "pal".to_string(),
        })
    );

    let mut b = bundle();
    b.scenes[0].entities[0].action =
        EntityAction::SetEntityActive { target_entity_id: "ghost".to_string(), active: false };
    assert_eq!(
        build_player_assets(&b).err(),
        Some(ExportError::UnknownTargetEntity {
            entity_id: "slime_1".to_string(),
            target_entity_id: "ghost".to_string(),
        })
    );

    let mut b = bundle();
    for i in 0..15 {
        b.scenes[0].entities.push(entity(&format!("extra_{}", i), "door", 0, EntityAction::NoAction));
    }
    assert_eq!(
        build_player_assets(&b).err(),
        Some(ExportError::TooManyEntities { scene_id: "intro".to_string(), count: 17 })
    );

    let mut b = bundle();
    b.metasprites[0].pieces.push(piece(9, 0));
    assert_eq!(
        build_player_assets(&b).err(),
        Some(ExportError::NoTilesetForMetasprite {
            metasprite_id: "player_a".to_string(),
            palette_id: "pal".to_string(),
            max_tile_index: 9,
        })
    );
}

#[test]
fn background_assets_sample_the_entry_layer() {
    let bg = build_bg_assets(&bundle()).expect("bg assets");
    assert_eq!(bg.palette_bytes.len(), 32);
    assert_eq!(&bg.palette_bytes[2..4], &[0x1F, 0x00]);
    assert_eq!(bg.tile_bytes.len(), 4 * 32);
    assert_eq!(bg.tilemap_bytes.len(), 4096);
    assert_eq!((bg.map_width_tiles, bg.map_height_tiles, bg.max_scroll_x_pixels), (64, 32, 256));
    assert_eq!(&bg.tilemap_bytes[0..2], &[0, 0]);
    assert_eq!(&bg.tilemap_bytes[32..34], &[1, 0]);

    let mut b = bundle();
    b.tilesets[0].palette_id = "missing".to_string();
    assert_eq!(
        build_bg_assets(&b).err(),
        Some(ExportError::MissingPalette { owner_id: "tiles".to_string(), palette_id: "missing".to_string() })
    );
    let mut b = bundle();
    b.scenes[0].layers[0].tiles[0] = 9;
    assert_eq!(
        build_bg_assets(&b).err(),
        Some(ExportError::TileOutOfRange {
            scene_id: "intro".to_string(),
            tile: 9,
            tileset_id: "tiles".to_string(),
            tile_count: 4,
        })
    );
    let mut b = bundle();
    b.scenes[0].layers[0].tileset_id = "none".to_string();
    assert_eq!(
        build_bg_assets(&b).err(),
        Some(ExportError::MissingTileset { scene_id: "intro".to_string(), tileset_id: "none".to_string() })
    );
}

#[test]
fn project_data_lists_every_table() {
    let b = bundle();
    let compiled = compile_scenes(&b).expect("compile");
    let text = generated_project_data(&b, &compiled).expect("project data");
    assert!(text.starts_with("PROJECT_TITLE_DATA:\n    .byte $44, $65, $6D, $6F\n    .byte $00\n"));
    assert!(text.contains("PROJECT_SCENE_COUNT = 1\n"));
    assert!(text.contains("; entry_scene = intro\n"));
    assert!(text.contains("PROJECT_PLAYER_VISUAL = $00\n"));
    assert!(text.contains("PROJECT_HUD_CELL_EMPTY_VISUAL = $0A\n"));
    assert!(text.contains("PROJECT_HEALTH_HUD_STYLE = 1\n"));
    assert!(text.contains("PROJECT_ENTITY_COUNT = 2\n"));
    assert!(text.ends_with("SCENE_0_BYTE_LEN = 28\n"));
}

#[test]
fn assembler_checks_warn_for_each_missing_tool() {
    let status = AssemblerStatus::from_check("ca65", "ld65", false, true);
    assert_eq!(status.warnings, vec!["assembler 'ca65' was not found on PATH; skipping object build".to_string()]);
    assert!(!status.can_assemble());
    let both = AssemblerStatus::from_check("a", "b", false, false);
    assert_eq!(both.warnings.len(), 2);
    assert_eq!(both.warnings[1], "linker 'b' was not found on PATH; skipping ROM link");
    assert!(AssemblerStatus::from_check("a", "b", true, true).warnings.is_empty());
}

#[test]
fn emulator_choice_prefers_the_request() {
    assert_eq!(choose_emulator(Some("mesen"), &Some("snes9x".to_string())), "mesen");
    assert_eq!(choose_emulator(None, &Some("snes9x".to_string())), "snes9x");
    assert_eq!(choose_emulator(None, &None), "ares");
}

#[test]
fn only_the_metasprites_in_use_must_fit() {
    let mut b = bundle();
    b.metasprites.push(sprite("unused_far_right", "pal", vec![piece(1, i16::MAX)]));
    let assets = build_player_assets(&b).expect("unused sprites do not matter");
    assert_eq!(assets.entity_count, 2);

    let mut b = bundle();
    b.metasprites[2].pieces.push(piece(1, i16::MAX - 4));
    assert_eq!(
        build_player_assets_checked(&b).err(),
        Some(ExportError::PieceOutOfRange { metasprite_id: "player_shot".to_string() })
    );
    assert_eq!(ExportError::PieceOutOfRange { metasprite_id: "x".to_string() }.message(), None);
}
