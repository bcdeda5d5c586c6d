use snesmaker::bundle::{
    AssemblerSettings, BuildSettings, EditorSettings, GameplaySettings, HealthHudStyle, PlayerSettings,
    ProjectBundle, ProjectManifest, ProjectMeta,
};
use snesmaker::canvas::{
    apply_canvas_edit, canvas_edit, canvas_step, commit_selection, locked_status, CanvasEdit, CanvasOutcome,
    CanvasState, CanvasStep, EditorSelection,
};
use snesmaker::editor::{EditorTool, TileSelectionRect};
use snesmaker::events::TriggerKind;
use snesmaker::preview::PreviewFocus;
use snesmaker::project::{
    Checkpoint, CollisionLayer, GridSize, PointI16, RectI16, SceneKind, SceneResource, SpawnPoint, Tile8,
    TileLayer, TilesetResource, TriggerVolume,
};

fn scene() -> SceneResource {
    SceneResource {
        id: "yard".to_string(),
        kind: SceneKind::SideScroller,
        size_tiles: GridSize { width: 2, height: 2 },
        chunk_size_tiles: GridSize { width: 2, height: 2 },
        background_color_index: 0,
        layers: vec![TileLayer {
            id: "ground".to_string(),
            tileset_id: "dirt".to_string(),
            visible: true,
            parallax_x: 1,
            parallax_y: 1,
            tiles: vec![1, 2, 3, 4],
        }],
        collision: CollisionLayer { solids: vec![false; 4], ladders: vec![false; 4], hazards: vec![false; 4] },
        spawns: vec![SpawnPoint { id: "start".to_string(), position: PointI16 { x: 0, y: 0 } }],
        checkpoints: vec![Checkpoint { id: "mid".to_string(), position: PointI16 { x: 8, y: 0 } }],
        entities: vec![],
        triggers: vec![TriggerVolume {
            id: "door".to_string(),
            kind: TriggerKind::Interact,
            rect: RectI16 { x: 0, y: 0, width: 8, height: 8 },
            script_id: "open".to_string(),
        }],
        scripts: vec![],
    }
}

fn bundle() -> ProjectBundle {
    ProjectBundle {
        manifest: ProjectManifest {
            meta: ProjectMeta { name: "Yard".to_string(), slug: "yard".to_string() },
            build: BuildSettings {
                output_dir: "build".to_string(),
                rom_bank_count: 4,
                assembler: AssemblerSettings { ca65_path: "ca65".to_string(), ld65_path: "ld65".to_string() },
            },
            gameplay: GameplaySettings {
                entry_scene: "yard".to_string(),
                player: PlayerSettings { max_health: 4, starting_health: 4, health_hud: HealthHudStyle::MegaPipsTopLeft },
            },
            editor: EditorSettings { preferred_emulator: None },
        },
        scenes: vec![scene()],
        dialogues: vec![],
        palettes: vec![],
        tilesets: vec![TilesetResource {
            id: "dirt".to_string(),
            palette_id: "earth".to_string(),
            name: "Dirt".to_string(),
            tiles: vec![Tile8 { pixels: vec![0; 64] }; 3],
        }],
        metasprites: vec![],
        animations: vec![],
    }
}

#[test]
fn selections_are_kept_within_the_project() {
    let mut sel = EditorSelection {
        scene: 5,
        layer: 3,
        tile: 9,
        animation: 2,
        spawn: Some(7),
        checkpoint: None,
        entity: Some(0),
        trigger: Some(4),
        preview_focus: PreviewFocus::Entity,
    };
    sel.sync(Some(&bundle()));
    assert_eq!(
        sel,
        EditorSelection {
            scene: 0,
            layer: 0,
            tile: 2,
            animation: 0,
            spawn: Some(0),
            checkpoint: Some(0),
            entity: None,
            trigger: Some(0),
            preview_focus: PreviewFocus::Nothing,
        }
    );
    sel.preview_focus = PreviewFocus::Animation;
    let again = sel;
    sel.sync(Some(&bundle()));
    assert_eq!(sel, EditorSelection { preview_focus: PreviewFocus::Nothing, ..again });
    sel.sync(None);
    assert_eq!(sel, EditorSelection { preview_focus: PreviewFocus::Nothing, ..EditorSelection::default() });
}

#[test]
fn canvas_frames_sample_select_or_edit() {
    let mut state = CanvasState::default();
    let sample = CanvasOutcome { sampled_cell: Some(3), hovered_tile: Some((1, 1)), ..CanvasOutcome::default() };
    assert_eq!(canvas_step(&mut state, EditorTool::Paint, &sample), CanvasStep::Sample(3));
    assert_eq!(state.last_canvas_tile, Some((1, 1)));

    let start = CanvasOutcome { selection_started: Some((1, 0)), ..CanvasOutcome::default() };
    assert_eq!(canvas_step(&mut state, EditorTool::Select, &start), CanvasStep::Idle);
    let finish = CanvasOutcome { selection_finished: Some((0, 1)), ..CanvasOutcome::default() };
    assert_eq!(
        canvas_step(&mut state, EditorTool::Select, &finish),
        CanvasStep::Select(TileSelectionRect { min_x: 0, min_y: 0, max_x: 1, max_y: 1 })
    );

    let stroke = CanvasOutcome { primary_cell: Some(2), ..CanvasOutcome::default() };
    assert_eq!(canvas_step(&mut state, EditorTool::Paint, &stroke), CanvasStep::Edit { cell: 2, primary: true });
    state.active_canvas_cell = Some(2);
    assert_eq!(canvas_step(&mut state, EditorTool::Paint, &stroke), CanvasStep::Idle);
    let secondary = CanvasOutcome { secondary_cell: Some(1), ..CanvasOutcome::default() };
    assert_eq!(canvas_step(&mut state, EditorTool::Solid, &secondary), CanvasStep::Edit { cell: 1, primary: false });
    assert_eq!(canvas_step(&mut state, EditorTool::Solid, &CanvasOutcome::default()), CanvasStep::Idle);
    assert_eq!(state.active_canvas_cell, None);
}

#[test]
fn tools_choose_their_edit() {
    let sel = EditorSelection { spawn: Some(0), ..EditorSelection::default() };
    let pos = PointI16 { x: 8, y: 8 };
    assert_eq!(canvas_edit(EditorTool::Paint, 5, true, &sel, pos), Some(CanvasEdit::PaintTile(5)));
    assert_eq!(canvas_edit(EditorTool::Erase, 5, true, &sel, pos), Some(CanvasEdit::PaintTile(0)));
    assert_eq!(canvas_edit(EditorTool::Ladder, 5, false, &sel, pos), Some(CanvasEdit::SetLadder(false)));
    assert_eq!(canvas_edit(EditorTool::Spawn, 5, true, &sel, pos), Some(CanvasEdit::MoveSpawn(0, pos)));
    assert_eq!(canvas_edit(EditorTool::Entity, 5, true, &sel, pos), None);
    assert_eq!(canvas_edit(EditorTool::Select, 5, true, &sel, pos), None);
}

#[test]
fn canvas_edits_change_one_thing() {
    let mut s = scene();
    assert_eq!(apply_canvas_edit(&mut s, 3, 1, CanvasEdit::PaintTile(9)).as_deref(), Some("Painted tile 9 into 'ground'"));
    assert_eq!(s.layers[0].tiles, vec![1, 9, 3, 4]);
    assert_eq!(apply_canvas_edit(&mut s, 0, 0, CanvasEdit::PaintTile(0)).as_deref(), Some("Erased tile from 'ground'"));
    assert_eq!(apply_canvas_edit(&mut s, 0, 4, CanvasEdit::PaintTile(7)), None);
    assert_eq!(apply_canvas_edit(&mut s, 0, 3, CanvasEdit::SetHazard(true)).as_deref(), Some("Updated hazard collision"));
    assert_eq!(s.collision.hazards, vec![false, false, false, true]);
    let pos = PointI16 { x: 16, y: 8 };
    assert_eq!(apply_canvas_edit(&mut s, 0, 0, CanvasEdit::MoveSpawn(0, pos)).as_deref(), Some("Moved spawn 'start'"));
    assert_eq!(s.spawns[0].position, pos);
    assert_eq!(apply_canvas_edit(&mut s, 0, 0, CanvasEdit::MoveTrigger(0, pos)).as_deref(), Some("Moved trigger 'door'"));
    assert_eq!(s.triggers[0].rect, RectI16 { x: 16, y: 8, width: 8, height: 8 });
    assert_eq!(apply_canvas_edit(&mut s, 0, 0, CanvasEdit::MoveEntity(0, pos)), None);
    assert_eq!(locked_status(&s, 2), "Layer 'ground' is locked.");
    s.layers.clear();
    assert_eq!(locked_status(&s, 0), "Active layer is locked.");
}

#[test]
fn committed_selections_report_their_size() {
    let (sel, status) = commit_selection(&scene(), TileSelectionRect { min_x: 0, min_y: 0, max_x: 1, max_y: 0 });
    assert_eq!(status, "Selected 2x1 tiles");
    assert_eq!(sel.spawns, vec![0]);
    assert_eq!(sel.checkpoints, vec![0]);
    assert_eq!(sel.triggers, vec![0]);
}
