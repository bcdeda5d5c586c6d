use snesmaker::bundle::{
    AssemblerSettings, BuildSettings, EditorSettings, GameplaySettings, HealthHudStyle, PlayerSettings,
    ProjectBundle, ProjectManifest, ProjectMeta,
};
use snesmaker::editor::{
    bresenham_line, color_distance_squared, detect_workspace_preset, filter_matches,
    palette_index_for_rgba, rects_overlap_pixels, sample_platformer_trace_input,
    sanitize_optional_index, DiagnosticGrouping, DiagnosticsViewState, EditorTool,
    PlaytestStartMode, SceneObjectGroup, TileSelectionRect, UndoHistory, WorkspacePreset,
    HISTORY_LIMIT,
};
use snesmaker::project::{PaletteResource, PointI16, RectI16, RgbaColor};

fn demo_bundle() -> ProjectBundle {
    ProjectBundle {
        manifest: ProjectManifest {
            meta: ProjectMeta { name: "Demo Quest".to_string(), slug: "demo".to_string() },
            build: BuildSettings {
                output_dir: "build".to_string(),
                rom_bank_count: 4,
                assembler: AssemblerSettings {
                    ca65_path: "ca65".to_string(),
                    ld65_path: "ld65".to_string(),
                },
            },
            gameplay: GameplaySettings {
                entry_scene: "intro".to_string(),
                player: PlayerSettings {
                    max_health: 8,
                    starting_health: 8,
                    health_hud: HealthHudStyle::MegaPipsTopLeft,
                },
            },
            editor: EditorSettings { preferred_emulator: None },
        },
        scenes: vec![],
        dialogues: vec![],
        palettes: vec![],
        tilesets: vec![],
        metasprites: vec![],
        animations: vec![],
    }
}

#[test]
fn undo_history_round_trips_project_state() {
    let original = demo_bundle();
    let mut current = original.clone();
    let mut history = UndoHistory::default();

    history.capture(current.clone());
    current.manifest.meta.name = "Changed Name".to_string();

    assert!(history.undo(&mut current));
    assert_eq!(current.manifest.meta.name, original.manifest.meta.name);

    assert!(history.redo(&mut current));
    assert_eq!(current.manifest.meta.name, "Changed Name");
}

#[test]
fn undo_and_redo_do_nothing_on_an_empty_history() {
    let mut history: UndoHistory<u32> = UndoHistory::new();
    let mut current = 7;
    assert!(!history.undo(&mut current));
    assert!(!history.redo(&mut current));
    assert_eq!(current, 7);
}

#[test]
fn history_keeps_the_latest_snapshots_only() {
    let mut history: UndoHistory<usize> = UndoHistory::new();
    for i in 0..(HISTORY_LIMIT + 10) {
        history.capture(i);
    }
    let mut current = 1000;
    let mut undone = 0;
    while history.undo(&mut current) {
        undone += 1;
    }
    assert_eq!(undone, HISTORY_LIMIT);
    assert_eq!(current, 10);
    history.clear();
    assert!(!history.can_redo());
}

#[test]
fn a_new_capture_forgets_redo() {
    let mut history = UndoHistory::new();
    let mut current = 2;
    history.capture(1);
    assert!(history.undo(&mut current));
    assert!(history.can_redo());
    history.capture(5);
    assert!(!history.can_redo());
    assert!(!history.redo(&mut current));
}

#[test]
fn labels_name_each_choice() {
    assert_eq!(EditorTool::Checkpoint.label(), "Checkpoint");
    assert_eq!(SceneObjectGroup::Scripts.label(), "Scripts");
    assert_eq!(DiagnosticGrouping::Path.label(), "Path");
    assert_eq!(PlaytestStartMode::SelectedSpawn.label(), "Selected Spawn");
    assert_eq!(WorkspacePreset::LevelDesign.label(), "Level Design");
    let view = DiagnosticsViewState::new();
    assert!(view.search.is_empty() && view.show_errors && view.show_warnings);
    assert_eq!(view.grouping, DiagnosticGrouping::Severity);
}

#[test]
fn selections_span_both_corners() {
    let rect = TileSelectionRect::from_points((5, 1), (2, 4));
    assert_eq!((rect.min_x, rect.min_y, rect.max_x, rect.max_y), (2, 1, 5, 4));
    assert_eq!(rect.width_tiles(), 4);
    assert_eq!(rect.height_tiles(), 4);
    assert_eq!(rect.origin_pixels(), PointI16 { x: 16, y: 8 });
    assert!(rect.contains_point_pixels(PointI16 { x: 16, y: 8 }));
    assert!(!rect.contains_point_pixels(PointI16 { x: 48, y: 8 }));
    assert!(rect.intersects_rect_pixels(RectI16 { x: 0, y: 0, width: 17, height: 9 }));
    assert!(!rect.intersects_rect_pixels(RectI16 { x: 0, y: 0, width: 16, height: 9 }));
}

#[test]
fn rectangles_overlap_only_when_they_share_pixels() {
    let a = RectI16 { x: 0, y: 0, width: 8, height: 8 };
    let b = RectI16 { x: 7, y: 7, width: 8, height: 8 };
    let c = RectI16 { x: 8, y: 0, width: 8, height: 8 };
    assert!(rects_overlap_pixels(a, b));
    assert!(!rects_overlap_pixels(a, c));
}

#[test]
fn indices_are_kept_within_the_list() {
    assert_eq!(sanitize_optional_index(Some(9), 3), Some(2));
    assert_eq!(sanitize_optional_index(None, 3), Some(0));
    assert_eq!(sanitize_optional_index(Some(1), 0), None);
    assert_eq!(sanitize_optional_index(Some(1), 3), Some(1));
}

#[test]
fn filters_match_lowercased_candidates() {
    assert!(filter_matches("", "Anything"));
    assert!(filter_matches("hero", "Big HERO Sprite"));
    assert!(!filter_matches("Hero", "Big HERO Sprite"));
    assert!(!filter_matches("villain", "hero"));
}

#[test]
fn palette_indices_reuse_add_or_approximate() {
    let mut palette = PaletteResource { id: "p".to_string(), colors: vec![] };
    assert_eq!(palette_index_for_rgba(&mut palette, [1, 2, 3, 0]), 0);
    assert!(palette.colors.is_empty());
    assert_eq!(palette_index_for_rgba(&mut palette, [10, 20, 30, 255]), 0);
    assert_eq!(palette_index_for_rgba(&mut palette, [40, 50, 60, 255]), 1);
    assert_eq!(palette_index_for_rgba(&mut palette, [10, 20, 30, 255]), 0);
    for i in 0..14u8 {
        palette_index_for_rgba(&mut palette, [100 + i * 10, 0, 0, 255]);
    }
    assert_eq!(palette.colors.len(), 16);
    assert_eq!(palette_index_for_rgba(&mut palette, [41, 50, 60, 255]), 1);
    assert_eq!(palette.colors.len(), 16);
    let a = RgbaColor { r: 0, g: 0, b: 0, a: 255 };
    let b = RgbaColor { r: 3, g: 4, b: 0, a: 0 };
    assert_eq!(color_distance_squared(&a, &b), 25);
}

#[test]
fn indices_of_very_long_palettes_wrap_to_a_byte() {
    let colors: Vec<RgbaColor> =
        (0..300u32).map(|i| RgbaColor { r: (i % 256) as u8, g: (i / 256) as u8, b: 0, a: 255 }).collect();
    let mut palette = PaletteResource { id: "big".to_string(), colors };
    assert_eq!(palette_index_for_rgba(&mut palette, [4, 1, 0, 255]), 4);
    assert_eq!(palette.colors.len(), 300);
}

#[test]
fn lines_walk_cell_by_cell() {
    assert_eq!(bresenham_line((0, 0), (3, 1)), vec![(0, 0), (1, 0), (2, 1), (3, 1)]);
    assert_eq!(bresenham_line((2, 2), (2, 2)), vec![(2, 2)]);
    assert_eq!(bresenham_line((0, 0), (-2, -2)), vec![(0, 0), (-1, -1), (-2, -2)]);
    let line = bresenham_line((1, 5), (4, -3));
    assert_eq!(line.first(), Some(&(1, 5)));
    assert_eq!(line.last(), Some(&(4, -3)));
    assert_eq!(line.len(), 9);
}

#[test]
fn presets_are_recognised_from_their_layouts() {
    for preset in [
        WorkspacePreset::LevelDesign,
        WorkspacePreset::Animation,
        WorkspacePreset::Eventing,
        WorkspacePreset::Debug,
    ] {
        assert_eq!(detect_workspace_preset(&preset.layout()), preset);
    }
    assert_eq!(detect_workspace_preset(&WorkspacePreset::Custom.layout()), WorkspacePreset::LevelDesign);
    let mut layout = WorkspacePreset::Debug.layout();
    layout.show_status_bar = false;
    assert_eq!(detect_workspace_preset(&layout), WorkspacePreset::Custom);
    assert_eq!(WorkspacePreset::Debug.layout().left.active, 1);
}

#[test]
fn sample_trace_runs_right_and_jumps_once() {
    let frames = sample_platformer_trace_input();
    assert_eq!(frames.len(), 48);
    assert!(frames[0].right && !frames[0].jump_pressed);
    assert!(frames[8].jump_pressed && frames[8].jump_held);
    assert!(frames[17].jump_held && !frames[18].jump_held);
    assert!(frames[35].right && !frames[36].right);
    assert_eq!(frames.iter().filter(|f| f.jump_pressed).count(), 1);
}

#[test]
fn undo_is_offered_once_something_was_captured() {
    let mut history: UndoHistory<u8> = UndoHistory::new();
    assert!(!history.can_undo());
    history.capture(1);
    assert!(history.can_undo());
    let mut current = 2;
    assert!(history.undo(&mut current));
    assert_eq!(current, 1);
    assert!(!history.can_undo());
}

#[test]
fn preset_workspaces_start_unsaved() {
    let state = snesmaker::editor::WorkspaceState::for_preset(WorkspacePreset::Animation);
    assert_eq!(state.layout, WorkspacePreset::Animation.layout());
    assert!(state.saved_layouts.is_empty());
    assert_eq!(state.active_saved_layout, None);
}
