use snesmaker::collision::{resolve_horizontal_collision, resolve_vertical_collision};
use snesmaker::editor::{playtest_status_line, start_playtest, PlaytestStartMode, TileSelectionRect};
use snesmaker::flood::{flood_fill, FloodOutcome};
use snesmaker::project::{
    default_megaman_like_physics, Checkpoint, CollisionLayer, GridSize, PointI16, SceneKind,
    SceneResource, SpawnPoint, TileLayer,
};
use snesmaker::scene_edit::{
    apply_selection_action, draw_line_in_selection, mirror_cells, mirror_selection, paint_cells,
    selection_action_status, SelectionAction,
};
use snesmaker::session::PlaytestState;

fn grid_scene(width: u16, height: u16) -> SceneResource {
    let size_tiles = GridSize { width, height };
    let count = size_tiles.tile_count();
    SceneResource {
        id: "grid".to_string(),
        kind: SceneKind::SideScroller,
        size_tiles,
        chunk_size_tiles: size_tiles,
        background_color_index: 0,
        layers: vec![
            TileLayer {
                id: "back".to_string(),
                tileset_id: "tiles".to_string(),
                visible: true,
                parallax_x: 1,
                parallax_y: 1,
                tiles: (0..count as u16).collect(),
            },
            TileLayer {
                id: "front".to_string(),
                tileset_id: "tiles".to_string(),
                visible: true,
                parallax_x: 1,
                parallax_y: 1,
                tiles: vec![0; count],
            },
        ],
        collision: CollisionLayer {
            solids: vec![false; count],
            ladders: vec![false; count],
            hazards: vec![false; count],
        },
        spawns: vec![SpawnPoint { id: "start".to_string(), position: PointI16 { x: 8, y: 16 } }],
        checkpoints: vec![Checkpoint { id: "mid".to_string(), position: PointI16 { x: 24, y: 0 } }],
        entities: vec![],
        triggers: vec![],
        scripts: vec![],
    }
}

fn rect(min_x: usize, min_y: usize, max_x: usize, max_y: usize) -> TileSelectionRect {
    TileSelectionRect { min_x, min_y, max_x, max_y }
}

#[test]
fn painting_sets_only_the_selected_cells() {
    let mut cells = vec![0u8; 12];
    assert!(paint_cells(&mut cells, rect(1, 1, 2, 2), 4, 7));
    assert_eq!(cells, vec![0, 0, 0, 0, 0, 7, 7, 0, 0, 7, 7, 0]);
}

#[test]
fn painting_outside_the_cells_edits_nothing() {
    let mut cells = vec![1u8; 4];
    assert!(!paint_cells(&mut cells, rect(0, 5, 1, 6), 2, 9));
    assert_eq!(cells, vec![1; 4]);
}

#[test]
fn selection_actions_write_tiles_or_flags() {
    let mut scene = grid_scene(3, 2);
    assert!(apply_selection_action(&mut scene, 9, rect(0, 0, 1, 0), SelectionAction::PaintTile(5)));
    assert_eq!(scene.layers[1].tiles, vec![5, 5, 0, 0, 0, 0]);
    assert_eq!(scene.layers[0].tiles, vec![0, 1, 2, 3, 4, 5]);

    assert!(apply_selection_action(&mut scene, 0, rect(2, 0, 2, 1), SelectionAction::SetSolid(true)));
    assert_eq!(scene.collision.solids, vec![false, false, true, false, false, true]);
    assert!(apply_selection_action(&mut scene, 0, rect(0, 1, 0, 1), SelectionAction::SetLadder(true)));
    assert_eq!(scene.collision.ladders, vec![false, false, false, true, false, false]);
    assert!(apply_selection_action(&mut scene, 0, rect(1, 1, 1, 1), SelectionAction::SetHazard(true)));
    assert_eq!(scene.collision.hazards, vec![false, false, false, false, true, false]);
    assert!(apply_selection_action(&mut scene, 0, rect(0, 0, 2, 1), SelectionAction::SetSolid(false)));
    assert_eq!(scene.collision.solids, vec![false; 6]);
}

#[test]
fn a_scene_without_layers_takes_no_tiles() {
    let mut scene = grid_scene(2, 2);
    scene.layers.clear();
    assert!(!apply_selection_action(&mut scene, 0, rect(0, 0, 1, 1), SelectionAction::PaintTile(3)));
    assert!(scene.layers.is_empty());
}

#[test]
fn selection_statuses_name_the_action_and_size() {
    assert_eq!(selection_action_status(SelectionAction::PaintTile(0), 2, 3), "Cleared tiles in 2x3 selection");
    assert_eq!(
        selection_action_status(SelectionAction::PaintTile(12), 4, 1),
        "Filled 4x1 selection with tile 12"
    );
    assert_eq!(selection_action_status(SelectionAction::SetSolid(true), 1, 1), "Marked 1x1 selection as solid");
    assert_eq!(
        selection_action_status(SelectionAction::SetLadder(false), 5, 6),
        "Cleared ladder collision in 5x6 selection"
    );
    assert_eq!(selection_action_status(SelectionAction::SetHazard(true), 2, 2), "Marked 2x2 selection as hazard");
}

#[test]
fn mirroring_reverses_columns_or_rows() {
    let mut cells: Vec<u8> = (0..9).collect();
    mirror_cells(&mut cells, rect(0, 0, 2, 1), 3, true);
    assert_eq!(cells, vec![2, 1, 0, 5, 4, 3, 6, 7, 8]);

    let mut cells: Vec<u8> = (0..9).collect();
    mirror_cells(&mut cells, rect(1, 0, 1, 2), 3, false);
    assert_eq!(cells, vec![0, 7, 2, 3, 4, 5, 6, 1, 8]);
}

#[test]
fn mirroring_a_scene_moves_tiles_and_flags_together() {
    let mut scene = grid_scene(3, 2);
    scene.collision.solids[0] = true;
    mirror_selection(&mut scene, 0, rect(0, 0, 2, 0), true);
    assert_eq!(scene.layers[0].tiles, vec![2, 1, 0, 3, 4, 5]);
    assert_eq!(scene.collision.solids, vec![false, false, true, false, false, false]);
    assert_eq!(scene.layers[1].tiles, vec![0; 6]);
}

#[test]
fn lines_are_drawn_between_the_selection_corners() {
    let mut scene = grid_scene(4, 4);
    draw_line_in_selection(&mut scene, 1, rect(0, 0, 3, 3), 9);
    assert_eq!(scene.layers[1].tiles, vec![9, 0, 0, 0, 0, 9, 0, 0, 0, 0, 9, 0, 0, 0, 0, 9]);

    let before = scene.clone();
    draw_line_in_selection(&mut scene, 5, rect(0, 0, 3, 3), 4);
    assert_eq!(scene.layers[1].tiles, before.layers[1].tiles);
}

#[test]
fn flood_fill_replaces_the_connected_region() {
    let mut tiles = vec![
        1, 1, 2, 1, //
        1, 2, 2, 1, //
        1, 1, 2, 1,
    ];
    assert_eq!(flood_fill(&mut tiles, 4, 3, 0, 0, 7), FloodOutcome::Filled);
    assert_eq!(tiles, vec![7, 7, 2, 1, 7, 2, 2, 1, 7, 7, 2, 1]);
}

#[test]
fn flood_fill_stops_early_when_nothing_is_to_do() {
    let mut tiles = vec![3u16; 4];
    assert_eq!(flood_fill(&mut tiles, 2, 2, 1, 1, 3), FloodOutcome::AlreadyMatches);
    assert_eq!(flood_fill(&mut tiles, 2, 2, 0, 2, 5), FloodOutcome::OutOfRange);
    assert_eq!(flood_fill(&mut tiles, 2, 2, 3, 0, 5), FloodOutcome::Filled);
    assert_eq!(tiles, vec![3; 4]);
}

#[test]
fn playtests_start_where_the_mode_says() {
    let scene = grid_scene(4, 4);
    let profile = default_megaman_like_physics();
    let (session, status) =
        start_playtest(scene.clone(), profile.clone(), PlaytestStartMode::SelectedSpawn, Some(0), None);
    assert_eq!(status, "Started 'grid' from spawn 'start'");
    assert_eq!(session.state().x_fp, 8 * 256);
    assert_eq!(session.state().y_fp, 16 * 256);

    let (session, status) = start_playtest(
        scene.clone(),
        profile.clone(),
        PlaytestStartMode::SelectedCheckpoint,
        None,
        Some(0),
    );
    assert_eq!(status, "Started 'grid' from checkpoint 'mid'");
    assert_eq!(session.state().x_fp, 24 * 256);

    let (session, status) = start_playtest(scene, profile, PlaytestStartMode::SelectedSpawn, Some(4), None);
    assert_eq!(status, "Started 'grid' from its default start");
    assert_eq!(session.state().x_fp, 8 * 256);
}

#[test]
fn status_lines_show_whole_pixels() {
    let state = PlaytestState {
        frame: 12,
        x_fp: 3 * 256 + 17,
        y_fp: -2 * 256,
        vx_fp: 0,
        vy_fp: 0,
        grounded: true,
        on_ladder: false,
        touching_hazard: false,
    };
    assert_eq!(
        playtest_status_line(&state),
        "Frame 12  x=3 y=-2  grounded=true ladder=false hazard=false"
    );
}

#[test]
fn flood_fill_on_a_short_layer_keeps_to_its_tiles() {
    let mut tiles = vec![5, 5, 1];
    assert_eq!(flood_fill(&mut tiles, 2, 2, 0, 0, 9), FloodOutcome::Filled);
    assert_eq!(tiles, vec![9, 9, 1]);
}

#[test]
fn large_boxes_are_pushed_back_inside_the_scene() {
    let scene = grid_scene(4, 3);
    assert_eq!(resolve_horizontal_collision(&scene, 0, 0, 300, 20, 1), ((32 - 300) * 256, true));
    assert_eq!(resolve_vertical_collision(&scene, 0, 0, 20, 300, 1), ((24 - 300) * 256, true, true));
    assert_eq!(resolve_horizontal_collision(&scene, -256, 0, 300, 20, -1), (0, true));
}
