use snesmaker::collision::{scene_collision_tile, tile_of_px};
use snesmaker::platformer::{
    apply_friction, fixed_point_from_pixels, fixed_point_to_pixels_floor, simulate_trace, InputFrame,
};
use snesmaker::project::{
    default_megaman_like_physics, template_physics_profile, Checkpoint, CollisionLayer, GridSize,
    PhysicsFamily, PointI16, SceneKind, SceneResource, SpawnPoint, TileLayer,
};
use snesmaker::session::{PlaytestError, PlaytestSession};

fn test_scene() -> SceneResource {
    let size_tiles = GridSize { width: 5, height: 5 };
    let tile_count = size_tiles.tile_count();
    let mut solids = vec![false; tile_count];
    let mut ladders = vec![false; tile_count];
    let mut hazards = vec![false; tile_count];

    for x in 0..size_tiles.width as usize {
        solids[(size_tiles.height as usize - 1) * size_tiles.width as usize + x] = true;
    }
    for y in 1..4 {
        ladders[y * size_tiles.width as usize + 1] = true;
    }
    hazards[2 * size_tiles.width as usize + 3] = true;
    for y in 0..size_tiles.height as usize {
        solids[y * size_tiles.width as usize + 2] = true;
    }

    SceneResource {
        id: "test".to_string(),
        kind: SceneKind::SideScroller,
        size_tiles,
        chunk_size_tiles: size_tiles,
        background_color_index: 0,
        layers: vec![TileLayer {
            id: "bg".to_string(),
            tileset_id: "tiles".to_string(),
            visible: true,
            parallax_x: 1,
            parallax_y: 1,
            tiles: vec![0; tile_count],
        }],
        collision: CollisionLayer { solids, ladders, hazards },
        spawns: vec![SpawnPoint { id: "start".to_string(), position: PointI16 { x: 0, y: 8 } }],
        checkpoints: vec![Checkpoint {
            id: "hazard".to_string(),
            position: PointI16 { x: 24, y: 16 },
        }],
        entities: vec![],
        triggers: vec![],
        scripts: vec![],
    }
}

#[test]
fn megaman_like_trace_is_deterministic() {
    let profile = default_megaman_like_physics();
    let inputs = vec![
        InputFrame { right: true, ..InputFrame::default() },
        InputFrame { right: true, jump_pressed: true, jump_held: true, ..InputFrame::default() },
        InputFrame { right: true, jump_held: true, ..InputFrame::default() },
        InputFrame { right: true, ..InputFrame::default() },
        InputFrame { ..InputFrame::default() },
    ];

    let trace = simulate_trace(&profile, &inputs);
    let expected_x: Vec<i32> = trace.iter().map(|frame| frame.x_fp).collect();
    assert_eq!(expected_x, vec![90, 270, 506, 798, 1034]);
    assert!(!trace[1].grounded);
}

#[test]
fn session_resets_from_spawn_and_checkpoint() {
    let scene = test_scene();
    let profile = default_megaman_like_physics();
    let mut session = PlaytestSession::new(scene, profile);

    let state = session.state();
    assert_eq!(state.x_fp, fixed_point_from_pixels(0));
    assert_eq!(state.y_fp, fixed_point_from_pixels(8));
    assert!(state.on_ladder);
    assert!(!state.touching_hazard);

    let state = session.reset_to_checkpoint_id("hazard").expect("checkpoint");
    assert_eq!(state.x_fp, fixed_point_from_pixels(24));
    assert_eq!(state.y_fp, fixed_point_from_pixels(16));
    assert!(state.touching_hazard);
}

#[test]
fn session_steps_against_ladder_and_solid_tiles() {
    let scene = test_scene();
    let profile = default_megaman_like_physics();
    let mut session = PlaytestSession::new(scene, profile);

    let climb = InputFrame { climb_down: true, ..InputFrame::default() };
    assert!(session.can_step(climb));
    let climbed = session.step(climb);
    assert!(climbed.on_ladder);
    assert!(climbed.y_fp > fixed_point_from_pixels(8));

    session.reset_to_position(PointI16 { x: 0, y: 0 });
    let run = InputFrame { right: true, ..InputFrame::default() };
    assert!(session.can_step(run));
    let blocked = session.step(run);
    assert_eq!(blocked.x_fp, 0);
    assert_eq!(blocked.vx_fp, 0);
}

#[test]
fn unknown_spawn_and_checkpoint_ids_are_refused() {
    let mut session = PlaytestSession::new(test_scene(), default_megaman_like_physics());
    assert_eq!(
        session.reset_to_spawn_id("nowhere"),
        Err(PlaytestError::MissingSpawn("nowhere".to_string()))
    );
    assert_eq!(
        session.reset_to_checkpoint_id("nowhere"),
        Err(PlaytestError::MissingCheckpoint("nowhere".to_string()))
    );
    let state = session.reset_to_spawn_id("start").expect("spawn");
    assert_eq!(state.x_fp, 0);
    assert_eq!(state.y_fp, 8 * 256);
    assert_eq!(state.frame, 0);
}

#[test]
fn friction_stops_at_zero() {
    assert_eq!(apply_friction(100, 30), 70);
    assert_eq!(apply_friction(20, 30), 0);
    assert_eq!(apply_friction(-20, 30), 0);
    assert_eq!(apply_friction(-100, 30), -70);
    assert_eq!(apply_friction(0, 30), 0);
}

#[test]
fn fixed_point_round_trips_pixels() {
    assert_eq!(fixed_point_from_pixels(3), 768);
    assert_eq!(fixed_point_to_pixels_floor(768), 3);
    assert_eq!(fixed_point_to_pixels_floor(767), 2);
    assert_eq!(fixed_point_to_pixels_floor(-1), -1);
    assert_eq!(fixed_point_to_pixels_floor(-256), -1);
    assert_eq!(fixed_point_to_pixels_floor(-257), -2);
}

#[test]
fn mario_template_has_its_own_constants() {
    let p = template_physics_profile(PhysicsFamily::MarioLike, "m".to_string());
    assert_eq!(p.gravity_fp, 56);
    assert_eq!(p.max_fall_speed_fp, 1229);
    assert_eq!(p.jump_velocity_fp, -1229);
    assert_eq!(p.coyote_frames, 6);
}

#[test]
fn trace_stays_on_the_floor_without_jumping() {
    let profile = default_megaman_like_physics();
    let inputs = vec![InputFrame::default(); 10];
    let trace = simulate_trace(&profile, &inputs);
    assert_eq!(trace.len(), 10);
    for frame in &trace {
        assert!(frame.grounded);
        assert_eq!(frame.y_fp, 0);
    }
}

#[test]
fn collision_outside_the_scene_is_solid() {
    let scene = test_scene();
    let left = scene_collision_tile(&scene, -1, 0);
    assert!(left.solid);
    let ladder = scene_collision_tile(&scene, 1, 2);
    assert!(ladder.ladder);
    assert!(!ladder.solid);
    assert_eq!(tile_of_px(-1), -1);
    assert_eq!(tile_of_px(15), 1);
}

#[test]
fn sessions_restart_at_a_given_spawn_or_checkpoint() {
    let scene = test_scene();
    let mut session = PlaytestSession::new(scene.clone(), default_megaman_like_physics());
    let at_spawn = session.reset_to_spawn(&scene.spawns[0]);
    assert_eq!((at_spawn.x_fp, at_spawn.y_fp), (0, 8 * 256));
    let at_checkpoint = session.reset_to_checkpoint(&scene.checkpoints[0]);
    assert_eq!((at_checkpoint.x_fp, at_checkpoint.y_fp), (24 * 256, 16 * 256));
    assert_eq!(at_checkpoint.frame, 0);
}

#[test]
fn traces_keep_to_the_run_speed_and_extend_by_prefix() {
    let profile = default_megaman_like_physics();
    let mut inputs = vec![InputFrame { right: true, ..InputFrame::default() }; 40];
    inputs.extend(vec![InputFrame { left: true, jump_pressed: true, ..InputFrame::default() }; 40]);
    let trace = simulate_trace(&profile, &inputs);
    for (i, frame) in trace.iter().enumerate() {
        assert!(frame.vx_fp.abs() <= profile.max_run_speed_fp);
        let before = if i == 0 { 0 } else { trace[i - 1].x_fp };
        assert_eq!(frame.x_fp, before + frame.vx_fp);
    }
    let short = simulate_trace(&profile, &inputs[..25]);
    assert_eq!(short, trace[..25].to_vec());
}

#[test]
fn missing_restart_points_are_reported_by_name() {
    let mut session = PlaytestSession::new(test_scene(), default_megaman_like_physics());
    let before = session.state();
    let e = session.reset_to_checkpoint_id("nope").unwrap_err();
    assert_eq!(e.message(), "checkpoint 'nope' is missing");
    assert_eq!(session.state(), before);
}
