use snesmaker::bundle::{
    AssemblerSettings, BuildSettings, EditorSettings, GameplaySettings, HealthHudStyle, PlayerSettings,
    ProjectBundle, ProjectManifest, ProjectMeta,
};
use snesmaker::preview::{
    animation_ticks_fit, available_visual_ids, entity_animation_fits, entity_has_animation, frame_for_tick, has_context_preview,
    metasprite_for_animation_tick, metasprite_for_entity_tick, needs_animation_repaint, PreviewFocus,
};
use snesmaker::project::{CollisionLayer, GridSize, SceneKind, SceneResource};
use snesmaker::project::{
    AnimationFrame, AnimationResource, CombatStats, EntityAction, EntityKind, EntityPlacement, Facing,
    MetaspriteResource, MovementPattern, PointI16, RectI16,
};

fn frame(metasprite_id: &str, duration_frames: u16) -> AnimationFrame {
    AnimationFrame { metasprite_id: metasprite_id.to_string(), duration_frames }
}

fn metasprite(id: &str) -> MetaspriteResource {
    MetaspriteResource { id: id.to_string(), palette_id: "pal".to_string(), pieces: vec![] }
}

fn bundle() -> ProjectBundle {
    ProjectBundle {
        manifest: ProjectManifest {
            meta: ProjectMeta { name: "Preview".to_string(), slug: "preview".to_string() },
            build: BuildSettings {
                output_dir: "build".to_string(),
                rom_bank_count: 4,
                assembler: AssemblerSettings {
                    ca65_path: "ca65".to_string(),
                    ld65_path: "ld65".to_string(),
                },
            },
            gameplay: GameplaySettings {
                entry_scene: "intro".to_string(),
                player: PlayerSettings {
                    max_health: 8,
                    starting_health: 8,
                    health_hud: HealthHudStyle::MegaPipsTopLeft,
                },
            },
            editor: EditorSettings { preferred_emulator: None },
        },
        scenes: vec![],
        dialogues: vec![],
        palettes: vec![],
        tilesets: vec![],
        metasprites: vec![metasprite("walk_a"), metasprite("walk_b"), metasprite("crate")],
        animations: vec![
            AnimationResource {
                id: "walker".to_string(),
                frames: vec![frame("walk_a", 2), frame("walk_b", 0), frame("missing", 3)],
            },
            AnimationResource { id: "bat_idle".to_string(), frames: vec![frame("walk_b", 4)] },
            AnimationResource { id: "ghost".to_string(), frames: vec![] },
        ],
    }
}

fn entity(archetype: &str) -> EntityPlacement {
    EntityPlacement {
        id: "e".to_string(),
        archetype: archetype.to_string(),
        kind: EntityKind::Enemy,
        position: PointI16 { x: 0, y: 0 },
        facing: Facing::Right,
        hitbox: RectI16 { x: 0, y: 0, width: 8, height: 8 },
        combat: CombatStats { contact_damage: 1, max_health: 1 },
        action: EntityAction::NoAction,
        movement: MovementPattern::Stationary,
        active: true,
        one_shot: false,
    }
}

#[test]
fn frames_last_their_duration_and_loop() {
    let walker = &bundle().animations[0];
    let shown: Vec<Option<usize>> = (0..9).map(|tick| frame_for_tick(walker, tick)).collect();
    assert_eq!(
        shown,
        vec![Some(0), Some(0), Some(1), Some(2), Some(2), Some(2), Some(0), Some(0), Some(1)]
    );
    assert_eq!(frame_for_tick(&bundle().animations[2], 5), None);
}

#[test]
fn animation_ticks_pick_metasprites_by_id() {
    let bundle = bundle();
    let walker = &bundle.animations[0];
    assert_eq!(metasprite_for_animation_tick(&bundle, walker, 0).map(|m| m.id.as_str()), Some("walk_a"));
    assert_eq!(metasprite_for_animation_tick(&bundle, walker, 2).map(|m| m.id.as_str()), Some("walk_b"));
    assert!(metasprite_for_animation_tick(&bundle, walker, 4).is_none());
}

#[test]
fn entities_use_their_animation_metasprite_or_idle_animation() {
    let bundle = bundle();
    assert!(animation_ticks_fit(&bundle));
    assert!(entity_has_animation(&bundle, &entity("walker")));
    assert!(entity_has_animation(&bundle, &entity("bat")));
    assert!(!entity_has_animation(&bundle, &entity("crate")));

    assert_eq!(metasprite_for_entity_tick(&bundle, &entity("walker"), 7).map(|m| m.id.as_str()), Some("walk_a"));
    assert_eq!(metasprite_for_entity_tick(&bundle, &entity("crate"), 7).map(|m| m.id.as_str()), Some("crate"));
    assert_eq!(metasprite_for_entity_tick(&bundle, &entity("bat"), 3).map(|m| m.id.as_str()), Some("walk_b"));
    assert!(metasprite_for_entity_tick(&bundle, &entity("ghost"), 0).is_none());
    assert!(metasprite_for_entity_tick(&bundle, &entity("nobody"), 0).is_none());
}

#[test]
fn overlong_animations_do_not_fit_the_clock() {
    let mut bundle = bundle();
    bundle.animations[0].frames = vec![frame("walk_a", u16::MAX); 70_000];
    assert!(!animation_ticks_fit(&bundle));
    assert!(!entity_animation_fits(&bundle, &entity("walker")));
    assert!(entity_animation_fits(&bundle, &entity("crate")));
    assert_eq!(metasprite_for_entity_tick(&bundle, &entity("crate"), 7).map(|m| m.id.as_str()), Some("crate"));
}

#[test]
fn visual_ids_are_sorted_and_distinct() {
    let mut b = bundle();
    b.metasprites.push(metasprite("walker"));
    assert_eq!(
        available_visual_ids(&b),
        vec!["bat_idle", "crate", "ghost", "walk_a", "walk_b", "walker"]
    );
}

fn scene_with(entities: Vec<EntityPlacement>) -> SceneResource {
    SceneResource {
        id: "s".to_string(),
        kind: SceneKind::SideScroller,
        size_tiles: GridSize { width: 1, height: 1 },
        chunk_size_tiles: GridSize { width: 1, height: 1 },
        background_color_index: 0,
        layers: vec![],
        collision: CollisionLayer { solids: vec![false], ladders: vec![false], hazards: vec![false] },
        spawns: vec![],
        checkpoints: vec![],
        entities,
        triggers: vec![],
        scripts: vec![],
    }
}

#[test]
fn previews_follow_the_focus() {
    let mut b = bundle();
    b.scenes = vec![scene_with(vec![entity("crate"), entity("bat")])];
    assert!(has_context_preview(&b, PreviewFocus::Animation, 2, 0, None));
    assert!(!has_context_preview(&b, PreviewFocus::Animation, 3, 0, None));
    assert!(!has_context_preview(&b, PreviewFocus::Entity, 0, 0, Some(0)));
    assert!(has_context_preview(&b, PreviewFocus::Entity, 0, 0, Some(1)));
    assert!(!has_context_preview(&b, PreviewFocus::Nothing, 0, 0, Some(1)));

    assert!(needs_animation_repaint(&b, PreviewFocus::Nothing, 0, 0, None));
    b.scenes = vec![scene_with(vec![entity("crate")])];
    assert!(!needs_animation_repaint(&b, PreviewFocus::Nothing, 0, 0, None));
    assert!(!needs_animation_repaint(&b, PreviewFocus::Entity, 0, 4, Some(0)));
}
