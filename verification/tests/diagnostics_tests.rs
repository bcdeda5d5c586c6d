use snesmaker::bundle::{
    AssemblerSettings, BuildSettings, EditorSettings, GameplaySettings, HealthHudStyle, PlayerSettings,
    ProjectBundle, ProjectManifest, ProjectMeta,
};
use snesmaker::diagnostics::{
    apply_diagnostic_quick_fix, diagnostic_has_quick_fix, diagnostic_matches_filters, diagnostic_target,
    filtered_diagnostics, target_status, Diagnostic, DiagnosticTarget, Severity,
};
use snesmaker::editor::{DiagnosticGrouping, DiagnosticsViewState};
use snesmaker::events::{DialogueGraph, EventCommand, EventScript, TriggerKind};
use snesmaker::project::{
    CollisionLayer, GridSize, PaletteResource, RectI16, RgbaColor, SceneKind, SceneResource, TilesetResource,
    TriggerVolume,
};

fn diag(severity: Severity, code: &str, message: &str, path: Option<&str>) -> Diagnostic {
    Diagnostic {
        severity,
        code: code.to_string(),
        message: message.to_string(),
        path: path.map(|p| p.to_string()),
    }
}

fn view(search: &str, show_errors: bool, show_warnings: bool) -> DiagnosticsViewState {
    DiagnosticsViewState {
        search: search.to_string(),
        show_errors,
        show_warnings,
        grouping: DiagnosticGrouping::Severity,
    }
}

fn trigger(id: &str, script_id: &str) -> TriggerVolume {
    TriggerVolume {
        id: id.to_string(),
        kind: TriggerKind::Touch,
        rect: RectI16 { x: 0, y: 0, width: 8, height: 8 },
        script_id: script_id.to_string(),
    }
}

fn scene(id: &str, triggers: Vec<TriggerVolume>, scripts: Vec<EventScript>) -> SceneResource {
    SceneResource {
        id: id.to_string(),
        kind: SceneKind::SideScroller,
        size_tiles: GridSize { width: 1, height: 1 },
        chunk_size_tiles: GridSize { width: 1, height: 1 },
        background_color_index: 0,
        layers: vec![],
        collision: CollisionLayer { solids: vec![false], ladders: vec![false], hazards: vec![false] },
        spawns: vec![],
        checkpoints: vec![],
        entities: vec![],
        triggers,
        scripts,
    }
}

fn bundle() -> ProjectBundle {
    ProjectBundle {
        manifest: ProjectManifest {
            meta: ProjectMeta { name: "Fix".to_string(), slug: "fix".to_string() },
            build: BuildSettings {
                output_dir: "build".to_string(),
                rom_bank_count: 4,
                assembler: AssemblerSettings { ca65_path: "ca65".to_string(), ld65_path: "ld65".to_string() },
            },
            gameplay: GameplaySettings {
                entry_scene: "gone".to_string(),
                player: PlayerSettings { max_health: 4, starting_health: 4, health_hud: HealthHudStyle::MegaPipsTopLeft },
            },
            editor: EditorSettings { preferred_emulator: None },
        },
        scenes: vec![
            scene(
                "town",
                vec![trigger("door", "open"), trigger("sign", "read"), trigger("gate", "open")],
                vec![EventScript {
                    id: "read".to_string(),
                    commands: vec![
                        EventCommand::LoadScene { scene_id: "cave".to_string(), spawn: Some("entry".to_string()) },
                        EventCommand::LoadScene { scene_id: "town".to_string(), spawn: None },
                        EventCommand::ShowDialogue { dialogue_id: "hello".to_string(), node_id: None },
                        EventCommand::ShowDialogue { dialogue_id: "intro".to_string(), node_id: None },
                    ],
                }],
            ),
            scene("field", vec![], vec![]),
        ],
        dialogues: vec![DialogueGraph { id: "intro".to_string(), opening_node: "a".to_string(), nodes: vec![] }],
        palettes: vec![PaletteResource {
            id: "warm".to_string(),
            colors: vec![RgbaColor { r: 0, g: 0, b: 0, a: 255 }; 20],
        }],
        tilesets: vec![TilesetResource {
            id: "rock".to_string(),
            palette_id: "lost".to_string(),
            name: "Rock".to_string(),
            tiles: vec![],
        }],
        metasprites: vec![],
        animations: vec![],
    }
}

#[test]
fn the_list_filters_by_severity_and_search() {
    let err = diag(Severity::Error, "scene.duplicate_id", "Two scenes share an id", Some("scene:Town"));
    let warn = diag(Severity::Warning, "asset.palette_too_large", "Too many colors", None);
    assert!(diagnostic_matches_filters(&view("", true, true), &err));
    assert!(!diagnostic_matches_filters(&view("", false, true), &err));
    assert!(diagnostic_matches_filters(&view("  TOWN ", true, true), &err));
    assert!(diagnostic_matches_filters(&view("palette", true, true), &warn));
    assert!(!diagnostic_matches_filters(&view("scene:", true, true), &warn));
    let shown = filtered_diagnostics(&view("", true, true), &vec![err.clone()], &vec![warn.clone()]);
    assert_eq!(shown, vec![err.clone(), warn.clone()]);
    let shown = filtered_diagnostics(&view("share", true, true), &vec![err.clone()], &vec![warn]);
    assert_eq!(shown, vec![err]);
}

#[test]
fn quick_fixes_are_offered_for_known_codes() {
    assert!(diagnostic_has_quick_fix(&diag(Severity::Error, "manifest.duplicate_physics", "", None)));
    assert!(diagnostic_has_quick_fix(&diag(Severity::Error, "script.dialogue_missing", "", None)));
    assert!(!diagnostic_has_quick_fix(&diag(Severity::Error, "rom.too_large", "", None)));
}

#[test]
fn quick_fixes_repair_the_project() {
    let mut b = bundle();
    let status = apply_diagnostic_quick_fix(&mut b, &diag(Severity::Error, "manifest.missing_entry_scene", "", None), 16);
    assert_eq!(status.as_deref(), Some("Set entry scene to 'town'"));
    assert_eq!(b.manifest.gameplay.entry_scene, "town");

    let status = apply_diagnostic_quick_fix(
        &mut b,
        &diag(Severity::Warning, "asset.palette_too_large", "", Some("palette:warm")),
        16,
    );
    assert_eq!(status.as_deref(), Some("Trimmed palette 'warm' to 16 colors"));
    assert_eq!(b.palettes[0].colors.len(), 16);

    let status =
        apply_diagnostic_quick_fix(&mut b, &diag(Severity::Error, "asset.missing_palette", "", Some("tileset:rock")), 16);
    assert_eq!(status.as_deref(), Some("Reassigned 'rock' to palette 'warm'"));
    assert_eq!(b.tilesets[0].palette_id, "warm");

    let status = apply_diagnostic_quick_fix(
        &mut b,
        &diag(Severity::Error, "scene.trigger_missing_script", "", Some("scene:town")),
        16,
    );
    assert_eq!(status.as_deref(), Some("Added 2 missing script stub(s) to 'town'"));
    let ids: Vec<&str> = b.scenes[0].scripts.iter().map(|s| s.id.as_str()).collect();
    assert_eq!(ids, vec!["read", "open", "open"]);

    let status =
        apply_diagnostic_quick_fix(&mut b, &diag(Severity::Error, "script.target_scene_missing", "", None), 16);
    assert_eq!(status.as_deref(), Some("Redirected missing scene loads to 'town'"));
    assert_eq!(
        b.scenes[0].scripts[0].commands[0],
        EventCommand::LoadScene { scene_id: "town".to_string(), spawn: Some("entry".to_string()) }
    );

    let status = apply_diagnostic_quick_fix(&mut b, &diag(Severity::Error, "script.dialogue_missing", "", None), 16);
    assert_eq!(status.as_deref(), Some("Redirected missing dialogue references to a placeholder dialogue"));
    assert_eq!(b.dialogues.len(), 2);
    assert_eq!(b.dialogues[1].id, "auto_dialogue");
    assert_eq!(b.dialogues[1].nodes[0].text, "Placeholder dialogue");
    assert_eq!(
        b.scenes[0].scripts[0].commands[2],
        EventCommand::ShowDialogue { dialogue_id: "auto_dialogue".to_string(), node_id: None }
    );
    assert_eq!(
        b.scenes[0].scripts[0].commands[3],
        EventCommand::ShowDialogue { dialogue_id: "intro".to_string(), node_id: None }
    );
}

#[test]
fn quick_fixes_without_anything_to_fix_change_nothing() {
    let mut b = bundle();
    let before = b.clone();
    assert_eq!(
        apply_diagnostic_quick_fix(&mut b, &diag(Severity::Error, "asset.missing_palette", "", Some("tileset:nope")), 16),
        None
    );
    assert_eq!(apply_diagnostic_quick_fix(&mut b, &diag(Severity::Error, "scene.duplicate_id", "", None), 16), None);
    assert_eq!(
        apply_diagnostic_quick_fix(&mut b, &diag(Severity::Error, "scene.trigger_missing_script", "", Some("scene:field")), 16),
        None
    );
    assert_eq!(b.tilesets[0].palette_id, before.tilesets[0].palette_id);
    assert_eq!(b.scenes[1].scripts.len(), 0);
}

#[test]
fn finding_paths_lead_to_their_place() {
    let scenes = bundle().scenes;
    assert_eq!(diagnostic_target("project.toml", &scenes), DiagnosticTarget::ProjectSettings);
    assert_eq!(diagnostic_target("scene:field", &scenes), DiagnosticTarget::Scene(1));
    assert_eq!(diagnostic_target("scene:moon", &scenes), DiagnosticTarget::Nowhere);
    assert_eq!(diagnostic_target("dialogue:intro", &scenes), DiagnosticTarget::Dialogue("intro".to_string()));
    assert_eq!(diagnostic_target("tileset:rock", &scenes), DiagnosticTarget::Asset("rock".to_string()));
    assert_eq!(diagnostic_target("rom", &scenes), DiagnosticTarget::Nowhere);
    assert_eq!(
        target_status(&DiagnosticTarget::Asset("rock".to_string())).as_deref(),
        Some("Filtered asset browser to 'rock'")
    );
    assert_eq!(
        target_status(&DiagnosticTarget::Dialogue("intro".to_string())).as_deref(),
        Some("Filtered asset browser to dialogue 'intro'")
    );
    assert_eq!(target_status(&DiagnosticTarget::Scene(0)), None);
}

#[test]
fn import_targets_come_from_the_project() {
    let mut settings = snesmaker::sprite_import::SpriteSheetImport::with_defaults();
    settings.target_palette_id = "cool".to_string();
    settings.sync_to_bundle(&bundle());
    assert_eq!(settings.target_tileset_id, "rock");
    assert_eq!(settings.target_palette_id, "cool");
}
