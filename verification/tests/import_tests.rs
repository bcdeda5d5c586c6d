use snesmaker::bundle::{
    AssemblerSettings, BuildSettings, EditorSettings, GameplaySettings, HealthHudStyle, PlayerSettings,
    ProjectBundle, ProjectManifest, ProjectMeta,
};
use snesmaker::project::{PaletteResource, RgbaColor, SpriteTileRef, Tile8, TilesetResource};
use snesmaker::sprite_import::{
    collect_project_ids, import_sprite_sheet, import_sprite_sheet_into_bundle, sprite_destination_name, ImportError, ImportSettingsError, SpriteSheetImport,
};

#[test]
fn import_settings_start_with_one_small_frame() {
    let s = SpriteSheetImport::with_defaults();
    assert_eq!(s.base_id, "player_run");
    assert_eq!((s.frame_width_px, s.frame_height_px, s.frame_count, s.columns), (16, 16, 1, 1));
    assert_eq!(s.frame_duration, 8);
    assert_eq!(s.check(), Ok(()));
}

#[test]
fn import_settings_are_checked_in_order() {
    let mut s = SpriteSheetImport::with_defaults();
    s.animation_id = "   ".to_string();
    s.frame_width_px = 12;
    assert_eq!(s.check(), Err(ImportSettingsError::MissingIds));
    s.animation_id = "run".to_string();
    assert_eq!(s.check(), Err(ImportSettingsError::BadFrameSize));
    assert_eq!(s.check().unwrap_err().message(), "Frame width and height must be non-zero multiples of 8 pixels.");
    s.frame_width_px = 24;
    s.columns = 0;
    assert_eq!(s.check(), Err(ImportSettingsError::NoFrames));
    assert_eq!(ImportSettingsError::MissingIds.message(), "Base id and animation id are required.");
}

fn project() -> ProjectBundle {
    ProjectBundle {
        manifest: ProjectManifest {
            meta: ProjectMeta { name: "Sheet".to_string(), slug: "sheet".to_string() },
            build: BuildSettings {
                output_dir: "build".to_string(),
                rom_bank_count: 4,
                assembler: AssemblerSettings { ca65_path: "ca65".to_string(), ld65_path: "ld65".to_string() },
            },
            gameplay: GameplaySettings {
                entry_scene: "start".to_string(),
                player: PlayerSettings { max_health: 4, starting_health: 4, health_hud: HealthHudStyle::MegaPipsTopLeft },
            },
            editor: EditorSettings { preferred_emulator: None },
        },
        scenes: vec![],
        dialogues: vec![],
        palettes: vec![PaletteResource {
            id: "warm".to_string(),
            colors: vec![RgbaColor { r: 0, g: 0, b: 0, a: 255 }],
        }],
        tilesets: vec![TilesetResource {
            id: "rock".to_string(),
            palette_id: "warm".to_string(),
            name: "Rock".to_string(),
            tiles: vec![Tile8 { pixels: vec![0; 64] }],
        }],
        metasprites: vec![],
        animations: vec![],
    }
}

fn settings() -> SpriteSheetImport {
    let mut s = SpriteSheetImport::with_defaults();
    s.base_id = "hero".to_string();
    s.animation_id = "hero_run".to_string();
    s.frame_width_px = 8;
    s.frame_height_px = 8;
    s.frame_count = 2;
    s.columns = 2;
    s.frame_duration = 0;
    s.target_tileset_id = "rock".to_string();
    s.target_palette_id = "warm".to_string();
    s
}

/// A 16 by 8 sheet: the left half red, the right half green above and
/// see-through below.
fn sheet() -> Vec<u8> {
    let mut bytes = Vec::new();
    for y in 0..8 {
        for x in 0..16 {
            let px: [u8; 4] = if x < 8 {
                [255, 0, 0, 255]
            } else if y < 4 {
                [0, 255, 0, 255]
            } else {
                [9, 9, 9, 0]
            };
            bytes.extend_from_slice(&px);
        }
    }
    bytes
}

#[test]
fn importing_a_sheet_adds_tiles_metasprites_and_an_animation() {
    let mut b = project();
    let summary = import_sprite_sheet(&mut b, &settings(), &sheet(), 16, 8, &vec![]).unwrap();
    assert_eq!(summary, "Imported 2 frame(s) into 'rock' and created animation 'hero_run'");
    let colors: Vec<(u8, u8, u8, u8)> = b.palettes[0].colors.iter().map(|c| (c.r, c.g, c.b, c.a)).collect();
    assert_eq!(colors, vec![(0, 0, 0, 255), (255, 0, 0, 255), (0, 255, 0, 255)]);
    let tiles = &b.tilesets[0].tiles;
    assert_eq!(tiles.len(), 3);
    assert_eq!(tiles[1].pixels, vec![1; 64]);
    let mut second = vec![2; 32];
    second.extend(vec![0; 32]);
    assert_eq!(tiles[2].pixels, second);
    assert_eq!(b.metasprites.len(), 2);
    assert_eq!(b.metasprites[0].id, "hero_01");
    assert_eq!(b.metasprites[1].id, "hero_02");
    assert_eq!(b.metasprites[1].palette_id, "warm");
    assert_eq!(
        b.metasprites[1].pieces,
        vec![SpriteTileRef { tile_index: 2, x: 0, y: 0, palette_slot: 0, h_flip: false, v_flip: false }]
    );
    assert_eq!(b.animations.len(), 1);
    assert_eq!(b.animations[0].id, "hero_run");
    let frames: Vec<(String, u16)> =
        b.animations[0].frames.iter().map(|f| (f.metasprite_id.clone(), f.duration_frames)).collect();
    assert_eq!(frames, vec![("hero_01".to_string(), 1), ("hero_02".to_string(), 1)]);
}

#[test]
fn a_wide_frame_is_cut_into_tiles_row_after_row() {
    let mut b = project();
    let mut s = settings();
    s.frame_width_px = 16;
    s.frame_count = 1;
    s.columns = 1;
    s.frame_duration = 6;
    import_sprite_sheet(&mut b, &s, &sheet(), 16, 8, &vec![]).unwrap();
    assert_eq!(b.metasprites.len(), 1);
    assert_eq!(b.metasprites[0].id, "hero");
    let pieces: Vec<(u16, i16, i16)> = b.metasprites[0].pieces.iter().map(|p| (p.tile_index, p.x, p.y)).collect();
    assert_eq!(pieces, vec![(1, 0, 0), (2, 8, 0)]);
    assert_eq!(b.animations[0].frames[0].duration_frames, 6);
}

#[test]
fn refused_imports_leave_the_project_alone() {
    let before = format!("{:?}", project());

    let mut b = project();
    let e = import_sprite_sheet(&mut b, &settings(), &sheet(), 16, 8, &vec!["hero_run".to_string()]).unwrap_err();
    assert!(matches!(e, ImportError::AnimationIdTaken(_)));
    assert_eq!(e.message(), "Animation id 'hero_run' already exists. Choose a unique id before importing.");
    assert_eq!(format!("{:?}", b), before);

    let e = import_sprite_sheet(&mut b, &settings(), &sheet(), 16, 8, &vec!["hero_02".to_string()]).unwrap_err();
    assert_eq!(e.message(), "Metasprite id 'hero_02' already exists. Choose a different base id.");
    assert_eq!(format!("{:?}", b), before);

    let mut s = settings();
    s.columns = 1;
    let e = import_sprite_sheet(&mut b, &s, &sheet(), 16, 8, &vec![]).unwrap_err();
    assert_eq!(e, ImportError::FrameOutsideSheet(1));
    assert_eq!(e.message(), "Frame 2 exceeds the sprite sheet bounds. Check the frame size, count, or column count.");
    assert_eq!(format!("{:?}", b), before);

    let e = import_sprite_sheet(&mut b, &settings(), &sheet()[..100].to_vec(), 16, 8, &vec![]).unwrap_err();
    assert_eq!(e, ImportError::UndecodablePixels);
    assert_eq!(e.message(), "failed to decode sprite sheet pixels");

    let mut s = settings();
    s.target_tileset_id = "moss".to_string();
    let e = import_sprite_sheet(&mut b, &s, &sheet(), 16, 8, &vec![]).unwrap_err();
    assert_eq!(e.message(), "target tileset 'moss' is missing");

    let mut s = settings();
    s.target_palette_id = "cold".to_string();
    let e = import_sprite_sheet(&mut b, &s, &sheet(), 16, 8, &vec![]).unwrap_err();
    assert_eq!(e.message(), "target palette 'cold' is missing");

    let mut s = settings();
    s.base_id = " ".to_string();
    let e = import_sprite_sheet(&mut b, &s, &sheet(), 16, 8, &vec![]).unwrap_err();
    assert_eq!(e, ImportError::Settings(ImportSettingsError::MissingIds));
    assert_eq!(format!("{:?}", b), before);
}

#[test]
fn chosen_files_seed_default_ids() {
    let mut s = SpriteSheetImport::with_defaults();
    s.seed_ids_from_stem(Some("boss_walk"));
    assert_eq!((s.base_id.as_str(), s.animation_id.as_str()), ("boss_walk", "boss_walk"));
    s.animation_id = String::new();
    s.seed_ids_from_stem(None);
    assert_eq!((s.base_id.as_str(), s.animation_id.as_str()), ("boss_walk", "imported_sprite"));
}

#[test]
fn copied_sheets_get_numbered_names() {
    assert_eq!(sprite_destination_name(Some("hero"), Some("PNG"), 0), "hero.png");
    assert_eq!(sprite_destination_name(Some("hero"), Some("png"), 3), "hero_03.png");
    assert_eq!(sprite_destination_name(Some(""), None, 12), "sprite_sheet_12.png");
    assert_eq!(sprite_destination_name(None, Some(""), 0), "sprite_sheet.png");
}

#[test]
fn imports_into_a_project_respect_its_own_ids() {
    let mut b = project();
    assert_eq!(collect_project_ids(&b), vec!["warm".to_string(), "rock".to_string()]);
    let mut s = settings();
    s.animation_id = "rock".to_string();
    let e = import_sprite_sheet_into_bundle(&mut b, &s, &sheet(), 16, 8).unwrap_err();
    assert_eq!(e.message(), "Animation id 'rock' already exists. Choose a unique id before importing.");

    let summary = import_sprite_sheet_into_bundle(&mut b, &settings(), &sheet(), 16, 8).unwrap();
    assert_eq!(summary, "Imported 2 frame(s) into 'rock' and created animation 'hero_run'");
    let mut again = settings();
    again.animation_id = "hero_walk".to_string();
    let e = import_sprite_sheet_into_bundle(&mut b, &again, &sheet(), 16, 8).unwrap_err();
    assert_eq!(e.message(), "Metasprite id 'hero_01' already exists. Choose a different base id.");
}
