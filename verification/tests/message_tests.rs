use snesmaker::errors::ExportError;
use snesmaker::rom::rom_too_small_message;
use snesmaker::session::PlaytestError;

#[test]
fn restart_errors_name_the_missing_point() {
    assert_eq!(PlaytestError::MissingSpawn("door".to_string()).message(), "spawn 'door' is missing");
    assert_eq!(PlaytestError::MissingCheckpoint("nope".to_string()).message(), "checkpoint 'nope' is missing");
}

#[test]
fn export_errors_read_as_sentences() {
    assert_eq!(
        ExportError::NotSideScroller.message().unwrap(),
        "platformer compiler only supports side-scroller scenes"
    );
    assert_eq!(
        ExportError::SceneHasNoLayers { scene_id: "intro".to_string() }.message().unwrap(),
        "scene 'intro' has no layers to compile"
    );
    assert_eq!(
        ExportError::NoLayerToExport { scene_id: "intro".to_string() }.message().unwrap(),
        "scene 'intro' has no visible layer to export"
    );
    assert_eq!(
        ExportError::TileOutOfRange {
            scene_id: "a".to_string(),
            tile: 9,
            tileset_id: "t".to_string(),
            tile_count: 4
        }
        .message()
        .unwrap(),
        "scene 'a' uses tile 9 but tileset 't' only has 4 tiles"
    );
    assert_eq!(
        ExportError::TooManyEntities { scene_id: "a".to_string(), count: 17 }.message().unwrap(),
        "scene 'a' has 17 entities but the current runtime supports at most 16"
    );
    assert_eq!(
        ExportError::MetaspriteMissingPalette { metasprite_id: "hero".to_string(), palette_id: "p".to_string() }
            .message()
            .unwrap(),
        "metasprite 'hero' references missing palette 'p'"
    );
    assert_eq!(ExportError::RomTooSmall { len: 3 }.message(), None);
    assert_eq!(rom_too_small_message("out.sfc", false), "ROM out.sfc is too small to contain a LoROM header");
    assert_eq!(rom_too_small_message("out.sfc", true), "ROM out.sfc is too small to contain a LoROM checksum");
}
