use snesmaker::errors::ExportError;
use snesmaker::palette::{encode_obj_palette_bytes, encode_palette_bytes, snes_color};
use snesmaker::project::{PaletteResource, RgbaColor, Tile8, TilesetResource};
use snesmaker::rom::{
    format_byte_directive, generated_header_text, is_versioned_rom_name, patch_lorom_checksum,
    read_lorom_checksum, rom_size_code, versioned_rom_file_name,
};
use snesmaker::tiles::{encode_4bpp_tiles, hud_heart_tile, hud_pip_tile, tile_from_rows};

#[test]
fn encodes_snes_palette_entries() {
    let color = snes_color(255, 0, 0);
    assert_eq!(color, 0x001F);
}

#[test]
fn encodes_4bpp_tiles() {
    let tileset = TilesetResource {
        id: "test".to_string(),
        palette_id: "p".to_string(),
        name: "Test".to_string(),
        tiles: vec![Tile8 {
            pixels: vec![
                1, 1, 1, 1, 0, 0, 0, 0, 2, 2, 2, 2, 0, 0, 0, 0, 4, 4, 4, 4, 0, 0, 0, 0, 8, 8, 8, 8, 0,
                0, 0, 0, 1, 2, 4, 8, 0, 0, 0, 0, 8, 4, 2, 1, 0, 0, 0, 0, 15, 15, 15, 15, 0, 0, 0, 0, 0,
                0, 0, 0, 0, 0, 0, 0,
            ],
        }],
    };

    let bytes = encode_4bpp_tiles(&tileset).expect("tile encoding");
    assert_eq!(bytes.len(), 32);
    assert_eq!(bytes[0], 0xF0);
    assert_eq!(bytes[1], 0x00);
    assert_eq!(bytes[2], 0x00);
    assert_eq!(bytes[3], 0xF0);
}

#[test]
fn patches_lorom_checksum_fields() {
    let mut rom = vec![0_u8; 0x8000];
    rom[0] = 1;
    rom[1] = 2;

    let checksum = patch_lorom_checksum(&mut rom).expect("patch checksum");
    let patched = rom;
    let complement = u16::from_le_bytes([patched[0x7FDC], patched[0x7FDD]]);
    let stored_checksum = u16::from_le_bytes([patched[0x7FDE], patched[0x7FDF]]);
    assert_eq!(checksum, stored_checksum);
    assert_eq!(stored_checksum ^ complement, 0xFFFF);
}

#[test]
fn snes_colors_keep_the_top_five_bits() {
    assert_eq!(snes_color(0, 255, 0), 0x03E0);
    assert_eq!(snes_color(0, 0, 255), 0x7C00);
    assert_eq!(snes_color(255, 255, 255), 0x7FFF);
    assert_eq!(snes_color(7, 8, 16), 0x0821);
}

#[test]
fn palettes_pad_to_sixteen_entries() {
    let palette = PaletteResource {
        id: "p".to_string(),
        colors: vec![RgbaColor { r: 255, g: 0, b: 0, a: 255 }],
    };
    let bytes = encode_palette_bytes(&palette);
    assert_eq!(bytes.len(), 32);
    assert_eq!(bytes[0], 0x1F);
    assert_eq!(bytes[1], 0x00);
    let obj = encode_obj_palette_bytes(&palette);
    assert_eq!(obj.len(), 32);
}

#[test]
fn out_of_range_pixels_are_refused() {
    let mut pixels = vec![0_u8; 64];
    pixels[5] = 16;
    let tileset = TilesetResource {
        id: "t".to_string(),
        palette_id: "p".to_string(),
        name: "T".to_string(),
        tiles: vec![Tile8 { pixels }],
    };
    assert_eq!(
        encode_4bpp_tiles(&tileset),
        Err(ExportError::PixelOutOfRange { tileset_id: "t".to_string(), tile_index: 0, pixel_index: 5 })
    );
    let short = TilesetResource {
        id: "s".to_string(),
        palette_id: "p".to_string(),
        name: "S".to_string(),
        tiles: vec![Tile8 { pixels: vec![0; 63] }],
    };
    assert_eq!(
        encode_4bpp_tiles(&short),
        Err(ExportError::TileSizeMismatch { tileset_id: "s".to_string(), tile_index: 0 })
    );
}

#[test]
fn small_roms_are_refused() {
    let mut rom = vec![0_u8; 0x100];
    assert_eq!(patch_lorom_checksum(&mut rom), Err(ExportError::RomTooSmall { len: 0x100 }));
    assert_eq!(rom.len(), 0x100);
    assert_eq!(read_lorom_checksum(&rom), Err(ExportError::RomTooSmall { len: 0x100 }));
}

#[test]
fn patched_checksum_reads_back_and_patching_twice_changes_nothing() {
    let mut rom = vec![3_u8; 0x8000];
    let checksum = patch_lorom_checksum(&mut rom).expect("patch");
    assert_eq!(read_lorom_checksum(&rom), Ok(checksum));
    let once = rom.clone();
    patch_lorom_checksum(&mut rom).expect("patch again");
    assert_eq!(rom, once);
}

#[test]
fn rom_size_codes_follow_the_bank_count() {
    assert_eq!(rom_size_code(0), 5);
    assert_eq!(rom_size_code(1), 5);
    assert_eq!(rom_size_code(4), 7);
    assert_eq!(rom_size_code(5), 8);
    assert_eq!(rom_size_code(64), 11);
}

#[test]
fn byte_directives_list_sixteen_bytes_per_row() {
    let bytes: Vec<u8> = (0..17).collect();
    let text = format_byte_directive("    .byte ", &bytes);
    assert_eq!(
        text,
        "    .byte $00, $01, $02, $03, $04, $05, $06, $07, $08, $09, $0A, $0B, $0C, $0D, $0E, $0F\n    .byte $10\n"
    );
    assert_eq!(format_byte_directive("x", &[]), "");
}

#[test]
fn header_text_pads_the_title() {
    let text = generated_header_text("ab", 4);
    assert!(text.starts_with("    .byte $41, $42, $20"));
    assert!(text.contains("$07"));
}

#[test]
fn versioned_names_hold_slug_stamp_and_checksum() {
    let name = versioned_rom_file_name("demo", 1234, 0xBEEF);
    assert_eq!(name, "demo-1234-BEEF.sfc");
    assert!(is_versioned_rom_name(&name, "demo"));
    assert!(!is_versioned_rom_name("demo.sfc", "demo"));
    assert!(!is_versioned_rom_name("other-1-0000.sfc", "demo"));
}

#[test]
fn hud_tiles_differ_when_filled() {
    let full = hud_pip_tile(true);
    let empty = hud_pip_tile(false);
    assert_eq!(full.pixels.len(), 64);
    assert_ne!(full.pixels, empty.pixels);
    assert_eq!(hud_heart_tile(true).pixels.len(), 64);
    let rows = [[1_u8; 8]; 8];
    assert_eq!(tile_from_rows(&rows).pixels, vec![1_u8; 64]);
}
