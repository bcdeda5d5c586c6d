//! The generated project data source: the title, the scene count, the
//! background and object graphics, the entity table and the bytes of each
//! compiled scene, as assembler data.
use vstd::prelude::*;
use vstd::string::StringSliceAdditionalSpecFns;
use crate::background::{build_bg_assets, spec_bg_assets, BgAssets, BgAssetsView};
use crate::bundle::ProjectBundle;
use crate::compile::CompiledScene;
use crate::errors::{stopped_by_piece, ExportError, ExportErrorView};
use crate::player_assets::{build_player_assets_checked, spec_player_assets, PlayerAssets, PlayerAssetsView};
use crate::rom::{format_byte_directive, spec_byte_directive};
use crate::text::{decimal, hex_padded, push_char, push_decimal, push_hex};

verus! {

/// A line naming a number: the label, the number in decimal, a newline.
pub open spec fn count_line(label: Seq<char>, n: nat) -> Seq<char> {
    label + decimal(n) + "\n"@
}

/// A line naming a byte: the label, `$`, two hex digits, a newline.
pub open spec fn hex_line(label: Seq<char>, b: u8) -> Seq<char> {
    label + seq!['$'] + hex_padded(b as nat, 2) + "\n"@
}

/// Bytes listed as `.byte` rows.
pub open spec fn listing(bytes: Seq<u8>) -> Seq<char> {
    spec_byte_directive("    .byte "@, bytes)
}

/// The block of compiled scene `i`: its label, its bytes (one zero byte
/// when it has none) and its length.
pub open spec fn scene_block(i: nat, data: Seq<u8>) -> Seq<char> {
    "SCENE_"@ + decimal(i) + "_DATA:\n"@ + (if data.len() == 0 {
        "    .byte $00\n"@
    } else {
        listing(data)
    }) + "SCENE_"@ + decimal(i) + "_BYTE_LEN = "@ + decimal(data.len()) + "\n"@
}

/// The blocks of the first `n` compiled scenes.
pub open spec fn scene_blocks(scenes: Seq<Seq<u8>>, n: int) -> Seq<char>
    decreases n,
{
    if n <= 0 {
        seq![]
    } else {
        scene_blocks(scenes, n - 1) + scene_block((n - 1) as nat, scenes[n - 1])
    }
}

/// `t` followed by the title, the scene count and the entry scene.
#[verifier::opaque]
pub open spec fn with_header(t: Seq<char>, name_bytes: Seq<u8>, entry: Seq<char>, scene_count: nat) -> Seq<char> {
    t
        + "PROJECT_TITLE_DATA:\n"@
        + listing(name_bytes)
        + "    .byte $00\n"@
        + count_line("PROJECT_SCENE_COUNT = "@, scene_count)
        + "; entry_scene = "@
        + entry
        + "\n"@
}

/// `t` followed by the background graphics.
#[verifier::opaque]
pub open spec fn with_bg_section(t: Seq<char>, bg: BgAssetsView) -> Seq<char> {
    t
        + count_line("PROJECT_BG_PALETTE_BYTE_LEN = "@, bg.palette_bytes.len())
        + "PROJECT_BG_PALETTE:\n"@
        + listing(bg.palette_bytes)
        + count_line("PROJECT_BG_TILE_BYTE_LEN = "@, bg.tile_bytes.len())
        + "PROJECT_BG_TILE_BYTES:\n"@
        + listing(bg.tile_bytes)
        + count_line("PROJECT_BG_MAP_WIDTH_TILES = "@, bg.map_width_tiles as nat)
        + count_line("PROJECT_BG_MAP_HEIGHT_TILES = "@, bg.map_height_tiles as nat)
        + count_line("PROJECT_MAX_SCROLL_X = "@, bg.max_scroll_x_pixels as nat)
        + count_line("PROJECT_BG_MAP_BYTE_LEN = "@, bg.tilemap_bytes.len())
        + "PROJECT_BG_MAP_BYTES:\n"@
        + listing(bg.tilemap_bytes)
}

/// `t` followed by the object graphics and the entity table.
#[verifier::opaque]
pub open spec fn with_obj_section(t: Seq<char>, pa: PlayerAssetsView) -> Seq<char> {
    t
        + count_line("PROJECT_OBJ_PALETTE_BYTE_LEN = "@, pa.obj_palette_bytes.len())
        + "PROJECT_OBJ_PALETTE:\n"@
        + listing(pa.obj_palette_bytes)
        + count_line("PROJECT_OBJ_TILE_BYTE_LEN = "@, pa.obj_tile_bytes.len())
        + "PROJECT_OBJ_TILE_BYTES:\n"@
        + listing(pa.obj_tile_bytes)
        + count_line("PROJECT_VISUAL_HEADER_BYTE_LEN = "@, pa.visual_header_bytes.len())
        + "PROJECT_VISUAL_HEADERS:\n"@
        + listing(pa.visual_header_bytes)
        + count_line("PROJECT_VISUAL_PIECE_BYTE_LEN = "@, pa.visual_piece_bytes.len())
        + "PROJECT_VISUAL_PIECES:\n"@
        + listing(pa.visual_piece_bytes)
        + count_line("PROJECT_PLAYER_START_X = "@, pa.start_x as nat)
        + count_line("PROJECT_PLAYER_START_Y = "@, pa.start_y as nat)
        + count_line("PROJECT_PLAYER_GROUND_Y = "@, pa.ground_y as nat)
        + count_line("PROJECT_WORLD_WIDTH_PIXELS = "@, pa.world_width_pixels as nat)
        + count_line("PROJECT_PLAYER_MAX_X = "@, pa.player_max_x as nat)
        + hex_line("PROJECT_PLAYER_VISUAL = "@, pa.visuals.0)
        + hex_line("PROJECT_PLAYER_ALT_VISUAL = "@, pa.visuals.1)
        + hex_line("PROJECT_BULLET_VISUAL = "@, pa.visuals.2)
        + hex_line("PROJECT_HUD_PIP_FULL_VISUAL = "@, pa.hud_visuals[0])
        + hex_line("PROJECT_HUD_PIP_EMPTY_VISUAL = "@, pa.hud_visuals[1])
        + hex_line("PROJECT_HUD_HEART_FULL_VISUAL = "@, pa.hud_visuals[2])
        + hex_line("PROJECT_HUD_HEART_EMPTY_VISUAL = "@, pa.hud_visuals[3])
        + hex_line("PROJECT_HUD_CELL_FULL_VISUAL = "@, pa.hud_visuals[4])
        + hex_line("PROJECT_HUD_CELL_EMPTY_VISUAL = "@, pa.hud_visuals[5])
        + count_line("PROJECT_PLAYER_MAX_HEALTH = "@, pa.player_max_health as nat)
        + count_line("PROJECT_PLAYER_STARTING_HEALTH = "@, pa.player_starting_health as nat)
        + count_line("PROJECT_HEALTH_HUD_STYLE = "@, pa.hud_style as nat)
        + count_line("PROJECT_ENTITY_COUNT = "@, pa.entity_count as nat)
        + count_line("PROJECT_ENTITY_BYTE_LEN = "@, pa.entity_bytes.len())
        + "PROJECT_ENTITY_BYTES:\n"@
        + listing(pa.entity_bytes)
}

/// The generated project data source.
pub open spec fn spec_project_data_text(
    name_bytes: Seq<u8>,
    entry: Seq<char>,
    bg: BgAssetsView,
    pa: PlayerAssetsView,
    scenes: Seq<Seq<u8>>,
) -> Seq<char> {
    with_obj_section(with_bg_section(with_header(seq![], name_bytes, entry, scenes.len()), bg), pa) + scene_blocks(
        scenes,
        scenes.len() as int,
    )
}

/// Appends a line naming a number.
fn push_count_line(text: &mut String, label: &str, n: u128)
    ensures
        final(text)@ == old(text)@ + count_line(label@, n as nat),
{
    text.append(label);
    push_decimal(text, n);
    text.append("\n");
    assert(final(text)@ =~= old(text)@ + count_line(label@, n as nat));
}

/// Appends a line naming a byte in hex.
fn push_hex_line(text: &mut String, label: &str, b: u8)
    ensures
        final(text)@ == old(text)@ + hex_line(label@, b),
{
    text.append(label);
    push_char(text, '$');
    push_hex(text, b as u128, 2);
    text.append("\n");
    assert(final(text)@ =~= old(text)@ + hex_line(label@, b));
}

/// Appends bytes listed as `.byte` rows.
fn push_listing(text: &mut String, bytes: &[u8])
    ensures
        final(text)@ == old(text)@ + listing(bytes@),
{
    let rows = format_byte_directive("    .byte ", bytes);
    text.append(rows.as_str());
}

/// Appends the title, the scene count and the entry scene.
fn push_header(text: &mut String, name: &str, entry: &str, scene_count: usize)
    ensures
        final(text)@ == with_header(old(text)@, name.spec_bytes(), entry@, scene_count as nat),
{
    reveal(with_header);
    text.append("PROJECT_TITLE_DATA:\n");
    push_listing(text, name.as_bytes());
    text.append("    .byte $00\n");
    push_count_line(text, "PROJECT_SCENE_COUNT = ", scene_count as u128);
    text.append("; entry_scene = ");
    text.append(entry);
    text.append("\n");
}

/// Appends the background graphics.
fn push_bg_section(text: &mut String, bg: &BgAssets)
    ensures
        final(text)@ == with_bg_section(old(text)@, bg@),
{
    reveal(with_bg_section);
    push_count_line(text, "PROJECT_BG_PALETTE_BYTE_LEN = ", bg.palette_bytes.len() as u128);
    text.append("PROJECT_BG_PALETTE:\n");
    push_listing(text, bg.palette_bytes.as_slice());
    push_count_line(text, "PROJECT_BG_TILE_BYTE_LEN = ", bg.tile_bytes.len() as u128);
    text.append("PROJECT_BG_TILE_BYTES:\n");
    push_listing(text, bg.tile_bytes.as_slice());
    push_count_line(text, "PROJECT_BG_MAP_WIDTH_TILES = ", bg.map_width_tiles as u128);
    push_count_line(text, "PROJECT_BG_MAP_HEIGHT_TILES = ", bg.map_height_tiles as u128);
    push_count_line(text, "PROJECT_MAX_SCROLL_X = ", bg.max_scroll_x_pixels as u128);
    push_count_line(text, "PROJECT_BG_MAP_BYTE_LEN = ", bg.tilemap_bytes.len() as u128);
    text.append("PROJECT_BG_MAP_BYTES:\n");
    push_listing(text, bg.tilemap_bytes.as_slice());
}

/// Appends the object graphics and the entity table.
fn push_obj_section(text: &mut String, pa: &PlayerAssets)
    ensures
        final(text)@ == with_obj_section(old(text)@, pa@),
{
    reveal(with_obj_section);
    push_count_line(text, "PROJECT_OBJ_PALETTE_BYTE_LEN = ", pa.obj_palette_bytes.len() as u128);
    text.append("PROJECT_OBJ_PALETTE:\n");
    push_listing(text, pa.obj_palette_bytes.as_slice());
    push_count_line(text, "PROJECT_OBJ_TILE_BYTE_LEN = ", pa.obj_tile_bytes.len() as u128);
    text.append("PROJECT_OBJ_TILE_BYTES:\n");
    push_listing(text, pa.obj_tile_bytes.as_slice());
    push_count_line(text, "PROJECT_VISUAL_HEADER_BYTE_LEN = ", pa.visual_header_bytes.len() as u128);
    text.append("PROJECT_VISUAL_HEADERS:\n");
    push_listing(text, pa.visual_header_bytes.as_slice());
    push_count_line(text, "PROJECT_VISUAL_PIECE_BYTE_LEN = ", pa.visual_piece_bytes.len() as u128);
    text.append("PROJECT_VISUAL_PIECES:\n");
    push_listing(text, pa.visual_piece_bytes.as_slice());
    push_count_line(text, "PROJECT_PLAYER_START_X = ", pa.start_x as u128);
    push_count_line(text, "PROJECT_PLAYER_START_Y = ", pa.start_y as u128);
    push_count_line(text, "PROJECT_PLAYER_GROUND_Y = ", pa.ground_y as u128);
    push_count_line(text, "PROJECT_WORLD_WIDTH_PIXELS = ", pa.world_width_pixels as u128);
    push_count_line(text, "PROJECT_PLAYER_MAX_X = ", pa.player_max_x as u128);
    push_hex_line(text, "PROJECT_PLAYER_VISUAL = ", pa.player_visual);
    push_hex_line(text, "PROJECT_PLAYER_ALT_VISUAL = ", pa.player_alt_visual);
    push_hex_line(text, "PROJECT_BULLET_VISUAL = ", pa.bullet_visual);
    push_hex_line(text, "PROJECT_HUD_PIP_FULL_VISUAL = ", pa.hud_pip_full_visual);
    push_hex_line(text, "PROJECT_HUD_PIP_EMPTY_VISUAL = ", pa.hud_pip_empty_visual);
    push_hex_line(text, "PROJECT_HUD_HEART_FULL_VISUAL = ", pa.hud_heart_full_visual);
    push_hex_line(text, "PROJECT_HUD_HEART_EMPTY_VISUAL = ", pa.hud_heart_empty_visual);
    push_hex_line(text, "PROJECT_HUD_CELL_FULL_VISUAL = ", pa.hud_cell_full_visual);
    push_hex_line(text, "PROJECT_HUD_CELL_EMPTY_VISUAL = ", pa.hud_cell_empty_visual);
    push_count_line(text, "PROJECT_PLAYER_MAX_HEALTH = ", pa.player_max_health as u128);
    push_count_line(text, "PROJECT_PLAYER_STARTING_HEALTH = ", pa.player_starting_health as u128);
    push_count_line(text, "PROJECT_HEALTH_HUD_STYLE = ", pa.hud_style as u128);
    push_count_line(text, "PROJECT_ENTITY_COUNT = ", pa.entity_count as u128);
    push_count_line(text, "PROJECT_ENTITY_BYTE_LEN = ", pa.entity_bytes.len() as u128);
    text.append("PROJECT_ENTITY_BYTES:\n");
    push_listing(text, pa.entity_bytes.as_slice());
}

/// Appends the block of one compiled scene.
fn push_scene_block(text: &mut String, i: usize, data: &Vec<u8>)
    ensures
        final(text)@ == old(text)@ + scene_block(i as nat, data@),
{
    text.append("SCENE_");
    push_decimal(text, i as u128);
    text.append("_DATA:\n");
    if data.len() == 0 {
        text.append("    .byte $00\n");
    } else {
        push_listing(text, data.as_slice());
    }
    text.append("SCENE_");
    push_decimal(text, i as u128);
    text.append("_BYTE_LEN = ");
    push_decimal(text, data.len() as u128);
    text.append("\n");
    assert(final(text)@ =~= old(text)@ + scene_block(i as nat, data@));
}

/// The compiled scenes' bytes.
pub open spec fn scene_bytes(scenes: Seq<CompiledScene>) -> Seq<Seq<u8>> {
    scenes.map_values(|s: CompiledScene| s.data_bytes@)
}

/// The generated project data source of a project.
pub fn project_data_text(
    name: &str,
    entry: &str,
    bg: &BgAssets,
    pa: &PlayerAssets,
    scenes: &Vec<CompiledScene>,
) -> (text: String)
    ensures
        text@ == spec_project_data_text(name.spec_bytes(), entry@, bg@, pa@, scene_bytes(scenes@)),
{
    let mut text = String::new();
    push_header(&mut text, name, entry, scenes.len());
    push_bg_section(&mut text, bg);
    push_obj_section(&mut text, pa);
    let ghost head = text@;
    let mut i: usize = 0;
    while i < scenes.len()
        invariant
            i <= scenes@.len(),
            text@ == head + scene_blocks(scene_bytes(scenes@), i as int),
        decreases scenes@.len() - i,
    {
        let data = &scenes[i].data_bytes;
        push_scene_block(&mut text, i, data);
        proof {
            assert(scene_bytes(scenes@)[i as int] == data@);
            assert(text@ =~= head + scene_blocks(scene_bytes(scenes@), i + 1));
        }
        i = i + 1;
    }
    text
}

/// The generated project data source of a project and its compiled
/// scenes, on any project: the background graphics are built first, then
/// the object graphics, and the first of them that fails gives the error;
/// a piece out of range stops the object graphics with
/// `ExportError::PieceOutOfRange`.
pub fn generated_project_data_checked(bundle: &ProjectBundle, scenes: &Vec<CompiledScene>) -> (r: Result<
    String,
    ExportError,
>)
    ensures
        match spec_bg_assets(*bundle) {
            Err(e) => r matches Err(err) && err@ == e,
            Ok(bg) => match spec_player_assets(*bundle) {
                Err(e) => r matches Err(err) && err@ == e,
                Ok(pa) => r matches Ok(text) && text@ == spec_project_data_text(
                    vstd::utf8::encode_utf8(bundle.manifest.meta.name@),
                    bundle.manifest.gameplay.entry_scene@,
                    bg,
                    pa,
                    scene_bytes(scenes@),
                ),
            },
        },
{
    let bg = match build_bg_assets(bundle) {
        Ok(b) => b,
        Err(e) => {
            return Err(e);
        },
    };
    let pa = match build_player_assets_checked(bundle) {
        Ok(p) => p,
        Err(e) => {
            return Err(e);
        },
    };
    Ok(
        project_data_text(
            bundle.manifest.meta.name.as_str(),
            bundle.manifest.gameplay.entry_scene.as_str(),
            &bg,
            &pa,
            scenes,
        ),
    )
}

/// The generated project data source of a project and its compiled
/// scenes: the background graphics are built first, then the object
/// graphics, and the first of them that fails gives the error. Once the
/// background graphics are built, the project must not stop the object
/// graphics on a piece out of range.
pub fn generated_project_data(bundle: &ProjectBundle, scenes: &Vec<CompiledScene>) -> (r: Result<String, ExportError>)
    requires
        spec_bg_assets(*bundle) is Ok ==> !stopped_by_piece(spec_player_assets(*bundle)),
    ensures
        match spec_bg_assets(*bundle) {
            Err(e) => r matches Err(err) && err@ == e,
            Ok(bg) => match spec_player_assets(*bundle) {
                Err(e) => r matches Err(err) && err@ == e,
                Ok(pa) => r matches Ok(text) && text@ == spec_project_data_text(
                    vstd::utf8::encode_utf8(bundle.manifest.meta.name@),
                    bundle.manifest.gameplay.entry_scene@,
                    bg,
                    pa,
                    scene_bytes(scenes@),
                ),
            },
        },
{
    generated_project_data_checked(bundle, scenes)
}

} // verus!
