//! 4bpp planar tile encoding and the built-in HUD tiles.
use vstd::prelude::*;
use crate::errors::{ExportError, ExportErrorView};
use crate::project::{Tile8, TilesetResource};

verus! {

/// Weight of pixel column `col` in a plane byte: the leftmost pixel is the
/// high bit.
pub open spec fn col_weight(col: int) -> int {
    if col == 0 {
        128
    } else if col == 1 {
        64
    } else if col == 2 {
        32
    } else if col == 3 {
        16
    } else if col == 4 {
        8
    } else if col == 5 {
        4
    } else if col == 6 {
        2
    } else if col == 7 {
        1
    } else {
        0
    }
}

/// Bit `k` (0 to 3) of a pixel value.
pub open spec fn pixel_bit(p: u8, k: int) -> bool {
    let d = if k == 0 {
        1
    } else if k == 1 {
        2
    } else if k == 2 {
        4
    } else {
        8
    };
    (p as int / d) % 2 == 1
}

/// Bitplane `k` of the first `n` pixels of row `row`.
pub open spec fn plane_value(pixels: Seq<u8>, row: int, k: int, n: int) -> int
    decreases n,
{
    if n <= 0 {
        0
    } else {
        plane_value(pixels, row, k, n - 1) + if pixel_bit(pixels[row * 8 + n - 1], k) {
            col_weight(n - 1)
        } else {
            0
        }
    }
}

/// Byte `i` of the 32-byte 4bpp encoding of a tile: rows of bitplanes 0
/// and 1 interleaved, then rows of bitplanes 2 and 3 interleaved.
pub open spec fn tile_byte(pixels: Seq<u8>, i: int) -> int {
    if i < 16 {
        plane_value(pixels, i / 2, i % 2, 8)
    } else {
        plane_value(pixels, (i - 16) / 2, 2 + i % 2, 8)
    }
}

/// The 4bpp encoding of one tile.
pub open spec fn tile_bytes(pixels: Seq<u8>) -> Seq<u8> {
    Seq::new(32, |i: int| tile_byte(pixels, i) as u8)
}

/// The 4bpp encoding of the first `n` tiles, one after the other.
pub open spec fn tiles_bytes(tiles: Seq<Tile8>, n: int) -> Seq<u8>
    decreases n,
{
    if n <= 0 {
        seq![]
    } else {
        tiles_bytes(tiles, n - 1) + tile_bytes(tiles[n - 1].pixels@)
    }
}

/// A pixel fits in four bits.
pub open spec fn pixel_ok(p: u8) -> bool {
    p <= 15
}

/// A tile can be encoded: 64 pixels, each fitting in four bits.
pub open spec fn tile_ok(t: Tile8) -> bool {
    t.pixels@.len() == 64 && forall|j: int| 0 <= j < 64 ==> pixel_ok(#[trigger] t.pixels@[j])
}

/// `j` is the first pixel of a 64-pixel tile that does not fit in four
/// bits.
pub open spec fn is_first_bad_pixel(pixels: Seq<u8>, j: int) -> bool {
    0 <= j < pixels.len() && !pixel_ok(pixels[j]) && forall|m: int|
        0 <= m < j ==> pixel_ok(#[trigger] pixels[m])
}

/// The error for the first tile that cannot be encoded, tile `t`.
pub open spec fn tile_error(tileset: TilesetResource, t: int, e: ExportError) -> bool {
    let pixels = tileset.tiles@[t].pixels@;
    if pixels.len() != 64 {
        e matches ExportError::TileSizeMismatch { tileset_id, tile_index } && tileset_id@
            == tileset.id@ && tile_index == t
    } else {
        e matches ExportError::PixelOutOfRange { tileset_id, tile_index, pixel_index } && tileset_id@
            == tileset.id@ && tile_index == t && is_first_bad_pixel(pixels, pixel_index as int)
    }
}

/// Index of the first pixel that does not fit in four bits, if any.
pub fn first_bad_pixel(pixels: &Vec<u8>) -> (r: Option<usize>)
    ensures
        match r {
            Some(j) => is_first_bad_pixel(pixels@, j as int),
            None => forall|j: int| 0 <= j < pixels@.len() ==> pixel_ok(#[trigger] pixels@[j]),
        },
{
    let mut j: usize = 0;
    while j < pixels.len()
        invariant
            j <= pixels@.len(),
            forall|m: int| 0 <= m < j ==> pixel_ok(#[trigger] pixels@[m]),
        decreases pixels.len() - j,
    {
        if pixels[j] > 0x0F {
            return Some(j);
        }
        j = j + 1;
    }
    None
}

/// The four bitplane bytes of one row of a valid tile.
fn encode_row(pixels: &Vec<u8>, row: usize) -> (r: (u8, u8, u8, u8))
    requires
        pixels@.len() == 64,
        row < 8,
    ensures
        r.0 == plane_value(pixels@, row as int, 0, 8),
        r.1 == plane_value(pixels@, row as int, 1, 8),
        r.2 == plane_value(pixels@, row as int, 2, 8),
        r.3 == plane_value(pixels@, row as int, 3, 8),
{
    let mut plane0: u8 = 0;
    let mut plane1: u8 = 0;
    let mut plane2: u8 = 0;
    let mut plane3: u8 = 0;
    let mut mask: u8 = 128;
    let mut col: usize = 0;
    while col < 8
        invariant
            col <= 8,
            row < 8,
            pixels@.len() == 64,
            mask == col_weight(col as int),
            plane0 == plane_value(pixels@, row as int, 0, col as int),
            plane1 == plane_value(pixels@, row as int, 1, col as int),
            plane2 == plane_value(pixels@, row as int, 2, col as int),
            plane3 == plane_value(pixels@, row as int, 3, col as int),
            col < 8 ==> plane0 + 2 * mask <= 256,
            col < 8 ==> plane1 + 2 * mask <= 256,
            col < 8 ==> plane2 + 2 * mask <= 256,
            col < 8 ==> plane3 + 2 * mask <= 256,
        decreases 8 - col,
    {
        let pixel = pixels[row * 8 + col];
        assert((pixel & 0x01 != 0) == ((pixel as int / 1) % 2 == 1)) by (bit_vector);
        assert((pixel & 0x02 != 0) == ((pixel as int / 2) % 2 == 1)) by (bit_vector);
        assert((pixel & 0x04 != 0) == ((pixel as int / 4) % 2 == 1)) by (bit_vector);
        assert((pixel & 0x08 != 0) == ((pixel as int / 8) % 2 == 1)) by (bit_vector);
        if pixel & 0x01 != 0 {
            plane0 = plane0 + mask;
        }
        if pixel & 0x02 != 0 {
            plane1 = plane1 + mask;
        }
        if pixel & 0x04 != 0 {
            plane2 = plane2 + mask;
        }
        if pixel & 0x08 != 0 {
            plane3 = plane3 + mask;
        }
        mask = mask / 2;
        col = col + 1;
    }
    (plane0, plane1, plane2, plane3)
}

/// The 4bpp encoding of one valid tile.
pub fn encode_tile(pixels: &Vec<u8>) -> (r: Vec<u8>)
    requires
        pixels@.len() == 64,
    ensures
        r@ == tile_bytes(pixels@),
{
    let mut low: Vec<u8> = Vec::new();
    let mut high: Vec<u8> = Vec::new();
    let mut row: usize = 0;
    while row < 8
        invariant
            row <= 8,
            pixels@.len() == 64,
            low.len() == 2 * row,
            high.len() == 2 * row,
            forall|i: int| 0 <= i < 2 * row ==> #[trigger] low@[i] == tile_byte(pixels@, i),
            forall|i: int| 0 <= i < 2 * row ==> #[trigger] high@[i] == tile_byte(pixels@, i + 16),
        decreases 8 - row,
    {
        let (plane0, plane1, plane2, plane3) = encode_row(pixels, row);
        low.push(plane0);
        low.push(plane1);
        high.push(plane2);
        high.push(plane3);
        row = row + 1;
    }
    let mut out = low;
    let mut i: usize = 0;
    while i < 16
        invariant
            i <= 16,
            out.len() == 16 + i,
            high.len() == 16,
            forall|m: int| 0 <= m < 16 ==> #[trigger] out@[m] == tile_byte(pixels@, m),
            forall|m: int| 0 <= m < 16 ==> #[trigger] high@[m] == tile_byte(pixels@, m + 16),
            forall|m: int| 16 <= m < 16 + i ==> #[trigger] out@[m] == tile_byte(pixels@, m),
        decreases 16 - i,
    {
        out.push(high[i]);
        i = i + 1;
    }
    assert forall|m: int| 0 <= m < 32 implies tile_byte(pixels@, m) <= 255 && out@[m] == tile_bytes(
        pixels@,
    )[m] by {
        assert(out@[m] == tile_byte(pixels@, m));
    }
    assert(out@ =~= tile_bytes(pixels@));
    out
}

/// The 4bpp encoding of every tile of a tileset, or the error for its first
/// tile that cannot be encoded.
pub fn encode_4bpp_tiles(tileset: &TilesetResource) -> (r: Result<Vec<u8>, ExportError>)
    ensures
        match r {
            Ok(bytes) => {
                &&& forall|t: int| 0 <= t < tileset.tiles@.len() ==> tile_ok(#[trigger] tileset.tiles@[t])
                &&& bytes@ == tiles_bytes(tileset.tiles@, tileset.tiles@.len() as int)
            },
            Err(e) => exists|t: int|
                0 <= t < tileset.tiles@.len() && !tile_ok(#[trigger] tileset.tiles@[t]) && (forall|
                    u: int,
                | 0 <= u < t ==> tile_ok(#[trigger] tileset.tiles@[u])) && tile_error(*tileset, t, e),
        },
{
    let mut bytes: Vec<u8> = Vec::new();
    let n = tileset.tiles.len();
    let mut t: usize = 0;
    while t < n
        invariant
            n == tileset.tiles@.len(),
            t <= n,
            forall|u: int| 0 <= u < t ==> tile_ok(#[trigger] tileset.tiles@[u]),
            bytes@ == tiles_bytes(tileset.tiles@, t as int),
        decreases n - t,
    {
        let tile = &tileset.tiles[t];
        if tile.pixels.len() != 64 {
            let e = ExportError::TileSizeMismatch { tileset_id: tileset.id.clone(), tile_index: t };
            assert(tile_error(*tileset, t as int, e));
            return Err(e);
        }
        match first_bad_pixel(&tile.pixels) {
            Some(j) => {
                let e = ExportError::PixelOutOfRange {
                    tileset_id: tileset.id.clone(),
                    tile_index: t,
                    pixel_index: j,
                };
                assert(tile_error(*tileset, t as int, e));
                return Err(e);
            },
            None => {},
        }
        let mut encoded = encode_tile(&tile.pixels);
        bytes.append(&mut encoded);
        t = t + 1;
    }
    Ok(bytes)
}

/// A tile of 64 pixels given as eight rows of eight.
pub open spec fn rows_pixels(rows: [[u8; 8]; 8]) -> Seq<u8> {
    Seq::new(64, |i: int| rows@[i / 8]@[i % 8])
}

/// A tile built from eight rows of eight pixels.
pub fn tile_from_rows(rows: &[[u8; 8]; 8]) -> (t: Tile8)
    ensures
        t.pixels@ == rows_pixels(*rows),
{
    let mut pixels: Vec<u8> = Vec::new();
    let mut r: usize = 0;
    while r < 8
        invariant
            r <= 8,
            pixels.len() == 8 * r,
            forall|i: int| 0 <= i < 8 * r ==> #[trigger] pixels@[i] == rows@[i / 8]@[i % 8],
        decreases 8 - r,
    {
        let row = rows[r];
        let mut c: usize = 0;
        while c < 8
            invariant
                c <= 8,
                r < 8,
                row == rows@[r as int],
                pixels.len() == 8 * r + c,
                forall|i: int| 0 <= i < 8 * r + c ==> #[trigger] pixels@[i] == rows@[i / 8]@[i % 8],
            decreases 8 - c,
        {
            pixels.push(row[c]);
            c = c + 1;
        }
        r = r + 1;
    }
    assert(pixels@ =~= rows_pixels(*rows));
    Tile8 { pixels }
}

/// The rows of the HUD's pips, full or empty.
pub open spec fn hud_pip_rows(filled: bool) -> [[u8; 8]; 8] {
    if filled {
            [
                [0, 0, 0, 0, 0, 0, 0, 0],
                [0, 6, 6, 6, 6, 6, 6, 0],
                [0, 6, 2, 2, 2, 2, 6, 0],
                [0, 6, 2, 6, 6, 2, 6, 0],
                [0, 6, 2, 6, 6, 2, 6, 0],
                [0, 6, 2, 2, 2, 2, 6, 0],
                [0, 6, 6, 6, 6, 6, 6, 0],
                [0, 0, 0, 0, 0, 0, 0, 0],
            ]
    } else {
            [
                [0, 0, 0, 0, 0, 0, 0, 0],
                [0, 3, 3, 3, 3, 3, 3, 0],
                [0, 3, 0, 0, 0, 0, 3, 0],
                [0, 3, 0, 0, 0, 0, 3, 0],
                [0, 3, 0, 0, 0, 0, 3, 0],
                [0, 3, 0, 0, 0, 0, 3, 0],
                [0, 3, 3, 3, 3, 3, 3, 0],
                [0, 0, 0, 0, 0, 0, 0, 0],
            ]
    }
}

/// The pips of the HUD's health bar, full or empty.
pub fn hud_pip_tile(filled: bool) -> (t: Tile8)
    ensures
        t.pixels@ == rows_pixels(hud_pip_rows(filled)),
{
    let rows: [[u8; 8]; 8] = if filled {
            [
                [0, 0, 0, 0, 0, 0, 0, 0],
                [0, 6, 6, 6, 6, 6, 6, 0],
                [0, 6, 2, 2, 2, 2, 6, 0],
                [0, 6, 2, 6, 6, 2, 6, 0],
                [0, 6, 2, 6, 6, 2, 6, 0],
                [0, 6, 2, 2, 2, 2, 6, 0],
                [0, 6, 6, 6, 6, 6, 6, 0],
                [0, 0, 0, 0, 0, 0, 0, 0],
            ]
    } else {
            [
                [0, 0, 0, 0, 0, 0, 0, 0],
                [0, 3, 3, 3, 3, 3, 3, 0],
                [0, 3, 0, 0, 0, 0, 3, 0],
                [0, 3, 0, 0, 0, 0, 3, 0],
                [0, 3, 0, 0, 0, 0, 3, 0],
                [0, 3, 0, 0, 0, 0, 3, 0],
                [0, 3, 3, 3, 3, 3, 3, 0],
                [0, 0, 0, 0, 0, 0, 0, 0],
            ]
    };
    assert(rows == hud_pip_rows(filled));
    tile_from_rows(&rows)
}

/// The rows of the HUD's hearts, full or empty.
pub open spec fn hud_heart_rows(filled: bool) -> [[u8; 8]; 8] {
    if filled {
            [
                [0, 7, 7, 0, 0, 7, 7, 0],
                [7, 7, 7, 7, 7, 7, 7, 7],
                [7, 2, 7, 7, 7, 7, 2, 7],
                [7, 7, 7, 7, 7, 7, 7, 7],
                [0, 7, 7, 7, 7, 7, 7, 0],
                [0, 0, 7, 7, 7, 7, 0, 0],
                [0, 0, 0, 7, 7, 0, 0, 0],
                [0, 0, 0, 0, 0, 0, 0, 0],
            ]
    } else {
            [
                [0, 3, 3, 0, 0, 3, 3, 0],
                [3, 0, 0, 3, 3, 0, 0, 3],
                [3, 0, 0, 0, 0, 0, 0, 3],
                [0, 3, 0, 0, 0, 0, 3, 0],
                [0, 0, 3, 0, 0, 3, 0, 0],
                [0, 0, 0, 3, 3, 0, 0, 0],
                [0, 0, 0, 0, 0, 0, 0, 0],
                [0, 0, 0, 0, 0, 0, 0, 0],
            ]
    }
}

/// The hearts of the HUD's health bar, full or empty.
pub fn hud_heart_tile(filled: bool) -> (t: Tile8)
    ensures
        t.pixels@ == rows_pixels(hud_heart_rows(filled)),
{
    let rows: [[u8; 8]; 8] = if filled {
            [
                [0, 7, 7, 0, 0, 7, 7, 0],
                [7, 7, 7, 7, 7, 7, 7, 7],
                [7, 2, 7, 7, 7, 7, 2, 7],
                [7, 7, 7, 7, 7, 7, 7, 7],
                [0, 7, 7, 7, 7, 7, 7, 0],
                [0, 0, 7, 7, 7, 7, 0, 0],
                [0, 0, 0, 7, 7, 0, 0, 0],
                [0, 0, 0, 0, 0, 0, 0, 0],
            ]
    } else {
            [
                [0, 3, 3, 0, 0, 3, 3, 0],
                [3, 0, 0, 3, 3, 0, 0, 3],
                [3, 0, 0, 0, 0, 0, 0, 3],
                [0, 3, 0, 0, 0, 0, 3, 0],
                [0, 0, 3, 0, 0, 3, 0, 0],
                [0, 0, 0, 3, 3, 0, 0, 0],
                [0, 0, 0, 0, 0, 0, 0, 0],
                [0, 0, 0, 0, 0, 0, 0, 0],
            ]
    };
    assert(rows == hud_heart_rows(filled));
    tile_from_rows(&rows)
}

/// The rows of the HUD's cells, full or empty.
pub open spec fn hud_cell_rows(filled: bool) -> [[u8; 8]; 8] {
    if filled {
            [
                [0, 0, 1, 1, 1, 1, 0, 0],
                [0, 1, 2, 2, 2, 2, 1, 0],
                [1, 2, 2, 2, 2, 2, 2, 1],
                [1, 2, 1, 1, 1, 1, 2, 1],
                [1, 2, 1, 1, 1, 1, 2, 1],
                [1, 2, 2, 2, 2, 2, 2, 1],
                [0, 1, 2, 2, 2, 2, 1, 0],
                [0, 0, 1, 1, 1, 1, 0, 0],
            ]
    } else {
            [
                [0, 0, 3, 3, 3, 3, 0, 0],
                [0, 3, 0, 0, 0, 0, 3, 0],
                [3, 0, 0, 0, 0, 0, 0, 3],
                [3, 0, 0, 0, 0, 0, 0, 3],
                [3, 0, 0, 0, 0, 0, 0, 3],
                [3, 0, 0, 0, 0, 0, 0, 3],
                [0, 3, 0, 0, 0, 0, 3, 0],
                [0, 0, 3, 3, 3, 3, 0, 0],
            ]
    }
}

/// The cells of the HUD's health bar, full or empty.
pub fn hud_cell_tile(filled: bool) -> (t: Tile8)
    ensures
        t.pixels@ == rows_pixels(hud_cell_rows(filled)),
{
    let rows: [[u8; 8]; 8] = if filled {
            [
                [0, 0, 1, 1, 1, 1, 0, 0],
                [0, 1, 2, 2, 2, 2, 1, 0],
                [1, 2, 2, 2, 2, 2, 2, 1],
                [1, 2, 1, 1, 1, 1, 2, 1],
                [1, 2, 1, 1, 1, 1, 2, 1],
                [1, 2, 2, 2, 2, 2, 2, 1],
                [0, 1, 2, 2, 2, 2, 1, 0],
                [0, 0, 1, 1, 1, 1, 0, 0],
            ]
    } else {
            [
                [0, 0, 3, 3, 3, 3, 0, 0],
                [0, 3, 0, 0, 0, 0, 3, 0],
                [3, 0, 0, 0, 0, 0, 0, 3],
                [3, 0, 0, 0, 0, 0, 0, 3],
                [3, 0, 0, 0, 0, 0, 0, 3],
                [3, 0, 0, 0, 0, 0, 0, 3],
                [0, 3, 0, 0, 0, 0, 3, 0],
                [0, 0, 3, 3, 3, 3, 0, 0],
            ]
    };
    assert(rows == hud_cell_rows(filled));
    tile_from_rows(&rows)
}

/// A copy of a tile.
pub fn copy_tile(tile: &Tile8) -> (t: Tile8)
    ensures
        t.pixels@ == tile.pixels@,
{
    let pixels = tile.pixels.clone();
    assert(pixels@ =~= tile.pixels@);
    Tile8 { pixels }
}

/// The pixels of each tile.
pub open spec fn tile_pixels(tiles: Seq<Tile8>) -> Seq<Seq<u8>> {
    tiles.map_values(|t: Tile8| t.pixels@)
}

/// Pixels that can be encoded as a tile: 64 of them, each within four bits.
pub open spec fn pixels_ok(px: Seq<u8>) -> bool {
    px.len() == 64 && forall|j: int| 0 <= j < 64 ==> pixel_ok(#[trigger] px[j])
}

/// The 4bpp encoding of the first `n` tiles given by their pixels.
pub open spec fn pixel_tiles_bytes(tiles: Seq<Seq<u8>>, n: int) -> Seq<u8>
    decreases n,
{
    if n <= 0 {
        seq![]
    } else {
        pixel_tiles_bytes(tiles, n - 1) + tile_bytes(tiles[n - 1])
    }
}

proof fn lemma_pixel_tiles_bytes(tiles: Seq<Tile8>, n: int)
    requires
        0 <= n <= tiles.len(),
    ensures
        pixel_tiles_bytes(tile_pixels(tiles), n) == tiles_bytes(tiles, n),
    decreases n,
{
    if n > 0 {
        lemma_pixel_tiles_bytes(tiles, n - 1);
    }
}

/// The result of encoding tiles, given by their pixels, for the tileset
/// named `id`: the bytes of every tile, or the error for the first tile
/// that cannot be encoded.
pub open spec fn spec_encoded_tiles(id: Seq<char>, tiles: Seq<Seq<u8>>) -> Result<Seq<u8>, ExportErrorView> {
    if forall|t: int| 0 <= t < tiles.len() ==> pixels_ok(#[trigger] tiles[t]) {
        Ok(pixel_tiles_bytes(tiles, tiles.len() as int))
    } else {
        let t = choose|t: int|
            0 <= t < tiles.len() && !pixels_ok(#[trigger] tiles[t]) && forall|u: int|
                0 <= u < t ==> pixels_ok(#[trigger] tiles[u]);
        let pixels = tiles[t];
        if pixels.len() != 64 {
            Err(ExportErrorView::TileSizeMismatch { tileset_id: id, tile_index: t as usize })
        } else {
            Err(
                ExportErrorView::PixelOutOfRange {
                    tileset_id: id,
                    tile_index: t as usize,
                    pixel_index: (choose|j: int| is_first_bad_pixel(pixels, j)) as usize,
                },
            )
        }
    }
}

/// What `encode_4bpp_tiles` returns, as a value.
pub proof fn lemma_encoded_tiles(tileset: TilesetResource, r: Result<Vec<u8>, ExportError>)
    requires
        match r {
            Ok(bytes) => {
                &&& forall|t: int| 0 <= t < tileset.tiles@.len() ==> tile_ok(#[trigger] tileset.tiles@[t])
                &&& bytes@ == tiles_bytes(tileset.tiles@, tileset.tiles@.len() as int)
            },
            Err(e) => exists|t: int|
                0 <= t < tileset.tiles@.len() && !tile_ok(#[trigger] tileset.tiles@[t]) && (forall|
                    u: int,
                | 0 <= u < t ==> tile_ok(#[trigger] tileset.tiles@[u])) && tile_error(tileset, t, e),
        },
    ensures
        match r {
            Ok(bytes) => spec_encoded_tiles(tileset.id@, tile_pixels(tileset.tiles@)) == Ok::<
                Seq<u8>,
                ExportErrorView,
            >(bytes@),
            Err(e) => spec_encoded_tiles(tileset.id@, tile_pixels(tileset.tiles@)) == Err::<
                Seq<u8>,
                ExportErrorView,
            >(e@),
        },
{
    let tiles = tileset.tiles@;
    let px = tile_pixels(tiles);
    assert forall|t: int| 0 <= t < tiles.len() implies (pixels_ok(#[trigger] px[t]) == tile_ok(tiles[t])) by {}
    match r {
        Ok(bytes) => {
            lemma_pixel_tiles_bytes(tiles, tiles.len() as int);
            assert forall|t: int| 0 <= t < px.len() implies pixels_ok(#[trigger] px[t]) by {
                assert(tile_ok(tiles[t]));
            }
        },
        Err(e) => {
            let t0 = choose|t: int|
                0 <= t < tiles.len() && !tile_ok(#[trigger] tiles[t]) && (forall|u: int|
                    0 <= u < t ==> tile_ok(#[trigger] tiles[u])) && tile_error(tileset, t, e);
            assert(!pixels_ok(px[t0]));
            assert forall|u: int| 0 <= u < t0 implies pixels_ok(#[trigger] px[u]) by {
                assert(tile_ok(tiles[u]));
            }
            let t = choose|t: int|
                0 <= t < px.len() && !pixels_ok(#[trigger] px[t]) && forall|u: int|
                    0 <= u < t ==> pixels_ok(#[trigger] px[u]);
            if t < t0 {
                assert(pixels_ok(px[t]));
            }
            if t0 < t {
                assert(pixels_ok(px[t0]));
            }
            assert(t == t0);
            let pixels = px[t];
            if pixels.len() == 64 {
                if let ExportError::PixelOutOfRange { pixel_index, .. } = e {
                    let j = choose|j: int| is_first_bad_pixel(pixels, j);
                    assert(is_first_bad_pixel(pixels, pixel_index as int));
                    if j < pixel_index {
                        assert(pixel_ok(pixels[j]));
                    }
                    if pixel_index < j {
                        assert(pixel_ok(pixels[pixel_index as int]));
                    }
                }
            }
        },
    }
}

} // verus!
