//! SNES color encoding: 15-bit BGR color words and 16-color palettes.
use vstd::prelude::*;
use crate::project::{PaletteResource, RgbaColor};

verus! {

/// An 8-bit channel scaled to 5 bits, rounding to nearest.
pub open spec fn channel5(c: int) -> int {
    (c * 31 + 127) / 255
}

/// The SNES color word of an RGB color: red in bits 0-4, green in bits
/// 5-9, blue in bits 10-14.
pub open spec fn spec_snes_color(r: int, g: int, b: int) -> int {
    channel5(r) + channel5(g) * 32 + channel5(b) * 1024
}

/// Palette entry `index`, opaque black where the palette has no entry.
pub open spec fn palette_entry(colors: Seq<RgbaColor>, index: int) -> RgbaColor {
    if 0 <= index < colors.len() {
        colors[index]
    } else {
        RgbaColor { r: 0, g: 0, b: 0, a: 255 }
    }
}

/// The color word of palette entry `index`.
pub open spec fn entry_word(colors: Seq<RgbaColor>, index: int) -> int {
    let c = palette_entry(colors, index);
    spec_snes_color(c.r as int, c.g as int, c.b as int)
}

/// The color word of object palette entry `index`: entry 0 is the
/// transparent color and is written as 0.
pub open spec fn obj_entry_word(colors: Seq<RgbaColor>, index: int) -> int {
    if index == 0 {
        0
    } else {
        entry_word(colors, index)
    }
}

/// Sixteen color words written little-endian, as `words` gives them.
pub open spec fn words_le(bytes: Seq<u8>, words: spec_fn(int) -> int) -> bool {
    &&& bytes.len() == 32
    &&& forall|i: int|
        0 <= i < 16 ==> bytes[2 * i] == #[trigger] words(i) % 256 && bytes[2 * i + 1] == words(i) / 256
}

/// Scales an 8-bit channel to 5 bits.
pub fn channel_to_5_bits(c: u8) -> (r: u16)
    ensures
        r == channel5(c as int),
        r <= 31,
{
    let v = (c as u16) * 31 + 127;
    v / 255
}

/// The SNES color word of an RGB color.
pub fn snes_color(r: u8, g: u8, b: u8) -> (w: u16)
    ensures
        w == spec_snes_color(r as int, g as int, b as int),
        w < 0x8000,
{
    let r5 = channel_to_5_bits(r);
    let g5 = channel_to_5_bits(g);
    let b5 = channel_to_5_bits(b);
    let w = r5 | (g5 << 5) | (b5 << 10);
    assert(r5 | (g5 << 5) | (b5 << 10) == r5 + g5 * 32 + b5 * 1024 && r5 + g5 * 32 + b5 * 1024 < 0x8000)
        by (bit_vector)
        requires
            r5 <= 31,
            g5 <= 31,
            b5 <= 31,
    ;
    w
}

/// Entry `index` of a palette, opaque black past its end.
pub fn entry_at(palette: &PaletteResource, index: usize) -> (c: RgbaColor)
    ensures
        c == palette_entry(palette.colors@, index as int),
{
    if index < palette.colors.len() {
        palette.colors[index]
    } else {
        RgbaColor { r: 0, g: 0, b: 0, a: 255 }
    }
}

/// The background palette as sixteen little-endian color words.
pub fn encode_palette_bytes(palette: &PaletteResource) -> (bytes: Vec<u8>)
    ensures
        words_le(bytes@, |i: int| entry_word(palette.colors@, i)),
{
    let mut bytes: Vec<u8> = Vec::new();
    let mut index: usize = 0;
    while index < 16
        invariant
            index <= 16,
            bytes.len() == 2 * index,
            forall|i: int|
                0 <= i < index ==> bytes[2 * i] == entry_word(palette.colors@, i) % 256
                    && bytes[2 * i + 1] == entry_word(palette.colors@, i) / 256,
        decreases 16 - index,
    {
        let color = entry_at(palette, index);
        let value = snes_color(color.r, color.g, color.b);
        bytes.push((value % 256) as u8);
        bytes.push((value / 256) as u8);
        index = index + 1;
    }
    bytes
}

/// The object palette as sixteen little-endian color words, entry 0 being
/// transparent.
pub fn encode_obj_palette_bytes(palette: &PaletteResource) -> (bytes: Vec<u8>)
    ensures
        words_le(bytes@, |i: int| obj_entry_word(palette.colors@, i)),
{
    let mut bytes: Vec<u8> = Vec::new();
    let mut index: usize = 0;
    while index < 16
        invariant
            index <= 16,
            bytes.len() == 2 * index,
            forall|i: int|
                0 <= i < index ==> bytes[2 * i] == obj_entry_word(palette.colors@, i) % 256
                    && bytes[2 * i + 1] == obj_entry_word(palette.colors@, i) / 256,
        decreases 16 - index,
    {
        let value = if index == 0 {
            0
        } else {
            let color = entry_at(palette, index);
            snes_color(color.r, color.g, color.b)
        };
        bytes.push((value % 256) as u8);
        bytes.push((value / 256) as u8);
        index = index + 1;
    }
    bytes
}

/// Sixteen color words written little-endian.
pub open spec fn le_words(words: spec_fn(int) -> int) -> Seq<u8> {
    Seq::new(32, |k: int| (if k % 2 == 0 { words(k / 2) % 256 } else { words(k / 2) / 256 }) as u8)
}

/// The bytes that hold sixteen color words little-endian are those words.
pub proof fn lemma_words_le(bytes: Seq<u8>, words: spec_fn(int) -> int)
    requires
        words_le(bytes, words),
    ensures
        bytes == le_words(words),
{
    assert forall|k: int| 0 <= k < 32 implies bytes[k] == #[trigger] le_words(words)[k] by {
        let i = k / 2;
        if k % 2 == 0 {
            assert(k == 2 * i);
            assert(bytes[2 * i] == words(i) % 256);
        } else {
            assert(k == 2 * i + 1);
            assert(bytes[2 * i + 1] == words(i) / 256);
        }
    }
    assert(bytes =~= le_words(words));
}

} // verus!
