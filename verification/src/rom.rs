//! The LoROM image: its size code, internal header, checksum fields, and
//! the assembler source that lists raw bytes.
use vstd::prelude::*;
use crate::errors::ExportError;
use crate::text::{decimal, hex_padded, push_char, push_decimal, push_hex};
use vstd::string::{StringExecFns, StringSliceAdditionalSpecFns};

verus! {

/// Number of bytes a ROM of size code `c` holds: 1 KiB shifted left `c`
/// times.
pub open spec fn rom_size_for(c: nat) -> nat
    decreases c,
{
    if c == 0 {
        1024
    } else {
        2 * rom_size_for((c - 1) as nat)
    }
}

/// Bytes of a ROM of `bank_count` 32 KiB banks, at least one bank.
pub open spec fn rom_bytes_for(bank_count: u16) -> int {
    (if bank_count >= 1 { bank_count as int } else { 1 }) * 32768
}

proof fn lemma_rom_size_monotonic(a: nat, b: nat)
    requires
        a <= b,
    ensures
        rom_size_for(a) <= rom_size_for(b),
        a < b ==> rom_size_for(a) < rom_size_for(b),
    decreases b,
{
    lemma_rom_size_positive(b);
    if a < b {
        lemma_rom_size_monotonic(a, (b - 1) as nat);
    }
}

proof fn lemma_rom_size_positive(c: nat)
    ensures
        rom_size_for(c) >= 1024,
    decreases c,
{
    if c > 0 {
        lemma_rom_size_positive((c - 1) as nat);
    }
}

/// `code` is the smallest size code whose ROM holds all the banks.
pub open spec fn is_size_code_for(code: u8, bank_count: u16) -> bool {
    &&& rom_size_for(code as nat) >= rom_bytes_for(bank_count)
    &&& code == 0 || rom_size_for((code - 1) as nat) < rom_bytes_for(bank_count)
}

/// The header's ROM size code for `bank_count` banks.
pub open spec fn spec_rom_size_code(bank_count: u16) -> u8 {
    choose|code: u8| is_size_code_for(code, bank_count)
}

proof fn lemma_size_code_unique(a: u8, b: u8, bank_count: u16)
    requires
        is_size_code_for(a, bank_count),
        is_size_code_for(b, bank_count),
    ensures
        a == b,
{
    if a < b {
        lemma_rom_size_monotonic(a as nat, (b - 1) as nat);
    } else if b < a {
        lemma_rom_size_monotonic(b as nat, (a - 1) as nat);
    }
}

/// The size code of the internal header: the smallest `c` such that a ROM
/// of size code `c` holds all the banks.
pub fn rom_size_code(bank_count: u16) -> (code: u8)
    ensures
        is_size_code_for(code, bank_count),
        code == spec_rom_size_code(bank_count),
{
    let banks: usize = if bank_count >= 1 { bank_count as usize } else { 1 };
    let bytes = banks * 32768;
    let mut size_code: u8 = 0;
    let mut size: usize = 1024;
    proof {
        reveal_with_fuel(rom_size_for, 22);
        assert(rom_size_for(21) == 2147483648);
    }
    while size < bytes
        invariant
            bytes == rom_bytes_for(bank_count),
            bytes <= 65535 * 32768,
            size == rom_size_for(size_code as nat),
            size >= 1024,
            size_code <= 21,
            rom_size_for(21) == 2147483648,
            size_code == 0 || rom_size_for((size_code - 1) as nat) < bytes,
        decreases 21 - size_code,
    {
        if size_code >= 21 {
            proof {
                lemma_rom_size_monotonic(21, size_code as nat);
            }
        }
        size = size * 2;
        size_code = size_code + 1;
        proof {
            lemma_rom_size_positive(size_code as nat);
        }
    }
    proof {
        assert(is_size_code_for(size_code, bank_count));
        lemma_size_code_unique(size_code, spec_rom_size_code(bank_count), bank_count);
    }
    size_code
}

/// An ASCII letter made uppercase; every other byte unchanged.
pub open spec fn ascii_upper(b: u8) -> u8 {
    if 97 <= b <= 122 { (b - 32) as u8 } else { b }
}

/// Byte `i` of the 21-byte header title: the uppercased name, cut or
/// padded with spaces.
pub open spec fn title_byte(name: Seq<u8>, i: int) -> u8 {
    if i < name.len() { ascii_upper(name[i]) } else { 0x20 }
}

/// The 32-byte LoROM internal header: title, map mode, cartridge type, ROM
/// size, RAM size, region, developer, version, and the checksum fields left
/// zero.
pub open spec fn spec_header_bytes(name: Seq<u8>, size_code: u8) -> Seq<u8> {
    Seq::new(21, |i: int| title_byte(name, i)) + seq![
        0x20u8,
        0x00,
        size_code,
        0x00,
        0x01,
        0x00,
        0x00,
        0x00,
        0x00,
        0x00,
        0x00,
    ]
}

/// The LoROM internal header of a project named `name`.
pub fn header_bytes(name: &str, rom_bank_count: u16) -> (bytes: Vec<u8>)
    ensures
        bytes@ == spec_header_bytes(name.spec_bytes(), spec_rom_size_code(rom_bank_count)),
{
    let raw = name.as_bytes();
    let mut bytes: Vec<u8> = Vec::new();
    let mut i: usize = 0;
    while i < 21
        invariant
            i <= 21,
            raw@ == name.spec_bytes(),
            bytes.len() == i,
            forall|j: int| 0 <= j < i ==> #[trigger] bytes@[j] == title_byte(raw@, j),
        decreases 21 - i,
    {
        let b = if i < raw.len() {
            let c = raw[i];
            if 97 <= c && c <= 122 { c - 32 } else { c }
        } else {
            0x20
        };
        bytes.push(b);
        i = i + 1;
    }
    let code = rom_size_code(rom_bank_count);
    bytes.push(0x20);
    bytes.push(0x00);
    bytes.push(code);
    bytes.push(0x00);
    bytes.push(0x01);
    bytes.push(0x00);
    bytes.push(0x00);
    bytes.push(0x00);
    bytes.push(0x00);
    bytes.push(0x00);
    bytes.push(0x00);
    assert(bytes@ =~= spec_header_bytes(raw@, code));
    bytes
}

/// Offsets of the checksum complement and of the checksum in a LoROM image.
pub const COMPLEMENT_OFFSET: usize = 0x7FDC;
pub const CHECKSUM_OFFSET: usize = 0x7FDE;

/// Sum of all bytes.
pub open spec fn byte_sum(s: Seq<u8>) -> int
    decreases s.len(),
{
    if s.len() == 0 {
        0
    } else {
        byte_sum(s.drop_last()) + s.last()
    }
}

/// A ROM image with both checksum fields cleared.
pub open spec fn cleared_checksum_fields(rom: Seq<u8>) -> Seq<u8> {
    rom.update(0x7FDC, 0).update(0x7FDD, 0).update(0x7FDE, 0).update(0x7FDF, 0)
}

/// The LoROM checksum of an image: the sum of its bytes with the checksum
/// fields cleared, modulo 65536.
pub open spec fn spec_lorom_checksum(rom: Seq<u8>) -> int {
    byte_sum(cleared_checksum_fields(rom)) % 65536
}

/// The image with the checksum and its complement written little-endian.
pub open spec fn spec_patched_rom(rom: Seq<u8>) -> Seq<u8> {
    let checksum = spec_lorom_checksum(rom);
    let complement = 65535 - checksum;
    cleared_checksum_fields(rom).update(0x7FDC, (complement % 256) as u8).update(
        0x7FDD,
        (complement / 256) as u8,
    ).update(0x7FDE, (checksum % 256) as u8).update(0x7FDF, (checksum / 256) as u8)
}

/// The checksum stored in an image.
pub open spec fn spec_stored_checksum(rom: Seq<u8>) -> int {
    rom[0x7FDE] + 256 * rom[0x7FDF]
}

/// The complement stored in an image.
pub open spec fn spec_stored_complement(rom: Seq<u8>) -> int {
    rom[0x7FDC] + 256 * rom[0x7FDD]
}

proof fn lemma_byte_sum_prefix(s: Seq<u8>, i: int)
    requires
        0 <= i < s.len(),
    ensures
        byte_sum(s.take(i + 1)) == byte_sum(s.take(i)) + s[i],
{
    assert(s.take(i + 1).drop_last() =~= s.take(i));
}

proof fn lemma_byte_sum_prefix_bounded(s: Seq<u8>, i: int)
    requires
        0 <= i <= s.len(),
    ensures
        byte_sum(s.take(i)) <= byte_sum(s),
    decreases s.len() - i,
{
    if i < s.len() {
        lemma_byte_sum_prefix(s, i);
        lemma_byte_sum_prefix_bounded(s, i + 1);
    } else {
        assert(s.take(i) =~= s);
    }
}

/// Sum of the bytes of an image, with the precondition that it fits in
/// `u32`.
fn sum_bytes(rom: &Vec<u8>) -> (sum: u32)
    requires
        byte_sum(rom@) <= u32::MAX,
    ensures
        sum == byte_sum(rom@),
{
    let mut sum: u32 = 0;
    let mut i: usize = 0;
    while i < rom.len()
        invariant
            i <= rom@.len(),
            byte_sum(rom@) <= u32::MAX,
            sum == byte_sum(rom@.take(i as int)),
        decreases rom.len() - i,
    {
        proof {
            lemma_byte_sum_prefix(rom@, i as int);
            lemma_byte_sum_prefix_bounded(rom@, i as int + 1);
        }
        sum = sum + rom[i] as u32;
        i = i + 1;
    }
    assert(rom@.take(rom@.len() as int) =~= rom@);
    sum
}

/// Writes the LoROM checksum and its complement into a ROM image and
/// returns the checksum; fails, leaving the image alone, when the image is
/// too small to hold a LoROM header.
pub fn patch_lorom_checksum(rom: &mut Vec<u8>) -> (r: Result<u16, ExportError>)
    requires
        old(rom)@.len() >= 0x8000 ==> byte_sum(cleared_checksum_fields(old(rom)@)) <= u32::MAX,
    ensures
        old(rom)@.len() < 0x8000 ==> r == Err::<u16, ExportError>(
            ExportError::RomTooSmall { len: old(rom)@.len() as usize },
        ) && final(rom)@ == old(rom)@,
        old(rom)@.len() >= 0x8000 ==> r == Ok::<u16, ExportError>(
            spec_lorom_checksum(old(rom)@) as u16,
        ) && final(rom)@ == spec_patched_rom(old(rom)@),
{
    if rom.len() < 0x8000 {
        return Err(ExportError::RomTooSmall { len: rom.len() });
    }
    rom.set(COMPLEMENT_OFFSET, 0);
    rom.set(COMPLEMENT_OFFSET + 1, 0);
    rom.set(CHECKSUM_OFFSET, 0);
    rom.set(CHECKSUM_OFFSET + 1, 0);
    assert(rom@ =~= cleared_checksum_fields(old(rom)@));
    let checksum = (sum_bytes(rom) % 0x1_0000) as u16;
    let complement = checksum ^ 0xFFFF;
    assert(checksum ^ 0xFFFF == 0xFFFF - checksum) by (bit_vector);
    rom.set(COMPLEMENT_OFFSET, (complement % 256) as u8);
    rom.set(COMPLEMENT_OFFSET + 1, (complement / 256) as u8);
    rom.set(CHECKSUM_OFFSET, (checksum % 256) as u8);
    rom.set(CHECKSUM_OFFSET + 1, (checksum / 256) as u8);
    assert(rom@ =~= spec_patched_rom(old(rom)@));
    Ok(checksum)
}

/// The checksum stored in a LoROM image; fails when the image ends before
/// the checksum field.
pub fn read_lorom_checksum(rom: &[u8]) -> (r: Result<u16, ExportError>)
    ensures
        rom@.len() < 0x7FE0 ==> r == Err::<u16, ExportError>(
            ExportError::RomTooSmall { len: rom@.len() as usize },
        ),
        rom@.len() >= 0x7FE0 ==> r == Ok::<u16, ExportError>(spec_stored_checksum(rom@) as u16),
{
    if rom.len() < 0x7FE0 {
        return Err(ExportError::RomTooSmall { len: rom.len() });
    }
    let low = rom[0x7FDE] as u16;
    let high = rom[0x7FDF] as u16;
    Ok(low + high * 256)
}

/// Law: the checksum read back from a patched image is the checksum that
/// patching wrote, and the stored checksum and complement are bitwise
/// complements of each other.
pub proof fn lemma_patched_checksum_reads_back(rom: Seq<u8>)
    requires
        rom.len() >= 0x8000,
    ensures
        spec_stored_checksum(spec_patched_rom(rom)) == spec_lorom_checksum(rom),
        spec_stored_checksum(spec_patched_rom(rom)) + spec_stored_complement(spec_patched_rom(rom))
            == 0xFFFF,
{
}

/// Law: patching an image that is already patched changes nothing.
pub proof fn lemma_patch_idempotent(rom: Seq<u8>)
    requires
        rom.len() >= 0x8000,
    ensures
        spec_patched_rom(spec_patched_rom(rom)) == spec_patched_rom(rom),
{
    assert(cleared_checksum_fields(spec_patched_rom(rom)) =~= cleared_checksum_fields(rom));
    assert(spec_patched_rom(spec_patched_rom(rom)) =~= spec_patched_rom(rom));
}

/// One listed byte: `$` and two uppercase hex digits.
pub open spec fn byte_item(b: u8) -> Seq<char> {
    seq!['$'] + hex_padded(b as nat, 2)
}

/// The first `n` bytes of a row, each listed and separated by `, `.
pub open spec fn row_items(row: Seq<u8>, n: int) -> Seq<char>
    decreases n,
{
    if n <= 0 {
        seq![]
    } else if n == 1 {
        byte_item(row[0])
    } else {
        row_items(row, n - 1) + seq![',', ' '] + byte_item(row[n - 1])
    }
}

/// Chunk `k` of sixteen bytes (the last one may be shorter).
pub open spec fn chunk(bytes: Seq<u8>, k: int) -> Seq<u8> {
    let start = 16 * k;
    let end = if start + 16 <= bytes.len() { start + 16 } else { bytes.len() as int };
    bytes.subrange(start, end)
}

/// Number of rows that list `len` bytes, sixteen per row.
pub open spec fn row_count(len: int) -> int {
    (len + 15) / 16
}

/// The first `k` rows of a byte listing: each is the prefix, the row's
/// bytes and a newline.
pub open spec fn directive_rows(prefix: Seq<char>, bytes: Seq<u8>, k: int) -> Seq<char>
    decreases k,
{
    if k <= 0 {
        seq![]
    } else {
        directive_rows(prefix, bytes, k - 1) + prefix + row_items(
            chunk(bytes, k - 1),
            chunk(bytes, k - 1).len() as int,
        ) + seq!['\n']
    }
}

/// The assembler listing of `bytes`: sixteen bytes per row, each row
/// starting with `prefix`.
pub open spec fn spec_byte_directive(prefix: Seq<char>, bytes: Seq<u8>) -> Seq<char> {
    directive_rows(prefix, bytes, row_count(bytes.len() as int))
}

/// Appends one listed byte.
fn push_byte_item(text: &mut String, b: u8)
    ensures
        final(text)@ == old(text)@ + byte_item(b),
{
    push_char(text, '$');
    push_hex(text, b as u128, 2);
    assert(final(text)@ =~= old(text)@ + byte_item(b));
}

/// Lists `bytes` as assembler data rows of sixteen bytes, each row starting
/// with `prefix`.
pub fn format_byte_directive(prefix: &str, bytes: &[u8]) -> (text: String)
    ensures
        text@ == spec_byte_directive(prefix@, bytes@),
{
    let mut text = String::new();
    let n = bytes.len();
    let mut start: usize = 0;
    let ghost mut k: int = 0;
    while start < n
        invariant
            n == bytes@.len(),
            start < n ==> start == 16 * k,
            start == n ==> (start == 16 * k || k == row_count(n as int)),
            start <= n,
            0 <= k,
            start < n ==> k < row_count(n as int),
            k <= row_count(n as int),
            text@ == directive_rows(prefix@, bytes@, k),
        decreases n - start,
    {
        let end = if n - start >= 16 { start + 16 } else { n };
        let ghost row = chunk(bytes@, k);
        assert(row =~= bytes@.subrange(start as int, end as int));
        text.append(prefix);
        let ghost before = text@;
        let mut i: usize = start;
        while i < end
            invariant
                start <= i <= end,
                end <= n,
                n == bytes@.len(),
                row =~= bytes@.subrange(start as int, end as int),
                text@ == before + row_items(row, (i - start) as int),
            decreases end - i,
        {
            if i > start {
                push_char(&mut text, ',');
                push_char(&mut text, ' ');
            }
            push_byte_item(&mut text, bytes[i]);
            proof {
                let m = (i - start) as int;
                if m == 0 {
                    assert(row_items(row, 1) == byte_item(row[0]));
                } else {
                    assert(row_items(row, m + 1) == row_items(row, m) + seq![',', ' '] + byte_item(row[m]));
                }
                assert(text@ =~= before + row_items(row, m + 1));
            }
            i = i + 1;
        }
        push_char(&mut text, '\n');
        proof {
            assert(text@ =~= directive_rows(prefix@, bytes@, k + 1));
            k = k + 1;
        }
        if n - start >= 16 {
            start = start + 16;
        } else {
            start = n;
        }
    }
    text
}

/// The text of the generated header source: the header bytes listed as
/// `.byte` rows.
pub fn generated_header_text(name: &str, rom_bank_count: u16) -> (text: String)
    ensures
        text@ == spec_byte_directive(
            "    .byte "@,
            spec_header_bytes(name.spec_bytes(), spec_rom_size_code(rom_bank_count)),
        ),
{
    let header = header_bytes(name, rom_bank_count);
    format_byte_directive("    .byte ", header.as_slice())
}

/// File name of a versioned ROM: slug, build stamp, checksum in four hex
/// digits.
pub open spec fn spec_versioned_rom_file_name(slug: Seq<char>, build_stamp: nat, checksum: nat) -> Seq<char> {
    slug + seq!['-'] + decimal(build_stamp) + seq!['-'] + hex_padded(checksum, 4) + seq![
        '.',
        's',
        'f',
        'c',
    ]
}

/// File name of a versioned ROM.
pub fn versioned_rom_file_name(slug: &str, build_stamp: u128, checksum: u16) -> (name: String)
    ensures
        name@ == spec_versioned_rom_file_name(slug@, build_stamp as nat, checksum as nat),
{
    let mut name = String::new();
    name.append(slug);
    push_char(&mut name, '-');
    push_decimal(&mut name, build_stamp);
    push_char(&mut name, '-');
    push_hex(&mut name, checksum as u128, 4);
    push_char(&mut name, '.');
    push_char(&mut name, 's');
    push_char(&mut name, 'f');
    push_char(&mut name, 'c');
    assert(name@ =~= spec_versioned_rom_file_name(slug@, build_stamp as nat, checksum as nat));
    name
}

/// A file of the build directory is an older versioned ROM of this project:
/// it starts with the slug, ends with `.sfc` and holds a `-`.
pub open spec fn spec_is_versioned_rom_name(file_name: Seq<char>, slug: Seq<char>) -> bool {
    &&& slug.is_prefix_of(file_name)
    &&& seq!['.', 's', 'f', 'c'].is_suffix_of(file_name)
    &&& file_name.contains('-')
}

/// Whether `s` starts with `prefix`.
pub fn chars_start_with(s: &str, prefix: &str) -> (r: bool)
    ensures
        r == prefix@.is_prefix_of(s@),
{
    let n = s.unicode_len();
    let m = prefix.unicode_len();
    if m > n {
        return false;
    }
    let mut i: usize = 0;
    while i < m
        invariant
            n == s@.len(),
            m == prefix@.len(),
            m <= n,
            i <= m,
            forall|j: int| 0 <= j < i ==> prefix@[j] == s@[j],
        decreases m - i,
    {
        if s.get_char(i) != prefix.get_char(i) {
            return false;
        }
        i = i + 1;
    }
    true
}

/// Whether `s` ends with `.sfc`.
pub fn ends_with_sfc(s: &str) -> (r: bool)
    ensures
        r == seq!['.', 's', 'f', 'c'].is_suffix_of(s@),
{
    let n = s.unicode_len();
    if n < 4 {
        return false;
    }
    let r = s.get_char(n - 4) == '.' && s.get_char(n - 3) == 's' && s.get_char(n - 2) == 'f'
        && s.get_char(n - 1) == 'c';
    proof {
        let suffix = seq!['.', 's', 'f', 'c'];
        if r {
            assert(suffix =~= s@.subrange(n - 4, n as int));
        }
    }
    r
}

/// Whether `s` holds the character `c`.
pub fn chars_contain(s: &str, c: char) -> (r: bool)
    ensures
        r == s@.contains(c),
{
    let n = s.unicode_len();
    let mut i: usize = 0;
    while i < n
        invariant
            n == s@.len(),
            i <= n,
            forall|j: int| 0 <= j < i ==> s@[j] != c,
        decreases n - i,
    {
        if s.get_char(i) == c {
            return true;
        }
        i = i + 1;
    }
    false
}

/// Whether a file of the build directory is an older versioned ROM of the
/// project with this slug.
pub fn is_versioned_rom_name(file_name: &str, slug: &str) -> (r: bool)
    ensures
        r == spec_is_versioned_rom_name(file_name@, slug@),
{
    chars_start_with(file_name, slug) && ends_with_sfc(file_name) && chars_contain(file_name, '-')
}

/// Whether the checksum sum of an image fits in 32 bits, as patching it
/// needs.
pub fn byte_sum_fits(rom: &[u8]) -> (r: bool)
    ensures
        r == (rom@.len() >= 0x8000 ==> byte_sum(cleared_checksum_fields(rom@)) <= u32::MAX),
{
    if rom.len() < 0x8000 {
        return true;
    }
    let ghost cleared = cleared_checksum_fields(rom@);
    let mut acc: u64 = 0;
    let mut i: usize = 0;
    while i < rom.len()
        invariant
            rom@.len() >= 0x8000,
            cleared == cleared_checksum_fields(rom@),
            i <= rom@.len(),
            acc == byte_sum(cleared.take(i as int)),
            acc <= u32::MAX,
        decreases rom@.len() - i,
    {
        let b: u8 = if 0x7FDC <= i && i <= 0x7FDF { 0 } else { rom[i] };
        assert(cleared[i as int] == b);
        assert(cleared.take(i + 1).drop_last() =~= cleared.take(i as int));
        acc = acc + b as u64;
        if acc > 0xFFFF_FFFF {
            proof {
                lemma_byte_sum_prefix_bounded(cleared, i + 1);
            }
            return false;
        }
        i = i + 1;
    }
    assert(cleared.take(i as int) =~= cleared);
    true
}

/// The message for a ROM file too small to patch (it lacks a LoROM
/// header) or, with `for_checksum`, to read a checksum from.
pub open spec fn spec_rom_too_small_message(rom_path: Seq<char>, for_checksum: bool) -> Seq<char> {
    "ROM "@ + rom_path + if for_checksum {
        " is too small to contain a LoROM checksum"@
    } else {
        " is too small to contain a LoROM header"@
    }
}

/// The message for a ROM file too small to patch or to read a checksum
/// from.
pub fn rom_too_small_message(rom_path: &str, for_checksum: bool) -> (m: String)
    ensures
        m@ == spec_rom_too_small_message(rom_path@, for_checksum),
{
    let mut m = String::from_str("ROM ");
    m.append(rom_path);
    if for_checksum {
        m.append(" is too small to contain a LoROM checksum");
    } else {
        m.append(" is too small to contain a LoROM header");
    }
    m
}

} // verus!
