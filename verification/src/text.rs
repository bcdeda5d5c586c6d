//! Text helpers: string equality, and the decimal and hexadecimal forms of
//! numbers that the generated sources and labels use.
use vstd::prelude::*;

verus! {

/// Whether two strings hold the same characters.
///
/// Calls `==` of std's `str`, which compares the two strings' contents;
/// the contract claims exactly that.
#[verifier::external_body]
pub fn str_equal(a: &str, b: &str) -> (r: bool)
    ensures
        r == (a@ == b@),
{
    a == b
}

/// Appends one character to a string.
///
/// Calls std's `String::push`, which appends the character at the end;
/// the contract claims exactly that.
#[verifier::external_body]
pub fn push_char(s: &mut String, c: char)
    ensures
        final(s)@ == old(s)@.push(c),
{
    s.push(c)
}

/// The character of a decimal digit.
pub open spec fn digit_char(d: int) -> char {
    if d == 0 {
        '0'
    } else if d == 1 {
        '1'
    } else if d == 2 {
        '2'
    } else if d == 3 {
        '3'
    } else if d == 4 {
        '4'
    } else if d == 5 {
        '5'
    } else if d == 6 {
        '6'
    } else if d == 7 {
        '7'
    } else if d == 8 {
        '8'
    } else {
        '9'
    }
}

/// The character of an uppercase hexadecimal digit.
pub open spec fn hex_char(d: int) -> char {
    if d < 10 {
        digit_char(d)
    } else if d == 10 {
        'A'
    } else if d == 11 {
        'B'
    } else if d == 12 {
        'C'
    } else if d == 13 {
        'D'
    } else if d == 14 {
        'E'
    } else {
        'F'
    }
}

/// The decimal form of `n`, without leading zeros.
pub open spec fn decimal(n: nat) -> Seq<char>
    decreases n,
{
    if n < 10 {
        seq![digit_char(n as int)]
    } else {
        decimal(n / 10).push(digit_char((n % 10) as int))
    }
}

/// The uppercase hexadecimal form of `n`, padded with zeros to `width`
/// digits (longer when `n` needs more).
pub open spec fn hex_padded(n: nat, width: nat) -> Seq<char>
    decreases width, n,
{
    if width <= 1 && n < 16 {
        seq![hex_char(n as int)]
    } else {
        hex_padded(n / 16, if width > 0 { (width - 1) as nat } else { 0 }).push(
            hex_char((n % 16) as int),
        )
    }
}

/// The character of a decimal digit.
pub fn digit(d: u8) -> (c: char)
    requires
        d < 10,
    ensures
        c == digit_char(d as int),
{
    match d {
        0 => '0',
        1 => '1',
        2 => '2',
        3 => '3',
        4 => '4',
        5 => '5',
        6 => '6',
        7 => '7',
        8 => '8',
        _ => '9',
    }
}

/// The character of an uppercase hexadecimal digit.
pub fn hex_digit(d: u8) -> (c: char)
    requires
        d < 16,
    ensures
        c == hex_char(d as int),
{
    if d < 10 {
        digit(d)
    } else {
        match d {
            10 => 'A',
            11 => 'B',
            12 => 'C',
            13 => 'D',
            14 => 'E',
            _ => 'F',
        }
    }
}

/// Appends the decimal form of `n`.
pub fn push_decimal(s: &mut String, n: u128)
    ensures
        final(s)@ == old(s)@ + decimal(n as nat),
    decreases n,
{
    if n >= 10 {
        push_decimal(s, n / 10);
    }
    push_char(s, digit((n % 10) as u8));
}

/// Appends the uppercase hexadecimal form of `n` with at least `width`
/// digits.
pub fn push_hex(s: &mut String, n: u128, width: u32)
    ensures
        final(s)@ == old(s)@ + hex_padded(n as nat, width as nat),
    decreases width, n,
{
    if !(width <= 1 && n < 16) {
        push_hex(s, n / 16, if width > 0 { width - 1 } else { 0 });
    }
    push_char(s, hex_digit((n % 16) as u8));
}

/// The decimal form of `n`.
pub fn decimal_string(n: u128) -> (s: String)
    ensures
        s@ == decimal(n as nat),
{
    let mut s = String::new();
    push_decimal(&mut s, n);
    s
}

} // verus!
