//! The radix-64 alphabets of the tripcode text formats: the legacy
//! crypt alphabet, the base64 alphabet, the alphabet of the
//! 15-character format, and the half-width katakana alphabet in both
//! UTF-8 and Shift-JIS, each with its exact decoding inverse.
//!
//! A decoder maps a symbol to its 6-bit value, or to the out-of-range
//! sentinel `0x40` for a symbol outside the alphabet.

use vstd::prelude::*;

verus! {

/// The `i`-th 6-bit digit of a word whose significant bits start at
/// bit 63 and whose digit 0 covers bits 58..64.
pub open spec fn spec_digit58(w: u64, i: int) -> u8 {
    ((w >> ((58 - 6 * i) as u64)) & 63u64) as u8
}

/// The `j`-th 6-bit digit of a 32-bit word whose digit 0 covers bits
/// 26..32.
pub open spec fn spec_digit30(w: u32, j: int) -> u8 {
    ((w >> ((26 - 6 * j) as u32)) & 63u32) as u8
}

/// Every 6-bit digit of a word is below 64 and equals the masked
/// shift it is read from.
pub proof fn lemma_digit58_lt(w: u64, i: int)
    ensures
        spec_digit58(w, i) < 64,
        spec_digit58(w, i) as u64 == (w >> ((58 - 6 * i) as u64)) & 63u64,
{
    let sh: u64 = (58 - 6 * i) as u64;
    assert((w >> sh) & 63u64 < 64u64) by (bit_vector);
}

/// Every 6-bit digit of a 32-bit word is below 64 and equals the
/// masked shift it is read from.
pub proof fn lemma_digit30_lt(w: u32, j: int)
    ensures
        spec_digit30(w, j) < 64,
        spec_digit30(w, j) as u32 == (w >> ((26 - 6 * j) as u32)) & 63u32,
{
    let sh: u32 = (26 - 6 * j) as u32;
    assert((w >> sh) & 63u32 < 64u32) by (bit_vector);
}

/// Reads digit `i` of a top-aligned word.
pub fn digit58(w: u64, i: usize) -> (r: u8)
    requires
        i < 10,
    ensures
        r == spec_digit58(w, i as int),
        r < 64,
{
    let sh: u64 = (58 - 6 * i) as u64;
    proof {
        assert((w >> sh) & 63u64 < 64u64) by (bit_vector);
    }
    ((w >> sh) & 63) as u8
}

/// Reads digit `j` of a top-aligned 32-bit word.
pub fn digit30(w: u32, j: usize) -> (r: u8)
    requires
        j < 5,
    ensures
        r == spec_digit30(w, j as int),
        r < 64,
{
    let sh: u32 = (26 - 6 * j) as u32;
    proof {
        assert((w >> sh) & 63u32 < 64u32) by (bit_vector);
    }
    ((w >> sh) & 63) as u8
}

// ---- crypt alphabet: ./0-9A-Za-z ----

/// The symbol of value `v` in the crypt alphabet.
pub open spec fn spec_crypt_byte(v: u8) -> u8 {
    if v == 0 {
        0x2Eu8
    } else if v == 1 {
        0x2Fu8
    } else if v < 12 {
        (0x30 + v - 2) as u8
    } else if v < 38 {
        (0x41 + v - 12) as u8
    } else {
        (0x61 + v - 38) as u8
    }
}

/// The value of byte `b` in the crypt alphabet, or `0x40`.
pub open spec fn spec_crypt_val(b: u8) -> u8 {
    if b == 0x2E {
        0u8
    } else if b == 0x2F {
        1u8
    } else if 0x30 <= b <= 0x39 {
        (b - 0x30 + 2) as u8
    } else if 0x41 <= b <= 0x5A {
        (b - 0x41 + 12) as u8
    } else if 0x61 <= b <= 0x7A {
        (b - 0x61 + 38) as u8
    } else {
        0x40u8
    }
}

/// The value of byte `b` as the last symbol of a 10-character
/// tripcode.  Only the sixteen crypt symbols whose value is a multiple
/// of four can stand there, the two trailing padding bits of the final
/// 6-bit group being zero.
pub open spec fn spec_crypt_last_val(b: u8) -> u8 {
    if spec_crypt_val(b) < 64 && spec_crypt_val(b) % 4 == 0 {
        spec_crypt_val(b)
    } else {
        0x40u8
    }
}

pub fn crypt_byte(v: u8) -> (r: u8)
    requires
        v < 64,
    ensures
        r == spec_crypt_byte(v),
{
    if v == 0 {
        0x2E
    } else if v == 1 {
        0x2F
    } else if v < 12 {
        0x30 + v - 2
    } else if v < 38 {
        0x41 + v - 12
    } else {
        0x61 + v - 38
    }
}

pub fn crypt_val(b: u8) -> (r: u8)
    ensures
        r == spec_crypt_val(b),
{
    if b == 0x2E {
        0
    } else if b == 0x2F {
        1
    } else if 0x30 <= b && b <= 0x39 {
        b - 0x30 + 2
    } else if 0x41 <= b && b <= 0x5A {
        b - 0x41 + 12
    } else if 0x61 <= b && b <= 0x7A {
        b - 0x61 + 38
    } else {
        0x40
    }
}

pub fn crypt_last_val(b: u8) -> (r: u8)
    ensures
        r == spec_crypt_last_val(b),
{
    let v = crypt_val(b);
    if v < 64 && v % 4 == 0 {
        v
    } else {
        0x40
    }
}

/// The crypt alphabet encodes and decodes inversely.
pub proof fn lemma_crypt_codec()
    ensures
        forall|v: u8| v < 64 ==> #[trigger] spec_crypt_byte(v) < 128,
        forall|v: u8| v < 64 ==> #[trigger] spec_crypt_val(spec_crypt_byte(v)) == v,
        forall|b: u8| spec_crypt_val(b) < 64 ==> #[trigger] spec_crypt_byte(spec_crypt_val(b))
            == b,
{
}

// ---- base64 alphabet: A-Za-z0-9+/ ----

/// The symbol of value `v` in the base64 alphabet.
pub open spec fn spec_b64_byte(v: u8) -> u8 {
    if v < 26 {
        (0x41 + v) as u8
    } else if v < 52 {
        (0x61 + v - 26) as u8
    } else if v < 62 {
        (0x30 + v - 52) as u8
    } else if v == 62 {
        0x2Bu8
    } else {
        0x2Fu8
    }
}

/// The value of byte `b` in the base64 alphabet, or `0x40`.
pub open spec fn spec_b64_val(b: u8) -> u8 {
    if 0x41 <= b <= 0x5A {
        (b - 0x41) as u8
    } else if 0x61 <= b <= 0x7A {
        (b - 0x61 + 26) as u8
    } else if 0x30 <= b <= 0x39 {
        (b - 0x30 + 52) as u8
    } else if b == 0x2B {
        62u8
    } else if b == 0x2F {
        63u8
    } else {
        0x40u8
    }
}

pub fn b64_byte(v: u8) -> (r: u8)
    requires
        v < 64,
    ensures
        r == spec_b64_byte(v),
{
    if v < 26 {
        0x41 + v
    } else if v < 52 {
        0x61 + v - 26
    } else if v < 62 {
        0x30 + v - 52
    } else if v == 62 {
        0x2B
    } else {
        0x2F
    }
}

pub fn b64_val(b: u8) -> (r: u8)
    ensures
        r == spec_b64_val(b),
{
    if 0x41 <= b && b <= 0x5A {
        b - 0x41
    } else if 0x61 <= b && b <= 0x7A {
        b - 0x61 + 26
    } else if 0x30 <= b && b <= 0x39 {
        b - 0x30 + 52
    } else if b == 0x2B {
        62
    } else if b == 0x2F {
        63
    } else {
        0x40
    }
}

/// The base64 alphabet encodes and decodes inversely.
pub proof fn lemma_b64_codec()
    ensures
        forall|v: u8| v < 64 ==> #[trigger] spec_b64_byte(v) < 128,
        forall|v: u8| v < 64 ==> #[trigger] spec_b64_val(spec_b64_byte(v)) == v,
        forall|b: u8| spec_b64_val(b) < 64 ==> #[trigger] spec_b64_byte(spec_b64_val(b)) == b,
{
}

// ---- 15-character alphabet: A-Za-z0-9.! ----

/// The symbol of value `v` in the 15-character format's alphabet.
pub open spec fn spec_sc15_byte(v: u8) -> u8 {
    if v < 26 {
        (0x41 + v) as u8
    } else if v < 52 {
        (0x61 + v - 26) as u8
    } else if v < 62 {
        (0x30 + v - 52) as u8
    } else if v == 62 {
        0x2Eu8
    } else {
        0x21u8
    }
}

/// The value of byte `b` in the 15-character format's alphabet, or
/// `0x40`.
pub open spec fn spec_sc15_val(b: u8) -> u8 {
    if 0x41 <= b <= 0x5A {
        (b - 0x41) as u8
    } else if 0x61 <= b <= 0x7A {
        (b - 0x61 + 26) as u8
    } else if 0x30 <= b <= 0x39 {
        (b - 0x30 + 52) as u8
    } else if b == 0x2E {
        62u8
    } else if b == 0x21 {
        63u8
    } else {
        0x40u8
    }
}

pub fn sc15_byte(v: u8) -> (r: u8)
    requires
        v < 64,
    ensures
        r == spec_sc15_byte(v),
{
    if v < 26 {
        0x41 + v
    } else if v < 52 {
        0x61 + v - 26
    } else if v < 62 {
        0x30 + v - 52
    } else if v == 62 {
        0x2E
    } else {
        0x21
    }
}

pub fn sc15_val(b: u8) -> (r: u8)
    ensures
        r == spec_sc15_val(b),
{
    if 0x41 <= b && b <= 0x5A {
        b - 0x41
    } else if 0x61 <= b && b <= 0x7A {
        b - 0x61 + 26
    } else if 0x30 <= b && b <= 0x39 {
        b - 0x30 + 52
    } else if b == 0x2E {
        62
    } else if b == 0x21 {
        63
    } else {
        0x40
    }
}

/// The 15-character alphabet encodes and decodes inversely.
pub proof fn lemma_sc15_codec()
    ensures
        forall|v: u8| v < 64 ==> #[trigger] spec_sc15_byte(v) < 128,
        forall|v: u8| v < 64 ==> #[trigger] spec_sc15_val(spec_sc15_byte(v)) == v,
        forall|b: u8| spec_sc15_val(b) < 64 ==> #[trigger] spec_sc15_byte(spec_sc15_val(b)) == b,
{
}

// ---- half-width katakana alphabet, UTF-8 characters ----

/// The character of value `v` in the katakana alphabet.
pub open spec fn spec_kana_char(v: u8) -> char {
    if v < 0x15 {
        (0xFF6B + v as u32) as char
    } else if v < 0x34 {
        (0xFF80 + v as u32 - 0x15) as char
    } else if v < 0x3E {
        (0xFF61 + v as u32 - 0x34) as char
    } else if v == 0x3E {
        '\u{FF9F}'
    } else {
        '!'
    }
}

/// The value of character `c` in the katakana alphabet, or `0x40`.
pub open spec fn spec_kana_val(c: char) -> u8 {
    if 0xFF61 <= c as u32 <= 0xFF6A {
        (c as u32 - 0xFF61 + 0x34) as u8
    } else if 0xFF6B <= c as u32 <= 0xFF7F {
        (c as u32 - 0xFF6B) as u8
    } else if 0xFF80 <= c as u32 <= 0xFF9E {
        (c as u32 - 0xFF80 + 0x15) as u8
    } else if c as u32 == 0xFF9F {
        0x3Eu8
    } else if c == '!' {
        0x3Fu8
    } else {
        0x40u8
    }
}

pub fn kana_char(v: u8) -> (r: char)
    requires
        v < 64,
    ensures
        r == spec_kana_char(v),
{
    match v {
        0 => '\u{FF6B}',
        1 => '\u{FF6C}',
        2 => '\u{FF6D}',
        3 => '\u{FF6E}',
        4 => '\u{FF6F}',
        5 => '\u{FF70}',
        6 => '\u{FF71}',
        7 => '\u{FF72}',
        8 => '\u{FF73}',
        9 => '\u{FF74}',
        10 => '\u{FF75}',
        11 => '\u{FF76}',
        12 => '\u{FF77}',
        13 => '\u{FF78}',
        14 => '\u{FF79}',
        15 => '\u{FF7A}',
        16 => '\u{FF7B}',
        17 => '\u{FF7C}',
        18 => '\u{FF7D}',
        19 => '\u{FF7E}',
        20 => '\u{FF7F}',
        21 => '\u{FF80}',
        22 => '\u{FF81}',
        23 => '\u{FF82}',
        24 => '\u{FF83}',
        25 => '\u{FF84}',
        26 => '\u{FF85}',
        27 => '\u{FF86}',
        28 => '\u{FF87}',
        29 => '\u{FF88}',
        30 => '\u{FF89}',
        31 => '\u{FF8A}',
        32 => '\u{FF8B}',
        33 => '\u{FF8C}',
        34 => '\u{FF8D}',
        35 => '\u{FF8E}',
        36 => '\u{FF8F}',
        37 => '\u{FF90}',
        38 => '\u{FF91}',
        39 => '\u{FF92}',
        40 => '\u{FF93}',
        41 => '\u{FF94}',
        42 => '\u{FF95}',
        43 => '\u{FF96}',
        44 => '\u{FF97}',
        45 => '\u{FF98}',
        46 => '\u{FF99}',
        47 => '\u{FF9A}',
        48 => '\u{FF9B}',
        49 => '\u{FF9C}',
        50 => '\u{FF9D}',
        51 => '\u{FF9E}',
        52 => '\u{FF61}',
        53 => '\u{FF62}',
        54 => '\u{FF63}',
        55 => '\u{FF64}',
        56 => '\u{FF65}',
        57 => '\u{FF66}',
        58 => '\u{FF67}',
        59 => '\u{FF68}',
        60 => '\u{FF69}',
        61 => '\u{FF6A}',
        62 => '\u{FF9F}',
        63 => '\u{21}',
        _ => ' ',
    }
}

pub fn kana_val(c: char) -> (r: u8)
    ensures
        r == spec_kana_val(c),
{
    let u = c as u32;
    if 0xFF61 <= u && u <= 0xFF6A {
        (u - 0xFF61 + 0x34) as u8
    } else if 0xFF6B <= u && u <= 0xFF7F {
        (u - 0xFF6B) as u8
    } else if 0xFF80 <= u && u <= 0xFF9E {
        (u - 0xFF80 + 0x15) as u8
    } else if u == 0xFF9F {
        0x3E
    } else if u == 0x21 {
        0x3F
    } else {
        0x40
    }
}

/// The katakana alphabet encodes and decodes inversely.
pub proof fn lemma_kana_codec()
    ensures
        forall|v: u8| v < 64 ==> #[trigger] spec_kana_val(spec_kana_char(v)) == v,
        forall|c: char| spec_kana_val(c) < 64 ==> #[trigger] spec_kana_char(spec_kana_val(c))
            == c,
{
    assert forall|c: char| spec_kana_val(c) < 64 implies #[trigger] spec_kana_char(
        spec_kana_val(c),
    ) == c by {
        vstd::utf8::char_u32_cast(c, c as u32);
    }
}

// ---- half-width katakana alphabet, Shift-JIS bytes ----

/// The Shift-JIS byte of value `v` in the katakana alphabet.
pub open spec fn spec_kana_sjis_byte(v: u8) -> u8 {
    if v < 0x15 {
        (0xAB + v) as u8
    } else if v < 0x34 {
        (0xC0 + v - 0x15) as u8
    } else if v < 0x3E {
        (0xA1 + v - 0x34) as u8
    } else if v == 0x3E {
        0xDFu8
    } else {
        0x21u8
    }
}

/// The value of Shift-JIS byte `b` in the katakana alphabet, or
/// `0x40`.
pub open spec fn spec_kana_sjis_val(b: u8) -> u8 {
    if 0xA1 <= b <= 0xAA {
        (b - 0xA1 + 0x34) as u8
    } else if 0xAB <= b <= 0xBF {
        (b - 0xAB) as u8
    } else if 0xC0 <= b <= 0xDE {
        (b - 0xC0 + 0x15) as u8
    } else if b == 0xDF {
        0x3Eu8
    } else if b == 0x21 {
        0x3Fu8
    } else {
        0x40u8
    }
}

pub fn kana_sjis_byte(v: u8) -> (r: u8)
    requires
        v < 64,
    ensures
        r == spec_kana_sjis_byte(v),
{
    if v < 0x15 {
        0xAB + v
    } else if v < 0x34 {
        0xC0 + v - 0x15
    } else if v < 0x3E {
        0xA1 + v - 0x34
    } else if v == 0x3E {
        0xDF
    } else {
        0x21
    }
}

pub fn kana_sjis_val(b: u8) -> (r: u8)
    ensures
        r == spec_kana_sjis_val(b),
{
    if 0xA1 <= b && b <= 0xAA {
        b - 0xA1 + 0x34
    } else if 0xAB <= b && b <= 0xBF {
        b - 0xAB
    } else if 0xC0 <= b && b <= 0xDE {
        b - 0xC0 + 0x15
    } else if b == 0xDF {
        0x3E
    } else if b == 0x21 {
        0x3F
    } else {
        0x40
    }
}

/// The Shift-JIS katakana alphabet encodes and decodes inversely.
pub proof fn lemma_kana_sjis_codec()
    ensures
        forall|v: u8| v < 64 ==> #[trigger] spec_kana_sjis_val(spec_kana_sjis_byte(v)) == v,
        forall|b: u8| spec_kana_sjis_val(b) < 64 ==> #[trigger] spec_kana_sjis_byte(
            spec_kana_sjis_val(b),
        ) == b,
{
}

} // verus!
