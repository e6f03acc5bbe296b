//! Byte-packing helpers and the salt-character tables shared by the
//! DES-based tripcode schemes.

use vstd::prelude::*;

verus! {

/// Big-endian packing of the first `n` bytes of `s` into a 64-bit word,
/// byte `i` landing at byte position `i` from the most significant end.
pub open spec fn spec_pack_prefix(s: Seq<u8>, n: int) -> u64
    decreases n,
{
    if n <= 0 {
        0u64
    } else {
        spec_pack_prefix(s, n - 1) | ((s[n - 1] as u64) << ((8 * (8 - n)) as u64))
    }
}

/// The first 8 bytes of `s` read as one big-endian 64-bit value;
/// missing bytes count as zero.
pub open spec fn spec_pack_u64_be(s: Seq<u8>) -> u64 {
    spec_pack_prefix(s, if s.len() <= 8 { s.len() as int } else { 8 })
}

/// Reinterprets the byte slice as a 64-bit big-endian value.
/// Any out-of-bounds byte is treated as if it were zero.
pub fn pack_u64_be(bytes: &[u8]) -> (r: u64)
    ensures
        r == spec_pack_u64_be(bytes@),
{
    let n: usize = if bytes.len() < 8 {
        bytes.len()
    } else {
        8
    };
    let mut acc: u64 = 0;
    for i in 0..n
        invariant
            n == if bytes@.len() <= 8 {
                bytes@.len() as int
            } else {
                8
            },
            acc == spec_pack_prefix(bytes@, i as int),
    {
        acc = acc | ((bytes[i] as u64) << ((8 * (7 - i)) as u64));
    }
    acc
}

/// Reinterprets 8 bytes of the slice starting at `off` as a 64-bit
/// big-endian value.
pub fn pack_u64_be_at(bytes: &[u8], off: usize) -> (r: u64)
    requires
        off + 8 <= bytes@.len(),
    ensures
        r == spec_pack_u64_be(bytes@.skip(off as int)),
{
    let n = bytes.len();
    let mut acc: u64 = 0;
    for i in 0..8usize
        invariant
            off + 8 <= n == bytes@.len(),
            acc == spec_pack_prefix(bytes@.skip(off as int), i as int),
    {
        assert(bytes@.skip(off as int)[i as int] == bytes@[off + i]);
        acc = acc | ((bytes[off + i] as u64) << ((8 * (7 - i)) as u64));
    }
    acc
}

/// Packing reads only the bytes below `n`, so sequences that agree
/// there pack alike.
pub proof fn lemma_pack_prefix_agree(a: Seq<u8>, b: Seq<u8>, n: int)
    requires
        0 <= n <= a.len(),
        n <= b.len(),
        forall|i: int| 0 <= i < n ==> a[i] == b[i],
    ensures
        spec_pack_prefix(a, n) == spec_pack_prefix(b, n),
    decreases n,
{
    if n > 0 {
        lemma_pack_prefix_agree(a, b, n - 1);
    }
}

/// A sequence and any of its prefixes of length 8 or more pack to the
/// same word.
pub proof fn lemma_pack_take(e: Seq<u8>, k: int)
    requires
        8 <= k <= e.len(),
    ensures
        spec_pack_u64_be(e.take(k)) == spec_pack_u64_be(e),
{
    lemma_pack_prefix_agree(e.take(k), e, 8);
}

/// The 64-bit DES key derived from a password window: the bytes packed
/// big-endian, shifted left once, with every parity-bit position cleared.
pub open spec fn spec_secret_to_key(s: Seq<u8>) -> u64 {
    (spec_pack_u64_be(s) << 1u64) & 0xFEFE_FEFE_FEFE_FEFEu64
}

/// Converts a password window into a key for the DES cipher.
pub fn secret_to_key(password: &[u8]) -> (r: u64)
    ensures
        r == spec_secret_to_key(password@),
{
    (pack_u64_be(password) << 1u64) & 0xFEFE_FEFE_FEFE_FEFE
}

/// Whether the three bytes starting at index 1 of `p` form the UTF-8
/// encoding of a half-width katakana code point (U+FF61 through U+FF9F).
pub open spec fn spec_starts_with_katakana(p: Seq<u8>) -> bool {
    p[1] == 0xEF && ((p[2] == 0xBD && 0xA1 <= p[3] <= 0xBF) || (p[2] == 0xBE && 0x80 <= p[3]
        <= 0x9F))
}

/// Returns `true` if the second character (next to the `'$'` sign) of
/// `password` is a half-width katakana in UTF-8.
pub fn sc_password_starts_with_katakana(password: &[u8]) -> (r: bool)
    requires
        password@.len() >= 4,
    ensures
        r == spec_starts_with_katakana(password@),
{
    if password[1] == 0xEF {
        match password[2] {
            0xBD => {
                let b = password[3];
                0xA1 <= b && b <= 0xBF
            },
            0xBE => {
                let b = password[3];
                0x80 <= b && b <= 0x9F
            },
            _ => false,
        }
    } else {
        false
    }
}

/// Value of a hexadecimal digit byte, or the sentinel `0x10` for any
/// byte that is not a hexadecimal digit.
pub open spec fn spec_hex_to_i(c: u8) -> u8 {
    if 0x30 <= c <= 0x39 {
        (c - 0x30) as u8
    } else if 0x41 <= c <= 0x46 {
        (c - 0x41 + 10) as u8
    } else if 0x61 <= c <= 0x66 {
        (c - 0x61 + 10) as u8
    } else {
        0x10u8
    }
}

/// Converts a hexadecimal character into a number.
/// Returns `0x10` when an invalid character is passed.
pub fn hex_to_i(c: u8) -> (r: u8)
    ensures
        r == spec_hex_to_i(c),
{
    if 0x30 <= c && c <= 0x39 {
        c - 0x30
    } else if 0x41 <= c && c <= 0x46 {
        c - 0x41 + 10
    } else if 0x61 <= c && c <= 0x66 {
        c - 0x61 + 10
    } else {
        0x10
    }
}

/// The lenient salt value of a byte: the legacy crypt alphabet
/// `[./0-9A-Za-z]` extended so that every byte folds onto some value in
/// `0..64` instead of being rejected.  The three overlapping linear runs
/// reproduce the historical table byte for byte; do not regularize them.
pub open spec fn spec_salt_lenient(c: u8) -> u32 {
    if 0x2F <= c <= 0x40 {
        (c - 0x2E) as u32
    } else if 0x41 <= c <= 0x60 {
        (c - 0x35) as u32
    } else if 0x61 <= c <= 0x7A {
        (c - 0x3B) as u32
    } else {
        0u32
    }
}

/// The 12-bit salt derived from two salt characters, placed in the bit
/// positions that the cipher reads: the first character's value at bits
/// 26..32 and the second's at bits 18..24.
pub open spec fn spec_decode_salt(salt1: u8, salt2: u8) -> u32 {
    (spec_salt_lenient(salt1) << 26u32) | (spec_salt_lenient(salt2) << 18u32)
}

fn salt_lenient(c: u8) -> (r: u32)
    ensures
        r == spec_salt_lenient(c),
{
    if 0x2F <= c && c <= 0x40 {
        (c - 0x2E) as u32
    } else if 0x41 <= c && c <= 0x60 {
        (c - 0x35) as u32
    } else if 0x61 <= c && c <= 0x7A {
        (c - 0x3B) as u32
    } else {
        0
    }
}

/// Decodes a pair of salt characters in a tripcode password, folding
/// out-of-alphabet bytes onto in-alphabet values.
pub fn decode_salt(salt1: u8, salt2: u8) -> (r: u32)
    ensures
        r == spec_decode_salt(salt1, salt2),
{
    (salt_lenient(salt1) << 26u32) | (salt_lenient(salt2) << 18u32)
}

/// The strict salt value of a byte: its position in the crypt alphabet
/// `[./0-9A-Za-z]`, or the sentinel `0x40` for a byte outside it.
pub open spec fn spec_salt_strict(c: u8) -> u32 {
    if c == 0x2E {
        0u32
    } else if c == 0x2F {
        1u32
    } else if 0x30 <= c <= 0x39 {
        (c - 0x30 + 2) as u32
    } else if 0x41 <= c <= 0x5A {
        (c - 0x41 + 12) as u32
    } else if 0x61 <= c <= 0x7A {
        (c - 0x61 + 38) as u32
    } else {
        0x40u32
    }
}

/// The strict decoding of a salt pair: defined exactly when both bytes
/// lie in the crypt alphabet.
pub open spec fn spec_decode_salt_strict(salt1: u8, salt2: u8) -> Option<u32> {
    if spec_salt_strict(salt1) <= 0x3F && spec_salt_strict(salt2) <= 0x3F {
        Some((spec_salt_strict(salt1) << 26u32) | (spec_salt_strict(salt2) << 18u32))
    } else {
        None
    }
}

fn salt_strict(c: u8) -> (r: u32)
    ensures
        r == spec_salt_strict(c),
{
    if c == 0x2E {
        0
    } else if c == 0x2F {
        1
    } else if 0x30 <= c && c <= 0x39 {
        (c - 0x30 + 2) as u32
    } else if 0x41 <= c && c <= 0x5A {
        (c - 0x41 + 12) as u32
    } else if 0x61 <= c && c <= 0x7A {
        (c - 0x61 + 38) as u32
    } else {
        0x40
    }
}

/// Decodes a pair of salt characters in a password of a raw-secret
/// tripcode.  Returns `None` when an invalid salt character is passed.
pub fn decode_salt_strict(salt1: u8, salt2: u8) -> (r: Option<u32>)
    ensures
        r == spec_decode_salt_strict(salt1, salt2),
{
    let a = salt_strict(salt1);
    let b = salt_strict(salt2);
    if a <= 0x3F && b <= 0x3F {
        Some((a << 26u32) | (b << 18u32))
    } else {
        None
    }
}

} // verus!
