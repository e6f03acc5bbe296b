//! The legacy crypt-style DES one-way function: a zero block encrypted
//! under a password-derived key, with the expansion stage perturbed by a
//! 12-bit salt, iterated 25 times.  Only the low 58 bits of the
//! ciphertext matter to tripcodes; the result is returned with those
//! bits aligned to the top of the word.

use vstd::prelude::*;

verus! {

/// Key schedule bit selection, 64 -> 56 bits.
pub const PC1: [u8; 56] = [
    57, 49, 41, 33, 25, 17, 9, 1, 58, 50, 42, 34, 26, 18, 10, 2,
    59, 51, 43, 35, 27, 19, 11, 3, 60, 52, 44, 36, 63, 55, 47, 39,
    31, 23, 15, 7, 62, 54, 46, 38, 30, 22, 14, 6, 61, 53, 45, 37,
    29, 21, 13, 5, 28, 20, 12, 4,
];

/// Per-round left-rotation amounts of the two 28-bit key halves.
pub const SHIFTS: [u8; 16] = [
    1, 1, 2, 2, 2, 2, 2, 2, 1, 2, 2, 2, 2, 2, 2, 1,
];

/// Round key bit selection, 56 -> 48 bits.
pub const PC2: [u8; 48] = [
    14, 17, 11, 24, 1, 5, 3, 28, 15, 6, 21, 10, 23, 19, 12, 4,
    26, 8, 16, 7, 27, 20, 13, 2, 41, 52, 31, 37, 47, 55, 30, 40,
    51, 45, 33, 48, 44, 49, 39, 56, 34, 53, 46, 42, 50, 36, 29, 32,
];

/// Expansion of the 32-bit half block to 48 bits.
pub const EXPANSION: [u8; 48] = [
    32, 1, 2, 3, 4, 5, 4, 5, 6, 7, 8, 9, 8, 9, 10, 11,
    12, 13, 12, 13, 14, 15, 16, 17, 16, 17, 18, 19, 20, 21, 20, 21,
    22, 23, 24, 25, 24, 25, 26, 27, 28, 29, 28, 29, 30, 31, 32, 1,
];

/// Permutation applied to the substituted 32-bit value.
pub const PBOX: [u8; 32] = [
    16, 7, 20, 21, 29, 12, 28, 17, 1, 15, 23, 26, 5, 18, 31, 10,
    2, 8, 24, 14, 32, 27, 3, 9, 19, 13, 30, 6, 22, 11, 4, 25,
];

/// Final permutation (the inverse of the initial permutation), applied
/// once to the 64-bit block after the last iteration.
pub const FINAL_PERM: [u8; 64] = [
    40, 8, 48, 16, 56, 24, 64, 32, 39, 7, 47, 15, 55, 23, 63, 31,
    38, 6, 46, 14, 54, 22, 62, 30, 37, 5, 45, 13, 53, 21, 61, 29,
    36, 4, 44, 12, 52, 20, 60, 28, 35, 3, 43, 11, 51, 19, 59, 27,
    34, 2, 42, 10, 50, 18, 58, 26, 33, 1, 41, 9, 49, 17, 57, 25,
];

/// The eight S-boxes, each laid out as 64 entries indexed directly by
/// the 6-bit input chunk (the conventional row/column shuffle is folded
/// into the table).
pub const SBOX: [u8; 512] = [
    14, 0, 4, 15, 13, 7, 1, 4, 2, 14, 15, 2, 11, 13, 8, 1,
    3, 10, 10, 6, 6, 12, 12, 11, 5, 9, 9, 5, 0, 3, 7, 8,
    4, 15, 1, 12, 14, 8, 8, 2, 13, 4, 6, 9, 2, 1, 11, 7,
    15, 5, 12, 11, 9, 3, 7, 14, 3, 10, 10, 0, 5, 6, 0, 13,
    15, 3, 1, 13, 8, 4, 14, 7, 6, 15, 11, 2, 3, 8, 4, 14,
    9, 12, 7, 0, 2, 1, 13, 10, 12, 6, 0, 9, 5, 11, 10, 5,
    0, 13, 14, 8, 7, 10, 11, 1, 10, 3, 4, 15, 13, 4, 1, 2,
    5, 11, 8, 6, 12, 7, 6, 12, 9, 0, 3, 5, 2, 14, 15, 9,
    10, 13, 0, 7, 9, 0, 14, 9, 6, 3, 3, 4, 15, 6, 5, 10,
    1, 2, 13, 8, 12, 5, 7, 14, 11, 12, 4, 11, 2, 15, 8, 1,
    13, 1, 6, 10, 4, 13, 9, 0, 8, 6, 15, 9, 3, 8, 0, 7,
    11, 4, 1, 15, 2, 14, 12, 3, 5, 11, 10, 5, 14, 2, 7, 12,
    7, 13, 13, 8, 14, 11, 3, 5, 0, 6, 6, 15, 9, 0, 10, 3,
    1, 4, 2, 7, 8, 2, 5, 12, 11, 1, 12, 10, 4, 14, 15, 9,
    10, 3, 6, 15, 9, 0, 0, 6, 12, 10, 11, 1, 7, 13, 13, 8,
    15, 9, 1, 4, 3, 5, 14, 11, 5, 12, 2, 7, 8, 2, 4, 14,
    2, 14, 12, 11, 4, 2, 1, 12, 7, 4, 10, 7, 11, 13, 6, 1,
    8, 5, 5, 0, 3, 15, 15, 10, 13, 3, 0, 9, 14, 8, 9, 6,
    4, 11, 2, 8, 1, 12, 11, 7, 10, 1, 13, 14, 7, 2, 8, 13,
    15, 6, 9, 15, 12, 0, 5, 9, 6, 10, 3, 4, 0, 5, 14, 3,
    12, 10, 1, 15, 10, 4, 15, 2, 9, 7, 2, 12, 6, 9, 8, 5,
    0, 6, 13, 1, 3, 13, 4, 14, 14, 0, 7, 11, 5, 3, 11, 8,
    9, 4, 14, 3, 15, 2, 5, 12, 2, 9, 8, 5, 12, 15, 3, 10,
    7, 11, 0, 14, 4, 1, 10, 7, 1, 6, 13, 0, 11, 8, 6, 13,
    4, 13, 11, 0, 2, 11, 14, 7, 15, 4, 0, 9, 8, 1, 13, 10,
    3, 14, 12, 3, 9, 5, 7, 12, 5, 2, 10, 15, 6, 8, 1, 6,
    1, 6, 4, 11, 11, 13, 13, 8, 12, 1, 3, 4, 7, 10, 14, 7,
    10, 9, 15, 5, 6, 0, 8, 15, 0, 14, 5, 2, 9, 3, 2, 12,
    13, 1, 2, 15, 8, 13, 4, 8, 6, 10, 15, 3, 11, 7, 1, 4,
    10, 12, 9, 5, 3, 6, 14, 11, 5, 0, 0, 14, 12, 9, 7, 2,
    7, 2, 11, 1, 4, 14, 1, 7, 9, 4, 12, 10, 14, 8, 2, 13,
    0, 15, 6, 12, 10, 9, 13, 0, 15, 3, 3, 5, 5, 6, 8, 11,
];

/// The first `n` table entries of `t` selected, in order, from the
/// `w`-bit value `x` (bit 1 being the most significant of the `w` bits)
/// and packed most-significant first.
pub open spec fn spec_perm_acc(x: u64, w: u64, t: Seq<u8>, n: int) -> u64
    decreases n,
{
    if n <= 0 {
        0u64
    } else {
        (spec_perm_acc(x, w, t, n - 1) << 1u64) | ((x >> ((w - t[n - 1]) as u64)) & 1u64)
    }
}

/// The bit permutation-and-selection described by table `t` applied to
/// the `w`-bit value `x`.
pub open spec fn spec_permute(x: u64, w: u64, t: Seq<u8>) -> u64 {
    spec_perm_acc(x, w, t, t.len() as int)
}

fn permute<const N: usize>(x: u64, w: u64, t: &[u8; N]) -> (r: u64)
    requires
        w <= 64,
        forall|i: int| 0 <= i < N ==> 1 <= #[trigger] t@[i] <= w,
    ensures
        r == spec_permute(x, w, t@),
{
    let mut acc: u64 = 0;
    for j in 0..N
        invariant
            w <= 64,
            forall|i: int| 0 <= i < N ==> 1 <= #[trigger] t@[i] <= w,
            acc == spec_perm_acc(x, w, t@, j as int),
    {
        let e = t[j];
        acc = (acc << 1u64) | ((x >> (w - (e as u64))) & 1);
    }
    acc
}

/// One 28-bit half of the key register rotated left by `n` bits.
pub open spec fn spec_rol28(h: u64, n: u64) -> u64 {
    ((h << n) | (h >> ((28 - n) as u64))) & 0x0FFF_FFFFu64
}

/// The 56-bit key register after the rotations of rounds `0..r`.
pub open spec fn spec_cd_state(key: u64, r: int) -> u64
    decreases r,
{
    if r <= 0 {
        spec_permute(key, 64, PC1@)
    } else {
        let cd = spec_cd_state(key, r - 1);
        let s = SHIFTS@[r - 1] as u64;
        (spec_rol28(cd >> 28u64, s) << 28u64) | spec_rol28(cd & 0x0FFF_FFFFu64, s)
    }
}

/// The 48-bit round key of round `r`.
pub open spec fn spec_subkey(key: u64, r: int) -> u64 {
    spec_permute(spec_cd_state(key, r + 1), 56, PC2@)
}

/// The salt mask over the expanded half block: salt bit `j` set selects
/// the pair of expansion positions `j` and `j + 24` for swapping.
pub open spec fn spec_salt_mask_acc(salt12: u64, n: int) -> u64
    decreases n,
{
    if n <= 0 {
        0u64
    } else {
        spec_salt_mask_acc(salt12, n - 1) | (((salt12 >> ((n - 1) as u64)) & 1u64) << ((24 - n)
            as u64))
    }
}

/// The 12-bit salt extracted from its carrier word: the first salt
/// character's value forms the low 6 bits, the second's the high 6.
pub open spec fn spec_salt12(salt: u32) -> u64 {
    (((salt >> 26u32) & 0x3Fu32) | (((salt >> 18u32) & 0x3Fu32) << 6u32)) as u64
}

pub open spec fn spec_salt_mask(salt: u32) -> u64 {
    spec_salt_mask_acc(spec_salt12(salt), 12)
}

/// The substitution stage: each 6-bit chunk of the 48-bit value `e`
/// replaced through its S-box, packed to 32 bits.
pub open spec fn spec_sbox_acc(e: u64, n: int) -> u64
    decreases n,
{
    if n <= 0 {
        0u64
    } else {
        (spec_sbox_acc(e, n - 1) << 4u64) | (SBOX@[(n - 1) * 64 + ((e >> ((48 - 6 * n) as u64))
            & 63u64)] as u64)
    }
}

/// The DES round function with salt perturbation: the half block is
/// expanded, bits selected by the salt mask are exchanged between the
/// two 24-bit halves, the round key is mixed in, and the result is
/// substituted and permuted.
pub open spec fn spec_round_fn(r32: u64, k: u64, m: u64) -> u64 {
    let e0 = spec_permute(r32, 32, EXPANSION@);
    let t = ((e0 >> 24u64) ^ e0) & m;
    let e = (e0 ^ (t | (t << 24u64))) ^ k;
    spec_permute(spec_sbox_acc(e, 8), 32, PBOX@)
}

/// The block state after rounds `0..n` of one 16-round pass, starting
/// from halves `(l, r)`.
pub open spec fn spec_rounds(l: u64, r: u64, key: u64, m: u64, n: int) -> (u64, u64)
    decreases n,
{
    if n <= 0 {
        (l, r)
    } else {
        let (pl, pr) = spec_rounds(l, r, key, m, n - 1);
        (pr, pl ^ spec_round_fn(pr, spec_subkey(key, n - 1), m))
    }
}

/// The block state after `n` full 16-round passes over the zero block,
/// halves exchanged after each pass.
pub open spec fn spec_iterations(key: u64, m: u64, n: int) -> (u64, u64)
    decreases n,
{
    if n <= 0 {
        (0u64, 0u64)
    } else {
        let (l, r) = spec_iterations(key, m, n - 1);
        let (l2, r2) = spec_rounds(l, r, key, m, 16);
        (r2, l2)
    }
}

/// The tripcode hash of the zero block encrypted under `key` and
/// `salt`: the final permutation of the ciphertext with its top 6 bits
/// discarded, leaving the significant 58 bits aligned to the top of the
/// word and the low 6 bits zero.
pub open spec fn spec_zero_cipher_58(key: u64, salt: u32) -> u64 {
    let m = spec_salt_mask(salt);
    let (l, r) = spec_iterations(key, m, 25);
    spec_permute((l << 32u64) | r, 64, FINAL_PERM@) << 6u64
}

/// The padding bits of the cipher's result are zero.
pub proof fn lemma_zero_cipher_58_wf(key: u64, salt: u32)
    ensures
        spec_zero_cipher_58(key, salt) & 0x3Fu64 == 0,
{
    let m = spec_salt_mask(salt);
    let (l, r) = spec_iterations(key, m, 25);
    let x = spec_permute((l << 32u64) | r, 64, FINAL_PERM@);
    assert((x << 6u64) & 0x3Fu64 == 0u64) by (bit_vector);
}

fn salt_mask(salt: u32) -> (r: u64)
    ensures
        r == spec_salt_mask(salt),
{
    let salt12: u64 = (((salt >> 26u32) & 0x3F) | (((salt >> 18u32) & 0x3F) << 6u32)) as u64;
    let mut m: u64 = 0;
    for j in 0..12usize
        invariant
            salt12 == spec_salt12(salt),
            m == spec_salt_mask_acc(salt12, j as int),
    {
        m = m | (((salt12 >> (j as u64)) & 1) << ((23 - j) as u64));
    }
    m
}

#[verifier::rlimit(100)]
fn round_fn(r32: u64, k: u64, m: u64) -> (r: u64)
    ensures
        r == spec_round_fn(r32, k, m),
{
    let e0 = permute(r32, 32, &EXPANSION);
    let t = ((e0 >> 24u64) ^ e0) & m;
    let e = (e0 ^ (t | (t << 24u64))) ^ k;
    let mut acc: u64 = 0;
    for i in 0..8usize
        invariant
            acc == spec_sbox_acc(e, i as int),
    {
        let sh: u64 = (42 - 6 * i) as u64;
        let chunk64: u64 = (e >> sh) & 63;
        assert((e >> sh) & 63u64 < 64u64) by (bit_vector);
        let chunk: usize = chunk64 as usize;
        acc = (acc << 4u64) | (SBOX[i * 64 + chunk] as u64);
    }
    assert(acc == spec_sbox_acc(e, 8));
    permute(acc, 32, &PBOX)
}

/// Encrypts an all-zero 64-bit block under the given key and salt with
/// the 25-fold salted DES of the legacy crypt one-way function, and
/// returns the top-aligned 58-bit tripcode hash of the ciphertext.
#[verifier::rlimit(100)]
pub fn zero_cipher_58(key: u64, salt: u32) -> (r: u64)
    ensures
        r == spec_zero_cipher_58(key, salt),
        r & 0x3Fu64 == 0,
{
    let m = salt_mask(salt);

    // Key schedule.
    let mut subkeys: Vec<u64> = Vec::new();
    let mut cd = permute(key, 64, &PC1);
    for rnd in 0..16usize
        invariant
            cd == spec_cd_state(key, rnd as int),
            subkeys@.len() == rnd,
            forall|i: int| 0 <= i < rnd ==> subkeys@[i] == spec_subkey(key, i),
    {
        let s = SHIFTS[rnd] as u64;
        assert(s == 1 || s == 2);
        let c = cd >> 28u64;
        let d = cd & 0x0FFF_FFFF;
        cd = ((((c << s) | (c >> (28 - s))) & 0x0FFF_FFFF) << 28u64) | (((d << s) | (d >> (28
            - s))) & 0x0FFF_FFFF);
        subkeys.push(permute(cd, 56, &PC2));
    }

    let mut l: u64 = 0;
    let mut r: u64 = 0;
    for it in 0..25usize
        invariant
            subkeys@.len() == 16,
            forall|i: int| 0 <= i < 16 ==> subkeys@[i] == spec_subkey(key, i),
            m == spec_salt_mask(salt),
            (l, r) == spec_iterations(key, m, it as int),
    {
        let ghost l0 = l;
        let ghost r0 = r;
        for rnd in 0..16usize
            invariant
                subkeys@.len() == 16,
                forall|i: int| 0 <= i < 16 ==> subkeys@[i] == spec_subkey(key, i),
                m == spec_salt_mask(salt),
                (l, r) == spec_rounds(l0, r0, key, m, rnd as int),
        {
            let nr = l ^ round_fn(r, subkeys[rnd], m);
            l = r;
            r = nr;
        }
        let t = l;
        l = r;
        r = t;
    }

    let out = permute((l << 32u64) | r, 64, &FINAL_PERM);
    assert((out << 6u64) & 0x3Fu64 == 0) by (bit_vector);
    out << 6u64
}

} // verus!
