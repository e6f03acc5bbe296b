//! The SHA-1 based derivations: the 12-character scheme reads the
//! first 72 bits of the digest of the escaped password, and the
//! 15-character and katakana schemes read the 90 bits starting at bit
//! offset 19.

use vstd::prelude::*;

use crate::hash::Mona12Hash;
use crate::hash::Sc15Hash;
use crate::util::pack_u64_be;
use crate::util::pack_u64_be_at;
use crate::util::spec_pack_u64_be;

verus! {

/// The SHA-1 digest of a byte sequence.
pub uninterp spec fn sha1_of(m: Seq<u8>) -> Seq<u8>;

/// Relies on crypto::sha1::Sha1 of the rust-crypto crate: computes
/// the 20-byte SHA-1 digest of the input, a function of the input
/// bytes alone.
#[verifier::external_body]
fn sha1_digest(m: &[u8]) -> (r: Vec<u8>)
    ensures
        r@ == sha1_of(m@),
        r@.len() == 20,
{
    let mut sha1 = crypto::sha1::Sha1::new();
    crypto::digest::Digest::input(&mut sha1, m);
    let mut out = vec![0u8; 20];
    crypto::digest::Digest::result(&mut sha1, &mut out);
    out
}

/// The 72-bit hash sliced from a 20-byte digest: the first 8 bytes as
/// one big-endian word, then the 9th byte.
pub open spec fn spec_mona12_of_digest(d: Seq<u8>) -> Mona12Hash {
    Mona12Hash(spec_pack_u64_be(d), d[8])
}

/// The 90-bit hash sliced from a 20-byte digest: bits 19..79 in the
/// first word and bits 79..109 in the second, read through overlapping
/// big-endian words at byte offsets 2 and 6.
pub open spec fn spec_sc15_of_digest(d: Seq<u8>) -> Sc15Hash {
    Sc15Hash(
        (spec_pack_u64_be(d.skip(2)) << 2u64) & 0xFFFF_FFFF_FFFF_FFF0u64,
        ((spec_pack_u64_be(d.skip(6)) >> 2u64) & 0xFFFF_FFFCu64) as u32,
    )
}

/// The 12-character hash of the given (pre-escaped) password bytes.
pub fn mona12_digest(m: &[u8]) -> (r: Mona12Hash)
    ensures
        r == spec_mona12_of_digest(sha1_of(m@)),
{
    let d = sha1_digest(m);
    let w = pack_u64_be(d.as_slice());
    Mona12Hash(w, d[8])
}

/// The 15-character hash of the given password bytes.
pub fn sc15_digest(m: &[u8]) -> (r: Sc15Hash)
    ensures
        r == spec_sc15_of_digest(sha1_of(m@)),
        r.wf(),
{
    let d = sha1_digest(m);
    let a = pack_u64_be_at(d.as_slice(), 2);
    let b = pack_u64_be_at(d.as_slice(), 6);
    let w1 = (a << 2u64) & 0xFFFF_FFFF_FFFF_FFF0;
    let w2 = ((b >> 2u64) & 0xFFFF_FFFC) as u32;
    proof {
        assert((a << 2u64) & 0xFFFF_FFFF_FFFF_FFF0u64 & 15u64 == 0u64) by (bit_vector);
        assert((b >> 2u64) & 0xFFFF_FFFCu64 < 0x1_0000_0000u64) by (bit_vector);
        assert(((((b >> 2u64) & 0xFFFF_FFFCu64) as u32) & 3u32) == 0u32) by (bit_vector);
    }
    Sc15Hash(w1, w2)
}

/// A hash sliced from a digest is well formed.
pub proof fn lemma_sc15_of_digest_wf(d: Seq<u8>)
    ensures
        spec_sc15_of_digest(d).wf(),
{
    let a = spec_pack_u64_be(d.skip(2));
    let b = spec_pack_u64_be(d.skip(6));
    assert((a << 2u64) & 0xFFFF_FFFF_FFFF_FFF0u64 & 15u64 == 0u64) by (bit_vector);
    assert((b >> 2u64) & 0xFFFF_FFFCu64 < 0x1_0000_0000u64) by (bit_vector);
    assert(((((b >> 2u64) & 0xFFFF_FFFCu64) as u32) & 3u32) == 0u32) by (bit_vector);
}

} // verus!
