//! Hash values that tripcodes encode, and their exact text codecs.
//!
//! Each hash type is a fixed-width bit pattern whose significant bits
//! sit at the top of its words; encoding slices consecutive 6-bit
//! groups, most significant first, through an alphabet of the codec
//! module, and decoding is the exact inverse.

use vstd::prelude::*;

use crate::codec::digit30;
use crate::codec::digit58;
use crate::codec::b64_byte;
use crate::codec::b64_val;
use crate::codec::crypt_byte;
use crate::codec::crypt_last_val;
use crate::codec::crypt_val;
use crate::codec::kana_char;
use crate::codec::kana_sjis_byte;
use crate::codec::kana_sjis_val;
use crate::codec::kana_val;
use crate::codec::sc15_byte;
use crate::codec::sc15_val;
use crate::codec::lemma_b64_codec;
use crate::codec::lemma_digit30_lt;
use crate::codec::lemma_digit58_lt;
use crate::codec::lemma_crypt_codec;
use crate::codec::lemma_kana_codec;
use crate::codec::lemma_kana_sjis_codec;
use crate::codec::lemma_sc15_codec;
use crate::codec::spec_b64_byte;
use crate::codec::spec_b64_val;
use crate::codec::spec_crypt_byte;
use crate::codec::spec_crypt_last_val;
use crate::codec::spec_crypt_val;
use crate::codec::spec_digit30;
use crate::codec::spec_digit58;
use crate::codec::spec_kana_char;
use crate::codec::spec_kana_sjis_byte;
use crate::codec::spec_kana_sjis_val;
use crate::codec::spec_kana_val;
use crate::codec::spec_sc15_byte;
use crate::codec::spec_sc15_val;
use vstd::string::StrSliceExecFns;

verus! {

broadcast use vstd::string::group_string_axioms;

/// An error returned by a destination stream.
#[verifier::external_type_specification]
#[verifier::external_body]
pub struct ExIoError(std::io::Error);

/// Relies on std::io::Write::write_all: writes the whole byte slice to
/// the destination or reports the first error.  Nothing is assumed of
/// the destination, so no outcome is promised.
#[verifier::external_body]
fn write_all_bytes<W: std::io::Write>(dst: &mut W, bytes: &[u8]) -> std::io::Result<()> {
    dst.write_all(bytes)
}

/// Relies on String::push: appends exactly the given character.
#[verifier::external_body]
fn push_char(dst: &mut String, c: char)
    ensures
        final(dst)@ == old(dst)@.push(c),
{
    dst.push(c);
}

/// Relies on String::with_capacity: returns an empty string.
#[verifier::external_body]
fn string_with_capacity(n: usize) -> (r: String)
    ensures
        r@ == Seq::<char>::empty(),
{
    String::with_capacity(n)
}

/// 58-bit hash value that represents a 10-character tripcode, i.e. a
/// 4chan tripcode or a 2channel 10-character tripcode.  The significant
/// bits are the top 58 of the word; the low 6 bits are zero.
#[derive(Copy, Clone, Debug, PartialEq, Eq, PartialOrd, Ord, Hash, Structural)]
pub struct FourchanHash(pub u64);

pub use crate::hash::FourchanHash as Mona10Hash;

/// 72-bit hash value that represents a 2channel 12-character tripcode.
#[derive(Copy, Clone, Debug, PartialEq, Eq, PartialOrd, Ord, Hash, Structural)]
pub struct Mona12Hash(pub u64, pub u8);

/// 90-bit hash value that represents a 2ch.sc 15-character tripcode:
/// 60 significant bits at the top of the first word (low 4 bits zero)
/// and 30 at the top of the second (low 2 bits zero).
#[derive(Copy, Clone, Debug, PartialEq, Eq, PartialOrd, Ord, Hash, Structural)]
pub struct Sc15Hash(pub u64, pub u32);

/// 90-bit hash value that represents a 2ch.sc katakana tripcode: the
/// same bit pattern as `Sc15Hash`, rendered through the katakana
/// alphabet instead.
#[derive(Copy, Clone, Debug, PartialEq, Eq, PartialOrd, Ord, Hash, Structural)]
pub struct ScKatakanaHash(pub Sc15Hash);

/// Hash value that represents a 2channel tripcode.
#[derive(Copy, Clone, Debug, PartialEq, Eq, PartialOrd, Ord, Hash, Structural)]
pub enum MonaHash {
    /// Hash value for a 10-character tripcode.
    Ten(Mona10Hash),
    /// Hash value for a 12-character tripcode.
    Twelve(Mona12Hash),
    /// Tripcode for an undefined password format.
    Error,
}

/// Hash value that represents a 2ch.sc tripcode.
#[derive(Copy, Clone, Debug, PartialEq, Eq, PartialOrd, Ord, Hash, Structural)]
pub enum ScHash {
    /// Hash value for a 10-character tripcode.
    Ten(Mona10Hash),
    /// Hash value for a 12-character tripcode.
    Twelve(Mona12Hash),
    /// Hash value for a 15-character tripcode.
    Fifteen(Sc15Hash),
    /// Hash value for a katakana tripcode.
    Katakana(ScKatakanaHash),
    /// Tripcode for an undefined password format.
    Error,
}

/// Trait for hash values that represent tripcodes.
pub trait TripcodeHash: Sized {
    /// The text that `self` encodes to.
    spec fn spec_encode(self) -> Seq<char>;

    /// The hash value that the text decodes to, if the text is a valid
    /// tripcode of this scheme.
    spec fn spec_decode(t: Seq<char>) -> Option<Self>;

    /// The Shift-JIS bytes that `self` encodes to.
    spec fn spec_encode_sjis(self) -> Seq<u8>;

    /// The hash value that the Shift-JIS bytes decode to, if valid.
    spec fn spec_decode_sjis(t: Seq<u8>) -> Option<Self>;

    /// Decodes a tripcode into a hash value.
    ///
    /// Returns `None` when passed an invalid tripcode.
    fn decode(tripcode: &str) -> (r: Option<Self>)
        ensures
            r == Self::spec_decode(tripcode@),
    ;

    /// Returns the maximum length of a resulting tripcode, in bytes.
    fn max_len() -> usize;

    /// Returns the maximum length of a resulting tripcode when encoded
    /// in Shift-JIS, in bytes.
    fn max_len_sjis() -> usize;

    /// Encodes `self` into a tripcode and appends it to a `String`.
    fn append(self, dst: &mut String)
        ensures
            final(dst)@ == old(dst)@ + self.spec_encode(),
    ;

    /// Encodes `self` into a tripcode and writes it to a `Write`.
    fn write<W: std::io::Write>(self, dst: &mut W) -> std::io::Result<()>;

    /// Decodes a Shift-JIS-encoded tripcode.
    fn decode_from_sjis(tripcode: &[u8]) -> (r: Option<Self>)
        ensures
            r == Self::spec_decode_sjis(tripcode@),
    ;

    /// Encodes `self` into a Shift-JIS-encoded tripcode and appends it
    /// to a `Vec<u8>`.
    fn append_sjis(self, dst: &mut Vec<u8>)
        ensures
            final(dst)@ == old(dst)@ + self.spec_encode_sjis(),
    ;

    /// Encodes `self` into a Shift-JIS-encoded tripcode and writes it
    /// to a `Write`.
    fn write_sjis<W: std::io::Write>(self, dst: &mut W) -> std::io::Result<()>;

    /// Encodes `self` into a tripcode.
    fn encode(self) -> (r: String)
        ensures
            r@ == self.spec_encode(),
    {
        let mut ret = string_with_capacity(Self::max_len());
        self.append(&mut ret);
        ret
    }

    /// Encodes `self` into a Shift-JIS-encoded tripcode.
    fn encode_to_sjis(self) -> (r: Vec<u8>)
        ensures
            r@ == self.spec_encode_sjis(),
    {
        let mut ret: Vec<u8> = Vec::with_capacity(Self::max_len_sjis());
        self.append_sjis(&mut ret);
        ret
    }
}

/// Trait for hash values that represent ASCII-encoded tripcodes.
///
/// Users should not use the methods of this trait directly.  Instead,
/// use the methods of the trait `TripcodeHash`, which is automatically
/// implemented for types of this trait.
pub trait AsciiTripcodeHash: Sized {
    /// The ASCII bytes that `self` encodes to.
    spec fn spec_encode_ascii(self) -> Seq<u8>;

    /// The hash value that the ASCII bytes decode to, if valid.
    spec fn spec_decode_ascii(t: Seq<u8>) -> Option<Self>;

    /// Decodes an ASCII-encoded tripcode into a hash value.
    fn decode_from_ascii(tripcode: &[u8]) -> (r: Option<Self>)
        ensures
            r == Self::spec_decode_ascii(tripcode@),
    ;

    /// Returns the maximum length of a resulting tripcode.
    fn max_len() -> usize;

    /// Encodes `self` into an ASCII-encoded tripcode and appends it to
    /// a `Vec<u8>`.
    fn append_ascii(self, dst: &mut Vec<u8>)
        ensures
            final(dst)@ == old(dst)@ + self.spec_encode_ascii(),
    ;

    /// Encodes `self` into an ASCII-encoded tripcode and writes it to
    /// a `Write`.
    fn write_ascii<W: std::io::Write>(self, dst: &mut W) -> std::io::Result<()>;

    /// Encodes `self` into an ASCII-encoded tripcode.
    fn encode_to_ascii(self) -> (r: Vec<u8>)
        ensures
            r@ == self.spec_encode_ascii(),
    {
        let mut ret: Vec<u8> = Vec::with_capacity(Self::max_len());
        self.append_ascii(&mut ret);
        ret
    }
}

impl<T: AsciiTripcodeHash> TripcodeHash for T {
    open spec fn spec_encode(self) -> Seq<char> {
        self.spec_encode_ascii().map_values(|b: u8| b as char)
    }

    open spec fn spec_decode(t: Seq<char>) -> Option<Self> {
        Self::spec_decode_ascii(vstd::utf8::encode_utf8(t))
    }

    open spec fn spec_encode_sjis(self) -> Seq<u8> {
        self.spec_encode_ascii()
    }

    open spec fn spec_decode_sjis(t: Seq<u8>) -> Option<Self> {
        Self::spec_decode_ascii(t)
    }

    fn decode(tripcode: &str) -> (r: Option<Self>) {
        Self::decode_from_ascii(tripcode.as_bytes())
    }

    fn max_len() -> usize {
        <Self as AsciiTripcodeHash>::max_len()
    }

    fn max_len_sjis() -> usize {
        <Self as AsciiTripcodeHash>::max_len()
    }

    fn append(self, dst: &mut String) {
        let bytes = self.encode_to_ascii();
        let n = bytes.len();
        for i in 0..n
            invariant
                n == bytes@.len(),
                bytes@ == self.spec_encode_ascii(),
                dst@ == old(dst)@ + self.spec_encode_ascii().map_values(|b: u8| b as char).take(
                    i as int,
                ),
        {
            push_char(dst, bytes[i] as char);
        }
        assert(dst@ =~= old(dst)@ + self.spec_encode());
    }

    fn write<W: std::io::Write>(self, dst: &mut W) -> std::io::Result<()> {
        let bytes = self.encode_to_ascii();
        write_all_bytes(dst, bytes.as_slice())
    }

    fn decode_from_sjis(tripcode: &[u8]) -> (r: Option<Self>) {
        Self::decode_from_ascii(tripcode)
    }

    fn append_sjis(self, dst: &mut Vec<u8>) {
        self.append_ascii(dst);
    }

    fn write_sjis<W: std::io::Write>(self, dst: &mut W) -> std::io::Result<()> {
        self.write_ascii(dst)
    }
}

impl FourchanHash {
    /// A well-formed 58-bit hash keeps its 6 padding bits zero.
    pub open spec fn wf(self) -> bool {
        self.0 & 63u64 == 0
    }

    /// The ten 6-bit digits of the hash, most significant first; the
    /// last covers the final 4 significant bits and 2 zero padding
    /// bits.
    pub open spec fn spec_digit(self, i: int) -> u8 {
        spec_digit58(self.0, i)
    }

    /// Whether the bytes are a syntactically valid 10-character
    /// tripcode: nine crypt-alphabet symbols and a tenth from the
    /// 16-symbol final alphabet.
    pub open spec fn spec_valid_ascii(t: Seq<u8>) -> bool {
        &&& t.len() == 10
        &&& forall|i: int| 0 <= i < 9 ==> spec_crypt_val(#[trigger] t[i]) < 64
        &&& spec_crypt_last_val(t[9]) < 64
    }

    /// The word assembled from the ten digit values of a valid text.
    pub open spec fn spec_word_of(t: Seq<u8>) -> u64 {
        ((spec_crypt_val(t[0]) as u64) << 58u64) | ((spec_crypt_val(t[1]) as u64) << 52u64) | ((
        spec_crypt_val(t[2]) as u64) << 46u64) | ((spec_crypt_val(t[3]) as u64) << 40u64) | ((
        spec_crypt_val(t[4]) as u64) << 34u64) | ((spec_crypt_val(t[5]) as u64) << 28u64) | ((
        spec_crypt_val(t[6]) as u64) << 22u64) | ((spec_crypt_val(t[7]) as u64) << 16u64) | ((
        spec_crypt_val(t[8]) as u64) << 10u64) | ((spec_crypt_last_val(t[9]) as u64) << 4u64)
    }
}

impl AsciiTripcodeHash for FourchanHash {
    open spec fn spec_encode_ascii(self) -> Seq<u8> {
        Seq::new(10, |i: int| spec_crypt_byte(self.spec_digit(i)))
    }

    open spec fn spec_decode_ascii(t: Seq<u8>) -> Option<Self> {
        if Self::spec_valid_ascii(t) {
            Some(FourchanHash(Self::spec_word_of(t)))
        } else {
            None
        }
    }

    fn decode_from_ascii(tripcode: &[u8]) -> (r: Option<Self>) {
        if tripcode.len() != 10 {
            return None;
        }
        let v0 = crypt_val(tripcode[0]);
        let v1 = crypt_val(tripcode[1]);
        let v2 = crypt_val(tripcode[2]);
        let v3 = crypt_val(tripcode[3]);
        let v4 = crypt_val(tripcode[4]);
        let v5 = crypt_val(tripcode[5]);
        let v6 = crypt_val(tripcode[6]);
        let v7 = crypt_val(tripcode[7]);
        let v8 = crypt_val(tripcode[8]);
        let v9 = crypt_last_val(tripcode[9]);
        if v0 >= 64 || v1 >= 64 || v2 >= 64 || v3 >= 64 || v4 >= 64 || v5 >= 64 || v6 >= 64 || v7
            >= 64 || v8 >= 64 || v9 >= 64 {
            return None;
        }
        Some(
            FourchanHash(
                ((v0 as u64) << 58u64) | ((v1 as u64) << 52u64) | ((v2 as u64) << 46u64) | ((
                v3 as u64) << 40u64) | ((v4 as u64) << 34u64) | ((v5 as u64) << 28u64) | ((
                v6 as u64) << 22u64) | ((v7 as u64) << 16u64) | ((v8 as u64) << 10u64) | ((
                v9 as u64) << 4u64),
            ),
        )
    }

    fn max_len() -> usize {
        10
    }

    fn append_ascii(self, dst: &mut Vec<u8>) {
        dst.push(crypt_byte(digit58(self.0, 0)));
        dst.push(crypt_byte(digit58(self.0, 1)));
        dst.push(crypt_byte(digit58(self.0, 2)));
        dst.push(crypt_byte(digit58(self.0, 3)));
        dst.push(crypt_byte(digit58(self.0, 4)));
        dst.push(crypt_byte(digit58(self.0, 5)));
        dst.push(crypt_byte(digit58(self.0, 6)));
        dst.push(crypt_byte(digit58(self.0, 7)));
        dst.push(crypt_byte(digit58(self.0, 8)));
        dst.push(crypt_byte(digit58(self.0, 9)));
        assert(dst@ =~= old(dst)@ + self.spec_encode_ascii());
    }

    fn write_ascii<W: std::io::Write>(self, dst: &mut W) -> std::io::Result<()> {
        let bytes = self.encode_to_ascii();
        write_all_bytes(dst, bytes.as_slice())
    }
}

/// The ten 6-bit digits of a well-formed 58-bit hash reassemble to the
/// hash itself.
proof fn lemma_word58_reassemble(w: u64)
    by (bit_vector)
    requires
        w & 63u64 == 0,
    ensures
        (((w >> 58u64) & 63u64) << 58u64) | (((w >> 52u64) & 63u64) << 52u64) | (((w >> 46u64)
            & 63u64) << 46u64) | (((w >> 40u64) & 63u64) << 40u64) | (((w >> 34u64) & 63u64)
            << 34u64) | (((w >> 28u64) & 63u64) << 28u64) | (((w >> 22u64) & 63u64) << 22u64) | (((w
            >> 16u64) & 63u64) << 16u64) | (((w >> 10u64) & 63u64) << 10u64) | (((w >> 4u64)
            & 63u64) << 4u64) == w,
        ((w >> 4u64) & 63u64) % 4 == 0,
{
}

/// Ten 6-bit values placed at their digit positions are each read back
/// unchanged, and the padding bits of the assembled word stay zero.
proof fn lemma_word58_extract(
    v0: u64,
    v1: u64,
    v2: u64,
    v3: u64,
    v4: u64,
    v5: u64,
    v6: u64,
    v7: u64,
    v8: u64,
    v9: u64,
    w: u64,
)
    by (bit_vector)
    requires
        v0 < 64 && v1 < 64 && v2 < 64 && v3 < 64 && v4 < 64 && v5 < 64 && v6 < 64 && v7 < 64 && v8
            < 64 && v9 < 64,
        w == (v0 << 58u64) | (v1 << 52u64) | (v2 << 46u64) | (v3 << 40u64) | (v4 << 34u64) | (v5
            << 28u64) | (v6 << 22u64) | (v7 << 16u64) | (v8 << 10u64) | (v9 << 4u64),
    ensures
        (w >> 58u64) & 63u64 == v0,
        (w >> 52u64) & 63u64 == v1,
        (w >> 46u64) & 63u64 == v2,
        (w >> 40u64) & 63u64 == v3,
        (w >> 34u64) & 63u64 == v4,
        (w >> 28u64) & 63u64 == v5,
        (w >> 22u64) & 63u64 == v6,
        (w >> 16u64) & 63u64 == v7,
        (w >> 10u64) & 63u64 == v8,
        (w >> 4u64) & 63u64 == v9,
        v9 % 4 == 0 ==> w & 63u64 == 0,
        w & 15u64 == 0,
{
}

/// Decoding is a left inverse of encoding: every well-formed
/// 10-character hash value comes back unchanged from its own text.
pub proof fn lemma_fourchan_round_trip(h: FourchanHash)
    requires
        h.wf(),
    ensures
        FourchanHash::spec_decode_ascii(h.spec_encode_ascii()) == Some(h),
{
    let t = h.spec_encode_ascii();
    lemma_crypt_codec();
    lemma_word58_reassemble(h.0);
    assert forall|i: int| 0 <= i < 10 implies spec_digit58(h.0, i) < 64 by {
        lemma_digit58_lt(h.0, i);
    }
    lemma_digit58_lt(h.0, 0);
    lemma_digit58_lt(h.0, 1);
    lemma_digit58_lt(h.0, 2);
    lemma_digit58_lt(h.0, 3);
    lemma_digit58_lt(h.0, 4);
    lemma_digit58_lt(h.0, 5);
    lemma_digit58_lt(h.0, 6);
    lemma_digit58_lt(h.0, 7);
    lemma_digit58_lt(h.0, 8);
    lemma_digit58_lt(h.0, 9);
    assert(h.spec_digit(9) % 4 == 0);
    assert(spec_crypt_val(t[9]) == h.spec_digit(9));
    assert(spec_crypt_last_val(t[9]) == h.spec_digit(9));
    assert(FourchanHash::spec_valid_ascii(t));
    assert(FourchanHash::spec_word_of(t) == h.0);
}

/// Encoding is a left inverse of decoding: every syntactically valid
/// 10-character text re-encodes to itself, and the decoded hash is
/// well formed.
pub proof fn lemma_fourchan_re_encode(t: Seq<u8>)
    requires
        FourchanHash::spec_decode_ascii(t) is Some,
    ensures
        FourchanHash::spec_decode_ascii(t)->Some_0.wf(),
        FourchanHash::spec_decode_ascii(t)->Some_0.spec_encode_ascii() == t,
{
    let h = FourchanHash::spec_decode_ascii(t)->Some_0;
    lemma_crypt_codec();
    lemma_word58_extract(
        spec_crypt_val(t[0]) as u64,
        spec_crypt_val(t[1]) as u64,
        spec_crypt_val(t[2]) as u64,
        spec_crypt_val(t[3]) as u64,
        spec_crypt_val(t[4]) as u64,
        spec_crypt_val(t[5]) as u64,
        spec_crypt_val(t[6]) as u64,
        spec_crypt_val(t[7]) as u64,
        spec_crypt_val(t[8]) as u64,
        spec_crypt_last_val(t[9]) as u64,
        h.0,
    );
    assert(spec_crypt_val(t[9]) == spec_crypt_last_val(t[9]));
    assert(h.spec_encode_ascii()[0] == t[0]);
    assert(h.spec_encode_ascii()[1] == t[1]);
    assert(h.spec_encode_ascii()[2] == t[2]);
    assert(h.spec_encode_ascii()[3] == t[3]);
    assert(h.spec_encode_ascii()[4] == t[4]);
    assert(h.spec_encode_ascii()[5] == t[5]);
    assert(h.spec_encode_ascii()[6] == t[6]);
    assert(h.spec_encode_ascii()[7] == t[7]);
    assert(h.spec_encode_ascii()[8] == t[8]);
    assert(h.spec_encode_ascii()[9] == t[9]);
    assert forall|i: int| 0 <= i < 10 implies h.spec_encode_ascii()[i] == t[i] by {
        if i == 0 {
        } else if i == 1 {
        } else if i == 2 {
        } else if i == 3 {
        } else if i == 4 {
        } else if i == 5 {
        } else if i == 6 {
        } else if i == 7 {
        } else if i == 8 {
        } else {
        }
    }
    assert(h.spec_encode_ascii() =~= t);
}

impl Mona12Hash {
    /// The twelve 6-bit digits of the 72-bit hash, most significant
    /// first: ten from the word, then two spanning the word's low 4
    /// bits and the trailing byte.
    pub open spec fn spec_digit(self, i: int) -> u8 {
        if i < 10 {
            spec_digit58(self.0, i)
        } else if i == 10 {
            (((self.0 & 15u64) << 2u64) | ((self.1 as u64) >> 6u64)) as u8
        } else {
            self.1 & 63u8
        }
    }

    /// Whether the bytes are a syntactically valid 12-character
    /// tripcode: twelve base64 symbols.
    pub open spec fn spec_valid_ascii(t: Seq<u8>) -> bool {
        &&& t.len() == 12
        &&& forall|i: int| 0 <= i < 12 ==> spec_b64_val(#[trigger] t[i]) < 64
    }

    /// The word assembled from the first eleven digit values of a
    /// valid text.
    pub open spec fn spec_word_of(t: Seq<u8>) -> u64 {
        ((spec_b64_val(t[0]) as u64) << 58u64) | ((spec_b64_val(t[1]) as u64) << 52u64) | ((
        spec_b64_val(t[2]) as u64) << 46u64) | ((spec_b64_val(t[3]) as u64) << 40u64) | ((
        spec_b64_val(t[4]) as u64) << 34u64) | ((spec_b64_val(t[5]) as u64) << 28u64) | ((
        spec_b64_val(t[6]) as u64) << 22u64) | ((spec_b64_val(t[7]) as u64) << 16u64) | ((
        spec_b64_val(t[8]) as u64) << 10u64) | ((spec_b64_val(t[9]) as u64) << 4u64) | ((
        spec_b64_val(t[10]) as u64) >> 2u64)
    }

    /// The byte assembled from the last two digit values of a valid
    /// text.
    pub open spec fn spec_byte_of(t: Seq<u8>) -> u8 {
        ((((spec_b64_val(t[10]) & 3u8) as u64) << 6u64) | (spec_b64_val(t[11]) as u64)) as u8
    }
}

impl AsciiTripcodeHash for Mona12Hash {
    open spec fn spec_encode_ascii(self) -> Seq<u8> {
        Seq::new(12, |i: int| spec_b64_byte(self.spec_digit(i)))
    }

    open spec fn spec_decode_ascii(t: Seq<u8>) -> Option<Self> {
        if Self::spec_valid_ascii(t) {
            Some(Mona12Hash(Self::spec_word_of(t), Self::spec_byte_of(t)))
        } else {
            None
        }
    }

    fn decode_from_ascii(tripcode: &[u8]) -> (r: Option<Self>) {
        if tripcode.len() != 12 {
            return None;
        }
        let v0 = b64_val(tripcode[0]);
        let v1 = b64_val(tripcode[1]);
        let v2 = b64_val(tripcode[2]);
        let v3 = b64_val(tripcode[3]);
        let v4 = b64_val(tripcode[4]);
        let v5 = b64_val(tripcode[5]);
        let v6 = b64_val(tripcode[6]);
        let v7 = b64_val(tripcode[7]);
        let v8 = b64_val(tripcode[8]);
        let v9 = b64_val(tripcode[9]);
        let v10 = b64_val(tripcode[10]);
        let v11 = b64_val(tripcode[11]);
        if v0 >= 64 || v1 >= 64 || v2 >= 64 || v3 >= 64 || v4 >= 64 || v5 >= 64 || v6 >= 64 || v7
            >= 64 || v8 >= 64 || v9 >= 64 || v10 >= 64 || v11 >= 64 {
            return None;
        }
        let w = ((v0 as u64) << 58u64) | ((v1 as u64) << 52u64) | ((v2 as u64) << 46u64) | ((
        v3 as u64) << 40u64) | ((v4 as u64) << 34u64) | ((v5 as u64) << 28u64) | ((v6 as u64)
            << 22u64) | ((v7 as u64) << 16u64) | ((v8 as u64) << 10u64) | ((v9 as u64) << 4u64) | ((
        v10 as u64) >> 2u64);
        let b = ((((v10 & 3) as u64) << 6u64) | (v11 as u64)) as u8;
        Some(Mona12Hash(w, b))
    }

    fn max_len() -> usize {
        12
    }

    fn append_ascii(self, dst: &mut Vec<u8>) {
        dst.push(b64_byte(digit58(self.0, 0)));
        dst.push(b64_byte(digit58(self.0, 1)));
        dst.push(b64_byte(digit58(self.0, 2)));
        dst.push(b64_byte(digit58(self.0, 3)));
        dst.push(b64_byte(digit58(self.0, 4)));
        dst.push(b64_byte(digit58(self.0, 5)));
        dst.push(b64_byte(digit58(self.0, 6)));
        dst.push(b64_byte(digit58(self.0, 7)));
        dst.push(b64_byte(digit58(self.0, 8)));
        dst.push(b64_byte(digit58(self.0, 9)));
        let w = self.0;
        let bb = self.1;
        let d10: u8 = (((w & 15) << 2u64) | ((bb as u64) >> 6u64)) as u8;
        proof {
            assert(((w & 15u64) << 2u64) | ((bb as u64) >> 6u64) < 64u64) by (bit_vector);
        }
        dst.push(b64_byte(d10));
        proof {
            assert(bb & 63u8 < 64u8) by (bit_vector);
        }
        dst.push(b64_byte(bb & 63));
        assert(dst@ =~= old(dst)@ + self.spec_encode_ascii());
    }

    fn write_ascii<W: std::io::Write>(self, dst: &mut W) -> std::io::Result<()> {
        let bytes = self.encode_to_ascii();
        write_all_bytes(dst, bytes.as_slice())
    }
}

/// The twelve 6-bit digits of a 72-bit hash reassemble to the hash
/// itself.
proof fn lemma_word72_reassemble(w: u64, b: u8)
    by (bit_vector)
    ensures
        (((w >> 58u64) & 63u64) << 58u64) | (((w >> 52u64) & 63u64) << 52u64) | (((w >> 46u64)
            & 63u64) << 46u64) | (((w >> 40u64) & 63u64) << 40u64) | (((w >> 34u64) & 63u64)
            << 34u64) | (((w >> 28u64) & 63u64) << 28u64) | (((w >> 22u64) & 63u64) << 22u64) | (((w
            >> 16u64) & 63u64) << 16u64) | (((w >> 10u64) & 63u64) << 10u64) | (((w >> 4u64)
            & 63u64) << 4u64) | ((((w & 15u64) << 2u64) | ((b as u64) >> 6u64)) >> 2u64) == w,
        (((((((w & 15u64) << 2u64) | ((b as u64) >> 6u64)) as u8) & 3u8) as u64) << 6u64) | ((b
            & 63u8) as u64) == b as u64,
        (((w & 15u64) << 2u64) | ((b as u64) >> 6u64)) < 64,
{
}

/// Twelve 6-bit values placed at their digit positions are each read
/// back unchanged.
#[verifier::rlimit(60)]
proof fn lemma_word72_extract(
    v0: u64,
    v1: u64,
    v2: u64,
    v3: u64,
    v4: u64,
    v5: u64,
    v6: u64,
    v7: u64,
    v8: u64,
    v9: u64,
    v10: u64,
    v11: u64,
    w: u64,
    b: u8,
)
    by (bit_vector)
    requires
        v0 < 64 && v1 < 64 && v2 < 64 && v3 < 64 && v4 < 64 && v5 < 64 && v6 < 64 && v7 < 64 && v8
            < 64 && v9 < 64 && v10 < 64 && v11 < 64,
        w == (v0 << 58u64) | (v1 << 52u64) | (v2 << 46u64) | (v3 << 40u64) | (v4 << 34u64) | (v5
            << 28u64) | (v6 << 22u64) | (v7 << 16u64) | (v8 << 10u64) | (v9 << 4u64) | (v10
            >> 2u64),
        b as u64 == ((v10 & 3u64) << 6u64) | v11,
    ensures
        (w >> 58u64) & 63u64 == v0,
        (w >> 52u64) & 63u64 == v1,
        (w >> 46u64) & 63u64 == v2,
        (w >> 40u64) & 63u64 == v3,
        (w >> 34u64) & 63u64 == v4,
        (w >> 28u64) & 63u64 == v5,
        (w >> 22u64) & 63u64 == v6,
        (w >> 16u64) & 63u64 == v7,
        (w >> 10u64) & 63u64 == v8,
        (w >> 4u64) & 63u64 == v9,
        ((w & 15u64) << 2u64) | ((b as u64) >> 6u64) == v10,
        (b & 63u8) as u64 == v11,
{
}

/// Decoding is a left inverse of encoding for 12-character hash
/// values.
pub proof fn lemma_mona12_round_trip(h: Mona12Hash)
    ensures
        Mona12Hash::spec_decode_ascii(h.spec_encode_ascii()) == Some(h),
{
    let t = h.spec_encode_ascii();
    lemma_b64_codec();
    lemma_word72_reassemble(h.0, h.1);
    let w = h.0;
    let bb = h.1;
    assert forall|i: int| 0 <= i < 12 implies h.spec_digit(i) < 64 by {
        if i < 10 {
            lemma_digit58_lt(h.0, i);
        } else if i == 10 {
            assert(((w & 15u64) << 2u64) | ((bb as u64) >> 6u64) < 64u64) by (bit_vector);
        } else {
            assert(bb & 63u8 < 64u8) by (bit_vector);
        }
    }
    lemma_digit58_lt(h.0, 0);
    lemma_digit58_lt(h.0, 1);
    lemma_digit58_lt(h.0, 2);
    lemma_digit58_lt(h.0, 3);
    lemma_digit58_lt(h.0, 4);
    lemma_digit58_lt(h.0, 5);
    lemma_digit58_lt(h.0, 6);
    lemma_digit58_lt(h.0, 7);
    lemma_digit58_lt(h.0, 8);
    lemma_digit58_lt(h.0, 9);
    assert(((w & 15u64) << 2u64) | ((bb as u64) >> 6u64) < 64u64) by (bit_vector);
    assert(Mona12Hash::spec_valid_ascii(t));
    assert(Mona12Hash::spec_word_of(t) == h.0);
    assert(Mona12Hash::spec_byte_of(t) == h.1);
}

/// Encoding is a left inverse of decoding for valid 12-character
/// texts.
pub proof fn lemma_mona12_re_encode(t: Seq<u8>)
    requires
        Mona12Hash::spec_decode_ascii(t) is Some,
    ensures
        Mona12Hash::spec_decode_ascii(t)->Some_0.spec_encode_ascii() == t,
{
    let h = Mona12Hash::spec_decode_ascii(t)->Some_0;
    lemma_b64_codec();
    assert(h.1 as u64 == (((spec_b64_val(t[10]) as u64) & 3u64) << 6u64) | (spec_b64_val(
        t[11],
    ) as u64)) by {
        let v10 = spec_b64_val(t[10]) as u64;
        let v11 = spec_b64_val(t[11]) as u64;
        assert(v11 < 64 ==> (((((v10 & 3u64) as u64) << 6u64) | v11) as u8) as u64 == ((v10 & 3u64)
            << 6u64) | v11) by (bit_vector);
    }
    lemma_word72_extract(
        spec_b64_val(t[0]) as u64,
        spec_b64_val(t[1]) as u64,
        spec_b64_val(t[2]) as u64,
        spec_b64_val(t[3]) as u64,
        spec_b64_val(t[4]) as u64,
        spec_b64_val(t[5]) as u64,
        spec_b64_val(t[6]) as u64,
        spec_b64_val(t[7]) as u64,
        spec_b64_val(t[8]) as u64,
        spec_b64_val(t[9]) as u64,
        spec_b64_val(t[10]) as u64,
        spec_b64_val(t[11]) as u64,
        h.0,
        h.1,
    );
    assert(h.spec_encode_ascii()[0] == t[0]);
    assert(h.spec_encode_ascii()[1] == t[1]);
    assert(h.spec_encode_ascii()[2] == t[2]);
    assert(h.spec_encode_ascii()[3] == t[3]);
    assert(h.spec_encode_ascii()[4] == t[4]);
    assert(h.spec_encode_ascii()[5] == t[5]);
    assert(h.spec_encode_ascii()[6] == t[6]);
    assert(h.spec_encode_ascii()[7] == t[7]);
    assert(h.spec_encode_ascii()[8] == t[8]);
    assert(h.spec_encode_ascii()[9] == t[9]);
    assert(h.spec_encode_ascii()[10] == t[10]);
    assert(h.spec_encode_ascii()[11] == t[11]);
    assert forall|i: int| 0 <= i < 12 implies h.spec_encode_ascii()[i] == t[i] by {
        if i == 0 {
        } else if i == 1 {
        } else if i == 2 {
        } else if i == 3 {
        } else if i == 4 {
        } else if i == 5 {
        } else if i == 6 {
        } else if i == 7 {
        } else if i == 8 {
        } else if i == 9 {
        } else if i == 10 {
        } else {
        }
    }
    assert(h.spec_encode_ascii() =~= t);
}

impl Sc15Hash {
    /// A well-formed 90-bit hash keeps the 4 padding bits of its first
    /// word and the 2 of its second word zero.
    pub open spec fn wf(self) -> bool {
        self.0 & 15u64 == 0 && self.1 & 3u32 == 0
    }

    /// The fifteen 6-bit digits of the hash: ten from the first word,
    /// five from the second.
    pub open spec fn spec_digit(self, i: int) -> u8 {
        if i < 10 {
            spec_digit58(self.0, i)
        } else {
            spec_digit30(self.1, i - 10)
        }
    }

    /// Whether the bytes are a syntactically valid 15-character
    /// tripcode.
    pub open spec fn spec_valid_ascii(t: Seq<u8>) -> bool {
        &&& t.len() == 15
        &&& forall|i: int| 0 <= i < 15 ==> spec_sc15_val(#[trigger] t[i]) < 64
    }

    /// The first word assembled from the first ten digit values.
    pub open spec fn spec_word1_of(t: Seq<u8>) -> u64 {
        ((spec_sc15_val(t[0]) as u64) << 58u64) | ((spec_sc15_val(t[1]) as u64) << 52u64) | ((
        spec_sc15_val(t[2]) as u64) << 46u64) | ((spec_sc15_val(t[3]) as u64) << 40u64) | ((
        spec_sc15_val(t[4]) as u64) << 34u64) | ((spec_sc15_val(t[5]) as u64) << 28u64) | ((
        spec_sc15_val(t[6]) as u64) << 22u64) | ((spec_sc15_val(t[7]) as u64) << 16u64) | ((
        spec_sc15_val(t[8]) as u64) << 10u64) | ((spec_sc15_val(t[9]) as u64) << 4u64)
    }

    /// The second word assembled from the last five digit values.
    pub open spec fn spec_word2_of(t: Seq<u8>) -> u32 {
        ((spec_sc15_val(t[10]) as u32) << 26u32) | ((spec_sc15_val(t[11]) as u32) << 20u32) | ((
        spec_sc15_val(t[12]) as u32) << 14u32) | ((spec_sc15_val(t[13]) as u32) << 8u32) | ((
        spec_sc15_val(t[14]) as u32) << 2u32)
    }
}

impl AsciiTripcodeHash for Sc15Hash {
    open spec fn spec_encode_ascii(self) -> Seq<u8> {
        Seq::new(15, |i: int| spec_sc15_byte(self.spec_digit(i)))
    }

    open spec fn spec_decode_ascii(t: Seq<u8>) -> Option<Self> {
        if Self::spec_valid_ascii(t) {
            Some(Sc15Hash(Self::spec_word1_of(t), Self::spec_word2_of(t)))
        } else {
            None
        }
    }

    fn decode_from_ascii(tripcode: &[u8]) -> (r: Option<Self>) {
        if tripcode.len() != 15 {
            return None;
        }
        let v0 = sc15_val(tripcode[0]);
        let v1 = sc15_val(tripcode[1]);
        let v2 = sc15_val(tripcode[2]);
        let v3 = sc15_val(tripcode[3]);
        let v4 = sc15_val(tripcode[4]);
        let v5 = sc15_val(tripcode[5]);
        let v6 = sc15_val(tripcode[6]);
        let v7 = sc15_val(tripcode[7]);
        let v8 = sc15_val(tripcode[8]);
        let v9 = sc15_val(tripcode[9]);
        let v10 = sc15_val(tripcode[10]);
        let v11 = sc15_val(tripcode[11]);
        let v12 = sc15_val(tripcode[12]);
        let v13 = sc15_val(tripcode[13]);
        let v14 = sc15_val(tripcode[14]);
        if v0 >= 64 || v1 >= 64 || v2 >= 64 || v3 >= 64 || v4 >= 64 || v5 >= 64 || v6 >= 64 || v7
            >= 64 || v8 >= 64 || v9 >= 64 || v10 >= 64 || v11 >= 64 || v12 >= 64 || v13 >= 64
            || v14 >= 64 {
            return None;
        }
        let w1 = ((v0 as u64) << 58u64) | ((v1 as u64) << 52u64) | ((v2 as u64) << 46u64) | ((
        v3 as u64) << 40u64) | ((v4 as u64) << 34u64) | ((v5 as u64) << 28u64) | ((v6 as u64)
            << 22u64) | ((v7 as u64) << 16u64) | ((v8 as u64) << 10u64) | ((v9 as u64) << 4u64);
        let w2 = ((v10 as u32) << 26u32) | ((v11 as u32) << 20u32) | ((v12 as u32) << 14u32) | ((
        v13 as u32) << 8u32) | ((v14 as u32) << 2u32);
        Some(Sc15Hash(w1, w2))
    }

    fn max_len() -> usize {
        15
    }

    fn append_ascii(self, dst: &mut Vec<u8>) {
        dst.push(sc15_byte(digit58(self.0, 0)));
        dst.push(sc15_byte(digit58(self.0, 1)));
        dst.push(sc15_byte(digit58(self.0, 2)));
        dst.push(sc15_byte(digit58(self.0, 3)));
        dst.push(sc15_byte(digit58(self.0, 4)));
        dst.push(sc15_byte(digit58(self.0, 5)));
        dst.push(sc15_byte(digit58(self.0, 6)));
        dst.push(sc15_byte(digit58(self.0, 7)));
        dst.push(sc15_byte(digit58(self.0, 8)));
        dst.push(sc15_byte(digit58(self.0, 9)));
        dst.push(sc15_byte(digit30(self.1, 0)));
        dst.push(sc15_byte(digit30(self.1, 1)));
        dst.push(sc15_byte(digit30(self.1, 2)));
        dst.push(sc15_byte(digit30(self.1, 3)));
        dst.push(sc15_byte(digit30(self.1, 4)));
        assert(dst@ =~= old(dst)@ + self.spec_encode_ascii());
    }

    fn write_ascii<W: std::io::Write>(self, dst: &mut W) -> std::io::Result<()> {
        let bytes = self.encode_to_ascii();
        write_all_bytes(dst, bytes.as_slice())
    }
}

/// The ten 6-bit digits of a top-aligned 60-bit word reassemble to the
/// word itself.
proof fn lemma_word60_reassemble(w: u64)
    by (bit_vector)
    requires
        w & 15u64 == 0,
    ensures
        (((w >> 58u64) & 63u64) << 58u64) | (((w >> 52u64) & 63u64) << 52u64) | (((w >> 46u64)
            & 63u64) << 46u64) | (((w >> 40u64) & 63u64) << 40u64) | (((w >> 34u64) & 63u64)
            << 34u64) | (((w >> 28u64) & 63u64) << 28u64) | (((w >> 22u64) & 63u64) << 22u64) | (((w
            >> 16u64) & 63u64) << 16u64) | (((w >> 10u64) & 63u64) << 10u64) | (((w >> 4u64)
            & 63u64) << 4u64) == w,
{
}

/// The five 6-bit digits of a top-aligned 30-bit word reassemble to
/// the word itself.
proof fn lemma_word30_reassemble(w: u32)
    by (bit_vector)
    requires
        w & 3u32 == 0,
    ensures
        (((w >> 26u32) & 63u32) << 26u32) | (((w >> 20u32) & 63u32) << 20u32) | (((w >> 14u32)
            & 63u32) << 14u32) | (((w >> 8u32) & 63u32) << 8u32) | (((w >> 2u32) & 63u32) << 2u32)
            == w,
{
}

/// Five 6-bit values placed at their digit positions of a 30-bit word
/// are each read back unchanged, and the padding bits stay zero.
proof fn lemma_word30_extract(v0: u32, v1: u32, v2: u32, v3: u32, v4: u32, w: u32)
    by (bit_vector)
    requires
        v0 < 64 && v1 < 64 && v2 < 64 && v3 < 64 && v4 < 64,
        w == (v0 << 26u32) | (v1 << 20u32) | (v2 << 14u32) | (v3 << 8u32) | (v4 << 2u32),
    ensures
        (w >> 26u32) & 63u32 == v0,
        (w >> 20u32) & 63u32 == v1,
        (w >> 14u32) & 63u32 == v2,
        (w >> 8u32) & 63u32 == v3,
        (w >> 2u32) & 63u32 == v4,
        w & 3u32 == 0,
{
}

/// Decoding is a left inverse of encoding for well-formed
/// 15-character hash values.
pub proof fn lemma_sc15_round_trip(h: Sc15Hash)
    requires
        h.wf(),
    ensures
        Sc15Hash::spec_decode_ascii(h.spec_encode_ascii()) == Some(h),
{
    let t = h.spec_encode_ascii();
    lemma_sc15_codec();
    lemma_word60_reassemble(h.0);
    lemma_word30_reassemble(h.1);
    assert forall|i: int| 0 <= i < 15 implies h.spec_digit(i) < 64 by {
        if i < 10 {
            lemma_digit58_lt(h.0, i);
        } else {
            lemma_digit30_lt(h.1, i - 10);
        }
    }
    lemma_digit58_lt(h.0, 0);
    lemma_digit58_lt(h.0, 1);
    lemma_digit58_lt(h.0, 2);
    lemma_digit58_lt(h.0, 3);
    lemma_digit58_lt(h.0, 4);
    lemma_digit58_lt(h.0, 5);
    lemma_digit58_lt(h.0, 6);
    lemma_digit58_lt(h.0, 7);
    lemma_digit58_lt(h.0, 8);
    lemma_digit58_lt(h.0, 9);
    lemma_digit30_lt(h.1, 0);
    lemma_digit30_lt(h.1, 1);
    lemma_digit30_lt(h.1, 2);
    lemma_digit30_lt(h.1, 3);
    lemma_digit30_lt(h.1, 4);
    assert(Sc15Hash::spec_valid_ascii(t));
    assert(Sc15Hash::spec_word1_of(t) == h.0);
    assert(Sc15Hash::spec_word2_of(t) == h.1);
}

/// Encoding is a left inverse of decoding for valid 15-character
/// texts, and the decoded hash is well formed.
pub proof fn lemma_sc15_re_encode(t: Seq<u8>)
    requires
        Sc15Hash::spec_decode_ascii(t) is Some,
    ensures
        Sc15Hash::spec_decode_ascii(t)->Some_0.wf(),
        Sc15Hash::spec_decode_ascii(t)->Some_0.spec_encode_ascii() == t,
{
    let h = Sc15Hash::spec_decode_ascii(t)->Some_0;
    lemma_sc15_codec();
    lemma_word58_extract(
        spec_sc15_val(t[0]) as u64,
        spec_sc15_val(t[1]) as u64,
        spec_sc15_val(t[2]) as u64,
        spec_sc15_val(t[3]) as u64,
        spec_sc15_val(t[4]) as u64,
        spec_sc15_val(t[5]) as u64,
        spec_sc15_val(t[6]) as u64,
        spec_sc15_val(t[7]) as u64,
        spec_sc15_val(t[8]) as u64,
        spec_sc15_val(t[9]) as u64,
        h.0,
    );
    lemma_word30_extract(
        spec_sc15_val(t[10]) as u32,
        spec_sc15_val(t[11]) as u32,
        spec_sc15_val(t[12]) as u32,
        spec_sc15_val(t[13]) as u32,
        spec_sc15_val(t[14]) as u32,
        h.1,
    );
    assert(h.spec_encode_ascii()[0] == t[0]);
    assert(h.spec_encode_ascii()[1] == t[1]);
    assert(h.spec_encode_ascii()[2] == t[2]);
    assert(h.spec_encode_ascii()[3] == t[3]);
    assert(h.spec_encode_ascii()[4] == t[4]);
    assert(h.spec_encode_ascii()[5] == t[5]);
    assert(h.spec_encode_ascii()[6] == t[6]);
    assert(h.spec_encode_ascii()[7] == t[7]);
    assert(h.spec_encode_ascii()[8] == t[8]);
    assert(h.spec_encode_ascii()[9] == t[9]);
    assert(h.spec_encode_ascii()[10] == t[10]);
    assert(h.spec_encode_ascii()[11] == t[11]);
    assert(h.spec_encode_ascii()[12] == t[12]);
    assert(h.spec_encode_ascii()[13] == t[13]);
    assert(h.spec_encode_ascii()[14] == t[14]);
    assert forall|i: int| 0 <= i < 15 implies h.spec_encode_ascii()[i] == t[i] by {
        if i == 0 {
        } else if i == 1 {
        } else if i == 2 {
        } else if i == 3 {
        } else if i == 4 {
        } else if i == 5 {
        } else if i == 6 {
        } else if i == 7 {
        } else if i == 8 {
        } else if i == 9 {
        } else if i == 10 {
        } else if i == 11 {
        } else if i == 12 {
        } else if i == 13 {
        } else {
        }
    }
    assert(h.spec_encode_ascii() =~= t);
}

impl ScKatakanaHash {
    /// A well-formed katakana hash is a well-formed 90-bit pattern.
    pub open spec fn wf(self) -> bool {
        self.0.wf()
    }

    /// Whether the characters are a syntactically valid katakana
    /// tripcode: fifteen symbols of the katakana alphabet.
    pub open spec fn spec_valid_chars(t: Seq<char>) -> bool {
        &&& t.len() == 15
        &&& forall|i: int| 0 <= i < 15 ==> spec_kana_val(#[trigger] t[i]) < 64
    }

    /// The first word assembled from the first ten character values.
    pub open spec fn spec_word1_of_chars(t: Seq<char>) -> u64 {
        ((spec_kana_val(t[0]) as u64) << 58u64) | ((spec_kana_val(t[1]) as u64) << 52u64) | ((
        spec_kana_val(t[2]) as u64) << 46u64) | ((spec_kana_val(t[3]) as u64) << 40u64) | ((
        spec_kana_val(t[4]) as u64) << 34u64) | ((spec_kana_val(t[5]) as u64) << 28u64) | ((
        spec_kana_val(t[6]) as u64) << 22u64) | ((spec_kana_val(t[7]) as u64) << 16u64) | ((
        spec_kana_val(t[8]) as u64) << 10u64) | ((spec_kana_val(t[9]) as u64) << 4u64)
    }

    /// The second word assembled from the last five character values.
    pub open spec fn spec_word2_of_chars(t: Seq<char>) -> u32 {
        ((spec_kana_val(t[10]) as u32) << 26u32) | ((spec_kana_val(t[11]) as u32) << 20u32) | ((
        spec_kana_val(t[12]) as u32) << 14u32) | ((spec_kana_val(t[13]) as u32) << 8u32) | ((
        spec_kana_val(t[14]) as u32) << 2u32)
    }

    /// Whether the bytes are a syntactically valid Shift-JIS katakana
    /// tripcode.
    pub open spec fn spec_valid_sjis(t: Seq<u8>) -> bool {
        &&& t.len() == 15
        &&& forall|i: int| 0 <= i < 15 ==> spec_kana_sjis_val(#[trigger] t[i]) < 64
    }

    /// The first word assembled from the first ten Shift-JIS values.
    pub open spec fn spec_word1_of_sjis(t: Seq<u8>) -> u64 {
        ((spec_kana_sjis_val(t[0]) as u64) << 58u64) | ((spec_kana_sjis_val(t[1]) as u64)
            << 52u64) | ((spec_kana_sjis_val(t[2]) as u64) << 46u64) | ((spec_kana_sjis_val(
            t[3],
        ) as u64) << 40u64) | ((spec_kana_sjis_val(t[4]) as u64) << 34u64) | ((spec_kana_sjis_val(
            t[5],
        ) as u64) << 28u64) | ((spec_kana_sjis_val(t[6]) as u64) << 22u64) | ((spec_kana_sjis_val(
            t[7],
        ) as u64) << 16u64) | ((spec_kana_sjis_val(t[8]) as u64) << 10u64) | ((spec_kana_sjis_val(
            t[9],
        ) as u64) << 4u64)
    }

    /// The second word assembled from the last five Shift-JIS values.
    pub open spec fn spec_word2_of_sjis(t: Seq<u8>) -> u32 {
        ((spec_kana_sjis_val(t[10]) as u32) << 26u32) | ((spec_kana_sjis_val(t[11]) as u32)
            << 20u32) | ((spec_kana_sjis_val(t[12]) as u32) << 14u32) | ((spec_kana_sjis_val(
            t[13],
        ) as u32) << 8u32) | ((spec_kana_sjis_val(t[14]) as u32) << 2u32)
    }
}

impl TripcodeHash for ScKatakanaHash {
    open spec fn spec_encode(self) -> Seq<char> {
        Seq::new(15, |i: int| spec_kana_char(self.0.spec_digit(i)))
    }

    open spec fn spec_decode(t: Seq<char>) -> Option<Self> {
        if Self::spec_valid_chars(t) {
            Some(ScKatakanaHash(Sc15Hash(Self::spec_word1_of_chars(t), Self::spec_word2_of_chars(t))))
        } else {
            None
        }
    }

    open spec fn spec_encode_sjis(self) -> Seq<u8> {
        Seq::new(15, |i: int| spec_kana_sjis_byte(self.0.spec_digit(i)))
    }

    open spec fn spec_decode_sjis(t: Seq<u8>) -> Option<Self> {
        if Self::spec_valid_sjis(t) {
            Some(ScKatakanaHash(Sc15Hash(Self::spec_word1_of_sjis(t), Self::spec_word2_of_sjis(t))))
        } else {
            None
        }
    }

    fn decode(tripcode: &str) -> (r: Option<Self>) {
        if tripcode.unicode_len() != 15 {
            return None;
        }
        let v0 = kana_val(tripcode.get_char(0));
        let v1 = kana_val(tripcode.get_char(1));
        let v2 = kana_val(tripcode.get_char(2));
        let v3 = kana_val(tripcode.get_char(3));
        let v4 = kana_val(tripcode.get_char(4));
        let v5 = kana_val(tripcode.get_char(5));
        let v6 = kana_val(tripcode.get_char(6));
        let v7 = kana_val(tripcode.get_char(7));
        let v8 = kana_val(tripcode.get_char(8));
        let v9 = kana_val(tripcode.get_char(9));
        let v10 = kana_val(tripcode.get_char(10));
        let v11 = kana_val(tripcode.get_char(11));
        let v12 = kana_val(tripcode.get_char(12));
        let v13 = kana_val(tripcode.get_char(13));
        let v14 = kana_val(tripcode.get_char(14));
        if v0 >= 64 || v1 >= 64 || v2 >= 64 || v3 >= 64 || v4 >= 64 || v5 >= 64 || v6 >= 64 || v7
            >= 64 || v8 >= 64 || v9 >= 64 || v10 >= 64 || v11 >= 64 || v12 >= 64 || v13 >= 64
            || v14 >= 64 {
            return None;
        }
        let w1 = ((v0 as u64) << 58u64) | ((v1 as u64) << 52u64) | ((v2 as u64) << 46u64) | ((
        v3 as u64) << 40u64) | ((v4 as u64) << 34u64) | ((v5 as u64) << 28u64) | ((v6 as u64)
            << 22u64) | ((v7 as u64) << 16u64) | ((v8 as u64) << 10u64) | ((v9 as u64) << 4u64);
        let w2 = ((v10 as u32) << 26u32) | ((v11 as u32) << 20u32) | ((v12 as u32) << 14u32) | ((
        v13 as u32) << 8u32) | ((v14 as u32) << 2u32);
        Some(ScKatakanaHash(Sc15Hash(w1, w2)))
    }

    fn max_len() -> usize {
        45
    }

    fn max_len_sjis() -> usize {
        15
    }

    fn append(self, dst: &mut String) {
        push_char(dst, kana_char(digit58(self.0.0, 0)));
        push_char(dst, kana_char(digit58(self.0.0, 1)));
        push_char(dst, kana_char(digit58(self.0.0, 2)));
        push_char(dst, kana_char(digit58(self.0.0, 3)));
        push_char(dst, kana_char(digit58(self.0.0, 4)));
        push_char(dst, kana_char(digit58(self.0.0, 5)));
        push_char(dst, kana_char(digit58(self.0.0, 6)));
        push_char(dst, kana_char(digit58(self.0.0, 7)));
        push_char(dst, kana_char(digit58(self.0.0, 8)));
        push_char(dst, kana_char(digit58(self.0.0, 9)));
        push_char(dst, kana_char(digit30(self.0.1, 0)));
        push_char(dst, kana_char(digit30(self.0.1, 1)));
        push_char(dst, kana_char(digit30(self.0.1, 2)));
        push_char(dst, kana_char(digit30(self.0.1, 3)));
        push_char(dst, kana_char(digit30(self.0.1, 4)));
        assert(dst@ =~= old(dst)@ + self.spec_encode());
    }

    fn write<W: std::io::Write>(self, dst: &mut W) -> std::io::Result<()> {
        let s = self.encode();
        write_all_bytes(dst, s.as_str().as_bytes())
    }

    fn decode_from_sjis(tripcode: &[u8]) -> (r: Option<Self>) {
        if tripcode.len() != 15 {
            return None;
        }
        let v0 = kana_sjis_val(tripcode[0]);
        let v1 = kana_sjis_val(tripcode[1]);
        let v2 = kana_sjis_val(tripcode[2]);
        let v3 = kana_sjis_val(tripcode[3]);
        let v4 = kana_sjis_val(tripcode[4]);
        let v5 = kana_sjis_val(tripcode[5]);
        let v6 = kana_sjis_val(tripcode[6]);
        let v7 = kana_sjis_val(tripcode[7]);
        let v8 = kana_sjis_val(tripcode[8]);
        let v9 = kana_sjis_val(tripcode[9]);
        let v10 = kana_sjis_val(tripcode[10]);
        let v11 = kana_sjis_val(tripcode[11]);
        let v12 = kana_sjis_val(tripcode[12]);
        let v13 = kana_sjis_val(tripcode[13]);
        let v14 = kana_sjis_val(tripcode[14]);
        if v0 >= 64 || v1 >= 64 || v2 >= 64 || v3 >= 64 || v4 >= 64 || v5 >= 64 || v6 >= 64 || v7
            >= 64 || v8 >= 64 || v9 >= 64 || v10 >= 64 || v11 >= 64 || v12 >= 64 || v13 >= 64
            || v14 >= 64 {
            return None;
        }
        let w1 = ((v0 as u64) << 58u64) | ((v1 as u64) << 52u64) | ((v2 as u64) << 46u64) | ((
        v3 as u64) << 40u64) | ((v4 as u64) << 34u64) | ((v5 as u64) << 28u64) | ((v6 as u64)
            << 22u64) | ((v7 as u64) << 16u64) | ((v8 as u64) << 10u64) | ((v9 as u64) << 4u64);
        let w2 = ((v10 as u32) << 26u32) | ((v11 as u32) << 20u32) | ((v12 as u32) << 14u32) | ((
        v13 as u32) << 8u32) | ((v14 as u32) << 2u32);
        Some(ScKatakanaHash(Sc15Hash(w1, w2)))
    }

    fn append_sjis(self, dst: &mut Vec<u8>) {
        dst.push(kana_sjis_byte(digit58(self.0.0, 0)));
        dst.push(kana_sjis_byte(digit58(self.0.0, 1)));
        dst.push(kana_sjis_byte(digit58(self.0.0, 2)));
        dst.push(kana_sjis_byte(digit58(self.0.0, 3)));
        dst.push(kana_sjis_byte(digit58(self.0.0, 4)));
        dst.push(kana_sjis_byte(digit58(self.0.0, 5)));
        dst.push(kana_sjis_byte(digit58(self.0.0, 6)));
        dst.push(kana_sjis_byte(digit58(self.0.0, 7)));
        dst.push(kana_sjis_byte(digit58(self.0.0, 8)));
        dst.push(kana_sjis_byte(digit58(self.0.0, 9)));
        dst.push(kana_sjis_byte(digit30(self.0.1, 0)));
        dst.push(kana_sjis_byte(digit30(self.0.1, 1)));
        dst.push(kana_sjis_byte(digit30(self.0.1, 2)));
        dst.push(kana_sjis_byte(digit30(self.0.1, 3)));
        dst.push(kana_sjis_byte(digit30(self.0.1, 4)));
        assert(dst@ =~= old(dst)@ + self.spec_encode_sjis());
    }

    fn write_sjis<W: std::io::Write>(self, dst: &mut W) -> std::io::Result<()> {
        let bytes = self.encode_to_sjis();
        write_all_bytes(dst, bytes.as_slice())
    }
}

/// Decoding is a left inverse of encoding for well-formed katakana
/// hash values, in both text encodings.
pub proof fn lemma_katakana_round_trip(h: ScKatakanaHash)
    requires
        h.wf(),
    ensures
        ScKatakanaHash::spec_decode(h.spec_encode()) == Some(h),
        ScKatakanaHash::spec_decode_sjis(h.spec_encode_sjis()) == Some(h),
{
    let t = h.spec_encode();
    let s = h.spec_encode_sjis();
    lemma_kana_codec();
    lemma_kana_sjis_codec();
    lemma_word60_reassemble(h.0.0);
    lemma_word30_reassemble(h.0.1);
    assert forall|i: int| 0 <= i < 15 implies h.0.spec_digit(i) < 64 by {
        if i < 10 {
            lemma_digit58_lt(h.0.0, i);
        } else {
            lemma_digit30_lt(h.0.1, i - 10);
        }
    }
    lemma_digit58_lt(h.0.0, 0);
    lemma_digit58_lt(h.0.0, 1);
    lemma_digit58_lt(h.0.0, 2);
    lemma_digit58_lt(h.0.0, 3);
    lemma_digit58_lt(h.0.0, 4);
    lemma_digit58_lt(h.0.0, 5);
    lemma_digit58_lt(h.0.0, 6);
    lemma_digit58_lt(h.0.0, 7);
    lemma_digit58_lt(h.0.0, 8);
    lemma_digit58_lt(h.0.0, 9);
    lemma_digit30_lt(h.0.1, 0);
    lemma_digit30_lt(h.0.1, 1);
    lemma_digit30_lt(h.0.1, 2);
    lemma_digit30_lt(h.0.1, 3);
    lemma_digit30_lt(h.0.1, 4);
    assert(ScKatakanaHash::spec_valid_chars(t));
    assert(ScKatakanaHash::spec_word1_of_chars(t) == h.0.0);
    assert(ScKatakanaHash::spec_word2_of_chars(t) == h.0.1);
    assert(ScKatakanaHash::spec_valid_sjis(s));
    assert(ScKatakanaHash::spec_word1_of_sjis(s) == h.0.0);
    assert(ScKatakanaHash::spec_word2_of_sjis(s) == h.0.1);
}

/// Encoding is a left inverse of decoding for valid katakana texts,
/// and the decoded hash is well formed.
pub proof fn lemma_katakana_re_encode(t: Seq<char>)
    requires
        ScKatakanaHash::spec_decode(t) is Some,
    ensures
        ScKatakanaHash::spec_decode(t)->Some_0.wf(),
        ScKatakanaHash::spec_decode(t)->Some_0.spec_encode() == t,
{
    let h = ScKatakanaHash::spec_decode(t)->Some_0;
    lemma_kana_codec();
    lemma_word58_extract(
        spec_kana_val(t[0]) as u64,
        spec_kana_val(t[1]) as u64,
        spec_kana_val(t[2]) as u64,
        spec_kana_val(t[3]) as u64,
        spec_kana_val(t[4]) as u64,
        spec_kana_val(t[5]) as u64,
        spec_kana_val(t[6]) as u64,
        spec_kana_val(t[7]) as u64,
        spec_kana_val(t[8]) as u64,
        spec_kana_val(t[9]) as u64,
        h.0.0,
    );
    lemma_word30_extract(
        spec_kana_val(t[10]) as u32,
        spec_kana_val(t[11]) as u32,
        spec_kana_val(t[12]) as u32,
        spec_kana_val(t[13]) as u32,
        spec_kana_val(t[14]) as u32,
        h.0.1,
    );
    assert(h.spec_encode()[0] == t[0]);
    assert(h.spec_encode()[1] == t[1]);
    assert(h.spec_encode()[2] == t[2]);
    assert(h.spec_encode()[3] == t[3]);
    assert(h.spec_encode()[4] == t[4]);
    assert(h.spec_encode()[5] == t[5]);
    assert(h.spec_encode()[6] == t[6]);
    assert(h.spec_encode()[7] == t[7]);
    assert(h.spec_encode()[8] == t[8]);
    assert(h.spec_encode()[9] == t[9]);
    assert(h.spec_encode()[10] == t[10]);
    assert(h.spec_encode()[11] == t[11]);
    assert(h.spec_encode()[12] == t[12]);
    assert(h.spec_encode()[13] == t[13]);
    assert(h.spec_encode()[14] == t[14]);
    assert forall|i: int| 0 <= i < 15 implies h.spec_encode()[i] == t[i] by {
        if i == 0 {
        } else if i == 1 {
        } else if i == 2 {
        } else if i == 3 {
        } else if i == 4 {
        } else if i == 5 {
        } else if i == 6 {
        } else if i == 7 {
        } else if i == 8 {
        } else if i == 9 {
        } else if i == 10 {
        } else if i == 11 {
        } else if i == 12 {
        } else if i == 13 {
        } else {
        }
    }
    assert(h.spec_encode() =~= t);
}

/// Encoding is a left inverse of decoding for valid Shift-JIS
/// katakana texts, and the decoded hash is well formed.
pub proof fn lemma_katakana_sjis_re_encode(t: Seq<u8>)
    requires
        ScKatakanaHash::spec_decode_sjis(t) is Some,
    ensures
        ScKatakanaHash::spec_decode_sjis(t)->Some_0.wf(),
        ScKatakanaHash::spec_decode_sjis(t)->Some_0.spec_encode_sjis() == t,
{
    let h = ScKatakanaHash::spec_decode_sjis(t)->Some_0;
    lemma_kana_sjis_codec();
    lemma_word58_extract(
        spec_kana_sjis_val(t[0]) as u64,
        spec_kana_sjis_val(t[1]) as u64,
        spec_kana_sjis_val(t[2]) as u64,
        spec_kana_sjis_val(t[3]) as u64,
        spec_kana_sjis_val(t[4]) as u64,
        spec_kana_sjis_val(t[5]) as u64,
        spec_kana_sjis_val(t[6]) as u64,
        spec_kana_sjis_val(t[7]) as u64,
        spec_kana_sjis_val(t[8]) as u64,
        spec_kana_sjis_val(t[9]) as u64,
        h.0.0,
    );
    lemma_word30_extract(
        spec_kana_sjis_val(t[10]) as u32,
        spec_kana_sjis_val(t[11]) as u32,
        spec_kana_sjis_val(t[12]) as u32,
        spec_kana_sjis_val(t[13]) as u32,
        spec_kana_sjis_val(t[14]) as u32,
        h.0.1,
    );
    assert(h.spec_encode_sjis()[0] == t[0]);
    assert(h.spec_encode_sjis()[1] == t[1]);
    assert(h.spec_encode_sjis()[2] == t[2]);
    assert(h.spec_encode_sjis()[3] == t[3]);
    assert(h.spec_encode_sjis()[4] == t[4]);
    assert(h.spec_encode_sjis()[5] == t[5]);
    assert(h.spec_encode_sjis()[6] == t[6]);
    assert(h.spec_encode_sjis()[7] == t[7]);
    assert(h.spec_encode_sjis()[8] == t[8]);
    assert(h.spec_encode_sjis()[9] == t[9]);
    assert(h.spec_encode_sjis()[10] == t[10]);
    assert(h.spec_encode_sjis()[11] == t[11]);
    assert(h.spec_encode_sjis()[12] == t[12]);
    assert(h.spec_encode_sjis()[13] == t[13]);
    assert(h.spec_encode_sjis()[14] == t[14]);
    assert forall|i: int| 0 <= i < 15 implies h.spec_encode_sjis()[i] == t[i] by {
        if i == 0 {
        } else if i == 1 {
        } else if i == 2 {
        } else if i == 3 {
        } else if i == 4 {
        } else if i == 5 {
        } else if i == 6 {
        } else if i == 7 {
        } else if i == 8 {
        } else if i == 9 {
        } else if i == 10 {
        } else if i == 11 {
        } else if i == 12 {
        } else if i == 13 {
        } else {
        }
    }
    assert(h.spec_encode_sjis() =~= t);
}

impl MonaHash {
    /// A well-formed value carries a well-formed hash.
    pub open spec fn wf(self) -> bool {
        match self {
            MonaHash::Ten(h) => h.wf(),
            MonaHash::Twelve(_) => true,
            MonaHash::Error => true,
        }
    }
}

impl ScHash {
    /// A well-formed value carries a well-formed hash.
    pub open spec fn wf(self) -> bool {
        match self {
            ScHash::Ten(h) => h.wf(),
            ScHash::Twelve(_) => true,
            ScHash::Fifteen(h) => h.wf(),
            ScHash::Katakana(h) => h.wf(),
            ScHash::Error => true,
        }
    }

    /// The one katakana hash whose text is fifteen `'!'` symbols; its
    /// text decodes as a 15-character tripcode instead.
    pub open spec fn all_bang_katakana() -> Sc15Hash {
        Sc15Hash(0xFFFF_FFFF_FFFF_FFF0u64, 0xFFFF_FFFCu32)
    }
}

impl AsciiTripcodeHash for MonaHash {
    open spec fn spec_encode_ascii(self) -> Seq<u8> {
        match self {
            MonaHash::Ten(h) => h.spec_encode_ascii(),
            MonaHash::Twelve(h) => h.spec_encode_ascii(),
            MonaHash::Error => seq![0x3Fu8, 0x3Fu8, 0x3Fu8],
        }
    }

    open spec fn spec_decode_ascii(t: Seq<u8>) -> Option<Self> {
        if t.len() == 10 {
            match FourchanHash::spec_decode_ascii(t) {
                Some(h) => Some(MonaHash::Ten(h)),
                None => None,
            }
        } else if t.len() == 12 {
            match Mona12Hash::spec_decode_ascii(t) {
                Some(h) => Some(MonaHash::Twelve(h)),
                None => None,
            }
        } else if t.len() == 3 {
            if t == seq![0x3Fu8, 0x3Fu8, 0x3Fu8] {
                Some(MonaHash::Error)
            } else {
                None
            }
        } else {
            None
        }
    }

    fn decode_from_ascii(tripcode: &[u8]) -> (r: Option<Self>) {
        if tripcode.len() == 10 {
            match Mona10Hash::decode_from_ascii(tripcode) {
                Some(h) => Some(MonaHash::Ten(h)),
                None => None,
            }
        } else if tripcode.len() == 12 {
            match Mona12Hash::decode_from_ascii(tripcode) {
                Some(h) => Some(MonaHash::Twelve(h)),
                None => None,
            }
        } else if tripcode.len() == 3 {
            if tripcode[0] == 0x3F && tripcode[1] == 0x3F && tripcode[2] == 0x3F {
                proof {
                    assert(tripcode@ =~= seq![0x3Fu8, 0x3Fu8, 0x3Fu8]);
                }
                Some(MonaHash::Error)
            } else {
                proof {
                    assert(tripcode@ != seq![0x3Fu8, 0x3Fu8, 0x3Fu8]);
                }
                None
            }
        } else {
            None
        }
    }

    fn max_len() -> usize {
        12
    }

    fn append_ascii(self, dst: &mut Vec<u8>) {
        match self {
            MonaHash::Ten(h) => h.append_ascii(dst),
            MonaHash::Twelve(h) => h.append_ascii(dst),
            MonaHash::Error => {
                dst.push(0x3F);
                dst.push(0x3F);
                dst.push(0x3F);
                assert(dst@ =~= old(dst)@ + self.spec_encode_ascii());
            },
        }
    }

    fn write_ascii<W: std::io::Write>(self, dst: &mut W) -> std::io::Result<()> {
        let bytes = self.encode_to_ascii();
        write_all_bytes(dst, bytes.as_slice())
    }
}

impl TripcodeHash for ScHash {
    open spec fn spec_encode(self) -> Seq<char> {
        match self {
            ScHash::Ten(h) => h.spec_encode(),
            ScHash::Twelve(h) => h.spec_encode(),
            ScHash::Fifteen(h) => h.spec_encode(),
            ScHash::Katakana(h) => h.spec_encode(),
            ScHash::Error => seq!['?', '?', '?'],
        }
    }

    open spec fn spec_decode(t: Seq<char>) -> Option<Self> {
        let n = vstd::utf8::encode_utf8(t).len();
        if n == 10 {
            match FourchanHash::spec_decode(t) {
                Some(h) => Some(ScHash::Ten(h)),
                None => None,
            }
        } else if n == 12 {
            match Mona12Hash::spec_decode(t) {
                Some(h) => Some(ScHash::Twelve(h)),
                None => None,
            }
        } else if n == 15 {
            // The only 15-byte-long katakana tripcode, fifteen `'!'`
            // symbols, is regarded as a 15-character tripcode.
            match Sc15Hash::spec_decode(t) {
                Some(h) => Some(ScHash::Fifteen(h)),
                None => None,
            }
        } else if n == 3 {
            if vstd::utf8::encode_utf8(t) == seq![0x3Fu8, 0x3Fu8, 0x3Fu8] {
                Some(ScHash::Error)
            } else {
                None
            }
        } else if n >= 17 {
            match ScKatakanaHash::spec_decode(t) {
                Some(h) => Some(ScHash::Katakana(h)),
                None => None,
            }
        } else {
            None
        }
    }

    open spec fn spec_encode_sjis(self) -> Seq<u8> {
        match self {
            ScHash::Ten(h) => h.spec_encode_ascii(),
            ScHash::Twelve(h) => h.spec_encode_ascii(),
            ScHash::Fifteen(h) => h.spec_encode_ascii(),
            ScHash::Katakana(h) => h.spec_encode_sjis(),
            ScHash::Error => seq![0x3Fu8, 0x3Fu8, 0x3Fu8],
        }
    }

    open spec fn spec_decode_sjis(t: Seq<u8>) -> Option<Self> {
        if t.len() == 10 {
            match FourchanHash::spec_decode_ascii(t) {
                Some(h) => Some(ScHash::Ten(h)),
                None => None,
            }
        } else if t.len() == 12 {
            match Mona12Hash::spec_decode_ascii(t) {
                Some(h) => Some(ScHash::Twelve(h)),
                None => None,
            }
        } else if t.len() == 15 {
            match Sc15Hash::spec_decode_ascii(t) {
                Some(h) => Some(ScHash::Fifteen(h)),
                None => match ScKatakanaHash::spec_decode_sjis(t) {
                    Some(k) => Some(ScHash::Katakana(k)),
                    None => None,
                },
            }
        } else if t.len() == 3 {
            if t == seq![0x3Fu8, 0x3Fu8, 0x3Fu8] {
                Some(ScHash::Error)
            } else {
                None
            }
        } else {
            None
        }
    }

    fn decode(tripcode: &str) -> (r: Option<Self>) {
        let bytes = tripcode.as_bytes();
        let n = bytes.len();
        if n == 10 {
            match Mona10Hash::decode_from_ascii(bytes) {
                Some(h) => Some(ScHash::Ten(h)),
                None => None,
            }
        } else if n == 12 {
            match Mona12Hash::decode_from_ascii(bytes) {
                Some(h) => Some(ScHash::Twelve(h)),
                None => None,
            }
        } else if n == 15 {
            match Sc15Hash::decode_from_ascii(bytes) {
                Some(h) => Some(ScHash::Fifteen(h)),
                None => None,
            }
        } else if n == 3 {
            if bytes[0] == 0x3F && bytes[1] == 0x3F && bytes[2] == 0x3F {
                proof {
                    assert(bytes@ =~= seq![0x3Fu8, 0x3Fu8, 0x3Fu8]);
                }
                Some(ScHash::Error)
            } else {
                proof {
                    assert(bytes@ != seq![0x3Fu8, 0x3Fu8, 0x3Fu8]);
                }
                None
            }
        } else if n >= 17 {
            match ScKatakanaHash::decode(tripcode) {
                Some(h) => Some(ScHash::Katakana(h)),
                None => None,
            }
        } else {
            None
        }
    }

    fn max_len() -> usize {
        45
    }

    fn max_len_sjis() -> usize {
        15
    }

    fn append(self, dst: &mut String) {
        match self {
            ScHash::Ten(h) => h.append(dst),
            ScHash::Twelve(h) => h.append(dst),
            ScHash::Fifteen(h) => h.append(dst),
            ScHash::Katakana(h) => h.append(dst),
            ScHash::Error => {
                push_char(dst, '?');
                push_char(dst, '?');
                push_char(dst, '?');
                assert(dst@ =~= old(dst)@ + self.spec_encode());
            },
        }
    }

    fn write<W: std::io::Write>(self, dst: &mut W) -> std::io::Result<()> {
        let s = self.encode();
        write_all_bytes(dst, s.as_str().as_bytes())
    }

    fn decode_from_sjis(tripcode: &[u8]) -> (r: Option<Self>) {
        if tripcode.len() == 10 {
            match Mona10Hash::decode_from_ascii(tripcode) {
                Some(h) => Some(ScHash::Ten(h)),
                None => None,
            }
        } else if tripcode.len() == 12 {
            match Mona12Hash::decode_from_ascii(tripcode) {
                Some(h) => Some(ScHash::Twelve(h)),
                None => None,
            }
        } else if tripcode.len() == 15 {
            match Sc15Hash::decode_from_ascii(tripcode) {
                Some(h) => Some(ScHash::Fifteen(h)),
                None => match ScKatakanaHash::decode_from_sjis(tripcode) {
                    Some(k) => Some(ScHash::Katakana(k)),
                    None => None,
                },
            }
        } else if tripcode.len() == 3 {
            if tripcode[0] == 0x3F && tripcode[1] == 0x3F && tripcode[2] == 0x3F {
                proof {
                    assert(tripcode@ =~= seq![0x3Fu8, 0x3Fu8, 0x3Fu8]);
                }
                Some(ScHash::Error)
            } else {
                proof {
                    assert(tripcode@ != seq![0x3Fu8, 0x3Fu8, 0x3Fu8]);
                }
                None
            }
        } else {
            None
        }
    }

    fn append_sjis(self, dst: &mut Vec<u8>) {
        match self {
            ScHash::Ten(h) => h.append_ascii(dst),
            ScHash::Twelve(h) => h.append_ascii(dst),
            ScHash::Fifteen(h) => h.append_ascii(dst),
            ScHash::Katakana(h) => h.append_sjis(dst),
            ScHash::Error => {
                dst.push(0x3F);
                dst.push(0x3F);
                dst.push(0x3F);
                assert(dst@ =~= old(dst)@ + self.spec_encode_sjis());
            },
        }
    }

    fn write_sjis<W: std::io::Write>(self, dst: &mut W) -> std::io::Result<()> {
        let bytes = self.encode_to_sjis();
        write_all_bytes(dst, bytes.as_slice())
    }
}

/// The UTF-8 bytes of a sequence of ASCII bytes read as characters are
/// those bytes themselves.
proof fn lemma_ascii_map_encode(b: Seq<u8>)
    requires
        forall|i: int| 0 <= i < b.len() ==> #[trigger] b[i] < 128,
    ensures
        vstd::utf8::encode_utf8(b.map_values(|x: u8| x as char)) == b,
{
    let chars = b.map_values(|x: u8| x as char);
    assert forall|i: int| 0 <= i < chars.len() implies (#[trigger] chars[i] as nat) < 128 by {
        assert(b[i] < 128);
    }
    assert(vstd::utf8::is_ascii_chars(chars));
    vstd::utf8::is_ascii_chars_encode_utf8(chars);
    assert(vstd::utf8::encode_utf8(chars) =~= b);
}

/// A sequence of characters whose UTF-8 bytes are all ASCII is those
/// bytes read as characters.
proof fn lemma_ascii_chars_inv(t: Seq<char>, b: Seq<u8>)
    requires
        vstd::utf8::encode_utf8(t) == b,
        forall|i: int| 0 <= i < b.len() ==> #[trigger] b[i] < 128,
    ensures
        t == b.map_values(|x: u8| x as char),
    decreases t.len(),
{
    if t.len() == 0 {
        assert(t =~= b.map_values(|x: u8| x as char));
    } else {
        let c = t[0];
        let u = c as u32;
        let s = vstd::utf8::encode_scalar(u);
        vstd::utf8::char_is_scalar(c);
        assert(vstd::utf8::encode_utf8(t) == s + vstd::utf8::encode_utf8(t.drop_first()));
        assert(s.len() >= 1);
        assert(s[0] == b[0]);
        assert(b[0] < 128);
        if !vstd::utf8::has_width_1_encoding(u) {
            assert(s[0] >= 128) by {
                if vstd::utf8::has_width_2_encoding(u) {
                    assert(0xC0u8 | (((u >> 6u32) & 0x1Fu32) as u8) >= 128u8) by (bit_vector);
                } else if vstd::utf8::has_width_3_encoding(u) {
                    assert(0xE0u8 | (((u >> 12u32) & 0x0Fu32) as u8) >= 128u8) by (bit_vector);
                } else {
                    assert(0xF0u8 | (((u >> 18u32) & 0x7u32) as u8) >= 128u8) by (bit_vector);
                }
            }
            assert(false);
        }
        assert(s =~= seq![(u & 0x7Fu32) as u8]);
        assert((u & 0x7Fu32) as u8 == b[0]);
        assert(u < 128 ==> (u & 0x7Fu32) == u) by (bit_vector);
        assert(u == b[0] as u32);
        vstd::utf8::char_u32_cast(c, u);
        assert(c == (b[0] as char)) by {
            assert((b[0] as char) as u32 == b[0] as u32);
            vstd::utf8::char_u32_cast(b[0] as char, b[0] as u32);
        }
        let bt = b.drop_first();
        assert(vstd::utf8::encode_utf8(t.drop_first()) =~= bt);
        assert(forall|i: int| 0 <= i < bt.len() ==> #[trigger] bt[i] < 128);
        lemma_ascii_chars_inv(t.drop_first(), bt);
        assert(t =~= b.map_values(|x: u8| x as char)) by {
            assert(t.drop_first() == bt.map_values(|x: u8| x as char));
            assert forall|i: int| 0 <= i < t.len() implies t[i] == (b.map_values(
                |x: u8| x as char,
            ))[i] by {
                if i > 0 {
                    assert(t.drop_first()[i - 1] == bt.map_values(|x: u8| x as char)[i - 1]);
                    assert(bt.map_values(|x: u8| x as char)[i - 1] == (bt[i - 1] as char));
                    assert(bt[i - 1] == b[i]);
                }
            }
        }
    }
}

/// The UTF-8 form of a katakana tripcode is at least one byte per
/// symbol, and two bytes longer than that whenever some symbol is a
/// katakana proper rather than the `'!'` filler.
proof fn lemma_kana_text_len(t: Seq<char>)
    requires
        forall|i: int| 0 <= i < t.len() ==> spec_kana_val(#[trigger] t[i]) < 64,
    ensures
        vstd::utf8::encode_utf8(t).len() >= t.len(),
        forall|j: int|
            0 <= j < t.len() && t[j] != '!' ==> vstd::utf8::encode_utf8(t).len() >= t.len() + 2,
    decreases t.len(),
{
    if t.len() == 0 {
    } else {
        let c = t[0];
        let u = c as u32;
        let s = vstd::utf8::encode_scalar(u);
        vstd::utf8::char_is_scalar(c);
        assert(spec_kana_val(t[0]) < 64);
        assert(vstd::utf8::encode_utf8(t) == s + vstd::utf8::encode_utf8(t.drop_first()));
        let tail = t.drop_first();
        assert(forall|i: int|
            0 <= i < tail.len() ==> spec_kana_val(#[trigger] tail[i]) < 64) by {
            assert(forall|i: int| 0 <= i < tail.len() ==> tail[i] == t[i + 1]);
        }
        lemma_kana_text_len(tail);
        assert(s.len() >= 1);
        if c != '!' {
            assert(0xFF61 <= u <= 0xFF9F);
            assert(vstd::utf8::has_width_3_encoding(u));
            assert(s.len() == 3);
        }
        assert forall|j: int|
            0 <= j < t.len() && t[j] != '!' implies vstd::utf8::encode_utf8(t).len() >= t.len()
            + 2 by {
            if j == 0 {
                assert(s.len() == 3);
            } else {
                assert(tail[j - 1] != '!');
                assert(vstd::utf8::encode_utf8(tail).len() >= tail.len() + 2);
            }
        }
    }
}

/// A katakana symbol of value `d` other than 63 is a katakana proper:
/// not the `'!'` filler, and its Shift-JIS byte lies outside the
/// 15-character alphabet.
proof fn lemma_kana_witness(k: ScKatakanaHash, j: int)
    requires
        0 <= j < 15,
        k.0.spec_digit(j) != 63,
    ensures
        k.spec_encode()[j] != '!',
        spec_sc15_val(k.spec_encode_sjis()[j]) >= 64,
{
    let d = k.0.spec_digit(j);
    if j < 10 {
        lemma_digit58_lt(k.0.0, j);
    } else {
        lemma_digit30_lt(k.0.1, j - 10);
    }
    lemma_kana_codec();
    assert(spec_kana_val(spec_kana_char(d)) == d);
    assert(k.spec_encode()[j] == spec_kana_char(d));
    assert(spec_kana_val('!') == 63);
    assert(k.spec_encode_sjis()[j] == spec_kana_sjis_byte(d));
}

/// Every katakana hash other than the all-filler one has a symbol
/// that is a katakana proper.
proof fn lemma_kana_not_all_bang(k: ScKatakanaHash)
    requires
        k.wf(),
        k.0 != ScHash::all_bang_katakana(),
    ensures
        exists|j: int| 0 <= j < 15 && #[trigger] k.spec_encode()[j] != '!',
        exists|j: int| 0 <= j < 15 && spec_sc15_val(#[trigger] k.spec_encode_sjis()[j]) >= 64,
{
    let w1 = k.0.0;
    let w2 = k.0.1;
    if k.0.spec_digit(0) != 63 {
        lemma_kana_witness(k, 0);
    } else if k.0.spec_digit(1) != 63 {
        lemma_kana_witness(k, 1);
    } else if k.0.spec_digit(2) != 63 {
        lemma_kana_witness(k, 2);
    } else if k.0.spec_digit(3) != 63 {
        lemma_kana_witness(k, 3);
    } else if k.0.spec_digit(4) != 63 {
        lemma_kana_witness(k, 4);
    } else if k.0.spec_digit(5) != 63 {
        lemma_kana_witness(k, 5);
    } else if k.0.spec_digit(6) != 63 {
        lemma_kana_witness(k, 6);
    } else if k.0.spec_digit(7) != 63 {
        lemma_kana_witness(k, 7);
    } else if k.0.spec_digit(8) != 63 {
        lemma_kana_witness(k, 8);
    } else if k.0.spec_digit(9) != 63 {
        lemma_kana_witness(k, 9);
    } else if k.0.spec_digit(10) != 63 {
        lemma_kana_witness(k, 10);
    } else if k.0.spec_digit(11) != 63 {
        lemma_kana_witness(k, 11);
    } else if k.0.spec_digit(12) != 63 {
        lemma_kana_witness(k, 12);
    } else if k.0.spec_digit(13) != 63 {
        lemma_kana_witness(k, 13);
    } else if k.0.spec_digit(14) != 63 {
        lemma_kana_witness(k, 14);
    } else {
        lemma_word60_reassemble(w1);
        lemma_word30_reassemble(w2);
        lemma_digit58_lt(w1, 0);
        lemma_digit58_lt(w1, 1);
        lemma_digit58_lt(w1, 2);
        lemma_digit58_lt(w1, 3);
        lemma_digit58_lt(w1, 4);
        lemma_digit58_lt(w1, 5);
        lemma_digit58_lt(w1, 6);
        lemma_digit58_lt(w1, 7);
        lemma_digit58_lt(w1, 8);
        lemma_digit58_lt(w1, 9);
        lemma_digit30_lt(w2, 0);
        lemma_digit30_lt(w2, 1);
        lemma_digit30_lt(w2, 2);
        lemma_digit30_lt(w2, 3);
        lemma_digit30_lt(w2, 4);
        assert((63u64 << 58u64) | (63u64 << 52u64) | (63u64 << 46u64) | (63u64 << 40u64) | (63u64
            << 34u64) | (63u64 << 28u64) | (63u64 << 22u64) | (63u64 << 16u64) | (63u64 << 10u64)
            | (63u64 << 4u64) == 0xFFFF_FFFF_FFFF_FFF0u64) by (bit_vector);
        assert((63u32 << 26u32) | (63u32 << 20u32) | (63u32 << 14u32) | (63u32 << 8u32) | (63u32
            << 2u32) == 0xFFFF_FFFCu32) by (bit_vector);
        assert(w1 == 0xFFFF_FFFF_FFFF_FFF0u64);
        assert(w2 == 0xFFFF_FFFCu32);
        assert(false);
    }
}

/// Decoding is a left inverse of encoding for well-formed 2channel
/// hash values, the undefined-format value included.
pub proof fn lemma_mona_round_trip(h: MonaHash)
    requires
        h.wf(),
    ensures
        MonaHash::spec_decode_ascii(h.spec_encode_ascii()) == Some(h),
{
    match h {
        MonaHash::Ten(hh) => {
            lemma_fourchan_round_trip(hh);
        },
        MonaHash::Twelve(hh) => {
            lemma_mona12_round_trip(hh);
        },
        MonaHash::Error => {
        },
    }
}

/// Encoding is a left inverse of decoding for valid 2channel tripcode
/// texts, and the decoded value is well formed.
pub proof fn lemma_mona_re_encode(t: Seq<u8>)
    requires
        MonaHash::spec_decode_ascii(t) is Some,
    ensures
        MonaHash::spec_decode_ascii(t)->Some_0.wf(),
        MonaHash::spec_decode_ascii(t)->Some_0.spec_encode_ascii() == t,
{
    if t.len() == 10 {
        lemma_fourchan_re_encode(t);
    } else if t.len() == 12 {
        lemma_mona12_re_encode(t);
    }
}

/// The bytes of an ASCII-encoded tripcode all lie below 128.
proof fn lemma_encode_ascii_bytes_low(h: ScHash)
    requires
        !(h is Katakana),
        !(h is Error),
    ensures
        forall|i: int|
            0 <= i < h.spec_encode_sjis().len() ==> #[trigger] h.spec_encode_sjis()[i] < 128,
{
    lemma_crypt_codec();
    lemma_b64_codec();
    lemma_sc15_codec();
    match h {
        ScHash::Ten(hh) => {
            assert forall|i: int|
                0 <= i < hh.spec_encode_ascii().len() implies #[trigger] hh.spec_encode_ascii()[i]
                < 128 by {
                lemma_digit58_lt(hh.0, i);
            }
        },
        ScHash::Twelve(hh) => {
            let w = hh.0;
            let bb = hh.1;
            assert forall|i: int|
                0 <= i < hh.spec_encode_ascii().len() implies #[trigger] hh.spec_encode_ascii()[i]
                < 128 by {
                if i < 10 {
                    lemma_digit58_lt(hh.0, i);
                } else if i == 10 {
                    assert(((w & 15u64) << 2u64) | ((bb as u64) >> 6u64) < 64u64) by (bit_vector);
                } else {
                    assert(bb & 63u8 < 64u8) by (bit_vector);
                }
            }
        },
        ScHash::Fifteen(hh) => {
            assert forall|i: int|
                0 <= i < hh.spec_encode_ascii().len() implies #[trigger] hh.spec_encode_ascii()[i]
                < 128 by {
                if i < 10 {
                    lemma_digit58_lt(hh.0, i);
                } else {
                    lemma_digit30_lt(hh.1, i - 10);
                }
            }
        },
        _ => {
        },
    }
}

/// Decoding is a left inverse of encoding for well-formed 2ch.sc hash
/// values, in both text encodings.  The one excluded value is the
/// katakana hash whose text is all fillers, which decodes as a
/// 15-character tripcode.
pub proof fn lemma_sc_round_trip(h: ScHash)
    requires
        h.wf(),
        !(h is Katakana && h->Katakana_0.0 == ScHash::all_bang_katakana()),
    ensures
        ScHash::spec_decode(h.spec_encode()) == Some(h),
        ScHash::spec_decode_sjis(h.spec_encode_sjis()) == Some(h),
{
    match h {
        ScHash::Ten(hh) => {
            lemma_fourchan_round_trip(hh);
            lemma_encode_ascii_bytes_low(h);
            lemma_ascii_map_encode(hh.spec_encode_ascii());
        },
        ScHash::Twelve(hh) => {
            lemma_mona12_round_trip(hh);
            lemma_encode_ascii_bytes_low(h);
            lemma_ascii_map_encode(hh.spec_encode_ascii());
        },
        ScHash::Fifteen(hh) => {
            lemma_sc15_round_trip(hh);
            lemma_encode_ascii_bytes_low(h);
            lemma_ascii_map_encode(hh.spec_encode_ascii());
        },
        ScHash::Katakana(k) => {
            lemma_katakana_round_trip(k);
            lemma_kana_codec();
            let t = k.spec_encode();
            assert forall|i: int| 0 <= i < t.len() implies spec_kana_val(#[trigger] t[i])
                < 64 by {
                if i < 10 {
                    lemma_digit58_lt(k.0.0, i);
                } else {
                    lemma_digit30_lt(k.0.1, i - 10);
                }
            }
            lemma_kana_text_len(t);
            lemma_kana_not_all_bang(k);
            let j = choose|j: int| 0 <= j < 15 && #[trigger] t[j] != '!';
            assert(vstd::utf8::encode_utf8(t).len() >= 17);
            // Shift-JIS side: some byte falls outside the 15-character
            // alphabet, so the text cannot decode as a 15-character
            // tripcode.
            let s = k.spec_encode_sjis();
            assert(s.len() == 15);
            let jj = choose|jj: int| 0 <= jj < 15 && spec_sc15_val(#[trigger] s[jj]) >= 64;
            assert(!Sc15Hash::spec_valid_ascii(s));
            assert(Sc15Hash::spec_decode_ascii(s) is None);
        },
        ScHash::Error => {
            let t = seq!['?', '?', '?'];
            let b = seq![0x3Fu8, 0x3Fu8, 0x3Fu8];
            assert(t =~= b.map_values(|x: u8| x as char)) by {
                assert(b.map_values(|x: u8| x as char).len() == 3);
                assert(b.map_values(|x: u8| x as char)[0] == (0x3Fu8 as char));
                assert((0x3Fu8 as char) == '?');
                assert(b.map_values(|x: u8| x as char)[1] == (0x3Fu8 as char));
                assert(b.map_values(|x: u8| x as char)[2] == (0x3Fu8 as char));
            }
            assert(forall|i: int| 0 <= i < b.len() ==> #[trigger] b[i] < 128);
            lemma_ascii_map_encode(b);
            assert(vstd::utf8::encode_utf8(t) == b);
        },
    }
}

/// Encoding is a left inverse of decoding for valid 2ch.sc tripcode
/// texts, and the decoded value is well formed.
pub proof fn lemma_sc_re_encode(t: Seq<char>)
    requires
        ScHash::spec_decode(t) is Some,
    ensures
        ScHash::spec_decode(t)->Some_0.wf(),
        ScHash::spec_decode(t)->Some_0.spec_encode() == t,
{
    let b = vstd::utf8::encode_utf8(t);
    let n = b.len();
    lemma_crypt_codec();
    lemma_b64_codec();
    lemma_sc15_codec();
    if n == 10 {
        lemma_fourchan_re_encode(b);
        let hh = FourchanHash::spec_decode_ascii(b)->Some_0;
        assert forall|i: int| 0 <= i < b.len() implies #[trigger] b[i] < 128 by {
            lemma_digit58_lt(hh.0, i);
            assert(b[i] == hh.spec_encode_ascii()[i]);
        }
        lemma_ascii_chars_inv(t, b);
    } else if n == 12 {
        lemma_mona12_re_encode(b);
        let hh = Mona12Hash::spec_decode_ascii(b)->Some_0;
        let w = hh.0;
        let bb = hh.1;
        assert forall|i: int| 0 <= i < b.len() implies #[trigger] b[i] < 128 by {
            assert(b[i] == hh.spec_encode_ascii()[i]);
            if i < 10 {
                lemma_digit58_lt(hh.0, i);
            } else if i == 10 {
                assert(((w & 15u64) << 2u64) | ((bb as u64) >> 6u64) < 64u64) by (bit_vector);
            } else {
                assert(bb & 63u8 < 64u8) by (bit_vector);
            }
        }
        lemma_ascii_chars_inv(t, b);
    } else if n == 15 {
        lemma_sc15_re_encode(b);
        let hh = Sc15Hash::spec_decode_ascii(b)->Some_0;
        assert forall|i: int| 0 <= i < b.len() implies #[trigger] b[i] < 128 by {
            assert(b[i] == hh.spec_encode_ascii()[i]);
            if i < 10 {
                lemma_digit58_lt(hh.0, i);
            } else {
                lemma_digit30_lt(hh.1, i - 10);
            }
        }
        lemma_ascii_chars_inv(t, b);
    } else if n == 3 {
        assert(b == seq![0x3Fu8, 0x3Fu8, 0x3Fu8]);
        assert(forall|i: int| 0 <= i < b.len() ==> #[trigger] b[i] < 128);
        lemma_ascii_chars_inv(t, b);
        assert(t =~= seq!['?', '?', '?']) by {
            assert(t == b.map_values(|x: u8| x as char));
            assert(b.map_values(|x: u8| x as char).len() == 3);
            assert(b.map_values(|x: u8| x as char)[0] == (0x3Fu8 as char));
            assert((0x3Fu8 as char) == '?');
            assert(b.map_values(|x: u8| x as char)[1] == (0x3Fu8 as char));
            assert(b.map_values(|x: u8| x as char)[2] == (0x3Fu8 as char));
        }
    } else if n >= 17 {
        lemma_katakana_re_encode(t);
    }
}

/// Encoding is a left inverse of decoding for valid Shift-JIS 2ch.sc
/// tripcode texts, and the decoded value is well formed.
pub proof fn lemma_sc_sjis_re_encode(t: Seq<u8>)
    requires
        ScHash::spec_decode_sjis(t) is Some,
    ensures
        ScHash::spec_decode_sjis(t)->Some_0.wf(),
        ScHash::spec_decode_sjis(t)->Some_0.spec_encode_sjis() == t,
{
    if t.len() == 10 {
        lemma_fourchan_re_encode(t);
    } else if t.len() == 12 {
        lemma_mona12_re_encode(t);
    } else if t.len() == 15 {
        if Sc15Hash::spec_decode_ascii(t) is Some {
            lemma_sc15_re_encode(t);
        } else {
            lemma_katakana_sjis_re_encode(t);
        }
    }
}

/// The bytes of an ASCII-encoded 2channel tripcode all lie below 128.
proof fn lemma_mona_bytes_low(h: MonaHash)
    ensures
        forall|i: int|
            0 <= i < h.spec_encode_ascii().len() ==> #[trigger] h.spec_encode_ascii()[i] < 128,
{
    lemma_crypt_codec();
    lemma_b64_codec();
    match h {
        MonaHash::Ten(hh) => {
            assert forall|i: int|
                0 <= i < h.spec_encode_ascii().len() implies #[trigger] h.spec_encode_ascii()[i]
                < 128 by {
                lemma_digit58_lt(hh.0, i);
            }
        },
        MonaHash::Twelve(hh) => {
            let w = hh.0;
            let bb = hh.1;
            assert forall|i: int|
                0 <= i < h.spec_encode_ascii().len() implies #[trigger] h.spec_encode_ascii()[i]
                < 128 by {
                if i < 10 {
                    lemma_digit58_lt(hh.0, i);
                } else if i == 10 {
                    assert(((w & 15u64) << 2u64) | ((bb as u64) >> 6u64) < 64u64) by (bit_vector);
                } else {
                    assert(bb & 63u8 < 64u8) by (bit_vector);
                }
            }
        },
        MonaHash::Error => {
        },
    }
}

/// Decoding is a left inverse of encoding for well-formed 2channel
/// hash values at the string level as well.
pub proof fn lemma_mona_str_round_trip(h: MonaHash)
    requires
        h.wf(),
    ensures
        MonaHash::spec_decode(h.spec_encode()) == Some(h),
{
    lemma_mona_round_trip(h);
    lemma_mona_bytes_low(h);
    lemma_ascii_map_encode(h.spec_encode_ascii());
}

/// Encoding is a left inverse of decoding for valid 2channel tripcode
/// strings, and the decoded value is well formed.
pub proof fn lemma_mona_str_re_encode(t: Seq<char>)
    requires
        MonaHash::spec_decode(t) is Some,
    ensures
        MonaHash::spec_decode(t)->Some_0.wf(),
        MonaHash::spec_decode(t)->Some_0.spec_encode() == t,
{
    let b = vstd::utf8::encode_utf8(t);
    lemma_mona_re_encode(b);
    let h = MonaHash::spec_decode_ascii(b)->Some_0;
    lemma_mona_bytes_low(h);
    assert(forall|i: int| 0 <= i < b.len() ==> #[trigger] b[i] < 128) by {
        assert(h.spec_encode_ascii() == b);
    }
    lemma_ascii_chars_inv(t, b);
}

} // verus!
