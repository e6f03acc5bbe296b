//! A library for generating tripcodes: the short printable identity
//! hashes used on textboards, derived from a secret password either by
//! the legacy crypt-style DES cipher or by slicing a SHA-1 digest, and
//! rendered through several radix-64 alphabets.

use vstd::prelude::*;

pub mod codec;
pub mod des;
pub mod digest;
pub mod escape;
pub mod hash;
pub mod util;

verus! {

pub use crate::util::decode_salt;
pub use crate::util::decode_salt_strict;
pub use crate::util::hex_to_i;
pub use crate::util::pack_u64_be;
pub use crate::util::sc_password_starts_with_katakana;
pub use crate::util::secret_to_key;

pub use crate::hash::AsciiTripcodeHash;
pub use crate::hash::FourchanHash;
pub use crate::hash::Mona10Hash;
pub use crate::hash::Mona12Hash;
pub use crate::hash::MonaHash;
pub use crate::hash::Sc15Hash;
pub use crate::hash::ScHash;
pub use crate::hash::ScKatakanaHash;
pub use crate::hash::TripcodeHash;

/// The salt characters that a DES-based scheme reads from an escaped
/// password: its second and third bytes, with the documented fallback
/// characters where the password is too short.
pub open spec fn spec_salt_pair(e: Seq<u8>) -> (u8, u8) {
    if e.len() >= 3 {
        (e[1], e[2])
    } else if e.len() == 2 {
        (e[1], 0x48u8)
    } else {
        (0x48u8, 0x2Eu8)
    }
}

/// The 58-bit DES hash of an escaped password stream: the stream's
/// first 8 bytes keyed into the cipher, salted by its second and third
/// bytes.
pub open spec fn spec_des_core(e: Seq<u8>) -> u64 {
    let (s1, s2) = spec_salt_pair(e);
    crate::des::spec_zero_cipher_58(
        crate::util::spec_secret_to_key(e),
        crate::util::spec_decode_salt(s1, s2),
    )
}

/// Runs the DES derivation over the escaped form of `password`,
/// consuming only as much of the stream as the key and salt need.
fn des_core_escaped(password: &[u8], amp: bool) -> (r: u64)
    ensures
        r == spec_des_core(crate::escape::spec_escaped(password@, amp)),
        r & 0x3Fu64 == 0,
{
    let ghost e = crate::escape::spec_escaped(password@, amp);
    let v = crate::escape::escaped_prefix(password, amp);
    let salt1: u8;
    let salt2: u8;
    if v.len() >= 3 {
        salt1 = v[1];
        salt2 = v[2];
    } else if v.len() == 2 {
        salt1 = v[1];
        salt2 = 0x48;
    } else {
        salt1 = 0x48;
        salt2 = 0x2E;
    }
    proof {
        if v@.len() < 8 {
            assert(v@ == e);
        } else {
            assert(e.len() >= v@.len());
        }
        assert((salt1, salt2) == spec_salt_pair(e));
        if v@.len() >= 8 {
            crate::util::lemma_pack_take(e, v@.len() as int);
        }
    }
    let key = crate::util::secret_to_key(v.as_slice());
    crate::des::zero_cipher_58(key, crate::util::decode_salt(salt1, salt2))
}

/// Runs the DES derivation directly over raw password bytes.
fn des_core_raw(password: &[u8]) -> (r: u64)
    ensures
        r == spec_des_core(password@),
        r & 0x3Fu64 == 0,
{
    let salt1: u8;
    let salt2: u8;
    if password.len() >= 3 {
        salt1 = password[1];
        salt2 = password[2];
    } else if password.len() == 2 {
        salt1 = password[1];
        salt2 = 0x48;
    } else {
        salt1 = 0x48;
        salt2 = 0x2E;
    }
    let key = crate::util::secret_to_key(password);
    crate::des::zero_cipher_58(key, crate::util::decode_salt(salt1, salt2))
}

/// Generator for tripcodes on 4chan.
pub struct Fourchan;

/// Same as `Fourchan` and `Mona10` except that it does not escape HTML
/// special characters in passwords.
pub struct FourchanNonescaping;

pub use crate::FourchanNonescaping as Mona10Nonescaping;

/// Generator for 2channel's 10-character tripcodes.
pub struct Mona10;

/// Trait for generators of tripcodes.
pub trait TripcodeGenerator {
    /// The type of hash value that represents resulting tripcodes.
    type Hash: TripcodeHash;

    /// The hash value that this scheme derives from a password.
    spec fn spec_hash(password: Seq<u8>) -> Self::Hash;

    /// Generates a hash value that represents the tripcode for
    /// `password`.
    fn hash(password: &[u8]) -> (h: Self::Hash)
        ensures
            h == Self::spec_hash(password@),
    ;

    /// Generates a tripcode from `password`.
    fn generate(password: &[u8]) -> (r: String)
        ensures
            r@ == Self::spec_hash(password@).spec_encode(),
    {
        Self::hash(password).encode()
    }

    /// Generates a tripcode from `password` and appends it to a
    /// `String`.
    fn append(password: &[u8], dst: &mut String)
        ensures
            final(dst)@ == old(dst)@ + Self::spec_hash(password@).spec_encode(),
    {
        Self::hash(password).append(dst)
    }

    /// Generates a tripcode into a `Write`.
    fn write<W: std::io::Write>(password: &[u8], dst: &mut W) -> std::io::Result<()> {
        Self::hash(password).write(dst)
    }

    /// Generates a tripcode in Shift-JIS encoding.
    fn generate_sjis(password: &[u8]) -> (r: Vec<u8>)
        ensures
            r@ == Self::spec_hash(password@).spec_encode_sjis(),
    {
        Self::hash(password).encode_to_sjis()
    }

    /// Generates a Shift-JIS-encoded tripcode and appends it to a
    /// `Vec<u8>`.
    fn append_sjis(password: &[u8], dst: &mut Vec<u8>)
        ensures
            final(dst)@ == old(dst)@ + Self::spec_hash(password@).spec_encode_sjis(),
    {
        Self::hash(password).append_sjis(dst)
    }

    /// Generates a Shift-JIS-encoded tripcode into a `Write`.
    fn write_sjis<W: std::io::Write>(password: &[u8], dst: &mut W) -> std::io::Result<()> {
        Self::hash(password).write_sjis(dst)
    }
}

impl TripcodeGenerator for Fourchan {
    type Hash = FourchanHash;

    open spec fn spec_hash(password: Seq<u8>) -> FourchanHash {
        FourchanHash(spec_des_core(crate::escape::spec_escaped(password, true)))
    }

    fn hash(password: &[u8]) -> (h: FourchanHash) {
        FourchanHash(des_core_escaped(password, true))
    }
}

impl TripcodeGenerator for FourchanNonescaping {
    type Hash = FourchanHash;

    open spec fn spec_hash(password: Seq<u8>) -> FourchanHash {
        FourchanHash(spec_des_core(password))
    }

    fn hash(password: &[u8]) -> (h: FourchanHash) {
        FourchanHash(des_core_raw(password))
    }
}

impl TripcodeGenerator for Mona10 {
    type Hash = Mona10Hash;

    open spec fn spec_hash(password: Seq<u8>) -> Mona10Hash {
        FourchanHash(spec_des_core(crate::escape::spec_escaped(password, false)))
    }

    fn hash(password: &[u8]) -> (h: Mona10Hash) {
        FourchanHash(des_core_escaped(password, false))
    }
}

/// Generator for 2channel's 12-character tripcodes.
pub struct Mona12;

/// Same as `Mona12` except that it does not escape HTML special
/// characters in passwords.
pub struct Mona12Nonescaping;

/// Generator for 2ch.sc's 15-character tripcodes.
pub struct Sc15;

/// Generator for 2ch.sc's katakana tripcodes.
pub struct ScKatakana;

impl TripcodeGenerator for Mona12 {
    type Hash = Mona12Hash;

    open spec fn spec_hash(password: Seq<u8>) -> Mona12Hash {
        crate::digest::spec_mona12_of_digest(
            crate::digest::sha1_of(crate::escape::spec_escaped(password, false)),
        )
    }

    fn hash(password: &[u8]) -> (h: Mona12Hash) {
        let e = crate::escape::escaped_full(password, false);
        crate::digest::mona12_digest(e.as_slice())
    }
}

impl TripcodeGenerator for Mona12Nonescaping {
    type Hash = Mona12Hash;

    open spec fn spec_hash(password: Seq<u8>) -> Mona12Hash {
        crate::digest::spec_mona12_of_digest(crate::digest::sha1_of(password))
    }

    fn hash(password: &[u8]) -> (h: Mona12Hash) {
        crate::digest::mona12_digest(password)
    }
}

impl TripcodeGenerator for Sc15 {
    type Hash = Sc15Hash;

    open spec fn spec_hash(password: Seq<u8>) -> Sc15Hash {
        crate::digest::spec_sc15_of_digest(crate::digest::sha1_of(password))
    }

    fn hash(password: &[u8]) -> (h: Sc15Hash) {
        crate::digest::sc15_digest(password)
    }
}

impl TripcodeGenerator for ScKatakana {
    type Hash = ScKatakanaHash;

    open spec fn spec_hash(password: Seq<u8>) -> ScKatakanaHash {
        ScKatakanaHash(crate::digest::spec_sc15_of_digest(crate::digest::sha1_of(password)))
    }

    fn hash(password: &[u8]) -> (h: ScKatakanaHash) {
        ScKatakanaHash(crate::digest::sc15_digest(password))
    }
}

/// Trait for tripcode generators which may fail in generation.
pub trait TripcodeGeneratorFailable {
    /// The type of hash value that represents resulting tripcodes.
    type Hash: TripcodeHash;

    /// The hash value that this scheme derives from a password, if the
    /// password is valid for it.
    spec fn spec_try_hash(password: Seq<u8>) -> Option<Self::Hash>;

    /// Attempts to generate a hash value from `password`.
    ///
    /// Returns `None` when passed an invalid password.
    fn try_hash(password: &[u8]) -> (h: Option<Self::Hash>)
        ensures
            h == Self::spec_try_hash(password@),
    ;

    /// Attempts to generate a tripcode from `password`.
    ///
    /// Returns `None` when passed an invalid password.
    fn try_generate(password: &[u8]) -> (r: Option<String>)
        ensures
            r is Some <==> Self::spec_try_hash(password@) is Some,
            r is Some ==> r->Some_0@ == Self::spec_try_hash(password@)->Some_0.spec_encode(),
    {
        match Self::try_hash(password) {
            Some(h) => Some(h.encode()),
            None => None,
        }
    }

    /// Attempts to generate a tripcode into a `String`.
    ///
    /// Returns `None` when passed an invalid password.
    fn try_append(password: &[u8], dst: &mut String) -> (r: Option<()>)
        ensures
            r is Some <==> Self::spec_try_hash(password@) is Some,
            r is Some ==> final(dst)@ == old(dst)@ + Self::spec_try_hash(
                password@,
            )->Some_0.spec_encode(),
            r is None ==> final(dst)@ == old(dst)@,
    {
        match Self::try_hash(password) {
            Some(h) => {
                h.append(dst);
                Some(())
            },
            None => None,
        }
    }

    /// Attempts to generate a tripcode into a `Write`.
    ///
    /// Returns `None` when passed an invalid password.
    fn try_write<W: std::io::Write>(password: &[u8], dst: &mut W) -> (r: Option<
        std::io::Result<()>,
    >)
        ensures
            r is Some <==> Self::spec_try_hash(password@) is Some,
    {
        match Self::try_hash(password) {
            Some(h) => Some(h.write(dst)),
            None => None,
        }
    }

    /// Attempts to generate a tripcode in Shift-JIS encoding.
    ///
    /// Returns `None` when passed an invalid password.
    fn try_generate_sjis(password: &[u8]) -> (r: Option<Vec<u8>>)
        ensures
            r is Some <==> Self::spec_try_hash(password@) is Some,
            r is Some ==> r->Some_0@ == Self::spec_try_hash(
                password@,
            )->Some_0.spec_encode_sjis(),
    {
        match Self::try_hash(password) {
            Some(h) => Some(h.encode_to_sjis()),
            None => None,
        }
    }

    /// Attempts to generate a Shift-JIS-encoded tripcode into a
    /// `Vec<u8>`.
    ///
    /// Returns `None` when passed an invalid password.
    fn try_append_sjis(password: &[u8], dst: &mut Vec<u8>) -> (r: Option<()>)
        ensures
            r is Some <==> Self::spec_try_hash(password@) is Some,
            r is Some ==> final(dst)@ == old(dst)@ + Self::spec_try_hash(
                password@,
            )->Some_0.spec_encode_sjis(),
            r is None ==> final(dst)@ == old(dst)@,
    {
        match Self::try_hash(password) {
            Some(h) => {
                h.append_sjis(dst);
                Some(())
            },
            None => None,
        }
    }

    /// Attempts to generate a Shift-JIS-encoded tripcode into a
    /// `Write`.
    ///
    /// Returns `None` when passed an invalid password.
    fn try_write_sjis<W: std::io::Write>(password: &[u8], dst: &mut W) -> (r: Option<
        std::io::Result<()>,
    >)
        ensures
            r is Some <==> Self::spec_try_hash(password@) is Some,
    {
        match Self::try_hash(password) {
            Some(h) => Some(h.write_sjis(dst)),
            None => None,
        }
    }
}

impl<T: TripcodeGenerator> TripcodeGeneratorFailable for T {
    type Hash = <T as TripcodeGenerator>::Hash;

    open spec fn spec_try_hash(password: Seq<u8>) -> Option<Self::Hash> {
        Some(T::spec_hash(password))
    }

    fn try_hash(password: &[u8]) -> (h: Option<Self::Hash>) {
        Some(T::hash(password))
    }
}

/// Generator for 2channel's raw-secret tripcodes, whose password
/// spells the DES key in hexadecimal.
///
/// This generator is failable so only implements
/// `TripcodeGeneratorFailable`.
pub struct MonaRaw;

/// Whether every byte of `p` from index `from` up to 17 is a
/// hexadecimal digit.
pub open spec fn spec_all_hex(p: Seq<u8>, from: int) -> bool {
    forall|j: int| from <= j < 17 ==> crate::util::spec_hex_to_i(#[trigger] p[j]) != 0x10
}

/// The secret bytes spelled by hex digit pairs from pair `i` on, if
/// they decode: a pair of a non-digit fails, and a zero byte ends the
/// secret early provided every remaining byte up to position 17 is a
/// digit, the rest of the secret being zero.
pub open spec fn spec_raw_tail(p: Seq<u8>, i: int) -> Option<Seq<u8>>
    decreases 8 - i,
{
    if i >= 8 {
        Some(Seq::empty())
    } else {
        let d1 = crate::util::spec_hex_to_i(p[2 * i + 1]);
        let d0 = crate::util::spec_hex_to_i(p[2 * i + 2]);
        if d1 > 0xF || d0 > 0xF {
            None
        } else {
            let byte = (d1 << 4u8) | d0;
            if byte == 0 {
                if spec_all_hex(p, 2 * i + 1) {
                    Some(Seq::new((8 - i) as nat, |j: int| 0u8))
                } else {
                    None
                }
            } else {
                match spec_raw_tail(p, i + 1) {
                    Some(rest) => Some(seq![byte] + rest),
                    None => None,
                }
            }
        }
    }
}

/// The salt that the optional trailing characters of a raw-secret
/// password spell, strictly validated.
pub open spec fn spec_raw_salt(p: Seq<u8>) -> Option<u32> {
    if p.len() == 17 {
        Some(0u32)
    } else if p.len() == 18 {
        crate::util::spec_decode_salt_strict(p[17], 0x2E)
    } else {
        crate::util::spec_decode_salt_strict(p[17], p[18])
    }
}

fn all_hex(p: &[u8], from: usize) -> (r: bool)
    requires
        p@.len() >= 17,
    ensures
        r == spec_all_hex(p@, from as int),
{
    let mut j = from;
    while j < 17
        invariant
            p@.len() >= 17,
            from <= j,
            forall|k: int| from <= k < j ==> crate::util::spec_hex_to_i(#[trigger] p@[k]) != 0x10,
        decreases 17 - j,
    {
        if hex_to_i(p[j]) == 0x10 {
            return false;
        }
        j = j + 1;
    }
    true
}

fn raw_tail(p: &[u8], i: usize) -> (r: Option<Vec<u8>>)
    requires
        p@.len() >= 17,
        i <= 8,
    ensures
        r is Some <==> spec_raw_tail(p@, i as int) is Some,
        r is Some ==> r->Some_0@ == spec_raw_tail(p@, i as int)->Some_0,
    decreases 8 - i,
{
    if i >= 8 {
        Some(Vec::new())
    } else {
        let d1 = hex_to_i(p[2 * i + 1]);
        let d0 = hex_to_i(p[2 * i + 2]);
        if d1 > 0xF || d0 > 0xF {
            None
        } else {
            let byte = (d1 << 4u8) | d0;
            if byte == 0 {
                if all_hex(p, 2 * i + 1) {
                    let mut zeros: Vec<u8> = Vec::new();
                    let n = 8 - i;
                    for k in 0..n
                        invariant
                            zeros@.len() == k,
                            forall|m: int| 0 <= m < k ==> zeros@[m] == 0u8,
                    {
                        zeros.push(0);
                    }
                    proof {
                        assert(zeros@ =~= Seq::new((8 - i) as nat, |j: int| 0u8));
                    }
                    Some(zeros)
                } else {
                    None
                }
            } else {
                match raw_tail(p, i + 1) {
                    Some(rest) => {
                        let mut secret = rest;
                        secret.insert(0, byte);
                        proof {
                            assert(secret@ =~= seq![byte] + spec_raw_tail(
                                p@,
                                i as int + 1,
                            )->Some_0);
                        }
                        Some(secret)
                    },
                    None => None,
                }
            }
        }
    }
}

impl TripcodeGeneratorFailable for MonaRaw {
    type Hash = Mona10Hash;

    open spec fn spec_try_hash(password: Seq<u8>) -> Option<Mona10Hash> {
        if 17 <= password.len() <= 19 {
            match spec_raw_salt(password) {
                Some(salt) => match spec_raw_tail(password, 0) {
                    Some(secret) => Some(
                        FourchanHash(
                            crate::des::spec_zero_cipher_58(
                                crate::util::spec_secret_to_key(secret),
                                salt,
                            ),
                        ),
                    ),
                    None => None,
                },
                None => None,
            }
        } else {
            None
        }
    }

    fn try_hash(password: &[u8]) -> (h: Option<Mona10Hash>) {
        let salt: u32;
        if password.len() == 17 {
            salt = 0;
        } else if password.len() == 18 {
            match decode_salt_strict(password[17], 0x2E) {
                Some(s) => {
                    salt = s;
                },
                None => {
                    return None;
                },
            }
        } else if password.len() == 19 {
            match decode_salt_strict(password[17], password[18]) {
                Some(s) => {
                    salt = s;
                },
                None => {
                    return None;
                },
            }
        } else {
            return None;
        }
        match raw_tail(password, 0) {
            Some(secret) => {
                let key = secret_to_key(secret.as_slice());
                Some(FourchanHash(crate::des::zero_cipher_58(key, salt)))
            },
            None => None,
        }
    }
}

/// Generator for tripcodes on 2channel.
///
/// The format of resulting tripcodes is determined as follows:
///
/// * If the escaped password is 12 or more bytes long and:
///     * begins with a `'#'` sign -> raw-secret tripcode;
///     * begins with a `'$'` sign -> `"???"` (undefined);
///     * else -> 12-character tripcode.
/// * else -> 10-character tripcode.
pub struct Mona;

/// Same as `Mona` except that it does not escape HTML special
/// characters in passwords.
pub struct MonaNonescaping;

/// Generator for tripcodes on 2ch.sc.
///
/// The format of resulting tripcodes is determined as follows:
///
/// * If the password is 12 or more bytes long and:
///     * begins with a `'#'` sign -> raw-secret tripcode;
///     * begins with a `'$'` sign and:
///         * the `'$'` sign is followed by a half-width katakana
///           character -> katakana tripcode;
///         * else -> 15-character tripcode.
///     * else -> 12-character tripcode.
/// * else -> 10-character tripcode.
pub struct Sc;

/// Same as `Sc` except that it treats passwords as Shift-JIS-encoded
/// when recognizing katakana tripcodes.
pub struct ScSjis;

/// The 2channel format dispatch: a pure classification of one
/// password.  `escape` selects whether lengths and hashes are taken
/// over the HTML-escaped password.
pub open spec fn spec_mona_hash(p: Seq<u8>, escape: bool) -> MonaHash {
    let elen: int = if escape {
        crate::escape::spec_escaped(p, false).len() as int
    } else {
        p.len() as int
    };
    if elen >= 12 {
        if p[0] == 0x23 {
            match MonaRaw::spec_try_hash(p) {
                Some(h) => MonaHash::Ten(h),
                None => MonaHash::Error,
            }
        } else if p[0] == 0x24 {
            MonaHash::Error
        } else {
            if escape {
                MonaHash::Twelve(Mona12::spec_hash(p))
            } else {
                MonaHash::Twelve(Mona12Nonescaping::spec_hash(p))
            }
        }
    } else {
        if escape {
            MonaHash::Ten(Mona10::spec_hash(p))
        } else {
            MonaHash::Ten(FourchanNonescaping::spec_hash(p))
        }
    }
}

/// The escaped stream of an empty password is empty, so a password
/// whose escaped stream reaches any length is nonempty.
proof fn lemma_escaped_nonempty(p: Seq<u8>, amp: bool)
    requires
        crate::escape::spec_escaped(p, amp).len() >= 1,
    ensures
        p.len() >= 1,
{
    if p.len() == 0 {
        assert(crate::escape::spec_escaped(p, amp).len() == 0);
    }
}

fn mona_hash_dispatch(password: &[u8], escape: bool) -> (r: MonaHash)
    ensures
        r == spec_mona_hash(password@, escape),
{
    let big: bool;
    if escape {
        big = crate::escape::escaped_len_at_least(password, false, 12);
    } else {
        big = password.len() >= 12;
    }
    if big {
        proof {
            if escape {
                lemma_escaped_nonempty(password@, false);
            }
        }
        let sign = password[0];
        if sign == 0x23 {
            match MonaRaw::try_hash(password) {
                Some(h) => MonaHash::Ten(h),
                None => MonaHash::Error,
            }
        } else if sign == 0x24 {
            MonaHash::Error
        } else {
            if escape {
                MonaHash::Twelve(Mona12::hash(password))
            } else {
                MonaHash::Twelve(Mona12Nonescaping::hash(password))
            }
        }
    } else {
        if escape {
            MonaHash::Ten(Mona10::hash(password))
        } else {
            MonaHash::Ten(FourchanNonescaping::hash(password))
        }
    }
}

impl TripcodeGenerator for Mona {
    type Hash = MonaHash;

    open spec fn spec_hash(password: Seq<u8>) -> MonaHash {
        spec_mona_hash(password, true)
    }

    fn hash(password: &[u8]) -> (h: MonaHash) {
        mona_hash_dispatch(password, true)
    }
}

impl TripcodeGenerator for MonaNonescaping {
    type Hash = MonaHash;

    open spec fn spec_hash(password: Seq<u8>) -> MonaHash {
        spec_mona_hash(password, false)
    }

    fn hash(password: &[u8]) -> (h: MonaHash) {
        mona_hash_dispatch(password, false)
    }
}

/// The 2ch.sc format dispatch.  `sjis` selects the Shift-JIS
/// recognition of a katakana second character; the shorter forms do
/// not HTML-escape.
pub open spec fn spec_sc_hash(p: Seq<u8>, sjis: bool) -> ScHash {
    if p.len() >= 12 {
        if p[0] == 0x23 {
            match MonaRaw::spec_try_hash(p) {
                Some(h) => ScHash::Ten(h),
                None => ScHash::Error,
            }
        } else if p[0] == 0x24 {
            let h = Sc15::spec_hash(p);
            let katakana = if sjis {
                0xA1 <= p[1] <= 0xDF
            } else {
                crate::util::spec_starts_with_katakana(p)
            };
            if katakana {
                ScHash::Katakana(ScKatakanaHash(h))
            } else {
                ScHash::Fifteen(h)
            }
        } else {
            ScHash::Twelve(Mona12Nonescaping::spec_hash(p))
        }
    } else {
        ScHash::Ten(FourchanNonescaping::spec_hash(p))
    }
}

fn sc_hash_dispatch(password: &[u8], sjis: bool) -> (r: ScHash)
    ensures
        r == spec_sc_hash(password@, sjis),
{
    if password.len() >= 12 {
        let sign = password[0];
        if sign == 0x23 {
            match MonaRaw::try_hash(password) {
                Some(h) => ScHash::Ten(h),
                None => ScHash::Error,
            }
        } else if sign == 0x24 {
            let h = Sc15::hash(password);
            let katakana: bool;
            if sjis {
                let first = password[1];
                katakana = 0xA1 <= first && first <= 0xDF;
            } else {
                katakana = sc_password_starts_with_katakana(password);
            }
            if katakana {
                ScHash::Katakana(ScKatakanaHash(h))
            } else {
                ScHash::Fifteen(h)
            }
        } else {
            ScHash::Twelve(Mona12Nonescaping::hash(password))
        }
    } else {
        ScHash::Ten(FourchanNonescaping::hash(password))
    }
}

impl TripcodeGenerator for Sc {
    type Hash = ScHash;

    open spec fn spec_hash(password: Seq<u8>) -> ScHash {
        spec_sc_hash(password, false)
    }

    fn hash(password: &[u8]) -> (h: ScHash) {
        sc_hash_dispatch(password, false)
    }
}

impl TripcodeGenerator for ScSjis {
    type Hash = ScHash;

    open spec fn spec_hash(password: Seq<u8>) -> ScHash {
        spec_sc_hash(password, true)
    }

    fn hash(password: &[u8]) -> (h: ScHash) {
        sc_hash_dispatch(password, true)
    }
}

/// Generator for DES-based tripcodes (4chan and 2channel's
/// 10-character tripcode) that accepts custom salt characters.
///
/// It is essentially the legacy crypt one-way function, but treats
/// invalid salt characters in 4chan and 2channel's fashion: every byte
/// outside the salt alphabet folds deterministically onto a character
/// of it, as the lenient salt table of the `util` module spells out.
pub struct Des;

impl Des {
    /// The hash value derived from a password and a pair of custom
    /// salt characters.
    pub open spec fn spec_hash(password: Seq<u8>, salt1: u8, salt2: u8) -> FourchanHash {
        FourchanHash(
            crate::des::spec_zero_cipher_58(
                crate::util::spec_secret_to_key(password),
                crate::util::spec_decode_salt(salt1, salt2),
            ),
        )
    }

    /// Generates a hash value from `password` and a pair of custom
    /// salt characters.
    pub fn hash(password: &[u8], salt1: u8, salt2: u8) -> (h: FourchanHash)
        ensures
            h == Self::spec_hash(password@, salt1, salt2),
    {
        let key = secret_to_key(password);
        FourchanHash(crate::des::zero_cipher_58(key, decode_salt(salt1, salt2)))
    }

    /// Generates a tripcode from `password` and a pair of custom salt
    /// characters.
    pub fn generate(password: &[u8], salt1: u8, salt2: u8) -> (r: String)
        ensures
            r@ == Self::spec_hash(password@, salt1, salt2).spec_encode(),
    {
        Self::hash(password, salt1, salt2).encode()
    }

    /// Generates a tripcode and appends it to a `String`.
    pub fn append(password: &[u8], salt1: u8, salt2: u8, dst: &mut String)
        ensures
            final(dst)@ == old(dst)@ + Self::spec_hash(password@, salt1, salt2).spec_encode(),
    {
        Self::hash(password, salt1, salt2).append(dst)
    }

    /// Generates a tripcode into a `Write`.
    pub fn write<W: std::io::Write>(password: &[u8], salt1: u8, salt2: u8, dst: &mut W) -> std::io::Result<
        (),
    > {
        Self::hash(password, salt1, salt2).write(dst)
    }
}

/// Hash derivation is deterministic: the hash value of a scheme is a
/// function of the password bytes alone, so equal passwords give equal
/// hash values, across repeated calls and across threads.
pub proof fn lemma_hash_deterministic<G: TripcodeGenerator>(p: Seq<u8>, q: Seq<u8>)
    requires
        p == q,
    ensures
        G::spec_hash(p) == G::spec_hash(q),
{
}

/// Failable hash derivation is deterministic as well: whether a
/// password is accepted, and the hash it gives when it is, are
/// functions of the password bytes alone.
pub proof fn lemma_try_hash_deterministic<G: TripcodeGeneratorFailable>(p: Seq<u8>, q: Seq<u8>)
    requires
        p == q,
    ensures
        G::spec_try_hash(p) == G::spec_try_hash(q),
{
}

/// Every hash value that the 2channel dispatcher derives is well
/// formed, so the codec round-trip laws apply to it.
pub proof fn lemma_mona_hash_wf(p: Seq<u8>, escape: bool)
    ensures
        spec_mona_hash(p, escape).wf(),
{
    let elen: int = if escape {
        crate::escape::spec_escaped(p, false).len() as int
    } else {
        p.len() as int
    };
    if elen >= 12 {
        if p[0] == 0x23 && MonaRaw::spec_try_hash(p) is Some {
            let secret = spec_raw_tail(p, 0)->Some_0;
            let salt = spec_raw_salt(p)->Some_0;
            crate::des::lemma_zero_cipher_58_wf(crate::util::spec_secret_to_key(secret), salt);
        }
    } else {
        let e = if escape {
            crate::escape::spec_escaped(p, false)
        } else {
            p
        };
        let (s1, s2) = spec_salt_pair(e);
        crate::des::lemma_zero_cipher_58_wf(
            crate::util::spec_secret_to_key(e),
            crate::util::spec_decode_salt(s1, s2),
        );
    }
}

/// Every hash value that the 2ch.sc dispatcher derives is well
/// formed, so the codec round-trip laws apply to it.
pub proof fn lemma_sc_hash_wf(p: Seq<u8>, sjis: bool)
    ensures
        spec_sc_hash(p, sjis).wf(),
{
    if p.len() >= 12 {
        if p[0] == 0x23 && MonaRaw::spec_try_hash(p) is Some {
            let secret = spec_raw_tail(p, 0)->Some_0;
            let salt = spec_raw_salt(p)->Some_0;
            crate::des::lemma_zero_cipher_58_wf(crate::util::spec_secret_to_key(secret), salt);
        } else if p[0] == 0x24 {
            crate::digest::lemma_sc15_of_digest_wf(crate::digest::sha1_of(p));
        }
    } else {
        let (s1, s2) = spec_salt_pair(p);
        crate::des::lemma_zero_cipher_58_wf(
            crate::util::spec_secret_to_key(p),
            crate::util::spec_decode_salt(s1, s2),
        );
    }
}

/// The escaped-length boundary of the 2channel dispatcher: a password
/// without a format sign whose escaped stream is exactly 11 bytes long
/// takes the 10-character format, and one of exactly 12 the
/// 12-character format.
pub proof fn lemma_mona_length_boundary(p: Seq<u8>)
    requires
        p.len() >= 1,
        p[0] != 0x23,
        p[0] != 0x24,
    ensures
        crate::escape::spec_escaped(p, false).len() == 11 ==> spec_mona_hash(p, true) is Ten,
        crate::escape::spec_escaped(p, false).len() == 12 ==> spec_mona_hash(p, true) is Twelve,
{
}

/// The length boundary of raw-secret eligibility: a `'#'`-prefixed
/// password of 16 bytes is undefined, and one of 17 takes the
/// 10-character format exactly when its raw secret validates.
pub proof fn lemma_raw_length_boundary(p: Seq<u8>)
    requires
        p.len() >= 1,
        p[0] == 0x23,
        crate::escape::spec_escaped(p, false).len() >= 12,
    ensures
        p.len() == 16 ==> spec_mona_hash(p, true) == MonaHash::Error,
        p.len() == 17 ==> (spec_mona_hash(p, true) is Ten <==> MonaRaw::spec_try_hash(p)
            is Some),
{
}

} // verus!
