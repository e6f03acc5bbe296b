//! The byte-level helpers: big-endian packing, hexadecimal digits,
//! and the two salt-decoding tables.

use tripcode::{decode_salt, decode_salt_strict, hex_to_i, pack_u64_be, secret_to_key};

#[test]
fn pack_reads_big_endian() {
    assert_eq!(0, pack_u64_be(b""));
    assert_eq!(0x6100_0000_0000_0000, pack_u64_be(b"a"));
    assert_eq!(0x0102_0304_0506_0708, pack_u64_be(&[1, 2, 3, 4, 5, 6, 7, 8]));
    // Bytes past the eighth are ignored.
    assert_eq!(
        0x0102_0304_0506_0708,
        pack_u64_be(&[1, 2, 3, 4, 5, 6, 7, 8, 0xFF, 0xFF])
    );
}

#[test]
fn key_clears_parity_positions() {
    assert_eq!(
        pack_u64_be(b"password") << 1 & 0xFEFE_FEFE_FEFE_FEFE,
        secret_to_key(b"password")
    );
    assert_eq!(0, secret_to_key(b"") & 0x0101_0101_0101_0101);
}

#[test]
fn hex_digits_decode() {
    assert_eq!(0, hex_to_i(b'0'));
    assert_eq!(9, hex_to_i(b'9'));
    assert_eq!(10, hex_to_i(b'a'));
    assert_eq!(15, hex_to_i(b'f'));
    assert_eq!(10, hex_to_i(b'A'));
    assert_eq!(15, hex_to_i(b'F'));
    assert_eq!(0x10, hex_to_i(b'g'));
    assert_eq!(0x10, hex_to_i(b' '));
}

#[test]
fn salt_decoding_folds_out_of_alphabet_bytes() {
    // In-alphabet bytes take their crypt values.
    assert_eq!(0, decode_salt(b'.', b'.'));
    assert_eq!((1 << 26) | (1 << 18), decode_salt(b'/', b'/'));
    assert_eq!((12 << 26) | (63 << 18), decode_salt(b'A', b'z'));
    // Out-of-alphabet bytes fold onto in-alphabet values instead of
    // being rejected: `:` aliases `A`, `[` aliases `a`, and bytes far
    // outside the printable range alias `.`.
    assert_eq!(decode_salt(b'A', b'.'), decode_salt(b':', b'.'));
    assert_eq!(decode_salt(b'a', b'.'), decode_salt(b'[', b'.'));
    assert_eq!(decode_salt(b'.', b'.'), decode_salt(0xFF, b' '));
}

#[test]
fn strict_salt_decoding_rejects() {
    assert_eq!(Some(0), decode_salt_strict(b'.', b'.'));
    assert_eq!(
        Some((19 << 26) | (0 << 18)),
        decode_salt_strict(b'H', b'.')
    );
    assert_eq!(None, decode_salt_strict(b':', b'.'));
    assert_eq!(None, decode_salt_strict(b'.', b'['));
    assert_eq!(None, decode_salt_strict(b' ', b' '));
}
