//! Concrete instances of the library's stated properties: the codec
//! round trips, determinism of hashing, and the format-selection
//! boundaries of the dispatchers.

use tripcode::hash::FourchanHash;
use tripcode::hash::Mona12Hash;
use tripcode::hash::MonaHash;
use tripcode::hash::Sc15Hash;
use tripcode::hash::ScHash;
use tripcode::hash::ScKatakanaHash;
use tripcode::hash::TripcodeHash;
use tripcode::Fourchan;
use tripcode::Mona;
use tripcode::Mona12;
use tripcode::MonaRaw;
use tripcode::Sc;
use tripcode::Sc15;
use tripcode::TripcodeGenerator;
use tripcode::TripcodeGeneratorFailable;

#[test]
fn hash_round_trips_through_text() {
    let h = FourchanHash(0xD3F6_B956_22CD_44C0);
    assert_eq!(Some(h), FourchanHash::decode(&h.encode()));

    let h = Mona12Hash(0x0123_4567_89AB_CDEF, 0x5A);
    assert_eq!(Some(h), Mona12Hash::decode(&h.encode()));

    let h = Sc15Hash(0xFEDC_BA98_7654_3210, 0x1234_5678 & !3);
    assert_eq!(Some(h), Sc15Hash::decode(&h.encode()));

    let h = ScKatakanaHash(Sc15Hash(0xFEDC_BA98_7654_3210, 0x1234_5678 & !3));
    assert_eq!(Some(h), ScKatakanaHash::decode(&h.encode()));

    let h = MonaHash::Error;
    assert_eq!(Some(h), MonaHash::decode(&h.encode()));

    let h = ScHash::Katakana(ScKatakanaHash(Sc15Hash(0x10, 0)));
    assert_eq!(Some(h), ScHash::decode(&h.encode()));
    assert_eq!(Some(h), ScHash::decode_from_sjis(&h.encode_to_sjis()));

    // The one excluded value: the all-filler katakana text belongs to
    // the 15-character format instead.
    let h = ScHash::Katakana(ScKatakanaHash(Sc15Hash(0xFFFF_FFFF_FFFF_FFF0, 0xFFFF_FFFC)));
    assert_eq!(
        Some(ScHash::Fifteen(Sc15Hash(0xFFFF_FFFF_FFFF_FFF0, 0xFFFF_FFFC))),
        ScHash::decode(&h.encode())
    );
}

#[test]
fn text_round_trips_through_hash() {
    for t in ["ozOtJW9BFA", "jPpg5.obl6", "zzzzzzzzzw"] {
        assert_eq!(t, &FourchanHash::decode(t).unwrap().encode());
    }
    for t in ["AAAAAAAAAAAA", "99999999999+", "t+lnR7LBqNQY"] {
        assert_eq!(t, &Mona12Hash::decode(t).unwrap().encode());
    }
    for t in ["h3Si!7m4Qie8e.u", "x.r.XzgFZywTJhG"] {
        assert_eq!(t, &Sc15Hash::decode(t).unwrap().encode());
    }
    assert_eq!("???", &MonaHash::decode("???").unwrap().encode());
}

#[test]
fn hashing_is_deterministic() {
    assert_eq!(Fourchan::hash(b"abc"), Fourchan::hash(b"abc"));
    assert_eq!("GmgU93SCyE", &Fourchan::generate(b"abc"));
    assert_eq!("GmgU93SCyE", &Fourchan::generate(b"abc"));
    assert_eq!(Mona::hash(b"#0123456789abcdef./"), Mona::hash(b"#0123456789abcdef./"));
    assert_eq!(Sc::hash(b"$0123456789a"), Sc::hash(b"$0123456789a"));
}

#[test]
fn escaped_length_boundary_selects_format() {
    // Eleven plain bytes stay in the 10-character format; twelve move
    // to the 12-character format.
    assert_eq!("cR08PK3l1o", &Mona::generate(b"aaaaaaaaaaa"));
    assert_eq!("OE/NFgqzszF0", &Mona::generate(b"aaaaaaaaaaaa"));
    // Escaping counts: six plain bytes and a quote escape to twelve.
    assert_eq!("DSOZCu1g6EmE", &Mona::generate(b"aaaaaa\""));
}

#[test]
fn raw_secret_length_boundary() {
    // Sixteen bytes are not enough for a raw secret; seventeen are.
    assert_eq!("???", &Mona::generate(b"#123456789abcdef"));
    assert!(MonaRaw::try_hash(b"#123456789abcdef").is_none());
    assert!(MonaRaw::try_hash(b"#0123456789abcdef").is_some());
    assert!(MonaRaw::try_hash(b"#0123456789abcdef./x").is_none());
}

#[test]
fn digest_depends_on_input() {
    // Distinct passwords reach distinct digest-based tripcodes.
    assert_eq!("x.r.XzgFZywTJhG", &Sc15::generate(b"$a9876543210"));
    assert_eq!("h3Si!7m4Qie8e.u", &Sc15::generate(b"$0123456789a"));
    assert_eq!("Ly0gXVRR0yVs", &Mona12::generate(b"0123456789ab"));
}

#[test]
fn error_value_round_trips() {
    assert_eq!("???", &Mona::generate(b"$23456789012"));
    assert_eq!(Some(MonaHash::Error), MonaHash::decode("???"));
    assert_eq!(Some(ScHash::Error), ScHash::decode("???"));
    assert_eq!(Some(ScHash::Error), ScHash::decode_from_sjis(b"???"));
    assert!(MonaHash::decode("??").is_none());
    assert!(MonaHash::decode("????").is_none());
}

#[test]
fn sjis_outputs_match_utf8_outputs() {
    let k = b"\x24\xA1\x31\x30\x30\x38\x33\x34\x33\x31\x33\x31";
    let h = tripcode::ScSjis::hash(k);
    let sjis = h.encode_to_sjis();
    assert_eq!(Some(h), ScHash::decode_from_sjis(&sjis));
    // The Shift-JIS bytes and the UTF-8 text spell the same symbols.
    assert_eq!(15, sjis.len());
    assert_eq!("ﾃｽﾄ!ｹﾏﾜｬｴ･ｧﾎﾖｲﾎ", &h.encode());
}
