use tripcode::hash::Mona10Hash;
use tripcode::hash::Mona12Hash;
use tripcode::hash::MonaHash;
use tripcode::hash::Sc15Hash;
use tripcode::hash::ScHash;
use tripcode::hash::ScKatakanaHash;
use tripcode::hash::TripcodeHash;

fn dec_enc<H: TripcodeHash + Copy>(t: &str) {
    assert_eq!(t, &H::decode(t).unwrap().encode());
}

#[test]
fn des_dec_enc() {
    dec_enc::<Mona10Hash>("abcd/0123.");
    dec_enc::<Mona10Hash>("/././././.");
}

#[test]
fn sha1_dec_enc() {
    dec_enc::<Mona12Hash>("Tripcode+rs/");
    dec_enc::<Mona12Hash>("Sha1/dec+enc");
}

#[test]
fn mona_dec_enc() {
    dec_enc::<MonaHash>("Ten/bytes.");
    dec_enc::<MonaHash>("Twelve/bytes");
    dec_enc::<MonaHash>("???");
}

#[test]
fn sc_15_dec_enc() {
    dec_enc::<Sc15Hash>("Fifteen!bytes!!");
    dec_enc::<Sc15Hash>("!!!!!!!!!!!!!!!");
}

#[test]
fn sc_katakana_dec_enc() {
    dec_enc::<ScKatakanaHash>("ｩﾜｮｩｼﾞｮｯｮｨｧｪｫｬｭ");
    dec_enc::<ScKatakanaHash>("ｲﾛﾊﾆﾎﾍﾄﾁﾘﾇﾙｦﾜｶﾖ");
    dec_enc::<ScKatakanaHash>("ﾀﾚｿﾂﾈﾔﾗﾑｳｲﾉｵｸﾔﾏ");
    dec_enc::<ScKatakanaHash>("ｹﾌｺｴﾃｱｻｷﾕﾒﾐｼｴｲﾓ");
    dec_enc::<ScKatakanaHash>("ｾｽﾝ!!!!!!ﾟ｡｢｣､･");
    dec_enc::<ScKatakanaHash>("!!!!!!!!!!!!!!!");
}

#[test]
fn sc_katakana_sjis_enc_dec() {
    let h = ScKatakanaHash(Sc15Hash(0x0123456789ABCDE0, 0xFEDCBA98));
    assert_eq!(h, ScKatakanaHash::decode_from_sjis(&h.encode_to_sjis()).unwrap());
}

#[test]
fn sc_dec_enc() {
    dec_enc::<ScHash>("123456789.");
    dec_enc::<ScHash>("0123456789ab");
    dec_enc::<ScHash>("123456789abcdef");
    dec_enc::<ScHash>("ｶﾀｶﾅﾄﾘｯﾌﾟﾃｽﾄﾃﾞｽ");
    dec_enc::<ScHash>("!!!!!!!!!!!!!!!");
    dec_enc::<ScHash>("???");
}

#[test]
fn sc_sjis_enc_dec() {
    let h = Sc15Hash(0x0123456789ABCDE0, 0xFEDCBA98);
    let w = ScHash::Katakana(ScKatakanaHash(h));
    assert_eq!(w, ScHash::decode_from_sjis(&w.encode_to_sjis()).unwrap());
    let w = ScHash::Fifteen(h);
    assert_eq!(w, ScHash::decode_from_sjis(&w.encode_to_sjis()).unwrap());
}

#[test]
fn decode_fails() {
    assert!(Mona10Hash::decode("hocho.🔪").is_none());

    assert!(Mona12Hash::decode("fried🍤ebi").is_none());

    assert!(MonaHash::decode("123456789abcdef").is_none());
    assert!(MonaHash::decode("+++++++++.").is_none());
    assert!(MonaHash::decode("............").is_none());

    assert!(Sc15Hash::decode("Lorem ipsum dolor").is_none());
    assert!(Sc15Hash::decode("Fifteen?bytes??").is_none());
    assert!(Sc15Hash::decode("ｶﾀｶﾅﾄﾘｯﾌﾟﾃﾞｽﾖ!!").is_none());

    assert!(ScKatakanaHash::decode("カタカナトリップテストテスト！").is_none());
    assert!(ScKatakanaHash::decode("ﾐｼﾞｶｽｷﾞﾙ!ﾀﾝｼｮｳ").is_none());
    assert!(ScKatakanaHash::decode("ｶﾀｶﾅﾄﾘｯﾌﾟﾓﾄﾞｷ!!!").is_none());
    assert!(ScKatakanaHash::decode("FifteenCharTrip").is_none());

    assert!(ScKatakanaHash::decode_from_sjis(b"0123456789abcde").is_none());

    assert!(ScHash::decode("abcdeｲﾛﾊﾆﾎ12345").is_none());
    assert!(ScHash::decode("0123456789abcdef").is_none());
    assert!(ScHash::decode("!!!").is_none());
}
