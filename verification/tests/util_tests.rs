use tripcode::sc_password_starts_with_katakana;

#[test]
fn starts_with_katakana() {
    assert!(sc_password_starts_with_katakana("$｡春".as_bytes()));
    assert!(sc_password_starts_with_katakana("$｢は".as_bytes()));
    assert!(sc_password_starts_with_katakana("$｣あ".as_bytes()));
    assert!(sc_password_starts_with_katakana("$､げ".as_bytes()));
    assert!(sc_password_starts_with_katakana("$･ぽ".as_bytes()));
    assert!(sc_password_starts_with_katakana("$ｦよー".as_bytes()));
    assert!(sc_password_starts_with_katakana("$ｧa".as_bytes()));
    assert!(sc_password_starts_with_katakana("$ｨb".as_bytes()));
    assert!(sc_password_starts_with_katakana("$ｩc".as_bytes()));
    assert!(sc_password_starts_with_katakana("$ｪdefg".as_bytes()));
    assert!(sc_password_starts_with_katakana("$ｫ ".as_bytes()));
    assert!(sc_password_starts_with_katakana("$ｬ".as_bytes()));
    assert!(sc_password_starts_with_katakana("$ｭ".as_bytes()));
    assert!(sc_password_starts_with_katakana("$ｮ".as_bytes()));
    assert!(sc_password_starts_with_katakana("$ｯ".as_bytes()));
    assert!(sc_password_starts_with_katakana("$ｰ".as_bytes()));
    assert!(sc_password_starts_with_katakana("$ｱ".as_bytes()));
    assert!(sc_password_starts_with_katakana("$ｲ".as_bytes()));
    assert!(sc_password_starts_with_katakana("$ｳ".as_bytes()));
    assert!(sc_password_starts_with_katakana("$ｴ".as_bytes()));
    assert!(sc_password_starts_with_katakana("$ｵ".as_bytes()));
    assert!(sc_password_starts_with_katakana("$ｶ".as_bytes()));
    assert!(sc_password_starts_with_katakana("$ｷ".as_bytes()));
    assert!(sc_password_starts_with_katakana("$ｸ".as_bytes()));
    assert!(sc_password_starts_with_katakana("$ｹ".as_bytes()));
    assert!(sc_password_starts_with_katakana("$ｺ".as_bytes()));
    assert!(sc_password_starts_with_katakana("$ｻ".as_bytes()));
    assert!(sc_password_starts_with_katakana("$ｼ".as_bytes()));
    assert!(sc_password_starts_with_katakana("$ｽ".as_bytes()));
    assert!(sc_password_starts_with_katakana("$ｾ".as_bytes()));
    assert!(sc_password_starts_with_katakana("$ｿ".as_bytes()));
    assert!(sc_password_starts_with_katakana("$ﾀ".as_bytes()));
    assert!(sc_password_starts_with_katakana("$ﾁ".as_bytes()));
    assert!(sc_password_starts_with_katakana("$ﾂ".as_bytes()));
    assert!(sc_password_starts_with_katakana("$ﾃ".as_bytes()));
    assert!(sc_password_starts_with_katakana("$ﾄ".as_bytes()));
    assert!(sc_password_starts_with_katakana("$ﾅ".as_bytes()));
    assert!(sc_password_starts_with_katakana("$ﾆ".as_bytes()));
    assert!(sc_password_starts_with_katakana("$ﾇ".as_bytes()));
    assert!(sc_password_starts_with_katakana("$ﾈ".as_bytes()));
    assert!(sc_password_starts_with_katakana("$ﾉ".as_bytes()));
    assert!(sc_password_starts_with_katakana("$ﾊ".as_bytes()));
    assert!(sc_password_starts_with_katakana("$ﾋ".as_bytes()));
    assert!(sc_password_starts_with_katakana("$ﾌ".as_bytes()));
    assert!(sc_password_starts_with_katakana("$ﾍ".as_bytes()));
    assert!(sc_password_starts_with_katakana("$ﾎ".as_bytes()));
    assert!(sc_password_starts_with_katakana("$ﾏ".as_bytes()));
    assert!(sc_password_starts_with_katakana("$ﾐ".as_bytes()));
    assert!(sc_password_starts_with_katakana("$ﾑ".as_bytes()));
    assert!(sc_password_starts_with_katakana("$ﾒ".as_bytes()));
    assert!(sc_password_starts_with_katakana("$ﾓ".as_bytes()));
    assert!(sc_password_starts_with_katakana("$ﾔ".as_bytes()));
    assert!(sc_password_starts_with_katakana("$ﾕ".as_bytes()));
    assert!(sc_password_starts_with_katakana("$ﾖ".as_bytes()));
    assert!(sc_password_starts_with_katakana("$ﾗ".as_bytes()));
    assert!(sc_password_starts_with_katakana("$ﾘ".as_bytes()));
    assert!(sc_password_starts_with_katakana("$ﾙ".as_bytes()));
    assert!(sc_password_starts_with_katakana("$ﾚ".as_bytes()));
    assert!(sc_password_starts_with_katakana("$ﾛ".as_bytes()));
    assert!(sc_password_starts_with_katakana("$ﾜ".as_bytes()));
    assert!(sc_password_starts_with_katakana("$ﾝ".as_bytes()));
    assert!(sc_password_starts_with_katakana("$ﾞ".as_bytes()));
    assert!(sc_password_starts_with_katakana("$ﾟ".as_bytes()));

    assert!(!sc_password_starts_with_katakana("$｠".as_bytes()));
    assert!(!sc_password_starts_with_katakana("$ﾠ".as_bytes()));
    assert!(!sc_password_starts_with_katakana("$ ｱｱｱｱｱ".as_bytes()));
}
