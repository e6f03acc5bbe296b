use tripcode::Des;
use tripcode::Fourchan;
use tripcode::Mona;
use tripcode::Mona10;
use tripcode::Mona12;
use tripcode::Sc;
use tripcode::Sc15;
use tripcode::ScKatakana;
use tripcode::ScSjis;
use tripcode::TripcodeGenerator;

fn check<G: TripcodeGenerator>(expected: &str, password: &[u8]) {
    let tripcode = G::generate(password);
    assert_eq!(expected, &tripcode, "password: {:?}", password);

    let mut tripcode = String::with_capacity(45);
    G::append(password, &mut tripcode);
    assert_eq!(expected, &tripcode, "password: {:?}", password);

    let mut tripcode = [0u8; 15];
    G::write(password, &mut (&mut tripcode as &mut [u8])).unwrap();
    assert_eq!(
        expected.as_bytes(),
        &tripcode[..expected.len()],
        "password: {:?}",
        password
    );
}

fn check_mona(expected: &str, password: &str) {
    check::<Mona>(expected, password.as_bytes());
}

#[test]
fn mod_mona_10_matches() {
    check_mona("jPpg5.obl6", r"");
    check_mona("nOA3ItxPxI", r"k");
    check_mona("GDsuFp4oF6", r"[K");
    check_mona("IG4wjn.Cxc", r"2 V");
    check_mona("P97zJ5IHPI", r"|TB~");
    check_mona(".HIpR.ZMqM", r"(~A5|");
    check_mona("9zAZPOvSZI", r"[6??Pz");
    check_mona("KgeLOKK0NQ", r"ErdxpJ$");
    check_mona("BX6/llcs1o", r"dib3Q_4x");
    check_mona("6trdEPfEr6", r"R%!IuxM.t");
}

#[test]
fn mod_mona_raw_matches() {
    check_mona("IP9Lda5FPc", "#0123456789abcdef./");
    check_mona("7Uzd/KllpE", "#FF00000000000000");
    check_mona("7Uzd/KllpE", "#FF00FFFFFFFFFFFF");
}

#[test]
fn mod_mona_12_matches() {
    check_mona("50D13FhHVb0y", "POVD@psDFdsopfij");
    check_mona("/ybNw16ve2hX", "123ABCdef#=?");
}

#[test]
fn mod_mona_invalid() {
    check_mona("???", "$23456789012");
    check_mona("???", "#abcdefghijklmnop");
    check_mona("???", "#fedcba9876543210!!");
    check_mona("???", "#abcdef0123456789ghi");
    check_mona("???", "#00abcdefghijklmn..");
}

#[test]
fn mod_sc_matches() {
    let t = "ﾃｽﾄ!ｹﾏﾜｬｴ･ｧﾎﾖｲﾎ";
    let k = b"\x24\xA1\x31\x30\x30\x38\x33\x34\x33\x31\x33\x31";
    assert_eq!(t, &ScSjis::generate(k));

    check::<Sc>("h3Si!7m4Qie8e.u", "$0123456789a".as_bytes());
}

#[test]
fn mod_html_escaping() {
    check_mona("TIWS518hyaVm", "abc&quot;def");
    check_mona("TIWS518hyaVm", "abc\"def");

    check_mona("pxr6zSrasrOD", "ab&quot;cdef");
    check_mona("pxr6zSrasrOD", "ab\"cdef");

    check_mona("ZC2NVileD3Mz", "a&quot;bcdef");
    check_mona("ZC2NVileD3Mz", "a\"bcdef");

    check_mona("Wg38i4X473pB", "&quot;abcdef");
    check_mona("Wg38i4X473pB", "\"abcdef");

    check_mona("Gw/f5wZwNg", "&lt;&gt;");
    check_mona("Gw/f5wZwNg", "<>");

    check_mona("LZ4ugyvTWU", "&quot;&lt;");
    check_mona("LZ4ugyvTWU", "\"<");

    check_mona("MhCJJ7GVT.", "&amp;");
    check::<Fourchan>("MhCJJ7GVT.", "&".as_bytes());
    check_mona("2r2Ga7GHRc", "&");
}

#[test]
fn mod_des() {
    let tripcode = Des::generate("password".as_bytes(), b'a', b's');
    assert_eq!("ozOtJW9BFA", &tripcode);
    let tripcode = Des::generate("".as_bytes(), b'H', b'.');
    assert_eq!("jPpg5.obl6", &tripcode);
}

#[test]
fn mod_append() {
    let mut tripcode = String::new();

    Mona10::append(b"a", &mut tripcode);
    Mona10::append(b"b", &mut tripcode);
    Mona10::append(b"c", &mut tripcode);
    Mona12::append(b"0123456789ab", &mut tripcode);
    Mona::append(b"##0123456789", &mut tripcode);
    let k = b"\x24\xA1\x31\x30\x30\x38\x33\x34\x33\x31\x33\x31";
    ScKatakana::append(k, &mut tripcode);
    Sc15::append(b"$a9876543210", &mut tripcode);
    Des::append(b"de", b'e', b'H', &mut tripcode);

    assert_eq!(
        "ZnBI2EKkq.\
         taAZ7oPCCM\
         wG1CV58ydQ\
         Ly0gXVRR0yVs\
         ???\
         ﾃｽﾄ!ｹﾏﾜｬｴ･ｧﾎﾖｲﾎ\
         x.r.XzgFZywTJhG\
         yqYXjvHgbk\
        ",
        &tripcode
    );
}
