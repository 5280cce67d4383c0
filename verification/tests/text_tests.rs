use robohand::text::{bytes_eq, push_decimal, request_text, same_text};

fn decimal(v: i32) -> String {
    let mut out = Vec::new();
    push_decimal(&mut out, v);
    String::from_utf8(out).unwrap()
}

#[test]
fn decimal_matches_display() {
    for v in [0, 7, 10, 42, 100, 2_147_483_647, -1, -10, -305, i32::MIN] {
        assert_eq!(decimal(v), v.to_string());
    }
}

#[test]
fn request_text_trims_and_decodes() {
    assert_eq!(request_text(b"  ana \n"), "ana");
    assert_eq!(request_text(b"ROCK\r\n"), "ROCK");
    assert_eq!(request_text(b""), "");
    assert_eq!(request_text(b"\t \n"), "");
    assert_eq!(request_text("J\u{00f6}rg ".as_bytes()), "J\u{00f6}rg");
}

#[test]
fn request_text_rejects_invalid_utf8() {
    assert_eq!(request_text(&[0xff, 0x41]), "");
    assert_eq!(request_text(&[b'A', 0xc3]), "");
}

#[test]
fn byte_and_text_equality() {
    assert!(bytes_eq(b"abc", b"abc"));
    assert!(!bytes_eq(b"abc", b"abd"));
    assert!(!bytes_eq(b"abc", b"ab"));
    assert!(same_text("ROCK", "ROCK"));
    assert!(!same_text("ROCK", "rock"));
}

#[test]
fn request_text_trims_unicode_white_space() {
    assert_eq!(request_text("\u{3000}ana\u{00a0}\u{2028}".as_bytes()), "ana");
    assert_eq!(request_text("\u{0085}ROCK\u{200a}".as_bytes()), "ROCK");
    // U+200B (zero width space) is not White_Space and stays.
    assert_eq!(request_text("\u{200b}ROCK".as_bytes()), "\u{200b}ROCK");
}
