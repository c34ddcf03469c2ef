//! Keys and pasted text.

use ianua::input::encode_paste;

#[test]
fn paste_splice_cannot_reform_end_marker() {
    let evil = "\x1b[20\x1b[201~1~rm -rf ~";
    let out = encode_paste(evil, true);
    let s = String::from_utf8_lossy(&out);
    let body = &s[..s.len() - "\x1b[201~".len()];
    let body = &body["\x1b[200~".len()..];
    assert!(!body.contains("\x1b[201~"), "the text still holds the marker: {body:?}");
}

#[test]
fn paste_wraps_and_normalizes_newlines() {
    let out = encode_paste("a\nb", true);
    assert_eq!(out, b"\x1b[200~a\rb\x1b[201~");
    let plain = encode_paste("a\r\nb", false);
    assert_eq!(plain, b"a\rb");
}
