//! Keys, as an application gets them.

use ianua::input::{encode, encode_paste, Key, ModifiersState, NamedKey};

fn mods(shift: bool, control: bool, alt: bool) -> ModifiersState {
    ModifiersState { shift, control, alt, super_key: false }
}

fn named(key: NamedKey, m: ModifiersState, app: bool) -> Option<Vec<u8>> {
    encode(&Key::Named(key), None, m, app)
}

fn typed(s: &str, text: Option<&str>, m: ModifiersState) -> Option<Vec<u8>> {
    encode(&Key::Character(s.to_string()), text, m, false)
}

#[test]
fn cursor_keys_follow_the_mode_and_the_modifiers() {
    let none = ModifiersState::default();
    assert_eq!(named(NamedKey::ArrowUp, none, false).unwrap(), b"\x1b[A");
    assert_eq!(named(NamedKey::ArrowUp, none, true).unwrap(), b"\x1bOA");
    assert_eq!(named(NamedKey::ArrowLeft, mods(true, false, false), true).unwrap(), b"\x1b[1;2D");
    assert_eq!(named(NamedKey::End, mods(false, true, false), false).unwrap(), b"\x1b[1;5F");
    assert_eq!(named(NamedKey::Home, mods(true, true, true), false).unwrap(), b"\x1b[1;8H");
}

#[test]
fn editing_and_function_keys() {
    let none = ModifiersState::default();
    assert_eq!(named(NamedKey::Insert, none, false).unwrap(), b"\x1b[2~");
    assert_eq!(named(NamedKey::PageDown, mods(false, false, true), false).unwrap(), b"\x1b[6;3~");
    assert_eq!(named(NamedKey::F1, none, false).unwrap(), b"\x1bOP");
    assert_eq!(named(NamedKey::F4, mods(false, true, false), false).unwrap(), b"\x1b[1;5S");
    assert_eq!(named(NamedKey::F5, none, false).unwrap(), b"\x1b[15~");
    assert_eq!(named(NamedKey::F12, mods(true, false, false), false).unwrap(), b"\x1b[24;2~");
}

#[test]
fn plain_named_keys() {
    let none = ModifiersState::default();
    assert_eq!(named(NamedKey::Enter, none, false).unwrap(), b"\r");
    assert_eq!(named(NamedKey::Backspace, mods(false, false, true), false).unwrap(), b"\x1b\x7f");
    assert_eq!(named(NamedKey::Tab, none, false).unwrap(), b"\t");
    assert_eq!(named(NamedKey::Tab, mods(true, false, false), false).unwrap(), b"\x1b[Z");
    assert_eq!(named(NamedKey::Space, mods(false, true, false), false).unwrap(), b"\0");
    assert_eq!(named(NamedKey::Space, mods(false, true, true), false).unwrap(), b"\x1b ");
    assert_eq!(named(NamedKey::Escape, none, false).unwrap(), b"\x1b");
    assert_eq!(named(NamedKey::Other, none, false), None);
}

#[test]
fn control_and_alt_with_characters() {
    let ctrl = mods(false, true, false);
    assert_eq!(typed("c", Some("c"), ctrl).unwrap(), [0x03]);
    assert_eq!(typed("Z", None, ctrl).unwrap(), [0x1a]);
    assert_eq!(typed("@", None, ctrl).unwrap(), [0x00]);
    assert_eq!(typed("[", None, ctrl).unwrap(), [0x1b]);
    assert_eq!(typed("\\", None, ctrl).unwrap(), [0x1c]);
    assert_eq!(typed("]", None, ctrl).unwrap(), [0x1d]);
    assert_eq!(typed("^", None, ctrl).unwrap(), [0x1e]);
    assert_eq!(typed("_", None, ctrl).unwrap(), [0x1f]);
    assert_eq!(typed("1", None, ctrl).unwrap(), b"1");
    assert_eq!(typed("x", Some("x"), mods(false, false, true)).unwrap(), b"\x1bx");
    assert_eq!(typed("x", None, mods(false, true, true)).unwrap(), b"\x1bx");
}

#[test]
fn text_of_the_layout_comes_first() {
    let none = ModifiersState::default();
    assert_eq!(typed("a", Some("\u{e9}"), none).unwrap(), "\u{e9}".as_bytes());
    assert_eq!(typed("a", None, none).unwrap(), b"a");
    assert_eq!(typed("a", Some(""), none), None);
    assert_eq!(encode(&Key::Other, Some("k"), none, false).unwrap(), b"k");
    assert_eq!(encode(&Key::Other, None, none, false), None);
}

#[test]
fn pasted_text_ends_once() {
    let evil = "\x1b[20\x1b[20\x1b[201~0~1~x\x1b[200~\x1b[201";
    let out = encode_paste(evil, true);
    let end = b"\x1b[201~";
    let places: Vec<usize> =
        (0..out.len()).filter(|i| out[*i..].starts_with(&end[..])).collect();
    assert_eq!(places, vec![out.len() - 6]);
    assert_eq!(out, b"\x1b[200~x\x1b[201\x1b[201~");
}

#[test]
fn pasted_lines_end_with_a_carriage_return() {
    assert_eq!(encode_paste("a\r\n\nb\r\rc\n", false), b"a\r\rb\r\rc\r");
    assert_eq!(encode_paste("\u{e9}", true), "\x1b[200~\u{e9}\x1b[201~".as_bytes());
    assert_eq!(encode_paste("", true), b"\x1b[200~\x1b[201~");
}
