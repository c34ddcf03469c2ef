//! Keys and pasted text, encoded as a terminal sends them to an application.

use vstd::prelude::*;

use crate::text::{chars_of, push_decimal};

verus! {

/// A key that has a name.
#[derive(Clone, Copy, PartialEq, Eq, Debug, Structural)]
pub enum NamedKey {
    ArrowUp,
    ArrowDown,
    ArrowRight,
    ArrowLeft,
    Home,
    End,
    Insert,
    Delete,
    PageUp,
    PageDown,
    F1,
    F2,
    F3,
    F4,
    F5,
    F6,
    F7,
    F8,
    F9,
    F10,
    F11,
    F12,
    Enter,
    Backspace,
    Escape,
    Tab,
    Space,
    /// Any other key that has a name, such as a modifier.
    Other,
}

/// A key, as the keyboard layout has it.
pub enum Key {
    Named(NamedKey),
    /// The text that the key stands for.
    Character(String),
    /// A key that is not known, or a dead one.
    Other,
}

/// The modifiers that are held.
#[derive(Clone, Copy, PartialEq, Eq, Debug, Structural)]
pub struct ModifiersState {
    pub shift: bool,
    pub control: bool,
    pub alt: bool,
    /// Command on a Mac, the logo key elsewhere.
    pub super_key: bool,
}

/// No modifier held.
pub open spec fn no_modifiers() -> ModifiersState {
    ModifiersState { shift: false, control: false, alt: false, super_key: false }
}

impl Default for ModifiersState {
    fn default() -> (mods: ModifiersState)
        ensures
            mods == no_modifiers(),
    {
        ModifiersState { shift: false, control: false, alt: false, super_key: false }
    }
}

// ---- keys ----

/// The number that stands for the modifiers in a sequence: one, and one more for
/// shift, two for alt, four for control.
pub open spec fn modifier_number(mods: ModifiersState) -> int {
    1 + (if mods.shift {
        1int
    } else {
        0
    }) + (if mods.alt {
        2int
    } else {
        0
    }) + (if mods.control {
        4int
    } else {
        0
    })
}

/// The last byte of the sequence of a cursor key.
pub open spec fn cursor_letter(key: NamedKey) -> Option<u8> {
    match key {
        NamedKey::ArrowUp => Some(0x41u8),
        NamedKey::ArrowDown => Some(0x42u8),
        NamedKey::ArrowRight => Some(0x43u8),
        NamedKey::ArrowLeft => Some(0x44u8),
        NamedKey::Home => Some(0x48u8),
        NamedKey::End => Some(0x46u8),
        _ => None,
    }
}

/// The last byte of the sequence of F1 to F4.
pub open spec fn function_letter(key: NamedKey) -> Option<u8> {
    match key {
        NamedKey::F1 => Some(0x50u8),
        NamedKey::F2 => Some(0x51u8),
        NamedKey::F3 => Some(0x52u8),
        NamedKey::F4 => Some(0x53u8),
        _ => None,
    }
}

/// The number in the sequence of an editing key, or of F5 to F12.
pub open spec fn tilde_number(key: NamedKey) -> Option<u8> {
    match key {
        NamedKey::Insert => Some(2u8),
        NamedKey::Delete => Some(3u8),
        NamedKey::PageUp => Some(5u8),
        NamedKey::PageDown => Some(6u8),
        NamedKey::F5 => Some(15u8),
        NamedKey::F6 => Some(17u8),
        NamedKey::F7 => Some(18u8),
        NamedKey::F8 => Some(19u8),
        NamedKey::F9 => Some(20u8),
        NamedKey::F10 => Some(21u8),
        NamedKey::F11 => Some(23u8),
        NamedKey::F12 => Some(24u8),
        _ => None,
    }
}

/// `ESC [ x` or, in application mode, `ESC O x`; with modifiers `ESC [ 1 ; m x`.
pub open spec fn letter_sequence(letter: u8, m: int, application: bool) -> Seq<u8> {
    if m != 1 {
        seq![0x1bu8, 0x5bu8, 0x31u8, 0x3bu8, (0x30 + m) as u8, letter]
    } else if application {
        seq![0x1bu8, 0x4fu8, letter]
    } else {
        seq![0x1bu8, 0x5bu8, letter]
    }
}

/// `ESC [ n ~`; with modifiers `ESC [ n ; m ~`.
pub open spec fn tilde_sequence(n: u8, m: int) -> Seq<u8> {
    seq![0x1bu8, 0x5bu8] + crate::text::decimal(n as nat) + (if m != 1 {
        seq![0x3bu8, (0x30 + m) as u8, 0x7eu8]
    } else {
        seq![0x7eu8]
    })
}

/// What a key that types a control character sends.
pub open spec fn plain_named(key: NamedKey, shift: bool) -> Option<Seq<u8>> {
    match key {
        NamedKey::Enter => Some(seq![0x0du8]),
        NamedKey::Backspace => Some(seq![0x7fu8]),
        NamedKey::Escape => Some(seq![0x1bu8]),
        NamedKey::Tab => Some(
            if shift {
                seq![0x1bu8, 0x5bu8, 0x5au8]
            } else {
                seq![0x09u8]
            },
        ),
        NamedKey::Space => Some(seq![0x20u8]),
        _ => None,
    }
}

/// Bytes with an escape before them where alt is held.
pub open spec fn with_alt(bytes: Seq<u8>, alt: bool) -> Seq<u8> {
    if alt {
        seq![0x1bu8] + bytes
    } else {
        bytes
    }
}

/// What a named key sends.
pub open spec fn named_sequence(key: NamedKey, mods: ModifiersState, app_cursor: bool) -> Option<
    Seq<u8>,
> {
    let m = modifier_number(mods);
    if key == NamedKey::Space && mods.control && !mods.alt {
        Some(seq![0x00u8])
    } else if cursor_letter(key) is Some {
        Some(letter_sequence(cursor_letter(key)->0, m, app_cursor))
    } else if function_letter(key) is Some {
        Some(letter_sequence(function_letter(key)->0, m, true))
    } else if tilde_number(key) is Some {
        Some(tilde_sequence(tilde_number(key)->0, m))
    } else {
        match plain_named(key, mods.shift) {
            Some(bytes) => Some(with_alt(bytes, mods.alt)),
            None => None,
        }
    }
}

/// The control character that a character gives with control held.
pub open spec fn control_of(c: char) -> Option<u8> {
    if 'a' <= c <= 'z' {
        Some((c as int - 'a' as int + 1) as u8)
    } else if 'A' <= c <= 'Z' {
        Some((c as int - 'A' as int + 1) as u8)
    } else if c == ' ' || c == '@' {
        Some(0x00u8)
    } else if c == '[' {
        Some(0x1bu8)
    } else if c == '\\' {
        Some(0x1cu8)
    } else if c == ']' {
        Some(0x1du8)
    } else if c == '^' {
        Some(0x1eu8)
    } else if c == '_' {
        Some(0x1fu8)
    } else {
        None
    }
}

/// The control character that text gives by its first character.
pub open spec fn control_byte(text: Seq<char>) -> Option<u8> {
    if text.len() == 0 {
        None
    } else {
        control_of(text[0])
    }
}

/// What text sends; nothing for none.
pub open spec fn typed(text: Seq<char>, alt: bool) -> Option<Seq<u8>> {
    if text.len() == 0 {
        None
    } else {
        Some(with_alt(vstd::utf8::encode_utf8(text), alt))
    }
}

/// What a key sends: `text` is what the keyboard layout makes of it, where that is
/// known.
pub open spec fn encoded(
    key: Key,
    text: Option<Seq<char>>,
    mods: ModifiersState,
    app_cursor: bool,
) -> Option<Seq<u8>> {
    match key {
        Key::Named(named) => named_sequence(named, mods, app_cursor),
        Key::Character(s) => if mods.control && !mods.alt && control_byte(s@) is Some {
            Some(seq![control_byte(s@)->0])
        } else {
            match text {
                Some(t) => typed(t, mods.alt),
                None => typed(s@, mods.alt),
            }
        },
        Key::Other => match text {
            Some(t) => typed(t, mods.alt),
            None => None,
        },
    }
}

fn modifier_digit(mods: ModifiersState) -> (m: u8)
    ensures
        m == modifier_number(mods),
        1 <= m <= 8,
{
    let shift: u8 = if mods.shift {
        1
    } else {
        0
    };
    let alt: u8 = if mods.alt {
        2
    } else {
        0
    };
    let control: u8 = if mods.control {
        4
    } else {
        0
    };
    1 + shift + alt + control
}

/// The sequence of a key that ends in a letter.
fn cursor_seq(letter: u8, m: u8, app_cursor: bool) -> (out: Vec<u8>)
    requires
        1 <= m <= 8,
    ensures
        out@ == letter_sequence(letter, m as int, app_cursor),
{
    let out: Vec<u8> = if m != 1 {
        vec![0x1b, 0x5b, 0x31, 0x3b, 0x30 + m, letter]
    } else if app_cursor {
        vec![0x1b, 0x4f, letter]
    } else {
        vec![0x1b, 0x5b, letter]
    };
    assert(out@ =~= letter_sequence(letter, m as int, app_cursor));
    out
}

/// The sequence of a key that ends in a tilde.
fn tilde_seq(n: u8, m: u8) -> (out: Vec<u8>)
    requires
        1 <= m <= 8,
    ensures
        out@ == tilde_sequence(n, m as int),
{
    let mut out: Vec<u8> = vec![0x1b, 0x5b];
    push_decimal(&mut out, n as usize);
    if m != 1 {
        out.push(0x3b);
        out.push(0x30 + m);
    }
    out.push(0x7e);
    assert(out@ =~= tilde_sequence(n, m as int));
    out
}

/// The sequence of F1 to F12.
fn function_key(named: NamedKey, m: u8) -> (out: Option<Vec<u8>>)
    requires
        1 <= m <= 8,
        cursor_letter(named) is None,
    ensures
        match out {
            Some(bytes) => if function_letter(named) is Some {
                bytes@ == letter_sequence(function_letter(named)->0, m as int, true)
            } else {
                tilde_number(named) is Some && bytes@ == tilde_sequence(
                    tilde_number(named)->0,
                    m as int,
                )
            },
            None => function_letter(named) is None && (tilde_number(named) is None
                || tilde_number(named)->0 < 15),
        },
{
    match named {
        NamedKey::F1 => Some(cursor_seq(0x50, m, true)),
        NamedKey::F2 => Some(cursor_seq(0x51, m, true)),
        NamedKey::F3 => Some(cursor_seq(0x52, m, true)),
        NamedKey::F4 => Some(cursor_seq(0x53, m, true)),
        NamedKey::F5 => Some(tilde_seq(15, m)),
        NamedKey::F6 => Some(tilde_seq(17, m)),
        NamedKey::F7 => Some(tilde_seq(18, m)),
        NamedKey::F8 => Some(tilde_seq(19, m)),
        NamedKey::F9 => Some(tilde_seq(20, m)),
        NamedKey::F10 => Some(tilde_seq(21, m)),
        NamedKey::F11 => Some(tilde_seq(23, m)),
        NamedKey::F12 => Some(tilde_seq(24, m)),
        _ => None,
    }
}

/// Puts an escape before bytes where alt is held.
fn maybe_alt(bytes: &[u8], alt: bool) -> (out: Vec<u8>)
    ensures
        out@ == with_alt(bytes@, alt),
{
    let mut out: Vec<u8> = Vec::new();
    if alt {
        out.push(0x1b);
    }
    out.extend_from_slice(bytes);
    assert(out@ =~= with_alt(bytes@, alt));
    out
}

/// The control character that text gives by its first character.
fn ctrl_byte(text: &str) -> (b: Option<u8>)
    ensures
        b == control_byte(text@),
{
    let chars = chars_of(text);
    if chars.len() == 0 {
        return None;
    }
    let c = chars[0];
    match c {
        'a'..='z' => Some(c as u8 - 0x61 + 1),
        'A'..='Z' => Some(c as u8 - 0x41 + 1),
        ' ' | '@' => Some(0x00),
        '[' => Some(0x1b),
        '\\' => Some(0x1c),
        ']' => Some(0x1d),
        '^' => Some(0x1e),
        '_' => Some(0x1f),
        _ => None,
    }
}

/// What a named key sends.
fn encode_named(named: NamedKey, mods: ModifiersState, app_cursor: bool) -> (out: Option<Vec<u8>>)
    ensures
        match out {
            Some(bytes) => named_sequence(named, mods, app_cursor) == Some(bytes@),
            None => named_sequence(named, mods, app_cursor) is None,
        },
{
    let m: u8 = modifier_digit(mods);
    if named == NamedKey::Space && mods.control && !mods.alt {
        return Some(vec![0x00]);
    }
    match named {
        NamedKey::ArrowUp => return Some(cursor_seq(0x41, m, app_cursor)),
        NamedKey::ArrowDown => return Some(cursor_seq(0x42, m, app_cursor)),
        NamedKey::ArrowRight => return Some(cursor_seq(0x43, m, app_cursor)),
        NamedKey::ArrowLeft => return Some(cursor_seq(0x44, m, app_cursor)),
        NamedKey::Home => return Some(cursor_seq(0x48, m, app_cursor)),
        NamedKey::End => return Some(cursor_seq(0x46, m, app_cursor)),
        NamedKey::Insert => return Some(tilde_seq(2, m)),
        NamedKey::Delete => return Some(tilde_seq(3, m)),
        NamedKey::PageUp => return Some(tilde_seq(5, m)),
        NamedKey::PageDown => return Some(tilde_seq(6, m)),
        _ => {},
    }
    if let Some(bytes) = function_key(named, m) {
        return Some(bytes);
    }
    let bytes: Vec<u8> = match named {
        NamedKey::Enter => vec![0x0d],
        NamedKey::Backspace => vec![0x7f],
        NamedKey::Escape => vec![0x1b],
        NamedKey::Tab => if mods.shift {
            vec![0x1b, 0x5b, 0x5a]
        } else {
            vec![0x09]
        },
        NamedKey::Space => vec![0x20],
        _ => return None,
    };
    assert(bytes@ =~= plain_named(named, mods.shift)->0);
    Some(maybe_alt(bytes.as_slice(), mods.alt))
}

/// What text sends.
fn encode_text(text: &str, alt: bool) -> (out: Option<Vec<u8>>)
    ensures
        match out {
            Some(bytes) => typed(text@, alt) == Some(bytes@),
            None => typed(text@, alt) is None,
        },
{
    if chars_of(text).len() == 0 {
        None
    } else {
        Some(maybe_alt(text.as_bytes(), alt))
    }
}

/// Encodes a key as the bytes that an application gets for it. A key that stands
/// for nothing, such as a modifier, gives none. `app_cursor` is the mode in which
/// cursor keys send `ESC O` in place of `ESC [`.
pub fn encode(key: &Key, text: Option<&str>, mods: ModifiersState, app_cursor: bool) -> (out:
    Option<Vec<u8>>)
    ensures
        match out {
            Some(bytes) => encoded(
                *key,
                match text {
                    Some(t) => Some(t@),
                    None => None,
                },
                mods,
                app_cursor,
            ) == Some(bytes@),
            None => encoded(
                *key,
                match text {
                    Some(t) => Some(t@),
                    None => None,
                },
                mods,
                app_cursor,
            ) is None,
        },
{
    match key {
        Key::Named(named) => encode_named(*named, mods, app_cursor),
        Key::Character(s) => {
            if mods.control && !mods.alt {
                if let Some(b) = ctrl_byte(s.as_str()) {
                    return Some(vec![b]);
                }
            }
            match text {
                Some(t) => encode_text(t, mods.alt),
                None => encode_text(s.as_str(), mods.alt),
            }
        },
        Key::Other => match text {
            Some(t) => encode_text(t, mods.alt),
            None => None,
        },
    }
}

/// A key that is sent at all is sent as at least one byte.
pub proof fn law_key_sends_something(
    key: Key,
    text: Option<Seq<char>>,
    mods: ModifiersState,
    app_cursor: bool,
)
    ensures
        encoded(key, text, mods, app_cursor) matches Some(bytes) ==> bytes.len() > 0,
{
    match key {
        Key::Named(named) => {},
        Key::Character(s) => {
            lemma_text_has_bytes(s@);
            if let Some(t) = text {
                lemma_text_has_bytes(t);
            }
        },
        Key::Other => {
            if let Some(t) = text {
                lemma_text_has_bytes(t);
            }
        },
    }
}

proof fn lemma_text_has_bytes(text: Seq<char>)
    ensures
        text.len() > 0 ==> vstd::utf8::encode_utf8(text).len() > 0,
{
    if text.len() > 0 && vstd::utf8::encode_utf8(text).len() == 0 {
        vstd::utf8::encode_utf8_decode_utf8(text);
        assert(vstd::utf8::encode_utf8(text) =~= Seq::empty());
        assert(vstd::utf8::decode_utf8(Seq::empty()).len() == 0);
    }
}

// ---- pasted text ----

/// Bytes with each line end (`CR LF` or `LF`) made `CR`.
pub open spec fn with_cr(s: Seq<u8>) -> Seq<u8>
    decreases s.len(),
{
    if s.len() == 0 {
        Seq::empty()
    } else if s.len() >= 2 && s[0] == 0x0d && s[1] == 0x0a {
        seq![0x0du8] + with_cr(s.skip(2))
    } else if s[0] == 0x0a {
        seq![0x0du8] + with_cr(s.skip(1))
    } else {
        seq![s[0]] + with_cr(s.skip(1))
    }
}

/// `ESC [ 2 0 0 ~`, which begins pasted text.
pub open spec fn paste_start() -> Seq<u8> {
    seq![0x1bu8, 0x5bu8, 0x32u8, 0x30u8, 0x30u8, 0x7eu8]
}

/// `ESC [ 2 0 1 ~`, which ends pasted text.
pub open spec fn paste_end() -> Seq<u8> {
    seq![0x1bu8, 0x5bu8, 0x32u8, 0x30u8, 0x31u8, 0x7eu8]
}

/// Whether `pattern` stands at a place in `s`.
pub open spec fn occurs(s: Seq<u8>, pattern: Seq<u8>, at: int) -> bool {
    0 <= at && at + pattern.len() <= s.len() && s.subrange(at, at + pattern.len()) == pattern
}

/// Bytes without the occurrences of `pattern`, taken out from left to right.
pub open spec fn removed(s: Seq<u8>, pattern: Seq<u8>) -> Seq<u8>
    decreases s.len(),
{
    if s.len() == 0 {
        s
    } else if pattern.len() > 0 && occurs(s, pattern, 0) {
        removed(s.skip(pattern.len() as int), pattern)
    } else {
        seq![s[0]] + removed(s.skip(1), pattern)
    }
}

/// Bytes from which the markers of pasted text have been taken once.
pub open spec fn stripped_once(s: Seq<u8>) -> Seq<u8> {
    removed(removed(s, paste_end()), paste_start())
}

/// Bytes from which the markers of pasted text have been taken until none is left:
/// taking one out may bring the parts of another together.
pub open spec fn stripped(s: Seq<u8>) -> Seq<u8>
    decreases s.len(),
{
    let once = stripped_once(s);
    if once.len() < s.len() {
        stripped(once)
    } else {
        s
    }
}

/// What pasted text sends.
pub open spec fn pasted(text: Seq<u8>, bracketed: bool) -> Seq<u8> {
    if bracketed {
        paste_start() + stripped(with_cr(text)) + paste_end()
    } else {
        with_cr(text)
    }
}

/// Makes each line end `CR`.
fn line_ends(bytes: &[u8]) -> (out: Vec<u8>)
    ensures
        out@ == with_cr(bytes@),
{
    let mut out: Vec<u8> = Vec::new();
    let ghost goal = with_cr(bytes@);
    let mut i: usize = 0;
    assert(bytes@.skip(0) =~= bytes@);
    assert(out@ + goal =~= goal);
    while i < bytes.len()
        invariant
            i <= bytes@.len(),
            goal == out@ + with_cr(bytes@.skip(i as int)),
        decreases bytes@.len() - i,
    {
        let ghost tail = bytes@.skip(i as int);
        let ghost before = out@;
        if bytes[i] == 0x0d && i < bytes.len() - 1 && bytes[i + 1] == 0x0a {
            out.push(0x0d);
            i += 2;
            proof {
                assert(tail.skip(2) =~= bytes@.skip(i as int));
                assert(before + (seq![0x0du8] + with_cr(tail.skip(2))) =~= out@ + with_cr(
                    bytes@.skip(i as int),
                ));
            }
        } else {
            let b: u8 = if bytes[i] == 0x0a {
                0x0d
            } else {
                bytes[i]
            };
            out.push(b);
            i += 1;
            proof {
                assert(tail.skip(1) =~= bytes@.skip(i as int));
                assert(before + (seq![b] + with_cr(tail.skip(1))) =~= out@ + with_cr(
                    bytes@.skip(i as int),
                ));
            }
        }
    }
    assert(out@ + with_cr(bytes@.skip(i as int)) =~= out@);
    out
}

/// Whether the six bytes of a marker stand at a place: `ESC [ 2 0 x ~`.
fn marker_at(bytes: &Vec<u8>, at: usize, digit: u8) -> (r: bool)
    requires
        at < bytes@.len(),
    ensures
        r == occurs(
            bytes@.skip(at as int),
            seq![0x1bu8, 0x5bu8, 0x32u8, 0x30u8, digit, 0x7eu8],
            0,
        ),
{
    let ghost tail = bytes@.skip(at as int);
    let ghost marker = seq![0x1bu8, 0x5bu8, 0x32u8, 0x30u8, digit, 0x7eu8];
    if bytes.len() - at < 6 {
        return false;
    }
    let r = bytes[at] == 0x1b && bytes[at + 1] == 0x5b && bytes[at + 2] == 0x32 && bytes[at + 3]
        == 0x30 && bytes[at + 4] == digit && bytes[at + 5] == 0x7e;
    proof {
        let head = tail.subrange(0, 6);
        assert(head[0] == tail[0] && head[1] == tail[1] && head[2] == tail[2] && head[3] == tail[3]
            && head[4] == tail[4] && head[5] == tail[5]);
        if r {
            assert(head =~= marker);
        } else if head == marker {
            assert(head[0] == 0x1b && head[1] == 0x5b && head[2] == 0x32 && head[3] == 0x30
                && head[4] == digit && head[5] == 0x7e);
        }
    }
    r
}

/// Takes one kind of marker out.
fn remove_marker(bytes: &Vec<u8>, digit: u8) -> (out: Vec<u8>)
    ensures
        out@ == removed(bytes@, seq![0x1bu8, 0x5bu8, 0x32u8, 0x30u8, digit, 0x7eu8]),
{
    let ghost marker = seq![0x1bu8, 0x5bu8, 0x32u8, 0x30u8, digit, 0x7eu8];
    let ghost goal = removed(bytes@, marker);
    let mut out: Vec<u8> = Vec::new();
    let mut i: usize = 0;
    assert(bytes@.skip(0) =~= bytes@);
    assert(out@ + goal =~= goal);
    while i < bytes.len()
        invariant
            i <= bytes@.len(),
            marker == seq![0x1bu8, 0x5bu8, 0x32u8, 0x30u8, digit, 0x7eu8],
            goal == out@ + removed(bytes@.skip(i as int), marker),
        decreases bytes@.len() - i,
    {
        let ghost tail = bytes@.skip(i as int);
        let ghost before = out@;
        if marker_at(bytes, i, digit) {
            assert(tail.skip(6) =~= bytes@.skip(i + 6));
            i += 6;
        } else {
            out.push(bytes[i]);
            i += 1;
            proof {
                assert(tail.skip(1) =~= bytes@.skip(i as int));
                assert(before + (seq![tail[0]] + removed(tail.skip(1), marker)) =~= out@ + removed(
                    bytes@.skip(i as int),
                    marker,
                ));
            }
        }
    }
    assert(out@ + removed(bytes@.skip(i as int), marker) =~= out@);
    out
}

/// Encodes text that is pasted. With `bracketed` it stands between markers, and
/// markers inside it are taken out, so that the text cannot end itself.
pub fn encode_paste(text: &str, bracketed: bool) -> (out: Vec<u8>)
    ensures
        out@ == pasted(vstd::utf8::encode_utf8(text@), bracketed),
{
    let mut body = line_ends(text.as_bytes());
    if !bracketed {
        return body;
    }
    let ghost goal = stripped(body@);
    loop
        invariant
            stripped(body@) == goal,
        ensures
            body@ == goal,
        decreases body@.len(),
    {
        let once = remove_marker(&remove_marker(&body, 0x31), 0x30);
        assert(once@ == stripped_once(body@));
        if once.len() >= body.len() {
            break ;
        }
        body = once;
    }
    let mut out: Vec<u8> = vec![0x1b, 0x5b, 0x32, 0x30, 0x30, 0x7e];
    out.extend_from_slice(body.as_slice());
    let end: Vec<u8> = vec![0x1b, 0x5b, 0x32, 0x30, 0x31, 0x7e];
    out.extend_from_slice(end.as_slice());
    assert(out@ =~= paste_start() + goal + paste_end());
    out
}

// ---- what holds of pasted text ----

proof fn lemma_removed_len(s: Seq<u8>, pattern: Seq<u8>)
    requires
        pattern.len() > 0,
    ensures
        removed(s, pattern).len() <= s.len(),
        removed(s, pattern).len() == s.len() ==> removed(s, pattern) == s && forall|i: int|
            !occurs(s, pattern, i),
    decreases s.len(),
{
    if s.len() > 0 {
        if occurs(s, pattern, 0) {
            lemma_removed_len(s.skip(pattern.len() as int), pattern);
        } else {
            let tail = s.skip(1);
            lemma_removed_len(tail, pattern);
            if removed(s, pattern).len() == s.len() {
                assert(seq![s[0]] + tail =~= s);
                assert forall|i: int| !occurs(s, pattern, i) by {
                    if occurs(s, pattern, i) {
                        assert(i > 0);
                        assert(tail.subrange(i - 1, i - 1 + pattern.len()) =~= s.subrange(
                            i,
                            i + pattern.len(),
                        ));
                        assert(occurs(tail, pattern, i - 1));
                    }
                }
            }
        }
    }
}

proof fn lemma_removed_none(s: Seq<u8>, pattern: Seq<u8>)
    requires
        pattern.len() > 0,
        forall|i: int| !occurs(s, pattern, i),
    ensures
        removed(s, pattern) == s,
    decreases s.len(),
{
    if s.len() > 0 {
        let tail = s.skip(1);
        assert(!occurs(s, pattern, 0));
        assert forall|i: int| !occurs(tail, pattern, i) by {
            if occurs(tail, pattern, i) {
                assert(s.subrange(i + 1, i + 1 + pattern.len()) =~= tail.subrange(
                    i,
                    i + pattern.len(),
                ));
                assert(occurs(s, pattern, i + 1));
            }
        }
        lemma_removed_none(tail, pattern);
        assert(seq![s[0]] + tail =~= s);
    }
}

/// However the markers of pasted text are laid into each other, none is left once
/// they have been taken out.
pub proof fn law_no_marker_is_left(s: Seq<u8>)
    ensures
        forall|i: int| !occurs(stripped(s), paste_end(), i),
        forall|i: int| !occurs(stripped(s), paste_start(), i),
    decreases s.len(),
{
    let first = removed(s, paste_end());
    let once = stripped_once(s);
    lemma_removed_len(s, paste_end());
    lemma_removed_len(first, paste_start());
    if once.len() < s.len() {
        law_no_marker_is_left(once);
        assert(stripped(s) == stripped(once));
    } else {
        assert(first == s);
        assert(stripped(s) == s);
    }
}

/// The marker that ends pasted text stands at its end and nowhere else, and the
/// marker that begins it stands at its beginning and nowhere else.
pub proof fn law_pasted_text_cannot_end_itself(text: Seq<u8>)
    ensures
        forall|i: int|
            occurs(pasted(text, true), paste_end(), i) <==> i == pasted(text, true).len() - 6,
        forall|i: int| occurs(pasted(text, true), paste_start(), i) <==> i == 0,
{
    let body = stripped(with_cr(text));
    let out = pasted(text, true);
    law_no_marker_is_left(with_cr(text));
    let n = body.len() as int;
    assert(out.len() == n + 12);
    assert(out.subrange(0, 6) =~= paste_start());
    assert(out.subrange(n + 6, n + 12) =~= paste_end());
    assert forall|i: int| #![trigger occurs(out, paste_end(), i)]
        occurs(out, paste_end(), i) implies i == n + 6 by {
        let m = paste_end();
        let found = out.subrange(i, i + 6);
        assert(found[0] == out[i] && found[1] == out[i + 1] && found[2] == out[i + 2] && found[3]
            == out[i + 3] && found[4] == out[i + 4] && found[5] == out[i + 5]);
        assert(m[0] == 0x1b && m[1] == 0x5b && m[2] == 0x32 && m[3] == 0x30 && m[4] == 0x31 && m[5]
            == 0x7e);
        lemma_place_in_paste(out, body, i);
        if 6 <= i && i + 6 <= n + 6 {
            assert(body.subrange(i - 6, i) =~= found);
            assert(occurs(body, m, i - 6));
        }
    }
    assert forall|i: int| #![trigger occurs(out, paste_start(), i)]
        occurs(out, paste_start(), i) implies i == 0 by {
        let m = paste_start();
        let found = out.subrange(i, i + 6);
        assert(found[0] == out[i] && found[1] == out[i + 1] && found[2] == out[i + 2] && found[3]
            == out[i + 3] && found[4] == out[i + 4] && found[5] == out[i + 5]);
        assert(m[0] == 0x1b && m[1] == 0x5b && m[2] == 0x32 && m[3] == 0x30 && m[4] == 0x30 && m[5]
            == 0x7e);
        lemma_place_in_paste(out, body, i);
        if 6 <= i && i + 6 <= n + 6 {
            assert(body.subrange(i - 6, i) =~= found);
            assert(occurs(body, m, i - 6));
        }
    }
}

/// A marker does not lie across the ends of the text: only its first byte is an
/// escape.
proof fn lemma_place_in_paste(out: Seq<u8>, body: Seq<u8>, i: int)
    requires
        out == paste_start() + body + paste_end(),
        0 <= i <= body.len() + 6,
        out[i] == 0x1b,
        out[i + 1] != 0x1b,
        out[i + 2] != 0x1b,
        out[i + 3] != 0x1b,
        out[i + 4] != 0x1b,
        out[i + 5] != 0x1b,
    ensures
        i == 0 || i == body.len() + 6 || (6 <= i && i + 6 <= body.len() + 6),
        i == 0 ==> out[4] == 0x30,
        i == body.len() + 6 ==> out[i + 4] == 0x31,
{
    let n = body.len() as int;
    let a = paste_start();
    let b = paste_end();
    assert(out[0] == a[0] && out[1] == a[1] && out[2] == a[2] && out[3] == a[3] && out[4] == a[4]
        && out[5] == a[5]);
    assert(out[n + 6] == b[0] && out[n + 10] == b[4]);
}

proof fn lemma_removed_keeps_out(s: Seq<u8>, pattern: Seq<u8>, b: u8)
    requires
        !s.contains(b),
    ensures
        !removed(s, pattern).contains(b),
    decreases s.len(),
{
    if s.len() > 0 {
        if pattern.len() > 0 && occurs(s, pattern, 0) {
            let tail = s.skip(pattern.len() as int);
            if tail.contains(b) {
                let i = choose|i: int| 0 <= i < tail.len() && tail[i] == b;
                assert(s[i + pattern.len()] == b);
            }
            lemma_removed_keeps_out(tail, pattern, b);
        } else {
            let tail = s.skip(1);
            if tail.contains(b) {
                let i = choose|i: int| 0 <= i < tail.len() && tail[i] == b;
                assert(s[i + 1] == b);
            }
            lemma_removed_keeps_out(tail, pattern, b);
            let out = removed(s, pattern);
            assert(s[0] != b);
            if out.contains(b) {
                let i = choose|i: int| 0 <= i < out.len() && out[i] == b;
                assert(i > 0);
                assert(removed(tail, pattern)[i - 1] == b);
            }
        }
    }
}

proof fn lemma_stripped_keeps_out(s: Seq<u8>, b: u8)
    requires
        !s.contains(b),
    ensures
        !stripped(s).contains(b),
    decreases s.len(),
{
    let once = stripped_once(s);
    if once.len() < s.len() {
        lemma_removed_keeps_out(s, paste_end(), b);
        lemma_removed_keeps_out(removed(s, paste_end()), paste_start(), b);
        lemma_stripped_keeps_out(once, b);
    }
}

proof fn lemma_with_cr_has_no_lf(s: Seq<u8>)
    ensures
        !with_cr(s).contains(0x0au8),
    decreases s.len(),
{
    if s.len() > 0 {
        let skip = if s.len() >= 2 && s[0] == 0x0d && s[1] == 0x0a {
            2int
        } else {
            1
        };
        lemma_with_cr_has_no_lf(s.skip(skip));
        let out = with_cr(s);
        if out.contains(0x0au8) {
            let i = choose|i: int| 0 <= i < out.len() && out[i] == 0x0au8;
            assert(i > 0);
            assert(with_cr(s.skip(skip))[i - 1] == 0x0au8);
        }
    }
}

proof fn lemma_with_cr_same(s: Seq<u8>)
    requires
        !s.contains(0x0au8),
    ensures
        with_cr(s) == s,
    decreases s.len(),
{
    if s.len() > 0 {
        assert(s[0] != 0x0a);
        assert(s.len() >= 2 ==> s[1] != 0x0a);
        let tail = s.skip(1);
        if tail.contains(0x0au8) {
            let i = choose|i: int| 0 <= i < tail.len() && tail[i] == 0x0au8;
            assert(s[i + 1] == 0x0au8);
        }
        lemma_with_cr_same(tail);
        assert(seq![s[0]] + tail =~= s);
    }
}

/// Pasted text holds no line feed: the lines end as the Enter key ends them.
pub proof fn law_pasted_text_has_no_line_feed(text: Seq<u8>, bracketed: bool)
    ensures
        !pasted(text, bracketed).contains(0x0au8),
{
    lemma_with_cr_has_no_lf(text);
    lemma_stripped_keeps_out(with_cr(text), 0x0a);
    let out = pasted(text, bracketed);
    if bracketed && out.contains(0x0au8) {
        let body = stripped(with_cr(text));
        let i = choose|i: int| 0 <= i < out.len() && out[i] == 0x0au8;
        if 6 <= i < body.len() + 6 {
            assert(body[i - 6] == 0x0a);
        } else if i < 6 {
            assert(out[i] == paste_start()[i]);
        } else {
            assert(out[i] == paste_end()[i - 6 - body.len()]);
        }
    }
}

/// Text without line feeds and without markers arrives as it is.
pub proof fn law_plain_text_is_pasted_as_it_is(text: Seq<u8>)
    requires
        !text.contains(0x0au8),
        forall|i: int| !occurs(text, paste_start(), i),
        forall|i: int| !occurs(text, paste_end(), i),
    ensures
        pasted(text, false) == text,
        pasted(text, true) == paste_start() + text + paste_end(),
{
    lemma_with_cr_same(text);
    lemma_removed_none(text, paste_end());
    lemma_removed_none(text, paste_start());
}

} // verus!
