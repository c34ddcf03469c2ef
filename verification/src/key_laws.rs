//! What keys and pasted text send.

use vstd::prelude::*;

use crate::input::{Key, ModifiersState, NamedKey};
use crate::screen::Screen;

verus! {

// ---- cursor keys ----

/// What a named key sends with nothing held and the cursor keys in their normal mode.
pub open spec fn plain(key: NamedKey) -> Option<Seq<u8>> {
    crate::input::encoded(Key::Named(key), None, crate::input::no_modifiers(), false)
}

/// What an arrow key sends is a control sequence that moves the cursor of this very
/// terminal by one the way the arrow points; the home key sends one that moves it to
/// the top left.
pub proof fn law_arrows_move_the_cursor_their_way(s: Screen, key: NamedKey)
    requires
        s.wf(),
        key == NamedKey::ArrowUp || key == NamedKey::ArrowDown || key == NamedKey::ArrowRight || key
            == NamedKey::ArrowLeft || key == NamedKey::Home,
    ensures
        ({
            let bytes = plain(key)->0;
            let after = s.csi(Seq::empty(), Seq::empty(), bytes[2] as char);
            &&& plain(key) is Some
            &&& bytes.len() == 3
            &&& bytes[0] == 0x1b && bytes[1] == 0x5b
            &&& key == NamedKey::ArrowUp ==> after == s.move_up(1)
            &&& key == NamedKey::ArrowDown ==> after == s.move_down(1)
            &&& key == NamedKey::ArrowRight ==> after == s.move_right(1)
            &&& key == NamedKey::ArrowLeft ==> after == s.move_left(1)
            &&& key == NamedKey::Home ==> after == s.move_to(0, 0)
        }),
{
    let bytes = plain(key)->0;
    assert(bytes[2] == crate::input::cursor_letter(key)->0);
}

/// The keys that move: with nothing held `ESC [` and a letter, in application mode
/// `ESC O` and the same letter.
pub proof fn law_moving_keys(app: bool)
    ensures
        ({
            let sent = |key: NamedKey|
                crate::input::encoded(Key::Named(key), None, crate::input::no_modifiers(), app);
            let second: u8 = if app {
                0x4f
            } else {
                0x5b
            };
            &&& sent(NamedKey::ArrowUp) == Some(seq![0x1bu8, second, 0x41u8])
            &&& sent(NamedKey::ArrowDown) == Some(seq![0x1bu8, second, 0x42u8])
            &&& sent(NamedKey::ArrowRight) == Some(seq![0x1bu8, second, 0x43u8])
            &&& sent(NamedKey::ArrowLeft) == Some(seq![0x1bu8, second, 0x44u8])
            &&& sent(NamedKey::Home) == Some(seq![0x1bu8, second, 0x48u8])
            &&& sent(NamedKey::End) == Some(seq![0x1bu8, second, 0x46u8])
        }),
{
}

/// The function keys one to four send `ESC O` and a letter, whatever the mode.
pub proof fn law_first_function_keys(app: bool)
    ensures
        ({
            let sent = |key: NamedKey|
                crate::input::encoded(Key::Named(key), None, crate::input::no_modifiers(), app);
            &&& sent(NamedKey::F1) == Some(seq![0x1bu8, 0x4fu8, 0x50u8])
            &&& sent(NamedKey::F2) == Some(seq![0x1bu8, 0x4fu8, 0x51u8])
            &&& sent(NamedKey::F3) == Some(seq![0x1bu8, 0x4fu8, 0x52u8])
            &&& sent(NamedKey::F4) == Some(seq![0x1bu8, 0x4fu8, 0x53u8])
        }),
{
}

proof fn lemma_small_decimal(n: nat)
    requires
        n < 100,
    ensures
        n < 10 ==> crate::text::decimal(n) == seq![(0x30 + n) as u8],
        n >= 10 ==> crate::text::decimal(n) == seq![(0x30 + n / 10) as u8, (0x30 + n % 10) as u8],
{
    reveal_with_fuel(crate::text::decimal, 2);
    if n >= 10 {
        assert(crate::text::decimal(n) =~= seq![(0x30 + n / 10) as u8, (0x30 + n % 10) as u8]);
    }
}

proof fn lemma_tilde(n: u8)
    requires
        n < 100,
    ensures
        n < 10 ==> crate::input::tilde_sequence(n, 1) == seq![
            0x1bu8,
            0x5bu8,
            (0x30 + n) as u8,
            0x7eu8,
        ],
        n >= 10 ==> crate::input::tilde_sequence(n, 1) == seq![
            0x1bu8,
            0x5bu8,
            (0x30 + n / 10) as u8,
            (0x30 + n % 10) as u8,
            0x7eu8,
        ],
        forall|m: int| #![trigger crate::input::tilde_sequence(n, m)]
            2 <= m <= 8 && n < 10 ==> crate::input::tilde_sequence(n, m) == seq![
                0x1bu8,
                0x5bu8,
                (0x30 + n) as u8,
                0x3bu8,
                (0x30 + m) as u8,
                0x7eu8,
            ],
        forall|m: int| #![trigger crate::input::tilde_sequence(n, m)]
            2 <= m <= 8 && n >= 10 ==> crate::input::tilde_sequence(n, m) == seq![
                0x1bu8,
                0x5bu8,
                (0x30 + n / 10) as u8,
                (0x30 + n % 10) as u8,
                0x3bu8,
                (0x30 + m) as u8,
                0x7eu8,
            ],
{
    lemma_small_decimal(n as nat);
    if n < 10 {
        assert(crate::input::tilde_sequence(n, 1) =~= seq![
            0x1bu8,
            0x5bu8,
            (0x30 + n) as u8,
            0x7eu8,
        ]);
    } else {
        assert(crate::input::tilde_sequence(n, 1) =~= seq![
            0x1bu8,
            0x5bu8,
            (0x30 + n / 10) as u8,
            (0x30 + n % 10) as u8,
            0x7eu8,
        ]);
    }
    assert forall|m: int| #![trigger crate::input::tilde_sequence(n, m)]
        2 <= m <= 8 && n < 10 implies crate::input::tilde_sequence(n, m) == seq![
        0x1bu8,
        0x5bu8,
        (0x30 + n) as u8,
        0x3bu8,
        (0x30 + m) as u8,
        0x7eu8,
    ] by {
        assert(crate::input::tilde_sequence(n, m) =~= seq![
            0x1bu8,
            0x5bu8,
            (0x30 + n) as u8,
            0x3bu8,
            (0x30 + m) as u8,
            0x7eu8,
        ]);
    }
    assert forall|m: int| #![trigger crate::input::tilde_sequence(n, m)]
        2 <= m <= 8 && n >= 10 implies crate::input::tilde_sequence(n, m) == seq![
        0x1bu8,
        0x5bu8,
        (0x30 + n / 10) as u8,
        (0x30 + n % 10) as u8,
        0x3bu8,
        (0x30 + m) as u8,
        0x7eu8,
    ] by {
        assert(crate::input::tilde_sequence(n, m) =~= seq![
            0x1bu8,
            0x5bu8,
            (0x30 + n / 10) as u8,
            (0x30 + n % 10) as u8,
            0x3bu8,
            (0x30 + m) as u8,
            0x7eu8,
        ]);
    }
}

/// The editing keys send `ESC [`, a digit and a tilde.
pub proof fn law_editing_keys(app: bool)
    ensures
        ({
            let sent = |key: NamedKey|
                crate::input::encoded(Key::Named(key), None, crate::input::no_modifiers(), app);
            &&& sent(NamedKey::Insert) == Some(seq![0x1bu8, 0x5bu8, 0x32u8, 0x7eu8])
            &&& sent(NamedKey::Delete) == Some(seq![0x1bu8, 0x5bu8, 0x33u8, 0x7eu8])
            &&& sent(NamedKey::PageUp) == Some(seq![0x1bu8, 0x5bu8, 0x35u8, 0x7eu8])
            &&& sent(NamedKey::PageDown) == Some(seq![0x1bu8, 0x5bu8, 0x36u8, 0x7eu8])
        }),
{
    lemma_tilde(2);
    lemma_tilde(3);
    lemma_tilde(5);
    lemma_tilde(6);
}

/// The function keys from five on send `ESC [`, two digits and a tilde.
pub proof fn law_later_function_keys(app: bool)
    ensures
        ({
            let sent = |key: NamedKey|
                crate::input::encoded(Key::Named(key), None, crate::input::no_modifiers(), app);
            &&& sent(NamedKey::F5) == Some(seq![0x1bu8, 0x5bu8, 0x31u8, 0x35u8, 0x7eu8])
            &&& sent(NamedKey::F6) == Some(seq![0x1bu8, 0x5bu8, 0x31u8, 0x37u8, 0x7eu8])
            &&& sent(NamedKey::F7) == Some(seq![0x1bu8, 0x5bu8, 0x31u8, 0x38u8, 0x7eu8])
            &&& sent(NamedKey::F8) == Some(seq![0x1bu8, 0x5bu8, 0x31u8, 0x39u8, 0x7eu8])
            &&& sent(NamedKey::F9) == Some(seq![0x1bu8, 0x5bu8, 0x32u8, 0x30u8, 0x7eu8])
            &&& sent(NamedKey::F10) == Some(seq![0x1bu8, 0x5bu8, 0x32u8, 0x31u8, 0x7eu8])
            &&& sent(NamedKey::F11) == Some(seq![0x1bu8, 0x5bu8, 0x32u8, 0x33u8, 0x7eu8])
            &&& sent(NamedKey::F12) == Some(seq![0x1bu8, 0x5bu8, 0x32u8, 0x34u8, 0x7eu8])
        }),
{
    lemma_tilde(15);
    lemma_tilde(17);
    lemma_tilde(18);
    lemma_tilde(19);
    lemma_tilde(20);
    lemma_tilde(21);
    lemma_tilde(23);
    lemma_tilde(24);
}

/// Whether a modifier that sequences name is held.
pub open spec fn is_modified(mods: ModifiersState) -> bool {
    mods.shift || mods.alt || mods.control
}

/// The digit of the modifiers is one more than a number whose bits are shift, alt and
/// control. The command key is not in it.
pub proof fn law_digit_tells_the_modifiers(mods: ModifiersState)
    ensures
        ({
            let bits = crate::input::modifier_number(mods) - 1;
            &&& 0 <= bits < 8
            &&& mods.shift <==> bits % 2 == 1
            &&& mods.alt <==> bits / 2 % 2 == 1
            &&& mods.control <==> bits / 4 % 2 == 1
        }),
{
}

/// With modifiers held, a key that sends a letter sends `ESC [ 1 ;`, the digit of the
/// modifiers and the same letter, whatever the mode; one that sends a number puts a
/// semicolon and the digit before the tilde.
pub proof fn law_modifiers_are_named_before_the_end(
    key: NamedKey,
    mods: ModifiersState,
    app: bool,
)
    requires
        is_modified(mods),
        plain(key) is Some,
        plain(key)->0.len() >= 3,
    ensures
        ({
            let sent = crate::input::encoded(Key::Named(key), None, mods, app);
            let bare = plain(key)->0;
            let digit = (0x30 + crate::input::modifier_number(mods)) as u8;
            &&& bare.last() != 0x7e ==> sent == Some(
                seq![0x1bu8, 0x5bu8, 0x31u8, 0x3bu8, digit, bare.last()],
            )
            &&& bare.last() == 0x7e ==> sent == Some(
                bare.drop_last() + seq![0x3bu8, digit, 0x7eu8],
            )
        }),
{
    let m = crate::input::modifier_number(mods);
    let bare = plain(key)->0;
    if crate::input::tilde_number(key) is Some {
        let n = crate::input::tilde_number(key)->0;
        lemma_tilde(n);
        assert(bare.last() == 0x7e);
        assert(crate::input::tilde_sequence(n, m) =~= bare.drop_last() + seq![
            0x3bu8,
            (0x30 + m) as u8,
            0x7eu8,
        ]);
    } else if crate::input::cursor_letter(key) is Some {
        assert(bare.last() == crate::input::cursor_letter(key)->0);
    } else if crate::input::function_letter(key) is Some {
        assert(bare.last() == crate::input::function_letter(key)->0);
    }
}

// ---- keys that type ----

/// The keys that type a control character, and the space. Shift makes a tab go back.
/// Other named keys send nothing.
pub proof fn law_typing_keys(app: bool)
    ensures
        ({
            let none = crate::input::no_modifiers();
            let shift = ModifiersState { shift: true, ..none };
            let sent = |key: NamedKey, mods: ModifiersState|
                crate::input::encoded(Key::Named(key), None, mods, app);
            &&& sent(NamedKey::Enter, none) == Some(seq![0x0du8])
            &&& sent(NamedKey::Backspace, none) == Some(seq![0x7fu8])
            &&& sent(NamedKey::Escape, none) == Some(seq![0x1bu8])
            &&& sent(NamedKey::Tab, none) == Some(seq![0x09u8])
            &&& sent(NamedKey::Tab, shift) == Some(seq![0x1bu8, 0x5bu8, 0x5au8])
            &&& sent(NamedKey::Space, none) == Some(seq![0x20u8])
            &&& sent(NamedKey::Other, none) is None
            &&& sent(NamedKey::Other, shift) is None
        }),
{
}

/// Control with the space types a zero byte, unless alt is held too.
pub proof fn law_control_space_is_zero(mods: ModifiersState, app: bool)
    requires
        mods.control,
    ensures
        !mods.alt ==> crate::input::encoded(Key::Named(NamedKey::Space), None, mods, app) == Some(
            seq![0x00u8],
        ),
        mods.alt ==> crate::input::encoded(Key::Named(NamedKey::Space), None, mods, app) == Some(
            seq![0x1bu8, 0x20u8],
        ),
{
    assert(seq![0x1bu8] + seq![0x20u8] =~= seq![0x1bu8, 0x20u8]);
}

/// Control with a letter, of either case, or with one of the characters round the
/// capitals, types the control character that lies thirty-two or sixty-four below.
pub proof fn law_control_makes_control_characters(s: String, mods: ModifiersState, app: bool)
    requires
        mods.control,
        !mods.alt,
        s@.len() > 0,
        '@' <= s@[0] <= '_' || 'a' <= s@[0] <= 'z',
    ensures
        crate::input::encoded(Key::Character(s), None, mods, app) matches Some(bytes)
            && bytes.len() == 1 && bytes[0] < 0x20 && bytes[0] as int == s@[0] as int % 32,
{
    let c = s@[0];
    assert('@' <= c <= '_' ==> c == '@' || 'A' <= c <= 'Z' || c == '[' || c == '\\' || c == ']' || c
        == '^' || c == '_');
    assert(crate::input::control_of(c) is Some);
}

/// Without control, or where a character has no control character, a key types its text:
/// that of the layout, or else its own. Alt puts an escape before it. Nothing is typed
/// for no text.
pub proof fn law_keys_type_their_text(
    s: String,
    text: Option<Seq<char>>,
    mods: ModifiersState,
    app: bool,
)
    requires
        !mods.control || mods.alt,
    ensures
        ({
            let sent = crate::input::encoded(Key::Character(s), text, mods, app);
            let typed = match text {
                Some(t) => t,
                None => s@,
            };
            let bytes = vstd::utf8::encode_utf8(typed);
            &&& typed.len() == 0 ==> sent is None
            &&& typed.len() > 0 && !mods.alt ==> sent == Some(bytes)
            &&& typed.len() > 0 && mods.alt ==> sent == Some(seq![0x1bu8] + bytes)
        }),
        ({
            let sent = crate::input::encoded(Key::Other, text, mods, app);
            &&& text is None ==> sent is None
            &&& text is Some && text->0.len() > 0 ==> sent == crate::input::encoded(
                Key::Character(s),
                text,
                mods,
                app,
            )
        }),
{
}

/// Digits have no control characters: with control held they type themselves.
pub proof fn law_digits_have_no_control_characters(s: String, mods: ModifiersState, app: bool)
    requires
        mods.control,
        !mods.alt,
        s@.len() > 0,
        '0' <= s@[0] <= '9',
    ensures
        crate::input::encoded(Key::Character(s), None, mods, app) == Some(
            vstd::utf8::encode_utf8(s@),
        ),
{
}

// ---- pasted text ----

/// Bracketed text stands between `ESC [ 2 0 0 ~` and `ESC [ 2 0 1 ~`; other text stands
/// alone.
pub proof fn law_pasted_text_stands_between_its_markers(text: Seq<u8>)
    ensures
        ({
            let out = crate::input::pasted(text, true);
            &&& out.len() >= 12
            &&& out.take(6) == seq![0x1bu8, 0x5bu8, 0x32u8, 0x30u8, 0x30u8, 0x7eu8]
            &&& out.skip(out.len() - 6) == seq![0x1bu8, 0x5bu8, 0x32u8, 0x30u8, 0x31u8, 0x7eu8]
        }),
        crate::input::pasted(text, false).len() <= text.len(),
{
    let body = crate::input::stripped(crate::input::with_cr(text));
    let out = crate::input::pasted(text, true);
    assert(out.take(6) =~= crate::input::paste_start());
    assert(out.skip(out.len() - 6) =~= crate::input::paste_end());
    lemma_with_cr_len(text);
}

proof fn lemma_with_cr_len(s: Seq<u8>)
    ensures
        crate::input::with_cr(s).len() <= s.len(),
    decreases s.len(),
{
    if s.len() >= 2 && s[0] == 0x0d && s[1] == 0x0a {
        lemma_with_cr_len(s.skip(2));
    } else if s.len() > 0 {
        lemma_with_cr_len(s.skip(1));
    }
}

/// However a line of pasted text ends, with a line feed or with a carriage return and a
/// line feed, it arrives with one carriage return, and the lines after it follow.
pub proof fn law_pasted_lines_end_alike(line: Seq<u8>, rest: Seq<u8>)
    requires
        !line.contains(0x0au8),
        line.len() > 0 ==> line.last() != 0x0d,
    ensures
        crate::input::pasted(line + seq![0x0au8] + rest, false) == line + seq![0x0du8]
            + crate::input::pasted(rest, false),
        crate::input::pasted(line + seq![0x0du8, 0x0au8] + rest, false) == line + seq![0x0du8]
            + crate::input::pasted(rest, false),
{
    lemma_line(line, seq![0x0au8], rest);
    lemma_line(line, seq![0x0du8, 0x0au8], rest);
}

proof fn lemma_line(line: Seq<u8>, end: Seq<u8>, rest: Seq<u8>)
    requires
        !line.contains(0x0au8),
        line.len() > 0 ==> line.last() != 0x0d,
        end == seq![0x0au8] || end == seq![0x0du8, 0x0au8],
    ensures
        crate::input::with_cr(line + end + rest) == line + seq![0x0du8] + crate::input::with_cr(
            rest,
        ),
    decreases line.len(),
{
    let all = line + end + rest;
    if line.len() == 0 {
        assert(all =~= end + rest);
        assert(all.skip(end.len() as int) =~= rest);
        assert(end[0] == all[0]);
        assert(seq![0x0au8][0] == 0x0a);
        if end.len() == 2 {
            assert(end[1] == all[1]);
            assert(seq![0x0du8, 0x0au8][0] == 0x0d && seq![0x0du8, 0x0au8][1] == 0x0a);
        } else {
            assert(end == seq![0x0au8]);
        }
        assert(crate::input::with_cr(all) =~= seq![0x0du8] + crate::input::with_cr(rest));
        assert(line + seq![0x0du8] =~= seq![0x0du8]);
    } else {
        let tail = line.skip(1);
        assert(line[0] != 0x0a);
        if tail.contains(0x0au8) {
            let i = choose|i: int| 0 <= i < tail.len() && tail[i] == 0x0au8;
            assert(line[i + 1] == 0x0au8);
        }
        if tail.len() > 0 {
            assert(tail.last() == line.last());
            assert(all[1] == tail[0]);
            assert(line[1] != 0x0a);
        } else {
            assert(line[0] == line.last());
        }
        lemma_line(tail, end, rest);
        assert(all.skip(1) =~= tail + end + rest);
        assert(all[0] == line[0]);
        assert(crate::input::with_cr(all) =~= seq![line[0]] + crate::input::with_cr(all.skip(1)));
        assert(seq![line[0]] + (tail + seq![0x0du8] + crate::input::with_cr(rest)) =~= line + seq![
            0x0du8,
        ] + crate::input::with_cr(rest));
    }
}

/// A marker in pasted text is taken out, and what stands round it stays.
pub proof fn law_only_markers_are_taken_out(before: Seq<u8>, after: Seq<u8>, digit: u8)
    requires
        !before.contains(0x1bu8),
        !after.contains(0x1bu8),
        digit == 0x30 || digit == 0x31,
    ensures
        crate::input::stripped(
            before + seq![0x1bu8, 0x5bu8, 0x32u8, 0x30u8, digit, 0x7eu8] + after,
        ) == before + after,
{
    let marker = seq![0x1bu8, 0x5bu8, 0x32u8, 0x30u8, digit, 0x7eu8];
    let all = before + marker + after;
    let rest = before + after;
    assert(!rest.contains(0x1bu8)) by {
        if rest.contains(0x1bu8) {
            let i = choose|i: int| 0 <= i < rest.len() && rest[i] == 0x1bu8;
            if i < before.len() {
                assert(before[i] == 0x1b);
            } else {
                assert(after[i - before.len()] == 0x1b);
            }
        }
    }
    lemma_no_escape(rest, crate::input::paste_end());
    lemma_no_escape(rest, crate::input::paste_start());
    lemma_marker_out(before, marker, after);
    if digit == 0x31 {
        assert(marker =~= crate::input::paste_end());
    } else {
        assert(marker =~= crate::input::paste_start());
        lemma_other_marker(before, marker, after, crate::input::paste_end());
    }
    let once = crate::input::stripped_once(all);
    assert(once == rest);
    assert(crate::input::stripped_once(rest) == rest);
    assert(crate::input::stripped(rest) == rest);
    assert(once.len() < all.len());
}

proof fn lemma_no_escape(s: Seq<u8>, marker: Seq<u8>)
    requires
        !s.contains(0x1bu8),
        marker.len() > 0,
        marker[0] == 0x1b,
    ensures
        crate::input::removed(s, marker) == s,
    decreases s.len(),
{
    if s.len() > 0 {
        if crate::input::occurs(s, marker, 0) {
            assert(s.subrange(0, marker.len() as int)[0] == s[0]);
            assert(s[0] == 0x1b);
        }
        let tail = s.skip(1);
        if tail.contains(0x1bu8) {
            let i = choose|i: int| 0 <= i < tail.len() && tail[i] == 0x1bu8;
            assert(s[i + 1] == 0x1bu8);
        }
        lemma_no_escape(tail, marker);
        assert(seq![s[0]] + tail =~= s);
    }
}

proof fn lemma_marker_out(before: Seq<u8>, marker: Seq<u8>, after: Seq<u8>)
    requires
        !before.contains(0x1bu8),
        !after.contains(0x1bu8),
        marker.len() > 0,
        marker[0] == 0x1b,
    ensures
        crate::input::removed(before + marker + after, marker) == before + after,
    decreases before.len(),
{
    let all = before + marker + after;
    if before.len() == 0 {
        assert(all.subrange(0, marker.len() as int) =~= marker);
        assert(all.skip(marker.len() as int) =~= after);
        lemma_no_escape(after, marker);
        assert(before + after =~= after);
    } else {
        assert(before[0] != 0x1b);
        assert(all[0] == before[0]);
        if crate::input::occurs(all, marker, 0) {
            assert(all.subrange(0, marker.len() as int)[0] == all[0]);
        }
        let tail = before.skip(1);
        if tail.contains(0x1bu8) {
            let i = choose|i: int| 0 <= i < tail.len() && tail[i] == 0x1bu8;
            assert(before[i + 1] == 0x1bu8);
        }
        lemma_marker_out(tail, marker, after);
        assert(all.skip(1) =~= tail + marker + after);
        assert(seq![before[0]] + (tail + after) =~= before + after);
    }
}

proof fn lemma_other_marker(before: Seq<u8>, marker: Seq<u8>, after: Seq<u8>, other: Seq<u8>)
    requires
        !before.contains(0x1bu8),
        !after.contains(0x1bu8),
        marker == crate::input::paste_start(),
        other == crate::input::paste_end(),
    ensures
        crate::input::removed(before + marker + after, other) == before + marker + after,
    decreases before.len(),
{
    let all = before + marker + after;
    assert(other[0] == 0x1b && other[4] == 0x31);
    assert(marker[0] == 0x1b && marker[4] == 0x30);
    if crate::input::occurs(all, other, 0) {
        let head = all.subrange(0, 6);
        assert(head[0] == all[0] && head[4] == all[4]);
        if before.len() > 0 {
            assert(all[0] == before[0]);
            assert(before[0] != 0x1b);
        } else {
            assert(all[4] == marker[4]);
        }
    }
    if before.len() == 0 {
        let tail = all.skip(1);
        assert(!tail.contains(0x1bu8)) by {
            if tail.contains(0x1bu8) {
                let i = choose|i: int| 0 <= i < tail.len() && tail[i] == 0x1bu8;
                if i < 5 {
                    assert(tail[i] == marker[i + 1]);
                } else {
                    assert(tail[i] == after[i - 5]);
                }
            }
        }
        lemma_no_escape(tail, other);
        assert(seq![all[0]] + tail =~= all);
    } else {
        let tail = before.skip(1);
        if tail.contains(0x1bu8) {
            let i = choose|i: int| 0 <= i < tail.len() && tail[i] == 0x1bu8;
            assert(before[i + 1] == 0x1bu8);
        }
        lemma_other_marker(tail, marker, after, other);
        assert(all.skip(1) =~= tail + marker + after);
        assert(seq![all[0]] + all.skip(1) =~= all);
    }
}

} // verus!
