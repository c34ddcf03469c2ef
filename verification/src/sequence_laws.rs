//! What control characters and escape sequences do, one by one.

use vstd::prelude::*;

use crate::cell::{Color, Pen};
use crate::decode::Token;
use crate::event::EventView;
use crate::modes::Modes;
use crate::screen::Screen;

verus! {

// ---- output as a whole ----

/// Output is carried out piece after piece: what two pieces do together is what the
/// second does after the first.
pub proof fn law_output_is_carried_out_in_order(
    s: Screen,
    first: Seq<Token>,
    second: Seq<Token>,
    limit: nat,
)
    ensures
        s.run(first + second, limit) == s.run(first, limit).run(second, limit),
        s.run(Seq::empty(), limit) == s,
    decreases second.len(),
{
    let both = first + second;
    if second.len() == 0 {
        assert(both =~= first);
    } else {
        law_output_is_carried_out_in_order(s, first, second.drop_last(), limit);
        assert(both.drop_last() =~= first + second.drop_last());
        assert(both.last() == second.last());
    }
}

/// Text is printed character after character.
pub proof fn law_text_is_printed_in_order(s: Screen, first: Seq<char>, second: Seq<char>)
    ensures
        s.text(first + second) == s.text(first).text(second),
        s.text(Seq::empty()) == s,
    decreases second.len(),
{
    let both = first + second;
    if second.len() == 0 {
        assert(both =~= first);
    } else {
        law_text_is_printed_in_order(s, first, second.drop_last());
        assert(both.drop_last() =~= first + second.drop_last());
        assert(both.last() == second.last());
    }
}

/// In plain text every character is printed, but for the control characters of ASCII
/// and their twins with the eighth bit, which are carried out.
pub proof fn law_plain_text_is_printed_but_for_controls(s: Screen, c: char)
    ensures
        ' ' <= c < '\u{80}' || c >= '\u{a0}' ==> s.text(seq![c]) == s.print(c),
        c < ' ' || '\u{80}' <= c < '\u{a0}' ==> s.text(seq![c]) == s.execute(c as u8),
{
    assert(seq![c].drop_last() =~= Seq::<char>::empty());
    assert(s.text(seq![c].drop_last()) == s);
    assert(seq![c].last() == c);
}

// ---- control characters ----

/// The bell is passed on and changes nothing on the screen.
pub proof fn law_bell_is_passed_on(s: Screen)
    ensures
        s.execute(0x07) == (Screen { events: s.events.push(EventView::Bell), ..s }),
{
}

/// A backspace goes one column back, a carriage return to the first column, a tab to
/// the right; they touch no cell and stay in their row.
pub proof fn law_controls_move_in_the_row(s: Screen)
    requires
        s.wf(),
    ensures
        s.cx > 0 ==> s.execute(0x08).cx == s.cx - 1,
        s.cx == 0 ==> s.execute(0x08).cx == 0,
        s.execute(0x0d).cx == 0,
        s.cx < s.cols - 1 ==> s.execute(0x09).cx > s.cx,
        s.execute(0x08).cells == s.cells && s.execute(0x08).cy == s.cy,
        s.execute(0x0d).cells == s.cells && s.execute(0x0d).cy == s.cy,
        s.execute(0x09).cells == s.cells && s.execute(0x09).cy == s.cy,
        s.execute(0x09) == s.tab(),
        s.execute(0x08) == s.backspace(),
        s.execute(0x0d) == s.carriage_return(),
{
}

/// A line feed, a vertical tab and a form feed go one line down, in the same column,
/// and scroll in the last row of the region. The view is live again.
pub proof fn law_line_feeds_go_down(s: Screen, byte: u8)
    requires
        s.wf(),
        byte == 0x0a || byte == 0x0b || byte == 0x0c,
    ensures
        s.execute(byte).cx == s.cx,
        s.execute(byte).view_offset == 0,
        s.cy != s.bottom && s.cy + 1 < s.rows ==> s.execute(byte).cy == s.cy + 1
            && s.execute(byte).cells == s.cells,
        s.cy == s.bottom ==> s.execute(byte).cy == s.cy && s.execute(byte).cells == s.scroll_up(
            1,
        ).cells && s.execute(byte).history == s.scroll_up(1).history,
        s.execute(byte) == s.execute(0x0a),
{
}

/// No other control character does anything.
pub proof fn law_other_controls_do_nothing(s: Screen, byte: u8)
    requires
        byte < 0x07 || byte > 0x0d,
    ensures
        s.execute(byte) == s,
{
}

// ---- control sequences ----

/// How many are asked for by the first parameter: one where it is missing or zero.
pub open spec fn count_of(params: Seq<Seq<u16>>) -> int {
    if params.len() > 0 && params[0].len() > 0 && params[0][0] > 0 {
        params[0][0] as int
    } else {
        1
    }
}

/// The kind that is asked for by the first parameter: zero where it is missing.
pub open spec fn kind_of(params: Seq<Seq<u16>>) -> u16 {
    if params.len() > 0 && params[0].len() > 0 {
        params[0][0]
    } else {
        0
    }
}

/// The sequences of the cursor: up, down, right and left by a count; down and up to the
/// first column; to a column; to a row.
pub proof fn law_cursor_sequences(s: Screen, params: Seq<Seq<u16>>)
    requires
        s.wf(),
    ensures
        ({
            let n = count_of(params);
            let none = Seq::<u8>::empty();
            let x = if n <= s.cols {
                n - 1
            } else {
                s.cols - 1
            };
            let y = if n <= s.rows {
                n - 1
            } else {
                s.rows - 1
            };
            &&& s.csi(params, none, 'A') == s.move_up(n)
            &&& s.csi(params, none, 'B') == s.move_down(n)
            &&& s.csi(params, none, 'e') == s.move_down(n)
            &&& s.csi(params, none, 'C') == s.move_right(n)
            &&& s.csi(params, none, 'a') == s.move_right(n)
            &&& s.csi(params, none, 'D') == s.move_left(n)
            &&& s.csi(params, none, 'E') == (Screen { cx: 0, ..s.move_down(n) })
            &&& s.csi(params, none, 'F') == (Screen { cx: 0, ..s.move_up(n) })
            &&& s.csi(params, none, 'G') == (Screen { cx: x, wrap_pending: false, ..s })
            &&& s.csi(params, none, '`') == (Screen { cx: x, wrap_pending: false, ..s })
            &&& s.csi(params, none, 'd') == (Screen { cy: y, wrap_pending: false, ..s })
        }),
{
}

/// The cursor is sent to a row and a column, in this order, both counted from one.
pub proof fn law_cursor_is_sent_to_row_and_column(s: Screen, row: u16, col: u16)
    requires
        s.wf(),
        1 <= row <= s.rows,
        1 <= col <= s.cols,
    ensures
        ({
            let none = Seq::<u8>::empty();
            let there = Screen { cx: col - 1, cy: row - 1, wrap_pending: false, ..s };
            &&& s.csi(seq![seq![row], seq![col]], none, 'H') == there
            &&& s.csi(seq![seq![row], seq![col]], none, 'f') == there
            &&& s.csi(seq![seq![row]], none, 'H') == (Screen { cx: 0, ..there })
            &&& s.csi(Seq::empty(), none, 'H') == (Screen {
                cx: 0,
                cy: 0,
                wrap_pending: false,
                ..s
            })
            &&& s.csi(seq![seq![0u16], seq![0u16]], none, 'H') == s.csi(Seq::empty(), none, 'H')
        }),
{
    let both = seq![seq![row], seq![col]];
    assert(both[0][0] == row && both[1][0] == col);
    assert(seq![seq![row]][0][0] == row);
    let zero = seq![seq![0u16], seq![0u16]];
    assert(zero[0][0] == 0 && zero[1][0] == 0);
}

/// A terminal asked for its cursor names the row and the column that the cursor was
/// sent to, in decimal digits.
pub proof fn law_cursor_report_names_the_place(s: Screen, row: u16, col: u16)
    requires
        s.wf(),
        1 <= row <= s.rows,
        1 <= col <= s.cols,
    ensures
        ({
            let none = Seq::<u8>::empty();
            let there = s.csi(seq![seq![row], seq![col]], none, 'H');
            there.csi(seq![seq![6u16]], none, 'n').events == s.events.push(
                EventView::Reply(
                    seq![0x1bu8, 0x5bu8] + crate::text::decimal(row as nat) + seq![0x3bu8]
                        + crate::text::decimal(col as nat) + seq![0x52u8],
                ),
            )
        }),
{
    law_cursor_is_sent_to_row_and_column(s, row, col);
    assert(seq![seq![6u16]][0][0] == 6);
}

/// What a terminal answers when it is asked for its kind, for its other kind, and for
/// its state. Asking changes nothing on the screen.
pub proof fn law_questions_are_answered(s: Screen, params: Seq<Seq<u16>>)
    ensures
        s.csi(params, Seq::empty(), 'c') == (Screen {
            events: s.events.push(
                EventView::Reply(seq![0x1bu8, 0x5bu8, 0x3fu8, 0x31u8, 0x3bu8, 0x32u8, 0x63u8]),
            ),
            ..s
        }),
        s.csi(params, seq![0x3eu8], 'c') == (Screen {
            events: s.events.push(
                EventView::Reply(
                    seq![
                        0x1bu8,
                        0x5bu8,
                        0x3eu8,
                        0x30u8,
                        0x3bu8,
                        0x39u8,
                        0x35u8,
                        0x3bu8,
                        0x30u8,
                        0x63u8,
                    ],
                ),
            ),
            ..s
        }),
        kind_of(params) == 5 ==> s.csi(params, Seq::empty(), 'n') == (Screen {
            events: s.events.push(EventView::Reply(seq![0x1bu8, 0x5bu8, 0x30u8, 0x6eu8])),
            ..s
        }),
        kind_of(params) != 5 && kind_of(params) != 6 ==> s.csi(params, Seq::empty(), 'n') == s,
{
    assert(seq![0x3eu8][0] == 0x3e);
}

/// The sequences that erase, insert, delete and scroll. Erasing takes a kind, which is
/// zero where it is missing; the others take a count, which is one.
pub proof fn law_editing_sequences(s: Screen, params: Seq<Seq<u16>>)
    ensures
        ({
            let n = count_of(params);
            let none = Seq::<u8>::empty();
            &&& s.csi(params, none, 'J') == s.erase_in_display(kind_of(params))
            &&& s.csi(params, none, 'K') == s.erase_in_line(kind_of(params))
            &&& s.csi(params, none, 'L') == s.insert_lines(n)
            &&& s.csi(params, none, 'M') == s.delete_lines(n)
            &&& s.csi(params, none, 'P') == s.delete_chars(n)
            &&& s.csi(params, none, '@') == s.insert_chars(n)
            &&& s.csi(params, none, 'X') == s.erase_chars(n)
            &&& s.csi(params, none, 'S') == s.scroll_up(n)
            &&& s.csi(params, none, 'T') == s.scroll_down(n)
        }),
{
}

/// A scroll region is given by its first and last row, both counted from one; without
/// them it is the whole screen. The cursor goes to the first row of the region.
pub proof fn law_scroll_region_sequence(s: Screen, first: u16, last: u16)
    requires
        s.wf(),
        s.rows >= 2,
        1 <= first < last <= s.rows,
    ensures
        ({
            let none = Seq::<u8>::empty();
            let after = s.csi(seq![seq![first], seq![last]], none, 'r');
            &&& after == (Screen {
                top: first - 1,
                bottom: last - 1,
                cx: 0,
                cy: first - 1,
                wrap_pending: false,
                ..s
            })
            &&& s.csi(Seq::empty(), none, 'r') == (Screen {
                top: 0,
                bottom: s.rows - 1,
                cx: 0,
                cy: 0,
                wrap_pending: false,
                ..s
            })
            &&& s.csi(seq![seq![last], seq![first]], none, 'r') == s
        }),
{
    let params = seq![seq![first], seq![last]];
    assert(params[0][0] == first && params[1][0] == last);
    let wrong = seq![seq![last], seq![first]];
    assert(wrong[0][0] == last && wrong[1][0] == first);
}

/// The cursor is put aside and brought back by control sequences as by escape
/// sequences.
pub proof fn law_two_ways_to_put_the_cursor_aside(s: Screen, params: Seq<Seq<u16>>)
    ensures
        s.csi(params, Seq::empty(), 's') == s.save_cursor(),
        s.csi(params, Seq::empty(), 'u') == s.restore_cursor(),
        s.esc(Seq::empty(), 0x37) == s.save_cursor(),
        s.esc(Seq::empty(), 0x38) == s.restore_cursor(),
{
}

/// Whether a control sequence without intermediate bytes means something.
pub open spec fn is_known(action: char) -> bool {
    match action {
        'A' | 'B' | 'C' | 'D' | 'E' | 'F' | 'G' | 'H' | 'J' | 'K' | 'L' | 'M' | 'P' | 'S' | 'T'
        | 'X' | 'a' | 'c' | 'd' | 'e' | 'f' | 'm' | 'n' | 'r' | 's' | 'u' | '@' | '`' => true,
        _ => false,
    }
}

/// Any other control sequence does nothing: one without meaning, and one with
/// intermediate bytes that does not set modes nor ask for the kind of device.
pub proof fn law_other_sequences_do_nothing(
    s: Screen,
    params: Seq<Seq<u16>>,
    intermediates: Seq<u8>,
    action: char,
)
    ensures
        !is_known(action) ==> s.csi(params, Seq::empty(), action) == s,
        intermediates.len() > 0 && intermediates[0] != 0x3f && intermediates[0] != 0x3e ==> s.csi(
            params,
            intermediates,
            action,
        ) == s,
        intermediates.len() > 0 && intermediates[0] == 0x3f && action != 'h' && action != 'l'
            ==> s.csi(params, intermediates, action) == s,
        intermediates.len() > 0 && intermediates[0] == 0x3e && action != 'c' ==> s.csi(
            params,
            intermediates,
            action,
        ) == s,
{
}

// ---- private modes ----

/// Several private modes in one sequence are set one after the other.
pub proof fn law_private_modes_are_set_in_order(
    s: Screen,
    first: Seq<Seq<u16>>,
    second: Seq<Seq<u16>>,
    set: bool,
)
    ensures
        s.private_modes(first + second, set) == s.private_modes(first, set).private_modes(
            second,
            set,
        ),
        s.private_modes(Seq::empty(), set) == s,
    decreases second.len(),
{
    let both = first + second;
    if second.len() == 0 {
        assert(both =~= first);
    } else {
        law_private_modes_are_set_in_order(s, first, second.drop_last(), set);
        assert(both.drop_last() =~= first + second.drop_last());
        assert(both.last() == second.last());
        assert(crate::control::raw_arg(both, both.len() - 1, 0) == crate::control::raw_arg(
            second,
            second.len() - 1,
            0,
        ));
    }
}

/// The three modes of the alternate screen show it and leave it; the last of them also
/// puts the cursor aside before, and brings it back after.
pub proof fn law_modes_of_the_alternate_screen(s: Screen)
    requires
        s.wf(),
    ensures
        s.private_mode(47, true) == s.enter_alt_screen(),
        s.private_mode(47, false) == s.leave_alt_screen(),
        s.private_mode(1047, true) == s.enter_alt_screen(),
        s.private_mode(1047, false) == s.leave_alt_screen(),
        s.private_mode(1049, true) == s.save_cursor().enter_alt_screen(),
        s.private_mode(1049, false) == s.leave_alt_screen().restore_cursor(),
        s.private_mode(1049, true).on_alt(),
        !s.private_mode(1049, false).on_alt(),
{
}

/// The modes that nobody knows change nothing.
pub proof fn law_unknown_modes_change_nothing(s: Screen, mode: u16, set: bool)
    requires
        mode != 1 && mode != 7 && mode != 25 && mode != 47 && mode != 1047 && mode != 1049,
        mode != 1000 && mode != 1002 && mode != 1003 && mode != 1004 && mode != 1006,
        mode != 2004 && mode != 2026,
    ensures
        s.private_mode(mode, set) == s,
{
}

// ---- escape sequences ----

/// The escape sequences: one line up, one line down, the beginning of the next line, the
/// keypad, and the hard reset. With intermediate bytes they choose character sets, which
/// does nothing.
pub proof fn law_escape_sequences(s: Screen, intermediates: Seq<u8>, byte: u8)
    requires
        s.wf(),
    ensures
        s.esc(Seq::empty(), 0x4d) == s.reverse_index(),
        s.esc(Seq::empty(), 0x44) == s.index(),
        s.esc(Seq::empty(), 0x45) == (Screen { cx: 0, ..s }).index(),
        s.esc(Seq::empty(), 0x3d) == (Screen { modes: Modes { app_keypad: true, ..s.modes }, ..s }),
        s.esc(Seq::empty(), 0x3e) == (Screen { modes: Modes { app_keypad: false, ..s.modes }, ..s }),
        s.esc(Seq::empty(), 0x63) == s.full_reset(),
        intermediates.len() > 0 ==> s.esc(intermediates, byte) == s,
        byte != 0x4d && byte != 0x44 && byte != 0x45 && byte != 0x37 && byte != 0x38 && byte != 0x3d
            && byte != 0x3e && byte != 0x63 ==> s.esc(intermediates, byte) == s,
{
}

// ---- operating system commands ----

/// A command for the title passes its text on, one for the directory its address, and
/// both change nothing else. Without their text they do nothing.
pub proof fn law_titles_and_directories_are_passed_on(s: Screen, parts: Seq<Seq<u8>>)
    requires
        parts.len() >= 1,
    ensures
        parts.len() >= 2 && (parts[0] == seq![0x30u8] || parts[0] == seq![0x31u8] || parts[0]
            == seq![0x32u8]) ==> s.osc(parts) == (Screen {
            events: s.events.push(EventView::Title(crate::text::lossy(parts[1]))),
            ..s
        }),
        parts.len() >= 2 && parts[0] == seq![0x37u8] ==> s.osc(parts) == (Screen {
            events: s.events.push(EventView::Cwd(crate::text::lossy(parts[1]))),
            ..s
        }),
        parts.len() == 1 && (parts[0] == seq![0x30u8] || parts[0] == seq![0x32u8] || parts[0]
            == seq![0x37u8] || parts[0] == seq![0x39u8]) ==> s.osc(parts) == s,
{
    assert(seq![0x37u8][0] == 0x37);
    assert(seq![0x39u8][0] == 0x39);
    assert(seq![0x38u8][0] == 0x38);
    assert(seq![0x30u8][0] == 0x30);
    assert(seq![0x31u8][0] == 0x31);
    assert(seq![0x32u8][0] == 0x32);
}

/// A notification passes its text on: in the short form the text alone, in the long form
/// a title and a text, in this order.
pub proof fn law_notifications_are_passed_on(s: Screen, parts: Seq<Seq<u8>>)
    requires
        parts.len() >= 1,
    ensures
        parts.len() >= 2 && parts[0] == seq![0x39u8] ==> s.osc(parts) == (Screen {
            events: s.events.push(
                EventView::Notify(seq!['t', 'e', 'r', 'm'], crate::text::lossy(parts[1])),
            ),
            ..s
        }),
        parts.len() >= 4 && parts[0] == seq![0x37u8, 0x37u8, 0x37u8] && parts[1] == seq![
            0x6eu8,
            0x6fu8,
            0x74u8,
            0x69u8,
            0x66u8,
            0x79u8,
        ] ==> s.osc(parts) == (Screen {
            events: s.events.push(
                EventView::Notify(crate::text::lossy(parts[2]), crate::text::lossy(parts[3])),
            ),
            ..s
        }),
{
    assert(seq![0x39u8][0] == 0x39);
    assert(seq![0x37u8, 0x37u8, 0x37u8].len() == 3);
    assert(seq![0x37u8, 0x37u8, 0x37u8][0] == 0x37);
    assert(seq![0x31u8, 0x33u8, 0x33u8][0] == 0x31);
    assert(seq![0x37u8][0] == 0x37);
    assert(seq![0x38u8][0] == 0x38);
    assert(seq![0x30u8][0] == 0x30);
    assert(seq![0x31u8][0] == 0x31);
    assert(seq![0x32u8][0] == 0x32);
}

/// The clipboard is set to the text that the third part is the base64 of. A question for
/// it, and what is no base64, does nothing.
pub proof fn law_clipboard_takes_the_decoded_text(s: Screen, parts: Seq<Seq<u8>>)
    requires
        parts.len() >= 1,
        parts[0] == seq![0x35u8, 0x32u8],
    ensures
        parts.len() < 3 ==> s.osc(parts) == s,
        parts.len() >= 3 && parts[2] == seq![0x3fu8] ==> s.osc(parts) == s,
        parts.len() >= 3 && parts[2] != seq![0x3fu8] ==> match crate::codec::base64_padded(
            parts[2],
        ) {
            Some(bytes) => s.osc(parts) == (Screen {
                events: s.events.push(EventView::SetClipboard(crate::text::lossy(bytes))),
                ..s
            }),
            None => match crate::codec::base64_bare(parts[2]) {
                Some(bytes) => s.osc(parts) == (Screen {
                    events: s.events.push(EventView::SetClipboard(crate::text::lossy(bytes))),
                    ..s
                }),
                None => s.osc(parts) == s,
            },
        },
{
    assert(parts[0].len() == 2);
    assert(s.osc(parts) == s.osc_clipboard(parts));
}

/// The marks of a shell: a command begins, a command has ended with an exit code, or
/// with none that can be read.
pub proof fn law_marks_of_a_shell_are_passed_on(s: Screen, parts: Seq<Seq<u8>>)
    requires
        parts.len() >= 2,
        parts[0] == seq![0x31u8, 0x33u8, 0x33u8],
    ensures
        parts[1] == seq![0x43u8] ==> s.osc(parts) == (Screen {
            events: s.events.push(EventView::PromptStart),
            ..s
        }),
        parts[1] == seq![0x44u8] && parts.len() == 2 ==> s.osc(parts) == (Screen {
            events: s.events.push(EventView::CommandEnd(None)),
            ..s
        }),
        parts[1] == seq![0x44u8] && parts.len() >= 3 ==> s.osc(parts) == (Screen {
            events: s.events.push(EventView::CommandEnd(crate::control::exit_code(parts[2]))),
            ..s
        }),
        parts[1] != seq![0x43u8] && parts[1] != seq![0x44u8] ==> s.osc(parts) == s,
{
    assert(parts[0].len() == 3);
    assert(parts[0][0] == 0x31);
    assert(seq![0x43u8][0] == 0x43);
    assert(seq![0x44u8][0] == 0x44);
    assert(seq![0x37u8, 0x37u8, 0x37u8][0] == 0x37);
    assert(s.osc(parts) == s.osc_mark(parts));
}

/// A hyperlink has its address in the third part; without one it is closed.
pub proof fn law_hyperlink_is_in_the_third_part(s: Screen, parts: Seq<Seq<u8>>)
    requires
        parts.len() >= 1,
        parts[0] == seq![0x38u8],
    ensures
        parts.len() >= 3 ==> s.osc(parts) == s.osc_link(crate::text::lossy(parts[2])),
        parts.len() < 3 ==> s.osc(parts) == s.osc_link(Seq::empty()),
{
    assert(parts[0][0] == 0x38);
    assert(seq![0x30u8][0] == 0x30);
    assert(seq![0x31u8][0] == 0x31);
    assert(seq![0x32u8][0] == 0x32);
    assert(seq![0x37u8][0] == 0x37);
}

// ---- colours and attributes ----

/// The screen after one code of a colour or attribute.
pub open spec fn coded(s: Screen, code: u16) -> Screen {
    s.csi(seq![seq![code]], Seq::empty(), 'm')
}

proof fn lemma_one_code(s: Screen, code: u16)
    requires
        code != 38,
        code != 48,
    ensures
        coded(s, code) == s.with_pen(crate::control::pen_after(s.pen, s.link, code)),
{
    let codes = seq![seq![code]];
    assert(codes[0][0] == code);
    assert(codes.skip(1) =~= Seq::<Seq<u16>>::empty());
    let pen = crate::control::pen_after(s.pen, s.link, code);
    assert(crate::control::pen_after_all(pen, s.link, codes.skip(1)) == pen);
    assert(crate::control::raw_arg(codes, 0, 0) == code);
    assert(crate::control::pen_after_all(s.pen, s.link, codes) == pen);
}

/// Each attribute is switched on by its own code and off by its own code or by a full
/// reset, and no other code touches it. Nothing changes but the pen.
pub proof fn law_attributes_are_switched_by_their_own_codes(s: Screen, code: u16)
    requires
        code != 38,
        code != 48,
    ensures
        ({
            let pen = coded(s, code).pen;
            let full = code == 0;
            &&& coded(s, code) == (Screen { pen, ..s })
            &&& pen.bold == (code == 1 || (s.pen.bold && !full && code != 21 && code != 22))
            &&& pen.dim == (code == 2 || (s.pen.dim && !full && code != 21 && code != 22))
            &&& pen.italic == (code == 3 || (s.pen.italic && !full && code != 23))
            &&& pen.underline == (code == 4 || (s.pen.underline && !full && code != 24))
            &&& pen.inverse == (code == 7 || (s.pen.inverse && !full && code != 27))
            &&& pen.hidden == (code == 8 || (s.pen.hidden && !full && code != 28))
            &&& pen.strike == (code == 9 || (s.pen.strike && !full && code != 29))
            &&& !full ==> pen.link == s.pen.link
            &&& full ==> pen.link == s.link
        }),
{
    lemma_one_code(s, code);
}

/// Each of the eight colours has a code for the foreground and one for the background,
/// and a bright twin of each; two codes and the full reset bring the default colours
/// back, and no other code touches a colour.
pub proof fn law_colours_are_set_by_their_own_codes(s: Screen, code: u16)
    requires
        code != 38,
        code != 48,
    ensures
        ({
            let pen = coded(s, code).pen;
            &&& 30 <= code <= 37 ==> pen.fg == Color::Indexed((code - 30) as u8)
            &&& 90 <= code <= 97 ==> pen.fg == Color::Indexed((code - 82) as u8)
            &&& code == 39 || code == 0 ==> pen.fg == Color::Default
            &&& !(30 <= code <= 37 || 90 <= code <= 97 || code == 39 || code == 0) ==> pen.fg
                == s.pen.fg
            &&& 40 <= code <= 47 ==> pen.bg == Color::Indexed((code - 40) as u8)
            &&& 100 <= code <= 107 ==> pen.bg == Color::Indexed((code - 92) as u8)
            &&& code == 49 || code == 0 ==> pen.bg == Color::Default
            &&& !(40 <= code <= 47 || 100 <= code <= 107 || code == 49 || code == 0) ==> pen.bg
                == s.pen.bg
        }),
{
    lemma_one_code(s, code);
}

/// Printing after an attribute has been switched on and off again writes it as printing
/// before would have, where it was off.
#[verifier::rlimit(30)]
pub proof fn law_switching_off_undoes_switching_on(s: Screen, c: char)
    ensures
        !s.pen.bold && !s.pen.dim ==> coded(coded(s, 1), 22).pen.stamp(c) == s.pen.stamp(c),
        !s.pen.bold && !s.pen.dim ==> coded(coded(s, 2), 22).pen.stamp(c) == s.pen.stamp(c),
        !s.pen.italic ==> coded(coded(s, 3), 23).pen.stamp(c) == s.pen.stamp(c),
        !s.pen.underline ==> coded(coded(s, 4), 24).pen.stamp(c) == s.pen.stamp(c),
        !s.pen.inverse ==> coded(coded(s, 7), 27).pen.stamp(c) == s.pen.stamp(c),
        !s.pen.hidden ==> coded(coded(s, 8), 28).pen.stamp(c) == s.pen.stamp(c),
        !s.pen.strike ==> coded(coded(s, 9), 29).pen.stamp(c) == s.pen.stamp(c),
        !coded(coded(s, 1), 22).pen.stamp(c).bold,
{
    lemma_one_code(s, 1);
    lemma_one_code(coded(s, 1), 22);
    lemma_one_code(s, 2);
    lemma_one_code(coded(s, 2), 22);
    lemma_one_code(s, 3);
    lemma_one_code(coded(s, 3), 23);
    lemma_one_code(s, 4);
    lemma_one_code(coded(s, 4), 24);
    lemma_one_code(s, 7);
    lemma_one_code(coded(s, 7), 27);
    lemma_one_code(s, 8);
    lemma_one_code(coded(s, 8), 28);
    lemma_one_code(s, 9);
    lemma_one_code(coded(s, 9), 29);
}

/// A sequence without codes resets everything, as the code zero does.
pub proof fn law_no_code_resets(s: Screen)
    ensures
        s.csi(Seq::empty(), Seq::empty(), 'm') == coded(s, 0),
{
    lemma_one_code(s, 0);
}

/// Several codes in one sequence are carried out one after the other.
pub proof fn law_codes_are_carried_out_in_order(s: Screen, code: u16, rest: Seq<Seq<u16>>)
    requires
        code != 38,
        code != 48,
        rest.len() > 0,
    ensures
        s.csi(seq![seq![code]] + rest, Seq::empty(), 'm') == coded(s, code).csi(
            rest,
            Seq::empty(),
            'm',
        ),
{
    lemma_one_code(s, code);
    let all = seq![seq![code]] + rest;
    assert(all[0] == seq![code]);
    assert(all[0][0] == code);
    assert(all.skip(1) =~= rest);
    assert(crate::control::raw_arg(all, 0, 0) == code);
}

/// The pen with a colour for the foreground (38) or the background (48).
pub open spec fn colored(pen: Pen, code: u16, color: Color) -> Pen {
    if code == 38 {
        Pen { fg: color, ..pen }
    } else {
        Pen { bg: color, ..pen }
    }
}

/// One of 256 colours is named by `5` and its index, a colour of 24 bits by `2` and its
/// red, green and blue, in this order; what follows is carried out after it.
#[verifier::rlimit(30)]
pub proof fn law_many_colours_are_named_by_numbers(
    s: Screen,
    code: u16,
    n: u8,
    r: u8,
    g: u8,
    b: u8,
    rest: Seq<Seq<u16>>,
)
    requires
        code == 38 || code == 48,
    ensures
        ({
            let none = Seq::<u8>::empty();
            let indexed = seq![seq![code], seq![5u16], seq![n as u16]];
            let exact = seq![
                seq![code],
                seq![2u16],
                seq![r as u16],
                seq![g as u16],
                seq![b as u16],
            ];
            let s5 = Screen { pen: colored(s.pen, code, Color::Indexed(n)), ..s };
            let s2 = Screen { pen: colored(s.pen, code, Color::Rgb(r, g, b)), ..s };
            &&& s.csi(indexed, none, 'm') == s5
            &&& s.csi(exact, none, 'm') == s2
            &&& rest.len() > 0 ==> s.csi(indexed + rest, none, 'm') == s5.csi(rest, none, 'm')
            &&& rest.len() > 0 ==> s.csi(exact + rest, none, 'm') == s2.csi(rest, none, 'm')
        }),
{
    lemma_indexed(s, code, n, rest);
    lemma_indexed(s, code, n, Seq::empty());
    lemma_exact(s, code, r, g, b, rest);
    lemma_exact(s, code, r, g, b, Seq::empty());
    let indexed = seq![seq![code], seq![5u16], seq![n as u16]];
    let exact = seq![seq![code], seq![2u16], seq![r as u16], seq![g as u16], seq![b as u16]];
    assert(indexed + Seq::<Seq<u16>>::empty() =~= indexed);
    assert(exact + Seq::<Seq<u16>>::empty() =~= exact);
    let p5 = colored(s.pen, code, Color::Indexed(n));
    let p2 = colored(s.pen, code, Color::Rgb(r, g, b));
    assert(crate::control::pen_after_all(p5, s.link, Seq::empty()) == p5);
    assert(crate::control::pen_after_all(p2, s.link, Seq::empty()) == p2);
}

proof fn lemma_indexed(s: Screen, code: u16, n: u8, rest: Seq<Seq<u16>>)
    requires
        code == 38 || code == 48,
    ensures
        crate::control::pen_after_all(
            s.pen,
            s.link,
            seq![seq![code], seq![5u16], seq![n as u16]] + rest,
        ) == crate::control::pen_after_all(colored(s.pen, code, Color::Indexed(n)), s.link, rest),
{
    let all = seq![seq![code], seq![5u16], seq![n as u16]] + rest;
    let tail = all.skip(1);
    assert(all[0] == seq![code] && all[0].len() == 1 && all[0][0] == code);
    assert(tail[0] == seq![5u16] && tail[0][0] == 5);
    assert(tail[1] == seq![n as u16] && tail[1][0] == n as u16);
    assert(crate::control::raw_arg(all, 0, 0) == code);
    assert(crate::control::following_used(tail) == 2);
    assert(crate::control::following_color(tail) == Some(Color::Indexed(n)));
    assert(tail.skip(2) =~= rest);
}

proof fn lemma_exact(s: Screen, code: u16, r: u8, g: u8, b: u8, rest: Seq<Seq<u16>>)
    requires
        code == 38 || code == 48,
    ensures
        crate::control::pen_after_all(
            s.pen,
            s.link,
            seq![seq![code], seq![2u16], seq![r as u16], seq![g as u16], seq![b as u16]] + rest,
        ) == crate::control::pen_after_all(colored(s.pen, code, Color::Rgb(r, g, b)), s.link, rest),
{
    let all = seq![seq![code], seq![2u16], seq![r as u16], seq![g as u16], seq![b as u16]] + rest;
    let tail = all.skip(1);
    assert(all[0] == seq![code] && all[0].len() == 1 && all[0][0] == code);
    assert(tail[0] == seq![2u16] && tail[0][0] == 2);
    assert(tail[1] == seq![r as u16] && tail[1][0] == r as u16);
    assert(tail[2] == seq![g as u16] && tail[2][0] == g as u16);
    assert(tail[3] == seq![b as u16] && tail[3][0] == b as u16);
    assert(crate::control::raw_arg(all, 0, 0) == code);
    assert(crate::control::following_used(tail) == 4);
    assert(crate::control::following_color(tail) == Some(Color::Rgb(r, g, b)));
    assert(tail.skip(4) =~= rest);
}

/// With colons the numbers of a colour stand in one parameter: the index after `5`, or
/// red, green and blue after `2`, with a colour space before them or without one.
pub proof fn law_many_colours_are_named_with_colons(
    s: Screen,
    code: u16,
    n: u8,
    r: u8,
    g: u8,
    b: u8,
    space: u16,
)
    requires
        code == 38 || code == 48,
    ensures
        ({
            let none = Seq::<u8>::empty();
            let red = r as u16;
            let green = g as u16;
            let blue = b as u16;
            let s2 = Screen { pen: colored(s.pen, code, Color::Rgb(r, g, b)), ..s };
            &&& s.csi(seq![seq![code, 5u16, n as u16]], none, 'm') == (Screen {
                pen: colored(s.pen, code, Color::Indexed(n)),
                ..s
            })
            &&& s.csi(seq![seq![code, 2u16, red, green, blue]], none, 'm') == s2
            &&& s.csi(seq![seq![code, 2u16, space, red, green, blue]], none, 'm') == s2
        }),
{
    lemma_colons(s, code, seq![code, 5u16, n as u16]);
    lemma_colons(s, code, seq![code, 2u16, r as u16, g as u16, b as u16]);
    lemma_colons(s, code, seq![code, 2u16, space, r as u16, g as u16, b as u16]);
    let p5 = seq![code, 5u16, n as u16];
    assert(p5[1] == 5 && p5[2] == n as u16);
    let p2 = seq![code, 2u16, r as u16, g as u16, b as u16];
    assert(p2[1] == 2 && p2[2] == r as u16 && p2[3] == g as u16 && p2[4] == b as u16);
    let p3 = seq![code, 2u16, space, r as u16, g as u16, b as u16];
    assert(p3[1] == 2 && p3[3] == r as u16 && p3[4] == g as u16 && p3[5] == b as u16);
}

proof fn lemma_colons(s: Screen, code: u16, p: Seq<u16>)
    requires
        code == 38 || code == 48,
        p.len() >= 2,
        p[0] == code,
    ensures
        s.csi(seq![p], Seq::empty(), 'm') == s.with_pen(
            crate::control::pen_colored(s.pen, code, crate::control::subparam_color(p)),
        ),
{
    let all = seq![p];
    assert(all[0] == p);
    assert(crate::control::raw_arg(all, 0, 0) == code);
    assert(all.skip(1) =~= Seq::<Seq<u16>>::empty());
    let pen = crate::control::pen_colored(s.pen, code, crate::control::subparam_color(p));
    assert(crate::control::pen_after_all(pen, s.link, all.skip(1)) == pen);
}

/// A colour that is cut short, or of a kind that is not known, changes nothing.
#[verifier::rlimit(30)]
pub proof fn law_a_colour_cut_short_changes_nothing(s: Screen, code: u16, kind: u16)
    requires
        code == 38 || code == 48,
        kind != 2 && kind != 5,
    ensures
        ({
            let none = Seq::<u8>::empty();
            &&& s.csi(seq![seq![code]], none, 'm') == s
            &&& s.csi(seq![seq![code], seq![5u16]], none, 'm') == s
            &&& s.csi(seq![seq![code], seq![2u16], seq![1u16]], none, 'm') == s
            &&& s.csi(seq![seq![code], seq![kind]], none, 'm') == s
        }),
{
    lemma_cut_short(s, code, Seq::empty());
    lemma_cut_short(s, code, seq![seq![5u16]]);
    lemma_cut_short(s, code, seq![seq![2u16], seq![1u16]]);
    lemma_cut_short(s, code, seq![seq![kind]]);
    assert(seq![seq![code]] + Seq::<Seq<u16>>::empty() =~= seq![seq![code]]);
    assert(seq![seq![code]] + seq![seq![5u16]] =~= seq![seq![code], seq![5u16]]);
    assert(seq![seq![code]] + seq![seq![2u16], seq![1u16]] =~= seq![
        seq![code],
        seq![2u16],
        seq![1u16],
    ]);
    assert(seq![seq![code]] + seq![seq![kind]] =~= seq![seq![code], seq![kind]]);
}

proof fn lemma_cut_short(s: Screen, code: u16, tail: Seq<Seq<u16>>)
    requires
        code == 38 || code == 48,
        tail.len() == 0 || (tail.len() == 1 && tail[0].len() == 1 && tail[0][0] != 2) || (
        tail.len() == 2 && tail[0].len() == 1 && tail[0][0] == 2 && tail[1].len() == 1),
    ensures
        s.csi(seq![seq![code]] + tail, Seq::empty(), 'm') == s,
{
    let all = seq![seq![code]] + tail;
    assert(all[0] == seq![code] && all[0].len() == 1 && all[0][0] == code);
    assert(all.skip(1) =~= tail);
    assert(crate::control::raw_arg(all, 0, 0) == code);
    let used = crate::control::following_used(tail);
    assert(tail.skip(used) =~= Seq::<Seq<u16>>::empty());
    assert(crate::control::pen_after_all(s.pen, s.link, tail.skip(used)) == s.pen);
    assert(crate::control::following_color(tail) is None);
    assert(crate::control::pen_after_all(s.pen, s.link, all) == s.pen);
    assert(s.with_pen(s.pen) == s);
}

// ---- device control strings ----

/// A device control string that tmux has not wrapped does nothing; nothing of it is left.
pub proof fn law_other_device_strings_do_nothing(s: Screen)
    requires
        s.dcs_action != 't' || s.dcs_buf.len() < 4 || s.dcs_buf[0] != 0x6d || s.dcs_buf[1] != 0x75
            || s.dcs_buf[2] != 0x78 || s.dcs_buf[3] != 0x3b,
        s.dcs_action as u32 <= 0x7f,
    ensures
        s.unhooked() == (Screen { dcs_buf: Seq::empty(), dcs_action: '\0', ..s }),
{
    let full = s.dcs_string();
    if full.len() >= 5 && full.take(5) == crate::screen::tmux_prefix() {
        let head = full.take(5);
        assert(head[0] == full[0] && head[0] == 0x74);
        assert(full[0] == s.dcs_action as u8);
        assert(head[1] == s.dcs_buf[0]);
        assert(head[2] == s.dcs_buf[1]);
        assert(head[3] == s.dcs_buf[2]);
        assert(head[4] == s.dcs_buf[3]);
        assert(s.dcs_action == 't');
    }
}

/// The bytes of a device control string are kept in order, up to a mebibyte; the rest is
/// dropped.
pub proof fn law_device_strings_are_kept_up_to_a_limit(s: Screen, action: char, byte: u8)
    ensures
        s.step(Token::Hook(action), 0) == (Screen {
            dcs_action: action,
            dcs_buf: Seq::empty(),
            ..s
        }),
        s.dcs_buf.len() < 1048576 ==> s.step(Token::Put(byte), 0) == (Screen {
            dcs_buf: s.dcs_buf.push(byte),
            ..s
        }),
        s.dcs_buf.len() >= 1048576 ==> s.step(Token::Put(byte), 0) == s,
{
}

} // verus!
