//! What control characters and escape sequences make of a screen.

use vstd::prelude::*;

use crate::cell::{Color, Pen};
use crate::decode::Token;
use crate::event::EventView;
use crate::modes::{Modes, MouseProto};
use crate::screen::{Screen, DCS_LIMIT};

verus! {

// ---- parameters ----

/// The first value of a parameter, if it is there.
pub open spec fn param(params: Seq<Seq<u16>>, idx: int) -> Option<u16> {
    if 0 <= idx < params.len() && params[idx].len() > 0 {
        Some(params[idx][0])
    } else {
        None
    }
}

/// The first value of a parameter, or `default` where it is missing.
pub open spec fn raw_arg(params: Seq<Seq<u16>>, idx: int, default: u16) -> u16 {
    match param(params, idx) {
        Some(v) => v,
        None => default,
    }
}

/// The first value of a parameter, or `default` where it is missing or zero.
pub open spec fn arg(params: Seq<Seq<u16>>, idx: int, default: u16) -> u16 {
    let v = raw_arg(params, idx, 0);
    if v == 0 {
        default
    } else {
        v
    }
}

/// A parameter that counts from one, made to count from zero. Missing or zero
/// counts as one.
pub open spec fn place_arg(params: Seq<Seq<u16>>, idx: int) -> int {
    arg(params, idx, 1) - 1
}

// ---- colours ----

/// The low eight bits.
pub open spec fn low_byte(n: u16) -> u8 {
    (n % 256) as u8
}

/// The colour that one parameter with subparameters gives: `38:5:n`, `38:2:r:g:b`
/// or `38:2:space:r:g:b`.
pub open spec fn subparam_color(p: Seq<u16>) -> Option<Color> {
    if p.len() < 2 {
        None
    } else if p[1] == 2 && p.len() >= 6 {
        Some(Color::Rgb(low_byte(p[3]), low_byte(p[4]), low_byte(p[5])))
    } else if p[1] == 2 && p.len() == 5 {
        Some(Color::Rgb(low_byte(p[2]), low_byte(p[3]), low_byte(p[4])))
    } else if p[1] == 5 && p.len() >= 3 {
        Some(Color::Indexed(low_byte(p[2])))
    } else {
        None
    }
}

/// The colour that the parameters after `38` or `48` give: `5;n` or `2;r;g;b`.
pub open spec fn following_color(rest: Seq<Seq<u16>>) -> Option<Color> {
    match param(rest, 0) {
        None => None,
        Some(kind) => if kind == 5 {
            match param(rest, 1) {
                Some(n) => Some(Color::Indexed(low_byte(n))),
                None => None,
            }
        } else if kind == 2 {
            match (param(rest, 1), param(rest, 2), param(rest, 3)) {
                (Some(r), Some(g), Some(b)) => Some(
                    Color::Rgb(low_byte(r), low_byte(g), low_byte(b)),
                ),
                _ => None,
            }
        } else {
            None
        },
    }
}

/// How many of the parameters after `38` or `48` belong to the colour: all up to
/// the last that it needs, or up to the first that is missing.
pub open spec fn following_used(rest: Seq<Seq<u16>>) -> int {
    let wanted: int = match param(rest, 0) {
        None => 1,
        Some(kind) => if kind == 5 {
            2
        } else if kind == 2 {
            if param(rest, 1) is None {
                2
            } else if param(rest, 2) is None {
                3
            } else {
                4
            }
        } else {
            1
        },
    };
    vstd::math::min(wanted, rest.len() as int)
}

/// What the code of a colour or attribute makes of the pen. The hyperlink stays.
pub open spec fn pen_after(pen: Pen, link: u16, code: u16) -> Pen {
    if code == 0 {
        crate::cell::plain_pen(link)
    } else if code == 1 {
        Pen { bold: true, ..pen }
    } else if code == 2 {
        Pen { dim: true, ..pen }
    } else if code == 3 {
        Pen { italic: true, ..pen }
    } else if code == 4 {
        Pen { underline: true, ..pen }
    } else if code == 7 {
        Pen { inverse: true, ..pen }
    } else if code == 8 {
        Pen { hidden: true, ..pen }
    } else if code == 9 {
        Pen { strike: true, ..pen }
    } else if code == 21 || code == 22 {
        Pen { bold: false, dim: false, ..pen }
    } else if code == 23 {
        Pen { italic: false, ..pen }
    } else if code == 24 {
        Pen { underline: false, ..pen }
    } else if code == 27 {
        Pen { inverse: false, ..pen }
    } else if code == 28 {
        Pen { hidden: false, ..pen }
    } else if code == 29 {
        Pen { strike: false, ..pen }
    } else if 30 <= code <= 37 {
        Pen { fg: Color::Indexed((code - 30) as u8), ..pen }
    } else if code == 39 {
        Pen { fg: Color::Default, ..pen }
    } else if 40 <= code <= 47 {
        Pen { bg: Color::Indexed((code - 40) as u8), ..pen }
    } else if code == 49 {
        Pen { bg: Color::Default, ..pen }
    } else if 90 <= code <= 97 {
        Pen { fg: Color::Indexed((code - 90 + 8) as u8), ..pen }
    } else if 100 <= code <= 107 {
        Pen { bg: Color::Indexed((code - 100 + 8) as u8), ..pen }
    } else {
        pen
    }
}

/// A colour set by `38` (the foreground) or `48` (the background).
pub open spec fn pen_colored(pen: Pen, code: u16, color: Option<Color>) -> Pen {
    match color {
        None => pen,
        Some(c) => if code == 38 {
            Pen { fg: c, ..pen }
        } else {
            Pen { bg: c, ..pen }
        },
    }
}

/// The pen after a list of codes, each with its subparameters.
pub open spec fn pen_after_all(pen: Pen, link: u16, codes: Seq<Seq<u16>>) -> Pen
    decreases codes.len(),
{
    if codes.len() == 0 {
        pen
    } else {
        let code = raw_arg(codes, 0, 0);
        let rest = codes.skip(1);
        if code == 38 || code == 48 {
            if codes[0].len() >= 2 {
                pen_after_all(pen_colored(pen, code, subparam_color(codes[0])), link, rest)
            } else {
                pen_after_all(
                    pen_colored(pen, code, following_color(rest)),
                    link,
                    rest.skip(following_used(rest)),
                )
            }
        } else {
            pen_after_all(pen_after(pen, link, code), link, rest)
        }
    }
}

// ---- modes ----

/// The mouse events wanted after a mode for them is set or reset.
pub open spec fn proto_after(set: bool, on: MouseProto) -> MouseProto {
    if set {
        on
    } else {
        MouseProto::Off
    }
}

/// The modes after one of them is set or reset.
pub open spec fn modes_after(m: Modes, mode: u16, set: bool) -> Modes {
    if mode == 1 {
        Modes { app_cursor_keys: set, ..m }
    } else if mode == 7 {
        Modes { autowrap: set, ..m }
    } else if mode == 25 {
        Modes { cursor_visible: set, ..m }
    } else if mode == 1000 {
        Modes { mouse_proto: proto_after(set, MouseProto::Normal), ..m }
    } else if mode == 1002 {
        Modes { mouse_proto: proto_after(set, MouseProto::ButtonEvent), ..m }
    } else if mode == 1003 {
        Modes { mouse_proto: proto_after(set, MouseProto::AnyEvent), ..m }
    } else if mode == 1004 {
        Modes { focus_event: set, ..m }
    } else if mode == 1006 {
        Modes { mouse_sgr: set, ..m }
    } else if mode == 2004 {
        Modes { bracketed_paste: set, ..m }
    } else if mode == 2026 {
        Modes { sync_output: set, ..m }
    } else {
        m
    }
}

// ---- operating system commands ----

/// The text of a part, if the part is there.
pub open spec fn part_text(parts: Seq<Seq<u8>>, idx: int) -> Option<Seq<char>> {
    if 0 <= idx < parts.len() {
        Some(crate::text::lossy(parts[idx]))
    } else {
        None
    }
}

/// The text of a part, empty where the part is missing.
pub open spec fn text_or_empty(parts: Seq<Seq<u8>>, idx: int) -> Seq<char> {
    match part_text(parts, idx) {
        Some(t) => t,
        None => Seq::empty(),
    }
}

/// The exit code that a part gives: a number with white space round it.
pub open spec fn exit_code(part: Seq<u8>) -> Option<i32> {
    if vstd::utf8::valid_utf8(part) {
        crate::text::parsed_i32(crate::text::trimmed(vstd::utf8::decode_utf8(part)))
    } else {
        None
    }
}

/// The word `notify`.
pub open spec fn notify_word() -> Seq<u8> {
    seq![0x6eu8, 0x6fu8, 0x74u8, 0x69u8, 0x66u8, 0x79u8]
}

impl Screen {
    pub open spec fn reply(self, bytes: Seq<u8>) -> Screen {
        self.push_event(EventView::Reply(bytes))
    }

    /// A control character.
    pub open spec fn execute(self, byte: u8) -> Screen {
        if byte == 0x07 {
            self.push_event(EventView::Bell)
        } else if byte == 0x08 {
            self.backspace()
        } else if byte == 0x09 {
            self.tab()
        } else if 0x0a <= byte <= 0x0c {
            self.linefeed()
        } else if byte == 0x0d {
            self.carriage_return()
        } else {
            self
        }
    }

    /// One private mode set or reset.
    pub open spec fn private_mode(self, mode: u16, set: bool) -> Screen {
        if mode == 47 || mode == 1047 {
            if set {
                self.enter_alt_screen()
            } else {
                self.leave_alt_screen()
            }
        } else if mode == 1049 {
            if set {
                self.save_cursor().enter_alt_screen()
            } else {
                self.leave_alt_screen().restore_cursor()
            }
        } else {
            self.with_modes(modes_after(self.modes, mode, set))
        }
    }

    /// Private modes set or reset one after the other.
    pub open spec fn private_modes(self, params: Seq<Seq<u16>>, set: bool) -> Screen
        decreases params.len(),
    {
        if params.len() == 0 {
            self
        } else {
            self.private_modes(params.drop_last(), set).private_mode(
                raw_arg(params, params.len() - 1, 0),
                set,
            )
        }
    }

    /// Colours and attributes; no parameter at all resets them.
    pub open spec fn sgr(self, params: Seq<Seq<u16>>) -> Screen {
        if params.len() == 0 {
            self.with_pen(crate::cell::plain_pen(self.link))
        } else {
            self.with_pen(pen_after_all(self.pen, self.link, params))
        }
    }

    /// The scroll region that a control sequence asks for.
    pub open spec fn region_from(self, params: Seq<Seq<u16>>) -> Screen {
        let last = raw_arg(params, 1, 0);
        self.set_scroll_region(
            place_arg(params, 0),
            if last == 0 {
                self.rows - 1
            } else {
                last - 1
            },
        )
    }

    /// Where the cursor is, as the answer to the question for it.
    pub open spec fn cursor_report(self) -> Seq<u8> {
        seq![0x1bu8, 0x5bu8] + crate::text::decimal((self.cy + 1) as nat) + seq![0x3bu8]
            + crate::text::decimal((self.cx + 1) as nat) + seq![0x52u8]
    }

    /// A question for the state of the device.
    pub open spec fn status_report(self, what: u16) -> Screen {
        if what == 5 {
            self.reply(seq![0x1bu8, 0x5bu8, 0x30u8, 0x6eu8])
        } else if what == 6 {
            self.reply(self.cursor_report())
        } else {
            self
        }
    }

    /// A control sequence without intermediate bytes.
    pub open spec fn plain_csi(self, params: Seq<Seq<u16>>, action: char) -> Screen {
        let n = arg(params, 0, 1) as int;
        match action {
            'A' => self.move_up(n),
            'B' | 'e' => self.move_down(n),
            'C' | 'a' => self.move_right(n),
            'D' => self.move_left(n),
            'E' => self.move_down(n).move_to_col(0),
            'F' => self.move_up(n).move_to_col(0),
            'G' | '`' => self.move_to_col(place_arg(params, 0)),
            'H' | 'f' => self.move_to(place_arg(params, 1), place_arg(params, 0)),
            'd' => self.move_to_row(place_arg(params, 0)),
            'J' => self.erase_in_display(raw_arg(params, 0, 0)),
            'K' => self.erase_in_line(raw_arg(params, 0, 0)),
            'L' => self.insert_lines(n),
            'M' => self.delete_lines(n),
            'P' => self.delete_chars(n),
            '@' => self.insert_chars(n),
            'X' => self.erase_chars(n),
            'S' => self.scroll_up(n),
            'T' => self.scroll_down(n),
            'm' => self.sgr(params),
            'r' => self.region_from(params),
            's' => self.save_cursor(),
            'u' => self.restore_cursor(),
            'c' => self.reply(seq![0x1bu8, 0x5bu8, 0x3fu8, 0x31u8, 0x3bu8, 0x32u8, 0x63u8]),
            'n' => self.status_report(raw_arg(params, 0, 0)),
            _ => self,
        }
    }

    /// A control sequence. With `?` it sets private modes, with `>` it may ask for
    /// the kind of device; other intermediate bytes have no meaning.
    pub open spec fn csi(
        self,
        params: Seq<Seq<u16>>,
        intermediates: Seq<u8>,
        action: char,
    ) -> Screen {
        if intermediates.len() == 0 {
            self.plain_csi(params, action)
        } else if intermediates[0] == 0x3f && (action == 'h' || action == 'l') {
            self.private_modes(params, action == 'h')
        } else if intermediates[0] == 0x3e && action == 'c' {
            self.reply(
                seq![
                    0x1bu8,
                    0x5bu8,
                    0x3eu8,
                    0x30u8,
                    0x3bu8,
                    0x39u8,
                    0x35u8,
                    0x3bu8,
                    0x30u8,
                    0x63u8,
                ],
            )
        } else {
            self
        }
    }

    /// An escape sequence. With intermediate bytes it selects a character set,
    /// which has no meaning here.
    pub open spec fn esc(self, intermediates: Seq<u8>, byte: u8) -> Screen {
        if intermediates.len() > 0 {
            self
        } else if byte == 0x4d {
            self.reverse_index()
        } else if byte == 0x44 {
            self.index()
        } else if byte == 0x45 {
            self.carriage_return().index()
        } else if byte == 0x37 {
            self.save_cursor()
        } else if byte == 0x38 {
            self.restore_cursor()
        } else if byte == 0x3d {
            self.with_modes(Modes { app_keypad: true, ..self.modes })
        } else if byte == 0x3e {
            self.with_modes(Modes { app_keypad: false, ..self.modes })
        } else if byte == 0x63 {
            self.full_reset()
        } else {
            self
        }
    }

    /// The clipboard set to what base64 has been decoded to.
    pub open spec fn clipboard_set(self, bytes: Option<Seq<u8>>) -> Screen {
        match bytes {
            Some(b) => self.push_event(EventView::SetClipboard(crate::text::lossy(b))),
            None => self,
        }
    }

    /// The clipboard: the third part is base64, or a question mark to ask for it,
    /// which is not answered.
    pub open spec fn osc_clipboard(self, parts: Seq<Seq<u8>>) -> Screen {
        if parts.len() < 3 || parts[2] == seq![0x3fu8] {
            self
        } else {
            self.clipboard_set(crate::codec::base64_either(parts[2]))
        }
    }

    /// The marks of a shell: `C` where a command begins, `D` where it has ended,
    /// with its exit code.
    pub open spec fn osc_mark(self, parts: Seq<Seq<u8>>) -> Screen {
        if parts.len() < 2 {
            self
        } else if parts[1] == seq![0x43u8] {
            self.push_event(EventView::PromptStart)
        } else if parts[1] == seq![0x44u8] {
            self.push_event(
                EventView::CommandEnd(
                    if parts.len() < 3 {
                        None
                    } else {
                        exit_code(parts[2])
                    },
                ),
            )
        } else {
            self
        }
    }

    /// A hyperlink opened, or closed by an empty address.
    pub open spec fn osc_link(self, uri: Seq<char>) -> Screen {
        self.registered(uri).set_link(self.registered_id(uri))
    }

    /// An operating system command. The first part is its number: 0, 1 and 2 set
    /// the title, 7 tells the working directory, 8 opens a hyperlink, 9 and 777
    /// notify, 52 sets the clipboard, 133 marks commands.
    pub open spec fn osc(self, parts: Seq<Seq<u8>>) -> Screen {
        if parts.len() == 0 {
            self
        } else {
            let number = parts[0];
            if number == seq![0x30u8] || number == seq![0x31u8] || number == seq![0x32u8] {
                match part_text(parts, 1) {
                    Some(t) => self.push_event(EventView::Title(t)),
                    None => self,
                }
            } else if number == seq![0x37u8] {
                match part_text(parts, 1) {
                    Some(t) => self.push_event(EventView::Cwd(t)),
                    None => self,
                }
            } else if number == seq![0x38u8] {
                self.osc_link(text_or_empty(parts, 2))
            } else if number == seq![0x39u8] {
                match part_text(parts, 1) {
                    Some(t) => self.push_event(EventView::Notify(seq!['t', 'e', 'r', 'm'], t)),
                    None => self,
                }
            } else if number == seq![0x35u8, 0x32u8] {
                self.osc_clipboard(parts)
            } else if number == seq![0x31u8, 0x33u8, 0x33u8] {
                self.osc_mark(parts)
            } else if number == seq![0x37u8, 0x37u8, 0x37u8] {
                if parts.len() >= 2 && parts[1] == notify_word() {
                    self.push_event(
                        EventView::Notify(text_or_empty(parts, 2), text_or_empty(parts, 3)),
                    )
                } else {
                    self
                }
            } else {
                self
            }
        }
    }

    /// The screen after one token. Output that tmux has wrapped into a device
    /// control string is interpreted where the string ends; what is wrapped is
    /// shorter than what wraps it, and `limit` bounds its length.
    pub open spec fn step(self, token: Token, limit: nat) -> Screen
        decreases limit, 0nat,
    {
        match token {
            Token::Print(c) => self.print(c),
            Token::Execute(b) => self.execute(b),
            Token::Csi { params, intermediates, action } => self.csi(params, intermediates, action),
            Token::Esc { intermediates, byte } => self.esc(intermediates, byte),
            Token::Osc { parts } => self.osc(parts),
            Token::Hook(c) => self.dcs_start(c),
            Token::Put(b) => self.dcs_put(b),
            Token::Unhook => match self.dcs_inner() {
                Some(inner) => if inner.len() < limit {
                    self.dcs_cleared().run(
                        crate::decode::decoded(Seq::empty(), inner),
                        inner.len(),
                    )
                } else {
                    self.dcs_cleared()
                },
                None => self.dcs_cleared(),
            },
        }
    }

    /// The screen after one token after the other.
    pub open spec fn run(self, tokens: Seq<Token>, limit: nat) -> Screen
        decreases limit, tokens.len() + 1,
    {
        if tokens.len() == 0 {
            self
        } else {
            self.run(tokens.drop_last(), limit).step(tokens.last(), limit)
        }
    }

    /// The screen after text without sequences, character by character.
    pub open spec fn text(self, chars: Seq<char>) -> Screen
        decreases chars.len(),
    {
        if chars.len() == 0 {
            self
        } else {
            let before = self.text(chars.drop_last());
            match crate::decode::plain_token(chars.last()) {
                Token::Execute(b) => before.execute(b),
                _ => before.print(chars.last()),
            }
        }
    }

    /// The screen after the end of a device control string.
    pub open spec fn unhooked(self) -> Screen {
        self.step(Token::Unhook, DCS_LIMIT as nat)
    }

    /// The screen after a piece of output, taken apart after the pieces `before`.
    pub open spec fn fed(self, before: Seq<Seq<u8>>, bytes: Seq<u8>) -> Screen {
        self.run(crate::decode::decoded(before, bytes), DCS_LIMIT as nat)
    }
}

/// Whether a control sequence moves the cursor.
pub open spec fn moves_cursor(action: char) -> bool {
    match action {
        'A' | 'B' | 'e' | 'C' | 'a' | 'D' | 'E' | 'F' | 'G' | '`' | 'H' | 'f' | 'd' => true,
        _ => false,
    }
}

/// Whether a control sequence erases, inserts, deletes or scrolls.
pub open spec fn edits_cells(action: char) -> bool {
    match action {
        'J' | 'K' | 'L' | 'M' | 'P' | '@' | 'X' | 'S' | 'T' => true,
        _ => false,
    }
}

pub proof fn lemma_undoubled_len(s: Seq<u8>)
    ensures
        crate::screen::undoubled(s).len() <= s.len(),
    decreases s.len(),
{
    if s.len() == 0 {
    } else if s.len() >= 2 && s[0] == 0x1b && s[1] == 0x1b {
        lemma_undoubled_len(s.skip(2));
    } else {
        lemma_undoubled_len(s.skip(1));
    }
}

/// Text without sequences is printed, character by character.
pub proof fn lemma_plain_run(s: Screen, chars: Seq<char>, limit: nat)
    ensures
        s.run(crate::decode::plain_tokens(chars), limit) == s.text(chars),
    decreases chars.len(),
{
    let tokens = crate::decode::plain_tokens(chars);
    if chars.len() > 0 {
        lemma_plain_run(s, chars.drop_last(), limit);
        assert(tokens.drop_last() =~= crate::decode::plain_tokens(chars.drop_last()));
        let before = s.text(chars.drop_last());
        let c = chars.last();
        assert(tokens.last() == crate::decode::plain_token(c));
        assert(s.run(tokens, limit) == before.step(tokens.last(), limit));
        match crate::decode::plain_token(c) {
            Token::Execute(b) => {
                assert(before.step(tokens.last(), limit) == before.execute(b));
            },
            _ => {
                assert(before.step(tokens.last(), limit) == before.print(c));
            },
        }
    } else {
        assert(tokens =~= Seq::empty());
    }
}

pub proof fn lemma_puts_take(tokens: Seq<Token>, n: int)
    requires
        0 <= n <= tokens.len(),
    ensures
        crate::decode::puts(tokens.take(n)) <= crate::decode::puts(tokens),
        n < tokens.len() ==> crate::decode::puts(tokens.take(n + 1)) == crate::decode::puts(
            tokens.take(n),
        ) + (if tokens[n] is Put {
            1int
        } else {
            0
        }),
    decreases tokens.len() - n,
{
    if n < tokens.len() {
        assert(tokens.take(n + 1).drop_last() =~= tokens.take(n));
        lemma_puts_take(tokens, n + 1);
    } else {
        assert(tokens.take(n) =~= tokens);
    }
}

/// Only a device control string itself changes what has been received of it.
pub proof fn lemma_step_keeps_dcs(s: Screen, token: Token, limit: nat)
    ensures
        token is Put ==> s.step(token, limit).dcs_buf.len() <= s.dcs_buf.len() + 1,
        token is Hook ==> s.step(token, limit).dcs_buf.len() == 0,
        !(token is Put || token is Hook || token is Unhook) ==> s.step(token, limit).dcs_buf
            == s.dcs_buf,
{
    match token {
        Token::Print(c) => {
            lemma_print_keeps_dcs(s, c);
            assert(s.step(token, limit) == s.print(c));
        },
        Token::Execute(b) => {
            lemma_execute_keeps_dcs(s, b);
            assert(s.step(token, limit) == s.execute(b));
        },
        Token::Csi { params, intermediates, action } => {
            lemma_csi_keeps_dcs(s, params, intermediates, action);
            assert(s.step(token, limit) == s.csi(params, intermediates, action));
        },
        Token::Esc { intermediates, byte } => {
            lemma_esc_keeps_dcs(s, intermediates, byte);
            assert(s.step(token, limit) == s.esc(intermediates, byte));
        },
        Token::Osc { parts } => {
            lemma_osc_keeps_dcs(s, parts);
            assert(s.step(token, limit) == s.osc(parts));
        },
        Token::Hook(c) => {
            assert(s.step(token, limit) == s.dcs_start(c));
        },
        Token::Put(b) => {
            assert(s.step(token, limit) == s.dcs_put(b));
        },
        Token::Unhook => {},
    }
}

proof fn lemma_index_keeps_dcs(s: Screen)
    ensures
        s.index().dcs_buf == s.dcs_buf,
        s.reverse_index().dcs_buf == s.dcs_buf,
{
}

proof fn lemma_print_keeps_dcs(s: Screen, c: char)
    ensures
        s.print(c).dcs_buf == s.dcs_buf,
{
    let live = s.reset_view();
    lemma_index_keeps_dcs(Screen { cx: 0, ..live });
    lemma_index_keeps_dcs(Screen { cx: 0, ..live.wrapped() });
}

proof fn lemma_execute_keeps_dcs(s: Screen, byte: u8)
    ensures
        s.execute(byte).dcs_buf == s.dcs_buf,
{
    lemma_index_keeps_dcs(s.reset_view());
}

proof fn lemma_esc_keeps_dcs(s: Screen, intermediates: Seq<u8>, byte: u8)
    ensures
        s.esc(intermediates, byte).dcs_buf == s.dcs_buf,
{
    let after = s.esc(intermediates, byte);
    if intermediates.len() > 0 {
        assert(after == s);
    } else if byte == 0x4d {
        lemma_index_keeps_dcs(s);
        assert(after == s.reverse_index());
    } else if byte == 0x44 {
        lemma_index_keeps_dcs(s);
        assert(after == s.index());
    } else if byte == 0x45 {
        lemma_index_keeps_dcs(s.carriage_return());
        assert(after == s.carriage_return().index());
    } else if byte == 0x63 {
        assert(after == s.full_reset());
    }
}

proof fn lemma_osc_keeps_dcs(s: Screen, parts: Seq<Seq<u8>>)
    ensures
        s.osc(parts).dcs_buf == s.dcs_buf,
{
}

proof fn lemma_plain_csi_keeps_dcs(s: Screen, params: Seq<Seq<u16>>, action: char)
    ensures
        s.plain_csi(params, action).dcs_buf == s.dcs_buf,
{
    if moves_cursor(action) {
    } else if edits_cells(action) {
    } else {
    }
}

proof fn lemma_csi_keeps_dcs(
    s: Screen,
    params: Seq<Seq<u16>>,
    intermediates: Seq<u8>,
    action: char,
)
    ensures
        s.csi(params, intermediates, action).dcs_buf == s.dcs_buf,
{
    if intermediates.len() == 0 {
        lemma_plain_csi_keeps_dcs(s, params, action);
    } else {
        lemma_modes_keep_dcs(s, params, action == 'h');
    }
}

proof fn lemma_modes_keep_dcs(s: Screen, params: Seq<Seq<u16>>, set: bool)
    ensures
        s.private_modes(params, set).dcs_buf == s.dcs_buf,
    decreases params.len(),
{
    if params.len() > 0 {
        lemma_modes_keep_dcs(s, params.drop_last(), set);
    }
}

} // verus!
