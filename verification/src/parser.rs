//! Output of an application, carried out on a screen.

use vstd::prelude::*;

use crate::codec::decode_either;
use crate::decode::{Action, Decoder};
use crate::grid::{Color, Grid, Modes, MouseProto, TermEvent};
use crate::screen::DCS_LIMIT;
use crate::text::{chars_of, is_byte, is_pair, is_triple, lossy_text, parse_i32, push_decimal, trim};
use crate::text::utf8_text;

verus! {

/// Carries out what the output of an application asks for, on a screen that it
/// borrows.
pub struct Performer<'a> {
    pub grid: &'a mut Grid,
}

/// The first value of a parameter, if it is there.
fn first_of(params: &Vec<Vec<u16>>, idx: usize) -> (v: Option<u16>)
    ensures
        v == crate::control::param(crate::decode::nested(params@), idx as int),
{
    if idx < params.len() && params[idx].len() > 0 {
        Some(params[idx][0])
    } else {
        None
    }
}

/// The first value of a parameter, or `default` where it is missing.
fn arg_raw(params: &Vec<Vec<u16>>, idx: usize, default: u16) -> (v: u16)
    ensures
        v == crate::control::raw_arg(crate::decode::nested(params@), idx as int, default),
{
    match first_of(params, idx) {
        Some(v) => v,
        None => default,
    }
}

/// The first value of a parameter, or `default` where it is missing or zero.
fn arg_or(params: &Vec<Vec<u16>>, idx: usize, default: u16) -> (v: u16)
    ensures
        v == crate::control::arg(crate::decode::nested(params@), idx as int, default),
{
    let v: u16 = arg_raw(params, idx, 0);
    if v == 0 {
        default
    } else {
        v
    }
}

/// A parameter that counts from one, made to count from zero.
fn arg_place(params: &Vec<Vec<u16>>, idx: usize) -> (v: usize)
    ensures
        v == crate::control::place_arg(crate::decode::nested(params@), idx as int),
{
    arg_or(params, idx, 1) as usize - 1
}

/// The low eight bits.
fn low_byte(n: u16) -> (b: u8)
    ensures
        b == crate::control::low_byte(n),
{
    assert(n as u8 == n % 256) by (bit_vector);
    #[verifier::truncate]
    let b: u8 = n as u8;
    b
}

/// The colour that one parameter with subparameters gives.
fn ext_color_from_subparams(p: &Vec<u16>) -> (color: Option<Color>)
    ensures
        color == crate::control::subparam_color(p@),
{
    if p.len() < 2 {
        return None;
    }
    if p[1] == 2 {
        if p.len() >= 6 {
            Some(Color::Rgb(low_byte(p[3]), low_byte(p[4]), low_byte(p[5])))
        } else if p.len() >= 5 {
            Some(Color::Rgb(low_byte(p[2]), low_byte(p[3]), low_byte(p[4])))
        } else {
            None
        }
    } else if p[1] == 5 && p.len() >= 3 {
        Some(Color::Indexed(low_byte(p[2])))
    } else {
        None
    }
}

/// The colour that the parameters from `from` on give, and the parameter after
/// those that belong to it.
fn ext_color_from_iter(params: &Vec<Vec<u16>>, from: usize) -> (r: (Option<Color>, usize))
    requires
        from <= params@.len(),
    ensures
        r.0 == crate::control::following_color(
            crate::decode::nested(params@).skip(from as int),
        ),
        r.1 == from + crate::control::following_used(
            crate::decode::nested(params@).skip(from as int),
        ),
{
    let ghost all = crate::decode::nested(params@);
    let ghost rest = all.skip(from as int);
    let len: usize = params.len();
    let left: usize = len - from;
    proof {
        assert forall|i: int| 0 <= i implies crate::control::param(rest, i)
            == #[trigger] crate::control::param(all, from + i) by {}
    }
    if left == 0 {
        return (None, from);
    }
    match first_of(params, from) {
        None => (None, from + 1),
        Some(kind) => {
            assert(crate::control::param(rest, 0) == Some(kind));
            if kind == 5 {
                if left < 2 {
                    return (None, len);
                }
                assert(crate::control::param(rest, 1) == crate::control::param(all, from + 1));
                match first_of(params, from + 1) {
                    None => (None, from + 2),
                    Some(n) => (Some(Color::Indexed(low_byte(n))), from + 2),
                }
            } else if kind == 2 {
                if left < 2 {
                    return (None, len);
                }
                assert(crate::control::param(rest, 1) == crate::control::param(all, from + 1));
                match first_of(params, from + 1) {
                    None => (None, from + 2),
                    Some(r) => {
                        if left < 3 {
                            return (None, len);
                        }
                        assert(crate::control::param(rest, 2) == crate::control::param(
                            all,
                            from + 2,
                        ));
                        match first_of(params, from + 2) {
                            None => (None, from + 3),
                            Some(g) => {
                                if left < 4 {
                                    return (None, len);
                                }
                                assert(crate::control::param(rest, 3) == crate::control::param(
                                    all,
                                    from + 3,
                                ));
                                match first_of(params, from + 3) {
                                    None => (None, from + 4),
                                    Some(b) => (
                                        Some(Color::Rgb(low_byte(r), low_byte(g), low_byte(b))),
                                        from + 4,
                                    ),
                                }
                            },
                        }
                    },
                }
            } else {
                (None, from + 1)
            }
        },
    }
}

impl<'a> Performer<'a> {
    pub fn new(grid: &'a mut Grid) -> (performer: Performer<'a>)
        ensures
            *performer.grid == *old(grid),
            *final(performer.grid) == *final(grid),
    {
        Performer { grid }
    }

    /// Prints a visible character.
    pub fn print(&mut self, c: char)
        requires
            (*old(self).grid).wf(),
        ensures
            (*final(self).grid).wf(),
            (*final(self).grid)@ == (*old(self).grid)@.print(c),
            *final(final(self).grid) == *final(old(self).grid),
    {
        self.grid.print(c);
    }

    /// Carries out a control character.
    pub fn execute(&mut self, byte: u8)
        requires
            (*old(self).grid).wf(),
        ensures
            (*final(self).grid).wf(),
            (*final(self).grid)@ == (*old(self).grid)@.execute(byte),
            *final(final(self).grid) == *final(old(self).grid),
    {
        match byte {
            0x07 => self.grid.push_event(TermEvent::Bell),
            0x08 => self.grid.backspace(),
            0x09 => self.grid.tab(),
            0x0a..=0x0c => self.grid.linefeed(),
            0x0d => self.grid.carriage_return(),
            _ => {},
        }
    }

    /// Carries out a control sequence.
    pub fn csi_dispatch(&mut self, params: &Vec<Vec<u16>>, intermediates: &Vec<u8>, action: char)
        requires
            (*old(self).grid).wf(),
        ensures
            (*final(self).grid).wf(),
            (*final(self).grid)@ == (*old(self).grid)@.csi(crate::decode::nested(params@), intermediates@, action),
            *final(final(self).grid) == *final(old(self).grid),
    {
        if intermediates.len() == 0 {
            self.plain_csi(params, action);
        } else if intermediates[0] == 0x3f {
            match action {
                'h' => self.set_private_modes(params, true),
                'l' => self.set_private_modes(params, false),
                _ => {},
            }
        } else if intermediates[0] == 0x3e && action == 'c' {
            self.reply(vec![0x1b, 0x5b, 0x3e, 0x30, 0x3b, 0x39, 0x35, 0x3b, 0x30, 0x63]);
        }
    }

    /// Carries out a control sequence without intermediate bytes.
    fn plain_csi(&mut self, params: &Vec<Vec<u16>>, action: char)
        requires
            (*old(self).grid).wf(),
        ensures
            (*final(self).grid).wf(),
            (*final(self).grid)@ == (*old(self).grid)@.plain_csi(crate::decode::nested(params@), action),
            *final(final(self).grid) == *final(old(self).grid),
    {
        match action {
            'A' | 'B' | 'e' | 'C' | 'a' | 'D' | 'E' | 'F' | 'G' | '`' | 'H' | 'f' | 'd' => {
                self.csi_move(params, action)
            },
            'J' | 'K' | 'L' | 'M' | 'P' | '@' | 'X' | 'S' | 'T' => self.csi_edit(params, action),
            'm' => self.sgr(params),
            'r' => self.csi_region(params),
            's' => self.grid.save_cursor(),
            'u' => self.grid.restore_cursor(),
            'c' => self.reply(vec![0x1b, 0x5b, 0x3f, 0x31, 0x3b, 0x32, 0x63]),
            'n' => self.csi_status(arg_raw(params, 0, 0)),
            _ => {},
        }
    }

    /// The control sequences that move the cursor.
    fn csi_move(&mut self, params: &Vec<Vec<u16>>, action: char)
        requires
            (*old(self).grid).wf(),
            crate::control::moves_cursor(action),
        ensures
            (*final(self).grid).wf(),
            (*final(self).grid)@ == (*old(self).grid)@.plain_csi(crate::decode::nested(params@), action),
            *final(final(self).grid) == *final(old(self).grid),
    {
        let n: usize = arg_or(params, 0, 1) as usize;
        match action {
            'A' => self.grid.move_up(n),
            'B' | 'e' => self.grid.move_down(n),
            'C' | 'a' => self.grid.move_right(n),
            'D' => self.grid.move_left(n),
            'E' => {
                self.grid.move_down(n);
                self.grid.move_to_col(0);
            },
            'F' => {
                self.grid.move_up(n);
                self.grid.move_to_col(0);
            },
            'G' | '`' => self.grid.move_to_col(arg_place(params, 0)),
            'H' | 'f' => self.grid.move_to(arg_place(params, 1), arg_place(params, 0)),
            'd' => self.grid.move_to_row(arg_place(params, 0)),
            _ => {},
        }
    }

    /// The control sequences that erase, insert, delete and scroll.
    fn csi_edit(&mut self, params: &Vec<Vec<u16>>, action: char)
        requires
            (*old(self).grid).wf(),
            crate::control::edits_cells(action),
        ensures
            (*final(self).grid).wf(),
            (*final(self).grid)@ == (*old(self).grid)@.plain_csi(crate::decode::nested(params@), action),
            *final(final(self).grid) == *final(old(self).grid),
    {
        let n: usize = arg_or(params, 0, 1) as usize;
        match action {
            'J' => self.grid.erase_in_display(arg_raw(params, 0, 0)),
            'K' => self.grid.erase_in_line(arg_raw(params, 0, 0)),
            'L' => self.grid.insert_lines(n),
            'M' => self.grid.delete_lines(n),
            'P' => self.grid.delete_chars(n),
            '@' => self.grid.insert_chars(n),
            'X' => self.grid.erase_chars(n),
            'S' => self.grid.scroll_up(n),
            'T' => self.grid.scroll_down(n),
            _ => {},
        }
    }

    /// Sets the scroll region.
    fn csi_region(&mut self, params: &Vec<Vec<u16>>)
        requires
            (*old(self).grid).wf(),
        ensures
            (*final(self).grid).wf(),
            (*final(self).grid)@ == (*old(self).grid)@.region_from(crate::decode::nested(params@)),
            *final(final(self).grid) == *final(old(self).grid),
    {
        let top: usize = arg_place(params, 0);
        let last: u16 = arg_raw(params, 1, 0);
        let bottom: usize = if last == 0 {
            self.grid.size().1 - 1
        } else {
            last as usize - 1
        };
        self.grid.set_scroll_region(top, bottom);
    }

    /// Answers a question for the state of the device.
    fn csi_status(&mut self, what: u16)
        requires
            (*old(self).grid).wf(),
        ensures
            (*final(self).grid).wf(),
            (*final(self).grid)@ == (*old(self).grid)@.status_report(what),
            *final(final(self).grid) == *final(old(self).grid),
    {
        if what == 5 {
            self.reply(vec![0x1b, 0x5b, 0x30, 0x6e]);
        } else if what == 6 {
            let (cx, cy) = self.grid.cursor();
            let mut bytes: Vec<u8> = vec![0x1b, 0x5b];
            push_decimal(&mut bytes, cy + 1);
            bytes.push(0x3b);
            push_decimal(&mut bytes, cx + 1);
            bytes.push(0x52);
            assert(bytes@ =~= (*old(self).grid)@.cursor_report());
            self.reply(bytes);
        }
    }

    /// Sends bytes back to the application.
    fn reply(&mut self, bytes: Vec<u8>)
        requires
            (*old(self).grid).wf(),
        ensures
            (*final(self).grid).wf(),
            (*final(self).grid)@ == (*old(self).grid)@.reply(bytes@),
            *final(final(self).grid) == *final(old(self).grid),
    {
        self.grid.push_event(TermEvent::Reply(bytes));
    }

    /// Carries out an escape sequence.
    pub fn esc_dispatch(&mut self, intermediates: &Vec<u8>, byte: u8)
        requires
            (*old(self).grid).wf(),
        ensures
            (*final(self).grid).wf(),
            (*final(self).grid)@ == (*old(self).grid)@.esc(intermediates@, byte),
            *final(final(self).grid) == *final(old(self).grid),
    {
        if intermediates.len() > 0 {
            return ;
        }
        match byte {
            0x4d => self.grid.reverse_index(),
            0x44 => self.grid.index(),
            0x45 => {
                self.grid.carriage_return();
                self.grid.index();
            },
            0x37 => self.grid.save_cursor(),
            0x38 => self.grid.restore_cursor(),
            0x3d => {
                let mut modes = self.grid.modes();
                modes.app_keypad = true;
                self.grid.set_modes(modes);
            },
            0x3e => {
                let mut modes = self.grid.modes();
                modes.app_keypad = false;
                self.grid.set_modes(modes);
            },
            0x63 => self.grid.full_reset(),
            _ => {},
        }
    }

    /// Sets or resets one private mode.
    fn set_private_mode(&mut self, mode: u16, set: bool)
        requires
            (*old(self).grid).wf(),
        ensures
            (*final(self).grid).wf(),
            (*final(self).grid)@ == (*old(self).grid)@.private_mode(mode, set),
            *final(final(self).grid) == *final(old(self).grid),
    {
        if mode == 47 || mode == 1047 {
            if set {
                self.grid.enter_alt_screen();
            } else {
                self.grid.leave_alt_screen();
            }
        } else if mode == 1049 {
            if set {
                self.grid.save_cursor();
                self.grid.enter_alt_screen();
            } else {
                self.grid.leave_alt_screen();
                self.grid.restore_cursor();
            }
        } else {
            let modes = self.grid.modes();
            self.grid.set_modes(set_mode(modes, mode, set));
        }
    }

    /// Sets or resets private modes, one after the other.
    pub fn set_private_modes(&mut self, params: &Vec<Vec<u16>>, set: bool)
        requires
            (*old(self).grid).wf(),
        ensures
            (*final(self).grid).wf(),
            (*final(self).grid)@ == (*old(self).grid)@.private_modes(crate::decode::nested(params@), set),
            *final(final(self).grid) == *final(old(self).grid),
    {
        let ghost all = crate::decode::nested(params@);
        let ghost start = (*self.grid)@;
        let mut i: usize = 0;
        while i < params.len()
            invariant
                all == crate::decode::nested(params@),
                i <= params@.len(),
                (*self.grid).wf(),
                (*self.grid)@ == start.private_modes(all.take(i as int), set),
                *final(self.grid) == *final(old(self).grid),
            decreases params@.len() - i,
        {
            let mode: u16 = arg_raw(params, i, 0);
            self.set_private_mode(mode, set);
            i += 1;
            proof {
                let next = all.take(i as int);
                assert(next.drop_last() =~= all.take(i - 1));
                assert(crate::control::raw_arg(next, i - 1, 0) == crate::control::raw_arg(all, i - 1, 0));
            }
        }
        assert(all.take(i as int) =~= all);
    }

    /// Sets colours and attributes.
    fn sgr(&mut self, params: &Vec<Vec<u16>>)
        requires
            (*old(self).grid).wf(),
        ensures
            (*final(self).grid).wf(),
            (*final(self).grid)@ == (*old(self).grid)@.sgr(crate::decode::nested(params@)),
            *final(final(self).grid) == *final(old(self).grid),
    {
        if params.len() == 0 {
            self.grid.reset_pen();
            return ;
        }
        let ghost all = crate::decode::nested(params@);
        let ghost start = (*self.grid)@;
        let ghost goal = crate::control::pen_after_all(start.pen, start.link, all);
        let mut i: usize = 0;
        assert(all.skip(0) =~= all);
        while i < params.len()
            invariant
                all == crate::decode::nested(params@),
                i <= params@.len(),
                (*self.grid).wf(),
                (*self.grid)@ == start.with_pen((*self.grid)@.pen),
                goal == crate::control::pen_after_all(
                    (*self.grid)@.pen,
                    start.link,
                    all.skip(i as int),
                ),
                *final(self.grid) == *final(old(self).grid),
            decreases params@.len() - i,
        {
            let ghost codes = all.skip(i as int);
            let code: u16 = arg_raw(params, i, 0);
            proof {
                assert(codes[0] == all[i as int]);
                assert(crate::control::raw_arg(codes, 0, 0) == code);
                assert(codes.skip(1) =~= all.skip(i + 1));
            }
            if code == 38 || code == 48 {
                let (color, next): (Option<Color>, usize) = if params[i].len() >= 2 {
                    (ext_color_from_subparams(&params[i]), i + 1)
                } else {
                    ext_color_from_iter(params, i + 1)
                };
                proof {
                    let rest = all.skip(i + 1);
                    assert(rest.skip(crate::control::following_used(rest)) =~= all.skip(
                        i + 1 + crate::control::following_used(rest),
                    ));
                }
                self.sgr_color(code, color);
                i = next;
            } else {
                self.sgr_code(code);
                i += 1;
            }
        }
    }

    /// Sets the foreground (38) or the background (48), if there is a colour.
    fn sgr_color(&mut self, code: u16, color: Option<Color>)
        requires
            (*old(self).grid).wf(),
        ensures
            (*final(self).grid).wf(),
            (*final(self).grid)@ == (*old(self).grid)@.with_pen(crate::control::pen_colored((*old(self).grid)@.pen, code, color)),
            *final(final(self).grid) == *final(old(self).grid),
    {
        if let Some(c) = color {
            if code == 38 {
                self.grid.set_fg(c);
            } else {
                self.grid.set_bg(c);
            }
        }
    }

    /// Carries out one code of a colour or attribute.
    fn sgr_code(&mut self, code: u16)
        requires
            (*old(self).grid).wf(),
        ensures
            (*final(self).grid).wf(),
            (*final(self).grid)@ == (*old(self).grid)@.with_pen(crate::control::pen_after((*old(self).grid)@.pen, (*old(self).grid)@.link, code)),
            *final(final(self).grid) == *final(old(self).grid),
    {
        match code {
            0 => self.grid.reset_pen(),
            1 => self.grid.set_bold(true),
            2 => self.grid.set_dim(true),
            3 => self.grid.set_italic(true),
            4 => self.grid.set_underline(true),
            7 => self.grid.set_inverse(true),
            8 => self.grid.set_hidden(true),
            9 => self.grid.set_strike(true),
            21 | 22 => {
                self.grid.set_bold(false);
                self.grid.set_dim(false);
            },
            23 => self.grid.set_italic(false),
            24 => self.grid.set_underline(false),
            27 => self.grid.set_inverse(false),
            28 => self.grid.set_hidden(false),
            29 => self.grid.set_strike(false),
            30..=37 => self.grid.set_fg(Color::Indexed((code - 30) as u8)),
            39 => self.grid.set_fg(Color::Default),
            40..=47 => self.grid.set_bg(Color::Indexed((code - 40) as u8)),
            49 => self.grid.set_bg(Color::Default),
            90..=97 => self.grid.set_fg(Color::Indexed((code - 90 + 8) as u8)),
            100..=107 => self.grid.set_bg(Color::Indexed((code - 100 + 8) as u8)),
            _ => {},
        }
    }

    /// Carries out an operating system command.
    pub fn osc_dispatch(&mut self, parts: &Vec<Vec<u8>>)
        requires
            (*old(self).grid).wf(),
        ensures
            (*final(self).grid).wf(),
            (*final(self).grid)@ == (*old(self).grid)@.osc(crate::decode::nested(parts@)),
            *final(final(self).grid) == *final(old(self).grid),
    {
        if parts.len() == 0 {
            return ;
        }
        let number = parts[0].as_slice();
        if is_byte(number, 0x30) || is_byte(number, 0x31) || is_byte(number, 0x32) {
            if parts.len() > 1 {
                self.grid.push_event(TermEvent::Title(lossy_text(parts[1].as_slice())));
            }
        } else if is_byte(number, 0x37) {
            if parts.len() > 1 {
                self.grid.push_event(TermEvent::Cwd(lossy_text(parts[1].as_slice())));
            }
        } else if is_byte(number, 0x38) {
            let uri = part_or_empty(parts, 2);
            let id: u16 = self.grid.register_link(uri.as_str());
            self.grid.set_link(id);
        } else if is_byte(number, 0x39) {
            if parts.len() > 1 {
                let message = lossy_text(parts[1].as_slice());
                self.grid.push_event(TermEvent::Notify(term_word(), message));
            }
        } else if is_pair(number, 0x35, 0x32) {
            self.osc52(parts);
        } else if is_triple(number, 0x31, 0x33, 0x33) {
            self.osc133(parts);
        } else if is_triple(number, 0x37, 0x37, 0x37) {
            if parts.len() > 1 && is_notify(parts[1].as_slice()) {
                let title = part_or_empty(parts, 2);
                let body = part_or_empty(parts, 3);
                self.grid.push_event(TermEvent::Notify(title, body));
            }
        }
    }

    /// The clipboard.
    fn osc52(&mut self, parts: &Vec<Vec<u8>>)
        requires
            (*old(self).grid).wf(),
        ensures
            (*final(self).grid).wf(),
            (*final(self).grid)@ == (*old(self).grid)@.osc_clipboard(crate::decode::nested(parts@)),
            *final(final(self).grid) == *final(old(self).grid),
    {
        if parts.len() < 3 || is_byte(parts[2].as_slice(), 0x3f) {
            return ;
        }
        let decoded = decode_either(parts[2].as_slice());
        self.set_clipboard(decoded);
    }

    /// Puts decoded text on the clipboard; what could not be decoded is dropped.
    pub fn set_clipboard(&mut self, decoded: Option<Vec<u8>>)
        requires
            (*old(self).grid).wf(),
        ensures
            (*final(self).grid).wf(),
            (*final(self).grid)@ == (*old(self).grid)@.clipboard_set(
                match decoded {
                    Some(bytes) => Some(bytes@),
                    None => None,
                },
            ),
            *final(final(self).grid) == *final(old(self).grid),
    {
        if let Some(bytes) = decoded {
            self.grid.push_event(TermEvent::SetClipboard(lossy_text(bytes.as_slice())));
        }
    }

    /// The marks of a shell.
    fn osc133(&mut self, parts: &Vec<Vec<u8>>)
        requires
            (*old(self).grid).wf(),
        ensures
            (*final(self).grid).wf(),
            (*final(self).grid)@ == (*old(self).grid)@.osc_mark(crate::decode::nested(parts@)),
            *final(final(self).grid) == *final(old(self).grid),
    {
        if parts.len() < 2 {
            return ;
        }
        if is_byte(parts[1].as_slice(), 0x43) {
            self.grid.push_event(TermEvent::PromptStart);
        } else if is_byte(parts[1].as_slice(), 0x44) {
            let exit: Option<i32> = if parts.len() < 3 {
                None
            } else {
                exit_code(parts[2].as_slice())
            };
            self.grid.push_event(TermEvent::CommandEnd(exit));
        }
    }

    /// A device control string begins.
    pub fn hook(&mut self, action: char)
        requires
            (*old(self).grid).wf(),
        ensures
            (*final(self).grid).wf(),
            (*final(self).grid)@ == (*old(self).grid)@.dcs_start(action),
            *final(final(self).grid) == *final(old(self).grid),
    {
        self.grid.dcs_start(action);
    }

    /// A byte of the device control string.
    pub fn put(&mut self, byte: u8)
        requires
            (*old(self).grid).wf(),
        ensures
            (*final(self).grid).wf(),
            (*final(self).grid)@ == (*old(self).grid)@.dcs_put(byte),
            *final(final(self).grid) == *final(old(self).grid),
    {
        self.grid.dcs_put(byte);
    }

    /// The device control string ends. Output that tmux has wrapped into it is carried
    /// out in its place.
    pub fn unhook(&mut self)
        requires
            (*old(self).grid).wf(),
        ensures
            (*final(self).grid).wf(),
            (*final(self).grid)@ == (*old(self).grid)@.unhooked(),
            *final(final(self).grid) == *final(old(self).grid),
    {
        self.unhook_within(DCS_LIMIT);
    }

    /// The device control string ends, which is no longer than `limit`.
    fn unhook_within(&mut self, limit: usize)
        requires
            (*old(self).grid).wf(),
            (*old(self).grid)@.dcs_buf.len() <= limit,
        ensures
            (*final(self).grid).wf(),
            (*final(self).grid)@ == (*old(self).grid)@.step(
                crate::decode::Token::Unhook,
                limit as nat,
            ),
            (*final(self).grid)@.dcs_buf.len() <= (*old(self).grid)@.dcs_buf.len(),
            *final(final(self).grid) == *final(old(self).grid),
        decreases limit, 0nat,
    {
        let ghost start = (*self.grid)@;
        if let Some(inner) = self.grid.dcs_end() {
            proof {
                crate::control::lemma_undoubled_len(start.dcs_string().skip(5));
                assert(inner@.len() + 4 <= start.dcs_buf.len());
            }
            let mut decoder = Decoder::new();
            let actions = decoder.decode(inner.as_slice());
            self.replay(&actions, inner.len());
        }
    }

    /// Carries out one action after the other.
    fn replay(&mut self, actions: &Vec<Action>, limit: usize)
        requires
            (*old(self).grid).wf(),
            limit == DCS_LIMIT || (*old(self).grid)@.dcs_buf.len() + crate::decode::puts(
                crate::decode::tokens(actions@),
            ) <= limit,
        ensures
            (*final(self).grid).wf(),
            (*final(self).grid)@ == (*old(self).grid)@.run(
                crate::decode::tokens(actions@),
                limit as nat,
            ),
            (*final(self).grid)@.dcs_buf.len() <= (*old(self).grid)@.dcs_buf.len()
                + crate::decode::puts(crate::decode::tokens(actions@)),
            *final(final(self).grid) == *final(old(self).grid),
        decreases limit, 2nat,
    {
        let ghost all = crate::decode::tokens(actions@);
        let ghost start = (*self.grid)@;
        let mut i: usize = 0;
        while i < actions.len()
            invariant
                all == crate::decode::tokens(actions@),
                i <= actions@.len(),
                (*self.grid).wf(),
                (*self.grid)@ == start.run(all.take(i as int), limit as nat),
                limit == DCS_LIMIT || start.dcs_buf.len() + crate::decode::puts(all) <= limit,
                (*self.grid)@.dcs_buf.len() <= start.dcs_buf.len() + crate::decode::puts(
                    all.take(i as int),
                ),
                *final(self.grid) == *final(old(self).grid),
            decreases actions@.len() - i,
        {
            proof {
                crate::control::lemma_puts_take(all, i as int);
                let next = all.take(i + 1);
                assert(next.drop_last() =~= all.take(i as int));
                assert(next.last() == all[i as int]);
                assert(all[i as int] == actions@[i as int]@);
            }
            self.perform(&actions[i], limit);
            i += 1;
        }
        assert(all.take(i as int) =~= all);
    }

    /// Carries out one action.
    fn perform(&mut self, action: &Action, limit: usize)
        requires
            (*old(self).grid).wf(),
            limit == DCS_LIMIT || (*old(self).grid)@.dcs_buf.len() <= limit,
        ensures
            (*final(self).grid).wf(),
            (*final(self).grid)@ == (*old(self).grid)@.step(action@, limit as nat),
            (*final(self).grid)@.dcs_buf.len() <= (*old(self).grid)@.dcs_buf.len() + (
            if action@ is Put {
                1int
            } else {
                0
            }),
            *final(final(self).grid) == *final(old(self).grid),
        decreases limit, 1nat,
    {
        proof {
            crate::control::lemma_step_keeps_dcs((*self.grid)@, action@, limit as nat);
        }
        match action {
            Action::Print(c) => self.print(*c),
            Action::Execute(b) => self.execute(*b),
            Action::Csi { params, intermediates, action } => {
                self.csi_dispatch(params, intermediates, *action)
            },
            Action::Esc { intermediates, byte } => self.esc_dispatch(intermediates, *byte),
            Action::Osc { parts } => self.osc_dispatch(parts),
            Action::Hook(c) => self.hook(*c),
            Action::Put(b) => self.put(*b),
            Action::Unhook => self.unhook_within(limit),
        }
    }

    /// Carries out a piece of output, which `decoder` takes apart.
    pub fn advance(&mut self, decoder: &mut Decoder, bytes: &[u8])
        requires
            (*old(self).grid).wf(),
        ensures
            (*final(self).grid).wf(),
            (*final(self).grid)@ == (*old(self).grid)@.fed(old(decoder)@, bytes@),
            crate::decode::all_plain(old(decoder)@) && crate::decode::is_plain(bytes@)
                ==> (*final(self).grid)@ == (*old(self).grid)@.text(
                vstd::utf8::decode_utf8(bytes@),
            ),
            final(decoder)@ == old(decoder)@.push(bytes@),
            *final(final(self).grid) == *final(old(self).grid),
    {
        proof {
            crate::control::lemma_plain_run(
                (*self.grid)@,
                vstd::utf8::decode_utf8(bytes@),
                DCS_LIMIT as nat,
            );
        }
        let actions = decoder.decode(bytes);
        self.replay(&actions, DCS_LIMIT);
    }
}

/// Carries out a piece of output on a screen. The decoder keeps what a piece
/// leaves unfinished for the next one.
pub fn feed(grid: &mut Grid, decoder: &mut Decoder, bytes: &[u8])
    requires
        old(grid).wf(),
    ensures
        final(grid).wf(),
        final(grid)@ == old(grid)@.fed(old(decoder)@, bytes@),
        crate::decode::all_plain(old(decoder)@) && crate::decode::is_plain(bytes@) ==> final(grid)@
            == old(grid)@.text(vstd::utf8::decode_utf8(bytes@)),
        final(decoder)@ == old(decoder)@.push(bytes@),
{
    let mut performer = Performer::new(grid);
    performer.advance(decoder, bytes);
}

fn mouse_proto(set: bool, on: MouseProto) -> (proto: MouseProto)
    ensures
        proto == crate::control::proto_after(set, on),
{
    if set {
        on
    } else {
        MouseProto::Off
    }
}

/// Sets or resets one mode.
fn set_mode(modes: Modes, mode: u16, set: bool) -> (after: Modes)
    ensures
        after == crate::control::modes_after(modes, mode, set),
{
    let mut after = modes;
    match mode {
        1 => after.app_cursor_keys = set,
        7 => after.autowrap = set,
        25 => after.cursor_visible = set,
        1000 => after.mouse_proto = mouse_proto(set, MouseProto::Normal),
        1002 => after.mouse_proto = mouse_proto(set, MouseProto::ButtonEvent),
        1003 => after.mouse_proto = mouse_proto(set, MouseProto::AnyEvent),
        1004 => after.focus_event = set,
        1006 => after.mouse_sgr = set,
        2004 => after.bracketed_paste = set,
        2026 => after.sync_output = set,
        _ => {},
    }
    after
}

/// The text of a part, empty where the part is missing.
fn part_or_empty(parts: &Vec<Vec<u8>>, idx: usize) -> (text: String)
    ensures
        text@ == crate::control::text_or_empty(crate::decode::nested(parts@), idx as int),
{
    if idx < parts.len() {
        lossy_text(parts[idx].as_slice())
    } else {
        let text = String::new();
        assert(text@ =~= Seq::<char>::empty());
        text
    }
}

/// The title of a notification that has none of its own.
fn term_word() -> (text: String)
    ensures
        text@ == seq!['t', 'e', 'r', 'm'],
{
    proof {
        reveal_strlit("term");
    }
    let text = "term".to_owned();
    assert(text@ =~= seq!['t', 'e', 'r', 'm']);
    text
}

/// Whether bytes are the word `notify`.
fn is_notify(bytes: &[u8]) -> (r: bool)
    ensures
        r == (bytes@ == crate::control::notify_word()),
{
    let r = bytes.len() == 6 && bytes[0] == 0x6e && bytes[1] == 0x6f && bytes[2] == 0x74 && bytes[3]
        == 0x69 && bytes[4] == 0x66 && bytes[5] == 0x79;
    proof {
        let word = crate::control::notify_word();
        assert(word[0] == 0x6e && word[1] == 0x6f && word[2] == 0x74 && word[3] == 0x69 && word[4]
            == 0x66 && word[5] == 0x79);
        assert(r ==> bytes@ =~= word);
    }
    r
}

/// The exit code that a part gives.
fn exit_code(part: &[u8]) -> (code: Option<i32>)
    ensures
        code == crate::control::exit_code(part@),
{
    match utf8_text(part) {
        None => None,
        Some(text) => parse_i32(&trim(&chars_of(text))),
    }
}

} // verus!
