//! Settings, and the theme that they make.

use vstd::prelude::*;

use crate::text::chars_of;
use crate::theme::Theme;

verus! {

/// The settings of the theme. What is not set, or cannot be read, is as the
/// scheme has it.
#[derive(Clone, Debug)]
pub struct ThemeCfg {
    /// The name of a built-in scheme.
    pub scheme: Option<String>,
    pub fg: Option<String>,
    pub bg: Option<String>,
    pub cursor: Option<String>,
    pub selection: Option<String>,
    /// The sixteen base colours. Any more are ignored.
    pub palette: Option<Vec<String>>,
}

/// The settings.
#[derive(Clone, Debug)]
pub struct Config {
    /// How many lines of history are kept.
    pub scrollback: Option<usize>,
    pub theme: ThemeCfg,
}

impl Default for ThemeCfg {
    fn default() -> (cfg: ThemeCfg)
        ensures
            cfg.scheme is None,
            cfg.fg is None,
            cfg.bg is None,
            cfg.cursor is None,
            cfg.selection is None,
            cfg.palette is None,
    {
        ThemeCfg {
            scheme: None,
            fg: None,
            bg: None,
            cursor: None,
            selection: None,
            palette: None,
        }
    }
}

impl Default for Config {
    fn default() -> (cfg: Config)
        ensures
            cfg.scrollback is None,
            cfg.theme.scheme is None,
            cfg.theme.fg is None,
            cfg.theme.bg is None,
            cfg.theme.cursor is None,
            cfg.theme.selection is None,
            cfg.theme.palette is None,
    {
        Config { scrollback: None, theme: ThemeCfg::default() }
    }
}

/// The value of a hexadecimal digit.
pub open spec fn hex_digit(c: char) -> Option<int> {
    if '0' <= c <= '9' {
        Some(c as int - '0' as int)
    } else if 'a' <= c <= 'f' {
        Some(c as int - 'a' as int + 10)
    } else if 'A' <= c <= 'F' {
        Some(c as int - 'A' as int + 10)
    } else {
        None
    }
}

/// The value of two characters: two hexadecimal digits, or a plus sign and one.
pub open spec fn hex_pair(a: char, b: char) -> Option<u8> {
    match (hex_digit(a), hex_digit(b)) {
        (Some(x), Some(y)) => Some((16 * x + y) as u8),
        (None, Some(y)) => if a == '+' {
            Some(y as u8)
        } else {
            None
        },
        _ => None,
    }
}

/// The colour that `#rrggbb` or `rrggbb` writes.
pub open spec fn hex_color(text: Seq<char>) -> Option<[u8; 3]> {
    let h = if text.len() > 0 && text[0] == '#' {
        text.skip(1)
    } else {
        text
    };
    if h.len() != 6 {
        None
    } else {
        match (hex_pair(h[0], h[1]), hex_pair(h[2], h[3]), hex_pair(h[4], h[5])) {
            (Some(r), Some(g), Some(b)) => Some([r, g, b]),
            _ => None,
        }
    }
}

/// The colour that a setting writes, if it is there and can be read.
pub open spec fn set_color(setting: Option<String>) -> Option<[u8; 3]> {
    match setting {
        Some(s) => hex_color(s@),
        None => None,
    }
}

/// A setting of a colour, or else the colour that the scheme has.
pub open spec fn color_or(setting: Option<String>, scheme: [u8; 3]) -> [u8; 3] {
    match set_color(setting) {
        Some(c) => c,
        None => scheme,
    }
}

impl ThemeCfg {
    /// The built-in scheme that is named, or else the default one.
    pub open spec fn base(self) -> Theme {
        match self.scheme {
            Some(name) => match crate::theme::scheme_of_key(crate::text::key_of(name@)) {
                Some(t) => t,
                None => crate::theme::catppuccin_mocha_theme(),
            },
            None => crate::theme::catppuccin_mocha_theme(),
        }
    }

    /// One of the base colours.
    pub open spec fn ansi(self, i: int) -> [u8; 3] {
        match self.palette {
            Some(p) => if i < p@.len() {
                color_or(Some(p@[i]), self.base().ansi[i])
            } else {
                self.base().ansi[i]
            },
            None => self.base().ansi[i],
        }
    }

    /// The theme that the settings make.
    pub open spec fn made(self) -> Theme {
        let base = self.base();
        Theme {
            fg: color_or(self.fg, base.fg),
            bg: color_or(self.bg, base.bg),
            cursor: color_or(self.cursor, base.cursor),
            selection: color_or(self.selection, base.selection),
            ansi: [
                self.ansi(0), self.ansi(1), self.ansi(2), self.ansi(3),
                self.ansi(4), self.ansi(5), self.ansi(6), self.ansi(7),
                self.ansi(8), self.ansi(9), self.ansi(10), self.ansi(11),
                self.ansi(12), self.ansi(13), self.ansi(14), self.ansi(15),
            ],
        }
    }
}

fn hex_value(c: char) -> (v: Option<u8>)
    ensures
        match v {
            Some(x) => hex_digit(c) == Some(x as int) && x < 16,
            None => hex_digit(c) is None,
        },
{
    match c {
        '0'..='9' => Some(c as u8 - 0x30),
        'a'..='f' => Some(c as u8 - 0x61 + 10),
        'A'..='F' => Some(c as u8 - 0x41 + 10),
        _ => None,
    }
}

fn hex_byte(a: char, b: char) -> (v: Option<u8>)
    ensures
        v == hex_pair(a, b),
{
    match (hex_value(a), hex_value(b)) {
        (Some(x), Some(y)) => Some(16 * x + y),
        (None, Some(y)) => if a == '+' {
            Some(y)
        } else {
            None
        },
        _ => None,
    }
}

/// Reads a colour, `#rrggbb` or `rrggbb`.
pub fn parse_hex(text: &str) -> (color: Option<[u8; 3]>)
    ensures
        color == hex_color(text@),
{
    let chars = chars_of(text);
    let from: usize = if chars.len() > 0 && chars[0] == '#' {
        1
    } else {
        0
    };
    if chars.len() - from != 6 {
        return None;
    }
    let r = hex_byte(chars[from], chars[from + 1]);
    let g = hex_byte(chars[from + 2], chars[from + 3]);
    let b = hex_byte(chars[from + 4], chars[from + 5]);
    match (r, g, b) {
        (Some(r), Some(g), Some(b)) => Some([r, g, b]),
        _ => None,
    }
}

fn pick_color(setting: &Option<String>, scheme: [u8; 3]) -> (color: [u8; 3])
    ensures
        color == color_or(*setting, scheme),
{
    match setting {
        Some(s) => match parse_hex(s.as_str()) {
            Some(c) => c,
            None => scheme,
        },
        None => scheme,
    }
}

impl Config {
    /// The theme: the scheme, with the colours that are set over it.
    pub fn theme(&self) -> (t: Theme)
        ensures
            t == self.theme.made(),
            t.fg == color_or(self.theme.fg, self.theme.base().fg),
            t.bg == color_or(self.theme.bg, self.theme.base().bg),
            t.cursor == color_or(self.theme.cursor, self.theme.base().cursor),
            t.selection == color_or(self.theme.selection, self.theme.base().selection),
            forall|i: int| 0 <= i < 16 ==> #[trigger] t.ansi[i] == self.theme.ansi(i),
    {
        let base = match &self.theme.scheme {
            Some(name) => match Theme::by_name(name.as_str()) {
                Some(t) => t,
                None => Theme::default(),
            },
            None => Theme::default(),
        };
        let fg = pick_color(&self.theme.fg, base.fg);
        let bg = pick_color(&self.theme.bg, base.bg);
        let cursor = pick_color(&self.theme.cursor, base.cursor);
        let selection = pick_color(&self.theme.selection, base.selection);
        let mut ansi = base.ansi;
        if let Some(palette) = &self.theme.palette {
            let mut i: usize = 0;
            while i < 16 && i < palette.len()
                invariant
                    i <= 16,
                    i <= palette@.len(),
                    self.theme.palette == Some(*palette),
                    base == self.theme.base(),
                    forall|j: int| 0 <= j < i ==> #[trigger] ansi[j] == self.theme.ansi(j),
                    forall|j: int| i <= j < 16 ==> #[trigger] ansi[j] == base.ansi[j],
                decreases 16 - i,
            {
                if let Some(c) = parse_hex(palette[i].as_str()) {
                    ansi[i] = c;
                }
                i += 1;
            }
        }
        assert(ansi =~= self.theme.made().ansi);
        Theme { fg, bg, cursor, selection, ansi }
    }
}

} // verus!
