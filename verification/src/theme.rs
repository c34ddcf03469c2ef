//! Colour themes: the base colours, the sixteen ANSI colours, and the built-in
//! schemes.

use vstd::prelude::*;

use crate::text::{ascii_key, str_eq};

verus! {

/// The colours that a terminal is drawn with.
#[derive(Clone, Copy, PartialEq)]
pub struct Theme {
    pub fg: [u8; 3],
    pub bg: [u8; 3],
    pub cursor: [u8; 3],
    pub selection: [u8; 3],
    /// The sixteen base ANSI colours.
    pub ansi: [[u8; 3]; 16],
}

/// The red, green and blue bytes of `0xrrggbb`.
pub open spec fn rgb(v: u32) -> [u8; 3] {
    [(v / 65536 % 256) as u8, (v / 256 % 256) as u8, (v % 256) as u8]
}

/// Splits `0xrrggbb` into its red, green and blue bytes.
fn hx(v: u32) -> (r: [u8; 3])
    ensures
        r == rgb(v),
{
    [(v / 65536 % 256) as u8, (v / 256 % 256) as u8, (v % 256) as u8]
}

/// The colours of Catppuccin Mocha.
pub open spec fn catppuccin_mocha_theme() -> Theme {
    Theme {
        fg: rgb(0xcdd6f4),
        bg: rgb(0x1e1e2e),
        cursor: rgb(0xf5e0dc),
        selection: rgb(0x45475a),
        ansi: [
            rgb(0x45475a), rgb(0xf38ba8), rgb(0xa6e3a1), rgb(0xf9e2af),
            rgb(0x89b4fa), rgb(0xf5c2e7), rgb(0x94e2d5), rgb(0xbac2de),
            rgb(0x585b70), rgb(0xf38ba8), rgb(0xa6e3a1), rgb(0xf9e2af),
            rgb(0x89b4fa), rgb(0xf5c2e7), rgb(0x94e2d5), rgb(0xa6adc8),
        ],
    }
}

fn catppuccin_mocha() -> (t: Theme)
    ensures
        t == catppuccin_mocha_theme(),
{
    Theme {
        fg: hx(0xcdd6f4),
        bg: hx(0x1e1e2e),
        cursor: hx(0xf5e0dc),
        selection: hx(0x45475a),
        ansi: [
            hx(0x45475a), hx(0xf38ba8), hx(0xa6e3a1), hx(0xf9e2af),
            hx(0x89b4fa), hx(0xf5c2e7), hx(0x94e2d5), hx(0xbac2de),
            hx(0x585b70), hx(0xf38ba8), hx(0xa6e3a1), hx(0xf9e2af),
            hx(0x89b4fa), hx(0xf5c2e7), hx(0x94e2d5), hx(0xa6adc8),
        ],
    }
}

/// The colours of Dracula.
pub open spec fn dracula_theme() -> Theme {
    Theme {
        fg: rgb(0xf8f8f2),
        bg: rgb(0x282a36),
        cursor: rgb(0xf8f8f2),
        selection: rgb(0x44475a),
        ansi: [
            rgb(0x21222c), rgb(0xff5555), rgb(0x50fa7b), rgb(0xf1fa8c),
            rgb(0xbd93f9), rgb(0xff79c6), rgb(0x8be9fd), rgb(0xf8f8f2),
            rgb(0x6272a4), rgb(0xff6e6e), rgb(0x69ff94), rgb(0xffffa5),
            rgb(0xd6acff), rgb(0xff92df), rgb(0xa4ffff), rgb(0xffffff),
        ],
    }
}

fn dracula() -> (t: Theme)
    ensures
        t == dracula_theme(),
{
    Theme {
        fg: hx(0xf8f8f2),
        bg: hx(0x282a36),
        cursor: hx(0xf8f8f2),
        selection: hx(0x44475a),
        ansi: [
            hx(0x21222c), hx(0xff5555), hx(0x50fa7b), hx(0xf1fa8c),
            hx(0xbd93f9), hx(0xff79c6), hx(0x8be9fd), hx(0xf8f8f2),
            hx(0x6272a4), hx(0xff6e6e), hx(0x69ff94), hx(0xffffa5),
            hx(0xd6acff), hx(0xff92df), hx(0xa4ffff), hx(0xffffff),
        ],
    }
}

/// The colours of Nord.
pub open spec fn nord_theme() -> Theme {
    Theme {
        fg: rgb(0xd8dee9),
        bg: rgb(0x2e3440),
        cursor: rgb(0xd8dee9),
        selection: rgb(0x434c5e),
        ansi: [
            rgb(0x3b4252), rgb(0xbf616a), rgb(0xa3be8c), rgb(0xebcb8b),
            rgb(0x81a1c1), rgb(0xb48ead), rgb(0x88c0d0), rgb(0xe5e9f0),
            rgb(0x4c566a), rgb(0xbf616a), rgb(0xa3be8c), rgb(0xebcb8b),
            rgb(0x81a1c1), rgb(0xb48ead), rgb(0x8fbcbb), rgb(0xeceff4),
        ],
    }
}

fn nord() -> (t: Theme)
    ensures
        t == nord_theme(),
{
    Theme {
        fg: hx(0xd8dee9),
        bg: hx(0x2e3440),
        cursor: hx(0xd8dee9),
        selection: hx(0x434c5e),
        ansi: [
            hx(0x3b4252), hx(0xbf616a), hx(0xa3be8c), hx(0xebcb8b),
            hx(0x81a1c1), hx(0xb48ead), hx(0x88c0d0), hx(0xe5e9f0),
            hx(0x4c566a), hx(0xbf616a), hx(0xa3be8c), hx(0xebcb8b),
            hx(0x81a1c1), hx(0xb48ead), hx(0x8fbcbb), hx(0xeceff4),
        ],
    }
}

/// The colours of Gruvbox dark.
pub open spec fn gruvbox_dark_theme() -> Theme {
    Theme {
        fg: rgb(0xebdbb2),
        bg: rgb(0x282828),
        cursor: rgb(0xebdbb2),
        selection: rgb(0x3c3836),
        ansi: [
            rgb(0x282828), rgb(0xcc241d), rgb(0x98971a), rgb(0xd79921),
            rgb(0x458588), rgb(0xb16286), rgb(0x689d6a), rgb(0xa89984),
            rgb(0x928374), rgb(0xfb4934), rgb(0xb8bb26), rgb(0xfabd2f),
            rgb(0x83a598), rgb(0xd3869b), rgb(0x8ec07c), rgb(0xebdbb2),
        ],
    }
}

fn gruvbox_dark() -> (t: Theme)
    ensures
        t == gruvbox_dark_theme(),
{
    Theme {
        fg: hx(0xebdbb2),
        bg: hx(0x282828),
        cursor: hx(0xebdbb2),
        selection: hx(0x3c3836),
        ansi: [
            hx(0x282828), hx(0xcc241d), hx(0x98971a), hx(0xd79921),
            hx(0x458588), hx(0xb16286), hx(0x689d6a), hx(0xa89984),
            hx(0x928374), hx(0xfb4934), hx(0xb8bb26), hx(0xfabd2f),
            hx(0x83a598), hx(0xd3869b), hx(0x8ec07c), hx(0xebdbb2),
        ],
    }
}

/// The colours of Solarized dark.
pub open spec fn solarized_dark_theme() -> Theme {
    Theme {
        fg: rgb(0x839496),
        bg: rgb(0x002b36),
        cursor: rgb(0x93a1a1),
        selection: rgb(0x073642),
        ansi: [
            rgb(0x073642), rgb(0xdc322f), rgb(0x859900), rgb(0xb58900),
            rgb(0x268bd2), rgb(0xd33682), rgb(0x2aa198), rgb(0xeee8d5),
            rgb(0x002b36), rgb(0xcb4b16), rgb(0x586e75), rgb(0x657b83),
            rgb(0x839496), rgb(0x6c71c4), rgb(0x93a1a1), rgb(0xfdf6e3),
        ],
    }
}

fn solarized_dark() -> (t: Theme)
    ensures
        t == solarized_dark_theme(),
{
    Theme {
        fg: hx(0x839496),
        bg: hx(0x002b36),
        cursor: hx(0x93a1a1),
        selection: hx(0x073642),
        ansi: [
            hx(0x073642), hx(0xdc322f), hx(0x859900), hx(0xb58900),
            hx(0x268bd2), hx(0xd33682), hx(0x2aa198), hx(0xeee8d5),
            hx(0x002b36), hx(0xcb4b16), hx(0x586e75), hx(0x657b83),
            hx(0x839496), hx(0x6c71c4), hx(0x93a1a1), hx(0xfdf6e3),
        ],
    }
}

/// The colours of Tokyo Night.
pub open spec fn tokyo_night_theme() -> Theme {
    Theme {
        fg: rgb(0xc0caf5),
        bg: rgb(0x1a1b26),
        cursor: rgb(0xc0caf5),
        selection: rgb(0x283457),
        ansi: [
            rgb(0x15161e), rgb(0xf7768e), rgb(0x9ece6a), rgb(0xe0af68),
            rgb(0x7aa2f7), rgb(0xbb9af7), rgb(0x7dcfff), rgb(0xa9b1d6),
            rgb(0x414868), rgb(0xf7768e), rgb(0x9ece6a), rgb(0xe0af68),
            rgb(0x7aa2f7), rgb(0xbb9af7), rgb(0x7dcfff), rgb(0xc0caf5),
        ],
    }
}

fn tokyo_night() -> (t: Theme)
    ensures
        t == tokyo_night_theme(),
{
    Theme {
        fg: hx(0xc0caf5),
        bg: hx(0x1a1b26),
        cursor: hx(0xc0caf5),
        selection: hx(0x283457),
        ansi: [
            hx(0x15161e), hx(0xf7768e), hx(0x9ece6a), hx(0xe0af68),
            hx(0x7aa2f7), hx(0xbb9af7), hx(0x7dcfff), hx(0xa9b1d6),
            hx(0x414868), hx(0xf7768e), hx(0x9ece6a), hx(0xe0af68),
            hx(0x7aa2f7), hx(0xbb9af7), hx(0x7dcfff), hx(0xc0caf5),
        ],
    }
}

/// The scheme that a normalised name stands for.
pub open spec fn scheme_of_key(key: Seq<char>) -> Option<Theme> {
    if key == "catppuccin"@ || key == "catppuccinmocha"@ || key == "mocha"@ {
        Some(catppuccin_mocha_theme())
    } else if key == "dracula"@ {
        Some(dracula_theme())
    } else if key == "nord"@ {
        Some(nord_theme())
    } else if key == "gruvbox"@ || key == "gruvboxdark"@ {
        Some(gruvbox_dark_theme())
    } else if key == "solarized"@ || key == "solarizeddark"@ {
        Some(solarized_dark_theme())
    } else if key == "tokyonight"@ || key == "tokyo"@ {
        Some(tokyo_night_theme())
    } else {
        None
    }
}

impl Default for Theme {
    fn default() -> (t: Theme)
        ensures
            t == catppuccin_mocha_theme(),
    {
        catppuccin_mocha()
    }
}

impl Theme {
    /// The names of the built-in schemes, in the order in which a settings panel
    /// steps through them.
    pub fn schemes() -> (names: [&'static str; 6])
        ensures
            names[0]@ == "catppuccin"@,
            names[1]@ == "dracula"@,
            names[2]@ == "nord"@,
            names[3]@ == "gruvbox"@,
            names[4]@ == "solarized"@,
            names[5]@ == "tokyonight"@,
    {
        ["catppuccin", "dracula", "nord", "gruvbox", "solarized", "tokyonight"]
    }

    /// Looks a built-in scheme up by name. Letter case does not matter, and
    /// neither does anything that is not an ASCII letter or digit.
    pub fn by_name(name: &str) -> (t: Option<Theme>)
        ensures
            t == scheme_of_key(crate::text::key_of(name@)),
    {
        let key_string = ascii_key(name);
        let key = key_string.as_str();
        if str_eq(key, "catppuccin") || str_eq(key, "catppuccinmocha") || str_eq(key, "mocha") {
            Some(catppuccin_mocha())
        } else if str_eq(key, "dracula") {
            Some(dracula())
        } else if str_eq(key, "nord") {
            Some(nord())
        } else if str_eq(key, "gruvbox") || str_eq(key, "gruvboxdark") {
            Some(gruvbox_dark())
        } else if str_eq(key, "solarized") || str_eq(key, "solarizeddark") {
            Some(solarized_dark())
        } else if str_eq(key, "tokyonight") || str_eq(key, "tokyo") {
            Some(tokyo_night())
        } else {
            None
        }
    }
}

} // verus!
