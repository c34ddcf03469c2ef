//! What settings make of the colours.

use vstd::prelude::*;

use crate::config::ThemeCfg;
use crate::theme::Theme;

verus! {

// ---- colours in hexadecimal ----

/// A colour as one number, red first.
pub open spec fn number(rgb: [u8; 3]) -> int {
    65536 * rgb[0] + 256 * rgb[1] + rgb[2]
}

/// A number of 24 bits and a colour stand for each other.
pub proof fn law_colour_and_number_stand_for_each_other(v: u32)
    requires
        v < 0x1_000000,
    ensures
        number(crate::theme::rgb(v)) == v,
{
}

/// The hexadecimal digit for a number, small or capital.
pub open spec fn hex_char(n: int, capital: bool) -> char {
    if n < 10 {
        ('0' as int + n) as char
    } else if capital {
        ('A' as int + n - 10) as char
    } else {
        ('a' as int + n - 10) as char
    }
}

/// A colour written in six hexadecimal digits.
pub open spec fn hex_text(r: u8, g: u8, b: u8, capital: bool) -> Seq<char> {
    seq![
        hex_char(r as int / 16, capital),
        hex_char(r as int % 16, capital),
        hex_char(g as int / 16, capital),
        hex_char(g as int % 16, capital),
        hex_char(b as int / 16, capital),
        hex_char(b as int % 16, capital),
    ]
}

proof fn lemma_hex_char(n: int, capital: bool)
    requires
        0 <= n < 16,
    ensures
        crate::config::hex_digit(hex_char(n, capital)) == Some(n),
        hex_char(n, capital) != '#',
{
}

/// A colour that is written in hexadecimal, red first, in small or capital digits, with
/// a hash before it or without, is read as that colour.
pub proof fn law_written_colour_can_be_read(r: u8, g: u8, b: u8, capital: bool)
    ensures
        crate::config::hex_color(hex_text(r, g, b, capital)) == Some([r, g, b]),
        crate::config::hex_color(seq!['#'] + hex_text(r, g, b, capital)) == Some([r, g, b]),
{
    lemma_hex_char(r as int / 16, capital);
    lemma_hex_char(r as int % 16, capital);
    lemma_hex_char(g as int / 16, capital);
    lemma_hex_char(g as int % 16, capital);
    lemma_hex_char(b as int / 16, capital);
    lemma_hex_char(b as int % 16, capital);
    let text = hex_text(r, g, b, capital);
    assert((seq!['#'] + text).skip(1) =~= text);
    assert(text[0] == hex_char(r as int / 16, capital) && text[1] == hex_char(
        r as int % 16,
        capital,
    ));
    assert(text[2] == hex_char(g as int / 16, capital) && text[3] == hex_char(
        g as int % 16,
        capital,
    ));
    assert(text[4] == hex_char(b as int / 16, capital) && text[5] == hex_char(
        b as int % 16,
        capital,
    ));
}

/// Text of another length, or with a character in it that is no hexadecimal digit where
/// one has to stand, is no colour.
pub proof fn law_other_text_is_no_colour(text: Seq<char>, i: int)
    ensures
        text.len() < 6 || text.len() > 7 ==> crate::config::hex_color(text) is None,
        text.len() == 7 && text[0] != '#' ==> crate::config::hex_color(text) is None,
        text.len() == 6 && text[0] == '#' ==> crate::config::hex_color(text) is None,
        text.len() == 6 && (i == 1 || i == 3 || i == 5) && !is_hex(text[i])
            ==> crate::config::hex_color(text) is None,
        text.len() == 6 && (i == 0 || i == 2 || i == 4) && !is_hex(text[i]) && text[i] != '+'
            ==> crate::config::hex_color(text) is None,
{
    if text.len() == 6 && 0 <= i < 6 && !is_hex(text[i]) {
        assert(crate::config::hex_digit(text[i]) is None);
    }
}

/// The hexadecimal digits.
pub open spec fn is_hex(c: char) -> bool {
    '0' <= c <= '9' || 'a' <= c <= 'f' || 'A' <= c <= 'F'
}

// ---- themes from settings ----

/// A colour that is set and can be read takes the place of that of the scheme; any other
/// setting leaves it.
pub proof fn law_readable_settings_win(cfg: ThemeCfg)
    ensures
        ({
            let made = cfg.made();
            let base = cfg.base();
            let read = |setting: Option<String>|
                match setting {
                    Some(s) => crate::config::hex_color(s@),
                    None => None,
                };
            &&& read(cfg.fg) is Some ==> Some(made.fg) == read(cfg.fg)
            &&& read(cfg.fg) is None ==> made.fg == base.fg
            &&& read(cfg.bg) is Some ==> Some(made.bg) == read(cfg.bg)
            &&& read(cfg.bg) is None ==> made.bg == base.bg
            &&& read(cfg.cursor) is Some ==> Some(made.cursor) == read(cfg.cursor)
            &&& read(cfg.cursor) is None ==> made.cursor == base.cursor
            &&& read(cfg.selection) is Some ==> Some(made.selection) == read(cfg.selection)
            &&& read(cfg.selection) is None ==> made.selection == base.selection
        }),
{
}

/// The palette sets the base colours from the first on; those that it does not have, or
/// that cannot be read, are those of the scheme.
pub proof fn law_palette_sets_colours_in_order(cfg: ThemeCfg, i: int)
    requires
        0 <= i < 16,
    ensures
        cfg.palette is None ==> cfg.made().ansi[i] == cfg.base().ansi[i],
        cfg.palette is Some && i >= cfg.palette->0@.len() ==> cfg.made().ansi[i]
            == cfg.base().ansi[i],
        cfg.palette is Some && i < cfg.palette->0@.len() ==> match crate::config::hex_color(
            cfg.palette->0@[i]@,
        ) {
            Some(color) => cfg.made().ansi[i] == color,
            None => cfg.made().ansi[i] == cfg.base().ansi[i],
        },
{
    assert(cfg.made().ansi[i] == cfg.ansi(i));
}

/// Without a scheme, or with a name that no scheme has, the theme is Catppuccin Mocha.
pub proof fn law_default_scheme(cfg: ThemeCfg)
    ensures
        cfg.scheme is None ==> cfg.base() == crate::theme::catppuccin_mocha_theme(),
        cfg.scheme is Some ==> match crate::theme::scheme_of_key(
            crate::text::key_of(cfg.scheme->0@),
        ) {
            Some(theme) => cfg.base() == theme,
            None => cfg.base() == crate::theme::catppuccin_mocha_theme(),
        },
{
}

// ---- the built-in schemes ----

/// The sixteen base colours of a theme as numbers.
pub open spec fn palette(t: Theme) -> Seq<int> {
    Seq::new(16, |i: int| number(t.ansi[i]))
}

/// The colours of Catppuccin Mocha.
pub proof fn law_colours_of_catppuccin_mocha()
    ensures
        number(crate::theme::catppuccin_mocha_theme().fg) == 0xcdd6f4int,
        number(crate::theme::catppuccin_mocha_theme().bg) == 0x1e1e2eint,
        number(crate::theme::catppuccin_mocha_theme().cursor) == 0xf5e0dcint,
        number(crate::theme::catppuccin_mocha_theme().selection) == 0x45475aint,
        palette(crate::theme::catppuccin_mocha_theme()) == seq![
            0x45475aint, 0xf38ba8int, 0xa6e3a1int, 0xf9e2afint,
            0x89b4faint, 0xf5c2e7int, 0x94e2d5int, 0xbac2deint,
            0x585b70int, 0xf38ba8int, 0xa6e3a1int, 0xf9e2afint,
            0x89b4faint, 0xf5c2e7int, 0x94e2d5int, 0xa6adc8int,
        ],
{
    let colours = seq![
            0x45475aint, 0xf38ba8int, 0xa6e3a1int, 0xf9e2afint,
            0x89b4faint, 0xf5c2e7int, 0x94e2d5int, 0xbac2deint,
            0x585b70int, 0xf38ba8int, 0xa6e3a1int, 0xf9e2afint,
            0x89b4faint, 0xf5c2e7int, 0x94e2d5int, 0xa6adc8int,
    ];
    assert(palette(crate::theme::catppuccin_mocha_theme()) =~= colours);
}

/// The colours of Dracula.
pub proof fn law_colours_of_dracula()
    ensures
        number(crate::theme::dracula_theme().fg) == 0xf8f8f2int,
        number(crate::theme::dracula_theme().bg) == 0x282a36int,
        number(crate::theme::dracula_theme().cursor) == 0xf8f8f2int,
        number(crate::theme::dracula_theme().selection) == 0x44475aint,
        palette(crate::theme::dracula_theme()) == seq![
            0x21222cint, 0xff5555int, 0x50fa7bint, 0xf1fa8cint,
            0xbd93f9int, 0xff79c6int, 0x8be9fdint, 0xf8f8f2int,
            0x6272a4int, 0xff6e6eint, 0x69ff94int, 0xffffa5int,
            0xd6acffint, 0xff92dfint, 0xa4ffffint, 0xffffffint,
        ],
{
    let colours = seq![
            0x21222cint, 0xff5555int, 0x50fa7bint, 0xf1fa8cint,
            0xbd93f9int, 0xff79c6int, 0x8be9fdint, 0xf8f8f2int,
            0x6272a4int, 0xff6e6eint, 0x69ff94int, 0xffffa5int,
            0xd6acffint, 0xff92dfint, 0xa4ffffint, 0xffffffint,
    ];
    assert(palette(crate::theme::dracula_theme()) =~= colours);
}

/// The colours of Nord.
pub proof fn law_colours_of_nord()
    ensures
        number(crate::theme::nord_theme().fg) == 0xd8dee9int,
        number(crate::theme::nord_theme().bg) == 0x2e3440int,
        number(crate::theme::nord_theme().cursor) == 0xd8dee9int,
        number(crate::theme::nord_theme().selection) == 0x434c5eint,
        palette(crate::theme::nord_theme()) == seq![
            0x3b4252int, 0xbf616aint, 0xa3be8cint, 0xebcb8bint,
            0x81a1c1int, 0xb48eadint, 0x88c0d0int, 0xe5e9f0int,
            0x4c566aint, 0xbf616aint, 0xa3be8cint, 0xebcb8bint,
            0x81a1c1int, 0xb48eadint, 0x8fbcbbint, 0xeceff4int,
        ],
{
    let colours = seq![
            0x3b4252int, 0xbf616aint, 0xa3be8cint, 0xebcb8bint,
            0x81a1c1int, 0xb48eadint, 0x88c0d0int, 0xe5e9f0int,
            0x4c566aint, 0xbf616aint, 0xa3be8cint, 0xebcb8bint,
            0x81a1c1int, 0xb48eadint, 0x8fbcbbint, 0xeceff4int,
    ];
    assert(palette(crate::theme::nord_theme()) =~= colours);
}

/// The colours of Gruvbox dark.
pub proof fn law_colours_of_gruvbox_dark()
    ensures
        number(crate::theme::gruvbox_dark_theme().fg) == 0xebdbb2int,
        number(crate::theme::gruvbox_dark_theme().bg) == 0x282828int,
        number(crate::theme::gruvbox_dark_theme().cursor) == 0xebdbb2int,
        number(crate::theme::gruvbox_dark_theme().selection) == 0x3c3836int,
        palette(crate::theme::gruvbox_dark_theme()) == seq![
            0x282828int, 0xcc241dint, 0x98971aint, 0xd79921int,
            0x458588int, 0xb16286int, 0x689d6aint, 0xa89984int,
            0x928374int, 0xfb4934int, 0xb8bb26int, 0xfabd2fint,
            0x83a598int, 0xd3869bint, 0x8ec07cint, 0xebdbb2int,
        ],
{
    let colours = seq![
            0x282828int, 0xcc241dint, 0x98971aint, 0xd79921int,
            0x458588int, 0xb16286int, 0x689d6aint, 0xa89984int,
            0x928374int, 0xfb4934int, 0xb8bb26int, 0xfabd2fint,
            0x83a598int, 0xd3869bint, 0x8ec07cint, 0xebdbb2int,
    ];
    assert(palette(crate::theme::gruvbox_dark_theme()) =~= colours);
}

/// The colours of Solarized dark.
pub proof fn law_colours_of_solarized_dark()
    ensures
        number(crate::theme::solarized_dark_theme().fg) == 0x839496int,
        number(crate::theme::solarized_dark_theme().bg) == 0x002b36int,
        number(crate::theme::solarized_dark_theme().cursor) == 0x93a1a1int,
        number(crate::theme::solarized_dark_theme().selection) == 0x073642int,
        palette(crate::theme::solarized_dark_theme()) == seq![
            0x073642int, 0xdc322fint, 0x859900int, 0xb58900int,
            0x268bd2int, 0xd33682int, 0x2aa198int, 0xeee8d5int,
            0x002b36int, 0xcb4b16int, 0x586e75int, 0x657b83int,
            0x839496int, 0x6c71c4int, 0x93a1a1int, 0xfdf6e3int,
        ],
{
    let colours = seq![
            0x073642int, 0xdc322fint, 0x859900int, 0xb58900int,
            0x268bd2int, 0xd33682int, 0x2aa198int, 0xeee8d5int,
            0x002b36int, 0xcb4b16int, 0x586e75int, 0x657b83int,
            0x839496int, 0x6c71c4int, 0x93a1a1int, 0xfdf6e3int,
    ];
    assert(palette(crate::theme::solarized_dark_theme()) =~= colours);
}

/// The colours of Tokyo Night.
pub proof fn law_colours_of_tokyo_night()
    ensures
        number(crate::theme::tokyo_night_theme().fg) == 0xc0caf5int,
        number(crate::theme::tokyo_night_theme().bg) == 0x1a1b26int,
        number(crate::theme::tokyo_night_theme().cursor) == 0xc0caf5int,
        number(crate::theme::tokyo_night_theme().selection) == 0x283457int,
        palette(crate::theme::tokyo_night_theme()) == seq![
            0x15161eint, 0xf7768eint, 0x9ece6aint, 0xe0af68int,
            0x7aa2f7int, 0xbb9af7int, 0x7dcfffint, 0xa9b1d6int,
            0x414868int, 0xf7768eint, 0x9ece6aint, 0xe0af68int,
            0x7aa2f7int, 0xbb9af7int, 0x7dcfffint, 0xc0caf5int,
        ],
{
    let colours = seq![
            0x15161eint, 0xf7768eint, 0x9ece6aint, 0xe0af68int,
            0x7aa2f7int, 0xbb9af7int, 0x7dcfffint, 0xa9b1d6int,
            0x414868int, 0xf7768eint, 0x9ece6aint, 0xe0af68int,
            0x7aa2f7int, 0xbb9af7int, 0x7dcfffint, 0xc0caf5int,
    ];
    assert(palette(crate::theme::tokyo_night_theme()) =~= colours);
}

/// Every scheme is found under its names.
pub proof fn law_schemes_are_found_by_their_names()
    ensures
        crate::theme::scheme_of_key(seq!['c', 'a', 't', 'p', 'p', 'u', 'c', 'c', 'i', 'n']) == Some(crate::theme::catppuccin_mocha_theme()),
        crate::theme::scheme_of_key(seq!['c', 'a', 't', 'p', 'p', 'u', 'c', 'c', 'i', 'n', 'm', 'o', 'c', 'h', 'a']) == Some(crate::theme::catppuccin_mocha_theme()),
        crate::theme::scheme_of_key(seq!['m', 'o', 'c', 'h', 'a']) == Some(crate::theme::catppuccin_mocha_theme()),
        crate::theme::scheme_of_key(seq!['d', 'r', 'a', 'c', 'u', 'l', 'a']) == Some(crate::theme::dracula_theme()),
        crate::theme::scheme_of_key(seq!['n', 'o', 'r', 'd']) == Some(crate::theme::nord_theme()),
        crate::theme::scheme_of_key(seq!['g', 'r', 'u', 'v', 'b', 'o', 'x']) == Some(crate::theme::gruvbox_dark_theme()),
        crate::theme::scheme_of_key(seq!['g', 'r', 'u', 'v', 'b', 'o', 'x', 'd', 'a', 'r', 'k']) == Some(crate::theme::gruvbox_dark_theme()),
        crate::theme::scheme_of_key(seq!['s', 'o', 'l', 'a', 'r', 'i', 'z', 'e', 'd']) == Some(crate::theme::solarized_dark_theme()),
        crate::theme::scheme_of_key(seq!['s', 'o', 'l', 'a', 'r', 'i', 'z', 'e', 'd', 'd', 'a', 'r', 'k']) == Some(crate::theme::solarized_dark_theme()),
        crate::theme::scheme_of_key(seq!['t', 'o', 'k', 'y', 'o', 'n', 'i', 'g', 'h', 't']) == Some(crate::theme::tokyo_night_theme()),
        crate::theme::scheme_of_key(seq!['t', 'o', 'k', 'y', 'o']) == Some(crate::theme::tokyo_night_theme()),
{
    lemma_names();
}

/// A name that is none of theirs is no scheme.
pub proof fn law_other_names_are_no_schemes(key: Seq<char>)
    requires
        key != seq!['c', 'a', 't', 'p', 'p', 'u', 'c', 'c', 'i', 'n'],
        key != seq!['c', 'a', 't', 'p', 'p', 'u', 'c', 'c', 'i', 'n', 'm', 'o', 'c', 'h', 'a'],
        key != seq!['m', 'o', 'c', 'h', 'a'],
        key != seq!['d', 'r', 'a', 'c', 'u', 'l', 'a'],
        key != seq!['n', 'o', 'r', 'd'],
        key != seq!['g', 'r', 'u', 'v', 'b', 'o', 'x'],
        key != seq!['g', 'r', 'u', 'v', 'b', 'o', 'x', 'd', 'a', 'r', 'k'],
        key != seq!['s', 'o', 'l', 'a', 'r', 'i', 'z', 'e', 'd'],
        key != seq!['s', 'o', 'l', 'a', 'r', 'i', 'z', 'e', 'd', 'd', 'a', 'r', 'k'],
        key != seq!['t', 'o', 'k', 'y', 'o', 'n', 'i', 'g', 'h', 't'],
        key != seq!['t', 'o', 'k', 'y', 'o'],
    ensures
        crate::theme::scheme_of_key(key) is None,
{
    lemma_names();
}

/// The characters of the names.
proof fn lemma_names()
    ensures
        "catppuccin"@ == seq!['c', 'a', 't', 'p', 'p', 'u', 'c', 'c', 'i', 'n'],
        "catppuccinmocha"@ == seq!['c', 'a', 't', 'p', 'p', 'u', 'c', 'c', 'i', 'n', 'm', 'o', 'c', 'h', 'a'],
        "mocha"@ == seq!['m', 'o', 'c', 'h', 'a'],
        "dracula"@ == seq!['d', 'r', 'a', 'c', 'u', 'l', 'a'],
        "nord"@ == seq!['n', 'o', 'r', 'd'],
        "gruvbox"@ == seq!['g', 'r', 'u', 'v', 'b', 'o', 'x'],
        "gruvboxdark"@ == seq!['g', 'r', 'u', 'v', 'b', 'o', 'x', 'd', 'a', 'r', 'k'],
        "solarized"@ == seq!['s', 'o', 'l', 'a', 'r', 'i', 'z', 'e', 'd'],
        "solarizeddark"@ == seq!['s', 'o', 'l', 'a', 'r', 'i', 'z', 'e', 'd', 'd', 'a', 'r', 'k'],
        "tokyonight"@ == seq!['t', 'o', 'k', 'y', 'o', 'n', 'i', 'g', 'h', 't'],
        "tokyo"@ == seq!['t', 'o', 'k', 'y', 'o'],
{
    reveal_strlit("catppuccin");
    reveal_strlit("catppuccinmocha");
    reveal_strlit("mocha");
    reveal_strlit("dracula");
    reveal_strlit("nord");
    reveal_strlit("gruvbox");
    reveal_strlit("gruvboxdark");
    reveal_strlit("solarized");
    reveal_strlit("solarizeddark");
    reveal_strlit("tokyonight");
    reveal_strlit("tokyo");
    assert("catppuccin"@ =~= seq!['c', 'a', 't', 'p', 'p', 'u', 'c', 'c', 'i', 'n']);
    assert("catppuccinmocha"@ =~= seq!['c', 'a', 't', 'p', 'p', 'u', 'c', 'c', 'i', 'n', 'm', 'o', 'c', 'h', 'a']);
    assert("mocha"@ =~= seq!['m', 'o', 'c', 'h', 'a']);
    assert("dracula"@ =~= seq!['d', 'r', 'a', 'c', 'u', 'l', 'a']);
    assert("nord"@ =~= seq!['n', 'o', 'r', 'd']);
    assert("gruvbox"@ =~= seq!['g', 'r', 'u', 'v', 'b', 'o', 'x']);
    assert("gruvboxdark"@ =~= seq!['g', 'r', 'u', 'v', 'b', 'o', 'x', 'd', 'a', 'r', 'k']);
    assert("solarized"@ =~= seq!['s', 'o', 'l', 'a', 'r', 'i', 'z', 'e', 'd']);
    assert("solarizeddark"@ =~= seq!['s', 'o', 'l', 'a', 'r', 'i', 'z', 'e', 'd', 'd', 'a', 'r', 'k']);
    assert("tokyonight"@ =~= seq!['t', 'o', 'k', 'y', 'o', 'n', 'i', 'g', 'h', 't']);
    assert("tokyo"@ =~= seq!['t', 'o', 'k', 'y', 'o']);
}

} // verus!
