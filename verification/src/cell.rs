//! One cell of the screen: its character, its colours and its attributes.

use vstd::prelude::*;

use crate::theme::Theme;

verus! {

/// The colour of a cell.
#[derive(Clone, Copy, PartialEq, Eq, Hash, Debug, Structural)]
pub enum Color {
    /// The foreground or background of the theme.
    Default,
    /// An index into the 256 colours of xterm: 0 to 15 are the base colours, 16
    /// to 231 the colour cube, 232 to 255 the greys.
    Indexed(u8),
    /// A 24-bit colour.
    Rgb(u8, u8, u8),
}

/// The base colours of xterm.
pub const XTERM_BASE: [[u8; 3]; 16] = [
    [0x00, 0x00, 0x00],
    [0xCD, 0x00, 0x00],
    [0x00, 0xCD, 0x00],
    [0xCD, 0xCD, 0x00],
    [0x00, 0x00, 0xEE],
    [0xCD, 0x00, 0xCD],
    [0x00, 0xCD, 0xCD],
    [0xE5, 0xE5, 0xE5],
    [0x7F, 0x7F, 0x7F],
    [0xFF, 0x00, 0x00],
    [0x00, 0xFF, 0x00],
    [0xFF, 0xFF, 0x00],
    [0x5C, 0x5C, 0xFF],
    [0xFF, 0x00, 0xFF],
    [0x00, 0xFF, 0xFF],
    [0xFF, 0xFF, 0xFF],
];

/// The brightness of one of the six steps along an edge of the colour cube.
pub open spec fn cube_level(step: int) -> u8 {
    if step == 0 {
        0
    } else {
        (55 + 40 * step) as u8
    }
}

/// The colour that xterm has under an index.
pub open spec fn xterm_rgb(i: u8) -> [u8; 3] {
    if i < 16 {
        XTERM_BASE[i as int]
    } else if i < 232 {
        let x = i - 16;
        [cube_level(x / 36), cube_level(x / 6 % 6), cube_level(x % 6)]
    } else {
        let v = (8 + 10 * (i - 232)) as u8;
        [v, v, v]
    }
}

fn level(step: u8) -> (v: u8)
    requires
        step < 6,
    ensures
        v == cube_level(step as int),
{
    if step == 0 {
        0
    } else {
        55 + 40 * step
    }
}

/// The colour that xterm has under an index.
pub fn indexed_to_rgb(i: u8) -> (rgb: [u8; 3])
    ensures
        rgb == xterm_rgb(i),
{
    if i < 16 {
        XTERM_BASE[i as usize]
    } else if i < 232 {
        let x: u8 = i - 16;
        let r: u8 = x / 36;
        let g: u8 = (x / 6) % 6;
        let b: u8 = x % 6;
        [level(r), level(g), level(b)]
    } else {
        let v: u8 = 8 + 10 * (i - 232);
        [v, v, v]
    }
}

impl Color {
    /// The bytes that this colour is drawn with under a theme.
    pub open spec fn rgb(self, theme: Theme, is_fg: bool) -> [u8; 3] {
        match self {
            Color::Default => if is_fg {
                theme.fg
            } else {
                theme.bg
            },
            Color::Rgb(r, g, b) => [r, g, b],
            Color::Indexed(i) => if i < 16 {
                theme.ansi[i as int]
            } else {
                xterm_rgb(i)
            },
        }
    }

    /// Resolves the colour. `is_fg` says whether `Default` means the foreground
    /// or the background of the theme. The indices below 16 are the theme's.
    pub fn to_rgb(self, theme: &Theme, is_fg: bool) -> (rgb: [u8; 3])
        ensures
            rgb == self.rgb(*theme, is_fg),
    {
        match self {
            Color::Default => if is_fg {
                theme.fg
            } else {
                theme.bg
            },
            Color::Rgb(r, g, b) => [r, g, b],
            Color::Indexed(i) => if i < 16 {
                theme.ansi[i as usize]
            } else {
                indexed_to_rgb(i)
            },
        }
    }
}

/// One cell: a character, its colours and its attributes.
#[derive(Clone, Copy, PartialEq, Eq, Hash, Debug, Structural)]
pub struct Cell {
    pub c: char,
    pub fg: Color,
    pub bg: Color,
    pub bold: bool,
    pub dim: bool,
    pub italic: bool,
    pub underline: bool,
    pub inverse: bool,
    pub strike: bool,
    pub hidden: bool,
    /// The right half of a wide character: it takes the column and shows nothing.
    pub wide_spacer: bool,
    /// The identifier of the hyperlink that the cell belongs to, 0 for none.
    pub link: u16,
}

/// An empty cell: a space in the default colours.
pub open spec fn empty_cell() -> Cell {
    Cell {
        c: ' ',
        fg: Color::Default,
        bg: Color::Default,
        bold: false,
        dim: false,
        italic: false,
        underline: false,
        inverse: false,
        strike: false,
        hidden: false,
        wide_spacer: false,
        link: 0,
    }
}

impl Default for Cell {
    fn default() -> (cell: Cell)
        ensures
            cell == empty_cell(),
    {
        Cell {
            c: ' ',
            fg: Color::Default,
            bg: Color::Default,
            bold: false,
            dim: false,
            italic: false,
            underline: false,
            inverse: false,
            strike: false,
            hidden: false,
            wide_spacer: false,
            link: 0,
        }
    }
}

/// The brighter twin of a colour: the base colours 0 to 7 become 8 to 15.
pub open spec fn brightened(color: Color) -> Color {
    match color {
        Color::Indexed(i) => if i < 8 {
            Color::Indexed((i + 8) as u8)
        } else {
            color
        },
        _ => color,
    }
}

/// Half the brightness.
pub open spec fn halved(rgb: [u8; 3]) -> [u8; 3] {
    [rgb[0] / 2, rgb[1] / 2, rgb[2] / 2]
}

impl Cell {
    /// The foreground before reverse video: bold brightens the base colours, dim
    /// halves the brightness, hidden takes the background.
    pub open spec fn ink(self, theme: Theme) -> [u8; 3] {
        let color = if self.bold {
            brightened(self.fg)
        } else {
            self.fg
        };
        if self.hidden {
            self.bg.rgb(theme, false)
        } else if self.dim {
            halved(color.rgb(theme, true))
        } else {
            color.rgb(theme, true)
        }
    }

    /// The foreground and background that the cell is drawn with.
    pub open spec fn colors(self, theme: Theme, extra_inverse: bool) -> ([u8; 3], [u8; 3]) {
        let ink = self.ink(theme);
        let paper = self.bg.rgb(theme, false);
        if self.inverse != extra_inverse {
            (paper, ink)
        } else {
            (ink, paper)
        }
    }

    /// The foreground and background to draw the cell with. `extra_inverse` is
    /// reverse video from outside the cell (a cursor or a selection over it).
    pub fn effective_colors(&self, theme: &Theme, extra_inverse: bool) -> (r: ([u8; 3], [u8; 3]))
        ensures
            r == self.colors(*theme, extra_inverse),
    {
        let mut fg = self.fg;
        if self.bold {
            if let Color::Indexed(i) = fg {
                if i < 8 {
                    fg = Color::Indexed(i + 8);
                }
            }
        }
        let mut fg_rgb = fg.to_rgb(theme, true);
        let bg_rgb = self.bg.to_rgb(theme, false);
        if self.dim {
            fg_rgb = [fg_rgb[0] / 2, fg_rgb[1] / 2, fg_rgb[2] / 2];
        }
        if self.hidden {
            fg_rgb = bg_rgb;
        }
        if self.inverse != extra_inverse {
            (bg_rgb, fg_rgb)
        } else {
            (fg_rgb, bg_rgb)
        }
    }
}

/// The attributes that the next printed character gets.
#[derive(Clone, Copy, PartialEq, Eq, Debug, Structural)]
pub struct Pen {
    pub fg: Color,
    pub bg: Color,
    pub bold: bool,
    pub dim: bool,
    pub italic: bool,
    pub underline: bool,
    pub inverse: bool,
    pub strike: bool,
    pub hidden: bool,
    pub link: u16,
}

/// A pen without attributes that writes into a hyperlink (0 for none).
pub open spec fn plain_pen(link: u16) -> Pen {
    Pen {
        fg: Color::Default,
        bg: Color::Default,
        bold: false,
        dim: false,
        italic: false,
        underline: false,
        inverse: false,
        strike: false,
        hidden: false,
        link,
    }
}

impl Default for Pen {
    fn default() -> (pen: Pen)
        ensures
            pen == plain_pen(0),
    {
        Pen {
            fg: Color::Default,
            bg: Color::Default,
            bold: false,
            dim: false,
            italic: false,
            underline: false,
            inverse: false,
            strike: false,
            hidden: false,
            link: 0,
        }
    }
}

impl Pen {
    /// The cell that this pen writes for a character.
    pub open spec fn stamp(self, c: char) -> Cell {
        Cell {
            c,
            fg: self.fg,
            bg: self.bg,
            bold: self.bold,
            dim: self.dim,
            italic: self.italic,
            underline: self.underline,
            inverse: self.inverse,
            strike: self.strike,
            hidden: self.hidden,
            wide_spacer: false,
            link: self.link,
        }
    }

    /// The right half of a wide character that this pen writes.
    pub open spec fn spacer(self) -> Cell {
        Cell { wide_spacer: true, ..self.stamp(' ') }
    }

    /// What erasing leaves behind: a space in the pen's colours, with no
    /// attributes and no link.
    pub open spec fn blank(self) -> Cell {
        Cell { fg: self.fg, bg: self.bg, ..empty_cell() }
    }

    /// The cell that this pen writes for a character.
    pub fn pen_cell(&self, c: char) -> (cell: Cell)
        ensures
            cell == self.stamp(c),
    {
        Cell {
            c,
            fg: self.fg,
            bg: self.bg,
            bold: self.bold,
            dim: self.dim,
            italic: self.italic,
            underline: self.underline,
            inverse: self.inverse,
            strike: self.strike,
            hidden: self.hidden,
            wide_spacer: false,
            link: self.link,
        }
    }

    /// What erasing leaves behind.
    pub fn blank_cell(&self) -> (cell: Cell)
        ensures
            cell == self.blank(),
    {
        let mut cell = Cell::default();
        cell.fg = self.fg;
        cell.bg = self.bg;
        cell
    }
}

/// A cursor put aside: its place, its pen, and whether a line break was due.
#[derive(Clone, Copy, PartialEq, Eq, Debug, Structural)]
pub struct SavedCursor {
    pub cx: usize,
    pub cy: usize,
    pub pen: Pen,
    pub wrap_pending: bool,
}

} // verus!
