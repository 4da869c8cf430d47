//! Terminal colours: the sixteen ANSI colours and 24-bit RGB colours, and the
//! escape sequences that select them.
use vstd::prelude::*;

use crate::text::{
    bg_lead, decimal, fg_lead, push_char, push_csi, push_decimal, push_truecolor, sgr,
    truecolor_params,
};

verus! {

/// A colour that a terminal can show as foreground or background.
#[derive(Debug, Clone, Copy, PartialEq, Eq, Structural)]
pub enum Color {
    Ansi(AnsiColor),
    Rgb(u8, u8, u8),
}

/// The sixteen standard ANSI colours.
#[derive(Debug, Clone, Copy, PartialEq, Eq, Structural)]
pub enum AnsiColor {
    Black,
    Red,
    Green,
    Yellow,
    Blue,
    Magenta,
    Cyan,
    White,
    BrightBlack,
    BrightRed,
    BrightGreen,
    BrightYellow,
    BrightBlue,
    BrightMagenta,
    BrightCyan,
    BrightWhite,
}

/// The SGR code that selects `a` as foreground: 30 to 37 for the normal
/// colours, 90 to 97 for the bright ones.
pub open spec fn ansi_fg_code(a: AnsiColor) -> u8 {
    match a {
        AnsiColor::Black => 30,
        AnsiColor::Red => 31,
        AnsiColor::Green => 32,
        AnsiColor::Yellow => 33,
        AnsiColor::Blue => 34,
        AnsiColor::Magenta => 35,
        AnsiColor::Cyan => 36,
        AnsiColor::White => 37,
        AnsiColor::BrightBlack => 90,
        AnsiColor::BrightRed => 91,
        AnsiColor::BrightGreen => 92,
        AnsiColor::BrightYellow => 93,
        AnsiColor::BrightBlue => 94,
        AnsiColor::BrightMagenta => 95,
        AnsiColor::BrightCyan => 96,
        AnsiColor::BrightWhite => 97,
    }
}

/// The SGR code that selects `a` as background: ten above its foreground code.
pub open spec fn ansi_bg_code(a: AnsiColor) -> u8 {
    (ansi_fg_code(a) + 10) as u8
}

/// The escape sequence that makes `c` the foreground colour.
pub open spec fn fg_escape(c: Color) -> Seq<char> {
    match c {
        Color::Ansi(a) => sgr(decimal(ansi_fg_code(a) as nat)),
        Color::Rgb(r, g, b) => sgr(truecolor_params(fg_lead(), r, g, b)),
    }
}

/// The escape sequence that makes `c` the background colour.
pub open spec fn bg_escape(c: Color) -> Seq<char> {
    match c {
        Color::Ansi(a) => sgr(decimal(ansi_bg_code(a) as nat)),
        Color::Rgb(r, g, b) => sgr(truecolor_params(bg_lead(), r, g, b)),
    }
}

/// What `Color::from` gives for an `(r, g, b)` triple.
pub open spec fn rgb_from_tuple(value: (u8, u8, u8)) -> Color {
    Color::Rgb(value.0, value.1, value.2)
}

impl From<(u8, u8, u8)> for Color {
    fn from(value: (u8, u8, u8)) -> (c: Self) {
        Color::Rgb(value.0, value.1, value.2)
    }
}

impl vstd::std_specs::convert::FromSpecImpl<(u8, u8, u8)> for Color {
    open spec fn obeys_from_spec() -> bool {
        true
    }

    open spec fn from_spec(value: (u8, u8, u8)) -> Color {
        rgb_from_tuple(value)
    }
}

fn push_sgr_code(s: &mut String, code: u8)
    ensures
        final(s)@ == old(s)@ + sgr(decimal(code as nat)),
{
    push_csi(s);
    push_decimal(s, code as u64);
    push_char(s, 'm');
    assert(s@ =~= old(s)@ + sgr(decimal(code as nat)));
}

/// Whether two optional colours are the same.
pub(crate) fn same_color(a: Option<Color>, b: Option<Color>) -> (r: bool)
    ensures
        r == (a == b),
{
    match (a, b) {
        (Some(x), Some(y)) => x == y,
        (None, None) => true,
        _ => false,
    }
}

impl Color {
    /// Appends the escape sequence that makes this colour the foreground.
    pub fn write_fg(&self, str: &mut String)
        ensures
            final(str)@ == old(str)@ + fg_escape(*self),
    {
        match self {
            Color::Ansi(ansi_color) => push_sgr_code(str, ansi_color.fg_code()),
            Color::Rgb(r, g, b) => push_truecolor(str, true, *r, *g, *b),
        }
    }

    /// Appends the escape sequence that makes this colour the background.
    pub fn write_bg(&self, str: &mut String)
        ensures
            final(str)@ == old(str)@ + bg_escape(*self),
    {
        match self {
            Color::Ansi(ansi_color) => push_sgr_code(str, ansi_color.bg_code()),
            Color::Rgb(r, g, b) => push_truecolor(str, false, *r, *g, *b),
        }
    }

    /// The escape sequence that makes this colour the foreground.
    pub fn escape_fg(&self) -> (s: String)
        ensures
            s@ == fg_escape(*self),
    {
        let mut str = String::new();
        self.write_fg(&mut str);
        assert(str@ =~= fg_escape(*self));
        str
    }

    /// The escape sequence that makes this colour the background.
    pub fn escape_bg(&self) -> (s: String)
        ensures
            s@ == bg_escape(*self),
    {
        let mut str = String::new();
        self.write_bg(&mut str);
        assert(str@ =~= bg_escape(*self));
        str
    }
}

impl AnsiColor {
    fn fg_code(&self) -> (code: u8)
        ensures
            code == ansi_fg_code(*self),
    {
        match self {
            AnsiColor::Black => 30,
            AnsiColor::Red => 31,
            AnsiColor::Green => 32,
            AnsiColor::Yellow => 33,
            AnsiColor::Blue => 34,
            AnsiColor::Magenta => 35,
            AnsiColor::Cyan => 36,
            AnsiColor::White => 37,
            AnsiColor::BrightBlack => 90,
            AnsiColor::BrightRed => 91,
            AnsiColor::BrightGreen => 92,
            AnsiColor::BrightYellow => 93,
            AnsiColor::BrightBlue => 94,
            AnsiColor::BrightMagenta => 95,
            AnsiColor::BrightCyan => 96,
            AnsiColor::BrightWhite => 97,
        }
    }

    fn bg_code(&self) -> (code: u8)
        ensures
            code == ansi_bg_code(*self),
    {
        self.fg_code() + 10
    }
}

/// The sixteen ANSI colours select the standard SGR codes: the eight normal
/// colours, Black to White, are foreground 30 to 37 and background 40 to 47;
/// the bright ones are foreground 90 to 97 and background 100 to 107.
pub proof fn lemma_ansi_escapes()
    ensures
        fg_escape(Color::Ansi(AnsiColor::Black)) == seq!['\x1b', '[', '3', '0', 'm'],
        fg_escape(Color::Ansi(AnsiColor::Red)) == seq!['\x1b', '[', '3', '1', 'm'],
        fg_escape(Color::Ansi(AnsiColor::Green)) == seq!['\x1b', '[', '3', '2', 'm'],
        fg_escape(Color::Ansi(AnsiColor::Yellow)) == seq!['\x1b', '[', '3', '3', 'm'],
        fg_escape(Color::Ansi(AnsiColor::Blue)) == seq!['\x1b', '[', '3', '4', 'm'],
        fg_escape(Color::Ansi(AnsiColor::Magenta)) == seq!['\x1b', '[', '3', '5', 'm'],
        fg_escape(Color::Ansi(AnsiColor::Cyan)) == seq!['\x1b', '[', '3', '6', 'm'],
        fg_escape(Color::Ansi(AnsiColor::White)) == seq!['\x1b', '[', '3', '7', 'm'],
        fg_escape(Color::Ansi(AnsiColor::BrightBlack)) == seq!['\x1b', '[', '9', '0', 'm'],
        fg_escape(Color::Ansi(AnsiColor::BrightRed)) == seq!['\x1b', '[', '9', '1', 'm'],
        fg_escape(Color::Ansi(AnsiColor::BrightGreen)) == seq!['\x1b', '[', '9', '2', 'm'],
        fg_escape(Color::Ansi(AnsiColor::BrightYellow)) == seq!['\x1b', '[', '9', '3', 'm'],
        fg_escape(Color::Ansi(AnsiColor::BrightBlue)) == seq!['\x1b', '[', '9', '4', 'm'],
        fg_escape(Color::Ansi(AnsiColor::BrightMagenta)) == seq!['\x1b', '[', '9', '5', 'm'],
        fg_escape(Color::Ansi(AnsiColor::BrightCyan)) == seq!['\x1b', '[', '9', '6', 'm'],
        fg_escape(Color::Ansi(AnsiColor::BrightWhite)) == seq!['\x1b', '[', '9', '7', 'm'],
        bg_escape(Color::Ansi(AnsiColor::Black)) == seq!['\x1b', '[', '4', '0', 'm'],
        bg_escape(Color::Ansi(AnsiColor::Red)) == seq!['\x1b', '[', '4', '1', 'm'],
        bg_escape(Color::Ansi(AnsiColor::Green)) == seq!['\x1b', '[', '4', '2', 'm'],
        bg_escape(Color::Ansi(AnsiColor::Yellow)) == seq!['\x1b', '[', '4', '3', 'm'],
        bg_escape(Color::Ansi(AnsiColor::Blue)) == seq!['\x1b', '[', '4', '4', 'm'],
        bg_escape(Color::Ansi(AnsiColor::Magenta)) == seq!['\x1b', '[', '4', '5', 'm'],
        bg_escape(Color::Ansi(AnsiColor::Cyan)) == seq!['\x1b', '[', '4', '6', 'm'],
        bg_escape(Color::Ansi(AnsiColor::White)) == seq!['\x1b', '[', '4', '7', 'm'],
        bg_escape(Color::Ansi(AnsiColor::BrightBlack)) == seq!['\x1b', '[', '1', '0', '0', 'm'],
        bg_escape(Color::Ansi(AnsiColor::BrightRed)) == seq!['\x1b', '[', '1', '0', '1', 'm'],
        bg_escape(Color::Ansi(AnsiColor::BrightGreen)) == seq!['\x1b', '[', '1', '0', '2', 'm'],
        bg_escape(Color::Ansi(AnsiColor::BrightYellow)) == seq!['\x1b', '[', '1', '0', '3', 'm'],
        bg_escape(Color::Ansi(AnsiColor::BrightBlue)) == seq!['\x1b', '[', '1', '0', '4', 'm'],
        bg_escape(Color::Ansi(AnsiColor::BrightMagenta)) == seq!['\x1b', '[', '1', '0', '5', 'm'],
        bg_escape(Color::Ansi(AnsiColor::BrightCyan)) == seq!['\x1b', '[', '1', '0', '6', 'm'],
        bg_escape(Color::Ansi(AnsiColor::BrightWhite)) == seq!['\x1b', '[', '1', '0', '7', 'm'],
{
    reveal_with_fuel(decimal, 4);
    assert(fg_escape(Color::Ansi(AnsiColor::Black)) =~= seq!['\x1b', '[', '3', '0', 'm']);
    assert(fg_escape(Color::Ansi(AnsiColor::Red)) =~= seq!['\x1b', '[', '3', '1', 'm']);
    assert(fg_escape(Color::Ansi(AnsiColor::Green)) =~= seq!['\x1b', '[', '3', '2', 'm']);
    assert(fg_escape(Color::Ansi(AnsiColor::Yellow)) =~= seq!['\x1b', '[', '3', '3', 'm']);
    assert(fg_escape(Color::Ansi(AnsiColor::Blue)) =~= seq!['\x1b', '[', '3', '4', 'm']);
    assert(fg_escape(Color::Ansi(AnsiColor::Magenta)) =~= seq!['\x1b', '[', '3', '5', 'm']);
    assert(fg_escape(Color::Ansi(AnsiColor::Cyan)) =~= seq!['\x1b', '[', '3', '6', 'm']);
    assert(fg_escape(Color::Ansi(AnsiColor::White)) =~= seq!['\x1b', '[', '3', '7', 'm']);
    assert(fg_escape(Color::Ansi(AnsiColor::BrightBlack)) =~= seq!['\x1b', '[', '9', '0', 'm']);
    assert(fg_escape(Color::Ansi(AnsiColor::BrightRed)) =~= seq!['\x1b', '[', '9', '1', 'm']);
    assert(fg_escape(Color::Ansi(AnsiColor::BrightGreen)) =~= seq!['\x1b', '[', '9', '2', 'm']);
    assert(fg_escape(Color::Ansi(AnsiColor::BrightYellow)) =~= seq!['\x1b', '[', '9', '3', 'm']);
    assert(fg_escape(Color::Ansi(AnsiColor::BrightBlue)) =~= seq!['\x1b', '[', '9', '4', 'm']);
    assert(fg_escape(Color::Ansi(AnsiColor::BrightMagenta)) =~= seq!['\x1b', '[', '9', '5', 'm']);
    assert(fg_escape(Color::Ansi(AnsiColor::BrightCyan)) =~= seq!['\x1b', '[', '9', '6', 'm']);
    assert(fg_escape(Color::Ansi(AnsiColor::BrightWhite)) =~= seq!['\x1b', '[', '9', '7', 'm']);
    assert(bg_escape(Color::Ansi(AnsiColor::Black)) =~= seq!['\x1b', '[', '4', '0', 'm']);
    assert(bg_escape(Color::Ansi(AnsiColor::Red)) =~= seq!['\x1b', '[', '4', '1', 'm']);
    assert(bg_escape(Color::Ansi(AnsiColor::Green)) =~= seq!['\x1b', '[', '4', '2', 'm']);
    assert(bg_escape(Color::Ansi(AnsiColor::Yellow)) =~= seq!['\x1b', '[', '4', '3', 'm']);
    assert(bg_escape(Color::Ansi(AnsiColor::Blue)) =~= seq!['\x1b', '[', '4', '4', 'm']);
    assert(bg_escape(Color::Ansi(AnsiColor::Magenta)) =~= seq!['\x1b', '[', '4', '5', 'm']);
    assert(bg_escape(Color::Ansi(AnsiColor::Cyan)) =~= seq!['\x1b', '[', '4', '6', 'm']);
    assert(bg_escape(Color::Ansi(AnsiColor::White)) =~= seq!['\x1b', '[', '4', '7', 'm']);
    assert(bg_escape(Color::Ansi(AnsiColor::BrightBlack)) =~= seq!['\x1b', '[', '1', '0', '0', 'm']);
    assert(bg_escape(Color::Ansi(AnsiColor::BrightRed)) =~= seq!['\x1b', '[', '1', '0', '1', 'm']);
    assert(bg_escape(Color::Ansi(AnsiColor::BrightGreen)) =~= seq!['\x1b', '[', '1', '0', '2', 'm']);
    assert(bg_escape(Color::Ansi(AnsiColor::BrightYellow)) =~= seq!['\x1b', '[', '1', '0', '3', 'm']);
    assert(bg_escape(Color::Ansi(AnsiColor::BrightBlue)) =~= seq!['\x1b', '[', '1', '0', '4', 'm']);
    assert(bg_escape(Color::Ansi(AnsiColor::BrightMagenta)) =~= seq!['\x1b', '[', '1', '0', '5', 'm']);
    assert(bg_escape(Color::Ansi(AnsiColor::BrightCyan)) =~= seq!['\x1b', '[', '1', '0', '6', 'm']);
    assert(bg_escape(Color::Ansi(AnsiColor::BrightWhite)) =~= seq!['\x1b', '[', '1', '0', '7', 'm']);
}

} // verus!
