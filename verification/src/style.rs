//! Colors and text styles attached to rendered content.

use vstd::prelude::*;

verus! {

/// A terminal foreground color.  `Reset` stands for the terminal default.
#[derive(Clone, Copy, Debug, PartialEq, Eq, Structural)]
pub enum Color {
    Reset,
    White,
    Gray,
    Red,
    Green,
    Yellow,
    Blue,
    Magenta,
    Cyan,
}

/// The style of a text run or table cell: just a foreground color.
#[derive(Clone, Copy, Debug, PartialEq, Eq, Structural)]
pub struct Style {
    pub fg: Color,
}

impl Style {
    /// The default style: terminal colors untouched.
    pub fn plain() -> (s: Style)
        ensures
            s == (Style { fg: Color::Reset }),
    {
        Style { fg: Color::Reset }
    }

    /// A style with the given foreground color.
    pub fn fg(c: Color) -> (s: Style)
        ensures
            s == (Style { fg: c }),
    {
        Style { fg: c }
    }
}

impl Default for Style {
    fn default() -> (s: Style)
        ensures
            s == (Style { fg: Color::Reset }),
    {
        Style { fg: Color::Reset }
    }
}

} // verus!
