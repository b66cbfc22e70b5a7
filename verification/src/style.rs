//! Terminal style attributes: a foreground and a background color slot.
//!
//! Styles compose by override: writing a color into one slot replaces that
//! slot and leaves the other slot unchanged.

use vstd::prelude::*;

verus! {

/// The terminal colors the engine assigns to pattern constructs and matches.
#[derive(Clone, Copy, Debug, PartialEq, Eq, Structural)]
pub enum Color {
    Black,
    White,
    Red,
    Green,
    Blue,
    Cyan,
    Magenta,
    Yellow,
    LightRed,
    LightGreen,
    LightYellow,
    LightCyan,
    LightMagenta,
}

/// An attribute bundle for one screen cell: optional foreground and
/// background colors. `None` means "no color assigned".
#[derive(Clone, Copy, Debug, PartialEq, Eq, Structural)]
pub struct Style {
    pub fg: Option<Color>,
    pub bg: Option<Color>,
}

impl Style {
    /// The default style: no attributes set.
    pub fn new() -> (r: Style)
        ensures
            r == Style::default_spec(),
    {
        Style { fg: None, bg: None }
    }

    /// The default style, as a specification value.
    pub open spec fn default_spec() -> Style {
        Style { fg: None, bg: None }
    }

    /// Overwrite the foreground slot, keeping the background slot.
    pub fn with_fg(self, c: Color) -> (r: Style)
        ensures
            r == (Style { fg: Some(c), bg: self.bg }),
    {
        Style { fg: Some(c), bg: self.bg }
    }

    /// Overwrite the background slot, keeping the foreground slot.
    pub fn with_bg(self, c: Color) -> (r: Style)
        ensures
            r == (Style { fg: self.fg, bg: Some(c) }),
    {
        Style { fg: self.fg, bg: Some(c) }
    }
}

} // verus!
