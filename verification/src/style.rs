//! Cell styles: colors and text modifiers.

use vstd::prelude::*;

verus! {

/// A terminal color.
#[derive(Clone, Copy, Debug, PartialEq, Eq, Structural)]
pub enum TuiColor {
    Reset,
    Indexed(u8),
    Rgb(u8, u8, u8),
}

/// A set of text modifiers, one bit each.
#[derive(Clone, Copy, Debug, PartialEq, Eq, Structural)]
pub struct Modifier(pub u16);

impl Modifier {
    /// Bold text.
    pub fn bold() -> (r: Modifier)
        ensures
            r == Modifier(1),
    {
        Modifier(1)
    }

    /// Dimmed text.
    pub fn dim() -> (r: Modifier)
        ensures
            r == Modifier(2),
    {
        Modifier(2)
    }
}

/// The look of a cell: foreground and background colors and the modifiers
/// added to the text.
#[derive(Clone, Copy, Debug, PartialEq, Eq, Structural)]
pub struct TuiStyle {
    pub fg: Option<TuiColor>,
    pub bg: Option<TuiColor>,
    pub add_modifier: Modifier,
}

impl TuiStyle {
    /// No colors and no modifiers.
    pub open spec fn plain() -> TuiStyle {
        TuiStyle { fg: None, bg: None, add_modifier: Modifier(0) }
    }

    /// This style with foreground `color`.
    pub fn fg(self, color: TuiColor) -> (r: TuiStyle)
        ensures
            r == (TuiStyle { fg: Some(color), ..self }),
    {
        TuiStyle { fg: Some(color), ..self }
    }

    /// This style with background `color`.
    pub fn bg(self, color: TuiColor) -> (r: TuiStyle)
        ensures
            r == (TuiStyle { bg: Some(color), ..self }),
    {
        TuiStyle { bg: Some(color), ..self }
    }

    /// This style with the modifiers of `modifier` added.
    pub fn add_modifier(self, modifier: Modifier) -> (r: TuiStyle)
        ensures
            r == (TuiStyle { add_modifier: Modifier(self.add_modifier.0 | modifier.0), ..self }),
    {
        TuiStyle { add_modifier: Modifier(self.add_modifier.0 | modifier.0), ..self }
    }
}

impl Default for TuiStyle {
    fn default() -> (r: TuiStyle)
        ensures
            r == TuiStyle::plain(),
    {
        TuiStyle { fg: None, bg: None, add_modifier: Modifier(0) }
    }
}

} // verus!
