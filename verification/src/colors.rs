//! The colour scheme of the reader.

use vstd::prelude::*;

verus! {

/// The colours the reader draws with.
#[derive(Clone, Copy, Debug, PartialEq, Eq, Structural)]
pub enum Tone {
    /// The pale page background.
    Background,
    /// The orange of bars and borders.
    Orange,
    /// The terminal's black.
    Black,
}

/// The named styles of the reader.
#[derive(Clone, Copy, Debug, PartialEq, Eq, Structural)]
pub enum HNStyles {
    OrangeBlock,
    WhiteBlock,
    OrangeBorder,
    OrangeTitle,
    WhiteTitle,
}

/// A background and a foreground colour.
#[derive(Clone, Copy, Debug, PartialEq, Eq, Structural)]
pub struct Style {
    pub bg: Tone,
    pub fg: Tone,
}

/// The red, green and blue parts of a colour, where it is defined by them.
pub open spec fn tone_rgb(tone: Tone) -> Option<(u8, u8, u8)> {
    match tone {
        Tone::Background => Some((246u8, 246u8, 239u8)),
        Tone::Orange => Some((255u8, 102u8, 0u8)),
        Tone::Black => None,
    }
}

/// The colours of a named style.
pub open spec fn palette(style: HNStyles) -> Style {
    match style {
        HNStyles::OrangeBlock => Style { bg: Tone::Orange, fg: Tone::Background },
        HNStyles::WhiteBlock => Style { bg: Tone::Background, fg: Tone::Black },
        HNStyles::OrangeBorder => Style { bg: Tone::Background, fg: Tone::Orange },
        HNStyles::OrangeTitle => Style { bg: Tone::Orange, fg: Tone::Background },
        HNStyles::WhiteTitle => Style { bg: Tone::Background, fg: Tone::Orange },
    }
}

/// The red, green and blue parts of a colour, where it is defined by them.
pub fn rgb(tone: Tone) -> (parts: Option<(u8, u8, u8)>)
    ensures
        parts == tone_rgb(tone),
{
    match tone {
        Tone::Background => Some((246, 246, 239)),
        Tone::Orange => Some((255, 102, 0)),
        Tone::Black => None,
    }
}

/// The colours of a named style.
pub fn get_style(style: HNStyles) -> (colors: Style)
    ensures
        colors == palette(style),
{
    match style {
        HNStyles::OrangeBlock => Style { bg: Tone::Orange, fg: Tone::Background },
        HNStyles::WhiteBlock => Style { bg: Tone::Background, fg: Tone::Black },
        HNStyles::OrangeBorder => Style { bg: Tone::Background, fg: Tone::Orange },
        HNStyles::OrangeTitle => Style { bg: Tone::Orange, fg: Tone::Background },
        HNStyles::WhiteTitle => Style { bg: Tone::Background, fg: Tone::Orange },
    }
}

} // verus!
