use vstd::prelude::*;

verus! {

/// An RGB colour.
#[derive(Debug, Clone, Copy, PartialEq, Eq, Structural)]
pub struct Colour {
    pub red: u8,
    pub green: u8,
    pub blue: u8,
}

impl Colour {
    pub fn rgb(red: u8, green: u8, blue: u8) -> (r: Colour)
        ensures
            r == (Colour { red, green, blue }),
    {
        Colour { red, green, blue }
    }
}

/// The colours and weight text is drawn with; passed through unchanged.
#[derive(Debug, Clone, Copy, PartialEq, Eq, Structural)]
pub struct Style {
    pub background: Colour,
    pub foreground: Colour,
    pub bold: bool,
}

impl Style {
    pub fn normal(background: Colour, foreground: Colour) -> (r: Style)
        ensures
            r == (Style { background, foreground, bold: false }),
    {
        Style { background, foreground, bold: false }
    }

    pub fn bold(background: Colour, foreground: Colour) -> (r: Style)
        ensures
            r == (Style { background, foreground, bold: true }),
    {
        Style { background, foreground, bold: true }
    }
}

} // verus!
