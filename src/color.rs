use vstd::prelude::*;

verus! {

/// An opaque colour as 8-bit red, green and blue channels.
///
/// The rules engine only ever tests a colour for being black, which marks an
/// empty board cell; the channels are carried for the renderer.
#[derive(Clone, Copy, Debug, PartialEq, Eq, Structural)]
pub struct Color {
    pub r: u8,
    pub g: u8,
    pub b: u8,
}

impl Color {
    /// Black, the colour of an empty cell.
    pub open spec fn spec_black() -> Color {
        Color { r: 0, g: 0, b: 0 }
    }

    /// Black, the colour of an empty cell.
    #[verifier::when_used_as_spec(spec_black)]
    pub fn black() -> (c: Color)
        ensures
            c == Color::spec_black(),
    {
        Color { r: 0, g: 0, b: 0 }
    }

    /// White.
    pub open spec fn spec_white() -> Color {
        Color { r: 255, g: 255, b: 255 }
    }

    /// White.
    #[verifier::when_used_as_spec(spec_white)]
    pub fn white() -> (c: Color)
        ensures
            c == Color::spec_white(),
    {
        Color { r: 255, g: 255, b: 255 }
    }

    /// Red.
    pub open spec fn spec_red() -> Color {
        Color { r: 255, g: 0, b: 0 }
    }

    /// Red.
    #[verifier::when_used_as_spec(spec_red)]
    pub fn red() -> (c: Color)
        ensures
            c == Color::spec_red(),
    {
        Color { r: 255, g: 0, b: 0 }
    }

    /// Green.
    pub open spec fn spec_green() -> Color {
        Color { r: 0, g: 255, b: 0 }
    }

    /// Green.
    #[verifier::when_used_as_spec(spec_green)]
    pub fn green() -> (c: Color)
        ensures
            c == Color::spec_green(),
    {
        Color { r: 0, g: 255, b: 0 }
    }

    /// Blue.
    pub open spec fn spec_blue() -> Color {
        Color { r: 0, g: 0, b: 255 }
    }

    /// Blue.
    #[verifier::when_used_as_spec(spec_blue)]
    pub fn blue() -> (c: Color)
        ensures
            c == Color::spec_blue(),
    {
        Color { r: 0, g: 0, b: 255 }
    }

    /// Cyan.
    pub open spec fn spec_cyan() -> Color {
        Color { r: 0, g: 255, b: 255 }
    }

    /// Cyan.
    #[verifier::when_used_as_spec(spec_cyan)]
    pub fn cyan() -> (c: Color)
        ensures
            c == Color::spec_cyan(),
    {
        Color { r: 0, g: 255, b: 255 }
    }

    /// Magenta.
    pub open spec fn spec_magenta() -> Color {
        Color { r: 255, g: 0, b: 255 }
    }

    /// Magenta.
    #[verifier::when_used_as_spec(spec_magenta)]
    pub fn magenta() -> (c: Color)
        ensures
            c == Color::spec_magenta(),
    {
        Color { r: 255, g: 0, b: 255 }
    }

    /// Yellow.
    pub open spec fn spec_yellow() -> Color {
        Color { r: 255, g: 255, b: 0 }
    }

    /// Yellow.
    #[verifier::when_used_as_spec(spec_yellow)]
    pub fn yellow() -> (c: Color)
        ensures
            c == Color::spec_yellow(),
    {
        Color { r: 255, g: 255, b: 0 }
    }

    /// Orange.
    pub open spec fn spec_orange() -> Color {
        Color { r: 255, g: 165, b: 0 }
    }

    /// Orange.
    #[verifier::when_used_as_spec(spec_orange)]
    pub fn orange() -> (c: Color)
        ensures
            c == Color::spec_orange(),
    {
        Color { r: 255, g: 165, b: 0 }
    }

    /// Builds a colour from its three channels.
    pub fn from_rgb(r: u8, g: u8, b: u8) -> (c: Color)
        ensures
            c.r == r,
            c.g == g,
            c.b == b,
    {
        Color { r, g, b }
    }

    /// Whether a board cell of this colour counts as filled.
    pub open spec fn is_filled(self) -> bool {
        self != Color::spec_black()
    }
}

} // verus!
