use vstd::prelude::*;

verus! {

/// The fixed palette a pixel can be painted with.
#[derive(Debug, Clone, Copy, PartialEq, Eq, Structural)]
pub enum Color {
    Red,
    Green,
    Blue,
    Yellow,
    Black,
    White,
}

/// The color every pixel has before anyone paints it.
pub open spec fn default_color() -> Color {
    Color::White
}

/// The hex triplet under which a palette color is displayed.
pub open spec fn hex_spec(c: Color) -> Seq<char> {
    match c {
        Color::Red => "#ff0000"@,
        Color::Green => "#00ff00"@,
        Color::Blue => "#0000ff"@,
        Color::Yellow => "#ffff00"@,
        Color::Black => "#000000"@,
        Color::White => "#ffffff"@,
    }
}

impl Color {
    /// The color of a freshly created pixel.
    pub fn default_color() -> (r: Color)
        ensures
            r == default_color(),
    {
        Color::White
    }

    /// The display representation of this color, as `#rrggbb`.
    pub fn hex(&self) -> (r: &'static str)
        ensures
            r@ == hex_spec(*self),
    {
        match self {
            Color::Red => "#ff0000",
            Color::Green => "#00ff00",
            Color::Blue => "#0000ff",
            Color::Yellow => "#ffff00",
            Color::Black => "#000000",
            Color::White => "#ffffff",
        }
    }
}

} // verus!
