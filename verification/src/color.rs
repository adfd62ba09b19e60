use vstd::prelude::*;

verus! {

/// An RGBA color with 8-bit channels, as handed to the renderer.
#[derive(Clone, Copy, PartialEq, Eq, Structural, Debug)]
pub struct Color {
    pub r: u8,
    pub g: u8,
    pub b: u8,
    pub a: u8,
}

/// The color of a highlighted cell: an opaque-ish orange.
pub open spec fn spec_highlight_color() -> Color {
    Color { r: 255, g: 140, b: 10, a: 180 }
}

/// The color of a cell that is not highlighted: a translucent gray.
pub open spec fn spec_base_color() -> Color {
    Color { r: 200, g: 200, b: 200, a: 50 }
}

/// The color every cell wears before any selection has been made.
pub open spec fn spec_initial_color() -> Color {
    Color { r: 149, g: 200, b: 10, a: 120 }
}

pub fn highlight_color() -> (c: Color)
    ensures
        c == spec_highlight_color(),
{
    Color { r: 255, g: 140, b: 10, a: 180 }
}

pub fn base_color() -> (c: Color)
    ensures
        c == spec_base_color(),
{
    Color { r: 200, g: 200, b: 200, a: 50 }
}

pub fn initial_color() -> (c: Color)
    ensures
        c == spec_initial_color(),
{
    Color { r: 149, g: 200, b: 10, a: 120 }
}

} // verus!
