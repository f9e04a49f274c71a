//! Display colors carried by entities and log messages. The core never
//! interprets them; they are handed through to the presentation layer.
use vstd::prelude::*;

verus! {

/// An RGB display color.
#[derive(Clone, Copy, Debug, PartialEq, Eq, Structural)]
pub struct Color {
    pub r: u8,
    pub g: u8,
    pub b: u8,
}

impl Color {
    /// Builds the color with the given channels.
    pub fn rgb(r: u8, g: u8, b: u8) -> (c: Color)
        ensures
            c == (Color { r, g, b }),
    {
        Color { r, g, b }
    }
}

pub open spec fn white() -> Color {
    Color { r: 255, g: 255, b: 255 }
}

pub open spec fn red() -> Color {
    Color { r: 255, g: 0, b: 0 }
}

pub open spec fn green() -> Color {
    Color { r: 0, g: 255, b: 0 }
}

pub open spec fn orange() -> Color {
    Color { r: 255, g: 127, b: 0 }
}

pub open spec fn violet() -> Color {
    Color { r: 127, g: 0, b: 255 }
}

pub open spec fn light_violet() -> Color {
    Color { r: 185, g: 115, b: 255 }
}

pub open spec fn light_yellow() -> Color {
    Color { r: 255, g: 255, b: 115 }
}

pub open spec fn light_blue() -> Color {
    Color { r: 115, g: 115, b: 255 }
}

pub open spec fn dark_red() -> Color {
    Color { r: 191, g: 0, b: 0 }
}

pub open spec fn darker_green() -> Color {
    Color { r: 0, g: 127, b: 0 }
}

pub open spec fn desaturated_green() -> Color {
    Color { r: 63, g: 127, b: 63 }
}

} // verus!
