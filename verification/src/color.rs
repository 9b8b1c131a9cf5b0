//! Colors in 8-bit RGBA channels, and the unfocused-shade transform.

use vstd::prelude::*;

verus! {

/// A color with 8-bit red, green, blue and alpha channels.
#[derive(Clone, Copy, Debug, PartialEq, Eq, Structural)]
pub struct Rgba {
    pub r: u8,
    pub g: u8,
    pub b: u8,
    pub a: u8,
}

impl Rgba {
    /// Builds a color from its channels.
    pub fn new(r: u8, g: u8, b: u8, a: u8) -> (c: Rgba)
        ensures
            c == (Rgba { r, g, b, a }),
    {
        Rgba { r, g, b, a }
    }
}

/// One channel dimmed to 92% (rounded down): the shade factor applied to
/// every background color drawn while the widget is unfocused.
pub open spec fn spec_shade_channel(v: int) -> int {
    v * 92 / 100
}

/// A color after the unfocused dim: each color channel at 92%, alpha kept.
pub open spec fn spec_shade(c: Rgba, is_focused: bool) -> Rgba {
    if is_focused {
        c
    } else {
        Rgba {
            r: spec_shade_channel(c.r as int) as u8,
            g: spec_shade_channel(c.g as int) as u8,
            b: spec_shade_channel(c.b as int) as u8,
            a: c.a,
        }
    }
}

/// Dims a background color when the widget is unfocused; focused colors pass
/// through unchanged.
pub fn shade(color: Rgba, is_focused: bool) -> (c: Rgba)
    ensures
        c == spec_shade(color, is_focused),
{
    if is_focused {
        color
    } else {
        let r: u16 = (color.r as u16) * 92 / 100;
        let g: u16 = (color.g as u16) * 92 / 100;
        let b: u16 = (color.b as u16) * 92 / 100;
        Rgba { r: r as u8, g: g as u8, b: b as u8, a: color.a }
    }
}

} // verus!
