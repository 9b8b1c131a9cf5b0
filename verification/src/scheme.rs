//! Color schemes: identifiers, the ANSI palette slots, and whole schemes.
//! Colors are plain RGBA values; parsing and serializing hex color text
//! belongs to the host.

use vstd::prelude::*;

use crate::color::Rgba;

verus! {

/// Whether a scheme belongs to the dark or the light set.
#[derive(Clone, Copy, Debug, PartialEq, Eq, Hash, Structural)]
pub enum ColorSchemeKind {
    Dark,
    Light,
}

/// The identifier of a stored color scheme.
#[derive(Clone, Copy, Debug, PartialEq, Eq, PartialOrd, Ord, Hash, Structural)]
pub struct ColorSchemeId(pub u64);

/// The eight ANSI palette slots of one intensity band; an unset slot keeps
/// the terminal's default.
#[derive(Clone, Copy, Debug, PartialEq, Eq, Structural)]
pub struct ColorSchemeAnsi {
    pub black: Option<Rgba>,
    pub red: Option<Rgba>,
    pub green: Option<Rgba>,
    pub yellow: Option<Rgba>,
    pub blue: Option<Rgba>,
    pub magenta: Option<Rgba>,
    pub cyan: Option<Rgba>,
    pub white: Option<Rgba>,
}

impl ColorSchemeAnsi {
    /// The band with every slot unset.
    pub fn empty() -> (r: ColorSchemeAnsi)
        ensures
            r.is_empty_spec(),
    {
        ColorSchemeAnsi {
            black: None,
            red: None,
            green: None,
            yellow: None,
            blue: None,
            magenta: None,
            cyan: None,
            white: None,
        }
    }

    /// Whether every slot is unset.
    pub open spec fn is_empty_spec(&self) -> bool {
        &&& self.black is None
        &&& self.red is None
        &&& self.green is None
        &&& self.yellow is None
        &&& self.blue is None
        &&& self.magenta is None
        &&& self.cyan is None
        &&& self.white is None
    }

    /// Tests whether every slot is unset.
    pub fn is_empty(&self) -> (r: bool)
        ensures
            r == self.is_empty_spec(),
    {
        self.black.is_none() && self.red.is_none() && self.green.is_none()
            && self.yellow.is_none() && self.blue.is_none() && self.magenta.is_none()
            && self.cyan.is_none() && self.white.is_none()
    }
}

/// A named color scheme: the base colors and the three ANSI bands.
#[derive(Clone, Debug, PartialEq, Eq)]
pub struct ColorScheme {
    pub name: String,
    pub foreground: Option<Rgba>,
    pub background: Option<Rgba>,
    pub cursor: Option<Rgba>,
    pub bright_foreground: Option<Rgba>,
    pub dim_foreground: Option<Rgba>,
    pub normal: ColorSchemeAnsi,
    pub bright: ColorSchemeAnsi,
    pub dim: ColorSchemeAnsi,
}

impl ColorScheme {
    /// An unnamed scheme with nothing set.
    pub fn empty() -> (r: ColorScheme)
        ensures
            r.name@ == Seq::<char>::empty(),
            r.foreground is None,
            r.background is None,
            r.cursor is None,
            r.bright_foreground is None,
            r.dim_foreground is None,
            r.normal.is_empty_spec(),
            r.bright.is_empty_spec(),
            r.dim.is_empty_spec(),
    {
        ColorScheme {
            name: String::new(),
            foreground: None,
            background: None,
            cursor: None,
            bright_foreground: None,
            dim_foreground: None,
            normal: ColorSchemeAnsi::empty(),
            bright: ColorSchemeAnsi::empty(),
            dim: ColorSchemeAnsi::empty(),
        }
    }
}

} // verus!
