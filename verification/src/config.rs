//! The application configuration: theme choice, fonts, color-scheme and
//! profile tables, and the font metrics derived from them.
//!
//! The scheme and profile tables are association lists ordered by strictly
//! increasing key, the shape their persistent form keeps them in.

use vstd::prelude::*;

use crate::action::AppTheme;
use crate::profile::Profile;
use crate::profile::ProfileId;
use crate::scheme::ColorScheme;
use crate::scheme::ColorSchemeId;
use crate::scheme::ColorSchemeKind;

verus! {

/// Font metrics in hundredths of a device unit: the adjusted font size, and
/// the whole-unit line height.
#[derive(Clone, Copy, Debug, PartialEq, Eq, Structural)]
pub struct Metrics {
    pub font_size_centi: u32,
    pub line_height: u32,
}

/// A font width class, numbered 1 (ultra-condensed) through 9
/// (ultra-expanded) as font tables do.
#[derive(Clone, Copy, Debug, PartialEq, Eq, Structural)]
pub enum FontStretch {
    UltraCondensed,
    ExtraCondensed,
    Condensed,
    SemiCondensed,
    Normal,
    SemiExpanded,
    Expanded,
    ExtraExpanded,
    UltraExpanded,
}

/// The numeric width class of a stretch.
pub open spec fn spec_stretch_number(s: FontStretch) -> int {
    match s {
        FontStretch::UltraCondensed => 1,
        FontStretch::ExtraCondensed => 2,
        FontStretch::Condensed => 3,
        FontStretch::SemiCondensed => 4,
        FontStretch::Normal => 5,
        FontStretch::SemiExpanded => 6,
        FontStretch::Expanded => 7,
        FontStretch::ExtraExpanded => 8,
        FontStretch::UltraExpanded => 9,
    }
}

impl FontStretch {
    /// The numeric width class.
    pub fn to_number(&self) -> (n: u16)
        ensures
            n == spec_stretch_number(*self),
    {
        match self {
            FontStretch::UltraCondensed => 1,
            FontStretch::ExtraCondensed => 2,
            FontStretch::Condensed => 3,
            FontStretch::SemiCondensed => 4,
            FontStretch::Normal => 5,
            FontStretch::SemiExpanded => 6,
            FontStretch::Expanded => 7,
            FontStretch::ExtraExpanded => 8,
            FontStretch::UltraExpanded => 9,
        }
    }
}

/// The profile stored under an identifier, if any.
pub open spec fn spec_find_profile(entries: Seq<(ProfileId, Profile)>, id: ProfileId) -> Option<
    Profile,
>
    decreases entries.len(),
{
    if entries.len() == 0 {
        None
    } else if entries[0].0 == id {
        Some(entries[0].1)
    } else {
        spec_find_profile(entries.drop_first(), id)
    }
}

/// The adjusted font size in hundredths: the configured size, floored at
/// one, moved by the zoom adjustment times the zoom step, floored at one
/// again.
pub open spec fn spec_font_size_centi(
    font_size: int,
    zoom_step_centi: int,
    zoom_adj: int,
) -> int {
    let base = if font_size * 100 < 100 {
        100int
    } else {
        font_size * 100
    };
    let adjusted = base + zoom_adj * zoom_step_centi;
    if adjusted < 100 {
        100int
    } else {
        adjusted
    }
}

/// The line height for a font size in hundredths: 1.4 times the size,
/// rounded up to a whole device unit.
pub open spec fn spec_line_height(font_size_centi: int) -> int {
    (font_size_centi * 14 + 999) / 1000
}

/// The whole configuration.
#[derive(Clone, Debug, PartialEq, Eq)]
pub struct Config {
    pub app_theme: AppTheme,
    pub color_schemes_dark: Vec<(ColorSchemeId, ColorScheme)>,
    pub color_schemes_light: Vec<(ColorSchemeId, ColorScheme)>,
    pub font_name: String,
    pub font_size: u16,
    pub font_weight: u16,
    pub dim_font_weight: u16,
    pub bold_font_weight: u16,
    pub font_stretch: u16,
    pub font_size_zoom_step_mul_100: u16,
    pub opacity: u8,
    pub profiles: Vec<(ProfileId, Profile)>,
    pub show_headerbar: bool,
    pub use_bright_bold: bool,
    pub syntax_theme_dark: String,
    pub syntax_theme_light: String,
    pub focus_follow_mouse: bool,
    pub default_profile: Option<ProfileId>,
}

impl Config {
    /// The scheme and profile tables keep strictly increasing keys: each key
    /// appears once, in order.
    pub open spec fn wf(&self) -> bool {
        &&& forall|i: int, j: int|
            0 <= i < j < self.color_schemes_dark@.len() ==> (
            #[trigger] self.color_schemes_dark@[i]).0.0 < (
            #[trigger] self.color_schemes_dark@[j]).0.0
        &&& forall|i: int, j: int|
            0 <= i < j < self.color_schemes_light@.len() ==> (
            #[trigger] self.color_schemes_light@[i]).0.0 < (
            #[trigger] self.color_schemes_light@[j]).0.0
        &&& forall|i: int, j: int|
            0 <= i < j < self.profiles@.len() ==> (#[trigger] self.profiles@[i]).0.0 < (
            #[trigger] self.profiles@[j]).0.0
    }

    /// The default configuration: system theme, a monospace font at size 14
    /// with regular (400) and bold (700) weights, normal stretch (5), full
    /// opacity, the stock syntax themes, and no stored schemes or profiles.
    pub fn new_default() -> (r: Config)
        ensures
            r.app_theme == AppTheme::System,
            r.color_schemes_dark@.len() == 0,
            r.color_schemes_light@.len() == 0,
            r.font_name@ == "Fira Mono"@,
            r.font_size == 14,
            r.font_weight == 400,
            r.dim_font_weight == 400,
            r.bold_font_weight == 700,
            r.font_stretch == 5,
            r.font_size_zoom_step_mul_100 == 100,
            r.opacity == 100,
            r.profiles@.len() == 0,
            r.show_headerbar,
            !r.use_bright_bold,
            r.syntax_theme_dark@ == "COSMIC Dark"@,
            r.syntax_theme_light@ == "COSMIC Light"@,
            !r.focus_follow_mouse,
            r.default_profile is None,
            r.wf(),
    {
        Config {
            app_theme: AppTheme::System,
            color_schemes_dark: Vec::new(),
            color_schemes_light: Vec::new(),
            font_name: "Fira Mono".to_owned(),
            font_size: 14,
            font_weight: 400,
            dim_font_weight: 400,
            bold_font_weight: 700,
            font_stretch: 5,
            font_size_zoom_step_mul_100: 100,
            opacity: 100,
            profiles: Vec::new(),
            show_headerbar: true,
            use_bright_bold: false,
            syntax_theme_dark: "COSMIC Dark".to_owned(),
            syntax_theme_light: "COSMIC Light".to_owned(),
            focus_follow_mouse: false,
            default_profile: None,
        }
    }

    /// The scheme table of a kind.
    pub fn color_schemes(&self, kind: ColorSchemeKind) -> (r: &Vec<(ColorSchemeId, ColorScheme)>)
        ensures
            kind == ColorSchemeKind::Dark ==> r == &self.color_schemes_dark,
            kind == ColorSchemeKind::Light ==> r == &self.color_schemes_light,
    {
        match kind {
            ColorSchemeKind::Dark => &self.color_schemes_dark,
            ColorSchemeKind::Light => &self.color_schemes_light,
        }
    }

    /// The scheme table of a kind, for modification.
    pub fn color_schemes_mut(&mut self, kind: ColorSchemeKind) -> (r: &mut Vec<
        (ColorSchemeId, ColorScheme),
    >)
        ensures
            kind == ColorSchemeKind::Dark ==> *r == old(self).color_schemes_dark && *final(self)
                == (Config { color_schemes_dark: *final(r), ..*old(self) }),
            kind == ColorSchemeKind::Light ==> *r == old(self).color_schemes_light
                && *final(self) == (Config { color_schemes_light: *final(r), ..*old(self) }),
    {
        match kind {
            ColorSchemeKind::Dark => &mut self.color_schemes_dark,
            ColorSchemeKind::Light => &mut self.color_schemes_light,
        }
    }

    /// Which scheme kind the theme choice selects, given the system-wide
    /// dark-mode preference.
    pub fn color_scheme_kind(&self, system_prefers_dark: bool) -> (r: ColorSchemeKind)
        ensures
            r == (if (match self.app_theme {
                AppTheme::Dark => true,
                AppTheme::Light => false,
                AppTheme::System => system_prefers_dark,
            }) {
                ColorSchemeKind::Dark
            } else {
                ColorSchemeKind::Light
            }),
    {
        if self.app_theme.prefers_dark(system_prefers_dark) {
            ColorSchemeKind::Dark
        } else {
            ColorSchemeKind::Light
        }
    }

    /// The font metrics for a zoom adjustment.
    pub fn metrics(&self, zoom_adj: i8) -> (m: Metrics)
        ensures
            m.font_size_centi == spec_font_size_centi(
                self.font_size as int,
                self.font_size_zoom_step_mul_100 as int,
                zoom_adj as int,
            ),
            m.line_height == spec_line_height(m.font_size_centi as int),
    {
        proof {
            assert(-0x80_0000 <= zoom_adj as int * (self.font_size_zoom_step_mul_100 as int)
                <= 0x80_0000) by (nonlinear_arith)
                requires
                    -128 <= (zoom_adj as int) <= 127,
                    0 <= (self.font_size_zoom_step_mul_100 as int) <= 65535,
            ;
        }
        let base: i64 = if (self.font_size as i64) * 100 < 100 {
            100
        } else {
            (self.font_size as i64) * 100
        };
        let adjusted: i64 = base + (zoom_adj as i64) * (self.font_size_zoom_step_mul_100 as i64);
        let fs: i64 = if adjusted < 100 {
            100
        } else {
            adjusted
        };
        let lh: i64 = (fs * 14 + 999) / 1000;
        Metrics { font_size_centi: fs as u32, line_height: lh as u32 }
    }

    /// The profile stored under an identifier.
    pub fn profile(&self, id: ProfileId) -> (r: Option<&Profile>)
        ensures
            match spec_find_profile(self.profiles@, id) {
                Some(p) => r matches Some(q) && *q == p,
                None => r is None,
            },
    {
        let mut i: usize = 0;
        proof {
            assert(self.profiles@.skip(0) =~= self.profiles@);
        }
        while i < self.profiles.len()
            invariant
                0 <= i <= self.profiles@.len(),
                spec_find_profile(self.profiles@, id) == spec_find_profile(
                    self.profiles@.skip(i as int),
                    id,
                ),
            decreases self.profiles@.len() - i,
        {
            proof {
                assert(self.profiles@.skip(i as int)[0] == self.profiles@[i as int]);
                assert(self.profiles@.skip(i as int).drop_first() =~= self.profiles@.skip(
                    i as int + 1,
                ));
            }
            if self.profiles[i].0 == id {
                return Some(&self.profiles[i].1);
            }
            i += 1;
        }
        proof {
            assert(self.profiles@.skip(self.profiles@.len() as int) =~= Seq::<
                (ProfileId, Profile),
            >::empty());
        }
        None
    }

    /// The syntax theme to use: the profile's theme for the active scheme
    /// kind when the profile exists, else the configuration's own.
    pub fn syntax_theme(&self, profile_id_opt: Option<ProfileId>, system_prefers_dark: bool) -> (r:
        (String, ColorSchemeKind))
        ensures
            r.1 == (if (match self.app_theme {
                AppTheme::Dark => true,
                AppTheme::Light => false,
                AppTheme::System => system_prefers_dark,
            }) {
                ColorSchemeKind::Dark
            } else {
                ColorSchemeKind::Light
            }),
            r.0@ == (match (match profile_id_opt {
                Some(id) => spec_find_profile(self.profiles@, id),
                None => None,
            }) {
                Some(p) => if r.1 == ColorSchemeKind::Dark {
                    p.syntax_theme_dark@
                } else {
                    p.syntax_theme_light@
                },
                None => if r.1 == ColorSchemeKind::Dark {
                    self.syntax_theme_dark@
                } else {
                    self.syntax_theme_light@
                },
            }),
    {
        let kind = self.color_scheme_kind(system_prefers_dark);
        let profile_opt = match profile_id_opt {
            Some(id) => self.profile(id),
            None => None,
        };
        let name = match profile_opt {
            Some(profile) => {
                match kind {
                    ColorSchemeKind::Dark => profile.syntax_theme_dark.clone(),
                    ColorSchemeKind::Light => profile.syntax_theme_light.clone(),
                }
            },
            None => {
                match kind {
                    ColorSchemeKind::Dark => self.syntax_theme_dark.clone(),
                    ColorSchemeKind::Light => self.syntax_theme_light.clone(),
                }
            },
        };
        (name, kind)
    }

    /// The configured font stretch as its width class. A width number
    /// outside the classes is a configuration error, excluded by the
    /// precondition.
    pub fn typed_font_stretch(&self) -> (r: FontStretch)
        requires
            1 <= self.font_stretch <= 9,
        ensures
            spec_stretch_number(r) == self.font_stretch,
    {
        if self.font_stretch == 1 {
            FontStretch::UltraCondensed
        } else if self.font_stretch == 2 {
            FontStretch::ExtraCondensed
        } else if self.font_stretch == 3 {
            FontStretch::Condensed
        } else if self.font_stretch == 4 {
            FontStretch::SemiCondensed
        } else if self.font_stretch == 5 {
            FontStretch::Normal
        } else if self.font_stretch == 6 {
            FontStretch::SemiExpanded
        } else if self.font_stretch == 7 {
            FontStretch::Expanded
        } else if self.font_stretch == 8 {
            FontStretch::ExtraExpanded
        } else {
            FontStretch::UltraExpanded
        }
    }
}

impl Default for Config {
    /// The default configuration.
    fn default() -> (r: Config)
        ensures
            r.app_theme == AppTheme::System,
            r.color_schemes_dark@.len() == 0,
            r.color_schemes_light@.len() == 0,
            r.font_name@ == "Fira Mono"@,
            r.font_size == 14,
            r.font_weight == 400,
            r.dim_font_weight == 400,
            r.bold_font_weight == 700,
            r.font_stretch == 5,
            r.font_size_zoom_step_mul_100 == 100,
            r.opacity == 100,
            r.profiles@.len() == 0,
            r.show_headerbar,
            !r.use_bright_bold,
            r.syntax_theme_dark@ == "COSMIC Dark"@,
            r.syntax_theme_light@ == "COSMIC Light"@,
            !r.focus_follow_mouse,
            r.default_profile is None,
            r.wf(),
    {
        Config::new_default()
    }
}

} // verus!
