//! Menu actions, context pages and the application theme choice: the plain
//! values behind the host application's menus and settings.

use vstd::prelude::*;

use crate::profile::ProfileId;
use crate::scheme::ColorSchemeKind;

verus! {

/// An accelerator or menu action of the host application.
#[derive(Clone, Copy, Debug, PartialEq, Eq, Structural)]
pub enum Action {
    About,
    ColorSchemes(ColorSchemeKind),
    Copy,
    CopyOrSigint,
    Find,
    PaneFocusDown,
    PaneFocusLeft,
    PaneFocusRight,
    PaneFocusUp,
    PaneSplitHorizontal,
    PaneSplitVertical,
    PaneToggleMaximized,
    Paste,
    PastePrimary,
    ProfileOpen(ProfileId),
    Profiles,
    SelectAll,
    Settings,
    ShowHeaderBar(bool),
    TabActivate0,
    TabActivate1,
    TabActivate2,
    TabActivate3,
    TabActivate4,
    TabActivate5,
    TabActivate6,
    TabActivate7,
    TabActivate8,
    TabClose,
    TabNew,
    TabNext,
    TabPrev,
    WindowClose,
    WindowNew,
    ZoomIn,
    ZoomOut,
    ZoomReset,
}

/// A context drawer page of the host application.
#[derive(Clone, Copy, Debug, PartialEq, Eq, Structural)]
pub enum ContextPage {
    About,
    ColorSchemes(ColorSchemeKind),
    Profiles,
    Settings,
}

impl ContextPage {
    /// The title of the page, as a localization key; the About page has
    /// none. The host resolves the key to the user's language.
    pub fn title(&self) -> (r: String)
        ensures
            *self == ContextPage::About ==> r@ == Seq::<char>::empty(),
            (*self matches ContextPage::ColorSchemes(_)) ==> r@ == "color-schemes"@,
            *self == ContextPage::Profiles ==> r@ == "profiles"@,
            *self == ContextPage::Settings ==> r@ == "settings"@,
    {
        match self {
            ContextPage::About => String::new(),
            ContextPage::ColorSchemes(_) => "color-schemes".to_owned(),
            ContextPage::Profiles => "profiles".to_owned(),
            ContextPage::Settings => "settings".to_owned(),
        }
    }
}

/// The application-wide theme choice.
#[derive(Clone, Copy, Debug, PartialEq, Eq, Hash, Structural)]
pub enum AppTheme {
    Dark,
    Light,
    System,
}

impl AppTheme {
    /// Whether the theme prefers dark colors, given the system-wide
    /// preference; the system mapping itself belongs to the host theme
    /// service.
    pub fn prefers_dark(&self, system_prefers_dark: bool) -> (r: bool)
        ensures
            r == (match *self {
                AppTheme::Dark => true,
                AppTheme::Light => false,
                AppTheme::System => system_prefers_dark,
            }),
    {
        match self {
            AppTheme::Dark => true,
            AppTheme::Light => false,
            AppTheme::System => system_prefers_dark,
        }
    }
}

} // verus!
