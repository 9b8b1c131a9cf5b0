//! Shell profiles: the command, working directory and syntax themes a tab is
//! opened with.

use vstd::prelude::*;

verus! {

/// The identifier of a stored profile.
#[derive(Clone, Copy, Debug, PartialEq, Eq, PartialOrd, Ord, Hash, Structural)]
pub struct ProfileId(pub u64);

impl ProfileId {
    /// The zero identifier.
    pub fn zero() -> (r: ProfileId)
        ensures
            r == (ProfileId { 0: 0u64 }),
    {
        ProfileId(0)
    }
}

/// One shell profile. `name` holds the display name; a fresh profile is
/// named by the localization key `new-profile`, which the host resolves to
/// the user's language.
#[derive(Clone, Debug, PartialEq, Eq)]
pub struct Profile {
    pub name: String,
    pub command: String,
    pub syntax_theme_dark: String,
    pub syntax_theme_light: String,
    pub tab_title: String,
    pub working_directory: String,
    pub hold: bool,
}

impl Profile {
    /// A fresh profile: the default syntax themes, no command or directory,
    /// and no hold-on-exit.
    pub fn new_default() -> (r: Profile)
        ensures
            r.name@ == "new-profile"@,
            r.command@ == Seq::<char>::empty(),
            r.syntax_theme_dark@ == "COSMIC Dark"@,
            r.syntax_theme_light@ == "COSMIC Light"@,
            r.tab_title@ == Seq::<char>::empty(),
            r.working_directory@ == Seq::<char>::empty(),
            !r.hold,
    {
        Profile {
            name: "new-profile".to_owned(),
            command: String::new(),
            syntax_theme_dark: "COSMIC Dark".to_owned(),
            syntax_theme_light: "COSMIC Light".to_owned(),
            tab_title: String::new(),
            working_directory: String::new(),
            hold: false,
        }
    }
}

impl Default for Profile {
    /// The fresh profile.
    fn default() -> (r: Profile)
        ensures
            r.name@ == "new-profile"@,
            r.command@ == Seq::<char>::empty(),
            r.syntax_theme_dark@ == "COSMIC Dark"@,
            r.syntax_theme_light@ == "COSMIC Light"@,
            r.tab_title@ == Seq::<char>::empty(),
            r.working_directory@ == Seq::<char>::empty(),
            !r.hold,
    {
        Profile::new_default()
    }
}

} // verus!
