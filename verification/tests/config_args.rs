use term_surface::{
    parse_args, AppTheme, ColorScheme, ColorSchemeAnsi, ColorSchemeId, ColorSchemeKind, Config,
    ContextPage, FontStretch, Profile, ProfileId, Rgba,
};

#[test]
fn default_config_values() {
    let c = Config::new_default();
    assert_eq!(c.app_theme, AppTheme::System);
    assert_eq!(c.font_name, "Fira Mono");
    assert_eq!(c.font_size, 14);
    assert_eq!(c.font_weight, 400);
    assert_eq!(c.bold_font_weight, 700);
    assert_eq!(c.font_stretch, 5);
    assert_eq!(c.opacity, 100);
    assert!(c.show_headerbar);
    assert_eq!(c.syntax_theme_dark, "COSMIC Dark");
    assert_eq!(c.syntax_theme_light, "COSMIC Light");
    assert!(c.profiles.is_empty());
    assert!(c.default_profile.is_none());
}

#[test]
fn metrics_from_font_size() {
    let c = Config::new_default();
    // size 14: line height is 14 * 1.4 = 19.6, rounded up to 20
    let m = c.metrics(0);
    assert_eq!(m.font_size_centi, 1400);
    assert_eq!(m.line_height, 20);
    // one zoom step of 1.00 up: size 15, line height ceil(21.0) = 21
    let up = c.metrics(1);
    assert_eq!(up.font_size_centi, 1500);
    assert_eq!(up.line_height, 21);
    // zooming far down floors the size at 1.00
    let down = c.metrics(-128);
    assert_eq!(down.font_size_centi, 100);
    assert_eq!(down.line_height, 2);
}

#[test]
fn scheme_kind_follows_theme_and_system() {
    let mut c = Config::new_default();
    assert_eq!(c.color_scheme_kind(true), ColorSchemeKind::Dark);
    assert_eq!(c.color_scheme_kind(false), ColorSchemeKind::Light);
    c.app_theme = AppTheme::Dark;
    assert_eq!(c.color_scheme_kind(false), ColorSchemeKind::Dark);
    c.app_theme = AppTheme::Light;
    assert_eq!(c.color_scheme_kind(true), ColorSchemeKind::Light);
}

#[test]
fn scheme_tables_select_by_kind() {
    let mut c = Config::new_default();
    let scheme = ColorScheme {
        name: "Night".to_owned(),
        ..ColorScheme::empty()
    };
    c.color_schemes_mut(ColorSchemeKind::Dark)
        .push((ColorSchemeId(7), scheme.clone()));
    assert_eq!(c.color_schemes(ColorSchemeKind::Dark).len(), 1);
    assert!(c.color_schemes(ColorSchemeKind::Light).is_empty());
    assert_eq!(c.color_schemes(ColorSchemeKind::Dark)[0].0, ColorSchemeId(7));
}

#[test]
fn syntax_theme_prefers_profile() {
    let mut c = Config::new_default();
    let profile = Profile {
        name: "work".to_owned(),
        syntax_theme_dark: "Gruvbox".to_owned(),
        ..Profile::new_default()
    };
    c.profiles.push((ProfileId(1), profile));
    let (name, kind) = c.syntax_theme(Some(ProfileId(1)), true);
    assert_eq!(kind, ColorSchemeKind::Dark);
    assert_eq!(name, "Gruvbox");
    let (fallback, _) = c.syntax_theme(Some(ProfileId(9)), true);
    assert_eq!(fallback, "COSMIC Dark");
    let (none, _) = c.syntax_theme(None, false);
    assert_eq!(none, "COSMIC Light");
}

#[test]
fn typed_font_stretch_round_trips() {
    let mut c = Config::new_default();
    assert_eq!(c.typed_font_stretch(), FontStretch::Normal);
    c.font_stretch = 1;
    assert_eq!(c.typed_font_stretch(), FontStretch::UltraCondensed);
    c.font_stretch = 9;
    assert_eq!(c.typed_font_stretch(), FontStretch::UltraExpanded);
    assert_eq!(c.typed_font_stretch().to_number(), 9);
}

#[test]
fn ansi_band_emptiness() {
    let mut band = ColorSchemeAnsi::empty();
    assert!(band.is_empty());
    band.red = Some(Rgba { r: 255, g: 0, b: 0, a: 255 });
    assert!(!band.is_empty());
}

#[test]
fn profile_defaults() {
    let p = Profile::new_default();
    assert_eq!(p.name, "new-profile");
    assert_eq!(p.syntax_theme_dark, "COSMIC Dark");
    assert_eq!(p.syntax_theme_light, "COSMIC Light");
    assert!(p.command.is_empty());
    assert!(!p.hold);
}

#[test]
fn context_page_titles_are_localization_keys() {
    assert_eq!(ContextPage::About.title(), "");
    assert_eq!(
        ContextPage::ColorSchemes(ColorSchemeKind::Dark).title(),
        "color-schemes"
    );
    assert_eq!(ContextPage::Profiles.title(), "profiles");
    assert_eq!(ContextPage::Settings.title(), "settings");
}

fn strings(items: &[&str]) -> Vec<String> {
    items.iter().map(|s| s.to_string()).collect()
}

#[test]
fn args_split_flags_and_command() {
    let r = parse_args(strings(&["--no-daemon", "-e", "bash", "-l"]));
    assert!(!r.daemonize);
    assert_eq!(r.shell_program.as_deref(), Some("bash"));
    assert_eq!(r.shell_args, strings(&["-l"]));
    assert!(r.ignored.is_empty());
}

#[test]
fn args_unknown_flags_are_collected() {
    let r = parse_args(strings(&["--bogus", "--", "sh"]));
    assert!(r.daemonize);
    assert_eq!(r.ignored, strings(&["--bogus"]));
    assert_eq!(r.shell_program.as_deref(), Some("sh"));
    assert!(r.shell_args.is_empty());
}

#[test]
fn args_flags_after_terminator_go_to_the_shell() {
    let r = parse_args(strings(&["--command", "vi", "--no-daemon"]));
    assert!(r.daemonize);
    assert_eq!(r.shell_program.as_deref(), Some("vi"));
    assert_eq!(r.shell_args, strings(&["--no-daemon"]));
}

#[test]
fn args_empty_line() {
    let r = parse_args(Vec::new());
    assert!(r.daemonize);
    assert!(r.shell_program.is_none());
    assert!(r.shell_args.is_empty());
    assert!(r.ignored.is_empty());
}
