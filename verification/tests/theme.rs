use mdr::names::NameMap;
use mdr::theme::{
    default_theme, find_theme, parse_hex, resolve_themes, Color, LabelsConfig, ThemeConfig,
    UiConfig,
};

fn palette(entries: &[(&str, &str)]) -> NameMap<String> {
    let mut colors = NameMap::new();
    for (name, hex) in entries {
        colors.insert(name.to_string(), hex.to_string());
    }
    colors
}

fn named(name: &str) -> Option<String> {
    Some(name.to_string())
}

#[test]
fn resolves_configurable_semantic_roles() {
    let config = ThemeConfig {
        colors: palette(&[
            ("panel", "#010203"),
            ("accent", "#040506"),
            ("selection", "#070809"),
            ("key", "#0a0b0c"),
        ]),
        ui: Some(UiConfig {
            background: named("panel"),
            picker_accent: named("accent"),
            selection: named("selection"),
            key: named("key"),
            ..UiConfig::default()
        }),
        labels: None,
    };

    let theme = config.resolve(&default_theme());

    assert_eq!(theme.background, Color::Rgb(1, 2, 3));
    assert_eq!(theme.picker_accent, Color::Rgb(4, 5, 6));
    assert_eq!(theme.selection, Color::Rgb(7, 8, 9));
    assert_eq!(theme.key, Color::Rgb(10, 11, 12));
}

#[test]
fn tokyo_night_moon_uses_distinct_core_roles() {
    let config = ThemeConfig {
        colors: palette(&[
            ("magenta", "#c099ff"),
            ("blue", "#82aaff"),
            ("cyan", "#86e1fc"),
            ("green", "#c3e88d"),
        ]),
        ui: Some(UiConfig {
            accent: named("magenta"),
            selection: named("blue"),
            key: named("cyan"),
            ..UiConfig::default()
        }),
        labels: Some(LabelsConfig { features: named("green"), ..LabelsConfig::default() }),
    };
    let theme = config.resolve(&default_theme());

    assert_eq!(theme.accent, Color::Rgb(192, 153, 255));
    assert_eq!(theme.selection, Color::Rgb(130, 170, 255));
    assert_eq!(theme.key, Color::Rgb(134, 225, 252));
    assert_eq!(theme.labels.features, Color::Rgb(195, 232, 141));
    assert_ne!(theme.accent, theme.selection);
    assert_ne!(theme.selection, theme.key);
}

#[test]
fn conventional_palette_names_fill_unset_roles() {
    let config = ThemeConfig {
        colors: palette(&[("bg", "#101010"), ("yellow", "#ffff00"), ("cyan", "#00ffff")]),
        ui: None,
        labels: None,
    };
    let base = default_theme();
    let theme = config.resolve(&base);
    assert_eq!(theme.background, Color::Rgb(16, 16, 16));
    // bg_dark and bg_dark1 are missing, so those roles keep the base colours.
    assert_eq!(theme.background_dark, base.background_dark);
    assert_eq!(theme.background_deep, base.background_deep);
    assert_eq!(theme.picker_recent, Color::Rgb(255, 255, 0));
    assert_eq!(theme.key, Color::Rgb(0, 255, 255));
    // blue is missing: the selection keeps the base colour.
    assert_eq!(theme.selection, base.selection);
    assert_eq!(theme.border, base.border);
    assert_eq!(theme.picker_border, base.picker_border);
}

#[test]
fn unknown_or_bad_colours_fall_back() {
    let config = ThemeConfig {
        colors: palette(&[("bad", "112233"), ("short", "#12345")]),
        ui: Some(UiConfig {
            accent: named("bad"),
            text: named("short"),
            error: named("missing"),
            ..UiConfig::default()
        }),
        labels: None,
    };
    let base = default_theme();
    let theme = config.resolve(&base);
    assert_eq!(theme.accent, base.accent);
    assert_eq!(theme.text, base.text);
    assert_eq!(theme.error, base.error);
    // Every role without a colour keeps the base colour.
    assert_eq!(theme, base);
}

#[test]
fn empty_theme_file_gives_the_base_theme() {
    let base = default_theme();
    assert_eq!(ThemeConfig::default().resolve(&base), base);
    let mut other = base;
    other.background_dark = Color::Rgb(1, 1, 1);
    other.picker_border = Color::Rgb(2, 2, 2);
    assert_eq!(ThemeConfig::default().resolve(&other), other);
}

#[test]
fn parse_hex_reads_rgb() {
    assert_eq!(parse_hex("#c099ff"), Some(Color::Rgb(192, 153, 255)));
    assert_eq!(parse_hex("#C099FF"), Some(Color::Rgb(192, 153, 255)));
    // Only hex digits are accepted: no signs.
    assert_eq!(parse_hex("#+1+2+3"), None);
    assert_eq!(parse_hex("#+f+f+f"), None);
    assert_eq!(parse_hex("#82aaff00"), None);
    assert_eq!(parse_hex("c099ff"), None);
    assert_eq!(parse_hex("#c099f"), None);
    assert_eq!(parse_hex("#c099fg"), None);
    assert_eq!(parse_hex("#é1234"), None);
}

#[test]
fn colour_text_with_wide_characters_is_not_a_colour() {
    assert_eq!(parse_hex("#aé123"), None);
    assert_eq!(parse_hex("#a€bc"), None);
    let config = ThemeConfig {
        colors: palette(&[("accent", "#aé123")]),
        ui: Some(UiConfig { accent: named("accent"), ..UiConfig::default() }),
        labels: None,
    };
    assert_eq!(config.resolve(&default_theme()).accent, default_theme().accent);
}

#[test]
fn resolve_themes_without_files_gives_default() {
    let themes = resolve_themes(&NameMap::new());
    assert_eq!(themes.len(), 1);
    assert_eq!(themes[0].0, "default");
    assert_eq!(themes[0].1, default_theme());
}

#[test]
fn resolve_themes_lists_files_in_name_order() {
    let mut configs = NameMap::new();
    configs.insert("zeta".to_string(), ThemeConfig::default());
    configs.insert("alpha".to_string(), ThemeConfig {
        colors: palette(&[("bg", "#000000")]),
        ui: None,
        labels: None,
    });
    let themes = resolve_themes(&configs);
    let names: Vec<&str> = themes.iter().map(|(n, _)| n.as_str()).collect();
    assert_eq!(names, vec!["alpha", "zeta"]);
    assert_eq!(themes[0].1.background, Color::Rgb(0, 0, 0));
    assert_eq!(themes[1].1, ThemeConfig::default().resolve(&default_theme()));
}

#[test]
fn find_theme_returns_first_match() {
    let t = default_theme();
    let themes = vec![("a".to_string(), t), ("b".to_string(), t), ("b".to_string(), t)];
    assert_eq!(find_theme(&themes, "b").map(|(i, _)| i), Some(1));
    assert!(find_theme(&themes, "c").is_none());
}

#[test]
fn default_theme_is_tokyo_night_moon() {
    let t = default_theme();
    assert_eq!(t.background, Color::Rgb(34, 36, 54));
    assert_eq!(t.picker_recent, Color::Rgb(255, 199, 119));
    assert_eq!(t.labels.experiment, Color::Rgb(255, 150, 108));
}
