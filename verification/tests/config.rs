use mdr::config::{catalog_entries, collect_theme_configs, config_dir_for, config_path_for, config_root_for, theme_paths_from_entries};
use mdr::config::{
    catalog_theme_paths, config_dir_under, config_or_default, config_path_under, config_root_under, configured_theme_name_in, default_scrollbar,
    expand_home, record_theme_config, theme_files, theme_name, Config,
};
use mdr::names::NameMap;
use mdr::theme::ThemeConfig;

#[test]
fn default_scrollbar_is_on() {
    assert!(default_scrollbar());
    let fallback = config_or_default(None);
    assert!(fallback.scrollbar && fallback.theme.is_none() && fallback.theme_catalog.is_none());
    let given = Config { theme: Some("x".into()), theme_catalog: None, scrollbar: false };
    let kept = config_or_default(Some(given));
    assert_eq!(kept.theme.as_deref(), Some("x"));
    assert!(!kept.scrollbar);
    assert!(!Config::default().scrollbar);
}

#[test]
fn expand_home_replaces_leading_tilde() {
    assert_eq!(expand_home("/home/u", "~/themes/a.toml"), "/home/u/themes/a.toml");
    assert_eq!(expand_home("/home/u", "/etc/a.toml"), "/etc/a.toml");
    assert_eq!(expand_home("/home/u", "~x/a.toml"), "~x/a.toml");
    assert_eq!(expand_home("", "~/a.toml"), "a.toml");
    assert_eq!(expand_home("/home/u", "~//abs.toml"), "/abs.toml");
}

#[test]
fn theme_name_uses_stem_with_spaces() {
    assert_eq!(theme_name("/t/tokyo-night-moon.toml"), "tokyo night moon");
    assert_eq!(theme_name("/t/plain"), "plain");
    assert_eq!(theme_name("/"), "theme");
    assert_eq!(theme_name("/t/.."), "theme");
    assert_eq!(theme_name(".dot-file"), ".dot file");
}

#[test]
fn configured_theme_name_expands_home() {
    let config = Config { theme: Some("~/t/solar-light.toml".into()), theme_catalog: None, scrollbar: true };
    assert_eq!(configured_theme_name_in(&config, "/home/u").as_deref(), Some("solar light"));
    assert!(configured_theme_name_in(&Config::default(), "/home/u").is_none());
}

#[test]
fn catalog_lists_string_entries_of_themes_array() {
    let text = "themes = [\"~/t/a.toml\", 3, \"/abs/b.toml\"]\nother = 1\n";
    assert_eq!(catalog_theme_paths(text, "/home/u"), vec!["/home/u/t/a.toml", "/abs/b.toml"]);
    assert!(catalog_theme_paths("themes = \"x\"", "/h").is_empty());
    assert!(catalog_theme_paths("not toml [[", "/h").is_empty());
    assert!(catalog_theme_paths("", "/h").is_empty());
}

#[test]
fn selected_theme_is_loaded_after_catalog() {
    let config = Config { theme: Some("~/sel.toml".into()), theme_catalog: Some("c.toml".into()), scrollbar: true };
    let files = theme_files(&config, "/h", vec!["/t/a.toml".to_string()]);
    assert_eq!(files, vec!["/t/a.toml", "/h/sel.toml"]);
    let none = Config::default();
    assert_eq!(theme_files(&none, "/h", vec![]), Vec::<String>::new());
}

#[test]
fn recorded_theme_files_are_keyed_by_name() {
    let mut themes: NameMap<ThemeConfig> = NameMap::new();
    record_theme_config(&mut themes, "/t/synthetic-theme.toml", Some(ThemeConfig::default()));
    record_theme_config(&mut themes, "/t/unreadable.toml", None);
    record_theme_config(&mut themes, "/other/synthetic-theme.toml", Some(ThemeConfig::default()));
    assert_eq!(themes.len(), 1);
    assert_eq!(themes.entry(0).0, "synthetic theme");
}

#[test]
fn config_file_lives_under_dot_config() {
    assert_eq!(config_root_under("/home/u"), "/home/u/.config");
    assert_eq!(config_dir_under("/home/u/"), "/home/u/.config/mdr");
    assert_eq!(config_path_under("/home/u"), "/home/u/.config/mdr/config.toml");
}

#[test]
fn catalog_entries_keep_item_kinds() {
    let entries = catalog_entries("themes = [\"~/a.toml\", true, \"b.toml\"]");
    assert_eq!(entries, vec![Some("~/a.toml".to_string()), None, Some("b.toml".to_string())]);
    assert_eq!(theme_paths_from_entries(&entries, "/h"), vec!["/h/a.toml", "b.toml"]);
}

/// The theme files of the catalog test as they would be read from disk.
fn read_theme(path: &str) -> Option<ThemeConfig> {
    let hex = if path.ends_with("synthetic-theme.toml") {
        "#112233"
    } else if path.ends_with("unlisted.toml") {
        "#abcdef"
    } else {
        return None;
    };
    let mut config = ThemeConfig::default();
    config.colors.insert("accent".to_string(), hex.to_string());
    Some(config)
}

#[test]
fn catalog_loads_only_explicit_theme_paths() {
    // Only the catalog's entry and the selected theme are looked up; `unlisted.toml`,
    // which sits in the same directory, is not.
    let themes_dir = "/synthetic/root/themes";
    let listed = format!("{themes_dir}/synthetic-theme.toml");
    let catalog = format!("themes = [\"{listed}\"]\n");
    let config = Config {
        theme: Some(listed.clone()),
        theme_catalog: Some("/synthetic/root/catalog.toml".to_string()),
        scrollbar: true,
    };
    let files = theme_files(&config, "/home/u", catalog_theme_paths(&catalog, "/home/u"));
    let mut themes: NameMap<ThemeConfig> = NameMap::new();
    for path in &files {
        record_theme_config(&mut themes, path, read_theme(path));
    }
    assert_eq!(themes.len(), 1);
    let theme = themes.get("synthetic theme").unwrap();
    assert_eq!(theme.colors.get("accent").map(String::as_str), Some("#112233"));
}

#[test]
fn config_paths_need_a_home_directory() {
    assert_eq!(config_root_for(Some("/home/u")).as_deref(), Some("/home/u/.config"));
    assert_eq!(config_dir_for(Some("/home/u")).as_deref(), Some("/home/u/.config/mdr"));
    assert_eq!(config_path_for(Some("/home/u")).as_deref(), Some("/home/u/.config/mdr/config.toml"));
    assert_eq!(config_root_for(None), None);
    assert_eq!(config_dir_for(None), None);
    assert_eq!(config_path_for(None), None);
}

#[test]
fn selected_theme_file_overrides_catalog_file_of_the_same_name() {
    let mut catalog_theme = ThemeConfig::default();
    catalog_theme.colors.insert("accent".to_string(), "#000000".to_string());
    let mut selected = ThemeConfig::default();
    selected.colors.insert("accent".to_string(), "#ffffff".to_string());
    let config = Config { theme: Some("~/mine/night-owl.toml".into()), theme_catalog: None, scrollbar: true };
    let paths = theme_files(&config, "/home/u", vec!["/t/night-owl.toml".to_string(), "/t/broken.toml".to_string()]);
    let files = vec![
        (paths[0].clone(), Some(catalog_theme)),
        (paths[1].clone(), None),
        (paths[2].clone(), Some(selected)),
    ];
    let themes = collect_theme_configs(files);
    assert_eq!(themes.len(), 1);
    let name = configured_theme_name_in(&config, "/home/u").unwrap();
    assert_eq!(name, "night owl");
    let loaded = themes.get(&name).unwrap();
    assert_eq!(loaded.colors.get("accent").map(String::as_str), Some("#ffffff"));
    assert_eq!(collect_theme_configs(Vec::new()).len(), 0);
}
