//! User configuration: where it lives, its fallback values, and how the theme files it
//! names are found, named and collected.

use vstd::prelude::*;
use crate::names::{NameMap, law_lookup_after_insert, lemma_insert_sorted, lookup, names_sorted, spec_insert};
use crate::path::{join_path, spec_join, file_stem, spec_file_stem, opt_view};
use crate::recent::strings_view;
use crate::text::{chars_of, has_prefix, starts_with, string_from_chars, string_from_range};
use crate::theme::{ThemeConfig, name_view};

verus! {

/// The configuration file (`~/.config/mdr/config.toml`).
pub struct Config {
    /// Path of the selected theme file.
    pub theme: Option<String>,
    /// Path of a catalog file that lists the theme files offered in the picker.
    pub theme_catalog: Option<String>,
    /// Whether the reader shows a scrollbar.
    pub scrollbar: bool,
}

impl Default for Config {
    /// No theme, no catalog, no scrollbar.
    fn default() -> (c: Self)
        ensures
            c.theme is None,
            c.theme_catalog is None,
            !c.scrollbar,
    {
        Config { theme: None, theme_catalog: None, scrollbar: false }
    }
}

/// The scrollbar setting when the configuration file does not give one.
pub fn default_scrollbar() -> (b: bool)
    ensures
        b,
{
    true
}

/// The configuration read from the file, or, when there is none that parses, the
/// configuration with no theme, no catalog and the scrollbar shown.
pub fn config_or_default(parsed: Option<Config>) -> (c: Config)
    ensures
        match parsed {
            Some(p) => c == p,
            None => c.theme is None && c.theme_catalog is None && c.scrollbar,
        },
{
    match parsed {
        Some(p) => p,
        None => Config { scrollbar: true, ..Default::default() },
    }
}

/// The user's home directory, as `dirs::home_dir` finds it.
///
/// Trusted: `dirs::home_dir` reads the environment and the user database, so nothing is
/// stated of its result; a path that is not valid Unicode is converted lossily.
#[verifier::external_body]
fn home_dir() -> (r: Option<String>) {
    dirs::home_dir().map(|p| p.to_string_lossy().into_owned())
}

/// The home directory, or the empty path when it cannot be found.
pub fn home_or_empty() -> (h: String) {
    match home_dir() {
        Some(h) => h,
        None => String::new(),
    }
}

pub open spec fn dot_config() -> Seq<char> {
    seq!['.', 'c', 'o', 'n', 'f', 'i', 'g']
}

pub open spec fn app_dir_name() -> Seq<char> {
    seq!['m', 'd', 'r']
}

pub open spec fn config_file_name() -> Seq<char> {
    seq!['c', 'o', 'n', 'f', 'i', 'g', '.', 't', 'o', 'm', 'l']
}

pub open spec fn spec_config_root(home: Seq<char>) -> Seq<char> {
    spec_join(home, dot_config())
}

pub open spec fn spec_config_dir(home: Seq<char>) -> Seq<char> {
    spec_join(spec_config_root(home), app_dir_name())
}

pub open spec fn spec_config_path(home: Seq<char>) -> Seq<char> {
    spec_join(spec_config_dir(home), config_file_name())
}

/// `.config` under the home directory `home`.
pub fn config_root_under(home: &str) -> (r: String)
    ensures
        r@ == spec_config_root(home@),
{
    let name = string_from_chars(&vec!['.', 'c', 'o', 'n', 'f', 'i', 'g']);
    join_path(home, name.as_str())
}

/// `.config/mdr` under the home directory `home`.
pub fn config_dir_under(home: &str) -> (r: String)
    ensures
        r@ == spec_config_dir(home@),
{
    let root = config_root_under(home);
    let name = string_from_chars(&vec!['m', 'd', 'r']);
    join_path(root.as_str(), name.as_str())
}

/// `.config/mdr/config.toml` under the home directory `home`.
pub fn config_path_under(home: &str) -> (r: String)
    ensures
        r@ == spec_config_path(home@),
{
    let dir = config_dir_under(home);
    let name = string_from_chars(&vec!['c', 'o', 'n', 'f', 'i', 'g', '.', 't', 'o', 'm', 'l']);
    join_path(dir.as_str(), name.as_str())
}

/// `.config` under the home directory, or `None` when no home directory is known.
pub fn config_root_for(home: Option<&str>) -> (r: Option<String>)
    ensures
        opt_view(r) == match home {
            Some(h) => Some(spec_config_root(h@)),
            None => None,
        },
{
    match home {
        Some(h) => Some(config_root_under(h)),
        None => None,
    }
}

/// `.config/mdr` under the home directory, or `None` when no home directory is known.
pub fn config_dir_for(home: Option<&str>) -> (r: Option<String>)
    ensures
        opt_view(r) == match home {
            Some(h) => Some(spec_config_dir(h@)),
            None => None,
        },
{
    match home {
        Some(h) => Some(config_dir_under(h)),
        None => None,
    }
}

/// `.config/mdr/config.toml` under the home directory, or `None` when no home directory
/// is known.
pub fn config_path_for(home: Option<&str>) -> (r: Option<String>)
    ensures
        opt_view(r) == match home {
            Some(h) => Some(spec_config_path(h@)),
            None => None,
        },
{
    match home {
        Some(h) => Some(config_path_under(h)),
        None => None,
    }
}

/// `~/.config`, when the home directory is known.
pub fn config_root() -> (r: Option<String>)
    ensures
        r matches Some(p) ==> exists|h: Seq<char>| p@ == spec_config_root(h),
{
    match home_dir() {
        Some(h) => config_root_for(Some(h.as_str())),
        None => config_root_for(None),
    }
}

/// `~/.config/mdr`, when the home directory is known.
pub fn config_dir() -> (r: Option<String>)
    ensures
        r matches Some(p) ==> exists|h: Seq<char>| p@ == spec_config_dir(h),
{
    match home_dir() {
        Some(h) => config_dir_for(Some(h.as_str())),
        None => config_dir_for(None),
    }
}

/// `~/.config/mdr/config.toml`, when the home directory is known.
pub fn config_path() -> (r: Option<String>)
    ensures
        r matches Some(p) ==> exists|h: Seq<char>| p@ == spec_config_path(h),
{
    match home_dir() {
        Some(h) => config_path_for(Some(h.as_str())),
        None => config_path_for(None),
    }
}

/// A configured path with a leading `~/` taken relative to `home`.
pub open spec fn spec_expand_home(home: Seq<char>, configured: Seq<char>) -> Seq<char> {
    if has_prefix(configured, seq!['~', '/']) {
        spec_join(home, configured.skip(2))
    } else {
        configured
    }
}

/// Expands a leading `~/` in a configured path to the home directory.
pub fn expand_home(home: &str, configured_path: &str) -> (r: String)
    ensures
        r@ == spec_expand_home(home@, configured_path@),
{
    let c = chars_of(configured_path);
    let prefix = vec!['~', '/'];
    if starts_with(&c, &prefix) {
        let rest = string_from_range(&c, 2, c.len());
        assert(rest@ =~= configured_path@.skip(2));
        join_path(home, rest.as_str())
    } else {
        String::from_str(configured_path)
    }
}

pub open spec fn dashes_to_spaces(s: Seq<char>) -> Seq<char> {
    s.map_values(|c: char| if c == '-' { ' ' } else { c })
}

/// The display name of a theme file: its file stem with dashes turned into spaces, or
/// `theme` when the path has no file name.
pub open spec fn spec_theme_name(path: Seq<char>) -> Seq<char> {
    match spec_file_stem(path) {
        Some(stem) => dashes_to_spaces(stem),
        None => seq!['t', 'h', 'e', 'm', 'e'],
    }
}

/// The display name of the theme stored at `path`.
pub fn theme_name(path: &str) -> (r: String)
    ensures
        r@ == spec_theme_name(path@),
{
    match file_stem(path) {
        Some(stem) => {
            let c = chars_of(stem.as_str());
            let mut out: Vec<char> = Vec::new();
            let mut i: usize = 0;
            while i < c.len()
                invariant
                    i <= c.len(),
                    out@ == dashes_to_spaces(c@.take(i as int)),
                decreases c.len() - i,
            {
                if c[i] == '-' {
                    out.push(' ');
                } else {
                    out.push(c[i]);
                }
                assert(dashes_to_spaces(c@.take(i + 1)) =~= dashes_to_spaces(c@.take(i as int)).push(
                    if c@[i as int] == '-' { ' ' } else { c@[i as int] },
                ));
                i += 1;
            }
            assert(c@.take(c.len() as int) =~= c@);
            string_from_chars(&out)
        },
        None => string_from_chars(&vec!['t', 'h', 'e', 'm', 'e']),
    }
}

/// The name of the selected theme, with `~/` in its path taken relative to `home`.
pub fn configured_theme_name_in(config: &Config, home: &str) -> (r: Option<String>)
    ensures
        opt_view(r) == match config.theme {
            Some(p) => Some(spec_theme_name(spec_expand_home(home@, p@))),
            None => None,
        },
{
    match &config.theme {
        Some(p) => {
            let full = expand_home(home, p.as_str());
            Some(theme_name(full.as_str()))
        },
        None => None,
    }
}

/// The name of the selected theme.
pub fn configured_theme_name(config: &Config) -> (r: Option<String>)
    ensures
        r is Some <==> config.theme is Some,
        r matches Some(n) ==> exists|h: Seq<char>| n@ == spec_theme_name(
            spec_expand_home(h, config.theme->0@),
        ),
{
    let home = home_or_empty();
    let r = configured_theme_name_in(config, home.as_str());
    proof {
        if r is Some {
            assert(r->0@ == spec_theme_name(spec_expand_home(home@, config.theme->0@)));
        }
    }
    r
}

// ---------------------------------------------------------------------------------------
// The theme catalog, a TOML file such as `themes = ["~/themes/a.toml", ...]`.

#[verifier::external_type_specification]
#[verifier::external_body]
#[verifier::reject_recursive_types(K)]
#[verifier::reject_recursive_types(V)]
pub struct ExTomlMap<K, V>(toml::map::Map<K, V>);

#[verifier::external_type_specification]
#[verifier::external_body]
pub struct ExTomlValue(toml::Value);

/// The table that a TOML document describes, or `None` when it does not parse.
pub uninterp spec fn toml_parse_table(contents: Seq<char>) -> Option<toml::Table>;

/// The value under `key` in a TOML table.
pub uninterp spec fn toml_table_get(table: toml::Table, key: Seq<char>) -> Option<toml::Value>;

/// The items of a TOML value that is an array.
pub uninterp spec fn toml_as_array(value: toml::Value) -> Option<Seq<toml::Value>>;

/// The text of a TOML value that is a string.
pub uninterp spec fn toml_as_str(value: toml::Value) -> Option<Seq<char>>;

/// Parses a TOML document (`toml::Table::from_str`).
///
/// Trusted: the result, as a function of the text alone, is named `toml_parse_table`;
/// a parse error is turned into `None`.
#[verifier::external_body]
fn parse_toml_table(contents: &str) -> (r: Option<toml::Table>)
    ensures
        r == toml_parse_table(contents@),
{
    <toml::Table as std::str::FromStr>::from_str(contents).ok()
}

/// The value under `key` (`toml::map::Map::get`), copied out.
///
/// Trusted: the result is named `toml_table_get` of the table and the key.
#[verifier::external_body]
fn toml_get(table: &toml::Table, key: &str) -> (r: Option<toml::Value>)
    ensures
        r == toml_table_get(*table, key@),
{
    table.get(key).cloned()
}

/// The items of an array value (`toml::Value::as_array`), copied out.
///
/// Trusted: the result is named `toml_as_array` of the value.
#[verifier::external_body]
fn toml_array(value: &toml::Value) -> (r: Option<Vec<toml::Value>>)
    ensures
        match r {
            Some(v) => toml_as_array(*value) == Some(v@),
            None => toml_as_array(*value) is None,
        },
{
    value.as_array().cloned()
}

/// The text of a string value (`toml::Value::as_str`), copied out.
///
/// Trusted: the result is named `toml_as_str` of the value.
#[verifier::external_body]
fn toml_str(value: &toml::Value) -> (r: Option<String>)
    ensures
        name_view(r) == toml_as_str(*value),
{
    value.as_str().map(String::from)
}

pub open spec fn themes_key() -> Seq<char> {
    seq!['t', 'h', 'e', 'm', 'e', 's']
}

/// The items of the catalog's `themes` array; nothing when the document does not parse or
/// has no such array.
pub open spec fn catalog_items(contents: Seq<char>) -> Seq<toml::Value> {
    match toml_parse_table(contents) {
        Some(t) => match toml_table_get(t, themes_key()) {
            Some(v) => match toml_as_array(v) {
                Some(items) => items,
                None => seq![],
            },
            None => seq![],
        },
        None => seq![],
    }
}

pub open spec fn opt_string_view(o: Option<String>) -> Option<Seq<char>> {
    match o {
        Some(s) => Some(s@),
        None => None,
    }
}

pub open spec fn entries_view(v: Seq<Option<String>>) -> Seq<Option<Seq<char>>> {
    v.map_values(|o: Option<String>| opt_string_view(o))
}

/// The items of the catalog's `themes` array, each as its text when it is a string.
pub open spec fn spec_catalog_entries(contents: Seq<char>) -> Seq<Option<Seq<char>>> {
    catalog_items(contents).map_values(|v: toml::Value| toml_as_str(v))
}

/// The items of the catalog's `themes` array: the text of each string item, `None` for
/// an item of another type.
pub fn catalog_entries(contents: &str) -> (r: Vec<Option<String>>)
    ensures
        entries_view(r@) == spec_catalog_entries(contents@),
{
    let items: Vec<toml::Value> = match parse_toml_table(contents) {
        Some(table) => {
            let key = string_from_chars(&vec!['t', 'h', 'e', 'm', 'e', 's']);
            match toml_get(&table, key.as_str()) {
                Some(v) => match toml_array(&v) {
                    Some(items) => items,
                    None => Vec::new(),
                },
                None => Vec::new(),
            }
        },
        None => Vec::new(),
    };
    assert(items@ =~= catalog_items(contents@));
    let mut out: Vec<Option<String>> = Vec::new();
    let mut i: usize = 0;
    while i < items.len()
        invariant
            i <= items.len(),
            entries_view(out@) == items@.take(i as int).map_values(|v: toml::Value| toml_as_str(v)),
        decreases items.len() - i,
    {
        let e = toml_str(&items[i]);
        let ghost before = out@;
        out.push(e);
        assert(entries_view(out@) =~= entries_view(before).push(opt_string_view(e)));
        assert(items@.take(i + 1).map_values(|v: toml::Value| toml_as_str(v)) =~= items@.take(
            i as int,
        ).map_values(|v: toml::Value| toml_as_str(v)).push(toml_as_str(items@[i as int])));
        i += 1;
    }
    assert(items@.take(items.len() as int) =~= items@);
    out
}

/// The string entries, in order, with `~/` taken relative to `home`.
pub open spec fn spec_theme_paths(entries: Seq<Option<Seq<char>>>, home: Seq<char>) -> Seq<Seq<char>>
    decreases entries.len(),
{
    if entries.len() == 0 {
        seq![]
    } else {
        let rest = spec_theme_paths(entries.drop_last(), home);
        match entries.last() {
            Some(s) => rest.push(spec_expand_home(home, s)),
            None => rest,
        }
    }
}

/// The theme file paths of catalog entries: the string entries, with `~/` expanded.
pub fn theme_paths_from_entries(entries: &Vec<Option<String>>, home: &str) -> (r: Vec<String>)
    ensures
        strings_view(r@) == spec_theme_paths(entries_view(entries@), home@),
{
    let ghost ev = entries_view(entries@);
    let mut out: Vec<String> = Vec::new();
    let mut i: usize = 0;
    while i < entries.len()
        invariant
            i <= entries.len(),
            ev == entries_view(entries@),
            strings_view(out@) == spec_theme_paths(ev.take(i as int), home@),
        decreases entries.len() - i,
    {
        assert(ev.take(i + 1).drop_last() =~= ev.take(i as int));
        assert(ev.take(i + 1).last() == opt_string_view(entries@[i as int]));
        match &entries[i] {
            Some(s) => {
                let p = expand_home(home, s.as_str());
                let ghost before = out@;
                out.push(p);
                assert(strings_view(out@) =~= strings_view(before).push(p@));
            },
            None => {},
        }
        i += 1;
    }
    assert(ev.take(entries.len() as int) =~= ev);
    out
}

/// The theme files a catalog lists, with `~/` taken relative to `home`.
pub open spec fn spec_catalog_theme_paths(contents: Seq<char>, home: Seq<char>) -> Seq<Seq<char>> {
    spec_theme_paths(spec_catalog_entries(contents), home)
}

/// Reads the theme file paths out of the text of a catalog.
pub fn catalog_theme_paths(contents: &str, home: &str) -> (r: Vec<String>)
    ensures
        strings_view(r@) == spec_catalog_theme_paths(contents@, home@),
{
    let entries = catalog_entries(contents);
    theme_paths_from_entries(&entries, home)
}

/// The theme files to load: the catalog's, then the selected theme's, `~/` taken relative
/// to `home`.
pub open spec fn spec_theme_files(config: Config, home: Seq<char>, catalog: Seq<Seq<char>>) -> Seq<Seq<char>> {
    match config.theme {
        Some(t) => catalog.push(spec_expand_home(home, t@)),
        None => catalog,
    }
}

/// The theme files to load, in order: those from the catalog, then the selected theme,
/// so that the selected file wins over a catalog file of the same name.
pub fn theme_files(config: &Config, home: &str, catalog_paths: Vec<String>) -> (r: Vec<String>)
    ensures
        strings_view(r@) == spec_theme_files(*config, home@, strings_view(catalog_paths@)),
{
    let mut r = catalog_paths;
    match &config.theme {
        Some(t) => {
            let ghost before = r@;
            r.push(expand_home(home, t.as_str()));
            assert(strings_view(r@) =~= strings_view(before).push(r@.last()@));
        },
        None => {},
    }
    r
}

/// Adds a theme file that was read and parsed to the collection, under its display name;
/// a file that could not be read or parsed adds nothing.
pub fn record_theme_config(
    themes: &mut NameMap<ThemeConfig>,
    path: &str,
    parsed: Option<ThemeConfig>,
)
    ensures
        final(themes)@ == match parsed {
            Some(c) => spec_insert(old(themes)@, spec_theme_name(path@), c),
            None => old(themes)@,
        },
{
    match parsed {
        Some(config) => {
            let name = theme_name(path);
            themes.insert(name, config);
        },
        None => {},
    }
}

/// The theme files as read, in order: each path with its configuration when it was read
/// and parsed.
pub open spec fn files_view(files: Seq<(String, Option<ThemeConfig>)>) -> Seq<(Seq<char>, Option<ThemeConfig>)> {
    files.map_values(|f: (String, Option<ThemeConfig>)| (f.0@, f.1))
}

/// The collection of themes after recording each file in turn: a file that was read and
/// parsed is stored under its display name, replacing an earlier file of the same name.
pub open spec fn spec_collect_themes(files: Seq<(Seq<char>, Option<ThemeConfig>)>) -> Seq<(Seq<char>, ThemeConfig)>
    decreases files.len(),
{
    if files.len() == 0 {
        seq![]
    } else {
        let before = spec_collect_themes(files.drop_last());
        match files.last().1 {
            Some(c) => spec_insert(before, spec_theme_name(files.last().0), c),
            None => before,
        }
    }
}

/// The collected themes are ordered by name, each name once.
pub proof fn lemma_collect_sorted(files: Seq<(Seq<char>, Option<ThemeConfig>)>)
    ensures
        names_sorted(spec_collect_themes(files)),
    decreases files.len(),
{
    if files.len() > 0 {
        lemma_collect_sorted(files.drop_last());
        match files.last().1 {
            Some(c) => lemma_insert_sorted(
                spec_collect_themes(files.drop_last()),
                spec_theme_name(files.last().0),
                c,
            ),
            None => {},
        }
    }
}

/// Collects the theme files, read in order, into the themes by name; see
/// [`spec_collect_themes`].
pub fn collect_theme_configs(files: Vec<(String, Option<ThemeConfig>)>) -> (r: NameMap<ThemeConfig>)
    ensures
        r@ == spec_collect_themes(files_view(files@)),
{
    let ghost all = files_view(files@);
    let mut rest = files;
    let mut themes: NameMap<ThemeConfig> = NameMap::new();
    let n = rest.len();
    let mut i: usize = 0;
    assert(all.take(0) =~= Seq::<(Seq<char>, Option<ThemeConfig>)>::empty());
    while i < n
        invariant
            n == all.len(),
            i <= n,
            rest.len() == n - i,
            files_view(rest@) == all.skip(i as int),
            themes@ == spec_collect_themes(all.take(i as int)),
        decreases n - i,
    {
        let ghost before = rest@;
        assert(files_view(before)[0] == all.skip(i as int)[0]);
        let first = rest.remove(0);
        assert(first == before[0]);
        assert(rest@ == before.remove(0));
        assert(files_view(rest@) =~= all.skip(i + 1)) by {
            assert forall|k: int| 0 <= k < rest@.len() implies #[trigger] files_view(rest@)[k] == all.skip(i + 1)[k] by {
                assert(rest@[k] == before[k + 1]);
                assert(files_view(before)[k + 1] == all.skip(i as int)[k + 1]);
            }
        }
        let (path, parsed) = first;
        assert((path@, parsed) == all[i as int]);
        assert(all.take(i + 1).drop_last() =~= all.take(i as int));
        record_theme_config(&mut themes, path.as_str(), parsed);
        i += 1;
    }
    assert(all.take(n as int) =~= all);
    themes
}

/// The last theme file read, when it parses, is the one kept under its name, whatever came
/// before it.
pub proof fn law_last_theme_file_wins(files: Seq<(Seq<char>, Option<ThemeConfig>)>)
    requires
        files.len() > 0,
        files.last().1 is Some,
    ensures
        lookup(spec_collect_themes(files), spec_theme_name(files.last().0)) == files.last().1,
{
    lemma_collect_sorted(files.drop_last());
    law_lookup_after_insert(
        spec_collect_themes(files.drop_last()),
        spec_theme_name(files.last().0),
        files.last().1->0,
        spec_theme_name(files.last().0),
    );
}

/// The theme files paired with what reading each gave.
pub open spec fn pair_files(paths: Seq<Seq<char>>, parsed: Seq<Option<ThemeConfig>>) -> Seq<(Seq<char>, Option<ThemeConfig>)> {
    Seq::new(paths.len(), |i: int| (paths[i], parsed[i]))
}

/// When a theme is selected and its file parses, the configured theme name is a key of the
/// loaded themes, holding the selected file's configuration, over any catalog file of the
/// same name.
pub proof fn law_configured_theme_is_loaded(
    config: Config,
    home: Seq<char>,
    catalog: Seq<Seq<char>>,
    parsed: Seq<Option<ThemeConfig>>,
)
    requires
        config.theme is Some,
        parsed.len() == catalog.len() + 1,
        parsed.last() is Some,
    ensures
        lookup(
            spec_collect_themes(pair_files(spec_theme_files(config, home, catalog), parsed)),
            spec_theme_name(spec_expand_home(home, config.theme->0@)),
        ) == parsed.last(),
{
    let files = pair_files(spec_theme_files(config, home, catalog), parsed);
    assert(files.last() == (spec_expand_home(home, config.theme->0@), parsed.last()));
    law_last_theme_file_wins(files);
}

} // verus!
