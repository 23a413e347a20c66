//! Colour themes: the built-in palette, theme files that name colours and map interface
//! roles and category labels to them, and the resolution of such a file into a theme.

use vstd::prelude::*;
use crate::names::{NameMap, lookup, names_sorted};
use crate::text::{chars_of, chars_equal, string_from_chars};

verus! {

/// A terminal colour given by its red, green and blue components.
#[derive(Clone, Copy, Debug, PartialEq, Eq, Structural)]
pub enum Color {
    Rgb(u8, u8, u8),
}

/// Colours of the category labels.
#[derive(Clone, Copy, Debug, PartialEq, Eq, Structural)]
pub struct CategoryLabels {
    pub bugs: Color,
    pub features: Color,
    pub improvements: Color,
    pub refactor: Color,
    pub docs: Color,
    pub chore: Color,
    pub data: Color,
    pub model: Color,
    pub experiment: Color,
}

/// The colour of every interface role.
#[derive(Clone, Copy, Debug, PartialEq, Eq, Structural)]
pub struct Theme {
    pub background: Color,
    pub background_dark: Color,
    pub background_deep: Color,
    pub border: Color,
    pub accent: Color,
    pub selection: Color,
    pub key: Color,
    pub text: Color,
    pub text_bright: Color,
    pub text_dim: Color,
    pub text_muted: Color,
    pub heading: Color,
    pub error: Color,
    pub cursor_bg: Color,
    pub picker_border: Color,
    pub picker_accent: Color,
    pub picker_directory: Color,
    pub picker_matched: Color,
    pub picker_loading: Color,
    pub picker_recent: Color,
    pub labels: CategoryLabels,
}

/// The built-in theme (Tokyo Night Moon).
pub open spec fn spec_default_theme() -> Theme {
    Theme {
        background: Color::Rgb(34, 36, 54),
        background_dark: Color::Rgb(30, 32, 48),
        background_deep: Color::Rgb(25, 27, 41),
        border: Color::Rgb(59, 66, 97),
        accent: Color::Rgb(192, 153, 255),
        selection: Color::Rgb(130, 170, 255),
        key: Color::Rgb(134, 225, 252),
        text: Color::Rgb(200, 211, 245),
        text_bright: Color::Rgb(213, 223, 245),
        text_dim: Color::Rgb(99, 109, 166),
        text_muted: Color::Rgb(59, 66, 97),
        heading: Color::Rgb(130, 170, 255),
        error: Color::Rgb(255, 117, 127),
        cursor_bg: Color::Rgb(47, 51, 77),
        picker_border: Color::Rgb(57, 75, 112),
        picker_accent: Color::Rgb(130, 170, 255),
        picker_directory: Color::Rgb(101, 188, 255),
        picker_matched: Color::Rgb(192, 153, 255),
        picker_loading: Color::Rgb(134, 225, 252),
        picker_recent: Color::Rgb(255, 199, 119),
        labels: CategoryLabels {
            bugs: Color::Rgb(255, 117, 127),
            features: Color::Rgb(195, 232, 141),
            improvements: Color::Rgb(192, 153, 255),
            refactor: Color::Rgb(255, 199, 119),
            docs: Color::Rgb(130, 170, 255),
            chore: Color::Rgb(99, 109, 166),
            data: Color::Rgb(79, 214, 190),
            model: Color::Rgb(252, 167, 234),
            experiment: Color::Rgb(255, 150, 108),
        },
    }
}

/// The theme used when no theme file is configured (Tokyo Night Moon).
pub fn default_theme() -> (t: Theme)
    ensures
        t == spec_default_theme(),
{
    Theme {
        background: Color::Rgb(34, 36, 54),
        background_dark: Color::Rgb(30, 32, 48),
        background_deep: Color::Rgb(25, 27, 41),
        border: Color::Rgb(59, 66, 97),
        accent: Color::Rgb(192, 153, 255),
        selection: Color::Rgb(130, 170, 255),
        key: Color::Rgb(134, 225, 252),
        text: Color::Rgb(200, 211, 245),
        text_bright: Color::Rgb(213, 223, 245),
        text_dim: Color::Rgb(99, 109, 166),
        text_muted: Color::Rgb(59, 66, 97),
        heading: Color::Rgb(130, 170, 255),
        error: Color::Rgb(255, 117, 127),
        cursor_bg: Color::Rgb(47, 51, 77),
        picker_border: Color::Rgb(57, 75, 112),
        picker_accent: Color::Rgb(130, 170, 255),
        picker_directory: Color::Rgb(101, 188, 255),
        picker_matched: Color::Rgb(192, 153, 255),
        picker_loading: Color::Rgb(134, 225, 252),
        picker_recent: Color::Rgb(255, 199, 119),
        labels: CategoryLabels {
            bugs: Color::Rgb(255, 117, 127),
            features: Color::Rgb(195, 232, 141),
            improvements: Color::Rgb(192, 153, 255),
            refactor: Color::Rgb(255, 199, 119),
            docs: Color::Rgb(130, 170, 255),
            chore: Color::Rgb(99, 109, 166),
            data: Color::Rgb(79, 214, 190),
            model: Color::Rgb(252, 167, 234),
            experiment: Color::Rgb(255, 150, 108),
        },
    }
}

/// Palette colour names for interface roles; a role left out keeps its fallback.
pub struct UiConfig {
    pub background: Option<String>,
    pub background_dark: Option<String>,
    pub background_deep: Option<String>,
    pub border: Option<String>,
    pub accent: Option<String>,
    pub selection: Option<String>,
    pub key: Option<String>,
    pub text: Option<String>,
    pub text_bright: Option<String>,
    pub text_dim: Option<String>,
    pub text_muted: Option<String>,
    pub heading: Option<String>,
    pub error: Option<String>,
    pub cursor_bg: Option<String>,
    pub picker_border: Option<String>,
    pub picker_accent: Option<String>,
    pub picker_directory: Option<String>,
    pub picker_matched: Option<String>,
    pub picker_loading: Option<String>,
    pub picker_recent: Option<String>,
}

impl Default for UiConfig {
    /// No role names a colour.
    fn default() -> (r: Self)
        ensures
            r.background is None && r.background_dark is None && r.background_deep is None
                && r.border is None && r.accent is None && r.selection is None && r.key is None
                && r.text is None && r.text_bright is None && r.text_dim is None && r.text_muted is None
                && r.heading is None && r.error is None && r.cursor_bg is None
                && r.picker_border is None && r.picker_accent is None && r.picker_directory is None
                && r.picker_matched is None && r.picker_loading is None && r.picker_recent is None,
    {
        UiConfig {
            background: None,
            background_dark: None,
            background_deep: None,
            border: None,
            accent: None,
            selection: None,
            key: None,
            text: None,
            text_bright: None,
            text_dim: None,
            text_muted: None,
            heading: None,
            error: None,
            cursor_bg: None,
            picker_border: None,
            picker_accent: None,
            picker_directory: None,
            picker_matched: None,
            picker_loading: None,
            picker_recent: None,
        }
    }
}

/// Palette colour names for category labels; a label left out keeps the base colour.
pub struct LabelsConfig {
    pub bugs: Option<String>,
    pub features: Option<String>,
    pub improvements: Option<String>,
    pub refactor: Option<String>,
    pub docs: Option<String>,
    pub chore: Option<String>,
    pub data: Option<String>,
    pub model: Option<String>,
    pub experiment: Option<String>,
}

impl Default for LabelsConfig {
    /// No label names a colour.
    fn default() -> (r: Self)
        ensures
            r.bugs is None && r.features is None && r.improvements is None && r.refactor is None
                && r.docs is None && r.chore is None && r.data is None && r.model is None
                && r.experiment is None,
    {
        LabelsConfig {
            bugs: None,
            features: None,
            improvements: None,
            refactor: None,
            docs: None,
            chore: None,
            data: None,
            model: None,
            experiment: None,
        }
    }
}

/// A theme file: a palette of named colours (`name -> "#rrggbb"`) and the palette names
/// chosen for interface roles and for category labels.
pub struct ThemeConfig {
    pub colors: NameMap<String>,
    pub ui: Option<UiConfig>,
    pub labels: Option<LabelsConfig>,
}

impl Default for ThemeConfig {
    /// An empty palette and no role or label choices.
    fn default() -> (r: Self)
        ensures
            r.colors@.len() == 0,
            r.ui is None,
            r.labels is None,
    {
        ThemeConfig { colors: NameMap::new(), ui: None, labels: None }
    }
}

// ---------------------------------------------------------------------------------------
// Hex colours.

/// The value of a hexadecimal digit.
pub open spec fn hex_digit(c: char) -> Option<int> {
    if '0' <= c && c <= '9' {
        Some(c as int - '0' as int)
    } else if 'a' <= c && c <= 'f' {
        Some(c as int - 'a' as int + 10)
    } else if 'A' <= c && c <= 'F' {
        Some(c as int - 'A' as int + 10)
    } else {
        None
    }
}

/// The byte that a chunk of exactly two hex digits (either case) writes.
pub open spec fn radix16_pair(chunk: Seq<char>) -> Option<u8> {
    if chunk.len() != 2 {
        None
    } else {
        match (hex_digit(chunk[0]), hex_digit(chunk[1])) {
            (Some(a), Some(b)) => Some((a * 16 + b) as u8),
            _ => None,
        }
    }
}

/// `"#rrggbb"` as a colour: `#` then exactly six hex digits, read as three pairs.
pub open spec fn spec_parse_hex(s: Seq<char>) -> Option<Color> {
    if s.len() == 7 && s[0] == '#' {
        match (radix16_pair(s.subrange(1, 3)), radix16_pair(s.subrange(3, 5)), radix16_pair(
            s.subrange(5, 7),
        )) {
            (Some(r), Some(g), Some(b)) => Some(Color::Rgb(r, g, b)),
            _ => None,
        }
    } else {
        None
    }
}

fn hex_value(c: char) -> (r: Option<u8>)
    ensures
        match r {
            Some(v) => hex_digit(c) == Some(v as int),
            None => hex_digit(c) is None,
        },
{
    if '0' <= c && c <= '9' {
        Some((c as u32 - '0' as u32) as u8)
    } else if 'a' <= c && c <= 'f' {
        Some((c as u32 - 'a' as u32 + 10) as u8)
    } else if 'A' <= c && c <= 'F' {
        Some((c as u32 - 'A' as u32 + 10) as u8)
    } else {
        None
    }
}

fn parse_pair(a: char, b: char) -> (r: Option<u8>)
    ensures
        r == radix16_pair(seq![a, b]),
{
    match (hex_value(a), hex_value(b)) {
        (Some(x), Some(y)) => Some(x * 16 + y),
        _ => None,
    }
}

/// Parses `"#rrggbb"` into a colour.
pub fn parse_hex(s: &str) -> (r: Option<Color>)
    ensures
        r == spec_parse_hex(s@),
{
    let c = chars_of(s);
    if c.len() != 7 || c[0] != '#' {
        return None;
    }
    assert(c@.subrange(1, 3) =~= seq![c@[1], c@[2]]);
    assert(c@.subrange(3, 5) =~= seq![c@[3], c@[4]]);
    assert(c@.subrange(5, 7) =~= seq![c@[5], c@[6]]);
    let r = parse_pair(c[1], c[2]);
    let g = parse_pair(c[3], c[4]);
    let b = parse_pair(c[5], c[6]);
    match (r, g, b) {
        (Some(r), Some(g), Some(b)) => Some(Color::Rgb(r, g, b)),
        _ => None,
    }
}

// ---------------------------------------------------------------------------------------
// Resolution.

pub open spec fn name_view(o: Option<String>) -> Option<Seq<char>> {
    match o {
        Some(s) => Some(s@),
        None => None,
    }
}

/// The colour named `name` in the palette, when it is there and parses.
pub open spec fn spec_resolve_color(name: Seq<char>, palette: Seq<(Seq<char>, String)>) -> Option<
    Color,
> {
    match lookup(palette, name) {
        Some(hex) => spec_parse_hex(hex@),
        None => None,
    }
}

/// The colour for a role: the palette colour it names, else `fallback`.
pub open spec fn spec_pick(
    palette: Seq<(Seq<char>, String)>,
    name: Option<Seq<char>>,
    fallback: Color,
) -> Color {
    match name {
        Some(n) => match spec_resolve_color(n, palette) {
            Some(c) => c,
            None => fallback,
        },
        None => fallback,
    }
}

pub open spec fn ui_name(cfg: ThemeConfig, f: spec_fn(UiConfig) -> Option<String>) -> Option<
    Seq<char>,
> {
    match cfg.ui {
        Some(u) => name_view(f(u)),
        None => None,
    }
}

pub open spec fn label_name(cfg: ThemeConfig, f: spec_fn(LabelsConfig) -> Option<String>) -> Option<
    Seq<char>,
> {
    match cfg.labels {
        Some(l) => name_view(f(l)),
        None => None,
    }
}

pub open spec fn bg_name() -> Seq<char> {
    seq!['b', 'g']
}

pub open spec fn bg_dark_name() -> Seq<char> {
    seq!['b', 'g', '_', 'd', 'a', 'r', 'k']
}

pub open spec fn bg_dark1_name() -> Seq<char> {
    seq!['b', 'g', '_', 'd', 'a', 'r', 'k', '1']
}

pub open spec fn blue_name() -> Seq<char> {
    seq!['b', 'l', 'u', 'e']
}

pub open spec fn cyan_name() -> Seq<char> {
    seq!['c', 'y', 'a', 'n']
}

pub open spec fn yellow_name() -> Seq<char> {
    seq!['y', 'e', 'l', 'l', 'o', 'w']
}

/// The theme that `cfg` describes over `base`. A role takes the palette colour the file
/// names for it; a role left out (or naming no colour that parses) takes the colour of a
/// conventional palette name where the role has one (`bg`, `bg_dark`, `bg_dark1`, `blue`,
/// `cyan`, `yellow`) and it parses, and otherwise keeps `base`'s colour for that role.
pub open spec fn spec_resolve(cfg: ThemeConfig, base: Theme) -> Theme {
    let p = cfg.colors@;
    let background = spec_pick(
        p,
        ui_name(cfg, |u: UiConfig| u.background),
        spec_pick(p, Some(bg_name()), base.background),
    );
    let background_dark = spec_pick(
        p,
        ui_name(cfg, |u: UiConfig| u.background_dark),
        spec_pick(p, Some(bg_dark_name()), base.background_dark),
    );
    let background_deep = spec_pick(
        p,
        ui_name(cfg, |u: UiConfig| u.background_deep),
        spec_pick(p, Some(bg_dark1_name()), base.background_deep),
    );
    let border = spec_pick(p, ui_name(cfg, |u: UiConfig| u.border), base.border);
    let accent = spec_pick(p, ui_name(cfg, |u: UiConfig| u.accent), base.accent);
    let heading = spec_pick(p, ui_name(cfg, |u: UiConfig| u.heading), base.heading);
    let selection = spec_pick(
        p,
        ui_name(cfg, |u: UiConfig| u.selection),
        spec_pick(p, Some(blue_name()), base.selection),
    );
    let key = spec_pick(
        p,
        ui_name(cfg, |u: UiConfig| u.key),
        spec_pick(p, Some(cyan_name()), base.key),
    );
    Theme {
        background,
        background_dark,
        background_deep,
        border,
        accent,
        selection,
        key,
        text: spec_pick(p, ui_name(cfg, |u: UiConfig| u.text), base.text),
        text_bright: spec_pick(p, ui_name(cfg, |u: UiConfig| u.text_bright), base.text_bright),
        text_dim: spec_pick(p, ui_name(cfg, |u: UiConfig| u.text_dim), base.text_dim),
        text_muted: spec_pick(p, ui_name(cfg, |u: UiConfig| u.text_muted), base.text_muted),
        heading,
        error: spec_pick(p, ui_name(cfg, |u: UiConfig| u.error), base.error),
        cursor_bg: spec_pick(p, ui_name(cfg, |u: UiConfig| u.cursor_bg), base.cursor_bg),
        picker_border: spec_pick(p, ui_name(cfg, |u: UiConfig| u.picker_border), base.picker_border),
        picker_accent: spec_pick(p, ui_name(cfg, |u: UiConfig| u.picker_accent), base.picker_accent),
        picker_directory: spec_pick(p, ui_name(cfg, |u: UiConfig| u.picker_directory), base.picker_directory),
        picker_matched: spec_pick(p, ui_name(cfg, |u: UiConfig| u.picker_matched), base.picker_matched),
        picker_loading: spec_pick(p, ui_name(cfg, |u: UiConfig| u.picker_loading), base.picker_loading),
        picker_recent: spec_pick(
            p,
            ui_name(cfg, |u: UiConfig| u.picker_recent),
            spec_pick(p, Some(yellow_name()), base.picker_recent),
        ),
        labels: CategoryLabels {
            bugs: spec_pick(p, label_name(cfg, |l: LabelsConfig| l.bugs), base.labels.bugs),
            features: spec_pick(
                p,
                label_name(cfg, |l: LabelsConfig| l.features),
                base.labels.features,
            ),
            improvements: spec_pick(
                p,
                label_name(cfg, |l: LabelsConfig| l.improvements),
                base.labels.improvements,
            ),
            refactor: spec_pick(
                p,
                label_name(cfg, |l: LabelsConfig| l.refactor),
                base.labels.refactor,
            ),
            docs: spec_pick(p, label_name(cfg, |l: LabelsConfig| l.docs), base.labels.docs),
            chore: spec_pick(p, label_name(cfg, |l: LabelsConfig| l.chore), base.labels.chore),
            data: spec_pick(p, label_name(cfg, |l: LabelsConfig| l.data), base.labels.data),
            model: spec_pick(p, label_name(cfg, |l: LabelsConfig| l.model), base.labels.model),
            experiment: spec_pick(
                p,
                label_name(cfg, |l: LabelsConfig| l.experiment),
                base.labels.experiment,
            ),
        },
    }
}

pub open spec fn ref_name_view(o: Option<&String>) -> Option<Seq<char>> {
    match o {
        Some(s) => Some(s@),
        None => None,
    }
}

/// Looks up `name` in the palette and parses it.
pub fn resolve_color(name: &str, palette: &NameMap<String>) -> (r: Option<Color>)
    ensures
        r == spec_resolve_color(name@, palette@),
{
    match palette.get(name) {
        Some(hex) => parse_hex(hex.as_str()),
        None => None,
    }
}

fn pick(palette: &NameMap<String>, name: Option<&String>, fallback: Color) -> (c: Color)
    ensures
        c == spec_pick(palette@, ref_name_view(name), fallback),
{
    match name {
        Some(n) => match resolve_color(n.as_str(), palette) {
            Some(c) => c,
            None => fallback,
        },
        None => fallback,
    }
}

fn field(o: &Option<String>) -> (r: Option<&String>)
    ensures
        ref_name_view(r) == name_view(*o),
{
    match o {
        Some(s) => Some(s),
        None => None,
    }
}

/// The conventional palette names, in a fixed order: `bg`, `bg_dark`, `bg_dark1`, `blue`,
/// `cyan`, `yellow`.
fn conventional_names() -> (r: (String, String, String, String, String, String))
    ensures
        r.0@ == bg_name(),
        r.1@ == bg_dark_name(),
        r.2@ == bg_dark1_name(),
        r.3@ == blue_name(),
        r.4@ == cyan_name(),
        r.5@ == yellow_name(),
{
    (
        string_from_chars(&vec!['b', 'g']),
        string_from_chars(&vec!['b', 'g', '_', 'd', 'a', 'r', 'k']),
        string_from_chars(&vec!['b', 'g', '_', 'd', 'a', 'r', 'k', '1']),
        string_from_chars(&vec!['b', 'l', 'u', 'e']),
        string_from_chars(&vec!['c', 'y', 'a', 'n']),
        string_from_chars(&vec!['y', 'e', 'l', 'l', 'o', 'w']),
    )
}

impl ThemeConfig {
    /// Resolves this file into a theme, falling back to `base` for whatever it leaves out.
    pub fn resolve(&self, base: &Theme) -> (t: Theme)
        ensures
            t == spec_resolve(*self, *base),
    {
        let p = &self.colors;
        let names = conventional_names();
        let ui = &self.ui;
        let none: Option<String> = None;
        let u_background = match ui { Some(u) => field(&u.background), None => field(&none) };
        let u_background_dark = match ui { Some(u) => field(&u.background_dark), None => field(&none) };
        let u_background_deep = match ui { Some(u) => field(&u.background_deep), None => field(&none) };
        let u_border = match ui { Some(u) => field(&u.border), None => field(&none) };
        let u_accent = match ui { Some(u) => field(&u.accent), None => field(&none) };
        let u_selection = match ui { Some(u) => field(&u.selection), None => field(&none) };
        let u_key = match ui { Some(u) => field(&u.key), None => field(&none) };
        let u_text = match ui { Some(u) => field(&u.text), None => field(&none) };
        let u_text_bright = match ui { Some(u) => field(&u.text_bright), None => field(&none) };
        let u_text_dim = match ui { Some(u) => field(&u.text_dim), None => field(&none) };
        let u_text_muted = match ui { Some(u) => field(&u.text_muted), None => field(&none) };
        let u_heading = match ui { Some(u) => field(&u.heading), None => field(&none) };
        let u_error = match ui { Some(u) => field(&u.error), None => field(&none) };
        let u_cursor_bg = match ui { Some(u) => field(&u.cursor_bg), None => field(&none) };
        let u_picker_border = match ui { Some(u) => field(&u.picker_border), None => field(&none) };
        let u_picker_accent = match ui { Some(u) => field(&u.picker_accent), None => field(&none) };
        let u_picker_directory = match ui { Some(u) => field(&u.picker_directory), None => field(&none) };
        let u_picker_matched = match ui { Some(u) => field(&u.picker_matched), None => field(&none) };
        let u_picker_loading = match ui { Some(u) => field(&u.picker_loading), None => field(&none) };
        let u_picker_recent = match ui { Some(u) => field(&u.picker_recent), None => field(&none) };
        let lb = &self.labels;
        let l_bugs = match lb { Some(l) => field(&l.bugs), None => field(&none) };
        let l_features = match lb { Some(l) => field(&l.features), None => field(&none) };
        let l_improvements = match lb { Some(l) => field(&l.improvements), None => field(&none) };
        let l_refactor = match lb { Some(l) => field(&l.refactor), None => field(&none) };
        let l_docs = match lb { Some(l) => field(&l.docs), None => field(&none) };
        let l_chore = match lb { Some(l) => field(&l.chore), None => field(&none) };
        let l_data = match lb { Some(l) => field(&l.data), None => field(&none) };
        let l_model = match lb { Some(l) => field(&l.model), None => field(&none) };
        let l_experiment = match lb { Some(l) => field(&l.experiment), None => field(&none) };

        let background = pick(p, u_background, pick(p, Some(&names.0), base.background));
        let background_dark = pick(p, u_background_dark, pick(p, Some(&names.1), base.background_dark));
        let background_deep = pick(p, u_background_deep, pick(p, Some(&names.2), base.background_deep));
        let border = pick(p, u_border, base.border);
        let accent = pick(p, u_accent, base.accent);
        let heading = pick(p, u_heading, base.heading);
        let selection = pick(p, u_selection, pick(p, Some(&names.3), base.selection));
        let key = pick(p, u_key, pick(p, Some(&names.4), base.key));
        Theme {
            background,
            background_dark,
            background_deep,
            border,
            accent,
            selection,
            key,
            text: pick(p, u_text, base.text),
            text_bright: pick(p, u_text_bright, base.text_bright),
            text_dim: pick(p, u_text_dim, base.text_dim),
            text_muted: pick(p, u_text_muted, base.text_muted),
            heading,
            error: pick(p, u_error, base.error),
            cursor_bg: pick(p, u_cursor_bg, base.cursor_bg),
            picker_border: pick(p, u_picker_border, base.picker_border),
            picker_accent: pick(p, u_picker_accent, base.picker_accent),
            picker_directory: pick(p, u_picker_directory, base.picker_directory),
            picker_matched: pick(p, u_picker_matched, base.picker_matched),
            picker_loading: pick(p, u_picker_loading, base.picker_loading),
            picker_recent: pick(p, u_picker_recent, pick(p, Some(&names.5), base.picker_recent)),
            labels: CategoryLabels {
                bugs: pick(p, l_bugs, base.labels.bugs),
                features: pick(p, l_features, base.labels.features),
                improvements: pick(p, l_improvements, base.labels.improvements),
                refactor: pick(p, l_refactor, base.labels.refactor),
                docs: pick(p, l_docs, base.labels.docs),
                chore: pick(p, l_chore, base.labels.chore),
                data: pick(p, l_data, base.labels.data),
                model: pick(p, l_model, base.labels.model),
                experiment: pick(p, l_experiment, base.labels.experiment),
            },
        }
    }
}

// ---------------------------------------------------------------------------------------
// Theme lists.

pub open spec fn themes_view(v: Seq<(String, Theme)>) -> Seq<(Seq<char>, Theme)> {
    v.map_values(|e: (String, Theme)| (e.0@, e.1))
}

/// The first theme called `name`, with its position.
pub fn find_theme(themes: &[(String, Theme)], name: &str) -> (r: Option<(usize, Theme)>)
    ensures
        match r {
            Some((i, t)) => {
                &&& i < themes@.len()
                &&& themes@[i as int].0@ == name@
                &&& t == themes@[i as int].1
                &&& forall|j: int| 0 <= j < i ==> (#[trigger] themes@[j]).0@ != name@
            },
            None => forall|j: int| 0 <= j < themes@.len() ==> (#[trigger] themes@[j]).0@ != name@,
        },
{
    let target = chars_of(name);
    let mut i: usize = 0;
    while i < themes.len()
        invariant
            i <= themes@.len(),
            target@ == name@,
            forall|j: int| 0 <= j < i ==> (#[trigger] themes@[j]).0@ != name@,
        decreases themes.len() - i,
    {
        let key = chars_of(themes[i].0.as_str());
        if chars_equal(&key, &target) {
            return Some((i, themes[i].1));
        }
        i += 1;
    }
    None
}

pub open spec fn default_name() -> Seq<char> {
    seq!['d', 'e', 'f', 'a', 'u', 'l', 't']
}

/// The themes of the configured theme files, in name order, each resolved over the
/// built-in theme; without any file, the built-in theme alone, called `default`.
pub open spec fn spec_resolve_themes(configs: Seq<(Seq<char>, ThemeConfig)>) -> Seq<
    (Seq<char>, Theme),
> {
    if configs.len() == 0 {
        seq![(default_name(), spec_default_theme())]
    } else {
        configs.map_values(
            |e: (Seq<char>, ThemeConfig)| (e.0, spec_resolve(e.1, spec_default_theme())),
        )
    }
}

/// Builds the list of themes from the theme files.
#[verifier::spinoff_prover]
#[verifier::rlimit(40)]
pub fn resolve_themes(configs: &NameMap<ThemeConfig>) -> (r: Vec<(String, Theme)>)
    ensures
        themes_view(r@) == spec_resolve_themes(configs@),
{
    if configs.is_empty() {
        let mut r: Vec<(String, Theme)> = Vec::new();
        r.push((string_from_chars(&vec!['d', 'e', 'f', 'a', 'u', 'l', 't']), default_theme()));
        assert(themes_view(r@) =~= spec_resolve_themes(configs@));
        return r;
    }
    let base = default_theme();
    let mut r: Vec<(String, Theme)> = Vec::new();
    let n = configs.len();
    let mut i: usize = 0;
    while i < n
        invariant
            n == configs@.len() > 0,
            i <= n,
            base == spec_default_theme(),
            themes_view(r@) == spec_resolve_themes(configs@).take(i as int),
        decreases n - i,
    {
        let (name, cfg) = configs.entry(i);
        let t = cfg.resolve(&base);
        let nm = name.clone();
        assert(spec_resolve_themes(configs@)[i as int] == (nm@, t));
        let ghost before = r@;
        r.push((nm, t));
        assert(themes_view(r@) =~= themes_view(before).push((nm@, t)));
        assert(spec_resolve_themes(configs@).take(i + 1) =~= spec_resolve_themes(configs@).take(
            i as int,
        ).push(spec_resolve_themes(configs@)[i as int]));
        i += 1;
    }
    assert(spec_resolve_themes(configs@).take(n as int) =~= spec_resolve_themes(configs@));
    r
}

/// The theme list is never empty, and its names are in order without repeats.
pub proof fn law_resolved_themes_ordered(configs: Seq<(Seq<char>, ThemeConfig)>)
    requires
        names_sorted(configs),
    ensures
        spec_resolve_themes(configs).len() >= 1,
        names_sorted(spec_resolve_themes(configs)),
{
    let r = spec_resolve_themes(configs);
    if configs.len() > 0 {
        assert forall|i: int, j: int| 0 <= i < j < r.len() implies crate::names::name_lt(
            #[trigger] r[i].0,
            #[trigger] r[j].0,
        ) by {
            assert(r[i].0 == configs[i].0 && r[j].0 == configs[j].0);
        }
    }
}

/// Resolving a file whose palette is empty gives `base` back, whatever names the file gives
/// its roles.
pub proof fn law_resolve_without_palette(cfg: ThemeConfig, base: Theme)
    requires
        cfg.colors@.len() == 0,
    ensures
        spec_resolve(cfg, base) == base,
{
}

/// The colour the palette gives a name: the palette's text for it read as `#rrggbb`.
pub open spec fn named_colour(palette: Seq<(Seq<char>, String)>, name: Option<Seq<char>>) -> Option<Color> {
    match name {
        Some(n) => match lookup(palette, n) {
            Some(hex) => spec_parse_hex(hex@),
            None => None,
        },
        None => None,
    }
}

/// Every role and label that the file names, with a palette colour that parses, takes that
/// colour, whatever else the palette holds.
pub proof fn law_named_roles_take_palette_colours(cfg: ThemeConfig, base: Theme, t: Theme)
    requires
        t == spec_resolve(cfg, base),
    ensures
        named_colour(cfg.colors@, ui_name(cfg, |u: UiConfig| u.background)) matches Some(c) ==> t.background == c,
        named_colour(cfg.colors@, ui_name(cfg, |u: UiConfig| u.background_dark)) matches Some(c) ==> t.background_dark == c,
        named_colour(cfg.colors@, ui_name(cfg, |u: UiConfig| u.background_deep)) matches Some(c) ==> t.background_deep == c,
        named_colour(cfg.colors@, ui_name(cfg, |u: UiConfig| u.border)) matches Some(c) ==> t.border == c,
        named_colour(cfg.colors@, ui_name(cfg, |u: UiConfig| u.accent)) matches Some(c) ==> t.accent == c,
        named_colour(cfg.colors@, ui_name(cfg, |u: UiConfig| u.selection)) matches Some(c) ==> t.selection == c,
        named_colour(cfg.colors@, ui_name(cfg, |u: UiConfig| u.key)) matches Some(c) ==> t.key == c,
        named_colour(cfg.colors@, ui_name(cfg, |u: UiConfig| u.text)) matches Some(c) ==> t.text == c,
        named_colour(cfg.colors@, ui_name(cfg, |u: UiConfig| u.text_bright)) matches Some(c) ==> t.text_bright == c,
        named_colour(cfg.colors@, ui_name(cfg, |u: UiConfig| u.text_dim)) matches Some(c) ==> t.text_dim == c,
        named_colour(cfg.colors@, ui_name(cfg, |u: UiConfig| u.text_muted)) matches Some(c) ==> t.text_muted == c,
        named_colour(cfg.colors@, ui_name(cfg, |u: UiConfig| u.heading)) matches Some(c) ==> t.heading == c,
        named_colour(cfg.colors@, ui_name(cfg, |u: UiConfig| u.error)) matches Some(c) ==> t.error == c,
        named_colour(cfg.colors@, ui_name(cfg, |u: UiConfig| u.cursor_bg)) matches Some(c) ==> t.cursor_bg == c,
        named_colour(cfg.colors@, ui_name(cfg, |u: UiConfig| u.picker_border)) matches Some(c) ==> t.picker_border == c,
        named_colour(cfg.colors@, ui_name(cfg, |u: UiConfig| u.picker_accent)) matches Some(c) ==> t.picker_accent == c,
        named_colour(cfg.colors@, ui_name(cfg, |u: UiConfig| u.picker_directory)) matches Some(c) ==> t.picker_directory == c,
        named_colour(cfg.colors@, ui_name(cfg, |u: UiConfig| u.picker_matched)) matches Some(c) ==> t.picker_matched == c,
        named_colour(cfg.colors@, ui_name(cfg, |u: UiConfig| u.picker_loading)) matches Some(c) ==> t.picker_loading == c,
        named_colour(cfg.colors@, ui_name(cfg, |u: UiConfig| u.picker_recent)) matches Some(c) ==> t.picker_recent == c,
        named_colour(cfg.colors@, label_name(cfg, |l: LabelsConfig| l.bugs)) matches Some(c) ==> t.labels.bugs == c,
        named_colour(cfg.colors@, label_name(cfg, |l: LabelsConfig| l.features)) matches Some(c) ==> t.labels.features == c,
        named_colour(cfg.colors@, label_name(cfg, |l: LabelsConfig| l.improvements)) matches Some(c) ==> t.labels.improvements == c,
        named_colour(cfg.colors@, label_name(cfg, |l: LabelsConfig| l.refactor)) matches Some(c) ==> t.labels.refactor == c,
        named_colour(cfg.colors@, label_name(cfg, |l: LabelsConfig| l.docs)) matches Some(c) ==> t.labels.docs == c,
        named_colour(cfg.colors@, label_name(cfg, |l: LabelsConfig| l.chore)) matches Some(c) ==> t.labels.chore == c,
        named_colour(cfg.colors@, label_name(cfg, |l: LabelsConfig| l.data)) matches Some(c) ==> t.labels.data == c,
        named_colour(cfg.colors@, label_name(cfg, |l: LabelsConfig| l.model)) matches Some(c) ==> t.labels.model == c,
        named_colour(cfg.colors@, label_name(cfg, |l: LabelsConfig| l.experiment)) matches Some(c) ==> t.labels.experiment == c,
{
}

/// A role or label without a conventional palette name that the file does not name with a
/// palette colour that parses keeps `base`'s colour.
pub proof fn law_unnamed_roles_keep_base(cfg: ThemeConfig, base: Theme, t: Theme)
    requires
        t == spec_resolve(cfg, base),
    ensures
        named_colour(cfg.colors@, ui_name(cfg, |u: UiConfig| u.border)) is None ==> t.border == base.border,
        named_colour(cfg.colors@, ui_name(cfg, |u: UiConfig| u.accent)) is None ==> t.accent == base.accent,
        named_colour(cfg.colors@, ui_name(cfg, |u: UiConfig| u.text)) is None ==> t.text == base.text,
        named_colour(cfg.colors@, ui_name(cfg, |u: UiConfig| u.text_bright)) is None ==> t.text_bright == base.text_bright,
        named_colour(cfg.colors@, ui_name(cfg, |u: UiConfig| u.text_dim)) is None ==> t.text_dim == base.text_dim,
        named_colour(cfg.colors@, ui_name(cfg, |u: UiConfig| u.text_muted)) is None ==> t.text_muted == base.text_muted,
        named_colour(cfg.colors@, ui_name(cfg, |u: UiConfig| u.heading)) is None ==> t.heading == base.heading,
        named_colour(cfg.colors@, ui_name(cfg, |u: UiConfig| u.error)) is None ==> t.error == base.error,
        named_colour(cfg.colors@, ui_name(cfg, |u: UiConfig| u.cursor_bg)) is None ==> t.cursor_bg == base.cursor_bg,
        named_colour(cfg.colors@, ui_name(cfg, |u: UiConfig| u.picker_border)) is None ==> t.picker_border == base.picker_border,
        named_colour(cfg.colors@, ui_name(cfg, |u: UiConfig| u.picker_accent)) is None ==> t.picker_accent == base.picker_accent,
        named_colour(cfg.colors@, ui_name(cfg, |u: UiConfig| u.picker_directory)) is None ==> t.picker_directory == base.picker_directory,
        named_colour(cfg.colors@, ui_name(cfg, |u: UiConfig| u.picker_matched)) is None ==> t.picker_matched == base.picker_matched,
        named_colour(cfg.colors@, ui_name(cfg, |u: UiConfig| u.picker_loading)) is None ==> t.picker_loading == base.picker_loading,
        named_colour(cfg.colors@, label_name(cfg, |l: LabelsConfig| l.bugs)) is None ==> t.labels.bugs == base.labels.bugs,
        named_colour(cfg.colors@, label_name(cfg, |l: LabelsConfig| l.features)) is None ==> t.labels.features == base.labels.features,
        named_colour(cfg.colors@, label_name(cfg, |l: LabelsConfig| l.improvements)) is None ==> t.labels.improvements == base.labels.improvements,
        named_colour(cfg.colors@, label_name(cfg, |l: LabelsConfig| l.refactor)) is None ==> t.labels.refactor == base.labels.refactor,
        named_colour(cfg.colors@, label_name(cfg, |l: LabelsConfig| l.docs)) is None ==> t.labels.docs == base.labels.docs,
        named_colour(cfg.colors@, label_name(cfg, |l: LabelsConfig| l.chore)) is None ==> t.labels.chore == base.labels.chore,
        named_colour(cfg.colors@, label_name(cfg, |l: LabelsConfig| l.data)) is None ==> t.labels.data == base.labels.data,
        named_colour(cfg.colors@, label_name(cfg, |l: LabelsConfig| l.model)) is None ==> t.labels.model == base.labels.model,
        named_colour(cfg.colors@, label_name(cfg, |l: LabelsConfig| l.experiment)) is None ==> t.labels.experiment == base.labels.experiment,
{
}

/// The lower-case hex digit for `d` (taken below sixteen).
pub open spec fn hex_char(d: int) -> char {
    if d < 10 {
        (('0' as int) + d) as char
    } else {
        (('a' as int) + d - 10) as char
    }
}

/// `#rrggbb` for the colour `r`, `g`, `b`, in lower-case hex.
pub open spec fn hex_text(r: u8, g: u8, b: u8) -> Seq<char> {
    seq![
        '#',
        hex_char(r as int / 16),
        hex_char(r as int % 16),
        hex_char(g as int / 16),
        hex_char(g as int % 16),
        hex_char(b as int / 16),
        hex_char(b as int % 16),
    ]
}

proof fn lemma_hex_pair(v: u8)
    ensures
        radix16_pair(seq![hex_char(v as int / 16), hex_char(v as int % 16)]) == Some(v),
{
    let hi = v as int / 16;
    let lo = v as int % 16;
    assert(0 <= hi < 16 && 0 <= lo < 16 && hi * 16 + lo == v) by (nonlinear_arith)
        requires
            hi == v as int / 16,
            lo == v as int % 16,
            0 <= v < 256,
    ;
    assert(hex_digit(hex_char(hi)) == Some(hi));
    assert(hex_digit(hex_char(lo)) == Some(lo));
}

/// Every colour written as `#rrggbb` reads back as that colour, and text that is not seven
/// characters starting with `#` is no colour.
pub proof fn law_hex_colours_read_back(r: u8, g: u8, b: u8, other: Seq<char>)
    ensures
        spec_parse_hex(hex_text(r, g, b)) == Some(Color::Rgb(r, g, b)),
        other.len() != 7 || other[0] != '#' ==> spec_parse_hex(other) is None,
{
    lemma_hex_pair(r);
    lemma_hex_pair(g);
    lemma_hex_pair(b);
    let t = hex_text(r, g, b);
    assert(t.subrange(1, 3) =~= seq![hex_char(r as int / 16), hex_char(r as int % 16)]);
    assert(t.subrange(3, 5) =~= seq![hex_char(g as int / 16), hex_char(g as int % 16)]);
    assert(t.subrange(5, 7) =~= seq![hex_char(b as int / 16), hex_char(b as int % 16)]);
}

} // verus!
