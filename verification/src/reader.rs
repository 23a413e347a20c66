//! The reader screen as styled pieces: the window of document lines shown, the gutter
//! marks, the cursor line, the tab bar and the status bar.

use vstd::prelude::*;
use crate::layout::{min_int, sat_sub, shorten_path, spec_shorten_path};
use crate::path::{file_name, spec_file_name};
use crate::style::{
    decimal, pieces_view, push_decimal, push_plain, push_str, repeat_char, sat_add_usize, spaces,
    used_width, width_of, Piece, PieceView, Role,
};
use crate::search::{
    lemma_highlight_line_spans, line_pieces_bytes, spec_highlight_line, try_highlight_search,
};
use crate::text::push_char;
use crate::theme::Color;
use vstd::utf8::{decode_utf8, encode_utf8, encode_utf8_decode_utf8};

verus! {

/// The first document line shown: the scroll position, held so that the last page stays
/// full.
pub fn first_shown_line(scroll: usize, total: usize, visible: usize) -> (r: usize)
    ensures
        r == min_int(scroll as int, sat_sub(total as int, visible as int)),
{
    let last = total.saturating_sub(visible);
    if scroll < last {
        scroll
    } else {
        last
    }
}

/// The number of scroll positions the scrollbar shows, when it is shown: only when it is
/// enabled and the document is longer than the screen.
pub fn scrollbar_extent(enabled: bool, total: usize, visible: usize) -> (r: Option<usize>)
    ensures
        r == (if enabled && total > visible {
            Some((total - visible) as usize)
        } else {
            None
        }),
{
    if enabled && total > visible {
        Some(total - visible)
    } else {
        None
    }
}

/// The gutter beside a line: a fold mark for a heading, a dot for a bookmarked line, or
/// blank.
pub open spec fn spec_gutter_mark(heading: bool, folded: bool, bookmarked: bool) -> PieceView {
    if heading {
        (if folded { seq!['▶', ' '] } else { seq!['▼', ' '] }, Some(Role::TextDim), None, false)
    } else if bookmarked {
        (seq!['●', ' '], Some(Role::Accent), None, false)
    } else {
        (seq![' ', ' '], None, None, false)
    }
}

/// The gutter piece of a line; see [`spec_gutter_mark`].
pub fn gutter_mark(heading: bool, folded: bool, bookmarked: bool) -> (p: Piece)
    ensures
        p@ == spec_gutter_mark(heading, folded, bookmarked),
{
    let mut text = String::new();
    if heading {
        push_char(&mut text, if folded { '▶' } else { '▼' });
        push_char(&mut text, ' ');
        Piece { text, fg: Some(Role::TextDim), bg: None, bold: false }
    } else if bookmarked {
        push_char(&mut text, '●');
        push_char(&mut text, ' ');
        Piece { text, fg: Some(Role::Accent), bg: None, bold: false }
    } else {
        push_char(&mut text, ' ');
        push_char(&mut text, ' ');
        Piece { text, fg: None, bg: None, bold: false }
    }
}

/// Whether a shown line is highlighted: it is the cursor line, or it comes from the same
/// source line as the cursor line (a wrapped continuation).
pub open spec fn spec_row_highlighted(
    row: int,
    cursor: int,
    cursor_source: Option<usize>,
    line_source: Option<usize>,
) -> bool {
    row == cursor || (cursor_source is Some && line_source == cursor_source)
}

/// Whether line `row` of the document is drawn as part of the cursor line.
pub fn row_highlighted(
    row: usize,
    cursor: usize,
    cursor_source: Option<usize>,
    line_source: Option<usize>,
) -> (b: bool)
    ensures
        b == spec_row_highlighted(row as int, cursor as int, cursor_source, line_source),
{
    if row == cursor {
        true
    } else {
        match (cursor_source, line_source) {
            (Some(c), Some(l)) => c == l,
            _ => false,
        }
    }
}

/// A line drawn as the cursor line, `width` columns wide: every piece keeps its colour and
/// weight on the cursor background, and spaces on that background fill the rest of the
/// width. Column sums saturate at the largest `usize`.
pub open spec fn spec_highlight_row(pieces: Seq<PieceView>, width: int) -> Seq<PieceView> {
    let marked = pieces.map_values(|p: PieceView| (p.0, p.1, Some(Role::CursorBg), p.3));
    let used = used_width(pieces);
    if used < width {
        marked.push((spaces(width - used), None, Some(Role::CursorBg), false))
    } else {
        marked
    }
}

/// Draws `pieces` as the cursor line; see [`spec_highlight_row`].
pub fn highlight_row(pieces: Vec<Piece>, width: usize) -> (r: Vec<Piece>)
    ensures
        pieces_view(r@) == spec_highlight_row(pieces_view(pieces@), width as int),
{
    let ghost src = pieces_view(pieces@);
    let mut out: Vec<Piece> = Vec::new();
    let mut used: usize = 0;
    let n = pieces.len();
    let mut i: usize = 0;
    while i < n
        invariant
            n == src.len(),
            src == pieces_view(pieces@),
            i <= n,
            pieces_view(out@) == src.take(i as int).map_values(
                |p: PieceView| (p.0, p.1, Some(Role::CursorBg), p.3),
            ),
            used == used_width(src.take(i as int)),
        decreases n - i,
    {
        let text = pieces[i].text.clone();
        let fg = pieces[i].fg;
        let bold = pieces[i].bold;
        assert((text@, fg, bold) == (src[i as int].0, src[i as int].1, src[i as int].3));
        let ghost before = pieces_view(out@);
        let w = width_of(text.as_str());
        push_plain(&mut out, text, fg, Some(Role::CursorBg), bold);
        used = sat_add_usize(used, w);
        assert(src.take(i + 1).drop_last() =~= src.take(i as int));
        assert(src.take(i + 1).map_values(|p: PieceView| (p.0, p.1, Some(Role::CursorBg), p.3))
            =~= before.push((src[i as int].0, src[i as int].1, Some(Role::CursorBg), src[i as int].3)));
        i += 1;
    }
    assert(src.take(n as int) =~= src);
    if used < width {
        let pad = repeat_char(' ', width - used);
        push_plain(&mut out, pad, None, Some(Role::CursorBg), false);
    }
    out
}

/// The name a tab shows: the file name of its document, or `[stdin]`.
pub open spec fn spec_tab_name(path: Option<Seq<char>>) -> Seq<char> {
    match path {
        Some(p) => match spec_file_name(p) {
            Some(n) => n,
            None => "[stdin]"@,
        },
        None => "[stdin]"@,
    }
}

/// The pieces of one tab: its name between spaces (the active tab in the selection colour,
/// bold, on the cursor background; the others dimmed), then a space.
pub open spec fn spec_tab_pieces(path: Option<Seq<char>>, active: bool) -> Seq<PieceView> {
    let label = seq![' '] + spec_tab_name(path) + seq![' '];
    seq![
        if active {
            (label, Some(Role::Selection), Some(Role::CursorBg), true)
        } else {
            (label, Some(Role::TextDim), None, false)
        },
        (seq![' '], None, None, false),
    ]
}

pub open spec fn opt_seq(o: Option<String>) -> Option<Seq<char>> {
    match o {
        Some(s) => Some(s@),
        None => None,
    }
}

/// The pieces of the first `n` tabs.
pub open spec fn tabs_pieces(paths: Seq<Option<String>>, active: int, n: int) -> Seq<PieceView>
    decreases n,
{
    if n <= 0 {
        seq![]
    } else {
        tabs_pieces(paths, active, n - 1) + spec_tab_pieces(opt_seq(paths[n - 1]), n - 1 == active)
    }
}

/// The tab bar: a space, then each tab in turn.
pub open spec fn spec_tab_bar(paths: Seq<Option<String>>, active: int) -> Seq<PieceView> {
    seq![(seq![' '], None, None, false)] + tabs_pieces(paths, active, paths.len() as int)
}

fn tab_name(path: &Option<String>) -> (r: String)
    ensures
        r@ == spec_tab_name(opt_seq(*path)),
{
    match path {
        Some(p) => match file_name(p.as_str()) {
            Some(n) => n,
            None => String::from_str("[stdin]"),
        },
        None => String::from_str("[stdin]"),
    }
}

/// The tab bar for the documents `paths`, with tab `active` shown as active.
pub fn tab_bar(paths: &[Option<String>], active: usize) -> (r: Vec<Piece>)
    ensures
        pieces_view(r@) == spec_tab_bar(paths@, active as int),
{
    let mut out: Vec<Piece> = Vec::new();
    let mut sp = String::new();
    push_char(&mut sp, ' ');
    push_plain(&mut out, sp, None, None, false);
    let ghost first = seq![(seq![' '], Option::<Role>::None, Option::<Role>::None, false)];
    assert(pieces_view(out@) =~= first + tabs_pieces(paths@, active as int, 0));
    let mut i: usize = 0;
    while i < paths.len()
        invariant
            i <= paths@.len(),
            first == seq![(seq![' '], Option::<Role>::None, Option::<Role>::None, false)],
            pieces_view(out@) == first + tabs_pieces(paths@, active as int, i as int),
        decreases paths.len() - i,
    {
        let name = tab_name(&paths[i]);
        let mut label = String::new();
        push_char(&mut label, ' ');
        push_str(&mut label, name.as_str());
        push_char(&mut label, ' ');
        assert(label@ =~= seq![' '] + spec_tab_name(opt_seq(paths@[i as int])) + seq![' ']);
        let ghost before = pieces_view(out@);
        if i == active {
            push_plain(&mut out, label, Some(Role::Selection), Some(Role::CursorBg), true);
        } else {
            push_plain(&mut out, label, Some(Role::TextDim), None, false);
        }
        let mut gap = String::new();
        push_char(&mut gap, ' ');
        push_plain(&mut out, gap, None, None, false);
        assert(pieces_view(out@) =~= before + spec_tab_pieces(opt_seq(paths@[i as int]), i == active));
        assert(tabs_pieces(paths@, active as int, i + 1) == tabs_pieces(paths@, active as int, i as int)
            + spec_tab_pieces(opt_seq(paths@[i as int]), i == active));
        i += 1;
    }
    out
}

/// What the status bar reports.
pub struct StatusInfo {
    /// The document shown, if any.
    pub file_path: Option<String>,
    /// How far down the document the screen is, in percent.
    pub percent: usize,
    /// Whether a search query is being typed.
    pub searching: bool,
    pub query: String,
    /// Number of matches of the query, and the index of the current one.
    pub matches: usize,
    pub current: usize,
    /// Whether only unchecked tasks are shown.
    pub filter_tasks: bool,
    /// The tag the document is filtered by, with its colour.
    pub tag: Option<(String, Color)>,
    /// Whether the document changed on disk since it was opened.
    pub file_updated: bool,
}

/// `(current/total)`, counting the current match from one.
pub open spec fn match_count_text(current: int, total: int) -> Seq<char> {
    seq!['('] + decimal((current + 1) as nat) + seq!['/'] + decimal(total as nat) + seq![')']
}

/// The separator between status fields.
pub open spec fn status_separator() -> PieceView {
    (seq![' ', '│', ' '], Some(Role::Border), None, false)
}

/// The status bar while a query is typed: `/`, the query, and the match count (or
/// `(no matches)` when the query is not empty).
pub open spec fn spec_search_status(info: StatusInfo) -> Seq<PieceView> {
    let match_info = if info.matches == 0 {
        if info.query@.len() == 0 {
            seq![]
        } else {
            " (no matches)"@
        }
    } else {
        seq![' '] + match_count_text(info.current as int, info.matches as int)
    };
    seq![
        (seq!['/'], Some(Role::Key), None, false),
        (info.query@, Some(Role::TextBright), None, false),
        (match_info, Some(Role::TextDim), None, false),
    ]
}

/// The fixed fields of the status bar: the name, the document (home written as `~`), the
/// percentage scrolled and the help key.
pub open spec fn spec_status_head(info: StatusInfo, home: Option<Seq<char>>) -> Seq<PieceView> {
    let file = match info.file_path {
        Some(p) => spec_shorten_path(p@, home),
        None => "no file"@,
    };
    seq![
        ("mdr"@, Some(Role::Accent), None, true),
        status_separator(),
        (file, Some(Role::Text), None, false),
        status_separator(),
        (decimal(info.percent as nat).push('%'), Some(Role::TextDim), None, false),
        status_separator(),
        ("?:help"@, Some(Role::Key), None, false),
    ]
}

/// The optional fields of the status bar, each after a separator when present: the task
/// filter, the tag filter, the changed-on-disk flag, and the last query with its match
/// count.
pub open spec fn spec_status_flags(info: StatusInfo) -> Seq<PieceView> {
    (if info.filter_tasks {
        seq![status_separator(), ("[tasks]"@, Some(Role::Features), None, true)]
    } else {
        seq![]
    }) + (match info.tag {
        Some((t, c)) => seq![status_separator(), (seq!['#'] + t@, Some(Role::Fixed(c)), None, true)],
        None => seq![],
    }) + (if info.file_updated {
        seq![status_separator(), ("[updated]"@, Some(Role::Features), None, true)]
    } else {
        seq![]
    }) + (if info.query@.len() > 0 {
        seq![
            status_separator(),
            (
                seq!['/'] + info.query@ + if info.matches == 0 {
                    seq![]
                } else {
                    seq![' '] + match_count_text(info.current as int, info.matches as int)
                },
                Some(Role::TextDim),
                None,
                false,
            ),
        ]
    } else {
        seq![]
    })
}

/// The status bar: the search line while a query is typed, else the fixed fields followed
/// by the optional ones.
pub open spec fn spec_status_line(info: StatusInfo, home: Option<Seq<char>>) -> Seq<PieceView> {
    if info.searching {
        spec_search_status(info)
    } else {
        spec_status_head(info, home) + spec_status_flags(info)
    }
}

fn push_separator(out: &mut Vec<Piece>)
    ensures
        pieces_view(final(out)@) == pieces_view(old(out)@).push(status_separator()),
{
    let mut t = String::new();
    push_char(&mut t, ' ');
    push_char(&mut t, '│');
    push_char(&mut t, ' ');
    assert(t@ =~= seq![' ', '│', ' ']);
    push_plain(out, t, Some(Role::Border), None, false);
}

/// Appends `(current/total)` to `out`.
fn push_match_count(out: &mut String, current: usize, total: usize)
    requires
        current < usize::MAX,
    ensures
        final(out)@ == old(out)@ + match_count_text(current as int, total as int),
{
    let ghost start = out@;
    push_char(out, '(');
    push_decimal(out, current + 1);
    push_char(out, '/');
    push_decimal(out, total);
    push_char(out, ')');
    assert(out@ =~= start + match_count_text(current as int, total as int));
}

fn search_status(info: &StatusInfo) -> (r: Vec<Piece>)
    requires
        info.matches > 0 ==> info.current < usize::MAX,
    ensures
        pieces_view(r@) == spec_search_status(*info),
{
    let mut out: Vec<Piece> = Vec::new();
    let mut slash = String::new();
    push_char(&mut slash, '/');
    push_plain(&mut out, slash, Some(Role::Key), None, false);
    push_plain(&mut out, info.query.clone(), Some(Role::TextBright), None, false);
    let match_info = if info.matches == 0 {
        if info.query.as_str().unicode_len() == 0 {
            String::new()
        } else {
            String::from_str(" (no matches)")
        }
    } else {
        let mut m = String::new();
        push_char(&mut m, ' ');
        push_match_count(&mut m, info.current, info.matches);
        m
    };
    push_plain(&mut out, match_info, Some(Role::TextDim), None, false);
    assert(pieces_view(out@) =~= spec_search_status(*info));
    out
}

fn status_head(info: &StatusInfo, home: Option<&str>) -> (r: Vec<Piece>)
    ensures
        pieces_view(r@) == spec_status_head(*info, match home { Some(h) => Some(h@), None => None }),
{
    let file = match &info.file_path {
        Some(p) => shorten_path(p.as_str(), home),
        None => String::from_str("no file"),
    };
    let mut out: Vec<Piece> = Vec::new();
    push_plain(&mut out, String::from_str("mdr"), Some(Role::Accent), None, true);
    push_separator(&mut out);
    push_plain(&mut out, file, Some(Role::Text), None, false);
    push_separator(&mut out);
    let mut pct = String::new();
    push_decimal(&mut pct, info.percent);
    push_char(&mut pct, '%');
    push_plain(&mut out, pct, Some(Role::TextDim), None, false);
    push_separator(&mut out);
    push_plain(&mut out, String::from_str("?:help"), Some(Role::Key), None, false);
    assert(pieces_view(out@) =~= spec_status_head(*info, match home { Some(h) => Some(h@), None => None }));
    out
}

fn push_status_flags(out: &mut Vec<Piece>, info: &StatusInfo)
    requires
        info.query@.len() > 0 && info.matches > 0 ==> info.current < usize::MAX,
    ensures
        pieces_view(final(out)@) == pieces_view(old(out)@) + spec_status_flags(*info),
{
    let ghost start = pieces_view(out@);
    if info.filter_tasks {
        push_separator(out);
        push_plain(out, String::from_str("[tasks]"), Some(Role::Features), None, true);
    }
    let ghost a = pieces_view(out@);
    match &info.tag {
        Some((t, c)) => {
            push_separator(out);
            let mut label = String::new();
            push_char(&mut label, '#');
            push_str(&mut label, t.as_str());
            push_plain(out, label, Some(Role::Fixed(*c)), None, true);
        },
        None => {},
    }
    let ghost b = pieces_view(out@);
    if info.file_updated {
        push_separator(out);
        push_plain(out, String::from_str("[updated]"), Some(Role::Features), None, true);
    }
    let ghost c = pieces_view(out@);
    if info.query.as_str().unicode_len() > 0 {
        push_separator(out);
        let mut q = String::new();
        push_char(&mut q, '/');
        push_str(&mut q, info.query.as_str());
        if info.matches > 0 {
            push_char(&mut q, ' ');
            push_match_count(&mut q, info.current, info.matches);
        }
        assert(q@ =~= seq!['/'] + info.query@ + if info.matches == 0 {
            seq![]
        } else {
            seq![' '] + match_count_text(info.current as int, info.matches as int)
        });
        push_plain(out, q, Some(Role::TextDim), None, false);
    }
    assert(pieces_view(out@) =~= start + spec_status_flags(*info));
}

/// The status bar; see [`spec_status_line`].
pub fn status_line(info: &StatusInfo, home: Option<&str>) -> (r: Vec<Piece>)
    requires
        (info.searching || info.query@.len() > 0) && info.matches > 0 ==> info.current < usize::MAX,
    ensures
        pieces_view(r@) == spec_status_line(*info, match home { Some(h) => Some(h@), None => None }),
{
    if info.searching {
        search_status(info)
    } else {
        let mut out = status_head(info, home);
        push_status_flags(&mut out, info);
        out
    }
}

/// A line split around its search matches: each match drawn in the dark background colour
/// on the selection colour, bold; every other piece keeps the style of the span it is cut
/// from. `parts` gives, for each piece, its span, its text (as UTF-8) and whether it is a
/// match.
pub open spec fn spec_style_highlight(line: Seq<PieceView>, parts: Seq<(int, Seq<u8>, bool)>) -> Seq<PieceView> {
    parts.map_values(
        |p: (int, Seq<u8>, bool)|
            if p.2 {
                (decode_utf8(p.1), Some(Role::BackgroundDark), Some(Role::Selection), true)
            } else {
                (decode_utf8(p.1), line[p.0].1, line[p.0].2, line[p.0].3)
            },
    )
}

/// Styles the pieces of a highlighted line; see [`spec_style_highlight`].
pub fn style_highlight(line: &Vec<Piece>, parts: Vec<(usize, String, bool)>) -> (r: Vec<Piece>)
    requires
        forall|k: int| 0 <= k < parts@.len() ==> (#[trigger] parts@[k]).0 < line@.len(),
    ensures
        pieces_view(r@) == spec_style_highlight(pieces_view(line@), line_pieces_bytes(parts@)),
{
    let ghost spec_parts = line_pieces_bytes(parts@);
    let ghost target = spec_style_highlight(pieces_view(line@), spec_parts);
    let n = parts.len();
    let mut rest = parts;
    let ghost all = rest@;
    let mut out: Vec<Piece> = Vec::new();
    let mut i: usize = 0;
    while i < n
        invariant
            n == all.len(),
            i <= n,
            rest@ == all.skip(i as int),
            forall|k: int| 0 <= k < all.len() ==> (#[trigger] all[k]).0 < line@.len(),
            spec_parts == line_pieces_bytes(all),
            target == spec_style_highlight(pieces_view(line@), spec_parts),
            pieces_view(out@) == target.take(i as int),
        decreases n - i,
    {
        let ghost before = rest@;
        let (k, text, mark) = rest.remove(0);
        assert(before[0] == all[i as int]);
        assert(rest@ =~= all.skip(i + 1));
        proof {
            encode_utf8_decode_utf8(text@);
        }
        assert(spec_parts[i as int] == (k as int, encode_utf8(text@), mark));
        if mark {
            push_plain(&mut out, text, Some(Role::BackgroundDark), Some(Role::Selection), true);
        } else {
            let fg = line[k].fg;
            let bg = line[k].bg;
            let bold = line[k].bold;
            push_plain(&mut out, text, fg, bg, bold);
        }
        assert(target.take(i + 1) =~= target.take(i as int).push(target[i as int]));
        i += 1;
    }
    assert(target.take(n as int) =~= target);
    out
}

/// The texts of the pieces.
pub open spec fn texts_of(p: Seq<PieceView>) -> Seq<Seq<char>> {
    p.map_values(|x: PieceView| x.0)
}

/// A line as shown for `query`: as it is without a query; else split around the matches,
/// or `None` where the matches cannot be cut out at the same byte offsets as in the
/// lower-cased text without splitting a character.
pub open spec fn spec_highlight_line_pieces(line: Seq<PieceView>, query: Seq<char>) -> Option<Seq<PieceView>> {
    if query.len() == 0 {
        Some(line)
    } else {
        match spec_highlight_line(texts_of(line), query) {
            Some(parts) => Some(spec_style_highlight(line, parts)),
            None => None,
        }
    }
}

/// A copy of the pieces.
pub fn copy_pieces(line: &Vec<Piece>) -> (r: Vec<Piece>)
    ensures
        pieces_view(r@) == pieces_view(line@),
{
    let mut out: Vec<Piece> = Vec::new();
    let mut i: usize = 0;
    while i < line.len()
        invariant
            i <= line@.len(),
            pieces_view(out@) == pieces_view(line@).take(i as int),
        decreases line.len() - i,
    {
        push_plain(&mut out, line[i].text.clone(), line[i].fg, line[i].bg, line[i].bold);
        assert(pieces_view(line@).take(i + 1) =~= pieces_view(line@).take(i as int).push(line@[i as int]@));
        i += 1;
    }
    assert(pieces_view(line@).take(line.len() as int) =~= pieces_view(line@));
    out
}

/// The line as shown for `query`; see [`spec_highlight_line_pieces`].
pub fn highlight_line_pieces(line: &Vec<Piece>, query: &str) -> (r: Option<Vec<Piece>>)
    ensures
        match r {
            Some(v) => spec_highlight_line_pieces(pieces_view(line@), query@) == Some(pieces_view(v@)),
            None => spec_highlight_line_pieces(pieces_view(line@), query@) is None,
        },
{
    if query.unicode_len() == 0 {
        return Some(copy_pieces(line));
    }
    let mut texts: Vec<String> = Vec::new();
    let mut i: usize = 0;
    while i < line.len()
        invariant
            i <= line@.len(),
            texts@.map_values(|s: String| s@) == texts_of(pieces_view(line@)).take(i as int),
        decreases line.len() - i,
    {
        let t = line[i].text.clone();
        let ghost before = texts@;
        texts.push(t);
        assert(texts@.map_values(|s: String| s@) =~= before.map_values(|s: String| s@).push(line@[i as int].text@));
        assert(texts_of(pieces_view(line@)).take(i + 1) =~= texts_of(pieces_view(line@)).take(i as int).push(line@[i as int].text@));
        i += 1;
    }
    assert(texts_of(pieces_view(line@)).take(line.len() as int) =~= texts_of(pieces_view(line@)));
    proof {
        lemma_highlight_line_spans(texts_of(pieces_view(line@)), query@);
    }
    match try_highlight_search(&texts, query) {
        Some(parts) => {
            assert forall|k: int| 0 <= k < parts@.len() implies (#[trigger] parts@[k]).0 < line@.len() by {
                assert(line_pieces_bytes(parts@)[k].0 == parts@[k].0 as int);
            }
            Some(style_highlight(line, parts))
        },
        None => None,
    }
}

/// A document line as laid out for the screen.
pub struct ReaderLine {
    /// Its styled text.
    pub pieces: Vec<Piece>,
    /// Whether it is a heading with text (which gets a fold mark).
    pub heading: bool,
    /// Whether that heading is folded.
    pub folded: bool,
    /// The source line it comes from (shared by the lines a long source line wraps into).
    pub source: Option<usize>,
}

/// What the screen shows of one document row: its gutter and its text.
pub open spec fn rows_view(rows: Seq<(Piece, Vec<Piece>)>) -> Seq<(PieceView, Seq<PieceView>)> {
    rows.map_values(|r: (Piece, Vec<Piece>)| (r.0@, pieces_view(r.1@)))
}

/// The source line of the cursor row, when the cursor is on a shown line.
pub open spec fn cursor_source(lines: Seq<ReaderLine>, shown: Seq<usize>, cursor: int) -> Option<usize> {
    if 0 <= cursor < shown.len() && shown[cursor] < lines.len() {
        lines[shown[cursor] as int].source
    } else {
        None
    }
}

/// Row `row` of the shown lines: its gutter mark (fold mark, bookmark or blank), then its
/// text split around the matches of `query`, drawn as the cursor line when it is the
/// cursor row or wraps the same source line.
pub open spec fn spec_reader_row(
    lines: Seq<ReaderLine>,
    shown: Seq<usize>,
    row: int,
    cursor: int,
    bookmarks: Seq<usize>,
    query: Seq<char>,
    width: int,
) -> Option<(PieceView, Seq<PieceView>)> {
    let l = lines[shown[row] as int];
    let gutter = spec_gutter_mark(l.heading, l.folded, bookmarks.contains(row as usize));
    match spec_highlight_line_pieces(pieces_view(l.pieces@), query) {
        Some(content) => Some((
            gutter,
            if spec_row_highlighted(row, cursor, cursor_source(lines, shown, cursor), l.source) {
                spec_highlight_row(content, width)
            } else {
                content
            },
        )),
        None => None,
    }
}

/// The first `n` rows shown from `first` on, or `None` when one of them cannot be
/// highlighted.
pub open spec fn reader_rows_upto(
    lines: Seq<ReaderLine>,
    shown: Seq<usize>,
    first: int,
    n: int,
    cursor: int,
    bookmarks: Seq<usize>,
    query: Seq<char>,
    width: int,
) -> Option<Seq<(PieceView, Seq<PieceView>)>>
    decreases n,
{
    if n <= 0 {
        Some(seq![])
    } else {
        match (
            reader_rows_upto(lines, shown, first, n - 1, cursor, bookmarks, query, width),
            spec_reader_row(lines, shown, first + n - 1, cursor, bookmarks, query, width),
        ) {
            (Some(a), Some(b)) => Some(a.push(b)),
            _ => None,
        }
    }
}

/// Number of rows shown from the first shown line.
pub open spec fn shown_count(total: int, scroll: int, visible: int) -> int {
    min_int(visible, total - min_int(scroll, sat_sub(total, visible)))
}

/// The rows of the reader: the document lines `shown` (indices into `lines`, in display
/// order) from the first shown line (see [`first_shown_line`]) on, at most `visible` of
/// them, each with its gutter and text; `None` when a shown line's matches of `query`
/// cannot be cut out (see [`spec_highlight_line_pieces`]).
pub open spec fn spec_reader_rows(
    lines: Seq<ReaderLine>,
    shown: Seq<usize>,
    scroll: int,
    visible: int,
    cursor: int,
    bookmarks: Seq<usize>,
    query: Seq<char>,
    width: int,
) -> Option<Seq<(PieceView, Seq<PieceView>)>> {
    let first = min_int(scroll, sat_sub(shown.len() as int, visible));
    reader_rows_upto(
        lines,
        shown,
        first,
        shown_count(shown.len() as int, scroll, visible),
        cursor,
        bookmarks,
        query,
        width,
    )
}

/// Every shown line that will be drawn is a line of the document.
pub open spec fn shown_rows_valid(lines: Seq<ReaderLine>, shown: Seq<usize>, scroll: int, visible: int) -> bool {
    let first = min_int(scroll, sat_sub(shown.len() as int, visible));
    forall|i: int|
        0 <= i < shown_count(shown.len() as int, scroll, visible) ==> (#[trigger] shown[first + i])
            < lines.len()
}

fn contains_index(v: &Vec<usize>, x: usize) -> (b: bool)
    ensures
        b == v@.contains(x),
{
    let mut i: usize = 0;
    while i < v.len()
        invariant
            i <= v@.len(),
            forall|k: int| 0 <= k < i ==> v@[k] != x,
        decreases v.len() - i,
    {
        if v[i] == x {
            return true;
        }
        i += 1;
    }
    false
}

/// The rows of the reader; see [`spec_reader_rows`].
pub fn reader_rows(
    lines: &Vec<ReaderLine>,
    shown: &Vec<usize>,
    scroll: usize,
    visible: usize,
    cursor: usize,
    bookmarks: &Vec<usize>,
    query: &str,
    width: usize,
) -> (r: Option<Vec<(Piece, Vec<Piece>)>>)
    requires
        shown_rows_valid(lines@, shown@, scroll as int, visible as int),
    ensures
        match r {
            Some(v) => spec_reader_rows(lines@, shown@, scroll as int, visible as int, cursor as int, bookmarks@, query@, width as int) == Some(rows_view(v@)),
            None => spec_reader_rows(lines@, shown@, scroll as int, visible as int, cursor as int, bookmarks@, query@, width as int) is None,
        },
{
    let total = shown.len();
    let first = first_shown_line(scroll, total, visible);
    let count = if visible < total - first { visible } else { total - first };
    assert(count as int == shown_count(total as int, scroll as int, visible as int));
    let cs: Option<usize> = if cursor < total && shown[cursor] < lines.len() {
        lines[shown[cursor]].source
    } else {
        None
    };
    assert(cs == cursor_source(lines@, shown@, cursor as int));
    let mut out: Vec<(Piece, Vec<Piece>)> = Vec::new();
    let mut i: usize = 0;
    while i < count
        invariant
            i <= count,
            first + count <= total == shown@.len(),
            first as int == min_int(scroll as int, sat_sub(total as int, visible as int)),
            count as int == shown_count(total as int, scroll as int, visible as int),
            cs == cursor_source(lines@, shown@, cursor as int),
            shown_rows_valid(lines@, shown@, scroll as int, visible as int),
            reader_rows_upto(lines@, shown@, first as int, i as int, cursor as int, bookmarks@, query@, width as int) == Some(rows_view(out@)),
        decreases count - i,
    {
        let row = first + i;
        assert(shown@[first + i] < lines@.len());
        let l = &lines[shown[row]];
        let gutter = gutter_mark(l.heading, l.folded, contains_index(bookmarks, row));
        let content = match highlight_line_pieces(&l.pieces, query) {
            Some(c) => c,
            None => {
                proof {
                    lemma_rows_none_extends(lines@, shown@, first as int, i + 1, count as int, cursor as int, bookmarks@, query@, width as int);
                }
                return None;
            },
        };
        let shown_content = if row_highlighted(row, cursor, cs, l.source) {
            highlight_row(content, width)
        } else {
            content
        };
        let ghost before = out@;
        let ghost item = (gutter@, pieces_view(shown_content@));
        assert(spec_reader_row(lines@, shown@, row as int, cursor as int, bookmarks@, query@, width as int) == Some(item));
        out.push((gutter, shown_content));
        assert(rows_view(out@) =~= rows_view(before).push(item));
        i += 1;
    }
    Some(out)
}

proof fn lemma_rows_none_extends(
    lines: Seq<ReaderLine>,
    shown: Seq<usize>,
    first: int,
    k: int,
    n: int,
    cursor: int,
    bookmarks: Seq<usize>,
    query: Seq<char>,
    width: int,
)
    requires
        0 <= k <= n,
        reader_rows_upto(lines, shown, first, k, cursor, bookmarks, query, width) is None,
    ensures
        reader_rows_upto(lines, shown, first, n, cursor, bookmarks, query, width) is None,
    decreases n - k,
{
    if k < n {
        lemma_rows_none_extends(lines, shown, first, k + 1, n, cursor, bookmarks, query, width);
    }
}

proof fn lemma_rows_upto_items(
    lines: Seq<ReaderLine>,
    shown: Seq<usize>,
    first: int,
    n: int,
    cursor: int,
    bookmarks: Seq<usize>,
    query: Seq<char>,
    width: int,
    v: Seq<(PieceView, Seq<PieceView>)>,
)
    requires
        0 <= n,
        reader_rows_upto(lines, shown, first, n, cursor, bookmarks, query, width) == Some(v),
    ensures
        v.len() == n,
        forall|i: int| 0 <= i < n ==> Some(#[trigger] v[i]) == spec_reader_row(
            lines,
            shown,
            first + i,
            cursor,
            bookmarks,
            query,
            width,
        ),
    decreases n,
{
    if n > 0 {
        let a = reader_rows_upto(lines, shown, first, n - 1, cursor, bookmarks, query, width)->0;
        lemma_rows_upto_items(lines, shown, first, n - 1, cursor, bookmarks, query, width, a);
        assert(v == a.push(spec_reader_row(lines, shown, first + n - 1, cursor, bookmarks, query, width)->0));
        assert forall|i: int| 0 <= i < n implies Some(#[trigger] v[i]) == spec_reader_row(
            lines,
            shown,
            first + i,
            cursor,
            bookmarks,
            query,
            width,
        ) by {
            if i < n - 1 {
                assert(v[i] == a[i]);
            }
        }
    }
}

/// The row at the cursor, and every shown row that comes from the same source line as the
/// document line shown at the cursor (the wrapped rest of that line), are drawn as the
/// cursor line: every piece on the cursor background. Every other row is drawn as its line
/// is (split around the matches of `query`), untouched.
pub proof fn law_cursor_line_and_its_wraps(
    lines: Seq<ReaderLine>,
    shown: Seq<usize>,
    scroll: int,
    visible: int,
    cursor: int,
    bookmarks: Seq<usize>,
    query: Seq<char>,
    width: int,
    v: Seq<(PieceView, Seq<PieceView>)>,
)
    requires
        0 <= scroll,
        0 <= visible,
        0 <= cursor < shown.len(),
        shown[cursor] < lines.len(),
        spec_reader_rows(lines, shown, scroll, visible, cursor, bookmarks, query, width) == Some(v),
    ensures
        v.len() == shown_count(shown.len() as int, scroll, visible),
        forall|i: int|
            #![trigger v[i]]
            0 <= i < v.len() ==> {
                let row = min_int(scroll, sat_sub(shown.len() as int, visible)) + i;
                let line = lines[shown[row] as int];
                let cursor_line = lines[shown[cursor] as int];
                let highlighted = row == cursor || (line.source is Some && line.source
                    == cursor_line.source);
                &&& highlighted ==> forall|j: int|
                    0 <= j < v[i].1.len() ==> (#[trigger] v[i].1[j]).2 == Some(Role::CursorBg)
                &&& !highlighted ==> Some(v[i].1) == spec_highlight_line_pieces(
                    pieces_view(line.pieces@),
                    query,
                )
            },
{
    let first = min_int(scroll, sat_sub(shown.len() as int, visible));
    let n = shown_count(shown.len() as int, scroll, visible);
    lemma_rows_upto_items(lines, shown, first, n, cursor, bookmarks, query, width, v);
    assert forall|i: int|
        #![trigger v[i]]
        0 <= i < v.len() implies {
            let row = first + i;
            let line = lines[shown[row] as int];
            let cursor_line = lines[shown[cursor] as int];
            let highlighted = row == cursor || (line.source is Some && line.source
                == cursor_line.source);
            &&& highlighted ==> forall|j: int|
                0 <= j < v[i].1.len() ==> (#[trigger] v[i].1[j]).2 == Some(Role::CursorBg)
            &&& !highlighted ==> Some(v[i].1) == spec_highlight_line_pieces(
                pieces_view(line.pieces@),
                query,
            )
        } by {
        let row = first + i;
        let line = lines[shown[row] as int];
        assert(Some(v[i]) == spec_reader_row(lines, shown, row, cursor, bookmarks, query, width));
        let content = spec_highlight_line_pieces(pieces_view(line.pieces@), query)->0;
        if spec_row_highlighted(row, cursor, cursor_source(lines, shown, cursor), line.source) {
            let h = spec_highlight_row(content, width);
            assert(v[i].1 == h);
            assert forall|j: int| 0 <= j < h.len() implies (#[trigger] h[j]).2 == Some(Role::CursorBg) by {
                let marked = content.map_values(|p: PieceView| (p.0, p.1, Some(Role::CursorBg), p.3));
                if j < marked.len() {
                    assert(h[j] == marked[j]);
                }
            }
        }
    }
}

} // verus!
