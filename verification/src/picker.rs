//! The file picker as coloured pieces of text: which rows the list shows, the heading of
//! the recent documents, one line per entry (with its selection marker, icon, highlighted
//! matches and, for a recent document, its directory on the right), the title, the filter
//! input, and the hint line with its status.

use vstd::prelude::*;
use crate::layout::{display_width, sat_sub, spec_shorten_path, spec_truncate_left, shorten_path, truncate_left};
use crate::path::{parent, spec_parent};
use crate::style::{
    decimal, padded, pieces_view, push_decimal, push_piece, push_plain, push_str, repeat_char,
    rules, sat_add, sat_add_usize, spaces, used_width, width_of, Piece, PieceView, Role,
};
use crate::text::{push_char, string_from_chars, chars_of};

verus! {

/// An entry of the file picker.
pub struct PickerEntry {
    /// The name shown (a relative path for files found below the directory).
    pub name: String,
    pub path: String,
    pub is_dir: bool,
    pub is_recent: bool,
}

pub open spec fn recent_label() -> Seq<char> {
    seq![' ', 'M', 'o', 's', 't', ' ', 'R', 'e', 'c', 'e', 'n', 't', ' ']
}

/// The heading above the recent documents, `width` columns wide: the label, then a rule.
pub open spec fn spec_recent_heading(width: int) -> Seq<PieceView> {
    let used = 2 + recent_label().len();
    seq![
        (seq![' ', ' '], None, Some(Role::Background), false),
        (recent_label(), Some(Role::PickerRecent), Some(Role::Background), true),
    ] + if used < width {
        seq![(rules(width - used), Some(Role::PickerBorder), Some(Role::Background), false)]
    } else {
        seq![]
    }
}

/// The heading line of the recent documents.
pub fn recent_heading(width: usize) -> (r: Vec<Piece>)
    ensures
        pieces_view(r@) == spec_recent_heading(width as int),
{
    let mut r: Vec<Piece> = Vec::new();
    r.push(Piece { text: string_from_chars(&vec![' ', ' ']), fg: None, bg: Some(Role::Background), bold: false });
    let label = string_from_chars(
        &vec![' ', 'M', 'o', 's', 't', ' ', 'R', 'e', 'c', 'e', 'n', 't', ' '],
    );
    r.push(Piece { text: label, fg: Some(Role::PickerRecent), bg: Some(Role::Background), bold: true });
    let used: usize = 15;
    if used < width {
        r.push(
            Piece {
                text: repeat_char('─', width - used),
                fg: Some(Role::PickerBorder),
                bg: Some(Role::Background),
                bold: false,
            },
        );
    }
    assert(pieces_view(r@) =~= spec_recent_heading(width as int));
    r
}

/// Index of the last `/` among the first `k` characters of `n`, or -1.
pub open spec fn last_slash(n: Seq<char>, k: int) -> int
    decreases k,
{
    if k <= 0 {
        -1
    } else if n[k - 1] == '/' {
        k - 1
    } else {
        last_slash(n, k - 1)
    }
}

pub open spec fn parent_entry_name() -> Seq<char> {
    seq!['.', '.', '/']
}

/// Where the last path segment of the name starts (0 for a directory).
pub open spec fn basename_start(name: Seq<char>, is_dir: bool) -> int {
    if is_dir {
        0
    } else {
        last_slash(name, name.len() as int) + 1
    }
}

/// The foreground of the `i`-th character of the name.
pub open spec fn char_role(
    name: Seq<char>,
    is_dir: bool,
    is_recent: bool,
    matched: bool,
    i: int,
) -> Role {
    if matched {
        Role::PickerMatched
    } else if i < basename_start(name, is_dir) || name == parent_entry_name() {
        Role::TextDim
    } else if is_recent {
        Role::PickerRecent
    } else if is_dir {
        Role::PickerDirectory
    } else {
        Role::Text
    }
}

/// The selection marker, the icon and one piece per character of the name.
pub open spec fn entry_head(
    name: Seq<char>,
    is_dir: bool,
    is_recent: bool,
    matches: Seq<usize>,
    selected: bool,
) -> Seq<PieceView> {
    let bg = if selected { Some(Role::CursorBg) } else { Some(Role::Background) };
    let is_up = name == parent_entry_name();
    let icon = if is_up {
        seq!['↑', ' ']
    } else if is_dir {
        seq!['›', ' ']
    } else {
        seq![' ', ' ']
    };
    let icon_role = if is_up {
        Role::TextDim
    } else if is_dir {
        Role::PickerDirectory
    } else if is_recent {
        Role::PickerRecent
    } else {
        Role::Text
    };
    let marker = if selected { seq!['▌', ' '] } else { seq![' ', ' '] };
    seq![(marker, Some(Role::PickerAccent), bg, false), (icon, Some(icon_role), bg, false)]
        + Seq::new(
        name.len(),
        |i: int|
            {
                let matched = matches.contains(i as usize);
                (
                    seq![name[i]],
                    Some(char_role(name, is_dir, is_recent, matched, i)),
                    bg,
                    matched || (selected && i >= basename_start(name, is_dir)),
                )
            },
    )
}

/// The directory label of a recent document shown without a filter: its directory (home
/// written as `~`, cut from the left to fit) when at least three columns remain for it
/// after the `used` columns and a two-column gap.
pub open spec fn spec_entry_label(
    path: Seq<char>,
    is_recent: bool,
    filter_empty: bool,
    used: int,
    width: int,
    home: Option<Seq<char>>,
) -> Option<Seq<char>> {
    if is_recent && filter_empty {
        match spec_parent(path) {
            Some(p) => {
                let available = sat_sub(width, sat_add(used, 2));
                if available >= 3 {
                    Some(spec_truncate_left(spec_shorten_path(p, home), available))
                } else {
                    None
                }
            },
            None => None,
        }
    } else {
        None
    }
}

/// The line of a picker entry, `width` columns wide: the head, then the directory label at
/// the right edge, or else spaces to the full width. Column sums saturate at the largest
/// `usize`.
pub open spec fn spec_entry_line(
    name: Seq<char>,
    path: Seq<char>,
    is_dir: bool,
    is_recent: bool,
    matches: Seq<usize>,
    filter_empty: bool,
    selected: bool,
    width: int,
    home: Option<Seq<char>>,
) -> Seq<PieceView> {
    let bg = if selected { Some(Role::CursorBg) } else { Some(Role::Background) };
    let head = entry_head(name, is_dir, is_recent, matches, selected);
    let used = used_width(head);
    match spec_entry_label(path, is_recent, filter_empty, used, width, home) {
        Some(t) => {
            let gap = sat_sub(width, sat_add(used, display_width(t) as int));
            head + seq![(spaces(gap), None, bg, false), (t, Some(Role::TextDim), bg, false)]
        },
        None => head + if used < width {
            seq![(spaces(width - used), None, bg, false)]
        } else {
            seq![]
        },
    }
}

/// Whether `i` is among the match positions.
fn is_match(matches: &[usize], i: usize) -> (b: bool)
    ensures
        b == matches@.contains(i),
{
    let mut k: usize = 0;
    while k < matches.len()
        invariant
            k <= matches@.len(),
            forall|j: int| 0 <= j < k ==> matches@[j] != i,
        decreases matches.len() - k,
    {
        if matches[k] == i {
            return true;
        }
        k += 1;
    }
    false
}

/// The marker, icon and name pieces of an entry, with the columns they take.
fn entry_head_pieces(entry: &PickerEntry, matches: &[usize], selected: bool) -> (r: (
    Vec<Piece>,
    usize,
))
    ensures
        pieces_view(r.0@) == entry_head(
            entry.name@,
            entry.is_dir,
            entry.is_recent,
            matches@,
            selected,
        ),
        r.1 == used_width(pieces_view(r.0@)),
{
    let name = chars_of(entry.name.as_str());
    let bg = if selected { Some(Role::CursorBg) } else { Some(Role::Background) };
    let up = name.len() == 3 && name[0] == '.' && name[1] == '.' && name[2] == '/';
    assert(up == (name@ == parent_entry_name())) by {
        if name@ == parent_entry_name() {
            assert(name@[0] == '.' && name@[1] == '.' && name@[2] == '/');
        }
        if up {
            assert(name@ =~= parent_entry_name());
        }
    }
    let icon = if up {
        string_from_chars(&vec!['↑', ' '])
    } else if entry.is_dir {
        string_from_chars(&vec!['›', ' '])
    } else {
        string_from_chars(&vec![' ', ' '])
    };
    let icon_role = if up {
        Role::TextDim
    } else if entry.is_dir {
        Role::PickerDirectory
    } else if entry.is_recent {
        Role::PickerRecent
    } else {
        Role::Text
    };
    let marker = if selected {
        string_from_chars(&vec!['▌', ' '])
    } else {
        string_from_chars(&vec![' ', ' '])
    };
    // Where the last segment of the name starts.
    let mut k: usize = name.len();
    while k > 0 && name[k - 1] != '/'
        invariant
            k <= name.len(),
            last_slash(name@, name.len() as int) == last_slash(name@, k as int),
        decreases k,
    {
        k -= 1;
    }
    let base: usize = if entry.is_dir { 0 } else { k };
    assert(base == basename_start(name@, entry.is_dir));

    let mut out: Vec<Piece> = Vec::new();
    let mut used: usize = 0;
    assert(pieces_view(out@) =~= Seq::<PieceView>::empty());
    push_piece(&mut out, &mut used, marker, Some(Role::PickerAccent), bg, false);
    push_piece(&mut out, &mut used, icon, Some(icon_role), bg, false);
    let ghost head = entry_head(name@, entry.is_dir, entry.is_recent, matches@, selected);
    assert(pieces_view(out@) =~= head.take(2));
    let mut i: usize = 0;
    while i < name.len()
        invariant
            i <= name.len(),
            name@ == entry.name@,
            base == basename_start(name@, entry.is_dir),
            up == (name@ == parent_entry_name()),
            bg == (if selected { Some(Role::CursorBg) } else { Some(Role::Background) }),
            head == entry_head(name@, entry.is_dir, entry.is_recent, matches@, selected),
            pieces_view(out@) == head.take(2 + i),
            used == used_width(pieces_view(out@)),
        decreases name.len() - i,
    {
        let matched = is_match(matches, i);
        let role = if matched {
            Role::PickerMatched
        } else if i < base || up {
            Role::TextDim
        } else if entry.is_recent {
            Role::PickerRecent
        } else if entry.is_dir {
            Role::PickerDirectory
        } else {
            Role::Text
        };
        let bold = matched || (selected && i >= base);
        let mut text = String::new();
        push_char(&mut text, name[i]);
        assert(text@ =~= seq![name@[i as int]]);
        push_piece(&mut out, &mut used, text, Some(role), bg, bold);
        assert(head[2 + i] == (seq![name@[i as int]], Some(role), bg, bold));
        assert(head.take(2 + i + 1) =~= head.take(2 + i).push(head[2 + i]));
        i += 1;
    }
    assert(head.take(2 + name.len()) =~= head);
    (out, used)
}

fn entry_label(
    path: &str,
    is_recent: bool,
    filter_empty: bool,
    used: usize,
    width: usize,
    home: Option<&str>,
) -> (r: Option<String>)
    ensures
        match r {
            Some(t) => spec_entry_label(path@, is_recent, filter_empty, used as int, width as int, match home { Some(h) => Some(h@), None => None }) == Some(t@),
            None => spec_entry_label(path@, is_recent, filter_empty, used as int, width as int, match home { Some(h) => Some(h@), None => None }) is None,
        },
{
    if is_recent && filter_empty {
        match parent(path) {
            Some(p) => {
                let available = width.saturating_sub(sat_add_usize(used, 2));
                if available >= 3 {
                    let short = shorten_path(p.as_str(), home);
                    Some(truncate_left(short.as_str(), available))
                } else {
                    None
                }
            },
            None => None,
        }
    } else {
        None
    }
}

/// The rest of an entry line after its head (which takes `used` columns): the label
/// (taking `label_width` columns) pushed to the right edge by spaces, or else spaces up to
/// `width`.
pub open spec fn spec_finish_entry_line(
    head: Seq<PieceView>,
    used: int,
    label: Option<Seq<char>>,
    label_width: int,
    width: int,
    selected: bool,
) -> Seq<PieceView> {
    let bg = if selected { Some(Role::CursorBg) } else { Some(Role::Background) };
    match label {
        Some(t) => {
            let gap = sat_sub(width, sat_add(used, label_width));
            head + seq![(spaces(gap), None, bg, false), (t, Some(Role::TextDim), bg, false)]
        },
        None => head + if used < width {
            seq![(spaces(width - used), None, bg, false)]
        } else {
            seq![]
        },
    }
}

/// Completes an entry line from its head, the columns the head takes, and the directory
/// label with its width; see [`spec_finish_entry_line`].
pub fn finish_entry_line(
    head: Vec<Piece>,
    used: usize,
    label: Option<String>,
    label_width: usize,
    width: usize,
    selected: bool,
) -> (r: Vec<Piece>)
    ensures
        pieces_view(r@) == spec_finish_entry_line(
            pieces_view(head@),
            used as int,
            opt_text(label),
            label_width as int,
            width as int,
            selected,
        ),
{
    let bg = if selected { Some(Role::CursorBg) } else { Some(Role::Background) };
    let mut out = head;
    let ghost h = pieces_view(out@);
    match label {
        Some(t) => {
            let gap = width.saturating_sub(sat_add_usize(used, label_width));
            let pad = repeat_char(' ', gap);
            let ghost tv = t@;
            out.push(Piece { text: pad, fg: None, bg, bold: false });
            out.push(Piece { text: t, fg: Some(Role::TextDim), bg, bold: false });
            assert(pieces_view(out@) =~= h + seq![(spaces(gap as int), None, bg, false), (tv, Some(Role::TextDim), bg, false)]);
        },
        None => {
            if used < width {
                let pad = repeat_char(' ', width - used);
                out.push(Piece { text: pad, fg: None, bg, bold: false });
                assert(pieces_view(out@) =~= h + seq![(spaces((width - used) as int), None, bg, false)]);
            } else {
                assert(pieces_view(out@) =~= h + Seq::<PieceView>::empty());
            }
        },
    }
    out
}

pub open spec fn opt_text(o: Option<String>) -> Option<Seq<char>> {
    match o {
        Some(s) => Some(s@),
        None => None,
    }
}

/// The line of a picker entry; see [`spec_entry_line`].
pub fn entry_line(
    entry: &PickerEntry,
    matches: &[usize],
    filter_empty: bool,
    selected: bool,
    width: usize,
    home: Option<&str>,
) -> (r: Vec<Piece>)
    ensures
        pieces_view(r@) == spec_entry_line(
            entry.name@,
            entry.path@,
            entry.is_dir,
            entry.is_recent,
            matches@,
            filter_empty,
            selected,
            width as int,
            match home { Some(h) => Some(h@), None => None },
        ),
{
    let (head, used) = entry_head_pieces(entry, matches, selected);
    let label = entry_label(entry.path.as_str(), entry.is_recent, filter_empty, used, width, home);
    let label_width = match &label {
        Some(t) => width_of(t.as_str()),
        None => 0,
    };
    finish_entry_line(head, used, label, label_width, width, selected)
}

/// The pieces for one key binding of the hint line: the key, then what it does.
pub open spec fn binding_pieces(key: Seq<char>, action: Seq<char>) -> Seq<PieceView> {
    seq![
        (seq![' '] + key + seq![' '], Some(Role::PickerAccent), Some(Role::CursorBg), true),
        (seq![' '] + action + seq![' ', ' '], Some(Role::TextDim), Some(Role::BackgroundDark), false),
    ]
}

pub open spec fn bindings_pieces(bindings: Seq<(String, String)>) -> Seq<PieceView>
    decreases bindings.len(),
{
    if bindings.len() == 0 {
        seq![]
    } else {
        bindings_pieces(bindings.drop_last()) + binding_pieces(bindings.last().0@, bindings.last().1@)
    }
}

/// The hint line at the foot of the picker: a space, each key binding, then the status
/// text in its colour.
pub open spec fn spec_hint_line(bindings: Seq<(String, String)>, status: Option<(String, Role)>) -> Seq<PieceView> {
    seq![(seq![' '], None, Some(Role::BackgroundDark), false)] + bindings_pieces(bindings) + match status {
        Some((text, role)) => seq![(text@, Some(role), Some(Role::BackgroundDark), false)],
        None => seq![],
    }
}

/// The hint line of the picker; see [`spec_hint_line`].
pub fn hint_line(bindings: &[(String, String)], status: Option<(String, Role)>) -> (r: Vec<Piece>)
    ensures
        pieces_view(r@) == spec_hint_line(bindings@, status),
{
    let mut out: Vec<Piece> = Vec::new();
    let sp = string_from_chars(&vec![' ']);
    assert(sp@ =~= seq![' ']);
    out.push(Piece { text: sp, fg: None, bg: Some(Role::BackgroundDark), bold: false });
    assert(bindings@.take(0) =~= Seq::<(String, String)>::empty());
    let ghost first = seq![(seq![' '], Option::<Role>::None, Some(Role::BackgroundDark), false)];
    assert(pieces_view(out@) =~= first + bindings_pieces(bindings@.take(0)));
    let mut i: usize = 0;
    while i < bindings.len()
        invariant
            i <= bindings@.len(),
            first == seq![(seq![' '], Option::<Role>::None, Some(Role::BackgroundDark), false)],
            pieces_view(out@) == first + bindings_pieces(bindings@.take(i as int)),
        decreases bindings.len() - i,
    {
        let key = padded(1, bindings[i].0.as_str(), 1);
        let action = padded(1, bindings[i].1.as_str(), 2);
        assert(key@ =~= seq![' '] + bindings@[i as int].0@ + seq![' ']);
        assert(action@ =~= seq![' '] + bindings@[i as int].1@ + seq![' ', ' ']);
        let ghost before = pieces_view(out@);
        out.push(Piece { text: key, fg: Some(Role::PickerAccent), bg: Some(Role::CursorBg), bold: true });
        out.push(Piece { text: action, fg: Some(Role::TextDim), bg: Some(Role::BackgroundDark), bold: false });
        assert(bindings@.take(i + 1).drop_last() =~= bindings@.take(i as int));
        assert(bindings@.take(i + 1).last() == bindings@[i as int]);
        assert(pieces_view(out@) =~= before + binding_pieces(bindings@[i as int].0@, bindings@[i as int].1@));
        i += 1;
    }
    assert(bindings@.take(bindings.len() as int) =~= bindings@);
    let ghost before = pieces_view(out@);
    match status {
        Some((text, role)) => {
            let ghost tv = text@;
            out.push(Piece { text, fg: Some(role), bg: Some(Role::BackgroundDark), bold: false });
            assert(pieces_view(out@) =~= before + seq![(tv, Some(role), Some(Role::BackgroundDark), false)]);
        },
        None => {
            assert(pieces_view(out@) =~= before + Seq::<PieceView>::empty());
        },
    }
    out
}

/// A row of the file list: the heading of the recent documents, or an entry by index.
#[derive(Clone, Copy, Debug, PartialEq, Eq, Structural)]
pub enum PickerRow {
    Heading,
    Entry(usize),
}

/// The rows of the file list from entry `i` on, `used` rows being taken already: the
/// recent heading goes just before entry `heading` when a row for the entry remains below
/// it, and rows stop once `height` are taken.
pub open spec fn rows_from(i: int, count: int, heading: Option<usize>, height: int, used: int) -> Seq<PickerRow>
    decreases count - i,
{
    if i >= count || i < 0 {
        seq![]
    } else {
        let h: Seq<PickerRow> = if heading == Some(i as usize) && used + 1 < height {
            seq![PickerRow::Heading]
        } else {
            seq![]
        };
        let u = used + h.len();
        if u >= height {
            h
        } else if u + 1 >= height {
            h.push(PickerRow::Entry(i as usize))
        } else {
            h.push(PickerRow::Entry(i as usize)) + rows_from(i + 1, count, heading, height, u + 1)
        }
    }
}

/// The rows shown of a file list of `count` entries scrolled to `scroll_offset`, in a list
/// `height` rows tall, with the recent heading before entry `heading`.
pub open spec fn spec_picker_rows(count: int, scroll_offset: int, heading: Option<usize>, height: int) -> Seq<PickerRow> {
    rows_from(scroll_offset, count, heading, height, 0)
}

/// The rows of the file list; see [`spec_picker_rows`].
pub fn picker_rows(count: usize, scroll_offset: usize, heading: Option<usize>, height: usize) -> (r: Vec<PickerRow>)
    ensures
        r@ == spec_picker_rows(count as int, scroll_offset as int, heading, height as int),
{
    let mut rows: Vec<PickerRow> = Vec::new();
    if height == 0 {
        return rows;
    }
    let mut i: usize = scroll_offset;
    while i < count
        invariant
            scroll_offset <= i || count <= scroll_offset,
            rows@.len() < height || i >= count,
            rows@ + rows_from(i as int, count as int, heading, height as int, rows@.len() as int)
                == spec_picker_rows(count as int, scroll_offset as int, heading, height as int),
        decreases count - i,
    {
        let ghost before = rows@;
        let ghost rest = rows_from(i as int, count as int, heading, height as int, rows@.len() as int);
        let is_heading = match heading {
            Some(h) => h == i,
            None => false,
        };
        if is_heading && rows.len() + 1 < height {
            rows.push(PickerRow::Heading);
        }
        if rows.len() >= height {
            assert(rows@ =~= before + rest);
            return rows;
        }
        rows.push(PickerRow::Entry(i));
        if rows.len() >= height {
            assert(rows@ =~= before + rest);
            return rows;
        }
        assert(rows@ + rows_from(i + 1, count as int, heading, height as int, rows@.len() as int) =~= before + rest);
        i += 1;
    }
    assert(rows_from(i as int, count as int, heading, height as int, rows@.len() as int) == Seq::<PickerRow>::empty());
    assert(rows@ =~= rows@ + Seq::<PickerRow>::empty());
    rows
}

/// Rows never outnumber the list's height.
pub proof fn law_picker_rows_fit(count: int, scroll_offset: int, heading: Option<usize>, height: int)
    requires
        0 <= height,
    ensures
        spec_picker_rows(count, scroll_offset, heading, height).len() <= height,
{
    lemma_rows_from_fit(scroll_offset, count, heading, height, 0);
}

proof fn lemma_rows_from_fit(i: int, count: int, heading: Option<usize>, height: int, used: int)
    requires
        0 <= used <= height,
    ensures
        used + rows_from(i, count, heading, height, used).len() <= height,
    decreases count - i,
{
    if i >= count || i < 0 {
    } else {
        let h: Seq<PickerRow> = if heading == Some(i as usize) && used + 1 < height {
            seq![PickerRow::Heading]
        } else {
            seq![]
        };
        let u = used + h.len();
        if u >= height {
        } else if u + 1 >= height {
        } else {
            lemma_rows_from_fit(i + 1, count, heading, height, u + 1);
        }
    }
}

/// The line shown when the file list is empty.
pub open spec fn spec_picker_empty_message(filter_empty: bool) -> PieceView {
    (
        if filter_empty { "   No markdown files found"@ } else { "   No matches"@ },
        Some(Role::TextDim),
        Some(Role::Background),
        false,
    )
}

/// The line shown when the file list is empty: no files at all, or none matching.
pub fn picker_empty_message(filter_empty: bool) -> (p: Piece)
    ensures
        p@ == spec_picker_empty_message(filter_empty),
{
    let text = if filter_empty {
        String::from_str("   No markdown files found")
    } else {
        String::from_str("   No matches")
    };
    Piece { text, fg: Some(Role::TextDim), bg: Some(Role::Background), bold: false }
}

/// The status at the foot of the file picker: the number of entries found so far while a
/// scan runs, else the position of the selection among the entries (0 without entries).
pub open spec fn spec_picker_status(loading: bool, shown: usize, selected: usize) -> (Seq<char>, Role) {
    if loading {
        ("scanning • "@ + decimal(shown as nat) + " shown"@, Role::PickerLoading)
    } else {
        let position = if shown == 0 { 0 } else { selected + 1 };
        (decimal(position as nat) + seq!['/'] + decimal(shown as nat), Role::TextDim)
    }
}

/// The status of the file picker; see [`spec_picker_status`].
pub fn picker_status(loading: bool, shown: usize, selected: usize) -> (r: (String, Role))
    requires
        !loading && shown > 0 ==> selected < usize::MAX,
    ensures
        (r.0@, r.1) == spec_picker_status(loading, shown, selected),
{
    let mut text = String::new();
    if loading {
        push_str(&mut text, "scanning • ");
        push_decimal(&mut text, shown);
        push_str(&mut text, " shown");
        (text, Role::PickerLoading)
    } else {
        let position = if shown == 0 { 0 } else { selected + 1 };
        push_decimal(&mut text, position);
        push_char(&mut text, '/');
        push_decimal(&mut text, shown);
        (text, Role::TextDim)
    }
}

/// The title of the file picker: its directory (home written as `~`) between spaces.
pub open spec fn spec_picker_title(dir: Seq<char>, home: Option<Seq<char>>) -> Seq<char> {
    seq![' '] + spec_shorten_path(dir, home) + seq![' ']
}

/// The title of the file picker; see [`spec_picker_title`].
pub fn picker_title(dir: &str, home: Option<&str>) -> (r: String)
    ensures
        r@ == spec_picker_title(dir@, match home { Some(h) => Some(h@), None => None }),
{
    let short = shorten_path(dir, home);
    padded(1, short.as_str(), 1)
}

/// The filter input of the file picker on the dark background: a dim prompt while empty,
/// else an arrow and the filter text.
pub open spec fn spec_picker_filter_line(filter: Seq<char>) -> Seq<PieceView> {
    if filter.len() == 0 {
        seq![(" type to filter..."@, Some(Role::TextDim), Some(Role::BackgroundDark), false)]
    } else {
        seq![
            (seq![' ', '>', ' '], Some(Role::PickerAccent), Some(Role::BackgroundDark), false),
            (filter, Some(Role::Text), Some(Role::BackgroundDark), false),
        ]
    }
}

/// The filter input of the file picker; see [`spec_picker_filter_line`].
pub fn picker_filter_line(filter: &str) -> (r: Vec<Piece>)
    ensures
        pieces_view(r@) == spec_picker_filter_line(filter@),
{
    let mut out: Vec<Piece> = Vec::new();
    if filter.unicode_len() == 0 {
        push_plain(&mut out, String::from_str(" type to filter..."), Some(Role::TextDim), Some(Role::BackgroundDark), false);
    } else {
        let mut arrow = String::new();
        push_char(&mut arrow, ' ');
        push_char(&mut arrow, '>');
        push_char(&mut arrow, ' ');
        assert(arrow@ =~= seq![' ', '>', ' ']);
        push_plain(&mut out, arrow, Some(Role::PickerAccent), Some(Role::BackgroundDark), false);
        push_plain(&mut out, String::from_str(filter), Some(Role::Text), Some(Role::BackgroundDark), false);
    }
    assert(pieces_view(out@) =~= spec_picker_filter_line(filter@));
    out
}

/// The colours of the file picker's frame.
pub struct PickerFrame {
    /// The background of the whole screen behind the picker.
    pub screen_bg: Role,
    /// Text and background inside the panel.
    pub panel_fg: Role,
    pub panel_bg: Role,
    /// The panel's border.
    pub border: Role,
    /// The title: the directory between spaces, bold.
    pub title: Piece,
    /// Backgrounds of the filter input, the list and the hint line.
    pub filter_bg: Role,
    pub list_bg: Role,
    pub hint_bg: Role,
}

/// The picker's frame for directory `dir`: the screen behind it in the deepest background,
/// the panel in the text colour on the background with its border in the picker's border
/// colour, the title in the picker's accent on the background, bold, and the filter input
/// and hint line on the dark background above and below the list on the background.
pub open spec fn spec_picker_frame(frame: PickerFrame, dir: Seq<char>, home: Option<Seq<char>>) -> bool {
    &&& frame.screen_bg == Role::BackgroundDeep
    &&& frame.panel_fg == Role::Text
    &&& frame.panel_bg == Role::Background
    &&& frame.border == Role::PickerBorder
    &&& frame.title@ == (spec_picker_title(dir, home), Some(Role::PickerAccent), Some(Role::Background), true)
    &&& frame.filter_bg == Role::BackgroundDark
    &&& frame.list_bg == Role::Background
    &&& frame.hint_bg == Role::BackgroundDark
}

/// The frame of the file picker showing directory `dir`; see [`spec_picker_frame`].
pub fn picker_frame(dir: &str, home: Option<&str>) -> (f: PickerFrame)
    ensures
        spec_picker_frame(f, dir@, match home { Some(h) => Some(h@), None => None }),
{
    PickerFrame {
        screen_bg: Role::BackgroundDeep,
        panel_fg: Role::Text,
        panel_bg: Role::Background,
        border: Role::PickerBorder,
        title: Piece {
            text: picker_title(dir, home),
            fg: Some(Role::PickerAccent),
            bg: Some(Role::Background),
            bold: true,
        },
        filter_bg: Role::BackgroundDark,
        list_bg: Role::Background,
        hint_bg: Role::BackgroundDark,
    }
}

} // verus!
