//! The rows of the pop-up lists (themes, labels, outline, bookmarks), their filter input,
//! and the help panel.

use vstd::prelude::*;
use vstd::utf8::encode_utf8;
use crate::layout::{
    centered_rect, centering_fits, display_width, max_int, min_int, sat_sub,
    spec_centered_rect, Rect,
};
use crate::style::{padded, pieces_view, push_plain, push_str, repeat_char, spaces, width_of, Piece, PieceView, Role};
use crate::text::{chars_equal, chars_of, push_char};
use crate::theme::Color;

verus! {

/// The start of a list row: an arrow for the selected row, spaces otherwise.
pub open spec fn row_prefix(selected: bool) -> Seq<char> {
    if selected {
        seq![' ', '>', ' ']
    } else {
        seq![' ', ' ', ' ']
    }
}

/// A row of a pop-up list: the prefix and the label in `fg`; the selected row instead in
/// `selected_fg`, bold, on the cursor background, padded with spaces on that background to
/// `width` columns.
pub open spec fn spec_list_row(
    label: Seq<char>,
    selected: bool,
    fg: Role,
    selected_fg: Role,
    width: int,
) -> Seq<PieceView> {
    let text = row_prefix(selected) + label;
    if selected {
        let w = display_width(text) as int;
        seq![(text, Some(selected_fg), Some(Role::CursorBg), true)] + if w < width {
            seq![(spaces(width - w), None, Some(Role::CursorBg), false)]
        } else {
            seq![]
        }
    } else {
        seq![(text, Some(fg), None, false)]
    }
}

/// A row of a pop-up list; see [`spec_list_row`]. The theme and bookmark lists use the
/// text colour, with the selection colour for the selected row.
pub fn list_row(label: &str, selected: bool, fg: Role, selected_fg: Role, width: usize) -> (r: Vec<Piece>)
    ensures
        pieces_view(r@) == spec_list_row(label@, selected, fg, selected_fg, width as int),
{
    let mut text = String::new();
    push_char(&mut text, ' ');
    push_char(&mut text, if selected { '>' } else { ' ' });
    push_char(&mut text, ' ');
    push_str(&mut text, label);
    assert(text@ =~= row_prefix(selected) + label@);
    let mut out: Vec<Piece> = Vec::new();
    if selected {
        let w = width_of(text.as_str());
        push_plain(&mut out, text, Some(selected_fg), Some(Role::CursorBg), true);
        let ghost one = pieces_view(out@);
        if w < width {
            push_plain(&mut out, repeat_char(' ', width - w), None, Some(Role::CursorBg), false);
        } else {
            assert(pieces_view(out@) =~= one + Seq::<PieceView>::empty());
        }
    } else {
        push_plain(&mut out, text, Some(fg), None, false);
    }
    assert(pieces_view(out@) =~= spec_list_row(label@, selected, fg, selected_fg, width as int));
    out
}

/// An outline entry indented two columns per level below the first.
pub open spec fn spec_toc_label(text: Seq<char>, level: usize) -> Seq<char> {
    spaces(sat_sub(level as int, 1) * 2) + text
}

/// Headings of the first two levels in the heading colour, deeper ones in bright text.
pub open spec fn spec_toc_role(level: usize) -> Role {
    if level == 1 || level == 2 {
        Role::Heading
    } else {
        Role::TextBright
    }
}

/// A row of the outline; see [`spec_toc_label`] and [`spec_toc_role`].
pub fn toc_row(text: &str, level: usize, selected: bool, width: usize) -> (r: Vec<Piece>)
    requires
        sat_sub(level as int, 1) * 2 <= usize::MAX,
    ensures
        pieces_view(r@) == spec_list_row(
            spec_toc_label(text@, level),
            selected,
            spec_toc_role(level),
            Role::Selection,
            width as int,
        ),
{
    let indent: usize = if level > 0 { (level - 1) * 2 } else { 0 };
    let label = padded(indent, text, 0);
    assert(label@ =~= spec_toc_label(text@, level));
    let role = if level == 1 || level == 2 { Role::Heading } else { Role::TextBright };
    list_row(label.as_str(), selected, role, Role::Selection, width)
}

pub open spec fn none_label() -> Seq<char> {
    seq!['N', 'o', 'n', 'e']
}

/// A label of the label filter as shown: `None` as it is, any other prefixed with `#`.
pub open spec fn spec_filter_label(option: Seq<char>) -> Seq<char> {
    if option == none_label() {
        option
    } else {
        seq!['#'] + option
    }
}

/// The colour of a label of the label filter: text for `None`, else the label's own
/// colour.
pub open spec fn spec_filter_role(option: Seq<char>, tag_color: Color) -> Role {
    if option == none_label() {
        Role::Text
    } else {
        Role::Fixed(tag_color)
    }
}

/// A row of the label filter for `option`, whose tag colour is `tag_color`; the selected
/// row keeps the label's colour.
pub fn filter_row(option: &str, tag_color: Color, selected: bool, width: usize) -> (r: Vec<Piece>)
    ensures
        pieces_view(r@) == spec_list_row(
            spec_filter_label(option@),
            selected,
            spec_filter_role(option@, tag_color),
            spec_filter_role(option@, tag_color),
            width as int,
        ),
{
    let chars = chars_of(option);
    let none = vec!['N', 'o', 'n', 'e'];
    let is_none = chars_equal(&chars, &none);
    assert(none@ =~= none_label());
    if is_none {
        list_row(option, selected, Role::Text, Role::Text, width)
    } else {
        let mut label = String::new();
        push_char(&mut label, '#');
        push_str(&mut label, option);
        assert(label@ =~= seq!['#'] + option@);
        let role = Role::Fixed(tag_color);
        list_row(label.as_str(), selected, role, role, width)
    }
}

/// The filter input of the label filter: a dim prompt while empty, else an arrow and the
/// filter text.
pub open spec fn spec_label_filter_line(filter: Seq<char>) -> Seq<PieceView> {
    if filter.len() == 0 {
        seq![(" type to filter..."@, Some(Role::TextMuted), None, false)]
    } else {
        seq![
            (seq![' ', '>', ' '], Some(Role::Key), None, false),
            (filter, Some(Role::TextBright), None, false),
        ]
    }
}

/// The filter input of the label filter; see [`spec_label_filter_line`].
pub fn label_filter_line(filter: &str) -> (r: Vec<Piece>)
    ensures
        pieces_view(r@) == spec_label_filter_line(filter@),
{
    let mut out: Vec<Piece> = Vec::new();
    if filter.unicode_len() == 0 {
        push_plain(&mut out, String::from_str(" type to filter..."), Some(Role::TextMuted), None, false);
    } else {
        let arrow = padded(1, ">", 1);
        proof {
            reveal_strlit(">");
        }
        assert(arrow@ =~= seq![' ', '>', ' ']);
        push_plain(&mut out, arrow, Some(Role::Key), None, false);
        push_plain(&mut out, String::from_str(filter), Some(Role::TextBright), None, false);
    }
    assert(pieces_view(out@) =~= spec_label_filter_line(filter@));
    out
}

/// The first column of a help row: a space and the key, padded with spaces to fourteen
/// characters.
pub open spec fn help_key_text(key: Seq<char>) -> Seq<char> {
    seq![' '] + key + spaces(sat_sub(14, key.len() as int))
}

/// A row of the help panel: the key in the key colour, then what it does.
pub open spec fn spec_help_row(key: Seq<char>, desc: Seq<char>) -> Seq<PieceView> {
    seq![(help_key_text(key), Some(Role::Key), None, false), (desc, Some(Role::Text), None, false)]
}

/// A row of the help panel; see [`spec_help_row`].
pub fn help_row(key: &str, desc: &str) -> (r: Vec<Piece>)
    ensures
        pieces_view(r@) == spec_help_row(key@, desc@),
{
    let n = key.unicode_len();
    let pad: usize = if n < 14 { 14 - n } else { 0 };
    let k = padded(1, key, pad);
    assert(k@ =~= help_key_text(key@));
    let mut out: Vec<Piece> = Vec::new();
    push_plain(&mut out, k, Some(Role::Key), None, false);
    push_plain(&mut out, String::from_str(desc), Some(Role::Text), None, false);
    assert(pieces_view(out@) =~= spec_help_row(key@, desc@));
    out
}

/// Bytes of a help row's text.
pub open spec fn help_line_bytes(key: Seq<char>, desc: Seq<char>) -> int {
    encode_utf8(help_key_text(key)).len() as int + encode_utf8(desc).len() as int
}

/// The longest help row in bytes, or 0 without rows.
pub open spec fn help_max_bytes(entries: Seq<(String, String)>) -> int
    decreases entries.len(),
{
    if entries.len() == 0 {
        0
    } else {
        max_int(
            help_max_bytes(entries.drop_last()),
            help_line_bytes(entries.last().0@, entries.last().1@),
        )
    }
}

/// Every help row's length can be computed in a `usize`.
pub open spec fn help_widths_fit(entries: Seq<(String, String)>) -> bool {
    forall|i: int| 0 <= i < entries.len() ==> help_line_bytes(#[trigger] entries[i].0@, entries[i].1@) <= usize::MAX
}

/// The help panel: as wide as its longest row plus four (at most the screen less four),
/// one row per entry plus four. Byte and row counts are taken modulo 2^16.
pub open spec fn spec_help_popup(entries: Seq<(String, String)>, area: Rect) -> Rect {
    let w = ((help_max_bytes(entries) as usize) as u16) + 4;
    let h = ((entries.len() as usize) as u16) + 4;
    spec_centered_rect(min_int(w, sat_sub(area.width as int, 4)) as u16, h as u16, area)
}

fn utf8_bytes(s: &str) -> (n: usize)
    ensures
        n == encode_utf8(s@).len(),
{
    s.as_bytes().len()
}

/// Bytes of the help row for `key` and `desc`.
fn help_bytes(key: &str, desc: &str) -> (n: usize)
    requires
        help_line_bytes(key@, desc@) <= usize::MAX,
    ensures
        n == help_line_bytes(key@, desc@),
{
    let n = key.unicode_len();
    let pad: usize = if n < 14 { 14 - n } else { 0 };
    let k = padded(1, key, pad);
    assert(k@ =~= help_key_text(key@));
    utf8_bytes(k.as_str()) + utf8_bytes(desc)
}

/// Where the help panel goes.
pub fn help_popup(entries: &[(String, String)], area: Rect) -> (r: Rect)
    requires
        help_widths_fit(entries@),
        ((help_max_bytes(entries@) as usize) as u16) + 4 <= u16::MAX,
        ((entries@.len() as usize) as u16) + 4 <= u16::MAX,
        centering_fits(
            min_int(((help_max_bytes(entries@) as usize) as u16) + 4, sat_sub(area.width as int, 4)) as u16,
            (((entries@.len() as usize) as u16) + 4) as u16,
            area,
        ),
    ensures
        r == spec_help_popup(entries@, area),
{
    let mut widest: usize = 0;
    let mut i: usize = 0;
    while i < entries.len()
        invariant
            i <= entries@.len(),
            help_widths_fit(entries@),
            widest as int == help_max_bytes(entries@.take(i as int)),
        decreases entries.len() - i,
    {
        assert(help_line_bytes(entries@[i as int].0@, entries@[i as int].1@) <= usize::MAX);
        let w = help_bytes(entries[i].0.as_str(), entries[i].1.as_str());
        assert(entries@.take(i + 1).drop_last() =~= entries@.take(i as int));
        assert(entries@.take(i + 1).last() == entries@[i as int]);
        if w > widest {
            widest = w;
        }
        i += 1;
    }
    assert(entries@.take(entries@.len() as int) =~= entries@);
    let w = widest as u16 + 4;
    let h = entries.len() as u16 + 4;
    let room = area.width.saturating_sub(4);
    let width = if w < room { w } else { room };
    centered_rect(width, h, area)
}

/// The help panel is sized by its longest row: no row is longer than the width it is given,
/// and some row is exactly that long (none without rows).
pub proof fn law_help_width_is_longest_row(entries: Seq<(String, String)>)
    ensures
        forall|i: int| 0 <= i < entries.len() ==> help_max_bytes(entries) >= help_line_bytes(
            #[trigger] entries[i].0@,
            entries[i].1@,
        ),
        entries.len() == 0 ==> help_max_bytes(entries) == 0,
        entries.len() > 0 ==> exists|i: int| 0 <= i < entries.len() && help_max_bytes(entries)
            == help_line_bytes(#[trigger] entries[i].0@, entries[i].1@),
    decreases entries.len(),
{
    if entries.len() > 0 {
        let init = entries.drop_last();
        law_help_width_is_longest_row(init);
        let last = entries.len() - 1;
        assert forall|i: int| 0 <= i < entries.len() implies help_max_bytes(entries) >= help_line_bytes(
            #[trigger] entries[i].0@,
            entries[i].1@,
        ) by {
            if i < last {
                assert(entries[i] == init[i]);
            }
        }
        if help_max_bytes(init) >= help_line_bytes(entries[last].0@, entries[last].1@) && init.len() > 0 {
            let k = choose|k: int| 0 <= k < init.len() && help_max_bytes(init) == help_line_bytes(
                #[trigger] init[k].0@,
                init[k].1@,
            );
            assert(entries[k] == init[k]);
        } else {
            assert(help_max_bytes(entries) == help_line_bytes(entries[last].0@, entries[last].1@)) by {
                if init.len() == 0 {
                    assert(help_line_bytes(entries[last].0@, entries[last].1@) >= 0);
                }
            }
        }
    }
}

} // verus!
