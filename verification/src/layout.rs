//! Geometry and text fitting for the screen: pop-up rectangles, the scroll window of a
//! list, shortening paths for display and cutting them to a column budget.

use vstd::prelude::*;
use crate::text::{chars_of, has_prefix, push_char, string_from_chars, string_from_range};

verus! {

/// A rectangle of terminal cells.
#[derive(Clone, Copy, Debug, PartialEq, Eq, Structural)]
pub struct Rect {
    pub x: u16,
    pub y: u16,
    pub width: u16,
    pub height: u16,
}

pub open spec fn min_int(a: int, b: int) -> int {
    if a <= b {
        a
    } else {
        b
    }
}

pub open spec fn max_int(a: int, b: int) -> int {
    if a >= b {
        a
    } else {
        b
    }
}

pub open spec fn sat_sub(a: int, b: int) -> int {
    if a >= b {
        a - b
    } else {
        0
    }
}

impl Rect {
    /// A rectangle at (`x`, `y`), its size cut so that it ends within the coordinate range.
    pub fn new(x: u16, y: u16, width: u16, height: u16) -> (r: Rect)
        ensures
            r.x == x,
            r.y == y,
            r.width == min_int(width as int, u16::MAX - x),
            r.height == min_int(height as int, u16::MAX - y),
    {
        let width = x.saturating_add(width) - x;
        let height = y.saturating_add(height) - y;
        Rect { x, y, width, height }
    }
}

/// Offsets of a box of the given size centred in `area` fit the coordinate range.
pub open spec fn centering_fits(width: u16, height: u16, area: Rect) -> bool {
    &&& area.x + sat_sub(area.width as int, width as int) / 2 <= u16::MAX
    &&& area.y + sat_sub(area.height as int, height as int) / 2 <= u16::MAX
}

pub open spec fn spec_centered_rect(width: u16, height: u16, area: Rect) -> Rect {
    let x = area.x + sat_sub(area.width as int, width as int) / 2;
    let y = area.y + sat_sub(area.height as int, height as int) / 2;
    Rect {
        x: x as u16,
        y: y as u16,
        width: min_int(min_int(width as int, area.width as int), u16::MAX - x) as u16,
        height: min_int(min_int(height as int, area.height as int), u16::MAX - y) as u16,
    }
}

/// A box of at most `width` by `height` cells centred in `area`.
pub fn centered_rect(width: u16, height: u16, area: Rect) -> (r: Rect)
    requires
        centering_fits(width, height, area),
    ensures
        r == spec_centered_rect(width, height, area),
{
    let x = area.x + area.width.saturating_sub(width) / 2;
    let y = area.y + area.height.saturating_sub(height) / 2;
    let w = if width < area.width { width } else { area.width };
    let h = if height < area.height { height } else { area.height };
    Rect::new(x, y, w, h)
}

/// The size of the file picker in one dimension: three quarters of the screen, at least
/// `least` cells, leaving `margin` cells; a screen of at most four cells is used whole
/// (at least one cell).
pub open spec fn picker_extent(total: int, least: int, margin: int) -> int {
    if total > 4 {
        min_int(max_int(total * 3 / 4, least), total - margin)
    } else {
        max_int(total, 1)
    }
}

/// The screen is small enough for three quarters of it to be computed in 16 bits, and the
/// picker centred in it stays within the coordinate range.
pub open spec fn picker_fits(area: Rect) -> bool {
    &&& area.width > 4 ==> area.width * 3 <= u16::MAX
    &&& area.height > 4 ==> area.height * 3 <= u16::MAX
    &&& centering_fits(
        picker_extent(area.width as int, 50, 4) as u16,
        picker_extent(area.height as int, 6, 2) as u16,
        area,
    )
}

/// The file picker's rectangle in `area`.
pub fn picker_rect(area: Rect) -> (r: Rect)
    requires
        picker_fits(area),
    ensures
        r == spec_centered_rect(
            picker_extent(area.width as int, 50, 4) as u16,
            picker_extent(area.height as int, 6, 2) as u16,
            area,
        ),
{
    let width = if area.width > 4 {
        let w = area.width * 3 / 4;
        let w = if w > 50 { w } else { 50 };
        if w < area.width - 4 { w } else { area.width - 4 }
    } else if area.width > 1 {
        area.width
    } else {
        1
    };
    let height = if area.height > 4 {
        let h = area.height * 3 / 4;
        let h = if h > 6 { h } else { 6 };
        if h < area.height - 2 { h } else { area.height - 2 }
    } else if area.height > 1 {
        area.height
    } else {
        1
    };
    centered_rect(width, height, area)
}

/// The first row shown of a list of `visible` rows that must show `selected`, given the
/// first row shown so far.
pub open spec fn spec_list_window_start(selected: int, scroll: int, visible: int) -> int {
    if selected < scroll {
        selected
    } else if selected >= scroll + visible {
        sat_sub(selected, visible - 1)
    } else {
        scroll
    }
}

/// Scrolls a list window of `visible` rows starting at `scroll` just enough to show row
/// `selected`.
pub fn list_window_start(selected: usize, scroll: usize, visible: usize) -> (r: usize)
    requires
        scroll + visible <= usize::MAX,
        selected < scroll || visible > 0,
    ensures
        r == spec_list_window_start(selected as int, scroll as int, visible as int),
{
    if selected < scroll {
        selected
    } else if selected >= scroll + visible {
        selected.saturating_sub(visible - 1)
    } else {
        scroll
    }
}

/// A scrolled list window keeps the selected row in view.
pub proof fn law_list_window_shows_selected(selected: int, scroll: int, visible: int)
    requires
        0 <= selected,
        0 <= scroll,
        0 < visible,
    ensures
        spec_list_window_start(selected, scroll, visible) <= selected < spec_list_window_start(
            selected,
            scroll,
            visible,
        ) + visible,
{
}

/// The first theme shown in a picker of `visible` rows with `selected` chosen: the list
/// starts at the top until the selection would fall below the last row.
pub fn picker_first_visible(selected: usize, visible: usize) -> (r: usize)
    ensures
        r == sat_sub(
            if selected + 1 > usize::MAX { usize::MAX as int } else { selected + 1 },
            visible as int,
        ),
{
    selected.saturating_add(1).saturating_sub(visible)
}

/// The theme picker shows its selection, when it has at least one row.
pub proof fn law_picker_shows_selected(selected: int, visible: int)
    requires
        0 <= selected < usize::MAX,
        0 < visible,
    ensures
        sat_sub(selected + 1, visible) <= selected < sat_sub(selected + 1, visible) + visible,
{
}

/// `path` with a leading `home` replaced by `~`.
pub open spec fn spec_shorten_path(path: Seq<char>, home: Option<Seq<char>>) -> Seq<char> {
    match home {
        Some(h) => if has_prefix(path, h) {
            seq!['~'] + path.skip(h.len() as int)
        } else {
            path
        },
        None => path,
    }
}

/// Shortens a path for display by writing the home directory as `~`.
pub fn shorten_path(path: &str, home: Option<&str>) -> (r: String)
    ensures
        r@ == spec_shorten_path(path@, match home { Some(h) => Some(h@), None => None }),
{
    match home {
        Some(h) => {
            let p = chars_of(path);
            let hc = chars_of(h);
            if crate::text::starts_with(&p, &hc) {
                let mut out = String::new();
                push_char(&mut out, '~');
                let rest = string_from_range(&p, hc.len(), p.len());
                let mut i: usize = 0;
                let rc = chars_of(rest.as_str());
                let ghost start = out@;
                while i < rc.len()
                    invariant
                        i <= rc.len(),
                        out@ == start + rc@.take(i as int),
                    decreases rc.len() - i,
                {
                    push_char(&mut out, rc[i]);
                    assert(rc@.take(i + 1) =~= rc@.take(i as int).push(rc@[i as int]));
                    i += 1;
                }
                assert(rc@.take(rc.len() as int) =~= rc@);
                assert(rc@ =~= path@.skip(hc.len() as int));
                assert(start =~= seq!['~']);
                out
            } else {
                String::from_str(path)
            }
        },
        None => String::from_str(path),
    }
}

/// The number of terminal columns `text` takes (`UnicodeWidthStr::width`).
pub uninterp spec fn display_width(text: Seq<char>) -> usize;

/// Columns taken by `text` on screen (`unicode_width::UnicodeWidthStr::width`).
///
/// Trusted: the result, a function of the text alone, is named `display_width`.
#[verifier::external_body]
pub(crate) fn text_width(text: &str) -> (w: usize)
    ensures
        w == display_width(text@),
{
    unicode_width::UnicodeWidthStr::width(text)
}

/// Number of characters kept from the end of a text whose characters take `widths`
/// columns, when the kept ones must fit in `budget` columns; counting stops at the first
/// that does not fit.
pub open spec fn tail_fit(widths: Seq<usize>, budget: int) -> int
    decreases widths.len(),
{
    if widths.len() == 0 {
        0
    } else if widths.last() > budget {
        0
    } else {
        1 + tail_fit(widths.drop_last(), budget - widths.last())
    }
}

/// `value` (which takes `value_width` columns) when it fits in `max_width` columns;
/// otherwise `…` followed by as many of its last characters as fit in one column less,
/// the characters taking `widths` columns each.
pub open spec fn spec_truncate_measured(
    value: Seq<char>,
    max_width: int,
    value_width: int,
    widths: Seq<usize>,
) -> Seq<char> {
    if value_width <= max_width {
        value
    } else if max_width == 0 {
        seq![]
    } else {
        let k = tail_fit(widths, max_width - 1);
        seq!['…'] + value.skip(value.len() - k)
    }
}

/// The display width of each character on its own.
pub open spec fn char_widths(value: Seq<char>) -> Seq<usize> {
    value.map_values(|c: char| display_width(seq![c]))
}

/// `value` cut from the left to fit `max_width` columns, as the terminal measures it.
pub open spec fn spec_truncate_left(value: Seq<char>, max_width: int) -> Seq<char> {
    spec_truncate_measured(value, max_width, display_width(value) as int, char_widths(value))
}

proof fn lemma_tail_fit_bound(widths: Seq<usize>, budget: int)
    ensures
        0 <= tail_fit(widths, budget) <= widths.len(),
    decreases widths.len(),
{
    if widths.len() > 0 {
        lemma_tail_fit_bound(widths.drop_last(), budget - widths.last());
    }
}

/// Cuts `value` from the left to fit `max_width` columns, marking the cut with `…`, given
/// the columns `value` takes and those each of its characters takes.
pub fn truncate_left_measured(
    value: &str,
    max_width: usize,
    value_width: usize,
    widths: &Vec<usize>,
) -> (r: String)
    requires
        widths@.len() == value@.len(),
    ensures
        r@ == spec_truncate_measured(value@, max_width as int, value_width as int, widths@),
{
    if value_width <= max_width {
        return String::from_str(value);
    }
    if max_width == 0 {
        return String::new();
    }
    let v = chars_of(value);
    let suffix_width = max_width - 1;
    let mut used: usize = 0;
    let mut k: usize = 0;
    let mut fits = true;
    let n = v.len();
    proof {
        lemma_tail_fit_bound(widths@, suffix_width as int);
        assert(widths@.take(n as int) =~= widths@);
    }
    while k < n && fits
        invariant
            k <= n == v@.len() == widths@.len(),
            used <= suffix_width,
            fits ==> tail_fit(widths@, suffix_width as int) == k + tail_fit(
                widths@.take(n - k),
                suffix_width - used,
            ),
            !fits ==> tail_fit(widths@, suffix_width as int) == k,
        decreases n - k + if fits { 1int } else { 0int },
    {
        let w = widths[n - 1 - k];
        let ghost rest = widths@.take(n - k);
        assert(rest.last() == w);
        if w > suffix_width - used {
            fits = false;
        } else {
            assert(rest.drop_last() =~= widths@.take(n - k - 1));
            used = used + w;
            k += 1;
        }
    }
    proof {
        if fits {
            assert(widths@.take(0) =~= Seq::<usize>::empty());
        }
    }
    let mut out = String::new();
    push_char(&mut out, '…');
    let tail = string_from_range(&v, n - k, n);
    let tc = chars_of(tail.as_str());
    let mut i: usize = 0;
    let ghost start = out@;
    while i < tc.len()
        invariant
            i <= tc.len(),
            out@ == start + tc@.take(i as int),
        decreases tc.len() - i,
    {
        push_char(&mut out, tc[i]);
        assert(tc@.take(i + 1) =~= tc@.take(i as int).push(tc@[i as int]));
        i += 1;
    }
    assert(tc@.take(tc.len() as int) =~= tc@);
    assert(tc@ =~= v@.skip(n - k));
    assert(start =~= seq!['…']);
    out
}

/// Cuts `value` from the left to fit `max_width` columns, marking the cut with `…`.
pub fn truncate_left(value: &str, max_width: usize) -> (r: String)
    ensures
        r@ == spec_truncate_left(value@, max_width as int),
{
    let total = text_width(value);
    let v = chars_of(value);
    let mut widths: Vec<usize> = Vec::new();
    let mut i: usize = 0;
    while i < v.len()
        invariant
            i <= v.len(),
            v@ == value@,
            widths@ == char_widths(v@).take(i as int),
        decreases v.len() - i,
    {
        let mut one = String::new();
        push_char(&mut one, v[i]);
        assert(one@ =~= seq![v@[i as int]]);
        let w = text_width(one.as_str());
        widths.push(w);
        assert(char_widths(v@).take(i + 1) =~= char_widths(v@).take(i as int).push(w));
        i += 1;
    }
    assert(char_widths(v@).take(v.len() as int) =~= char_widths(v@));
    truncate_left_measured(value, max_width, total, &widths)
}

/// A centred box lies inside the area it is centred in and is no larger than asked.
pub proof fn law_centered_rect_inside(width: u16, height: u16, area: Rect)
    requires
        centering_fits(width, height, area),
        area.x + area.width <= u16::MAX,
        area.y + area.height <= u16::MAX,
    ensures
        ({
            let r = spec_centered_rect(width, height, area);
            &&& area.x <= r.x
            &&& r.x + r.width <= area.x + area.width
            &&& area.y <= r.y
            &&& r.y + r.height <= area.y + area.height
            &&& r.width <= width
            &&& r.height <= height
        }),
{
}

} // verus!
