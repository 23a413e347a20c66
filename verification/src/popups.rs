//! Sizes and places of the pop-up panels: the theme picker, the label filter, the outline
//! and the bookmark list. Counts are taken modulo 2^16 where they become cell counts.

use vstd::prelude::*;
use vstd::utf8::encode_utf8;
use crate::layout::{Rect, centered_rect, centering_fits, spec_centered_rect, sat_sub, min_int, max_int};

verus! {

/// The theme picker: 38 columns, one row per theme plus four.
pub open spec fn spec_theme_popup(count: usize, area: Rect) -> Rect {
    spec_centered_rect(38, ((count as u16) + 4) as u16, area)
}

/// Where the theme picker goes.
pub fn theme_popup(count: usize, area: Rect) -> (r: Rect)
    requires
        (count as u16) + 4 <= u16::MAX,
        centering_fits(38, ((count as u16) + 4) as u16, area),
    ensures
        r == spec_theme_popup(count, area),
{
    let height = count as u16 + 4;
    centered_rect(38, height, area)
}

/// The label filter: 34 columns, one row per label plus six (filter input and spacing).
pub open spec fn spec_filter_popup(count: usize, area: Rect) -> Rect {
    spec_centered_rect(34, ((count as u16) + 6) as u16, area)
}

/// Where the label filter goes.
pub fn filter_popup(count: usize, area: Rect) -> (r: Rect)
    requires
        (count as u16) + 6 <= u16::MAX,
        centering_fits(34, ((count as u16) + 6) as u16, area),
    ensures
        r == spec_filter_popup(count, area),
{
    let height = count as u16 + 6;
    centered_rect(34, height, area)
}

/// The bookmark list: up to 56 columns and one row per bookmark plus four, keeping four
/// cells of the screen free in each direction.
pub open spec fn spec_bookmark_popup(count: usize, area: Rect) -> Rect {
    spec_centered_rect(
        min_int(56, sat_sub(area.width as int, 4)) as u16,
        min_int((count as u16) + 4, sat_sub(area.height as int, 4)) as u16,
        area,
    )
}

/// Where the bookmark list goes.
pub fn bookmark_popup(count: usize, area: Rect) -> (r: Rect)
    requires
        (count as u16) + 4 <= u16::MAX,
        centering_fits(
            min_int(56, sat_sub(area.width as int, 4)) as u16,
            min_int((count as u16) + 4, sat_sub(area.height as int, 4)) as u16,
            area,
        ),
    ensures
        r == spec_bookmark_popup(count, area),
{
    let h = count as u16 + 4;
    let room_h = area.height.saturating_sub(4);
    let height = if h < room_h { h } else { room_h };
    let room_w = area.width.saturating_sub(4);
    let width: u16 = if 56 < room_w { 56 } else { room_w };
    centered_rect(width, height, area)
}

/// Columns an outline entry needs: two per level below the first, the bytes of its text,
/// and four for the marker and borders.
pub open spec fn toc_entry_width(text: Seq<char>, level: usize) -> int {
    sat_sub(level as int, 1) * 2 + encode_utf8(text).len() + 4
}

/// The widest outline entry, or 20 for an empty outline.
pub open spec fn toc_max_width(entries: Seq<(String, usize)>) -> int
    decreases entries.len(),
{
    if entries.len() == 0 {
        20
    } else if entries.len() == 1 {
        toc_entry_width(entries[0].0@, entries[0].1)
    } else {
        max_int(
            toc_max_width(entries.drop_last()),
            toc_entry_width(entries.last().0@, entries.last().1),
        )
    }
}

/// The outline: as wide as its widest entry plus four (at least 30, at most the screen
/// less four), one row per entry plus four (at most the screen less four).
pub open spec fn spec_toc_popup(entries: Seq<(String, usize)>, area: Rect) -> Rect {
    let w = ((toc_max_width(entries) as usize) as u16) + 4;
    let h = ((entries.len() as usize) as u16) + 4;
    spec_centered_rect(
        max_int(min_int(w, sat_sub(area.width as int, 4)), 30) as u16,
        min_int(h, sat_sub(area.height as int, 4)) as u16,
        area,
    )
}

/// Every entry's width can be computed in a `usize`.
pub open spec fn toc_widths_fit(entries: Seq<(String, usize)>) -> bool {
    forall|i: int| 0 <= i < entries.len() ==> toc_entry_width(#[trigger] entries[i].0@, entries[i].1) <= usize::MAX
}

/// Where the outline goes.
pub fn toc_popup(entries: &[(String, usize)], area: Rect) -> (r: Rect)
    requires
        toc_widths_fit(entries@),
        ((toc_max_width(entries@) as usize) as u16) + 4 <= u16::MAX,
        ((entries@.len() as usize) as u16) + 4 <= u16::MAX,
        centering_fits(
            max_int(
                min_int(
                    ((toc_max_width(entries@) as usize) as u16) + 4,
                    sat_sub(area.width as int, 4),
                ),
                30,
            ) as u16,
            min_int(((entries@.len() as usize) as u16) + 4, sat_sub(area.height as int, 4)) as u16,
            area,
        ),
    ensures
        r == spec_toc_popup(entries@, area),
{
    let mut widest: usize = 20;
    let mut i: usize = 0;
    while i < entries.len()
        invariant
            i <= entries@.len(),
            toc_widths_fit(entries@),
            i == 0 ==> widest == 20,
            i > 0 ==> widest as int == toc_max_width(entries@.take(i as int)),
        decreases entries.len() - i,
    {
        let (text, level) = (&entries[i].0, entries[i].1);
        assert(toc_entry_width(entries@[i as int].0@, entries@[i as int].1) <= usize::MAX);
        let indent: usize = if level > 0 { (level - 1) * 2 } else { 0 };
        let w = indent + text.as_str().as_bytes().len() + 4;
        assert(entries@.take(i + 1).drop_last() =~= entries@.take(i as int));
        assert(entries@.take(i + 1).last() == entries@[i as int]);
        if i == 0 || w > widest {
            widest = w;
        }
        i += 1;
    }
    proof {
        if entries@.len() > 0 {
            assert(entries@.take(entries@.len() as int) =~= entries@);
        } else {
            assert(toc_max_width(entries@) == 20);
        }
    }
    let w = widest as u16 + 4;
    let h = entries.len() as u16 + 4;
    let room_w = area.width.saturating_sub(4);
    let room_h = area.height.saturating_sub(4);
    let width = if w < room_w { w } else { room_w };
    let width = if width > 30 { width } else { 30 };
    let height = if h < room_h { h } else { room_h };
    centered_rect(width, height, area)
}

} // verus!
