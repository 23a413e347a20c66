use mdr::layout::Rect;
use mdr::popups::{bookmark_popup, filter_popup, theme_popup, toc_popup};

const SCREEN: Rect = Rect { x: 0, y: 0, width: 80, height: 30 };

#[test]
fn theme_popup_fits_the_list() {
    assert_eq!(theme_popup(16, SCREEN), Rect { x: 21, y: 5, width: 38, height: 20 });
    let small = Rect { x: 0, y: 0, width: 60, height: 10 };
    assert_eq!(theme_popup(16, small), Rect { x: 11, y: 0, width: 38, height: 10 });
}

#[test]
fn filter_popup_leaves_room_for_the_input() {
    assert_eq!(filter_popup(3, SCREEN), Rect { x: 23, y: 10, width: 34, height: 9 });
}

#[test]
fn bookmark_popup_keeps_a_margin() {
    assert_eq!(bookmark_popup(2, SCREEN), Rect { x: 12, y: 12, width: 56, height: 6 });
    let narrow = Rect { x: 0, y: 0, width: 40, height: 8 };
    assert_eq!(bookmark_popup(10, narrow), Rect { x: 2, y: 2, width: 36, height: 4 });
}

#[test]
fn toc_popup_follows_the_widest_entry() {
    let entries = vec![("Intro".to_string(), 1), ("A rather long subsection title".to_string(), 3)];
    // 2 * 2 indent + 30 bytes + 4 = 38 columns, plus 4.
    assert_eq!(toc_popup(&entries, SCREEN), Rect { x: 19, y: 12, width: 42, height: 6 });
    let empty: Vec<(String, usize)> = Vec::new();
    assert_eq!(toc_popup(&empty, SCREEN), Rect { x: 25, y: 13, width: 30, height: 4 });
}
