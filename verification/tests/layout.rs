use mdr::layout::truncate_left_measured;
use mdr::layout::{
    centered_rect, list_window_start, picker_first_visible, picker_rect, shorten_path,
    truncate_left, Rect,
};

#[test]
fn centered_rect_centres_and_clips() {
    let area = Rect { x: 0, y: 0, width: 80, height: 30 };
    assert_eq!(centered_rect(38, 10, area), Rect { x: 21, y: 10, width: 38, height: 10 });
    assert_eq!(centered_rect(100, 40, area), Rect { x: 0, y: 0, width: 80, height: 30 });
    let offset = Rect { x: 65530, y: 0, width: 10, height: 1 };
    assert_eq!(centered_rect(4, 1, offset), Rect { x: 65533, y: 0, width: 2, height: 1 });
}

#[test]
fn picker_rect_takes_three_quarters() {
    let area = Rect { x: 0, y: 0, width: 80, height: 30 };
    assert_eq!(picker_rect(area), Rect { x: 10, y: 4, width: 60, height: 22 });
    let narrow = Rect { x: 0, y: 0, width: 40, height: 8 };
    assert_eq!(picker_rect(narrow), Rect { x: 2, y: 1, width: 36, height: 6 });
    let tiny = Rect { x: 0, y: 0, width: 0, height: 3 };
    assert_eq!(picker_rect(tiny), Rect { x: 0, y: 0, width: 0, height: 3 });
}

#[test]
fn list_window_follows_selection() {
    assert_eq!(list_window_start(2, 5, 10), 2);
    assert_eq!(list_window_start(20, 5, 10), 11);
    assert_eq!(list_window_start(7, 5, 10), 5);
}

#[test]
fn theme_picker_window_shows_selected_theme() {
    // Sixteen themes in a picker clipped to a ten-row screen: seven list rows.
    let first = picker_first_visible(15, 7);
    assert_eq!(first, 9);
    assert!(first <= 15 && 15 < first + 7);
    assert_eq!(picker_first_visible(2, 7), 0);
}

#[test]
fn shorten_path_abbreviates_home() {
    assert_eq!(shorten_path("/home/u/docs/a.md", Some("/home/u")), "~/docs/a.md");
    assert_eq!(shorten_path("/etc/a.md", Some("/home/u")), "/etc/a.md");
    assert_eq!(shorten_path("/home/u/a", None), "/home/u/a");
}

#[test]
fn truncate_left_keeps_the_end() {
    assert_eq!(truncate_left("/synthetic/project", 30), "/synthetic/project");
    assert_eq!(truncate_left("/synthetic/project", 8), "…project");
    assert_eq!(truncate_left("/synthetic/project", 0), "");
    assert_eq!(truncate_left("abc", 1), "…");
    // Wide characters take two columns each.
    assert_eq!(truncate_left("日本語", 4), "…語");
}

#[test]
fn truncate_left_measured_uses_given_widths() {
    assert_eq!(truncate_left_measured("abcdef", 10, 6, &vec![1; 6]), "abcdef");
    assert_eq!(truncate_left_measured("abcdef", 4, 6, &vec![1; 6]), "…def");
    // A character too wide for the room left stops the suffix.
    assert_eq!(truncate_left_measured("abcdef", 4, 8, &vec![1, 1, 1, 1, 3, 1]), "…f");
    assert_eq!(truncate_left_measured("abc", 0, 3, &vec![1; 3]), "");
}
