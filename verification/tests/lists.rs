use mdr::layout::{centered_rect, picker_first_visible, Rect};
use mdr::lists::{filter_row, help_popup, help_row, label_filter_line, list_row, toc_row};
use mdr::popups::theme_popup;
use mdr::style::{Piece, Role};
use mdr::theme::Color;

fn text(pieces: &[Piece]) -> String {
    pieces.iter().map(|p| p.text.as_str()).collect()
}

#[test]
fn theme_picker_scrolls_to_selected_theme() {
    let area = Rect { x: 0, y: 0, width: 60, height: 10 };
    let popup = theme_popup(16, area);
    // Borders take two rows and the hint one.
    let visible = (popup.height - 3) as usize;
    let first = picker_first_visible(15, visible);
    assert!(first <= 15 && 15 < first + visible);
    let row = list_row(&format!("theme {:02}", 15), true, Role::Text, Role::Selection, 36);
    assert!(text(&row).contains("theme 15"));
}

#[test]
fn list_rows_mark_and_pad_the_selection() {
    let selected = list_row("theme 15", true, Role::Text, Role::Selection, 20);
    assert_eq!(selected.len(), 2);
    assert_eq!(selected[0].text, " > theme 15");
    assert_eq!(selected[0].fg, Some(Role::Selection));
    assert_eq!(selected[0].bg, Some(Role::CursorBg));
    assert!(selected[0].bold);
    assert_eq!(selected[1].text, " ".repeat(9));
    assert_eq!(selected[1].bg, Some(Role::CursorBg));
    let other = list_row("theme 14", false, Role::Text, Role::Selection, 20);
    assert_eq!(other.len(), 1);
    assert_eq!(other[0].text, "   theme 14");
    assert_eq!(other[0].fg, Some(Role::Text));
    assert_eq!(other[0].bg, None);
    assert_eq!(list_row("wide", true, Role::Text, Role::Selection, 3).len(), 1);
}

#[test]
fn outline_rows_indent_by_level() {
    let top = toc_row("Intro", 1, false, 30);
    assert_eq!(top[0].text, "   Intro");
    assert_eq!(top[0].fg, Some(Role::Heading));
    let deep = toc_row("Detail", 3, false, 30);
    assert_eq!(deep[0].text, "       Detail");
    assert_eq!(deep[0].fg, Some(Role::TextBright));
    assert_eq!(toc_row("Part", 2, false, 30)[0].fg, Some(Role::Heading));
    let chosen = toc_row("Part", 2, true, 30);
    assert_eq!(chosen[0].text, " >   Part");
    assert_eq!(chosen[0].fg, Some(Role::Selection));
}

#[test]
fn label_rows_prefix_tags() {
    let c = Color::Rgb(9, 8, 7);
    let none = filter_row("None", c, false, 20);
    assert_eq!(none[0].text, "   None");
    assert_eq!(none[0].fg, Some(Role::Text));
    let tag = filter_row("bug", c, true, 10);
    assert_eq!(tag[0].text, " > #bug");
    assert_eq!(tag[0].fg, Some(Role::Fixed(c)));
    assert_eq!(tag[1].text, "   ");
}

#[test]
fn label_filter_prompts_until_typed() {
    let empty = label_filter_line("");
    assert_eq!(empty.len(), 1);
    assert_eq!(empty[0].text, " type to filter...");
    assert_eq!(empty[0].fg, Some(Role::TextMuted));
    let typed = label_filter_line("ab");
    assert_eq!(text(&typed), " > ab");
    assert_eq!(typed[0].fg, Some(Role::Key));
    assert_eq!(typed[1].fg, Some(Role::TextBright));
}

#[test]
fn help_rows_align_descriptions() {
    let row = help_row("q", "Quit");
    assert_eq!(row[0].text, format!(" {:14}", "q"));
    assert_eq!(row[1].text, "Quit");
    assert_eq!(row[1].fg, Some(Role::Text));
    let long = help_row("a very long key text", "x");
    assert_eq!(long[0].text, " a very long key text");
}

#[test]
fn help_popup_fits_the_longest_row() {
    let entries: Vec<(String, String)> = vec![
        ("j / Down".to_string(), "Scroll down".to_string()),
        ("Ctrl-c".to_string(), "Quit".to_string()),
        ("é".to_string(), "Accented key".to_string()),
    ];
    let area = Rect { x: 0, y: 0, width: 100, height: 40 };
    let widest = entries
        .iter()
        .map(|(k, d)| format!(" {:14}{}", k, d).len())
        .max()
        .unwrap() as u16;
    let expected = centered_rect((widest + 4).min(96), 7, area);
    assert_eq!(help_popup(&entries, area), expected);
    assert_eq!(help_popup(&entries, area).width, 32);
    let narrow = Rect { x: 0, y: 0, width: 20, height: 40 };
    assert_eq!(help_popup(&entries, narrow).width, 16);
    assert_eq!(help_popup(&[], area), centered_rect(4, 4, area));
}
