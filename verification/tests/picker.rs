use mdr::picker::finish_entry_line;
use mdr::style::{role_color, Piece, Role};
use mdr::layout::{picker_rect, Rect};
use mdr::picker::{
    entry_line, hint_line, picker_empty_message, picker_frame, picker_filter_line, picker_rows, picker_status,
    picker_title, recent_heading, PickerEntry, PickerRow,
};
use mdr::theme::default_theme;

fn entry(name: &str, path: &str, is_dir: bool, is_recent: bool) -> PickerEntry {
    PickerEntry { name: name.to_string(), path: path.to_string(), is_dir, is_recent }
}

fn text(pieces: &[Piece]) -> String {
    pieces.iter().map(|p| p.text.as_str()).collect()
}

#[test]
fn recent_heading_fills_the_width_with_a_rule() {
    let pieces = recent_heading(20);
    assert_eq!(text(&pieces), "   Most Recent ─────");
    assert_eq!(pieces[1].fg, Some(Role::PickerRecent));
    assert!(pieces[1].bold);
    assert_eq!(recent_heading(15).len(), 2);
}

#[test]
fn selected_entry_has_marker_on_cursor_background() {
    let area = Rect { x: 0, y: 0, width: 80, height: 30 };
    let width = (picker_rect(area).width - 2) as usize;
    let pieces = entry_line(&entry("notes.md", "notes.md", false, false), &[], true, true, width, None);
    assert_eq!(pieces[0].text, "▌ ");
    assert_eq!(pieces[0].fg, Some(Role::PickerAccent));
    assert_eq!(pieces[0].bg, Some(Role::CursorBg));
    assert!(pieces.iter().all(|p| p.bg == Some(Role::CursorBg)));
    assert_eq!(text(&pieces).chars().count(), width);
    let theme = default_theme();
    assert_eq!(role_color(&theme, pieces[0].bg.unwrap()), theme.cursor_bg);
}

#[test]
fn recent_entry_shows_its_directory_dimmed() {
    let area = Rect { x: 0, y: 0, width: 80, height: 30 };
    let width = (picker_rect(area).width - 2) as usize;
    let pieces = entry_line(
        &entry("recent.md", "/synthetic/project/recent.md", false, true),
        &[],
        true,
        false,
        width,
        None,
    );
    let last = pieces.last().unwrap();
    assert_eq!(last.text, "/synthetic/project");
    assert_eq!(last.fg, Some(Role::TextDim));
    assert_eq!(text(&pieces).chars().count(), width);
    assert!(pieces[2..11].iter().all(|p| p.fg == Some(Role::PickerRecent)));
}

#[test]
fn recent_directory_is_cut_to_fit_and_home_is_shortened() {
    let pieces = entry_line(
        &entry("a.md", "/home/u/projects/long/a.md", false, true),
        &[],
        true,
        false,
        20,
        Some("/home/u"),
    );
    // Marker, icon and name take 8 columns; 10 remain after a 2-column gap.
    assert_eq!(pieces.last().unwrap().text, "…ects/long");
    assert_eq!(text(&pieces).chars().count(), 20);
    // With a filter, no directory is shown.
    let filtered = entry_line(
        &entry("a.md", "/home/u/projects/long/a.md", false, true),
        &[],
        false,
        false,
        20,
        Some("/home/u"),
    );
    assert_eq!(filtered.last().unwrap().text, " ".repeat(12));
}

#[test]
fn matches_and_directories_are_coloured() {
    let pieces = entry_line(&entry("docs/readme.md", "docs/readme.md", false, false), &[0, 5], true, false, 30, None);
    // "docs/" is the directory part of the name and dimmed, matches are highlighted.
    assert_eq!(pieces[2].fg, Some(Role::PickerMatched));
    assert!(pieces[2].bold);
    assert_eq!(pieces[3].fg, Some(Role::TextDim));
    assert_eq!(pieces[7].fg, Some(Role::PickerMatched));
    assert_eq!(pieces[8].fg, Some(Role::Text));
    let dir = entry_line(&entry("sub", "sub", true, false), &[], true, false, 10, None);
    assert_eq!(dir[1].text, "› ");
    assert_eq!(dir[2].fg, Some(Role::PickerDirectory));
    let up = entry_line(&entry("../", "..", true, false), &[], true, false, 10, None);
    assert_eq!(up[1].text, "↑ ");
    assert_eq!(up[2].fg, Some(Role::TextDim));
}

#[test]
fn hint_line_lists_bindings_then_status() {

    let bindings = vec![("enter".to_string(), "open".to_string()), ("esc".to_string(), "close".to_string())];
    let pieces = hint_line(&bindings, Some(("1/3".to_string(), Role::TextDim)));
    assert_eq!(text(&pieces), "  enter  open   esc  close  1/3");
    assert_eq!(pieces.len(), 6);
    assert_eq!(pieces[1].bg, Some(Role::CursorBg));
    assert!(pieces[1].bold);
    assert_eq!(pieces[5].fg, Some(Role::TextDim));
    assert_eq!(hint_line(&[], None).len(), 1);
}

#[test]
fn finish_entry_line_places_label_at_right_edge() {
    let head = vec![Piece { text: "  a.md".to_string(), fg: None, bg: Some(Role::Background), bold: false }];
    let line = finish_entry_line(head, 6, Some("/dir".to_string()), 4, 20, false);
    assert_eq!(text(&line), "  a.md          /dir");
    assert_eq!(line[2].fg, Some(Role::TextDim));
    let head = vec![Piece { text: "  a.md".to_string(), fg: None, bg: Some(Role::Background), bold: false }];
    let padded = finish_entry_line(head, 6, None, 0, 10, true);
    assert_eq!(padded[1].text, "    ");
    assert_eq!(padded[1].bg, Some(Role::CursorBg));
}

#[test]
fn file_picker_uses_layered_theme_and_selection_marker() {
    let theme = default_theme();
    let area = Rect { x: 0, y: 0, width: 80, height: 30 };
    let popup = picker_rect(area);
    // The screen behind the picker, the border and the filter input each have their role.
    let frame = picker_frame("synthetic", None);
    assert_eq!(role_color(&theme, frame.screen_bg), theme.background_deep);
    assert_eq!(role_color(&theme, frame.border), theme.picker_border);
    assert_eq!(role_color(&theme, frame.filter_bg), theme.background_dark);
    assert_eq!(frame.title.text, " synthetic ");
    assert_eq!(role_color(&theme, frame.title.fg.unwrap()), theme.picker_accent);
    assert!(frame.title.bold);
    let filter = picker_filter_line("");
    assert_eq!(filter[0].bg, Some(Role::BackgroundDark));
    assert_eq!(role_color(&theme, filter[0].bg.unwrap()), theme.background_dark);
    // The list is one row below the filter input; its first row is the selected entry.
    let height = (popup.height - 4) as usize;
    let rows = picker_rows(1, 0, None, height);
    assert_eq!(rows, vec![PickerRow::Entry(0)]);
    let width = (popup.width - 2) as usize;
    let line = entry_line(&entry("notes.md", "notes.md", false, false), &[], true, true, width, None);
    assert!(line[0].text.starts_with('▌'));
    assert_eq!(role_color(&theme, line[0].bg.unwrap()), theme.cursor_bg);
}

#[test]
fn file_picker_labels_recent_documents_with_parent_directory() {
    let theme = default_theme();
    let area = Rect { x: 0, y: 0, width: 80, height: 30 };
    let popup = picker_rect(area);
    let height = (popup.height - 4) as usize;
    let width = (popup.width - 2) as usize;
    let rows = picker_rows(1, 0, Some(0), height);
    assert_eq!(rows, vec![PickerRow::Heading, PickerRow::Entry(0)]);
    let heading = text(&recent_heading(width));
    assert!(heading.contains("Most Recent"));
    let line = entry_line(
        &entry("recent.md", "/synthetic/project/recent.md", false, true),
        &[],
        true,
        false,
        width,
        None,
    );
    let rendered = text(&line);
    assert!(rendered.contains("/synthetic/project"));
    let last = line.last().unwrap();
    assert_eq!(last.text, "/synthetic/project");
    assert_eq!(role_color(&theme, last.fg.unwrap()), theme.text_dim);
}

#[test]
fn picker_rows_place_the_heading_and_stop_at_the_height() {
    assert_eq!(picker_rows(5, 0, Some(2), 10), vec![PickerRow::Entry(0), PickerRow::Entry(1), PickerRow::Heading, PickerRow::Entry(2), PickerRow::Entry(3), PickerRow::Entry(4)]);
    assert_eq!(picker_rows(5, 0, Some(2), 3), vec![PickerRow::Entry(0), PickerRow::Entry(1), PickerRow::Entry(2)]);
    assert_eq!(picker_rows(5, 0, Some(2), 4), vec![PickerRow::Entry(0), PickerRow::Entry(1), PickerRow::Heading, PickerRow::Entry(2)]);
    assert_eq!(picker_rows(5, 3, Some(2), 10), vec![PickerRow::Entry(3), PickerRow::Entry(4)]);
    assert_eq!(picker_rows(5, 0, None, 0), vec![]);
    assert_eq!(picker_rows(0, 0, Some(0), 5), vec![]);
    assert_eq!(picker_rows(3, 0, Some(0), 1), vec![PickerRow::Entry(0)]);
}

#[test]
fn picker_messages_status_and_title() {
    assert_eq!(picker_empty_message(true).text, "   No markdown files found");
    assert_eq!(picker_empty_message(false).text, "   No matches");
    assert_eq!(picker_empty_message(false).fg, Some(Role::TextDim));
    assert_eq!(picker_status(true, 7, 0), ("scanning • 7 shown".to_string(), Role::PickerLoading));
    assert_eq!(picker_status(false, 0, 0), ("0/0".to_string(), Role::TextDim));
    assert_eq!(picker_status(false, 3, 1), ("2/3".to_string(), Role::TextDim));
    assert_eq!(picker_title("/home/u/notes", Some("/home/u")), " ~/notes ");
    assert_eq!(picker_title("/srv/notes", Some("/home/u")), " /srv/notes ");
    let typed = picker_filter_line("md");
    assert_eq!(text(&typed), " > md");
    assert_eq!(typed[0].fg, Some(Role::PickerAccent));
    assert_eq!(typed[1].fg, Some(Role::Text));
    assert!(typed.iter().all(|p| p.bg == Some(Role::BackgroundDark)));
}
