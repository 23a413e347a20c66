use mdr::lists::help_row;
use mdr::reader::{
    highlight_line_pieces, reader_rows, ReaderLine,
};
use mdr::reader::{
    first_shown_line, gutter_mark, highlight_row, row_highlighted, scrollbar_extent, status_line,
    tab_bar, StatusInfo,
};
use mdr::style::{decimal_text, role_color, Piece, Role};
use mdr::theme::{default_theme, Color};

fn text(pieces: &[Piece]) -> String {
    pieces.iter().map(|p| p.text.as_str()).collect()
}

fn info() -> StatusInfo {
    StatusInfo {
        file_path: Some("/home/u/doc.md".to_string()),
        percent: 42,
        searching: false,
        query: String::new(),
        matches: 0,
        current: 0,
        filter_tasks: false,
        tag: None,
        file_updated: false,
    }
}

#[test]
fn reader_uses_selection_and_key_roles() {
    let theme = default_theme();
    let tabs = vec![Some("synthetic-one.md".to_string()), Some("synthetic-two.md".to_string())];
    let bar = tab_bar(&tabs, 0);
    assert_eq!(bar[1].text, " synthetic-one.md ");
    assert_eq!(role_color(&theme, bar[1].fg.unwrap()), theme.selection);

    let row = help_row("j / Down", "Move cursor down / Select next");
    assert_eq!(row[0].text, " j / Down      ");
    assert_eq!(role_color(&theme, row[0].fg.unwrap()), theme.key);
}

#[test]
fn first_shown_line_keeps_the_last_page_full() {
    assert_eq!(first_shown_line(10, 100, 20), 10);
    assert_eq!(first_shown_line(95, 100, 20), 80);
    assert_eq!(first_shown_line(usize::MAX, 100, 20), 80);
    assert_eq!(first_shown_line(5, 10, 20), 0);
}

#[test]
fn scrollbar_only_for_long_documents() {
    assert_eq!(scrollbar_extent(true, 100, 20), Some(80));
    assert_eq!(scrollbar_extent(false, 100, 20), None);
    assert_eq!(scrollbar_extent(true, 20, 20), None);
}

#[test]
fn gutter_marks_headings_and_bookmarks() {
    let folded = gutter_mark(true, true, true);
    assert_eq!(folded.text, "▶ ");
    assert_eq!(folded.fg, Some(Role::TextDim));
    assert_eq!(gutter_mark(true, false, false).text, "▼ ");
    let mark = gutter_mark(false, false, true);
    assert_eq!(mark.text, "● ");
    assert_eq!(mark.fg, Some(Role::Accent));
    let blank = gutter_mark(false, true, false);
    assert_eq!(blank.text, "  ");
    assert_eq!(blank.fg, None);
}

#[test]
fn wrapped_lines_share_the_cursor() {
    assert!(row_highlighted(3, 3, None, None));
    assert!(row_highlighted(4, 3, Some(7), Some(7)));
    assert!(!row_highlighted(4, 3, Some(7), Some(8)));
    assert!(!row_highlighted(4, 3, None, None));
    assert!(!row_highlighted(4, 3, Some(7), None));
}

#[test]
fn cursor_line_is_padded_on_the_cursor_background() {
    let line = vec![
        Piece { text: "ab".to_string(), fg: Some(Role::Text), bg: None, bold: true },
        Piece { text: "日本".to_string(), fg: None, bg: Some(Role::Background), bold: false },
    ];
    let row = highlight_row(line, 9);
    assert_eq!(row.len(), 3);
    assert_eq!(text(&row), "ab日本   ");
    assert!(row.iter().all(|p| p.bg == Some(Role::CursorBg)));
    assert_eq!(row[0].fg, Some(Role::Text));
    assert!(row[0].bold);
    let full = highlight_row(vec![Piece { text: "abc".to_string(), fg: None, bg: None, bold: false }], 3);
    assert_eq!(full.len(), 1);
}

#[test]
fn tab_bar_names_each_document() {
    let tabs = vec![Some("/a/one.md".to_string()), None, Some("/".to_string())];
    let bar = tab_bar(&tabs, 1);
    assert_eq!(text(&bar), "  one.md   [stdin]   [stdin]  ");
    assert_eq!(bar[1].fg, Some(Role::TextDim));
    assert_eq!(bar[3].fg, Some(Role::Selection));
    assert_eq!(bar[3].bg, Some(Role::CursorBg));
    assert!(bar[3].bold);
    assert_eq!(tab_bar(&[], 0).len(), 1);
}

#[test]
fn status_line_lists_fields_and_flags() {
    let plain = status_line(&info(), Some("/home/u"));
    assert_eq!(text(&plain), "mdr │ ~/doc.md │ 42% │ ?:help");
    assert_eq!(plain[0].fg, Some(Role::Accent));
    assert!(plain[0].bold);
    assert_eq!(plain[1].fg, Some(Role::Border));

    let mut all = info();
    all.file_path = None;
    all.filter_tasks = true;
    all.tag = Some(("work".to_string(), Color::Rgb(1, 2, 3)));
    all.file_updated = true;
    all.query = "foo".to_string();
    all.matches = 3;
    all.current = 1;
    let line = status_line(&all, None);
    assert_eq!(
        text(&line),
        "mdr │ no file │ 42% │ ?:help │ [tasks] │ #work │ [updated] │ /foo (2/3)"
    );
    assert_eq!(line[8].fg, Some(Role::Features));
    assert_eq!(line[10].fg, Some(Role::Fixed(Color::Rgb(1, 2, 3))));
    assert_eq!(line.last().unwrap().fg, Some(Role::TextDim));

    all.matches = 0;
    assert!(text(&status_line(&all, None)).ends_with(" │ /foo"));
}

#[test]
fn search_status_shows_the_match_count() {
    let mut s = info();
    s.searching = true;
    assert_eq!(text(&status_line(&s, None)), "/");
    s.query = "needle".to_string();
    let none = status_line(&s, None);
    assert_eq!(text(&none), "/needle (no matches)");
    assert_eq!(none[0].fg, Some(Role::Key));
    assert_eq!(none[1].fg, Some(Role::TextBright));
    s.matches = 12;
    s.current = 11;
    assert_eq!(text(&status_line(&s, None)), "/needle (12/12)");
}

#[test]
fn decimal_text_writes_numbers() {
    assert_eq!(decimal_text(0), "0");
    assert_eq!(decimal_text(7), "7");
    assert_eq!(decimal_text(1234567), "1234567");
    assert_eq!(decimal_text(usize::MAX), usize::MAX.to_string());
}

fn plain(text: &str) -> Piece {
    Piece { text: text.to_string(), fg: Some(Role::Text), bg: None, bold: false }
}

#[test]
fn search_matches_are_drawn_dark_on_the_selection() {
    let theme = default_theme();
    let line = vec![plain("Foo foo")];
    let pieces = highlight_line_pieces(&line, "foo").unwrap();
    assert_eq!(text(&pieces), "Foo foo");
    assert_eq!(pieces.len(), 3);
    assert_eq!(pieces[0].text, "Foo");
    assert_eq!(role_color(&theme, pieces[0].fg.unwrap()), theme.background_dark);
    assert_eq!(role_color(&theme, pieces[0].bg.unwrap()), theme.selection);
    assert!(pieces[0].bold);
    assert_eq!(pieces[1].text, " ");
    assert_eq!(pieces[1].fg, Some(Role::Text));
    assert_eq!(pieces[1].bg, None);
    assert!(!pieces[1].bold);
    assert_eq!(pieces[2].text, "foo");
    assert!(pieces[2].bold);
    let untouched = highlight_line_pieces(&line, "").unwrap();
    assert_eq!(text(&untouched), "Foo foo");
    assert_eq!(untouched.len(), 1);
}

fn doc_line(text: &str, heading: bool, folded: bool, source: usize) -> ReaderLine {
    ReaderLine { pieces: vec![plain(text)], heading, folded, source: Some(source) }
}

#[test]
fn reader_rows_compose_gutter_cursor_and_matches() {
    let lines = vec![
        doc_line("# Title", true, false, 0),
        doc_line("wrapped first", false, false, 1),
        doc_line("wrapped second", false, false, 1),
        doc_line("last", false, false, 2),
        doc_line("## Folded", true, true, 3),
    ];
    let shown: Vec<usize> = vec![0, 1, 2, 3, 4];
    // Scrolled to the second line, three rows high, cursor on row 1, bookmark on row 3.
    let rows = reader_rows(&lines, &shown, 1, 3, 1, &vec![3], "", 20).unwrap();
    assert_eq!(rows.len(), 3);
    assert_eq!(rows[0].0.text, "  ");
    assert_eq!(text(&rows[0].1), format!("{:20}", "wrapped first"));
    assert!(rows[0].1.iter().all(|p| p.bg == Some(Role::CursorBg)));
    // The wrapped continuation of the cursor's source line is highlighted too.
    assert!(rows[1].1.iter().all(|p| p.bg == Some(Role::CursorBg)));
    assert_eq!(rows[2].0.text, "● ");
    assert_eq!(rows[2].1.len(), 1);
    assert_eq!(rows[2].1[0].bg, None);

    // Scrolling past the end keeps the last page full.
    let end = reader_rows(&lines, &shown, 99, 2, 99, &vec![], "", 20).unwrap();
    assert_eq!(end.len(), 2);
    assert_eq!(end[1].0.text, "▶ ");
    assert_eq!(end[1].0.fg, Some(Role::TextDim));

    // A query splits the rows around its matches.
    let found = reader_rows(&lines, &shown, 0, 1, 9, &vec![], "title", 20).unwrap();
    assert_eq!(found[0].0.text, "▼ ");
    assert_eq!(found[0].1[1].text, "Title");
    assert_eq!(found[0].1[1].bg, Some(Role::Selection));
    assert!(reader_rows(&lines, &shown, 0, 0, 0, &vec![], "", 20).unwrap().is_empty());
}
