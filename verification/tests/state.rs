use mdr::state::{AppMode, AppState, PreviousMode};
use mdr::theme::{default_theme, Color, Theme};

fn themes() -> Vec<(String, Theme)> {
    let base = default_theme();
    (0..8)
        .map(|i| {
            let mut t = base;
            t.accent = Color::Rgb(i as u8, 0, 0);
            (format!("theme {i}"), t)
        })
        .collect()
}

#[test]
fn new_reader_starts_in_reader_next_to_the_file() {
    let s = AppState::new_reader("/docs/notes/a.md".to_string(), "# A".to_string(), themes());
    assert_eq!(s.mode, AppMode::Reader);
    assert_eq!(s.browser_dir, "/docs/notes");
    assert_eq!(s.file_path.as_deref(), Some("/docs/notes/a.md"));
    assert_eq!(s.scroll, 0);
    assert_eq!(s.theme_index, 5);
    assert_eq!(s.theme, default_theme());
    let t = AppState::new_reader("/".to_string(), String::new(), themes());
    assert_eq!(t.browser_dir, ".");
    let u = AppState::new_reader("a.md".to_string(), String::new(), themes());
    assert_eq!(u.browser_dir, "");
}

#[test]
fn new_browser_starts_in_browser() {
    let s = AppState::new_browser("/docs".to_string(), themes());
    assert_eq!(s.mode, AppMode::Browser);
    assert!(s.content.is_empty());
    assert!(s.file_path.is_none());
    assert_eq!(s.browser_dir, "/docs");
}

#[test]
fn open_file_shows_document_from_top() {
    let mut s = AppState::new_browser("/docs".to_string(), themes());
    s.scroll_down(7);
    s.open_file("/docs/b.md".to_string(), "text".to_string());
    assert_eq!(s.mode, AppMode::Reader);
    assert_eq!(s.scroll, 0);
    assert_eq!(s.content, "text");
    s.back_to_browser();
    assert_eq!(s.mode, AppMode::Browser);
}

#[test]
fn theme_picker_cancel_restores_theme_and_mode() {
    let mut s = AppState::new_reader("/d/a.md".to_string(), String::new(), themes());
    s.theme_picker_select(2);
    let before_theme = s.theme;
    s.open_theme_picker();
    assert_eq!(
        s.mode,
        AppMode::ThemePicker { previous_mode: PreviousMode::Reader, original_index: 2 }
    );
    s.theme_picker_select(4);
    s.theme_picker_select(6);
    assert_eq!(s.theme.accent, Color::Rgb(6, 0, 0));
    s.theme_picker_cancel();
    assert_eq!(s.mode, AppMode::Reader);
    assert_eq!(s.theme_index, 2);
    assert_eq!(s.theme, before_theme);
}

#[test]
fn theme_picker_confirm_keeps_selection() {
    let mut s = AppState::new_browser("/d".to_string(), themes());
    s.open_theme_picker();
    s.theme_picker_select(3);
    s.theme_picker_confirm();
    assert_eq!(s.mode, AppMode::Browser);
    assert_eq!(s.theme_index, 3);
    assert_eq!(s.theme.accent, Color::Rgb(3, 0, 0));
}

#[test]
fn help_returns_to_previous_screen_and_overlays_do_not_stack() {
    let mut s = AppState::new_browser("/d".to_string(), themes());
    s.open_help();
    assert_eq!(s.mode, AppMode::Help { previous_mode: PreviousMode::Browser });
    s.open_theme_picker();
    assert_eq!(s.mode, AppMode::Help { previous_mode: PreviousMode::Browser });
    s.close_help();
    assert_eq!(s.mode, AppMode::Browser);
    s.open_theme_picker();
    s.open_help();
    assert!(matches!(s.mode, AppMode::ThemePicker { .. }));
    s.close_help();
    assert!(matches!(s.mode, AppMode::ThemePicker { .. }));
}

#[test]
fn scrolling_saturates() {
    let mut s = AppState::new_browser("/d".to_string(), themes());
    s.scroll_down(3);
    s.scroll_up(1);
    assert_eq!(s.scroll, 2);
    s.scroll_up(10);
    assert_eq!(s.scroll, 0);
    s.scroll_bottom();
    assert_eq!(s.scroll, usize::MAX);
    s.scroll_down(5);
    assert_eq!(s.scroll, usize::MAX);
    s.scroll_top();
    assert_eq!(s.scroll, 0);
}
