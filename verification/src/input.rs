//! Key handling: each key press changes the state and tells the event loop whether to
//! quit, redraw, or do nothing.

use vstd::prelude::*;
use crate::state::{
    AppMode, AppState, PreviousMode, cancel_ok, spec_close_help, spec_open_help, spec_open_theme_picker,
    spec_scroll_down, spec_scroll_up, spec_theme_picker_cancel, spec_theme_picker_confirm,
    spec_theme_picker_select,
};

verus! {

/// A key as the event loop reports it.
#[derive(Clone, Copy, Debug, PartialEq, Eq, Structural)]
pub enum Key {
    Char(char),
    Up,
    Down,
    Enter,
    Esc,
    Other,
}

/// What the event loop does after a key.
#[derive(Clone, Copy, Debug, PartialEq, Eq, Structural)]
pub enum Action {
    Quit,
    Redraw,
    Ignore,
}

/// Lines moved by Ctrl-d and Ctrl-u.
pub const PAGE_LINES: usize = 20;

/// The next theme down the picker list, if there is one.
pub open spec fn next_pick(s: AppState) -> Option<int> {
    if s.theme_index + 1 < s.themes@.len() {
        Some(s.theme_index + 1)
    } else {
        None
    }
}

/// The next theme up the picker list, if there is one.
pub open spec fn prev_pick(s: AppState) -> Option<int> {
    if 0 < s.theme_index && s.theme_index - 1 < s.themes@.len() {
        Some(s.theme_index - 1)
    } else {
        None
    }
}

/// A key on the reader or the browser: `q` quits; `j`/Down and `k`/Up scroll a line;
/// Ctrl-d and Ctrl-u scroll a page; `g` and `G` go to the top and the end; `t` opens the
/// theme picker and `?` the help.
pub open spec fn spec_screen_key(s: AppState, key: Key, ctrl: bool) -> (AppState, Action) {
    match key {
        Key::Char('q') => (s, Action::Quit),
        Key::Char('j') | Key::Down => (spec_scroll_down(s, 1), Action::Redraw),
        Key::Char('k') | Key::Up => (spec_scroll_up(s, 1), Action::Redraw),
        Key::Char('d') if ctrl => (spec_scroll_down(s, PAGE_LINES), Action::Redraw),
        Key::Char('u') if ctrl => (spec_scroll_up(s, PAGE_LINES), Action::Redraw),
        Key::Char('g') => (AppState { scroll: 0, ..s }, Action::Redraw),
        Key::Char('G') => (AppState { scroll: usize::MAX, ..s }, Action::Redraw),
        Key::Char('t') => (spec_open_theme_picker(s), Action::Redraw),
        Key::Char('?') => (spec_open_help(s), Action::Redraw),
        _ => (s, Action::Ignore),
    }
}

/// A key in the theme picker: `j`/Down and `k`/Up preview the next and previous theme,
/// Enter keeps the theme, Esc goes back to the one it was opened on (or keeps the current one when
/// that one is not in the list).
pub open spec fn spec_picker_key(s: AppState, key: Key) -> (AppState, Action) {
    match key {
        Key::Char('j') | Key::Down => match next_pick(s) {
            Some(i) => (spec_theme_picker_select(s, i), Action::Redraw),
            None => (s, Action::Redraw),
        },
        Key::Char('k') | Key::Up => match prev_pick(s) {
            Some(i) => (spec_theme_picker_select(s, i), Action::Redraw),
            None => (s, Action::Redraw),
        },
        Key::Enter => (spec_theme_picker_confirm(s), Action::Redraw),
        Key::Esc => if cancel_ok(s) {
            (spec_theme_picker_cancel(s), Action::Redraw)
        } else {
            (spec_theme_picker_confirm(s), Action::Redraw)
        },
        _ => (s, Action::Ignore),
    }
}

/// A key in the help: Esc, Enter and `?` close it.
pub open spec fn spec_help_key(s: AppState, key: Key) -> (AppState, Action) {
    match key {
        Key::Esc | Key::Enter | Key::Char('?') => (spec_close_help(s), Action::Redraw),
        _ => (s, Action::Ignore),
    }
}

/// The state and action after `key` (with Ctrl held when `ctrl`): Ctrl-c quits
/// everywhere; other keys act as the current screen or overlay defines.
pub open spec fn spec_handle_key(s: AppState, key: Key, ctrl: bool) -> (AppState, Action) {
    if key == Key::Char('c') && ctrl {
        (s, Action::Quit)
    } else {
        match s.mode {
            AppMode::Browser | AppMode::Reader => spec_screen_key(s, key, ctrl),
            AppMode::ThemePicker { .. } => spec_picker_key(s, key),
            AppMode::Help { .. } => spec_help_key(s, key),
        }
    }
}

impl AppState {
    fn screen_key(&mut self, key: Key, ctrl: bool) -> (a: Action)
        ensures
            (*final(self), a) == spec_screen_key(*old(self), key, ctrl),
    {
        match key {
            Key::Char('q') => Action::Quit,
            Key::Char('j') | Key::Down => {
                self.scroll_down(1);
                Action::Redraw
            },
            Key::Char('k') | Key::Up => {
                self.scroll_up(1);
                Action::Redraw
            },
            Key::Char('d') if ctrl => {
                self.scroll_down(PAGE_LINES);
                Action::Redraw
            },
            Key::Char('u') if ctrl => {
                self.scroll_up(PAGE_LINES);
                Action::Redraw
            },
            Key::Char('g') => {
                self.scroll_top();
                Action::Redraw
            },
            Key::Char('G') => {
                self.scroll_bottom();
                Action::Redraw
            },
            Key::Char('t') => {
                self.open_theme_picker();
                Action::Redraw
            },
            Key::Char('?') => {
                self.open_help();
                Action::Redraw
            },
            _ => Action::Ignore,
        }
    }

    fn picker_key(&mut self, key: Key) -> (a: Action)
        ensures
            (*final(self), a) == spec_picker_key(*old(self), key),
    {
        match key {
            Key::Char('j') | Key::Down => {
                let n = self.themes.len();
                if self.theme_index < usize::MAX && self.theme_index + 1 < n {
                    let i = self.theme_index + 1;
                    self.theme_picker_select(i);
                }
                Action::Redraw
            },
            Key::Char('k') | Key::Up => {
                if 0 < self.theme_index && self.theme_index - 1 < self.themes.len() {
                    let i = self.theme_index - 1;
                    self.theme_picker_select(i);
                }
                Action::Redraw
            },
            Key::Enter => {
                self.theme_picker_confirm();
                Action::Redraw
            },
            Key::Esc => {
                let ok = match self.mode {
                    AppMode::ThemePicker { original_index, .. } => original_index
                        < self.themes.len(),
                    _ => true,
                };
                if ok {
                    self.theme_picker_cancel();
                } else {
                    self.theme_picker_confirm();
                }
                Action::Redraw
            },
            _ => Action::Ignore,
        }
    }

    fn help_key(&mut self, key: Key) -> (a: Action)
        ensures
            (*final(self), a) == spec_help_key(*old(self), key),
    {
        match key {
            Key::Esc | Key::Enter | Key::Char('?') => {
                self.close_help();
                Action::Redraw
            },
            _ => Action::Ignore,
        }
    }

    /// Applies a key press; see [`spec_handle_key`].
    pub fn handle_key(&mut self, key: Key, ctrl: bool) -> (a: Action)
        ensures
            (*final(self), a) == spec_handle_key(*old(self), key, ctrl),
    {
        if key == Key::Char('c') && ctrl {
            return Action::Quit;
        }
        match self.mode {
            AppMode::Browser | AppMode::Reader => self.screen_key(key, ctrl),
            AppMode::ThemePicker { .. } => self.picker_key(key),
            AppMode::Help { .. } => self.help_key(key),
        }
    }
}

/// A key that quits leaves the state as it was.
pub proof fn law_quit_keeps_state(s: AppState, key: Key, ctrl: bool)
    ensures
        spec_handle_key(s, key, ctrl).1 == Action::Quit ==> spec_handle_key(s, key, ctrl).0 == s,
{
}

/// Ctrl-c quits whatever is shown.
pub proof fn law_ctrl_c_quits(s: AppState)
    ensures
        spec_handle_key(s, Key::Char('c'), true) == (s, Action::Quit),
{
}

/// On the reader or the browser, Down and `j` scroll one line down and Up and `k` one line
/// up, Ctrl-d and Ctrl-u a page down and up; nothing else changes, and the screen is
/// redrawn.
pub proof fn law_scroll_keys_move_by_lines(s: AppState)
    requires
        s.mode == AppMode::Reader || s.mode == AppMode::Browser,
    ensures
        s.scroll < usize::MAX ==> spec_handle_key(s, Key::Down, false) == (
            (AppState { scroll: (s.scroll + 1) as usize, ..s }),
            Action::Redraw,
        ),
        s.scroll < usize::MAX ==> spec_handle_key(s, Key::Char('j'), false) == (
            (AppState { scroll: (s.scroll + 1) as usize, ..s }),
            Action::Redraw,
        ),
        s.scroll > 0 ==> spec_handle_key(s, Key::Up, false) == (
            (AppState { scroll: (s.scroll - 1) as usize, ..s }),
            Action::Redraw,
        ),
        s.scroll > 0 ==> spec_handle_key(s, Key::Char('k'), false) == (
            (AppState { scroll: (s.scroll - 1) as usize, ..s }),
            Action::Redraw,
        ),
        s.scroll + 20 <= usize::MAX ==> spec_handle_key(s, Key::Char('d'), true) == (
            (AppState { scroll: (s.scroll + 20) as usize, ..s }),
            Action::Redraw,
        ),
        s.scroll >= 20 ==> spec_handle_key(s, Key::Char('u'), true) == (
            (AppState { scroll: (s.scroll - 20) as usize, ..s }),
            Action::Redraw,
        ),
        spec_handle_key(s, Key::Char('g'), false) == ((AppState { scroll: 0, ..s }), Action::Redraw),
{
}

/// In the theme picker, Esc goes back to the screen under it with the theme the picker was
/// opened on, whatever was previewed, while Enter keeps the previewed theme; both change
/// nothing else.
pub proof fn law_picker_escape_restores_enter_keeps(s: AppState)
    requires
        s.mode matches AppMode::ThemePicker { original_index, .. } && original_index
            < s.themes@.len(),
    ensures
        ({
            let (t, a) = spec_handle_key(s, Key::Esc, false);
            let (u, b) = spec_handle_key(s, Key::Enter, false);
            let original_index = s.mode->ThemePicker_original_index;
            let back = if s.mode->ThemePicker_previous_mode == PreviousMode::Reader {
                AppMode::Reader
            } else {
                AppMode::Browser
            };
            &&& t.theme_index == original_index
            &&& t.theme == s.themes@[original_index as int].1
            &&& t.mode == back
            &&& t.content == s.content && t.file_path == s.file_path && t.scroll == s.scroll
            &&& t.themes == s.themes && t.browser_dir == s.browser_dir
            &&& a == Action::Redraw
            &&& u == (AppState { mode: back, ..s })
            &&& b == Action::Redraw
        }),
{
}

/// In the theme picker, Down and `j` preview the next theme of the list and Up and `k` the
/// previous one, changing nothing else; at either end of the list nothing changes.
pub proof fn law_picker_keys_preview_neighbours(s: AppState)
    requires
        s.mode is ThemePicker,
    ensures
        s.theme_index + 1 < s.themes@.len() ==> spec_handle_key(s, Key::Down, false) == (
            (AppState {
                theme_index: (s.theme_index + 1) as usize,
                theme: s.themes@[s.theme_index + 1].1,
                ..s
            }),
            Action::Redraw,
        ),
        s.theme_index + 1 < s.themes@.len() ==> spec_handle_key(s, Key::Char('j'), false)
            == spec_handle_key(s, Key::Down, false),
        0 < s.theme_index <= s.themes@.len() ==> spec_handle_key(s, Key::Up, false) == (
            (AppState {
                theme_index: (s.theme_index - 1) as usize,
                theme: s.themes@[s.theme_index - 1].1,
                ..s
            }),
            Action::Redraw,
        ),
        0 < s.theme_index <= s.themes@.len() ==> spec_handle_key(s, Key::Char('k'), false)
            == spec_handle_key(s, Key::Up, false),
        s.theme_index + 1 >= s.themes@.len() ==> spec_handle_key(s, Key::Down, false) == (
            s,
            Action::Redraw,
        ),
        s.theme_index == 0 ==> spec_handle_key(s, Key::Up, false) == (s, Action::Redraw),
{
}

/// On the reader or the browser, `t` opens the theme picker over that screen remembering
/// the current theme, and `?` opens the help over it; neither changes anything else.
pub proof fn law_overlay_keys_open_over_the_screen(s: AppState)
    requires
        s.mode == AppMode::Reader || s.mode == AppMode::Browser,
    ensures
        ({
            let under = if s.mode == AppMode::Reader {
                PreviousMode::Reader
            } else {
                PreviousMode::Browser
            };
            &&& spec_handle_key(s, Key::Char('t'), false) == (
                (AppState {
                    mode: AppMode::ThemePicker { previous_mode: under, original_index: s.theme_index },
                    ..s
                }),
                Action::Redraw,
            )
            &&& spec_handle_key(s, Key::Char('?'), false) == (
                (AppState { mode: AppMode::Help { previous_mode: under }, ..s }),
                Action::Redraw,
            )
        }),
{
}

} // verus!
