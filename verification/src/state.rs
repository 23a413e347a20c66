//! The application state: which screen is shown, the open document and how far it is
//! scrolled, and the theme in use with the overlays (theme picker, help) that come back
//! to the screen they were opened from.

use vstd::prelude::*;
use crate::path::{parent, spec_parent};
use crate::theme::{Theme, default_theme, spec_default_theme};
use crate::text::string_from_chars;

verus! {

/// The screen an overlay returns to.
#[derive(Clone, Copy, Debug, PartialEq, Eq, Structural)]
pub enum PreviousMode {
    Browser,
    Reader,
}

/// What the application shows.
#[derive(Clone, Copy, Debug, PartialEq, Eq, Structural)]
pub enum AppMode {
    /// The file browser.
    Browser,
    /// The open document.
    Reader,
    /// The theme picker over `previous_mode`; `original_index` is the theme to go back to
    /// on cancel.
    ThemePicker { previous_mode: PreviousMode, original_index: usize },
    /// The key help over `previous_mode`.
    Help { previous_mode: PreviousMode },
}

/// The whole state of the application.
pub struct AppState {
    pub mode: AppMode,
    /// Text of the open document.
    pub content: String,
    /// Path of the open document.
    pub file_path: Option<String>,
    /// First line shown.
    pub scroll: usize,
    /// The theme in use.
    pub theme: Theme,
    /// Position of the theme in use in `themes`.
    pub theme_index: usize,
    /// The themes the picker offers, by name.
    pub themes: Vec<(String, Theme)>,
    /// The directory the file browser shows.
    pub browser_dir: String,
}

/// The mode an overlay comes back to.
pub open spec fn mode_of(prev: PreviousMode) -> AppMode {
    match prev {
        PreviousMode::Browser => AppMode::Browser,
        PreviousMode::Reader => AppMode::Reader,
    }
}

/// The screen under the current mode, when it is not already an overlay.
pub open spec fn base_screen(mode: AppMode) -> Option<PreviousMode> {
    match mode {
        AppMode::Browser => Some(PreviousMode::Browser),
        AppMode::Reader => Some(PreviousMode::Reader),
        _ => None,
    }
}

pub open spec fn spec_back_to_browser(s: AppState) -> AppState {
    AppState { mode: AppMode::Browser, ..s }
}

pub open spec fn spec_open_theme_picker(s: AppState) -> AppState {
    match base_screen(s.mode) {
        Some(prev) => AppState {
            mode: AppMode::ThemePicker { previous_mode: prev, original_index: s.theme_index },
            ..s
        },
        None => s,
    }
}

pub open spec fn spec_theme_picker_select(s: AppState, index: int) -> AppState {
    AppState { theme_index: index as usize, theme: s.themes@[index].1, ..s }
}

pub open spec fn spec_theme_picker_confirm(s: AppState) -> AppState {
    match s.mode {
        AppMode::ThemePicker { previous_mode, .. } => AppState { mode: mode_of(previous_mode), ..s },
        _ => s,
    }
}

pub open spec fn spec_theme_picker_cancel(s: AppState) -> AppState {
    match s.mode {
        AppMode::ThemePicker { previous_mode, original_index } => AppState {
            mode: mode_of(previous_mode),
            theme_index: original_index,
            theme: s.themes@[original_index as int].1,
            ..s
        },
        _ => s,
    }
}

pub open spec fn spec_open_help(s: AppState) -> AppState {
    match base_screen(s.mode) {
        Some(prev) => AppState { mode: AppMode::Help { previous_mode: prev }, ..s },
        None => s,
    }
}

pub open spec fn spec_close_help(s: AppState) -> AppState {
    match s.mode {
        AppMode::Help { previous_mode } => AppState { mode: mode_of(previous_mode), ..s },
        _ => s,
    }
}

/// The picker can go back to the theme it was opened on.
pub open spec fn cancel_ok(s: AppState) -> bool {
    s.mode matches AppMode::ThemePicker { original_index, .. } ==> original_index
        < s.themes@.len()
}

pub open spec fn spec_scroll_down(s: AppState, n: usize) -> AppState {
    AppState {
        scroll: if s.scroll + n > usize::MAX { usize::MAX } else { (s.scroll + n) as usize },
        ..s
    }
}

pub open spec fn spec_scroll_up(s: AppState, n: usize) -> AppState {
    AppState { scroll: if s.scroll < n { 0 } else { (s.scroll - n) as usize }, ..s }
}

pub open spec fn dot_dir() -> Seq<char> {
    seq!['.']
}

impl AppState {
    /// The state on start-up in the file browser at `dir`.
    pub fn new_browser(dir: String, themes: Vec<(String, Theme)>) -> (s: Self)
        ensures
            s.mode == AppMode::Browser,
            s.content@.len() == 0,
            s.file_path is None,
            s.scroll == 0,
            s.theme == spec_default_theme(),
            s.theme_index == 5,
            s.themes == themes,
            s.browser_dir == dir,
    {
        AppState {
            mode: AppMode::Browser,
            content: String::new(),
            file_path: None,
            scroll: 0,
            theme: default_theme(),
            theme_index: 5,
            themes,
            browser_dir: dir,
        }
    }

    /// The state on start-up reading `file_path`; the browser starts in the directory of
    /// that file, or in `.` when the path has no parent.
    pub fn new_reader(file_path: String, content: String, themes: Vec<(String, Theme)>) -> (s:
        Self)
        ensures
            s.mode == AppMode::Reader,
            s.content == content,
            s.file_path == Some(file_path),
            s.scroll == 0,
            s.theme == spec_default_theme(),
            s.theme_index == 5,
            s.themes == themes,
            s.browser_dir@ == match spec_parent(file_path@) {
                Some(p) => p,
                None => dot_dir(),
            },
    {
        let browser_dir = match parent(file_path.as_str()) {
            Some(p) => p,
            None => string_from_chars(&vec!['.']),
        };
        AppState {
            mode: AppMode::Reader,
            content,
            file_path: Some(file_path),
            scroll: 0,
            theme: default_theme(),
            theme_index: 5,
            themes,
            browser_dir,
        }
    }

    /// Shows a document that was read from `path`, from its first line.
    pub fn open_file(&mut self, path: String, content: String)
        ensures
            *final(self) == (AppState {
                content: content,
                file_path: Some(path),
                scroll: 0,
                mode: AppMode::Reader,
                ..*old(self)
            }),
    {
        self.content = content;
        self.file_path = Some(path);
        self.scroll = 0;
        self.mode = AppMode::Reader;
    }

    pub fn back_to_browser(&mut self)
        ensures
            *final(self) == spec_back_to_browser(*old(self)),
    {
        self.mode = AppMode::Browser;
    }

    /// Opens the theme picker over the browser or the reader; does nothing over an overlay.
    pub fn open_theme_picker(&mut self)
        ensures
            *final(self) == spec_open_theme_picker(*old(self)),
    {
        let prev = match self.mode {
            AppMode::Browser => PreviousMode::Browser,
            AppMode::Reader => PreviousMode::Reader,
            AppMode::ThemePicker { .. } => return ,
            AppMode::Help { .. } => return ,
        };
        self.mode = AppMode::ThemePicker { previous_mode: prev, original_index: self.theme_index };
    }

    /// Shows the theme at `index` while the picker is open.
    pub fn theme_picker_select(&mut self, index: usize)
        requires
            index < old(self).themes@.len(),
        ensures
            *final(self) == spec_theme_picker_select(*old(self), index as int),
    {
        self.theme_index = index;
        self.theme = self.themes[index].1;
    }

    /// Keeps the selected theme and closes the picker.
    pub fn theme_picker_confirm(&mut self)
        ensures
            *final(self) == spec_theme_picker_confirm(*old(self)),
    {
        if let AppMode::ThemePicker { previous_mode, .. } = self.mode {
            self.mode = match previous_mode {
                PreviousMode::Browser => AppMode::Browser,
                PreviousMode::Reader => AppMode::Reader,
            };
        }
    }

    /// Goes back to the theme the picker was opened on and closes the picker.
    pub fn theme_picker_cancel(&mut self)
        requires
            cancel_ok(*old(self)),
        ensures
            *final(self) == spec_theme_picker_cancel(*old(self)),
    {
        if let AppMode::ThemePicker { previous_mode, original_index } = self.mode {
            self.theme_index = original_index;
            self.theme = self.themes[original_index].1;
            self.mode = match previous_mode {
                PreviousMode::Browser => AppMode::Browser,
                PreviousMode::Reader => AppMode::Reader,
            };
        }
    }

    /// Opens the key help over the browser or the reader; does nothing over an overlay.
    pub fn open_help(&mut self)
        ensures
            *final(self) == spec_open_help(*old(self)),
    {
        let prev = match self.mode {
            AppMode::Browser => PreviousMode::Browser,
            AppMode::Reader => PreviousMode::Reader,
            AppMode::ThemePicker { .. } => return ,
            AppMode::Help { .. } => return ,
        };
        self.mode = AppMode::Help { previous_mode: prev };
    }

    /// Closes the key help.
    pub fn close_help(&mut self)
        ensures
            *final(self) == spec_close_help(*old(self)),
    {
        if let AppMode::Help { previous_mode } = self.mode {
            self.mode = match previous_mode {
                PreviousMode::Browser => AppMode::Browser,
                PreviousMode::Reader => AppMode::Reader,
            };
        }
    }

    /// Scrolls down `n` lines, stopping at the largest position.
    pub fn scroll_down(&mut self, n: usize)
        ensures
            *final(self) == spec_scroll_down(*old(self), n),
    {
        self.scroll = self.scroll.saturating_add(n);
    }

    /// Scrolls up `n` lines, stopping at the first line.
    pub fn scroll_up(&mut self, n: usize)
        ensures
            *final(self) == spec_scroll_up(*old(self), n),
    {
        self.scroll = self.scroll.saturating_sub(n);
    }

    /// Scrolls to the first line.
    pub fn scroll_top(&mut self)
        ensures
            *final(self) == (AppState { scroll: 0, ..*old(self) }),
    {
        self.scroll = 0;
    }

    /// Scrolls to the end (the largest position; drawing clamps it to the document).
    pub fn scroll_bottom(&mut self)
        ensures
            *final(self) == (AppState { scroll: usize::MAX, ..*old(self) }),
    {
        self.scroll = usize::MAX;
    }
}

// ---------------------------------------------------------------------------------------
// Laws of the state machine.

/// The picker previews the themes at `picks`, in order.
pub open spec fn select_all(s: AppState, picks: Seq<int>) -> AppState
    decreases picks.len(),
{
    if picks.len() == 0 {
        s
    } else {
        spec_theme_picker_select(select_all(s, picks.drop_last()), picks.last())
    }
}

proof fn lemma_select_all(s: AppState, picks: Seq<int>)
    ensures
        select_all(s, picks).mode == s.mode,
        select_all(s, picks).content == s.content,
        select_all(s, picks).file_path == s.file_path,
        select_all(s, picks).scroll == s.scroll,
        select_all(s, picks).themes == s.themes,
        select_all(s, picks).browser_dir == s.browser_dir,
        picks.len() > 0 ==> select_all(s, picks).theme_index == picks.last() as usize
            && select_all(s, picks).theme == s.themes@[picks.last()].1,
        picks.len() == 0 ==> select_all(s, picks) == s,
    decreases picks.len(),
{
    if picks.len() > 0 {
        lemma_select_all(s, picks.drop_last());
    }
}

/// Opening the theme picker over the browser or the reader, previewing any themes and
/// cancelling shows the same screen with the theme at the starting position again, and
/// changes nothing else; a state whose theme is the one at its position comes back whole.
pub proof fn law_theme_picker_cancel_restores(s: AppState, picks: Seq<int>)
    requires
        base_screen(s.mode) is Some,
        s.theme_index < s.themes@.len(),
        forall|i: int| 0 <= i < picks.len() ==> 0 <= #[trigger] picks[i] < s.themes@.len(),
    ensures
        cancel_ok(select_all(spec_open_theme_picker(s), picks)),
        ({
            let e = spec_theme_picker_cancel(select_all(spec_open_theme_picker(s), picks));
            &&& e.mode == s.mode
            &&& e.theme_index == s.theme_index
            &&& e.theme == s.themes@[s.theme_index as int].1
            &&& e.content == s.content
            &&& e.file_path == s.file_path
            &&& e.scroll == s.scroll
            &&& e.themes == s.themes
            &&& e.browser_dir == s.browser_dir
            &&& s.theme == s.themes@[s.theme_index as int].1 ==> e == s
        }),
{
    let o = spec_open_theme_picker(s);
    lemma_select_all(o, picks);
}

/// Opening the theme picker, previewing themes and confirming keeps the last previewed
/// theme and shows the screen the picker was opened over.
pub proof fn law_theme_picker_confirm_keeps(s: AppState, picks: Seq<int>)
    requires
        base_screen(s.mode) is Some,
        picks.len() > 0,
        forall|i: int| 0 <= i < picks.len() ==> 0 <= #[trigger] picks[i] < s.themes@.len(),
    ensures
        ({
            let e = spec_theme_picker_confirm(select_all(spec_open_theme_picker(s), picks));
            &&& e.mode == s.mode
            &&& e.theme_index == picks.last() as usize
            &&& e.theme == s.themes@[picks.last()].1
            &&& e.content == s.content
            &&& e.scroll == s.scroll
        }),
{
    let o = spec_open_theme_picker(s);
    lemma_select_all(o, picks);
}

/// Opening the help over the browser or the reader and closing it gives back the same
/// state.
pub proof fn law_help_round_trip(s: AppState)
    requires
        base_screen(s.mode) is Some,
    ensures
        spec_close_help(spec_open_help(s)) == s,
{
}

/// Overlays do not stack: over the picker or the help, opening either changes nothing.
pub proof fn law_overlays_do_not_stack(s: AppState)
    requires
        base_screen(s.mode) is None,
    ensures
        spec_open_help(s) == s,
        spec_open_theme_picker(s) == s,
{
}

/// Scrolling down and back up by the same amount returns to the same line, when the first
/// move does not reach the largest position.
pub proof fn law_scroll_round_trip(s: AppState, n: usize)
    requires
        s.scroll + n <= usize::MAX,
    ensures
        spec_scroll_up(spec_scroll_down(s, n), n) == s,
{
}

} // verus!
