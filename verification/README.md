# mdr

A terminal markdown reader whose core logic is written in Verus and proved against its
contracts.

## Layout

- `src/` — the verified library:
  - `path.rs` — Unix path semantics on strings (components, join, file name, stem, parent);
  - `recent.rs` — the list of recently opened documents and its one-path-per-line storage;
  - `names.rs` — a map ordered by name (the theme catalog and colour palettes);
  - `config.rs` — configuration locations and fallbacks, theme file names, the theme catalog;
  - `theme.rs` — colours, the built-in theme, resolution of theme files into themes;
  - `state.rs` — the application state machine; `input.rs` — what each key does to it;
  - `layout.rs`, `popups.rs` — screen geometry and text fitting;
  - `style.rs` — interface roles, styled pieces of text, decimal numbers;
  - `reader.rs` — the reader screen: shown lines, gutter, cursor line, tab bar, status bar;
  - `lists.rs` — rows of the pop-up lists and the help panel;
  - `picker.rs` — the file picker's rows, lines, filter input and status;
  - `search.rs` — search highlighting.
- `tests/` — tests of the library.
- `app/` — the program: terminal set-up, file reading and writing, the event loop and
  drawing with ratatui.
