//! Core logic of `mdr`, a terminal markdown reader: path handling, the recent-documents
//! list, configuration and theme resolution, the application state machine, and what the
//! screens show: geometry of the panels and their lines as styled pieces of text.

pub mod text;
pub mod path;
pub mod recent;
pub mod names;
pub mod theme;
pub mod config;
pub mod state;
pub mod layout;
pub mod input;
pub mod style;
pub mod reader;
pub mod lists;
pub mod picker;
pub mod search;
pub mod popups;
