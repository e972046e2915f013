//! Core logic of the caesar terminal tools: theme resolution, multiplexer
//! detection, file-manager pane navigation and the text that the viewers and
//! the file manager render.
pub mod app;
pub mod error;
pub mod launcher;
pub mod layout;
mod order;
pub mod pane;
pub mod terminal;
mod text;
pub mod theme;
pub mod traits;
pub mod ui;
