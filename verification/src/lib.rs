//! Status line and window title formatting for the Antigravity CLI.

pub mod text;
pub mod theme;
pub mod widget;
pub mod path;
pub mod types;
pub mod merge;
pub mod title;
pub mod refresh;
pub mod render;
pub mod cli;
pub mod config;
pub mod crypto;
