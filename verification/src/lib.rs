//! Core logic of the MinimalMark Markdown editor: document statistics,
//! outline extraction, inline live-preview styling, Markdown rendering,
//! editing commands, keyboard shortcuts and settings.

pub mod text;
pub mod stats;
pub mod livepreview;
pub mod outline;
pub mod markdown;
pub mod preview;
pub mod editing;
pub mod commands;
pub mod settings;
