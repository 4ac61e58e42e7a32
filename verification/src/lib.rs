//! Verified core of a terminal multiplexer: key encoding, key bindings,
//! pane layout, tab and pane bookkeeping, title and reply handling, cell
//! styling and the buffered logger.

pub mod application;
pub mod command;
pub mod keys;
pub mod layout;
pub mod logging;
pub mod pane;
pub mod render;
pub mod tabs;
pub mod text;
