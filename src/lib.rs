//! Clipboard history: entries, a retention-bounded store, the hotkey combo
//! detector and the decisions of the daemon loop.

pub mod clipboard;
pub mod clock;
pub mod config;
pub mod daemon;
pub mod entry;
pub mod error;
pub mod hotkey;
pub mod popup;
pub mod storage;
pub mod text;

pub use entry::{ContentType, Entry};
pub use error::StickyError;
pub use storage::Storage;
