use vstd::prelude::*;

verus! {

/// Failures that callers can tell apart.
#[derive(Debug, PartialEq, Eq)]
pub enum StickyError {
    /// The backing store failed; the message comes from the store.
    Database(String),
    /// A file or process operation failed.
    Io(String),
    /// The clipboard tool failed.
    Clipboard(String),
    /// A daemon is already running with this process id.
    DaemonRunning(u32),
    DaemonNotRunning,
    Daemon(String),
    /// No entry has this id.
    NotFound(i64),
    /// An image payload above the accepted size.
    ImageTooLarge { size: usize, max: usize },
    /// The hotkey configuration names a trigger key that is not known.
    InvalidTriggerKey(String),
    /// The hotkey configuration names no known modifier.
    NoModifiers,
    /// No keyboard-capable input device could be opened.
    NoKeyboards,
    /// A required clipboard tool is not installed.
    MissingDep(String),
    /// An image payload that is not a PNG.
    InvalidImage,
    /// The store has handed out every id it can represent.
    IdsExhausted,
}

} // verus!
