use vstd::prelude::*;

verus! {

/// A failure that ends one watchdog.
#[derive(Debug, Clone, PartialEq, Eq)]
pub enum WatchdogError {
    /// The log file or the output file could not be opened, read or written.
    Io { message: String },
    /// A complete line of the log file is not valid UTF-8 text.
    InvalidText,
    /// The file-change notification source failed for the named watchdog.
    Watcher { name: String, message: String },
    /// A command exited unsuccessfully: its name, exit code (absent when it was
    /// killed by a signal) and standard-error text.
    Command { name: String, code: Option<i32>, stderr: String },
}

} // verus!
