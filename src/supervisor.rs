use vstd::prelude::*;

use crate::error::WatchdogError;

verus! {

/// The kind of a file-change notification.
#[derive(Debug, Clone, Copy, PartialEq, Eq)]
pub enum ChangeKind {
    Any,
    Access,
    Create,
    Modify,
    Remove,
    Other,
}

/// What the notification source delivered.
pub enum WatchEvent {
    /// The watched path was touched in the given way.
    Change(ChangeKind),
    /// The source failed, with its message.
    SourceError(String),
}

/// What the watch loop does next.
#[derive(Debug, Clone, PartialEq, Eq)]
pub enum WatchAction {
    /// Read the lines appended to the log file and hand them to the matcher.
    Poll,
    /// Wait for the next notification.
    Ignore,
    /// The matcher has ended: leave the loop cleanly.
    Stop,
    /// End the watchdog with this error.
    Fail(WatchdogError),
}

/// Decides the watch loop's response to one notification of the watchdog `name`.
/// Once the matcher has ended (`matcher_gone`) the loop stops; otherwise only a
/// modification leads to a poll, other kinds are ignored, and a failure of the
/// source is fatal and attributed to the watchdog.
pub fn watch_step(name: &String, matcher_gone: bool, event: WatchEvent) -> (r: WatchAction)
    ensures
        matcher_gone ==> r == WatchAction::Stop,
        !matcher_gone ==> match event {
            WatchEvent::Change(kind) => r == if kind == ChangeKind::Modify {
                WatchAction::Poll
            } else {
                WatchAction::Ignore
            },
            WatchEvent::SourceError(message) => r == WatchAction::Fail(
                WatchdogError::Watcher { name: *name, message },
            ),
        },
{
    if matcher_gone {
        return WatchAction::Stop;
    }
    match event {
        WatchEvent::Change(ChangeKind::Modify) => WatchAction::Poll,
        WatchEvent::Change(_) => WatchAction::Ignore,
        WatchEvent::SourceError(message) => WatchAction::Fail(
            WatchdogError::Watcher { name: name.clone(), message },
        ),
    }
}

} // verus!
