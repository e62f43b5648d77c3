use vstd::prelude::*;

use crate::error::WatchdogError;
use crate::pattern::{regex_is_match, Pattern};

verus! {

/// What a matcher holds, as plain values. Times are in milliseconds of one
/// monotonic clock.
pub struct MatcherModel {
    pub debounce: u64,
    pub oneshot: bool,
    pub last_checked: u64,
    pub stopped: bool,
}

/// What became of one incoming line.
#[derive(Debug, Clone, Copy, PartialEq, Eq)]
pub enum LineOutcome {
    /// Not tested: the debounce window has not elapsed, or the matcher has stopped.
    Skipped,
    /// Tested, and the pattern did not match.
    NoMatch,
    /// Tested and matched: the command list is to be run now.
    Trigger,
}

/// What the matcher does after a trigger's commands have run.
#[derive(Debug, Clone, PartialEq, Eq)]
pub enum Control {
    /// Go on consuming lines.
    Continue,
    /// Oneshot completed: the watchdog ends successfully.
    Finished,
    /// A command failed: the watchdog ends with this error.
    Failed(WatchdogError),
}

/// The time since `last`, or zero when the clock reads earlier.
pub open spec fn elapsed(now: u64, last: u64) -> int {
    if now >= last {
        now - last
    } else {
        0
    }
}

/// Whether a line arriving at `now` is tested against the pattern.
pub open spec fn line_tested(m: MatcherModel, now: u64) -> bool {
    !m.stopped && elapsed(now, m.last_checked) >= m.debounce
}

/// The state after a line arriving at `now`: the check time moves to `now` when
/// the line is tested, whether or not it matches.
pub open spec fn after_line(m: MatcherModel, now: u64) -> MatcherModel {
    if line_tested(m, now) {
        MatcherModel { last_checked: now, ..m }
    } else {
        m
    }
}

/// The state after a trigger whose commands succeeded (`ok`) or failed.
pub open spec fn after_trigger(m: MatcherModel, ok: bool) -> MatcherModel {
    MatcherModel { stopped: m.stopped || !ok || m.oneshot, ..m }
}

/// The debounce and match state of one watchdog.
pub struct DebounceMatcher {
    pattern: Pattern,
    debounce: u64,
    oneshot: bool,
    last_checked: u64,
    stopped: bool,
}

impl View for DebounceMatcher {
    type V = MatcherModel;

    closed spec fn view(&self) -> MatcherModel {
        MatcherModel {
            debounce: self.debounce,
            oneshot: self.oneshot,
            last_checked: self.last_checked,
            stopped: self.stopped,
        }
    }
}

impl DebounceMatcher {
    /// A matcher started at time `now`.
    pub fn new(pattern: Pattern, debounce: u64, oneshot: bool, now: u64) -> (r: DebounceMatcher)
        ensures
            r@ == (MatcherModel { debounce, oneshot, last_checked: now, stopped: false }),
            r.pattern_view() == pattern@,
    {
        DebounceMatcher { pattern, debounce, oneshot, last_checked: now, stopped: false }
    }

    /// The source of the pattern that lines are tested against.
    pub closed spec fn pattern_view(&self) -> Seq<char> {
        self.pattern@
    }

    /// Whether the matcher has reached its terminal state.
    pub fn is_stopped(&self) -> (r: bool)
        ensures
            r == self@.stopped,
    {
        self.stopped
    }

    /// Handles a line arriving at time `now`. It is tested only when the matcher
    /// runs and the debounce window has elapsed since the last test; the check time
    /// then moves to `now` before the test.
    pub fn on_line(&mut self, now: u64, line: &str) -> (r: LineOutcome)
        ensures
            final(self)@ == after_line(old(self)@, now),
            final(self).pattern_view() == old(self).pattern_view(),
            !line_tested(old(self)@, now) ==> r == LineOutcome::Skipped,
            !regex_is_match(old(self).pattern_view(), line@) ==> r != LineOutcome::Trigger,
            line_tested(old(self)@, now) ==> r == if regex_is_match(old(self).pattern_view(), line@) {
                LineOutcome::Trigger
            } else {
                LineOutcome::NoMatch
            },
    {
        if self.stopped {
            return LineOutcome::Skipped;
        }
        let waited: u64 = if now >= self.last_checked {
            now - self.last_checked
        } else {
            0
        };
        if waited < self.debounce {
            return LineOutcome::Skipped;
        }
        self.last_checked = now;
        if self.pattern.is_match(line) {
            LineOutcome::Trigger
        } else {
            LineOutcome::NoMatch
        }
    }

    /// Takes the result of running the command list after a trigger. A failure
    /// stops the matcher with that error; a success stops it under oneshot and
    /// otherwise lets it go on.
    pub fn on_commands_done(&mut self, result: Result<(), WatchdogError>) -> (r: Control)
        ensures
            final(self)@ == after_trigger(old(self)@, result is Ok),
            final(self).pattern_view() == old(self).pattern_view(),
            result matches Err(e) ==> r == Control::Failed(e),
            result is Ok && old(self)@.oneshot ==> r == Control::Finished,
            result is Ok && !old(self)@.oneshot ==> r == Control::Continue,
    {
        match result {
            Err(e) => {
                self.stopped = true;
                Control::Failed(e)
            },
            Ok(()) => {
                if self.oneshot {
                    self.stopped = true;
                    Control::Finished
                } else {
                    Control::Continue
                }
            },
        }
    }
}

/// Debounce: once a line has been tested at `t1`, a line arriving at `t2` with
/// `t1 < t2` and `t2 - t1` below the window is never tested, whether or not the
/// first line triggered and whatever its commands did.
pub proof fn lemma_debounce_skips(m: MatcherModel, t1: u64, t2: u64, ok: bool)
    requires
        line_tested(m, t1),
        t1 < t2,
        t2 - t1 < m.debounce,
    ensures
        !line_tested(after_line(m, t1), t2),
        !line_tested(after_trigger(after_line(m, t1), ok), t2),
{
}

/// Once stopped, a matcher tests no further line.
pub proof fn lemma_stopped_is_terminal(m: MatcherModel, now: u64, ok: bool)
    requires
        m.stopped,
    ensures
        !line_tested(m, now),
        after_line(m, now) == m,
        after_trigger(m, ok).stopped,
{
}

} // verus!
