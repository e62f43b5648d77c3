use log_watchdog::error::WatchdogError;
use log_watchdog::matcher::{Control, DebounceMatcher, LineOutcome};
use log_watchdog::pattern::Pattern;

fn matcher(pattern: &str, debounce: u64, oneshot: bool, now: u64) -> DebounceMatcher {
    DebounceMatcher::new(Pattern::new(pattern).unwrap(), debounce, oneshot, now)
}

#[test]
fn oneshot_triggers_once_on_first_match() {
    let mut m = matcher("^aaa", 0, true, 0);
    assert_eq!(m.on_line(1, "foo bar baz"), LineOutcome::NoMatch);
    assert_eq!(m.on_line(2, ""), LineOutcome::NoMatch);
    assert_eq!(m.on_line(3, "aaa"), LineOutcome::Trigger);
    assert_eq!(m.on_commands_done(Ok(())), Control::Finished);
    assert!(m.is_stopped());
    assert_eq!(m.on_line(4, "aaaa"), LineOutcome::Skipped);
}

#[test]
fn without_oneshot_every_match_triggers() {
    let mut m = matcher("^aaa", 0, false, 0);
    assert_eq!(m.on_line(0, "aaa"), LineOutcome::Trigger);
    assert_eq!(m.on_commands_done(Ok(())), Control::Continue);
    assert_eq!(m.on_line(0, "aaaa"), LineOutcome::Trigger);
    assert!(!m.is_stopped());
}

#[test]
fn line_inside_debounce_window_is_not_tested() {
    let mut m = matcher("x", 1000, false, 0);
    assert_eq!(m.on_line(1000, "y"), LineOutcome::NoMatch);
    assert_eq!(m.on_line(1999, "x"), LineOutcome::Skipped);
    assert_eq!(m.on_line(2000, "x"), LineOutcome::Trigger);
}

#[test]
fn debounce_window_counts_from_matcher_start() {
    let mut m = matcher("x", 500, false, 100);
    assert_eq!(m.on_line(599, "x"), LineOutcome::Skipped);
    assert_eq!(m.on_line(600, "x"), LineOutcome::Trigger);
}

#[test]
fn non_matching_lines_postpone_the_next_test() {
    let mut m = matcher("x", 10, false, 0);
    assert_eq!(m.on_line(10, "a"), LineOutcome::NoMatch);
    assert_eq!(m.on_line(15, "x"), LineOutcome::Skipped);
    assert_eq!(m.on_line(20, "x"), LineOutcome::Trigger);
}

#[test]
fn earlier_clock_reading_counts_as_no_time() {
    let mut m = matcher("x", 1, false, 50);
    assert_eq!(m.on_line(10, "x"), LineOutcome::Skipped);
    let mut z = matcher("x", 0, false, 50);
    assert_eq!(z.on_line(10, "x"), LineOutcome::Trigger);
}

#[test]
fn command_failure_stops_the_matcher() {
    let mut m = matcher(".*", 0, false, 0);
    assert_eq!(m.on_line(0, "anything"), LineOutcome::Trigger);
    let err = WatchdogError::Command { name: "A".to_string(), code: Some(1), stderr: String::new() };
    assert_eq!(m.on_commands_done(Err(err.clone())), Control::Failed(err));
    assert!(m.is_stopped());
    assert_eq!(m.on_line(1, "anything"), LineOutcome::Skipped);
}

#[test]
fn invalid_pattern_is_rejected() {
    assert!(Pattern::new("(unclosed").is_err());
    assert_eq!(Pattern::new("^aaa").unwrap().as_str(), "^aaa");
}
