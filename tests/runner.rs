use log_watchdog::command::Command;
use log_watchdog::error::WatchdogError;
use log_watchdog::matcher::{Control, DebounceMatcher, LineOutcome};
use log_watchdog::pattern::Pattern;
use log_watchdog::runner::{output_record, CommandRunner, ProcessOutcome};
use log_watchdog::tail::TailReader;

fn echo() -> Command {
    Command { name: "echo".to_string(), args: vec!["hello world!".to_string()] }
}

fn ok_outcome(stdout: &[u8]) -> ProcessOutcome {
    ProcessOutcome { success: true, code: Some(0), stdout: stdout.to_vec(), stderr: Vec::new() }
}

/// Drives lines through a matcher and, on each trigger, a runner whose commands
/// all print `stdout`; returns what would be appended to the output file.
fn drive(pattern: &str, oneshot: bool, chunks: &[&[u8]], stdout: &[u8]) -> String {
    let mut reader = TailReader::new(0);
    let mut m = DebounceMatcher::new(Pattern::new(pattern).unwrap(), 0, oneshot, 0);
    let mut out = String::new();
    for chunk in chunks {
        for line in reader.poll(chunk).unwrap() {
            if m.on_line(0, &line) == LineOutcome::Trigger {
                let mut runner = CommandRunner::new(vec![echo()]);
                while let Some(_) = runner.next_command() {
                    out.push_str(&runner.record(&ok_outcome(stdout)).unwrap());
                }
                if m.on_commands_done(runner.finish()) != Control::Continue {
                    return out;
                }
            }
        }
    }
    out
}

#[test]
fn when_match_then_output_is_saved() {
    let out = drive("^aaa", true, &[b"foo bar baz", b"foo bar baz\naaa\n", b"aaaa\n"], b"hello world!\n");
    assert_eq!(out, "hello world!\n\n");
}

#[test]
fn when_no_match_then_no_output() {
    let out = drive("^aaa", true, &[b"foo bar baz", b"foo bar baz\nbbb\n", b"abbb\n"], b"hello world!\n");
    assert!(out.is_empty());
}

#[test]
fn record_is_stdout_and_a_terminator() {
    assert_eq!(output_record(b"hello world!"), "hello world!\n");
    assert_eq!(output_record(b"hello world!\n"), "hello world!\n\n");
    assert_eq!(output_record(b""), "\n");
}

#[test]
fn record_replaces_invalid_bytes() {
    assert_eq!(output_record(b"a\xffb"), "a\u{fffd}b\n");
}

#[test]
fn failing_command_stops_the_list() {
    let a = Command { name: "A".to_string(), args: vec![] };
    let b = Command { name: "B".to_string(), args: vec!["x".to_string()] };
    let mut runner = CommandRunner::new(vec![a.clone(), b]);
    assert_eq!(runner.next_command(), Some(&a));
    let failed = ProcessOutcome { success: false, code: Some(1), stdout: b"ignored".to_vec(), stderr: b"boom".to_vec() };
    assert_eq!(runner.record(&failed), None);
    assert_eq!(runner.next_command(), None);
    assert_eq!(
        runner.finish(),
        Err(WatchdogError::Command { name: "A".to_string(), code: Some(1), stderr: "boom".to_string() })
    );
}

#[test]
fn killed_command_has_no_exit_code() {
    let mut runner = CommandRunner::new(vec![echo()]);
    let killed = ProcessOutcome { success: false, code: None, stdout: Vec::new(), stderr: Vec::new() };
    assert_eq!(runner.record(&killed), None);
    assert_eq!(
        runner.finish(),
        Err(WatchdogError::Command { name: "echo".to_string(), code: None, stderr: String::new() })
    );
}

#[test]
fn commands_run_in_order_and_all_records_are_kept() {
    let first = Command { name: "first".to_string(), args: vec![] };
    let second = Command { name: "second".to_string(), args: vec![] };
    let mut runner = CommandRunner::new(vec![first.clone(), second.clone()]);
    assert_eq!(runner.next_command(), Some(&first));
    assert_eq!(runner.record(&ok_outcome(b"1")), Some("1\n".to_string()));
    assert_eq!(runner.next_command(), Some(&second));
    assert_eq!(runner.record(&ok_outcome(b"2")), Some("2\n".to_string()));
    assert_eq!(runner.next_command(), None);
    assert_eq!(runner.finish(), Ok(()));
}

#[test]
fn empty_command_list_succeeds_at_once() {
    let runner = CommandRunner::new(Vec::new());
    assert_eq!(runner.next_command(), None);
    assert_eq!(runner.finish(), Ok(()));
}
