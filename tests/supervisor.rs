use log_watchdog::channel::{closed_state, is_closed, ChannelState};
use log_watchdog::error::WatchdogError;
use log_watchdog::supervisor::{watch_step, ChangeKind, WatchAction, WatchEvent};

#[test]
fn only_modification_polls() {
    let name = "w".to_string();
    assert_eq!(watch_step(&name, false, WatchEvent::Change(ChangeKind::Modify)), WatchAction::Poll);
    for kind in [ChangeKind::Any, ChangeKind::Access, ChangeKind::Create, ChangeKind::Remove, ChangeKind::Other] {
        assert_eq!(watch_step(&name, false, WatchEvent::Change(kind)), WatchAction::Ignore);
    }
}

#[test]
fn source_error_is_fatal_and_named() {
    let name = "pgbouncer".to_string();
    assert_eq!(
        watch_step(&name, false, WatchEvent::SourceError("gone".to_string())),
        WatchAction::Fail(WatchdogError::Watcher { name: "pgbouncer".to_string(), message: "gone".to_string() })
    );
}

#[test]
fn ended_matcher_stops_the_loop() {
    let name = "w".to_string();
    assert_eq!(watch_step(&name, true, WatchEvent::Change(ChangeKind::Modify)), WatchAction::Stop);
    assert_eq!(watch_step(&name, true, WatchEvent::SourceError("e".to_string())), WatchAction::Stop);
}

#[test]
fn closed_only_when_disconnected() {
    assert!(closed_state(ChannelState::Disconnected));
    assert!(!closed_state(ChannelState::Empty));
    assert!(!closed_state(ChannelState::Message));
}

#[test]
fn is_closed_follows_the_senders() {
    let (tx, rx) = std::sync::mpsc::channel::<()>();
    assert!(!is_closed(&rx));
    tx.send(()).unwrap();
    assert!(!is_closed(&rx));
    drop(tx);
    assert!(is_closed(&rx));
}
