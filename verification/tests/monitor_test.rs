use clipboard_rs::content::{ClipboardPayload, ContentFormat};
use clipboard_rs::context::ClipboardContext;
use clipboard_rs::error::ClipboardError;
use clipboard_rs::monitor::{ChangeMonitor, MonitorState, WatchInstall};

#[test]
fn monitor_walks_through_its_states() {
    let mut monitor = ChangeMonitor::new();
    assert_eq!(monitor.state(), MonitorState::Idle);
    assert!(monitor.start(7, WatchInstall::Installed).is_ok());
    assert_eq!(monitor.state(), MonitorState::Running);
    monitor.stop();
    assert_eq!(monitor.state(), MonitorState::Stopped);
}

#[test]
fn failed_installation_is_reported_and_leaves_the_monitor_idle() {
    let mut monitor = ChangeMonitor::new();
    assert!(matches!(
        monitor.start(0, WatchInstall::CreationFailed),
        Err(ClipboardError::MonitorCreationFailed)
    ));
    assert_eq!(monitor.state(), MonitorState::Idle);
    assert!(matches!(
        monitor.start(0, WatchInstall::RegistrationFailed),
        Err(ClipboardError::HandlerRegistrationFailed)
    ));
    assert_eq!(monitor.state(), MonitorState::Idle);
    assert!(!monitor.sample(5));
    assert!(monitor.start(0, WatchInstall::Installed).is_ok());
}

#[test]
fn a_monitor_starts_only_once() {
    let mut monitor = ChangeMonitor::new();
    monitor.start(1, WatchInstall::Installed).unwrap();
    assert!(matches!(
        monitor.start(2, WatchInstall::Installed),
        Err(ClipboardError::UnsupportedOperation)
    ));
    assert!(!monitor.sample(1));
    monitor.stop();
    assert!(matches!(
        monitor.start(3, WatchInstall::Installed),
        Err(ClipboardError::UnsupportedOperation)
    ));
    assert!(matches!(
        monitor.start(3, WatchInstall::CreationFailed),
        Err(ClipboardError::UnsupportedOperation)
    ));
    assert_eq!(monitor.state(), MonitorState::Stopped);
}

#[test]
fn one_set_calls_the_handler_once() {
    let mut ctx = ClipboardContext::new();
    let mut monitor = ChangeMonitor::new();
    let mut calls = 0;
    monitor.start(ctx.change_token(), WatchInstall::Installed).unwrap();
    for _ in 0..3 {
        if monitor.sample(ctx.change_token()) {
            calls += 1;
        }
    }
    assert_eq!(calls, 0);
    ctx.set(vec![ClipboardPayload::new(ContentFormat::Text, b"x".to_vec())])
        .unwrap();
    for _ in 0..5 {
        if monitor.sample(ctx.change_token()) {
            calls += 1;
        }
    }
    assert_eq!(calls, 1);
    ctx.clear();
    ctx.taken_over(vec![ClipboardPayload::new(ContentFormat::Text, b"y".to_vec())]);
    for _ in 0..5 {
        if monitor.sample(ctx.change_token()) {
            calls += 1;
        }
    }
    assert_eq!(calls, 2);
}

#[test]
fn nothing_is_called_after_stop() {
    let mut ctx = ClipboardContext::new();
    let mut monitor = ChangeMonitor::new();
    monitor.start(ctx.change_token(), WatchInstall::Installed).unwrap();
    monitor.stop();
    ctx.set(vec![ClipboardPayload::new(ContentFormat::Text, b"late".to_vec())])
        .unwrap();
    assert!(!monitor.sample(ctx.change_token()));
    assert!(!monitor.sample(99));
    monitor.stop();
    assert_eq!(monitor.state(), MonitorState::Stopped);
    let mut never = ChangeMonitor::new();
    never.stop();
    assert_eq!(never.state(), MonitorState::Stopped);
    assert!(!never.sample(1));
}
