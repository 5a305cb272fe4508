use shutdown_helper::config::Config;
use shutdown_helper::logfile::{fresh_log_file_name, log_file_name};
use shutdown_helper::server_loop::{settings_from_env, ConnectionEvent, LoopAction, ServerLoop};
use shutdown_helper::service::{
    respond_to_control, status_report, ControlEvent, ControlReply, ServicePhase,
};

#[test]
fn log_file_names() {
    assert_eq!(log_file_name(1700000000, 0), "shutdown-helper-1700000000.log");
    assert_eq!(log_file_name(0, 0), "shutdown-helper-0.log");
    assert_eq!(log_file_name(u64::MAX, 0), "shutdown-helper-18446744073709551615.log");
    assert_eq!(log_file_name(1700000000, 1), "shutdown-helper-1700000000-1.log");
    assert_eq!(log_file_name(5, 12), "shutdown-helper-5-12.log");
    assert_ne!(log_file_name(10, 0), log_file_name(1, 0));
    assert_ne!(log_file_name(1, 0), log_file_name(1, 1));
}

#[test]
fn fresh_names_avoid_taken_ones() {
    let none: Vec<String> = Vec::new();
    assert_eq!(fresh_log_file_name(1700000000, &none), "shutdown-helper-1700000000.log");

    let mut taken = vec!["other.log".to_string(), "shutdown-helper-1700000000.log".to_string()];
    let second = fresh_log_file_name(1700000000, &taken);
    assert_eq!(second, "shutdown-helper-1700000000-1.log");
    taken.push(second);
    let third = fresh_log_file_name(1700000000, &taken);
    assert_eq!(third, "shutdown-helper-1700000000-2.log");
    assert!(!taken.contains(&third));

    let later = fresh_log_file_name(1700000001, &taken);
    assert_eq!(later, "shutdown-helper-1700000001.log");
}

#[test]
fn default_config_when_missing() {
    let loaded = Config::load(None);
    assert!(loaded.write_default);
    assert_eq!(loaded.config.port, 8080);
    assert_eq!(loaded.config.bind_address, "127.0.0.1");
    assert_eq!(loaded.config.auth_token, "change-me-secret-token");
    assert_eq!(loaded.config.log_dir, "logs");
}

#[test]
fn stored_config_is_kept() {
    let stored = Config {
        port: 1234,
        bind_address: "0.0.0.0".to_string(),
        auth_token: "abc".to_string(),
        log_dir: "l".to_string(),
    };
    let loaded = Config::load(Some(stored));
    assert!(!loaded.write_default);
    assert_eq!(loaded.config.port, 1234);
    assert_eq!(loaded.config.auth_token, "abc");
}

#[test]
fn settings_defaults_and_overrides() {
    let s = settings_from_env(None, None, None);
    assert_eq!(s.log_dir, "logs");
    assert_eq!(s.bind_address, "127.0.0.1:8080");
    assert_eq!(s.auth_token, "change-me-secret-token");
    let s = settings_from_env(Some("x".to_string()), Some("0.0.0.0:7986".to_string()), Some("t".to_string()));
    assert_eq!(s.log_dir, "x");
    assert_eq!(s.bind_address, "0.0.0.0:7986");
    assert_eq!(s.auth_token, "t");
}

#[test]
fn control_events() {
    let r = respond_to_control(ControlEvent::Stop);
    assert!(r.stop_requested);
    assert_eq!(r.reply, ControlReply::NoError);
    let r = respond_to_control(ControlEvent::Interrogate);
    assert!(!r.stop_requested);
    assert_eq!(r.reply, ControlReply::NoError);
    let r = respond_to_control(ControlEvent::Other);
    assert!(!r.stop_requested);
    assert_eq!(r.reply, ControlReply::NotImplemented);
}

#[test]
fn status_reports() {
    let running = status_report(ServicePhase::Running);
    assert!(running.accepts_stop);
    assert_eq!(running.exit_code, 0);
    let stopped = status_report(ServicePhase::Stopped);
    assert!(!stopped.accepts_stop);
    assert_eq!(stopped.phase, ServicePhase::Stopped);
}

#[test]
fn loop_shuts_down_once_on_first_authorized_request() {
    let mut l = ServerLoop::new();
    assert_eq!(l.on_event(ConnectionEvent::AcceptFailed), LoopAction::Continue);
    assert_eq!(l.on_event(ConnectionEvent::HandlingFailed), LoopAction::Continue);
    assert_eq!(l.on_event(ConnectionEvent::Handled { authorized: false }), LoopAction::Continue);
    assert!(!l.stopped());
    assert_eq!(l.on_event(ConnectionEvent::Handled { authorized: true }), LoopAction::ShutDown);
    assert!(l.stopped());
    assert_eq!(l.on_event(ConnectionEvent::Handled { authorized: true }), LoopAction::Halted);
}
