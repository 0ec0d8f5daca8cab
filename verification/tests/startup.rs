//! Starting the daemon.

use clhorde::daemon::startup::{
    acquire_pid_lock, already_running, parse_args_from, parse_pid, process_alive, LockTry,
    LogLevel, PidLock,
};

fn args(strs: &[&str]) -> Vec<String> {
    strs.iter().map(|s| s.to_string()).collect()
}

#[test]
fn parse_args_no_flags_returns_warn() {
    let level = parse_args_from(&args(&[]));
    assert_eq!(level, Some(LogLevel::Warn));
}

#[test]
fn parse_args_v_returns_info() {
    let level = parse_args_from(&args(&["-v"]));
    assert_eq!(level, Some(LogLevel::Info));
}

#[test]
fn parse_args_vv_returns_debug() {
    let level = parse_args_from(&args(&["-vv"]));
    assert_eq!(level, Some(LogLevel::Debug));
}

#[test]
fn parse_args_two_v_returns_debug() {
    let level = parse_args_from(&args(&["-v", "-v"]));
    assert_eq!(level, Some(LogLevel::Debug));
}

#[test]
fn parse_args_help_returns_none() {
    let level = parse_args_from(&args(&["--help"]));
    assert!(level.is_none());
}

#[test]
fn parse_args_h_returns_none() {
    let level = parse_args_from(&args(&["-h"]));
    assert!(level.is_none());
}

#[test]
fn a_process_is_alive_where_a_signal_reaches_it_or_is_not_permitted() {
    assert!(process_alive(true, false));
    assert!(process_alive(false, true));
    assert!(!process_alive(false, false));
}

#[test]
fn the_running_daemon_is_named_by_its_pid() {
    assert_eq!(already_running("4242\n"), "Daemon already running (PID 4242)");
    assert_eq!(already_running(""), "Daemon already running");
    assert_eq!(already_running("garbage"), "Daemon already running");
}

#[test]
fn a_pid_file_is_read_as_a_number() {
    assert_eq!(parse_pid("4242\n"), Some(4242));
    assert_eq!(parse_pid("  17 "), Some(17));
    assert_eq!(parse_pid("2147483647"), Some(i32::MAX));
    assert_eq!(parse_pid("2147483648"), None);
    assert_eq!(parse_pid(""), None);
    assert_eq!(parse_pid("pid"), None);
}

#[test]
fn an_unknown_flag_changes_nothing() {
    assert_eq!(parse_args_from(&args(&["--quiet"])), Some(LogLevel::Warn));
    assert_eq!(parse_args_from(&args(&["-v", "--quiet"])), Some(LogLevel::Info));
    assert_eq!(parse_args_from(&args(&["-v", "--help"])), None);
}

#[test]
fn a_held_lock_refuses_the_second_daemon() {
    match acquire_pid_lock(LockTry::Held, "4242", true) {
        PidLock::Refused { message } => assert!(message.contains("Daemon already running")),
        other => panic!("expected a refusal, got {other:?}"),
    }
    match acquire_pid_lock(LockTry::Failed("no locks".into()), "", false) {
        PidLock::Refused { message } => assert_eq!(message, "Failed to lock PID file: no locks"),
        other => panic!("expected a refusal, got {other:?}"),
    }
}

#[test]
fn a_socket_left_behind_is_removed() {
    let taken = |remove_socket| PidLock::Taken { remove_socket };
    assert_eq!(acquire_pid_lock(LockTry::Locked, "", false), taken(false));
    assert_eq!(acquire_pid_lock(LockTry::Locked, "4242", true), taken(false));
    assert_eq!(acquire_pid_lock(LockTry::Locked, "4242", false), taken(true));
}
