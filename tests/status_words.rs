use trace_exec::status::{classify_status, is_initial_stop, StopKind};

#[test]
fn syscall_stop_is_sigtrap_with_high_bit() {
    assert_eq!(classify_status(0x857f), StopKind::SyscallStop);
}

#[test]
fn exec_event_stop_carries_event_code() {
    assert_eq!(classify_status(0x4057f), StopKind::ExecEventStop);
}

#[test]
fn fork_event_stop_is_other() {
    assert_eq!(classify_status(0x1057f), StopKind::OtherStop);
}

#[test]
fn signal_delivery_stops_are_other() {
    // SIGSTOP, SIGCHLD and a plain SIGTRAP stop
    assert_eq!(classify_status(0x137f), StopKind::OtherStop);
    assert_eq!(classify_status(0x117f), StopKind::OtherStop);
    assert_eq!(classify_status(0x057f), StopKind::OtherStop);
}

#[test]
fn exit_and_kill_are_terminations() {
    assert_eq!(classify_status(0x0000), StopKind::Terminated);
    assert_eq!(classify_status(0xff00), StopKind::Terminated);
    assert_eq!(classify_status(0x0009), StopKind::Terminated);
}

#[test]
fn initial_stop_is_a_sigtrap_stop() {
    assert!(is_initial_stop(0x057f));
    assert!(!is_initial_stop(0x137f));
    assert!(!is_initial_stop(0xff00));
    assert!(!is_initial_stop(0x0005));
}
