use trace_exec::ptrace::EXECVE;
use trace_exec::trace::TraceEvent;
use trace_exec::tracker::{ExecPhase, ExecTracker};

fn execve_stop(argv: u64) -> TraceEvent {
    TraceEvent::SystemCall(EXECVE, 0x4000, argv, 0x5000, 0, 0, 0)
}

fn other_syscall(no: u64) -> TraceEvent {
    TraceEvent::SystemCall(no, 1, 2, 3, 4, 5, 6)
}

#[test]
fn successful_exec_reports_once_at_entry() {
    let mut t = ExecTracker::new();
    assert_eq!(t.handle_event(7, &execve_stop(0x1000)), Some(0x1000));
    assert_eq!(t.phase(7), Some(ExecPhase::AwaitingReturn));
    assert_eq!(t.handle_event(7, &TraceEvent::ExecEvent), None);
    assert_eq!(t.phase(7), Some(ExecPhase::SeenExecEvent));
    // the exit stop's rsi no longer points at the old argv
    assert_eq!(t.handle_event(7, &execve_stop(0xdead)), None);
    assert_eq!(t.phase(7), None);
}

#[test]
fn failed_exec_does_not_swallow_the_next_one() {
    let mut t = ExecTracker::new();
    assert_eq!(t.handle_event(7, &execve_stop(0x1000)), Some(0x1000));
    assert_eq!(t.handle_event(7, &execve_stop(0x1000)), None);
    assert_eq!(t.phase(7), None);
    assert_eq!(t.handle_event(7, &execve_stop(0x2000)), Some(0x2000));
    assert_eq!(t.handle_event(7, &TraceEvent::ExecEvent), None);
    assert_eq!(t.handle_event(7, &execve_stop(0x3000)), None);
    assert_eq!(t.handle_event(7, &execve_stop(0x4000)), Some(0x4000));
}

#[test]
fn other_stops_leave_the_phase_alone() {
    let mut t = ExecTracker::new();
    assert_eq!(t.handle_event(7, &other_syscall(12)), None);
    assert_eq!(t.handle_event(7, &TraceEvent::Other), None);
    assert_eq!(t.handle_event(7, &TraceEvent::ExecEvent), None);
    assert_eq!(t.phase(7), None);
    assert_eq!(t.handle_event(7, &execve_stop(0x1000)), Some(0x1000));
    assert_eq!(t.handle_event(7, &TraceEvent::Other), None);
    assert_eq!(t.phase(7), Some(ExecPhase::AwaitingReturn));
}

#[test]
fn tracees_are_tracked_apart() {
    let mut t = ExecTracker::new();
    assert_eq!(t.handle_event(7, &execve_stop(0x1000)), Some(0x1000));
    assert_eq!(t.handle_event(8, &execve_stop(0x2000)), Some(0x2000));
    assert_eq!(t.handle_event(8, &TraceEvent::ExecEvent), None);
    assert_eq!(t.phase(7), Some(ExecPhase::AwaitingReturn));
    assert_eq!(t.handle_event(7, &execve_stop(0)), None);
    assert_eq!(t.phase(8), Some(ExecPhase::SeenExecEvent));
    assert_eq!(t.handle_event(8, &execve_stop(0)), None);
    assert_eq!(t.phase(7), None);
    assert_eq!(t.phase(8), None);
}

#[test]
fn exit_forgets_a_tracee_in_an_exec() {
    let mut t = ExecTracker::new();
    assert_eq!(t.handle_event(7, &execve_stop(0x1000)), Some(0x1000));
    assert_eq!(t.handle_event(7, &TraceEvent::Exited), None);
    assert_eq!(t.phase(7), None);
    // a later tracee with the same pid starts afresh
    assert_eq!(t.handle_event(7, &execve_stop(0x2000)), Some(0x2000));
}
