use trace_exec::posix::{
    errno, fork_result, kill_result, waitpid_result, CouldBeAnError, ForkResult, PosixResult, WaitPidResult,
};
use trace_exec::ptrace::{
    peektext_result, to_ptrace_result, PtraceResult, TRACEEXEC, TRACEFORK, TRACESYSGOOD, TRACE_OPTIONS,
};
use trace_exec::trace::{
    after_resume, after_setoptions, init_trace, initial_report, resume_trace, wrap_result, HandshakeAction,
    TraceResult, UserRegs,
};

#[test]
fn ptrace_minus_one_is_an_error() {
    assert_eq!(to_ptrace_result(-1, 3), PtraceResult::PtraceError(3));
    assert_eq!(to_ptrace_result(0, 3), PtraceResult::PtraceOk);
}

#[test]
fn peektext_minus_one_without_errno_is_a_word() {
    assert_eq!(peektext_result(-1, 0), Ok(u64::MAX));
    assert_eq!(peektext_result(-1, 5), Err(5));
    assert_eq!(peektext_result(0x6e69622f, 5), Ok(0x6e69622f));
    assert_eq!(peektext_result(-2, 0), Ok(u64::MAX - 1));
}

#[test]
fn outcome_errors_and_codes() {
    assert!(!PosixResult::PosixOk.is_error());
    assert!(PosixResult::PosixError(1).is_error());
    assert_eq!(PosixResult::PosixError(1).get_errno(), 1);
    assert!(ForkResult::ForkFailure(11).is_error());
    assert_eq!(ForkResult::ForkFailure(11).get_errno(), 11);
    assert!(!ForkResult::ForkChild.is_error());
    assert!(!ForkResult::ForkParent(42).is_error());
    assert!(WaitPidResult::WaitPidFailure(10).is_error());
    assert_eq!(WaitPidResult::WaitPidFailure(10).get_errno(), 10);
    assert!(!WaitPidResult::WaitPidSuccess(42, 0x57f).is_error());
    assert!(PtraceResult::PtraceError(3).is_error());
    assert_eq!(PtraceResult::PtraceError(3).get_errno(), 3);
    assert!(TraceResult::TraceUnexpectedStop(0xff00).is_error());
    assert_eq!(TraceResult::TraceUnexpectedStop(0xff00).get_errno(), 0);
    assert!(!TraceResult::TraceOk.is_error());
}

#[test]
fn wrap_result_keeps_the_error_code() {
    assert_eq!(wrap_result(PtraceResult::PtraceError(1)), TraceResult::TraceError(1));
    assert_eq!(wrap_result(PtraceResult::PtraceOk), TraceResult::TraceOk);
    assert_eq!(wrap_result(PosixResult::PosixError(3)), TraceResult::TraceError(3));
    assert_eq!(resume_trace(PtraceResult::PtraceError(3)), TraceResult::TraceError(3));
    assert_eq!(resume_trace(PtraceResult::PtraceOk), TraceResult::TraceOk);
}

#[test]
fn handshake_accepts_only_the_sigtrap_stop() {
    assert_eq!(init_trace(WaitPidResult::WaitPidSuccess(42, 0x57f)), HandshakeAction::SetOptions(42, 0x13));
    assert_eq!(
        init_trace(WaitPidResult::WaitPidFailure(10)),
        HandshakeAction::Done(TraceResult::TraceError(10))
    );
    assert_eq!(
        init_trace(WaitPidResult::WaitPidSuccess(42, 0xff00)),
        HandshakeAction::Done(TraceResult::TraceUnexpectedStop(0xff00))
    );
    assert_eq!(
        init_trace(WaitPidResult::WaitPidSuccess(42, 0x137f)),
        HandshakeAction::Done(TraceResult::TraceUnexpectedStop(0x137f))
    );
}

#[test]
fn handshake_sets_options_then_reports_then_resumes() {
    assert_eq!(after_setoptions(42, PtraceResult::PtraceOk), HandshakeAction::ReportInitial(42));
    let regs = UserRegs {
        r15: 0, r14: 0, r13: 0, r12: 0, rbp: 0, rbx: 0, r11: 0, r10: 0, r9: 0, r8: 0,
        rax: 0, rcx: 0, rdx: 0, rsi: 0, rdi: 0, orig_rax: 59, rip: 0, cs: 0, eflags: 0,
        rsp: 0x7ffd_f000, ss: 0, fs_base: 0, gs_base: 0, ds: 0, es: 0, fs: 0, gs: 0,
    };
    assert_eq!(initial_report(42, Ok(regs)), (Some(0x7ffd_f008), HandshakeAction::Resume(42)));
    assert_eq!(initial_report(42, Err(3)), (None, HandshakeAction::Resume(42)));
    assert_eq!(after_resume(PtraceResult::PtraceOk), HandshakeAction::Done(TraceResult::TraceOk));
}

#[test]
fn handshake_stops_at_the_first_failure() {
    assert_eq!(
        after_setoptions(42, PtraceResult::PtraceError(1)),
        HandshakeAction::Done(TraceResult::TraceError(1))
    );
    assert_eq!(
        after_resume(PtraceResult::PtraceError(3)),
        HandshakeAction::Done(TraceResult::TraceError(3))
    );
}

#[test]
fn wrapping_keeps_trace_results() {
    for r in [TraceResult::TraceOk, TraceResult::TraceError(4), TraceResult::TraceUnexpectedStop(0xff00)] {
        assert_eq!(wrap_result(r), r);
        assert_eq!(wrap_result(wrap_result(r)), wrap_result(r));
    }
    assert_eq!(wrap_result(ForkResult::ForkFailure(11)), TraceResult::TraceError(11));
    assert_eq!(wrap_result(ForkResult::ForkParent(7)), TraceResult::TraceOk);
    assert_eq!(wrap_result(WaitPidResult::WaitPidFailure(10)), TraceResult::TraceError(10));
}

#[test]
fn system_call_returns_are_read() {
    assert_eq!(fork_result(-1, 11), ForkResult::ForkFailure(11));
    assert_eq!(fork_result(0, 11), ForkResult::ForkChild);
    assert_eq!(fork_result(4242, 11), ForkResult::ForkParent(4242));
    assert_eq!(waitpid_result(-1, 0, 10), WaitPidResult::WaitPidFailure(10));
    assert_eq!(waitpid_result(4242, 0x857f, 10), WaitPidResult::WaitPidSuccess(4242, 0x857f));
    assert_eq!(kill_result(-1, 3), PosixResult::PosixError(3));
    assert_eq!(kill_result(0, 3), PosixResult::PosixOk);
}

#[test]
fn handshake_options_follow_forks_and_execs() {
    assert_eq!(TRACE_OPTIONS, 0x13);
    assert_ne!(TRACE_OPTIONS & TRACEFORK, 0);
    assert_ne!(TRACE_OPTIONS & TRACEEXEC, 0);
    assert_ne!(TRACE_OPTIONS & TRACESYSGOOD, 0);
}

#[test]
fn errno_reads_the_last_os_error() {
    // a failed stat leaves its error code behind
    assert!(!std::path::Path::new("/nonexistent-dir/nonexistent-file").exists());
    assert_ne!(errno(), 0);
}
