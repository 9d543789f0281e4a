//! The trace controller: the handshake with the first tracee, the dispatch
//! of waitpid stops, and the per-tracee `execve` bookkeeping.
//!
//! The caller owns the loop and makes every system call; it hands each
//! outcome to the functions here and does what they return.

use vstd::prelude::*;
use crate::argv::next_word_addr;
use crate::posix::{CouldBeAnError, WaitPidResult};
use crate::ptrace::{PtraceResult, Word, TRACEEXEC, TRACEFORK, TRACESYSGOOD, TRACE_OPTIONS};
use crate::status::{classify_status, is_initial_stop, is_initial_trap, stop_kind, StopKind};

verus! {

/// General-purpose registers of an x86-64 tracee, in the kernel's
/// `user_regs_struct` order.
#[derive(Debug, Clone, Copy, PartialEq, Eq, Structural)]
pub struct UserRegs {
    pub r15: u64,
    pub r14: u64,
    pub r13: u64,
    pub r12: u64,
    pub rbp: u64,
    pub rbx: u64,
    pub r11: u64,
    pub r10: u64,
    pub r9: u64,
    pub r8: u64,
    pub rax: u64,
    pub rcx: u64,
    pub rdx: u64,
    pub rsi: u64,
    pub rdi: u64,
    pub orig_rax: u64,
    pub rip: u64,
    pub cs: u64,
    pub eflags: u64,
    pub rsp: u64,
    pub ss: u64,
    pub fs_base: u64,
    pub gs_base: u64,
    pub ds: u64,
    pub es: u64,
    pub fs: u64,
    pub gs: u64,
}

/// What one waitpid stop of a tracee amounts to.
#[derive(Debug, Clone, Copy, PartialEq, Eq, Structural)]
pub enum TraceEvent {
    /// A syscall-stop (entry or exit): the syscall number (`orig_rax`) and
    /// the six argument registers `rdi, rsi, rdx, rcx, r8, r9`.
    SystemCall(Word, Word, Word, Word, Word, Word, Word),
    /// The exec event-stop of a successful `execve`.
    ExecEvent,
    /// The tracee exited or was killed.
    Exited,
    /// Any other stop.
    Other,
}

/// Outcome of the trace as a whole.
#[derive(Debug, Clone, Copy, PartialEq, Eq, Structural)]
pub enum TraceResult {
    TraceOk,
    /// A system call failed with this OS error code.
    TraceError(usize),
    /// The first tracee's first stop was not the expected SIGTRAP stop;
    /// carries the wait status. It holds no OS error code.
    TraceUnexpectedStop(isize),
}

impl CouldBeAnError for TraceResult {
    open spec fn failed(&self) -> bool {
        !(self is TraceOk)
    }

    open spec fn error_code(&self) -> usize {
        match *self {
            TraceResult::TraceError(e) => e,
            _ => 0,
        }
    }

    fn is_error(&self) -> (r: bool) {
        match *self {
            TraceResult::TraceOk => false,
            _ => true,
        }
    }

    fn get_errno(&self) -> (r: usize) {
        match *self {
            TraceResult::TraceError(e) => e,
            _ => 0,
        }
    }

    open spec fn as_trace_result(&self) -> TraceResult {
        *self
    }

    fn to_trace_result(&self) -> (r: TraceResult) {
        *self
    }
}

/// Turns an outcome into a trace outcome: a system call's failure becomes
/// a trace error with its code, and a trace outcome stays as it is.
pub fn wrap_result<T: CouldBeAnError>(result: T) -> (r: TraceResult)
    ensures
        r == result.as_trace_result(),
{
    result.to_trace_result()
}

/// Wrapping is the identity on trace outcomes, so wrapping twice is
/// wrapping once: no status or code is lost on the way.
pub proof fn lemma_wrap_keeps_trace_results<T: CouldBeAnError>(result: T, r: TraceResult)
    ensures
        r.as_trace_result() == r,
        result.as_trace_result().as_trace_result() == result.as_trace_result(),
{
}

/// What the caller does next during the handshake with the first tracee.
#[derive(Debug, Clone, Copy, PartialEq, Eq, Structural)]
pub enum HandshakeAction {
    /// Set these ptrace options on the tracee, and hand the outcome to
    /// [`after_setoptions`].
    SetOptions(isize, isize),
    /// Read the tracee's registers and hand them to [`initial_report`].
    ReportInitial(isize),
    /// Resume the tracee with PTRACE_SYSCALL and hand the outcome to
    /// [`after_resume`].
    Resume(isize),
    /// The handshake is over with this outcome; any error is fatal.
    Done(TraceResult),
}

/// The handshake's step after the first `waitpid(child, 0)`.
pub open spec fn handshake_start(first: WaitPidResult) -> HandshakeAction {
    match first {
        WaitPidResult::WaitPidFailure(e) => HandshakeAction::Done(TraceResult::TraceError(e)),
        WaitPidResult::WaitPidSuccess(pid, status) => if is_initial_trap(status) {
            HandshakeAction::SetOptions(pid, TRACE_OPTIONS)
        } else {
            HandshakeAction::Done(TraceResult::TraceUnexpectedStop(status))
        },
    }
}

/// The handshake's step after setting the options on `pid`.
pub open spec fn handshake_after_options(pid: isize, result: PtraceResult) -> HandshakeAction {
    match result {
        PtraceResult::PtraceOk => HandshakeAction::ReportInitial(pid),
        PtraceResult::PtraceError(e) => HandshakeAction::Done(TraceResult::TraceError(e)),
    }
}

/// The handshake's step after resuming the tracee.
pub open spec fn handshake_after_resume(result: PtraceResult) -> HandshakeAction {
    match result {
        PtraceResult::PtraceOk => HandshakeAction::Done(TraceResult::TraceOk),
        PtraceResult::PtraceError(e) => HandshakeAction::Done(TraceResult::TraceError(e)),
    }
}

/// First step of the handshake: reads the outcome of `waitpid(child, 0)`.
/// The child stops with SIGTRAP once its first `execve` has completed;
/// then the trace options are set on it. Anything else is fatal.
pub fn init_trace(first: WaitPidResult) -> (a: HandshakeAction)
    ensures
        a == handshake_start(first),
{
    match first {
        WaitPidResult::WaitPidFailure(e) => HandshakeAction::Done(TraceResult::TraceError(e)),
        WaitPidResult::WaitPidSuccess(pid, status) => {
            if is_initial_stop(status) {
                HandshakeAction::SetOptions(pid, TRACE_OPTIONS)
            } else {
                HandshakeAction::Done(TraceResult::TraceUnexpectedStop(status))
            }
        },
    }
}

/// Reads the outcome of setting the options on `pid`: a failure ends the
/// handshake with its code, and the tracee is not resumed.
pub fn after_setoptions(pid: isize, result: PtraceResult) -> (a: HandshakeAction)
    ensures
        a == handshake_after_options(pid, result),
{
    match result {
        PtraceResult::PtraceOk => HandshakeAction::ReportInitial(pid),
        PtraceResult::PtraceError(e) => HandshakeAction::Done(TraceResult::TraceError(e)),
    }
}

/// Where the argument table of the first tracee's program lies at the
/// SIGTRAP stop that opens the trace. That `execve` completed before any
/// trace option was set, so no syscall-stop showed its entry; the new
/// program's stack starts with argc at `rsp`, and the table follows it.
pub fn initial_argv_address(regs: &UserRegs) -> (r: Option<Word>)
    ensures
        r == next_word_addr(regs.rsp),
{
    if regs.rsp <= u64::MAX - 8 {
        Some(regs.rsp + 8)
    } else {
        None
    }
}

/// Reads the first tracee's registers at its first stop: returns the
/// address of the argument table to report, if any, and the next step,
/// which resumes the tracee whether or not the registers could be read.
pub fn initial_report(pid: isize, regs: Result<UserRegs, usize>) -> (r: (Option<Word>, HandshakeAction))
    ensures
        r.0 == (match regs {
            Ok(u) => next_word_addr(u.rsp),
            Err(_) => None,
        }),
        r.1 == HandshakeAction::Resume(pid),
{
    let addr = match regs {
        Ok(u) => initial_argv_address(&u),
        Err(_) => None,
    };
    (addr, HandshakeAction::Resume(pid))
}

/// Reads the outcome of resuming a tracee with PTRACE_SYSCALL.
pub fn resume_trace(result: PtraceResult) -> (r: TraceResult)
    ensures
        r == (match result {
            PtraceResult::PtraceOk => TraceResult::TraceOk,
            PtraceResult::PtraceError(e) => TraceResult::TraceError(e),
        }),
{
    wrap_result(result)
}

/// Last step of the handshake: reads the outcome of resuming the tracee.
pub fn after_resume(result: PtraceResult) -> (a: HandshakeAction)
    ensures
        a == handshake_after_resume(result),
{
    HandshakeAction::Done(resume_trace(result))
}

/// The handshake: after a SIGTRAP first stop of `pid` it sets exactly the
/// options TRACESYSGOOD | TRACEFORK | TRACEEXEC (0x13) on `pid`, then reads
/// its registers, then resumes it, and ends with success when both calls
/// succeed. A failed setoptions ends it with that error and no resume; a
/// failed resume ends it with that error.
pub proof fn lemma_handshake(pid: isize, status: isize, e: usize)
    requires
        is_initial_trap(status),
    ensures
        handshake_start(WaitPidResult::WaitPidSuccess(pid, status)) == HandshakeAction::SetOptions(pid, 0x13),
        handshake_after_options(pid, PtraceResult::PtraceOk) == HandshakeAction::ReportInitial(pid),
        handshake_after_resume(PtraceResult::PtraceOk) == HandshakeAction::Done(TraceResult::TraceOk),
        handshake_after_options(pid, PtraceResult::PtraceError(e)) == HandshakeAction::Done(TraceResult::TraceError(e)),
        handshake_after_resume(PtraceResult::PtraceError(e)) == HandshakeAction::Done(TraceResult::TraceError(e)),
{
    assert(0x1isize | 0x2isize | 0x10isize == 0x13isize) by (bit_vector);
}

/// What the caller does with a waitpid outcome.
#[derive(Debug, Clone, Copy, PartialEq, Eq, Structural)]
pub enum Dispatch {
    /// No tracee is left to wait for: the trace is over.
    Finished,
    /// The tracee is at a syscall-stop: read its registers and hand them to
    /// [`registers_read`].
    ReadRegisters(isize),
    /// The tracee's stop is this event.
    Deliver(isize, TraceEvent),
}

/// The dispatch for a stop of `pid` with wait status `status`.
pub open spec fn dispatch_of(pid: isize, status: isize) -> Dispatch {
    match stop_kind(status) {
        StopKind::SyscallStop => Dispatch::ReadRegisters(pid),
        StopKind::ExecEventStop => Dispatch::Deliver(pid, TraceEvent::ExecEvent),
        StopKind::OtherStop => Dispatch::Deliver(pid, TraceEvent::Other),
        StopKind::Terminated => Dispatch::Deliver(pid, TraceEvent::Exited),
    }
}

/// The event for a syscall-stop whose registers are `regs`.
pub open spec fn syscall_event(regs: UserRegs) -> TraceEvent {
    TraceEvent::SystemCall(regs.orig_rax, regs.rdi, regs.rsi, regs.rdx, regs.rcx, regs.r8, regs.r9)
}

/// Reads the outcome of fetching a stopped tracee's registers: a failed
/// read ends the trace.
pub fn registers_read(pid: isize, regs: Result<UserRegs, usize>) -> (r: Dispatch)
    ensures
        r == (match regs {
            Ok(u) => Dispatch::Deliver(pid, syscall_event(u)),
            Err(_) => Dispatch::Finished,
        }),
{
    match regs {
        Ok(u) => Dispatch::Deliver(
            pid,
            TraceEvent::SystemCall(u.orig_rax, u.rdi, u.rsi, u.rdx, u.rcx, u.r8, u.r9),
        ),
        Err(_) => Dispatch::Finished,
    }
}

/// The stop dispatcher. Each round has two steps: [`TraceIterator::pending_resume`]
/// names the tracee of the previous stop, which the caller resumes with
/// PTRACE_SYSCALL (there is none in the first round); then the caller waits
/// for any tracee once and hands the outcome to [`TraceIterator::next`].
/// The contracts make the two steps alternate, so each wait is preceded by
/// exactly one resume of the previous stop's tracee.
pub struct TraceIterator {
    previous_pid: isize,
    resumed: bool,
}

impl TraceIterator {
    /// The pid of the last stop handed in; -1 before the first.
    pub closed spec fn previous(&self) -> isize {
        self.previous_pid
    }

    /// Whether this round's resume was handed out and the wait is due.
    pub closed spec fn waiting(&self) -> bool {
        self.resumed
    }

    /// Starts a round: the tracee to resume with PTRACE_SYSCALL before the
    /// wait. Its outcome does not matter to the dispatcher.
    pub fn pending_resume(&mut self) -> (r: Option<isize>)
        requires
            !old(self).waiting(),
        ensures
            r == (if old(self).previous() == -1 {
                None
            } else {
                Some(old(self).previous())
            }),
            final(self).previous() == old(self).previous(),
            final(self).waiting(),
    {
        self.resumed = true;
        if self.previous_pid == -1 {
            None
        } else {
            Some(self.previous_pid)
        }
    }

    /// Ends a round: reads the outcome of `waitpid(-1, 0)`. A failed wait
    /// (no tracee left) ends the trace.
    pub fn next(&mut self, waited: WaitPidResult) -> (r: Dispatch)
        requires
            old(self).waiting(),
        ensures
            !final(self).waiting(),
            match waited {
                WaitPidResult::WaitPidFailure(_) => {
                    &&& r == Dispatch::Finished
                    &&& final(self).previous() == old(self).previous()
                },
                WaitPidResult::WaitPidSuccess(pid, status) => {
                    &&& r == dispatch_of(pid, status)
                    &&& final(self).previous() == pid
                },
            },
    {
        self.resumed = false;
        match waited {
            WaitPidResult::WaitPidFailure(_) => Dispatch::Finished,
            WaitPidResult::WaitPidSuccess(pid, status) => {
                self.previous_pid = pid;
                match classify_status(status) {
                    StopKind::SyscallStop => Dispatch::ReadRegisters(pid),
                    StopKind::ExecEventStop => Dispatch::Deliver(pid, TraceEvent::ExecEvent),
                    StopKind::OtherStop => Dispatch::Deliver(pid, TraceEvent::Other),
                    StopKind::Terminated => Dispatch::Deliver(pid, TraceEvent::Exited),
                }
            },
        }
    }
}

/// A dispatcher that has seen no stop yet, at the start of a round.
pub fn next_trace() -> (r: TraceIterator)
    ensures
        r.previous() == -1,
        !r.waiting(),
{
    TraceIterator { previous_pid: -1, resumed: false }
}

} // verus!
