//! Decoding of the status word that waitpid reports.
//!
//! The low byte is 0x7f for a stopped child, else the terminating signal
//! (0 for a normal exit). For a stopped child, bits 8..16 hold the stopping
//! signal and bits 16..24 a ptrace event code. Under TRACESYSGOOD a
//! syscall-stop is reported with the stopping signal `SIGTRAP | 0x80`; an
//! event-stop is reported as `SIGTRAP` with the event code set.

use vstd::prelude::*;
use crate::posix::SIGTRAP;
use crate::ptrace::EVENT_EXEC;

verus! {

/// What a waitpid status says about the tracee.
#[derive(Debug, Clone, Copy, PartialEq, Eq, Structural)]
pub enum StopKind {
    /// Stopped at the entry or the exit of a system call.
    SyscallStop,
    /// Stopped by the exec event of a successful `execve`.
    ExecEventStop,
    /// Any other stop: signal-delivery, group-stop, other ptrace events.
    OtherStop,
    /// The tracee exited or was killed by a signal.
    Terminated,
}

/// The child is stopped (WIFSTOPPED).
pub open spec fn is_stopped(status: isize) -> bool {
    status & 0xff == 0x7f
}

/// The stopping signal of a stopped child (WSTOPSIG).
pub open spec fn stop_signal(status: isize) -> isize {
    (status >> 8) & 0xff
}

/// The ptrace event code of a stopped child.
pub open spec fn event_code(status: isize) -> isize {
    (status >> 16) & 0xff
}

/// Classification of a waitpid status.
pub open spec fn stop_kind(status: isize) -> StopKind {
    if !is_stopped(status) {
        StopKind::Terminated
    } else if stop_signal(status) == SIGTRAP && event_code(status) == EVENT_EXEC {
        StopKind::ExecEventStop
    } else if stop_signal(status) == (SIGTRAP | 0x80) && event_code(status) == 0 {
        StopKind::SyscallStop
    } else {
        StopKind::OtherStop
    }
}

/// Whether the status is the SIGTRAP stop a child under TRACEME reports
/// once its first `execve` has completed.
pub open spec fn is_initial_trap(status: isize) -> bool {
    is_stopped(status) && stop_signal(status) == SIGTRAP
}

/// Classifies a waitpid status.
pub fn classify_status(status: isize) -> (r: StopKind)
    ensures
        r == stop_kind(status),
{
    if status & 0xff != 0x7f {
        StopKind::Terminated
    } else {
        let signal = (status >> 8) & 0xff;
        let event = (status >> 16) & 0xff;
        if signal == SIGTRAP && event == EVENT_EXEC {
            StopKind::ExecEventStop
        } else if signal == (SIGTRAP | 0x80) && event == 0 {
            StopKind::SyscallStop
        } else {
            StopKind::OtherStop
        }
    }
}

/// Whether the status is the SIGTRAP stop that opens the trace.
pub fn is_initial_stop(status: isize) -> (r: bool)
    ensures
        r == is_initial_trap(status),
{
    status & 0xff == 0x7f && (status >> 8) & 0xff == SIGTRAP
}

} // verus!
