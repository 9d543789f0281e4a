//! Constants and outcome readings of the ptrace requests the tracer issues.

use vstd::prelude::*;
use crate::posix::{call_trace_result, CouldBeAnError};
use crate::trace::TraceResult;

verus! {

/// One machine word of the tracee, the unit of a PEEKTEXT read.
pub type Word = u64;

/// Number of bytes in a [`Word`].
pub const WORD_BYTES: u64 = 8;

/// Option bit: report syscall-stops as `SIGTRAP | 0x80`.
pub const TRACESYSGOOD: isize = 0x1;

/// Option bit: trace the children a tracee forks.
pub const TRACEFORK: isize = 0x2;

/// Option bit: stop a tracee with an event-stop on a successful `execve`.
pub const TRACEEXEC: isize = 0x10;

/// The option mask set on the first tracee during the handshake.
pub const TRACE_OPTIONS: isize = TRACESYSGOOD | TRACEFORK | TRACEEXEC;

/// Event code in bits 16..24 of a wait status for an exec event-stop.
pub const EVENT_EXEC: isize = 4;

/// The `execve` system call number (`orig_rax`) on x86-64.
pub const EXECVE: Word = 59;

/// Outcome of a ptrace request that returns no value.
#[derive(Debug, Clone, Copy, PartialEq, Eq, Structural)]
pub enum PtraceResult {
    PtraceOk,
    PtraceError(usize),
}

impl CouldBeAnError for PtraceResult {
    open spec fn failed(&self) -> bool {
        self is PtraceError
    }

    open spec fn error_code(&self) -> usize {
        match *self {
            PtraceResult::PtraceError(e) => e,
            PtraceResult::PtraceOk => 0,
        }
    }

    fn is_error(&self) -> (r: bool) {
        match *self {
            PtraceResult::PtraceOk => false,
            PtraceResult::PtraceError(_) => true,
        }
    }

    fn get_errno(&self) -> (r: usize) {
        match *self {
            PtraceResult::PtraceError(e) => e,
            PtraceResult::PtraceOk => 0,
        }
    }

    open spec fn as_trace_result(&self) -> TraceResult {
        call_trace_result(self.failed(), self.error_code())
    }

    fn to_trace_result(&self) -> (r: TraceResult) {
        if self.is_error() {
            TraceResult::TraceError(self.get_errno())
        } else {
            TraceResult::TraceOk
        }
    }
}

/// Reads the return value of a ptrace request that reports failure as -1;
/// `errno` is the error code read right after the call.
pub fn to_ptrace_result(return_value: i64, errno: usize) -> (r: PtraceResult)
    ensures
        r == (if return_value == -1 {
            PtraceResult::PtraceError(errno)
        } else {
            PtraceResult::PtraceOk
        }),
{
    if return_value == -1 {
        PtraceResult::PtraceError(errno)
    } else {
        PtraceResult::PtraceOk
    }
}

/// Reads the return value of a PEEKTEXT request. The request returns the
/// word itself, so -1 is an error only when errno (cleared before the call)
/// was set by it.
pub fn peektext_result(return_value: i64, errno: usize) -> (r: Result<Word, usize>)
    ensures
        r == (if return_value == -1 && errno != 0 {
            Err::<Word, usize>(errno)
        } else {
            Ok::<Word, usize>(return_value as Word)
        }),
{
    if return_value == -1 && errno != 0 {
        Err(errno)
    } else {
        Ok(return_value as Word)
    }
}

} // verus!
