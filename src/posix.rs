//! Outcomes of the POSIX calls the tracer makes.

use vstd::prelude::*;
use crate::trace::TraceResult;

verus! {

/// Signal number of SIGTRAP.
pub const SIGTRAP: isize = 5;

/// Signal number of SIGKILL.
pub const SIGKILL: isize = 9;

/// An outcome that is either a success or a failure carrying an OS error code.
pub trait CouldBeAnError {
    /// Whether this outcome is a failure.
    spec fn failed(&self) -> bool;

    /// The OS error code carried by a failure.
    spec fn error_code(&self) -> usize;

    fn is_error(&self) -> (r: bool)
        ensures
            r == self.failed(),
    ;

    fn get_errno(&self) -> (r: usize)
        requires
            self.failed(),
        ensures
            r == self.error_code(),
    ;

    /// This outcome as an outcome of the trace.
    spec fn as_trace_result(&self) -> TraceResult;

    fn to_trace_result(&self) -> (r: TraceResult)
        ensures
            r == self.as_trace_result(),
    ;
}

/// The trace outcome of a system call outcome: its error code on failure.
pub open spec fn call_trace_result(failed: bool, code: usize) -> TraceResult {
    if failed {
        TraceResult::TraceError(code)
    } else {
        TraceResult::TraceOk
    }
}

/// Outcome of a call that returns nothing on success (`kill`).
#[derive(Debug, Clone, Copy, PartialEq, Eq, Structural)]
pub enum PosixResult {
    PosixOk,
    PosixError(usize),
}

impl CouldBeAnError for PosixResult {
    open spec fn failed(&self) -> bool {
        self is PosixError
    }

    open spec fn error_code(&self) -> usize {
        match *self {
            PosixResult::PosixError(e) => e,
            PosixResult::PosixOk => 0,
        }
    }

    fn is_error(&self) -> (r: bool) {
        match *self {
            PosixResult::PosixOk => false,
            PosixResult::PosixError(_) => true,
        }
    }

    fn get_errno(&self) -> (r: usize) {
        match *self {
            PosixResult::PosixError(e) => e,
            PosixResult::PosixOk => 0,
        }
    }

    open spec fn as_trace_result(&self) -> TraceResult {
        call_trace_result(self.failed(), self.error_code())
    }

    fn to_trace_result(&self) -> (r: TraceResult) {
        if self.is_error() {
            TraceResult::TraceError(self.get_errno())
        } else {
            TraceResult::TraceOk
        }
    }
}

/// Outcome of `fork`.
#[derive(Debug, Clone, Copy, PartialEq, Eq, Structural)]
pub enum ForkResult {
    ForkFailure(usize),
    ForkChild,
    ForkParent(isize),
}

impl CouldBeAnError for ForkResult {
    open spec fn failed(&self) -> bool {
        self is ForkFailure
    }

    open spec fn error_code(&self) -> usize {
        match *self {
            ForkResult::ForkFailure(e) => e,
            _ => 0,
        }
    }

    fn is_error(&self) -> (r: bool) {
        match *self {
            ForkResult::ForkFailure(_) => true,
            _ => false,
        }
    }

    fn get_errno(&self) -> (r: usize) {
        match *self {
            ForkResult::ForkFailure(e) => e,
            _ => 0,
        }
    }

    open spec fn as_trace_result(&self) -> TraceResult {
        call_trace_result(self.failed(), self.error_code())
    }

    fn to_trace_result(&self) -> (r: TraceResult) {
        if self.is_error() {
            TraceResult::TraceError(self.get_errno())
        } else {
            TraceResult::TraceOk
        }
    }
}

/// Outcome of `waitpid`: the pid that changed state and its raw status word.
#[derive(Debug, Clone, Copy, PartialEq, Eq, Structural)]
pub enum WaitPidResult {
    WaitPidFailure(usize),
    WaitPidSuccess(isize, isize),
}

impl CouldBeAnError for WaitPidResult {
    open spec fn failed(&self) -> bool {
        self is WaitPidFailure
    }

    open spec fn error_code(&self) -> usize {
        match *self {
            WaitPidResult::WaitPidFailure(e) => e,
            _ => 0,
        }
    }

    fn is_error(&self) -> (r: bool) {
        match *self {
            WaitPidResult::WaitPidFailure(_) => true,
            _ => false,
        }
    }

    fn get_errno(&self) -> (r: usize) {
        match *self {
            WaitPidResult::WaitPidFailure(e) => e,
            _ => 0,
        }
    }

    open spec fn as_trace_result(&self) -> TraceResult {
        call_trace_result(self.failed(), self.error_code())
    }

    fn to_trace_result(&self) -> (r: TraceResult) {
        if self.is_error() {
            TraceResult::TraceError(self.get_errno())
        } else {
            TraceResult::TraceOk
        }
    }
}

/// Reads the return value of `fork`: -1 is a failure with `errno`, 0 is
/// the child, anything else the child's pid seen from the parent.
pub fn fork_result(return_value: isize, errno: usize) -> (r: ForkResult)
    ensures
        r == (if return_value == -1 {
            ForkResult::ForkFailure(errno)
        } else if return_value == 0 {
            ForkResult::ForkChild
        } else {
            ForkResult::ForkParent(return_value)
        }),
{
    if return_value == -1 {
        ForkResult::ForkFailure(errno)
    } else if return_value == 0 {
        ForkResult::ForkChild
    } else {
        ForkResult::ForkParent(return_value)
    }
}

/// Reads the return value of `waitpid` and the status it stored: -1 is a
/// failure with `errno`, else the pid that changed state.
pub fn waitpid_result(return_value: isize, status: isize, errno: usize) -> (r: WaitPidResult)
    ensures
        r == (if return_value == -1 {
            WaitPidResult::WaitPidFailure(errno)
        } else {
            WaitPidResult::WaitPidSuccess(return_value, status)
        }),
{
    if return_value == -1 {
        WaitPidResult::WaitPidFailure(errno)
    } else {
        WaitPidResult::WaitPidSuccess(return_value, status)
    }
}

/// Reads the return value of `kill`: -1 is a failure with `errno`.
pub fn kill_result(return_value: isize, errno: usize) -> (r: PosixResult)
    ensures
        r == (if return_value == -1 {
            PosixResult::PosixError(errno)
        } else {
            PosixResult::PosixOk
        }),
{
    if return_value == -1 {
        PosixResult::PosixError(errno)
    } else {
        PosixResult::PosixOk
    }
}

/// Relies on `std::io::Error::last_os_error` and `raw_os_error`: the error
/// built from the calling thread's errno always carries a raw code.
#[verifier::external_body]
fn last_os_error_code() -> (r: Option<i32>)
    ensures
        r is Some,
{
    std::io::Error::last_os_error().raw_os_error()
}

/// The calling thread's current errno value.
pub fn errno() -> usize {
    match last_os_error_code() {
        Some(code) => code as usize,
        None => 0,
    }
}

} // verus!
