//! Decision logic of an `execve` tracer for Linux x86-64.
//!
//! The tracer launches a command under ptrace and reports the argument
//! vector of every `execve` that the command or any of its descendants
//! performs. Everything that talks to the kernel (fork, waitpid, ptrace)
//! happens in the caller; this crate decides what those calls mean and
//! what to do next:
//!
//! * [`posix`] and [`ptrace`]: outcome types of the system calls and the
//!   reading of their raw return values;
//! * [`status`]: decoding of a waitpid status word;
//! * [`argv`]: reconstruction of an argument vector from words peeked out
//!   of the tracee, and the report line;
//! * [`trace`]: the handshake and the stop dispatcher;
//! * [`tracker`]: the per-tracee `execve` bookkeeping.

pub mod argv;
pub mod posix;
pub mod ptrace;
pub mod status;
pub mod trace;
pub mod tracker;
