//! The operating-system calls the library makes, each behind one small function.
//!
//! Nothing is proved about these functions: what they return is decided by the
//! kernel. The verified code around them is correct for every value they may
//! hand back.

use vstd::prelude::*;
use nix::sys::wait::{waitpid, WaitPidFlag, WaitStatus};
use nix::unistd::{close, dup2, pipe, Pid};

verus! {

/// What a wait on a child process reported.
#[derive(Clone, Copy, Debug, PartialEq, Eq, Structural)]
pub enum ChildStatus {
    /// The process ended by itself, with this exit code.
    Exited(i32),
    /// The process was killed by a signal.
    Signaled,
    /// The process is stopped by a signal.
    Stopped,
    /// The process was resumed after a stop.
    Continued,
    /// The process is stopped under a tracer.
    Traced,
    /// Nothing has changed: the process is still running.
    StillAlive,
    /// The wait itself failed.
    Failed,
}

impl ChildStatus {
    /// A process has terminated when it exited or was killed by a signal.
    pub open spec fn terminated(self) -> bool {
        self is Exited || self is Signaled
    }

    /// Whether this status says that the process has terminated.
    pub fn is_terminated(&self) -> (r: bool)
        ensures
            r == self.terminated(),
    {
        match self {
            ChildStatus::Exited(_) => true,
            ChildStatus::Signaled => true,
            _ => false,
        }
    }
}

/// The process id that stands for "any child" in a wait.
pub const ANY_CHILD: i32 = -1;

/// Calls `nix::sys::wait::waitpid` on `pid`, with `WNOHANG` when `no_hang` is
/// set and with no flags otherwise, and reports which kind of status came back.
/// A pid of -1 waits for any child. Nothing is claimed of the result. Without
/// `WNOHANG` the call blocks until the child changes state. The call relies on
/// the kernel handing back a status of one of the documented kinds.
#[verifier::external_body]
pub(crate) fn wait_child(pid: i32, no_hang: bool) -> (status: ChildStatus) {
    let flags = no_hang.then_some(WaitPidFlag::WNOHANG);
    match waitpid(Pid::from_raw(pid), flags) {
        Ok(WaitStatus::Exited(_, code)) => ChildStatus::Exited(code),
        Ok(WaitStatus::Signaled(_, _, _)) => ChildStatus::Signaled,
        Ok(WaitStatus::Stopped(_, _)) => ChildStatus::Stopped,
        Ok(WaitStatus::Continued(_)) => ChildStatus::Continued,
        Ok(WaitStatus::StillAlive) => ChildStatus::StillAlive,
        Ok(_) => ChildStatus::Traced,
        Err(_) => ChildStatus::Failed,
    }
}

/// Calls `nix::unistd::pipe`: on success the read end and the write end of a
/// new pipe, on failure the error number. Nothing is claimed of the values.
#[verifier::external_body]
pub(crate) fn open_pipe() -> (ends: Result<(i32, i32), i32>) {
    match pipe() {
        Ok((read_end, write_end)) => Ok((read_end, write_end)),
        Err(errno) => Err(errno as i32),
    }
}

/// Calls `nix::unistd::close` on `fd` and reports whether it succeeded.
#[verifier::external_body]
pub(crate) fn close_fd(fd: i32) -> (closed: bool) {
    close(fd).is_ok()
}

/// Calls `nix::unistd::dup2`, making `target` a copy of `source`: on failure
/// the error number. Nothing is claimed of the outcome.
#[verifier::external_body]
pub(crate) fn duplicate_fd(source: i32, target: i32) -> (outcome: Result<(), i32>) {
    match dup2(source, target) {
        Ok(_) => Ok(()),
        Err(errno) => Err(errno as i32),
    }
}

} // verus!
