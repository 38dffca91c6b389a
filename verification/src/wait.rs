//! Judging what the operating system answers to a blocking wait for a child.
use vstd::prelude::*;

verus! {

/// What follows from one return of the blocking wait.
#[derive(Debug, Clone, Copy, PartialEq, Eq, Structural)]
pub enum WaitStep {
    /// The child has exited.
    Exited,
    /// The wait was interrupted: wait again.
    Again,
    /// The wait failed.
    Failed,
}

/// What follows from a return of `waitid`. The error number `no_child` tells that somebody else
/// has reaped the child, so it has exited too.
pub open spec fn wait_step(
    no_child: i32,
    returned: i32,
    errno: Option<i32>,
    interrupted: bool,
) -> WaitStep {
    if returned == 0 || errno == Some(no_child) {
        WaitStep::Exited
    } else if interrupted {
        WaitStep::Again
    } else {
        WaitStep::Failed
    }
}

/// Whether some platform has `errno` for the error number of a missing child: 1073741834 is that
/// of the Hurd, -2147454974 that of Haiku, 12 that of Emscripten and WASI, and 10 that of all
/// others.
pub open spec fn may_mean_no_child(errno: i32) -> bool {
    errno == 10 || errno == 12 || errno == 1073741834 || errno == -2147454974
}

/// `libc::ECHILD`, the error number of a wait for a child that is not there. It is a constant of
/// the platform: one of the numbers that `libc` has for it. Which of them is left open.
#[verifier::external_body]
fn no_child_errno() -> (errno: i32)
    ensures
        may_mean_no_child(errno),
{
    libc::ECHILD
}

/// Judges a return of `waitid`, where `no_child` is the error number of a missing child.
pub fn judge_wait(no_child: i32, returned: i32, errno: Option<i32>, interrupted: bool) -> (step:
    WaitStep)
    ensures
        step == wait_step(no_child, returned, errno, interrupted),
{
    if returned == 0 {
        return WaitStep::Exited;
    }
    if errno == Some(no_child) {
        return WaitStep::Exited;
    }
    if !interrupted {
        return WaitStep::Failed;
    }
    WaitStep::Again
}

/// Blocks until the child exits, leaving it in a waitable (unreaped) state so
/// that the owning wrapper can still collect the exit status.
#[derive(Debug)]
pub struct ExitWaiter {
    pid: u32,
    no_child: i32,
}

/// An [`ExitWaiter`] as the contracts speak of it.
pub struct ExitWaiterView {
    /// The process that is waited for.
    pub pid: u32,
    /// The error number by which the system says that there is no such child.
    pub no_child: i32,
}

impl View for ExitWaiter {
    type V = ExitWaiterView;

    closed spec fn view(&self) -> ExitWaiterView {
        ExitWaiterView { pid: self.pid, no_child: self.no_child }
    }
}

impl ExitWaiter {
    /// The number is one that stands for a missing child on some platform.
    #[verifier::type_invariant]
    spec fn wf(&self) -> bool {
        may_mean_no_child(self.no_child)
    }

    /// A waiter for the process `pid`.
    pub fn new(pid: u32) -> (waiter: ExitWaiter)
        ensures
            waiter@.pid == pid,
            may_mean_no_child(waiter@.no_child),
    {
        ExitWaiter { pid, no_child: no_child_errno() }
    }

    /// The process that is waited for.
    pub fn pid(&self) -> (pid: u32)
        ensures
            pid == self@.pid,
    {
        self.pid
    }

    /// Judges a return of `waitid` on this process: its value, the error number behind a failure,
    /// and whether that error is an interruption.
    pub fn wait(&self, returned: i32, errno: Option<i32>, interrupted: bool) -> (step: WaitStep)
        ensures
            step == wait_step(self@.no_child, returned, errno, interrupted),
            may_mean_no_child(self@.no_child),
    {
        proof {
            use_type_invariant(self);
        }
        judge_wait(self.no_child, returned, errno, interrupted)
    }
}

/// Judges a return of the wait for a process handle on Windows: `signaled` is the value by which
/// the system says that the process has exited. With any other value the last error is the result.
pub fn raw_wait_no_reap<E>(result: u32, signaled: u32, last_error: E) -> (waited: Result<(), E>)
    ensures
        waited == (if result == signaled {
            Ok(())
        } else {
            Err(last_error)
        }),
{
    if result == signaled {
        Ok(())
    } else {
        Err(last_error)
    }
}

/// A child that has exited is told from one that runs, no matter whether it is still to be reaped
/// or somebody else has reaped it in the meantime.
pub proof fn law_reaped_elsewhere_is_exited(
    no_child: i32,
    returned: i32,
    errno: Option<i32>,
    interrupted: bool,
)
    ensures
        wait_step(no_child, 0, errno, interrupted) == WaitStep::Exited,
        wait_step(no_child, returned, Some(no_child), interrupted) == WaitStep::Exited,
{
}

/// A wait that failed for another reason than a missing child is made again if it was interrupted,
/// and has failed otherwise: it is never taken for an exit.
pub proof fn law_failed_wait_is_no_exit(
    no_child: i32,
    returned: i32,
    errno: Option<i32>,
    interrupted: bool,
)
    requires
        returned != 0,
        errno != Some(no_child),
    ensures
        wait_step(no_child, returned, errno, interrupted) == WaitStep::Again <==> interrupted,
        wait_step(no_child, returned, errno, interrupted) == WaitStep::Failed <==> !interrupted,
{
}

/// The number of a missing child is not the number of success and on no platform that of an
/// interruption.
pub proof fn law_missing_child_is_no_interruption(errno: i32)
    requires
        may_mean_no_child(errno),
    ensures
        errno != 0,
        errno != 4 && errno != 27 && errno != 1073741828 && errno != -2147483638,
        errno == 10 || errno == 12 || errno == 1073741834 || errno == -2147454974,
{
}

} // verus!
