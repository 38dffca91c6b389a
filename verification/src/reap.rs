//! Killing a child and collecting its exit status, action by action.
//!
//! The child is behind a lock that several threads take, so nothing that blocks may be done under
//! it: the wait for the exit happens outside, and the status is collected afterwards.
use crate::event::CommandEvent;
#[allow(unused_imports)]
use crate::event::EventView;
use crate::platform::Platform;
use crate::status::TerminatedPayload;
#[allow(unused_imports)]
use crate::wait::{wait_step, WaitStep};
use vstd::prelude::*;

verus! {

/// How long to pause between two attempts to collect a status, in milliseconds.
pub const POLL_INTERVAL_MS: u64 = 10;

/// What is to be done next about a child.
#[derive(Debug, Clone, Copy, PartialEq, Eq, Structural)]
pub enum ReapAction {
    /// Send the kill signal.
    StartKill,
    /// Get hold of the process of the child, to wait for it.
    OpenWaiter,
    /// Block until the process has exited, and leave it to be reaped.
    BlockOnExit,
    /// Reap the child, if it has exited.
    TryWait,
    /// Sleep for [`POLL_INTERVAL_MS`].
    Pause,
    /// Nothing: it is over.
    Nothing,
}

impl ReapAction {
    /// Whether the action is done with the child locked.
    pub open spec fn spec_under_lock(self) -> bool {
        self == ReapAction::StartKill || self == ReapAction::TryWait
    }

    /// Whether the action may take any length of time.
    pub open spec fn blocks(self) -> bool {
        self == ReapAction::BlockOnExit || self == ReapAction::Pause
    }

    /// Whether the action is done with the child locked.
    pub fn under_lock(&self) -> (locked: bool)
        ensures
            locked == self.spec_under_lock(),
    {
        match self {
            ReapAction::StartKill => true,
            ReapAction::TryWait => true,
            _ => false,
        }
    }
}

/// What came of an action.
#[derive(Debug)]
pub enum ReapOutcome<S, E> {
    /// It is done.
    Done,
    /// The attempt to reap: the status, if the child had exited.
    Status(Option<S>),
    /// It failed.
    Failed(E),
}

/// How far the reaping has come.
#[derive(Debug)]
pub enum ReapProgress<S, E> {
    /// There is more to do.
    Going,
    /// The child is reaped.
    Reaped(S),
    /// An action failed, and that is the end.
    Failed {
        /// The action that failed.
        during: ReapAction,
        /// Its error.
        error: E,
    },
}

/// What follows from the outcome of the pending action: the next action, and how far the reaping
/// has come. An outcome that does not fit the pending action changes nothing.
pub open spec fn reap_step<S, E>(pending: ReapAction, outcome: ReapOutcome<S, E>) -> (
    ReapAction,
    ReapProgress<S, E>,
) {
    match (pending, outcome) {
        (ReapAction::Nothing, _) => (ReapAction::Nothing, ReapProgress::Going),
        (_, ReapOutcome::Failed(error)) => (
            ReapAction::Nothing,
            ReapProgress::Failed { during: pending, error },
        ),
        (ReapAction::StartKill, ReapOutcome::Done) => (ReapAction::OpenWaiter, ReapProgress::Going),
        (ReapAction::OpenWaiter, ReapOutcome::Done) => (ReapAction::BlockOnExit, ReapProgress::Going),
        (ReapAction::BlockOnExit, ReapOutcome::Done) => (ReapAction::TryWait, ReapProgress::Going),
        (ReapAction::TryWait, ReapOutcome::Status(Some(status))) => (
            ReapAction::Nothing,
            ReapProgress::Reaped(status),
        ),
        (ReapAction::TryWait, ReapOutcome::Status(None)) => (
            ReapAction::Pause,
            ReapProgress::Going,
        ),
        (ReapAction::Pause, ReapOutcome::Done) => (ReapAction::TryWait, ReapProgress::Going),
        _ => (pending, ReapProgress::Going),
    }
}

/// The reaping of a child.
#[derive(Debug)]
pub struct Reaper {
    pid: u32,
    pending: ReapAction,
}

/// A [`Reaper`] as the contracts speak of it.
pub struct ReaperView {
    /// The process of the child that its actions are about.
    pub pid: u32,
    /// The action that it waits for.
    pub pending: ReapAction,
}

impl View for Reaper {
    type V = ReaperView;

    closed spec fn view(&self) -> ReaperView {
        ReaperView { pid: self.pid, pending: self.pending }
    }
}

impl Reaper {
    /// Kills the child that runs as process `pid` first, and then waits for it.
    pub fn kill(pid: u32) -> (reaper: Reaper)
        ensures
            reaper@ == (ReaperView { pid, pending: ReapAction::StartKill }),
    {
        Reaper { pid, pending: ReapAction::StartKill }
    }

    /// Waits for the child that runs as process `pid` to exit, returning its final exit status.
    pub fn wait_on_child(pid: u32) -> (reaper: Reaper)
        ensures
            reaper@ == (ReaperView { pid, pending: ReapAction::BlockOnExit }),
    {
        Reaper { pid, pending: ReapAction::BlockOnExit }
    }

    /// Tries to reap the child that runs as process `pid` again and again until it has exited.
    pub fn poll(pid: u32) -> (reaper: Reaper)
        ensures
            reaper@ == (ReaperView { pid, pending: ReapAction::TryWait }),
    {
        Reaper { pid, pending: ReapAction::TryWait }
    }

    /// The process of the child that the actions are about.
    pub fn pid(&self) -> (pid: u32)
        ensures
            pid == self@.pid,
    {
        self.pid
    }

    /// The action to do next.
    pub fn pending(&self) -> (action: ReapAction)
        ensures
            action == self@.pending,
    {
        self.pending
    }

    /// Takes note of what came of the pending action. The child stays the same.
    pub fn step<S, E>(&mut self, outcome: ReapOutcome<S, E>) -> (progress: ReapProgress<S, E>)
        ensures
            final(self)@.pid == old(self)@.pid,
            (final(self)@.pending, progress) == reap_step(old(self)@.pending, outcome),
    {
        match outcome {
            ReapOutcome::Failed(error) => {
                match self.pending {
                    ReapAction::Nothing => ReapProgress::Going,
                    during => {
                        self.pending = ReapAction::Nothing;
                        ReapProgress::Failed { during, error }
                    },
                }
            },
            ReapOutcome::Done => {
                self.pending = match self.pending {
                    ReapAction::StartKill => ReapAction::OpenWaiter,
                    ReapAction::OpenWaiter => ReapAction::BlockOnExit,
                    ReapAction::BlockOnExit => ReapAction::TryWait,
                    ReapAction::Pause => ReapAction::TryWait,
                    other => other,
                };
                ReapProgress::Going
            },
            ReapOutcome::Status(found) => {
                match self.pending {
                    ReapAction::TryWait => {
                        match found {
                            Some(status) => {
                                self.pending = ReapAction::Nothing;
                                ReapProgress::Reaped(status)
                            },
                            None => {
                                self.pending = ReapAction::Pause;
                                ReapProgress::Going
                            },
                        }
                    },
                    _ => ReapProgress::Going,
                }
            },
        }
    }
}

/// Spawned child process.
#[derive(Debug)]
pub struct CommandChild {
    pid: u32,
}

impl View for CommandChild {
    type V = u32;

    /// A child is its process.
    closed spec fn view(&self) -> u32 {
        self.pid
    }
}

impl CommandChild {
    /// The child that runs as process `pid`.
    pub(crate) fn running(pid: u32) -> (child: CommandChild)
        ensures
            child@ == pid,
    {
        CommandChild { pid }
    }

    /// Sends a kill signal to the child, then waits for it to exit.
    /// When the child was spawned with `process_group` enabled, this kills the
    /// entire process group (POSIX) or job object (Windows).
    pub fn kill(self) -> (reaper: Reaper)
        ensures
            reaper@ == (ReaperView { pid: self@, pending: ReapAction::StartKill }),
    {
        Reaper::kill(self.pid)
    }

    /// Returns the process pid.
    pub fn pid(&self) -> (pid: u32)
        ensures
            pid == self@,
    {
        self.pid
    }
}

/// The event that reports the end of a child: its exit code and, on Unix, the signal that ended
/// it, or the error that kept its status from being known.
pub open spec fn end_event(
    waited: Result<(Option<i32>, Option<i32>), Seq<char>>,
    platform: Platform,
) -> EventView {
    match waited {
        Ok((code, signal)) => EventView::Terminated(
            TerminatedPayload {
                code,
                signal: match platform {
                    Platform::Unix => signal,
                    Platform::Windows => None,
                },
            },
        ),
        Err(text) => EventView::Error(text),
    }
}

/// The event to send once the wait for a child is over. `waited` holds the exit code and the
/// signal, or the text of an error.
pub fn wait_event(
    waited: Result<(Option<i32>, Option<i32>), String>,
    platform: Platform,
) -> (event: CommandEvent)
    ensures
        event@ == end_event(
            match waited {
                Ok(status) => Ok(status),
                Err(text) => Err(text@),
            },
            platform,
        ),
{
    match waited {
        Ok((code, signal)) => {
            let signal = match platform {
                Platform::Unix => signal,
                Platform::Windows => None,
            };
            CommandEvent::Terminated(TerminatedPayload { code, signal })
        },
        Err(text) => CommandEvent::Error(text),
    }
}

/// The state of a reaping after a run of outcomes: it stands still once it is over.
pub open spec fn reap_run<S, E>(pending: ReapAction, outcomes: Seq<ReapOutcome<S, E>>) -> (
    ReapAction,
    ReapProgress<S, E>,
)
    decreases outcomes.len(),
{
    if outcomes.len() == 0 {
        (pending, ReapProgress::Going)
    } else {
        let (next, progress) = reap_step(pending, outcomes[0]);
        match progress {
            ReapProgress::Going => reap_run(next, outcomes.skip(1)),
            _ => (next, progress),
        }
    }
}

/// The actions that are done in a run of outcomes.
pub open spec fn reap_trace<S, E>(pending: ReapAction, outcomes: Seq<ReapOutcome<S, E>>) -> Seq<
    ReapAction,
>
    decreases outcomes.len(),
{
    if outcomes.len() == 0 {
        Seq::empty()
    } else {
        let (next, progress) = reap_step(pending, outcomes[0]);
        seq![pending] + match progress {
            ReapProgress::Going => reap_trace(next, outcomes.skip(1)),
            _ => Seq::empty(),
        }
    }
}

/// Outcomes of attempts to reap that fail `misses` times before they bring `status`.
pub open spec fn reaped_after<S, E>(misses: nat, status: S) -> Seq<ReapOutcome<S, E>>
    decreases misses,
{
    if misses == 0 {
        seq![ReapOutcome::Status(Some(status))]
    } else {
        seq![ReapOutcome::Status(None), ReapOutcome::Done] + reaped_after(
            (misses - 1) as nat,
            status,
        )
    }
}

/// No action that may block is done with the child locked.
pub proof fn law_nothing_blocks_under_lock(action: ReapAction)
    ensures
        !(action.blocks() && action.spec_under_lock()),
{
}

/// One more outcome in front is one step first.
proof fn lemma_run_first<S, E>(
    pending: ReapAction,
    first: ReapOutcome<S, E>,
    rest: Seq<ReapOutcome<S, E>>,
)
    requires
        reap_step(pending, first).1 is Going,
    ensures
        reap_run(pending, seq![first] + rest) == reap_run(reap_step(pending, first).0, rest),
{
    assert((seq![first] + rest).skip(1) =~= rest);
}

/// However often the child is not to be reaped yet, the status that it brings in the end is the
/// result.
pub proof fn law_status_is_collected<S, E>(misses: nat, status: S)
    ensures
        reap_run(ReapAction::TryWait, reaped_after::<S, E>(misses, status)) == (
            ReapAction::Nothing,
            ReapProgress::<S, E>::Reaped(status),
        ),
    decreases misses,
{
    if misses > 0 {
        law_status_is_collected::<S, E>((misses - 1) as nat, status);
        let rest = reaped_after::<S, E>((misses - 1) as nat, status);
        lemma_run_first(ReapAction::Pause, ReapOutcome::<S, E>::Done, rest);
        lemma_run_first(
            ReapAction::TryWait,
            ReapOutcome::<S, E>::Status(None),
            seq![ReapOutcome::<S, E>::Done] + rest,
        );
        assert(reaped_after::<S, E>(misses, status) =~= seq![ReapOutcome::<S, E>::Status(None)] + (
        seq![ReapOutcome::<S, E>::Done] + rest));
    }
}

/// A kill whose actions succeed ends with the child reaped, and so does a wait.
pub proof fn law_kill_reaps<S, E>(misses: nat, status: S)
    ensures
        reap_run(
            ReapAction::StartKill,
            seq![ReapOutcome::<S, E>::Done, ReapOutcome::Done, ReapOutcome::Done] + reaped_after(
                misses,
                status,
            ),
        ) == (ReapAction::Nothing, ReapProgress::<S, E>::Reaped(status)),
        reap_run(
            ReapAction::BlockOnExit,
            seq![ReapOutcome::<S, E>::Done] + reaped_after(misses, status),
        ) == (ReapAction::Nothing, ReapProgress::<S, E>::Reaped(status)),
{
    let done = ReapOutcome::<S, E>::Done;
    let rest = reaped_after::<S, E>(misses, status);
    law_status_is_collected::<S, E>(misses, status);
    lemma_run_first(ReapAction::BlockOnExit, done, rest);
    lemma_run_first(ReapAction::OpenWaiter, done, seq![done] + rest);
    lemma_run_first(ReapAction::StartKill, done, seq![done] + (seq![done] + rest));
    assert(seq![done, done, done] + rest =~= seq![done] + (seq![done] + (seq![done] + rest)));
}

/// A failure ends the reaping at once, with the action that failed and its error.
pub proof fn law_failure_is_final<S, E>(
    pending: ReapAction,
    error: E,
    rest: Seq<ReapOutcome<S, E>>,
)
    requires
        pending != ReapAction::Nothing,
    ensures
        reap_run(pending, seq![ReapOutcome::<S, E>::Failed(error)] + rest) == (
            ReapAction::Nothing,
            ReapProgress::<S, E>::Failed { during: pending, error },
        ),
{
}

/// A kill or a wait tries to reap the child only after it has blocked on the child's exit.
pub proof fn law_blocks_before_reaping<S, E>(
    pending: ReapAction,
    outcomes: Seq<ReapOutcome<S, E>>,
    i: int,
)
    requires
        pending == ReapAction::StartKill || pending == ReapAction::OpenWaiter || pending
            == ReapAction::BlockOnExit,
        0 <= i < reap_trace(pending, outcomes).len(),
        reap_trace(pending, outcomes)[i] == ReapAction::TryWait,
    ensures
        exists|j: int|
            0 <= j < i && #[trigger] reap_trace(pending, outcomes)[j] == ReapAction::BlockOnExit,
    decreases outcomes.len(),
{
    let trace = reap_trace(pending, outcomes);
    let (next, progress) = reap_step(pending, outcomes[0]);
    let rest = reap_trace(next, outcomes.skip(1));
    assert(trace[0] == pending);
    if pending != ReapAction::BlockOnExit {
        assert(progress is Going);
        assert(trace =~= seq![pending] + rest);
        assert(trace[i] == rest[i - 1]);
        law_blocks_before_reaping(next, outcomes.skip(1), i - 1);
        let j = choose|j: int| 0 <= j < i - 1 && #[trigger] rest[j] == ReapAction::BlockOnExit;
        assert(trace[j + 1] == rest[j]);
    }
}

/// The errors of the actions about a child that has exited, where they fail.
pub struct ReapErrors<E> {
    /// That of the kill signal, if it fails. On Unix it does where somebody else has reaped the
    /// child before and no process of its group is left: there is nothing to send it to.
    pub kill: Option<E>,
    /// That of getting hold of the process, if it fails.
    pub open: Option<E>,
    /// That of the blocking wait, if it fails.
    pub wait: E,
}

/// What comes of an action about a child that has exited with `status`. Somebody else may have
/// reaped it already: then the blocking wait finds no such child any more, which the system tells
/// by the error number `no_child`, and the status is the one that was kept.
pub open spec fn exited_outcome<S, E>(
    action: ReapAction,
    status: S,
    reaped: bool,
    no_child: i32,
    errors: ReapErrors<E>,
) -> ReapOutcome<S, E> {
    match action {
        ReapAction::StartKill => match errors.kill {
            Some(error) => ReapOutcome::Failed(error),
            None => ReapOutcome::Done,
        },
        ReapAction::OpenWaiter => match errors.open {
            Some(error) => ReapOutcome::Failed(error),
            None => ReapOutcome::Done,
        },
        ReapAction::BlockOnExit => {
            let step = if reaped {
                wait_step(no_child, -1i32, Some(no_child), false)
            } else {
                wait_step(no_child, 0, None, false)
            };
            if step == WaitStep::Exited {
                ReapOutcome::Done
            } else {
                ReapOutcome::Failed(errors.wait)
            }
        },
        ReapAction::TryWait => ReapOutcome::Status(Some(status)),
        ReapAction::Pause | ReapAction::Nothing => ReapOutcome::Done,
    }
}

/// How far the reaping of a child that has exited comes: `reaped` tells, for each action, whether
/// somebody else had reaped the child by then.
pub open spec fn race<S, E>(
    pending: ReapAction,
    status: S,
    reaped: Seq<bool>,
    no_child: i32,
    errors: ReapErrors<E>,
) -> ReapProgress<S, E>
    decreases reaped.len(),
{
    if reaped.len() == 0 {
        ReapProgress::Going
    } else {
        let outcome = exited_outcome(pending, status, reaped[0], no_child, errors);
        let (next, progress) = reap_step(pending, outcome);
        match progress {
            ReapProgress::Going => race(next, status, reaped.skip(1), no_child, errors),
            _ => progress,
        }
    }
}

/// A kill and a wait may race to reap the same child. Once the kill signal is sent and the process
/// is got hold of, each of them ends with the status of the child, whoever comes first. Where the
/// signal fails, as it may if the child was reaped before, or where the process cannot be got hold
/// of, the kill ends with that error.
pub proof fn law_reap_race_is_tolerated<S, E>(
    pending: ReapAction,
    status: S,
    reaped: Seq<bool>,
    no_child: i32,
    errors: ReapErrors<E>,
)
    requires
        pending != ReapAction::Nothing,
        reaped.len() >= 4,
    ensures
        race(pending, status, reaped, no_child, errors) == (if pending == ReapAction::StartKill
            && errors.kill is Some {
            ReapProgress::<S, E>::Failed { during: ReapAction::StartKill, error: errors.kill->0 }
        } else if (pending == ReapAction::StartKill || pending == ReapAction::OpenWaiter)
            && errors.open is Some {
            ReapProgress::<S, E>::Failed { during: ReapAction::OpenWaiter, error: errors.open->0 }
        } else {
            ReapProgress::<S, E>::Reaped(status)
        }),
{
    reveal_with_fuel(race, 5);
}

/// What is sent of the end of a child is what the wait found: the exit code as it is and, on Unix,
/// the signal as it is, where there is one and where there is none. Windows knows no signal. A wait
/// that failed is sent as its error.
pub proof fn law_end_is_reported_as_found(
    code: Option<i32>,
    signal: Option<i32>,
    text: Seq<char>,
    platform: Platform,
)
    ensures
        end_event(Ok((code, signal)), platform) matches EventView::Terminated(payload)
            && payload.code == code && (platform == Platform::Unix ==> payload.signal == signal)
            && (platform == Platform::Windows ==> payload.signal is None),
        end_event(Err(text), platform) == EventView::Error(text),
{
}

/// On Unix, two ends are reported alike only if they are the same end.
pub proof fn law_ends_are_told_apart(
    a: Result<(Option<i32>, Option<i32>), Seq<char>>,
    b: Result<(Option<i32>, Option<i32>), Seq<char>>,
)
    requires
        end_event(a, Platform::Unix) == end_event(b, Platform::Unix),
    ensures
        a == b,
{
}

/// The child is touched only under its lock: to send it the signal and to reap it. Everything else
/// is done without the lock.
pub proof fn law_child_is_touched_under_lock(action: ReapAction)
    ensures
        ReapAction::StartKill.spec_under_lock(),
        ReapAction::TryWait.spec_under_lock(),
        action.spec_under_lock() ==> action == ReapAction::StartKill || action
            == ReapAction::TryWait,
        ReapAction::BlockOnExit.blocks(),
        ReapAction::Pause.blocks(),
        POLL_INTERVAL_MS == 10,
{
}

/// The actions of a kill that succeeds come in a fixed order: the signal, getting hold of the
/// process, the blocking wait, and then attempts to reap with a pause between each two. A wait is
/// the same from the blocking wait on, and a poll from the first attempt on.
pub proof fn law_reap_order<S, E>(status: S)
    ensures
        reap_step::<S, E>(ReapAction::StartKill, ReapOutcome::Done) == (
            ReapAction::OpenWaiter,
            ReapProgress::<S, E>::Going,
        ),
        reap_step::<S, E>(ReapAction::OpenWaiter, ReapOutcome::Done) == (
            ReapAction::BlockOnExit,
            ReapProgress::<S, E>::Going,
        ),
        reap_step::<S, E>(ReapAction::BlockOnExit, ReapOutcome::Done) == (
            ReapAction::TryWait,
            ReapProgress::<S, E>::Going,
        ),
        reap_step::<S, E>(ReapAction::TryWait, ReapOutcome::Status(None)) == (
            ReapAction::Pause,
            ReapProgress::<S, E>::Going,
        ),
        reap_step::<S, E>(ReapAction::Pause, ReapOutcome::Done) == (
            ReapAction::TryWait,
            ReapProgress::<S, E>::Going,
        ),
        reap_step::<S, E>(ReapAction::TryWait, ReapOutcome::Status(Some(status))) == (
            ReapAction::Nothing,
            ReapProgress::<S, E>::Reaped(status),
        ),
{
}

/// A reaping ends with a status only when the attempt to reap brought it, and with an error only
/// when the pending action failed with it. An outcome that an action cannot have changes nothing.
pub proof fn law_reaping_ends_for_a_reason<S, E>(
    pending: ReapAction,
    outcome: ReapOutcome<S, E>,
    status: S,
    during: ReapAction,
    error: E,
)
    ensures
        ({
            let (next, progress) = reap_step(pending, outcome);
            let over = pending == ReapAction::Nothing;
            &&& progress == ReapProgress::<S, E>::Reaped(status) <==> pending == ReapAction::TryWait
                && outcome == ReapOutcome::<S, E>::Status(Some(status))
            &&& progress == (ReapProgress::<S, E>::Failed { during, error }) <==> !over && during
                == pending && outcome == ReapOutcome::<S, E>::Failed(error)
            &&& !(progress is Going) ==> next == ReapAction::Nothing
            &&& outcome is Status && pending != ReapAction::TryWait ==> next == pending
                && progress is Going
            &&& outcome is Done && (pending == ReapAction::TryWait || over) ==> next == pending
                && progress is Going
            &&& over ==> next == ReapAction::Nothing && progress is Going
        }),
{
}

} // verus!
