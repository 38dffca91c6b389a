//! Spawning a command, action by action.
use crate::command::CREATE_NO_WINDOW;
use crate::event::OutputStream;
use crate::platform::Platform;
use crate::reap::CommandChild;
use vstd::prelude::*;

verus! {

/// How many events may wait to be received before the sender has to wait.
pub const EVENT_CHANNEL_CAPACITY: usize = 1;

/// The three pipes to a child.
#[derive(Debug, Clone, Copy, PartialEq, Eq, Structural)]
pub enum Pipe {
    /// From the child's standard output.
    Stdout,
    /// From the child's standard error.
    Stderr,
    /// To the child's standard input.
    Stdin,
}

/// What a child process is wrapped in when it is spawned.
#[derive(Debug, Clone, Copy, PartialEq, Eq, Structural)]
pub enum ChildWrapper {
    /// A POSIX process group of which the child is the leader.
    ProcessGroupLeader,
    /// Creation flags on Windows.
    CreationFlags(u32),
    /// A job object on Windows.
    JobObject,
}

/// The wrappers of a child, in the order in which they are put on.
pub open spec fn wrappers(process_group: bool, platform: Platform) -> Seq<ChildWrapper> {
    if !process_group {
        Seq::empty()
    } else {
        match platform {
            Platform::Unix => seq![ChildWrapper::ProcessGroupLeader],
            Platform::Windows => seq![
                ChildWrapper::CreationFlags(CREATE_NO_WINDOW),
                ChildWrapper::JobObject,
            ],
        }
    }
}

/// The wrappers by which a child gets a process group or a job object of its own: none unless
/// `process_group` is set.
pub fn child_wrappers(process_group: bool, platform: Platform) -> (all: Vec<ChildWrapper>)
    ensures
        all@ == wrappers(process_group, platform),
{
    let mut all: Vec<ChildWrapper> = Vec::new();
    if process_group {
        match platform {
            Platform::Unix => {
                all.push(ChildWrapper::ProcessGroupLeader);
            },
            Platform::Windows => {
                all.push(ChildWrapper::CreationFlags(CREATE_NO_WINDOW));
                all.push(ChildWrapper::JobObject);
            },
        }
    }
    assert(all@ =~= wrappers(process_group, platform));
    all
}

/// What is to be done next to spawn a command.
#[derive(Debug, Clone, Copy, PartialEq, Eq, Structural)]
pub enum SpawnAction {
    /// Open a pipe.
    OpenPipe(Pipe),
    /// Start the thread that reads a stream.
    StartReader {
        /// The stream to read.
        stream: OutputStream,
        /// Whether its bytes are passed on as received, and not line by line.
        raw: bool,
    },
    /// Start the process.
    SpawnChild,
    /// Get hold of the process, to wait for it, while it is definitely there.
    OpenWaiter(u32),
    /// Start the thread that waits for the process.
    StartWait(u32),
    /// Nothing: it is over.
    Nothing,
}

/// What came of an action.
#[derive(Debug)]
pub enum SpawnOutcome<E> {
    /// It is done.
    Done,
    /// The process was started, with this pid.
    Spawned(u32),
    /// It failed.
    Failed(E),
}

/// How far the spawning has come.
#[derive(Debug)]
pub enum SpawnProgress<E> {
    /// There is more to do.
    Going,
    /// The child runs and is waited for.
    Running(CommandChild),
    /// An action failed, and that is the end.
    Failed(E),
}

/// A [`SpawnProgress`] as the contracts speak of it.
pub enum SpawnProgressView<E> {
    /// There is more to do.
    Going,
    /// The child runs as this process.
    Running(u32),
    /// An action failed with this error.
    Failed(E),
}

impl<E> View for SpawnProgress<E> {
    type V = SpawnProgressView<E>;

    open spec fn view(&self) -> SpawnProgressView<E> {
        match self {
            SpawnProgress::Going => SpawnProgressView::Going,
            SpawnProgress::Running(child) => SpawnProgressView::Running(child@),
            SpawnProgress::Failed(error) => SpawnProgressView::Failed(*error),
        }
    }
}

/// What follows from the outcome of the pending action: the next action, and how far the spawning
/// has come. An outcome that does not fit the pending action changes nothing.
pub open spec fn spawn_step<E>(raw: bool, pending: SpawnAction, outcome: SpawnOutcome<E>) -> (
    SpawnAction,
    SpawnProgressView<E>,
) {
    match (pending, outcome) {
        (SpawnAction::Nothing, _) => (SpawnAction::Nothing, SpawnProgressView::Going),
        (_, SpawnOutcome::Failed(error)) => (
            SpawnAction::Nothing,
            SpawnProgressView::Failed(error),
        ),
        (SpawnAction::OpenPipe(Pipe::Stdout), SpawnOutcome::Done) => (
            SpawnAction::OpenPipe(Pipe::Stderr),
            SpawnProgressView::Going,
        ),
        (SpawnAction::OpenPipe(Pipe::Stderr), SpawnOutcome::Done) => (
            SpawnAction::OpenPipe(Pipe::Stdin),
            SpawnProgressView::Going,
        ),
        (SpawnAction::OpenPipe(Pipe::Stdin), SpawnOutcome::Done) => (
            SpawnAction::StartReader { stream: OutputStream::Stdout, raw },
            SpawnProgressView::Going,
        ),
        (
            SpawnAction::StartReader { stream: OutputStream::Stdout, raw: _ },
            SpawnOutcome::Done,
        ) => (
            SpawnAction::StartReader { stream: OutputStream::Stderr, raw },
            SpawnProgressView::Going,
        ),
        (
            SpawnAction::StartReader { stream: OutputStream::Stderr, raw: _ },
            SpawnOutcome::Done,
        ) => (SpawnAction::SpawnChild, SpawnProgressView::Going),
        (SpawnAction::SpawnChild, SpawnOutcome::Spawned(pid)) => (
            SpawnAction::OpenWaiter(pid),
            SpawnProgressView::Going,
        ),
        (SpawnAction::OpenWaiter(pid), SpawnOutcome::Done) => (
            SpawnAction::StartWait(pid),
            SpawnProgressView::Going,
        ),
        (SpawnAction::StartWait(pid), SpawnOutcome::Done) => (
            SpawnAction::Nothing,
            SpawnProgressView::Running(pid),
        ),
        _ => (pending, SpawnProgressView::Going),
    }
}

/// The spawning of a command.
#[derive(Debug)]
pub struct Spawning {
    raw_out: bool,
    pending: SpawnAction,
}

impl View for Spawning {
    type V = (bool, SpawnAction);

    /// A spawning is the mode of its readers and the action that it waits for.
    closed spec fn view(&self) -> (bool, SpawnAction) {
        (self.raw_out, self.pending)
    }
}

impl Spawning {
    /// Starts with the first pipe.
    pub fn start(raw_out: bool) -> (spawning: Spawning)
        ensures
            spawning@ == (raw_out, SpawnAction::OpenPipe(Pipe::Stdout)),
    {
        Spawning { raw_out, pending: SpawnAction::OpenPipe(Pipe::Stdout) }
    }

    /// The action to do next.
    pub fn pending(&self) -> (action: SpawnAction)
        ensures
            action == self@.1,
    {
        self.pending
    }

    /// Takes note of what came of the pending action.
    pub fn step<E>(&mut self, outcome: SpawnOutcome<E>) -> (progress: SpawnProgress<E>)
        ensures
            final(self)@.0 == old(self)@.0,
            (final(self)@.1, progress@) == spawn_step(old(self)@.0, old(self)@.1, outcome),
    {
        let raw = self.raw_out;
        match outcome {
            SpawnOutcome::Failed(error) => {
                match self.pending {
                    SpawnAction::Nothing => SpawnProgress::Going,
                    _ => {
                        self.pending = SpawnAction::Nothing;
                        SpawnProgress::Failed(error)
                    },
                }
            },
            SpawnOutcome::Spawned(pid) => {
                if let SpawnAction::SpawnChild = self.pending {
                    self.pending = SpawnAction::OpenWaiter(pid);
                }
                SpawnProgress::Going
            },
            SpawnOutcome::Done => {
                self.pending = match self.pending {
                    SpawnAction::OpenPipe(Pipe::Stdout) => SpawnAction::OpenPipe(Pipe::Stderr),
                    SpawnAction::OpenPipe(Pipe::Stderr) => SpawnAction::OpenPipe(Pipe::Stdin),
                    SpawnAction::OpenPipe(Pipe::Stdin) => SpawnAction::StartReader {
                        stream: OutputStream::Stdout,
                        raw,
                    },
                    SpawnAction::StartReader { stream, raw: _ } => {
                        match stream {
                            OutputStream::Stdout => SpawnAction::StartReader {
                                stream: OutputStream::Stderr,
                                raw,
                            },
                            OutputStream::Stderr => SpawnAction::SpawnChild,
                        }
                    },
                    SpawnAction::OpenWaiter(pid) => SpawnAction::StartWait(pid),
                    SpawnAction::StartWait(pid) => {
                        self.pending = SpawnAction::Nothing;
                        return SpawnProgress::Running(CommandChild::running(pid));
                    },
                    other => other,
                };
                SpawnProgress::Going
            },
        }
    }
}

/// The actions of a spawning that succeeds, in order.
pub open spec fn spawn_plan(raw: bool, pid: u32) -> Seq<SpawnAction> {
    seq![
        SpawnAction::OpenPipe(Pipe::Stdout),
        SpawnAction::OpenPipe(Pipe::Stderr),
        SpawnAction::OpenPipe(Pipe::Stdin),
        SpawnAction::StartReader { stream: OutputStream::Stdout, raw },
        SpawnAction::StartReader { stream: OutputStream::Stderr, raw },
        SpawnAction::SpawnChild,
        SpawnAction::OpenWaiter(pid),
        SpawnAction::StartWait(pid),
    ]
}

/// The outcome by which an action succeeds.
pub open spec fn success<E>(action: SpawnAction, pid: u32) -> SpawnOutcome<E> {
    match action {
        SpawnAction::SpawnChild => SpawnOutcome::Spawned(pid),
        _ => SpawnOutcome::Done,
    }
}

/// Where every action succeeds, the plan is followed to its end: the pipes are open and both
/// streams are read before the process starts, and the child is handed out once it is waited for.
pub proof fn law_spawn_follows_plan<E>(raw: bool, pid: u32, i: int)
    requires
        0 <= i < spawn_plan(raw, pid).len(),
    ensures
        ({
            let plan = spawn_plan(raw, pid);
            spawn_step::<E>(raw, plan[i], success(plan[i], pid)) == if i + 1 < plan.len() {
                (plan[i + 1], SpawnProgressView::<E>::Going)
            } else {
                (SpawnAction::Nothing, SpawnProgressView::<E>::Running(pid))
            }
        }),
{
}

/// Where an action fails, its error is the result, and nothing more is done.
pub proof fn law_spawn_failure_is_final<E>(raw: bool, pending: SpawnAction, error: E)
    requires
        pending != SpawnAction::Nothing,
    ensures
        spawn_step(raw, pending, SpawnOutcome::Failed(error)) == (
            SpawnAction::Nothing,
            SpawnProgressView::Failed(error),
        ),
        forall|later: SpawnOutcome<E>| #[trigger]
            spawn_step(raw, SpawnAction::Nothing, later) == (
                SpawnAction::Nothing,
                SpawnProgressView::<E>::Going,
            ),
{
}

/// A child is wrapped exactly if it gets a group of its own: on Unix it leads a process group, on
/// Windows it is in a job object and has no window. The wrappers of one platform are never put on
/// for the other.
pub proof fn law_wrappers_make_a_group(process_group: bool, platform: Platform)
    ensures
        ({
            let all = wrappers(process_group, platform);
            &&& all.len() > 0 <==> process_group
            &&& all.contains(ChildWrapper::ProcessGroupLeader) <==> process_group && platform
                == Platform::Unix
            &&& all.contains(ChildWrapper::JobObject) <==> process_group && platform
                == Platform::Windows
            &&& forall|flags: u32| #[trigger]
                all.contains(ChildWrapper::CreationFlags(flags)) <==> process_group && platform
                    == Platform::Windows && flags == 0x0800_0000u32
            &&& process_group && platform == Platform::Unix ==> all.len() == 1
            &&& process_group && platform == Platform::Windows ==> all.len() == 2 && all[1]
                == ChildWrapper::JobObject
        }),
{
    let all = wrappers(process_group, platform);
    if process_group {
        match platform {
            Platform::Unix => {
                assert(all[0] == ChildWrapper::ProcessGroupLeader);
            },
            Platform::Windows => {
                assert(all[0] == ChildWrapper::CreationFlags(0x0800_0000u32));
                assert(all[1] == ChildWrapper::JobObject);
            },
        }
    }
}

/// The actions of a spawning come in a fixed order: the pipes of stdout, stderr and stdin, then the
/// readers of stdout and stderr in the mode that was asked for, then the process, and then, for the
/// process that was started and no other, the waiter, the wait, and the child itself.
pub proof fn law_spawn_order<E>(raw: bool, mode: bool, pid: u32)
    ensures
        spawn_step::<E>(raw, SpawnAction::OpenPipe(Pipe::Stdout), SpawnOutcome::Done) == (
            SpawnAction::OpenPipe(Pipe::Stderr),
            SpawnProgressView::<E>::Going,
        ),
        spawn_step::<E>(raw, SpawnAction::OpenPipe(Pipe::Stderr), SpawnOutcome::Done) == (
            SpawnAction::OpenPipe(Pipe::Stdin),
            SpawnProgressView::<E>::Going,
        ),
        spawn_step::<E>(raw, SpawnAction::OpenPipe(Pipe::Stdin), SpawnOutcome::Done) == (
            SpawnAction::StartReader { stream: OutputStream::Stdout, raw },
            SpawnProgressView::<E>::Going,
        ),
        spawn_step::<E>(
            raw,
            (SpawnAction::StartReader { stream: OutputStream::Stdout, raw: mode }),
            SpawnOutcome::Done,
        ) == (
            SpawnAction::StartReader { stream: OutputStream::Stderr, raw },
            SpawnProgressView::<E>::Going,
        ),
        spawn_step::<E>(
            raw,
            (SpawnAction::StartReader { stream: OutputStream::Stderr, raw: mode }),
            SpawnOutcome::Done,
        ) == (SpawnAction::SpawnChild, SpawnProgressView::<E>::Going),
        spawn_step::<E>(raw, SpawnAction::SpawnChild, SpawnOutcome::Spawned(pid)) == (
            SpawnAction::OpenWaiter(pid),
            SpawnProgressView::<E>::Going,
        ),
        spawn_step::<E>(raw, SpawnAction::OpenWaiter(pid), SpawnOutcome::Done) == (
            SpawnAction::StartWait(pid),
            SpawnProgressView::<E>::Going,
        ),
        spawn_step::<E>(raw, SpawnAction::StartWait(pid), SpawnOutcome::Done) == (
            SpawnAction::Nothing,
            SpawnProgressView::<E>::Running(pid),
        ),
        EVENT_CHANNEL_CAPACITY == 1,
{
}

/// A spawning hands out a child only when the wait for it is started, and ends with an error only
/// when an action failed with that error. An outcome that an action cannot have changes nothing.
pub proof fn law_spawn_ends_for_a_reason<E>(
    raw: bool,
    pending: SpawnAction,
    outcome: SpawnOutcome<E>,
    pid: u32,
    error: E,
)
    ensures
        ({
            let (next, progress) = spawn_step(raw, pending, outcome);
            let over = pending == SpawnAction::Nothing;
            &&& progress == SpawnProgressView::<E>::Running(pid) <==> pending
                == SpawnAction::StartWait(pid) && outcome is Done
            &&& progress == SpawnProgressView::Failed(error) <==> !over && outcome
                == SpawnOutcome::Failed(error)
            &&& !(progress is Going) ==> next == SpawnAction::Nothing
            &&& outcome is Spawned && pending != SpawnAction::SpawnChild ==> next == pending
                && progress is Going
            &&& outcome is Done && pending == SpawnAction::SpawnChild ==> next == pending
                && progress is Going
            &&& over ==> next == SpawnAction::Nothing && progress is Going
        }),
{
}

/// The contracts see of a progress what it holds.
pub proof fn law_spawn_progress_view<E>(progress: SpawnProgress<E>)
    ensures
        match progress {
            SpawnProgress::Going => progress@ is Going,
            SpawnProgress::Running(child) => progress@ == SpawnProgressView::<E>::Running(child@),
            SpawnProgress::Failed(error) => progress@ == SpawnProgressView::Failed(error),
        },
{
}

} // verus!
