//! The threads that serve a running child: one reader for each of its output streams, and one that
//! waits for its end.
//!
//! They share a guard. Each reader is inside it while it reads, and the end of the child is sent
//! only when no reader is inside any more, so that the end comes after the output.
use crate::event::CommandEvent;
#[allow(unused_imports)]
use crate::event::{
    collected, final_code, law_streams_do_not_mix, payloads, run_output, EventView, OutputStream,
    NEWLINE_BYTE,
};
use crate::platform::Platform;
#[allow(unused_imports)]
use crate::read::{
    law_line_output_is_exact, law_raw_output_is_exact, line_reader_events, line_step,
    lines_received, newline_after_each, raw_events, raw_step, received, LineReadView, ReadStepView,
    ReadView,
};
#[allow(unused_imports)]
use crate::reap::end_event;
use crate::reap::wait_event;
use vstd::prelude::*;

verus! {

/// What a reader thread is to do next.
#[derive(Debug, Clone, Copy, PartialEq, Eq, Structural)]
pub enum ReaderAction {
    /// Enter the guard, which others may enter too.
    Enter,
    /// Read what is there, and send it as received.
    ReadRaw,
    /// Read a line, and send it.
    ReadLine,
    /// Leave the guard.
    Leave,
    /// Nothing: it is over.
    Nothing,
}

impl ReaderAction {
    /// Whether a reader that is to do this is inside the guard.
    pub open spec fn inside(self) -> bool {
        self == ReaderAction::ReadRaw || self == ReaderAction::ReadLine || self
            == ReaderAction::Leave
    }
}

/// A reader thread.
#[derive(Debug)]
pub struct ReaderThread {
    raw_out: bool,
    pending: ReaderAction,
}

/// A [`ReaderThread`] as the contracts speak of it.
pub struct ReaderThreadView {
    /// Whether it sends what it reads as received, and not line by line.
    pub raw_out: bool,
    /// What it is to do next.
    pub pending: ReaderAction,
}

impl View for ReaderThread {
    type V = ReaderThreadView;

    closed spec fn view(&self) -> ReaderThreadView {
        ReaderThreadView { raw_out: self.raw_out, pending: self.pending }
    }
}

/// A reader after it has done what was pending: it reads until a read tells it to `stop`.
pub open spec fn reader_step(reader: ReaderThreadView, stop: bool) -> ReaderThreadView {
    ReaderThreadView {
        pending: match reader.pending {
            ReaderAction::Enter => if reader.raw_out {
                ReaderAction::ReadRaw
            } else {
                ReaderAction::ReadLine
            },
            ReaderAction::ReadRaw | ReaderAction::ReadLine => if stop {
                ReaderAction::Leave
            } else {
                reader.pending
            },
            ReaderAction::Leave | ReaderAction::Nothing => ReaderAction::Nothing,
        },
        ..reader
    }
}

impl ReaderThread {
    /// A reader that passes bytes on as received if `raw_out` is set, and line by line otherwise.
    pub fn start(raw_out: bool) -> (reader: ReaderThread)
        ensures
            reader@ == (ReaderThreadView { raw_out, pending: ReaderAction::Enter }),
    {
        ReaderThread { raw_out, pending: ReaderAction::Enter }
    }

    /// What to do next.
    pub fn pending(&self) -> (action: ReaderAction)
        ensures
            action == self@.pending,
    {
        self.pending
    }

    /// Takes note that the pending action is done. After a read, `stop` tells whether it was the
    /// last.
    pub fn step(&mut self, stop: bool)
        ensures
            final(self)@ == reader_step(old(self)@, stop),
    {
        self.pending = match self.pending {
            ReaderAction::Enter => {
                if self.raw_out {
                    ReaderAction::ReadRaw
                } else {
                    ReaderAction::ReadLine
                }
            },
            ReaderAction::ReadRaw => {
                if stop {
                    ReaderAction::Leave
                } else {
                    ReaderAction::ReadRaw
                }
            },
            ReaderAction::ReadLine => {
                if stop {
                    ReaderAction::Leave
                } else {
                    ReaderAction::ReadLine
                }
            },
            ReaderAction::Leave => ReaderAction::Nothing,
            ReaderAction::Nothing => ReaderAction::Nothing,
        };
    }
}

/// What the wait thread is to do next.
#[derive(Debug, Clone, Copy, PartialEq, Eq, Structural)]
pub enum WaitThreadAction {
    /// Wait for the end of the child.
    Wait,
    /// Enter the guard alone, once no reader is inside.
    AwaitReaders,
    /// Send how the child ended, and leave the guard.
    Send,
    /// Nothing: it is over.
    Nothing,
}

/// The thread that waits for the end of a child.
#[derive(Debug)]
pub struct WaitThread {
    platform: Platform,
    pending: WaitThreadAction,
    event: Option<CommandEvent>,
}

/// A [`WaitThread`] as the contracts speak of it.
pub struct WaitThreadView {
    /// Where it runs.
    pub platform: Platform,
    /// What it is to do next.
    pub pending: WaitThreadAction,
    /// The event that it is to send, once the child has ended.
    pub event: Option<EventView>,
}

/// How a wait ended: the exit code and the signal, or the text of an error.
pub type WaitedView = Result<(Option<i32>, Option<i32>), Seq<char>>;

/// An optional event as the contracts speak of it.
pub open spec fn opt_event_view(event: Option<CommandEvent>) -> Option<EventView> {
    match event {
        Some(e) => Some(e@),
        None => None,
    }
}

impl View for WaitThread {
    type V = WaitThreadView;

    closed spec fn view(&self) -> WaitThreadView {
        WaitThreadView {
            platform: self.platform,
            pending: self.pending,
            event: opt_event_view(self.event),
        }
    }
}

/// The wait thread after the wait has ended. Where it does not wait, nothing changes.
pub open spec fn wait_over(thread: WaitThreadView, waited: WaitedView) -> WaitThreadView {
    if thread.pending == WaitThreadAction::Wait {
        WaitThreadView {
            pending: WaitThreadAction::AwaitReaders,
            event: Some(end_event(waited, thread.platform)),
            ..thread
        }
    } else {
        thread
    }
}

/// The wait thread after it has got into the guard alone. Where it does not ask for that, nothing
/// changes.
pub open spec fn guard_entered(thread: WaitThreadView) -> WaitThreadView {
    if thread.pending == WaitThreadAction::AwaitReaders {
        WaitThreadView { pending: WaitThreadAction::Send, ..thread }
    } else {
        thread
    }
}

/// The wait thread after it has handed out what it is to send, and what that is. Where it is not
/// to send anything, nothing changes.
pub open spec fn end_sent(thread: WaitThreadView) -> (WaitThreadView, Option<EventView>) {
    if thread.pending == WaitThreadAction::Send {
        (
            WaitThreadView { pending: WaitThreadAction::Nothing, event: None, ..thread },
            thread.event,
        )
    } else {
        (thread, None)
    }
}

impl WaitThread {
    /// A thread that waits for a child.
    pub fn start(platform: Platform) -> (thread: WaitThread)
        ensures
            thread@ == (WaitThreadView { platform, pending: WaitThreadAction::Wait, event: None }),
    {
        WaitThread { platform, pending: WaitThreadAction::Wait, event: None }
    }

    /// What to do next.
    pub fn pending(&self) -> (action: WaitThreadAction)
        ensures
            action == self@.pending,
    {
        self.pending
    }

    /// Takes note of how the wait ended.
    pub fn waited(&mut self, waited: Result<(Option<i32>, Option<i32>), String>)
        ensures
            final(self)@ == wait_over(
                old(self)@,
                match waited {
                    Ok(status) => Ok(status),
                    Err(text) => Err(text@),
                },
            ),
    {
        if let WaitThreadAction::Wait = self.pending {
            self.event = Some(wait_event(waited, self.platform));
            self.pending = WaitThreadAction::AwaitReaders;
        }
    }

    /// Takes note that the guard is entered, with no reader inside.
    pub fn entered(&mut self)
        ensures
            final(self)@ == guard_entered(old(self)@),
    {
        if let WaitThreadAction::AwaitReaders = self.pending {
            self.pending = WaitThreadAction::Send;
        }
    }

    /// The event to send.
    pub fn send(&mut self) -> (event: Option<CommandEvent>)
        ensures
            (final(self)@, opt_event_view(event)) == end_sent(old(self)@),
    {
        if let WaitThreadAction::Send = self.pending {
            self.pending = WaitThreadAction::Nothing;
            self.event.take()
        } else {
            None
        }
    }
}

/// What a read of a reader thread brings.
pub enum ReaderRead {
    /// A raw read.
    Raw(ReadView),
    /// The reading of a line.
    Line(LineReadView),
}

/// The step of a reader after a read.
pub open spec fn read_step(stream: OutputStream, read: ReaderRead) -> ReadStepView {
    match read {
        ReaderRead::Raw(r) => raw_step(stream, r),
        ReaderRead::Line(r) => line_step(stream, r),
    }
}

/// The bytes that a read brings, if it brings any.
pub open spec fn piece(read: ReaderRead) -> Option<Seq<u8>> {
    match read {
        ReaderRead::Raw(Ok(bytes)) => if bytes.len() == 0 {
            None
        } else {
            Some(bytes)
        },
        ReaderRead::Line(Ok((count, line))) => if count == 0 {
            None
        } else {
            Some(line)
        },
        _ => None,
    }
}

/// The pieces that a run of reads brings, in order.
pub open spec fn pieces(reads: Seq<ReaderRead>) -> Seq<Seq<u8>>
    decreases reads.len(),
{
    if reads.len() == 0 {
        Seq::empty()
    } else {
        match piece(reads.last()) {
            Some(bytes) => pieces(reads.drop_last()).push(bytes),
            None => pieces(reads.drop_last()),
        }
    }
}

/// Pieces put together.
pub open spec fn joined(pieces: Seq<Seq<u8>>) -> Seq<u8>
    decreases pieces.len(),
{
    if pieces.len() == 0 {
        Seq::empty()
    } else {
        joined(pieces.drop_last()) + pieces.last()
    }
}

/// What raw reads bring, in order.
pub open spec fn raw_reads(reads: Seq<ReaderRead>) -> Seq<ReadView> {
    reads.map_values(
        |read: ReaderRead|
            match read {
                ReaderRead::Raw(r) => r,
                ReaderRead::Line(_) => Ok(Seq::empty()),
            },
    )
}

/// What readings of lines bring, in order.
pub open spec fn line_reads(reads: Seq<ReaderRead>) -> Seq<LineReadView> {
    reads.map_values(
        |read: ReaderRead|
            match read {
                ReaderRead::Line(r) => r,
                ReaderRead::Raw(_) => Ok((0nat, Seq::empty())),
            },
    )
}

/// The threads of a child and what they have done so far.
pub struct Service {
    /// The reader of standard output.
    pub stdout: ReaderThreadView,
    /// The reader of standard error.
    pub stderr: ReaderThreadView,
    /// The wait thread.
    pub wait: WaitThreadView,
    /// What was read of standard output.
    pub stdout_reads: Seq<ReaderRead>,
    /// What was read of standard error.
    pub stderr_reads: Seq<ReaderRead>,
    /// How the wait ended, if it has.
    pub waited: Option<WaitedView>,
    /// The events that were sent, in order.
    pub sent: Seq<EventView>,
}

/// What one of the threads does.
pub enum Move {
    /// A reader enters the guard.
    Enter(OutputStream),
    /// A reader reads, and sends what comes of it.
    Read(OutputStream, ReaderRead),
    /// A reader leaves the guard.
    Leave(OutputStream),
    /// The wait for the child ends.
    Waited(WaitedView),
    /// The wait thread gets into the guard alone.
    Alone,
    /// The wait thread sends the end of the child and leaves the guard.
    SendEnd,
}

impl Service {
    /// The threads as a command starts them.
    pub open spec fn start(raw_out: bool, platform: Platform) -> Service {
        Service {
            stdout: ReaderThreadView { raw_out, pending: ReaderAction::Enter },
            stderr: ReaderThreadView { raw_out, pending: ReaderAction::Enter },
            wait: WaitThreadView { platform, pending: WaitThreadAction::Wait, event: None },
            stdout_reads: Seq::empty(),
            stderr_reads: Seq::empty(),
            waited: None,
            sent: Seq::empty(),
        }
    }

    /// The reader of a stream.
    pub open spec fn reader(self, stream: OutputStream) -> ReaderThreadView {
        match stream {
            OutputStream::Stdout => self.stdout,
            OutputStream::Stderr => self.stderr,
        }
    }

    /// What was read of a stream.
    pub open spec fn reads(self, stream: OutputStream) -> Seq<ReaderRead> {
        match stream {
            OutputStream::Stdout => self.stdout_reads,
            OutputStream::Stderr => self.stderr_reads,
        }
    }

    /// The threads after a reader has done what was pending.
    pub open spec fn with_reader(self, stream: OutputStream, stop: bool) -> Service {
        match stream {
            OutputStream::Stdout => Service { stdout: reader_step(self.stdout, stop), ..self },
            OutputStream::Stderr => Service { stderr: reader_step(self.stderr, stop), ..self },
        }
    }

    /// The threads after a read of a stream.
    pub open spec fn with_read(self, stream: OutputStream, read: ReaderRead) -> Service {
        let step = read_step(stream, read);
        let after = self.with_reader(stream, step.stop);
        let sent = match step.event {
            Some(event) => self.sent.push(event),
            None => self.sent,
        };
        match stream {
            OutputStream::Stdout => Service {
                stdout_reads: self.stdout_reads.push(read),
                sent,
                ..after
            },
            OutputStream::Stderr => Service {
                stderr_reads: self.stderr_reads.push(read),
                sent,
                ..after
            },
        }
    }

    /// Whether a thread can make this move now: it is what the thread is to do next, and the guard
    /// lets it in.
    pub open spec fn allows(self, made: Move) -> bool {
        match made {
            Move::Enter(stream) => self.reader(stream).pending == ReaderAction::Enter
                && self.wait.pending != WaitThreadAction::Send,
            Move::Read(stream, ReaderRead::Raw(_)) => self.reader(stream).pending
                == ReaderAction::ReadRaw,
            Move::Read(stream, ReaderRead::Line(_)) => self.reader(stream).pending
                == ReaderAction::ReadLine,
            Move::Leave(stream) => self.reader(stream).pending == ReaderAction::Leave,
            Move::Waited(_) => self.wait.pending == WaitThreadAction::Wait,
            Move::Alone => self.wait.pending == WaitThreadAction::AwaitReaders
                && !self.stdout.pending.inside() && !self.stderr.pending.inside(),
            Move::SendEnd => self.wait.pending == WaitThreadAction::Send,
        }
    }

    /// The threads after a move.
    pub open spec fn after(self, made: Move) -> Service {
        match made {
            Move::Enter(stream) => self.with_reader(stream, false),
            Move::Read(stream, read) => self.with_read(stream, read),
            Move::Leave(stream) => self.with_reader(stream, false),
            Move::Waited(waited) => Service {
                wait: wait_over(self.wait, waited),
                waited: Some(waited),
                ..self
            },
            Move::Alone => Service { wait: guard_entered(self.wait), ..self },
            Move::SendEnd => {
                let (wait, event) = end_sent(self.wait);
                Service {
                    wait,
                    sent: match event {
                        Some(e) => self.sent.push(e),
                        None => self.sent,
                    },
                    ..self
                }
            },
        }
    }

    /// The threads after a run of moves.
    pub open spec fn after_all(self, moves: Seq<Move>) -> Service
        decreases moves.len(),
    {
        if moves.len() == 0 {
            self
        } else {
            self.after_all(moves.drop_last()).after(moves.last())
        }
    }

    /// Whether the threads can make these moves, one after the other.
    pub open spec fn allows_all(self, moves: Seq<Move>) -> bool
        decreases moves.len(),
    {
        moves.len() == 0 || (self.allows_all(moves.drop_last()) && self.after_all(
            moves.drop_last(),
        ).allows(moves.last()))
    }

    /// Whether both readers have entered the guard before the wait for the child ends.
    pub open spec fn readers_in_time(self, moves: Seq<Move>) -> bool
        decreases moves.len(),
    {
        moves.len() == 0 || {
            let before = self.after_all(moves.drop_last());
            &&& self.readers_in_time(moves.drop_last())
            &&& moves.last() is Waited ==> before.stdout.pending != ReaderAction::Enter
                && before.stderr.pending != ReaderAction::Enter
        }
    }

    /// The exit code that is reported: that of the child, once its end is sent.
    pub open spec fn exit_code(self) -> Option<i32> {
        match self.waited {
            Some(Ok((code, _))) => if self.wait.pending == WaitThreadAction::Nothing {
                code
            } else {
                None
            },
            _ => None,
        }
    }

    /// Whether every thread is done.
    pub open spec fn is_over(self) -> bool {
        &&& self.stdout.pending == ReaderAction::Nothing
        &&& self.stderr.pending == ReaderAction::Nothing
        &&& self.wait.pending == WaitThreadAction::Nothing
    }
}

/// What holds of the threads at any time.
spec fn sound(service: Service, platform: Platform) -> bool {
    let wait = service.wait;
    let sent = service.sent;
    &&& wait.platform == platform
    // The end is known once the wait is over, and is kept until it is sent.
    &&& wait.pending == WaitThreadAction::Wait <==> service.waited is None
    &&& wait.pending == WaitThreadAction::AwaitReaders || wait.pending == WaitThreadAction::Send
        ==> wait.event == Some(end_event(service.waited->0, platform))
    // Nobody is inside the guard beside the wait thread.
    &&& wait.pending == WaitThreadAction::Send ==> !service.stdout.pending.inside()
        && !service.stderr.pending.inside()
    // Before it is sent, there is no end among the events, and afterwards one at most.
    &&& wait.pending != WaitThreadAction::Nothing ==> forall|i: int|
        0 <= i < sent.len() ==> !((#[trigger] sent[i]) is Terminated)
    &&& forall|i: int, j: int|
        0 <= i < j < sent.len() ==> !((#[trigger] sent[i]) is Terminated && (
        #[trigger] sent[j]) is Terminated)
}

/// What a reader has sent is what it has read, and it leaves only after a read that told it to.
spec fn reads_sent(service: Service, stream: OutputStream) -> bool {
    let reader = service.reader(stream);
    let reads = service.reads(stream);
    &&& collected(stream, service.sent) == newline_after_each(pieces(reads))
    &&& reader.pending == ReaderAction::Leave || reader.pending == ReaderAction::Nothing
        ==> reads.len() > 0 && read_step(stream, reads.last()).stop
}

/// What holds at any time if the readers have entered in time.
spec fn ordered(service: Service, platform: Platform) -> bool {
    let wait = service.wait;
    let sent = service.sent;
    &&& wait.pending != WaitThreadAction::Wait ==> service.stdout.pending != ReaderAction::Enter
        && service.stderr.pending != ReaderAction::Enter
    &&& wait.pending == WaitThreadAction::Send || wait.pending == WaitThreadAction::Nothing
        ==> service.stdout.pending == ReaderAction::Nothing && service.stderr.pending
        == ReaderAction::Nothing
    &&& wait.pending == WaitThreadAction::Nothing ==> sent.len() > 0 && sent.last() == end_event(
        service.waited->0,
        platform,
    ) && forall|i: int| 0 <= i < sent.len() - 1 ==> !((#[trigger] sent[i]) is Terminated)
}

proof fn lemma_sound(raw_out: bool, platform: Platform, moves: Seq<Move>)
    requires
        Service::start(raw_out, platform).allows_all(moves),
    ensures
        sound(Service::start(raw_out, platform).after_all(moves), platform),
    decreases moves.len(),
{
    if moves.len() > 0 {
        lemma_sound(raw_out, platform, moves.drop_last());
    }
}

proof fn lemma_collected_push(stream: OutputStream, sent: Seq<EventView>, event: EventView)
    ensures
        collected(stream, sent.push(event)) == if stream.carries(event) {
            (collected(stream, sent) + stream.payload(event)).push(NEWLINE_BYTE)
        } else {
            collected(stream, sent)
        },
{
    assert(sent.push(event).drop_last() =~= sent);
}

proof fn lemma_pieces_push(reads: Seq<ReaderRead>, read: ReaderRead)
    ensures
        newline_after_each(pieces(reads.push(read))) == match piece(read) {
            Some(bytes) => (newline_after_each(pieces(reads)) + bytes).push(NEWLINE_BYTE),
            None => newline_after_each(pieces(reads)),
        },
{
    assert(reads.push(read).drop_last() =~= reads);
    if let Some(bytes) = piece(read) {
        assert(pieces(reads).push(bytes).drop_last() =~= pieces(reads));
    }
}

proof fn lemma_reads_sent(raw_out: bool, platform: Platform, moves: Seq<Move>, stream: OutputStream)
    requires
        Service::start(raw_out, platform).allows_all(moves),
    ensures
        reads_sent(Service::start(raw_out, platform).after_all(moves), stream),
    decreases moves.len(),
{
    let start = Service::start(raw_out, platform);
    if moves.len() > 0 {
        let before = start.after_all(moves.drop_last());
        lemma_reads_sent(raw_out, platform, moves.drop_last(), stream);
        lemma_sound(raw_out, platform, moves.drop_last());
        match moves.last() {
            Move::Read(of, read) => {
                if let Some(event) = read_step(of, read).event {
                    lemma_collected_push(stream, before.sent, event);
                }
                lemma_pieces_push(before.reads(stream), read);
            },
            Move::SendEnd => {
                if let Some(event) = before.wait.event {
                    lemma_collected_push(stream, before.sent, event);
                }
            },
            _ => {},
        }
    }
}

proof fn lemma_ordered(raw_out: bool, platform: Platform, moves: Seq<Move>)
    requires
        Service::start(raw_out, platform).allows_all(moves),
        Service::start(raw_out, platform).readers_in_time(moves),
    ensures
        ordered(Service::start(raw_out, platform).after_all(moves), platform),
    decreases moves.len(),
{
    if moves.len() > 0 {
        lemma_ordered(raw_out, platform, moves.drop_last());
        lemma_sound(raw_out, platform, moves.drop_last());
    }
}

proof fn lemma_code_push(sent: Seq<EventView>, event: EventView)
    ensures
        final_code(sent.push(event)) == match event {
            EventView::Terminated(payload) => payload.code,
            _ => final_code(sent),
        },
{
    assert(sent.push(event).drop_last() =~= sent);
}

proof fn lemma_exit_code(raw_out: bool, platform: Platform, moves: Seq<Move>)
    requires
        Service::start(raw_out, platform).allows_all(moves),
    ensures
        ({
            let service = Service::start(raw_out, platform).after_all(moves);
            final_code(service.sent) == service.exit_code()
        }),
    decreases moves.len(),
{
    if moves.len() > 0 {
        let before = Service::start(raw_out, platform).after_all(moves.drop_last());
        lemma_exit_code(raw_out, platform, moves.drop_last());
        lemma_sound(raw_out, platform, moves.drop_last());
        match moves.last() {
            Move::Read(stream, read) => {
                if let Some(event) = read_step(stream, read).event {
                    lemma_code_push(before.sent, event);
                }
            },
            Move::SendEnd => {
                if let Some(event) = before.wait.event {
                    lemma_code_push(before.sent, event);
                }
            },
            _ => {},
        }
    }
}

/// The wait for the child goes on whatever the readers do: it never waits for the guard.
pub proof fn law_wait_needs_no_guard(service: Service, waited: WaitedView)
    requires
        service.wait.pending == WaitThreadAction::Wait,
    ensures
        service.allows(Move::Waited(waited)),
{
}

/// However the threads take turns, the end of the child is sent only while no reader is inside the
/// guard, and only after the wait is over, whether that succeeded or not: what is sent is how the
/// wait ended.
pub proof fn law_end_waits_for_readers(raw_out: bool, platform: Platform, moves: Seq<Move>)
    requires
        Service::start(raw_out, platform).allows_all(moves),
        Service::start(raw_out, platform).after_all(moves).allows(Move::SendEnd),
    ensures
        ({
            let service = Service::start(raw_out, platform).after_all(moves);
            &&& !service.stdout.pending.inside()
            &&& !service.stderr.pending.inside()
            &&& service.waited is Some
            &&& service.after(Move::SendEnd).sent == service.sent.push(
                end_event(service.waited->0, platform),
            )
        }),
{
    lemma_sound(raw_out, platform, moves);
}

/// However the threads take turns, the end of the child is sent once at most, and exactly once if
/// the wait thread is done; and a termination is reported once at most.
pub proof fn law_end_comes_once(raw_out: bool, platform: Platform, moves: Seq<Move>)
    requires
        Service::start(raw_out, platform).allows_all(moves),
    ensures
        ({
            let service = Service::start(raw_out, platform).after_all(moves);
            let sent = service.sent;
            &&& forall|i: int, j: int|
                0 <= i < j < moves.len() ==> !((#[trigger] moves[i]) is SendEnd && (
                #[trigger] moves[j]) is SendEnd)
            &&& service.wait.pending == WaitThreadAction::Nothing <==> exists|i: int|
                0 <= i < moves.len() && (#[trigger] moves[i]) is SendEnd
            &&& forall|i: int, j: int|
                0 <= i < j < sent.len() ==> !((#[trigger] sent[i]) is Terminated && (
                #[trigger] sent[j]) is Terminated)
        }),
    decreases moves.len(),
{
    lemma_sound(raw_out, platform, moves);
    if moves.len() > 0 {
        let front = moves.drop_last();
        let before = Service::start(raw_out, platform).after_all(front);
        law_end_comes_once(raw_out, platform, front);
        assert forall|i: int| 0 <= i < front.len() implies #[trigger] moves[i] == front[i] by {}
        if before.wait.pending == WaitThreadAction::Nothing {
            let i = choose|i: int| 0 <= i < front.len() && (#[trigger] front[i]) is SendEnd;
            assert(moves[i] is SendEnd);
        }
        assert(moves[moves.len() - 1] == moves.last());
    }
}

/// Where both readers have entered the guard before the wait for the child ends, the end of the
/// child is the last of all events: a run of which every thread is done has sent it once, after
/// everything that the readers sent, and nothing can be sent any more. Each reader has got to the
/// end of its stream by then, or to an error that ended its reading.
pub proof fn law_end_comes_last(raw_out: bool, platform: Platform, moves: Seq<Move>)
    requires
        Service::start(raw_out, platform).allows_all(moves),
        Service::start(raw_out, platform).readers_in_time(moves),
        Service::start(raw_out, platform).after_all(moves).is_over(),
    ensures
        ({
            let service = Service::start(raw_out, platform).after_all(moves);
            let sent = service.sent;
            &&& service.waited is Some
            &&& sent.len() > 0
            &&& sent.last() == end_event(service.waited->0, platform)
            &&& forall|i: int|
                0 <= i < sent.len() - 1 ==> !((#[trigger] sent[i]) is Terminated)
            &&& forall|made: Move| !(#[trigger] service.allows(made))
            &&& forall|stream: OutputStream|
                (#[trigger] service.reads(stream)).len() > 0 && read_step(
                    stream,
                    service.reads(stream).last(),
                ).stop
        }),
{
    let service = Service::start(raw_out, platform).after_all(moves);
    lemma_sound(raw_out, platform, moves);
    lemma_ordered(raw_out, platform, moves);
    lemma_reads_sent(raw_out, platform, moves, OutputStream::Stdout);
    lemma_reads_sent(raw_out, platform, moves, OutputStream::Stderr);
    assert forall|stream: OutputStream| (#[trigger] service.reads(stream)).len() > 0 && read_step(
        stream,
        service.reads(stream).last(),
    ).stop by {
        match stream {
            OutputStream::Stdout => {},
            OutputStream::Stderr => {},
        }
    }
}

/// The events that a run of reads brings, in order.
spec fn read_events(stream: OutputStream, reads: Seq<ReaderRead>) -> Seq<EventView>
    decreases reads.len(),
{
    if reads.len() == 0 {
        Seq::empty()
    } else {
        read_events(stream, reads.drop_last()) + event_of(stream, reads.last())
    }
}

/// The event that a read brings, if it brings one.
spec fn event_of(stream: OutputStream, read: ReaderRead) -> Seq<EventView> {
    match read_step(stream, read).event {
        Some(event) => seq![event],
        None => Seq::empty(),
    }
}

/// The reads of a reader are all of its kind, none but the last told it to stop, and what it sent
/// is what they brought.
spec fn events_sent(service: Service, stream: OutputStream, raw_out: bool) -> bool {
    let reader = service.reader(stream);
    let reads = service.reads(stream);
    let own = |event: EventView| stream.carries(event);
    &&& reader.raw_out == raw_out
    &&& reader.pending == ReaderAction::ReadRaw ==> raw_out
    &&& reader.pending == ReaderAction::ReadLine ==> !raw_out
    &&& forall|i: int| 0 <= i < reads.len() ==> (#[trigger] reads[i] is Raw <==> raw_out)
    &&& forall|i: int|
        0 <= i < reads.len() - 1 ==> !read_step(stream, #[trigger] reads[i]).stop
    &&& reader.pending == ReaderAction::ReadRaw || reader.pending == ReaderAction::ReadLine
        || reader.pending == ReaderAction::Enter ==> forall|i: int|
        0 <= i < reads.len() ==> !read_step(stream, #[trigger] reads[i]).stop
    &&& service.sent.filter(own) == read_events(stream, reads).filter(own)
    &&& payloads(stream, service.sent) == joined(pieces(reads))
}

proof fn lemma_filter_push(stream: OutputStream, events: Seq<EventView>, event: EventView)
    ensures
        ({
            let own = |event: EventView| stream.carries(event);
            events.push(event).filter(own) == if stream.carries(event) {
                events.filter(own).push(event)
            } else {
                events.filter(own)
            }
        }),
        payloads(stream, events.push(event)) == payloads(stream, events) + stream.payload(event),
{
    reveal(Seq::filter);
    assert(events.push(event).drop_last() =~= events);
}

proof fn lemma_read_events_push(stream: OutputStream, reads: Seq<ReaderRead>, read: ReaderRead)
    ensures
        read_events(stream, reads.push(read)) == match read_step(stream, read).event {
            Some(event) => read_events(stream, reads).push(event),
            None => read_events(stream, reads),
        },
        joined(pieces(reads.push(read))) == match piece(read) {
            Some(bytes) => joined(pieces(reads)) + bytes,
            None => joined(pieces(reads)),
        },
{
    assert(reads.push(read).drop_last() =~= reads);
    match read_step(stream, read).event {
        Some(event) => {
            assert(read_events(stream, reads) + seq![event] =~= read_events(stream, reads).push(
                event,
            ));
        },
        None => {
            assert(read_events(stream, reads) + Seq::<EventView>::empty() =~= read_events(
                stream,
                reads,
            ));
        },
    }
    if let Some(bytes) = piece(read) {
        assert(pieces(reads).push(bytes).drop_last() =~= pieces(reads));
    }
}

proof fn lemma_events_sent(
    raw_out: bool,
    platform: Platform,
    moves: Seq<Move>,
    stream: OutputStream,
)
    requires
        Service::start(raw_out, platform).allows_all(moves),
    ensures
        events_sent(Service::start(raw_out, platform).after_all(moves), stream, raw_out),
    decreases moves.len(),
{
    let start = Service::start(raw_out, platform);
    if moves.len() > 0 {
        let before = start.after_all(moves.drop_last());
        lemma_events_sent(raw_out, platform, moves.drop_last(), stream);
        lemma_sound(raw_out, platform, moves.drop_last());
        match moves.last() {
            Move::Read(of, read) => {
                let reads = before.reads(stream);
                if let Some(event) = read_step(of, read).event {
                    lemma_filter_push(stream, before.sent, event);
                    lemma_filter_push(stream, read_events(stream, reads), event);
                    assert(payloads(stream, before.sent) + Seq::<u8>::empty() =~= payloads(
                        stream,
                        before.sent,
                    ));
                }
                lemma_read_events_push(stream, reads, read);
            },
            Move::SendEnd => {
                if let Some(event) = before.wait.event {
                    lemma_filter_push(stream, before.sent, event);
                    assert(payloads(stream, before.sent) + Seq::<u8>::empty() =~= payloads(
                        stream,
                        before.sent,
                    ));
                }
            },
            _ => {},
        }
    }
}

/// The events of a run of reads are those of its first read and then those of the rest.
proof fn lemma_read_events_first(stream: OutputStream, first: ReaderRead, rest: Seq<ReaderRead>)
    ensures
        read_events(stream, seq![first] + rest) == event_of(stream, first) + read_events(
            stream,
            rest,
        ),
    decreases rest.len(),
{
    let all = seq![first] + rest;
    if rest.len() == 0 {
        assert(all.drop_last() =~= Seq::empty());
        assert(all.last() == first);
        assert(read_events(stream, all.drop_last()) =~= Seq::empty());
        assert(read_events(stream, all) =~= event_of(stream, first) + read_events(stream, rest));
    } else {
        lemma_read_events_first(stream, first, rest.drop_last());
        assert(all.drop_last() =~= seq![first] + rest.drop_last());
        assert(all.last() == rest.last());
        assert(read_events(stream, all) =~= event_of(stream, first) + read_events(stream, rest));
    }
}

/// The events of a run of reads are those that a reader sends for it.
proof fn lemma_reader_events(stream: OutputStream, reads: Seq<ReaderRead>, raw_out: bool)
    requires
        forall|i: int| 0 <= i < reads.len() ==> (#[trigger] reads[i] is Raw <==> raw_out),
        forall|i: int|
            0 <= i < reads.len() - 1 ==> !read_step(stream, #[trigger] reads[i]).stop,
    ensures
        raw_out ==> raw_events(stream, raw_reads(reads)) == read_events(stream, reads),
        !raw_out ==> line_reader_events(stream, line_reads(reads)) == read_events(stream, reads),
    decreases reads.len(),
{
    if reads.len() > 0 {
        let first = reads[0];
        let rest = reads.skip(1);
        assert forall|i: int| 0 <= i < rest.len() implies #[trigger] rest[i] == reads[i + 1] by {}
        lemma_reader_events(stream, rest, raw_out);
        assert(seq![first] + rest =~= reads);
        lemma_read_events_first(stream, first, rest);
        assert(raw_reads(reads).skip(1) =~= raw_reads(rest));
        assert(line_reads(reads).skip(1) =~= line_reads(rest));
        if rest.len() == 0 {
            assert(read_events(stream, rest) =~= Seq::empty());
            assert(raw_events(stream, raw_reads(rest)) =~= Seq::empty());
            assert(line_reader_events(stream, line_reads(rest)) =~= Seq::empty());
            assert(event_of(stream, first) + Seq::<EventView>::empty() =~= event_of(stream, first));
        }
    }
}

/// What a whole run sends of each stream, however the threads take turns, is exactly what its
/// reader read: the payloads are the pieces joined, and the events of the stream are those that a
/// raw reader or a line reader sends for these reads.
pub proof fn law_service_sends_what_it_reads(
    raw_out: bool,
    platform: Platform,
    moves: Seq<Move>,
    stream: OutputStream,
)
    requires
        Service::start(raw_out, platform).allows_all(moves),
    ensures
        ({
            let service = Service::start(raw_out, platform).after_all(moves);
            let reads = service.reads(stream);
            let own = |event: EventView| stream.carries(event);
            &&& payloads(stream, service.sent) == joined(pieces(reads))
            &&& raw_out ==> service.sent.filter(own) == raw_events(
                stream,
                raw_reads(reads),
            ).filter(own)
            &&& raw_out ==> payloads(stream, service.sent) == received(raw_reads(reads))
            &&& !raw_out ==> service.sent.filter(own) == line_reader_events(
                stream,
                line_reads(reads),
            ).filter(own)
            &&& !raw_out ==> payloads(stream, service.sent) == lines_received(line_reads(reads))
        }),
{
    let service = Service::start(raw_out, platform).after_all(moves);
    let reads = service.reads(stream);
    lemma_events_sent(raw_out, platform, moves, stream);
    lemma_reader_events(stream, reads, raw_out);
    law_streams_do_not_mix(stream, service.sent);
    law_streams_do_not_mix(stream, read_events(stream, reads));
    if raw_out {
        law_raw_output_is_exact(stream, raw_reads(reads));
    } else {
        law_line_output_is_exact(stream, line_reads(reads));
    }
}

/// What a whole run amounts to, however the threads take turns: of each stream, what its reader
/// read, each piece followed by a newline; and, once the wait thread is done, the code with which
/// the child exited, or none if the wait failed.
pub proof fn law_output_of_service(raw_out: bool, platform: Platform, moves: Seq<Move>)
    requires
        Service::start(raw_out, platform).allows_all(moves),
    ensures
        ({
            let service = Service::start(raw_out, platform).after_all(moves);
            let output = run_output(service.sent);
            &&& output.stdout == newline_after_each(pieces(service.stdout_reads))
            &&& output.stderr == newline_after_each(pieces(service.stderr_reads))
            &&& output.code == service.exit_code()
        }),
{
    lemma_reads_sent(raw_out, platform, moves, OutputStream::Stdout);
    lemma_reads_sent(raw_out, platform, moves, OutputStream::Stderr);
    lemma_exit_code(raw_out, platform, moves);
}

/// A reader enters the guard, reads in its own mode until a read tells it to stop, leaves the guard
/// and is done. It is inside from the moment it has entered until it has left, and its mode never
/// changes.
pub proof fn law_reader_reads_inside(raw_out: bool, stop: bool, reader: ReaderThreadView)
    ensures
        reader_step(reader, stop).raw_out == reader.raw_out,
        ({
            let entering = ReaderThreadView { raw_out, pending: ReaderAction::Enter };
            let reading = reader_step(entering, stop);
            &&& !entering.pending.inside()
            &&& reading.pending.inside()
            &&& reading.pending == ReaderAction::ReadRaw <==> raw_out
            &&& reading.pending == ReaderAction::ReadLine <==> !raw_out
            &&& reader_step(reading, false) == reading
            &&& reader_step(reading, true).pending == ReaderAction::Leave
            &&& reader_step(reading, true).pending.inside()
            &&& reader_step(reader_step(reading, true), stop).pending == ReaderAction::Nothing
        }),
        !ReaderAction::Nothing.inside(),
        reader.pending == ReaderAction::Nothing ==> reader_step(reader, stop) == reader,
{
}

/// A wait thread sends what its wait found, once, and only after it has waited and then got into
/// the guard: each of the three changes nothing where another one is due.
pub proof fn law_wait_thread_in_turn(
    platform: Platform,
    waited: WaitedView,
    later: WaitedView,
    thread: WaitThreadView,
)
    ensures
        ({
            let waiting = WaitThreadView { platform, pending: WaitThreadAction::Wait, event: None };
            let knowing = wait_over(waiting, waited);
            let alone = guard_entered(knowing);
            let (done, sent) = end_sent(alone);
            &&& knowing.pending == WaitThreadAction::AwaitReaders
            &&& alone.pending == WaitThreadAction::Send
            &&& done.pending == WaitThreadAction::Nothing
            &&& sent == Some(end_event(waited, platform))
            &&& done.event is None
            &&& wait_over(knowing, later) == knowing
            &&& wait_over(alone, later) == alone
            &&& wait_over(done, later) == done
            &&& guard_entered(waiting) == waiting
            &&& guard_entered(alone) == alone
            &&& guard_entered(done) == done
            &&& end_sent(waiting) == (waiting, None::<EventView>)
            &&& end_sent(knowing) == (knowing, None::<EventView>)
            &&& end_sent(done) == (done, None::<EventView>)
        }),
        wait_over(thread, waited).platform == thread.platform,
        guard_entered(thread).platform == thread.platform,
        end_sent(thread).0.platform == thread.platform,
{
}

/// The contracts see of an optional event what it holds.
pub proof fn law_opt_event_view(event: CommandEvent)
    ensures
        opt_event_view(Some(event)) == Some(event@),
        opt_event_view(None) is None,
{
}

} // verus!
