//! The events of a running command, and what a whole run of them amounts to.
use crate::status::{ExitStatus, Output, OutputView, TerminatedPayload};
use vstd::prelude::*;

verus! {

/// The byte that ends each piece of collected output.
pub const NEWLINE_BYTE: u8 = 10;

/// An event sent to the command callback.
#[derive(Debug, Clone)]
#[non_exhaustive]
pub enum CommandEvent {
    /// If configured for raw output, all bytes written to stderr.
    /// Otherwise, bytes until a newline (\n) or carriage return (\r) is found.
    Stderr(Vec<u8>),
    /// If configured for raw output, all bytes written to stdout.
    /// Otherwise, bytes until a newline (\n) or carriage return (\r) is found.
    Stdout(Vec<u8>),
    /// An error happened waiting for the command to finish or converting the stdout/stderr bytes
    /// to a UTF-8 string.
    Error(String),
    /// Command process terminated.
    Terminated(TerminatedPayload),
}

/// A [`CommandEvent`] as the contracts speak of it.
pub enum EventView {
    /// Bytes from stderr.
    Stderr(Seq<u8>),
    /// Bytes from stdout.
    Stdout(Seq<u8>),
    /// The text of an error.
    Error(Seq<char>),
    /// The process is gone.
    Terminated(TerminatedPayload),
}

impl View for CommandEvent {
    type V = EventView;

    open spec fn view(&self) -> EventView {
        match self {
            CommandEvent::Stderr(bytes) => EventView::Stderr(bytes@),
            CommandEvent::Stdout(bytes) => EventView::Stdout(bytes@),
            CommandEvent::Error(text) => EventView::Error(text@),
            CommandEvent::Terminated(payload) => EventView::Terminated(*payload),
        }
    }
}

/// The views of a sequence of events, in order.
pub open spec fn event_views(events: Seq<CommandEvent>) -> Seq<EventView> {
    events.map_values(|event: CommandEvent| event@)
}

/// The two streams of a child that are read.
#[derive(Debug, Clone, Copy, PartialEq, Eq, Structural)]
pub enum OutputStream {
    /// The child's standard output.
    Stdout,
    /// The child's standard error.
    Stderr,
}

impl OutputStream {
    /// The event that carries `bytes` of this stream.
    pub open spec fn event_view(self, bytes: Seq<u8>) -> EventView {
        match self {
            OutputStream::Stdout => EventView::Stdout(bytes),
            OutputStream::Stderr => EventView::Stderr(bytes),
        }
    }

    /// The bytes of this stream that `event` carries: none if it is another kind of event.
    pub open spec fn payload(self, event: EventView) -> Seq<u8> {
        match (self, event) {
            (OutputStream::Stdout, EventView::Stdout(bytes)) => bytes,
            (OutputStream::Stderr, EventView::Stderr(bytes)) => bytes,
            _ => Seq::empty(),
        }
    }

    /// Whether `event` carries bytes of this stream.
    pub open spec fn carries(self, event: EventView) -> bool {
        match self {
            OutputStream::Stdout => event is Stdout,
            OutputStream::Stderr => event is Stderr,
        }
    }

    /// Wraps bytes of this stream in the event that carries them.
    pub fn event(self, bytes: Vec<u8>) -> (event: CommandEvent)
        ensures
            event@ == self.event_view(bytes@),
    {
        match self {
            OutputStream::Stdout => CommandEvent::Stdout(bytes),
            OutputStream::Stderr => CommandEvent::Stderr(bytes),
        }
    }
}

/// The bytes that the events carry of one stream, joined in order.
pub open spec fn payloads(stream: OutputStream, events: Seq<EventView>) -> Seq<u8>
    decreases events.len(),
{
    if events.len() == 0 {
        Seq::empty()
    } else {
        payloads(stream, events.drop_last()) + stream.payload(events.last())
    }
}

/// The exit code that a run of events reports: that of the last termination, if there was one.
pub open spec fn final_code(events: Seq<EventView>) -> Option<i32>
    decreases events.len(),
{
    if events.len() == 0 {
        None
    } else {
        match events.last() {
            EventView::Terminated(payload) => payload.code,
            _ => final_code(events.drop_last()),
        }
    }
}

/// What is collected of one stream: the bytes of each of its events, each followed by a newline.
pub open spec fn collected(stream: OutputStream, events: Seq<EventView>) -> Seq<u8>
    decreases events.len(),
{
    if events.len() == 0 {
        Seq::empty()
    } else {
        let before = collected(stream, events.drop_last());
        match (stream, events.last()) {
            (OutputStream::Stdout, EventView::Stdout(bytes)) => (before + bytes).push(NEWLINE_BYTE),
            (OutputStream::Stderr, EventView::Stderr(bytes)) => (before + bytes).push(NEWLINE_BYTE),
            _ => before,
        }
    }
}

/// What a run of events amounts to.
pub open spec fn run_output(events: Seq<EventView>) -> OutputView {
    OutputView {
        code: final_code(events),
        stdout: collected(OutputStream::Stdout, events),
        stderr: collected(OutputStream::Stderr, events),
    }
}

/// Cutting the last event off the first `i + 1` leaves the first `i`.
proof fn lemma_take_next(events: Seq<CommandEvent>, i: int)
    requires
        0 <= i < events.len(),
    ensures
        event_views(events).take(i + 1).drop_last() == event_views(events).take(i),
        event_views(events).take(i + 1).last() == events[i]@,
{
    assert(event_views(events).take(i + 1).drop_last() =~= event_views(events).take(i));
}

/// The exit status of a command, from all the events that it sent.
pub(crate) fn status_of_run(events: &Vec<CommandEvent>) -> (status: ExitStatus)
    ensures
        status@ == final_code(event_views(events@)),
{
    let mut code: Option<i32> = None;
    let mut i: usize = 0;
    while i < events.len()
        invariant
            i <= events.len(),
            code == final_code(event_views(events@).take(i as int)),
        decreases events.len() - i,
    {
        proof {
            lemma_take_next(events@, i as int);
        }
        if let CommandEvent::Terminated(payload) = &events[i] {
            code = payload.code;
        }
        i = i + 1;
    }
    assert(event_views(events@).take(i as int) =~= event_views(events@));
    ExitStatus::from_code(code)
}

/// The output of a command, from all the events that it sent.
pub(crate) fn output_of_run(events: &Vec<CommandEvent>) -> (output: Output)
    ensures
        output@ == run_output(event_views(events@)),
{
    let mut code: Option<i32> = None;
    let mut stdout: Vec<u8> = Vec::new();
    let mut stderr: Vec<u8> = Vec::new();
    let mut i: usize = 0;
    while i < events.len()
        invariant
            i <= events.len(),
            code == final_code(event_views(events@).take(i as int)),
            stdout@ == collected(OutputStream::Stdout, event_views(events@).take(i as int)),
            stderr@ == collected(OutputStream::Stderr, event_views(events@).take(i as int)),
        decreases events.len() - i,
    {
        proof {
            lemma_take_next(events@, i as int);
        }
        match &events[i] {
            CommandEvent::Terminated(payload) => {
                code = payload.code;
            },
            CommandEvent::Stdout(line) => {
                let ghost before = stdout@;
                stdout.extend_from_slice(line);
                assert(stdout@ =~= before + line@);
                stdout.push(NEWLINE_BYTE);
            },
            CommandEvent::Stderr(line) => {
                let ghost before = stderr@;
                stderr.extend_from_slice(line);
                assert(stderr@ =~= before + line@);
                stderr.push(NEWLINE_BYTE);
            },
            CommandEvent::Error(_) => {},
        }
        i = i + 1;
    }
    assert(event_views(events@).take(i as int) =~= event_views(events@));
    Output { status: ExitStatus::from_code(code), stdout, stderr }
}

/// A run has the same exit status whether or not its output is collected.
pub proof fn law_status_of_output(events: Seq<EventView>)
    ensures
        run_output(events).code == final_code(events),
{
}

/// The exit code of a run is that of its termination, whatever the process wrote before, and
/// whatever it still sends that is not another termination.
pub proof fn law_termination_gives_code(
    before: Seq<EventView>,
    payload: TerminatedPayload,
    after: Seq<EventView>,
)
    requires
        forall|i: int| 0 <= i < after.len() ==> !((#[trigger] after[i]) is Terminated),
    ensures
        final_code(before.push(EventView::Terminated(payload)) + after) == payload.code,
    decreases after.len(),
{
    let all = before.push(EventView::Terminated(payload)) + after;
    if after.len() == 0 {
        assert(all.last() == EventView::Terminated(payload));
    } else {
        law_termination_gives_code(before, payload, after.drop_last());
        assert(all.drop_last() =~= before.push(EventView::Terminated(payload)) + after.drop_last());
        assert(all.last() == after.last());
    }
}

/// A run that is never reported to have ended has no exit code.
pub proof fn law_no_termination_no_code(events: Seq<EventView>)
    requires
        forall|i: int| 0 <= i < events.len() ==> !((#[trigger] events[i]) is Terminated),
    ensures
        final_code(events) is None,
    decreases events.len(),
{
    if events.len() > 0 {
        law_no_termination_no_code(events.drop_last());
        assert(!(events.last() is Terminated));
    }
}

/// An error in a run changes neither its output nor its status.
pub proof fn law_errors_add_nothing(events: Seq<EventView>, text: Seq<char>)
    ensures
        run_output(events.push(EventView::Error(text))) == run_output(events),
{
    assert(events.push(EventView::Error(text)).drop_last() =~= events);
}

/// What is collected of a stream depends on the events of that stream alone: it does not matter
/// how those of the other stream fall between them.
pub proof fn law_streams_do_not_mix(stream: OutputStream, events: Seq<EventView>)
    ensures
        collected(stream, events) == collected(
            stream,
            events.filter(|event: EventView| stream.carries(event)),
        ),
        payloads(stream, events) == payloads(
            stream,
            events.filter(|event: EventView| stream.carries(event)),
        ),
    decreases events.len(),
{
    reveal(Seq::filter);
    let own = |event: EventView| stream.carries(event);
    if events.len() > 0 {
        let front = events.drop_last();
        law_streams_do_not_mix(stream, front);
        if own(events.last()) {
            assert(events.filter(own) =~= front.filter(own).push(events.last()));
            assert(events.filter(own).drop_last() =~= front.filter(own));
        } else {
            assert(events.filter(own) =~= front.filter(own));
            assert(payloads(stream, events) =~= payloads(stream, front));
        }
    }
}

/// An event carries bytes of the stream that they came from, all of them, and none of the other
/// stream. Errors and terminations carry none.
pub proof fn law_events_carry_their_stream(
    bytes: Seq<u8>,
    text: Seq<char>,
    payload: TerminatedPayload,
    stream: OutputStream,
)
    ensures
        OutputStream::Stdout.event_view(bytes) == EventView::Stdout(bytes),
        OutputStream::Stderr.event_view(bytes) == EventView::Stderr(bytes),
        stream.payload(stream.event_view(bytes)) == bytes,
        stream.carries(stream.event_view(bytes)),
        OutputStream::Stdout.payload(EventView::Stderr(bytes)).len() == 0,
        OutputStream::Stderr.payload(EventView::Stdout(bytes)).len() == 0,
        !OutputStream::Stdout.carries(EventView::Stderr(bytes)),
        !OutputStream::Stderr.carries(EventView::Stdout(bytes)),
        stream.payload(EventView::Error(text)).len() == 0,
        stream.payload(EventView::Terminated(payload)).len() == 0,
        !stream.carries(EventView::Error(text)),
        !stream.carries(EventView::Terminated(payload)),
{
}

/// The contracts see of an event what it holds.
pub proof fn law_event_views(events: Seq<CommandEvent>, i: int)
    requires
        0 <= i < events.len(),
    ensures
        event_views(events).len() == events.len(),
        match events[i] {
            CommandEvent::Stderr(bytes) => event_views(events)[i] == EventView::Stderr(bytes@),
            CommandEvent::Stdout(bytes) => event_views(events)[i] == EventView::Stdout(bytes@),
            CommandEvent::Error(text) => event_views(events)[i] == EventView::Error(text@),
            CommandEvent::Terminated(payload) => event_views(events)[i] == EventView::Terminated(
                payload,
            ),
        },
{
}

/// What is collected of two runs after each other is what is collected of the first, and then of
/// the second.
pub proof fn law_output_is_collected_in_order(
    stream: OutputStream,
    a: Seq<EventView>,
    b: Seq<EventView>,
)
    ensures
        collected(stream, a + b) == collected(stream, a) + collected(stream, b),
        payloads(stream, a + b) == payloads(stream, a) + payloads(stream, b),
    decreases b.len(),
{
    if b.len() == 0 {
        assert(a + b =~= a);
        assert(collected(stream, b) =~= Seq::empty());
        assert(payloads(stream, b) =~= Seq::empty());
        assert(collected(stream, a) + collected(stream, b) =~= collected(stream, a));
        assert(payloads(stream, a) + payloads(stream, b) =~= payloads(stream, a));
    } else {
        law_output_is_collected_in_order(stream, a, b.drop_last());
        assert((a + b).drop_last() =~= a + b.drop_last());
        assert((a + b).last() == b.last());
        assert(collected(stream, a + b) =~= collected(stream, a) + collected(stream, b));
        assert(payloads(stream, a + b) =~= payloads(stream, a) + payloads(stream, b));
    }
}

/// What one event adds to the output: bytes of a stream are added to that stream, with one newline
/// after them, and to nothing else.
pub proof fn law_output_of_one_event(
    events: Seq<EventView>,
    bytes: Seq<u8>,
    payload: TerminatedPayload,
)
    ensures
        ({
            let before = run_output(events);
            let out = run_output(events.push(EventView::Stdout(bytes)));
            let err = run_output(events.push(EventView::Stderr(bytes)));
            let end = run_output(events.push(EventView::Terminated(payload)));
            &&& out.stdout == before.stdout + bytes + seq![10u8]
            &&& out.stderr == before.stderr
            &&& out.code == before.code
            &&& err.stderr == before.stderr + bytes + seq![10u8]
            &&& err.stdout == before.stdout
            &&& err.code == before.code
            &&& end.stdout == before.stdout
            &&& end.stderr == before.stderr
            &&& end.code == payload.code
        }),
        run_output(Seq::empty()).stdout.len() == 0,
        run_output(Seq::empty()).stderr.len() == 0,
        run_output(Seq::empty()).code is None,
{
    let before = run_output(events);
    assert(events.push(EventView::Stdout(bytes)).drop_last() =~= events);
    assert(events.push(EventView::Stderr(bytes)).drop_last() =~= events);
    assert(events.push(EventView::Terminated(payload)).drop_last() =~= events);
    assert((before.stdout + bytes).push(10u8) =~= before.stdout + bytes + seq![10u8]);
    assert((before.stderr + bytes).push(10u8) =~= before.stderr + bytes + seq![10u8]);
}

} // verus!
