//! What the readers of a child's output do with each read: which event they send, and when they
//! stop.
#[allow(unused_imports)]
use crate::event::{
    collected, event_views, law_streams_do_not_mix, payloads, run_output, CommandEvent, EventView,
    OutputStream, NEWLINE_BYTE,
};
use vstd::prelude::*;

verus! {

/// The byte of a carriage return.
pub const CARRIAGE_RETURN_BYTE: u8 = 13;

/// What a reader does after a read.
#[derive(Debug)]
pub struct ReadStep {
    /// The event to send, if any.
    pub event: Option<CommandEvent>,
    /// How many of the bytes at hand are used up.
    pub consumed: usize,
    /// Whether the reader is done.
    pub stop: bool,
}

/// A [`ReadStep`] as the contracts speak of it.
pub struct ReadStepView {
    /// The event to send, if any.
    pub event: Option<EventView>,
    /// How many of the bytes at hand are used up.
    pub consumed: nat,
    /// Whether the reader is done.
    pub stop: bool,
}

impl View for ReadStep {
    type V = ReadStepView;

    open spec fn view(&self) -> ReadStepView {
        ReadStepView {
            event: match self.event {
                Some(event) => Some(event@),
                None => None,
            },
            consumed: self.consumed as nat,
            stop: self.stop,
        }
    }
}

/// What a read of a child's output brings: bytes, or the text of an error.
pub type ReadView = Result<Seq<u8>, Seq<char>>;

/// The step of a raw reader: bytes are passed on as they come, no bytes are the end, and an error
/// is reported and the reading goes on.
pub open spec fn raw_step(stream: OutputStream, read: ReadView) -> ReadStepView {
    match read {
        Ok(bytes) => if bytes.len() == 0 {
            ReadStepView { event: None, consumed: 0, stop: true }
        } else {
            ReadStepView {
                event: Some(stream.event_view(bytes)),
                consumed: bytes.len(),
                stop: false,
            }
        },
        Err(text) => ReadStepView { event: Some(EventView::Error(text)), consumed: 0, stop: false },
    }
}

/// The step of a line reader after a line of `count` bytes: the line is passed on, a line of no
/// bytes is the end, and an error is reported and ends the reading too.
pub open spec fn line_step(
    stream: OutputStream,
    read: Result<(nat, Seq<u8>), Seq<char>>,
) -> ReadStepView {
    match read {
        Ok((count, line)) => if count == 0 {
            ReadStepView { event: None, consumed: 0, stop: true }
        } else {
            ReadStepView { event: Some(stream.event_view(line)), consumed: 0, stop: false }
        },
        Err(text) => ReadStepView { event: Some(EventView::Error(text)), consumed: 0, stop: true },
    }
}

/// What a raw reader of `stream` does with the bytes that are buffered, or with the error that it
/// got instead.
pub fn read_raw_bytes(stream: OutputStream, read: Result<&[u8], String>) -> (step: ReadStep)
    ensures
        step@ == raw_step(
            stream,
            match read {
                Ok(bytes) => Ok(bytes@),
                Err(text) => Err(text@),
            },
        ),
{
    match read {
        Ok(bytes) => {
            let length = bytes.len();
            if length == 0 {
                ReadStep { event: None, consumed: 0, stop: true }
            } else {
                let event = stream.event(vstd::slice::slice_to_vec(bytes));
                ReadStep { event: Some(event), consumed: length, stop: false }
            }
        },
        Err(text) => ReadStep {
            event: Some(CommandEvent::Error(text)),
            consumed: 0,
            stop: false,
        },
    }
}

/// What a line reader of `stream` does with the line that it read and its length, or with the
/// error that it got instead. The reading of the line has used its bytes up.
pub fn read_line(stream: OutputStream, read: Result<(usize, Vec<u8>), String>) -> (step: ReadStep)
    ensures
        step@ == line_step(
            stream,
            match read {
                Ok((count, line)) => Ok((count as nat, line@)),
                Err(text) => Err(text@),
            },
        ),
{
    match read {
        Ok((count, line)) => {
            if count == 0 {
                ReadStep { event: None, consumed: 0, stop: true }
            } else {
                ReadStep { event: Some(stream.event(line)), consumed: 0, stop: false }
            }
        },
        Err(text) => ReadStep {
            event: Some(CommandEvent::Error(text)),
            consumed: 0,
            stop: true,
        },
    }
}

/// The position of the first `byte` in `s`, or the length of `s` if there is none.
pub open spec fn first_of(s: Seq<u8>, byte: u8) -> int
    decreases s.len(),
{
    if s.len() == 0 || s[0] == byte {
        0
    } else {
        1 + first_of(s.skip(1), byte)
    }
}

/// Where the first line of `s` ends: after the first newline; where there is none, after the first
/// carriage return; where there is none either, at the end of `s`.
pub open spec fn line_end(s: Seq<u8>) -> int {
    if first_of(s, NEWLINE_BYTE) < s.len() {
        first_of(s, NEWLINE_BYTE) + 1
    } else if first_of(s, CARRIAGE_RETURN_BYTE) < s.len() {
        first_of(s, CARRIAGE_RETURN_BYTE) + 1
    } else {
        s.len() as int
    }
}

/// The lines of `s`, each with the byte that ends it.
pub open spec fn lines(s: Seq<u8>) -> Seq<Seq<u8>>
    decreases s.len(),
{
    let n = line_end(s);
    if 0 < n <= s.len() {
        seq![s.take(n)] + lines(s.skip(n))
    } else {
        Seq::empty()
    }
}

/// The events of a stream that is read line by line.
pub open spec fn line_events(stream: OutputStream, s: Seq<u8>) -> Seq<EventView> {
    lines(s).map_values(|line: Seq<u8>| stream.event_view(line))
}

/// `tauri_utils::io::read_line`, with the bytes of `input` as its reader: it appends the first
/// line of `input` to `buf`, with the byte that ends the line, and returns the number of bytes
/// that it appended. It looks for a carriage return only where no newline is buffered, and all of
/// a byte slice is buffered at once. It fails only where its reader does, which a byte slice never
/// does.
#[verifier::external_body]
fn take_line(input: &[u8], buf: &mut Vec<u8>) -> (count: Option<usize>)
    ensures
        count == Some(line_end(input@) as usize),
        final(buf)@ == old(buf)@ + input@.take(line_end(input@)),
{
    let mut reader = input;
    tauri_utils::io::read_line(&mut reader, buf).ok()
}

proof fn lemma_first_of(s: Seq<u8>, byte: u8)
    ensures
        0 <= first_of(s, byte) <= s.len(),
        first_of(s, byte) < s.len() ==> s[first_of(s, byte)] == byte,
        forall|i: int| 0 <= i < first_of(s, byte) ==> s[i] != byte,
    decreases s.len(),
{
    if s.len() > 0 && s[0] != byte {
        let rest = s.skip(1);
        lemma_first_of(rest, byte);
        assert forall|i: int| 0 <= i < first_of(s, byte) implies s[i] != byte by {
            if i > 0 {
                assert(s[i] == rest[i - 1]);
            }
        }
    }
}

proof fn lemma_line_end(s: Seq<u8>)
    ensures
        0 <= line_end(s) <= s.len(),
        s.len() > 0 ==> line_end(s) > 0,
{
    lemma_first_of(s, NEWLINE_BYTE);
    lemma_first_of(s, CARRIAGE_RETURN_BYTE);
}

/// The events of a stream whose bytes are all at hand: one for each line, to the end.
pub fn split_lines(stream: OutputStream, bytes: &[u8]) -> (events: Vec<CommandEvent>)
    ensures
        event_views(events@) == line_events(stream, bytes@),
{
    let mut events: Vec<CommandEvent> = Vec::new();
    let mut pos: usize = 0;
    assert(bytes@.skip(0) =~= bytes@);
    assert(event_views(events@) + line_events(stream, bytes@) =~= line_events(stream, bytes@));
    loop
        invariant
            pos <= bytes@.len(),
            event_views(events@) + line_events(stream, bytes@.skip(pos as int)) == line_events(
                stream,
                bytes@,
            ),
        decreases bytes@.len() - pos,
    {
        let rest = vstd::slice::slice_subrange(bytes, pos, bytes.len());
        let mut line: Vec<u8> = Vec::new();
        let ghost s = bytes@.skip(pos as int);
        assert(rest@ =~= s);
        proof {
            lemma_line_end(s);
        }
        let count: usize = match take_line(rest, &mut line) {
            Some(count) => count,
            None => 0,
        };
        assert(line@ =~= s.take(count as int));
        let step = read_line(stream, Ok((count, line)));
        let ghost before = event_views(events@);
        if let Some(event) = step.event {
            events.push(event);
            assert(event_views(events@) =~= before.push(event@));
        }
        if step.stop {
            assert(line_events(stream, s) =~= Seq::empty());
            assert(before + line_events(stream, s) =~= before);
            return events;
        }
        proof {
            let after = bytes@.skip(pos + count);
            assert(s.skip(count as int) =~= after);
            assert(line_events(stream, s) =~= seq![stream.event_view(s.take(count as int))]
                + line_events(stream, after));
            assert(event_views(events@) + line_events(stream, after) =~= before + line_events(
                stream,
                s,
            ));
        }
        pos = pos + count;
    }
}

/// The payloads of a run of events are those of its first event and then those of the rest.
proof fn lemma_payloads_split(stream: OutputStream, first: EventView, rest: Seq<EventView>)
    ensures
        payloads(stream, seq![first] + rest) == stream.payload(first) + payloads(stream, rest),
    decreases rest.len(),
{
    let all = seq![first] + rest;
    if rest.len() == 0 {
        assert(all.last() == first);
        assert(payloads(stream, all.drop_last()) =~= Seq::empty());
        assert(payloads(stream, all) =~= stream.payload(first) + payloads(stream, rest));
    } else {
        lemma_payloads_split(stream, first, rest.drop_last());
        assert(all.drop_last() =~= seq![first] + rest.drop_last());
        assert(payloads(stream, all) =~= stream.payload(first) + payloads(stream, rest));
    }
}

/// Cutting a stream into lines loses no byte and adds none: the lines joined are the stream.
pub proof fn law_lines_keep_every_byte(stream: OutputStream, s: Seq<u8>)
    ensures
        payloads(stream, line_events(stream, s)) == s,
    decreases s.len(),
{
    let n = line_end(s);
    lemma_line_end(s);
    if s.len() > 0 {
        law_lines_keep_every_byte(stream, s.skip(n));
        let first = stream.event_view(s.take(n));
        let rest = line_events(stream, s.skip(n));
        assert(line_events(stream, s) =~= seq![first] + rest);
        lemma_payloads_split(stream, first, rest);
        assert(s.take(n) + s.skip(n) =~= s);
    } else {
        assert(line_events(stream, s) =~= Seq::empty());
        assert(payloads(stream, line_events(stream, s)) =~= s);
    }
}

/// No line is empty, a newline stands only at the end of a line, and every line but the last ends
/// in a newline or a carriage return.
pub proof fn law_lines_are_whole(s: Seq<u8>)
    ensures
        forall|i: int, j: int|
            0 <= i < lines(s).len() && 0 <= j < lines(s)[i].len() - 1 ==> #[trigger] lines(s)[i][j]
                != NEWLINE_BYTE,
        forall|i: int| 0 <= i < lines(s).len() ==> (#[trigger] lines(s)[i]).len() > 0,
        forall|i: int|
            0 <= i < lines(s).len() - 1 ==> (#[trigger] lines(s)[i]).last() == NEWLINE_BYTE || lines(
                s,
            )[i].last() == CARRIAGE_RETURN_BYTE,
    decreases s.len(),
{
    let n = line_end(s);
    lemma_line_end(s);
    lemma_first_of(s, NEWLINE_BYTE);
    lemma_first_of(s, CARRIAGE_RETURN_BYTE);
    if s.len() > 0 {
        let rest = lines(s.skip(n));
        law_lines_are_whole(s.skip(n));
        assert(lines(s) == seq![s.take(n)] + rest);
        assert(lines(s)[0] == s.take(n));
        assert forall|i: int, j: int|
            0 <= i < lines(s).len() && 0 <= j < lines(s)[i].len() - 1 implies #[trigger] lines(
            s,
        )[i][j] != NEWLINE_BYTE by {
            if i > 0 {
                assert(lines(s)[i] == rest[i - 1]);
                assert(rest[i - 1][j] != NEWLINE_BYTE);
            }
        }
        assert forall|i: int| 0 <= i < lines(s).len() implies (#[trigger] lines(s)[i]).len() > 0 by {
            if i > 0 {
                assert(lines(s)[i] == rest[i - 1]);
            }
        }
        assert forall|i: int| 0 <= i < lines(s).len() - 1 implies (#[trigger] lines(s)[i]).last()
            == NEWLINE_BYTE || lines(s)[i].last() == CARRIAGE_RETURN_BYTE by {
            if i > 0 {
                assert(lines(s)[i] == rest[i - 1]);
            } else if n == s.len() {
                assert(s.skip(n) =~= Seq::empty());
            }
        }
    }
}

/// Bytes with no newline and no carriage return before their last byte are one line.
pub proof fn law_one_line(s: Seq<u8>)
    requires
        s.len() > 0,
        !s.drop_last().contains(NEWLINE_BYTE),
        !s.drop_last().contains(CARRIAGE_RETURN_BYTE),
    ensures
        lines(s) == seq![s],
{
    lemma_line_end(s);
    lemma_first_of(s, NEWLINE_BYTE);
    lemma_first_of(s, CARRIAGE_RETURN_BYTE);
    let n = line_end(s);
    if n < s.len() {
        assert(s.drop_last()[n - 1] == s[n - 1]);
        assert(s.drop_last().contains(s[n - 1]));
    }
    assert(s.take(n) =~= s);
    assert(s.skip(n) =~= Seq::empty());
    assert(lines(s.skip(n)) =~= Seq::empty());
    assert(lines(s) =~= seq![s]);
}

/// The events that a raw reader sends for a run of reads, up to the one that ends the stream.
pub open spec fn raw_events(stream: OutputStream, reads: Seq<ReadView>) -> Seq<EventView>
    decreases reads.len(),
{
    if reads.len() == 0 {
        Seq::empty()
    } else {
        let step = raw_step(stream, reads[0]);
        let sent = match step.event {
            Some(event) => seq![event],
            None => Seq::empty(),
        };
        if step.stop {
            sent
        } else {
            sent + raw_events(stream, reads.skip(1))
        }
    }
}

/// The bytes that a run of reads brings, up to the one that ends the stream.
pub open spec fn received(reads: Seq<ReadView>) -> Seq<u8>
    decreases reads.len(),
{
    if reads.len() == 0 {
        Seq::empty()
    } else {
        match reads[0] {
            Ok(bytes) => if bytes.len() == 0 {
                Seq::empty()
            } else {
                bytes + received(reads.skip(1))
            },
            Err(_) => received(reads.skip(1)),
        }
    }
}

/// A raw reader passes the bytes of the child on exactly as received.
pub proof fn law_raw_output_is_exact(stream: OutputStream, reads: Seq<ReadView>)
    ensures
        payloads(stream, raw_events(stream, reads)) == received(reads),
    decreases reads.len(),
{
    if reads.len() > 0 {
        let rest = reads.skip(1);
        law_raw_output_is_exact(stream, rest);
        match raw_step(stream, reads[0]).event {
            Some(event) => {
                lemma_payloads_split(stream, event, raw_events(stream, rest));
                assert(payloads(stream, raw_events(stream, reads)) =~= received(reads));
            },
            None => {},
        }
    }
}

/// What the reading of a line brings: its length and its bytes, or the text of an error.
pub type LineReadView = Result<(nat, Seq<u8>), Seq<char>>;

/// The events that a line reader sends for a run of lines, up to the one that ends the reading.
pub open spec fn line_reader_events(stream: OutputStream, reads: Seq<LineReadView>) -> Seq<EventView>
    decreases reads.len(),
{
    if reads.len() == 0 {
        Seq::empty()
    } else {
        let step = line_step(stream, reads[0]);
        let sent = match step.event {
            Some(event) => seq![event],
            None => Seq::empty(),
        };
        if step.stop {
            sent
        } else {
            sent + line_reader_events(stream, reads.skip(1))
        }
    }
}

/// The bytes that a run of lines brings, up to the end of the stream or the first error.
pub open spec fn lines_received(reads: Seq<LineReadView>) -> Seq<u8>
    decreases reads.len(),
{
    if reads.len() == 0 {
        Seq::empty()
    } else {
        match reads[0] {
            Ok((count, line)) => if count == 0 {
                Seq::empty()
            } else {
                line + lines_received(reads.skip(1))
            },
            Err(_) => Seq::empty(),
        }
    }
}

/// A line reader passes on every line as it was read, however the stream was cut into lines.
pub proof fn law_line_output_is_exact(stream: OutputStream, reads: Seq<LineReadView>)
    ensures
        payloads(stream, line_reader_events(stream, reads)) == lines_received(reads),
    decreases reads.len(),
{
    if reads.len() > 0 {
        let rest = reads.skip(1);
        law_line_output_is_exact(stream, rest);
        match line_step(stream, reads[0]).event {
            Some(event) => {
                if line_step(stream, reads[0]).stop {
                    let none = Seq::<EventView>::empty();
                    lemma_payloads_split(stream, event, none);
                    assert(seq![event] + none =~= seq![event]);
                } else {
                    lemma_payloads_split(stream, event, line_reader_events(stream, rest));
                }
                assert(payloads(stream, line_reader_events(stream, reads)) =~= lines_received(
                    reads,
                ));
            },
            None => {},
        }
    }
}

/// Pieces put together, each followed by a newline.
pub open spec fn newline_after_each(pieces: Seq<Seq<u8>>) -> Seq<u8>
    decreases pieces.len(),
{
    if pieces.len() == 0 {
        Seq::empty()
    } else {
        (newline_after_each(pieces.drop_last()) + pieces.last()).push(NEWLINE_BYTE)
    }
}

proof fn lemma_collected_pieces(stream: OutputStream, pieces: Seq<Seq<u8>>)
    ensures
        collected(stream, pieces.map_values(|line: Seq<u8>| stream.event_view(line)))
            == newline_after_each(pieces),
    decreases pieces.len(),
{
    let events = pieces.map_values(|line: Seq<u8>| stream.event_view(line));
    if pieces.len() > 0 {
        lemma_collected_pieces(stream, pieces.drop_last());
        assert(events.drop_last() =~= pieces.drop_last().map_values(
            |line: Seq<u8>| stream.event_view(line),
        ));
    }
}

proof fn lemma_newlines_length(pieces: Seq<Seq<u8>>, stream: OutputStream)
    ensures
        newline_after_each(pieces).len() == payloads(
            stream,
            pieces.map_values(|line: Seq<u8>| stream.event_view(line)),
        ).len() + pieces.len(),
    decreases pieces.len(),
{
    let events = pieces.map_values(|line: Seq<u8>| stream.event_view(line));
    if pieces.len() > 0 {
        lemma_newlines_length(pieces.drop_last(), stream);
        assert(events.drop_last() =~= pieces.drop_last().map_values(
            |line: Seq<u8>| stream.event_view(line),
        ));
    }
}

/// What is collected of a stream that is read line by line: its lines, each followed by a newline
/// after the one that it may end in. It is longer than the stream by one byte for each line.
pub proof fn law_collected_lines(stream: OutputStream, s: Seq<u8>)
    ensures
        collected(stream, line_events(stream, s)) == newline_after_each(lines(s)),
        newline_after_each(lines(s)).len() == s.len() + lines(s).len(),
{
    lemma_collected_pieces(stream, lines(s));
    lemma_newlines_length(lines(s), stream);
    law_lines_keep_every_byte(stream, s);
}

/// The output of a child that wrote `out` and `err`, each buffered whole and then read line by
/// line: the lines of each, each followed by a newline, in whatever order the events of the two
/// streams came in.
pub proof fn law_output_of_child(events: Seq<EventView>, out: Seq<u8>, err: Seq<u8>)
    requires
        events.filter(|event: EventView| OutputStream::Stdout.carries(event)) == line_events(
            OutputStream::Stdout,
            out,
        ),
        events.filter(|event: EventView| OutputStream::Stderr.carries(event)) == line_events(
            OutputStream::Stderr,
            err,
        ),
    ensures
        run_output(events).stdout == newline_after_each(lines(out)),
        run_output(events).stderr == newline_after_each(lines(err)),
{
    law_streams_do_not_mix(OutputStream::Stdout, events);
    law_streams_do_not_mix(OutputStream::Stderr, events);
    lemma_collected_pieces(OutputStream::Stdout, lines(out));
    lemma_collected_pieces(OutputStream::Stderr, lines(err));
}

/// The lines that a run of reads brings, up to the end of the stream or the first error.
pub open spec fn lines_read(reads: Seq<LineReadView>) -> Seq<Seq<u8>>
    decreases reads.len(),
{
    if reads.len() == 0 {
        Seq::empty()
    } else {
        match reads[0] {
            Ok((count, line)) => if count == 0 {
                Seq::empty()
            } else {
                seq![line] + lines_read(reads.skip(1))
            },
            Err(_) => Seq::empty(),
        }
    }
}

/// The pieces that a run of raw reads brings, up to the one that ends the stream.
pub open spec fn pieces_read(reads: Seq<ReadView>) -> Seq<Seq<u8>>
    decreases reads.len(),
{
    if reads.len() == 0 {
        Seq::empty()
    } else {
        match reads[0] {
            Ok(bytes) => if bytes.len() == 0 {
                Seq::empty()
            } else {
                seq![bytes] + pieces_read(reads.skip(1))
            },
            Err(_) => pieces_read(reads.skip(1)),
        }
    }
}

/// What is collected of a run of events is what is collected of its first event and then what is
/// collected of the rest.
proof fn lemma_collected_split(stream: OutputStream, first: EventView, rest: Seq<EventView>)
    ensures
        collected(stream, seq![first] + rest) == collected(stream, seq![first]) + collected(
            stream,
            rest,
        ),
    decreases rest.len(),
{
    let all = seq![first] + rest;
    if rest.len() == 0 {
        assert(all =~= seq![first]);
        assert(collected(stream, all) =~= collected(stream, seq![first]) + collected(stream, rest));
    } else {
        lemma_collected_split(stream, first, rest.drop_last());
        assert(all.drop_last() =~= seq![first] + rest.drop_last());
        assert(all.last() == rest.last());
        assert(collected(stream, all) =~= collected(stream, seq![first]) + collected(stream, rest));
    }
}

proof fn lemma_newlines_split(first: Seq<u8>, rest: Seq<Seq<u8>>)
    ensures
        newline_after_each(seq![first] + rest) == first.push(NEWLINE_BYTE) + newline_after_each(
            rest,
        ),
    decreases rest.len(),
{
    let all = seq![first] + rest;
    if rest.len() == 0 {
        assert(all.drop_last() =~= Seq::empty());
        assert(newline_after_each(all.drop_last()) =~= Seq::empty());
        assert(newline_after_each(all) =~= first.push(NEWLINE_BYTE) + newline_after_each(rest));
    } else {
        lemma_newlines_split(first, rest.drop_last());
        assert(all.drop_last() =~= seq![first] + rest.drop_last());
        assert(all.last() == rest.last());
        assert(newline_after_each(all) =~= first.push(NEWLINE_BYTE) + newline_after_each(rest));
    }
}

/// What is collected of one event.
proof fn lemma_collected_one(stream: OutputStream, event: EventView)
    ensures
        event == stream.event_view(stream.payload(event)) ==> collected(stream, seq![event])
            == stream.payload(event).push(NEWLINE_BYTE),
        !stream.carries(event) ==> collected(stream, seq![event]) == Seq::<u8>::empty(),
{
    let none = Seq::<EventView>::empty();
    assert(seq![event].drop_last() =~= none);
    assert(collected(stream, none) =~= Seq::empty());
    assert(Seq::<u8>::empty() + stream.payload(event) =~= stream.payload(event));
}

proof fn lemma_collected_line_reads(stream: OutputStream, reads: Seq<LineReadView>)
    ensures
        collected(stream, line_reader_events(stream, reads)) == newline_after_each(
            lines_read(reads),
        ),
    decreases reads.len(),
{
    if reads.len() > 0 {
        let rest = reads.skip(1);
        lemma_collected_line_reads(stream, rest);
        if let Some(event) = line_step(stream, reads[0]).event {
            lemma_collected_one(stream, event);
            if !line_step(stream, reads[0]).stop {
                lemma_collected_split(stream, event, line_reader_events(stream, rest));
                lemma_newlines_split(stream.payload(event), lines_read(rest));
            }
        }
    }
}

proof fn lemma_collected_raw_reads(stream: OutputStream, reads: Seq<ReadView>)
    ensures
        collected(stream, raw_events(stream, reads)) == newline_after_each(pieces_read(reads)),
    decreases reads.len(),
{
    if reads.len() > 0 {
        let rest = reads.skip(1);
        lemma_collected_raw_reads(stream, rest);
        if let Some(event) = raw_step(stream, reads[0]).event {
            lemma_collected_one(stream, event);
            lemma_collected_split(stream, event, raw_events(stream, rest));
            if stream.carries(event) {
                lemma_newlines_split(stream.payload(event), pieces_read(rest));
            }
            assert(collected(stream, raw_events(stream, reads)) =~= newline_after_each(
                pieces_read(reads),
            ));
        }
    }
}

/// The output of a child, however its streams were cut into lines as they were read: the lines of
/// each, each followed by a newline, in whatever order the events of the two streams came in.
pub proof fn law_output_of_line_reads(
    events: Seq<EventView>,
    out: Seq<LineReadView>,
    err: Seq<LineReadView>,
)
    requires
        events.filter(|event: EventView| OutputStream::Stdout.carries(event)) == line_reader_events(
            OutputStream::Stdout,
            out,
        ).filter(|event: EventView| OutputStream::Stdout.carries(event)),
        events.filter(|event: EventView| OutputStream::Stderr.carries(event)) == line_reader_events(
            OutputStream::Stderr,
            err,
        ).filter(|event: EventView| OutputStream::Stderr.carries(event)),
    ensures
        run_output(events).stdout == newline_after_each(lines_read(out)),
        run_output(events).stderr == newline_after_each(lines_read(err)),
        payloads(OutputStream::Stdout, events) == lines_received(out),
        payloads(OutputStream::Stderr, events) == lines_received(err),
{
    law_streams_do_not_mix(OutputStream::Stdout, events);
    law_streams_do_not_mix(OutputStream::Stderr, events);
    law_streams_do_not_mix(OutputStream::Stdout, line_reader_events(OutputStream::Stdout, out));
    law_streams_do_not_mix(OutputStream::Stderr, line_reader_events(OutputStream::Stderr, err));
    lemma_collected_line_reads(OutputStream::Stdout, out);
    lemma_collected_line_reads(OutputStream::Stderr, err);
    law_line_output_is_exact(OutputStream::Stdout, out);
    law_line_output_is_exact(OutputStream::Stderr, err);
}

/// The output of a child whose streams are passed on as received: the pieces of each as they were
/// read, each followed by a newline, in whatever order the events of the two streams came in.
pub proof fn law_output_of_raw_reads(
    events: Seq<EventView>,
    out: Seq<ReadView>,
    err: Seq<ReadView>,
)
    requires
        events.filter(|event: EventView| OutputStream::Stdout.carries(event)) == raw_events(
            OutputStream::Stdout,
            out,
        ).filter(|event: EventView| OutputStream::Stdout.carries(event)),
        events.filter(|event: EventView| OutputStream::Stderr.carries(event)) == raw_events(
            OutputStream::Stderr,
            err,
        ).filter(|event: EventView| OutputStream::Stderr.carries(event)),
    ensures
        run_output(events).stdout == newline_after_each(pieces_read(out)),
        run_output(events).stderr == newline_after_each(pieces_read(err)),
        payloads(OutputStream::Stdout, events) == received(out),
        payloads(OutputStream::Stderr, events) == received(err),
{
    law_streams_do_not_mix(OutputStream::Stdout, events);
    law_streams_do_not_mix(OutputStream::Stderr, events);
    law_streams_do_not_mix(OutputStream::Stdout, raw_events(OutputStream::Stdout, out));
    law_streams_do_not_mix(OutputStream::Stderr, raw_events(OutputStream::Stderr, err));
    lemma_collected_raw_reads(OutputStream::Stdout, out);
    lemma_collected_raw_reads(OutputStream::Stderr, err);
    law_raw_output_is_exact(OutputStream::Stdout, out);
    law_raw_output_is_exact(OutputStream::Stderr, err);
}

/// A raw read sends what is buffered, all of it, and uses up exactly what it sends. It ends the
/// reading only where nothing is buffered, and then it sends nothing. An error is sent as it is,
/// uses nothing up, and the reading goes on.
pub proof fn law_raw_read_uses_up_what_it_sends(
    stream: OutputStream,
    bytes: Seq<u8>,
    text: Seq<char>,
)
    ensures
        ({
            let step = raw_step(stream, Ok(bytes));
            let failed = raw_step(stream, Err(text));
            &&& step.stop <==> bytes.len() == 0
            &&& step.event is None <==> bytes.len() == 0
            &&& step.consumed == bytes.len()
            &&& step.event matches Some(event) ==> stream.carries(event) && stream.payload(event)
                == bytes && step.consumed == stream.payload(event).len()
            &&& failed.event == Some(EventView::Error(text))
            &&& failed.consumed == 0
            &&& !failed.stop
        }),
{
}

/// A line that was read is sent, all of it, and the reading goes on; a line of no bytes ends it, and
/// nothing is sent. An error is sent as it is, and ends the reading too.
pub proof fn law_line_read_sends_the_line(
    stream: OutputStream,
    count: nat,
    line: Seq<u8>,
    text: Seq<char>,
)
    ensures
        ({
            let step = line_step(stream, Ok((count, line)));
            let failed = line_step(stream, Err(text));
            &&& step.stop <==> count == 0
            &&& step.event is None <==> count == 0
            &&& step.consumed == 0
            &&& step.event matches Some(event) ==> stream.carries(event) && stream.payload(event)
                == line
            &&& failed.event == Some(EventView::Error(text))
            &&& failed.consumed == 0
            &&& failed.stop
        }),
{
}

/// What a raw reader sends of the bytes `s` of a child, and what is left of them: `sizes` tells how
/// much is buffered at each read, from what the reads before have not used up.
pub open spec fn raw_buffered(stream: OutputStream, s: Seq<u8>, sizes: Seq<nat>) -> (
    Seq<EventView>,
    Seq<u8>,
)
    decreases sizes.len(),
{
    if sizes.len() == 0 {
        (Seq::empty(), s)
    } else {
        let size = if sizes[0] < s.len() {
            sizes[0]
        } else {
            s.len()
        };
        let step = raw_step(stream, Ok(s.take(size as int)));
        let left = s.skip(step.consumed as int);
        let sent = match step.event {
            Some(event) => seq![event],
            None => Seq::empty(),
        };
        if step.stop {
            (sent, left)
        } else {
            let (more, rest) = raw_buffered(stream, left, sizes.skip(1));
            (sent + more, rest)
        }
    }
}

/// However the bytes of a child are buffered, a raw reader sends each of them once and in order:
/// what it has sent and what is left are the bytes of the child.
pub proof fn law_raw_bytes_are_sent_once(stream: OutputStream, s: Seq<u8>, sizes: Seq<nat>)
    ensures
        payloads(stream, raw_buffered(stream, s, sizes).0) + raw_buffered(stream, s, sizes).1 == s,
    decreases sizes.len(),
{
    let (events, rest) = raw_buffered(stream, s, sizes);
    if sizes.len() == 0 {
        assert(payloads(stream, events) + rest =~= s);
    } else {
        let size = if sizes[0] < s.len() {
            sizes[0]
        } else {
            s.len()
        };
        let step = raw_step(stream, Ok(s.take(size as int)));
        let left = s.skip(step.consumed as int);
        assert(s.take(size as int) + left =~= s);
        if let Some(event) = step.event {
            let (more, _) = raw_buffered(stream, left, sizes.skip(1));
            law_raw_bytes_are_sent_once(stream, left, sizes.skip(1));
            lemma_payloads_split(stream, event, more);
            assert(payloads(stream, events) + rest =~= s.take(size as int) + (payloads(stream, more)
                + rest));
        } else {
            assert(payloads(stream, events) + rest =~= s);
        }
    }
}

/// Where the first line of some bytes ends: after the first newline, if there is one; after the
/// first carriage return, if there is one and no newline; and otherwise only with the bytes.
pub proof fn law_where_a_line_ends(s: Seq<u8>)
    requires
        s.len() > 0,
    ensures
        ({
            let n = line_end(s);
            &&& 0 < n <= s.len()
            &&& forall|i: int| 0 <= i < n - 1 ==> s[i] != 10u8
            &&& s.contains(10u8) ==> s[n - 1] == 10u8
            &&& !s.contains(10u8) && s.contains(13u8) ==> s[n - 1] == 13u8 && forall|i: int|
                0 <= i < n - 1 ==> s[i] != 13u8
            &&& !s.contains(10u8) && !s.contains(13u8) ==> n == s.len()
        }),
        line_end(Seq::empty()) == 0,
{
    lemma_first_of(s, NEWLINE_BYTE);
    lemma_first_of(s, CARRIAGE_RETURN_BYTE);
    lemma_first_of(Seq::empty(), NEWLINE_BYTE);
    lemma_first_of(Seq::empty(), CARRIAGE_RETURN_BYTE);
    if s.contains(10u8) {
        let i = choose|i: int| 0 <= i < s.len() && s[i] == 10u8;
        assert(first_of(s, NEWLINE_BYTE) <= i);
    } else if first_of(s, NEWLINE_BYTE) < s.len() {
        assert(s.contains(s[first_of(s, NEWLINE_BYTE)]));
    }
    if s.contains(13u8) {
        let i = choose|i: int| 0 <= i < s.len() && s[i] == 13u8;
        assert(first_of(s, CARRIAGE_RETURN_BYTE) <= i);
    } else if first_of(s, CARRIAGE_RETURN_BYTE) < s.len() {
        assert(s.contains(s[first_of(s, CARRIAGE_RETURN_BYTE)]));
    }
}

/// The first line of some bytes is what stands before the end of a line, and the others are the
/// lines of what stands behind it. Each is sent as an event of its stream.
pub proof fn law_lines_one_by_one(stream: OutputStream, s: Seq<u8>, i: int)
    requires
        s.len() > 0,
        0 <= i < lines(s).len(),
    ensures
        lines(s)[0] == s.take(line_end(s)),
        lines(s).skip(1) == lines(s.skip(line_end(s))),
        lines(Seq::empty()).len() == 0,
        line_events(stream, s).len() == lines(s).len(),
        stream.carries(line_events(stream, s)[i]),
        stream.payload(line_events(stream, s)[i]) == lines(s)[i],
{
    law_where_a_line_ends(s);
    let n = line_end(s);
    assert(lines(s).skip(1) =~= lines(s.skip(n)));
    assert(line_end(Seq::<u8>::empty()) == 0);
}

/// The contracts see of a step what it holds.
pub proof fn law_read_step_view(step: ReadStep)
    ensures
        step@.consumed == step.consumed,
        step@.stop == step.stop,
        match step.event {
            Some(event) => step@.event == Some(event@),
            None => step@.event is None,
        },
{
}

} // verus!
