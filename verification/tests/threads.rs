use shell_process::command::Command;
use shell_process::event::{CommandEvent, OutputStream};
use shell_process::platform::Platform;
use shell_process::read::read_line;
use shell_process::threads::{ReaderAction, ReaderThread, WaitThread, WaitThreadAction};

#[test]
fn a_reader_is_inside_while_it_reads() {
    let mut reader = ReaderThread::start(true);
    assert_eq!(reader.pending(), ReaderAction::Enter);
    reader.step(true);
    assert_eq!(reader.pending(), ReaderAction::ReadRaw);
    reader.step(false);
    assert_eq!(reader.pending(), ReaderAction::ReadRaw);
    reader.step(true);
    assert_eq!(reader.pending(), ReaderAction::Leave);
    reader.step(false);
    assert_eq!(reader.pending(), ReaderAction::Nothing);
    reader.step(false);
    assert_eq!(reader.pending(), ReaderAction::Nothing);

    let mut reader = ReaderThread::start(false);
    reader.step(false);
    assert_eq!(reader.pending(), ReaderAction::ReadLine);
    reader.step(false);
    assert_eq!(reader.pending(), ReaderAction::ReadLine);
    reader.step(true);
    assert_eq!(reader.pending(), ReaderAction::Leave);
}

#[test]
fn the_end_is_sent_once_and_after_the_readers() {
    let mut thread = WaitThread::start(Platform::Unix);
    assert_eq!(thread.pending(), WaitThreadAction::Wait);
    // Nothing is sent, and the guard is not asked for, before the wait is over.
    assert!(thread.send().is_none());
    thread.entered();
    assert_eq!(thread.pending(), WaitThreadAction::Wait);
    thread.waited(Ok((None, Some(9))));
    assert_eq!(thread.pending(), WaitThreadAction::AwaitReaders);
    assert!(thread.send().is_none());
    thread.waited(Ok((Some(1), None)));
    thread.entered();
    assert_eq!(thread.pending(), WaitThreadAction::Send);
    match thread.send() {
        Some(CommandEvent::Terminated(payload)) => {
            assert_eq!((payload.code, payload.signal), (None, Some(9)));
        }
        _ => panic!("no termination"),
    }
    assert_eq!(thread.pending(), WaitThreadAction::Nothing);
    assert!(thread.send().is_none());
}

#[test]
fn a_failed_wait_waits_for_the_readers_too() {
    let mut thread = WaitThread::start(Platform::Windows);
    thread.waited(Err("gone".to_string()));
    assert_eq!(thread.pending(), WaitThreadAction::AwaitReaders);
    thread.entered();
    assert!(matches!(thread.send(), Some(CommandEvent::Error(text)) if text == "gone"));
}

#[test]
fn the_end_comes_after_output_that_outlives_the_child() {
    // The child is gone at once; somebody else keeps its output open and writes two more lines.
    let mut out = vec![&b""[..], b"two\n", b"one\n"];
    let mut reader = ReaderThread::start(false);
    let mut wait = WaitThread::start(Platform::Unix);
    let mut sent = Vec::new();
    reader.step(false);
    let mut inside = true;
    loop {
        match wait.pending() {
            WaitThreadAction::Wait => wait.waited(Ok((Some(0), None))),
            WaitThreadAction::AwaitReaders if !inside => wait.entered(),
            WaitThreadAction::AwaitReaders => {}
            WaitThreadAction::Send => sent.extend(wait.send()),
            WaitThreadAction::Nothing => break,
        }
        match reader.pending() {
            ReaderAction::ReadLine => {
                let line = out.pop().unwrap();
                let step = read_line(OutputStream::Stdout, Ok((line.len(), line.to_vec())));
                sent.extend(step.event);
                reader.step(step.stop);
            }
            ReaderAction::Leave => {
                inside = false;
                reader.step(false);
            }
            _ => {}
        }
    }
    assert_eq!(sent.len(), 3);
    assert!(matches!(&sent[2], CommandEvent::Terminated(payload) if payload.code == Some(0)));
    let payloads: Vec<&[u8]> = sent
        .iter()
        .filter_map(|event| match event {
            CommandEvent::Stdout(line) => Some(line.as_slice()),
            _ => None,
        })
        .collect();
    assert_eq!(payloads.concat(), b"one\ntwo\n");
    let output = Command::output(&sent);
    assert_eq!(output.stdout, b"one\n\ntwo\n\n");
    assert!(output.status.success());
}
