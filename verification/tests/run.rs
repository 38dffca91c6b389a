use shell_process::command::Command;
use shell_process::event::{CommandEvent, OutputStream};
use shell_process::platform::Platform;
use shell_process::read::{read_line, read_raw_bytes, split_lines};
use shell_process::reap::wait_event;
use shell_process::spawn::{SpawnAction, SpawnOutcome, SpawnProgress};
use shell_process::status::{Output, TerminatedPayload};

/// What the child of a test does: the bytes that it writes, and its end.
struct Child {
    stdout: &'static [u8],
    stderr: &'static [u8],
    code: Option<i32>,
    signal: Option<i32>,
}

/// `cat` of a file that holds "This is a test doc!" and no newline.
const CAT_FILE: Child =
    Child { stdout: b"This is a test doc!", stderr: b"", code: Some(0), signal: None };

/// `cat` of a directory.
const CAT_DIR: Child =
    Child { stdout: b"", stderr: b"cat: test/: Is a directory\n", code: Some(1), signal: None };

fn cat(arg: &[u8]) -> Command {
    Command::new(b"cat", Platform::Unix).args(vec![arg.to_vec()])
}

/// Spawns the command with every action succeeding, and sends what the child does.
fn events(command: Command, child: &Child) -> Vec<CommandEvent> {
    let (mut spawning, _, _) = command.spawn(Platform::Unix);
    let mut sent = Vec::new();
    loop {
        let action = spawning.pending();
        if let SpawnAction::StartReader { stream, raw } = action {
            let bytes = match stream {
                OutputStream::Stdout => child.stdout,
                OutputStream::Stderr => child.stderr,
            };
            if raw {
                sent.extend(read_raw_bytes(stream, Ok(bytes)).event);
            } else {
                sent.extend(split_lines(stream, bytes));
            }
        }
        if let SpawnAction::StartWait(_) = action {
            sent.push(wait_event(Ok((child.code, child.signal)), Platform::Unix));
        }
        let outcome: SpawnOutcome<()> = match action {
            SpawnAction::SpawnChild => SpawnOutcome::Spawned(77),
            _ => SpawnOutcome::Done,
        };
        match spawning.step(outcome) {
            SpawnProgress::Going => {}
            SpawnProgress::Running(child) => {
                assert_eq!(child.pid(), 77);
                return sent;
            }
            SpawnProgress::Failed(()) => panic!("no action failed"),
        }
    }
}

fn output(command: Command, child: &Child) -> Output {
    Command::output(&events(command, child))
}

#[test]
fn test_cmd_spawn_output() {
    for event in events(cat(b"test/test.txt"), &CAT_FILE) {
        match event {
            CommandEvent::Terminated(payload) => {
                assert_eq!(payload.code, Some(0));
            }
            CommandEvent::Stdout(line) => {
                assert_eq!(String::from_utf8(line).unwrap(), "This is a test doc!");
            }
            _ => {}
        }
    }
}

#[test]
fn test_cmd_spawn_raw_output() {
    for event in events(cat(b"test/test.txt"), &CAT_FILE) {
        match event {
            CommandEvent::Terminated(payload) => {
                assert_eq!(payload.code, Some(0));
            }
            CommandEvent::Stdout(line) => {
                assert_eq!(String::from_utf8(line).unwrap(), "This is a test doc!");
            }
            _ => {}
        }
    }
}

#[test]
fn test_cmd_spawn_fail() {
    for event in events(cat(b"test/"), &CAT_DIR) {
        match event {
            CommandEvent::Terminated(payload) => {
                assert_eq!(payload.code, Some(1));
            }
            CommandEvent::Stderr(line) => {
                assert_eq!(String::from_utf8(line).unwrap(), "cat: test/: Is a directory\n");
            }
            _ => {}
        }
    }
}

#[test]
fn test_cmd_spawn_raw_fail() {
    for event in events(cat(b"test/"), &CAT_DIR) {
        match event {
            CommandEvent::Terminated(payload) => {
                assert_eq!(payload.code, Some(1));
            }
            CommandEvent::Stderr(line) => {
                assert_eq!(String::from_utf8(line).unwrap(), "cat: test/: Is a directory\n");
            }
            _ => {}
        }
    }
}

#[test]
fn raw_output_comes_as_received() {
    let child = Child { stdout: b"a\nb\rc", stderr: b"x\ny", code: Some(0), signal: None };
    let sent = events(cat(b"test/").set_raw_out(true), &child);
    assert_eq!(sent.len(), 3);
    assert!(matches!(&sent[0], CommandEvent::Stdout(bytes) if bytes == b"a\nb\rc"));
    assert!(matches!(&sent[1], CommandEvent::Stderr(bytes) if bytes == b"x\ny"));
    let lines = events(cat(b"test/"), &child);
    assert_eq!(lines.len(), 6);
}

#[test]
fn test_cmd_output_output() {
    let output = output(cat(b"test/test.txt"), &CAT_FILE);

    assert_eq!(String::from_utf8(output.stderr).unwrap(), "");
    assert_eq!(String::from_utf8(output.stdout).unwrap(), "This is a test doc!\n");
}

#[test]
fn test_cmd_output_output_fail() {
    let output = output(cat(b"test/"), &CAT_DIR);

    assert_eq!(String::from_utf8(output.stdout).unwrap(), "");
    assert_eq!(String::from_utf8(output.stderr).unwrap(), "cat: test/: Is a directory\n\n");
}

#[test]
fn test_cmd_spawn_process_group_output() {
    let mut seen = 0;
    for event in events(cat(b"test/test.txt").set_process_group(true), &CAT_FILE) {
        match event {
            CommandEvent::Terminated(payload) => {
                assert_eq!(payload.code, Some(0));
                seen += 1;
            }
            CommandEvent::Stdout(line) => {
                assert_eq!(String::from_utf8(line).unwrap(), "This is a test doc!");
                seen += 1;
            }
            _ => {}
        }
    }
    assert_eq!(seen, 2);
}

#[test]
fn test_cmd_process_group_output() {
    let output = output(cat(b"test/test.txt").set_process_group(true), &CAT_FILE);

    assert_eq!(String::from_utf8(output.stderr).unwrap(), "");
    assert_eq!(String::from_utf8(output.stdout).unwrap(), "This is a test doc!\n");
}

#[test]
fn diag_output_echo() {
    let child = Child { stdout: b"hello\r\n", stderr: b"", code: Some(0), signal: None };
    let command = Command::new(b"cmd", Platform::Windows)
        .args(vec![b"/C".to_vec(), b"echo hello".to_vec()]);
    let output = output(command, &child);
    assert!(output.status.success());
    assert!(String::from_utf8_lossy(&output.stdout).contains("hello"));
}

#[test]
fn a_killed_child_has_a_signal_and_no_success() {
    let child = Child { stdout: b"", stderr: b"", code: None, signal: Some(9) };
    let sent = events(Command::new(b"sleep", Platform::Unix).arg(b"60"), &child);
    match &sent[0] {
        CommandEvent::Terminated(payload) => {
            assert_eq!(payload.code, None);
            assert_eq!(payload.signal, Some(9));
        }
        _ => panic!("no termination"),
    }
    let status = Command::status(&sent);
    assert_eq!(status.code(), None);
    assert!(!status.success());
}

#[test]
fn windows_knows_no_signal() {
    match wait_event(Ok((Some(1), Some(9))), Platform::Windows) {
        CommandEvent::Terminated(payload) => {
            assert_eq!(payload.code, Some(1));
            assert_eq!(payload.signal, None);
        }
        _ => panic!("no termination"),
    }
}

#[test]
fn a_failed_wait_is_an_error_event() {
    match wait_event(Err("gone".to_string()), Platform::Unix) {
        CommandEvent::Error(text) => assert_eq!(text, "gone"),
        _ => panic!("no error"),
    }
}

fn lines(bytes: &[u8]) -> Vec<Vec<u8>> {
    split_lines(OutputStream::Stdout, bytes)
        .into_iter()
        .map(|event| match event {
            CommandEvent::Stdout(line) => line,
            _ => panic!("not of stdout"),
        })
        .collect()
}

#[test]
fn lines_end_in_newlines_first() {
    assert_eq!(lines(b"a\nb\n"), vec![b"a\n".to_vec(), b"b\n".to_vec()]);
    assert_eq!(lines(b"a\r\nb"), vec![b"a\r\n".to_vec(), b"b".to_vec()]);
    assert_eq!(lines(b"10%\r20%\r"), vec![b"10%\r".to_vec(), b"20%\r".to_vec()]);
    assert_eq!(lines(b"10%\r20%\nx\ry"), vec![b"10%\r20%\n".to_vec(), b"x\r".to_vec(), b"y".to_vec()]);
    assert_eq!(lines(b"\n\n"), vec![b"\n".to_vec(), b"\n".to_vec()]);
    assert!(lines(b"").is_empty());
}

#[test]
fn lines_lose_no_byte() {
    let bytes = b"one\ntwo\rthree\r\n\n\rfour";
    assert_eq!(lines(bytes).concat(), bytes);
}

#[test]
fn lines_of_stderr_are_stderr() {
    let sent = split_lines(OutputStream::Stderr, b"x\n");
    assert_eq!(sent.len(), 1);
    assert!(matches!(&sent[0], CommandEvent::Stderr(line) if line == b"x\n"));
}

#[test]
fn a_raw_reader_goes_on_after_an_error() {
    let step = read_raw_bytes(OutputStream::Stdout, Err("broken".to_string()));
    assert!(matches!(step.event, Some(CommandEvent::Error(text)) if text == "broken"));
    assert_eq!(step.consumed, 0);
    assert!(!step.stop);

    let step = read_raw_bytes(OutputStream::Stderr, Ok(b"a\nb"));
    assert!(matches!(step.event, Some(CommandEvent::Stderr(bytes)) if bytes == b"a\nb"));
    assert_eq!(step.consumed, 3);
    assert!(!step.stop);

    let step = read_raw_bytes(OutputStream::Stdout, Ok(b""));
    assert!(step.event.is_none());
    assert_eq!(step.consumed, 0);
    assert!(step.stop);
}

#[test]
fn a_line_reader_stops_at_an_error() {
    let step = read_line(OutputStream::Stdout, Err("broken".to_string()));
    assert!(matches!(step.event, Some(CommandEvent::Error(text)) if text == "broken"));
    assert!(step.stop);

    let step = read_line(OutputStream::Stdout, Ok((2, b"a\n".to_vec())));
    assert!(matches!(step.event, Some(CommandEvent::Stdout(line)) if line == b"a\n"));
    assert!(!step.stop);

    let step = read_line(OutputStream::Stdout, Ok((0, Vec::new())));
    assert!(step.event.is_none());
    assert!(step.stop);
}

#[test]
fn a_run_is_collected_stream_by_stream() {
    let sent = vec![
        CommandEvent::Stdout(b"one\n".to_vec()),
        CommandEvent::Stderr(b"oops".to_vec()),
        CommandEvent::Error("ignored".to_string()),
        CommandEvent::Stdout(b"two".to_vec()),
        CommandEvent::Terminated(TerminatedPayload { code: Some(3), signal: None }),
        CommandEvent::Stderr(b"late".to_vec()),
    ];
    let output = Command::output(&sent);
    assert_eq!(output.stdout, b"one\n\ntwo\n");
    assert_eq!(output.stderr, b"oops\nlate\n");
    assert_eq!(output.status.code(), Some(3));
    assert!(!output.status.success());
    assert_eq!(Command::status(&sent).code(), Some(3));
}

#[test]
fn the_last_termination_counts() {
    let sent = vec![
        CommandEvent::Terminated(TerminatedPayload { code: Some(3), signal: None }),
        CommandEvent::Terminated(TerminatedPayload { code: Some(0), signal: None }),
    ];
    assert!(Command::status(&sent).success());
    assert_eq!(Command::status(&Vec::new()).code(), None);
    let output = Command::output(&Vec::new());
    assert!(output.stdout.is_empty() && output.stderr.is_empty());
    assert_eq!(output.status.code(), None);
}

#[test]
fn output_can_be_decoded() {
    let encoding = shell_process::Encoding::for_label(b"windows-1252").unwrap();
    let sent = split_lines(OutputStream::Stdout, b"caf\xe9");
    match &sent[0] {
        CommandEvent::Stdout(line) => assert_eq!(encoding.decode(line).0, "caf\u{e9}"),
        _ => panic!("not of stdout"),
    }
}
