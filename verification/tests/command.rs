use shell_process::command::{Command, Stdio, CREATE_NO_WINDOW};
use shell_process::platform::Platform;
use shell_process::spawn::{
    child_wrappers, ChildWrapper, Pipe, SpawnAction, SpawnOutcome, SpawnProgress,
};
use shell_process::event::OutputStream;

#[test]
fn a_new_command_is_piped() {
    let parts = Command::new(b"cat", Platform::Unix).into_parts();
    assert_eq!(parts.program, b"cat");
    assert!(parts.args.is_empty());
    assert!(!parts.env_clear);
    assert!(parts.env.is_empty());
    assert_eq!(parts.current_dir, None);
    assert_eq!((parts.stdin, parts.stdout, parts.stderr), (Stdio::Piped, Stdio::Piped, Stdio::Piped));
    assert_eq!(parts.creation_flags, 0);
    let parts = Command::new(b"cat", Platform::Windows).into_parts();
    assert_eq!(parts.creation_flags, CREATE_NO_WINDOW);
    assert_eq!(CREATE_NO_WINDOW, 134217728);
}

#[test]
fn arguments_are_appended_in_order() {
    let one_by_one = Command::plain(b"p").arg(b"a").arg(b"b").arg(b"").into_parts();
    let at_once = Command::plain(b"p")
        .arg(b"a")
        .args(vec![b"b".to_vec(), b"".to_vec()])
        .into_parts();
    assert_eq!(one_by_one.args, vec![b"a".to_vec(), b"b".to_vec(), b"".to_vec()]);
    assert_eq!(one_by_one.args, at_once.args);
    assert_eq!(one_by_one.stdin, Stdio::Inherit);
}

fn pair(key: &[u8], value: &[u8]) -> (Vec<u8>, Vec<u8>) {
    (key.to_vec(), value.to_vec())
}

/// The map that comes of the settings where every name is a variable of its own.
fn env_map(settings: &[(Vec<u8>, Vec<u8>)]) -> std::collections::BTreeMap<Vec<u8>, Vec<u8>> {
    settings.iter().cloned().collect()
}

#[test]
fn the_last_value_of_a_variable_counts() {
    let parts = Command::plain(b"p")
        .env(b"A", b"1")
        .env(b"B", b"2")
        .env(b"A", b"3")
        .into_parts();
    assert_eq!(parts.env, vec![pair(b"A", b"1"), pair(b"B", b"2"), pair(b"A", b"3")]);
    assert_eq!(env_map(&parts.env).get("A".as_bytes()), Some(&b"3".to_vec()));
    assert_eq!(env_map(&parts.env).len(), 2);
    let at_once = Command::plain(b"p")
        .envs(vec![pair(b"A", b"1"), pair(b"B", b"2"), pair(b"A", b"3")])
        .into_parts();
    assert_eq!(at_once.env, parts.env);
}

#[test]
fn the_spelling_of_a_variable_is_kept() {
    // Whether these are one variable or two is for the system to say.
    let parts = Command::plain(b"p")
        .env(b"Path", b"1")
        .env(b"PATH", b"2")
        .env(b"Path", b"3")
        .into_parts();
    assert_eq!(parts.env, vec![pair(b"Path", b"1"), pair(b"PATH", b"2"), pair(b"Path", b"3")]);
}

#[test]
fn clearing_forgets_what_was_set() {
    let parts = Command::plain(b"p").env(b"A", b"1").env_clear().env(b"B", b"2").into_parts();
    assert!(parts.env_clear);
    assert_eq!(parts.env, vec![pair(b"B", b"2")]);
}

#[test]
fn the_directory_is_the_last_one_set() {
    let parts = Command::plain(b"p").current_dir(b"/a").current_dir(b"/b").into_parts();
    assert_eq!(parts.current_dir, Some(b"/b".to_vec()));
}

#[test]
fn streams_can_be_null() {
    let parts = Command::plain(b"p").null_stdio().into_parts();
    assert_eq!((parts.stdin, parts.stdout, parts.stderr), (Stdio::Null, Stdio::Null, Stdio::Null));
}

#[test]
fn only_a_group_is_wrapped() {
    assert!(child_wrappers(false, Platform::Unix).is_empty());
    assert!(child_wrappers(false, Platform::Windows).is_empty());
    assert_eq!(child_wrappers(true, Platform::Unix), vec![ChildWrapper::ProcessGroupLeader]);
    assert_eq!(
        child_wrappers(true, Platform::Windows),
        vec![ChildWrapper::CreationFlags(CREATE_NO_WINDOW), ChildWrapper::JobObject]
    );
}

#[test]
fn spawning_takes_its_actions_in_order() {
    let command = Command::new(b"p", Platform::Unix).set_raw_out(true).set_process_group(true);
    let (mut spawning, parts, wrappers) = command.spawn(Platform::Unix);
    assert_eq!(parts.program, b"p");
    assert_eq!(wrappers, vec![ChildWrapper::ProcessGroupLeader]);
    let plan = [
        SpawnAction::OpenPipe(Pipe::Stdout),
        SpawnAction::OpenPipe(Pipe::Stderr),
        SpawnAction::OpenPipe(Pipe::Stdin),
        SpawnAction::StartReader { stream: OutputStream::Stdout, raw: true },
        SpawnAction::StartReader { stream: OutputStream::Stderr, raw: true },
        SpawnAction::SpawnChild,
        SpawnAction::OpenWaiter(5),
        SpawnAction::StartWait(5),
    ];
    for (i, action) in plan.iter().enumerate() {
        assert_eq!(spawning.pending(), *action);
        let outcome: SpawnOutcome<&str> = match action {
            SpawnAction::SpawnChild => SpawnOutcome::Spawned(5),
            _ => SpawnOutcome::Done,
        };
        match spawning.step(outcome) {
            SpawnProgress::Going => assert!(i < 7),
            SpawnProgress::Running(child) => {
                assert_eq!(i, 7);
                assert_eq!(child.pid(), 5);
            }
            SpawnProgress::Failed(_) => panic!("failed at {i}"),
        }
    }
    assert_eq!(spawning.pending(), SpawnAction::Nothing);
}

#[test]
fn a_failed_action_ends_the_spawning() {
    let (mut spawning, _, _) = Command::new(b"p", Platform::Unix).spawn(Platform::Unix);
    // A process cannot come of opening a pipe.
    assert!(matches!(spawning.step(SpawnOutcome::<&str>::Spawned(1)), SpawnProgress::Going));
    assert_eq!(spawning.pending(), SpawnAction::OpenPipe(Pipe::Stdout));
    assert!(matches!(spawning.step(SpawnOutcome::Failed("no pipe")), SpawnProgress::Failed("no pipe")));
    assert_eq!(spawning.pending(), SpawnAction::Nothing);
    assert!(matches!(spawning.step(SpawnOutcome::Failed("again")), SpawnProgress::Going));
}
