use shell_process::command::Command;
use shell_process::platform::Platform;
use shell_process::reap::{CommandChild, ReapAction, ReapOutcome, ReapProgress, Reaper};
use shell_process::spawn::{SpawnAction, SpawnOutcome, SpawnProgress};
use shell_process::wait::{judge_wait, raw_wait_no_reap, ExitWaiter, WaitStep};

fn child(pid: u32) -> CommandChild {
    let (mut spawning, _, _) = Command::new(b"p", Platform::Unix).spawn(Platform::Unix);
    loop {
        let outcome: SpawnOutcome<()> = match spawning.pending() {
            SpawnAction::SpawnChild => SpawnOutcome::Spawned(pid),
            _ => SpawnOutcome::Done,
        };
        if let SpawnProgress::Running(child) = spawning.step(outcome) {
            return child;
        }
    }
}

/// Answers the actions of a reaper for a child that can be reaped after `misses` attempts, and
/// returns the actions and the status.
fn reap(mut reaper: Reaper, mut misses: u32) -> (Vec<ReapAction>, i32) {
    let mut done = Vec::new();
    loop {
        let action = reaper.pending();
        done.push(action);
        let outcome: ReapOutcome<i32, &str> = match action {
            ReapAction::TryWait if misses > 0 => {
                misses -= 1;
                ReapOutcome::Status(None)
            }
            ReapAction::TryWait => ReapOutcome::Status(Some(9)),
            _ => ReapOutcome::Done,
        };
        match reaper.step(outcome) {
            ReapProgress::Going => {}
            ReapProgress::Reaped(status) => return (done, status),
            ReapProgress::Failed { .. } => panic!("no action failed"),
        }
    }
}

#[test]
fn a_kill_blocks_before_it_reaps() {
    let child = child(12);
    assert_eq!(child.pid(), 12);
    let (done, status) = reap(child.kill(), 0);
    assert_eq!(
        done,
        vec![
            ReapAction::StartKill,
            ReapAction::OpenWaiter,
            ReapAction::BlockOnExit,
            ReapAction::TryWait,
        ]
    );
    assert_eq!(status, 9);
}

#[test]
fn a_kill_is_about_its_child_to_the_end() {
    let mut reaper = child(31).kill();
    assert_eq!(reaper.pid(), 31);
    assert_eq!(reaper.pending(), ReapAction::StartKill);
    while reaper.pending() != ReapAction::Nothing {
        let outcome: ReapOutcome<i32, &str> = match reaper.pending() {
            ReapAction::TryWait => ReapOutcome::Status(Some(0)),
            _ => ReapOutcome::Done,
        };
        reaper.step(outcome);
        assert_eq!(reaper.pid(), 31);
    }
    assert_eq!(child(32).kill().pid(), 32);
}

#[test]
fn a_wait_tries_until_the_status_is_there() {
    let (done, status) = reap(Reaper::wait_on_child(12), 2);
    assert_eq!(
        done,
        vec![
            ReapAction::BlockOnExit,
            ReapAction::TryWait,
            ReapAction::Pause,
            ReapAction::TryWait,
            ReapAction::Pause,
            ReapAction::TryWait,
        ]
    );
    assert_eq!(status, 9);
}

#[test]
fn polling_never_blocks_on_the_process() {
    let (done, _) = reap(Reaper::poll(12), 1);
    assert_eq!(done, vec![ReapAction::TryWait, ReapAction::Pause, ReapAction::TryWait]);
}

#[test]
fn a_failure_is_final() {
    let mut reaper = Reaper::kill(12);
    match reaper.step(ReapOutcome::<i32, &str>::Failed("not allowed")) {
        ReapProgress::Failed { during, error } => {
            assert_eq!(during, ReapAction::StartKill);
            assert_eq!(error, "not allowed");
        }
        _ => panic!("it failed"),
    }
    assert_eq!(reaper.pending(), ReapAction::Nothing);
    assert!(matches!(reaper.step(ReapOutcome::<i32, &str>::Done), ReapProgress::Going));
    assert_eq!(reaper.pending(), ReapAction::Nothing);
}

#[test]
fn only_kill_and_reaping_take_the_lock() {
    assert!(ReapAction::StartKill.under_lock());
    assert!(ReapAction::TryWait.under_lock());
    assert!(!ReapAction::OpenWaiter.under_lock());
    assert!(!ReapAction::BlockOnExit.under_lock());
    assert!(!ReapAction::Pause.under_lock());
    assert!(!ReapAction::Nothing.under_lock());
}

#[test]
fn a_missing_child_has_exited() {
    let waiter = ExitWaiter::new(7);
    assert_eq!(waiter.pid(), 7);
    assert_eq!(waiter.wait(0, None, false), WaitStep::Exited);
    assert_eq!(waiter.wait(-1, Some(libc::ECHILD), false), WaitStep::Exited);
    assert_eq!(waiter.wait(-1, Some(libc::EINTR), true), WaitStep::Again);
    assert_eq!(waiter.wait(-1, Some(libc::EINVAL), false), WaitStep::Failed);
    assert_eq!(waiter.wait(-1, None, false), WaitStep::Failed);
}

#[test]
fn a_wait_is_judged_by_its_error() {
    assert_eq!(judge_wait(10, -1, Some(10), false), WaitStep::Exited);
    assert_eq!(judge_wait(10, -1, Some(10), true), WaitStep::Exited);
    assert_eq!(judge_wait(10, -1, Some(4), true), WaitStep::Again);
    assert_eq!(judge_wait(10, -1, Some(22), false), WaitStep::Failed);
    assert_eq!(judge_wait(10, 0, Some(22), false), WaitStep::Exited);
}

#[test]
fn only_the_signaled_value_is_an_exit() {
    assert_eq!(raw_wait_no_reap(0, 0, "last error"), Ok(()));
    assert_eq!(raw_wait_no_reap(0x102, 0, "last error"), Err("last error"));
}

#[test]
fn both_sides_of_a_race_get_the_status() {
    // The wait thread reaps the child after the kill signal is sent: the blocking wait of the kill
    // finds no child any more, and the status is the one that was kept.
    let waiter = ExitWaiter::new(7);
    let mut reaper = Reaper::kill(12);
    loop {
        let outcome: ReapOutcome<i32, &str> = match reaper.pending() {
            ReapAction::BlockOnExit => match waiter.wait(-1, Some(libc::ECHILD), false) {
                WaitStep::Exited => ReapOutcome::Done,
                _ => ReapOutcome::Failed("lost the race"),
            },
            ReapAction::TryWait => ReapOutcome::Status(Some(0)),
            _ => ReapOutcome::Done,
        };
        match reaper.step(outcome) {
            ReapProgress::Going => {}
            ReapProgress::Reaped(status) => {
                assert_eq!(status, 0);
                break;
            }
            ReapProgress::Failed { error, .. } => panic!("{error}"),
        }
    }
}

#[test]
fn a_signal_to_a_reaped_child_is_an_error() {
    // The wait thread has reaped the child before the kill signal is sent.
    let mut reaper = Reaper::kill(12);
    match reaper.step(ReapOutcome::<i32, &str>::Failed("no such process")) {
        ReapProgress::Failed { during, error } => {
            assert_eq!(during, ReapAction::StartKill);
            assert_eq!(error, "no such process");
        }
        _ => panic!("it failed"),
    }
    assert_eq!(reaper.pending(), ReapAction::Nothing);
}
