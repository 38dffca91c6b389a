use shell_process::command::Stdio;
use shell_process::reap::{ReapAction, ReapProgress};
use shell_process::scenario::{
    after_report, all_scenarios, driver_exit, failures, find_scenario, invocation, long_running,
    report, spawn_wait_thread, stage_name, tree_running, wrap, wrapper_exits_fast, Invocation, Step,
    Target,
};

#[test]
fn every_scenario_is_found_by_its_name() {
    let all = all_scenarios();
    assert_eq!(all.len(), 11);
    for scenario in &all {
        let found = find_scenario(scenario.name).unwrap();
        assert_eq!(found.name, scenario.name);
        assert_eq!(found.target, scenario.target);
        assert_eq!(found.delay_before_kill_ms, scenario.delay_before_kill_ms);
    }
    for (i, a) in all.iter().enumerate() {
        for b in &all[..i] {
            assert_ne!(a.name, b.name);
        }
    }
    assert!(find_scenario("raw").is_none());
}

#[test]
fn the_orphan_scenario_is_as_described() {
    let scenario = find_scenario("raw-job-orphan").unwrap();
    assert_eq!(scenario.target, Target::WrapperExitsFast);
    assert!(!scenario.bare && scenario.job_object && scenario.raw_first);
    assert_eq!(scenario.delay_before_kill_ms, 3000);
    assert_eq!(
        scenario.banner(),
        "=== scenario raw-job-orphan (job_object=true, raw_first=true, delay=3000ms) ==="
    );
    assert_eq!(scenario.passed(), "=== scenario raw-job-orphan OK ===");
    assert_eq!(
        scenario.hung(4),
        "WATCHDOG: scenario raw-job-orphan HUNG after stage 4:kill-lock-acquired-calling-kill"
    );
}

#[test]
fn banners_of_the_others() {
    assert_eq!(
        find_scenario("bare-plain").unwrap().banner(),
        "=== scenario bare-plain (bare kill, job_object=false) ==="
    );
    assert_eq!(
        find_scenario("raw-job-instant").unwrap().banner(),
        "=== scenario raw-job-instant (job_object=true, raw_first=true, delay=0ms) ==="
    );
    assert_eq!(
        find_scenario("poll-plain").unwrap().banner(),
        "=== scenario poll-plain (job_object=false, raw_first=false, delay=500ms) ==="
    );
}

#[test]
fn the_commands_of_the_targets() {
    let parts = long_running().into_parts();
    assert_eq!(parts.program, b"ping");
    assert_eq!(parts.args, vec![b"-n".to_vec(), b"90".to_vec(), b"127.0.0.1".to_vec()]);
    let parts = tree_running().into_parts();
    assert_eq!(parts.program, b"cmd");
    assert_eq!(
        parts.args[1],
        b"start /B ping -n 90 127.0.0.1 > NUL & ping -n 90 127.0.0.1 > NUL"
    );
    let parts = wrap(wrapper_exits_fast(), true).into_parts();
    assert_eq!(parts.args, vec![b"/C".to_vec(), b"start /B ping -n 90 127.0.0.1 > NUL".to_vec()]);
    assert_eq!((parts.stdin, parts.stdout, parts.stderr), (Stdio::Null, Stdio::Null, Stdio::Null));
    assert_eq!(Target::LongRunning.command().into_parts().program, b"ping");
}

#[test]
fn the_steps_of_a_scenario() {
    let delayed = find_scenario("poll-job").unwrap().steps();
    assert_eq!(delayed.len(), 19);
    assert_eq!(delayed[6], Step::StartWaiter { raw_first: false });
    assert_eq!(delayed[8], Step::Delay(500));
    let instant = find_scenario("raw-job-instant").unwrap().steps();
    assert_eq!(instant.len(), 18);
    assert_eq!(instant[8], Step::Stage(3));
    let stages: Vec<usize> = find_scenario("bare-job")
        .unwrap()
        .steps()
        .into_iter()
        .filter_map(|step| match step {
            Step::Stage(n) => Some(n),
            _ => None,
        })
        .collect();
    assert_eq!(stages, vec![0, 1, 4, 5, 7]);
}

#[test]
fn the_names_of_the_stages() {
    for n in 0..8 {
        assert!(stage_name(n).starts_with(&n.to_string()));
    }
    assert_eq!(stage_name(7), "7:done");
}

#[test]
fn the_reports_of_the_wait_thread() {
    assert_eq!(report(ReapProgress::Going), None);
    assert_eq!(
        report(ReapProgress::Reaped("exit 0".to_string())),
        Some("terminated: exit 0".to_string())
    );
    assert_eq!(
        report(ReapProgress::Failed { during: ReapAction::BlockOnExit, error: "e".to_string() }),
        Some("raw-wait-error: e".to_string())
    );
    assert_eq!(
        report(ReapProgress::Failed { during: ReapAction::TryWait, error: "e".to_string() }),
        Some("wait-error: e".to_string())
    );
    assert_eq!(spawn_wait_thread(5, true).pending(), ReapAction::BlockOnExit);
    assert_eq!(spawn_wait_thread(5, true).pid(), 5);
    assert_eq!(spawn_wait_thread(6, false).pending(), ReapAction::TryWait);
    assert_eq!(spawn_wait_thread(6, false).pid(), 6);
}

#[test]
fn the_first_argument_is_the_scenario() {
    let args = |all: &[&str]| all.iter().map(|a| a.to_string()).collect::<Vec<String>>();
    assert!(matches!(invocation(&args(&["harness"])), Invocation::Driver));
    assert!(matches!(invocation(&args(&[])), Invocation::Driver));
    assert!(matches!(
        invocation(&args(&["harness", "raw-job"])),
        Invocation::Run(scenario) if scenario.name == "raw-job"
    ));
    assert!(matches!(
        invocation(&args(&["harness", "nothing", "raw-job"])),
        Invocation::Unknown(name) if name == "nothing"
    ));
}

#[test]
fn without_a_report_a_scenario_ends() {
    assert_eq!(after_report(true), None);
    assert_eq!(after_report(false), Some(43));
}

#[test]
fn failures_are_listed_in_order() {
    let results: Vec<_> = all_scenarios()
        .into_iter()
        .map(|scenario| {
            let passed = scenario.target != Target::TreeRunning;
            (scenario, passed)
        })
        .collect();
    let failed = failures(&results);
    assert_eq!(failed, vec!["bare-job-tree", "poll-job-tree", "raw-job-tree"]);
    assert_eq!(driver_exit(&failed), Some(1));
    assert_eq!(driver_exit(&Vec::new()), None);
}
