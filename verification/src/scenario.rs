//! Scenarios that exercise the killing of a child: what each of them runs, the steps that it takes
//! and the words in which it reports.
use crate::command::Command;
#[allow(unused_imports)]
use crate::command::{CommandView, Stdio};
#[allow(unused_imports)]
use crate::reap::{ReapAction, ReaperView};
use crate::reap::{ReapProgress, Reaper};
use vstd::prelude::*;
#[allow(unused_imports)]
use vstd::utf8::encode_utf8;

verus! {

/// The exit code of a scenario that was still going when its time was up.
pub const EXIT_HUNG: i32 = 42;

/// The exit code of a scenario that never heard of the end of its child.
pub const EXIT_NO_REPORT: i32 = 43;

/// The exit code for a scenario that does not exist.
pub const EXIT_UNKNOWN: i32 = 2;

/// The exit code of the driver if a scenario failed.
pub const EXIT_FAILURES: i32 = 1;

/// How long a scenario may take, in seconds.
pub const WATCHDOG_SECS: u64 = 30;

/// How long the report of the wait thread may take after the kill, in seconds.
pub const REPORT_SECS: u64 = 10;

/// What a scenario kills.
#[derive(Debug, Clone, Copy, PartialEq, Eq, Structural)]
pub enum Target {
    /// One process that runs for long.
    LongRunning,
    /// A shell that runs for long, with another process in the background.
    TreeRunning,
    /// A shell that puts a process in the background and exits at once.
    WrapperExitsFast,
}

/// A scenario.
#[derive(Debug)]
pub struct Scenario {
    /// Its name.
    pub name: &'static str,
    /// What it kills.
    pub target: Target,
    /// Whether it goes without a wait thread.
    pub bare: bool,
    /// Whether the child gets a process group or job object.
    pub job_object: bool,
    /// Whether the wait thread blocks on the process before it tries to reap it.
    pub raw_first: bool,
    /// How long to wait before the kill, in milliseconds.
    pub delay_before_kill_ms: u64,
}

/// A [`Scenario`] as the contracts speak of it.
pub struct ScenarioView {
    /// Its name.
    pub name: Seq<char>,
    /// What it kills.
    pub target: Target,
    /// Whether it goes without a wait thread.
    pub bare: bool,
    /// Whether the child gets a process group or job object.
    pub job_object: bool,
    /// Whether the wait thread blocks on the process before it tries to reap it.
    pub raw_first: bool,
    /// How long to wait before the kill, in milliseconds.
    pub delay_before_kill_ms: u64,
}

impl View for Scenario {
    type V = ScenarioView;

    open spec fn view(&self) -> ScenarioView {
        ScenarioView {
            name: self.name@,
            target: self.target,
            bare: self.bare,
            job_object: self.job_object,
            raw_first: self.raw_first,
            delay_before_kill_ms: self.delay_before_kill_ms,
        }
    }
}

/// A scenario without a wait thread.
pub open spec fn bare_view(name: Seq<char>, target: Target, job_object: bool) -> ScenarioView {
    ScenarioView {
        name,
        target,
        bare: true,
        job_object,
        raw_first: false,
        delay_before_kill_ms: 0,
    }
}

/// A scenario with a wait thread.
pub open spec fn full_view(
    name: Seq<char>,
    target: Target,
    job_object: bool,
    raw_first: bool,
    delay_before_kill_ms: u64,
) -> ScenarioView {
    ScenarioView { name, target, bare: false, job_object, raw_first, delay_before_kill_ms }
}

/// All scenarios, in the order in which the driver runs them.
pub open spec fn scenario_table() -> Seq<ScenarioView> {
    seq![
        bare_view("bare-plain"@, Target::LongRunning, false),
        bare_view("bare-job"@, Target::LongRunning, true),
        bare_view("bare-job-tree"@, Target::TreeRunning, true),
        full_view("poll-plain"@, Target::LongRunning, false, false, 500),
        full_view("poll-job"@, Target::LongRunning, true, false, 500),
        full_view("poll-job-tree"@, Target::TreeRunning, true, false, 500),
        full_view("raw-plain"@, Target::LongRunning, false, true, 500),
        full_view("raw-job"@, Target::LongRunning, true, true, 500),
        full_view("raw-job-tree"@, Target::TreeRunning, true, true, 500),
        full_view("raw-job-orphan"@, Target::WrapperExitsFast, true, true, 3000),
        full_view("raw-job-instant"@, Target::LongRunning, true, true, 0),
    ]
}

/// The views of scenarios, in order.
pub open spec fn scenario_views(all: Seq<Scenario>) -> Seq<ScenarioView> {
    all.map_values(|scenario: Scenario| scenario@)
}

fn bare(name: &'static str, target: Target, job_object: bool) -> (scenario: Scenario)
    ensures
        scenario@ == bare_view(name@, target, job_object),
{
    Scenario { name, target, bare: true, job_object, raw_first: false, delay_before_kill_ms: 0 }
}

fn full(
    name: &'static str,
    target: Target,
    job_object: bool,
    raw_first: bool,
    delay_before_kill_ms: u64,
) -> (scenario: Scenario)
    ensures
        scenario@ == full_view(name@, target, job_object, raw_first, delay_before_kill_ms),
{
    Scenario { name, target, bare: false, job_object, raw_first, delay_before_kill_ms }
}

/// All scenarios, in the order in which the driver runs them.
pub fn all_scenarios() -> (all: Vec<Scenario>)
    ensures
        scenario_views(all@) == scenario_table(),
{
    let mut all: Vec<Scenario> = Vec::new();
    all.push(bare("bare-plain", Target::LongRunning, false));
    all.push(bare("bare-job", Target::LongRunning, true));
    all.push(bare("bare-job-tree", Target::TreeRunning, true));
    all.push(full("poll-plain", Target::LongRunning, false, false, 500));
    all.push(full("poll-job", Target::LongRunning, true, false, 500));
    all.push(full("poll-job-tree", Target::TreeRunning, true, false, 500));
    all.push(full("raw-plain", Target::LongRunning, false, true, 500));
    all.push(full("raw-job", Target::LongRunning, true, true, 500));
    all.push(full("raw-job-tree", Target::TreeRunning, true, true, 500));
    all.push(full("raw-job-orphan", Target::WrapperExitsFast, true, true, 3000));
    all.push(full("raw-job-instant", Target::LongRunning, true, true, 0));
    assert(scenario_views(all@) =~= scenario_table());
    all
}

/// Whether some scenario has this name.
pub open spec fn is_scenario(name: Seq<char>) -> bool {
    exists|i: int| 0 <= i < scenario_table().len() && (#[trigger] scenario_table()[i]).name == name
}

/// The scenario of a given name.
pub fn find_scenario(name: &str) -> (found: Option<Scenario>)
    ensures
        match found {
            Some(scenario) => scenario_table().contains(scenario@) && scenario@.name == name@,
            None => !is_scenario(name@),
        },
{
    let mut rest = all_scenarios();
    let wanted: String = name.to_owned();
    loop
        invariant
            wanted@ == name@,
            rest@.len() <= scenario_table().len(),
            scenario_views(rest@) == scenario_table().take(rest@.len() as int),
            forall|i: int|
                rest@.len() <= i < scenario_table().len() ==> (#[trigger] scenario_table()[i]).name
                    != name@,
        decreases rest@.len(),
    {
        let ghost before = rest@;
        match rest.pop() {
            None => {
                return None;
            },
            Some(scenario) => {
                proof {
                    let last = before.len() - 1;
                    assert(scenario_views(before)[last] == scenario@);
                    assert(scenario_table()[last] == scenario@);
                    assert(scenario_views(rest@) =~= scenario_table().take(last));
                }
                if scenario.name.to_owned() == wanted {
                    return Some(scenario);
                }
            },
        }
    }
}

/// No two scenarios share a name, so a name stands for one scenario at most.
pub proof fn law_scenario_names_differ(i: int, j: int)
    requires
        0 <= i < j < scenario_table().len(),
    ensures
        scenario_table()[i].name != scenario_table()[j].name,
{
    reveal_strlit("bare-plain");
    reveal_strlit("bare-job");
    reveal_strlit("bare-job-tree");
    reveal_strlit("poll-plain");
    reveal_strlit("poll-job");
    reveal_strlit("poll-job-tree");
    reveal_strlit("raw-plain");
    reveal_strlit("raw-job");
    reveal_strlit("raw-job-tree");
    reveal_strlit("raw-job-orphan");
    reveal_strlit("raw-job-instant");
    // The length and the first letter tell any two names apart.
    let a = scenario_table()[i].name;
    let b = scenario_table()[j].name;
    assert(a.len() != b.len() || a[0] != b[0]);
}

/// A command of the parent's streams, with its program and arguments given as text.
pub open spec fn command_view(program: Seq<char>, args: Seq<Seq<char>>) -> CommandView {
    CommandView {
        args: args.map_values(|arg: Seq<char>| encode_utf8(arg)),
        ..CommandView::plain(encode_utf8(program))
    }
}

impl Target {
    /// The command that a target runs.
    pub open spec fn spec_command(self) -> CommandView {
        match self {
            Target::LongRunning => command_view("ping"@, seq!["-n"@, "90"@, "127.0.0.1"@]),
            Target::TreeRunning => command_view(
                "cmd"@,
                seq![
                    "/C"@,
                    "start /B ping -n 90 127.0.0.1 > NUL & ping -n 90 127.0.0.1 > NUL"@,
                ],
            ),
            Target::WrapperExitsFast => command_view(
                "cmd"@,
                seq!["/C"@, "start /B ping -n 90 127.0.0.1 > NUL"@],
            ),
        }
    }

    /// The command that a target runs.
    pub fn command(&self) -> (command: Command)
        ensures
            command@ == self.spec_command(),
    {
        match self {
            Target::LongRunning => long_running(),
            Target::TreeRunning => tree_running(),
            Target::WrapperExitsFast => wrapper_exits_fast(),
        }
    }
}

/// A long-running command that stays alive for about 90 seconds.
pub fn long_running() -> (command: Command)
    ensures
        command@ == Target::LongRunning.spec_command(),
{
    let command = Command::plain("ping".as_bytes()).arg("-n".as_bytes()).arg("90".as_bytes()).arg(
        "127.0.0.1".as_bytes(),
    );
    assert(command@ =~= Target::LongRunning.spec_command());
    command
}

/// A shell that backgrounds a grandchild, which survives the shell, and stays alive itself.
pub fn tree_running() -> (command: Command)
    ensures
        command@ == Target::TreeRunning.spec_command(),
{
    let command = Command::plain("cmd".as_bytes()).arg("/C".as_bytes()).arg(
        "start /B ping -n 90 127.0.0.1 > NUL & ping -n 90 127.0.0.1 > NUL".as_bytes(),
    );
    assert(command@ =~= Target::TreeRunning.spec_command());
    command
}

/// A shell that backgrounds a grandchild and exits immediately.
pub fn wrapper_exits_fast() -> (command: Command)
    ensures
        command@ == Target::WrapperExitsFast.spec_command(),
{
    let command = Command::plain("cmd".as_bytes()).arg("/C".as_bytes()).arg(
        "start /B ping -n 90 127.0.0.1 > NUL".as_bytes(),
    );
    assert(command@ =~= Target::WrapperExitsFast.spec_command());
    command
}

/// The command that a scenario spawns: that of its target, with no streams, and in a process group
/// or job object if `job_object` is set.
pub fn wrap(command: Command, job_object: bool) -> (wrapped: Command)
    ensures
        wrapped@ == (CommandView {
            stdin: Stdio::Null,
            stdout: Stdio::Null,
            stderr: Stdio::Null,
            process_group: job_object,
            ..command@
        }),
{
    command.null_stdio().set_process_group(job_object)
}

/// A step of a scenario.
#[derive(Debug, Clone, Copy, PartialEq, Eq, Structural)]
pub enum Step {
    /// Start the watchdog.
    Watchdog,
    /// Say what is run.
    Banner,
    /// Enter a stage.
    Stage(usize),
    /// Spawn the child.
    Spawn,
    /// Say which process the child is.
    ReportPid,
    /// Start the wait thread.
    StartWaiter {
        /// Whether it blocks on the process before it tries to reap it.
        raw_first: bool,
    },
    /// Sleep for so many milliseconds.
    Delay(u64),
    /// Lock the child.
    Lock,
    /// Kill the child.
    Kill,
    /// Unlock the child.
    Unlock,
    /// Wait for the report of the wait thread.
    AwaitReport,
    /// Say that all went well.
    Passed,
}

/// The steps of a scenario with a wait thread.
pub open spec fn scenario_steps(raw_first: bool, delay_before_kill_ms: u64) -> Seq<Step> {
    seq![
        Step::Watchdog,
        Step::Banner,
        Step::Stage(0),
        Step::Spawn,
        Step::ReportPid,
        Step::Stage(1),
        Step::StartWaiter { raw_first },
        Step::Stage(2),
    ] + (if delay_before_kill_ms > 0 {
        seq![Step::Delay(delay_before_kill_ms)]
    } else {
        Seq::empty()
    }) + seq![
        Step::Stage(3),
        Step::Lock,
        Step::Stage(4),
        Step::Kill,
        Step::Unlock,
        Step::Stage(5),
        Step::AwaitReport,
        Step::Stage(6),
        Step::Stage(7),
        Step::Passed,
    ]
}

/// The steps of a scenario without a wait thread.
pub open spec fn bare_steps() -> Seq<Step> {
    seq![
        Step::Watchdog,
        Step::Banner,
        Step::Stage(0),
        Step::Spawn,
        Step::ReportPid,
        Step::Stage(1),
        Step::Stage(4),
        Step::Kill,
        Step::Stage(5),
        Step::Stage(7),
        Step::Passed,
    ]
}

/// The full scenario: spawn, wait thread, optional settle delay, then kill through the lock.
pub fn run_scenario(raw_first: bool, delay_before_kill_ms: u64) -> (steps: Vec<Step>)
    ensures
        steps@ == scenario_steps(raw_first, delay_before_kill_ms),
{
    let mut steps: Vec<Step> = Vec::new();
    steps.push(Step::Watchdog);
    steps.push(Step::Banner);
    steps.push(Step::Stage(0));
    steps.push(Step::Spawn);
    steps.push(Step::ReportPid);
    steps.push(Step::Stage(1));
    steps.push(Step::StartWaiter { raw_first });
    steps.push(Step::Stage(2));
    if delay_before_kill_ms > 0 {
        steps.push(Step::Delay(delay_before_kill_ms));
    }
    steps.push(Step::Stage(3));
    steps.push(Step::Lock);
    steps.push(Step::Stage(4));
    steps.push(Step::Kill);
    steps.push(Step::Unlock);
    steps.push(Step::Stage(5));
    steps.push(Step::AwaitReport);
    steps.push(Step::Stage(6));
    steps.push(Step::Stage(7));
    steps.push(Step::Passed);
    assert(steps@ =~= scenario_steps(raw_first, delay_before_kill_ms));
    steps
}

/// The minimal scenario: no wait thread at all.
pub fn run_bare_kill() -> (steps: Vec<Step>)
    ensures
        steps@ == bare_steps(),
{
    let mut steps: Vec<Step> = Vec::new();
    steps.push(Step::Watchdog);
    steps.push(Step::Banner);
    steps.push(Step::Stage(0));
    steps.push(Step::Spawn);
    steps.push(Step::ReportPid);
    steps.push(Step::Stage(1));
    steps.push(Step::Stage(4));
    steps.push(Step::Kill);
    steps.push(Step::Stage(5));
    steps.push(Step::Stage(7));
    steps.push(Step::Passed);
    assert(steps@ =~= bare_steps());
    steps
}

/// The steps of a scenario.
pub open spec fn steps_of(scenario: ScenarioView) -> Seq<Step> {
    if scenario.bare {
        bare_steps()
    } else {
        scenario_steps(scenario.raw_first, scenario.delay_before_kill_ms)
    }
}

impl Scenario {
    /// The steps to take, in order.
    pub fn steps(&self) -> (steps: Vec<Step>)
        ensures
            steps@ == steps_of(self@),
    {
        if self.bare {
            run_bare_kill()
        } else {
            run_scenario(self.raw_first, self.delay_before_kill_ms)
        }
    }
}

/// The wait thread of a scenario: it blocks on the process `pid` first, or tries to reap it right
/// away.
pub fn spawn_wait_thread(pid: u32, raw_first: bool) -> (reaper: Reaper)
    ensures
        reaper@ == (ReaperView {
            pid,
            pending: if raw_first {
                ReapAction::BlockOnExit
            } else {
                ReapAction::TryWait
            },
        }),
{
    if raw_first {
        Reaper::wait_on_child(pid)
    } else {
        Reaper::poll(pid)
    }
}

/// How many stages there are.
pub const STAGE_COUNT: usize = 8;

/// The names of the stages.
pub open spec fn stage_names() -> Seq<Seq<char>> {
    seq![
        "0:init"@,
        "1:spawned"@,
        "2:wait-thread-started"@,
        "3:kill-lock-acquiring"@,
        "4:kill-lock-acquired-calling-kill"@,
        "5:kill-returned"@,
        "6:terminated-event-received"@,
        "7:done"@,
    ]
}

/// The name of stage `n`.
pub fn stage_name(n: usize) -> (name: &'static str)
    requires
        n < STAGE_COUNT,
    ensures
        name@ == stage_names()[n as int],
{
    match n {
        0 => "0:init",
        1 => "1:spawned",
        2 => "2:wait-thread-started",
        3 => "3:kill-lock-acquiring",
        4 => "4:kill-lock-acquired-calling-kill",
        5 => "5:kill-returned",
        6 => "6:terminated-event-received",
        _ => "7:done",
    }
}

/// Every stage that a scenario enters has a name, and comes after those that it entered before.
pub proof fn law_stages_go_up(scenario: ScenarioView, i: int, j: int)
    requires
        0 <= i < j < steps_of(scenario).len(),
    ensures
        stage_names().len() == STAGE_COUNT,
        steps_of(scenario)[i] matches Step::Stage(n) ==> n < STAGE_COUNT,
        steps_of(scenario)[i] matches Step::Stage(n) ==> (steps_of(scenario)[j] matches Step::Stage(
            m,
        ) ==> n < m),
{
}

/// A scenario with a wait thread waits for its report once, after the kill has returned and before
/// it enters the stage that says that the report was received: without a report it never gets
/// there. A scenario without a wait thread waits for none.
pub proof fn law_report_before_received(scenario: ScenarioView, i: int, j: int)
    requires
        0 <= i < steps_of(scenario).len(),
        0 <= j < steps_of(scenario).len(),
        steps_of(scenario)[i] == Step::AwaitReport,
    ensures
        !scenario.bare,
        steps_of(scenario)[j] == Step::AwaitReport ==> i == j,
        steps_of(scenario)[j] == Step::Kill ==> j < i,
        steps_of(scenario)[j] matches Step::Stage(n) ==> (j < i <==> n < 6),
{
}

/// What the wait thread reports of the end of a child, if it has come.
pub open spec fn report_text(progress: ReapProgress<String, String>) -> Option<Seq<char>> {
    match progress {
        ReapProgress::Going => None,
        ReapProgress::Reaped(status) => Some("terminated: "@ + status@),
        ReapProgress::Failed { during, error } => if during == ReapAction::BlockOnExit {
            Some("raw-wait-error: "@ + error@)
        } else {
            Some("wait-error: "@ + error@)
        },
    }
}

/// What the wait thread reports of the end of a child: its status, or whether the blocking wait or
/// the reaping went wrong.
pub fn report(progress: ReapProgress<String, String>) -> (text: Option<String>)
    ensures
        match text {
            Some(t) => report_text(progress) == Some(t@),
            None => report_text(progress) is None,
        },
{
    match progress {
        ReapProgress::Going => None,
        ReapProgress::Reaped(status) => Some(joined("terminated: ", status.as_str())),
        ReapProgress::Failed { during, error } => {
            if let ReapAction::BlockOnExit = during {
                Some(joined("raw-wait-error: ", error.as_str()))
            } else {
                Some(joined("wait-error: ", error.as_str()))
            }
        },
    }
}

/// Two texts put together.
fn joined(a: &str, b: &str) -> (text: String)
    ensures
        text@ == a@ + b@,
{
    let mut text: String = a.to_owned();
    text.append(b);
    text
}

/// A number in decimal digits.
pub open spec fn decimal(n: nat) -> Seq<char>
    decreases n,
{
    if n < 10 {
        seq![(48 + n) as char]
    } else {
        decimal(n / 10).push((48 + n % 10) as char)
    }
}

/// A truth value as text.
pub open spec fn bool_text(b: bool) -> Seq<char> {
    if b {
        "true"@
    } else {
        "false"@
    }
}

fn push_bool(text: &mut String, b: bool)
    ensures
        final(text)@ == old(text)@ + bool_text(b),
{
    if b {
        text.append("true");
    } else {
        text.append("false");
    }
}

fn push_decimal(text: &mut String, n: u64)
    ensures
        final(text)@ == old(text)@ + decimal(n as nat),
    decreases n,
{
    let ghost start = text@;
    if n >= 10 {
        push_decimal(text, n / 10);
    }
    let ghost front = text@;
    let digit: u64 = n % 10;
    proof {
        reveal_strlit("0");
        reveal_strlit("1");
        reveal_strlit("2");
        reveal_strlit("3");
        reveal_strlit("4");
        reveal_strlit("5");
        reveal_strlit("6");
        reveal_strlit("7");
        reveal_strlit("8");
        reveal_strlit("9");
    }
    match digit {
        0 => text.append("0"),
        1 => text.append("1"),
        2 => text.append("2"),
        3 => text.append("3"),
        4 => text.append("4"),
        5 => text.append("5"),
        6 => text.append("6"),
        7 => text.append("7"),
        8 => text.append("8"),
        _ => text.append("9"),
    }
    assert(text@ =~= front.push((48 + digit) as char));
    assert(text@ =~= start + decimal(n as nat));
}

/// What a scenario says of itself before it starts.
pub open spec fn banner_text(scenario: ScenarioView) -> Seq<char> {
    if scenario.bare {
        "=== scenario "@ + scenario.name + " (bare kill, job_object="@ + bool_text(
            scenario.job_object,
        ) + ") ==="@
    } else {
        "=== scenario "@ + scenario.name + " (job_object="@ + bool_text(scenario.job_object)
            + ", raw_first="@ + bool_text(scenario.raw_first) + ", delay="@ + decimal(
            scenario.delay_before_kill_ms as nat,
        ) + "ms) ==="@
    }
}

impl Scenario {
    /// What the scenario says of itself before it starts.
    pub fn banner(&self) -> (text: String)
        ensures
            text@ == banner_text(self@),
    {
        let mut text: String = joined("=== scenario ", self.name);
        if self.bare {
            text.append(" (bare kill, job_object=");
            push_bool(&mut text, self.job_object);
            text.append(") ===");
        } else {
            text.append(" (job_object=");
            push_bool(&mut text, self.job_object);
            text.append(", raw_first=");
            push_bool(&mut text, self.raw_first);
            text.append(", delay=");
            push_decimal(&mut text, self.delay_before_kill_ms);
            text.append("ms) ===");
        }
        text
    }

    /// What the scenario says when all went well.
    pub fn passed(&self) -> (text: String)
        ensures
            text@ == "=== scenario "@ + self@.name + " OK ==="@,
    {
        let mut text: String = joined("=== scenario ", self.name);
        text.append(" OK ===");
        text
    }

    /// What the watchdog says of a scenario that hangs after stage `n`.
    pub fn hung(&self, n: usize) -> (text: String)
        requires
            n < STAGE_COUNT,
        ensures
            text@ == "WATCHDOG: scenario "@ + self@.name + " HUNG after stage "@
                + stage_names()[n as int],
    {
        let mut text: String = joined("WATCHDOG: scenario ", self.name);
        text.append(" HUNG after stage ");
        text.append(stage_name(n));
        text
    }
}

/// What the program is to do.
#[derive(Debug)]
pub enum Invocation {
    /// Run every scenario, each in a process of its own.
    Driver,
    /// Run one scenario.
    Run(Scenario),
    /// There is no such scenario.
    Unknown(String),
}

/// What the program is to do, from its arguments: the first after its own name is the scenario.
pub fn invocation(args: &Vec<String>) -> (what: Invocation)
    ensures
        match what {
            Invocation::Driver => args@.len() < 2,
            Invocation::Run(scenario) => {
                &&& args@.len() >= 2
                &&& scenario_table().contains(scenario@)
                &&& scenario@.name == args@[1]@
            },
            Invocation::Unknown(name) => {
                &&& args@.len() >= 2
                &&& name@ == args@[1]@
                &&& !is_scenario(name@)
            },
        },
{
    if args.len() < 2 {
        return Invocation::Driver;
    }
    match find_scenario(args[1].as_str()) {
        Some(scenario) => Invocation::Run(scenario),
        None => Invocation::Unknown(args[1].clone()),
    }
}

/// The names of the scenarios that did not succeed, in order.
pub open spec fn failed_names(results: Seq<(Scenario, bool)>) -> Seq<Seq<char>>
    decreases results.len(),
{
    if results.len() == 0 {
        Seq::empty()
    } else {
        let before = failed_names(results.drop_last());
        if results.last().1 {
            before
        } else {
            before.push(results.last().0@.name)
        }
    }
}

/// The names of the scenarios that did not succeed, in the order in which they ran.
pub fn failures(results: &Vec<(Scenario, bool)>) -> (failed: Vec<&'static str>)
    ensures
        failed@.map_values(|name: &'static str| name@) == failed_names(results@),
{
    let mut failed: Vec<&'static str> = Vec::new();
    let mut i: usize = 0;
    assert(failed@.map_values(|name: &'static str| name@) =~= failed_names(results@.take(0)));
    while i < results.len()
        invariant
            i <= results.len(),
            failed@.map_values(|name: &'static str| name@) == failed_names(results@.take(i as int)),
        decreases results.len() - i,
    {
        let ghost before = failed@;
        assert(results@.take(i + 1).drop_last() =~= results@.take(i as int));
        if !results[i].1 {
            failed.push(results[i].0.name);
            assert(failed@.map_values(|name: &'static str| name@) =~= before.map_values(
                |name: &'static str| name@,
            ).push(results@[i as int].0@.name));
        }
        i = i + 1;
    }
    assert(results@.take(i as int) =~= results@);
    failed
}

/// The exit code of a scenario once it has waited for the report of the wait thread, if it is over:
/// it goes on only if the report came.
pub fn after_report(came: bool) -> (code: Option<i32>)
    ensures
        code == (if came {
            None
        } else {
            Some(EXIT_NO_REPORT)
        }),
{
    if came {
        None
    } else {
        Some(EXIT_NO_REPORT)
    }
}

/// The exit code of the driver, if it is not that of success: there were failures.
pub fn driver_exit(failed: &Vec<&'static str>) -> (code: Option<i32>)
    ensures
        code == (if failed@.len() == 0 {
            None
        } else {
            Some(EXIT_FAILURES)
        }),
{
    if failed.is_empty() {
        None
    } else {
        Some(EXIT_FAILURES)
    }
}

/// Whether `word` stands in a name at `start`, up to a hyphen or the end of the name.
pub open spec fn has_word(name: Seq<char>, start: int, word: Seq<char>) -> bool {
    &&& 0 <= start
    &&& start + word.len() <= name.len()
    &&& forall|k: int| 0 <= k < word.len() ==> #[trigger] word[k] == name[start + k]
    &&& start + word.len() < name.len() ==> name[start + word.len()] == '-'
}

/// The name of a scenario tells what it does. Its first word is how it waits: not at all, by
/// polling, or by blocking on the process first. Its second word is whether the child is in a job
/// object. Its third word, if there is one, is what it kills or when.
pub proof fn law_names_tell_what_scenarios_do(i: int)
    requires
        0 <= i < scenario_table().len(),
    ensures
        ({
            let scenario = scenario_table()[i];
            let name = scenario.name;
            let second = if scenario.raw_first {
                4int
            } else {
                5int
            };
            &&& scenario.bare <==> has_word(name, 0, "bare"@)
            &&& scenario.raw_first <==> has_word(name, 0, "raw"@)
            &&& !scenario.bare && !scenario.raw_first <==> has_word(name, 0, "poll"@)
            &&& scenario.job_object <==> has_word(name, second, "job"@)
            &&& !scenario.job_object <==> has_word(name, second, "plain"@)
            &&& scenario.target == Target::TreeRunning <==> has_word(name, second + 4, "tree"@)
            &&& scenario.target == Target::WrapperExitsFast <==> has_word(
                name,
                second + 4,
                "orphan"@,
            )
            &&& scenario.delay_before_kill_ms == (if scenario.bare || has_word(
                name,
                second + 4,
                "instant"@,
            ) {
                0u64
            } else if has_word(name, second + 4, "orphan"@) {
                3000u64
            } else {
                500u64
            })
        }),
{
    reveal_strlit("bare-plain");
    reveal_strlit("bare-job");
    reveal_strlit("bare-job-tree");
    reveal_strlit("poll-plain");
    reveal_strlit("poll-job");
    reveal_strlit("poll-job-tree");
    reveal_strlit("raw-plain");
    reveal_strlit("raw-job");
    reveal_strlit("raw-job-tree");
    reveal_strlit("raw-job-orphan");
    reveal_strlit("raw-job-instant");
    reveal_strlit("bare");
    reveal_strlit("poll");
    reveal_strlit("raw");
    reveal_strlit("plain");
    reveal_strlit("job");
    reveal_strlit("tree");
    reveal_strlit("orphan");
    reveal_strlit("instant");
    let scenario = scenario_table()[i];
    let name = scenario.name;
    let second = if scenario.raw_first {
        4int
    } else {
        5int
    };
    lemma_first_letter(name, 0, "bare"@);
    lemma_first_letter(name, 0, "raw"@);
    lemma_first_letter(name, 0, "poll"@);
    lemma_first_letter(name, second, "job"@);
    lemma_first_letter(name, second, "plain"@);
    lemma_first_letter(name, second + 4, "tree"@);
    lemma_first_letter(name, second + 4, "orphan"@);
    lemma_first_letter(name, second + 4, "instant"@);
}

/// A word that stands in a name starts with its first letter.
proof fn lemma_first_letter(name: Seq<char>, start: int, word: Seq<char>)
    requires
        word.len() > 0,
    ensures
        has_word(name, start, word) ==> start + word.len() <= name.len() && name[start] == word[0],
{
    assert(word[0] == word[0]);
}

/// The scenarios are a matrix of three ways to wait and three things to kill, and two more that
/// block first: in each row a single process, one in a job object and a tree in one.
pub proof fn law_scenario_matrix(i: int)
    requires
        0 <= i < scenario_table().len(),
    ensures
        scenario_table().len() == 11,
        ({
            let scenario = scenario_table()[i];
            &&& scenario.bare <==> i < 3
            &&& scenario.raw_first <==> i >= 6
            &&& scenario.job_object <==> i != 0 && i != 3 && i != 6
            &&& scenario.target == Target::TreeRunning <==> i == 2 || i == 5 || i == 8
            &&& scenario.target == Target::WrapperExitsFast <==> i == 9
        }),
{
}

/// A command for a shell or a program runs as it is written: the text of the program and of each
/// argument, with the streams and the environment of the parent, and in no group of its own.
pub proof fn law_commands_are_as_written(program: Seq<char>, args: Seq<Seq<char>>)
    ensures
        ({
            let command = command_view(program, args);
            &&& command.program == encode_utf8(program)
            &&& command.args.len() == args.len()
            &&& forall|i: int|
                0 <= i < args.len() ==> #[trigger] command.args[i] == encode_utf8(args[i])
            &&& !command.env_clear
            &&& command.env.len() == 0
            &&& command.current_dir is None
            &&& command.stdin == Stdio::Inherit
            &&& command.stdout == Stdio::Inherit
            &&& command.stderr == Stdio::Inherit
            &&& command.creation_flags == 0
            &&& !command.raw_out
            &&& !command.process_group
        }),
{
}

/// What a scenario kills keeps a process running for ninety pings: the program itself, or a shell
/// that puts one in the background. The tree does that and then pings in the foreground too, and
/// the fast wrapper does nothing more.
pub proof fn law_targets_ping(target: Target)
    ensures
        target == Target::LongRunning ==> target.spec_command() == command_view(
            "ping"@,
            seq!["-n"@, "90"@, "127.0.0.1"@],
        ),
        target != Target::LongRunning ==> {
            &&& target.spec_command().program == encode_utf8("cmd"@)
            &&& target.spec_command().args.len() == 2
            &&& target.spec_command().args[0] == encode_utf8("/C"@)
        },
        Target::WrapperExitsFast.spec_command().args[1] == encode_utf8(
            "start /B ping -n 90 127.0.0.1 > NUL"@,
        ),
        Target::TreeRunning.spec_command().args[1] == encode_utf8(
            "start /B ping -n 90 127.0.0.1 > NUL & ping -n 90 127.0.0.1 > NUL"@,
        ),
        !target.spec_command().process_group,
        !target.spec_command().raw_out,
        target.spec_command().env.len() == 0,
        !target.spec_command().env_clear,
{
}

/// What a scenario does next is fixed by what it has just done. It starts with the watchdog and the
/// banner. The child is spawned between the first two stages, and the wait thread is started right
/// after. The kill is between taking and giving back the lock, and the report is waited for after
/// that; a scenario without a wait thread kills at once and waits for nothing.
pub proof fn law_steps_follow(scenario: ScenarioView, i: int)
    requires
        0 <= i < steps_of(scenario).len(),
    ensures
        ({
            let steps = steps_of(scenario);
            let delay = scenario.delay_before_kill_ms;
            let last = i == steps.len() - 1;
            let next = steps[i + 1];
            &&& steps[0] == Step::Watchdog
            &&& steps[i] == Step::Passed <==> last
            &&& !last ==> match steps[i] {
                Step::Watchdog => next == Step::Banner,
                Step::Banner => next == Step::Stage(0),
                Step::Spawn => next == Step::ReportPid,
                Step::ReportPid => next == Step::Stage(1),
                Step::StartWaiter { raw_first } => !scenario.bare && raw_first
                    == scenario.raw_first && next == Step::Stage(2),
                Step::Delay(ms) => !scenario.bare && ms == delay && ms > 0 && next == Step::Stage(3),
                Step::Lock => !scenario.bare && next == Step::Stage(4),
                Step::Kill => if scenario.bare {
                    next == Step::Stage(5)
                } else {
                    next == Step::Unlock
                },
                Step::Unlock => next == Step::Stage(5),
                Step::AwaitReport => next == Step::Stage(6),
                Step::Passed => false,
                Step::Stage(n) => if n == 0 {
                    next == Step::Spawn
                } else if n == 1 {
                    if scenario.bare {
                        next == Step::Stage(4)
                    } else {
                        next == (Step::StartWaiter { raw_first: scenario.raw_first })
                    }
                } else if n == 2 {
                    if delay > 0 {
                        next == Step::Delay(delay)
                    } else {
                        next == Step::Stage(3)
                    }
                } else if n == 3 {
                    next == Step::Lock
                } else if n == 4 {
                    next == Step::Kill
                } else if n == 5 {
                    if scenario.bare {
                        next == Step::Stage(7)
                    } else {
                        next == Step::AwaitReport
                    }
                } else if n == 6 {
                    next == Step::Stage(7)
                } else {
                    n == 7 && next == Step::Passed
                },
            }
        }),
{
}

/// The name of a stage starts with its number and a colon, and says what has been reached.
pub proof fn law_stage_names_are_numbered(n: int)
    requires
        0 <= n < stage_names().len(),
    ensures
        stage_names().len() == 8,
        stage_names()[n].len() > 2,
        stage_names()[n][0] as int == 48 + n,
        stage_names()[n][1] == ':',
        stage_names()[0] == "0:init"@,
        stage_names()[1] == "1:spawned"@,
        stage_names()[2] == "2:wait-thread-started"@,
        stage_names()[3] == "3:kill-lock-acquiring"@,
        stage_names()[4] == "4:kill-lock-acquired-calling-kill"@,
        stage_names()[5] == "5:kill-returned"@,
        stage_names()[6] == "6:terminated-event-received"@,
        stage_names()[7] == "7:done"@,
{
    reveal_strlit("0:init");
    reveal_strlit("1:spawned");
    reveal_strlit("2:wait-thread-started");
    reveal_strlit("3:kill-lock-acquiring");
    reveal_strlit("4:kill-lock-acquired-calling-kill");
    reveal_strlit("5:kill-returned");
    reveal_strlit("6:terminated-event-received");
    reveal_strlit("7:done");
}

/// The wait thread reports once the reaping is over, and not before: the status or the error, all
/// of it, behind a word for how it ended. Only an error of the blocking wait is called one of the
/// raw wait.
pub proof fn law_reports_say_how_it_ended(status: String, during: ReapAction, error: String)
    ensures
        report_text(ReapProgress::Going) is None,
        report_text(ReapProgress::Reaped(status)) == Some("terminated: "@ + status@),
        during == ReapAction::BlockOnExit ==> report_text(
            ReapProgress::Failed { during, error },
        ) == Some("raw-wait-error: "@ + error@),
        during != ReapAction::BlockOnExit ==> report_text(
            ReapProgress::Failed { during, error },
        ) == Some("wait-error: "@ + error@),
{
}

/// The number that decimal digits stand for.
pub open spec fn decimal_value(digits: Seq<char>) -> int
    decreases digits.len(),
{
    if digits.len() == 0 {
        0
    } else {
        10 * decimal_value(digits.drop_last()) + (digits.last() as int - 48)
    }
}

/// A number that is written in decimal digits is read back from them. Nothing but digits is
/// written, and no zero in front.
pub proof fn law_decimal_is_read_back(n: nat)
    ensures
        decimal_value(decimal(n)) == n,
        decimal(n).len() > 0,
        forall|i: int| 0 <= i < decimal(n).len() ==> 48 <= (#[trigger] decimal(n)[i]) as int <= 57,
        decimal(n)[0] == '0' ==> n == 0,
    decreases n,
{
    if n < 10 {
        assert(decimal(n).drop_last() =~= Seq::empty());
        assert(decimal_value(Seq::<char>::empty()) == 0);
    } else {
        law_decimal_is_read_back(n / 10);
        assert(decimal(n).drop_last() =~= decimal(n / 10));
    }
}

/// The banner of a scenario gives its name and all that it was set to, and whether it goes without
/// a wait thread.
pub proof fn law_banner_says_it_all(scenario: ScenarioView)
    ensures
        bool_text(true) == "true"@,
        bool_text(false) == "false"@,
        scenario.bare ==> banner_text(scenario) == "=== scenario "@ + scenario.name
            + " (bare kill, job_object="@ + (if scenario.job_object {
            "true"@
        } else {
            "false"@
        }) + ") ==="@,
        !scenario.bare ==> banner_text(scenario) == "=== scenario "@ + scenario.name
            + " (job_object="@ + (if scenario.job_object {
            "true"@
        } else {
            "false"@
        }) + ", raw_first="@ + (if scenario.raw_first {
            "true"@
        } else {
            "false"@
        }) + ", delay="@ + decimal(scenario.delay_before_kill_ms as nat) + "ms) ==="@,
{
}

/// The scenarios that failed are those that did not succeed, each of them, in the order in which
/// they ran.
pub proof fn law_failures_are_those_that_failed(
    before: Seq<(Scenario, bool)>,
    scenario: Scenario,
    after: Seq<(Scenario, bool)>,
)
    ensures
        failed_names(before + after) == failed_names(before) + failed_names(after),
        failed_names(seq![(scenario, true)]).len() == 0,
        failed_names(seq![(scenario, false)]) == seq![scenario@.name],
        failed_names(Seq::empty()).len() == 0,
    decreases after.len(),
{
    assert(seq![(scenario, true)].drop_last() =~= Seq::empty());
    assert(seq![(scenario, false)].drop_last() =~= Seq::empty());
    assert(failed_names(Seq::empty()) =~= Seq::empty());
    assert(seq![(scenario, false)].last() == (scenario, false));
    assert(failed_names(seq![(scenario, false)]) =~= seq![scenario@.name]);
    if after.len() == 0 {
        assert(before + after =~= before);
        assert(failed_names(before) + failed_names(after) =~= failed_names(before));
    } else {
        law_failures_are_those_that_failed(before, scenario, after.drop_last());
        assert((before + after).drop_last() =~= before + after.drop_last());
        assert((before + after).last() == after.last());
        assert(failed_names(before + after) =~= failed_names(before) + failed_names(after));
    }
}

/// The contracts see of a scenario what it holds.
pub proof fn law_scenario_views(all: Seq<Scenario>, i: int)
    requires
        0 <= i < all.len(),
    ensures
        scenario_views(all).len() == all.len(),
        scenario_views(all)[i].name == all[i].name@,
        scenario_views(all)[i].target == all[i].target,
        scenario_views(all)[i].bare == all[i].bare,
        scenario_views(all)[i].job_object == all[i].job_object,
        scenario_views(all)[i].raw_first == all[i].raw_first,
        scenario_views(all)[i].delay_before_kill_ms == all[i].delay_before_kill_ms,
{
}

/// A name is that of a scenario exactly if a scenario has it.
pub proof fn law_scenarios_are_known_by_name(scenario: ScenarioView, name: Seq<char>)
    ensures
        scenario_table().contains(scenario) ==> is_scenario(scenario.name),
        is_scenario(name) ==> exists|known: ScenarioView| #[trigger]
            scenario_table().contains(known) && known.name == name,
{
    if scenario_table().contains(scenario) {
        let i = choose|i: int| 0 <= i < scenario_table().len() && scenario_table()[i] == scenario;
        assert(scenario_table()[i].name == scenario.name);
    }
    if is_scenario(name) {
        let i = choose|i: int|
            0 <= i < scenario_table().len() && (#[trigger] scenario_table()[i]).name == name;
        assert(scenario_table().contains(scenario_table()[i]));
    }
}

/// Each way to end badly has an exit code of its own, none of them that of success, and a scenario
/// has more time in all than its report.
pub proof fn law_exit_codes_differ()
    ensures
        EXIT_HUNG == 42,
        EXIT_NO_REPORT == 43,
        EXIT_UNKNOWN == 2,
        EXIT_FAILURES == 1,
        WATCHDOG_SECS == 30,
        REPORT_SECS == 10,
        STAGE_COUNT == 8,
{
}

} // verus!
