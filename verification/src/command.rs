//! The description of a command, built up step by step before it is spawned.
//!
//! Programs, arguments, environment variables and directories are byte strings: the encoded bytes
//! of what the operating system takes.
use crate::error::Error;
#[allow(unused_imports)]
use crate::event::{
    event_views, final_code, output_of_run, run_output, status_of_run, CommandEvent,
};
use crate::platform::Platform;
#[allow(unused_imports)]
use crate::sidecar::{relative_command_path, sidecar_path};
use crate::spawn::{child_wrappers, ChildWrapper, Spawning};
#[allow(unused_imports)]
use crate::spawn::{wrappers, Pipe, SpawnAction};
use crate::status::{ExitStatus, Output};
use vstd::prelude::*;

verus! {

/// The creation flag of Windows by which a console program gets no window.
pub const CREATE_NO_WINDOW: u32 = 0x0800_0000;

/// What a standard stream of the child is connected to.
#[derive(Debug, Clone, Copy, PartialEq, Eq, Structural)]
pub enum Stdio {
    /// The stream of the parent.
    Inherit,
    /// A pipe to the parent.
    Piped,
    /// Nothing.
    Null,
}

/// The type to spawn commands.
#[derive(Debug)]
pub struct Command {
    program: Vec<u8>,
    args: Vec<Vec<u8>>,
    env_clear: bool,
    env: Vec<(Vec<u8>, Vec<u8>)>,
    current_dir: Option<Vec<u8>>,
    stdin: Stdio,
    stdout: Stdio,
    stderr: Stdio,
    creation_flags: u32,
    raw_out: bool,
    process_group: bool,
}

/// A [`Command`] as the contracts speak of it.
#[verifier::ext_equal]
pub struct CommandView {
    /// The program to run.
    pub program: Seq<u8>,
    /// Its arguments, the program itself not among them.
    pub args: Seq<Seq<u8>>,
    /// Whether the child starts from an empty environment.
    pub env_clear: bool,
    /// The variables that are set for the child: names and values, in the order of setting.
    pub env: Seq<(Seq<u8>, Seq<u8>)>,
    /// The working directory, if it is not that of the parent.
    pub current_dir: Option<Seq<u8>>,
    /// What standard input is connected to.
    pub stdin: Stdio,
    /// What standard output is connected to.
    pub stdout: Stdio,
    /// What standard error is connected to.
    pub stderr: Stdio,
    /// The creation flags on Windows.
    pub creation_flags: u32,
    /// Whether output is passed on as received.
    pub raw_out: bool,
    /// Whether the child gets a process group or job object of its own.
    pub process_group: bool,
}

/// One step in the building of a command.
pub enum Setting {
    /// An argument is appended.
    Arg(Seq<u8>),
    /// Arguments are appended.
    Args(Seq<Seq<u8>>),
    /// The environment is cleared.
    EnvClear,
    /// A variable is set.
    Env(Seq<u8>, Seq<u8>),
    /// Variables are set.
    Envs(Seq<(Seq<u8>, Seq<u8>)>),
    /// The working directory is set.
    CurrentDir(Seq<u8>),
    /// The streams are connected to nothing.
    NullStdio,
    /// Raw output is switched on or off.
    RawOut(bool),
    /// The process group is switched on or off.
    ProcessGroup(bool),
}

/// What the parts of a command are, once it is complete.
#[derive(Debug)]
pub struct CommandParts {
    /// The program to run.
    pub program: Vec<u8>,
    /// Its arguments.
    pub args: Vec<Vec<u8>>,
    /// Whether the child starts from an empty environment.
    pub env_clear: bool,
    /// The variables to set for the child, one after the other.
    pub env: Vec<(Vec<u8>, Vec<u8>)>,
    /// The working directory, if it is not that of the parent.
    pub current_dir: Option<Vec<u8>>,
    /// What standard input is connected to.
    pub stdin: Stdio,
    /// What standard output is connected to.
    pub stdout: Stdio,
    /// What standard error is connected to.
    pub stderr: Stdio,
    /// The creation flags on Windows.
    pub creation_flags: u32,
}

impl CommandParts {
    /// Whether these are the parts of `command`.
    pub open spec fn is_of(&self, command: CommandView) -> bool {
        &&& self.program@ == command.program
        &&& byte_views(self.args@) == command.args
        &&& self.env_clear == command.env_clear
        &&& pair_views(self.env@) == command.env
        &&& opt_view(self.current_dir) == command.current_dir
        &&& self.stdin == command.stdin
        &&& self.stdout == command.stdout
        &&& self.stderr == command.stderr
        &&& self.creation_flags == command.creation_flags
    }
}

/// The contents of byte strings, in order.
pub open spec fn byte_views(all: Seq<Vec<u8>>) -> Seq<Seq<u8>> {
    all.map_values(|bytes: Vec<u8>| bytes@)
}

/// The contents of pairs of byte strings, in order.
pub open spec fn pair_views(all: Seq<(Vec<u8>, Vec<u8>)>) -> Seq<(Seq<u8>, Seq<u8>)> {
    all.map_values(|pair: (Vec<u8>, Vec<u8>)| (pair.0@, pair.1@))
}

/// Which names a platform takes for the same variable: on Unix those of the same bytes, on Windows
/// those that differ in nothing but case, by the tables of the system.
pub type SameName = spec_fn(Seq<u8>, Seq<u8>) -> bool;

/// Whether a relation sorts names into variables.
pub open spec fn is_equivalence(same: SameName) -> bool {
    &&& forall|a: Seq<u8>| #[trigger] same(a, a)
    &&& forall|a: Seq<u8>, b: Seq<u8>| #[trigger] same(a, b) ==> same(b, a)
    &&& forall|a: Seq<u8>, b: Seq<u8>, c: Seq<u8>|
        #[trigger] same(a, b) && #[trigger] same(b, c) ==> same(a, c)
}

/// The names that are the same variable on Unix.
pub open spec fn same_bytes_name() -> SameName {
    |a: Seq<u8>, b: Seq<u8>| a == b
}

/// The value that a variable has once all settings are made, one after the other: the last one
/// that it was given.
pub open spec fn value_of(
    settings: Seq<(Seq<u8>, Seq<u8>)>,
    name: Seq<u8>,
    same: SameName,
) -> Option<Seq<u8>>
    decreases settings.len(),
{
    if settings.len() == 0 {
        None
    } else if same(settings.last().0, name) {
        Some(settings.last().1)
    } else {
        value_of(settings.drop_last(), name, same)
    }
}

/// The map that results from making settings one after the other, each name being a key.
pub open spec fn set_all(settings: Seq<(Seq<u8>, Seq<u8>)>) -> Map<Seq<u8>, Seq<u8>>
    decreases settings.len(),
{
    if settings.len() == 0 {
        Map::empty()
    } else {
        set_all(settings.drop_last()).insert(settings.last().0, settings.last().1)
    }
}

/// Optional bytes as the contracts speak of them.
pub open spec fn opt_view(bytes: Option<Vec<u8>>) -> Option<Seq<u8>> {
    match bytes {
        Some(b) => Some(b@),
        None => None,
    }
}

impl View for Command {
    type V = CommandView;

    closed spec fn view(&self) -> CommandView {
        CommandView {
            program: self.program@,
            args: byte_views(self.args@),
            env_clear: self.env_clear,
            env: pair_views(self.env@),
            current_dir: opt_view(self.current_dir),
            stdin: self.stdin,
            stdout: self.stdout,
            stderr: self.stderr,
            creation_flags: self.creation_flags,
            raw_out: self.raw_out,
            process_group: self.process_group,
        }
    }
}

impl CommandView {
    /// The command after one more step.
    pub open spec fn after(self, setting: Setting) -> CommandView {
        match setting {
            Setting::Arg(arg) => CommandView { args: self.args.push(arg), ..self },
            Setting::Args(args) => CommandView { args: self.args + args, ..self },
            Setting::EnvClear => CommandView { env_clear: true, env: Seq::empty(), ..self },
            Setting::Env(key, value) => CommandView { env: self.env.push((key, value)), ..self },
            Setting::Envs(pairs) => CommandView { env: self.env + pairs, ..self },
            Setting::CurrentDir(dir) => CommandView { current_dir: Some(dir), ..self },
            Setting::NullStdio => CommandView {
                stdin: Stdio::Null,
                stdout: Stdio::Null,
                stderr: Stdio::Null,
                ..self
            },
            Setting::RawOut(raw_out) => CommandView { raw_out, ..self },
            Setting::ProcessGroup(process_group) => CommandView { process_group, ..self },
        }
    }

    /// The command after steps, one after the other.
    pub open spec fn after_all(self, settings: Seq<Setting>) -> CommandView
        decreases settings.len(),
    {
        if settings.len() == 0 {
            self
        } else {
            self.after_all(settings.drop_last()).after(settings.last())
        }
    }

    /// The settings that make up the environment map of the child, from those of its parent: the
    /// parent's, unless the map is cleared, and then those of the command.
    pub open spec fn child_env(self, parent: Seq<(Seq<u8>, Seq<u8>)>) -> Seq<(Seq<u8>, Seq<u8>)> {
        if self.env_clear {
            self.env
        } else {
            parent + self.env
        }
    }

    /// The value of `name` in the environment map of the child, which is handed to the system. How
    /// the child reads a name that holds `=` out of it is the system's matter.
    pub open spec fn child_value(
        self,
        parent: Seq<(Seq<u8>, Seq<u8>)>,
        name: Seq<u8>,
        same: SameName,
    ) -> Option<Seq<u8>> {
        value_of(self.child_env(parent), name, same)
    }

    /// A command of which only the program is known, as the operating system takes it.
    pub open spec fn plain(program: Seq<u8>) -> CommandView {
        CommandView {
            program,
            args: Seq::empty(),
            env_clear: false,
            env: Seq::empty(),
            current_dir: None,
            stdin: Stdio::Inherit,
            stdout: Stdio::Inherit,
            stderr: Stdio::Inherit,
            creation_flags: 0,
            raw_out: false,
            process_group: false,
        }
    }

    /// A command of which only the program is known, with its streams piped and no window.
    pub open spec fn fresh(program: Seq<u8>, platform: Platform) -> CommandView {
        CommandView {
            stdin: Stdio::Piped,
            stdout: Stdio::Piped,
            stderr: Stdio::Piped,
            creation_flags: match platform {
                Platform::Windows => CREATE_NO_WINDOW,
                Platform::Unix => 0,
            },
            ..CommandView::plain(program)
        }
    }
}

impl Command {
    /// A command for `program` with no arguments, the environment and the streams of the parent.
    pub fn plain(program: &[u8]) -> (command: Command)
        ensures
            command@ == CommandView::plain(program@),
    {
        let command = Command {
            program: vstd::slice::slice_to_vec(program),
            args: Vec::new(),
            env_clear: false,
            env: Vec::new(),
            current_dir: None,
            stdin: Stdio::Inherit,
            stdout: Stdio::Inherit,
            stderr: Stdio::Inherit,
            creation_flags: 0,
            raw_out: false,
            process_group: false,
        };
        assert(command@ =~= CommandView::plain(program@));
        command
    }

    /// A command for `program`, with its streams piped to the parent and, on Windows, no window.
    pub fn new(program: &[u8], platform: Platform) -> (command: Command)
        ensures
            command@ == CommandView::fresh(program@, platform),
    {
        let creation_flags: u32 = match platform {
            Platform::Windows => CREATE_NO_WINDOW,
            Platform::Unix => 0,
        };
        let plain = Command::plain(program);
        Command {
            stdin: Stdio::Piped,
            stdout: Stdio::Piped,
            stderr: Stdio::Piped,
            creation_flags,
            ..plain
        }
    }

    /// A command for the sidecar `program` of the Unix executable at `exe_path`.
    pub fn new_sidecar(exe_path: &[u8], program: &[u8]) -> (command: Result<Command, Error>)
        ensures
            match command {
                Ok(c) => sidecar_path(exe_path@, program@) is Some && c@ == CommandView::fresh(
                    sidecar_path(exe_path@, program@)->0,
                    Platform::Unix,
                ),
                Err(error) => error == Error::CurrentExeHasNoParent && sidecar_path(
                    exe_path@,
                    program@,
                ) is None,
            },
    {
        match relative_command_path(exe_path, program) {
            Ok(path) => Ok(Command::new(path.as_slice(), Platform::Unix)),
            Err(error) => Err(error),
        }
    }

    /// Appends an argument to the command.
    #[must_use]
    pub fn arg(self, arg: &[u8]) -> (command: Command)
        ensures
            command@ == (CommandView { args: self@.args.push(arg@), ..self@ }),
            command@ == self@.after(Setting::Arg(arg@)),
    {
        let mut args = self.args;
        let bytes = vstd::slice::slice_to_vec(arg);
        args.push(bytes);
        assert(byte_views(args@) =~= byte_views(self.args@).push(arg@));
        Command { args, ..self }
    }

    /// Appends arguments to the command.
    #[must_use]
    pub fn args(self, args: Vec<Vec<u8>>) -> (command: Command)
        ensures
            command@ == (CommandView { args: self@.args + byte_views(args@), ..self@ }),
            command@ == self@.after(Setting::Args(byte_views(args@))),
    {
        let mut all = self.args;
        let mut more = args;
        all.append(&mut more);
        assert(byte_views(all@) =~= byte_views(self.args@) + byte_views(args@));
        Command { args: all, ..self }
    }

    /// Clears the entire environment map for the child process.
    #[must_use]
    pub fn env_clear(self) -> (command: Command)
        ensures
            command@ == (CommandView { env_clear: true, env: Seq::empty(), ..self@ }),
            command@ == self@.after(Setting::EnvClear),
    {
        let env: Vec<(Vec<u8>, Vec<u8>)> = Vec::new();
        assert(pair_views(env@) =~= Seq::empty());
        Command { env_clear: true, env, ..self }
    }

    /// Inserts or updates an explicit environment variable mapping: of several values for the same
    /// variable the last one counts.
    #[must_use]
    pub fn env(self, key: &[u8], value: &[u8]) -> (command: Command)
        ensures
            command@ == (CommandView { env: self@.env.push((key@, value@)), ..self@ }),
            command@ == self@.after(Setting::Env(key@, value@)),
    {
        let mut env = self.env;
        let pair = (vstd::slice::slice_to_vec(key), vstd::slice::slice_to_vec(value));
        env.push(pair);
        assert(pair_views(env@) =~= pair_views(self.env@).push((key@, value@)));
        Command { env, ..self }
    }

    /// Adds or updates multiple environment variable mappings.
    #[must_use]
    pub fn envs(self, envs: Vec<(Vec<u8>, Vec<u8>)>) -> (command: Command)
        ensures
            command@ == (CommandView { env: self@.env + pair_views(envs@), ..self@ }),
            command@ == self@.after(Setting::Envs(pair_views(envs@))),
    {
        let mut all = self.env;
        let mut more = envs;
        all.append(&mut more);
        assert(pair_views(all@) =~= pair_views(self.env@) + pair_views(envs@));
        Command { env: all, ..self }
    }

    /// Sets the working directory for the child process.
    #[must_use]
    pub fn current_dir(self, current_dir: &[u8]) -> (command: Command)
        ensures
            command@ == (CommandView { current_dir: Some(current_dir@), ..self@ }),
            command@ == self@.after(Setting::CurrentDir(current_dir@)),
    {
        Command { current_dir: Some(vstd::slice::slice_to_vec(current_dir)), ..self }
    }

    /// Connects all three standard streams to nothing.
    #[must_use]
    pub fn null_stdio(self) -> (command: Command)
        ensures
            command@ == (CommandView {
                stdin: Stdio::Null,
                stdout: Stdio::Null,
                stderr: Stdio::Null,
                ..self@
            }),
            command@ == self@.after(Setting::NullStdio),
    {
        Command { stdin: Stdio::Null, stdout: Stdio::Null, stderr: Stdio::Null, ..self }
    }

    /// Configures the reader to output bytes from the child process exactly as received
    pub fn set_raw_out(self, raw_out: bool) -> (command: Command)
        ensures
            command@ == (CommandView { raw_out, ..self@ }),
            command@ == self@.after(Setting::RawOut(raw_out)),
    {
        Command { raw_out, ..self }
    }

    /// Configures the command to spawn in a new process group (POSIX) or job object (Windows).
    ///
    /// When enabled, killing the child process will also kill all processes in the group,
    /// which is useful for programs that spawn child processes (e.g. PyInstaller wrappers).
    #[must_use]
    pub fn set_process_group(self, process_group: bool) -> (command: Command)
        ensures
            command@ == (CommandView { process_group, ..self@ }),
            command@ == self@.after(Setting::ProcessGroup(process_group)),
    {
        Command { process_group, ..self }
    }

    /// Takes the command apart, for the operating system to run.
    pub fn into_parts(self) -> (parts: CommandParts)
        ensures
            parts.is_of(self@),
    {
        CommandParts {
            program: self.program,
            args: self.args,
            env_clear: self.env_clear,
            env: self.env,
            current_dir: self.current_dir,
            stdin: self.stdin,
            stdout: self.stdout,
            stderr: self.stderr,
            creation_flags: self.creation_flags,
        }
    }

    /// Spawns the command: the actions to take, the parts of the process to start and what it is
    /// wrapped in.
    pub fn spawn(self, platform: Platform) -> (spawn: (Spawning, CommandParts, Vec<ChildWrapper>))
        ensures
            spawn.0@ == (self@.raw_out, SpawnAction::OpenPipe(Pipe::Stdout)),
            spawn.1.is_of(self@),
            spawn.2@ == wrappers(self@.process_group, platform),
    {
        let spawning = Spawning::start(self.raw_out);
        let all = child_wrappers(self.process_group, platform);
        (spawning, self.into_parts(), all)
    }

    /// The exit status of a run, from all the events that it sent.
    pub fn status(events: &Vec<CommandEvent>) -> (status: ExitStatus)
        ensures
            status@ == final_code(event_views(events@)),
    {
        status_of_run(events)
    }

    /// The output of a run, from all the events that it sent.
    pub fn output(events: &Vec<CommandEvent>) -> (output: Output)
        ensures
            output@ == run_output(event_views(events@)),
    {
        output_of_run(events)
    }
}

/// A variable that is set has that value in the environment of the child, whatever the parent has,
/// and every other variable is what it was. Which names are the same variable is up to the
/// platform.
pub proof fn law_env_reaches_child(
    command: CommandView,
    key: Seq<u8>,
    value: Seq<u8>,
    parent: Seq<(Seq<u8>, Seq<u8>)>,
    name: Seq<u8>,
    same: SameName,
)
    ensures
        (CommandView { env: command.env.push((key, value)), ..command }).child_value(
            parent,
            name,
            same,
        ) == if same(key, name) {
            Some(value)
        } else {
            command.child_value(parent, name, same)
        },
{
    let set = CommandView { env: command.env.push((key, value)), ..command };
    assert(set.child_env(parent) =~= command.child_env(parent).push((key, value)));
    assert(set.child_env(parent).drop_last() =~= command.child_env(parent));
}

/// Setting many variables at once is setting them one after the other.
pub proof fn law_envs_reach_child(
    command: CommandView,
    pairs: Seq<(Seq<u8>, Seq<u8>)>,
    last: (Seq<u8>, Seq<u8>),
)
    ensures
        command.env + pairs.push(last) == (command.env + pairs).push(last),
        command.env + Seq::<(Seq<u8>, Seq<u8>)>::empty() == command.env,
{
    assert(command.env + pairs.push(last) =~= (command.env + pairs).push(last));
    assert(command.env + Seq::<(Seq<u8>, Seq<u8>)>::empty() =~= command.env);
}

/// After the environment is cleared, the child has nothing of what was set before, and nothing of
/// its parent, whatever is set later.
pub proof fn law_env_clear_forgets(
    command: CommandView,
    pairs: Seq<(Seq<u8>, Seq<u8>)>,
    parent: Seq<(Seq<u8>, Seq<u8>)>,
    name: Seq<u8>,
    same: SameName,
)
    ensures
        ({
            let cleared = CommandView { env_clear: true, env: Seq::empty(), ..command };
            let later = CommandView { env: cleared.env + pairs, ..cleared };
            &&& cleared.child_value(parent, name, same) is None
            &&& later.child_value(parent, name, same) == value_of(pairs, name, same)
        }),
{
    assert(Seq::<(Seq<u8>, Seq<u8>)>::empty() + pairs =~= pairs);
}

/// Names that the platform takes for the same variable have the same value, however each of them
/// was spelled when it was set.
pub proof fn law_one_variable_one_value(
    settings: Seq<(Seq<u8>, Seq<u8>)>,
    a: Seq<u8>,
    b: Seq<u8>,
    same: SameName,
)
    requires
        is_equivalence(same),
        same(a, b),
    ensures
        value_of(settings, a, same) == value_of(settings, b, same),
    decreases settings.len(),
{
    if settings.len() > 0 {
        law_one_variable_one_value(settings.drop_last(), a, b, same);
    }
}

/// On Unix, where names are the same variable if their bytes are the same, the settings are a map
/// from names to values.
pub proof fn law_unix_env_is_a_map(settings: Seq<(Seq<u8>, Seq<u8>)>, name: Seq<u8>)
    ensures
        is_equivalence(same_bytes_name()),
        value_of(settings, name, same_bytes_name()) == (if set_all(settings).contains_key(name) {
            Some(set_all(settings)[name])
        } else {
            None
        }),
    decreases settings.len(),
{
    if settings.len() > 0 {
        law_unix_env_is_a_map(settings.drop_last(), name);
    }
}

/// Appending arguments at once is appending them one after the other.
pub proof fn law_args_one_by_one(args: Seq<Seq<u8>>, more: Seq<Seq<u8>>, last: Seq<u8>)
    ensures
        args + more.push(last) == (args + more).push(last),
        args + Seq::<Seq<u8>>::empty() == args,
{
    assert(args + more.push(last) =~= (args + more).push(last));
    assert(args + Seq::<Seq<u8>>::empty() =~= args);
}

/// A new command runs its program with no arguments, in the environment and directory of its
/// parent, with all three streams piped, line by line and in no process group or job object of its
/// own; on Windows it gets no window.
pub proof fn law_new_command(program: Seq<u8>, platform: Platform, target: Platform)
    ensures
        ({
            let command = CommandView::fresh(program, platform);
            &&& command.program == program
            &&& command.args.len() == 0
            &&& !command.env_clear
            &&& command.env.len() == 0
            &&& command.current_dir is None
            &&& command.stdin == Stdio::Piped
            &&& command.stdout == Stdio::Piped
            &&& command.stderr == Stdio::Piped
            &&& platform == Platform::Windows ==> command.creation_flags == 0x0800_0000u32
            &&& platform == Platform::Unix ==> command.creation_flags == 0
            &&& !command.raw_out
            &&& !command.process_group
            &&& wrappers(command.process_group, target).len() == 0
        }),
{
}

/// A plain command differs from a new one in its streams, which are those of the parent, and in its
/// flags, of which it has none.
pub proof fn law_plain_command(program: Seq<u8>, platform: Platform)
    ensures
        ({
            let plain = CommandView::plain(program);
            let fresh = CommandView::fresh(program, platform);
            &&& plain.stdin == Stdio::Inherit
            &&& plain.stdout == Stdio::Inherit
            &&& plain.stderr == Stdio::Inherit
            &&& plain.creation_flags == 0
            &&& plain.program == program
            &&& plain.args == fresh.args
            &&& plain.env_clear == fresh.env_clear
            &&& plain.env == fresh.env
            &&& plain.current_dir == fresh.current_dir
            &&& plain.raw_out == fresh.raw_out
            &&& plain.process_group == fresh.process_group
        }),
{
}

/// Every step in the building of a command leaves alone what it is not about.
pub proof fn law_settings_leave_the_rest(command: CommandView, setting: Setting)
    ensures
        ({
            let after = command.after(setting);
            &&& after.program == command.program
            &&& after.creation_flags == command.creation_flags
            &&& !(setting is Arg) && !(setting is Args) ==> after.args == command.args
            &&& !(setting is EnvClear) && !(setting is Env) && !(setting is Envs) ==> after.env
                == command.env
            &&& !(setting is EnvClear) ==> after.env_clear == command.env_clear
            &&& !(setting is CurrentDir) ==> after.current_dir == command.current_dir
            &&& !(setting is NullStdio) ==> after.stdin == command.stdin && after.stdout
                == command.stdout && after.stderr == command.stderr
            &&& !(setting is RawOut) ==> after.raw_out == command.raw_out
            &&& !(setting is ProcessGroup) ==> after.process_group == command.process_group
        }),
{
}

/// Every step in the building of a command does what it is about: arguments and variables come
/// after those that are there, and of a directory or a switch the last one counts.
pub proof fn law_settings_take_effect(
    command: CommandView,
    setting: Setting,
    name: Seq<u8>,
    same: SameName,
)
    ensures
        ({
            let after = command.after(setting);
            let given = after.args.len() - command.args.len();
            &&& setting matches Setting::Arg(arg) ==> given == 1 && after.args.last() == arg
                && after.args.drop_last() == command.args
            &&& setting matches Setting::Args(args) ==> given == args.len() && after.args.take(
                command.args.len() as int,
            ) == command.args && after.args.skip(command.args.len() as int) == args
            &&& setting is EnvClear ==> after.env_clear && value_of(after.env, name, same) is None
            &&& setting matches Setting::Env(key, value) ==> value_of(after.env, name, same) == if same(
                key,
                name,
            ) {
                Some(value)
            } else {
                value_of(command.env, name, same)
            }
            &&& setting matches Setting::Envs(pairs) ==> after.env.take(command.env.len() as int)
                == command.env && after.env.skip(command.env.len() as int) == pairs
            &&& setting matches Setting::CurrentDir(dir) ==> after.current_dir == Some(dir)
            &&& setting is NullStdio ==> after.stdin == Stdio::Null && after.stdout == Stdio::Null
                && after.stderr == Stdio::Null
            &&& setting matches Setting::RawOut(on) ==> after.raw_out == on
            &&& setting matches Setting::ProcessGroup(on) ==> after.process_group == on
        }),
{
    match setting {
        Setting::Arg(arg) => {
            assert(command.args.push(arg).drop_last() =~= command.args);
        },
        Setting::Args(args) => {
            assert((command.args + args).take(command.args.len() as int) =~= command.args);
            assert((command.args + args).skip(command.args.len() as int) =~= args);
        },
        Setting::Env(key, value) => {
            assert(command.env.push((key, value)).drop_last() =~= command.env);
        },
        Setting::Envs(pairs) => {
            assert((command.env + pairs).take(command.env.len() as int) =~= command.env);
            assert((command.env + pairs).skip(command.env.len() as int) =~= pairs);
        },
        _ => {},
    }
}

/// A child gets a process group or job object of its own exactly if the command was asked for it
/// and not asked otherwise later: however a new command is built up, it is spawned with no wrapper
/// at all where the process group was never switched on.
pub proof fn law_group_only_when_asked(
    program: Seq<u8>,
    platform: Platform,
    settings: Seq<Setting>,
    target: Platform,
)
    ensures
        ({
            let command = CommandView::fresh(program, platform).after_all(settings);
            wrappers(command.process_group, target).len() > 0 <==> exists|i: int|
                0 <= i < settings.len() && #[trigger] settings[i] == Setting::ProcessGroup(true)
                    && forall|j: int|
                    i < j < settings.len() ==> !((#[trigger] settings[j]) is ProcessGroup)
        }),
    decreases settings.len(),
{
    if settings.len() > 0 {
        let front = settings.drop_last();
        let last = settings.len() - 1;
        law_group_only_when_asked(program, platform, front, target);
        assert forall|i: int| 0 <= i < front.len() implies #[trigger] settings[i] == front[i] by {}
        assert(settings[last] == settings.last());
        let before = CommandView::fresh(program, platform).after_all(front);
        if !(settings.last() is ProcessGroup) && wrappers(before.process_group, target).len() > 0 {
            let i = choose|i: int|
                0 <= i < front.len() && #[trigger] front[i] == Setting::ProcessGroup(true)
                    && forall|j: int|
                    i < j < front.len() ==> !((#[trigger] front[j]) is ProcessGroup);
            assert(settings[i] == Setting::ProcessGroup(true));
        }
        if !(settings.last() is ProcessGroup) && wrappers(before.process_group, target).len() == 0 {
            assert forall|i: int|
                0 <= i < settings.len() && #[trigger] settings[i] == Setting::ProcessGroup(true)
                implies exists|j: int|
                i < j < settings.len() && (#[trigger] settings[j]) is ProcessGroup by {
                assert(front[i] == Setting::ProcessGroup(true));
                let j = choose|j: int| i < j < front.len() && (#[trigger] front[j]) is ProcessGroup;
                assert(settings[j] is ProcessGroup);
            }
        }
    }
}

/// However a new command is built up, its streams are piped unless it was told to do without, and
/// its program is the one that it was made for.
pub proof fn law_streams_stay_piped(program: Seq<u8>, platform: Platform, settings: Seq<Setting>)
    ensures
        ({
            let command = CommandView::fresh(program, platform).after_all(settings);
            let without = exists|i: int|
                0 <= i < settings.len() && (#[trigger] settings[i]) is NullStdio;
            let stdio = if without {
                Stdio::Null
            } else {
                Stdio::Piped
            };
            &&& command.program == program
            &&& command.stdin == stdio
            &&& command.stdout == stdio
            &&& command.stderr == stdio
        }),
    decreases settings.len(),
{
    if settings.len() > 0 {
        let front = settings.drop_last();
        law_streams_stay_piped(program, platform, front);
        assert forall|i: int| 0 <= i < front.len() implies #[trigger] settings[i] == front[i] by {}
        assert(settings[settings.len() - 1] == settings.last());
        if exists|i: int| 0 <= i < front.len() && (#[trigger] front[i]) is NullStdio {
            let i = choose|i: int| 0 <= i < front.len() && (#[trigger] front[i]) is NullStdio;
            assert(settings[i] is NullStdio);
        }
    }
}

/// Two commands that come apart into the same parts are built the same way but for the switches,
/// and every part is what the command holds.
pub proof fn law_parts_are_exact(parts: CommandParts, a: CommandView, b: CommandView)
    requires
        parts.is_of(a),
        parts.is_of(b),
    ensures
        a == (CommandView { raw_out: a.raw_out, process_group: a.process_group, ..b }),
        parts.program@ == a.program,
        parts.args@.len() == a.args.len(),
        forall|i: int| 0 <= i < a.args.len() ==> (#[trigger] parts.args@[i])@ == a.args[i],
        parts.env_clear == a.env_clear,
        parts.env@.len() == a.env.len(),
        forall|i: int|
            0 <= i < a.env.len() ==> (#[trigger] parts.env@[i]).0@ == a.env[i].0 && parts.env@[i].1@
                == a.env[i].1,
        match parts.current_dir {
            Some(dir) => a.current_dir == Some(dir@),
            None => a.current_dir is None,
        },
        parts.stdin == a.stdin,
        parts.stdout == a.stdout,
        parts.stderr == a.stderr,
        parts.creation_flags == a.creation_flags,
{
    assert forall|i: int| 0 <= i < a.args.len() implies (#[trigger] parts.args@[i])@ == a.args[i] by {
        assert(byte_views(parts.args@)[i] == parts.args@[i]@);
    }
    assert forall|i: int| 0 <= i < a.env.len() implies (#[trigger] parts.env@[i]).0@ == a.env[i].0
        && parts.env@[i].1@ == a.env[i].1 by {
        assert(pair_views(parts.env@)[i] == (parts.env@[i].0@, parts.env@[i].1@));
    }
}

} // verus!
