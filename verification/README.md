# shell_process

The decisions behind running a child process, verified with Verus: how a command is put together,
in which order it is spawned, how its output is cut into events, how it is waited for, killed and
reaped, and what its events amount to once it is gone.

`src/` is the library. It takes plain values and gives plain values back; nothing in it touches a
process.

| module     | what it decides                                                                |
| ---------- | ------------------------------------------------------------------------------ |
| `command`  | the description of a command: program, arguments, environment, streams         |
| `path`     | Unix paths as byte strings: components, parent, extension, joining             |
| `sidecar`  | where the executable of a sidecar is found                                      |
| `spawn`    | the actions by which a command is spawned, and what a child is wrapped in      |
| `read`     | what the readers of stdout and stderr send, raw or line by line                |
| `event`    | the events of a command, and the status and output that a run of them makes    |
| `status`   | exit status, output and the payload of a termination                           |
| `threads`  | what the threads of a child do in turn, so that its end comes after its output |
| `wait`     | what a return of the system's blocking wait means                              |
| `reap`     | killing a child and collecting its status, without blocking under its lock     |
| `scenario` | scenarios that exercise the killing: their commands, steps and reports         |

`app/` performs the actions: it opens the pipes, starts the threads, spawns and kills the process,
and runs the scenarios. `tests/` runs the library on concrete values.

Two things are taken on trust: `tauri_utils::io::read_line` on bytes at hand (`read::take_line`),
and which numbers `libc::ECHILD` can be (`wait::no_child_errno`).
