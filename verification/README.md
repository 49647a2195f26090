# sandbox-rs

Lightweight process sandboxing for Linux, with its decisions verified in Verus.

`src/` is the verified library. It makes no system call. Where the host must do
something (create a pipe, clone a process, mount a directory, read a control
group) the library hands out a step that says what to do, and a method takes
back what came of it. Each function is proved for every answer of the
host.

| Module | What it decides |
|--------|-----------------|
| `controller` | configuration, validation, building, running, killing, reports |
| `execution::launch` | creation of a process, user namespace gate, streams, waiting, timeout |
| `execution::child` | setup of a new process, from resource limits over Landlock to its program |
| `execution::environment` | inherited environment with overrides |
| `execution::path_search` | search for a program in `PATH` |

`controller_laws`, `execution::launch_laws` and `execution::child_laws` state
what holds of every run as a whole.

A program that runs with streaming output is waited for like any other: its
stream is handed out while it runs, and its report has its actual exit status.
A timeout kills the program when its time has passed; without privileges it is
a limit on processor seconds as well. Either way the report says so.

`app/` performs the steps on a real host, with `nix`, `libc` and the crates that
drive cgroups, namespaces, privileges and seccomp.

The one thing taken on trust in `src/` is the text that `nix` displays for a
kernel error number (`errno`).
