# jar — Just Another Runtime

A minimal Linux process-isolation runtime: `jar run [OPTIONS] <program> [args...]`
runs a program in new user and mount namespaces, optionally under cgroup v2
limits, an OverlayFS copy-on-write root, dropped capabilities and a seccomp
profile, and exits with the program's exit code.

## Layout

- `src/` — the library, verified with Verus: the command line (`cli`), decimal
  numbers (`decimal`), paths and texts (`text`), errors (`error`), the cgroup
  files that enforce limits (`cgroup`), the overlay (`overlay`), the steps and
  exit code of the sandboxed process (`process`), the run plan (`sandbox`), the state machine of a run and its
  announcements (`run`),
  image unpacking plans (`image`), the seccomp profile and the decisions of
  loading it (`seccomp`), capability dropping (`capabilities`) and the
  diagnostic probe's filter (`probe`).
- `app/` — the `jar` program: file and process I/O, `clone`/`waitpid`/`execvp`,
  the calls into libseccomp, tar and flate2, and the probe (run when invoked as
  `jar-probe`).
- `tests/` — tests of the library.

