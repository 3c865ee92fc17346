# Integration Aggressor

A stress-tester that runs integration tests again and again in parallel, to find
flaky tests, crashes and hangs. A test that takes longer than its time limit is
suspected: every other worker is stopped, and the suspect runs on alone. If it
passes its time limit once more, a debugger saves the backtraces of its threads
and a core, and the stress test ends. A test that fails is rerun under the
debugger.

## Layout

- `src/` is the library, verified with Verus. It decides; it does no I/O.
  - `discovery`: which files are tests.
  - `schedule`: which worker runs which test next.
  - `worker`: how a worker takes a job from its start to its end.
  - `app`, `handlers`, `scroll`, `drive`: the state of the stress test, and what
    an event makes of it.
  - `stats`: the counters of each test.
  - `path`: the path of a test and its file name.
  - `debugger`: the debugger's arguments, and the reports.
  - `screen`: what the screen shows.
  - `laws`: what holds of the stress test as a whole.
  - `text`, `order`, `clock`, `args`, `event`: what the others are built on.
- `app/` is the program: the command line, processes, channels, files and the
  terminal.
- `tests/` holds the tests of the library.

What is taken on trust of the standard library and of `chrono` stands in `clock`,
`path`, `debugger` and `screen`, each with a comment that says what is claimed.
