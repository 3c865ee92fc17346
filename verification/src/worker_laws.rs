//! What holds of each step of a worker.

use crate::debugger::{backtrace_args, utf8_lossy};
use crate::event::EventView;
use crate::path::TestView;
use crate::worker::{next_phase, ActionView, CmdView, ExitInfo, InputView, PhaseView};
use vstd::prelude::*;
use vstd::string::*;

verus! {

/// The worker watches a process of `test` with this number.
pub open spec fn watches(phase: PhaseView, test: TestView, process: u32) -> bool {
    phase == (PhaseView::Watching { test_path: test, pid: process }) || phase == (
    PhaseView::Isolated { test_path: test, pid: process })
}

/// The end of a watched process is reported once, of the test that was watched,
/// with its duration and all its output; its outcome is 0 exactly for a success
/// or an exit code of 0, else the exit code, -1 where a signal ended it, and the
/// error where the end could not be awaited. Then the worker is free.
pub proof fn law_an_end_is_reported_as_it_was(
    id: usize,
    dir: Seq<char>,
    phase: PhaseView,
    test: TestView,
    process: u32,
    status: Result<ExitInfo, Seq<char>>,
    duration: u128,
    out: Seq<u8>,
    err: Seq<u8>,
    stamp: Seq<char>,
)
    requires
        watches(phase, test, process),
    ensures
        ({
            let input = InputView::Exited { status, duration, stdout: out, stderr: err };
            let (next, actions) = next_phase(id, dir, phase, input, stamp);
            &&& next is Waiting
            &&& actions.len() == 1
            &&& actions[0] matches ActionView::Send(event)
            &&& event matches EventView::WorkerFinished {
                worker_id,
                test_path,
                status: outcome,
                duration: took,
                stdout,
                stderr,
            }
            &&& worker_id == id && test_path == test && took == duration
            &&& stdout == utf8_lossy(out) && stderr == utf8_lossy(err)
            &&& match status {
                Ok(info) => outcome is Ok && (info.success ==> outcome->Ok_0 == 0) && (!info.success
                    && info.code is Some ==> Some(outcome->Ok_0) == info.code) && (!info.success
                    && info.code is None ==> outcome->Ok_0 == -1),
                Err(error) => outcome is Err && outcome->Err_0 == error,
            }
        }),
{
}

/// A worker that waits takes up the job that it is told to, and starts its
/// process; the start is reported with the number of the process, and a start
/// that fails ends the job with its reason, and no time or output.
pub proof fn law_a_job_is_taken_up(
    id: usize,
    dir: Seq<char>,
    test: TestView,
    number: Option<u32>,
    error: Seq<char>,
    stamp: Seq<char>,
)
    ensures
        ({
            let told = InputView::Command(CmdView::StartJob { test_path: test });
            let (next, actions) = next_phase(id, dir, PhaseView::Waiting, told, stamp);
            let (watching, started) = next_phase(
                id,
                dir,
                next,
                InputView::Spawned(number),
                stamp,
            );
            let (free, failed) = next_phase(id, dir, next, InputView::SpawnFailed(error), stamp);
            &&& actions.len() == 1 && actions[0] == ActionView::Spawn(test)
            &&& watching is Watching && watching->Watching_test_path == test
            &&& number is Some ==> Some(watching->Watching_pid) == number
            &&& number is None ==> watching->Watching_pid == 0
            &&& started.len() == 1 && started[0] == ActionView::Send(
                EventView::WorkerStarted {
                    worker_id: id,
                    test_path: test,
                    pid: watching->Watching_pid,
                },
            )
            &&& free is Waiting
            &&& failed.len() == 1
            &&& failed[0] matches ActionView::Send(event)
            &&& event matches EventView::WorkerFinished {
                worker_id,
                test_path,
                status,
                duration,
                stdout,
                stderr,
            }
            &&& worker_id == id && test_path == test && duration == 0
            &&& status is Err && status->Err_0 == error
            &&& stdout.len() == 0 && stderr.len() == 0
        }),
{
}

/// A process that passes its time limit is suspected and stays the same process
/// of the same test; told to go on it is watched once more; when it passes the
/// limit again, the debugger is called for that process, and saves a core in the
/// report directory that carries the name of the test and the moment; its
/// backtrace, and that core, are reported, and the worker is free.
pub proof fn law_a_hang_is_followed_to_its_report(
    id: usize,
    dir: Seq<char>,
    test: TestView,
    process: u32,
    stamp: Seq<char>,
    text: Option<Seq<char>>,
    name: Seq<char>,
)
    requires
        test.file_name == Some(name) || test.file_name is None && name == test.path,
    ensures
        ({
            let watching = PhaseView::Watching { test_path: test, pid: process };
            let limit = InputView::TimedOut;
            let proceed = InputView::Command(CmdView::ProceedIsolation);
            let (suspected, first) = next_phase(id, dir, watching, limit, stamp);
            let (isolated, second) = next_phase(id, dir, suspected, proceed, stamp);
            let (capturing, third) = next_phase(id, dir, isolated, limit, stamp);
            let (free, last) = next_phase(id, dir, capturing, InputView::Captured(text), stamp);
            let core = dir + "/"@ + "core"@ + "_"@ + name + "_"@ + stamp + "."@ + "core"@;
            &&& suspected == (PhaseView::Suspected { test_path: test, pid: process })
            &&& first.len() == 1 && first[0] == ActionView::Send(
                EventView::WorkerSuspectedHang { worker_id: id },
            )
            &&& isolated == (PhaseView::Isolated { test_path: test, pid: process })
            &&& second.len() == 0
            &&& third.len() == 1
            &&& third[0] == ActionView::Capture(backtrace_args(process, Some(core)))
            &&& free is Waiting
            &&& last.len() == 1
            &&& last[0] matches ActionView::Send(event)
            &&& event matches EventView::WorkerConfirmedHang { worker_id, backtrace, core_path }
            &&& worker_id == id && core_path is Some && core_path->Some_0 == core
            &&& text is Some ==> Some(backtrace) == text
            &&& text is None ==> backtrace == "Failed to capture backtrace"@
        }),
{
}

/// A job is given up on command wherever it has a process, and then the process
/// is killed before that is reported; a suspect one is given up on any command
/// but the one to go on, and when no more commands come.
pub proof fn law_when_a_job_is_given_up(
    id: usize,
    dir: Seq<char>,
    phase: PhaseView,
    test: TestView,
    process: u32,
    input: InputView,
    stamp: Seq<char>,
)
    requires
        watches(phase, test, process) && input == InputView::Command(CmdView::Kill) || phase == (
        PhaseView::Suspected { test_path: test, pid: process }) && (input is Closed
            || input is Command && input != InputView::Command(CmdView::ProceedIsolation)),
    ensures
        ({
            let (next, actions) = next_phase(id, dir, phase, input, stamp);
            &&& next is Waiting
            &&& actions.len() == 2
            &&& actions[0] is Kill
            &&& actions[1] == ActionView::Send(EventView::WorkerAborted { worker_id: id })
        }),
{
}

/// A watched process is let go, without a report, on a command that is not for a
/// worker with a job.
pub proof fn law_when_a_process_is_let_go(
    id: usize,
    dir: Seq<char>,
    phase: PhaseView,
    test: TestView,
    process: u32,
    command: CmdView,
    stamp: Seq<char>,
)
    requires
        watches(phase, test, process),
        command != CmdView::Kill,
    ensures
        next_phase(id, dir, phase, InputView::Command(command), stamp).0 is Waiting,
        next_phase(id, dir, phase, InputView::Command(command), stamp).1.len() == 1,
        next_phase(id, dir, phase, InputView::Command(command), stamp).1[0] is Release,
{
}

/// A worker without a job that is told to give one up reports that it has none,
/// and waits on; when no more commands come it stops.
pub proof fn law_a_waiting_worker(id: usize, dir: Seq<char>, stamp: Seq<char>)
    ensures
        ({
            let kill = InputView::Command(CmdView::Kill);
            let (next, actions) = next_phase(id, dir, PhaseView::Waiting, kill, stamp);
            &&& next is Waiting
            &&& actions.len() == 1
            &&& actions[0] == ActionView::Send(EventView::WorkerAborted { worker_id: id })
        }),
        ({
            let (next, actions) = next_phase(
                id,
                dir,
                PhaseView::Waiting,
                InputView::Closed,
                stamp,
            );
            &&& next is Stopped
            &&& actions.len() == 1
            &&& actions[0] is Stop
        }),
{
}

/// What a worker waits for.
pub open spec fn awaits(phase: PhaseView, input: InputView) -> bool {
    match input {
        InputView::Command(command) => phase is Watching || phase is Suspected || phase is Isolated
            || phase is Waiting && command != CmdView::ProceedIsolation,
        InputView::Closed => phase is Waiting || phase is Suspected,
        InputView::SpawnFailed(_) => phase is Starting,
        InputView::Spawned(_) => phase is Starting,
        InputView::Exited { .. } => phase is Watching || phase is Isolated,
        InputView::TimedOut => phase is Watching || phase is Isolated,
        InputView::Captured(_) => phase is Capturing,
    }
}

/// What a worker does not wait for changes nothing, and nothing is done for it;
/// all else takes it to another phase or is answered.
pub proof fn law_only_what_is_awaited_counts(
    id: usize,
    dir: Seq<char>,
    phase: PhaseView,
    input: InputView,
    stamp: Seq<char>,
)
    ensures
        !awaits(phase, input) ==> next_phase(id, dir, phase, input, stamp).0 == phase
            && next_phase(id, dir, phase, input, stamp).1.len() == 0,
        awaits(phase, input) ==> next_phase(id, dir, phase, input, stamp).0 != phase
            || next_phase(id, dir, phase, input, stamp).1.len() > 0,
{
}

} // verus!
