//! The models of the types: what a value stands for in the contracts.

use crate::event::{outcome_view, AppEvent, EventView};
use crate::path::{paths_of, test_views, TestPath, TestView};
use crate::screen::{row_views, PieceRow};
use crate::stats::StatsTable;
use crate::text::optional_text;
use crate::worker::{
    action_views, exit_view, ActionView, CmdView, ExitInfo, InputView, Phase, PhaseView,
    StatusView, WorkerAction, WorkerCmd, WorkerInput, WorkerStatus,
};
use vstd::prelude::*;
use vstd::string::*;

verus! {

/// A test stands for its path and its file name.
pub proof fn law_tests_stand_for_their_paths(tests: Seq<TestPath>, views: Seq<TestView>, i: int)
    ensures
        test_views(tests).len() == tests.len(),
        paths_of(views).len() == views.len(),
        0 <= i < views.len() ==> paths_of(views)[i] == views[i].path,
        0 <= i < tests.len() ==> {
            let view = test_views(tests)[i];
            &&& view == tests[i]@
            &&& view.path == tests[i].path@
            &&& tests[i].file_name is None <==> view.file_name is None
            &&& tests[i].file_name matches Some(name) ==> view.file_name == Some(name@)
        },
{
}

/// A command stands for itself.
pub proof fn law_commands_stand_for_themselves(cmd: WorkerCmd)
    ensures
        cmd is Kill <==> cmd@ is Kill,
        cmd is ProceedIsolation <==> cmd@ is ProceedIsolation,
        cmd matches WorkerCmd::StartJob { test_path } ==> cmd@ == (CmdView::StartJob {
            test_path: test_path@,
        }),
{
}

/// What a worker is doing stands for itself, with its test, process and moment.
pub proof fn law_statuses_stand_for_themselves(status: WorkerStatus)
    ensures
        status is Idle <==> status@ is Idle,
        status matches WorkerStatus::Running { test_path, pid, start_time } ==> status@ == (
        StatusView::Running { test_path: test_path@, pid, start_time }),
        status matches WorkerStatus::Isolating { test_path, pid, start_time } ==> status@ == (
        StatusView::Isolating { test_path: test_path@, pid, start_time }),
{
}

/// An event stands for itself, with all that it carries.
pub proof fn law_events_stand_for_themselves(event: AppEvent)
    ensures
        event matches AppEvent::Key(key) ==> event@ == EventView::Key(key),
        event is Tick <==> event@ is Tick,
        event matches AppEvent::WorkerStarted { worker_id, test_path, pid } ==> event@ == (
        EventView::WorkerStarted { worker_id, test_path: test_path@, pid }),
        event matches AppEvent::WorkerFinished {
            worker_id,
            test_path,
            status,
            duration,
            stdout,
            stderr,
        } ==> event@ is WorkerFinished && event@->WorkerFinished_worker_id == worker_id
            && event@->WorkerFinished_test_path == test_path@ && event@->WorkerFinished_duration
            == duration && event@->WorkerFinished_stdout == stdout@ && event@->WorkerFinished_stderr
            == stderr@ && (status matches Ok(code) ==> event@->WorkerFinished_status == Ok::<
            i32,
            Seq<char>,
        >(code)) && (status matches Err(error) ==> event@->WorkerFinished_status == Err::<
            i32,
            Seq<char>,
        >(error@)),
        event matches AppEvent::WorkerSuspectedHang { worker_id } ==> event@ == (
        EventView::WorkerSuspectedHang { worker_id }),
        event matches AppEvent::WorkerConfirmedHang { worker_id, backtrace, core_path } ==> event@
            is WorkerConfirmedHang && event@->WorkerConfirmedHang_worker_id == worker_id
            && event@->backtrace == backtrace@ && (core_path is None ==> event@->core_path is None)
            && (core_path matches Some(path) ==> event@->core_path == Some(path@)),
        event matches AppEvent::WorkerAborted { worker_id } ==> event@ == (
        EventView::WorkerAborted { worker_id }),
        event matches AppEvent::LogMessage(message) ==> event@ == EventView::LogMessage(message@),
{
}

/// Outcomes and optional texts stand for themselves.
pub proof fn law_outcomes_stand_for_themselves(
    outcome: Result<i32, String>,
    exit: Result<ExitInfo, String>,
    text: Option<String>,
)
    ensures
        outcome matches Ok(code) ==> outcome_view(outcome) == Ok::<i32, Seq<char>>(code),
        outcome matches Err(error) ==> outcome_view(outcome) == Err::<i32, Seq<char>>(error@),
        exit matches Ok(info) ==> exit_view(exit) == Ok::<ExitInfo, Seq<char>>(info),
        exit matches Err(error) ==> exit_view(exit) == Err::<ExitInfo, Seq<char>>(error@),
        text matches Some(t) ==> optional_text(text) == Some(t@),
        text is None <==> optional_text(text) is None,
{
}

/// A phase stands for itself, with its test and process.
pub proof fn law_phases_stand_for_themselves(phase: Phase)
    ensures
        phase is Waiting <==> phase@ is Waiting,
        phase is Stopped <==> phase@ is Stopped,
        phase matches Phase::Starting { test_path } ==> phase@ == (PhaseView::Starting {
            test_path: test_path@,
        }),
        phase matches Phase::Watching { test_path, pid } ==> phase@ == (PhaseView::Watching {
            test_path: test_path@,
            pid,
        }),
        phase matches Phase::Suspected { test_path, pid } ==> phase@ == (PhaseView::Suspected {
            test_path: test_path@,
            pid,
        }),
        phase matches Phase::Isolated { test_path, pid } ==> phase@ == (PhaseView::Isolated {
            test_path: test_path@,
            pid,
        }),
        phase matches Phase::Capturing { core_path } ==> phase@ == (PhaseView::Capturing {
            core_path: core_path@,
        }),
{
}

/// What a worker learns stands for itself.
pub proof fn law_inputs_stand_for_themselves(input: WorkerInput)
    ensures
        input matches WorkerInput::Command(cmd) ==> input@ == InputView::Command(cmd@),
        input is Closed <==> input@ is Closed,
        input is TimedOut <==> input@ is TimedOut,
        input matches WorkerInput::SpawnFailed(error) ==> input@ == InputView::SpawnFailed(error@),
        input matches WorkerInput::Spawned(number) ==> input@ == InputView::Spawned(number),
        input matches WorkerInput::Exited { status, duration, output } ==> input@ == (
        InputView::Exited {
            status: exit_view(status),
            duration,
            stdout: output.stdout@,
            stderr: output.stderr@,
        }),
        input matches WorkerInput::Captured(text) ==> input@ == InputView::Captured(
            optional_text(text),
        ),
{
}

/// What is to be done for a worker stands for itself, one for one.
pub proof fn law_actions_stand_for_themselves(actions: Seq<WorkerAction>, i: int)
    requires
        0 <= i < actions.len(),
    ensures
        action_views(actions).len() == actions.len(),
        action_views(actions)[i] == actions[i]@,
        actions[i] matches WorkerAction::Spawn(test) ==> actions[i]@ == ActionView::Spawn(test@),
        actions[i] matches WorkerAction::Send(event) ==> actions[i]@ == ActionView::Send(event@),
        actions[i] is Kill <==> actions[i]@ is Kill,
        actions[i] is Release <==> actions[i]@ is Release,
        actions[i] is Stop <==> actions[i]@ is Stop,
        actions[i] matches WorkerAction::Capture(args) ==> actions[i]@ is Capture
            && actions[i]@->Capture_0.len() == args@.len() && forall|k: int|
            0 <= k < args@.len() ==> #[trigger] actions[i]@->Capture_0[k] == args@[k]@,
{
}

/// Rows of the screen and of the table stand for what they hold, one for one.
pub proof fn law_rows_stand_for_themselves(
    row: PieceRow,
    rows: Seq<PieceRow>,
    table: StatsTable,
    i: int,
)
    ensures
        row@.len() == row.pieces@.len(),
        0 <= i < row.pieces@.len() ==> row@[i].0 == row.pieces@[i].text@ && row@[i].1
            == row.pieces@[i].tone,
        row_views(rows).len() == rows.len(),
        0 <= i < rows.len() ==> row_views(rows)[i] == rows[i]@,
        table@.len() == table.rows@.len(),
        0 <= i < table.rows@.len() ==> table@[i].0 == table.rows@[i].test@ && table@[i].1
            == table.rows@[i].stats,
{
}

} // verus!
