//! What each event makes of a stress test, and what it leaves to do.

use crate::app::{dispatch_views, logs, valid, AppView, RunState};
use crate::clock::is_date_stamp;
use crate::drive::{all_idle, can_handle, ends, handles, key_pressed, time_over_message, Step};
use crate::event::{EventView, Key};
use crate::handlers::{
    can_finish, finished, finished_messages, hang_confirmed, hang_message, isolated_test,
    isolation_commands, lemma_logs_keep_settings, suspected, suspected_messages,
};
use crate::path::TestView;
use crate::schedule::schedules;
use crate::scroll::{logs_scrolled, table_scrolled};
use crate::state_laws::law_the_end_of_a_run;
use crate::stats::with_run;
use crate::worker::StatusView;
use vstd::prelude::*;
use vstd::string::*;

verus! {

/// The arrow keys move by one test, the page keys by five lines of the log, `q`
/// leaves, and no other key does anything.
pub proof fn law_what_keys_do(
    before: AppView,
    key: Key,
    time_over: bool,
    after: AppView,
    step: Step,
)
    requires
        handles(before, EventView::Key(key), time_over, after, step),
    ensures
        key is Up ==> after == table_scrolled(before, -1),
        key is Down ==> after == table_scrolled(before, 1),
        key is PageUp ==> after == logs_scrolled(before, -5),
        key is PageDown ==> after == logs_scrolled(before, 5),
        key is Char || key is Other ==> after == before,
        key_pressed(before, key) == after,
        step.quit <==> key is Char && key->Char_0 == 'q',
        step.commands@.len() == 0 && step.rerun is None && step.hang is None && !step.check_time,
{
    assert(dispatch_views(step.commands@).len() == step.commands@.len());
}

/// A tick gives out jobs, and has the time looked at; nothing else is left to
/// do.
pub proof fn law_what_a_tick_does(before: AppView, time_over: bool, after: AppView, step: Step)
    requires
        handles(before, EventView::Tick, time_over, after, step),
    ensures
        schedules(before, time_over, after, dispatch_views(step.commands@)),
        step.check_time && step.rerun is None && step.hang is None && !step.quit,
{
}

/// The report of a start is noted, and nothing is left to do.
pub proof fn law_what_a_start_does(
    before: AppView,
    id: usize,
    test: TestView,
    process: u32,
    time_over: bool,
    after: AppView,
    step: Step,
)
    requires
        id < before.workers.len(),
        handles(
            before,
            EventView::WorkerStarted { worker_id: id, test_path: test, pid: process },
            time_over,
            after,
            step,
        ),
    ensures
        before.workers[id as int] matches StatusView::Running { start_time, .. }
            ==> after.workers[id as int] == (StatusView::Running {
            test_path: test,
            pid: process,
            start_time,
        }),
        !(before.workers[id as int] is Running) ==> after == before,
        after.workers == before.workers.update(id as int, after.workers[id as int]),
        after == (AppView { workers: after.workers, ..before }),
        step.commands@.len() == 0 && step.rerun is None && step.hang is None && !step.check_time
            && !step.quit,
{
    assert(dispatch_views(step.commands@).len() == step.commands@.len());
    assert(after.workers =~= before.workers.update(id as int, after.workers[id as int]));
}

/// The end of a run is counted where the test is known, as a failure unless its
/// outcome is 0; just a counted failure is rerun, as the test that failed. What
/// is told of it is logged before jobs are given out, which is done wherever the
/// time is not over and no test is isolated any more.
pub proof fn law_what_the_end_of_a_run_does(
    before: AppView,
    id: usize,
    test: TestView,
    status: Result<i32, Seq<char>>,
    duration: u128,
    out: Seq<char>,
    err: Seq<char>,
    time_over: bool,
    after: AppView,
    step: Step,
)
    requires
        valid(before),
        can_finish(before, id, test, duration),
        handles(
            before,
            EventView::WorkerFinished {
                worker_id: id,
                test_path: test,
                status,
                duration,
                stdout: out,
                stderr: err,
            },
            time_over,
            after,
            step,
        ),
    ensures
        ({
            let known = exists|i: int|
                0 <= i < before.rows.len() && (#[trigger] before.rows[i]).0.path == test.path;
            let success = status is Ok && status->Ok_0 == 0;
            &&& after.attempts == before.attempts + if known {
                1int
            } else {
                0
            }
            &&& after.failures == before.failures + if known && !success {
                1int
            } else {
                0
            }
            &&& after.hangs == before.hangs
            &&& after.rows == with_run(before.rows, test.path, success, duration)
            &&& step.rerun is Some <==> known && !success
            &&& step.rerun matches Some(job) ==> exists|stamp: Seq<char>| #[trigger]
                is_date_stamp(stamp) && job.is_for(
                    before.lldb_path,
                    before.report_dir,
                    test,
                    stamp,
                )
            &&& before.run_state == (RunState::Isolating { suspect_worker_id: id })
                ==> after.run_state == RunState::Running
            &&& before.run_state != (RunState::Isolating { suspect_worker_id: id })
                ==> after.run_state == before.run_state
            &&& !(after.run_state is Running) || time_over ==> step.commands@.len() == 0
                && after.next == before.next && after.workers == before.workers.update(
                id as int,
                StatusView::Idle,
            )
            &&& exists|told: AppView| #[trigger]
                logs(
                    finished(before, id, test, status, duration),
                    finished_messages(before, id, test, status),
                    told,
                ) && schedules(told, time_over, after, dispatch_views(step.commands@))
            &&& step.hang is None && !step.check_time && !step.quit
        }),
{
    let core = finished(before, id, test, status, duration);
    let messages = finished_messages(before, id, test, status);
    let commands = dispatch_views(step.commands@);
    assert(commands.len() == step.commands@.len());
    law_the_end_of_a_run(before, id, test, status, duration);
    let told = choose|told: AppView|
        {
            &&& #[trigger] logs(core, messages, told)
            &&& schedules(told, time_over, after, commands)
        };
    lemma_logs_keep_settings(core, messages, told);
    assert(core.workers =~= before.workers.update(id as int, StatusView::Idle));
}

/// A suspicion changes nothing but the log, the suspect and that it is one; its
/// worker and the others are commanded, and nothing else is left to do.
pub proof fn law_what_a_suspicion_does(
    before: AppView,
    id: usize,
    time_over: bool,
    after: AppView,
    step: Step,
)
    requires
        handles(before, EventView::WorkerSuspectedHang { worker_id: id }, time_over, after, step),
    ensures
        logs(suspected(before, id), suspected_messages(before, id), after),
        before.run_state is Running && id < before.workers.len() ==> (
        before.workers[id as int] matches StatusView::Running { test_path, pid, start_time }
            ==> after.workers[id as int] == (StatusView::Isolating { test_path, pid, start_time })
            && after.run_state == (RunState::Isolating { suspect_worker_id: id })),
        before.run_state is Running && id < before.workers.len()
            && before.workers[id as int] is Running ==> after.workers == before.workers.update(
            id as int,
            after.workers[id as int],
        ),
        !(before.run_state is Running && before.workers[id as int] is Running) ==> after.workers
            == before.workers && after.run_state == before.run_state,
        dispatch_views(step.commands@) == isolation_commands(before, id),
        after == (AppView {
            workers: after.workers,
            run_state: after.run_state,
            logs: after.logs,
            selected_log: after.selected_log,
            ..before
        }),
        step.rerun is None && step.hang is None && !step.check_time && !step.quit,
{
    lemma_logs_keep_settings(suspected(before, id), suspected_messages(before, id), after);
    if before.run_state is Running && id < before.workers.len()
        && before.workers[id as int] is Running {
        assert(after.workers =~= before.workers.update(id as int, after.workers[id as int]));
    }
}

/// A confirmed hang ends the stress test, is counted, and is reported of the test
/// that the worker ran alone, with the backtrace and the core that came with it;
/// nobody is commanded any more.
pub proof fn law_what_a_confirmed_hang_does(
    before: AppView,
    id: usize,
    backtrace: Seq<char>,
    core: Option<Seq<char>>,
    time_over: bool,
    after: AppView,
    step: Step,
)
    requires
        id < before.workers.len(),
        handles(
            before,
            EventView::WorkerConfirmedHang { worker_id: id, backtrace, core_path: core },
            time_over,
            after,
            step,
        ),
    ensures
        after.hangs == before.hangs + 1,
        after.run_state is Terminated,
        after.workers == before.workers,
        after.attempts == before.attempts,
        after.failures == before.failures,
        after.next == before.next,
        logs(
            hang_confirmed(before, id),
            seq![hang_message(id, isolated_test(before, id))],
            after,
        ),
        step.hang is Some,
        exists|stamp: Seq<char>| #[trigger]
            is_date_stamp(stamp) && step.hang->0.is_for(
                before.report_dir,
                isolated_test(before, id),
                stamp,
                backtrace,
                core,
            ),
        before.workers[id as int] matches StatusView::Isolating { test_path, .. }
            ==> isolated_test(before, id) == test_path,
        step.quit && step.commands@.len() == 0 && step.rerun is None && !step.check_time,
{
    lemma_logs_keep_settings(
        hang_confirmed(before, id),
        seq![hang_message(id, isolated_test(before, id))],
        after,
    );
}

/// A job that was given up frees its worker, and jobs are given out; nothing is
/// counted or logged.
pub proof fn law_what_an_abort_does(
    before: AppView,
    id: usize,
    time_over: bool,
    after: AppView,
    step: Step,
)
    requires
        id < before.workers.len(),
        handles(before, EventView::WorkerAborted { worker_id: id }, time_over, after, step),
    ensures
        schedules(
            AppView { workers: before.workers.update(id as int, StatusView::Idle), ..before },
            time_over,
            after,
            dispatch_views(step.commands@),
        ),
        after == (AppView { workers: after.workers, next: after.next, ..before }),
        step.rerun is None && step.hang is None && !step.check_time && !step.quit,
{
}

/// A message is logged, and nothing else is done or left to do.
pub proof fn law_what_a_message_does(
    before: AppView,
    message: Seq<char>,
    time_over: bool,
    after: AppView,
    step: Step,
)
    requires
        handles(before, EventView::LogMessage(message), time_over, after, step),
    ensures
        logs(before, seq![message], after),
        after == (AppView { logs: after.logs, selected_log: after.selected_log, ..before }),
        step.commands@.len() == 0 && step.rerun is None && step.hang is None && !step.check_time
            && !step.quit,
{
    assert(dispatch_views(step.commands@).len() == step.commands@.len());
    lemma_logs_keep_settings(before, seq![message], after);
}

/// Every event can be taken in but one of a worker that there is not, and one
/// that a full counter has no room for.
pub proof fn law_which_events_can_be_taken_in(
    v: AppView,
    id: usize,
    test: TestView,
    process: u32,
    status: Result<i32, Seq<char>>,
    duration: u128,
    text: Seq<char>,
    core: Option<Seq<char>>,
    key: Key,
)
    ensures
        can_handle(v, EventView::Key(key)),
        can_handle(v, EventView::Tick),
        can_handle(v, EventView::LogMessage(text)),
        can_handle(v, EventView::WorkerStarted { worker_id: id, test_path: test, pid: process })
            <==> id < v.workers.len(),
        can_handle(
            v,
            EventView::WorkerFinished {
                worker_id: id,
                test_path: test,
                status,
                duration,
                stdout: text,
                stderr: text,
            },
        ) <==> can_finish(v, id, test, duration),
        can_handle(v, EventView::WorkerSuspectedHang { worker_id: id }) <==> !(
        v.run_state is Running) || id < v.workers.len(),
        can_handle(
            v,
            EventView::WorkerConfirmedHang { worker_id: id, backtrace: text, core_path: core },
        ) <==> id < v.workers.len() && v.hangs < 0xffff_ffff_ffff_ffff,
        can_handle(v, EventView::WorkerAborted { worker_id: id }) <==> id < v.workers.len(),
{
}

/// The stress test is left for its time exactly where that is over and every
/// worker is idle, whatever else holds; then this is logged, and else nothing
/// changes.
pub proof fn law_the_time_ends_an_idle_stress_test(
    before: AppView,
    time_over: bool,
    after: AppView,
    quit: bool,
)
    requires
        valid(before),
        ends(before, time_over, after, quit),
    ensures
        quit <==> time_over && forall|i: int|
            0 <= i < before.workers.len() ==> (#[trigger] before.workers[i]) is Idle,
        !quit ==> after == before,
        quit ==> logs(
            before,
            seq!["Stress test duration reached. All workers idle. Exiting successfully."@],
            after,
        ),
        after == (AppView { logs: after.logs, selected_log: after.selected_log, ..before }),
{
    if quit {
        lemma_logs_keep_settings(before, seq![time_over_message()], after);
    }
}

/// The workers are all idle exactly where each of them is.
pub proof fn law_all_idle_means_each(v: AppView)
    ensures
        all_idle(v) <==> forall|i: int|
            0 <= i < v.workers.len() ==> (#[trigger] v.workers[i]) is Idle,
{
}

} // verus!
