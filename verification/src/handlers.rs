//! How the reports of the workers change the state of a stress test.

use crate::app::{
    all_logged, dispatch_views, logs, status_views, valid, App, AppView, Dispatch, DispatchView,
    RunState,
};
use crate::clock::{clock_now, date_stamp_now, is_clock, is_date_stamp};
use crate::debugger::{CrashJob, HangReport};
use crate::event::outcome_view;
use crate::order::texts;
use crate::path::{paths_of, shown_name, TestPath, TestView};
use crate::schedule::lemma_not_isolated_keeps_valid;
use crate::stats::{
    has_path, has_room, law_hang_counts_once, law_run_counts_once, law_runs_succeed_or_fail,
    law_unknown_path_counts_nowhere, lemma_total_bounds, with_hang, with_run, RowView, TestStats,
};
use crate::text::{decimal, decimal_text, optional_text, signed_decimal, signed_decimal_text};
use crate::worker::{CmdView, StatusView, WorkerCmd, WorkerState, WorkerStatus};
use vstd::prelude::*;
use vstd::string::*;

verus! {

/// The state with worker `id` doing something else.
pub open spec fn with_status(v: AppView, id: int, status: StatusView) -> AppView {
    AppView { workers: v.workers.update(id, status), ..v }
}

/// The state after worker `id` has started the process of its job.
pub open spec fn started(v: AppView, id: int, test: TestView, process: u32) -> AppView {
    match v.workers[id] {
        StatusView::Running { start_time, .. } => with_status(
            v,
            id,
            StatusView::Running { test_path: test, pid: process, start_time },
        ),
        _ => v,
    }
}

/// The run was a success.
pub open spec fn succeeded(status: Result<i32, Seq<char>>) -> bool {
    status == Ok::<i32, Seq<char>>(0)
}

/// The run of a known test was no success.
pub open spec fn is_failure(v: AppView, test: TestView, status: Result<i32, Seq<char>>) -> bool {
    has_path(v.rows, test.path) && !succeeded(status)
}

/// The suspect test of worker `id` has come to an end after all.
pub open spec fn is_false_alarm(v: AppView, id: usize) -> bool {
    v.run_state == (RunState::Isolating { suspect_worker_id: id })
}

/// The state after the job of worker `id` is over, before anything is logged: a
/// run of a known test is counted, the worker is idle, and the end of a suspect
/// test lets the others go on.
pub open spec fn finished(
    v: AppView,
    id: usize,
    test: TestView,
    status: Result<i32, Seq<char>>,
    duration: u128,
) -> AppView {
    AppView {
        attempts: v.attempts + if has_path(v.rows, test.path) {
            1nat
        } else {
            0
        },
        failures: v.failures + if is_failure(v, test, status) {
            1nat
        } else {
            0
        },
        rows: with_run(v.rows, test.path, succeeded(status), duration),
        workers: v.workers.update(id as int, StatusView::Idle),
        run_state: if is_false_alarm(v, id) {
            RunState::Running
        } else {
            v.run_state
        },
        ..v
    }
}

/// What is logged of a failed run.
pub open spec fn failure_message(
    id: usize,
    test: TestView,
    status: Result<i32, Seq<char>>,
) -> Seq<char> {
    match status {
        Ok(code) => "Worker "@ + decimal(id as nat) + " - test '"@ + shown_name(test)
            + "' failed (exit code "@ + signed_decimal(code as int)
            + "). Rerunning with LLDB..."@,
        Err(error) => "Worker "@ + decimal(id as nat) + " - test '"@ + shown_name(test)
            + "' crashed: "@ + error + ". Rerunning with LLDB..."@,
    }
}

/// What is logged of a suspicion that was wrong.
pub open spec fn false_alarm_message(id: usize, test: TestView) -> Seq<char> {
    "Worker "@ + decimal(id as nat) + " - suspected hang on '"@ + shown_name(test)
        + "' was a false positive. Resuming..."@
}

/// What is logged when the job of worker `id` is over.
pub open spec fn finished_messages(
    v: AppView,
    id: usize,
    test: TestView,
    status: Result<i32, Seq<char>>,
) -> Seq<Seq<char>> {
    let failure = if is_failure(v, test, status) {
        seq![failure_message(id, test, status)]
    } else {
        Seq::empty()
    };
    let alarm = if is_false_alarm(v, id) {
        seq![false_alarm_message(id, test)]
    } else {
        Seq::empty()
    };
    failure + alarm
}

/// The end of the job of worker `id` can be taken in: there is such a worker,
/// and the counters of the test have room.
pub open spec fn can_finish(v: AppView, id: usize, test: TestView, duration: u128) -> bool {
    &&& id < v.workers.len()
    &&& has_path(v.rows, test.path) ==> v.attempts < u64::MAX && has_room(v.rows, test.path, duration)
}

/// Worker `id` is suspected: it runs a job, and no other is under suspicion.
pub open spec fn is_suspicious(v: AppView, id: usize) -> bool {
    v.run_state is Running && v.workers[id as int] is Running
}

/// The state after worker `id` was suspected, before anything is logged.
pub open spec fn suspected(v: AppView, id: usize) -> AppView {
    match v.workers[id as int] {
        StatusView::Running { test_path, pid, start_time } if v.run_state is Running => AppView {
            run_state: RunState::Isolating { suspect_worker_id: id },
            ..with_status(v, id as int, StatusView::Isolating { test_path, pid, start_time })
        },
        _ => v,
    }
}

/// What is logged of a suspicion.
pub open spec fn suspicion_message(id: usize, test: TestView) -> Seq<char> {
    "[SUSPECT HANG] Worker "@ + decimal(id as nat) + " running '"@ + shown_name(test)
        + "' has timed out. Isolating..."@
}

/// What is logged when worker `id` is suspected.
pub open spec fn suspected_messages(v: AppView, id: usize) -> Seq<Seq<char>> {
    match v.workers[id as int] {
        StatusView::Running { test_path, .. } if v.run_state is Running => seq![
            suspicion_message(id, test_path),
        ],
        _ => Seq::empty(),
    }
}

/// The commands that stop the jobs of the first `k` workers other than `id`.
pub open spec fn kill_commands(workers: Seq<StatusView>, id: usize, k: int) -> Seq<DispatchView>
    decreases k,
{
    if k <= 0 {
        Seq::empty()
    } else if k - 1 != id && workers[k - 1] is Running {
        kill_commands(workers, id, k - 1).push(((k - 1) as usize, CmdView::Kill))
    } else {
        kill_commands(workers, id, k - 1)
    }
}

/// The commands that let the suspect test of worker `id` run alone.
pub open spec fn isolation_commands(v: AppView, id: usize) -> Seq<DispatchView> {
    if is_suspicious(v, id) {
        seq![(id, CmdView::ProceedIsolation)] + kill_commands(
            v.workers,
            id,
            v.workers.len() as int,
        )
    } else {
        Seq::empty()
    }
}

/// The test that worker `id` runs alone.
pub open spec fn isolated_test(v: AppView, id: usize) -> TestView {
    match v.workers[id as int] {
        StatusView::Isolating { test_path, .. } => test_path,
        _ => TestView { path: "unknown"@, file_name: Some("unknown"@) },
    }
}

/// The state after a hang of worker `id` was confirmed, before anything is
/// logged: it is counted, and the stress test is over.
pub open spec fn hang_confirmed(v: AppView, id: usize) -> AppView {
    AppView {
        hangs: v.hangs + 1,
        rows: with_hang(v.rows, isolated_test(v, id).path),
        run_state: RunState::Terminated,
        ..v
    }
}

/// What is logged of a confirmed hang.
pub open spec fn hang_message(id: usize, test: TestView) -> Seq<char> {
    "Worker "@ + decimal(id as nat) + " - CONFIRMED HANG on '"@ + shown_name(test) + "'!"@
}

/// The end of a job keeps the state valid.
pub proof fn lemma_finished_keeps_valid(
    v: AppView,
    id: usize,
    test: TestView,
    status: Result<i32, Seq<char>>,
    duration: u128,
)
    requires
        valid(v),
        can_finish(v, id, test, duration),
    ensures
        valid(finished(v, id, test, status, duration)),
        v.failures <= v.attempts,
{
    let after = finished(v, id, test, status, duration);
    law_runs_succeed_or_fail(v.rows);
    if has_path(v.rows, test.path) {
        law_run_counts_once(v.rows, test.path, succeeded(status), duration);
    } else {
        law_unknown_path_counts_nowhere(v.rows, test.path, succeeded(status), duration);
    }
    assert forall|p: Seq<char>| has_path(after.rows, p) <==> paths_of(v.tests).contains(p) by {
        lemma_same_paths(v.rows, after.rows, p);
    }
    assert forall|i: int|
        0 <= i < after.workers.len() && (#[trigger] after.workers[i]) is Isolating implies after.run_state is Terminated
        || after.run_state == (RunState::Isolating { suspect_worker_id: i as usize }) by {
        assert(v.workers[i] is Isolating);
    }
    assert forall|i: int, j: int|
        0 <= i < after.workers.len() && 0 <= j < after.workers.len() && (
        #[trigger] after.workers[i]) is Isolating && (#[trigger] after.workers[j]) is Isolating implies i
        == j by {
        assert(v.workers[i] is Isolating && v.workers[j] is Isolating);
    }
}

/// Rows with the same paths have the same tests.
proof fn lemma_same_paths(a: Seq<RowView>, b: Seq<RowView>, path: Seq<char>)
    requires
        a.len() == b.len(),
        forall|i: int| 0 <= i < a.len() ==> (#[trigger] a[i]).0.path == (#[trigger] b[i]).0.path,
    ensures
        has_path(a, path) == has_path(b, path),
{
    if has_path(a, path) {
        let i = choose|i: int| 0 <= i < a.len() && (#[trigger] a[i]).0.path == path;
        assert(b[i].0.path == path);
    }
    if has_path(b, path) {
        let i = choose|i: int| 0 <= i < b.len() && (#[trigger] b[i]).0.path == path;
        assert(a[i].0.path == path);
    }
}

/// A suspicion keeps the state valid.
pub proof fn lemma_suspected_keeps_valid(v: AppView, id: usize)
    requires
        valid(v),
        id < v.workers.len(),
    ensures
        valid(suspected(v, id)),
{
    let after = suspected(v, id);
    assert forall|i: int|
        0 <= i < after.workers.len() && (#[trigger] after.workers[i]) is Isolating implies after.run_state is Terminated
        || after.run_state == (RunState::Isolating { suspect_worker_id: i as usize }) by {
        if i != id {
            assert(v.workers[i] is Isolating);
        }
    }
    assert forall|i: int, j: int|
        0 <= i < after.workers.len() && 0 <= j < after.workers.len() && (
        #[trigger] after.workers[i]) is Isolating && (#[trigger] after.workers[j]) is Isolating implies i
        == j by {
        if i != id {
            assert(v.workers[i] is Isolating);
        }
        if j != id {
            assert(v.workers[j] is Isolating);
        }
    }
}

/// A confirmed hang keeps the state valid.
pub proof fn lemma_hang_confirmed_keeps_valid(v: AppView, id: usize)
    requires
        valid(v),
        id < v.workers.len(),
        v.hangs < u64::MAX,
    ensures
        valid(hang_confirmed(v, id)),
{
    let after = hang_confirmed(v, id);
    let path = isolated_test(v, id).path;
    if has_path(v.rows, path) {
        law_hang_counts_once(v.rows, path);
    } else {
        law_unknown_path_counts_nowhere(v.rows, path, true, 0);
    }
    assert forall|p: Seq<char>| has_path(after.rows, p) <==> paths_of(v.tests).contains(p) by {
        lemma_same_paths(v.rows, after.rows, p);
    }
}

/// What the end of a job leaves to do.
#[derive(Debug)]
pub struct FinishedRun {
    /// What is logged.
    pub messages: Vec<String>,
    /// The run of a known test was no success.
    pub failed: bool,
}

impl App {
    /// Logs some messages, one after the other.
    pub fn log_all(&mut self, messages: &Vec<String>)
        requires
            old(self).wf(),
        ensures
            logs(old(self)@, texts(messages@), final(self)@),
            final(self).wf(),
    {
        let ghost before = self@;
        let ghost all = texts(messages@);
        let ghost mut clocks: Seq<Seq<char>> = Seq::empty();
        let mut n: usize = 0;
        while n < messages.len()
            invariant
                n <= messages@.len(),
                all == texts(messages@),
                clocks.len() == n,
                forall|i: int| 0 <= i < clocks.len() ==> is_clock(#[trigger] clocks[i]),
                self@ == all_logged(before, clocks, all.take(n as int)),
                self.wf(),
            decreases messages@.len() - n,
        {
            let clock = clock_now();
            self.log_at(clock.as_str(), messages[n].as_str());
            proof {
                let more = clocks.push(clock@);
                assert(more.drop_last() =~= clocks);
                assert(all.take(n + 1).drop_last() =~= all.take(n as int));
                clocks = more;
            }
            n = n + 1;
        }
        proof {
            assert(all.take(n as int) =~= all);
        }
    }

    /// Takes note that worker `id` has started the process of its job.
    pub fn handle_worker_started(&mut self, id: usize, test_path: TestPath, pid: u32)
        requires
            old(self).wf(),
            id < old(self)@.workers.len(),
        ensures
            final(self)@ == started(old(self)@, id as int, test_path@, pid),
            final(self).wf(),
    {
        let ghost before = self@;
        proof {
            assert(before.workers[id as int] == self.workers@[id as int].status@);
        }
        let since = match &self.workers[id].status {
            WorkerStatus::Running { start_time, .. } => Some(*start_time),
            _ => None,
        };
        if let Some(start_time) = since {
            self.set_status(id, WorkerStatus::Running { test_path, pid, start_time });
        }
    }

    /// Has worker `id` do something that is no isolation.
    fn set_status(&mut self, id: usize, status: WorkerStatus)
        requires
            old(self).wf(),
            id < old(self)@.workers.len(),
            !(status@ is Isolating),
        ensures
            final(self)@ == with_status(old(self)@, id as int, status@),
            final(self).wf(),
    {
        let ghost before = self@;
        self.workers.set(id, WorkerState { id, status });
        proof {
            assert(status_views(self.workers@) =~= before.workers.update(id as int, status@));
            lemma_not_isolated_keeps_valid(before, self@.workers);
        }
    }

    /// Takes note that the job of worker `id` was given up.
    pub fn handle_worker_aborted(&mut self, id: usize)
        requires
            old(self).wf(),
            id < old(self)@.workers.len(),
        ensures
            final(self)@ == with_status(old(self)@, id as int, StatusView::Idle),
            final(self).wf(),
    {
        self.set_status(id, WorkerStatus::Idle);
    }

    /// Tells whether the end of the job of worker `id` can be taken in.
    pub fn can_take_finish(&self, id: usize, test_path: &TestPath, duration: u128) -> (can: bool)
        requires
            self.wf(),
        ensures
            can == can_finish(self@, id, test_path@, duration),
    {
        id < self.workers.len() && (self.test_stats.find(test_path.path.as_str()).is_none() || (
        self.total_attempts < u64::MAX && self.test_stats.can_record_run(test_path.path.as_str(), duration)))
    }

    /// Takes note that the job of worker `id` is over, and tells what is to be
    /// logged.
    pub fn record_finished(
        &mut self,
        id: usize,
        test_path: &TestPath,
        status: &Result<i32, String>,
        duration: u128,
    ) -> (run: FinishedRun)
        requires
            old(self).wf(),
            can_finish(old(self)@, id, test_path@, duration),
        ensures
            final(self)@ == finished(
                old(self)@,
                id,
                test_path@,
                outcome_view(*status),
                duration,
            ),
            final(self).wf(),
            texts(run.messages@) == finished_messages(
                old(self)@,
                id,
                test_path@,
                outcome_view(*status),
            ),
            run.failed == is_failure(old(self)@, test_path@, outcome_view(*status)),
    {
        let ghost before = self@;
        let ghost shown = outcome_view(*status);
        proof {
            lemma_finished_keeps_valid(before, id, test_path@, shown, duration);
            if !has_path(before.rows, test_path@.path) {
                assert(has_room(before.rows, test_path@.path, duration));
            }
        }
        let success = match status {
            Ok(code) => *code == 0,
            Err(_) => false,
        };
        let mut messages: Vec<String> = Vec::new();
        let known = self.test_stats.record_run(test_path.path.as_str(), success, duration);
        let failed = known && !success;
        if known {
            self.total_attempts = self.total_attempts + 1;
        }
        let file_name = test_path.shown_text();
        if failed {
            self.total_failures = self.total_failures + 1;
            let head = "Worker ".to_owned().concat(decimal_text(id as u64).as_str()).concat(
                " - test '",
            ).concat(file_name.as_str());
            let message = match status {
                Ok(code) => head.concat("' failed (exit code ").concat(
                    signed_decimal_text(*code).as_str(),
                ).concat("). Rerunning with LLDB..."),
                Err(error) => head.concat("' crashed: ").concat(error.as_str()).concat(
                    ". Rerunning with LLDB...",
                ),
            };
            messages.push(message);
        }
        self.workers.set(id, WorkerState { id, status: WorkerStatus::Idle });
        let false_alarm = match self.run_state {
            RunState::Isolating { suspect_worker_id } => suspect_worker_id == id,
            _ => false,
        };
        if false_alarm {
            let message = "Worker ".to_owned().concat(decimal_text(id as u64).as_str()).concat(
                " - suspected hang on '",
            ).concat(file_name.as_str()).concat("' was a false positive. Resuming...");
            messages.push(message);
            self.run_state = RunState::Running;
        }
        proof {
            assert(self@.workers =~= before.workers.update(id as int, StatusView::Idle));
            assert(texts(messages@) =~= finished_messages(before, id, test_path@, shown));
        }
        FinishedRun { messages, failed }
    }

    /// Plans the debugger's rerun of a test that failed.
    pub fn spawn_lldb_crash(&self, test_path: TestPath) -> (job: CrashJob)
        ensures
            exists|stamp: Seq<char>| #[trigger]
                is_date_stamp(stamp) && job.is_for(
                    self@.lldb_path,
                    self@.report_dir,
                    test_path@,
                    stamp,
                ),
    {
        let stamp = date_stamp_now();
        CrashJob::plan(
            self.args.lldb_path.as_str(),
            self.args.report_dir.as_str(),
            &test_path,
            stamp.as_str(),
        )
    }

    /// Takes note that the job of worker `id` is over. A failed run of a known
    /// test is to be rerun under the debugger.
    pub fn handle_worker_finished(
        &mut self,
        id: usize,
        test_path: TestPath,
        status: Result<i32, String>,
        duration: u128,
        _stdout: String,
        _stderr: String,
    ) -> (rerun: Option<CrashJob>)
        requires
            old(self).wf(),
            can_finish(old(self)@, id, test_path@, duration),
        ensures
            logs(
                finished(old(self)@, id, test_path@, outcome_view(status), duration),
                finished_messages(old(self)@, id, test_path@, outcome_view(status)),
                final(self)@,
            ),
            final(self).wf(),
            rerun is Some <==> is_failure(old(self)@, test_path@, outcome_view(status)),
            rerun matches Some(job) ==> exists|stamp: Seq<char>| #[trigger]
                is_date_stamp(stamp) && job.is_for(
                    old(self)@.lldb_path,
                    old(self)@.report_dir,
                    test_path@,
                    stamp,
                ),
    {
        let run = self.record_finished(id, &test_path, &status, duration);
        let rerun = if run.failed {
            Some(self.spawn_lldb_crash(test_path))
        } else {
            None
        };
        self.log_all(&run.messages);
        rerun
    }

    /// Takes note that the job of worker `id` takes longer than it should, and
    /// tells what is to be logged and commanded.
    pub fn record_suspected(&mut self, id: usize) -> (found: (Vec<String>, Vec<Dispatch>))
        requires
            old(self).wf(),
            old(self)@.run_state is Running ==> id < old(self)@.workers.len(),
        ensures
            final(self)@ == suspected(old(self)@, id),
            final(self).wf(),
            old(self)@.run_state is Running ==> (
            old(self)@.workers[id as int] matches StatusView::Running { test_path, pid, start_time }
                ==> final(self)@.workers[id as int] == (StatusView::Isolating {
                test_path,
                pid,
                start_time,
            })),
            texts(found.0@) == suspected_messages(old(self)@, id),
            dispatch_views(found.1@) == isolation_commands(old(self)@, id),
    {
        let ghost before = self@;
        let mut messages: Vec<String> = Vec::new();
        let mut commands: Vec<Dispatch> = Vec::new();
        let running = match self.run_state {
            RunState::Running => true,
            _ => false,
        };
        if !running {
            proof {
                assert(texts(messages@) =~= suspected_messages(before, id));
                assert(dispatch_views(commands@) =~= isolation_commands(before, id));
            }
            return (messages, commands);
        }
        proof {
            lemma_suspected_keeps_valid(before, id);
            assert(before.workers[id as int] == self.workers@[id as int].status@);
        }
        let status = self.workers[id].status.clone();
        let (test_path, pid, start_time) = match status {
            WorkerStatus::Running { test_path, pid, start_time } => (test_path, pid, start_time),
            _ => {
                proof {
                    assert(texts(messages@) =~= suspected_messages(before, id));
                    assert(dispatch_views(commands@) =~= isolation_commands(before, id));
                }
                return (messages, commands);
            },
        };
        let file_name = test_path.shown_text();
        let message = "[SUSPECT HANG] Worker ".to_owned().concat(
            decimal_text(id as u64).as_str(),
        ).concat(" running '").concat(file_name.as_str()).concat("' has timed out. Isolating...");
        messages.push(message);
        self.run_state = RunState::Isolating { suspect_worker_id: id };
        commands.push(Dispatch { worker: id, cmd: WorkerCmd::ProceedIsolation });
        let isolated = WorkerStatus::Isolating { test_path, pid, start_time };
        self.workers.set(id, WorkerState { id, status: isolated });
        proof {
            assert(self@.workers =~= before.workers.update(id as int, isolated@));
            assert(texts(messages@) =~= suspected_messages(before, id));
            assert(dispatch_views(commands@) =~= seq![(id, CmdView::ProceedIsolation)]
                + kill_commands(before.workers, id, 0));
        }
        let mut i: usize = 0;
        while i < self.workers.len()
            invariant
                i <= self.workers@.len(),
                id < before.workers.len(),
                self.wf(),
                self@ == suspected(before, id),
                self@.workers == before.workers.update(id as int, isolated@),
                self@.workers.len() == before.workers.len(),
                dispatch_views(commands@) == seq![(id, CmdView::ProceedIsolation)] + kill_commands(
                    before.workers,
                    id,
                    i as int,
                ),
            decreases self.workers@.len() - i,
        {
            let busy = match self.workers[i].status {
                WorkerStatus::Running { .. } => true,
                _ => false,
            };
            proof {
                assert(self@.workers[i as int] == self.workers@[i as int].status@);
                if i != id {
                    assert(self@.workers[i as int] == before.workers[i as int]);
                }
            }
            if i != id && busy {
                let ghost sent = commands@;
                commands.push(Dispatch { worker: i, cmd: WorkerCmd::Kill });
                proof {
                    assert(dispatch_views(commands@) =~= dispatch_views(sent).push(
                        (i, CmdView::Kill),
                    ));
                    assert(dispatch_views(commands@) =~= seq![(id, CmdView::ProceedIsolation)]
                        + kill_commands(before.workers, id, i + 1));
                }
            }
            i = i + 1;
        }
        (messages, commands)
    }

    /// Takes note that the job of worker `id` takes longer than it should: it
    /// goes on alone, unless another is under suspicion. The commands are for
    /// the workers.
    pub fn handle_suspected_hang(&mut self, id: usize) -> (commands: Vec<Dispatch>)
        requires
            old(self).wf(),
            old(self)@.run_state is Running ==> id < old(self)@.workers.len(),
        ensures
            logs(
                suspected(old(self)@, id),
                suspected_messages(old(self)@, id),
                final(self)@,
            ),
            final(self).wf(),
            dispatch_views(commands@) == isolation_commands(old(self)@, id),
    {
        let (messages, commands) = self.record_suspected(id);
        self.log_all(&messages);
        commands
    }

    /// Takes note that a hang of worker `id` was confirmed, and tells which test
    /// it is.
    pub fn record_confirmed_hang(&mut self, id: usize) -> (test_path: TestPath)
        requires
            old(self).wf(),
            id < old(self)@.workers.len(),
            old(self)@.hangs < u64::MAX,
        ensures
            test_path@ == isolated_test(old(self)@, id),
            final(self)@ == hang_confirmed(old(self)@, id),
            final(self).wf(),
    {
        let ghost before = self@;
        proof {
            lemma_hang_confirmed_keeps_valid(before, id);
            assert(before.workers[id as int] == self.workers@[id as int].status@);
            assert forall|i: int|
                0 <= i < before.rows.len() implies (#[trigger] before.rows[i]).1.hangs < u64::MAX by {
                lemma_total_bounds(before.rows, |s: TestStats| s.hangs as nat, i);
            }
        }
        self.total_hangs = self.total_hangs + 1;
        let test_path = match &self.workers[id].status {
            WorkerStatus::Isolating { test_path, .. } => test_path.clone(),
            _ => TestPath {
                path: "unknown".to_owned(),
                file_name: Some("unknown".to_owned()),
            },
        };
        let _known = self.test_stats.record_hang(test_path.path.as_str());
        self.run_state = RunState::Terminated;
        test_path
    }

    /// Takes note that a hang of worker `id` was confirmed: the stress test is
    /// over, and the report is what is left to write and to print.
    pub fn handle_worker_confirmed_hang(
        &mut self,
        id: usize,
        backtrace: String,
        core_path: Option<String>,
    ) -> (report: HangReport)
        requires
            old(self).wf(),
            id < old(self)@.workers.len(),
            old(self)@.hangs < u64::MAX,
        ensures
            logs(
                hang_confirmed(old(self)@, id),
                seq![hang_message(id, isolated_test(old(self)@, id))],
                final(self)@,
            ),
            final(self).wf(),
            exists|stamp: Seq<char>| #[trigger]
                is_date_stamp(stamp) && report.is_for(
                    old(self)@.report_dir,
                    isolated_test(old(self)@, id),
                    stamp,
                    backtrace@,
                    optional_text(core_path),
                ),
    {
        let test_path = self.record_confirmed_hang(id);
        let file_name = test_path.shown_text();
        let message = "Worker ".to_owned().concat(decimal_text(id as u64).as_str()).concat(
            " - CONFIRMED HANG on '",
        ).concat(file_name.as_str()).concat("'!");
        let ghost confirmed = self@;
        self.log(message);
        let stamp = date_stamp_now();
        let report = HangReport::compose(
            self.args.report_dir.as_str(),
            &test_path,
            stamp.as_str(),
            backtrace,
            &core_path,
        );
        proof {
            lemma_logs_keep_settings(
                confirmed,
                seq![hang_message(id, isolated_test(old(self)@, id))],
                self@,
            );
        }
        report
    }
}

/// Logging changes the log and what is highlighted of it, and nothing else.
pub proof fn lemma_all_logged_keeps_the_rest(
    v: AppView,
    clocks: Seq<Seq<char>>,
    messages: Seq<Seq<char>>,
)
    ensures
        all_logged(v, clocks, messages) == (AppView {
            logs: all_logged(v, clocks, messages).logs,
            selected_log: all_logged(v, clocks, messages).selected_log,
            ..v
        }),
    decreases messages.len(),
{
    if messages.len() > 0 {
        lemma_all_logged_keeps_the_rest(v, clocks.drop_last(), messages.drop_last());
    }
}

/// Logging changes the log and what is highlighted of it, and nothing else.
pub proof fn lemma_logs_keep_settings(before: AppView, messages: Seq<Seq<char>>, after: AppView)
    requires
        logs(before, messages, after),
    ensures
        after == (AppView { logs: after.logs, selected_log: after.selected_log, ..before }),
{
    let clocks = choose|clocks: Seq<Seq<char>>|
        {
            &&& clocks.len() == messages.len()
            &&& forall|i: int| 0 <= i < clocks.len() ==> is_clock(#[trigger] clocks[i])
            &&& after == #[trigger] all_logged(before, clocks, messages)
        };
    lemma_all_logged_keeps_the_rest(before, clocks, messages);
}

} // verus!
