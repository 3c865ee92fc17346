//! What holds of a stress test as a whole.

use crate::app::{
    all_logged, dispatch_views, log_line, logged, logs, valid, AppView, DispatchView, RunState,
    MAX_LOGS,
};
use crate::clock::is_clock;
use crate::drive::{all_idle, can_handle, ends, handles, key_pressed, time_over_message, Step};
use crate::event::{EventView, Key};
use crate::handlers::{
    false_alarm_message, finished, finished_messages, hang_confirmed, hang_message, is_suspicious,
    isolated_test, isolation_commands, kill_commands, lemma_logs_keep_settings, started, suspected,
    suspected_messages, with_status,
};
use crate::path::TestView;
use crate::schedule::{
    idle_count, job_at, jobs_taken, lemma_idle_count, lemma_wrapped_adds, may_start, schedules,
    start_commands, wrapped,
};
use crate::stats::{all_successes, law_runs_succeed_or_fail};
use crate::worker::{CmdView, StatusView};
use vstd::arithmetic::div_mod::{lemma_mod_add_multiples_vanish, lemma_small_mod};
use vstd::prelude::*;

verus! {

/// The jobs that are taken one after the other are the tests in their order,
/// again and again: taking some jobs brings the later ones so much nearer, and
/// after one round the same test comes again.
pub proof fn law_jobs_go_round(v: AppView, taken: nat, ahead: nat)
    requires
        valid(v),
        v.tests.len() > 0,
    ensures
        job_at(jobs_taken(v, taken), ahead) == job_at(v, taken + ahead),
        job_at(v, ahead + v.tests.len()) == job_at(v, ahead),
        valid(jobs_taken(v, taken)),
{
    let len = v.tests.len();
    lemma_wrapped_adds(v.next, taken, ahead, len);
    lemma_mod_add_multiples_vanish((v.next + ahead) as int, len as int);
    assert(wrapped(v.next, ahead + len, len) == wrapped(v.next, ahead, len));
    assert(0 <= (v.next + taken) as int % len as int && ((v.next + taken) as int % len as int)
        < len) by (nonlinear_arith)
        requires
            len > 0,
    ;
}

/// In one round every test has its turn, and just one.
pub proof fn law_every_test_has_its_turn(next: nat, len: nat, test: nat)
    requires
        next < len,
        test < len,
    ensures
        exists|ahead: nat| ahead < len && #[trigger] wrapped(next, ahead, len) == test,
        forall|a: nat, b: nat|
            a < len && b < len && #[trigger] wrapped(next, a, len) == #[trigger] wrapped(
                next,
                b,
                len,
            ) ==> a == b,
{
    let ahead: nat = if test >= next {
        (test - next) as nat
    } else {
        (test + len - next) as nat
    };
    lemma_small_mod(test, len);
    lemma_mod_add_multiples_vanish(test as int, len as int);
    assert(wrapped(next, ahead, len) == test);
    assert forall|a: nat, b: nat|
        a < len && b < len && #[trigger] wrapped(next, a, len) == #[trigger] wrapped(
            next,
            b,
            len,
        ) implies a == b by {
        lemma_wrapped_is(next, a, len);
        lemma_wrapped_is(next, b, len);
    }
}

/// Within one round the position wraps at most once.
proof fn lemma_wrapped_is(next: nat, ahead: nat, len: nat)
    requires
        next < len,
        ahead < len,
    ensures
        wrapped(next, ahead, len) == if next + ahead < len {
            next + ahead
        } else {
            (next + ahead - len) as nat
        },
{
    if next + ahead < len {
        lemma_small_mod(next + ahead, len);
    } else {
        let rest = (next + ahead - len) as nat;
        lemma_small_mod(rest, len);
        lemma_mod_add_multiples_vanish(rest as int, len as int);
    }
}

/// Where jobs are started, no worker stays idle, busy workers go on with what
/// they do, and as many commands are sent as workers were idle, to no worker
/// more than one.
pub proof fn law_no_worker_stays_idle(
    before: AppView,
    time_over: bool,
    after: AppView,
    commands: Seq<DispatchView>,
)
    requires
        before.workers.len() <= usize::MAX,
        schedules(before, time_over, after, commands),
        may_start(before, time_over),
    ensures
        after.workers.len() == before.workers.len(),
        forall|i: int| 0 <= i < after.workers.len() ==> !((#[trigger] after.workers[i]) is Idle),
        forall|i: int|
            0 <= i < before.workers.len() && !((#[trigger] before.workers[i]) is Idle)
                ==> after.workers[i] == before.workers[i],
        idle_count(after.workers) == 0,
        commands.len() == idle_count(before.workers),
        forall|c: int, d: int|
            0 <= c < d < commands.len() ==> (#[trigger] commands[c]).0 != (#[trigger] commands[d]).0,
{
    lemma_start_commands(before, before.workers.len() as int);
    assert(before.workers.take(before.workers.len() as int) =~= before.workers);
    lemma_idle_count(after.workers);
}

/// The start commands are as many as idle workers, and each goes to one of them
/// and names the test that it is shown to run.
proof fn lemma_start_commands(v: AppView, k: int)
    requires
        0 <= k <= v.workers.len(),
        v.workers.len() <= usize::MAX,
    ensures
        start_commands(v, k).len() == idle_count(v.workers.take(k)),
        forall|c: int|
            0 <= c < start_commands(v, k).len() ==> {
                let command = #[trigger] start_commands(v, k)[c];
                &&& command.0 < k
                &&& v.workers[command.0 as int] is Idle
                &&& command.1 == (CmdView::StartJob {
                    test_path: job_at(v, idle_count(v.workers.take(command.0 as int))),
                })
            },
        forall|c: int, d: int|
            0 <= c < d < start_commands(v, k).len() ==> (#[trigger] start_commands(v, k)[c]).0 < (
            #[trigger] start_commands(v, k)[d]).0,
    decreases k,
{
    if k > 0 {
        lemma_start_commands(v, k - 1);
        assert(v.workers.take(k).drop_last() =~= v.workers.take(k - 1));
        let shorter = start_commands(v, k - 1);
        let all = start_commands(v, k);
        assert forall|c: int| 0 <= c < all.len() implies {
            let command = #[trigger] all[c];
            &&& command.0 < k
            &&& v.workers[command.0 as int] is Idle
            &&& command.1 == (CmdView::StartJob {
                test_path: job_at(v, idle_count(v.workers.take(command.0 as int))),
            })
        } by {
            if c < shorter.len() {
                assert(all[c] == shorter[c]);
            }
        }
        assert forall|c: int, d: int| 0 <= c < d < all.len() implies (#[trigger] all[c]).0 < (
        #[trigger] all[d]).0 by {
            assert(all[c] == shorter[c]);
            if d < shorter.len() {
                assert(all[d] == shorter[d]);
            }
        }
    } else {
        assert(v.workers.take(0) =~= Seq::empty());
    }
}

/// Every start command goes to a worker that was idle and is shown to run the
/// test that the command names.
pub proof fn law_commands_match_what_is_shown(
    before: AppView,
    time_over: bool,
    after: AppView,
    commands: Seq<DispatchView>,
    c: int,
)
    requires
        valid(before),
        schedules(before, time_over, after, commands),
        0 <= c < commands.len(),
    ensures
        commands[c].0 < before.workers.len(),
        before.workers[commands[c].0 as int] is Idle,
        commands[c].1 matches CmdView::StartJob { test_path } && after.workers[commands[c].0 as int] matches StatusView::Running {
            test_path: shown,
            pid,
            ..
        } && shown == test_path && pid == 0,
{
    lemma_start_commands(before, before.workers.len() as int);
}

/// Giving out jobs once more, at once, gives out nothing.
pub proof fn law_scheduling_again_does_nothing(
    before: AppView,
    time_over: bool,
    after: AppView,
    commands: Seq<DispatchView>,
    time_over_then: bool,
    later: AppView,
    more: Seq<DispatchView>,
)
    requires
        valid(before),
        schedules(before, time_over, after, commands),
        schedules(after, time_over_then, later, more),
        time_over ==> time_over_then,
    ensures
        later == after,
        more.len() == 0,
{
    if may_start(after, time_over_then) {
        law_no_worker_stays_idle(before, time_over, after, commands);
        law_no_worker_stays_idle(after, time_over_then, later, more);
        assert(after.workers.take(after.workers.len() as int) =~= after.workers);
        assert(later.workers =~= after.workers);
    }
}

/// Giving out jobs changes what the workers do and which test is next, and
/// nothing else.
pub proof fn law_scheduling_changes_only_jobs(
    before: AppView,
    time_over: bool,
    after: AppView,
    commands: Seq<DispatchView>,
)
    requires
        schedules(before, time_over, after, commands),
    ensures
        after == (AppView { workers: after.workers, next: after.next, ..before }),
        after.workers.len() == before.workers.len(),
{
}

/// Of the runs that were counted, each is a success or a failure.
pub proof fn law_runs_are_successes_or_failures(v: AppView)
    requires
        valid(v),
    ensures
        v.attempts == all_successes(v.rows) + v.failures,
{
    law_runs_succeed_or_fail(v.rows);
}

/// The newest line of the log is what was logged last, and it is highlighted;
/// the lines before it are the newest of those that were there.
pub proof fn law_log_ends_with_the_message(v: AppView, clock: Seq<char>, message: Seq<char>)
    requires
        valid(v),
    ensures
        logged(v, clock, message).logs.len() == if v.logs.len() < MAX_LOGS {
            v.logs.len() + 1
        } else {
            MAX_LOGS as nat
        },
        logged(v, clock, message).logs.last() == log_line(clock, message),
        logged(v, clock, message).logs.drop_last() == if v.logs.len() < MAX_LOGS {
            v.logs
        } else {
            v.logs.drop_first()
        },
        logged(v, clock, message).selected_log == Some(
            (logged(v, clock, message).logs.len() - 1) as usize,
        ),
        valid(logged(v, clock, message)),
{
    let after = logged(v, clock, message).logs;
    if v.logs.len() < MAX_LOGS {
        assert(after.drop_last() =~= v.logs);
    } else {
        assert(after.drop_last() =~= v.logs.drop_first());
    }
}

/// While a test is isolated, or after a hang was confirmed, no further test is
/// suspected.
pub proof fn law_one_suspect_at_a_time(v: AppView, id: usize)
    requires
        !(v.run_state is Running),
    ensures
        suspected(v, id) == v,
        suspected_messages(v, id).len() == 0,
        isolation_commands(v, id).len() == 0,
{
}

/// The kill commands are those for the busy workers other than the suspect.
proof fn lemma_kill_commands(workers: Seq<StatusView>, id: usize, k: int)
    requires
        0 <= k <= workers.len(),
        workers.len() <= usize::MAX,
    ensures
        forall|c: int|
            0 <= c < kill_commands(workers, id, k).len() ==> {
                let command = #[trigger] kill_commands(workers, id, k)[c];
                &&& command.0 < k
                &&& command.0 != id
                &&& workers[command.0 as int] is Running
                &&& command.1 == CmdView::Kill
            },
        forall|c: int, d: int|
            0 <= c < d < kill_commands(workers, id, k).len() ==> (#[trigger] kill_commands(
                workers,
                id,
                k,
            )[c]).0 < (#[trigger] kill_commands(workers, id, k)[d]).0,
        forall|i: int|
            0 <= i < k && i != id && (#[trigger] workers[i]) is Running ==> kill_commands(
                workers,
                id,
                k,
            ).contains((i as usize, CmdView::Kill)),
    decreases k,
{
    if k > 0 {
        lemma_kill_commands(workers, id, k - 1);
        let shorter = kill_commands(workers, id, k - 1);
        let all = kill_commands(workers, id, k);
        assert forall|c: int| 0 <= c < all.len() implies {
            let command = #[trigger] all[c];
            &&& command.0 < k
            &&& command.0 != id
            &&& workers[command.0 as int] is Running
            &&& command.1 == CmdView::Kill
        } by {
            if c < shorter.len() {
                assert(all[c] == shorter[c]);
            }
        }
        assert forall|c: int, d: int| 0 <= c < d < all.len() implies (#[trigger] all[c]).0 < (
        #[trigger] all[d]).0 by {
            assert(all[c] == shorter[c]);
            if d < shorter.len() {
                assert(all[d] == shorter[d]);
            }
        }
        assert forall|i: int|
            0 <= i < k && i != id && (#[trigger] workers[i]) is Running implies all.contains(
            (i as usize, CmdView::Kill),
        ) by {
            if i < k - 1 {
                let c = choose|c: int|
                    0 <= c < shorter.len() && shorter[c] == (i as usize, CmdView::Kill);
                assert(all[c] == (i as usize, CmdView::Kill));
            } else {
                assert(all[all.len() - 1] == (i as usize, CmdView::Kill));
            }
        }
    }
}

/// A suspect test is left alone: its worker is told to go on, every other busy
/// worker is told to stop, and nobody is told anything else, or twice.
pub proof fn law_suspect_runs_alone(v: AppView, id: usize)
    requires
        valid(v),
        id < v.workers.len(),
        is_suspicious(v, id),
    ensures
        isolation_commands(v, id).len() > 0,
        isolation_commands(v, id)[0] == (id, CmdView::ProceedIsolation),
        forall|c: int|
            1 <= c < isolation_commands(v, id).len() ==> {
                let command = #[trigger] isolation_commands(v, id)[c];
                &&& command.0 != id
                &&& command.0 < v.workers.len()
                &&& v.workers[command.0 as int] is Running
                &&& command.1 == CmdView::Kill
            },
        forall|i: int|
            0 <= i < v.workers.len() && i != id && (#[trigger] v.workers[i]) is Running
                ==> isolation_commands(v, id).contains((i as usize, CmdView::Kill)),
        forall|c: int, d: int|
            0 <= c < d < isolation_commands(v, id).len() ==> (#[trigger] isolation_commands(
                v,
                id,
            )[c]).0 != (#[trigger] isolation_commands(v, id)[d]).0,
        suspected(v, id).run_state == (RunState::Isolating { suspect_worker_id: id }),
        suspected(v, id).workers[id as int] is Isolating,
{
    let all = isolation_commands(v, id);
    let kills = kill_commands(v.workers, id, v.workers.len() as int);
    lemma_kill_commands(v.workers, id, v.workers.len() as int);
    assert forall|c: int| 1 <= c < all.len() implies {
        let command = #[trigger] all[c];
        &&& command.0 != id
        &&& command.0 < v.workers.len()
        &&& v.workers[command.0 as int] is Running
        &&& command.1 == CmdView::Kill
    } by {
        assert(all[c] == kills[c - 1]);
    }
    assert forall|c: int, d: int| 0 <= c < d < all.len() implies (#[trigger] all[c]).0 != (
    #[trigger] all[d]).0 by {
        assert(all[d] == kills[d - 1]);
        if c > 0 {
            assert(all[c] == kills[c - 1]);
        }
    }
    assert forall|i: int|
        0 <= i < v.workers.len() && i != id && (#[trigger] v.workers[i]) is Running implies all.contains(
        (i as usize, CmdView::Kill),
    ) by {
        let c = choose|c: int| 0 <= c < kills.len() && kills[c] == (i as usize, CmdView::Kill);
        assert(all[c + 1] == (i as usize, CmdView::Kill));
    }
}

/// When the suspect test comes to an end after all, jobs are started again, and
/// the other workers do what they did.
pub proof fn law_false_alarm_resumes(
    v: AppView,
    id: usize,
    test: TestView,
    status: Result<i32, Seq<char>>,
    duration: u128,
)
    requires
        valid(v),
        id < v.workers.len(),
        is_suspicious(v, id),
    ensures
        finished(suspected(v, id), id, test, status, duration).run_state == RunState::Running,
        finished(suspected(v, id), id, test, status, duration).workers == v.workers.update(
            id as int,
            StatusView::Idle,
        ),
        finished_messages(suspected(v, id), id, test, status).last()
            == false_alarm_message(id, test),
{
    let after = finished(suspected(v, id), id, test, status, duration);
    assert(after.workers =~= v.workers.update(id as int, StatusView::Idle));
}

/// The settings of two states are the same: those of the command line, the
/// tests, the number of workers, and the beginning.
pub open spec fn same_settings(a: AppView, b: AppView) -> bool {
    &&& a.duration == b.duration
    &&& a.asked_workers == b.asked_workers
    &&& a.test_dir == b.test_dir
    &&& a.tick_rate == b.tick_rate
    &&& a.report_dir == b.report_dir
    &&& a.lldb_path == b.lldb_path
    &&& a.tests == b.tests
    &&& a.start_time == b.start_time
    &&& a.workers.len() == b.workers.len()
    &&& a.rows.len() == b.rows.len()
    &&& forall|i: int| 0 <= i < a.rows.len() ==> (#[trigger] a.rows[i]).0 == (#[trigger] b.rows[i]).0
}

/// No event changes the settings; the counters only grow, and each by one at
/// most.
pub proof fn law_events_only_count_up(
    before: AppView,
    event: EventView,
    time_over: bool,
    after: AppView,
    step: Step,
)
    requires
        valid(before),
        can_handle(before, event),
        handles(before, event, time_over, after, step),
    ensures
        same_settings(before, after),
        before.attempts <= after.attempts <= before.attempts + 1,
        before.failures <= after.failures <= before.failures + 1,
        before.hangs <= after.hangs <= before.hangs + 1,
        after.attempts > before.attempts ==> event is WorkerFinished,
        after.hangs > before.hangs ==> event is WorkerConfirmedHang,
{
    lemma_event_core(before, event, time_over, after, step);
}

/// The state that an event leads to before anything is logged or given out.
pub open spec fn core_state(before: AppView, event: EventView) -> AppView {
    match event {
        EventView::Key(key) => key_pressed(before, key),
        EventView::WorkerStarted { worker_id, test_path, pid } => started(
            before,
            worker_id as int,
            test_path,
            pid,
        ),
        EventView::WorkerFinished { worker_id, test_path, status, duration, .. } => finished(
            before,
            worker_id,
            test_path,
            status,
            duration,
        ),
        EventView::WorkerSuspectedHang { worker_id } => suspected(before, worker_id),
        EventView::WorkerConfirmedHang { worker_id, .. } => hang_confirmed(before, worker_id),
        EventView::WorkerAborted { worker_id } => with_status(
            before,
            worker_id as int,
            StatusView::Idle,
        ),
        _ => before,
    }
}

/// Logging and giving out jobs after an event leave the counters, the settings
/// and the run state as the event has made them; jobs are only started where
/// the run state then allows it.
proof fn lemma_event_core(
    before: AppView,
    event: EventView,
    time_over: bool,
    after: AppView,
    step: Step,
)
    requires
        handles(before, event, time_over, after, step),
    ensures
        after == (AppView {
            workers: after.workers,
            next: after.next,
            logs: after.logs,
            selected_log: after.selected_log,
            ..core_state(before, event)
        }),
        after.workers.len() == core_state(before, event).workers.len(),
        !(core_state(before, event).run_state is Running) ==> after.workers == core_state(
            before,
            event,
        ).workers,
        !(core_state(before, event).run_state is Running) && !(event is WorkerSuspectedHang)
            ==> step.commands@.len() == 0,
{
    let core = core_state(before, event);
    let commands = dispatch_views(step.commands@);
    assert(commands.len() == step.commands@.len());
    match event {
        EventView::Tick => {
            law_scheduling_changes_only_jobs(before, time_over, after, commands);
        },
        EventView::WorkerFinished { worker_id, test_path, status, duration, .. } => {
            let messages = finished_messages(before, worker_id, test_path, status);
            let told = choose|told: AppView|
                {
                    &&& #[trigger] logs(core, messages, told)
                    &&& schedules(told, time_over, after, commands)
                };
            lemma_logs_keep_settings(core, messages, told);
            law_scheduling_changes_only_jobs(told, time_over, after, commands);
        },
        EventView::WorkerSuspectedHang { worker_id } => {
            lemma_logs_keep_settings(core, suspected_messages(before, worker_id), after);
        },
        EventView::WorkerConfirmedHang { worker_id, .. } => {
            lemma_logs_keep_settings(
                core,
                seq![
                    hang_message(
                        worker_id,
                        isolated_test(before, worker_id),
                    ),
                ],
                after,
            );
        },
        EventView::WorkerAborted { worker_id } => {
            law_scheduling_changes_only_jobs(core, time_over, after, commands);
        },
        EventView::LogMessage(message) => {
            lemma_logs_keep_settings(before, seq![message], after);
        },
        _ => {},
    }
}

/// Once a hang was confirmed, the stress test stays over, whatever happens, and
/// no worker is told anything.
pub proof fn law_a_confirmed_hang_is_final(
    before: AppView,
    event: EventView,
    time_over: bool,
    after: AppView,
    step: Step,
)
    requires
        before.run_state is Terminated,
        handles(before, event, time_over, after, step),
    ensures
        after.run_state is Terminated,
        step.commands@.len() == 0,
{
    lemma_event_core(before, event, time_over, after, step);
    assert(dispatch_views(step.commands@).len() == step.commands@.len());
}

/// While a test is isolated no job is started; only the end of that test, or a
/// confirmed hang, ends the isolation.
pub proof fn law_isolation_starts_nothing(
    before: AppView,
    event: EventView,
    time_over: bool,
    after: AppView,
    step: Step,
    suspect: usize,
)
    requires
        before.run_state == (RunState::Isolating { suspect_worker_id: suspect }),
        handles(before, event, time_over, after, step),
        !(event matches EventView::WorkerFinished { worker_id, .. } && worker_id == suspect),
    ensures
        step.commands@.len() == 0,
        after.run_state == before.run_state || event is WorkerConfirmedHang
            && after.run_state is Terminated,
{
    lemma_event_core(before, event, time_over, after, step);
    assert(dispatch_views(step.commands@).len() == step.commands@.len());
}

/// An event leaves the stress test on the key for it and on a confirmed hang,
/// and on nothing else; the time is looked at once more on a tick.
pub proof fn law_when_the_stress_test_is_left(
    before: AppView,
    event: EventView,
    time_over: bool,
    after: AppView,
    step: Step,
)
    requires
        handles(before, event, time_over, after, step),
    ensures
        step.quit <==> event == EventView::Key(Key::Char('q')) || event is WorkerConfirmedHang,
        step.hang is Some <==> event is WorkerConfirmedHang,
        step.check_time <==> event is Tick,
{
}

/// The time ends the stress test only where it is over and all workers are
/// idle; then nothing changes but the log, whose newest line tells it, and else
/// nothing at all.
pub proof fn law_the_end_changes_only_the_log(
    before: AppView,
    time_over: bool,
    after: AppView,
    quit: bool,
)
    requires
        valid(before),
        ends(before, time_over, after, quit),
    ensures
        quit ==> time_over && all_idle(before),
        after == (AppView { logs: after.logs, selected_log: after.selected_log, ..before }),
        quit ==> exists|clock: Seq<char>| #[trigger]
            is_clock(clock) && after.logs.last() == log_line(clock, time_over_message()),
        !quit ==> after == before,
{
    if quit {
        let messages = seq![time_over_message()];
        lemma_logs_keep_settings(before, messages, after);
        let clocks = choose|clocks: Seq<Seq<char>>|
            {
                &&& clocks.len() == messages.len()
                &&& forall|i: int| 0 <= i < clocks.len() ==> is_clock(#[trigger] clocks[i])
                &&& after == #[trigger] all_logged(before, clocks, messages)
            };
        reveal_with_fuel(all_logged, 2);
        assert(messages.drop_last() =~= Seq::empty());
        law_log_ends_with_the_message(before, clocks[0], time_over_message());
        assert(clocks.last() == clocks[0] && is_clock(clocks[0]));
    }
}

/// Once the time is over no job is started: the next test stays the next one,
/// and the only commands are those of an isolation.
pub proof fn law_no_job_after_the_time(
    before: AppView,
    event: EventView,
    after: AppView,
    step: Step,
)
    requires
        valid(before),
        handles(before, event, true, after, step),
    ensures
        after.next == before.next,
        !(event is WorkerSuspectedHang) ==> step.commands@.len() == 0,
        forall|c: int|
            0 <= c < step.commands@.len() ==> !((#[trigger] step.commands@[c]).cmd@ is StartJob),
{
    let commands = dispatch_views(step.commands@);
    assert(commands.len() == step.commands@.len());
    assert forall|c: int| 0 <= c < step.commands@.len() implies !((
    #[trigger] step.commands@[c]).cmd@ is StartJob) by {
        if let EventView::WorkerSuspectedHang { worker_id } = event {
            assert(commands[c].1 == step.commands@[c].cmd@);
            if is_suspicious(before, worker_id) {
                let kills = kill_commands(
                    before.workers,
                    worker_id,
                    before.workers.len() as int,
                );
                lemma_kill_commands(before.workers, worker_id, before.workers.len() as int);
                if c > 0 {
                    assert(commands[c] == kills[c - 1]);
                }
            }
        }
    }
    match event {
        EventView::WorkerFinished { worker_id, test_path, status, duration, .. } => {
            let core = finished(before, worker_id, test_path, status, duration);
            let messages = finished_messages(before, worker_id, test_path, status);
            let told = choose|told: AppView|
                {
                    &&& #[trigger] logs(core, messages, told)
                    &&& schedules(told, true, after, commands)
                };
            lemma_logs_keep_settings(core, messages, told);
        },
        EventView::WorkerSuspectedHang { worker_id } => {
            lemma_logs_keep_settings(
                suspected(before, worker_id),
                suspected_messages(before, worker_id),
                after,
            );
        },
        EventView::WorkerConfirmedHang { worker_id, .. } => {
            lemma_logs_keep_settings(
                hang_confirmed(before, worker_id),
                seq![
                    hang_message(
                        worker_id,
                        isolated_test(before, worker_id),
                    ),
                ],
                after,
            );
        },
        EventView::LogMessage(message) => {
            lemma_logs_keep_settings(before, seq![message], after);
        },
        _ => {},
    }
}

} // verus!
