//! What each operation makes of the state of a stress test.

use crate::app::{
    all_logged, dispatch_views, logged, logs, recent, valid, App, AppView, Dispatch, DispatchView,
    RunState,
};
use crate::clock::is_clock;
use crate::handlers::{
    can_finish, finished, finished_messages, hang_confirmed, hang_message, is_failure,
    is_suspicious, isolated_test, isolation_commands, started, suspected, suspected_messages,
    with_status,
};
use crate::order::texts;
use crate::path::TestView;
use crate::schedule::{
    can_schedule, given_jobs, idle_count, job_at, jobs_taken, lemma_idle_count, schedules,
    start_commands, wrapped,
};
use crate::scroll::{logs_scrolled, table_scrolled};
use crate::stats::{
    all_attempts, all_failures, all_hangs, all_successes, has_path, has_room, no_runs, with_hang,
    with_run, RowView, TestStats,
};
use crate::text::{decimal, signed_decimal};
use crate::worker::{CmdView, StatusView};
use vstd::arithmetic::div_mod::{lemma_mod_add_multiples_vanish, lemma_small_mod};
use vstd::prelude::*;
use vstd::string::*;

verus! {

/// The state is read off the fields, one for one.
pub proof fn law_the_state_is_what_the_fields_hold(app: App)
    ensures
        app@.duration == app.args.duration,
        app@.asked_workers == app.args.workers,
        app@.tick_rate == app.args.tick_rate,
        app@.report_dir == app.args.report_dir@,
        app@.lldb_path == app.args.lldb_path@,
        app@.test_dir is Some <==> app.args.test_dir is Some,
        app.args.test_dir matches Some(dir) ==> app@.test_dir == Some(dir@),
        app@.tests.len() == app.test_binaries@.len(),
        forall|i: int|
            0 <= i < app.test_binaries@.len() ==> (#[trigger] app@.tests[i]).path
                == app.test_binaries@[i].path@ && (app@.tests[i].file_name is Some
                <==> app.test_binaries@[i].file_name is Some) && (
            app.test_binaries@[i].file_name matches Some(name) ==> app@.tests[i].file_name
                == Some(name@)),
        app@.next == app.next_test_idx,
        app@.attempts == app.total_attempts,
        app@.failures == app.total_failures,
        app@.hangs == app.total_hangs,
        app@.start_time == app.start_time,
        app@.workers.len() == app.workers@.len(),
        forall|i: int|
            0 <= i < app.workers@.len() ==> #[trigger] app@.workers[i]
                == app.workers@[i].status@,
        app@.rows.len() == app.test_stats.rows@.len(),
        forall|i: int|
            0 <= i < app.test_stats.rows@.len() ==> (#[trigger] app@.rows[i]).0.path
                == app.test_stats.rows@[i].test.path@ && app@.rows[i].1
                == app.test_stats.rows@[i].stats,
        app@.run_state == app.run_state,
        app@.logs.len() == app.event_logs@.len(),
        forall|i: int|
            0 <= i < app.event_logs@.len() ==> #[trigger] app@.logs[i] == app.event_logs@[i]@,
        app@.selected_test == app.selected_test,
        app@.selected_log == app.selected_log,
{
}

/// Commands are read off one for one.
pub proof fn law_commands_are_read_one_for_one(list: Seq<Dispatch>, strings: Seq<String>)
    ensures
        dispatch_views(list).len() == list.len(),
        forall|i: int|
            0 <= i < list.len() ==> (#[trigger] dispatch_views(list)[i]).0 == list[i].worker
                && dispatch_views(list)[i].1 == list[i].cmd@,
        texts(strings).len() == strings.len(),
        forall|i: int| 0 <= i < strings.len() ==> #[trigger] texts(strings)[i] == strings[i]@,
{
}

/// Logging some messages adds a line for each, in their order: a time of day in
/// brackets and the message. Of all lines the newest thousand are kept, the last
/// of which is highlighted; nothing else changes.
pub proof fn law_messages_are_logged_in_order(
    before: AppView,
    messages: Seq<Seq<char>>,
    after: AppView,
)
    requires
        before.logs.len() <= 1000,
        logs(before, messages, after),
    ensures
        exists|lines: Seq<Seq<char>>|
            {
                let all = #[trigger] (before.logs + lines);
                &&& lines.len() == messages.len()
                &&& forall|i: int|
                    0 <= i < lines.len() ==> exists|clock: Seq<char>| #[trigger]
                        is_clock(clock) && #[trigger] lines[i] == "["@ + clock + "] "@
                            + messages[i]
                &&& all.len() <= 1000 ==> after.logs == all
                &&& all.len() > 1000 ==> after.logs == all.skip(all.len() - 1000)
            },
        messages.len() > 0 ==> after.selected_log == Some((after.logs.len() - 1) as usize),
        messages.len() == 0 ==> after == before,
        after == (AppView { logs: after.logs, selected_log: after.selected_log, ..before }),
{
    let clocks = choose|clocks: Seq<Seq<char>>|
        {
            &&& clocks.len() == messages.len()
            &&& forall|i: int| 0 <= i < clocks.len() ==> is_clock(#[trigger] clocks[i])
            &&& after == #[trigger] all_logged(before, clocks, messages)
        };
    lemma_all_logged(before, clocks, messages);
    let lines = Seq::new(messages.len(), |i: int| "["@ + clocks[i] + "] "@ + messages[i]);
    let all = before.logs + lines;
    assert forall|i: int| 0 <= i < lines.len() implies exists|clock: Seq<char>| #[trigger]
        is_clock(clock) && #[trigger] lines[i] == "["@ + clock + "] "@ + messages[i] by {
        assert(is_clock(clocks[i]));
    }
}

/// What logging some messages at known times comes to.
proof fn lemma_all_logged(v: AppView, clocks: Seq<Seq<char>>, messages: Seq<Seq<char>>)
    requires
        v.logs.len() <= 1000,
        clocks.len() == messages.len(),
    ensures
        ({
            let after = all_logged(v, clocks, messages);
            let lines = Seq::new(messages.len(), |i: int| "["@ + clocks[i] + "] "@ + messages[i]);
            let all = v.logs + lines;
            &&& all.len() <= 1000 ==> after.logs == all
            &&& all.len() > 1000 ==> after.logs == all.skip(all.len() - 1000)
            &&& messages.len() > 0 ==> after.selected_log == Some((after.logs.len() - 1) as usize)
            &&& messages.len() == 0 ==> after == v
            &&& after == (AppView { logs: after.logs, selected_log: after.selected_log, ..v })
        }),
    decreases messages.len(),
{
    let lines = Seq::new(messages.len(), |i: int| "["@ + clocks[i] + "] "@ + messages[i]);
    let all = v.logs + lines;
    if messages.len() == 0 {
        assert(all =~= v.logs);
    } else {
        let (c, m) = (clocks.drop_last(), messages.drop_last());
        lemma_all_logged(v, c, m);
        let fewer = Seq::new(m.len(), |i: int| "["@ + c[i] + "] "@ + m[i]);
        let line = "["@ + clocks.last() + "] "@ + messages.last();
        assert(lines =~= fewer.push(line));
        let some = v.logs + fewer;
        assert(all =~= some.push(line));
        let earlier = all_logged(v, c, m);
        let after = all_logged(v, clocks, messages);
        assert(after.logs == recent(earlier.logs.push(line)));
        if some.len() < 1000 {
            assert(after.logs =~= all);
        } else if some.len() == 1000 {
            assert(after.logs =~= all.skip(all.len() - 1000));
        } else {
            assert(after.logs =~= all.skip(all.len() - 1000));
        }
    }
}

/// A message that is logged at a known time is the newest line, behind that time
/// in brackets.
pub proof fn law_a_log_line_tells_the_time(v: AppView, clock: Seq<char>, message: Seq<char>)
    ensures
        logged(v, clock, message).logs.len() > 0,
        logged(v, clock, message).logs.last() == "["@ + clock + "] "@ + message,
        logged(v, clock, message) == (AppView {
            logs: logged(v, clock, message).logs,
            selected_log: Some((logged(v, clock, message).logs.len() - 1) as usize),
            ..v
        }),
{
}

/// The next job is the test whose turn it is, and every test of the list has its
/// turn within as many jobs as there are tests: `ahead` jobs later it is the test
/// that stands so many places behind, counted on from the beginning where the
/// list ends. Taking a job moves on by one place, from the last to the first.
pub proof fn law_every_test_is_run_in_turn(v: AppView, t: int, ahead: nat)
    requires
        valid(v),
        0 <= t < v.tests.len(),
        ahead < v.tests.len(),
    ensures
        job_at(v, 0) == v.tests[v.next as int],
        v.next + ahead < v.tests.len() ==> job_at(v, ahead) == v.tests[(v.next + ahead) as int],
        v.next + ahead >= v.tests.len() ==> job_at(v, ahead) == v.tests[v.next + ahead
            - v.tests.len()],
        exists|k: nat| k < v.tests.len() && #[trigger] job_at(v, k) == v.tests[t],
        v.next + 1 < v.tests.len() ==> jobs_taken(v, 1).next == v.next + 1,
        v.next + 1 == v.tests.len() ==> jobs_taken(v, 1).next == 0,
        jobs_taken(v, 0) == v,
        jobs_taken(v, 1) == (AppView { next: jobs_taken(v, 1).next, ..v }),
{
    let len = v.tests.len();
    lemma_job_at(v, 0);
    lemma_job_at(v, ahead);
    let k: nat = if t >= v.next {
        (t - v.next) as nat
    } else {
        (t + len - v.next) as nat
    };
    lemma_job_at(v, k);
    assert(job_at(v, k) == v.tests[t]);
    if len > 1 {
        lemma_job_at(v, 1);
        lemma_wraps(v.next, 1, len);
    } else {
        assert((v.next + 1) % len == 0) by {
            lemma_mod_add_multiples_vanish(0, 1);
        }
    }
}

/// The position after some steps, less than a round.
proof fn lemma_wraps(next: nat, ahead: nat, len: nat)
    requires
        next < len,
        ahead < len,
    ensures
        (next + ahead) % len == if next + ahead < len {
            next + ahead
        } else {
            (next + ahead - len) as nat
        },
{
    if next + ahead < len {
        lemma_small_mod(next + ahead, len);
    } else {
        let rest = (next + ahead - len) as nat;
        lemma_small_mod(rest, len);
        lemma_mod_add_multiples_vanish(rest as int, len as int);
    }
}

/// The job that is run some jobs after the next one, less than a round.
proof fn lemma_job_at(v: AppView, ahead: nat)
    requires
        v.next < v.tests.len(),
        ahead < v.tests.len(),
    ensures
        v.next + ahead < v.tests.len() ==> job_at(v, ahead) == v.tests[(v.next + ahead) as int],
        v.next + ahead >= v.tests.len() ==> job_at(v, ahead) == v.tests[v.next + ahead
            - v.tests.len()],
{
    lemma_wraps(v.next, ahead, v.tests.len());
    assert(wrapped(v.next, ahead, v.tests.len()) == (v.next + ahead) % v.tests.len());
}

/// The start commands name the jobs in their order, and go to all idle workers.
proof fn lemma_start_commands_in_order(v: AppView, k: int)
    requires
        0 <= k <= v.workers.len() <= usize::MAX,
    ensures
        start_commands(v, k).len() == idle_count(v.workers.take(k)),
        forall|c: int|
            0 <= c < start_commands(v, k).len() ==> {
                let command = #[trigger] start_commands(v, k)[c];
                &&& command.0 < k
                &&& v.workers[command.0 as int] is Idle
                &&& idle_count(v.workers.take(command.0 as int)) == c
                &&& command.1 == (CmdView::StartJob {
                    test_path: v.tests[((v.next + c) as nat % v.tests.len()) as int],
                })
            },
        forall|i: int|
            0 <= i < k && (#[trigger] v.workers[i]) is Idle ==> {
                let c = idle_count(v.workers.take(i)) as int;
                &&& 0 <= c < start_commands(v, k).len()
                &&& start_commands(v, k)[c].0 == i
            },
    decreases k,
{
    if k > 0 {
        lemma_start_commands_in_order(v, k - 1);
        assert(v.workers.take(k).drop_last() =~= v.workers.take(k - 1));
        let shorter = start_commands(v, k - 1);
        let all = start_commands(v, k);
        assert forall|c: int| 0 <= c < all.len() implies {
            let command = #[trigger] all[c];
            &&& command.0 < k
            &&& v.workers[command.0 as int] is Idle
            &&& idle_count(v.workers.take(command.0 as int)) == c
            &&& command.1 == (CmdView::StartJob {
                test_path: v.tests[((v.next + c) as nat % v.tests.len()) as int],
            })
        } by {
            if c < shorter.len() {
                assert(all[c] == shorter[c]);
            }
        }
        assert forall|i: int| 0 <= i < k && (#[trigger] v.workers[i]) is Idle implies {
            let c = idle_count(v.workers.take(i)) as int;
            &&& 0 <= c < all.len()
            &&& all[c].0 == i
        } by {
            if i < k - 1 {
                let c = idle_count(v.workers.take(i)) as int;
                assert(shorter[c].0 == i);
                assert(all[c] == shorter[c]);
            }
        }
    } else {
        assert(v.workers.take(0) =~= Seq::empty());
    }
}

/// Jobs are given out exactly where no test is isolated, no hang was confirmed
/// and the time is not over. Then every idle worker gets one command, in the
/// order of the workers; the first of them starts the test whose turn it is, and
/// each further one the test behind, round the list; each is shown to run what
/// it was told. Busy workers go on. The turn moves on by as many places.
pub proof fn law_jobs_are_given_out_in_turn(
    before: AppView,
    time_over: bool,
    after: AppView,
    commands: Seq<DispatchView>,
)
    requires
        valid(before),
        schedules(before, time_over, after, commands),
    ensures
        !(before.run_state is Running) || time_over ==> after == before && commands.len() == 0,
        before.run_state is Running && !time_over ==> {
            &&& forall|c: int|
                0 <= c < commands.len() ==> (#[trigger] commands[c]).0 < before.workers.len()
                    && before.workers[commands[c].0 as int] is Idle && commands[c].1 == (
                CmdView::StartJob {
                    test_path: before.tests[((before.next + c) as nat % before.tests.len()) as int],
                })
            &&& forall|c: int, d: int|
                0 <= c < d < commands.len() ==> (#[trigger] commands[c]).0 < (
                #[trigger] commands[d]).0
            &&& forall|i: int|
                0 <= i < before.workers.len() && (#[trigger] before.workers[i]) is Idle
                    ==> exists|c: int|
                    0 <= c < commands.len() && (#[trigger] commands[c]).0 == i && (
                    after.workers[i] matches StatusView::Running { test_path, pid, .. } && pid == 0
                        && commands[c].1 == (CmdView::StartJob { test_path }))
            &&& forall|i: int|
                0 <= i < before.workers.len() && !((#[trigger] before.workers[i]) is Idle)
                    ==> after.workers[i] == before.workers[i]
            &&& after.workers.len() == before.workers.len()
            &&& commands.len() == 0 ==> after.next == before.next
            &&& commands.len() > 0 ==> after.next == (before.next + commands.len())
                % before.tests.len()
        },
        after == (AppView { workers: after.workers, next: after.next, ..before }),
{
    if before.run_state is Running && !time_over {
        let n = before.workers.len() as int;
        lemma_start_commands_in_order(before, n);
        assert(before.workers.take(n) =~= before.workers);
        let moments = choose|moments: Seq<std::time::Instant>|
            after == #[trigger] given_jobs(before, moments, n);
        assert forall|c: int, d: int| 0 <= c < d < commands.len() implies (#[trigger] commands[c]).0
            < (#[trigger] commands[d]).0 by {
            let (i, j) = (commands[c].0 as int, commands[d].0 as int);
            if j <= i {
                lemma_idle_count_grows(before.workers, j, i);
            }
        }
        assert forall|i: int|
            0 <= i < before.workers.len() && (#[trigger] before.workers[i]) is Idle implies exists|
            c: int,
        |
            0 <= c < commands.len() && (#[trigger] commands[c]).0 == i && (
            after.workers[i] matches StatusView::Running { test_path, pid, .. } && pid == 0
                && commands[c].1 == (CmdView::StartJob { test_path })) by {
            let c = idle_count(before.workers.take(i)) as int;
            assert(commands[c].0 == i);
        }
    }
}

/// More workers hold no fewer idle ones.
proof fn lemma_idle_count_grows(workers: Seq<StatusView>, j: int, i: int)
    requires
        0 <= j <= i <= workers.len(),
    ensures
        idle_count(workers.take(j)) <= idle_count(workers.take(i)),
    decreases i - j,
{
    if j < i {
        lemma_idle_count_grows(workers, j, i - 1);
        assert(workers.take(i).drop_last() =~= workers.take(i - 1));
    }
}

/// Giving out jobs asks for a test only where a worker would be given one.
pub proof fn law_when_jobs_can_be_given_out(v: AppView, time_over: bool)
    ensures
        v.tests.len() > 0 ==> can_schedule(v, time_over),
        !(v.run_state is Running) || time_over ==> can_schedule(v, time_over),
        (forall|i: int| 0 <= i < v.workers.len() ==> !((#[trigger] v.workers[i]) is Idle))
            ==> can_schedule(v, time_over),
{
    lemma_idle_count(v.workers);
}

/// The report of a start gives a worker that runs a job the number of its
/// process, and leaves the moment at which it was given the job; all other
/// workers, and a worker that runs none, are left as they are.
pub proof fn law_a_start_gives_the_process(v: AppView, id: int, test: TestView, process: u32)
    requires
        0 <= id < v.workers.len(),
    ensures
        v.workers[id] matches StatusView::Running { start_time, .. } ==> started(
            v,
            id,
            test,
            process,
        ).workers[id] == (StatusView::Running { test_path: test, pid: process, start_time }),
        !(v.workers[id] is Running) ==> started(v, id, test, process) == v,
        started(v, id, test, process).workers.len() == v.workers.len(),
        forall|i: int|
            0 <= i < v.workers.len() && i != id ==> #[trigger] started(
                v,
                id,
                test,
                process,
            ).workers[i] == v.workers[i],
        started(v, id, test, process) == (AppView {
            workers: started(v, id, test, process).workers,
            ..v
        }),
{
}

/// A worker whose job was given up is idle, and nothing else changes.
pub proof fn law_a_job_given_up_frees_its_worker(v: AppView, id: int, status: StatusView)
    requires
        0 <= id < v.workers.len(),
    ensures
        with_status(v, id, status).workers[id] == status,
        with_status(v, id, status).workers.len() == v.workers.len(),
        forall|i: int|
            0 <= i < v.workers.len() && i != id ==> #[trigger] with_status(v, id, status).workers[i]
                == v.workers[i],
        with_status(v, id, status) == (AppView {
            workers: with_status(v, id, status).workers,
            ..v
        }),
{
}

/// A counted run adds one to the runs of its test, one to its successes or to
/// its failures, and its time to the time of its test; no other test changes,
/// and no test changes its name or its hangs.
pub proof fn law_a_run_counts_for_its_test(
    rows: Seq<RowView>,
    path: Seq<char>,
    success: bool,
    duration: u128,
    i: int,
)
    requires
        0 <= i < rows.len(),
        has_room(rows, path, duration),
    ensures
        with_run(rows, path, success, duration).len() == rows.len(),
        with_run(rows, path, success, duration)[i].0 == rows[i].0,
        rows[i].0.path != path ==> with_run(rows, path, success, duration)[i] == rows[i],
        rows[i].0.path == path ==> {
            let (old, new) = (rows[i].1, with_run(rows, path, success, duration)[i].1);
            &&& new.attempts == old.attempts + 1
            &&& success ==> new.successes == old.successes + 1 && new.failures == old.failures
            &&& !success ==> new.successes == old.successes && new.failures == old.failures + 1
            &&& new.hangs == old.hangs
            &&& new.total_duration == old.total_duration + duration
        },
{
}

/// A hang adds one to the hangs of its test, and nothing to anything else.
pub proof fn law_a_hang_counts_for_its_test(rows: Seq<RowView>, path: Seq<char>, i: int)
    requires
        0 <= i < rows.len(),
        rows[i].1.hangs < u64::MAX,
    ensures
        with_hang(rows, path).len() == rows.len(),
        with_hang(rows, path)[i].0 == rows[i].0,
        rows[i].0.path != path ==> with_hang(rows, path)[i] == rows[i],
        rows[i].0.path == path ==> {
            let (old, new) = (rows[i].1, with_hang(rows, path)[i].1);
            &&& new.hangs == old.hangs + 1
            &&& new.attempts == old.attempts
            &&& new.successes == old.successes
            &&& new.failures == old.failures
            &&& new.total_duration == old.total_duration
        },
{
}

/// A path has a row exactly where some row is its own; there is room for one
/// more run wherever no counter of that row is full; nothing was counted of a
/// new test; and the counters of all tests together are those of each, added.
pub proof fn law_what_is_counted_together(
    rows: Seq<RowView>,
    row: RowView,
    path: Seq<char>,
    duration: u128,
)
    ensures
        has_path(rows, path) <==> exists|i: int|
            0 <= i < rows.len() && (#[trigger] rows[i]).0.path == path,
        has_room(rows, path, duration) <==> forall|i: int|
            0 <= i < rows.len() && (#[trigger] rows[i]).0.path == path ==> rows[i].1.attempts
                < 0xffff_ffff_ffff_ffff && rows[i].1.successes < 0xffff_ffff_ffff_ffff
                && rows[i].1.failures < 0xffff_ffff_ffff_ffff && rows[i].1.total_duration
                + duration < 0x1_0000_0000_0000_0000 * 1_000_000_000,
        no_runs().attempts == 0 && no_runs().successes == 0 && no_runs().failures == 0
            && no_runs().hangs == 0 && no_runs().total_duration == 0,
        all_attempts(Seq::empty()) == 0,
        all_attempts(rows.push(row)) == all_attempts(rows) + row.1.attempts,
        all_successes(Seq::empty()) == 0,
        all_successes(rows.push(row)) == all_successes(rows) + row.1.successes,
        all_failures(Seq::empty()) == 0,
        all_failures(rows.push(row)) == all_failures(rows) + row.1.failures,
        all_hangs(Seq::empty()) == 0,
        all_hangs(rows.push(row)) == all_hangs(rows) + row.1.hangs,
{
    assert(rows.push(row).drop_last() =~= rows);
}

/// The end of a run of a known test is counted, for that test and for all; a run
/// of an unknown test is counted nowhere. A run is a failure unless its outcome
/// is 0. The worker is idle, the others are as before; the hangs, the turn, the
/// settings and what is highlighted stay. Only the end of the suspect lets jobs
/// be started again.
pub proof fn law_the_end_of_a_run(
    v: AppView,
    id: usize,
    test: TestView,
    status: Result<i32, Seq<char>>,
    duration: u128,
)
    requires
        valid(v),
        can_finish(v, id, test, duration),
    ensures
        ({
            let after = finished(v, id, test, status, duration);
            let known = exists|i: int|
                0 <= i < v.rows.len() && (#[trigger] v.rows[i]).0.path == test.path;
            let success = status is Ok && status->Ok_0 == 0;
            &&& after.attempts == v.attempts + if known {
                1int
            } else {
                0
            }
            &&& after.failures == v.failures + if known && !success {
                1int
            } else {
                0
            }
            &&& after.hangs == v.hangs
            &&& is_failure(v, test, status) <==> known && !success
            &&& after.rows == with_run(v.rows, test.path, success, duration)
            &&& after.workers.len() == v.workers.len()
            &&& after.workers[id as int] is Idle
            &&& forall|i: int|
                0 <= i < v.workers.len() && i != id ==> #[trigger] after.workers[i] == v.workers[i]
            &&& v.run_state == (RunState::Isolating { suspect_worker_id: id }) ==> after.run_state
                == RunState::Running
            &&& v.run_state != (RunState::Isolating { suspect_worker_id: id }) ==> after.run_state
                == v.run_state
            &&& after == (AppView {
                attempts: after.attempts,
                failures: after.failures,
                rows: after.rows,
                workers: after.workers,
                run_state: after.run_state,
                ..v
            })
        }),
{
}

/// What is logged at the end of a run: of a failure of a known test the worker,
/// the test and the exit code or the error, and then, where the worker was under
/// suspicion, that it was wrong; nothing else.
pub proof fn law_what_is_told_of_the_end_of_a_run(
    v: AppView,
    id: usize,
    test: TestView,
    status: Result<i32, Seq<char>>,
    name: Seq<char>,
)
    requires
        test.file_name == Some(name) || test.file_name is None && name == test.path,
    ensures
        ({
            let told = finished_messages(v, id, test, status);
            let known = exists|i: int|
                0 <= i < v.rows.len() && (#[trigger] v.rows[i]).0.path == test.path;
            let failed = known && !(status is Ok && status->Ok_0 == 0);
            let wrong = v.run_state == (RunState::Isolating { suspect_worker_id: id });
            &&& told.len() == (if failed {
                1int
            } else {
                0
            }) + (if wrong {
                1int
            } else {
                0
            })
            &&& failed && status is Ok ==> told[0] == "Worker "@ + decimal(id as nat)
                + " - test '"@ + name + "' failed (exit code "@ + signed_decimal(
                status->Ok_0 as int,
            ) + "). Rerunning with LLDB..."@
            &&& failed && status is Err ==> told[0] == "Worker "@ + decimal(id as nat)
                + " - test '"@ + name + "' crashed: "@ + status->Err_0
                + ". Rerunning with LLDB..."@
            &&& wrong ==> told.last() == "Worker "@ + decimal(id as nat)
                + " - suspected hang on '"@ + name + "' was a false positive. Resuming..."@
        }),
{
}

/// The end of a run can be taken in exactly where there is such a worker and,
/// for a known test, no counter is full.
pub proof fn law_when_the_end_of_a_run_can_be_taken_in(
    v: AppView,
    id: usize,
    test: TestView,
    duration: u128,
)
    ensures
        can_finish(v, id, test, duration) <==> id < v.workers.len() && forall|i: int|
            0 <= i < v.rows.len() && (#[trigger] v.rows[i]).0.path == test.path ==> v.attempts
                < 0xffff_ffff_ffff_ffff && has_room(v.rows, test.path, duration),
{
}

/// A worker that is suspected goes on with the very job that it ran: the same
/// test, the same process, since the same moment. It is the only one that
/// changes, and it is the suspect. So a hang that is confirmed of it next is
/// counted for that test, and reported of it.
pub proof fn law_a_suspect_goes_on_with_its_job(v: AppView, id: usize)
    requires
        id < v.workers.len(),
    ensures
        ({
            let after = suspected(v, id);
            &&& v.run_state is Running ==> (v.workers[id as int] matches StatusView::Running {
                test_path,
                pid,
                start_time,
            } ==> after.workers[id as int] == (StatusView::Isolating {
                test_path,
                pid,
                start_time,
            }) && after.run_state == (RunState::Isolating { suspect_worker_id: id })
                && isolated_test(after, id) == test_path && suspected_messages(v, id).len() == 1)
            &&& !(v.run_state is Running && v.workers[id as int] is Running) ==> after == v
                && suspected_messages(v, id).len() == 0 && isolation_commands(v, id).len() == 0
            &&& is_suspicious(v, id) <==> v.run_state is Running && v.workers[id as int] is Running
            &&& after.workers.len() == v.workers.len()
            &&& forall|i: int|
                0 <= i < v.workers.len() && i != id ==> #[trigger] after.workers[i] == v.workers[i]
            &&& after == (AppView {
                workers: after.workers,
                run_state: after.run_state,
                ..v
            })
        }),
{
}

/// A suspicion is logged with the worker and the test that it runs.
pub proof fn law_what_is_told_of_a_suspect(v: AppView, id: usize, test: TestView, name: Seq<char>)
    requires
        v.run_state is Running,
        v.workers[id as int] is Running,
        v.workers[id as int]->Running_test_path == test,
        test.file_name == Some(name) || test.file_name is None && name == test.path,
    ensures
        suspected_messages(v, id).len() == 1,
        suspected_messages(v, id)[0] == "[SUSPECT HANG] Worker "@ + decimal(id as nat)
            + " running '"@ + name + "' has timed out. Isolating..."@,
{
}

/// A hang is confirmed of the test that the worker ran under suspicion: it is
/// counted once, for that test and for all; the stress test is over, and nothing
/// else changes. Of a worker that was under no suspicion the test is unknown.
pub proof fn law_a_hang_is_confirmed_of_the_suspect(v: AppView, id: usize)
    requires
        id < v.workers.len(),
    ensures
        v.workers[id as int] matches StatusView::Isolating { test_path, .. } ==> isolated_test(
            v,
            id,
        ) == test_path,
        !(v.workers[id as int] is Isolating) ==> isolated_test(v, id).path == "unknown"@
            && isolated_test(v, id).file_name == Some("unknown"@),
        hang_confirmed(v, id).hangs == v.hangs + 1,
        hang_confirmed(v, id).run_state is Terminated,
        hang_confirmed(v, id).rows == with_hang(v.rows, isolated_test(v, id).path),
        hang_confirmed(v, id) == (AppView {
            hangs: hang_confirmed(v, id).hangs,
            run_state: hang_confirmed(v, id).run_state,
            rows: hang_confirmed(v, id).rows,
            ..v
        }),
{
}

/// From the suspicion to the confirmed hang: the test that the worker ran when it
/// was suspected is the one whose hangs are one more, and no other's are.
pub proof fn law_the_suspected_test_is_blamed(
    v: AppView,
    id: usize,
    test: TestView,
    process: u32,
    since: std::time::Instant,
    i: int,
)
    requires
        valid(v),
        id < v.workers.len(),
        v.run_state is Running,
        v.workers[id as int] == (StatusView::Running {
            test_path: test,
            pid: process,
            start_time: since,
        }),
        0 <= i < v.rows.len(),
        v.hangs < u64::MAX,
    ensures
        hang_confirmed(suspected(v, id), id).rows[i].1.hangs == v.rows[i].1.hangs
            + if v.rows[i].0.path == test.path {
            1int
        } else {
            0
        },
        isolated_test(suspected(v, id), id) == test,
{
    crate::stats::lemma_total_bounds(v.rows, |s: TestStats| s.hangs as nat, i);
    law_a_hang_counts_for_its_test(v.rows, test.path, i);
}

/// A confirmed hang is logged with the worker and the test.
pub proof fn law_what_is_told_of_a_hang(id: usize, test: TestView, name: Seq<char>)
    requires
        test.file_name == Some(name) || test.file_name is None && name == test.path,
    ensures
        hang_message(id, test) == "Worker "@ + decimal(id as nat) + " - CONFIRMED HANG on '"@
            + name + "'!"@,
{
}

/// Moving in the test table goes by the distance asked for, round the table, and
/// changes nothing else; in an empty table there is nothing to move.
pub proof fn law_the_table_moves_by_the_distance(v: AppView, delta: int)
    requires
        valid(v),
    ensures
        v.rows.len() == 0 ==> table_scrolled(v, delta) == v,
        v.rows.len() > 0 ==> table_scrolled(v, delta).selected_test is Some && v.selected_test
            is Some,
        v.rows.len() > 0 ==> {
            let (p, q) = (v.selected_test->0 as int, table_scrolled(v, delta).selected_test->0);
            &&& 0 <= q < v.rows.len()
            &&& (p + delta - q) % (v.rows.len() as int) == 0
        },
        table_scrolled(v, delta) == (AppView {
            selected_test: table_scrolled(v, delta).selected_test,
            ..v
        }),
{
    if v.rows.len() > 0 {
        let n = v.rows.len() as int;
        let x = v.selected_test->0 as int + delta;
        lemma_rest_of_division(x, n);
        assert(table_scrolled(v, delta).selected_test == Some((x % n) as usize));
        assert((x % n) as usize == x % n);
    }
}

/// Taking away what a division leaves over leaves nothing over.
proof fn lemma_rest_of_division(x: int, n: int)
    requires
        n > 0,
    ensures
        0 <= x % n < n,
        (x - x % n) % n == 0,
{
    vstd::arithmetic::div_mod::lemma_fundamental_div_mod(x, n);
    vstd::arithmetic::div_mod::lemma_mod_bound(x, n);
    vstd::arithmetic::div_mod::lemma_mod_multiples_basic(x / n, n);
    assert(x - x % n == (x / n) * n) by (nonlinear_arith)
        requires
            x == n * (x / n) + x % n,
    ;
}

/// Moving in the log goes by the distance asked for as far as there are lines,
/// else to the first or the last line, and changes nothing else.
pub proof fn law_the_log_moves_by_the_distance(v: AppView, delta: int)
    requires
        valid(v),
    ensures
        v.logs.len() == 0 ==> logs_scrolled(v, delta) == v,
        v.logs.len() > 0 ==> logs_scrolled(v, delta).selected_log is Some && v.selected_log is Some,
        v.logs.len() > 0 ==> {
            let (p, q) = (v.selected_log->0 as int, logs_scrolled(v, delta).selected_log->0);
            &&& 0 <= p + delta < v.logs.len() ==> q == p + delta
            &&& p + delta < 0 ==> q == 0
            &&& p + delta >= v.logs.len() ==> q == v.logs.len() - 1
        },
        logs_scrolled(v, delta) == (AppView {
            selected_log: logs_scrolled(v, delta).selected_log,
            ..v
        }),
{
}

} // verus!
