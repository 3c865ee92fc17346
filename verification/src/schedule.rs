//! Which worker runs which test next.

use crate::app::{
    dispatch_views, status_views, valid, App, AppView, Dispatch, DispatchView, RunState,
};
use crate::path::{TestPath, TestView};
use crate::worker::{CmdView, StatusView, WorkerCmd, WorkerState, WorkerStatus};
use std::time::Instant;
use vstd::arithmetic::div_mod::{lemma_add_mod_noop, lemma_small_mod};
use vstd::prelude::*;
use vstd::string::*;

verus! {

/// The position that is `ahead` places behind `next` in a list of `len` that is
/// gone through again and again.
pub open spec fn wrapped(next: nat, ahead: nat, len: nat) -> nat {
    (next + ahead) % len
}

/// The test that is run `ahead` jobs after the next one.
pub open spec fn job_at(v: AppView, ahead: nat) -> TestView {
    v.tests[wrapped(v.next, ahead, v.tests.len()) as int]
}

/// The state after `n` jobs were taken.
pub open spec fn jobs_taken(v: AppView, n: nat) -> AppView {
    AppView {
        next: if n == 0 {
            v.next
        } else {
            wrapped(v.next, n, v.tests.len())
        },
        ..v
    }
}

/// The number of idle workers.
pub open spec fn idle_count(workers: Seq<StatusView>) -> nat
    decreases workers.len(),
{
    if workers.len() == 0 {
        0
    } else {
        idle_count(workers.drop_last()) + if workers.last() is Idle {
            1nat
        } else {
            0
        }
    }
}

/// What worker `i` is doing once all idle workers have a job: an idle one runs
/// the job that is its own when jobs go to idle workers one after the other.
pub open spec fn given_job(v: AppView, moments: Seq<Instant>, i: int) -> StatusView {
    if v.workers[i] is Idle {
        StatusView::Running {
            test_path: job_at(v, idle_count(v.workers.take(i))),
            pid: 0,
            start_time: moments[i],
        }
    } else {
        v.workers[i]
    }
}

/// The state once the idle ones among the first `k` workers were given jobs,
/// each at its moment.
pub open spec fn given_jobs(v: AppView, moments: Seq<Instant>, k: int) -> AppView {
    AppView {
        workers: Seq::new(
            v.workers.len(),
            |i: int|
                if i < k {
                    given_job(v, moments, i)
                } else {
                    v.workers[i]
                },
        ),
        ..jobs_taken(v, idle_count(v.workers.take(k)))
    }
}

/// The commands that start the jobs of the idle ones among the first `k`
/// workers.
pub open spec fn start_commands(v: AppView, k: int) -> Seq<DispatchView>
    decreases k,
{
    if k <= 0 {
        Seq::empty()
    } else if v.workers[k - 1] is Idle {
        start_commands(v, k - 1).push(
            (
                (k - 1) as usize,
                CmdView::StartJob { test_path: job_at(v, idle_count(v.workers.take(k - 1))) },
            ),
        )
    } else {
        start_commands(v, k - 1)
    }
}

/// Jobs are started: no test is isolated, no hang was confirmed, and the time
/// is not over.
pub open spec fn may_start(v: AppView, time_over: bool) -> bool {
    v.run_state is Running && !time_over
}

/// There is a test to run for every worker that would be given one.
pub open spec fn can_schedule(v: AppView, time_over: bool) -> bool {
    may_start(v, time_over) && idle_count(v.workers) > 0 ==> v.tests.len() > 0
}

/// `after` and `commands` are what giving out jobs makes of `before`.
pub open spec fn schedules(
    before: AppView,
    time_over: bool,
    after: AppView,
    commands: Seq<DispatchView>,
) -> bool {
    if may_start(before, time_over) {
        &&& commands == start_commands(before, before.workers.len() as int)
        &&& exists|moments: Seq<Instant>|
            after == #[trigger] given_jobs(before, moments, before.workers.len() as int)
    } else {
        after == before && commands.len() == 0
    }
}

/// Replacing an idle or running worker by one that is not isolated keeps the
/// state valid.
pub proof fn lemma_not_isolated_keeps_valid(v: AppView, workers: Seq<StatusView>)
    requires
        valid(v),
        workers.len() == v.workers.len(),
        forall|i: int|
            0 <= i < workers.len() && (#[trigger] workers[i]) is Isolating ==> v.workers[i]
                == workers[i],
    ensures
        valid(AppView { workers, ..v }),
{
    assert forall|i: int, j: int|
        0 <= i < workers.len() && 0 <= j < workers.len() && (#[trigger] workers[i]) is Isolating && (
        #[trigger] workers[j]) is Isolating implies i == j by {
        assert(v.workers[i] is Isolating && v.workers[j] is Isolating);
    }
    assert forall|i: int|
        0 <= i < workers.len() && (#[trigger] workers[i]) is Isolating implies v.run_state is Terminated
        || v.run_state == (RunState::Isolating { suspect_worker_id: i as usize }) by {
        assert(v.workers[i] is Isolating);
    }
}

/// Taking `m` jobs and then `n` is taking all of them.
pub proof fn lemma_wrapped_adds(next: nat, m: nat, n: nat, len: nat)
    requires
        len > 0,
    ensures
        wrapped(wrapped(next, m, len), n, len) == wrapped(next, m + n, len),
{
    lemma_add_mod_noop((next + m) as int, n as int, len as int);
    lemma_add_mod_noop(wrapped(next, m, len) as int, n as int, len as int);
    vstd::arithmetic::div_mod::lemma_mod_twice((next + m) as int, len as int);
}

/// One more job among the first `k + 1` workers, where worker `k` is idle.
proof fn lemma_given_jobs_step(v: AppView, moments: Seq<Instant>, k: int, moment: Instant)
    requires
        valid(v),
        0 <= k < v.workers.len(),
        moments.len() == k,
        v.workers[k] is Idle ==> v.tests.len() > 0,
    ensures
        v.workers[k] is Idle ==> {
            let u = given_jobs(v, moments, k);
            given_jobs(v, moments.push(moment), k + 1) == AppView {
                workers: u.workers.update(
                    k,
                    StatusView::Running { test_path: job_at(u, 0), pid: 0, start_time: moment },
                ),
                ..jobs_taken(u, 1)
            }
        },
        v.workers[k] is Idle ==> job_at(given_jobs(v, moments, k), 0) == job_at(
            v,
            idle_count(v.workers.take(k)),
        ),
        !(v.workers[k] is Idle) ==> given_jobs(v, moments.push(moment), k + 1) == given_jobs(
            v,
            moments,
            k,
        ),
{
    let u = given_jobs(v, moments, k);
    let w = given_jobs(v, moments.push(moment), k + 1);
    let before = idle_count(v.workers.take(k));
    assert(v.workers.take(k + 1).drop_last() =~= v.workers.take(k));
    if v.workers[k] is Idle {
        let len = v.tests.len();
        lemma_small_mod(v.next, len);
        lemma_wrapped_adds(v.next, before, 1, len);
        lemma_wrapped_adds(v.next, before, 0, len);
        assert(u.next == wrapped(v.next, before, len));
        assert(w.workers =~= u.workers.update(
            k,
            StatusView::Running { test_path: job_at(u, 0), pid: 0, start_time: moment },
        ));
    } else {
        assert(w.workers =~= u.workers);
    }
}

/// There is no idle worker exactly where none is counted.
pub proof fn lemma_idle_count(workers: Seq<StatusView>)
    ensures
        idle_count(workers) == 0 <==> forall|i: int|
            0 <= i < workers.len() ==> !((#[trigger] workers[i]) is Idle),
    decreases workers.len(),
{
    if workers.len() > 0 {
        let head = workers.drop_last();
        lemma_idle_count(head);
        assert(forall|i: int| 0 <= i < head.len() ==> #[trigger] head[i] == workers[i]);
        if idle_count(workers) == 0 {
            assert forall|i: int| 0 <= i < workers.len() implies !((#[trigger] workers[i]) is Idle) by {
                if i < head.len() {
                    assert(head[i] == workers[i]);
                }
            }
        } else if idle_count(head) > 0 {
            let i = choose|i: int| 0 <= i < head.len() && (#[trigger] head[i]) is Idle;
            assert(workers[i] is Idle);
        } else {
            assert(workers[workers.len() - 1] is Idle);
        }
    }
}

impl App {
    /// The test that is run next; the one behind it is next then, and the first
    /// behind the last.
    pub fn get_next_job(&mut self) -> (job: TestPath)
        requires
            old(self).wf(),
            old(self)@.tests.len() > 0,
        ensures
            job@ == job_at(old(self)@, 0),
            final(self)@ == jobs_taken(old(self)@, 1),
            job@ == old(self)@.tests[old(self)@.next as int],
            final(self)@.next == if old(self)@.next + 1 == old(self)@.tests.len() {
                0
            } else {
                old(self)@.next + 1
            },
            final(self).wf(),
            final(self).workers@ == old(self).workers@,
    {
        proof {
            let (next, len) = (self.next_test_idx as nat, self.test_binaries@.len());
            lemma_small_mod(next, len);
            if next + 1 < len {
                lemma_small_mod(next + 1, len);
            } else {
                vstd::arithmetic::div_mod::lemma_mod_self_0(len as int);
            }
        }
        let job = self.test_binaries[self.next_test_idx].clone();
        self.next_test_idx = (self.next_test_idx + 1) % self.test_binaries.len();
        job
    }

    /// Gives the next job to an idle worker, with `moment` as its start.
    pub fn start_job_at(&mut self, worker: usize, moment: Instant) -> (command: Dispatch)
        requires
            old(self).wf(),
            worker < old(self)@.workers.len(),
            old(self)@.workers[worker as int] is Idle,
            old(self)@.tests.len() > 0,
        ensures
            command.worker == worker,
            command.cmd@ == (CmdView::StartJob { test_path: job_at(old(self)@, 0) }),
            final(self)@ == (AppView {
                workers: old(self)@.workers.update(
                    worker as int,
                    StatusView::Running {
                        test_path: job_at(old(self)@, 0),
                        pid: 0,
                        start_time: moment,
                    },
                ),
                ..jobs_taken(old(self)@, 1)
            }),
            final(self).wf(),
    {
        let ghost before = self@;
        let test_path = self.get_next_job();
        let cmd = WorkerCmd::StartJob { test_path: test_path.clone() };
        let state = WorkerState {
            id: worker,
            status: WorkerStatus::Running { test_path, pid: 0, start_time: moment },
        };
        let ghost taken = self@;
        self.workers.set(worker, state);
        proof {
            assert(status_views(self.workers@) =~= before.workers.update(
                worker as int,
                state.status@,
            ));
            lemma_not_isolated_keeps_valid(taken, self@.workers);
        }
        Dispatch { worker, cmd }
    }

    /// Gives every idle worker a job, one test after the other, unless a test
    /// is isolated, a hang was confirmed, or the time is over.
    pub fn schedule_jobs(&mut self, time_over: bool) -> (commands: Vec<Dispatch>)
        requires
            old(self).wf(),
            can_schedule(old(self)@, time_over),
        ensures
            schedules(old(self)@, time_over, final(self)@, dispatch_views(commands@)),
            final(self).wf(),
    {
        let mut commands: Vec<Dispatch> = Vec::new();
        let running = match self.run_state {
            RunState::Running => true,
            _ => false,
        };
        if !running || time_over {
            return commands;
        }
        let ghost before = self@;
        let ghost mut moments: Seq<Instant> = Seq::empty();
        let mut i: usize = 0;
        proof {
            lemma_idle_count(before.workers);
            assert(before.workers.take(0) =~= Seq::empty());
            assert(given_jobs(before, moments, 0).workers =~= before.workers);
            assert(self@ =~= given_jobs(before, moments, 0));
            assert(dispatch_views(commands@) =~= start_commands(before, 0));
        }
        while i < self.workers.len()
            invariant
                i <= before.workers.len(),
                self@.workers.len() == before.workers.len(),
                valid(before),
                moments.len() == i,
                self.wf(),
                self@ == given_jobs(before, moments, i as int),
                dispatch_views(commands@) == start_commands(before, i as int),
                forall|j: int|
                    0 <= j < before.workers.len() && (#[trigger] before.workers[j]) is Idle
                        ==> before.tests.len() > 0,
            decreases before.workers.len() - i,
        {
            let idle = match self.workers[i].status {
                WorkerStatus::Idle => true,
                _ => false,
            };
            proof {
                assert(self@.workers[i as int] == self.workers@[i as int].status@);
                assert(self@.workers[i as int] == before.workers[i as int]);
            }
            if idle {
                let moment = Instant::now();
                proof {
                    lemma_given_jobs_step(before, moments, i as int, moment);
                    moments = moments.push(moment);
                }
                let ghost sent = commands@;
                let command = self.start_job_at(i, moment);
                commands.push(command);
                proof {
                    assert(dispatch_views(commands@) =~= dispatch_views(sent).push(
                        (command.worker, command.cmd@),
                    ));
                }
            } else {
                proof {
                    lemma_given_jobs_step(before, moments, i as int, self.start_time);
                    moments = moments.push(self.start_time);
                }
            }
            i = i + 1;
        }
        commands
    }
}

} // verus!
