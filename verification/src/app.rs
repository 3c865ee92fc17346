//! The stress test as a whole: its state, and how events change it.

use crate::args::{choose_worker_count, worker_count, Args};
use crate::clock::{clock_now, is_clock};
use crate::order::texts;
use crate::path::{is_named, paths_of, test_views, TestPath, TestView};
use crate::stats::{
    all_attempts, all_failures, all_hangs, balanced, durations_fit, has_path, lemma_total_zero,
    no_runs, ordered, RowView, StatsTable, TestStats,
};
use crate::text::optional_text;
use crate::worker::{CmdView, StatusView, WorkerCmd, WorkerState, WorkerStatus};
use std::time::Instant;
use vstd::prelude::*;
use vstd::string::*;

verus! {

/// The number of log lines that are kept.
pub const MAX_LOGS: usize = 1000;

/// Whether jobs are started.
#[derive(Clone, Copy, Debug, PartialEq, Eq, Structural)]
pub enum RunState {
    /// Idle workers are given jobs.
    Running,
    /// A suspect test runs alone.
    Isolating { suspect_worker_id: usize },
    /// A hang was confirmed.
    Terminated,
}

/// A command for a worker.
#[derive(Debug)]
pub struct Dispatch {
    pub worker: usize,
    pub cmd: WorkerCmd,
}

/// A command for a worker, with strings as texts.
pub type DispatchView = (usize, CmdView);

/// A list of commands, with strings as texts.
pub open spec fn dispatch_views(list: Seq<Dispatch>) -> Seq<DispatchView> {
    Seq::new(list.len(), |i: int| (list[i].worker, list[i].cmd@))
}

/// The state of a stress test.
#[derive(Debug)]
pub struct App {
    pub args: Args,
    /// The tests.
    pub test_binaries: Vec<TestPath>,
    /// The test that is run next.
    pub next_test_idx: usize,
    pub total_attempts: u64,
    pub total_failures: u64,
    pub total_hangs: u64,
    /// When the stress test began.
    pub start_time: Instant,
    pub workers: Vec<WorkerState>,
    pub test_stats: StatsTable,
    pub run_state: RunState,
    pub event_logs: Vec<String>,
    /// The row of the test table that is highlighted.
    pub selected_test: Option<usize>,
    /// The log line that is highlighted.
    pub selected_log: Option<usize>,
}

/// The state of a stress test, with strings as texts.
#[verifier::ext_equal]
pub struct AppView {
    pub duration: Option<u64>,
    pub asked_workers: Option<usize>,
    pub test_dir: Option<Seq<char>>,
    pub tick_rate: u64,
    pub report_dir: Seq<char>,
    pub lldb_path: Seq<char>,
    pub tests: Seq<TestView>,
    pub next: nat,
    pub attempts: nat,
    pub failures: nat,
    pub hangs: nat,
    pub start_time: Instant,
    pub workers: Seq<StatusView>,
    pub rows: Seq<RowView>,
    pub run_state: RunState,
    pub logs: Seq<Seq<char>>,
    pub selected_test: Option<usize>,
    pub selected_log: Option<usize>,
}

/// What some workers are doing.
pub open spec fn status_views(workers: Seq<WorkerState>) -> Seq<StatusView> {
    Seq::new(workers.len(), |i: int| workers[i].status@)
}

impl View for App {
    type V = AppView;

    open spec fn view(&self) -> AppView {
        AppView {
            duration: self.args.duration,
            asked_workers: self.args.workers,
            test_dir: optional_text(self.args.test_dir),
            tick_rate: self.args.tick_rate,
            report_dir: self.args.report_dir@,
            lldb_path: self.args.lldb_path@,
            tests: test_views(self.test_binaries@),
            next: self.next_test_idx as nat,
            attempts: self.total_attempts as nat,
            failures: self.total_failures as nat,
            hangs: self.total_hangs as nat,
            start_time: self.start_time,
            workers: status_views(self.workers@),
            rows: self.test_stats@,
            run_state: self.run_state,
            logs: texts(self.event_logs@),
            selected_test: self.selected_test,
            selected_log: self.selected_log,
        }
    }
}

/// The selection is a position of a list of `len`, and there is none only
/// where the list is empty.
pub open spec fn selects(selected: Option<usize>, len: nat) -> bool {
    match selected {
        Some(i) => i < len,
        None => len == 0,
    }
}

/// Only the worker under suspicion is isolated, unless the stress test is over,
/// and never more than one.
pub open spec fn isolates_suspect(workers: Seq<StatusView>, run_state: RunState) -> bool {
    &&& forall|i: int|
        0 <= i < workers.len() && (#[trigger] workers[i]) is Isolating ==> run_state is Terminated
            || run_state == (RunState::Isolating { suspect_worker_id: i as usize })
    &&& forall|i: int, j: int|
        0 <= i < workers.len() && 0 <= j < workers.len() && (#[trigger] workers[i]) is Isolating && (
        #[trigger] workers[j]) is Isolating ==> i == j
    &&& run_state matches RunState::Isolating { suspect_worker_id } ==> suspect_worker_id
        < workers.len()
}

/// What holds of the state of a stress test at any time.
pub open spec fn valid(v: AppView) -> bool {
    &&& v.tests.len() <= isize::MAX
    &&& v.next < v.tests.len() || v.tests.len() == 0 && v.next == 0
    &&& ordered(v.rows)
    &&& balanced(v.rows)
    &&& durations_fit(v.rows)
    &&& v.rows.len() <= v.tests.len()
    &&& forall|i: int| 0 <= i < v.tests.len() ==> is_named(#[trigger] v.tests[i])
    &&& forall|i: int| 0 <= i < v.rows.len() ==> v.tests.contains((#[trigger] v.rows[i]).0)
    &&& forall|path: Seq<char>| has_path(v.rows, path) <==> paths_of(v.tests).contains(path)
    &&& v.attempts == all_attempts(v.rows)
    &&& v.failures == all_failures(v.rows)
    &&& all_hangs(v.rows) <= v.hangs
    &&& v.workers.len() <= usize::MAX
    &&& isolates_suspect(v.workers, v.run_state)
    &&& v.logs.len() <= MAX_LOGS
    &&& selects(v.selected_test, v.rows.len())
    &&& selects(v.selected_log, v.logs.len())
}

/// A log line: the time of day in brackets, and the message.
pub open spec fn log_line(clock: Seq<char>, message: Seq<char>) -> Seq<char> {
    "["@ + clock + "] "@ + message
}

/// The last thousand of some log lines.
pub open spec fn recent(logs: Seq<Seq<char>>) -> Seq<Seq<char>> {
    if logs.len() > MAX_LOGS {
        logs.skip(logs.len() - MAX_LOGS)
    } else {
        logs
    }
}

/// The state after a message was logged at `clock`: the newest line is
/// highlighted, and the oldest has left where there would be too many.
pub open spec fn logged(v: AppView, clock: Seq<char>, message: Seq<char>) -> AppView {
    let logs = recent(v.logs.push(log_line(clock, message)));
    AppView { logs, selected_log: Some((logs.len() - 1) as usize), ..v }
}

/// The state after some messages were logged, one after the other.
pub open spec fn all_logged(
    v: AppView,
    clocks: Seq<Seq<char>>,
    messages: Seq<Seq<char>>,
) -> AppView
    decreases messages.len(),
{
    if messages.len() == 0 {
        v
    } else {
        logged(
            all_logged(v, clocks.drop_last(), messages.drop_last()),
            clocks.last(),
            messages.last(),
        )
    }
}

/// `after` is `before` with some messages logged, each at some time of day.
pub open spec fn logs(before: AppView, messages: Seq<Seq<char>>, after: AppView) -> bool {
    exists|clocks: Seq<Seq<char>>|
        {
            &&& clocks.len() == messages.len()
            &&& forall|i: int| 0 <= i < clocks.len() ==> is_clock(#[trigger] clocks[i])
            &&& after == #[trigger] all_logged(before, clocks, messages)
        }
}

impl App {
    /// What holds of a stress test at any time.
    pub open spec fn wf(&self) -> bool {
        &&& valid(self@)
        &&& forall|i: int| 0 <= i < self.workers@.len() ==> (#[trigger] self.workers@[i]).id == i
    }

    /// A stress test of some binaries that has not begun: all workers are idle.
    /// `parallelism` is the number of threads that the machine runs at once.
    pub fn new(args: Args, test_binaries: Vec<String>, parallelism: Option<usize>) -> (app: App)
        requires
            test_binaries@.len() <= isize::MAX,
        ensures
            app.wf(),
            app.args == args,
            paths_of(app@.tests) == texts(test_binaries@),
            app@.next == 0,
            app@.attempts == 0,
            app@.failures == 0,
            app@.hangs == 0,
            app@.workers == Seq::new(
                worker_count(args.workers, parallelism) as nat,
                |i: int| StatusView::Idle,
            ),
            forall|i: int| 0 <= i < app@.rows.len() ==> (#[trigger] app@.rows[i]).1 == no_runs(),
            app@.run_state == RunState::Running,
            app@.logs.len() == 0,
            app@.selected_test == if test_binaries@.len() == 0 {
                None::<usize>
            } else {
                Some(0)
            },
            app@.selected_log is None,
    {
        let count = choose_worker_count(args.workers, parallelism);
        let mut workers: Vec<WorkerState> = Vec::new();
        let mut i: usize = 0;
        while i < count
            invariant
                i <= count,
                workers@.len() == i,
                forall|k: int|
                    0 <= k < i ==> (#[trigger] workers@[k]).id == k && workers@[k].status@
                        == StatusView::Idle,
            decreases count - i,
        {
            workers.push(WorkerState { id: i, status: WorkerStatus::Idle });
            i = i + 1;
        }
        let mut tests: Vec<TestPath> = Vec::new();
        let mut k: usize = 0;
        while k < test_binaries.len()
            invariant
                k <= test_binaries@.len(),
                tests@.len() == k,
                forall|j: int|
                    0 <= j < k ==> (#[trigger] tests@[j])@.path == test_binaries@[j]@ && is_named(
                        tests@[j]@,
                    ),
            decreases test_binaries@.len() - k,
        {
            tests.push(TestPath::of(test_binaries[k].clone()));
            k = k + 1;
        }
        let test_stats = StatsTable::new(&tests);
        let selected_test = if test_binaries.is_empty() {
            None
        } else {
            Some(0)
        };
        let app = App {
            args,
            test_binaries: tests,
            next_test_idx: 0,
            total_attempts: 0,
            total_failures: 0,
            total_hangs: 0,
            start_time: Instant::now(),
            workers,
            test_stats,
            run_state: RunState::Running,
            event_logs: Vec::new(),
            selected_test,
            selected_log: None,
        };
        proof {
            let rows = app@.rows;
            lemma_total_zero(rows, |s: TestStats| s.attempts as nat);
            lemma_total_zero(rows, |s: TestStats| s.failures as nat);
            lemma_total_zero(rows, |s: TestStats| s.hangs as nat);
            if app@.tests.len() > 0 {
                assert(paths_of(app@.tests)[0] == app@.tests[0].path);
                assert(has_path(rows, app@.tests[0].path));
            }
            assert(paths_of(app@.tests) =~= texts(test_binaries@));
            assert(app@.workers =~= Seq::new(count as nat, |i: int| StatusView::Idle));
        }
        app
    }

    /// Logs a message with `clock` as the time of day.
    pub fn log_at(&mut self, clock: &str, message: &str)
        requires
            old(self).wf(),
        ensures
            final(self)@ == logged(old(self)@, clock@, message@),
            final(self).wf(),
    {
        let line = "[".to_owned().concat(clock).concat("] ").concat(message);
        let ghost before = self.event_logs@;
        self.event_logs.push(line);
        proof {
            assert(texts(self.event_logs@) =~= texts(before).push(log_line(clock@, message@)));
        }
        if self.event_logs.len() > MAX_LOGS {
            let ghost pushed = self.event_logs@;
            let _oldest = self.event_logs.remove(0);
            proof {
                assert(texts(self.event_logs@) =~= texts(pushed).skip(1));
            }
        }
        self.selected_log = Some(self.event_logs.len() - 1);
    }

    /// Logs a message.
    pub fn log(&mut self, message: String)
        requires
            old(self).wf(),
        ensures
            logs(old(self)@, seq![message@], final(self)@),
            final(self).wf(),
    {
        let clock = clock_now();
        let ghost before = self@;
        self.log_at(clock.as_str(), message.as_str());
        proof {
            let clocks = seq![clock@];
            let messages = seq![message@];
            reveal_with_fuel(all_logged, 2);
            assert(messages.drop_last() =~= Seq::empty());
            assert(self@ == all_logged(before, clocks, messages));
        }
    }
}

} // verus!
