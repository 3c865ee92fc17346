//! What is counted of each test, and the table of all tests.

use crate::order::{
    is_text_eq, is_text_lt, lemma_text_lt_irreflexive, lemma_text_lt_total,
    lemma_text_lt_transitive, text_lt,
};
use crate::path::{paths_of, test_views, TestPath, TestView};
use vstd::prelude::*;
use vstd::string::*;

verus! {

/// The longest total run time that is kept, in nanoseconds: as many whole
/// seconds as 64 bits count, and one nanosecond less than a further one.
pub const MAX_DURATION: u128 = 18_446_744_073_709_551_615_999_999_999;

/// The counters of one test.
#[derive(Clone, Copy, Debug, PartialEq, Eq, Structural)]
pub struct TestStats {
    /// Runs that came to an end.
    pub attempts: u64,
    /// Runs that ended with exit code zero.
    pub successes: u64,
    /// Runs that ended otherwise.
    pub failures: u64,
    /// Runs that were confirmed to hang.
    pub hangs: u64,
    /// The time that the ended runs took together, in nanoseconds.
    pub total_duration: u128,
}

/// A test and its counters.
#[derive(Debug)]
pub struct TestRow {
    pub test: TestPath,
    pub stats: TestStats,
}

/// All tests and their counters, in the order of the paths, none twice.
#[derive(Debug)]
pub struct StatsTable {
    pub rows: Vec<TestRow>,
}

/// A row of the table, with strings as texts.
pub type RowView = (TestView, TestStats);

/// Counters that nothing was counted with.
pub open spec fn no_runs() -> TestStats {
    TestStats { attempts: 0, successes: 0, failures: 0, hangs: 0, total_duration: 0 }
}

impl View for StatsTable {
    type V = Seq<RowView>;

    open spec fn view(&self) -> Seq<RowView> {
        Seq::new(self.rows@.len(), |i: int| (self.rows@[i].test@, self.rows@[i].stats))
    }
}

/// The paths stand in their order, and none stands twice.
pub open spec fn ordered(rows: Seq<RowView>) -> bool {
    forall|i: int, j: int| 0 <= i < j < rows.len() ==> text_lt(
        (#[trigger] rows[i]).0.path,
        (#[trigger] rows[j]).0.path,
    )
}

/// There is a row for `path`.
pub open spec fn has_path(rows: Seq<RowView>, path: Seq<char>) -> bool {
    exists|i: int| 0 <= i < rows.len() && (#[trigger] rows[i]).0.path == path
}

/// Counters after one more run.
pub open spec fn run_added(stats: TestStats, success: bool, duration: u128) -> TestStats {
    TestStats {
        attempts: (stats.attempts + 1) as u64,
        successes: (stats.successes + if success { 1int } else { 0 }) as u64,
        failures: (stats.failures + if success { 0int } else { 1 }) as u64,
        hangs: stats.hangs,
        total_duration: (stats.total_duration + duration) as u128,
    }
}

/// Counters after one more hang.
pub open spec fn hang_added(stats: TestStats) -> TestStats {
    TestStats { hangs: (stats.hangs + 1) as u64, ..stats }
}

/// The rows after one more run of `path`; a path without a row counts nowhere.
pub open spec fn with_run(
    rows: Seq<RowView>,
    path: Seq<char>,
    success: bool,
    duration: u128,
) -> Seq<RowView> {
    rows.map_values(
        |row: RowView|
            if row.0.path == path {
                (row.0, run_added(row.1, success, duration))
            } else {
                row
            },
    )
}

/// The rows after one more hang of `path`; a path without a row counts nowhere.
pub open spec fn with_hang(rows: Seq<RowView>, path: Seq<char>) -> Seq<RowView> {
    rows.map_values(
        |row: RowView|
            if row.0.path == path {
                (row.0, hang_added(row.1))
            } else {
                row
            },
    )
}

/// The counters of `path`, where it has a row, can count one more run.
pub open spec fn has_room(rows: Seq<RowView>, path: Seq<char>, duration: u128) -> bool {
    forall|i: int|
        0 <= i < rows.len() && (#[trigger] rows[i]).0.path == path ==> {
            &&& rows[i].1.attempts < u64::MAX
            &&& rows[i].1.successes < u64::MAX
            &&& rows[i].1.failures < u64::MAX
            &&& rows[i].1.total_duration + duration <= MAX_DURATION
        }
}

/// The sum of `count` over all rows.
pub open spec fn total(rows: Seq<RowView>, count: spec_fn(TestStats) -> nat) -> nat
    decreases rows.len(),
{
    if rows.len() == 0 {
        0
    } else {
        total(rows.drop_last(), count) + count(rows.last().1)
    }
}

/// The runs of all tests together.
pub open spec fn all_attempts(rows: Seq<RowView>) -> nat {
    total(rows, |s: TestStats| s.attempts as nat)
}

/// The successful runs of all tests together.
pub open spec fn all_successes(rows: Seq<RowView>) -> nat {
    total(rows, |s: TestStats| s.successes as nat)
}

/// The failed runs of all tests together.
pub open spec fn all_failures(rows: Seq<RowView>) -> nat {
    total(rows, |s: TestStats| s.failures as nat)
}

/// The hangs of all tests together.
pub open spec fn all_hangs(rows: Seq<RowView>) -> nat {
    total(rows, |s: TestStats| s.hangs as nat)
}

/// No row counts more than all rows together.
pub proof fn lemma_total_bounds(rows: Seq<RowView>, count: spec_fn(TestStats) -> nat, i: int)
    requires
        0 <= i < rows.len(),
    ensures
        count(rows[i].1) <= total(rows, count),
    decreases rows.len(),
{
    if i < rows.len() - 1 {
        lemma_total_bounds(rows.drop_last(), count, i);
    }
}

/// Replacing one row changes the sum by the difference of the two rows.
pub proof fn lemma_total_update(
    rows: Seq<RowView>,
    count: spec_fn(TestStats) -> nat,
    i: int,
    row: RowView,
)
    requires
        0 <= i < rows.len(),
    ensures
        total(rows.update(i, row), count) + count(rows[i].1) == total(rows, count) + count(row.1),
    decreases rows.len(),
{
    let after = rows.update(i, row);
    if i < rows.len() - 1 {
        lemma_total_update(rows.drop_last(), count, i, row);
        assert(after.drop_last() =~= rows.drop_last().update(i, row));
    } else {
        assert(after.drop_last() =~= rows.drop_last());
    }
}

/// Rows that count nothing sum up to nothing.
pub proof fn lemma_total_zero(rows: Seq<RowView>, count: spec_fn(TestStats) -> nat)
    requires
        forall|i: int| 0 <= i < rows.len() ==> count((#[trigger] rows[i]).1) == 0,
    ensures
        total(rows, count) == 0,
    decreases rows.len(),
{
    if rows.len() > 0 {
        assert forall|i: int| 0 <= i < rows.drop_last().len() implies count(
            (#[trigger] rows.drop_last()[i]).1,
        ) == 0 by {
            assert(rows.drop_last()[i] == rows[i]);
        }
        lemma_total_zero(rows.drop_last(), count);
    }
}

/// In an ordered table the row of a path is the only one of that path, so
/// counting a run replaces that one row.
proof fn lemma_with_run_is_update(
    rows: Seq<RowView>,
    path: Seq<char>,
    success: bool,
    duration: u128,
    i: int,
)
    requires
        ordered(rows),
        0 <= i < rows.len(),
        rows[i].0.path == path,
    ensures
        with_run(rows, path, success, duration) == rows.update(
            i,
            (rows[i].0, run_added(rows[i].1, success, duration)),
        ),
{
    lemma_path_once(rows, i);
    assert(with_run(rows, path, success, duration) =~= rows.update(
        i,
        (rows[i].0, run_added(rows[i].1, success, duration)),
    ));
}

/// In an ordered table counting a hang replaces one row.
proof fn lemma_with_hang_is_update(rows: Seq<RowView>, path: Seq<char>, i: int)
    requires
        ordered(rows),
        0 <= i < rows.len(),
        rows[i].0.path == path,
    ensures
        with_hang(rows, path) == rows.update(i, (rows[i].0, hang_added(rows[i].1))),
{
    lemma_path_once(rows, i);
    assert(with_hang(rows, path) =~= rows.update(i, (rows[i].0, hang_added(rows[i].1))));
}

/// In an ordered table no path stands twice.
proof fn lemma_path_once(rows: Seq<RowView>, i: int)
    requires
        ordered(rows),
        0 <= i < rows.len(),
    ensures
        forall|j: int| 0 <= j < rows.len() && j != i ==> (#[trigger] rows[j]).0.path != rows[i].0.path,
{
    assert forall|j: int| 0 <= j < rows.len() && j != i implies (#[trigger] rows[j]).0.path != rows[i].0.path by {
        lemma_text_lt_irreflexive(rows[i].0.path);
        if j < i {
            assert(text_lt(rows[j].0.path, rows[i].0.path));
        } else {
            assert(text_lt(rows[i].0.path, rows[j].0.path));
        }
    }
}

/// Every row counts as many runs as successes and failures.
pub open spec fn balanced(rows: Seq<RowView>) -> bool {
    forall|i: int|
        0 <= i < rows.len() ==> (#[trigger] rows[i]).1.attempts == rows[i].1.successes
            + rows[i].1.failures
}

/// No row holds a longer run time than can be kept.
pub open spec fn durations_fit(rows: Seq<RowView>) -> bool {
    forall|i: int| 0 <= i < rows.len() ==> (#[trigger] rows[i]).1.total_duration <= MAX_DURATION
}

/// Where every row is balanced, all runs together are the successes and the
/// failures together.
pub proof fn law_runs_succeed_or_fail(rows: Seq<RowView>)
    requires
        balanced(rows),
    ensures
        all_attempts(rows) == all_successes(rows) + all_failures(rows),
    decreases rows.len(),
{
    if rows.len() > 0 {
        assert forall|i: int| 0 <= i < rows.drop_last().len() implies (
        #[trigger] rows.drop_last()[i]).1.attempts == rows.drop_last()[i].1.successes
            + rows.drop_last()[i].1.failures by {
            assert(rows.drop_last()[i] == rows[i]);
        }
        law_runs_succeed_or_fail(rows.drop_last());
    }
}

/// A run of a test in the table counts once: among all runs, and among the
/// successes or the failures; the hangs stay.
pub proof fn law_run_counts_once(
    rows: Seq<RowView>,
    path: Seq<char>,
    success: bool,
    duration: u128,
)
    requires
        ordered(rows),
        has_path(rows, path),
        all_attempts(rows) < u64::MAX,
        balanced(rows),
    ensures
        all_attempts(with_run(rows, path, success, duration)) == all_attempts(rows) + 1,
        all_successes(with_run(rows, path, success, duration)) == all_successes(rows)
            + if success { 1int } else { 0 },
        all_failures(with_run(rows, path, success, duration)) == all_failures(rows)
            + if success { 0int } else { 1 },
        all_hangs(with_run(rows, path, success, duration)) == all_hangs(rows),
        balanced(with_run(rows, path, success, duration)),
        ordered(with_run(rows, path, success, duration)),
{
    let i = choose|i: int| 0 <= i < rows.len() && (#[trigger] rows[i]).0.path == path;
    let row = (rows[i].0, run_added(rows[i].1, success, duration));
    lemma_with_run_is_update(rows, path, success, duration, i);
    lemma_total_bounds(rows, |s: TestStats| s.attempts as nat, i);
    lemma_total_update(rows, |s: TestStats| s.attempts as nat, i, row);
    lemma_total_update(rows, |s: TestStats| s.successes as nat, i, row);
    lemma_total_update(rows, |s: TestStats| s.failures as nat, i, row);
    lemma_total_update(rows, |s: TestStats| s.hangs as nat, i, row);
}

/// A hang of a test in the table counts once, and no run counts with it.
pub proof fn law_hang_counts_once(rows: Seq<RowView>, path: Seq<char>)
    requires
        ordered(rows),
        has_path(rows, path),
        all_hangs(rows) < u64::MAX,
        balanced(rows),
    ensures
        all_attempts(with_hang(rows, path)) == all_attempts(rows),
        all_successes(with_hang(rows, path)) == all_successes(rows),
        all_failures(with_hang(rows, path)) == all_failures(rows),
        all_hangs(with_hang(rows, path)) == all_hangs(rows) + 1,
        balanced(with_hang(rows, path)),
        ordered(with_hang(rows, path)),
{
    let i = choose|i: int| 0 <= i < rows.len() && (#[trigger] rows[i]).0.path == path;
    let row = (rows[i].0, hang_added(rows[i].1));
    lemma_with_hang_is_update(rows, path, i);
    lemma_total_bounds(rows, |s: TestStats| s.hangs as nat, i);
    lemma_total_update(rows, |s: TestStats| s.attempts as nat, i, row);
    lemma_total_update(rows, |s: TestStats| s.successes as nat, i, row);
    lemma_total_update(rows, |s: TestStats| s.failures as nat, i, row);
    lemma_total_update(rows, |s: TestStats| s.hangs as nat, i, row);
}

/// A path without a row changes no row.
pub proof fn law_unknown_path_counts_nowhere(
    rows: Seq<RowView>,
    path: Seq<char>,
    success: bool,
    duration: u128,
)
    requires
        !has_path(rows, path),
    ensures
        with_run(rows, path, success, duration) == rows,
        with_hang(rows, path) == rows,
{
    assert(with_run(rows, path, success, duration) =~= rows);
    assert(with_hang(rows, path) =~= rows);
}

impl StatsTable {
    /// The paths stand in their order, and none stands twice.
    pub open spec fn wf(&self) -> bool {
        ordered(self@)
    }

    /// A table with a row for each of the tests, all counters zero.
    pub fn new(tests: &Vec<TestPath>) -> (table: StatsTable)
        ensures
            table.wf(),
            forall|path: Seq<char>|
                has_path(table@, path) <==> paths_of(test_views(tests@)).contains(path),
            forall|i: int|
                0 <= i < table@.len() ==> test_views(tests@).contains((#[trigger] table@[i]).0)
                    && table@[i].1 == no_runs(),
            table@.len() <= tests@.len(),
    {
        let mut table = StatsTable { rows: Vec::new() };
        let mut n: usize = 0;
        let ghost all = test_views(tests@);
        let ghost paths = paths_of(all);
        while n < tests.len()
            invariant
                n <= tests@.len(),
                all == test_views(tests@),
                paths == paths_of(all),
                table.wf(),
                forall|path: Seq<char>|
                    has_path(table@, path) <==> paths.take(n as int).contains(path),
                forall|i: int|
                    0 <= i < table@.len() ==> all.contains((#[trigger] table@[i]).0) && table@[i].1
                        == no_runs(),
                table@.len() <= n,
            decreases tests@.len() - n,
        {
            let ghost before = table@;
            table.add(&tests[n]);
            proof {
                let (head, more) = (paths.take(n as int), paths.take(n + 1));
                let new = tests@[n as int]@.path;
                assert(all[n as int] == tests@[n as int]@);
                assert(more =~= head.push(new));
                assert forall|path: Seq<char>|
                    has_path(table@, path) <==> more.contains(path) by {
                    if more.contains(path) {
                        let k = choose|k: int| 0 <= k < more.len() && more[k] == path;
                        if k < n {
                            assert(head[k] == path);
                            assert(head.contains(path));
                        }
                    }
                    if head.contains(path) {
                        let k = choose|k: int| 0 <= k < head.len() && head[k] == path;
                        assert(more[k] == path);
                    }
                    assert(more[n as int] == new);
                }
                assert forall|i: int| 0 <= i < table@.len() implies all.contains(
                    (#[trigger] table@[i]).0,
                ) && table@[i].1 == no_runs() by {
                    if table@[i].0.path != new {
                        let k = choose|k: int| 0 <= k < before.len() && before[k] == table@[i];
                        assert(all.contains(before[k].0));
                    }
                }
            }
            n = n + 1;
        }
        proof {
            assert(paths.take(n as int) =~= paths);
        }
        table
    }

    /// The number of tests.
    pub fn len(&self) -> (n: usize)
        ensures
            n == self@.len(),
    {
        self.rows.len()
    }

    /// Where the row of `path` stands, or would have to stand.
    fn place(&self, path: &str) -> (at: usize)
        requires
            self.wf(),
        ensures
            at <= self@.len(),
            forall|i: int| 0 <= i < at ==> text_lt((#[trigger] self@[i]).0.path, path@),
            forall|i: int| at <= i < self@.len() ==> !text_lt((#[trigger] self@[i]).0.path, path@),
    {
        let mut low: usize = 0;
        let mut high: usize = self.rows.len();
        while low < high
            invariant
                low <= high <= self@.len(),
                self.wf(),
                forall|i: int| 0 <= i < low ==> text_lt((#[trigger] self@[i]).0.path, path@),
                forall|i: int| high <= i < self@.len() ==> !text_lt((#[trigger] self@[i]).0.path, path@),
            decreases high - low,
        {
            let middle: usize = low + (high - low) / 2;
            let less = is_text_lt(self.rows[middle].test.path.as_str(), path);
            proof {
                let m = middle as int;
                assert(self@[m].0 == self.rows@[m].test@);
                if less {
                    assert forall|i: int| 0 <= i < middle + 1 implies text_lt(
                        (#[trigger] self@[i]).0.path,
                        path@,
                    ) by {
                        if i < m {
                            lemma_text_lt_transitive(self@[i].0.path, self@[m].0.path, path@);
                        }
                    }
                } else {
                    assert forall|i: int| middle <= i < self@.len() implies !text_lt(
                        (#[trigger] self@[i]).0.path,
                        path@,
                    ) by {
                        if i > m && text_lt(self@[i].0.path, path@) {
                            lemma_text_lt_transitive(self@[m].0.path, self@[i].0.path, path@);
                        }
                    }
                }
            }
            if less {
                low = middle + 1;
            } else {
                high = middle;
            }
        }
        low
    }

    /// The position of the row of `path`.
    pub fn find(&self, path: &str) -> (found: Option<usize>)
        requires
            self.wf(),
        ensures
            match found {
                Some(i) => i < self@.len() && self@[i as int].0.path == path@,
                None => !has_path(self@, path@),
            },
    {
        let at = self.place(path);
        proof {
            lemma_text_lt_irreflexive(path@);
            assert forall|i: int| 0 <= i < self@.len() && (#[trigger] self@[i]).0.path == path@ implies i
                == at by {
                if i > at {
                    assert(text_lt(self@[at as int].0.path, self@[i].0.path));
                }
            }
        }
        if at < self.rows.len() && is_text_eq(self.rows[at].test.path.as_str(), path) {
            Some(at)
        } else {
            None
        }
    }

    /// Puts a row of zeros for `test` into its place; a row that is there is
    /// set back to zeros.
    pub fn add(&mut self, test: &TestPath)
        requires
            old(self).wf(),
        ensures
            final(self).wf(),
            forall|p: Seq<char>|
                has_path(final(self)@, p) <==> has_path(old(self)@, p) || p == test@.path,
            forall|i: int|
                0 <= i < final(self)@.len() ==> if (#[trigger] final(self)@[i]).0.path == test@.path {
                    final(self)@[i] == (test@, no_runs())
                } else {
                    old(self)@.contains(final(self)@[i])
                },
            final(self)@.len() == old(self)@.len() + if has_path(old(self)@, test@.path) {
                0int
            } else {
                1
            },
    {
        let zeros = TestStats {
            attempts: 0,
            successes: 0,
            failures: 0,
            hangs: 0,
            total_duration: 0,
        };
        let at = self.place(test.path.as_str());
        let found = self.find(test.path.as_str());
        let row = TestRow { test: test.clone(), stats: zeros };
        let ghost before = self@;
        match found {
            Some(i) => {
                self.rows.set(i, row);
                proof {
                    let after = self@;
                    assert(after =~= before.update(i as int, (test@, zeros)));
                    assert forall|p: Seq<char>|
                        has_path(after, p) <==> has_path(before, p) || p == test@.path by {
                        if has_path(before, p) {
                            let k = choose|k: int|
                                0 <= k < before.len() && (#[trigger] before[k]).0.path == p;
                            assert(after[k].0.path == p);
                        }
                        if has_path(after, p) {
                            let k = choose|k: int|
                                0 <= k < after.len() && (#[trigger] after[k]).0.path == p;
                            assert(before[k].0.path == p);
                        }
                        assert(after[i as int].0.path == test@.path);
                    }
                    lemma_path_once(after, i as int);
                    assert forall|k: int| 0 <= k < after.len() implies if (
                    #[trigger] after[k]).0.path == test@.path {
                        after[k] == (test@, no_runs())
                    } else {
                        before.contains(after[k])
                    } by {
                        if k != i {
                            assert(before[k] == after[k]);
                        }
                    }
                }
            },
            None => {
                self.rows.insert(at, row);
                proof {
                    let after = self@;
                    assert(after =~= before.insert(at as int, (test@, zeros)));
                    assert forall|i: int, j: int| 0 <= i < j < after.len() implies text_lt(
                        (#[trigger] after[i]).0.path,
                        (#[trigger] after[j]).0.path,
                    ) by {
                        if j > at {
                            assert(after[j] == before[j - 1]);
                            lemma_text_lt_total(before[j - 1].0.path, test@.path);
                        }
                        if j < at {
                            assert(after[j] == before[j]);
                        }
                        if i > at {
                            assert(after[i] == before[i - 1]);
                        }
                        if i < at {
                            assert(after[i] == before[i]);
                        }
                    }
                    assert forall|p: Seq<char>|
                        has_path(after, p) <==> has_path(before, p) || p == test@.path by {
                        if has_path(before, p) {
                            let k = choose|k: int|
                                0 <= k < before.len() && (#[trigger] before[k]).0.path == p;
                            if k < at {
                                assert(after[k].0.path == p);
                            } else {
                                assert(after[k + 1].0.path == p);
                            }
                        }
                        if has_path(after, p) {
                            let k = choose|k: int|
                                0 <= k < after.len() && (#[trigger] after[k]).0.path == p;
                            if k < at {
                                assert(before[k].0.path == p);
                            } else if k > at {
                                assert(before[k - 1].0.path == p);
                            }
                        }
                        assert(after[at as int].0.path == test@.path);
                    }
                    assert forall|k: int| 0 <= k < after.len() implies if (
                    #[trigger] after[k]).0.path == test@.path {
                        after[k] == (test@, no_runs())
                    } else {
                        before.contains(after[k])
                    } by {
                        if k < at {
                            assert(before[k] == after[k]);
                        } else if k > at {
                            assert(before[k - 1] == after[k]);
                        }
                    }
                }
            },
        }
    }

    /// Tells whether the counters of `path` can count one more run.
    pub fn can_record_run(&self, path: &str, duration: u128) -> (can: bool)
        requires
            self.wf(),
        ensures
            can == has_room(self@, path@, duration),
    {
        match self.find(path) {
            None => true,
            Some(i) => {
                proof {
                    lemma_path_once(self@, i as int);
                    assert(self@[i as int].1 == self.rows@[i as int].stats);
                }
                let stats = self.rows[i].stats;
                stats.attempts < u64::MAX && stats.successes < u64::MAX && stats.failures
                    < u64::MAX && duration <= MAX_DURATION && stats.total_duration <= MAX_DURATION
                    - duration
            },
        }
    }

    /// Counts a run of `path`, and tells whether `path` has a row.
    pub fn record_run(&mut self, path: &str, success: bool, duration: u128) -> (known: bool)
        requires
            old(self).wf(),
            has_room(old(self)@, path@, duration),
        ensures
            known == has_path(old(self)@, path@),
            final(self)@ == with_run(old(self)@, path@, success, duration),
            final(self).wf(),
    {
        let ghost before = self@;
        match self.find(path) {
            None => {
                proof {
                    law_unknown_path_counts_nowhere(before, path@, success, duration);
                }
                false
            },
            Some(i) => {
                proof {
                    assert(before[i as int].1 == self.rows@[i as int].stats);
                    lemma_with_run_is_update(before, path@, success, duration, i as int);
                }
                let mut stats = self.rows[i].stats;
                stats.attempts = stats.attempts + 1;
                stats.total_duration = stats.total_duration + duration;
                if success {
                    stats.successes = stats.successes + 1;
                } else {
                    stats.failures = stats.failures + 1;
                }
                let row = TestRow { test: self.rows[i].test.clone(), stats };
                self.rows.set(i, row);
                proof {
                    assert(self@ =~= before.update(i as int, (before[i as int].0, stats)));
                }
                true
            },
        }
    }

    /// Counts a hang of `path`, and tells whether `path` has a row.
    pub fn record_hang(&mut self, path: &str) -> (known: bool)
        requires
            old(self).wf(),
            forall|i: int|
                0 <= i < old(self)@.len() && (#[trigger] old(self)@[i]).0.path == path@ ==> old(
                    self,
                )@[i].1.hangs < u64::MAX,
        ensures
            known == has_path(old(self)@, path@),
            final(self)@ == with_hang(old(self)@, path@),
            final(self).wf(),
    {
        let ghost before = self@;
        match self.find(path) {
            None => {
                proof {
                    law_unknown_path_counts_nowhere(before, path@, true, 0);
                }
                false
            },
            Some(i) => {
                proof {
                    assert(before[i as int].1 == self.rows@[i as int].stats);
                    lemma_with_hang_is_update(before, path@, i as int);
                }
                let mut stats = self.rows[i].stats;
                stats.hangs = stats.hangs + 1;
                let row = TestRow { test: self.rows[i].test.clone(), stats };
                self.rows.set(i, row);
                proof {
                    assert(self@ =~= before.update(i as int, (before[i as int].0, stats)));
                }
                true
            },
        }
    }
}

} // verus!
