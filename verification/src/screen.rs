//! What the screen shows.

use crate::app::{App, AppView, RunState};
use crate::clock::{span_text, span_text_of};
use crate::path::{name_or, shown_name};
use crate::stats::{all_attempts, all_failures, RowView, TestRow, TestStats};
use crate::text::{
    can_shorten, can_shorten_text, decimal, decimal_text, shortened, shortened_text, two_places,
    two_places_text,
};
use crate::worker::{StatusView, WorkerStatus};
use vstd::prelude::*;
use vstd::string::*;

verus! {

/// The columns that the workers are shown in.
pub const NUM_COLS: usize = 4;

/// The nanoseconds of a second.
pub const NANOS_PER_SEC: u128 = 1_000_000_000;

/// The numbers of runs that 32 bits tell apart.
pub const RUN_NUMBERS: u64 = 4_294_967_296;

/// What a piece of text stands for, and so how it is coloured.
#[derive(Clone, Copy, Debug, PartialEq, Eq, Structural)]
pub enum Tone {
    Plain,
    /// All is well.
    Normal,
    /// A test is isolated.
    Alarm,
    /// The stress test is over.
    Over,
    /// Failures.
    Failures,
    /// Hangs.
    Hangs,
    /// A worker without a job.
    Idle,
    /// A worker with a job.
    Busy,
    /// A worker under suspicion.
    Suspect,
}

/// A piece of text on the screen.
#[derive(Debug)]
pub struct Piece {
    pub text: String,
    pub tone: Tone,
}

/// A piece of text on the screen, with the string as its text.
pub type PieceView = (Seq<char>, Tone);

/// Some pieces in a row.
#[derive(Debug)]
pub struct PieceRow {
    pub pieces: Vec<Piece>,
}

impl View for PieceRow {
    type V = Seq<PieceView>;

    open spec fn view(&self) -> Seq<PieceView> {
        Seq::new(self.pieces@.len(), |i: int| (self.pieces@[i].text@, self.pieces@[i].tone))
    }
}

/// Some rows.
pub open spec fn row_views(rows: Seq<PieceRow>) -> Seq<Seq<PieceView>> {
    Seq::new(rows.len(), |i: int| rows[i]@)
}

/// What the screen shows, apart from the log.
#[derive(Debug)]
pub struct Screen {
    /// The state of the stress test as a whole.
    pub header: PieceRow,
    /// The workers, in columns.
    pub workers: Vec<PieceRow>,
    /// The tests, one in each row.
    pub tests: Vec<PieceRow>,
}

/// The text that the debug format of a duration with two decimals gives, for
/// whole seconds and the nanoseconds behind them.
pub uninterp spec fn duration_debug(secs: u64, nanos: u32) -> Seq<char>;

/// `std::time::Duration::new` and the debug format of the duration, with two
/// decimals: a text that depends on the duration alone. How it picks its unit
/// and rounds is left to the name.
#[verifier::external_body]
fn duration_text(secs: u64, nanos: u32) -> (text: String)
    requires
        nanos < NANOS_PER_SEC,
    ensures
        text@ == duration_debug(secs, nanos),
{
    format!("{:.2?}", std::time::Duration::new(secs, nanos))
}

/// How a stress test is doing, in a word.
pub open spec fn status_piece(run_state: RunState) -> PieceView {
    match run_state {
        RunState::Running => ("NORMAL"@, Tone::Normal),
        RunState::Isolating { suspect_worker_id } => (
            "ISOLATING WORKER "@ + decimal(suspect_worker_id as nat),
            Tone::Alarm,
        ),
        RunState::Terminated => ("TERMINATED"@, Tone::Over),
    }
}

/// The time that has passed, and the time after which no job is started.
pub open spec fn time_text(elapsed: u64, limit: Option<u64>) -> Seq<char> {
    "Elapsed: "@ + span_text(elapsed as nat) + " / "@ + match limit {
        Some(secs) => span_text(secs as nat),
        None => "Indefinite"@,
    }
}

/// The state of the stress test as a whole; `cpu` and `memory` are percentages.
pub open spec fn header(
    v: AppView,
    elapsed: u64,
    cpu: Seq<char>,
    memory: Seq<char>,
) -> Seq<PieceView> {
    seq![
        ("Status: "@, Tone::Plain),
        status_piece(v.run_state),
        (" | "@, Tone::Plain),
        (time_text(elapsed, v.duration), Tone::Plain),
        (" | "@, Tone::Plain),
        ("Total Runs: "@ + decimal(v.attempts) + " | "@, Tone::Plain),
        ("Failures: "@ + decimal(v.failures) + " | "@, Tone::Failures),
        ("Hangs: "@ + decimal(v.hangs) + " | "@, Tone::Hangs),
        ("CPU: "@ + cpu + "% | "@, Tone::Plain),
        ("MEM: "@ + memory + "%"@, Tone::Plain),
    ]
}

/// A worker and what it is doing.
pub open spec fn worker_piece(id: nat, status: StatusView) -> PieceView {
    match status {
        StatusView::Idle => (two_places(" "@, id) + ": Idle"@, Tone::Idle),
        StatusView::Running { test_path, .. } => (
            two_places(" "@, id) + ": RUN "@ + shortened(name_or(test_path, ".."@)),
            Tone::Busy,
        ),
        StatusView::Isolating { test_path, .. } => (
            two_places(" "@, id) + ": ISO "@ + name_or(test_path, ".."@),
            Tone::Suspect,
        ),
    }
}

/// The workers that stand in one column.
pub open spec fn workers_per_column(workers: nat) -> nat {
    (workers + NUM_COLS - 1) as nat / NUM_COLS as nat
}

/// The worker that stands in row `i` of column `column`.
pub open spec fn worker_in(workers: nat, i: int, column: int) -> int {
    column * workers_per_column(workers) + i
}

/// What stands in row `i` of column `column`.
pub open spec fn grid_piece(workers: Seq<StatusView>, i: int, column: int) -> PieceView {
    let worker = worker_in(workers.len(), i, column);
    if worker < workers.len() {
        worker_piece(worker as nat, workers[worker])
    } else {
        (""@, Tone::Plain)
    }
}

/// Row `i` of the workers.
pub open spec fn grid_row(workers: Seq<StatusView>, i: int) -> Seq<PieceView> {
    Seq::new(NUM_COLS as nat, |column: int| grid_piece(workers, i, column))
}

/// The workers, column after column.
pub open spec fn grid(workers: Seq<StatusView>) -> Seq<Seq<PieceView>> {
    Seq::new(workers_per_column(workers.len()), |i: int| grid_row(workers, i))
}

/// The number of runs by which the total time is divided: as many of them as 32
/// bits count.
pub open spec fn divisor(stats: TestStats) -> u64 {
    stats.attempts % RUN_NUMBERS
}

/// The time that a run of the test takes on average, in nanoseconds.
pub open spec fn average(stats: TestStats) -> u128 {
    stats.total_duration / (divisor(stats) as u128)
}

/// The time that a run of the test takes on average, as it is shown.
pub open spec fn average_text(stats: TestStats) -> Seq<char> {
    if stats.attempts > 0 {
        duration_debug(
            (average(stats) / NANOS_PER_SEC) as u64,
            (average(stats) % NANOS_PER_SEC) as u32,
        )
    } else {
        "-"@
    }
}

/// A count, marked where it is not zero.
pub open spec fn marked(count: u64, tone: Tone) -> PieceView {
    (
        decimal(count as nat),
        if count > 0 {
            tone
        } else {
            Tone::Plain
        },
    )
}

/// A test and its counters, with `average` as its average time.
pub open spec fn test_pieces(row: RowView, average: Seq<char>) -> Seq<PieceView> {
    seq![
        (shown_name(row.0), Tone::Plain),
        (decimal(row.1.attempts as nat), Tone::Plain),
        (decimal(row.1.successes as nat), Tone::Plain),
        marked(row.1.failures, Tone::Failures),
        marked(row.1.hangs, Tone::Hangs),
        (average, Tone::Plain),
    ]
}

/// The tests and their counters.
pub open spec fn test_rows(rows: Seq<RowView>) -> Seq<Seq<PieceView>> {
    Seq::new(rows.len(), |i: int| test_pieces(rows[i], average_text(rows[i].1)))
}

/// The worker can be shown: what it runs has a name that can be shortened.
pub open spec fn can_show_worker(status: StatusView) -> bool {
    status matches StatusView::Running { test_path, .. } ==> can_shorten(
        name_or(test_path, ".."@),
    )
}

/// The test can be shown: where there were runs, their number is no multiple of
/// what 32 bits count.
pub open spec fn can_show_test(stats: TestStats) -> bool {
    stats.attempts > 0 ==> divisor(stats) > 0
}

/// Everything can be shown.
pub open spec fn can_show(v: AppView) -> bool {
    &&& forall|i: int| 0 <= i < v.workers.len() ==> can_show_worker(#[trigger] v.workers[i])
    &&& forall|i: int| 0 <= i < v.rows.len() ==> can_show_test((#[trigger] v.rows[i]).1)
}

/// Every worker is shown, and in one place only.
pub proof fn law_every_worker_is_shown_once(workers: nat, worker: int)
    requires
        0 <= worker < workers,
    ensures
        exists|i: int, column: int|
            0 <= i < workers_per_column(workers) && 0 <= column < NUM_COLS && #[trigger] worker_in(
                workers,
                i,
                column,
            ) == worker,
        forall|i: int, column: int, j: int, other: int|
            0 <= i < workers_per_column(workers) && 0 <= column < NUM_COLS && 0 <= j
                < workers_per_column(workers) && 0 <= other < NUM_COLS && #[trigger] worker_in(
                workers,
                i,
                column,
            ) == #[trigger] worker_in(workers, j, other) ==> i == j && column == other,
{
    let per = workers_per_column(workers) as int;
    let i = worker % per;
    let column = worker / per;
    vstd::arithmetic::div_mod::lemma_fundamental_div_mod(worker, per);
    assert(column < NUM_COLS) by (nonlinear_arith)
        requires
            worker == per * column + i,
            0 <= i,
            worker < 4 * per,
            per > 0,
            NUM_COLS == 4,
    ;
    assert(column >= 0 && 0 <= i < per) by (nonlinear_arith)
        requires
            per > 0,
            worker >= 0,
            i == worker % per,
            column == worker / per,
    ;
    assert(worker_in(workers, i, column) == worker) by (nonlinear_arith)
        requires
            worker == per * column + i,
            worker_in(workers, i, column) == column * per + i,
    ;
    assert forall|i: int, column: int, j: int, other: int|
        0 <= i < workers_per_column(workers) && 0 <= column < NUM_COLS && 0 <= j
            < workers_per_column(workers) && 0 <= other < NUM_COLS && #[trigger] worker_in(
            workers,
            i,
            column,
        ) == #[trigger] worker_in(workers, j, other) implies i == j && column == other by {
        assert(i == j && column == other) by (nonlinear_arith)
            requires
                0 <= i < per,
                0 <= j < per,
                column * per + i == other * per + j,
        ;
    }
}

/// Adds a piece to a row.
fn put(row: &mut PieceRow, text: String, tone: Tone)
    ensures
        final(row)@ == old(row)@.push((text@, tone)),
{
    let ghost before = row@;
    row.pieces.push(Piece { text, tone });
    proof {
        assert(row@ =~= before.push((text@, tone)));
    }
}

/// The state of the stress test as a whole, as it is shown.
fn header_row(app: &App, elapsed: u64, cpu: &str, memory: &str) -> (row: PieceRow)
    ensures
        row@ == header(app@, elapsed, cpu@, memory@),
{
    let limit = match app.args.duration {
        Some(secs) => span_text_of(secs),
        None => "Indefinite".to_owned(),
    };
    let time = "Elapsed: ".to_owned().concat(span_text_of(elapsed).as_str()).concat(" / ").concat(
        limit.as_str(),
    );
    let mut row = PieceRow { pieces: Vec::new() };
    put(&mut row, "Status: ".to_owned(), Tone::Plain);
    match app.run_state {
        RunState::Running => put(&mut row, "NORMAL".to_owned(), Tone::Normal),
        RunState::Isolating { suspect_worker_id } => put(
            &mut row,
            "ISOLATING WORKER ".to_owned().concat(decimal_text(suspect_worker_id as u64).as_str()),
            Tone::Alarm,
        ),
        RunState::Terminated => put(&mut row, "TERMINATED".to_owned(), Tone::Over),
    }
    put(&mut row, " | ".to_owned(), Tone::Plain);
    put(&mut row, time, Tone::Plain);
    put(&mut row, " | ".to_owned(), Tone::Plain);
    let runs = "Total Runs: ".to_owned().concat(decimal_text(app.total_attempts).as_str()).concat(
        " | ",
    );
    put(&mut row, runs, Tone::Plain);
    let failures = "Failures: ".to_owned().concat(
        decimal_text(app.total_failures).as_str(),
    ).concat(" | ");
    put(&mut row, failures, Tone::Failures);
    let hangs = "Hangs: ".to_owned().concat(decimal_text(app.total_hangs).as_str()).concat(" | ");
    put(&mut row, hangs, Tone::Hangs);
    put(&mut row, "CPU: ".to_owned().concat(cpu).concat("% | "), Tone::Plain);
    put(&mut row, "MEM: ".to_owned().concat(memory).concat("%"), Tone::Plain);
    proof {
        assert(row@ =~= header(app@, elapsed, cpu@, memory@));
    }
    row
}

/// A worker and what it is doing, as it is shown.
fn worker_piece_of(id: usize, status: &WorkerStatus) -> (piece: Piece)
    requires
        can_show_worker(status@),
    ensures
        (piece.text@, piece.tone) == worker_piece(id as nat, status@),
{
    let number = two_places_text(" ", id as u64);
    match status {
        WorkerStatus::Idle => Piece { text: number.concat(": Idle"), tone: Tone::Idle },
        WorkerStatus::Running { test_path, .. } => {
            let name = test_path.name_or_text("..");
            Piece {
                text: number.concat(": RUN ").concat(shortened_text(name.as_str()).as_str()),
                tone: Tone::Busy,
            }
        },
        WorkerStatus::Isolating { test_path, .. } => {
            let name = test_path.name_or_text("..");
            Piece { text: number.concat(": ISO ").concat(name.as_str()), tone: Tone::Suspect }
        },
    }
}

/// Row `i` of the workers, as it is shown.
fn grid_row_of(app: &App, i: usize, per: usize) -> (row: PieceRow)
    requires
        app.wf(),
        can_show(app@),
        per == workers_per_column(app@.workers.len()),
        i < per,
    ensures
        row@ == grid_row(app@.workers, i as int),
{
    let n = app.workers.len();
    let mut row = PieceRow { pieces: Vec::new() };
    let mut column: usize = 0;
    proof {
        assert(row@ =~= grid_row(app@.workers, i as int).take(0));
    }
    while column < NUM_COLS
        invariant
            column <= NUM_COLS,
            n == app@.workers.len(),
            n == app.workers@.len(),
            app.wf(),
            can_show(app@),
            per == workers_per_column(app@.workers.len()),
            i < per,
            row@ == grid_row(app@.workers, i as int).take(column as int),
        decreases NUM_COLS - column,
    {
        let ghost whole = grid_row(app@.workers, i as int);
        proof {
            assert(column * per <= 3 * per) by (nonlinear_arith)
                requires
                    column <= 3,
                    per >= 0,
            ;
            assert(3 * per <= usize::MAX);
            assert(whole.take(column + 1) =~= whole.take(column as int).push(
                whole[column as int],
            ));
        }
        let first: usize = column * per;
        if first < n && i < n - first {
            let worker: usize = first + i;
            proof {
                assert(app@.workers[worker as int] == app.workers@[worker as int].status@);
            }
            let piece = worker_piece_of(app.workers[worker].id, &app.workers[worker].status);
            put(&mut row, piece.text, piece.tone);
        } else {
            put(&mut row, "".to_owned(), Tone::Plain);
        }
        column = column + 1;
    }
    proof {
        assert(row@ =~= grid_row(app@.workers, i as int));
    }
    row
}

/// The time that a run of the test takes on average, as it is shown.
fn average_text_of(stats: &TestStats) -> (text: String)
    requires
        can_show_test(*stats),
        stats.total_duration <= crate::stats::MAX_DURATION,
    ensures
        text@ == average_text(*stats),
{
    if stats.attempts > 0 {
        let runs: u64 = stats.attempts % RUN_NUMBERS;
        let nanos: u128 = stats.total_duration / (runs as u128);
        proof {
            assert(nanos <= stats.total_duration) by (nonlinear_arith)
                requires
                    nanos == stats.total_duration / (runs as u128),
                    runs > 0,
            ;
        }
        duration_text((nanos / NANOS_PER_SEC) as u64, (nanos % NANOS_PER_SEC) as u32)
    } else {
        "-".to_owned()
    }
}

/// A test and its counters, with `average` as its average time, as it is shown.
pub fn test_pieces_of(test: &TestRow, average: String) -> (row: PieceRow)
    ensures
        row@ == test_pieces((test.test@, test.stats), average@),
{
    let stats = test.stats;
    let mut row = PieceRow { pieces: Vec::new() };
    put(&mut row, test.test.shown_text(), Tone::Plain);
    put(&mut row, decimal_text(stats.attempts), Tone::Plain);
    put(&mut row, decimal_text(stats.successes), Tone::Plain);
    let failed = if stats.failures > 0 {
        Tone::Failures
    } else {
        Tone::Plain
    };
    put(&mut row, decimal_text(stats.failures), failed);
    let hung = if stats.hangs > 0 {
        Tone::Hangs
    } else {
        Tone::Plain
    };
    put(&mut row, decimal_text(stats.hangs), hung);
    put(&mut row, average, Tone::Plain);
    proof {
        assert(row@ =~= test_pieces((test.test@, stats), average@));
    }
    row
}

impl App {
    /// Tells whether everything can be shown.
    pub fn can_draw(&self) -> (can: bool)
        requires
            self.wf(),
        ensures
            can == can_show(self@),
    {
        let mut i: usize = 0;
        while i < self.workers.len()
            invariant
                i <= self.workers@.len(),
                forall|j: int| 0 <= j < i ==> can_show_worker(#[trigger] self@.workers[j]),
            decreases self.workers@.len() - i,
        {
            proof {
                assert(self@.workers[i as int] == self.workers@[i as int].status@);
            }
            if let WorkerStatus::Running { test_path, .. } = &self.workers[i].status {
                let name = test_path.name_or_text("..");
                if !can_shorten_text(name.as_str()) {
                    return false;
                }
            }
            i = i + 1;
        }
        let mut k: usize = 0;
        while k < self.test_stats.rows.len()
            invariant
                k <= self.test_stats.rows@.len(),
                forall|j: int| 0 <= j < k ==> can_show_test((#[trigger] self@.rows[j]).1),
            decreases self.test_stats.rows@.len() - k,
        {
            let stats = self.test_stats.rows[k].stats;
            proof {
                assert(self@.rows[k as int].1 == stats);
            }
            if stats.attempts > 0 && stats.attempts % RUN_NUMBERS == 0 {
                return false;
            }
            k = k + 1;
        }
        true
    }

    /// What the screen shows, `elapsed` seconds after the beginning; `cpu` and
    /// `memory` are percentages.
    pub fn draw(&self, elapsed: u64, cpu: &str, memory: &str) -> (screen: Screen)
        requires
            self.wf(),
            can_show(self@),
        ensures
            screen.header@ == header(self@, elapsed, cpu@, memory@),
            row_views(screen.workers@) == grid(self@.workers),
            row_views(screen.tests@) == test_rows(self@.rows),
            screen.header@.len() == 10,
            screen.header@[5].0 == "Total Runs: "@ + decimal(all_attempts(self@.rows)) + " | "@,
            screen.header@[6].0 == "Failures: "@ + decimal(all_failures(self@.rows)) + " | "@,
            screen.header@[7].0 == "Hangs: "@ + decimal(self@.hangs) + " | "@,
    {
        let n = self.workers.len();
        let per: usize = n / NUM_COLS + if n % NUM_COLS == 0 {
            0
        } else {
            1
        };
        let mut workers: Vec<PieceRow> = Vec::new();
        let mut i: usize = 0;
        proof {
            assert(row_views(workers@) =~= grid(self@.workers).take(0));
        }
        while i < per
            invariant
                i <= per,
                per == workers_per_column(self@.workers.len()),
                self.wf(),
                can_show(self@),
                row_views(workers@) == grid(self@.workers).take(i as int),
            decreases per - i,
        {
            let ghost before = workers@;
            let row = grid_row_of(self, i, per);
            workers.push(row);
            proof {
                assert(row_views(workers@) =~= row_views(before).push(row@));
                assert(grid(self@.workers).take(i + 1) =~= grid(self@.workers).take(i as int).push(
                    grid(self@.workers)[i as int],
                ));
            }
            i = i + 1;
        }
        let mut tests: Vec<PieceRow> = Vec::new();
        let mut k: usize = 0;
        proof {
            assert(row_views(tests@) =~= test_rows(self@.rows).take(0));
        }
        while k < self.test_stats.rows.len()
            invariant
                k <= self.test_stats.rows@.len(),
                self.wf(),
                can_show(self@),
                row_views(tests@) == test_rows(self@.rows).take(k as int),
            decreases self.test_stats.rows@.len() - k,
        {
            let ghost before = tests@;
            proof {
                assert(self@.rows[k as int].1 == self.test_stats.rows@[k as int].stats);
            }
            let test = &self.test_stats.rows[k];
            let average = average_text_of(&test.stats);
            let row = test_pieces_of(test, average);
            tests.push(row);
            proof {
                let all = test_rows(self@.rows);
                assert(row_views(tests@) =~= row_views(before).push(row@));
                assert(all.take(k + 1) =~= all.take(k as int).push(all[k as int]));
            }
            k = k + 1;
        }
        proof {
            assert(grid(self@.workers).take(per as int) =~= grid(self@.workers));
            assert(test_rows(self@.rows).take(k as int) =~= test_rows(self@.rows));
        }
        Screen { header: header_row(self, elapsed, cpu, memory), workers, tests }
    }
}

} // verus!
