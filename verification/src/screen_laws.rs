//! What holds of the screen.

use crate::app::{valid, AppView, RunState};
use crate::clock::span_text;
use crate::screen::{
    average, average_text, can_show, can_show_test, can_show_worker, divisor, duration_debug, grid,
    header, test_pieces, test_rows, worker_piece, PieceView, Tone,
};
use crate::stats::{all_attempts, all_failures, all_hangs, RowView, TestStats};
use crate::text::{can_shorten, decimal, shortened};
use crate::text_laws::{all_digits, law_decimals_are_read_back, number_of};
use crate::worker::StatusView;
use vstd::prelude::*;
use vstd::string::*;

verus! {

/// The header tells, each in its place, how the stress test is doing, the time,
/// the runs and the failures of all tests together, the hangs, and the load that
/// it is given.
pub proof fn law_the_header_counts_all_tests(
    v: AppView,
    elapsed: u64,
    cpu: Seq<char>,
    memory: Seq<char>,
    shown: Seq<PieceView>,
)
    requires
        valid(v),
        shown == header(v, elapsed, cpu, memory),
    ensures
        shown.len() == 10,
        shown[0] == ("Status: "@, Tone::Plain),
        v.run_state is Running ==> shown[1] == ("NORMAL"@, Tone::Normal),
        v.run_state matches RunState::Isolating { suspect_worker_id } ==> shown[1] == (
            "ISOLATING WORKER "@ + decimal(suspect_worker_id as nat),
            Tone::Alarm,
        ),
        v.run_state is Terminated ==> shown[1] == ("TERMINATED"@, Tone::Over),
        shown[2] == (" | "@, Tone::Plain),
        v.duration is None ==> shown[3] == (
            "Elapsed: "@ + span_text(elapsed as nat) + " / "@ + "Indefinite"@,
            Tone::Plain,
        ),
        v.duration matches Some(limit) ==> shown[3] == (
            "Elapsed: "@ + span_text(elapsed as nat) + " / "@ + span_text(limit as nat),
            Tone::Plain,
        ),
        shown[4] == (" | "@, Tone::Plain),
        shown[5] == ("Total Runs: "@ + decimal(all_attempts(v.rows)) + " | "@, Tone::Plain),
        shown[6] == ("Failures: "@ + decimal(all_failures(v.rows)) + " | "@, Tone::Failures),
        shown[7] == ("Hangs: "@ + decimal(v.hangs) + " | "@, Tone::Hangs),
        all_hangs(v.rows) <= v.hangs,
        shown[8] == ("CPU: "@ + cpu + "% | "@, Tone::Plain),
        shown[9] == ("MEM: "@ + memory + "%"@, Tone::Plain),
{
}

/// The numbers of runs and failures can be read off the header, behind their
/// words.
pub proof fn law_the_header_is_read_back(
    v: AppView,
    elapsed: u64,
    cpu: Seq<char>,
    memory: Seq<char>,
)
    requires
        valid(v),
    ensures
        exists|runs: Seq<char>|
            header(v, elapsed, cpu, memory)[5].0 == #[trigger] ("Total Runs: "@ + runs + " | "@)
                && all_digits(runs) && number_of(runs) == all_attempts(v.rows),
        exists|failures: Seq<char>|
            header(v, elapsed, cpu, memory)[6].0 == #[trigger] ("Failures: "@ + failures + " | "@)
                && all_digits(failures) && number_of(failures) == all_failures(v.rows),
        exists|hangs: Seq<char>|
            header(v, elapsed, cpu, memory)[7].0 == #[trigger] ("Hangs: "@ + hangs + " | "@)
                && all_digits(hangs) && number_of(hangs) == v.hangs,
{
    law_decimals_are_read_back(v.attempts);
    law_decimals_are_read_back(v.failures);
    law_decimals_are_read_back(v.hangs);
    assert(header(v, elapsed, cpu, memory)[5].0 == "Total Runs: "@ + decimal(v.attempts) + " | "@);
    assert(header(v, elapsed, cpu, memory)[6].0 == "Failures: "@ + decimal(v.failures) + " | "@);
    assert(header(v, elapsed, cpu, memory)[7].0 == "Hangs: "@ + decimal(v.hangs) + " | "@);
}

/// The workers fill four columns from the top, one column after the other, with
/// as few rows as hold them all; what is left over is empty.
pub proof fn law_workers_fill_the_columns(workers: Seq<StatusView>, w: int, i: int, column: int)
    ensures
        4 * grid(workers).len() >= workers.len(),
        grid(workers).len() > 0 ==> 4 * (grid(workers).len() - 1) < workers.len(),
        0 <= i < grid(workers).len() ==> grid(workers)[i].len() == 4,
        0 <= w < workers.len() ==> {
            let rows = grid(workers).len() as int;
            &&& 0 <= w % rows < rows
            &&& 0 <= w / rows < 4
            &&& grid(workers)[w % rows][w / rows] == worker_piece(w as nat, workers[w])
        },
        0 <= i < grid(workers).len() && 0 <= column < 4 && column * grid(workers).len() + i
            >= workers.len() ==> grid(workers)[i][column] == (""@, Tone::Plain),
{
    let rows = grid(workers).len() as int;
    if 0 <= w < workers.len() {
        let (r, c) = (w % rows, w / rows);
        vstd::arithmetic::div_mod::lemma_fundamental_div_mod(w, rows);
        assert(0 <= r < rows && c >= 0) by (nonlinear_arith)
            requires
                rows > 0,
                w >= 0,
                r == w % rows,
                c == w / rows,
        ;
        assert(c < 4) by (nonlinear_arith)
            requires
                w == rows * c + r,
                0 <= r,
                w < 4 * rows,
                rows > 0,
        ;
        assert(c * rows + r == w) by (nonlinear_arith)
            requires
                w == rows * c + r,
        ;
    }
}

/// A worker is shown by its number, in two places at least, and what it does: an
/// idle one as such, a busy one with the name of its test, cut, and a suspect
/// with the whole name.
pub proof fn law_workers_show_what_they_do(id: nat, status: StatusView)
    ensures
        ({
            let (text, tone) = worker_piece(id, status);
            let number = if id < 10 {
                " "@ + decimal(id)
            } else {
                decimal(id)
            };
            match status {
                StatusView::Idle => text == number + ": Idle"@ && tone == Tone::Idle,
                StatusView::Running { test_path, .. } => tone == Tone::Busy && (
                test_path.file_name matches Some(name) ==> text == number + ": RUN "@ + shortened(
                    name,
                )) && (test_path.file_name is None ==> text == number + ": RUN "@ + shortened(
                    ".."@,
                )),
                StatusView::Isolating { test_path, .. } => tone == Tone::Suspect && (
                test_path.file_name matches Some(name) ==> text == number + ": ISO "@ + name) && (
                test_path.file_name is None ==> text == number + ": ISO "@ + ".."@),
            }
        }),
{
}

/// A test is shown in a row of its own, in the order of the table: its name, its
/// runs, successes, failures and hangs, and its average; failures and hangs are
/// marked where there are any.
pub proof fn law_tests_show_their_counters(rows: Seq<RowView>, i: int, name: Seq<char>)
    requires
        0 <= i < rows.len(),
        rows[i].0.file_name == Some(name) || rows[i].0.file_name is None && name == rows[i].0.path,
    ensures
        test_rows(rows).len() == rows.len(),
        ({
            let (row, stats) = (test_rows(rows)[i], rows[i].1);
            &&& row.len() == 6
            &&& row[0] == (name, Tone::Plain)
            &&& row[1] == (decimal(stats.attempts as nat), Tone::Plain)
            &&& row[2] == (decimal(stats.successes as nat), Tone::Plain)
            &&& row[3].0 == decimal(stats.failures as nat)
            &&& row[3].1 == if stats.failures == 0 {
                Tone::Plain
            } else {
                Tone::Failures
            }
            &&& row[4].0 == decimal(stats.hangs as nat)
            &&& row[4].1 == if stats.hangs == 0 {
                Tone::Plain
            } else {
                Tone::Hangs
            }
            &&& row[5] == (average_text(stats), Tone::Plain)
        }),
{
}

/// A row shows the average that it is given, whatever it is, and the counters of
/// its test.
pub proof fn law_a_row_shows_its_average(row: RowView, text: Seq<char>)
    ensures
        test_pieces(row, text).len() == 6,
        test_pieces(row, text)[5] == (text, Tone::Plain),
        row.0.file_name matches Some(name) ==> test_pieces(row, text)[0] == (name, Tone::Plain),
        row.0.file_name is None ==> test_pieces(row, text)[0] == (row.0.path, Tone::Plain),
        test_pieces(row, text)[1] == (decimal(row.1.attempts as nat), Tone::Plain),
        test_pieces(row, text)[2] == (decimal(row.1.successes as nat), Tone::Plain),
        test_pieces(row, text)[3].0 == decimal(row.1.failures as nat),
        test_pieces(row, text)[3].1 == Tone::Failures <==> row.1.failures > 0,
        test_pieces(row, text)[3].1 == Tone::Plain <==> row.1.failures == 0,
        test_pieces(row, text)[4].0 == decimal(row.1.hangs as nat),
        test_pieces(row, text)[4].1 == Tone::Hangs <==> row.1.hangs > 0,
        test_pieces(row, text)[4].1 == Tone::Plain <==> row.1.hangs == 0,
{
}

/// The average time is the total divided by the runs, down to a whole
/// nanosecond: as many runs as there were take no longer than the total
/// together, and with one nanosecond more each they would take longer. It is
/// shown in seconds and nanoseconds; where there was no run a dash is shown.
pub proof fn law_averages_share_out_the_total(stats: TestStats)
    requires
        can_show_test(stats),
    ensures
        stats.attempts == 0 ==> average_text(stats) == "-"@,
        0 < stats.attempts < 0x1_0000_0000 ==> average(stats) * stats.attempts
            <= stats.total_duration < (average(stats) + 1) * stats.attempts,
        stats.attempts > 0 ==> average(stats) * (stats.attempts as nat % 0x1_0000_0000)
            <= stats.total_duration < (average(stats) + 1) * (stats.attempts as nat
            % 0x1_0000_0000),
        stats.attempts > 0 && average(stats) <= crate::stats::MAX_DURATION ==> exists|
            secs: u64,
            nanos: u32,
        |
            secs * 1_000_000_000 + nanos == average(stats) && nanos < 1_000_000_000
                && average_text(stats) == #[trigger] duration_debug(secs, nanos),
{
    if stats.attempts > 0 {
        let (t, d) = (stats.total_duration as int, divisor(stats) as int);
        let a = average(stats) as int;
        assert(d == stats.attempts as int % 0x1_0000_0000);
        assert(a == t / d);
        assert(a * d <= t < (a + 1) * d) by (nonlinear_arith)
            requires
                d > 0,
                a == t / d,
        ;
        if a <= crate::stats::MAX_DURATION {
            let secs = (average(stats) / 1_000_000_000) as u64;
            let nanos = (average(stats) % 1_000_000_000) as u32;
            assert(average_text(stats) == duration_debug(secs, nanos));
        }
    }
}

/// Everything can be shown but a running test whose name cannot be cut, and a
/// test whose runs come to a multiple of what 32 bits count.
pub proof fn law_what_can_be_shown(v: AppView)
    ensures
        can_show(v) <==> {
            &&& forall|i: int|
                0 <= i < v.workers.len() ==> can_show_worker(#[trigger] v.workers[i])
            &&& forall|i: int|
                0 <= i < v.rows.len() ==> (#[trigger] v.rows[i]).1.attempts == 0
                    || v.rows[i].1.attempts as nat % 0x1_0000_0000 != 0
        },
        forall|i: int|
            0 <= i < v.workers.len() && !((#[trigger] v.workers[i]) is Running) ==> can_show_worker(
                v.workers[i],
            ),
        forall|i: int|
            0 <= i < v.workers.len() && (#[trigger] v.workers[i]) is Running
                && v.workers[i]->Running_test_path.file_name is Some ==> (can_show_worker(
                v.workers[i],
            ) <==> can_shorten(v.workers[i]->Running_test_path.file_name->0)),
        forall|i: int|
            0 <= i < v.workers.len() && (#[trigger] v.workers[i]) is Running
                && v.workers[i]->Running_test_path.file_name is None ==> (can_show_worker(
                v.workers[i],
            ) <==> can_shorten(".."@)),
{
}

} // verus!
