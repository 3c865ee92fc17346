use integration_aggressor::app::{App, RunState};
use integration_aggressor::args::Args;
use integration_aggressor::path::TestPath;
use integration_aggressor::screen::{test_pieces_of, PieceRow, Tone};
use integration_aggressor::stats::{TestRow, TestStats};

fn app(workers: usize, duration: Option<u64>, tests: &[&str]) -> App {
    let args = Args {
        duration,
        workers: Some(workers),
        test_dir: None,
        report_dir: "r".to_string(),
        tick_rate: 200,
        lldb_path: "lldb".to_string(),
    };
    App::new(args, tests.iter().map(|t| t.to_string()).collect(), None)
}

fn texts(row: &PieceRow) -> Vec<&str> {
    row.pieces.iter().map(|p| p.text.as_str()).collect()
}

fn tones(row: &PieceRow) -> Vec<Tone> {
    row.pieces.iter().map(|p| p.tone).collect()
}

#[test]
fn the_header_tells_how_it_is_going() {
    let app = app(1, Some(3661), &["/t/a"]);
    let header = app.draw(59, "12.5", "40.0").header;
    assert_eq!(
        texts(&header).concat(),
        "Status: NORMAL | Elapsed: 00:00:59 / 01:01:01 | Total Runs: 0 | Failures: 0 | \
         Hangs: 0 | CPU: 12.5% | MEM: 40.0%"
    );
    assert_eq!(
        tones(&header),
        vec![
            Tone::Plain,
            Tone::Normal,
            Tone::Plain,
            Tone::Plain,
            Tone::Plain,
            Tone::Plain,
            Tone::Failures,
            Tone::Hangs,
            Tone::Plain,
            Tone::Plain,
        ]
    );
}

#[test]
fn the_header_names_the_suspect() {
    let mut app = app(3, None, &["/t/a"]);
    app.schedule_jobs(false);
    app.handle_suspected_hang(2);
    let header = app.draw(360000, "0.0", "0.0").header;
    assert_eq!(header.pieces[1].text, "ISOLATING WORKER 2");
    assert_eq!(header.pieces[1].tone, Tone::Alarm);
    assert_eq!(header.pieces[3].text, "Elapsed: 100:00:00 / Indefinite");
    app.record_confirmed_hang(2);
    assert_eq!(app.run_state, RunState::Terminated);
    let header = app.draw(0, "0.0", "0.0").header;
    assert_eq!(header.pieces[1].text, "TERMINATED");
    assert_eq!(header.pieces[1].tone, Tone::Over);
    assert_eq!(header.pieces[7].text, "Hangs: 1 | ");
}

#[test]
fn workers_are_shown_column_after_column() {
    let app = app(6, None, &["/t/a"]);
    let workers = app.draw(0, "0.0", "0.0").workers;
    assert_eq!(workers.len(), 2);
    assert_eq!(texts(&workers[0]), vec![" 0: Idle", " 2: Idle", " 4: Idle", ""]);
    assert_eq!(texts(&workers[1]), vec![" 1: Idle", " 3: Idle", " 5: Idle", ""]);
    assert_eq!(
        tones(&workers[0]),
        vec![Tone::Idle, Tone::Idle, Tone::Idle, Tone::Plain]
    );
}

#[test]
fn every_worker_is_shown_once() {
    for n in 0..30 {
        let app = app(n, None, &["/t/a"]);
        let workers = app.draw(0, "0.0", "0.0").workers;
        assert_eq!(workers.len(), n.div_ceil(4));
        let mut shown: Vec<String> = Vec::new();
        for row in &workers {
            shown.extend(texts(row).iter().filter(|t| !t.is_empty()).map(|t| t.to_string()));
        }
        shown.sort();
        let expected: Vec<String> = (0..n).map(|i| format!("{i:2}: Idle")).collect();
        assert_eq!(shown, expected);
    }
}

#[test]
fn busy_workers_show_their_tests() {
    let mut app = app(12, None, &["/t/long_name.__build__", "/t/a", "/"]);
    app.schedule_jobs(false);
    app.handle_suspected_hang(0);
    let workers = app.draw(0, "0.0", "0.0").workers;
    assert_eq!(workers[0].pieces[0].text, " 0: ISO long_name.__build__");
    assert_eq!(workers[0].pieces[0].tone, Tone::Suspect);
    assert_eq!(workers[0].pieces[1].text, " 3: RUN long_name.");
    assert_eq!(workers[0].pieces[1].tone, Tone::Busy);
    assert_eq!(workers[1].pieces[0].text, " 1: RUN a");
    assert_eq!(workers[1].pieces[3].text, "10: RUN a");
    assert_eq!(workers[2].pieces[0].text, " 2: RUN ..");
}

#[test]
fn tests_show_their_counters() {
    let mut app = app(1, None, &["/t/b", "/t/a"]);
    app.record_finished(0, &TestPath::of("/t/b".to_string()), &Ok(0), 1_250_000_000);
    app.record_finished(0, &TestPath::of("/t/b".to_string()), &Ok(3), 1_750_000_000);
    let tests = app.draw(0, "0.0", "0.0").tests;
    assert_eq!(texts(&tests[0]), vec!["a", "0", "0", "0", "0", "-"]);
    assert_eq!(tones(&tests[0]), vec![Tone::Plain; 6]);
    assert_eq!(texts(&tests[1]), vec!["b", "2", "1", "1", "0", "1.50s"]);
    assert_eq!(tests[1].pieces[3].tone, Tone::Failures);
    assert_eq!(tests[1].pieces[4].tone, Tone::Plain);
}

#[test]
fn averages_are_written_with_their_unit() {
    for (total, runs, expected) in [
        (1_500_000_000, 1, "1.50s"),
        (5_000_000, 2, "2.50ms"),
        (7_000, 4, "1.75µs"),
        (10, 3, "3.00ns"),
        (3_723_000_000_000, 1, "3723.00s"),
    ] {
        let mut app = app(1, None, &["/t/a"]);
        app.test_stats.rows[0].stats = TestStats {
            attempts: runs,
            successes: runs,
            failures: 0,
            hangs: 0,
            total_duration: total,
        };
        app.total_attempts = runs;
        assert_eq!(app.draw(0, "0.0", "0.0").tests[0].pieces[5].text, expected);
    }
}

#[test]
fn a_row_shows_the_average_it_is_given() {
    let test = TestRow {
        test: TestPath::of("/".to_string()),
        stats: TestStats {
            attempts: 12,
            successes: 10,
            failures: 2,
            hangs: 1,
            total_duration: 0,
        },
    };
    let row = test_pieces_of(&test, "soon".to_string());
    assert_eq!(texts(&row), vec!["/", "12", "10", "2", "1", "soon"]);
    assert_eq!(row.pieces[3].tone, Tone::Failures);
    assert_eq!(row.pieces[4].tone, Tone::Hangs);
}

#[test]
fn what_cannot_be_drawn_is_told() {
    let mut fine = app(1, None, &["/t/012345678é9"]);
    assert!(fine.can_draw());
    fine.schedule_jobs(false);
    assert!(!fine.can_draw());
    let mut many = app(1, None, &["/t/a"]);
    many.test_stats.rows[0].stats.attempts = 1 << 32;
    assert!(!many.can_draw());
    many.test_stats.rows[0].stats.attempts = (1 << 32) + 1;
    assert!(many.can_draw());
}
