use integration_aggressor::app::{App, Dispatch, RunState, MAX_LOGS};
use integration_aggressor::args::Args;
use integration_aggressor::path::TestPath;
use integration_aggressor::worker::{WorkerCmd, WorkerStatus};
use std::time::Instant;

fn args(workers: Option<usize>) -> Args {
    Args {
        duration: None,
        workers,
        test_dir: None,
        report_dir: "reports".to_string(),
        tick_rate: 200,
        lldb_path: "lldb".to_string(),
    }
}

fn app(workers: usize, tests: &[&str]) -> App {
    let tests: Vec<String> = tests.iter().map(|t| t.to_string()).collect();
    App::new(args(Some(workers)), tests, None)
}

fn test_at(path: &str) -> TestPath {
    TestPath::of(path.to_string())
}

fn shown_jobs(app: &App) -> Vec<&str> {
    app.workers
        .iter()
        .map(|w| match &w.status {
            WorkerStatus::Idle => "idle",
            WorkerStatus::Running { test_path, .. } => test_path.path.as_str(),
            WorkerStatus::Isolating { .. } => "isolating",
        })
        .collect()
}

fn show(commands: &[Dispatch]) -> Vec<String> {
    commands
        .iter()
        .map(|c| match &c.cmd {
            WorkerCmd::StartJob { test_path } => format!("{} starts {}", c.worker, test_path.path),
            WorkerCmd::ProceedIsolation => format!("{} proceeds", c.worker),
            WorkerCmd::Kill => format!("{} stops", c.worker),
        })
        .collect()
}

fn messages(app: &App) -> Vec<&str> {
    app.event_logs.iter().map(|line| &line[11..]).collect()
}

#[test]
fn a_new_stress_test_has_not_begun() {
    let app = app(3, &["/t/b", "/t/a"]);
    assert_eq!(app.workers.len(), 3);
    assert!(app.workers.iter().enumerate().all(|(i, w)| w.id == i));
    assert_eq!(shown_jobs(&app), vec!["idle", "idle", "idle"]);
    assert_eq!(app.test_binaries, vec![test_at("/t/b"), test_at("/t/a")]);
    assert_eq!(app.test_stats.rows[0].test.path, "/t/a");
    assert_eq!(app.next_test_idx, 0);
    assert_eq!((app.total_attempts, app.total_failures, app.total_hangs), (0, 0, 0));
    assert_eq!(app.run_state, RunState::Running);
    assert!(app.event_logs.is_empty());
    assert_eq!(app.selected_test, Some(0));
    assert_eq!(app.selected_log, None);
    assert_eq!(app.args.tick_rate, 200);
    assert!(app.start_time <= Instant::now());
}

#[test]
fn without_tests_nothing_is_selected() {
    let app = App::new(args(None), Vec::new(), Some(2));
    assert_eq!(app.selected_test, None);
    assert_eq!(app.workers.len(), 2);
    assert_eq!(App::new(args(None), Vec::new(), None).workers.len(), 4);
}

#[test]
fn log_lines_carry_the_time_of_day() {
    let mut app = app(1, &["/t/a"]);
    app.log_at("12:34:56", "hello");
    assert_eq!(app.event_logs, vec!["[12:34:56] hello"]);
    assert_eq!(app.selected_log, Some(0));
    app.log("again".to_string());
    let line = &app.event_logs[1];
    assert_eq!(line.len(), "[12:34:56] again".len());
    assert!(line.starts_with('[') && line.ends_with("] again"));
    assert!(line[1..3].parse::<u32>().unwrap() < 24);
    assert_eq!(app.selected_log, Some(1));
}

#[test]
fn a_thousand_log_lines_are_kept() {
    let mut app = app(1, &["/t/a"]);
    for i in 0..MAX_LOGS + 2 {
        app.log_at("00:00:00", &i.to_string());
    }
    assert_eq!(app.event_logs.len(), 1000);
    assert_eq!(app.event_logs[0], "[00:00:00] 2");
    assert_eq!(app.event_logs[999], "[00:00:00] 1001");
    assert_eq!(app.selected_log, Some(999));
}

#[test]
fn many_messages_are_logged_in_order() {
    let mut app = app(1, &["/t/a"]);
    app.log_all(&vec!["one".to_string(), "two".to_string()]);
    assert_eq!(messages(&app), vec!["one", "two"]);
    app.log_all(&Vec::new());
    assert_eq!(app.event_logs.len(), 2);
}

#[test]
fn jobs_go_round() {
    let mut app = app(1, &["/t/a", "/t/b", "/t/c"]);
    let jobs: Vec<String> = (0..5).map(|_| app.get_next_job().path).collect();
    assert_eq!(jobs, vec!["/t/a", "/t/b", "/t/c", "/t/a", "/t/b"]);
    assert_eq!(app.next_test_idx, 2);
}

#[test]
fn idle_workers_are_given_jobs() {
    let mut app = app(3, &["/t/a", "/t/b"]);
    let commands = app.schedule_jobs(false);
    assert_eq!(
        show(&commands),
        vec!["0 starts /t/a", "1 starts /t/b", "2 starts /t/a"]
    );
    assert_eq!(shown_jobs(&app), vec!["/t/a", "/t/b", "/t/a"]);
    assert!(app.schedule_jobs(false).is_empty());
    app.handle_worker_aborted(1);
    assert_eq!(show(&app.schedule_jobs(false)), vec!["1 starts /t/b"]);
    assert_eq!(app.next_test_idx, 0);
}

#[test]
fn a_job_starts_at_its_moment() {
    let mut app = app(2, &["/t/a", "/t/b"]);
    let moment = Instant::now();
    let command = app.start_job_at(1, moment);
    assert_eq!(show(&[command]), vec!["1 starts /t/a"]);
    assert_eq!(
        app.workers[1].status,
        WorkerStatus::Running {
            test_path: test_at("/t/a"),
            pid: 0,
            start_time: moment
        }
    );
    assert_eq!(app.workers[0].status, WorkerStatus::Idle);
}

#[test]
fn no_jobs_are_given_out_of_time() {
    let mut app = app(2, &["/t/a"]);
    assert!(app.schedule_jobs(true).is_empty());
    assert_eq!(shown_jobs(&app), vec!["idle", "idle"]);
    app.run_state = RunState::Terminated;
    assert!(app.schedule_jobs(false).is_empty());
}

#[test]
fn a_started_process_is_shown() {
    let mut app = app(2, &["/t/a"]);
    let moment = Instant::now();
    app.start_job_at(0, moment);
    app.handle_worker_started(0, test_at("/t/a"), 77);
    assert_eq!(
        app.workers[0].status,
        WorkerStatus::Running {
            test_path: test_at("/t/a"),
            pid: 77,
            start_time: moment
        }
    );
    app.handle_worker_started(1, test_at("/t/a"), 78);
    assert_eq!(app.workers[1].status, WorkerStatus::Idle);
}

#[test]
fn a_success_is_counted() {
    let mut app = app(1, &["/t/a"]);
    app.schedule_jobs(false);
    let rerun = app.handle_worker_finished(
        0,
        test_at("/t/a"),
        Ok(0),
        1_000,
        String::new(),
        String::new(),
    );
    assert!(rerun.is_none());
    assert!(app.event_logs.is_empty());
    let stats = app.test_stats.rows[0].stats;
    assert_eq!((stats.attempts, stats.successes, stats.failures), (1, 1, 0));
    assert_eq!(stats.total_duration, 1_000);
    assert_eq!((app.total_attempts, app.total_failures), (1, 0));
    assert_eq!(app.workers[0].status, WorkerStatus::Idle);
}

#[test]
fn a_failure_is_rerun_under_the_debugger() {
    let mut app = app(1, &["/t/a"]);
    app.schedule_jobs(false);
    let failed = Ok(139);
    let path = test_at("/t/a");
    let job = app
        .handle_worker_finished(0, path, failed, 5, String::new(), String::new())
        .unwrap();
    assert_eq!(
        messages(&app),
        vec!["Worker 0 - test 'a' failed (exit code 139). Rerunning with LLDB..."]
    );
    assert_eq!(job.lldb_path, "lldb");
    assert_eq!(job.args.last().unwrap(), "/t/a");
    assert!(job.report_path.starts_with("reports/crash_a_2"));
    assert!(job.report_path.ends_with(".log"));
    assert_eq!((app.total_attempts, app.total_failures), (1, 1));
    assert_eq!(app.test_stats.rows[0].stats.failures, 1);
}

#[test]
fn a_crash_is_a_failure() {
    let mut app = app(1, &["/t/a"]);
    let run = app.record_finished(0, &test_at("/t/a"), &Err("no such file".to_string()), 0);
    assert!(run.failed);
    assert_eq!(
        run.messages,
        vec!["Worker 0 - test 'a' crashed: no such file. Rerunning with LLDB..."]
    );
    let run = app.record_finished(0, &test_at("/t/a"), &Ok(-1), 0);
    assert_eq!(
        run.messages,
        vec!["Worker 0 - test 'a' failed (exit code -1). Rerunning with LLDB..."]
    );
    assert_eq!(app.total_failures, 2);
}

#[test]
fn an_unknown_test_is_not_counted() {
    let mut app = app(1, &["/t/a"]);
    app.schedule_jobs(false);
    let run = app.record_finished(0, &test_at("/t/x"), &Ok(1), 5);
    assert!(!run.failed && run.messages.is_empty());
    assert_eq!(app.total_attempts, 0);
    assert_eq!(app.workers[0].status, WorkerStatus::Idle);
}

#[test]
fn a_suspect_is_left_alone() {
    let mut app = app(4, &["/t/a", "/t/b"]);
    app.schedule_jobs(false);
    app.handle_worker_aborted(3);
    let commands = app.handle_suspected_hang(1);
    assert_eq!(show(&commands), vec!["1 proceeds", "0 stops", "2 stops"]);
    assert_eq!(
        messages(&app),
        vec!["[SUSPECT HANG] Worker 1 running 'b' has timed out. Isolating..."]
    );
    assert_eq!(app.run_state, RunState::Isolating { suspect_worker_id: 1 });
    assert_eq!(shown_jobs(&app), vec!["/t/a", "isolating", "/t/a", "idle"]);
    assert!(app.schedule_jobs(false).is_empty());
    assert!(app.handle_suspected_hang(2).is_empty());
    assert_eq!(app.event_logs.len(), 1);
}

#[test]
fn an_idle_worker_is_not_suspected() {
    let mut app = app(1, &["/t/a"]);
    let (messages, commands) = app.record_suspected(0);
    assert!(messages.is_empty() && commands.is_empty());
    assert_eq!(app.run_state, RunState::Running);
}

#[test]
fn a_false_alarm_lets_the_others_go_on() {
    let mut app = app(2, &["/t/a", "/t/b"]);
    app.schedule_jobs(false);
    app.handle_suspected_hang(0);
    let path = test_at("/t/b");
    app.handle_worker_finished(1, path, Ok(0), 1, String::new(), String::new());
    assert_eq!(app.run_state, RunState::Isolating { suspect_worker_id: 0 });
    let path = test_at("/t/a");
    let rerun = app.handle_worker_finished(0, path, Ok(1), 1, String::new(), String::new());
    assert!(rerun.is_some());
    assert_eq!(app.run_state, RunState::Running);
    assert_eq!(
        messages(&app)[1..],
        [
            "Worker 0 - test 'a' failed (exit code 1). Rerunning with LLDB...",
            "Worker 0 - suspected hang on 'a' was a false positive. Resuming..."
        ]
    );
    assert_eq!(app.schedule_jobs(false).len(), 2);
}

#[test]
fn a_confirmed_hang_ends_the_stress_test() {
    let mut app = app(2, &["/t/a", "/t/b"]);
    app.schedule_jobs(false);
    app.handle_suspected_hang(1);
    let report =
        app.handle_worker_confirmed_hang(1, "frames".to_string(), Some("c.core".to_string()));
    assert_eq!(app.run_state, RunState::Terminated);
    assert_eq!(app.total_hangs, 1);
    assert_eq!(app.test_stats.rows[1].stats.hangs, 1);
    assert_eq!(app.test_stats.rows[0].stats.hangs, 0);
    assert_eq!(messages(&app)[1], "Worker 1 - CONFIRMED HANG on 'b'!");
    assert_eq!(report.report_dir, "reports");
    assert!(report.report_path.starts_with("reports/hang_b_2"));
    assert_eq!(report.contents, "frames");
    assert!(report.console.contains("Executable path: /t/b\n"));
    assert!(report.console.contains("Core dump written to: c.core\n"));
    assert!(app.handle_suspected_hang(0).is_empty());
}

#[test]
fn a_hang_out_of_isolation_has_no_name() {
    let mut app = app(1, &["/t/a"]);
    assert_eq!(app.record_confirmed_hang(0), test_at("unknown"));
    assert_eq!(app.total_hangs, 1);
    assert_eq!(app.test_stats.rows[0].stats.hangs, 0);
}

#[test]
fn the_end_of_a_job_needs_a_worker_and_room() {
    let mut app = app(1, &["/t/a"]);
    assert!(app.can_take_finish(0, &test_at("/t/a"), 5));
    assert!(!app.can_take_finish(1, &test_at("/t/a"), 5));
    assert!(!app.can_take_finish(0, &test_at("/t/a"), u128::MAX));
    assert!(app.can_take_finish(0, &test_at("/t/x"), u128::MAX));
    app.total_attempts = u64::MAX;
    assert!(!app.can_take_finish(0, &test_at("/t/a"), 5));
}

#[test]
fn runs_are_successes_or_failures() {
    let mut app = app(1, &["/t/a", "/t/b"]);
    for (path, code) in [("/t/a", 0), ("/t/b", 1), ("/t/a", 7), ("/t/a", 0)] {
        app.record_finished(0, &test_at(path), &Ok(code), 1);
    }
    let successes: u64 = app.test_stats.rows.iter().map(|r| r.stats.successes).sum();
    let attempts: u64 = app.test_stats.rows.iter().map(|r| r.stats.attempts).sum();
    assert_eq!(app.total_attempts, attempts);
    assert_eq!(app.total_attempts, successes + app.total_failures);
    assert_eq!((app.total_attempts, app.total_failures), (4, 2));
}
