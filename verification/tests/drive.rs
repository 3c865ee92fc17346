use integration_aggressor::app::{App, RunState};
use integration_aggressor::args::Args;
use integration_aggressor::event::{AppEvent, Key};
use integration_aggressor::path::TestPath;
use integration_aggressor::worker::WorkerStatus;

fn app(workers: usize, tests: &[&str]) -> App {
    let args = Args {
        duration: Some(60),
        workers: Some(workers),
        test_dir: None,
        report_dir: "r".to_string(),
        tick_rate: 200,
        lldb_path: "lldb".to_string(),
    };
    App::new(args, tests.iter().map(|t| t.to_string()).collect(), None)
}

fn finished(worker_id: usize, path: &str, code: i32) -> AppEvent {
    AppEvent::WorkerFinished {
        worker_id,
        test_path: TestPath::of(path.to_string()),
        status: Ok(code),
        duration: 3,
        stdout: String::new(),
        stderr: String::new(),
    }
}

#[test]
fn the_beginning_is_announced() {
    let mut app = app(2, &["/t/a", "/t/b", "/t/c"]);
    app.announce();
    assert!(app.event_logs[0].ends_with("] Discovered 3 integration test binaries."));
    assert!(app.event_logs[1].ends_with("] Spawning 2 workers..."));
}

#[test]
fn the_table_is_scrolled_round() {
    let mut app = app(1, &["/t/a", "/t/b", "/t/c"]);
    app.scroll_table(-1);
    assert_eq!(app.selected_test, Some(2));
    app.scroll_table(1);
    assert_eq!(app.selected_test, Some(0));
    app.scroll_table(3);
    assert_eq!(app.selected_test, Some(0));
    app.scroll_table(-7);
    assert_eq!(app.selected_test, Some(2));
    app.scroll_table(7);
    assert_eq!(app.selected_test, Some(0));
}

#[test]
fn an_empty_table_is_not_scrolled() {
    let mut app = app(1, &[]);
    app.scroll_table(isize::MAX);
    app.scroll_logs(isize::MIN);
    assert_eq!((app.selected_test, app.selected_log), (None, None));
}

#[test]
fn the_log_is_scrolled_to_its_ends() {
    let mut app = app(1, &["/t/a"]);
    for _ in 0..8 {
        app.log("line".to_string());
    }
    app.scroll_logs(-5);
    assert_eq!(app.selected_log, Some(2));
    app.scroll_logs(-5);
    assert_eq!(app.selected_log, Some(0));
    app.scroll_logs(5);
    assert_eq!(app.selected_log, Some(5));
    app.scroll_logs(5);
    assert_eq!(app.selected_log, Some(7));
}

#[test]
fn keys_scroll_or_leave() {
    let mut app = app(1, &["/t/a", "/t/b"]);
    for _ in 0..8 {
        app.log("line".to_string());
    }
    assert!(!app.press_key(Key::Down));
    assert_eq!(app.selected_test, Some(1));
    assert!(!app.press_key(Key::Up));
    assert_eq!(app.selected_test, Some(0));
    assert!(!app.press_key(Key::PageUp));
    assert_eq!(app.selected_log, Some(2));
    assert!(!app.press_key(Key::PageDown));
    assert_eq!(app.selected_log, Some(7));
    assert!(!app.press_key(Key::Char('x')));
    assert!(!app.press_key(Key::Other));
    assert!(app.press_key(Key::Char('q')));
    assert!(app.handle_event(AppEvent::Key(Key::Char('q')), false).quit);
    assert!(!app.handle_event(AppEvent::Key(Key::Char('Q')), true).quit);
}

#[test]
fn a_tick_gives_out_jobs() {
    let mut app = app(2, &["/t/a"]);
    let step = app.handle_event(AppEvent::Tick, false);
    assert!(step.check_time && !step.quit);
    assert_eq!(step.commands.len(), 2);
    assert!(step.rerun.is_none() && step.hang.is_none());
    assert!(!app.is_all_idle());
}

#[test]
fn a_tick_out_of_time_waits_for_the_workers() {
    let mut app = app(2, &["/t/a"]);
    app.handle_event(AppEvent::Tick, false);
    let step = app.handle_event(AppEvent::Tick, true);
    assert!(step.commands.is_empty() && step.check_time && !step.quit);
    assert!(!app.end_when_idle(true));
    let step = app.handle_event(finished(0, "/t/a", 0), true);
    assert!(step.commands.is_empty() && !step.check_time);
    app.handle_event(AppEvent::WorkerAborted { worker_id: 1 }, true);
    assert!(app.is_all_idle());
    assert!(!app.end_when_idle(false));
    assert!(app.event_logs.is_empty());
    assert!(app.end_when_idle(true));
    assert!(app.event_logs[0].ends_with(
        "] Stress test duration reached. All workers idle. Exiting successfully."
    ));
}

#[test]
fn time_that_runs_out_during_a_tick_ends_nothing() {
    let mut app = app(1, &["/t/a"]);
    let step = app.handle_event(AppEvent::Tick, false);
    assert_eq!(step.commands.len(), 1);
    assert!(!app.end_when_idle(true) && app.event_logs.is_empty());
}

#[test]
fn no_worker_is_told_two_things() {
    let mut app = app(5, &["/t/a", "/t/b"]);
    let starts = app.handle_event(AppEvent::Tick, false).commands;
    let told: Vec<usize> = starts.iter().map(|c| c.worker).collect();
    assert_eq!(told, vec![0, 1, 2, 3, 4]);
    let suspected = AppEvent::WorkerSuspectedHang { worker_id: 2 };
    let isolation = app.handle_event(suspected, false).commands;
    let mut told: Vec<usize> = isolation.iter().map(|c| c.worker).collect();
    told.sort();
    assert_eq!(told, vec![0, 1, 2, 3, 4]);
}

#[test]
fn table_scrolls_add_up() {
    for (a, b) in [(1, 1), (-4, 2), (7, -9), (2, 5)] {
        let mut one = app(1, &["/t/a", "/t/b", "/t/c"]);
        let mut two = app(1, &["/t/a", "/t/b", "/t/c"]);
        one.scroll_table(a);
        one.scroll_table(b);
        two.scroll_table(a + b);
        assert_eq!(one.selected_test, two.selected_test);
    }
}

#[test]
fn a_finished_job_is_followed_by_the_next() {
    let mut app = app(1, &["/t/a", "/t/b"]);
    app.handle_event(AppEvent::Tick, false);
    let started = AppEvent::WorkerStarted {
        worker_id: 0,
        test_path: TestPath::of("/t/a".to_string()),
        pid: 5,
    };
    let step = app.handle_event(started, false);
    assert!(step.commands.is_empty() && !step.check_time);
    assert!(matches!(app.workers[0].status, WorkerStatus::Running { pid: 5, .. }));
    let step = app.handle_event(finished(0, "/t/a", 2), false);
    assert_eq!(step.commands.len(), 1);
    assert!(step.rerun.is_some() && !step.quit);
    assert!(matches!(
        &app.workers[0].status,
        WorkerStatus::Running { test_path, pid: 0, .. } if test_path.path == "/t/b"
    ));
    let step = app.handle_event(finished(0, "/t/b", 0), false);
    assert!(step.rerun.is_none());
}

#[test]
fn a_hang_is_led_to_its_report() {
    let mut app = app(2, &["/t/a", "/t/b"]);
    app.handle_event(AppEvent::Tick, false);
    let step = app.handle_event(AppEvent::WorkerSuspectedHang { worker_id: 0 }, false);
    assert_eq!(step.commands.len(), 2);
    let step = app.handle_event(AppEvent::WorkerAborted { worker_id: 1 }, false);
    assert!(step.commands.is_empty());
    assert_eq!(app.run_state, RunState::Isolating { suspect_worker_id: 0 });
    let confirmed = AppEvent::WorkerConfirmedHang {
        worker_id: 0,
        backtrace: "bt".to_string(),
        core_path: None,
    };
    let step = app.handle_event(confirmed, false);
    assert!(step.quit && step.commands.is_empty());
    assert_eq!(step.hang.unwrap().contents, "bt");
    assert_eq!(app.run_state, RunState::Terminated);
    let step = app.handle_event(AppEvent::Tick, false);
    assert!(step.commands.is_empty());
    assert_eq!(app.run_state, RunState::Terminated);
}

#[test]
fn log_messages_are_logged() {
    let mut app = app(1, &["/t/a"]);
    let step = app.handle_event(AppEvent::LogMessage("saved".to_string()), false);
    assert!(!step.quit && step.commands.is_empty());
    assert!(app.event_logs[0].ends_with("] saved"));
}

#[test]
fn events_of_unknown_workers_are_told_apart() {
    let mut app = app(1, &["/t/a"]);
    assert!(app.can_take(&AppEvent::Tick));
    assert!(app.can_take(&AppEvent::WorkerAborted { worker_id: 0 }));
    assert!(!app.can_take(&AppEvent::WorkerAborted { worker_id: 1 }));
    assert!(app.can_take(&finished(0, "/t/a", 0)));
    assert!(!app.can_take(&finished(9, "/t/a", 0)));
    let suspected = AppEvent::WorkerSuspectedHang { worker_id: 4 };
    assert!(!app.can_take(&suspected));
    app.run_state = RunState::Terminated;
    assert!(app.can_take(&suspected));
    let confirmed = AppEvent::WorkerConfirmedHang {
        worker_id: 0,
        backtrace: String::new(),
        core_path: None,
    };
    assert!(app.can_take(&confirmed));
    app.total_hangs = u64::MAX;
    assert!(!app.can_take(&confirmed));
}
