use integration_aggressor::debugger::Output;
use integration_aggressor::event::AppEvent;
use integration_aggressor::path::TestPath;
use integration_aggressor::worker::{
    outcome_of, ExitInfo, Phase, Worker, WorkerAction, WorkerCmd, WorkerInput,
};

fn start(path: &str) -> WorkerInput {
    WorkerInput::Command(WorkerCmd::StartJob {
        test_path: TestPath::of(path.to_string()),
    })
}

fn exited(code: i32) -> WorkerInput {
    WorkerInput::Exited {
        status: Ok(ExitInfo {
            success: code == 0,
            code: Some(code),
        }),
        duration: 77,
        output: Output {
            stdout: b"o\xff".to_vec(),
            stderr: b"e".to_vec(),
        },
    }
}

fn watching() -> Worker {
    let mut worker = Worker::new(3, "r".to_string());
    worker.step(start("/t/a"));
    worker.step(WorkerInput::Spawned(Some(9)));
    worker
}

fn suspected() -> Worker {
    let mut worker = watching();
    worker.step(WorkerInput::TimedOut);
    worker
}

fn isolated() -> Worker {
    let mut worker = suspected();
    worker.step(WorkerInput::Command(WorkerCmd::ProceedIsolation));
    worker
}

fn show(actions: &[WorkerAction]) -> String {
    format!("{actions:?}")
}

const ABORTED: &str = "[Send(WorkerAborted { worker_id: 3 })]";
const KILLED: &str = "[Kill, Send(WorkerAborted { worker_id: 3 })]";
const FINISHED: &str = "[Send(WorkerFinished { worker_id: 3, test_path: TestPath { path: \"/t/a\", file_name: Some(\"a\") }, \
    status: Ok(1), duration: 77, stdout: \"o\u{fffd}\", stderr: \"e\" })]";

#[test]
fn outcomes_are_exit_codes() {
    let exit = |success, code| Ok(ExitInfo { success, code });
    assert_eq!(outcome_of(exit(true, Some(0))), Ok(0));
    assert_eq!(outcome_of(exit(false, Some(139))), Ok(139));
    assert_eq!(outcome_of(exit(false, None)), Ok(-1));
    assert_eq!(outcome_of(exit(true, Some(5))), Ok(0));
    assert_eq!(outcome_of(Err("gone".to_string())), Err("gone".to_string()));
}

#[test]
fn a_job_runs_to_its_end() {
    let mut worker = Worker::new(3, "r".to_string());
    assert_eq!(show(&worker.step(start("/t/a"))), "[Spawn(TestPath { path: \"/t/a\", file_name: Some(\"a\") })]");
    assert!(matches!(worker.phase, Phase::Starting { .. }));
    assert_eq!(
        show(&worker.step(WorkerInput::Spawned(Some(9)))),
        "[Send(WorkerStarted { worker_id: 3, test_path: TestPath { path: \"/t/a\", file_name: Some(\"a\") }, pid: 9 })]"
    );
    assert!(matches!(worker.phase, Phase::Watching { pid: 9, .. }));
    assert_eq!(show(&worker.step(exited(1))), FINISHED);
    assert!(matches!(worker.phase, Phase::Waiting));
}

#[test]
fn a_process_without_identifier_is_zero() {
    let mut worker = Worker::new(0, String::new());
    worker.step(start("/t/a"));
    let actions = worker.step(WorkerInput::Spawned(None));
    assert!(matches!(
        actions[0],
        WorkerAction::Send(AppEvent::WorkerStarted { pid: 0, .. })
    ));
}

#[test]
fn a_process_that_does_not_start_is_over() {
    let mut worker = Worker::new(3, "r".to_string());
    worker.step(start("/t/a"));
    assert_eq!(
        show(&worker.step(WorkerInput::SpawnFailed("denied".to_string()))),
        "[Send(WorkerFinished { worker_id: 3, test_path: TestPath { path: \"/t/a\", file_name: Some(\"a\") }, status: Err(\"denied\"), \
         duration: 0, stdout: \"\", stderr: \"\" })]"
    );
    assert!(matches!(worker.phase, Phase::Waiting));
}

#[test]
fn a_waiting_worker_answers_a_kill() {
    let mut worker = Worker::new(3, "r".to_string());
    let kill = WorkerInput::Command(WorkerCmd::Kill);
    assert_eq!(show(&worker.step(kill)), ABORTED);
    let proceed = WorkerInput::Command(WorkerCmd::ProceedIsolation);
    assert!(worker.step(proceed).is_empty());
    assert!(matches!(worker.phase, Phase::Waiting));
}

#[test]
fn a_waiting_worker_stops_when_commands_end() {
    let mut worker = Worker::new(3, "r".to_string());
    assert_eq!(show(&worker.step(WorkerInput::Closed)), "[Stop]");
    assert!(matches!(worker.phase, Phase::Stopped));
    assert!(worker.step(start("/t/a")).is_empty());
}

#[test]
fn a_killed_job_is_given_up() {
    let mut first = watching();
    assert_eq!(show(&first.step(WorkerInput::Command(WorkerCmd::Kill))), KILLED);
    let mut second = isolated();
    assert_eq!(show(&second.step(WorkerInput::Command(WorkerCmd::Kill))), KILLED);
    assert!(matches!(second.phase, Phase::Waiting));
}

#[test]
fn another_command_lets_the_process_go() {
    let mut first = watching();
    assert_eq!(show(&first.step(start("/t/b"))), "[Release]");
    assert!(matches!(first.phase, Phase::Waiting));
    let mut second = isolated();
    let proceed = WorkerInput::Command(WorkerCmd::ProceedIsolation);
    assert_eq!(show(&second.step(proceed)), "[Release]");
}

#[test]
fn a_watched_job_outlives_its_commands() {
    let mut worker = watching();
    assert!(worker.step(WorkerInput::Closed).is_empty());
    assert!(matches!(worker.phase, Phase::Watching { .. }));
}

#[test]
fn a_slow_job_is_suspected() {
    let mut worker = watching();
    assert_eq!(
        show(&worker.step(WorkerInput::TimedOut)),
        "[Send(WorkerSuspectedHang { worker_id: 3 })]"
    );
    assert!(matches!(worker.phase, Phase::Suspected { .. }));
}

#[test]
fn a_suspected_job_goes_on_only_by_command() {
    for input in [
        WorkerInput::Command(WorkerCmd::Kill),
        start("/t/b"),
        WorkerInput::Closed,
    ] {
        let mut worker = suspected();
        assert_eq!(show(&worker.step(input)), KILLED);
        assert!(matches!(worker.phase, Phase::Waiting));
    }
    let mut worker = suspected();
    let proceed = WorkerInput::Command(WorkerCmd::ProceedIsolation);
    assert!(worker.step(proceed).is_empty());
    assert!(matches!(worker.phase, Phase::Isolated { pid: 9, .. }));
}

#[test]
fn an_isolated_job_may_still_end() {
    let mut worker = isolated();
    assert_eq!(show(&worker.step(exited(1))), FINISHED);
}

#[test]
fn a_hang_is_confirmed_after_two_time_limits() {
    let mut worker = isolated();
    let actions = worker.step_at(WorkerInput::TimedOut, "20240102_030405");
    assert_eq!(
        show(&actions),
        "[Capture([\"-p\", \"9\", \"--batch\", \"-o\", \"thread backtrace all\", \"-o\", \
         \"process save-core r/core_a_20240102_030405.core\", \"-o\", \"quit\"])]"
    );
    assert_eq!(
        show(&worker.step(WorkerInput::Captured(Some("frames".to_string())))),
        "[Send(WorkerConfirmedHang { worker_id: 3, backtrace: \"frames\", \
         core_path: Some(\"r/core_a_20240102_030405.core\") })]"
    );
    assert!(matches!(worker.phase, Phase::Waiting));
}

#[test]
fn a_core_is_named_after_the_present_moment() {
    let mut worker = isolated();
    worker.step(WorkerInput::TimedOut);
    match &worker.phase {
        Phase::Capturing { core_path } => {
            assert!(core_path.starts_with("r/core_a_2"));
            assert!(core_path.ends_with(".core"));
            assert_eq!(core_path.len(), "r/core_a_20240102_030405.core".len());
        }
        phase => panic!("{phase:?}"),
    }
}

#[test]
fn a_debugger_without_output_is_told() {
    let mut worker = isolated();
    worker.step(WorkerInput::TimedOut);
    let actions = worker.step(WorkerInput::Captured(None));
    match &actions[0] {
        WorkerAction::Send(AppEvent::WorkerConfirmedHang { backtrace, .. }) => {
            assert_eq!(backtrace, "Failed to capture backtrace");
        }
        action => panic!("{action:?}"),
    }
}

#[test]
fn no_job_is_lost_on_the_way() {
    let mut worker = Worker::new(0, "r".to_string());
    let mut spawned = 0;
    let mut over = 0;
    let inputs = vec![
        start("/t/a"),
        WorkerInput::Spawned(Some(1)),
        exited(0),
        start("/t/b"),
        WorkerInput::SpawnFailed("x".to_string()),
        start("/t/c"),
        WorkerInput::Spawned(Some(2)),
        start("/t/d"),
        start("/t/e"),
        WorkerInput::Spawned(Some(3)),
        WorkerInput::TimedOut,
        WorkerInput::Command(WorkerCmd::Kill),
    ];
    for input in inputs {
        for action in worker.step(input) {
            match action {
                WorkerAction::Spawn(_) => spawned += 1,
                WorkerAction::Release
                | WorkerAction::Send(AppEvent::WorkerFinished { .. })
                | WorkerAction::Send(AppEvent::WorkerAborted { .. }) => over += 1,
                _ => {}
            }
        }
    }
    assert_eq!((spawned, over), (4, 4));
}
