//! Workers: what each of them is doing, and how one takes a job to its end.

use crate::clock::{date_stamp_now, date_stamp_text, is_date_stamp};
use crate::debugger::{
    backtrace_arg_list, backtrace_args, output_texts, report_file, report_file_path, utf8_lossy,
    Output,
};
use crate::event::{AppEvent, EventView};
use crate::order::texts;
use crate::path::{shown_name, TestPath, TestView};
use crate::text::optional_text;
use std::time::Instant;
use vstd::prelude::*;
use vstd::string::*;

verus! {

/// What a worker is doing.
#[derive(Debug, PartialEq)]
pub enum WorkerStatus {
    /// It waits for a job.
    Idle,
    /// It runs a test; the process is 0 as long as it is not known.
    Running { test_path: TestPath, pid: u32, start_time: Instant },
    /// It runs a suspect test while the other workers are held.
    Isolating { test_path: TestPath, pid: u32, start_time: Instant },
}

/// What a worker is doing, with the path as its text.
pub enum StatusView {
    Idle,
    Running { test_path: TestView, pid: u32, start_time: Instant },
    Isolating { test_path: TestView, pid: u32, start_time: Instant },
}

impl View for WorkerStatus {
    type V = StatusView;

    open spec fn view(&self) -> StatusView {
        match *self {
            WorkerStatus::Idle => StatusView::Idle,
            WorkerStatus::Running { test_path, pid, start_time } => StatusView::Running {
                test_path: test_path@,
                pid,
                start_time,
            },
            WorkerStatus::Isolating { test_path, pid, start_time } => StatusView::Isolating {
                test_path: test_path@,
                pid,
                start_time,
            },
        }
    }
}

impl Clone for WorkerStatus {
    fn clone(&self) -> (copy: WorkerStatus)
        ensures
            copy@ == self@,
    {
        match self {
            WorkerStatus::Idle => WorkerStatus::Idle,
            WorkerStatus::Running { test_path, pid, start_time } => WorkerStatus::Running {
                test_path: test_path.clone(),
                pid: *pid,
                start_time: *start_time,
            },
            WorkerStatus::Isolating { test_path, pid, start_time } => WorkerStatus::Isolating {
                test_path: test_path.clone(),
                pid: *pid,
                start_time: *start_time,
            },
        }
    }
}

/// A worker and what it is doing.
#[derive(Debug)]
pub struct WorkerState {
    pub id: usize,
    pub status: WorkerStatus,
}

/// What a worker is told to do.
#[derive(Debug)]
pub enum WorkerCmd {
    /// Run a test.
    StartJob { test_path: TestPath },
    /// Go on watching the suspect test.
    ProceedIsolation,
    /// Give up the job.
    Kill,
}

/// What a worker is told to do, with the path as its text.
pub enum CmdView {
    StartJob { test_path: TestView },
    ProceedIsolation,
    Kill,
}

impl View for WorkerCmd {
    type V = CmdView;

    open spec fn view(&self) -> CmdView {
        match *self {
            WorkerCmd::StartJob { test_path } => CmdView::StartJob { test_path: test_path@ },
            WorkerCmd::ProceedIsolation => CmdView::ProceedIsolation,
            WorkerCmd::Kill => CmdView::Kill,
        }
    }
}

impl Clone for WorkerCmd {
    fn clone(&self) -> (copy: WorkerCmd)
        ensures
            copy@ == self@,
    {
        match self {
            WorkerCmd::StartJob { test_path } => WorkerCmd::StartJob {
                test_path: test_path.clone(),
            },
            WorkerCmd::ProceedIsolation => WorkerCmd::ProceedIsolation,
            WorkerCmd::Kill => WorkerCmd::Kill,
        }
    }
}

/// How a process ended.
#[derive(Clone, Copy, Debug, PartialEq, Eq, Structural)]
pub struct ExitInfo {
    /// It ended as a success.
    pub success: bool,
    /// Its exit code; there is none where a signal ended it.
    pub code: Option<i32>,
}

/// The outcome of a run: 0 for a success, else the exit code, or -1 where there
/// is none; an error where the end could not be awaited.
pub open spec fn outcome(status: Result<ExitInfo, Seq<char>>) -> Result<i32, Seq<char>> {
    match status {
        Ok(info) => Ok(
            if info.success {
                0
            } else {
                match info.code {
                    Some(code) => code,
                    None => (-1) as i32,
                }
            },
        ),
        Err(error) => Err(error),
    }
}

/// How a process ended, with the error as its text.
pub open spec fn exit_view(status: Result<ExitInfo, String>) -> Result<ExitInfo, Seq<char>> {
    match status {
        Ok(info) => Ok(info),
        Err(error) => Err(error@),
    }
}

/// The outcome of a run.
pub fn outcome_of(status: Result<ExitInfo, String>) -> (result: Result<i32, String>)
    ensures
        crate::event::outcome_view(result) == outcome(exit_view(status)),
{
    match status {
        Ok(info) => {
            if info.success {
                Ok(0)
            } else {
                match info.code {
                    Some(code) => Ok(code),
                    None => Ok(-1),
                }
            }
        },
        Err(error) => Err(error),
    }
}

/// How far a worker has come with its job.
#[derive(Debug)]
pub enum Phase {
    /// There is no job.
    Waiting,
    /// The process is being started.
    Starting { test_path: TestPath },
    /// The process runs, and its time limit too.
    Watching { test_path: TestPath, pid: u32 },
    /// The time limit has passed; it is to be decided what is done about it.
    Suspected { test_path: TestPath, pid: u32 },
    /// The process has been given its time limit once more.
    Isolated { test_path: TestPath, pid: u32 },
    /// The time limit has passed again; the debugger looks at the process.
    Capturing { core_path: String },
    /// There are no more commands.
    Stopped,
}

/// How far a worker has come with its job, with strings as texts.
pub enum PhaseView {
    Waiting,
    Starting { test_path: TestView },
    Watching { test_path: TestView, pid: u32 },
    Suspected { test_path: TestView, pid: u32 },
    Isolated { test_path: TestView, pid: u32 },
    Capturing { core_path: Seq<char> },
    Stopped,
}

impl View for Phase {
    type V = PhaseView;

    open spec fn view(&self) -> PhaseView {
        match *self {
            Phase::Waiting => PhaseView::Waiting,
            Phase::Starting { test_path } => PhaseView::Starting { test_path: test_path@ },
            Phase::Watching { test_path, pid } => PhaseView::Watching {
                test_path: test_path@,
                pid,
            },
            Phase::Suspected { test_path, pid } => PhaseView::Suspected {
                test_path: test_path@,
                pid,
            },
            Phase::Isolated { test_path, pid } => PhaseView::Isolated {
                test_path: test_path@,
                pid,
            },
            Phase::Capturing { core_path } => PhaseView::Capturing { core_path: core_path@ },
            Phase::Stopped => PhaseView::Stopped,
        }
    }
}

impl Clone for Phase {
    fn clone(&self) -> (copy: Phase)
        ensures
            copy@ == self@,
    {
        match self {
            Phase::Waiting => Phase::Waiting,
            Phase::Starting { test_path } => Phase::Starting { test_path: test_path.clone() },
            Phase::Watching { test_path, pid } => Phase::Watching {
                test_path: test_path.clone(),
                pid: *pid,
            },
            Phase::Suspected { test_path, pid } => Phase::Suspected {
                test_path: test_path.clone(),
                pid: *pid,
            },
            Phase::Isolated { test_path, pid } => Phase::Isolated {
                test_path: test_path.clone(),
                pid: *pid,
            },
            Phase::Capturing { core_path } => Phase::Capturing { core_path: core_path.clone() },
            Phase::Stopped => Phase::Stopped,
        }
    }
}

/// What a worker learns.
#[derive(Debug)]
pub enum WorkerInput {
    /// A command has come.
    Command(WorkerCmd),
    /// No command will come any more.
    Closed,
    /// The process could not be started.
    SpawnFailed(String),
    /// The process was started, with this identifier.
    Spawned(Option<u32>),
    /// The process has ended; the duration is in nanoseconds.
    Exited { status: Result<ExitInfo, String>, duration: u128, output: Output },
    /// The time limit has passed.
    TimedOut,
    /// The debugger is done.
    Captured(Option<String>),
}

/// What a worker learns, with strings as texts.
pub enum InputView {
    Command(CmdView),
    Closed,
    SpawnFailed(Seq<char>),
    Spawned(Option<u32>),
    Exited {
        status: Result<ExitInfo, Seq<char>>,
        duration: u128,
        stdout: Seq<u8>,
        stderr: Seq<u8>,
    },
    TimedOut,
    Captured(Option<Seq<char>>),
}

impl View for WorkerInput {
    type V = InputView;

    open spec fn view(&self) -> InputView {
        match *self {
            WorkerInput::Command(cmd) => InputView::Command(cmd@),
            WorkerInput::Closed => InputView::Closed,
            WorkerInput::SpawnFailed(error) => InputView::SpawnFailed(error@),
            WorkerInput::Spawned(pid) => InputView::Spawned(pid),
            WorkerInput::Exited { status, duration, output } => InputView::Exited {
                status: exit_view(status),
                duration,
                stdout: output.stdout@,
                stderr: output.stderr@,
            },
            WorkerInput::TimedOut => InputView::TimedOut,
            WorkerInput::Captured(text) => InputView::Captured(optional_text(text)),
        }
    }
}

/// What is to be done for a worker.
#[derive(Debug)]
pub enum WorkerAction {
    /// Start the process of a test.
    Spawn(TestPath),
    /// Report an event.
    Send(AppEvent),
    /// Kill the process.
    Kill,
    /// Leave the process to itself.
    Release,
    /// Call the debugger with these arguments.
    Capture(Vec<String>),
    /// Wait for nothing any more.
    Stop,
}

/// What is to be done for a worker, with strings as texts.
pub enum ActionView {
    Spawn(TestView),
    Send(EventView),
    Kill,
    Release,
    Capture(Seq<Seq<char>>),
    Stop,
}

impl View for WorkerAction {
    type V = ActionView;

    open spec fn view(&self) -> ActionView {
        match *self {
            WorkerAction::Spawn(test_path) => ActionView::Spawn(test_path@),
            WorkerAction::Send(event) => ActionView::Send(event@),
            WorkerAction::Kill => ActionView::Kill,
            WorkerAction::Release => ActionView::Release,
            WorkerAction::Capture(args) => ActionView::Capture(texts(args@)),
            WorkerAction::Stop => ActionView::Stop,
        }
    }
}

/// A list of actions, with strings as texts.
pub open spec fn action_views(actions: Seq<WorkerAction>) -> Seq<ActionView> {
    Seq::new(actions.len(), |i: int| actions[i]@)
}

/// The report that a job was given up.
pub open spec fn aborted(id: usize) -> ActionView {
    ActionView::Send(EventView::WorkerAborted { worker_id: id })
}

/// The report that the process of a job has ended.
pub open spec fn finished(
    id: usize,
    test_path: TestView,
    status: Result<ExitInfo, Seq<char>>,
    duration: u128,
    stdout: Seq<u8>,
    stderr: Seq<u8>,
) -> ActionView {
    ActionView::Send(
        EventView::WorkerFinished {
            worker_id: id,
            test_path,
            status: outcome(status),
            duration,
            stdout: utf8_lossy(stdout),
            stderr: utf8_lossy(stderr),
        },
    )
}

/// Where the core of a hung test is saved.
pub open spec fn core_file(report_dir: Seq<char>, test_path: TestView, stamp: Seq<char>) -> Seq<
    char,
> {
    report_file(report_dir, "core"@, shown_name(test_path), stamp, "core"@)
}

/// How a worker goes on, and what is to be done for it: `stamp` is the moment,
/// by which a core is named. What a worker does not wait for changes nothing.
pub open spec fn next_phase(
    id: usize,
    report_dir: Seq<char>,
    phase: PhaseView,
    input: InputView,
    stamp: Seq<char>,
) -> (PhaseView, Seq<ActionView>) {
    match (phase, input) {
        (PhaseView::Waiting, InputView::Command(CmdView::StartJob { test_path })) => (
            PhaseView::Starting { test_path },
            seq![ActionView::Spawn(test_path)],
        ),
        (PhaseView::Waiting, InputView::Command(CmdView::Kill)) => (phase, seq![aborted(id)]),
        (PhaseView::Waiting, InputView::Closed) => (PhaseView::Stopped, seq![ActionView::Stop]),
        (PhaseView::Starting { test_path }, InputView::SpawnFailed(error)) => (
            PhaseView::Waiting,
            seq![
                ActionView::Send(
                    EventView::WorkerFinished {
                        worker_id: id,
                        test_path,
                        status: Err(error),
                        duration: 0,
                        stdout: Seq::empty(),
                        stderr: Seq::empty(),
                    },
                ),
            ],
        ),
        (PhaseView::Starting { test_path }, InputView::Spawned(id_of_process)) => {
            let pid = match id_of_process {
                Some(pid) => pid,
                None => 0,
            };
            (
                PhaseView::Watching { test_path, pid },
                seq![
                    ActionView::Send(EventView::WorkerStarted { worker_id: id, test_path, pid }),
                ],
            )
        },
        (
            PhaseView::Watching { test_path, .. },
            InputView::Exited { status, duration, stdout, stderr },
        ) => (
            PhaseView::Waiting,
            seq![finished(id, test_path, status, duration, stdout, stderr)],
        ),
        (PhaseView::Watching { test_path, pid }, InputView::TimedOut) => (
            PhaseView::Suspected { test_path, pid },
            seq![ActionView::Send(EventView::WorkerSuspectedHang { worker_id: id })],
        ),
        (PhaseView::Watching { .. }, InputView::Command(CmdView::Kill)) => (
            PhaseView::Waiting,
            seq![ActionView::Kill, aborted(id)],
        ),
        (PhaseView::Watching { .. }, InputView::Command(_)) => (
            PhaseView::Waiting,
            seq![ActionView::Release],
        ),
        (
            PhaseView::Suspected { test_path, pid },
            InputView::Command(CmdView::ProceedIsolation),
        ) => (PhaseView::Isolated { test_path, pid }, Seq::empty()),
        (PhaseView::Suspected { .. }, InputView::Command(_)) => (
            PhaseView::Waiting,
            seq![ActionView::Kill, aborted(id)],
        ),
        (PhaseView::Suspected { .. }, InputView::Closed) => (
            PhaseView::Waiting,
            seq![ActionView::Kill, aborted(id)],
        ),
        (
            PhaseView::Isolated { test_path, .. },
            InputView::Exited { status, duration, stdout, stderr },
        ) => (
            PhaseView::Waiting,
            seq![finished(id, test_path, status, duration, stdout, stderr)],
        ),
        (PhaseView::Isolated { test_path, pid }, InputView::TimedOut) => {
            let core_path = core_file(report_dir, test_path, stamp);
            (
                PhaseView::Capturing { core_path },
                seq![ActionView::Capture(backtrace_args(pid, Some(core_path)))],
            )
        },
        (PhaseView::Isolated { .. }, InputView::Command(CmdView::Kill)) => (
            PhaseView::Waiting,
            seq![ActionView::Kill, aborted(id)],
        ),
        (PhaseView::Isolated { .. }, InputView::Command(_)) => (
            PhaseView::Waiting,
            seq![ActionView::Release],
        ),
        (PhaseView::Capturing { core_path }, InputView::Captured(text)) => (
            PhaseView::Waiting,
            seq![
                ActionView::Send(
                    EventView::WorkerConfirmedHang {
                        worker_id: id,
                        backtrace: match text {
                            Some(backtrace) => backtrace,
                            None => "Failed to capture backtrace"@,
                        },
                        core_path: Some(core_path),
                    },
                ),
            ],
        ),
        _ => (phase, Seq::empty()),
    }
}

/// A worker on its way through one job after the other.
#[derive(Debug)]
pub struct Worker {
    pub id: usize,
    pub report_dir: String,
    pub phase: Phase,
}

/// The list of one action.
fn one(action: WorkerAction) -> (actions: Vec<WorkerAction>)
    ensures
        action_views(actions@) == seq![action@],
{
    let mut actions: Vec<WorkerAction> = Vec::new();
    actions.push(action);
    proof {
        assert(action_views(actions@) =~= seq![action@]);
    }
    actions
}

/// The empty list of actions.
fn nothing() -> (actions: Vec<WorkerAction>)
    ensures
        action_views(actions@) == Seq::<ActionView>::empty(),
{
    let actions: Vec<WorkerAction> = Vec::new();
    proof {
        assert(action_views(actions@) =~= Seq::<ActionView>::empty());
    }
    actions
}

impl Worker {
    /// A worker without a job.
    pub fn new(id: usize, report_dir: String) -> (worker: Worker)
        ensures
            worker.id == id,
            worker.report_dir@ == report_dir@,
            worker.phase@ == PhaseView::Waiting,
    {
        Worker { id, report_dir, phase: Phase::Waiting }
    }

    /// Kills the process and gives the job up.
    fn give_up(&mut self) -> (actions: Vec<WorkerAction>)
        ensures
            final(self).id == old(self).id,
            final(self).report_dir@ == old(self).report_dir@,
            final(self).phase@ == PhaseView::Waiting,
            action_views(actions@) == seq![ActionView::Kill, aborted(old(self).id)],
    {
        self.phase = Phase::Waiting;
        let mut actions: Vec<WorkerAction> = Vec::new();
        actions.push(WorkerAction::Kill);
        actions.push(WorkerAction::Send(AppEvent::WorkerAborted { worker_id: self.id }));
        proof {
            assert(action_views(actions@) =~= seq![ActionView::Kill, aborted(old(self).id)]);
        }
        actions
    }

    /// Takes note that the process has ended.
    fn finish(
        &mut self,
        test_path: TestPath,
        status: Result<ExitInfo, String>,
        duration: u128,
        output: &Output,
    ) -> (actions: Vec<WorkerAction>)
        ensures
            final(self).id == old(self).id,
            final(self).report_dir@ == old(self).report_dir@,
            final(self).phase@ == PhaseView::Waiting,
            action_views(actions@) == seq![
                finished(
                    old(self).id,
                    test_path@,
                    exit_view(status),
                    duration,
                    output.stdout@,
                    output.stderr@,
                ),
            ],
    {
        self.phase = Phase::Waiting;
        let (stdout, stderr) = output_texts(output);
        one(
            WorkerAction::Send(
                AppEvent::WorkerFinished {
                    worker_id: self.id,
                    test_path,
                    status: outcome_of(status),
                    duration,
                    stdout,
                    stderr,
                },
            ),
        )
    }

    /// Takes in what the worker learns, with `stamp` as the moment.
    pub fn step_at(&mut self, input: WorkerInput, stamp: &str) -> (actions: Vec<WorkerAction>)
        ensures
            final(self).id == old(self).id,
            final(self).report_dir@ == old(self).report_dir@,
            (final(self).phase@, action_views(actions@)) == next_phase(
                old(self).id,
                old(self).report_dir@,
                old(self).phase@,
                input@,
                stamp@,
            ),
    {
        let phase = self.phase.clone();
        match (phase, input) {
            (Phase::Waiting, WorkerInput::Command(WorkerCmd::StartJob { test_path })) => {
                self.phase = Phase::Starting { test_path: test_path.clone() };
                one(WorkerAction::Spawn(test_path))
            },
            (Phase::Waiting, WorkerInput::Command(WorkerCmd::Kill)) => {
                one(WorkerAction::Send(AppEvent::WorkerAborted { worker_id: self.id }))
            },
            (Phase::Waiting, WorkerInput::Closed) => {
                self.phase = Phase::Stopped;
                one(WorkerAction::Stop)
            },
            (Phase::Starting { test_path }, WorkerInput::SpawnFailed(error)) => {
                self.phase = Phase::Waiting;
                one(
                    WorkerAction::Send(
                        AppEvent::WorkerFinished {
                            worker_id: self.id,
                            test_path,
                            status: Err(error),
                            duration: 0,
                            stdout: String::new(),
                            stderr: String::new(),
                        },
                    ),
                )
            },
            (Phase::Starting { test_path }, WorkerInput::Spawned(id_of_process)) => {
                let pid = match id_of_process {
                    Some(pid) => pid,
                    None => 0,
                };
                self.phase = Phase::Watching { test_path: test_path.clone(), pid };
                one(
                    WorkerAction::Send(
                        AppEvent::WorkerStarted { worker_id: self.id, test_path, pid },
                    ),
                )
            },
            (
                Phase::Watching { test_path, .. },
                WorkerInput::Exited { status, duration, output },
            ) => self.finish(test_path, status, duration, &output),
            (Phase::Watching { test_path, pid }, WorkerInput::TimedOut) => {
                self.phase = Phase::Suspected { test_path, pid };
                one(WorkerAction::Send(AppEvent::WorkerSuspectedHang { worker_id: self.id }))
            },
            (Phase::Watching { .. }, WorkerInput::Command(WorkerCmd::Kill)) => self.give_up(),
            (Phase::Watching { .. }, WorkerInput::Command(_)) => {
                self.phase = Phase::Waiting;
                one(WorkerAction::Release)
            },
            (
                Phase::Suspected { test_path, pid },
                WorkerInput::Command(WorkerCmd::ProceedIsolation),
            ) => {
                self.phase = Phase::Isolated { test_path, pid };
                nothing()
            },
            (Phase::Suspected { .. }, WorkerInput::Command(_)) => self.give_up(),
            (Phase::Suspected { .. }, WorkerInput::Closed) => self.give_up(),
            (
                Phase::Isolated { test_path, .. },
                WorkerInput::Exited { status, duration, output },
            ) => self.finish(test_path, status, duration, &output),
            (Phase::Isolated { test_path, pid }, WorkerInput::TimedOut) => {
                let file_name = test_path.shown_text();
                let core_path = report_file_path(
                    self.report_dir.as_str(),
                    "core",
                    file_name.as_str(),
                    stamp,
                    "core",
                );
                self.phase = Phase::Capturing { core_path: core_path.clone() };
                let saved = Some(core_path);
                one(WorkerAction::Capture(backtrace_arg_list(pid, &saved)))
            },
            (Phase::Isolated { .. }, WorkerInput::Command(WorkerCmd::Kill)) => self.give_up(),
            (Phase::Isolated { .. }, WorkerInput::Command(_)) => {
                self.phase = Phase::Waiting;
                one(WorkerAction::Release)
            },
            (Phase::Capturing { core_path }, WorkerInput::Captured(text)) => {
                self.phase = Phase::Waiting;
                let backtrace = match text {
                    Some(backtrace) => backtrace,
                    None => "Failed to capture backtrace".to_owned(),
                };
                one(
                    WorkerAction::Send(
                        AppEvent::WorkerConfirmedHang {
                            worker_id: self.id,
                            backtrace,
                            core_path: Some(core_path),
                        },
                    ),
                )
            },
            _ => nothing(),
        }
    }

    /// Takes in what the worker learns; the moment is read from the clock where
    /// a core is to be named.
    pub fn step(&mut self, input: WorkerInput) -> (actions: Vec<WorkerAction>)
        ensures
            final(self).id == old(self).id,
            final(self).report_dir@ == old(self).report_dir@,
            exists|stamp: Seq<char>| #[trigger]
                is_date_stamp(stamp) && (final(self).phase@, action_views(actions@)) == next_phase(
                    old(self).id,
                    old(self).report_dir@,
                    old(self).phase@,
                    input@,
                    stamp,
                ),
    {
        let names_core = match (&self.phase, &input) {
            (Phase::Isolated { .. }, WorkerInput::TimedOut) => true,
            _ => false,
        };
        if names_core {
            let stamp = date_stamp_now();
            self.step_at(input, stamp.as_str())
        } else {
            proof {
                let stamp = date_stamp_text(1970, 1, 1, 0, 0, 0);
                assert(is_date_stamp(stamp));
            }
            self.step_at(input, "")
        }
    }
}

/// The worker has a job.
pub open spec fn has_job(phase: PhaseView) -> bool {
    !(phase is Waiting || phase is Stopped)
}

/// The action reports that a job is over, or lets its process go.
pub open spec fn ends_job(action: ActionView) -> bool {
    match action {
        ActionView::Send(event) => event is WorkerFinished || event is WorkerAborted
            || event is WorkerConfirmedHang,
        ActionView::Release => true,
        _ => false,
    }
}

/// The action reports a confirmed hang.
pub open spec fn confirms_hang(action: ActionView) -> bool {
    action matches ActionView::Send(event) && event is WorkerConfirmedHang
}

/// A process is started only for a worker without a job, and whenever a job is
/// taken up; a job that is left is reported over or let go by just one action;
/// in between it is not.
pub proof fn law_a_job_ends_once(
    id: usize,
    report_dir: Seq<char>,
    phase: PhaseView,
    input: InputView,
    stamp: Seq<char>,
)
    ensures
        ({
            let (next, actions) = next_phase(id, report_dir, phase, input, stamp);
            &&& !has_job(phase) && has_job(next) ==> actions.len() == 1 && actions[0] is Spawn
            &&& forall|i: int|
                0 <= i < actions.len() && (#[trigger] actions[i]) is Spawn ==> !has_job(phase)
                    && has_job(next)
            &&& has_job(phase) && !has_job(next) ==> {
                &&& next is Waiting
                &&& exists|i: int| 0 <= i < actions.len() && ends_job(#[trigger] actions[i])
                &&& forall|i: int, j: int|
                    0 <= i < actions.len() && 0 <= j < actions.len() && ends_job(
                        #[trigger] actions[i],
                    ) && ends_job(#[trigger] actions[j]) ==> i == j
            }
            &&& has_job(phase) && has_job(next) ==> forall|i: int|
                0 <= i < actions.len() ==> !ends_job(#[trigger] actions[i])
        }),
{
    let (next, actions) = next_phase(id, report_dir, phase, input, stamp);
    if has_job(phase) && !has_job(next) {
        assert(ends_job(actions[actions.len() - 1]));
    }
}

/// A process is killed only where there is one, and its job is given up with
/// it.
pub proof fn law_a_killed_job_is_given_up(
    id: usize,
    report_dir: Seq<char>,
    phase: PhaseView,
    input: InputView,
    stamp: Seq<char>,
    i: int,
)
    requires
        0 <= i < next_phase(id, report_dir, phase, input, stamp).1.len(),
        next_phase(id, report_dir, phase, input, stamp).1[i] is Kill,
    ensures
        phase is Watching || phase is Suspected || phase is Isolated,
        next_phase(id, report_dir, phase, input, stamp).0 is Waiting,
        next_phase(id, report_dir, phase, input, stamp).1 == seq![ActionView::Kill, aborted(id)],
{
}

/// A worker that is let learn one thing after the other, each at its moment.
pub open spec fn run(
    id: usize,
    report_dir: Seq<char>,
    phase: PhaseView,
    inputs: Seq<(InputView, Seq<char>)>,
) -> (PhaseView, Seq<ActionView>)
    decreases inputs.len(),
{
    if inputs.len() == 0 {
        (phase, Seq::empty())
    } else {
        let (before, done) = run(id, report_dir, phase, inputs.drop_last());
        let (after, more) = next_phase(
            id,
            report_dir,
            before,
            inputs.last().0,
            inputs.last().1,
        );
        (after, done + more)
    }
}

/// How many of some actions are of a kind.
pub open spec fn count(actions: Seq<ActionView>, kind: spec_fn(ActionView) -> bool) -> nat
    decreases actions.len(),
{
    if actions.len() == 0 {
        0
    } else {
        count(actions.drop_last(), kind) + if kind(actions.last()) {
            1nat
        } else {
            0
        }
    }
}

/// How often the time limit passes.
pub open spec fn time_limits(inputs: Seq<(InputView, Seq<char>)>) -> nat
    decreases inputs.len(),
{
    if inputs.len() == 0 {
        0
    } else {
        time_limits(inputs.drop_last()) + if inputs.last().0 is TimedOut {
            1nat
        } else {
            0
        }
    }
}

/// The actions of two lists are counted together.
proof fn lemma_count_adds(
    a: Seq<ActionView>,
    b: Seq<ActionView>,
    kind: spec_fn(ActionView) -> bool,
)
    ensures
        count(a + b, kind) == count(a, kind) + count(b, kind),
    decreases b.len(),
{
    if b.len() == 0 {
        assert(a + b =~= a);
    } else {
        assert((a + b).drop_last() =~= a + b.drop_last());
        lemma_count_adds(a, b.drop_last(), kind);
    }
}

/// The count over a list of two at most.
proof fn lemma_count_short(actions: Seq<ActionView>, kind: spec_fn(ActionView) -> bool)
    requires
        actions.len() <= 2,
    ensures
        count(actions, kind) == (if actions.len() > 0 && kind(actions[0]) {
            1nat
        } else {
            0
        }) + (if actions.len() > 1 && kind(actions[1]) {
            1nat
        } else {
            0
        }),
{
    reveal_with_fuel(count, 3);
}

/// How often a worker without a job is told to give it up.
pub open spec fn idle_kills(
    id: usize,
    report_dir: Seq<char>,
    inputs: Seq<(InputView, Seq<char>)>,
) -> nat
    decreases inputs.len(),
{
    if inputs.len() == 0 {
        0
    } else {
        let earlier = inputs.drop_last();
        let before = run(id, report_dir, PhaseView::Waiting, earlier).0;
        idle_kills(id, report_dir, earlier) + if before is Waiting && inputs.last().0
            == InputView::Command(CmdView::Kill) {
            1nat
        } else {
            0
        }
    }
}

/// Whatever a worker learns, and however long it goes on: every job whose
/// process was to be started is reported over, let go, or still under way, and
/// just one of these. Beyond that a worker reports only, as often as it is told
/// to give up a job that it does not have, that it has none.
pub proof fn law_no_job_is_lost(
    id: usize,
    report_dir: Seq<char>,
    inputs: Seq<(InputView, Seq<char>)>,
)
    ensures
        ({
            let (phase, actions) = run(id, report_dir, PhaseView::Waiting, inputs);
            count(actions, |a: ActionView| a is Spawn) + idle_kills(id, report_dir, inputs)
                == count(actions, |a: ActionView| ends_job(a)) + if has_job(phase) {
                1nat
            } else {
                0
            }
        }),
    decreases inputs.len(),
{
    if inputs.len() > 0 {
        law_no_job_is_lost(id, report_dir, inputs.drop_last());
        let (before, done) = run(id, report_dir, PhaseView::Waiting, inputs.drop_last());
        let more = next_phase(id, report_dir, before, inputs.last().0, inputs.last().1).1;
        lemma_count_adds(done, more, |a: ActionView| a is Spawn);
        lemma_count_adds(done, more, |a: ActionView| ends_job(a));
        lemma_count_short(more, |a: ActionView| a is Spawn);
        lemma_count_short(more, |a: ActionView| ends_job(a));
    }
}

/// The time limits that the present job has passed.
pub open spec fn limits_passed(phase: PhaseView) -> nat {
    match phase {
        PhaseView::Suspected { .. } => 1,
        PhaseView::Isolated { .. } => 1,
        PhaseView::Capturing { .. } => 2,
        _ => 0,
    }
}

/// Whatever a worker learns, and however long it goes on: for every hang that
/// is confirmed the time limit has passed twice.
pub proof fn law_a_hang_takes_two_time_limits(
    id: usize,
    report_dir: Seq<char>,
    inputs: Seq<(InputView, Seq<char>)>,
)
    ensures
        ({
            let (phase, actions) = run(id, report_dir, PhaseView::Waiting, inputs);
            2 * count(actions, |a: ActionView| confirms_hang(a)) + limits_passed(phase)
                <= time_limits(inputs)
        }),
    decreases inputs.len(),
{
    if inputs.len() > 0 {
        law_a_hang_takes_two_time_limits(id, report_dir, inputs.drop_last());
        let (before, done) = run(id, report_dir, PhaseView::Waiting, inputs.drop_last());
        let more = next_phase(id, report_dir, before, inputs.last().0, inputs.last().1).1;
        lemma_count_adds(done, more, |a: ActionView| confirms_hang(a));
        lemma_count_short(more, |a: ActionView| confirms_hang(a));
    }
}

/// A hang is confirmed step by step: the debugger is called only for a process
/// that ran alone beyond its time limit, it ran alone only by command, and that
/// was asked for only when the time limit had passed before.
pub proof fn law_steps_to_a_confirmed_hang(
    id: usize,
    report_dir: Seq<char>,
    phase: PhaseView,
    input: InputView,
    stamp: Seq<char>,
)
    ensures
        ({
            let (next, actions) = next_phase(id, report_dir, phase, input, stamp);
            &&& forall|i: int|
                0 <= i < actions.len() && confirms_hang(#[trigger] actions[i])
                    ==> phase is Capturing && input is Captured
            &&& next is Capturing && !(phase is Capturing) ==> phase is Isolated
                && input is TimedOut
            &&& next is Isolated && !(phase is Isolated) ==> phase is Suspected && input
                == InputView::Command(CmdView::ProceedIsolation)
            &&& next is Suspected && !(phase is Suspected) ==> phase is Watching
                && input is TimedOut
        }),
{
}

/// What a worker learns over time, each at its moment, from the beginning on.
pub struct History {
    pub id: usize,
    pub report_dir: Seq<char>,
    pub inputs: Seq<(InputView, Seq<char>)>,
}

/// A job in a history: its test, and the steps at which it came how far.
pub struct JobTrace {
    pub test: TestView,
    pub spawned: int,
    pub started: int,
    pub suspected: int,
    pub isolated: int,
    pub captured: int,
}

impl History {
    /// How far the worker has come before step `n`.
    pub open spec fn phase(self, n: int) -> PhaseView {
        run(self.id, self.report_dir, PhaseView::Waiting, self.inputs.take(n)).0
    }

    /// What is done for the worker at step `n`.
    pub open spec fn actions(self, n: int) -> Seq<ActionView> {
        next_phase(
            self.id,
            self.report_dir,
            self.phase(n),
            self.inputs[n].0,
            self.inputs[n].1,
        ).1
    }

    /// At step `n` the process of `test` is to be started.
    pub open spec fn spawns(self, n: int, test: TestView) -> bool {
        self.actions(n) == seq![ActionView::Spawn(test)]
    }

    /// At step `n` no job begins or ends.
    pub open spec fn is_quiet(self, n: int) -> bool {
        forall|i: int|
            0 <= i < self.actions(n).len() ==> !((#[trigger] self.actions(n)[i]) is Spawn)
                && !ends_job(self.actions(n)[i])
    }

    /// At step `n` the event is reported.
    pub open spec fn reports(self, n: int, event: EventView) -> bool {
        self.actions(n).contains(ActionView::Send(event))
    }

    /// The job that was begun at step `begun` has not ended before step `n`.
    pub open spec fn is_under_way(self, test: TestView, begun: int, n: int) -> bool {
        &&& 0 <= begun < n
        &&& self.spawns(begun, test)
        &&& forall|m: int| begun < m < n ==> #[trigger] self.is_quiet(m)
    }

    /// Before step `n` the process of the job was reported to run.
    pub open spec fn was_started(self, job: JobTrace, n: int) -> bool {
        &&& self.is_under_way(job.test, job.spawned, n)
        &&& job.spawned < job.started < n
        &&& exists|pid: u32|
            #![auto]
            self.reports(
                job.started,
                EventView::WorkerStarted { worker_id: self.id, test_path: job.test, pid },
            )
    }

    /// After that, and before step `n`, its time limit passed, and it was
    /// reported as suspect.
    pub open spec fn was_suspected(self, job: JobTrace, n: int) -> bool {
        &&& self.was_started(job, n)
        &&& job.started < job.suspected < n
        &&& self.inputs[job.suspected].0 is TimedOut
        &&& self.reports(
            job.suspected,
            EventView::WorkerSuspectedHang { worker_id: self.id },
        )
    }

    /// After that, and before step `n`, the worker was told to go on alone.
    pub open spec fn was_isolated(self, job: JobTrace, n: int) -> bool {
        &&& self.was_suspected(job, n)
        &&& job.suspected < job.isolated < n
        &&& self.inputs[job.isolated].0 == InputView::Command(CmdView::ProceedIsolation)
    }

    /// After that, and before step `n`, its time limit passed again, and the
    /// debugger was called.
    pub open spec fn was_captured(self, job: JobTrace, n: int) -> bool {
        &&& self.was_isolated(job, n)
        &&& job.isolated < job.captured < n
        &&& self.inputs[job.captured].0 is TimedOut
        &&& self.actions(job.captured).len() == 1
        &&& self.actions(job.captured)[0] is Capture
    }

    /// Before step `n` a job of `test` has come as far as the phase tells.
    pub open spec fn has_come(self, job: JobTrace, phase: PhaseView, n: int) -> bool {
        match phase {
            PhaseView::Starting { test_path } => {
                &&& self.is_under_way(job.test, job.spawned, n)
                &&& job.test == test_path
            },
            PhaseView::Watching { test_path, .. } => {
                &&& self.was_started(job, n)
                &&& job.test == test_path
            },
            PhaseView::Suspected { test_path, .. } => {
                &&& self.was_suspected(job, n)
                &&& job.test == test_path
            },
            PhaseView::Isolated { test_path, .. } => {
                &&& self.was_isolated(job, n)
                &&& job.test == test_path
            },
            PhaseView::Capturing { .. } => self.was_captured(job, n),
            _ => false,
        }
    }

    /// The worker goes on from step to step.
    proof fn lemma_step(self, n: int)
        requires
            0 <= n < self.inputs.len(),
        ensures
            (self.phase(n + 1), self.actions(n)) == next_phase(
                self.id,
                self.report_dir,
                self.phase(n),
                self.inputs[n].0,
                self.inputs[n].1,
            ),
            run(self.id, self.report_dir, PhaseView::Waiting, self.inputs.take(n + 1)).1 == run(
                self.id,
                self.report_dir,
                PhaseView::Waiting,
                self.inputs.take(n),
            ).1 + self.actions(n),
    {
        assert(self.inputs.take(n + 1).drop_last() =~= self.inputs.take(n));
    }

    /// A quiet step leaves a job as far as it has come.
    proof fn lemma_quiet_step(self, job: JobTrace, k: int)
        requires
            self.is_quiet(k),
            self.is_under_way(job.test, job.spawned, k),
        ensures
            self.is_under_way(job.test, job.spawned, k + 1),
            self.was_started(job, k) ==> self.was_started(job, k + 1),
            self.was_suspected(job, k) ==> self.was_suspected(job, k + 1),
            self.was_isolated(job, k) ==> self.was_isolated(job, k + 1),
            self.was_captured(job, k) ==> self.was_captured(job, k + 1),
    {
        assert forall|m: int| job.spawned < m < k + 1 implies #[trigger] self.is_quiet(m) by {}
    }

    /// Where a worker has a job, that job has come as far as the phase tells.
    #[verifier::spinoff_prover]
    #[verifier::rlimit(60)]
    proof fn lemma_has_come(self, n: int)
        requires
            0 <= n <= self.inputs.len(),
        ensures
            has_job(self.phase(n)) ==> exists|job: JobTrace| self.has_come(job, self.phase(n), n),
        decreases n,
    {
        if n == 0 {
            assert(self.inputs.take(0) =~= Seq::empty());
        } else {
            let k = n - 1;
            self.lemma_has_come(k);
            self.lemma_step(k);
            let (before, after, actions) = (self.phase(k), self.phase(n), self.actions(k));
            if has_job(after) {
                if has_job(before) {
                    let job = choose|job: JobTrace| self.has_come(job, before, k);
                    assert(self.is_quiet(k));
                    self.lemma_quiet_step(job, k);
                    if before is Starting && after is Watching {
                        let pid = after->Watching_pid;
                        assert(actions[0] == ActionView::Send(
                            EventView::WorkerStarted {
                                worker_id: self.id,
                                test_path: job.test,
                                pid,
                            },
                        ));
                        assert(self.reports(
                            k,
                            EventView::WorkerStarted {
                                worker_id: self.id,
                                test_path: job.test,
                                pid,
                            },
                        ));
                        let further = JobTrace { started: k, ..job };
                        assert(self.was_started(further, n));
                        assert(self.has_come(further, after, n));
                    } else if before is Watching && after is Suspected {
                        assert(actions[0] == ActionView::Send(
                            EventView::WorkerSuspectedHang { worker_id: self.id },
                        ));
                        let further = JobTrace { suspected: k, ..job };
                        assert(self.was_suspected(further, n));
                        assert(self.has_come(further, after, n));
                    } else if before is Suspected && after is Isolated {
                        let further = JobTrace { isolated: k, ..job };
                        assert(self.was_isolated(further, n));
                        assert(self.has_come(further, after, n));
                    } else if before is Isolated && after is Capturing {
                        let further = JobTrace { captured: k, ..job };
                        assert(self.was_captured(further, n));
                        assert(self.has_come(further, after, n));
                    } else {
                        assert(self.has_come(job, after, n));
                    }
                } else {
                    let test = after->Starting_test_path;
                    assert(self.spawns(k, test));
                    assert(self.has_come(
                        JobTrace {
                            test,
                            spawned: k,
                            started: k,
                            suspected: k,
                            isolated: k,
                            captured: k,
                        },
                        after,
                        n,
                    ));
                }
            }
        }
    }

    /// Where a worker has no job, none is under way.
    proof fn lemma_no_job_under_way(self, n: int, test: TestView, begun: int)
        requires
            0 <= n <= self.inputs.len(),
            self.is_under_way(test, begun, n),
        ensures
            has_job(self.phase(n)),
        decreases n,
    {
        let k = n - 1;
        self.lemma_step(k);
        if begun == k {
            assert(self.actions(k)[0] is Spawn);
        } else {
            assert forall|m: int| begun < m < k implies #[trigger] self.is_quiet(m) by {}
            self.lemma_no_job_under_way(k, test, begun);
            assert(self.is_quiet(k));
            if !has_job(self.phase(n)) {
                let actions = self.actions(k);
                assert(ends_job(actions[actions.len() - 1]));
            }
        }
    }
}

/// The worker that an event comes from.
pub open spec fn sender(event: EventView) -> Option<usize> {
    match event {
        EventView::WorkerStarted { worker_id, .. } => Some(worker_id),
        EventView::WorkerFinished { worker_id, .. } => Some(worker_id),
        EventView::WorkerSuspectedHang { worker_id } => Some(worker_id),
        EventView::WorkerConfirmedHang { worker_id, .. } => Some(worker_id),
        EventView::WorkerAborted { worker_id } => Some(worker_id),
        _ => None,
    }
}

/// One job of a worker comes after the other: a job begins only where none is
/// under way, and at no step are there two.
pub proof fn law_jobs_do_not_overlap(h: History, n: int)
    requires
        0 <= n < h.inputs.len(),
    ensures
        forall|i: int, test: TestView, begun: int|
            0 <= i < h.actions(n).len() && (#[trigger] h.actions(n)[i]) is Spawn
                ==> !#[trigger] h.is_under_way(test, begun, n),
        forall|a: TestView, b: TestView, i: int, j: int| #[trigger]
            h.is_under_way(a, i, n) && #[trigger] h.is_under_way(b, j, n) ==> i == j && a == b,
{
    assert forall|i: int, test: TestView, begun: int|
        0 <= i < h.actions(n).len() && (#[trigger] h.actions(n)[i]) is Spawn implies !(
    #[trigger] h.is_under_way(test, begun, n)) by {
        if h.is_under_way(test, begun, n) {
            h.lemma_no_job_under_way(n, test, begun);
            h.lemma_step(n);
        }
    }
    assert forall|a: TestView, b: TestView, i: int, j: int| #[trigger]
        h.is_under_way(a, i, n) && #[trigger] h.is_under_way(b, j, n) implies i == j && a == b by {
        assert(h.actions(i)[0] == ActionView::Spawn(a) && h.actions(j)[0] == ActionView::Spawn(b));
        if i < j {
            assert(h.is_quiet(j));
        } else if j < i {
            assert(h.is_quiet(i));
        }
    }
}

/// Whatever a worker learns, what is done for it at a step follows from the job
/// that is under way then. Every event carries the number of the worker. The
/// start and the end of a job are reported of the test that it was begun with.
/// It is suspected only after its start; and a hang is confirmed only after the
/// same job was started, was suspected, was told to go on alone, and passed its
/// time limit again. A job is given up after its start; else there is none to be
/// given up, and the worker was told to do so all the same.
pub proof fn law_reports_follow_their_job(h: History, n: int, i: int)
    requires
        0 <= n < h.inputs.len(),
        0 <= i < h.actions(n).len(),
    ensures
        run(h.id, h.report_dir, PhaseView::Waiting, h.inputs.take(n + 1)).1 == run(
            h.id,
            h.report_dir,
            PhaseView::Waiting,
            h.inputs.take(n),
        ).1 + h.actions(n),
        h.actions(n)[i] matches ActionView::Send(event) ==> {
            &&& sender(event) == Some(h.id)
            &&& event matches EventView::WorkerStarted { test_path, .. } ==> exists|begun: int|
                h.is_under_way(test_path, begun, n)
            &&& event matches EventView::WorkerFinished { test_path, .. } ==> {
                ||| exists|job: JobTrace| job.test == test_path && #[trigger] h.was_started(job, n)
                ||| h.inputs[n].0 is SpawnFailed && exists|begun: int|
                    h.is_under_way(test_path, begun, n)
            }
            &&& event is WorkerSuspectedHang ==> exists|job: JobTrace| h.was_started(job, n)
            &&& event is WorkerConfirmedHang ==> exists|job: JobTrace| h.was_captured(job, n)
            &&& event is WorkerAborted ==> {
                ||| exists|job: JobTrace| h.was_started(job, n)
                ||| h.inputs[n].0 == InputView::Command(CmdView::Kill) && forall|
                    test: TestView,
                    begun: int,
                | !h.is_under_way(test, begun, n)
            }
        },
        h.actions(n)[i] is Capture ==> exists|job: JobTrace| h.was_isolated(job, n),
        h.actions(n)[i] is Kill || h.actions(n)[i] is Release ==> exists|job: JobTrace|
            h.was_started(job, n),
{
    h.lemma_step(n);
    h.lemma_has_come(n);
    if has_job(h.phase(n)) {
        let job = choose|job: JobTrace| h.has_come(job, h.phase(n), n);
        assert(h.is_under_way(job.test, job.spawned, n));
        if !(h.phase(n) is Starting) {
            assert(h.was_started(job, n));
        }
    } else {
        assert forall|test: TestView, begun: int| !h.is_under_way(test, begun, n) by {
            if h.is_under_way(test, begun, n) {
                h.lemma_no_job_under_way(n, test, begun);
            }
        }
    }
}

} // verus!
