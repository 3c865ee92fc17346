//! The stress test, driven by one event after the other.

use crate::app::{dispatch_views, logs, App, AppView, Dispatch, DispatchView, RunState};
use crate::clock::is_date_stamp;
use crate::debugger::{CrashJob, HangReport};
use crate::event::{AppEvent, EventView, Key};
use crate::handlers::{
    can_finish, finished, finished_messages, hang_confirmed, hang_message, is_failure,
    isolated_test, isolation_commands, lemma_logs_keep_settings, started, suspected,
    suspected_messages, with_status,
};
use crate::order::texts;
use crate::schedule::schedules;
use crate::scroll::{logs_scrolled, table_scrolled};
use crate::text::{decimal, decimal_text};
use crate::worker::{StatusView, WorkerStatus};
use vstd::prelude::*;
use vstd::string::*;

verus! {

/// What an event leaves to do.
#[derive(Debug)]
pub struct Step {
    /// The time is to be read once more, for it may be the end.
    pub check_time: bool,
    /// Commands for the workers.
    pub commands: Vec<Dispatch>,
    /// A failed test that is to be rerun under the debugger.
    pub rerun: Option<CrashJob>,
    /// A confirmed hang that is to be reported.
    pub hang: Option<HangReport>,
    /// The stress test is to be left.
    pub quit: bool,
}

impl Step {
    /// Nothing is left to do but the commands, and leaving where `quit`.
    pub open spec fn only(&self, commands: Seq<DispatchView>, quit: bool) -> bool {
        &&& !self.check_time
        &&& dispatch_views(self.commands@) == commands
        &&& self.rerun is None
        &&& self.hang is None
        &&& self.quit == quit
    }
}

/// All workers are idle.
pub open spec fn all_idle(v: AppView) -> bool {
    forall|i: int| 0 <= i < v.workers.len() ==> (#[trigger] v.workers[i]) is Idle
}

/// What is logged when the stress test ends because its time is over.
pub open spec fn time_over_message() -> Seq<char> {
    "Stress test duration reached. All workers idle. Exiting successfully."@
}

/// The state after a key was pressed.
pub open spec fn key_pressed(v: AppView, key: Key) -> AppView {
    match key {
        Key::Up => table_scrolled(v, -1),
        Key::Down => table_scrolled(v, 1),
        Key::PageUp => logs_scrolled(v, -5),
        Key::PageDown => logs_scrolled(v, 5),
        _ => v,
    }
}

/// The event can be taken in: it comes from a worker that there is, and the
/// counters have room.
pub open spec fn can_handle(v: AppView, event: EventView) -> bool {
    match event {
        EventView::WorkerStarted { worker_id, .. } => worker_id < v.workers.len(),
        EventView::WorkerFinished { worker_id, test_path, duration, .. } => can_finish(
            v,
            worker_id,
            test_path,
            duration,
        ),
        EventView::WorkerSuspectedHang { worker_id } => v.run_state is Running ==> worker_id
            < v.workers.len(),
        EventView::WorkerConfirmedHang { worker_id, .. } => worker_id < v.workers.len() && v.hangs
            < u64::MAX,
        EventView::WorkerAborted { worker_id } => worker_id < v.workers.len(),
        _ => true,
    }
}

/// `after` and `quit` are what the time makes of `before`: where it is over, and
/// no worker is busy, the stress test ends.
pub open spec fn ends(before: AppView, time_over: bool, after: AppView, quit: bool) -> bool {
    &&& quit == (time_over && all_idle(before))
    &&& if quit {
        logs(before, seq![time_over_message()], after)
    } else {
        after == before
    }
}

/// `after` and `step` are what an event makes of `before`.
pub open spec fn handles(
    before: AppView,
    event: EventView,
    time_over: bool,
    after: AppView,
    step: Step,
) -> bool {
    match event {
        EventView::Key(key) => {
            &&& after == key_pressed(before, key)
            &&& step.only(Seq::empty(), key == Key::Char('q'))
        },
        EventView::Tick => {
            &&& schedules(before, time_over, after, dispatch_views(step.commands@))
            &&& step.check_time
            &&& step.rerun is None
            &&& step.hang is None
            &&& !step.quit
        },
        EventView::WorkerStarted { worker_id, test_path, pid } => {
            &&& after == started(before, worker_id as int, test_path, pid)
            &&& step.only(Seq::empty(), false)
        },
        EventView::WorkerFinished { worker_id, test_path, status, duration, .. } => {
            &&& exists|told: AppView|
                {
                    &&& #[trigger] logs(
                        finished(before, worker_id, test_path, status, duration),
                        finished_messages(before, worker_id, test_path, status),
                        told,
                    )
                    &&& schedules(told, time_over, after, dispatch_views(step.commands@))
                }
            &&& step.rerun is Some <==> is_failure(before, test_path, status)
            &&& step.rerun matches Some(job) ==> exists|stamp: Seq<char>| #[trigger]
                is_date_stamp(stamp) && job.is_for(
                    before.lldb_path,
                    before.report_dir,
                    test_path,
                    stamp,
                )
            &&& !step.check_time
            &&& step.hang is None
            &&& !step.quit
        },
        EventView::WorkerSuspectedHang { worker_id } => {
            &&& logs(
                suspected(before, worker_id),
                suspected_messages(before, worker_id),
                after,
            )
            &&& step.only(isolation_commands(before, worker_id), false)
        },
        EventView::WorkerConfirmedHang { worker_id, backtrace, core_path } => {
            &&& logs(
                hang_confirmed(before, worker_id),
                seq![hang_message(worker_id, isolated_test(before, worker_id))],
                after,
            )
            &&& step.hang matches Some(report) && exists|stamp: Seq<char>| #[trigger]
                is_date_stamp(stamp) && report.is_for(
                    before.report_dir,
                    isolated_test(before, worker_id),
                    stamp,
                    backtrace,
                    core_path,
                )
            &&& !step.check_time
            &&& step.commands@.len() == 0
            &&& step.rerun is None
            &&& step.quit
        },
        EventView::WorkerAborted { worker_id } => {
            &&& schedules(
                with_status(before, worker_id as int, StatusView::Idle),
                time_over,
                after,
                dispatch_views(step.commands@),
            )
            &&& step.only(dispatch_views(step.commands@), false)
        },
        EventView::LogMessage(message) => {
            &&& logs(before, seq![message], after)
            &&& step.only(Seq::empty(), false)
        },
    }
}

/// A step that leaves nothing to do but some commands.
fn plain_step(commands: Vec<Dispatch>, quit: bool) -> (step: Step)
    ensures
        step.only(dispatch_views(commands@), quit),
        step.commands == commands,
{
    Step { check_time: false, commands, rerun: None, hang: None, quit }
}

/// No commands.
fn no_commands() -> (commands: Vec<Dispatch>)
    ensures
        dispatch_views(commands@) == Seq::<DispatchView>::empty(),
        commands@.len() == 0,
{
    let commands: Vec<Dispatch> = Vec::new();
    proof {
        assert(dispatch_views(commands@) =~= Seq::<DispatchView>::empty());
    }
    commands
}

impl App {
    /// Tells whether all workers are idle.
    pub fn is_all_idle(&self) -> (idle: bool)
        ensures
            idle == all_idle(self@),
    {
        let mut i: usize = 0;
        while i < self.workers.len()
            invariant
                i <= self.workers@.len(),
                forall|j: int| 0 <= j < i ==> (#[trigger] self@.workers[j]) is Idle,
            decreases self.workers@.len() - i,
        {
            proof {
                assert(self@.workers[i as int] == self.workers@[i as int].status@);
            }
            let busy = match self.workers[i].status {
                WorkerStatus::Idle => false,
                _ => true,
            };
            if busy {
                return false;
            }
            i = i + 1;
        }
        true
    }

    /// Logs what the stress test begins with.
    pub fn announce(&mut self)
        requires
            old(self).wf(),
        ensures
            logs(
                old(self)@,
                seq![
                    "Discovered "@ + decimal(old(self)@.tests.len())
                        + " integration test binaries."@,
                    "Spawning "@ + decimal(old(self)@.workers.len()) + " workers..."@,
                ],
                final(self)@,
            ),
            final(self).wf(),
    {
        let discovered = "Discovered ".to_owned().concat(
            decimal_text(self.test_binaries.len() as u64).as_str(),
        ).concat(" integration test binaries.");
        let spawning = "Spawning ".to_owned().concat(
            decimal_text(self.workers.len() as u64).as_str(),
        ).concat(" workers...");
        let mut messages: Vec<String> = Vec::new();
        messages.push(discovered);
        messages.push(spawning);
        proof {
            assert(texts(messages@) =~= seq![discovered@, spawning@]);
        }
        self.log_all(&messages);
    }

    /// Tells whether an event can be taken in.
    pub fn can_take(&self, event: &AppEvent) -> (can: bool)
        requires
            self.wf(),
        ensures
            can == can_handle(self@, event@),
    {
        match event {
            AppEvent::WorkerStarted { worker_id, .. } => *worker_id < self.workers.len(),
            AppEvent::WorkerFinished { worker_id, test_path, duration, .. } => {
                self.can_take_finish(*worker_id, test_path, *duration)
            },
            AppEvent::WorkerSuspectedHang { worker_id } => {
                let running = match self.run_state {
                    RunState::Running => true,
                    _ => false,
                };
                !running || *worker_id < self.workers.len()
            },
            AppEvent::WorkerConfirmedHang { worker_id, .. } => *worker_id < self.workers.len()
                && self.total_hangs < u64::MAX,
            AppEvent::WorkerAborted { worker_id } => *worker_id < self.workers.len(),
            _ => true,
        }
    }

    /// Takes in that a key was pressed, and tells whether the stress test is to
    /// be left.
    pub fn press_key(&mut self, key: Key) -> (quit: bool)
        requires
            old(self).wf(),
        ensures
            final(self)@ == key_pressed(old(self)@, key),
            final(self).wf(),
            quit == (key == Key::Char('q')),
    {
        match key {
            Key::Char(c) => c == 'q',
            Key::Up => {
                self.scroll_table(-1);
                false
            },
            Key::Down => {
                self.scroll_table(1);
                false
            },
            Key::PageUp => {
                self.scroll_logs(-5);
                false
            },
            Key::PageDown => {
                self.scroll_logs(5);
                false
            },
            Key::Other => false,
        }
    }

    /// Ends the stress test where its time is over and no worker is busy, and
    /// tells whether it has ended.
    pub fn end_when_idle(&mut self, time_over: bool) -> (quit: bool)
        requires
            old(self).wf(),
        ensures
            ends(old(self)@, time_over, final(self)@, quit),
            quit <==> time_over && forall|i: int|
                0 <= i < old(self)@.workers.len() ==> (#[trigger] old(self)@.workers[i]) is Idle,
            final(self).wf(),
    {
        let quit = time_over && self.is_all_idle();
        if quit {
            self.log(
                "Stress test duration reached. All workers idle. Exiting successfully.".to_owned(),
            );
        }
        quit
    }

    /// Takes in an event, and tells what is left to do.
    pub fn handle_event(&mut self, event: AppEvent, time_over: bool) -> (step: Step)
        requires
            old(self).wf(),
            old(self)@.tests.len() > 0,
            can_handle(old(self)@, event@),
        ensures
            handles(old(self)@, event@, time_over, final(self)@, step),
            final(self).wf(),
    {
        let ghost before = self@;
        match event {
            AppEvent::Key(key) => {
                let quit = self.press_key(key);
                plain_step(no_commands(), quit)
            },
            AppEvent::Tick => {
                let commands = self.schedule_jobs(time_over);
                Step { check_time: true, commands, rerun: None, hang: None, quit: false }
            },
            AppEvent::WorkerStarted { worker_id, test_path, pid } => {
                self.handle_worker_started(worker_id, test_path, pid);
                plain_step(no_commands(), false)
            },
            AppEvent::WorkerFinished { worker_id, test_path, status, duration, stdout, stderr } => {
                let rerun = self.handle_worker_finished(
                    worker_id,
                    test_path,
                    status,
                    duration,
                    stdout,
                    stderr,
                );
                proof {
                    let outcome = crate::event::outcome_view(status);
                    lemma_logs_keep_settings(
                        finished(before, worker_id, test_path@, outcome, duration),
                        finished_messages(before, worker_id, test_path@, outcome),
                        self@,
                    );
                }
                let commands = self.schedule_jobs(time_over);
                Step { check_time: false, commands, rerun, hang: None, quit: false }
            },
            AppEvent::WorkerSuspectedHang { worker_id } => {
                let commands = self.handle_suspected_hang(worker_id);
                plain_step(commands, false)
            },
            AppEvent::WorkerConfirmedHang { worker_id, backtrace, core_path } => {
                let report = self.handle_worker_confirmed_hang(worker_id, backtrace, core_path);
                Step {
                    check_time: false,
                    commands: no_commands(),
                    rerun: None,
                    hang: Some(report),
                    quit: true,
                }
            },
            AppEvent::WorkerAborted { worker_id } => {
                self.handle_worker_aborted(worker_id);
                let commands = self.schedule_jobs(time_over);
                plain_step(commands, false)
            },
            AppEvent::LogMessage(message) => {
                self.log(message);
                plain_step(no_commands(), false)
            },
        }
    }
}

} // verus!
