//! The events that drive a stress test.

use crate::path::{TestPath, TestView};
use crate::text::optional_text;
use vstd::prelude::*;

verus! {

/// A key of the keyboard.
#[derive(Clone, Copy, Debug, PartialEq, Eq, Structural)]
pub enum Key {
    Char(char),
    Up,
    Down,
    PageUp,
    PageDown,
    Other,
}

/// Something that happened.
#[derive(Debug)]
pub enum AppEvent {
    /// A key was pressed.
    Key(Key),
    /// It is time to refresh.
    Tick,
    /// A worker has started the process of its job.
    WorkerStarted { worker_id: usize, test_path: TestPath, pid: u32 },
    /// The job of a worker is over; the duration is in nanoseconds.
    WorkerFinished {
        worker_id: usize,
        test_path: TestPath,
        status: Result<i32, String>,
        duration: u128,
        stdout: String,
        stderr: String,
    },
    /// The job of a worker takes longer than it should.
    WorkerSuspectedHang { worker_id: usize },
    /// The job of a worker took too long also without the other workers.
    WorkerConfirmedHang { worker_id: usize, backtrace: String, core_path: Option<String> },
    /// The job of a worker was given up.
    WorkerAborted { worker_id: usize },
    /// There is something to log.
    LogMessage(String),
}

/// An event, with its strings as texts.
pub enum EventView {
    Key(Key),
    Tick,
    WorkerStarted { worker_id: usize, test_path: TestView, pid: u32 },
    WorkerFinished {
        worker_id: usize,
        test_path: TestView,
        status: Result<i32, Seq<char>>,
        duration: u128,
        stdout: Seq<char>,
        stderr: Seq<char>,
    },
    WorkerSuspectedHang { worker_id: usize },
    WorkerConfirmedHang {
        worker_id: usize,
        backtrace: Seq<char>,
        core_path: Option<Seq<char>>,
    },
    WorkerAborted { worker_id: usize },
    LogMessage(Seq<char>),
}

/// How a run ended, with the error as its text.
pub open spec fn outcome_view(status: Result<i32, String>) -> Result<i32, Seq<char>> {
    match status {
        Ok(code) => Ok(code),
        Err(error) => Err(error@),
    }
}

impl View for AppEvent {
    type V = EventView;

    open spec fn view(&self) -> EventView {
        match *self {
            AppEvent::Key(key) => EventView::Key(key),
            AppEvent::Tick => EventView::Tick,
            AppEvent::WorkerStarted { worker_id, test_path, pid } => EventView::WorkerStarted {
                worker_id,
                test_path: test_path@,
                pid,
            },
            AppEvent::WorkerFinished { worker_id, test_path, status, duration, stdout, stderr } => {
                EventView::WorkerFinished {
                    worker_id,
                    test_path: test_path@,
                    status: outcome_view(status),
                    duration,
                    stdout: stdout@,
                    stderr: stderr@,
                }
            },
            AppEvent::WorkerSuspectedHang { worker_id } => EventView::WorkerSuspectedHang {
                worker_id,
            },
            AppEvent::WorkerConfirmedHang { worker_id, backtrace, core_path } => {
                EventView::WorkerConfirmedHang {
                    worker_id,
                    backtrace: backtrace@,
                    core_path: optional_text(core_path),
                }
            },
            AppEvent::WorkerAborted { worker_id } => EventView::WorkerAborted { worker_id },
            AppEvent::LogMessage(message) => EventView::LogMessage(message@),
        }
    }
}

} // verus!
