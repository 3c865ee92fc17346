//! The settings of a stress test.

use vstd::prelude::*;

verus! {

/// What the command line sets. The time limit of a job is not among it: it is
/// kept where jobs are timed.
#[derive(Debug)]
pub struct Args {
    /// The time after which no job is started any more, in whole seconds.
    pub duration: Option<u64>,
    /// The number of parallel workers.
    pub workers: Option<usize>,
    /// The directory that holds the integration tests.
    pub test_dir: Option<String>,
    /// The directory for hang and crash reports.
    pub report_dir: String,
    /// The time from one refresh of the screen to the next, in milliseconds.
    pub tick_rate: u64,
    /// The debugger.
    pub lldb_path: String,
}

/// The number of workers where the machine does not tell how many threads it
/// runs at once.
pub const DEFAULT_WORKERS: usize = 4;

/// The number of workers: the one asked for, else the number of threads that
/// the machine runs at once.
pub open spec fn worker_count(asked: Option<usize>, parallelism: Option<usize>) -> usize {
    match (asked, parallelism) {
        (Some(n), _) => n,
        (None, Some(n)) => n,
        (None, None) => DEFAULT_WORKERS,
    }
}

/// Decides how many workers there are.
pub fn choose_worker_count(asked: Option<usize>, parallelism: Option<usize>) -> (n: usize)
    ensures
        n == worker_count(asked, parallelism),
{
    match asked {
        Some(n) => n,
        None => match parallelism {
            Some(n) => n,
            None => DEFAULT_WORKERS,
        },
    }
}

} // verus!
