//! The verified core of a stress-tester for integration tests: which binaries
//! to run, which worker runs what next, when a run counts as a hang, what is
//! logged and counted, and what the screen shows.

pub mod app;
pub mod args;
pub mod clock;
pub mod debugger;
pub mod discovery;
pub mod drive;
pub mod event;
pub mod event_laws;
pub mod handlers;
pub mod laws;
pub mod order;
pub mod path;
pub mod report_laws;
pub mod schedule;
pub mod screen;
pub mod screen_laws;
pub mod scroll;
pub mod search_laws;
pub mod state_laws;
pub mod stats;
pub mod text;
pub mod text_laws;
pub mod view_laws;
pub mod worker;
pub mod worker_laws;
