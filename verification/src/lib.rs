//! Core logic of a small fleet-control system: a server schedules shell
//! commands across many workers over framed binary connections.  This crate
//! holds the verified heart of that system: the calendar parser and matcher,
//! the server-side router and session state machines, the worker-side
//! scheduler decisions, and the shared framing and heartbeat rules.

use vstd::prelude::*;

pub mod calendar;
pub mod cli;
pub mod config;
pub mod dirs;
pub mod error;
pub mod framing;
pub mod log;
pub mod message;
pub mod model;
pub mod registry;
pub mod render;
pub mod server;
pub mod session;
pub mod worker;
mod rng;
pub mod text;

pub use calendar::dow::{parse_day_of_week, DayOfWeek};
pub use calendar::hms::{parse_hms, Hour, Minute, Second};
pub use calendar::realtime::{parse_calendar, Moment, Realtime};
pub use calendar::ymd::{parse_date, parse_year, Day, Month, Year};
pub use cli::{config_file_path, transform, Cli, Defaults, PudxBinary, Verbosity};
pub use error::Error;
pub use log::{get_effective_level, LogConfig, LogLevel};
pub use framing::{parse_ts_ping, send_ts_ping};
pub use model::{Command, JobDoc, Schedule, Schedules, Span};
pub use message::{
    ManagerClientToManagerSession, ManagerSessionToServer, ServerAction, ServerToManagerClient,
    ServerToWorkerClient, WorkerClientToWorkerSession, WorkerSessionToServer,
};

verus! {

/// Exit code reported when a run finished without error.
pub fn success(unit: ()) -> (code: i32)
    ensures
        code == 0,
{
    0
}

} // verus!
