//! The typed messages the peers exchange, and the mathematical views the
//! router's and sessions' contracts are stated over.

use vstd::prelude::*;

use crate::model::{Command, JobDoc, JobDocView, Schedule, ScheduleView, scheds_view};
use crate::registry::NameMap;
use crate::rng::fresh_id;

verus! {

/// The table of commands a worker is initialized with, keyed by command
/// name.
pub type CommandTable = NameMap<Command>;

// ---------------------------------------------------------------------------
// Wire messages
// ---------------------------------------------------------------------------
/// What a manager client asks its manager session.
#[derive(Clone, Debug, PartialEq, Eq)]
pub enum ManagerClientToManagerSession {
    /// Request registration with the router.
    Initialize,
    /// Ask the server to reload its configuration.
    Reload,
    /// Ask for the connected workers.
    ListWorkers,
    /// Ask for the schedules loaded on the named worker.
    Schedules(String),
    /// Ask the archive a query.
    Query(String),
}

/// What a worker client tells its worker session.
#[derive(Debug, PartialEq, Eq)]
pub enum WorkerClientToWorkerSession {
    /// A free-form text message.
    Text(String),
    /// Request registration and the initial command table.
    Initialize,
    /// A job has started.
    JobStart { id: u128, name: String },
    /// A job has ended.
    JobEnd { id: u128, name: String },
    /// One line of a job's standard output.
    Stdout { id: u128, line: String },
    /// One line of a job's standard error.
    Stderr { id: u128, line: String },
    /// A job's exit status.
    Status { id: u128, code: i32 },
    /// The schedules a manager asked for.
    Schedules { manager_id: u128, schedules: Vec<Schedule> },
}

/// The view of a worker-to-session message.
pub enum WorkerFrameView {
    Text(String),
    Initialize,
    JobStart { id: u128, name: String },
    JobEnd { id: u128, name: String },
    Stdout { id: u128, line: String },
    Stderr { id: u128, line: String },
    Status { id: u128, code: i32 },
    Schedules { manager_id: u128, schedules: Seq<ScheduleView> },
}

impl View for WorkerClientToWorkerSession {
    type V = WorkerFrameView;

    open spec fn view(&self) -> WorkerFrameView {
        match self {
            WorkerClientToWorkerSession::Text(s) => WorkerFrameView::Text(*s),
            WorkerClientToWorkerSession::Initialize => WorkerFrameView::Initialize,
            WorkerClientToWorkerSession::JobStart { id, name } => WorkerFrameView::JobStart {
                id: *id,
                name: *name,
            },
            WorkerClientToWorkerSession::JobEnd { id, name } => WorkerFrameView::JobEnd {
                id: *id,
                name: *name,
            },
            WorkerClientToWorkerSession::Stdout { id, line } => WorkerFrameView::Stdout {
                id: *id,
                line: *line,
            },
            WorkerClientToWorkerSession::Stderr { id, line } => WorkerFrameView::Stderr {
                id: *id,
                line: *line,
            },
            WorkerClientToWorkerSession::Status { id, code } => WorkerFrameView::Status {
                id: *id,
                code: *code,
            },
            WorkerClientToWorkerSession::Schedules { manager_id, schedules } => WorkerFrameView::Schedules {
                manager_id: *manager_id,
                schedules: scheds_view(schedules@),
            },
        }
    }
}

impl WorkerClientToWorkerSession {
    /// Wrap a line of standard output under a fresh job id.
    pub fn into_stdout(value: String) -> (r: WorkerClientToWorkerSession)
        ensures
            r is Stdout,
            r->Stdout_line == value,
    {
        WorkerClientToWorkerSession::Stdout { id: fresh_id(), line: value }
    }

    /// Wrap a line of standard error under a fresh job id.
    pub fn into_stderr(value: String) -> (r: WorkerClientToWorkerSession)
        ensures
            r is Stderr,
            r->Stderr_line == value,
    {
        WorkerClientToWorkerSession::Stderr { id: fresh_id(), line: value }
    }
}

/// What the server sends a worker client.
#[derive(Debug)]
pub enum ServerToWorkerClient {
    /// A status line for the worker's log.
    Status(String),
    /// The worker's command table and schedules.
    Initialize(CommandTable, Vec<Schedule>),
    /// The configuration was reloaded; the worker should re-initialize.
    Reload,
    /// A manager asked for the worker's schedules.
    Schedules(u128),
}

/// The view of a server-to-worker message.
pub enum WorkerBoundView {
    Status(String),
    Initialize(Seq<(Seq<char>, Command)>, Seq<ScheduleView>),
    Reload,
    Schedules(u128),
}

impl View for ServerToWorkerClient {
    type V = WorkerBoundView;

    open spec fn view(&self) -> WorkerBoundView {
        match self {
            ServerToWorkerClient::Status(s) => WorkerBoundView::Status(*s),
            ServerToWorkerClient::Initialize(commands, schedules) => WorkerBoundView::Initialize(
                commands@,
                scheds_view(schedules@),
            ),
            ServerToWorkerClient::Reload => WorkerBoundView::Reload,
            ServerToWorkerClient::Schedules(id) => WorkerBoundView::Schedules(*id),
        }
    }
}

/// What the server sends a manager client.
#[derive(Debug)]
pub enum ServerToManagerClient {
    /// A status line for the manager's log.
    Status(String),
    /// Registration is complete.
    Initialize,
    /// Whether a requested reload succeeded.
    Reload(bool),
    /// The connected workers: id, address and name of each.
    WorkersList(Vec<(u128, (String, String))>),
    /// The schedules loaded on the named worker.
    Schedules { name: String, schedules: Vec<Schedule> },
    /// One archived job of a query's result; `done` marks the last.
    QueryReturn {
        stdout: Vec<String>,
        stderr: Vec<String>,
        status: i32,
        start_time: u64,
        end_time: u64,
        done: bool,
    },
}

/// The view of a server-to-manager message.
pub enum ManagerBoundView {
    Status(String),
    Initialize,
    Reload(bool),
    WorkersList(Seq<(u128, (String, String))>),
    Schedules { name: String, schedules: Seq<ScheduleView> },
    QueryReturn {
        stdout: Seq<String>,
        stderr: Seq<String>,
        status: i32,
        start_time: u64,
        end_time: u64,
        done: bool,
    },
}

impl View for ServerToManagerClient {
    type V = ManagerBoundView;

    open spec fn view(&self) -> ManagerBoundView {
        match self {
            ServerToManagerClient::Status(s) => ManagerBoundView::Status(*s),
            ServerToManagerClient::Initialize => ManagerBoundView::Initialize,
            ServerToManagerClient::Reload(ok) => ManagerBoundView::Reload(*ok),
            ServerToManagerClient::WorkersList(workers) => ManagerBoundView::WorkersList(workers@),
            ServerToManagerClient::Schedules { name, schedules } => ManagerBoundView::Schedules {
                name: *name,
                schedules: scheds_view(schedules@),
            },
            ServerToManagerClient::QueryReturn {
                stdout,
                stderr,
                status,
                start_time,
                end_time,
                done,
            } => ManagerBoundView::QueryReturn {
                stdout: stdout@,
                stderr: stderr@,
                status: *status,
                start_time: *start_time,
                end_time: *end_time,
                done: *done,
            },
        }
    }
}

/// What a worker session forwards to the router.
#[derive(Debug)]
pub enum WorkerSessionToServer {
    /// The worker asked to be initialized.
    Initialize { id: u128, name: String },
    /// The worker answered a schedules request.
    Schedules { manager_id: u128, name: String, schedules: Vec<Schedule> },
}

/// The view of a worker-session-to-router message.
pub enum WorkerSessionMsgView {
    Initialize { id: u128, name: String },
    Schedules { manager_id: u128, name: String, schedules: Seq<ScheduleView> },
}

impl View for WorkerSessionToServer {
    type V = WorkerSessionMsgView;

    open spec fn view(&self) -> WorkerSessionMsgView {
        match self {
            WorkerSessionToServer::Initialize { id, name } => WorkerSessionMsgView::Initialize {
                id: *id,
                name: *name,
            },
            WorkerSessionToServer::Schedules { manager_id, name, schedules } => WorkerSessionMsgView::Schedules {
                manager_id: *manager_id,
                name: *name,
                schedules: scheds_view(schedules@),
            },
        }
    }
}

/// What a manager session forwards to the router.
#[derive(Debug)]
pub enum ManagerSessionToServer {
    /// The manager asked to be initialized.
    Initialize { id: u128, name: String },
    /// The manager asked for a configuration reload.
    Reload(u128),
    /// The manager asked for the connected workers.
    ListWorkers(u128),
    /// The manager asked for the named worker's schedules.
    Schedules { id: u128, name: String },
    /// The manager's query came back from the archive.
    Query { id: u128, output: Vec<JobDoc> },
}

/// One send the router decided on: the app performs it.
#[derive(Debug)]
pub enum ServerAction {
    /// Send the message to one worker session.
    ToWorker(u128, ServerToWorkerClient),
    /// Send the message to one manager session.
    ToManager(u128, ServerToManagerClient),
    /// Send a copy of the message to each listed worker, in order.
    BroadcastWorkers(Vec<u128>, ServerToWorkerClient),
    /// Send a copy of the message to each listed manager, in order.
    BroadcastManagers(Vec<u128>, ServerToManagerClient),
}

/// The view of one routed send.
pub enum ServerActionView {
    ToWorker(u128, WorkerBoundView),
    ToManager(u128, ManagerBoundView),
    BroadcastWorkers(Seq<u128>, WorkerBoundView),
    BroadcastManagers(Seq<u128>, ManagerBoundView),
}

impl View for ServerAction {
    type V = ServerActionView;

    open spec fn view(&self) -> ServerActionView {
        match self {
            ServerAction::ToWorker(id, m) => ServerActionView::ToWorker(*id, m@),
            ServerAction::ToManager(id, m) => ServerActionView::ToManager(*id, m@),
            ServerAction::BroadcastWorkers(ids, m) => ServerActionView::BroadcastWorkers(ids@, m@),
            ServerAction::BroadcastManagers(ids, m) => ServerActionView::BroadcastManagers(
                ids@,
                m@,
            ),
        }
    }
}

/// The views of a vector of routed sends.
pub open spec fn actions_view(s: Seq<ServerAction>) -> Seq<ServerActionView> {
    s.map_values(|a: ServerAction| a@)
}

} // verus!
