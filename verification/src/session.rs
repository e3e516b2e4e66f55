//! The server-side sessions: one per connected peer.  A worker session
//! turns its worker's frames into router messages and accumulates job
//! documents until they are archived; a manager session turns its manager's
//! requests into router messages.

use vstd::prelude::*;

use crate::message::{
    ManagerClientToManagerSession, ManagerSessionToServer, WorkerClientToWorkerSession,
    WorkerSessionMsgView, WorkerSessionToServer,
};
use crate::model::{JobDoc, JobDocView};
use crate::registry::UuidMap;

verus! {

/// What a worker session decided to do with one inbound frame.
#[derive(Debug)]
pub enum SessionAction {
    /// Forward this to the router.
    ToServer(WorkerSessionToServer),
    /// Append this finished job document to the archive.
    Archive(JobDoc),
}

/// The view of a session's decision.
pub enum SessionActionView {
    ToServer(WorkerSessionMsgView),
    Archive(JobDocView),
}

impl View for SessionAction {
    type V = SessionActionView;

    open spec fn view(&self) -> SessionActionView {
        match self {
            SessionAction::ToServer(m) => SessionActionView::ToServer(m@),
            SessionAction::Archive(d) => SessionActionView::Archive(d@),
        }
    }
}

/// A worker session: the registered id and name of its worker, and the job
/// documents of the jobs now running there.
#[derive(Debug)]
pub struct WorkerSession {
    /// The id the router assigned this worker.
    pub id: u128,
    /// The worker's advisory name.
    pub name: String,
    /// The worker's peer address.
    pub ip: String,
    /// The in-flight job documents, by job id.
    pub jobs: UuidMap<JobDoc>,
}

impl WorkerSession {
    /// The job map is well formed.
    pub open spec fn wf(&self) -> bool {
        self.jobs.wf()
    }

    /// A fresh session for a worker that just registered.
    pub fn new(id: u128, name: String, ip: String) -> (r: WorkerSession)
        ensures
            r.wf(),
            r.id == id,
            r.name == name,
            r.ip == ip,
            r.jobs@ == Seq::<(u128, JobDoc)>::empty(),
    {
        WorkerSession { id, name, ip, jobs: UuidMap::new() }
    }

    /// Handle one frame from the worker, at the given time in seconds since
    /// the epoch: job starts open a document, output and status lines fill
    /// it, the job's end archives it, and the rest is forwarded.  Frames
    /// about unknown job ids are dropped.
    pub fn handle_frame(&mut self, msg: WorkerClientToWorkerSession, now: u64) -> (r: Vec<
        SessionAction,
    >)
        requires
            old(self).wf(),
        ensures
            final(self).wf(),
            final(self).id == old(self).id,
            final(self).name == old(self).name,
            final(self).ip == old(self).ip,
            msg matches WorkerClientToWorkerSession::Text(_) ==> r@.len() == 0 && final(self).jobs
                == old(self).jobs,
            msg matches WorkerClientToWorkerSession::Initialize ==> {
                &&& final(self).jobs == old(self).jobs
                &&& r@.len() == 1
                &&& r@[0]@ matches SessionActionView::ToServer(m) && m
                    matches WorkerSessionMsgView::Initialize { id, name } && id == old(self).id
                    && name@ == old(self).name@
            },
            msg matches WorkerClientToWorkerSession::JobStart { id, name } ==> {
                &&& r@.len() == 0
                &&& forall|k: u128| #[trigger]
                    final(self).jobs.spec_get(k) == (if k == id {
                        Some(final(self).jobs.spec_get(id)->0)
                    } else {
                        old(self).jobs.spec_get(k)
                    })
                &&& final(self).jobs.spec_get(id) matches Some(d) && d.worker_id == old(self).id
                    && d.worker_name@ == old(self).name@ && d.job_id == id && d.job_name@ == name@
                    && d.start_time == now && d.end_time == now && d.stdout@.len() == 0
                    && d.stderr@.len() == 0 && d.status == 0
            },
            msg matches WorkerClientToWorkerSession::Stdout { id, line } ==> {
                &&& r@.len() == 0
                &&& old(self).jobs.spec_get(id) is None ==> final(self).jobs == old(self).jobs
                &&& old(self).jobs.spec_get(id) matches Some(d) ==> {
                    &&& forall|k: u128|
                        k != id ==> #[trigger] final(self).jobs.spec_get(k) == old(
                            self,
                        ).jobs.spec_get(k)
                    &&& final(self).jobs.spec_get(id) matches Some(d2) && d2@ == (JobDocView {
                        stdout: d.stdout@.push(line),
                        ..d@
                    })
                }
            },
            msg matches WorkerClientToWorkerSession::Stderr { id, line } ==> {
                &&& r@.len() == 0
                &&& old(self).jobs.spec_get(id) is None ==> final(self).jobs == old(self).jobs
                &&& old(self).jobs.spec_get(id) matches Some(d) ==> {
                    &&& forall|k: u128|
                        k != id ==> #[trigger] final(self).jobs.spec_get(k) == old(
                            self,
                        ).jobs.spec_get(k)
                    &&& final(self).jobs.spec_get(id) matches Some(d2) && d2@ == (JobDocView {
                        stderr: d.stderr@.push(line),
                        ..d@
                    })
                }
            },
            msg matches WorkerClientToWorkerSession::Status { id, code } ==> {
                &&& r@.len() == 0
                &&& old(self).jobs.spec_get(id) is None ==> final(self).jobs == old(self).jobs
                &&& old(self).jobs.spec_get(id) matches Some(d) ==> {
                    &&& forall|k: u128|
                        k != id ==> #[trigger] final(self).jobs.spec_get(k) == old(
                            self,
                        ).jobs.spec_get(k)
                    &&& final(self).jobs.spec_get(id) matches Some(d2) && d2@ == (JobDocView {
                        status: code,
                        ..d@
                    })
                }
            },
            msg matches WorkerClientToWorkerSession::JobEnd { id, name } ==> {
                &&& old(self).jobs.spec_get(id) is None ==> r@.len() == 0 && final(self).jobs
                    == old(self).jobs
                &&& old(self).jobs.spec_get(id) matches Some(d) ==> {
                    &&& forall|k: u128| #[trigger]
                        final(self).jobs.spec_get(k) == (if k == id {
                            None
                        } else {
                            old(self).jobs.spec_get(k)
                        })
                    &&& r@.len() == 1
                    &&& r@[0]@ matches SessionActionView::Archive(dv) && dv == (JobDocView {
                        end_time: now,
                        ..d@
                    })
                }
            },
            msg matches WorkerClientToWorkerSession::Schedules { manager_id, schedules } ==> {
                &&& final(self).jobs == old(self).jobs
                &&& r@.len() == 1
                &&& r@[0]@ matches SessionActionView::ToServer(m) && m
                    matches WorkerSessionMsgView::Schedules { manager_id: mid, name, schedules: s }
                    && mid == manager_id && name@ == old(self).name@ && s == crate::model::scheds_view(
                    schedules@,
                )
            },
    {
        let mut r: Vec<SessionAction> = Vec::new();
        match msg {
            WorkerClientToWorkerSession::Text(_) => {},
            WorkerClientToWorkerSession::Initialize => {
                r.push(
                    SessionAction::ToServer(
                        WorkerSessionToServer::Initialize { id: self.id, name: self.name.clone() },
                    ),
                );
            },
            WorkerClientToWorkerSession::JobStart { id, name } => {
                let doc = JobDoc::new(self.id, self.name.clone(), id, name, now);
                self.jobs.insert(id, doc);
            },
            WorkerClientToWorkerSession::Stdout { id, line } => {
                match self.jobs.get(id) {
                    Some(d) => {
                        let mut d2 = d.duplicate();
                        d2.stdout.push(line);
                        self.jobs.insert(id, d2);
                    },
                    None => {},
                }
            },
            WorkerClientToWorkerSession::Stderr { id, line } => {
                match self.jobs.get(id) {
                    Some(d) => {
                        let mut d2 = d.duplicate();
                        d2.stderr.push(line);
                        self.jobs.insert(id, d2);
                    },
                    None => {},
                }
            },
            WorkerClientToWorkerSession::Status { id, code } => {
                match self.jobs.get(id) {
                    Some(d) => {
                        let mut d2 = d.duplicate();
                        d2.status = code;
                        self.jobs.insert(id, d2);
                    },
                    None => {},
                }
            },
            WorkerClientToWorkerSession::JobEnd { id, name: _ } => {
                match self.jobs.get(id) {
                    Some(d) => {
                        let mut d2 = d.duplicate();
                        d2.end_time = now;
                        self.jobs.remove(id);
                        r.push(SessionAction::Archive(d2));
                    },
                    None => {},
                }
            },
            WorkerClientToWorkerSession::Schedules { manager_id, schedules } => {
                r.push(
                    SessionAction::ToServer(
                        WorkerSessionToServer::Schedules {
                            manager_id,
                            name: self.name.clone(),
                            schedules,
                        },
                    ),
                );
            },
        }
        r
    }
}

/// What a manager session decided to do with one inbound request.
#[derive(Debug)]
pub enum ManagerAction {
    /// Forward this to the router.
    ToServer(ManagerSessionToServer),
    /// Run this query against the archive, then forward its result.
    RunQuery(String),
}

/// A manager session: the registered id and name of its manager.
#[derive(Debug)]
pub struct ManagerSession {
    /// The id the router assigned this manager.
    pub id: u128,
    /// The manager's advisory name.
    pub name: String,
    /// The manager's peer address.
    pub ip: String,
}

impl ManagerSession {
    /// A fresh session for a manager that just registered.
    pub fn new(id: u128, name: String, ip: String) -> (r: ManagerSession)
        ensures
            r.id == id,
            r.name == name,
            r.ip == ip,
    {
        ManagerSession { id, name, ip }
    }

    /// Translate one manager request into what to do: queries go to the
    /// archive first, everything else goes straight to the router.
    pub fn handle_request(&self, msg: ManagerClientToManagerSession) -> (r: ManagerAction)
        ensures
            msg matches ManagerClientToManagerSession::Initialize ==> (r matches
                ManagerAction::ToServer(m) && (m matches ManagerSessionToServer::Initialize {
                id,
                name,
            } && id == self.id && name@ == self.name@)),
            msg matches ManagerClientToManagerSession::Reload ==> (r matches
                ManagerAction::ToServer(m) && (m matches ManagerSessionToServer::Reload(id) && id
                == self.id)),
            msg matches ManagerClientToManagerSession::ListWorkers ==> (r matches
                ManagerAction::ToServer(m) && (m matches ManagerSessionToServer::ListWorkers(id)
                && id == self.id)),
            msg matches ManagerClientToManagerSession::Schedules(name) ==> (r matches
                ManagerAction::ToServer(m) && (m matches ManagerSessionToServer::Schedules {
                id,
                name: n,
            } && id == self.id && n == name)),
            msg matches ManagerClientToManagerSession::Query(text) ==> (r matches
                ManagerAction::RunQuery(t) && t == text),
    {
        match msg {
            ManagerClientToManagerSession::Initialize => ManagerAction::ToServer(
                ManagerSessionToServer::Initialize { id: self.id, name: self.name.clone() },
            ),
            ManagerClientToManagerSession::Reload => ManagerAction::ToServer(
                ManagerSessionToServer::Reload(self.id),
            ),
            ManagerClientToManagerSession::ListWorkers => ManagerAction::ToServer(
                ManagerSessionToServer::ListWorkers(self.id),
            ),
            ManagerClientToManagerSession::Schedules(name) => ManagerAction::ToServer(
                ManagerSessionToServer::Schedules { id: self.id, name },
            ),
            ManagerClientToManagerSession::Query(text) => ManagerAction::RunQuery(text),
        }
    }
}

} // verus!
