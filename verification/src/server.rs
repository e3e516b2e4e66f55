//! The server's router: the one coordinator that owns the worker and
//! manager registries, applies configuration-defined command overrides at
//! worker initialization, answers manager requests, and decides every send.
//! It is a pure state machine: each handler returns the sends to perform.

use vstd::prelude::*;

use crate::config::Config;
use crate::message::{
    CommandTable, ManagerBoundView, ServerAction, ServerToManagerClient, ServerToWorkerClient,
    WorkerBoundView, WorkerSessionToServer,
};
use crate::model::{Command, JobDoc, Schedule};
use crate::registry::{spec_assoc_get, NameMap, UuidMap};
use crate::rng::fresh_id;
use crate::text::{spec_dec_str, spec_uuid_str, u64_to_string, uuid_to_string};

verus! {

/// What the router remembers of a connected worker.
#[derive(Debug)]
pub struct WorkerEntry {
    /// The peer address the worker connected from.
    pub ip: String,
    /// The advisory name the worker supplied.
    pub name: String,
}

/// What the router remembers of a connected manager.
#[derive(Debug)]
pub struct ManagerEntry {
    /// The peer address the manager connected from.
    pub ip: String,
    /// The advisory name the manager supplied.
    pub name: String,
}

/// The ids of a registry's entries that are not in the skip list, in
/// registry order.
pub open spec fn spec_targets<V>(s: Seq<(u128, V)>, skip: Seq<u128>) -> Seq<u128>
    decreases s.len(),
{
    if s.len() == 0 {
        Seq::empty()
    } else {
        let rest = spec_targets(s.drop_last(), skip);
        if !skip.contains(s.last().0) {
            rest.push(s.last().0)
        } else {
            rest
        }
    }
}

/// A broadcast's target list never holds a skipped id.
pub proof fn lemma_targets_skip_none<V>(s: Seq<(u128, V)>, skip: Seq<u128>)
    ensures
        forall|t: int|
            0 <= t < spec_targets(s, skip).len() ==> !skip.contains(
                #[trigger] spec_targets(s, skip)[t],
            ),
    decreases s.len(),
{
    if s.len() > 0 {
        lemma_targets_skip_none(s.drop_last(), skip);
        let rest = spec_targets(s.drop_last(), skip);
        assert forall|t: int|
            0 <= t < spec_targets(s, skip).len() implies !skip.contains(
            spec_targets(s, skip)[t],
        ) by {
            if !skip.contains(s.last().0) {
                if t < rest.len() {
                    assert(spec_targets(s, skip)[t] == rest[t]);
                } else {
                    assert(spec_targets(s, skip)[t] == s.last().0);
                }
            } else {
                assert(spec_targets(s, skip)[t] == rest[t]);
            }
        }
    }
}

/// A broadcast's target list reaches every registered id that is not
/// skipped.
pub proof fn lemma_targets_complete<V>(s: Seq<(u128, V)>, skip: Seq<u128>)
    ensures
        forall|j: int|
            0 <= j < s.len() && !skip.contains((#[trigger] s[j]).0) ==> spec_targets(
                s,
                skip,
            ).contains(s[j].0),
    decreases s.len(),
{
    if s.len() > 0 {
        lemma_targets_complete(s.drop_last(), skip);
        assert forall|j: int|
            0 <= j < s.len() && !skip.contains((#[trigger] s[j]).0) implies spec_targets(
            s,
            skip,
        ).contains(s[j].0) by {
            let rest = spec_targets(s.drop_last(), skip);
            if j < s.len() - 1 {
                assert(s.drop_last()[j] == s[j]);
                assert(rest.contains(s[j].0));
                let w = choose|w: int| 0 <= w < rest.len() && rest[w] == s[j].0;
                if !skip.contains(s.last().0) {
                    assert(rest.push(s.last().0)[w] == s[j].0);
                }
            } else {
                assert(spec_targets(s, skip).last() == s[j].0);
            }
        }
    }
}

/// The skip list a broadcast call carries, as a sequence.
pub open spec fn spec_skip(skip: Option<&Vec<u128>>) -> Seq<u128> {
    match skip {
        Some(v) => v@,
        None => Seq::empty(),
    }
}

/// Is `x` among the values of `v`?
fn contains_id(v: &Vec<u128>, x: u128) -> (r: bool)
    ensures
        r == v@.contains(x),
{
    let mut i: usize = 0;
    while i < v.len()
        invariant
            i <= v@.len(),
            forall|k: int| 0 <= k < i ==> v@[k] != x,
        decreases v@.len() - i,
    {
        if v[i] == x {
            return true;
        }
        i += 1;
    }
    false
}

/// The ids a broadcast over a registry goes to, in registry order, without
/// those in the skip list.
fn targets<V>(reg: &UuidMap<V>, skip: Option<&Vec<u128>>) -> (r: Vec<u128>)
    ensures
        r@ == spec_targets(reg@, spec_skip(skip)),
{
    let ghost skipv = spec_skip(skip);
    let entries = reg.entries();
    let mut r: Vec<u128> = Vec::new();
    let mut i: usize = 0;
    proof {
        assert(reg@.take(0) =~= Seq::<(u128, V)>::empty());
        assert(r@ =~= spec_targets(reg@.take(0), skipv));
    }
    while i < entries.len()
        invariant
            i <= reg@.len(),
            entries@ == reg@,
            skipv == spec_skip(skip),
            r@ == spec_targets(reg@.take(i as int), skipv),
        decreases reg@.len() - i,
    {
        let id = entries[i].0;
        let skipped = match skip {
            Some(v) => contains_id(v, id),
            None => false,
        };
        proof {
            assert(reg@.take(i + 1).drop_last() =~= reg@.take(i as int));
            assert(reg@.take(i + 1).last() == reg@[i as int]);
        }
        if !skipped {
            r.push(id);
        }
        i += 1;
    }
    proof {
        assert(reg@.take(reg@.len() as int) =~= reg@);
    }
    r
}

/// The message telling everyone a peer joined or left.
fn peer_status_msg(prefix: &str, id: u128) -> (r: String)
    ensures
        r@ == prefix@ + spec_uuid_str(id as int),
{
    let mut r = prefix.to_owned();
    let ids = uuid_to_string(id);
    r.append(ids.as_str());
    r
}

/// The message telling everyone the new total of a registry.
fn total_msg(prefix: &str, count: u64) -> (r: String)
    ensures
        r@ == prefix@ + spec_dec_str(count as int),
{
    let mut r = prefix.to_owned();
    let cs = u64_to_string(count);
    r.append(cs.as_str());
    r
}

/// Merge the default command table with one worker's overrides; override
/// values win on name collisions, and without overrides the defaults stand
/// verbatim.
pub fn effective_commands(defaults: &CommandTable, overrides: Option<&CommandTable>) -> (r:
    CommandTable)
    requires
        defaults.wf(),
        overrides matches Some(o) ==> o.wf(),
    ensures
        r.wf(),
        forall|k: Seq<char>| #[trigger]
            r.spec_get(k) == (match overrides {
                Some(o) => if o.spec_get(k) is Some {
                    o.spec_get(k)
                } else {
                    defaults.spec_get(k)
                },
                None => defaults.spec_get(k),
            }),
{
    let mut r: CommandTable = NameMap::new();
    let entries = defaults.entries();
    let mut i: usize = 0;
    proof {
        assert(defaults@.take(0) =~= Seq::<(Seq<char>, Command)>::empty());
    }
    while i < entries.len()
        invariant
            i <= defaults@.len(),
            entries@.len() == defaults@.len(),
            forall|t: int|
                0 <= t < entries@.len() ==> (#[trigger] entries@[t]).0@ == defaults@[t].0
                    && entries@[t].1 == defaults@[t].1,
            defaults.wf(),
            r.wf(),
            forall|k: Seq<char>| #[trigger]
                r.spec_get(k) == spec_assoc_get(defaults@.take(i as int), k),
        decreases entries@.len() - i,
    {
        let name = entries[i].0.clone();
        let cmd = entries[i].1.duplicate();
        proof {
            assert(name@ == defaults@[i as int].0);
            assert(cmd == defaults@[i as int].1);
            assert(forall|t: int| 0 <= t < i ==> (#[trigger] defaults@[t]).0 != name@);
            crate::registry::lemma_assoc_get_none(defaults@.take(i as int), name@);
            assert(defaults@.take(i + 1).drop_last() =~= defaults@.take(i as int));
            assert(defaults@.take(i + 1).last() == defaults@[i as int]);
            assert(defaults@.take(i + 1) =~= defaults@.take(i as int).push(defaults@[i as int]));
        }
        let ghost r_before = r;
        r.insert(name, cmd);
        proof {
            assert forall|k: Seq<char>| #[trigger]
                r.spec_get(k) == spec_assoc_get(defaults@.take(i + 1), k) by {
                crate::registry::lemma_assoc_get_push(
                    defaults@.take(i as int),
                    defaults@[i as int].0,
                    defaults@[i as int].1,
                    k,
                );
            }
        }
        i += 1;
    }
    proof {
        assert(defaults@.take(defaults@.len() as int) =~= defaults@);
    }
    match overrides {
        None => r,
        Some(o) => {
            let oentries = o.entries();
            let mut j: usize = 0;
            proof {
                assert(o@.take(0) =~= Seq::<(Seq<char>, Command)>::empty());
            }
            while j < oentries.len()
                invariant
                    j <= o@.len(),
                    oentries@.len() == o@.len(),
                    forall|t: int|
                        0 <= t < oentries@.len() ==> (#[trigger] oentries@[t]).0@ == o@[t].0
                            && oentries@[t].1 == o@[t].1,
                    o.wf(),
                    r.wf(),
                    forall|k: Seq<char>| #[trigger]
                        r.spec_get(k) == (if spec_assoc_get(o@.take(j as int), k) is Some {
                            spec_assoc_get(o@.take(j as int), k)
                        } else {
                            defaults.spec_get(k)
                        }),
                decreases oentries@.len() - j,
            {
                let name = oentries[j].0.clone();
                let cmd = oentries[j].1.duplicate();
                proof {
                    assert(name@ == o@[j as int].0);
                    assert(cmd == o@[j as int].1);
                    assert(forall|t: int| 0 <= t < j ==> (#[trigger] o@[t]).0 != name@);
                    crate::registry::lemma_assoc_get_none(o@.take(j as int), name@);
                    assert(o@.take(j + 1) =~= o@.take(j as int).push(o@[j as int]));
                }
                r.insert(name, cmd);
                proof {
                    assert forall|k: Seq<char>| #[trigger]
                        r.spec_get(k) == (if spec_assoc_get(o@.take(j + 1), k) is Some {
                            spec_assoc_get(o@.take(j + 1), k)
                        } else {
                            defaults.spec_get(k)
                        }) by {
                        crate::registry::lemma_assoc_get_push(
                            o@.take(j as int),
                            o@[j as int].0,
                            o@[j as int].1,
                            k,
                        );
                    }
                }
                j += 1;
            }
            proof {
                assert(o@.take(o@.len() as int) =~= o@);
            }
            r
        },
    }
}

/// The first registered worker carrying the given advisory name.
pub open spec fn spec_first_worker_named(s: Seq<(u128, WorkerEntry)>, name: Seq<char>) -> Option<
    u128,
>
    decreases s.len(),
{
    if s.len() == 0 {
        None
    } else if s[0].1.name@ == name {
        Some(s[0].0)
    } else {
        spec_first_worker_named(s.drop_first(), name)
    }
}

proof fn lemma_first_worker_named_at(s: Seq<(u128, WorkerEntry)>, name: Seq<char>, i: int)
    requires
        0 <= i < s.len(),
        s[i].1.name@ == name,
        forall|t: int| 0 <= t < i ==> (#[trigger] s[t]).1.name@ != name,
    ensures
        spec_first_worker_named(s, name) == Some(s[i].0),
    decreases s.len(),
{
    if i > 0 {
        assert(forall|t: int|
            0 <= t < i - 1 ==> (#[trigger] s.drop_first()[t]).1.name@ != name) by {
            assert(forall|t: int| 0 <= t < i - 1 ==> s.drop_first()[t] == s[t + 1]);
        }
        lemma_first_worker_named_at(s.drop_first(), name, i - 1);
    }
}

proof fn lemma_first_worker_named_none(s: Seq<(u128, WorkerEntry)>, name: Seq<char>)
    requires
        forall|t: int| 0 <= t < s.len() ==> (#[trigger] s[t]).1.name@ != name,
    ensures
        spec_first_worker_named(s, name) == None::<u128>,
    decreases s.len(),
{
    if s.len() > 0 {
        lemma_first_worker_named_none(s.drop_first(), name);
    }
}

/// The router: registries of the connected workers and managers, and the
/// configuration that worker initialization draws on.
#[derive(Debug)]
pub struct Server {
    /// The server's configuration.
    pub config: Config,
    /// The connected workers.
    pub workers: UuidMap<WorkerEntry>,
    /// The connected managers.
    pub managers: UuidMap<ManagerEntry>,
}

impl Server {
    /// The registries and tables are well formed.
    pub open spec fn wf(&self) -> bool {
        &&& self.config.wf()
        &&& self.workers.wf()
        &&& self.managers.wf()
    }

    /// A fresh router around a configuration.
    pub fn new(config: Config) -> (r: Server)
        requires
            config.wf(),
        ensures
            r.wf(),
            r.config == config,
            r.workers@ == Seq::<(u128, WorkerEntry)>::empty(),
            r.managers@ == Seq::<(u128, ManagerEntry)>::empty(),
    {
        Server { config, workers: UuidMap::new(), managers: UuidMap::new() }
    }

    /// Register a connecting worker: mint an id, store the entry, tell the
    /// other peers who joined, and tell everyone the new total.
    pub fn connect_worker(&mut self, ip: String, name: String) -> (r: (u128, Vec<ServerAction>))
        requires
            old(self).wf(),
        ensures
            final(self).wf(),
            final(self).config == old(self).config,
            final(self).managers == old(self).managers,
            forall|k: u128| #[trigger]
                final(self).workers.spec_get(k) == (if k == r.0 {
                    Some(WorkerEntry { ip, name })
                } else {
                    old(self).workers.spec_get(k)
                }),
            !old(self).workers.spec_contains(r.0) ==> final(self).workers@.len() == old(
                self,
            ).workers@.len() + 1,
            old(self).workers.spec_contains(r.0) ==> final(self).workers@.len() == old(
                self,
            ).workers@.len(),
            r.1@.len() == 4,
            r.1@[0] matches ServerAction::BroadcastWorkers(ids, m) && ids@ == spec_targets(
                final(self).workers@,
                seq![r.0],
            ) && (m@ matches WorkerBoundView::Status(s) && s@ == "worker joined: "@ + spec_uuid_str(
                r.0 as int)),
            r.1@[1] matches ServerAction::BroadcastManagers(ids, m) && ids@ == spec_targets(
                final(self).managers@,
                seq![r.0],
            ) && (m@ matches ManagerBoundView::Status(s) && s@ == "worker joined: "@
                + spec_uuid_str(r.0 as int)),
            r.1@[2] matches ServerAction::BroadcastWorkers(ids, m) && ids@ == spec_targets(
                final(self).workers@,
                Seq::empty(),
            ) && (m@ matches WorkerBoundView::Status(s) && s@ == "total workers "@ + spec_dec_str(
                final(self).workers@.len() as int)),
            r.1@[3] matches ServerAction::BroadcastManagers(ids, m) && ids@ == spec_targets(
                final(self).managers@,
                Seq::empty(),
            ) && (m@ matches ManagerBoundView::Status(s) && s@ == "total workers "@ + spec_dec_str(
                final(self).workers@.len() as int)),
    {
        let id = fresh_id();
        self.workers.insert(id, WorkerEntry { ip, name });
        let skip: Vec<u128> = vec![id];
        proof {
            assert(skip@ =~= seq![id]);
        }
        let joined = peer_status_msg("worker joined: ", id);
        let joined2 = peer_status_msg("worker joined: ", id);
        let count = self.workers.len();
        let total = total_msg("total workers ", count as u64);
        let total2 = total_msg("total workers ", count as u64);
        let w_joined = targets(&self.workers, Some(&skip));
        let m_joined = targets(&self.managers, Some(&skip));
        let w_all = targets(&self.workers, None);
        let m_all = targets(&self.managers, None);
        let mut actions: Vec<ServerAction> = Vec::new();
        actions.push(ServerAction::BroadcastWorkers(w_joined, ServerToWorkerClient::Status(joined)));
        actions.push(
            ServerAction::BroadcastManagers(m_joined, ServerToManagerClient::Status(joined2)),
        );
        actions.push(ServerAction::BroadcastWorkers(w_all, ServerToWorkerClient::Status(total)));
        actions.push(ServerAction::BroadcastManagers(m_all, ServerToManagerClient::Status(total2)));
        (id, actions)
    }

    /// Register a connecting manager, the same way.
    pub fn connect_manager(&mut self, ip: String, name: String) -> (r: (u128, Vec<ServerAction>))
        requires
            old(self).wf(),
        ensures
            final(self).wf(),
            final(self).config == old(self).config,
            final(self).workers == old(self).workers,
            forall|k: u128| #[trigger]
                final(self).managers.spec_get(k) == (if k == r.0 {
                    Some(ManagerEntry { ip, name })
                } else {
                    old(self).managers.spec_get(k)
                }),
            !old(self).managers.spec_contains(r.0) ==> final(self).managers@.len() == old(
                self,
            ).managers@.len() + 1,
            old(self).managers.spec_contains(r.0) ==> final(self).managers@.len() == old(
                self,
            ).managers@.len(),
            r.1@.len() == 4,
            r.1@[0] matches ServerAction::BroadcastWorkers(ids, m) && ids@ == spec_targets(
                final(self).workers@,
                seq![r.0],
            ) && (m@ matches WorkerBoundView::Status(s) && s@ == "manager joined: "@
                + spec_uuid_str(r.0 as int)),
            r.1@[1] matches ServerAction::BroadcastManagers(ids, m) && ids@ == spec_targets(
                final(self).managers@,
                seq![r.0],
            ) && (m@ matches ManagerBoundView::Status(s) && s@ == "manager joined: "@
                + spec_uuid_str(r.0 as int)),
            r.1@[2] matches ServerAction::BroadcastWorkers(ids, m) && ids@ == spec_targets(
                final(self).workers@,
                Seq::empty(),
            ) && (m@ matches WorkerBoundView::Status(s) && s@ == "total managers "@ + spec_dec_str(
                final(self).managers@.len() as int)),
            r.1@[3] matches ServerAction::BroadcastManagers(ids, m) && ids@ == spec_targets(
                final(self).managers@,
                Seq::empty(),
            ) && (m@ matches ManagerBoundView::Status(s) && s@ == "total managers "@
                + spec_dec_str(final(self).managers@.len() as int)),
    {
        let id = fresh_id();
        self.managers.insert(id, ManagerEntry { ip, name });
        let skip: Vec<u128> = vec![id];
        proof {
            assert(skip@ =~= seq![id]);
        }
        let joined = peer_status_msg("manager joined: ", id);
        let joined2 = peer_status_msg("manager joined: ", id);
        let count = self.managers.len();
        let total = total_msg("total managers ", count as u64);
        let total2 = total_msg("total managers ", count as u64);
        let w_joined = targets(&self.workers, Some(&skip));
        let m_joined = targets(&self.managers, Some(&skip));
        let w_all = targets(&self.workers, None);
        let m_all = targets(&self.managers, None);
        let mut actions: Vec<ServerAction> = Vec::new();
        actions.push(ServerAction::BroadcastWorkers(w_joined, ServerToWorkerClient::Status(joined)));
        actions.push(
            ServerAction::BroadcastManagers(m_joined, ServerToManagerClient::Status(joined2)),
        );
        actions.push(ServerAction::BroadcastWorkers(w_all, ServerToWorkerClient::Status(total)));
        actions.push(ServerAction::BroadcastManagers(m_all, ServerToManagerClient::Status(total2)));
        (id, actions)
    }

    /// Drop a worker that disconnected, telling everyone; dropping an
    /// unknown id changes nothing and stays silent.
    pub fn disconnect_worker(&mut self, id: u128) -> (r: Vec<ServerAction>)
        requires
            old(self).wf(),
        ensures
            final(self).wf(),
            final(self).config == old(self).config,
            final(self).managers == old(self).managers,
            forall|k: u128| #[trigger]
                final(self).workers.spec_get(k) == (if k == id {
                    None
                } else {
                    old(self).workers.spec_get(k)
                }),
            !old(self).workers.spec_contains(id) ==> r@.len() == 0 && final(self).workers == old(
                self,
            ).workers,
            old(self).workers.spec_contains(id) ==> {
                &&& r@.len() == 4
                &&& r@[0] matches ServerAction::BroadcastWorkers(ids, m) && ids@ == spec_targets(
                    final(self).workers@,
                    Seq::empty(),
                ) && (m@ matches WorkerBoundView::Status(s) && s@ == "worker disconnected: "@
                    + spec_uuid_str(id as int))
                &&& r@[1] matches ServerAction::BroadcastManagers(ids, m) && ids@ == spec_targets(
                    final(self).managers@,
                    Seq::empty(),
                ) && (m@ matches ManagerBoundView::Status(s) && s@ == "worker disconnected: "@
                    + spec_uuid_str(id as int))
                &&& r@[2] matches ServerAction::BroadcastWorkers(ids, m) && ids@ == spec_targets(
                    final(self).workers@,
                    Seq::empty(),
                ) && (m@ matches WorkerBoundView::Status(s) && s@ == "total workers "@
                    + spec_dec_str(final(self).workers@.len() as int))
                &&& r@[3] matches ServerAction::BroadcastManagers(ids, m) && ids@ == spec_targets(
                    final(self).managers@,
                    Seq::empty(),
                ) && (m@ matches ManagerBoundView::Status(s) && s@ == "total workers "@
                    + spec_dec_str(final(self).workers@.len() as int))
            },
    {
        let known = match self.workers.get(id) {
            Some(_) => true,
            None => false,
        };
        if !known {
            let r: Vec<ServerAction> = Vec::new();
            return r;
        }
        self.workers.remove(id);
        let gone = peer_status_msg("worker disconnected: ", id);
        let gone2 = peer_status_msg("worker disconnected: ", id);
        let count = self.workers.len();
        let total = total_msg("total workers ", count as u64);
        let total2 = total_msg("total workers ", count as u64);
        let w_all = targets(&self.workers, None);
        let m_all = targets(&self.managers, None);
        let w_all2 = targets(&self.workers, None);
        let m_all2 = targets(&self.managers, None);
        let mut actions: Vec<ServerAction> = Vec::new();
        actions.push(ServerAction::BroadcastWorkers(w_all, ServerToWorkerClient::Status(gone)));
        actions.push(ServerAction::BroadcastManagers(m_all, ServerToManagerClient::Status(gone2)));
        actions.push(ServerAction::BroadcastWorkers(w_all2, ServerToWorkerClient::Status(total)));
        actions.push(ServerAction::BroadcastManagers(m_all2, ServerToManagerClient::Status(total2)));
        actions
    }

    /// Drop a manager that disconnected, the same way.
    pub fn disconnect_manager(&mut self, id: u128) -> (r: Vec<ServerAction>)
        requires
            old(self).wf(),
        ensures
            final(self).wf(),
            final(self).config == old(self).config,
            final(self).workers == old(self).workers,
            forall|k: u128| #[trigger]
                final(self).managers.spec_get(k) == (if k == id {
                    None
                } else {
                    old(self).managers.spec_get(k)
                }),
            !old(self).managers.spec_contains(id) ==> r@.len() == 0 && final(self).managers == old(
                self,
            ).managers,
            old(self).managers.spec_contains(id) ==> {
                &&& r@.len() == 4
                &&& r@[0] matches ServerAction::BroadcastWorkers(ids, m) && ids@ == spec_targets(
                    final(self).workers@,
                    Seq::empty(),
                ) && (m@ matches WorkerBoundView::Status(s) && s@ == "manager disconnected: "@
                    + spec_uuid_str(id as int))
                &&& r@[1] matches ServerAction::BroadcastManagers(ids, m) && ids@ == spec_targets(
                    final(self).managers@,
                    Seq::empty(),
                ) && (m@ matches ManagerBoundView::Status(s) && s@ == "manager disconnected: "@
                    + spec_uuid_str(id as int))
                &&& r@[2] matches ServerAction::BroadcastWorkers(ids, m) && ids@ == spec_targets(
                    final(self).workers@,
                    Seq::empty(),
                ) && (m@ matches WorkerBoundView::Status(s) && s@ == "total managers "@
                    + spec_dec_str(final(self).managers@.len() as int))
                &&& r@[3] matches ServerAction::BroadcastManagers(ids, m) && ids@ == spec_targets(
                    final(self).managers@,
                    Seq::empty(),
                ) && (m@ matches ManagerBoundView::Status(s) && s@ == "total managers "@
                    + spec_dec_str(final(self).managers@.len() as int))
            },
    {
        let known = match self.managers.get(id) {
            Some(_) => true,
            None => false,
        };
        if !known {
            let r: Vec<ServerAction> = Vec::new();
            return r;
        }
        self.managers.remove(id);
        let gone = peer_status_msg("manager disconnected: ", id);
        let gone2 = peer_status_msg("manager disconnected: ", id);
        let count = self.managers.len();
        let total = total_msg("total managers ", count as u64);
        let total2 = total_msg("total managers ", count as u64);
        let w_all = targets(&self.workers, None);
        let m_all = targets(&self.managers, None);
        let w_all2 = targets(&self.workers, None);
        let m_all2 = targets(&self.managers, None);
        let mut actions: Vec<ServerAction> = Vec::new();
        actions.push(ServerAction::BroadcastWorkers(w_all, ServerToWorkerClient::Status(gone)));
        actions.push(ServerAction::BroadcastManagers(m_all, ServerToManagerClient::Status(gone2)));
        actions.push(ServerAction::BroadcastWorkers(w_all2, ServerToWorkerClient::Status(total)));
        actions.push(ServerAction::BroadcastManagers(m_all2, ServerToManagerClient::Status(total2)));
        actions
    }

    /// Handle a message a worker session forwarded: an initialize request
    /// gets the merged command table and the worker's schedules; an answered
    /// schedules request is delivered to the manager that asked.
    pub fn handle_worker_message(&self, msg: WorkerSessionToServer) -> (r: Vec<ServerAction>)
        requires
            self.wf(),
        ensures
            msg matches WorkerSessionToServer::Initialize { id, name } ==> {
                &&& r@.len() == 1
                &&& r@[0] matches ServerAction::ToWorker(to, m) && to == id
                &&& r@[0]->ToWorker_1 matches ServerToWorkerClient::Initialize(tbl, scheds) && ({
                    &&& tbl.wf()
                    &&& forall|k: Seq<char>| #[trigger]
                        tbl.spec_get(k) == (match self.config.overrides.spec_get(name@) {
                            Some(o) => if o.spec_get(k) is Some {
                                o.spec_get(k)
                            } else {
                                self.config.default.spec_get(k)
                            },
                            None => self.config.default.spec_get(k),
                        })
                    &&& crate::model::scheds_view(scheds@) == (
                    match self.config.schedules.spec_get(name@) {
                        Some(s) => s@,
                        None => Seq::<crate::model::ScheduleView>::empty(),
                    })
                })
            },
            msg matches WorkerSessionToServer::Schedules { manager_id, name, schedules } ==> {
                &&& r@.len() == 1
                &&& r@[0] matches ServerAction::ToManager(to, m) && to == manager_id
                &&& r@[0]->ToManager_1 matches ServerToManagerClient::Schedules {
                    name: n,
                    schedules: s,
                } && n == name && s == schedules
            },
    {
        match msg {
            WorkerSessionToServer::Initialize { id, name } => {
                let overrides = self.config.overrides.get(&name);
                proof {
                    if self.config.overrides.spec_get(name@) is Some {
                        crate::registry::lemma_assoc_get_some_in(self.config.overrides@, name@);
                    }
                }
                let commands = effective_commands(&self.config.default, overrides);
                let schedules: Vec<Schedule> = match self.config.schedules.get(&name) {
                    Some(s) => s.to_vec(),
                    None => Vec::new(),
                };
                proof {
                    if self.config.schedules.spec_get(name@) is None {
                        assert(crate::model::scheds_view(Seq::<Schedule>::empty())
                            =~= Seq::<crate::model::ScheduleView>::empty());
                    }
                }
                let mut r: Vec<ServerAction> = Vec::new();
                r.push(
                    ServerAction::ToWorker(id, ServerToWorkerClient::Initialize(commands, schedules)),
                );
                r
            },
            WorkerSessionToServer::Schedules { manager_id, name, schedules } => {
                let mut r: Vec<ServerAction> = Vec::new();
                r.push(
                    ServerAction::ToManager(
                        manager_id,
                        ServerToManagerClient::Schedules { name, schedules },
                    ),
                );
                r
            },
        }
    }

    /// Answer a manager's initialize request.
    pub fn handle_manager_initialize(&self, id: u128) -> (r: Vec<ServerAction>)
        ensures
            r@.len() == 1,
            r@[0] matches ServerAction::ToManager(to, m) && to == id && m is Initialize,
    {
        let mut r: Vec<ServerAction> = Vec::new();
        r.push(ServerAction::ToManager(id, ServerToManagerClient::Initialize));
        r
    }

    /// Apply a reload: the freshly read configuration replaces the current
    /// one where the read succeeded, the old one stands where it failed; the
    /// asking manager hears `Reload(true)` either way and every worker is
    /// told to re-initialize.
    pub fn handle_reload(&mut self, id: u128, new_config: Option<Config>) -> (r: Vec<ServerAction>)
        requires
            old(self).wf(),
            new_config matches Some(c) ==> c.wf(),
        ensures
            final(self).wf(),
            final(self).workers == old(self).workers,
            final(self).managers == old(self).managers,
            final(self).config == (match new_config {
                Some(c) => c,
                None => old(self).config,
            }),
            r@.len() == 2,
            r@[0] matches ServerAction::ToManager(to, m) && to == id && (m
                matches ServerToManagerClient::Reload(ok) && ok),
            r@[1] matches ServerAction::BroadcastWorkers(ids, m) && ids@ == spec_targets(
                final(self).workers@,
                Seq::empty(),
            ) && m is Reload,
    {
        match new_config {
            Some(c) => {
                self.config = c;
            },
            None => {},
        }
        let w_all = targets(&self.workers, None);
        let mut r: Vec<ServerAction> = Vec::new();
        r.push(ServerAction::ToManager(id, ServerToManagerClient::Reload(true)));
        r.push(ServerAction::BroadcastWorkers(w_all, ServerToWorkerClient::Reload));
        r
    }

    /// Answer a manager's request for the connected workers: a snapshot of
    /// the registry as id, address and name, in registry order.
    pub fn handle_list_workers(&self, id: u128) -> (r: Vec<ServerAction>)
        ensures
            r@.len() == 1,
            r@[0] matches ServerAction::ToManager(to, m) && to == id,
            r@[0]->ToManager_1 matches ServerToManagerClient::WorkersList(ws) && ({
                &&& ws@.len() == self.workers@.len()
                &&& forall|t: int|
                    0 <= t < ws@.len() ==> (#[trigger] ws@[t]).0 == self.workers@[t].0
                        && ws@[t].1.0@ == self.workers@[t].1.ip@ && ws@[t].1.1@
                        == self.workers@[t].1.name@
            }),
    {
        let entries = self.workers.entries();
        let mut ws: Vec<(u128, (String, String))> = Vec::new();
        let mut i: usize = 0;
        while i < entries.len()
            invariant
                i <= self.workers@.len(),
                entries@ == self.workers@,
                ws@.len() == i,
                forall|t: int|
                    0 <= t < i ==> (#[trigger] ws@[t]).0 == self.workers@[t].0 && ws@[t].1.0@
                        == self.workers@[t].1.ip@ && ws@[t].1.1@ == self.workers@[t].1.name@,
            decreases entries@.len() - i,
        {
            let id_t = entries[i].0;
            let ip = entries[i].1.ip.clone();
            let name = entries[i].1.name.clone();
            ws.push((id_t, (ip, name)));
            i += 1;
        }
        let mut r: Vec<ServerAction> = Vec::new();
        r.push(ServerAction::ToManager(id, ServerToManagerClient::WorkersList(ws)));
        r
    }

    /// Route a manager's schedules request to the first worker with the
    /// given name, or answer at once with no schedules when none is
    /// connected.
    pub fn handle_manager_schedules(&self, id: u128, name: String) -> (r: Vec<ServerAction>)
        ensures
            r@.len() == 1,
            spec_first_worker_named(self.workers@, name@) matches Some(wid) ==> (r@[0]
                matches ServerAction::ToWorker(to, m) && to == wid && (m
                matches ServerToWorkerClient::Schedules(mid) && mid == id)),
            spec_first_worker_named(self.workers@, name@) is None ==> (r@[0]
                matches ServerAction::ToManager(to, m) && to == id && (m
                matches ServerToManagerClient::Schedules { name: n, schedules: s } && n@ == name@
                && s@.len() == 0)),
    {
        let entries = self.workers.entries();
        let mut i: usize = 0;
        while i < entries.len()
            invariant
                i <= self.workers@.len(),
                entries@ == self.workers@,
                forall|t: int| 0 <= t < i ==> (#[trigger] self.workers@[t]).1.name@ != name@,
            decreases entries@.len() - i,
        {
            if entries[i].1.name == name {
                proof {
                    lemma_first_worker_named_at(self.workers@, name@, i as int);
                }
                let mut r: Vec<ServerAction> = Vec::new();
                r.push(
                    ServerAction::ToWorker(entries[i].0, ServerToWorkerClient::Schedules(id)),
                );
                return r;
            }
            proof {
                assert(self.workers@[i as int].1.name@ != name@);
            }
            i += 1;
        }
        proof {
            lemma_first_worker_named_none(self.workers@, name@);
        }
        let scheds: Vec<Schedule> = Vec::new();
        let mut r: Vec<ServerAction> = Vec::new();
        r.push(
            ServerAction::ToManager(
                id,
                ServerToManagerClient::Schedules { name, schedules: scheds },
            ),
        );
        r
    }

    /// Stream a query's result back to the asking manager: one frame per
    /// archived job with `done` set only on the last, and a single empty
    /// frame with `done` set when the result is empty.
    pub fn handle_query(&self, id: u128, output: Vec<JobDoc>, now: u64) -> (r: Vec<ServerAction>)
        ensures
            output@.len() == 0 ==> {
                &&& r@.len() == 1
                &&& r@[0] matches ServerAction::ToManager(to, m) && to == id && (m
                    matches ServerToManagerClient::QueryReturn {
                    stdout,
                    stderr,
                    status,
                    start_time,
                    end_time,
                    done,
                } && stdout@.len() == 0 && stderr@.len() == 0 && status == 0 && start_time == now
                    && end_time == now && done)
            },
            output@.len() > 0 ==> {
                &&& r@.len() == output@.len()
                &&& forall|t: int|
                    0 <= t < r@.len() ==> {
                        &&& (#[trigger] r@[t]) matches ServerAction::ToManager(to, m) && to == id
                        &&& r@[t]->ToManager_1 matches ServerToManagerClient::QueryReturn {
                            stdout,
                            stderr,
                            status,
                            start_time,
                            end_time,
                            done,
                        } && stdout@ == output@[t].stdout@ && stderr@ == output@[t].stderr@
                            && status == output@[t].status && start_time == output@[t].start_time
                            && end_time == output@[t].end_time && done == (t == output@.len() - 1)
                    }
            },
    {
        let n = output.len();
        let mut r: Vec<ServerAction> = Vec::new();
        if n == 0 {
            let stdout: Vec<String> = Vec::new();
            let stderr: Vec<String> = Vec::new();
            r.push(
                ServerAction::ToManager(
                    id,
                    ServerToManagerClient::QueryReturn {
                        stdout,
                        stderr,
                        status: 0,
                        start_time: now,
                        end_time: now,
                        done: true,
                    },
                ),
            );
            return r;
        }
        let mut i: usize = 0;
        while i < n
            invariant
                i <= n,
                n == output@.len(),
                r@.len() == i,
                forall|t: int|
                    0 <= t < i ==> {
                        &&& (#[trigger] r@[t]) matches ServerAction::ToManager(to, m) && to == id
                        &&& r@[t]->ToManager_1 matches ServerToManagerClient::QueryReturn {
                            stdout,
                            stderr,
                            status,
                            start_time,
                            end_time,
                            done,
                        } && stdout@ == output@[t].stdout@ && stderr@ == output@[t].stderr@
                            && status == output@[t].status && start_time == output@[t].start_time
                            && end_time == output@[t].end_time && done == (t == output@.len() - 1)
                    },
            decreases n - i,
        {
            let doc = &output[i];
            r.push(
                ServerAction::ToManager(
                    id,
                    ServerToManagerClient::QueryReturn {
                        stdout: crate::model::clone_string_vec(&doc.stdout),
                        stderr: crate::model::clone_string_vec(&doc.stderr),
                        status: doc.status,
                        start_time: doc.start_time,
                        end_time: doc.end_time,
                        done: i == n - 1,
                    },
                ),
            );
            i += 1;
        }
        r
    }
}

/// A broadcast with a skip list never addresses a skipped peer, and
/// addresses every other registered peer.
pub proof fn lemma_broadcast_skip<V>(s: Seq<(u128, V)>, skip: Seq<u128>)
    ensures
        forall|t: int|
            0 <= t < spec_targets(s, skip).len() ==> !skip.contains(
                #[trigger] spec_targets(s, skip)[t],
            ),
        forall|j: int|
            0 <= j < s.len() && !skip.contains((#[trigger] s[j]).0) ==> spec_targets(
                s,
                skip,
            ).contains(s[j].0),
{
    lemma_targets_skip_none(s, skip);
    lemma_targets_complete(s, skip);
}

/// The configuration a reload leaves in place: the newly read one where the
/// read succeeded, the old one where it failed.
pub open spec fn spec_after_reload(cfg: Config, new_config: Option<Config>) -> Config {
    match new_config {
        Some(c) => c,
        None => cfg,
    }
}

/// The command a worker named `name` is initialized with under `k`:
/// overrides win over defaults.
pub open spec fn spec_effective(cfg: Config, name: Seq<char>, k: Seq<char>) -> Option<Command> {
    match spec_assoc_get(cfg.overrides@, name) {
        Some(o) => if spec_assoc_get(o@, k) is Some {
            spec_assoc_get(o@, k)
        } else {
            spec_assoc_get(cfg.default@, k)
        },
        None => spec_assoc_get(cfg.default@, k),
    }
}

/// Applying the same configuration twice via a reload yields the same state
/// as applying it once: the effective command table and the schedule list
/// of every worker are unchanged by the second application.
pub proof fn lemma_reload_idempotent(cfg0: Config, c: Config, name: Seq<char>, k: Seq<char>)
    ensures
        spec_after_reload(spec_after_reload(cfg0, Some(c)), Some(c)) == spec_after_reload(
            cfg0,
            Some(c),
        ),
        spec_effective(spec_after_reload(spec_after_reload(cfg0, Some(c)), Some(c)), name, k)
            == spec_effective(spec_after_reload(cfg0, Some(c)), name, k),
        spec_assoc_get(
            spec_after_reload(spec_after_reload(cfg0, Some(c)), Some(c)).schedules@,
            name,
        ) == spec_assoc_get(spec_after_reload(cfg0, Some(c)).schedules@, name),
{
}

} // verus!
