//! The connection manager: the catalog of endpoints and tunnels together
//! with the registry of live sessions and running forwarders. Every
//! operation is a step of the state machine in [`crate::engine`]; what has
//! to happen outside (authenticating, starting and aborting workers,
//! writing the catalog to disk) is handed back to the caller as a value.

use vstd::prelude::*;
use crate::engine::{
    among, anchored, endpoints_at_rest, lemma_all_started, lemma_connected, lemma_disconnected,
    lemma_restored, lemma_round_trip, lemma_started, lemma_stopped, lemma_with_connection,
    lemma_with_status, lemma_with_tunnel, lemma_without_connection, lemma_without_tunnel,
    merged_endpoint, merged_tunnel, new_endpoint, new_tunnel, tunnel_at_rest, tunnels_at_rest,
    tunnels_idle, tunnels_with_status, valid_endpoint, EngineState,
};
use crate::fresh::{default_created_at, generate_id, holds_no_generated_id, ID_LENGTH};
use crate::model::{
    failure_view, success_view, ActiveTunnel, ConnectionResult, ConnectionStatus, EngineError,
    ErrorCode, SSHConnection, SSHTunnel, Timestamp, TunnelHandle, TunnelStatus, TunnelType,
    TunnelView,
};
use crate::table::{
    as_map, distinct, find, folded, has_key, key_at, last_wins, lemma_contains, lemma_empty,
    lemma_folded_keys, lemma_has_key, lemma_last_wins_distinct, lemma_push, lemma_remove,
    lemma_same_keys, lemma_slot, lemma_update, remove_owned, slot,
};

verus! {

/// What the caller has to tear down after an operation: the forwarders to
/// abort, and whether the session of the endpoint is to be closed.
#[derive(Debug, PartialEq, Eq)]
pub struct Teardown {
    pub workers: Vec<ActiveTunnel>,
    pub close_session: bool,
}

/// The first step of a connection attempt.
#[derive(Debug, PartialEq, Eq)]
pub enum ConnectStep {
    /// The endpoint exists and is now marked as connecting: authenticate
    /// against it, then report the outcome.
    Authenticate(SSHConnection),
    /// The attempt is over, with this outcome.
    Finished(ConnectionResult),
}

/// How loading a stored catalog ended.
#[derive(Clone, Copy, Debug, PartialEq, Eq, Structural)]
pub enum Initialized {
    /// The document replaced the catalog. With `complete`, the document was
    /// a catalog as it stood and nothing of it was left out.
    Loaded { complete: bool },
    /// Something is live: the catalog in memory was kept and nothing was
    /// loaded.
    KeptLive,
}

/// What follows a liveness probe.
#[derive(Clone, Copy, Debug, PartialEq, Eq, Structural)]
pub enum HealthAction {
    /// Leave the endpoint as it is.
    Nothing,
    /// Disconnect the endpoint, wait [`RECONNECT_DELAY_SECS`], connect it
    /// again.
    Reconnect,
}

/// Seconds between two rounds of the health monitor.
pub const HEALTH_INTERVAL_SECS: u64 = 60;

/// Seconds between disconnecting and connecting again.
pub const RECONNECT_DELAY_SECS: u64 = 5;

/// The catalog and the live state of the engine.
pub struct ConnectionManager {
    connections: Vec<SSHConnection>,
    tunnels: Vec<SSHTunnel>,
    ssh_sessions: Vec<String>,
    active_tunnels: Vec<ActiveTunnel>,
}

impl View for ConnectionManager {
    type V = EngineState;

    closed spec fn view(&self) -> EngineState {
        EngineState {
            connections: as_map(self.connections@),
            tunnels: as_map(self.tunnels@),
            sessions: as_map(self.ssh_sessions@).dom(),
            active: as_map(self.active_tunnels@),
        }
    }
}

/// Whether the endpoint has the fields it needs.
fn has_required_fields(c: &SSHConnection) -> (b: bool)
    ensures
        b == valid_endpoint(c@),
{
    !c.host.as_str().is_empty() && !c.username.as_str().is_empty() && c.port >= 1
}

/// A stored document is a catalog: no endpoint id and no tunnel id occurs
/// twice, and every tunnel belongs to an endpoint of the document.
pub open spec fn valid_document(connections: Seq<SSHConnection>, tunnels: Seq<SSHTunnel>) -> bool {
    &&& distinct(connections)
    &&& distinct(tunnels)
    &&& forall|i: int|
        0 <= i < tunnels.len() ==> has_key(connections, #[trigger] tunnels[i]@.connection_id)
}

/// The endpoints of a document stored one after the other, each
/// disconnected, and whether no id occurred twice.
fn stored_endpoints(input: &Vec<SSHConnection>) -> (r: (Vec<SSHConnection>, bool))
    ensures
        distinct(r.0@),
        as_map(r.0@) == endpoints_at_rest(last_wins(input@)),
        r.1 == distinct(input@),
{
    let mut list: Vec<SSHConnection> = Vec::new();
    let mut unique = true;
    let mut i: usize = 0;
    proof {
        lemma_empty(list@);
        assert(as_map(list@) =~= endpoints_at_rest(folded(input@, 0)));
    }
    while i < input.len()
        invariant
            i <= input.len(),
            distinct(list@),
            as_map(list@) == endpoints_at_rest(folded(input@, i as int)),
            unique ==> list@.len() == i && forall|j: int|
                0 <= j < i ==> key_at(list@, j) == key_at(input@, j),
            !unique ==> !distinct(input@),
        decreases input.len() - i,
    {
        let mut record = input[i].clone();
        record.status = ConnectionStatus::Disconnected;
        let ghost before = list@;
        proof {
            lemma_folded_keys(input@, i as int);
            lemma_contains(before, record@.id);
        }
        match find(&list, &record.id) {
            Some(j) => {
                proof {
                    lemma_slot(before, j as int);
                    assert(folded(input@, i as int).contains_key(record@.id));
                    let a = choose|a: int| 0 <= a < i && key_at(input@, a) == record@.id;
                    assert(key_at(input@, a) == key_at(input@, i as int));
                    lemma_update(before, j as int, record);
                }
                list.set(j, record);
                unique = false;
            },
            None => {
                proof {
                    lemma_push(before, record);
                }
                list.push(record);
            },
        }
        proof {
            assert(as_map(list@) =~= endpoints_at_rest(folded(input@, i + 1)));
        }
        i += 1;
    }
    proof {
        if unique {
            lemma_same_keys(list@, input@);
        }
    }
    (list, unique)
}

/// The tunnels of a document stored one after the other, each inactive,
/// and whether no id occurred twice.
fn stored_tunnels(input: &Vec<SSHTunnel>) -> (r: (Vec<SSHTunnel>, bool))
    ensures
        distinct(r.0@),
        as_map(r.0@) == tunnels_at_rest(last_wins(input@)),
        r.1 == distinct(input@),
{
    let mut list: Vec<SSHTunnel> = Vec::new();
    let mut unique = true;
    let mut i: usize = 0;
    proof {
        lemma_empty(list@);
        assert(as_map(list@) =~= tunnels_at_rest(folded(input@, 0)));
    }
    while i < input.len()
        invariant
            i <= input.len(),
            distinct(list@),
            as_map(list@) == tunnels_at_rest(folded(input@, i as int)),
            unique ==> list@.len() == i && forall|j: int|
                0 <= j < i ==> key_at(list@, j) == key_at(input@, j),
            !unique ==> !distinct(input@),
        decreases input.len() - i,
    {
        let mut record = input[i].clone();
        record.status = TunnelStatus::Inactive;
        let ghost before = list@;
        proof {
            lemma_folded_keys(input@, i as int);
            lemma_contains(before, record@.id);
        }
        match find(&list, &record.id) {
            Some(j) => {
                proof {
                    lemma_slot(before, j as int);
                    assert(folded(input@, i as int).contains_key(record@.id));
                    let a = choose|a: int| 0 <= a < i && key_at(input@, a) == record@.id;
                    assert(key_at(input@, a) == key_at(input@, i as int));
                    lemma_update(before, j as int, record);
                }
                list.set(j, record);
                unique = false;
            },
            None => {
                proof {
                    lemma_push(before, record);
                }
                list.push(record);
            },
        }
        proof {
            assert(as_map(list@) =~= tunnels_at_rest(folded(input@, i + 1)));
        }
        i += 1;
    }
    proof {
        if unique {
            lemma_same_keys(list@, input@);
        }
    }
    (list, unique)
}

/// The tunnels of `all` whose endpoint is among `endpoints`, and whether
/// these are all of them.
fn anchored_tunnels(all: &Vec<SSHTunnel>, endpoints: &Vec<SSHConnection>) -> (r: (
    Vec<SSHTunnel>,
    bool,
))
    requires
        distinct(all@),
    ensures
        distinct(r.0@),
        as_map(r.0@) == anchored(as_map(all@), as_map(endpoints@)),
        r.1 == forall|j: int|
            0 <= j < all@.len() ==> has_key(endpoints@, #[trigger] all@[j]@.connection_id),
{
    let mut kept: Vec<SSHTunnel> = Vec::new();
    let mut whole = true;
    let mut i: usize = 0;
    proof {
        lemma_empty(kept@);
    }
    while i < all.len()
        invariant
            i <= all.len(),
            distinct(all@),
            distinct(kept@),
            forall|k: Seq<char>|
                has_key(kept@, k) <==> exists|j: int|
                    0 <= j < i && key_at(all@, j) == k && has_key(
                        endpoints@,
                        all@[j]@.connection_id,
                    ),
            forall|k: Seq<char>|
                has_key(kept@, k) ==> #[trigger] as_map(kept@)[k] == as_map(all@)[k],
            whole == forall|j: int|
                0 <= j < i ==> has_key(endpoints@, #[trigger] all@[j]@.connection_id),
        decreases all.len() - i,
    {
        let owner = find(endpoints, &all[i].connection_id);
        if owner.is_some() {
            let t = all[i].clone();
            let ghost before = kept@;
            proof {
                assert(key_at(endpoints@, owner.unwrap() as int) == all@[i as int]@.connection_id);
                assert(has_key(endpoints@, all@[i as int]@.connection_id));
                lemma_slot(all@, i as int);
                if has_key(before, t@.id) {
                    let j = choose|j: int|
                        0 <= j < i && key_at(all@, j) == t@.id && has_key(
                            endpoints@,
                            all@[j]@.connection_id,
                        );
                    assert(key_at(all@, j) != key_at(all@, i as int));
                }
                lemma_push(before, t);
            }
            kept.push(t);
            proof {
                assert forall|k: Seq<char>| has_key(kept@, k) <==> exists|j: int|
                    0 <= j < i + 1 && key_at(all@, j) == k && has_key(
                        endpoints@,
                        all@[j]@.connection_id,
                    ) by {
                    lemma_contains(kept@, k);
                    lemma_contains(before, k);
                    if has_key(kept@, k) {
                        if k == t@.id {
                            assert(key_at(all@, i as int) == k);
                        } else {
                            let j = choose|j: int|
                                0 <= j < i && key_at(all@, j) == k && has_key(
                                    endpoints@,
                                    all@[j]@.connection_id,
                                );
                            assert(0 <= j < i + 1);
                        }
                    }
                }
                assert forall|k: Seq<char>| has_key(kept@, k) implies #[trigger] as_map(kept@)[k]
                    == as_map(all@)[k] by {
                    lemma_contains(kept@, k);
                    lemma_contains(before, k);
                }
            }
        } else {
            assert(!has_key(endpoints@, all@[i as int]@.connection_id));
            whole = false;
        }
        i += 1;
    }
    proof {
        let want = anchored(as_map(all@), as_map(endpoints@));
        assert forall|k: Seq<char>| as_map(kept@).contains_key(k) <==> want.contains_key(k) by {
            lemma_contains(kept@, k);
            if has_key(kept@, k) {
                let j = choose|j: int|
                    0 <= j < i && key_at(all@, j) == k && has_key(
                        endpoints@,
                        all@[j]@.connection_id,
                    );
                lemma_slot(all@, j);
                lemma_contains(endpoints@, all@[j]@.connection_id);
            }
            if want.contains_key(k) {
                lemma_has_key(all@, k);
                lemma_contains(endpoints@, as_map(all@)[k].connection_id);
            }
        }
        assert(as_map(kept@) =~= want);
    }
    (kept, whole)
}

/// The views of a list of tunnels.
pub open spec fn tunnel_views(list: Seq<SSHTunnel>) -> Seq<TunnelView> {
    Seq::new(list.len(), |i: int| list[i]@)
}

/// Recording a forwarder for each tunnel of the list that
/// [`ConnectionManager::session_established`] hands out, in the state that
/// it leaves, refuses none and leaves every tunnel of the endpoint active
/// with one forwarder of its kind, and all else as it was.
pub proof fn lemma_plan_starts_all(s: EngineState, id: Seq<char>, plan: Seq<SSHTunnel>)
    requires
        s.consistent(),
        s.sessions.contains(id),
        distinct(plan),
        as_map(plan) == s.tunnels.restrict(s.tunnels_of(id)),
    ensures
        s.started_each(tunnel_views(plan), plan.len() as int) == s.all_started(id),
        s.refused_each(tunnel_views(plan), plan.len() as int) == Seq::<TunnelView>::empty(),
{
    let list = tunnel_views(plan);
    assert forall|i: int| 0 <= i < list.len() implies s.tunnels.contains_key(
        (#[trigger] list[i]).id,
    ) && s.tunnels[list[i].id] == list[i] && list[i].connection_id == id by {
        lemma_slot(plan, i);
        assert(as_map(plan).contains_key(key_at(plan, i)));
    }
    assert forall|i: int, j: int| 0 <= i < j < list.len() implies (#[trigger] list[i]).id != (
    #[trigger] list[j]).id by {
        assert(key_at(plan, i) != key_at(plan, j));
    }
    assert forall|k: Seq<char>| #[trigger] s.tunnels_of(id).contains(k) implies among(
        list,
        list.len() as int,
        k,
    ) by {
        assert(as_map(plan).contains_key(k));
        lemma_has_key(plan, k);
        let i = slot(plan, k);
        assert(list[i].id == k);
    }
    lemma_all_started(s, id, list);
}

/// What a well-formed manager at rest lists as its endpoints and tunnels
/// loads again as the same state.
pub proof fn lemma_reload(s: EngineState, connections: Seq<SSHConnection>, tunnels: Seq<SSHTunnel>)
    requires
        s.consistent(),
        s.at_rest(),
        distinct(connections),
        distinct(tunnels),
        as_map(connections) == s.connections,
        as_map(tunnels) == s.tunnels,
    ensures
        valid_document(connections, tunnels),
        EngineState::restored(last_wins(connections), last_wins(tunnels)) == s,
{
    lemma_snapshot_is_document(s, connections, tunnels);
    lemma_last_wins_distinct(connections);
    lemma_last_wins_distinct(tunnels);
    lemma_round_trip(s);
}

/// What a well-formed manager lists as its endpoints and tunnels is a
/// catalog that can be loaded again.
pub proof fn lemma_snapshot_is_document(
    s: EngineState,
    connections: Seq<SSHConnection>,
    tunnels: Seq<SSHTunnel>,
)
    requires
        s.consistent(),
        distinct(connections),
        distinct(tunnels),
        as_map(connections) == s.connections,
        as_map(tunnels) == s.tunnels,
    ensures
        valid_document(connections, tunnels),
{
    assert forall|i: int| 0 <= i < tunnels.len() implies has_key(
        connections,
        #[trigger] tunnels[i]@.connection_id,
    ) by {
        lemma_slot(tunnels, i);
        assert(s.tunnels.contains_key(key_at(tunnels, i)));
        lemma_contains(connections, tunnels[i]@.connection_id);
    }
}

impl ConnectionManager {
    /// No list holds a key twice.
    pub closed spec fn repr(&self) -> bool {
        &&& distinct(self.connections@)
        &&& distinct(self.tunnels@)
        &&& distinct(self.ssh_sessions@)
        &&& distinct(self.active_tunnels@)
    }

    /// The manager is well formed: its lists are maps, and its state is
    /// consistent.
    pub open spec fn wf(&self) -> bool {
        self.repr() && self@.consistent()
    }

    /// In a well-formed manager every tunnel belongs to an endpoint that is
    /// present, and every forwarder runs under an endpoint that has a
    /// session.
    pub proof fn lemma_invariants(&self)
        requires
            self.wf(),
        ensures
            forall|k: Seq<char>| #[trigger]
                self@.tunnels.contains_key(k) ==> self@.connections.contains_key(
                    self@.tunnels[k].connection_id,
                ),
            forall|k: Seq<char>| #[trigger]
                self@.active.contains_key(k) ==> self@.sessions.contains(
                    self@.active[k].tunnel.connection_id,
                ),
    {
    }

    /// A manager without endpoints, tunnels, sessions or forwarders.
    pub fn new() -> (m: ConnectionManager)
        ensures
            m.wf(),
            m@ == EngineState::empty(),
    {
        let m = ConnectionManager {
            connections: Vec::new(),
            tunnels: Vec::new(),
            ssh_sessions: Vec::new(),
            active_tunnels: Vec::new(),
        };
        proof {
            lemma_empty(m.connections@);
            lemma_empty(m.tunnels@);
            lemma_empty(m.ssh_sessions@);
            lemma_empty(m.active_tunnels@);
            assert(m@ =~= EngineState::empty());
        }
        m
    }

    /// All endpoints, each once, in no particular order.
    pub fn get_connections(&self) -> (list: Vec<SSHConnection>)
        requires
            self.wf(),
        ensures
            distinct(list@),
            as_map(list@) == self@.connections,
    {
        let mut list: Vec<SSHConnection> = Vec::new();
        let mut i: usize = 0;
        while i < self.connections.len()
            invariant
                i <= self.connections.len(),
                list@ == self.connections@.subrange(0, i as int),
            decreases self.connections.len() - i,
        {
            list.push(self.connections[i].clone());
            assert(list@ =~= self.connections@.subrange(0, i + 1));
            i += 1;
        }
        assert(list@ =~= self.connections@);
        list
    }

    /// The endpoint with the given id, if there is one.
    pub fn get_connection(&self, id: &str) -> (found: Option<SSHConnection>)
        requires
            self.wf(),
        ensures
            match found {
                Some(c) => self@.connections.contains_key(id@) && c@ == self@.connections[id@],
                None => !self@.connections.contains_key(id@),
            },
    {
        let key = id.to_owned();
        match find(&self.connections, &key) {
            Some(i) => {
                proof {
                    lemma_slot(self.connections@, i as int);
                }
                Some(self.connections[i].clone())
            },
            None => None,
        }
    }

    /// Stores a new endpoint under `id`, disconnected and created at `now`.
    /// The declared fields come from `connection`; its id, status and
    /// creation time are not used. Refused when a required field is missing
    /// or the id is taken.
    pub fn insert_connection(
        &mut self,
        connection: SSHConnection,
        id: String,
        now: Timestamp,
    ) -> (r: Result<String, EngineError>)
        requires
            old(self).wf(),
        ensures
            final(self).wf(),
            valid_endpoint(connection@) && !old(self)@.connections.contains_key(id@) ==> r is Ok
                && r->Ok_0@ == id@ && final(self)@ == old(self)@.with_connection(
                new_endpoint(connection@, id@, now),
            ),
            !(valid_endpoint(connection@) && !old(self)@.connections.contains_key(id@)) ==> r
                == Err::<String, EngineError>(EngineError::InvalidInput) && final(self)@ == old(
                self,
            )@,
    {
        if !has_required_fields(&connection) {
            return Err(EngineError::InvalidInput);
        }
        if find(&self.connections, &id).is_some() {
            proof {
                lemma_contains(self.connections@, id@);
            }
            return Err(EngineError::InvalidInput);
        }
        let mut record = connection;
        record.id = id.clone();
        record.status = ConnectionStatus::Disconnected;
        record.created_at = now;
        proof {
            lemma_contains(self.connections@, id@);
            lemma_push(self.connections@, record);
            lemma_with_connection(self@, record@);
        }
        self.connections.push(record);
        assert(self@ =~= old(self)@.with_connection(new_endpoint(connection@, id@, now)));
        Ok(id)
    }

    /// Replaces the declared fields of endpoint `id` by those of `updates`;
    /// its id, status and timestamps stay.
    pub fn update_connection(&mut self, id: String, updates: SSHConnection) -> (r: Result<
        (),
        EngineError,
    >)
        requires
            old(self).wf(),
        ensures
            final(self).wf(),
            !old(self)@.connections.contains_key(id@) ==> r == Err::<(), EngineError>(
                EngineError::ConnectionNotFound,
            ) && final(self)@ == old(self)@,
            old(self)@.connections.contains_key(id@) && !valid_endpoint(updates@) ==> r == Err::<
                (),
                EngineError,
            >(EngineError::InvalidInput) && final(self)@ == old(self)@,
            old(self)@.connections.contains_key(id@) && valid_endpoint(updates@) ==> r is Ok
                && final(self)@ == old(self)@.with_connection(
                merged_endpoint(old(self)@.connections[id@], updates@),
            ),
    {
        proof {
            lemma_contains(self.connections@, id@);
        }
        match find(&self.connections, &id) {
            None => Err(EngineError::ConnectionNotFound),
            Some(i) => {
                if !has_required_fields(&updates) {
                    return Err(EngineError::InvalidInput);
                }
                let current = &self.connections[i];
                let record = SSHConnection {
                    id: current.id.clone(),
                    name: updates.name,
                    host: updates.host,
                    port: updates.port,
                    username: updates.username,
                    auth_method: updates.auth_method,
                    password: updates.password,
                    key_path: updates.key_path,
                    status: current.status,
                    last_connected: current.last_connected,
                    created_at: current.created_at,
                };
                proof {
                    lemma_slot(self.connections@, i as int);
                    lemma_update(self.connections@, i as int, record);
                    lemma_with_connection(self@, record@);
                }
                self.connections.set(i, record);
                assert(self@ =~= old(self)@.with_connection(
                    merged_endpoint(old(self)@.connections[id@], updates@),
                ));
                Ok(())
            },
        }
    }

    /// Deletes endpoint `id` with everything under it: its tunnels, its
    /// session and its forwarders. The forwarders and the session are
    /// handed back for the caller to abort and close.
    pub fn delete_connection(&mut self, id: String) -> (r: Result<Teardown, EngineError>)
        requires
            old(self).wf(),
        ensures
            final(self).wf(),
            !old(self)@.connections.contains_key(id@) ==> r == Err::<Teardown, EngineError>(
                EngineError::ConnectionNotFound,
            ) && final(self)@ == old(self)@,
            old(self)@.connections.contains_key(id@) ==> r is Ok && final(self)@ == old(
                self,
            )@.without_connection(id@) && distinct(r->Ok_0.workers@) && as_map(r->Ok_0.workers@)
                == old(self)@.active.restrict(old(self)@.workers_of(id@)) && r->Ok_0.close_session
                == old(self)@.sessions.contains(id@),
            !final(self)@.connections.contains_key(id@),
            final(self)@.tunnels_of(id@) =~= Set::empty(),
            final(self)@.workers_of(id@) =~= Set::empty(),
            !final(self)@.sessions.contains(id@),
    {
        proof {
            lemma_contains(self.connections@, id@);
            lemma_contains(self.ssh_sessions@, id@);
        }
        match find(&self.connections, &id) {
            None => Err(EngineError::ConnectionNotFound),
            Some(i) => {
                let workers = remove_owned(&mut self.active_tunnels, &id);
                let _ = remove_owned(&mut self.tunnels, &id);
                proof {
                    lemma_slot(self.connections@, i as int);
                    lemma_remove(self.connections@, i as int);
                }
                self.connections.remove(i);
                let close_session = match find(&self.ssh_sessions, &id) {
                    Some(j) => {
                        proof {
                            lemma_slot(self.ssh_sessions@, j as int);
                            lemma_remove(self.ssh_sessions@, j as int);
                        }
                        self.ssh_sessions.remove(j);
                        true
                    },
                    None => false,
                };
                proof {
                    assert(self@ =~= old(self)@.without_connection(id@));
                    lemma_without_connection(old(self)@, id@);
                }
                Ok(Teardown { workers, close_session })
            },
        }
    }

    /// Whether endpoint `id` has a live session.
    pub fn has_session(&self, id: &str) -> (found: bool)
        requires
            self.wf(),
        ensures
            found == self@.sessions.contains(id@),
    {
        let key = id.to_owned();
        proof {
            lemma_contains(self.ssh_sessions@, id@);
        }
        find(&self.ssh_sessions, &key).is_some()
    }

    /// Whether a forwarder runs for tunnel `id`.
    pub fn is_tunnel_active(&self, id: &str) -> (found: bool)
        requires
            self.wf(),
        ensures
            found == self@.active.contains_key(id@),
    {
        let key = id.to_owned();
        proof {
            lemma_contains(self.active_tunnels@, id@);
        }
        find(&self.active_tunnels, &key).is_some()
    }

    /// Whether a tunnel with the given id is declared.
    pub fn has_tunnel(&self, id: &str) -> (found: bool)
        requires
            self.wf(),
        ensures
            found == self@.tunnels.contains_key(id@),
    {
        let key = id.to_owned();
        proof {
            lemma_contains(self.tunnels@, id@);
        }
        find(&self.tunnels, &key).is_some()
    }

    /// All tunnels, each once, in no particular order.
    pub fn get_tunnels(&self) -> (list: Vec<SSHTunnel>)
        requires
            self.wf(),
        ensures
            distinct(list@),
            as_map(list@) == self@.tunnels,
    {
        let mut list: Vec<SSHTunnel> = Vec::new();
        let mut i: usize = 0;
        while i < self.tunnels.len()
            invariant
                i <= self.tunnels.len(),
                list@ == self.tunnels@.subrange(0, i as int),
            decreases self.tunnels.len() - i,
        {
            list.push(self.tunnels[i].clone());
            assert(list@ =~= self.tunnels@.subrange(0, i + 1));
            i += 1;
        }
        assert(list@ =~= self.tunnels@);
        list
    }

    /// The tunnels declared under endpoint `connection_id`, each once, in
    /// no particular order.
    pub fn get_tunnels_by_connection(&self, connection_id: &str) -> (list: Vec<SSHTunnel>)
        requires
            self.wf(),
        ensures
            distinct(list@),
            as_map(list@) == self@.tunnels.restrict(self@.tunnels_of(connection_id@)),
    {
        let owner = connection_id.to_owned();
        let mut list: Vec<SSHTunnel> = Vec::new();
        let mut i: usize = 0;
        proof {
            lemma_empty(list@);
        }
        while i < self.tunnels.len()
            invariant
                i <= self.tunnels.len(),
                owner@ == connection_id@,
                distinct(self.tunnels@),
                distinct(list@),
                forall|k: Seq<char>|
                    has_key(list@, k) <==> exists|j: int|
                        0 <= j < i && key_at(self.tunnels@, j) == k
                            && self.tunnels@[j]@.connection_id == owner@,
                forall|k: Seq<char>|
                    has_key(list@, k) ==> #[trigger] as_map(list@)[k] == as_map(self.tunnels@)[k],
            decreases self.tunnels.len() - i,
        {
            if self.tunnels[i].connection_id == owner {
                let t = self.tunnels[i].clone();
                let ghost before = list@;
                proof {
                    lemma_slot(self.tunnels@, i as int);
                    if has_key(before, t@.id) {
                        let j = choose|j: int|
                            0 <= j < i && key_at(self.tunnels@, j) == t@.id
                                && self.tunnels@[j]@.connection_id == owner@;
                        assert(key_at(self.tunnels@, j) != key_at(self.tunnels@, i as int));
                    }
                    lemma_push(before, t);
                }
                list.push(t);
                proof {
                    assert forall|k: Seq<char>| has_key(list@, k) <==> exists|j: int|
                        0 <= j < i + 1 && key_at(self.tunnels@, j) == k
                            && self.tunnels@[j]@.connection_id == owner@ by {
                        lemma_contains(list@, k);
                        lemma_contains(before, k);
                        if has_key(list@, k) {
                            if k == t@.id {
                                assert(key_at(self.tunnels@, i as int) == k);
                            } else {
                                let j = choose|j: int|
                                    0 <= j < i && key_at(self.tunnels@, j) == k
                                        && self.tunnels@[j]@.connection_id == owner@;
                                assert(0 <= j < i + 1);
                            }
                        }
                    }
                    assert forall|k: Seq<char>| has_key(list@, k) implies #[trigger] as_map(
                        list@,
                    )[k] == as_map(self.tunnels@)[k] by {
                        lemma_contains(list@, k);
                        lemma_contains(before, k);
                    }
                }
            }
            i += 1;
        }
        proof {
            let want = self@.tunnels.restrict(self@.tunnels_of(connection_id@));
            assert forall|k: Seq<char>| as_map(list@).contains_key(k) <==> want.contains_key(
                k,
            ) by {
                lemma_contains(list@, k);
                if has_key(list@, k) {
                    let j = choose|j: int|
                        0 <= j < i && key_at(self.tunnels@, j) == k
                            && self.tunnels@[j]@.connection_id == owner@;
                    lemma_slot(self.tunnels@, j);
                }
                if want.contains_key(k) {
                    lemma_has_key(self.tunnels@, k);
                }
            }
            assert(as_map(list@) =~= want);
        }
        list
    }

    /// Stores a new tunnel under `id`, inactive. The declared fields come
    /// from `tunnel`; its id and status are not used. Refused when no
    /// endpoint has the id in `connection_id`, or `id` is taken.
    pub fn insert_tunnel(&mut self, tunnel: SSHTunnel, id: String) -> (r: Result<
        String,
        EngineError,
    >)
        requires
            old(self).wf(),
        ensures
            final(self).wf(),
            old(self)@.connections.contains_key(tunnel@.connection_id) && !old(
                self,
            )@.tunnels.contains_key(id@) ==> r is Ok && r->Ok_0@ == id@ && final(self)@ == old(
                self,
            )@.with_tunnel(new_tunnel(tunnel@, id@)),
            !(old(self)@.connections.contains_key(tunnel@.connection_id) && !old(
                self,
            )@.tunnels.contains_key(id@)) ==> r == Err::<String, EngineError>(
                EngineError::InvalidInput,
            ) && final(self)@ == old(self)@,
    {
        proof {
            lemma_contains(self.connections@, tunnel@.connection_id);
            lemma_contains(self.tunnels@, id@);
        }
        if find(&self.connections, &tunnel.connection_id).is_none() {
            return Err(EngineError::InvalidInput);
        }
        if find(&self.tunnels, &id).is_some() {
            return Err(EngineError::InvalidInput);
        }
        let mut record = tunnel;
        record.id = id.clone();
        record.status = TunnelStatus::Inactive;
        proof {
            lemma_push(self.tunnels@, record);
            lemma_with_tunnel(self@, record@);
        }
        self.tunnels.push(record);
        assert(self@ =~= old(self)@.with_tunnel(new_tunnel(tunnel@, id@)));
        Ok(id)
    }

    /// Replaces the declared fields of tunnel `id` by those of `updates`;
    /// its id, owning endpoint and status stay.
    pub fn update_tunnel(&mut self, id: String, updates: SSHTunnel) -> (r: Result<(), EngineError>)
        requires
            old(self).wf(),
        ensures
            final(self).wf(),
            !old(self)@.tunnels.contains_key(id@) ==> r == Err::<(), EngineError>(
                EngineError::TunnelNotFound,
            ) && final(self)@ == old(self)@,
            old(self)@.tunnels.contains_key(id@) ==> r is Ok && final(self)@ == old(
                self,
            )@.with_tunnel(merged_tunnel(old(self)@.tunnels[id@], updates@)),
    {
        proof {
            lemma_contains(self.tunnels@, id@);
        }
        match find(&self.tunnels, &id) {
            None => Err(EngineError::TunnelNotFound),
            Some(i) => {
                let current = &self.tunnels[i];
                let record = SSHTunnel {
                    id: current.id.clone(),
                    connection_id: current.connection_id.clone(),
                    name: updates.name,
                    tunnel_type: updates.tunnel_type,
                    local_port: updates.local_port,
                    remote_host: updates.remote_host,
                    remote_port: updates.remote_port,
                    status: current.status,
                    auto_reconnect: updates.auto_reconnect,
                };
                proof {
                    lemma_slot(self.tunnels@, i as int);
                    lemma_update(self.tunnels@, i as int, record);
                    lemma_with_tunnel(self@, record@);
                }
                self.tunnels.set(i, record);
                assert(self@ =~= old(self)@.with_tunnel(
                    merged_tunnel(old(self)@.tunnels[id@], updates@),
                ));
                Ok(())
            },
        }
    }

    /// Takes the forwarder of tunnel `id` out of the running forwarders, if
    /// there is one.
    fn take_worker(&mut self, id: &String) -> (worker: Option<ActiveTunnel>)
        requires
            distinct(old(self).active_tunnels@),
        ensures
            distinct(final(self).active_tunnels@),
            final(self).connections == old(self).connections,
            final(self).tunnels == old(self).tunnels,
            final(self).ssh_sessions == old(self).ssh_sessions,
            as_map(final(self).active_tunnels@) == as_map(old(self).active_tunnels@).remove(id@),
            match worker {
                Some(w) => as_map(old(self).active_tunnels@).contains_key(id@) && w@ == as_map(
                    old(self).active_tunnels@,
                )[id@],
                None => !as_map(old(self).active_tunnels@).contains_key(id@),
            },
    {
        proof {
            lemma_contains(self.active_tunnels@, id@);
        }
        match find(&self.active_tunnels, id) {
            Some(i) => {
                proof {
                    lemma_slot(self.active_tunnels@, i as int);
                    lemma_remove(self.active_tunnels@, i as int);
                }
                Some(self.active_tunnels.remove(i))
            },
            None => {
                assert(as_map(self.active_tunnels@) =~= as_map(self.active_tunnels@).remove(id@));
                None
            },
        }
    }

    /// Sets the status of tunnel `id`, where it is present.
    fn set_tunnel_status(&mut self, id: &String, status: TunnelStatus)
        requires
            distinct(old(self).tunnels@),
        ensures
            distinct(final(self).tunnels@),
            final(self).connections == old(self).connections,
            final(self).active_tunnels == old(self).active_tunnels,
            final(self).ssh_sessions == old(self).ssh_sessions,
            as_map(final(self).tunnels@) == tunnels_with_status(
                as_map(old(self).tunnels@),
                id@,
                status,
            ),
    {
        proof {
            lemma_contains(self.tunnels@, id@);
        }
        match find(&self.tunnels, id) {
            Some(i) => {
                let mut record = self.tunnels[i].clone();
                record.status = status;
                proof {
                    lemma_slot(self.tunnels@, i as int);
                    lemma_update(self.tunnels@, i as int, record);
                }
                self.tunnels.set(i, record);
            },
            None => {},
        }
    }

    /// Deletes tunnel `id`, stopping its forwarder if one runs: the
    /// forwarder is handed back for the caller to abort. Succeeds whether
    /// or not the tunnel exists.
    pub fn delete_tunnel(&mut self, id: String) -> (r: Result<Option<ActiveTunnel>, EngineError>)
        requires
            old(self).wf(),
        ensures
            final(self).wf(),
            r is Ok,
            final(self)@ == old(self)@.without_tunnel(id@),
            match r->Ok_0 {
                Some(w) => old(self)@.active.contains_key(id@) && w@ == old(self)@.active[id@],
                None => !old(self)@.active.contains_key(id@),
            },
    {
        let worker = self.take_worker(&id);
        proof {
            lemma_contains(self.tunnels@, id@);
        }
        match find(&self.tunnels, &id) {
            Some(i) => {
                proof {
                    lemma_slot(self.tunnels@, i as int);
                    lemma_remove(self.tunnels@, i as int);
                }
                self.tunnels.remove(i);
            },
            None => {
                assert(as_map(self.tunnels@) =~= as_map(self.tunnels@).remove(id@));
            },
        }
        proof {
            assert(self@ =~= old(self)@.without_tunnel(id@));
            lemma_without_tunnel(old(self)@, id@);
        }
        Ok(worker)
    }

    /// Stops the forwarder of tunnel `id` without deleting the tunnel: the
    /// forwarder, if one runs, is handed back for the caller to abort, and
    /// the tunnel is marked inactive. Succeeds whether or not a forwarder
    /// runs. The same step records that a forwarder has ended by itself.
    pub fn stop_tunnel(&mut self, id: String) -> (r: Result<Option<ActiveTunnel>, EngineError>)
        requires
            old(self).wf(),
        ensures
            final(self).wf(),
            r is Ok,
            final(self)@ == old(self)@.stopped(id@),
            match r->Ok_0 {
                Some(w) => old(self)@.active.contains_key(id@) && w@ == old(self)@.active[id@],
                None => !old(self)@.active.contains_key(id@),
            },
    {
        let worker = self.take_worker(&id);
        self.set_tunnel_status(&id, TunnelStatus::Inactive);
        proof {
            assert(self@ =~= old(self)@.stopped(id@));
            lemma_stopped(old(self)@, id@);
        }
        Ok(worker)
    }

    /// Sets the status of endpoint `id`, where it is present.
    fn set_connection_status(&mut self, id: &String, status: ConnectionStatus)
        requires
            old(self).wf(),
        ensures
            final(self).wf(),
            final(self)@ == old(self)@.with_status(id@, status),
    {
        proof {
            lemma_contains(self.connections@, id@);
            lemma_with_status(self@, id@, status);
        }
        match find(&self.connections, id) {
            Some(i) => {
                let mut record = self.connections[i].clone();
                record.status = status;
                proof {
                    lemma_slot(self.connections@, i as int);
                    lemma_update(self.connections@, i as int, record);
                }
                self.connections.set(i, record);
                assert(self@ =~= old(self)@.with_status(id@, status));
            },
            None => {},
        }
    }

    /// Begins connecting endpoint `id`. Where the endpoint exists it is
    /// marked as connecting, and the caller is told to authenticate against
    /// the endpoint as it was; where it does not, the attempt is over.
    pub fn connect_ssh(&mut self, id: &str) -> (step: ConnectStep)
        requires
            old(self).wf(),
        ensures
            final(self).wf(),
            final(self)@ == old(self)@.with_status(id@, ConnectionStatus::Connecting),
            match step {
                ConnectStep::Authenticate(c) => old(self)@.connections.contains_key(id@) && c@
                    == old(self)@.connections[id@],
                ConnectStep::Finished(r) => !old(self)@.connections.contains_key(id@) && r@
                    == failure_view("Connection not found"@, ErrorCode::NotFound),
            },
    {
        let key = id.to_owned();
        proof {
            lemma_contains(self.connections@, id@);
        }
        match find(&self.connections, &key) {
            None => ConnectStep::Finished(
                ConnectionResult::failed("Connection not found".to_owned(), ErrorCode::NotFound),
            ),
            Some(i) => {
                proof {
                    lemma_slot(self.connections@, i as int);
                }
                let snapshot = self.connections[i].clone();
                self.set_connection_status(&key, ConnectionStatus::Connecting);
                ConnectStep::Authenticate(snapshot)
            },
        }
    }

    /// Records that authenticating endpoint `id` failed: the endpoint,
    /// where it is still present, is marked as in error, and no session is
    /// stored.
    pub fn connect_failed(&mut self, id: &str)
        requires
            old(self).wf(),
        ensures
            final(self).wf(),
            final(self)@ == old(self)@.with_status(id@, ConnectionStatus::Error),
    {
        let key = id.to_owned();
        self.set_connection_status(&key, ConnectionStatus::Error);
    }

    /// Records that a session for endpoint `id` was established at `now`:
    /// the session is registered, the endpoint is marked connected and
    /// stamped, and the tunnels declared under it are handed back for the
    /// caller to start. Where the endpoint is gone the state stays, the
    /// outcome is a failure, and the caller has to drop the session.
    pub fn session_established(&mut self, id: &str, now: Timestamp) -> (r: (
        ConnectionResult,
        Vec<SSHTunnel>,
    ))
        requires
            old(self).wf(),
        ensures
            final(self).wf(),
            old(self)@.connections.contains_key(id@) ==> final(self)@ == old(self)@.connected(
                id@,
                now,
            ) && r.0@ == success_view("SSH connection established"@) && distinct(r.1@) && as_map(
                r.1@,
            ) == old(self)@.tunnels.restrict(old(self)@.tunnels_of(id@)),
            !old(self)@.connections.contains_key(id@) ==> final(self)@ == old(self)@ && r.0@
                == failure_view("Connection not found"@, ErrorCode::NotFound) && r.1@.len() == 0,
    {
        let key = id.to_owned();
        proof {
            lemma_contains(self.connections@, id@);
            lemma_contains(self.ssh_sessions@, id@);
        }
        match find(&self.connections, &key) {
            None => (
                ConnectionResult::failed("Connection not found".to_owned(), ErrorCode::NotFound),
                Vec::new(),
            ),
            Some(i) => {
                let plan = self.get_tunnels_by_connection(id);
                let mut record = self.connections[i].clone();
                record.status = ConnectionStatus::Connected;
                record.last_connected = Some(now);
                proof {
                    lemma_slot(self.connections@, i as int);
                    lemma_update(self.connections@, i as int, record);
                    lemma_connected(self@, id@, now);
                }
                self.connections.set(i, record);
                if find(&self.ssh_sessions, &key).is_none() {
                    proof {
                        lemma_push(self.ssh_sessions@, key);
                    }
                    self.ssh_sessions.push(key);
                }
                assert(self@ =~= old(self)@.connected(id@, now));
                (ConnectionResult::ok("SSH connection established".to_owned()), plan)
            },
        }
    }

    /// Records that a forwarder was started from the snapshot `tunnel`.
    /// Where the tunnel is still declared under the same endpoint and that
    /// endpoint has a session, the forwarder is registered and the tunnel
    /// marked active. Otherwise nothing changes and the answer is `false`:
    /// the caller has to abort the forwarder.
    pub fn tunnel_started(&mut self, tunnel: SSHTunnel) -> (accepted: bool)
        requires
            old(self).wf(),
        ensures
            final(self).wf(),
            accepted == old(self)@.can_start(tunnel@),
            accepted ==> final(self)@ == old(self)@.started(tunnel@),
            !accepted ==> final(self)@ == old(self)@,
    {
        proof {
            lemma_contains(self.tunnels@, tunnel@.id);
            lemma_contains(self.ssh_sessions@, tunnel@.connection_id);
            lemma_contains(self.active_tunnels@, tunnel@.id);
        }
        let declared = match find(&self.tunnels, &tunnel.id) {
            Some(i) => {
                proof {
                    lemma_slot(self.tunnels@, i as int);
                }
                self.tunnels[i].connection_id == tunnel.connection_id
            },
            None => false,
        };
        if !declared || find(&self.ssh_sessions, &tunnel.connection_id).is_none() {
            return false;
        }
        let id = tunnel.id.clone();
        let handle = match tunnel.tunnel_type {
            TunnelType::Local => TunnelHandle::Local,
            TunnelType::Remote => TunnelHandle::Remote,
        };
        let entry = ActiveTunnel { tunnel, handle };
        proof {
            lemma_started(self@, tunnel@);
        }
        match find(&self.active_tunnels, &id) {
            Some(j) => {
                proof {
                    lemma_slot(self.active_tunnels@, j as int);
                    lemma_update(self.active_tunnels@, j as int, entry);
                }
                self.active_tunnels.set(j, entry);
            },
            None => {
                proof {
                    lemma_push(self.active_tunnels@, entry);
                }
                self.active_tunnels.push(entry);
            },
        }
        self.set_tunnel_status(&id, TunnelStatus::Active);
        assert(self@ =~= old(self)@.started(tunnel@));
        true
    }

    /// Records the forwarders that were started for a list of tunnels, one
    /// after the other as [`ConnectionManager::tunnel_started`] does, and
    /// hands back those that were refused, for the caller to abort. Where
    /// the list is what [`ConnectionManager::session_established`] handed
    /// out and nothing happened in between, none is refused and every
    /// tunnel of the endpoint ends active (see [`lemma_plan_starts_all`]).
    pub fn start_all_tunnels_for_connection(&mut self, started: &Vec<SSHTunnel>) -> (refused: Vec<
        SSHTunnel,
    >)
        requires
            old(self).wf(),
        ensures
            final(self).wf(),
            final(self)@ == old(self)@.started_each(
                tunnel_views(started@),
                started@.len() as int,
            ),
            tunnel_views(refused@) == old(self)@.refused_each(
                tunnel_views(started@),
                started@.len() as int,
            ),
    {
        let mut refused: Vec<SSHTunnel> = Vec::new();
        let ghost list = tunnel_views(started@);
        let ghost start = self@;
        let mut i: usize = 0;
        assert(tunnel_views(refused@) =~= start.refused_each(list, 0));
        while i < started.len()
            invariant
                i <= started.len(),
                self.wf(),
                list == tunnel_views(started@),
                self@ == start.started_each(list, i as int),
                tunnel_views(refused@) == start.refused_each(list, i as int),
            decreases started.len() - i,
        {
            let ghost before = tunnel_views(refused@);
            assert(list[i as int] == started@[i as int]@);
            if !self.tunnel_started(started[i].clone()) {
                refused.push(started[i].clone());
                assert(tunnel_views(refused@) =~= before.push(list[i as int]));
            }
            i += 1;
        }
        refused
    }

    /// Marks every tunnel of endpoint `id` inactive.
    fn idle_tunnels_of(&mut self, id: &String)
        requires
            distinct(old(self).tunnels@),
        ensures
            distinct(final(self).tunnels@),
            final(self).connections == old(self).connections,
            final(self).active_tunnels == old(self).active_tunnels,
            final(self).ssh_sessions == old(self).ssh_sessions,
            as_map(final(self).tunnels@) == tunnels_idle(as_map(old(self).tunnels@), id@),
    {
        let ghost before = self.tunnels@;
        let ghost connections = self.connections;
        let ghost active = self.active_tunnels;
        let ghost sessions = self.ssh_sessions;
        let mut i: usize = 0;
        while i < self.tunnels.len()
            invariant
                i <= self.tunnels.len(),
                self.tunnels@.len() == before.len(),
                self.connections == connections,
                self.active_tunnels == active,
                self.ssh_sessions == sessions,
                forall|j: int|
                    0 <= j < i ==> (#[trigger] self.tunnels@[j])@ == if before[j]@.connection_id
                        == id@ {
                        tunnel_at_rest(before[j]@)
                    } else {
                        before[j]@
                    },
                forall|j: int| i <= j < before.len() ==> #[trigger] self.tunnels@[j] == before[j],
            decreases self.tunnels.len() - i,
        {
            if self.tunnels[i].connection_id == *id {
                let mut record = self.tunnels[i].clone();
                record.status = TunnelStatus::Inactive;
                self.tunnels.set(i, record);
            }
            i += 1;
        }
        proof {
            let after = self.tunnels@;
            assert forall|j: int| 0 <= j < before.len() implies key_at(before, j) == key_at(
                after,
                j,
            ) by {
                assert(after[j]@.id == before[j]@.id);
            }
            lemma_same_keys(before, after);
            assert forall|k: Seq<char>| as_map(after).contains_key(k) implies #[trigger] as_map(
                after,
            )[k] == tunnels_idle(as_map(before), id@)[k] by {
                lemma_contains(before, k);
                lemma_has_key(before, k);
                let j = slot(before, k);
                assert(after[j]@.id == before[j]@.id);
            }
            assert(as_map(after) =~= tunnels_idle(as_map(before), id@));
        }
    }

    /// Disconnects endpoint `id`: its forwarders are taken out and handed
    /// back for the caller to abort, its tunnels are marked inactive, its
    /// session is unregistered and the endpoint is marked disconnected.
    /// Succeeds on an endpoint that is not connected; fails only where the
    /// endpoint does not exist.
    pub fn disconnect_ssh(&mut self, id: &str) -> (r: (ConnectionResult, Teardown))
        requires
            old(self).wf(),
        ensures
            final(self).wf(),
            distinct(r.1.workers@),
            as_map(r.1.workers@) == old(self)@.active.restrict(old(self)@.workers_of(id@)),
            r.1.close_session == old(self)@.sessions.contains(id@),
            !final(self)@.sessions.contains(id@),
            final(self)@.workers_of(id@) =~= Set::empty(),
            old(self)@.connections.contains_key(id@) ==> final(self)@ == old(self)@.disconnected(
                id@,
            ) && r.0@ == success_view("SSH connection and all tunnels closed gracefully"@),
            !old(self)@.connections.contains_key(id@) ==> final(self)@ == old(self)@ && r.0@
                == failure_view("Connection not found"@, ErrorCode::NotFound),
    {
        let key = id.to_owned();
        proof {
            lemma_contains(self.connections@, id@);
            lemma_contains(self.ssh_sessions@, id@);
        }
        match find(&self.connections, &key) {
            None => {
                proof {
                    lemma_empty(Seq::<ActiveTunnel>::empty());
                    assert(old(self)@.workers_of(id@) =~= Set::empty()) by {
                        assert forall|k: Seq<char>| !old(self)@.workers_of(id@).contains(k) by {
                            if old(self)@.workers_of(id@).contains(k) {
                                assert(old(self)@.active.contains_key(k));
                            }
                        }
                    }
                    assert(old(self)@.active.restrict(Set::empty()) =~= Map::empty());
                }
                (
                    ConnectionResult::failed(
                        "Connection not found".to_owned(),
                        ErrorCode::NotFound,
                    ),
                    Teardown { workers: Vec::new(), close_session: false },
                )
            },
            Some(i) => {
                let workers = remove_owned(&mut self.active_tunnels, &key);
                self.idle_tunnels_of(&key);
                let close_session = match find(&self.ssh_sessions, &key) {
                    Some(j) => {
                        proof {
                            lemma_slot(self.ssh_sessions@, j as int);
                            lemma_remove(self.ssh_sessions@, j as int);
                        }
                        self.ssh_sessions.remove(j);
                        true
                    },
                    None => false,
                };
                let mut record = self.connections[i].clone();
                record.status = ConnectionStatus::Disconnected;
                proof {
                    lemma_slot(self.connections@, i as int);
                    lemma_update(self.connections@, i as int, record);
                }
                self.connections.set(i, record);
                proof {
                    assert(self@ =~= old(self)@.disconnected(id@));
                    lemma_disconnected(old(self)@, id@);
                }
                (
                    ConnectionResult::ok(
                        "SSH connection and all tunnels closed gracefully".to_owned(),
                    ),
                    Teardown { workers, close_session },
                )
            },
        }
    }

    /// The ids of the endpoints that are marked connected: those whose
    /// session the health monitor probes.
    pub fn connected_ids(&self) -> (ids: Vec<String>)
        requires
            self.wf(),
        ensures
            distinct(ids@),
            as_map(ids@).dom() == self@.connected_ids(),
    {
        let mut ids: Vec<String> = Vec::new();
        let mut i: usize = 0;
        proof {
            lemma_empty(ids@);
        }
        while i < self.connections.len()
            invariant
                i <= self.connections.len(),
                distinct(self.connections@),
                distinct(ids@),
                forall|k: Seq<char>|
                    has_key(ids@, k) <==> exists|j: int|
                        0 <= j < i && key_at(self.connections@, j) == k
                            && self.connections@[j]@.status == ConnectionStatus::Connected,
            decreases self.connections.len() - i,
        {
            let connected = match self.connections[i].status {
                ConnectionStatus::Connected => true,
                _ => false,
            };
            if connected {
                let id = self.connections[i].id.clone();
                let ghost before = ids@;
                proof {
                    if has_key(before, id@) {
                        let j = choose|j: int|
                            0 <= j < i && key_at(self.connections@, j) == id@
                                && self.connections@[j]@.status == ConnectionStatus::Connected;
                        assert(key_at(self.connections@, j) != key_at(self.connections@, i as int));
                    }
                    lemma_push(before, id);
                }
                ids.push(id);
                proof {
                    assert forall|k: Seq<char>| has_key(ids@, k) <==> exists|j: int|
                        0 <= j < i + 1 && key_at(self.connections@, j) == k
                            && self.connections@[j]@.status == ConnectionStatus::Connected by {
                        lemma_contains(ids@, k);
                        lemma_contains(before, k);
                        if has_key(ids@, k) {
                            if k == id@ {
                                assert(key_at(self.connections@, i as int) == k);
                            } else {
                                let j = choose|j: int|
                                    0 <= j < i && key_at(self.connections@, j) == k
                                        && self.connections@[j]@.status
                                        == ConnectionStatus::Connected;
                                assert(0 <= j < i + 1);
                            }
                        }
                    }
                }
            }
            i += 1;
        }
        proof {
            assert forall|k: Seq<char>| as_map(ids@).dom().contains(k)
                <==> self@.connected_ids().contains(k) by {
                lemma_contains(ids@, k);
                lemma_contains(self.connections@, k);
                if has_key(ids@, k) {
                    let j = choose|j: int|
                        0 <= j < i && key_at(self.connections@, j) == k
                            && self.connections@[j]@.status == ConnectionStatus::Connected;
                    lemma_slot(self.connections@, j);
                }
                if self@.connected_ids().contains(k) {
                    lemma_has_key(self.connections@, k);
                }
            }
            assert(as_map(ids@).dom() =~= self@.connected_ids());
        }
        ids
    }

    /// Decides what follows a liveness probe of the session of endpoint
    /// `id`: a failed probe calls for a reconnection where the endpoint has
    /// a session and some tunnel under it asks for reconnection, and for
    /// nothing otherwise.
    pub fn check_connection_health(&self, id: &str, alive: bool) -> (action: HealthAction)
        requires
            self.wf(),
        ensures
            action == if self@.sessions.contains(id@) && self@.must_reconnect(id@, alive) {
                HealthAction::Reconnect
            } else {
                HealthAction::Nothing
            },
    {
        let key = id.to_owned();
        proof {
            lemma_contains(self.connections@, id@);
            lemma_contains(self.ssh_sessions@, id@);
        }
        if alive || find(&self.ssh_sessions, &key).is_none() || find(
            &self.connections,
            &key,
        ).is_none() {
            return HealthAction::Nothing;
        }
        let mut i: usize = 0;
        while i < self.tunnels.len()
            invariant
                i <= self.tunnels.len(),
                key@ == id@,
                !alive,
                distinct(self.tunnels@),
                self@.sessions.contains(id@),
                self@.connections.contains_key(id@),
                forall|j: int|
                    0 <= j < i ==> !(self.tunnels@[j]@.connection_id == id@
                        && self.tunnels@[j]@.auto_reconnect),
            decreases self.tunnels.len() - i,
        {
            if self.tunnels[i].connection_id == key && self.tunnels[i].auto_reconnect {
                proof {
                    lemma_slot(self.tunnels@, i as int);
                    assert(self@.tunnels.contains_key(key_at(self.tunnels@, i as int)));
                }
                return HealthAction::Reconnect;
            }
            i += 1;
        }
        proof {
            if self@.wants_reconnect(id@) {
                let k = choose|k: Seq<char>| #[trigger]
                    self@.tunnels.contains_key(k) && self@.tunnels[k].connection_id == id@
                        && self@.tunnels[k].auto_reconnect;
                lemma_contains(self.tunnels@, k);
                lemma_has_key(self.tunnels@, k);
            }
        }
        HealthAction::Nothing
    }

    /// Loads a stored catalog. While anything is live the catalog in memory
    /// is authoritative: nothing is loaded, and the outcome says so.
    /// Otherwise the document replaces the catalog, with every endpoint
    /// disconnected and every tunnel inactive. Of records with the same id
    /// the last one counts, and a tunnel whose endpoint the document does
    /// not hold is left out; the outcome says whether the document was
    /// taken as it stood.
    pub fn initialize(&mut self, connections: Vec<SSHConnection>, tunnels: Vec<SSHTunnel>) -> (outcome:
        Initialized)
        requires
            old(self).wf(),
        ensures
            final(self).wf(),
            old(self)@.live() ==> outcome == Initialized::KeptLive && final(self)@ == old(self)@,
            !old(self)@.live() ==> outcome == (Initialized::Loaded {
                complete: valid_document(connections@, tunnels@),
            }) && final(self)@ == EngineState::restored(
                last_wins(connections@),
                last_wins(tunnels@),
            ),
    {
        if self.ssh_sessions.len() > 0 || self.active_tunnels.len() > 0 {
            proof {
                if self.ssh_sessions.len() > 0 {
                    assert(has_key(self.ssh_sessions@, key_at(self.ssh_sessions@, 0)));
                    assert(self@.sessions.contains(key_at(self.ssh_sessions@, 0)));
                } else {
                    assert(has_key(self.active_tunnels@, key_at(self.active_tunnels@, 0)));
                    assert(self@.active.contains_key(key_at(self.active_tunnels@, 0)));
                }
            }
            return Initialized::KeptLive;
        }
        proof {
            lemma_empty(self.ssh_sessions@);
            lemma_empty(self.active_tunnels@);
            assert(self@.sessions =~= Set::empty());
            assert(!self@.live());
        }
        let (endpoints, unique_endpoints) = stored_endpoints(&connections);
        let (all, unique_tunnels) = stored_tunnels(&tunnels);
        let (rules, whole) = anchored_tunnels(&all, &endpoints);
        proof {
            let c = last_wins(connections@);
            let t = last_wins(tunnels@);
            lemma_folded_keys(connections@, connections@.len() as int);
            lemma_folded_keys(tunnels@, tunnels@.len() as int);
            assert forall|k: Seq<char>| #[trigger] c.contains_key(k) implies c[k].id == k by {
                let j = choose|j: int|
                    0 <= j < connections@.len() && key_at(connections@, j) == k && c[k]
                        == connections@[j]@;
            }
            assert forall|k: Seq<char>| #[trigger] t.contains_key(k) implies t[k].id == k by {
                let j = choose|j: int|
                    0 <= j < tunnels@.len() && key_at(tunnels@, j) == k && t[k] == tunnels@[j]@;
            }
            lemma_restored(c, t);
            assert(anchored(tunnels_at_rest(t), endpoints_at_rest(c)) =~= anchored(
                tunnels_at_rest(t),
                c,
            ));
            if unique_endpoints && unique_tunnels {
                lemma_last_wins_distinct(connections@);
                lemma_last_wins_distinct(tunnels@);
                if whole {
                    assert forall|i: int| 0 <= i < tunnels@.len() implies has_key(
                        connections@,
                        #[trigger] tunnels@[i]@.connection_id,
                    ) by {
                        let k = key_at(tunnels@, i);
                        lemma_slot(tunnels@, i);
                        lemma_contains(all@, k);
                        lemma_has_key(all@, k);
                        let j = slot(all@, k);
                        assert(has_key(endpoints@, all@[j]@.connection_id));
                        lemma_contains(endpoints@, all@[j]@.connection_id);
                        lemma_contains(connections@, tunnels@[i]@.connection_id);
                    }
                }
                if valid_document(connections@, tunnels@) {
                    assert forall|j: int| 0 <= j < all@.len() implies has_key(
                        endpoints@,
                        #[trigger] all@[j]@.connection_id,
                    ) by {
                        let k = key_at(all@, j);
                        lemma_slot(all@, j);
                        lemma_contains(tunnels@, k);
                        lemma_has_key(tunnels@, k);
                        let i = slot(tunnels@, k);
                        assert(has_key(connections@, tunnels@[i]@.connection_id));
                        lemma_contains(connections@, tunnels@[i]@.connection_id);
                        lemma_contains(endpoints@, all@[j]@.connection_id);
                    }
                }
            }
        }
        self.connections = endpoints;
        self.tunnels = rules;
        assert(self@ =~= EngineState::restored(last_wins(connections@), last_wins(tunnels@)));
        Initialized::Loaded { complete: unique_endpoints && unique_tunnels && whole }
    }

    /// Adds a new endpoint under a newly generated id, disconnected and
    /// created now, and returns the id. Refused when a required field is
    /// missing, and in the event that the generated id is already taken,
    /// which cannot happen while no stored id has the length of a generated
    /// one.
    pub fn add_connection(&mut self, connection: SSHConnection) -> (r: Result<String, EngineError>)
        requires
            old(self).wf(),
        ensures
            final(self).wf(),
            !valid_endpoint(connection@) ==> r is Err,
            valid_endpoint(connection@) && holds_no_generated_id(old(self)@.connections) ==> r
                is Ok,
            match r {
                Ok(id) => valid_endpoint(connection@) && id@.len() == ID_LENGTH && !old(
                    self,
                )@.connections.contains_key(id@) && final(self)@ == old(self)@.with_connection(
                    new_endpoint(connection@, id@, final(self)@.connections[id@].created_at),
                ) && final(self)@.connections[id@].created_at.nanos_since_epoch < 1_000_000_000,
                Err(e) => e == EngineError::InvalidInput && final(self)@ == old(self)@,
            },
    {
        let id = generate_id();
        let now = default_created_at();
        self.insert_connection(connection, id, now)
    }

    /// Adds a new tunnel under a newly generated id, inactive, and returns
    /// the id. Refused when no endpoint has the id in `connection_id`, and
    /// in the event that the generated id is already taken, which cannot
    /// happen while no stored id has the length of a generated one.
    pub fn add_tunnel(&mut self, tunnel: SSHTunnel) -> (r: Result<String, EngineError>)
        requires
            old(self).wf(),
        ensures
            final(self).wf(),
            !old(self)@.connections.contains_key(tunnel@.connection_id) ==> r is Err,
            old(self)@.connections.contains_key(tunnel@.connection_id) && holds_no_generated_id(
                old(self)@.tunnels,
            ) ==> r is Ok,
            match r {
                Ok(id) => old(self)@.connections.contains_key(tunnel@.connection_id) && id@.len()
                    == ID_LENGTH && !old(self)@.tunnels.contains_key(id@) && final(self)@ == old(
                    self,
                )@.with_tunnel(new_tunnel(tunnel@, id@)),
                Err(e) => e == EngineError::InvalidInput && final(self)@ == old(self)@,
            },
    {
        let id = generate_id();
        self.insert_tunnel(tunnel, id)
    }
}

} // verus!
