//! The state of the engine as mathematics: the catalog as two finite maps,
//! the session registry as a set, the running forwarders as a map; the
//! transitions between states; and the invariants that every transition
//! keeps.

use vstd::prelude::*;
use crate::model::{
    handle_for, ActiveTunnel, ActiveTunnelView, ConnectionStatus, ConnectionView, SSHTunnel,
    Timestamp, TunnelStatus, TunnelView,
};
use crate::table::owned_keys;

verus! {

/// An endpoint has the fields it needs: a host, a user name and a port
/// between 1 and 65535.
pub open spec fn valid_endpoint(c: ConnectionView) -> bool {
    c.host.len() > 0 && c.username.len() > 0 && c.port >= 1
}

/// The endpoint that is stored when `c` is added under `id` at time `now`.
pub open spec fn new_endpoint(c: ConnectionView, id: Seq<char>, now: Timestamp) -> ConnectionView {
    ConnectionView { id, status: ConnectionStatus::Disconnected, created_at: now, ..c }
}

/// The endpoint `cur` after an edit to `u`: the declared fields come from
/// `u`; id, status and both timestamps stay.
pub open spec fn merged_endpoint(cur: ConnectionView, u: ConnectionView) -> ConnectionView {
    ConnectionView {
        name: u.name,
        host: u.host,
        port: u.port,
        username: u.username,
        auth_method: u.auth_method,
        password: u.password,
        key_path: u.key_path,
        ..cur
    }
}

/// The tunnel that is stored when `t` is added under `id`.
pub open spec fn new_tunnel(t: TunnelView, id: Seq<char>) -> TunnelView {
    TunnelView { id, status: TunnelStatus::Inactive, ..t }
}

/// The tunnel `cur` after an edit to `u`: the declared fields come from
/// `u`; id, owning endpoint and status stay.
pub open spec fn merged_tunnel(cur: TunnelView, u: TunnelView) -> TunnelView {
    TunnelView {
        name: u.name,
        tunnel_type: u.tunnel_type,
        local_port: u.local_port,
        remote_host: u.remote_host,
        remote_port: u.remote_port,
        auto_reconnect: u.auto_reconnect,
        ..cur
    }
}

/// An endpoint as it comes back from storage: not connected.
pub open spec fn endpoint_at_rest(c: ConnectionView) -> ConnectionView {
    ConnectionView { status: ConnectionStatus::Disconnected, ..c }
}

/// A tunnel as it comes back from storage: not running.
pub open spec fn tunnel_at_rest(t: TunnelView) -> TunnelView {
    TunnelView { status: TunnelStatus::Inactive, ..t }
}

/// The endpoints `m`, each as it comes back from storage.
pub open spec fn endpoints_at_rest(m: Map<Seq<char>, ConnectionView>) -> Map<
    Seq<char>,
    ConnectionView,
> {
    m.map_values(|c: ConnectionView| endpoint_at_rest(c))
}

/// The tunnels `m`, each as it comes back from storage.
pub open spec fn tunnels_at_rest(m: Map<Seq<char>, TunnelView>) -> Map<Seq<char>, TunnelView> {
    m.map_values(|t: TunnelView| tunnel_at_rest(t))
}

/// The tunnels of `tunnels` whose endpoint is among `connections`.
pub open spec fn anchored(
    tunnels: Map<Seq<char>, TunnelView>,
    connections: Map<Seq<char>, ConnectionView>,
) -> Map<Seq<char>, TunnelView> {
    tunnels.restrict(
        Set::new(
            |k: Seq<char>|
                tunnels.contains_key(k) && connections.contains_key(tunnels[k].connection_id),
        ),
    )
}

/// The tunnels `m` with the status of tunnel `id` set, where it is present.
pub open spec fn tunnels_with_status(
    m: Map<Seq<char>, TunnelView>,
    id: Seq<char>,
    status: TunnelStatus,
) -> Map<Seq<char>, TunnelView> {
    if m.contains_key(id) {
        m.insert(id, TunnelView { status, ..m[id] })
    } else {
        m
    }
}

/// The tunnels `m` with every tunnel of endpoint `id` set inactive.
pub open spec fn tunnels_idle(m: Map<Seq<char>, TunnelView>, id: Seq<char>) -> Map<
    Seq<char>,
    TunnelView,
> {
    Map::new(
        |k: Seq<char>| m.contains_key(k),
        |k: Seq<char>|
            if m[k].connection_id == id {
                tunnel_at_rest(m[k])
            } else {
                m[k]
            },
    )
}

/// The id `k` is that of one of the first `n` tunnels of `list`.
pub open spec fn among(list: Seq<TunnelView>, n: int, k: Seq<char>) -> bool {
    exists|i: int| 0 <= i < n && i < list.len() && (#[trigger] list[i]).id == k
}

/// `list` holds the tunnels of endpoint `id` as the state declares them,
/// each once.
pub open spec fn lists_tunnels_of(s: EngineState, id: Seq<char>, list: Seq<TunnelView>) -> bool {
    &&& forall|i: int|
        0 <= i < list.len() ==> s.tunnels.contains_key((#[trigger] list[i]).id)
            && s.tunnels[list[i].id] == list[i] && list[i].connection_id == id
    &&& forall|i: int, j: int|
        0 <= i < j < list.len() ==> (#[trigger] list[i]).id != (#[trigger] list[j]).id
    &&& forall|k: Seq<char>| #[trigger]
        s.tunnels_of(id).contains(k) ==> among(list, list.len() as int, k)
}

/// The whole state of the engine.
#[verifier::ext_equal]
pub struct EngineState {
    /// The declared endpoints, by id.
    pub connections: Map<Seq<char>, ConnectionView>,
    /// The declared tunnels, by id.
    pub tunnels: Map<Seq<char>, TunnelView>,
    /// The ids of the endpoints that have a live session.
    pub sessions: Set<Seq<char>>,
    /// The running forwarders, by tunnel id.
    pub active: Map<Seq<char>, ActiveTunnelView>,
}

impl EngineState {
    /// The state without endpoints, tunnels, sessions or forwarders.
    pub open spec fn empty() -> EngineState {
        EngineState {
            connections: Map::empty(),
            tunnels: Map::empty(),
            sessions: Set::empty(),
            active: Map::empty(),
        }
    }

    /// The ids of the tunnels declared under endpoint `id`.
    pub open spec fn tunnels_of(self, id: Seq<char>) -> Set<Seq<char>> {
        owned_keys::<SSHTunnel>(self.tunnels, id)
    }

    /// The ids of the forwarders that run under endpoint `id`.
    pub open spec fn workers_of(self, id: Seq<char>) -> Set<Seq<char>> {
        owned_keys::<ActiveTunnel>(self.active, id)
    }

    /// Every record is stored under its own id.
    pub open spec fn keyed(self) -> bool {
        &&& forall|k: Seq<char>| #[trigger]
            self.connections.contains_key(k) ==> self.connections[k].id == k
        &&& forall|k: Seq<char>| #[trigger] self.tunnels.contains_key(k) ==> self.tunnels[k].id == k
        &&& forall|k: Seq<char>| #[trigger]
            self.active.contains_key(k) ==> self.active[k].tunnel.id == k
    }

    /// Every tunnel belongs to an endpoint that is present.
    pub open spec fn cascade(self) -> bool {
        forall|k: Seq<char>| #[trigger]
            self.tunnels.contains_key(k) ==> self.connections.contains_key(
                self.tunnels[k].connection_id,
            )
    }

    /// A forwarder runs only under an endpoint that has a session, for a
    /// tunnel that is declared under that endpoint; a session exists only
    /// for an endpoint that is present.
    pub open spec fn lifecycle(self) -> bool {
        &&& forall|k: Seq<char>| #[trigger]
            self.active.contains_key(k) ==> self.sessions.contains(
                self.active[k].tunnel.connection_id,
            )
        &&& forall|k: Seq<char>| #[trigger]
            self.active.contains_key(k) ==> self.tunnels.contains_key(k)
                && self.tunnels[k].connection_id == self.active[k].tunnel.connection_id
        &&& forall|k: Seq<char>| #[trigger]
            self.sessions.contains(k) ==> self.connections.contains_key(k)
    }

    /// The invariants of the engine together.
    pub open spec fn consistent(self) -> bool {
        self.keyed() && self.cascade() && self.lifecycle()
    }

    /// No endpoint is marked as connecting or connected, no tunnel as
    /// running, and nothing is live.
    pub open spec fn at_rest(self) -> bool {
        &&& forall|k: Seq<char>| #[trigger]
            self.connections.contains_key(k) ==> self.connections[k].status
                == ConnectionStatus::Disconnected
        &&& forall|k: Seq<char>| #[trigger]
            self.tunnels.contains_key(k) ==> self.tunnels[k].status == TunnelStatus::Inactive
        &&& self.sessions =~= Set::empty()
        &&& self.active =~= Map::empty()
    }

    /// The state with endpoint `c` stored under its id.
    pub open spec fn with_connection(self, c: ConnectionView) -> EngineState {
        EngineState { connections: self.connections.insert(c.id, c), ..self }
    }

    /// The state with tunnel `t` stored under its id.
    pub open spec fn with_tunnel(self, t: TunnelView) -> EngineState {
        EngineState { tunnels: self.tunnels.insert(t.id, t), ..self }
    }

    /// The state after endpoint `id` is deleted: the endpoint, its tunnels,
    /// its session and its forwarders are gone.
    pub open spec fn without_connection(self, id: Seq<char>) -> EngineState {
        EngineState {
            connections: self.connections.remove(id),
            tunnels: self.tunnels.remove_keys(self.tunnels_of(id)),
            sessions: self.sessions.remove(id),
            active: self.active.remove_keys(self.workers_of(id)),
        }
    }

    /// The state after tunnel `id` is deleted: the tunnel and its forwarder
    /// are gone.
    pub open spec fn without_tunnel(self, id: Seq<char>) -> EngineState {
        EngineState { tunnels: self.tunnels.remove(id), active: self.active.remove(id), ..self }
    }

    /// The state after the forwarder of tunnel `id` has stopped: no
    /// forwarder runs for it, and the tunnel, where it is present, is
    /// inactive.
    pub open spec fn stopped(self, id: Seq<char>) -> EngineState {
        EngineState {
            tunnels: tunnels_with_status(self.tunnels, id, TunnelStatus::Inactive),
            active: self.active.remove(id),
            ..self
        }
    }

    /// The state with the status of endpoint `id` set, where it is present.
    pub open spec fn with_status(self, id: Seq<char>, status: ConnectionStatus) -> EngineState {
        if self.connections.contains_key(id) {
            EngineState {
                connections: self.connections.insert(
                    id,
                    ConnectionView { status, ..self.connections[id] },
                ),
                ..self
            }
        } else {
            self
        }
    }

    /// The state after a session for endpoint `id` was established at
    /// `now`.
    pub open spec fn connected(self, id: Seq<char>, now: Timestamp) -> EngineState {
        EngineState {
            connections: self.connections.insert(
                id,
                ConnectionView {
                    status: ConnectionStatus::Connected,
                    last_connected: Some(now),
                    ..self.connections[id]
                },
            ),
            sessions: self.sessions.insert(id),
            ..self
        }
    }

    /// A forwarder started from the snapshot `t` can be recorded: the
    /// tunnel is still declared under the same endpoint, and that endpoint
    /// has a session.
    pub open spec fn can_start(self, t: TunnelView) -> bool {
        &&& self.tunnels.contains_key(t.id)
        &&& self.tunnels[t.id].connection_id == t.connection_id
        &&& self.sessions.contains(t.connection_id)
    }

    /// The state after a forwarder was started from the snapshot `t`.
    pub open spec fn started(self, t: TunnelView) -> EngineState {
        EngineState {
            tunnels: tunnels_with_status(self.tunnels, t.id, TunnelStatus::Active),
            active: self.active.insert(
                t.id,
                ActiveTunnelView { tunnel: t, handle: handle_for(t.tunnel_type) },
            ),
            ..self
        }
    }

    /// The state after endpoint `id`, which is present, was disconnected:
    /// its forwarders and its session are gone, its tunnels are inactive
    /// and the endpoint is disconnected.
    pub open spec fn disconnected(self, id: Seq<char>) -> EngineState {
        EngineState {
            connections: self.connections.insert(
                id,
                ConnectionView {
                    status: ConnectionStatus::Disconnected,
                    ..self.connections[id]
                },
            ),
            tunnels: tunnels_idle(self.tunnels, id),
            sessions: self.sessions.remove(id),
            active: self.active.remove_keys(self.workers_of(id)),
        }
    }

    /// Something is live: a session exists or a forwarder runs.
    pub open spec fn live(self) -> bool {
        !(self.sessions =~= Set::empty() && self.active =~= Map::empty())
    }

    /// The state that a stored catalog comes back as: every endpoint
    /// disconnected, every tunnel inactive, nothing live, and no tunnel
    /// without its endpoint.
    pub open spec fn restored(
        connections: Map<Seq<char>, ConnectionView>,
        tunnels: Map<Seq<char>, TunnelView>,
    ) -> EngineState {
        EngineState {
            connections: endpoints_at_rest(connections),
            tunnels: anchored(tunnels_at_rest(tunnels), connections),
            sessions: Set::empty(),
            active: Map::empty(),
        }
    }

    /// The ids of the endpoints that are marked connected.
    pub open spec fn connected_ids(self) -> Set<Seq<char>> {
        Set::new(
            |k: Seq<char>|
                self.connections.contains_key(k) && self.connections[k].status
                    == ConnectionStatus::Connected,
        )
    }

    /// The state after the first `n` forwarders of `list` were recorded one
    /// after the other, each where it could start.
    pub open spec fn started_each(self, list: Seq<TunnelView>, n: int) -> EngineState
        decreases n,
    {
        if n <= 0 {
            self
        } else {
            let before = self.started_each(list, n - 1);
            if before.can_start(list[n - 1]) {
                before.started(list[n - 1])
            } else {
                before
            }
        }
    }

    /// Those of the first `n` forwarders of `list` that could not be
    /// recorded, in their order.
    pub open spec fn refused_each(self, list: Seq<TunnelView>, n: int) -> Seq<TunnelView>
        decreases n,
    {
        if n <= 0 {
            Seq::empty()
        } else if self.started_each(list, n - 1).can_start(list[n - 1]) {
            self.refused_each(list, n - 1)
        } else {
            self.refused_each(list, n - 1).push(list[n - 1])
        }
    }

    /// The state in which a forwarder runs for each tunnel whose id is
    /// among the first `n` of `list`: the tunnel is active, and its
    /// forwarder is of its kind and holds the tunnel as it was declared.
    pub open spec fn started_among(self, list: Seq<TunnelView>, n: int) -> EngineState {
        EngineState {
            tunnels: Map::new(
                |k: Seq<char>| self.tunnels.contains_key(k),
                |k: Seq<char>|
                    if among(list, n, k) {
                        TunnelView { status: TunnelStatus::Active, ..self.tunnels[k] }
                    } else {
                        self.tunnels[k]
                    },
            ),
            active: Map::new(
                |k: Seq<char>| self.active.contains_key(k) || among(list, n, k),
                |k: Seq<char>|
                    if among(list, n, k) {
                        ActiveTunnelView {
                            tunnel: self.tunnels[k],
                            handle: handle_for(self.tunnels[k].tunnel_type),
                        }
                    } else {
                        self.active[k]
                    },
            ),
            ..self
        }
    }

    /// The state in which a forwarder runs for every tunnel of endpoint
    /// `id`: each of these tunnels is active and has one forwarder, of its
    /// kind, that holds the tunnel as it was declared; the tunnels and
    /// forwarders of other endpoints are as they were.
    pub open spec fn all_started(self, id: Seq<char>) -> EngineState {
        EngineState {
            tunnels: Map::new(
                |k: Seq<char>| self.tunnels.contains_key(k),
                |k: Seq<char>|
                    if self.tunnels[k].connection_id == id {
                        TunnelView { status: TunnelStatus::Active, ..self.tunnels[k] }
                    } else {
                        self.tunnels[k]
                    },
            ),
            active: Map::new(
                |k: Seq<char>| self.active.contains_key(k) || self.tunnels_of(id).contains(k),
                |k: Seq<char>|
                    if self.tunnels_of(id).contains(k) {
                        ActiveTunnelView {
                            tunnel: self.tunnels[k],
                            handle: handle_for(self.tunnels[k].tunnel_type),
                        }
                    } else {
                        self.active[k]
                    },
            ),
            ..self
        }
    }

    /// Some tunnel of endpoint `id` asks for reconnection.
    pub open spec fn wants_reconnect(self, id: Seq<char>) -> bool {
        exists|k: Seq<char>| #[trigger]
            self.tunnels.contains_key(k) && self.tunnels[k].connection_id == id
                && self.tunnels[k].auto_reconnect
    }

    /// A liveness probe of endpoint `id` with the given outcome calls for a
    /// reconnection: the endpoint is present, some tunnel under it asks for
    /// it, and the probe failed.
    pub open spec fn must_reconnect(self, id: Seq<char>, alive: bool) -> bool {
        !alive && self.connections.contains_key(id) && self.wants_reconnect(id)
    }
}

/// The empty state is consistent and at rest.
pub proof fn lemma_empty_consistent()
    ensures
        EngineState::empty().consistent(),
        EngineState::empty().at_rest(),
{
}

/// Storing an endpoint under its id keeps the invariants.
pub proof fn lemma_with_connection(s: EngineState, c: ConnectionView)
    requires
        s.consistent(),
    ensures
        s.with_connection(c).consistent(),
{
}

/// Storing a tunnel of a present endpoint keeps the invariants, provided no
/// forwarder runs under its id for another endpoint.
pub proof fn lemma_with_tunnel(s: EngineState, t: TunnelView)
    requires
        s.consistent(),
        s.connections.contains_key(t.connection_id),
        s.active.contains_key(t.id) ==> s.active[t.id].tunnel.connection_id == t.connection_id,
    ensures
        s.with_tunnel(t).consistent(),
{
    let n = s.with_tunnel(t);
    assert forall|k: Seq<char>| #[trigger] n.tunnels.contains_key(k) implies n.connections.contains_key(
        n.tunnels[k].connection_id,
    ) by {
        if k != t.id {
            assert(s.tunnels.contains_key(k));
        }
    }
    assert forall|k: Seq<char>| #[trigger] n.active.contains_key(k) implies n.tunnels.contains_key(k)
        && n.tunnels[k].connection_id == n.active[k].tunnel.connection_id by {
        assert(s.active.contains_key(k));
    }
}

/// Deleting an endpoint keeps the invariants, and leaves no tunnel, session
/// or forwarder under its id.
pub proof fn lemma_without_connection(s: EngineState, id: Seq<char>)
    requires
        s.consistent(),
    ensures
        s.without_connection(id).consistent(),
        !s.without_connection(id).connections.contains_key(id),
        s.without_connection(id).tunnels_of(id) =~= Set::empty(),
        s.without_connection(id).workers_of(id) =~= Set::empty(),
        !s.without_connection(id).sessions.contains(id),
{
    let n = s.without_connection(id);
    assert forall|k: Seq<char>| #[trigger] n.tunnels.contains_key(k) implies n.connections.contains_key(
        n.tunnels[k].connection_id,
    ) by {
        assert(s.tunnels.contains_key(k));
    }
    assert forall|k: Seq<char>| #[trigger] n.active.contains_key(k) implies n.sessions.contains(
        n.active[k].tunnel.connection_id,
    ) && n.tunnels.contains_key(k) && n.tunnels[k].connection_id
        == n.active[k].tunnel.connection_id by {
        assert(s.active.contains_key(k));
    }
    assert forall|k: Seq<char>| #[trigger] n.sessions.contains(k) implies n.connections.contains_key(
        k,
    ) by {
        assert(s.sessions.contains(k));
    }
}

/// Deleting a tunnel keeps the invariants.
pub proof fn lemma_without_tunnel(s: EngineState, id: Seq<char>)
    requires
        s.consistent(),
    ensures
        s.without_tunnel(id).consistent(),
{
    let n = s.without_tunnel(id);
    assert forall|k: Seq<char>| #[trigger] n.tunnels.contains_key(k) implies n.connections.contains_key(
        n.tunnels[k].connection_id,
    ) by {
        assert(s.tunnels.contains_key(k));
    }
    assert forall|k: Seq<char>| #[trigger] n.active.contains_key(k) implies n.sessions.contains(
        n.active[k].tunnel.connection_id,
    ) && n.tunnels.contains_key(k) && n.tunnels[k].connection_id
        == n.active[k].tunnel.connection_id by {
        assert(s.active.contains_key(k));
    }
}

/// Stopping a forwarder keeps the invariants.
pub proof fn lemma_stopped(s: EngineState, id: Seq<char>)
    requires
        s.consistent(),
    ensures
        s.stopped(id).consistent(),
{
    let n = s.stopped(id);
    assert forall|k: Seq<char>| #[trigger] n.tunnels.contains_key(k) implies n.connections.contains_key(
        n.tunnels[k].connection_id,
    ) && n.tunnels[k].id == k by {
        assert(s.tunnels.contains_key(k));
    }
    assert forall|k: Seq<char>| #[trigger] n.active.contains_key(k) implies n.sessions.contains(
        n.active[k].tunnel.connection_id,
    ) && n.tunnels.contains_key(k) && n.tunnels[k].connection_id
        == n.active[k].tunnel.connection_id by {
        assert(s.active.contains_key(k));
    }
}

/// Setting the status of an endpoint keeps the invariants.
pub proof fn lemma_with_status(s: EngineState, id: Seq<char>, status: ConnectionStatus)
    requires
        s.consistent(),
    ensures
        s.with_status(id, status).consistent(),
{
}

/// Recording a session for a present endpoint keeps the invariants.
pub proof fn lemma_connected(s: EngineState, id: Seq<char>, now: Timestamp)
    requires
        s.consistent(),
        s.connections.contains_key(id),
    ensures
        s.connected(id, now).consistent(),
{
}

/// Recording a forwarder that can start keeps the invariants.
pub proof fn lemma_started(s: EngineState, t: TunnelView)
    requires
        s.consistent(),
        s.can_start(t),
    ensures
        s.started(t).consistent(),
{
    let n = s.started(t);
    assert forall|k: Seq<char>| #[trigger] n.tunnels.contains_key(k) implies n.connections.contains_key(
        n.tunnels[k].connection_id,
    ) && n.tunnels[k].id == k by {
        assert(s.tunnels.contains_key(k));
    }
    assert forall|k: Seq<char>| #[trigger] n.active.contains_key(k) implies n.sessions.contains(
        n.active[k].tunnel.connection_id,
    ) && n.tunnels.contains_key(k) && n.tunnels[k].connection_id
        == n.active[k].tunnel.connection_id by {
        if k != t.id {
            assert(s.active.contains_key(k));
        }
    }
}

/// Disconnecting a present endpoint keeps the invariants, and leaves no
/// session and no forwarder under its id.
pub proof fn lemma_disconnected(s: EngineState, id: Seq<char>)
    requires
        s.consistent(),
        s.connections.contains_key(id),
    ensures
        s.disconnected(id).consistent(),
        !s.disconnected(id).sessions.contains(id),
        s.disconnected(id).workers_of(id) =~= Set::empty(),
{
    let n = s.disconnected(id);
    assert forall|k: Seq<char>| #[trigger] n.tunnels.contains_key(k) implies n.connections.contains_key(
        n.tunnels[k].connection_id,
    ) && n.tunnels[k].id == k by {
        assert(s.tunnels.contains_key(k));
    }
    assert forall|k: Seq<char>| #[trigger] n.active.contains_key(k) implies n.sessions.contains(
        n.active[k].tunnel.connection_id,
    ) && n.tunnels.contains_key(k) && n.tunnels[k].connection_id
        == n.active[k].tunnel.connection_id && n.active[k].tunnel.id == k by {
        assert(s.active.contains_key(k));
    }
    assert forall|k: Seq<char>| #[trigger] n.sessions.contains(k) implies n.connections.contains_key(
        k,
    ) by {
        assert(s.sessions.contains(k));
    }
    assert forall|k: Seq<char>| #[trigger] n.connections.contains_key(k) implies n.connections[k].id
        == k by {
        assert(s.connections.contains_key(k));
    }
}

/// Deleting a tunnel twice leaves the state that deleting it once leaves.
pub proof fn lemma_delete_tunnel_twice(s: EngineState, id: Seq<char>)
    ensures
        s.without_tunnel(id).without_tunnel(id) == s.without_tunnel(id),
{
    let once = s.without_tunnel(id);
    assert(once.tunnels.remove(id) =~= once.tunnels);
    assert(once.active.remove(id) =~= once.active);
    assert(once.without_tunnel(id) =~= once);
}

/// Stopping a tunnel twice leaves the state that stopping it once leaves.
pub proof fn lemma_stop_tunnel_twice(s: EngineState, id: Seq<char>)
    ensures
        s.stopped(id).stopped(id) == s.stopped(id),
{
    let once = s.stopped(id);
    assert(once.active.remove(id) =~= once.active);
    assert(tunnels_with_status(once.tunnels, id, TunnelStatus::Inactive) =~= once.tunnels);
    assert(once.stopped(id) =~= once);
}

/// Stopping a tunnel that is inactive and has no forwarder changes nothing.
pub proof fn lemma_stop_inactive(s: EngineState, id: Seq<char>)
    requires
        !s.active.contains_key(id),
        s.tunnels.contains_key(id) ==> s.tunnels[id].status == TunnelStatus::Inactive,
    ensures
        s.stopped(id) == s,
{
    assert(s.active.remove(id) =~= s.active);
    assert(tunnels_with_status(s.tunnels, id, TunnelStatus::Inactive) =~= s.tunnels);
    assert(s.stopped(id) =~= s);
}

/// Disconnecting an endpoint twice leaves the state that disconnecting it
/// once leaves.
pub proof fn lemma_disconnect_twice(s: EngineState, id: Seq<char>)
    requires
        s.connections.contains_key(id),
    ensures
        s.disconnected(id).connections.contains_key(id),
        s.disconnected(id).disconnected(id) == s.disconnected(id),
{
    let once = s.disconnected(id);
    assert(once.workers_of(id) =~= Set::empty()) by {
        assert forall|k: Seq<char>| !once.workers_of(id).contains(k) by {}
    }
    assert(once.active.remove_keys(once.workers_of(id)) =~= once.active);
    assert(once.sessions.remove(id) =~= once.sessions);
    assert(tunnels_idle(once.tunnels, id) =~= once.tunnels);
    assert(once.connections.insert(
        id,
        ConnectionView { status: ConnectionStatus::Disconnected, ..once.connections[id] },
    ) =~= once.connections);
    assert(once.disconnected(id) =~= once);
}

/// A consistent catalog at rest comes back from storage as it was.
pub proof fn lemma_round_trip(s: EngineState)
    requires
        s.consistent(),
        s.at_rest(),
    ensures
        EngineState::restored(s.connections, s.tunnels) == s,
{
    let back = EngineState::restored(s.connections, s.tunnels);
    assert(back.connections =~= s.connections);
    assert(back.tunnels =~= s.tunnels);
    assert(back =~= s);
}

/// Tunnels that all have their endpoint come back from storage each and
/// every one.
pub proof fn lemma_anchored_all(
    tunnels: Map<Seq<char>, TunnelView>,
    connections: Map<Seq<char>, ConnectionView>,
)
    requires
        forall|k: Seq<char>| #[trigger]
            tunnels.contains_key(k) ==> connections.contains_key(tunnels[k].connection_id),
    ensures
        anchored(tunnels, connections) == tunnels,
        EngineState::restored(connections, tunnels).tunnels == tunnels_at_rest(tunnels),
{
    assert(anchored(tunnels, connections) =~= tunnels);
    assert(anchored(tunnels_at_rest(tunnels), connections) =~= tunnels_at_rest(tunnels));
}

/// What comes back from storage is consistent and at rest, provided every
/// record was stored under its id.
pub proof fn lemma_restored(
    connections: Map<Seq<char>, ConnectionView>,
    tunnels: Map<Seq<char>, TunnelView>,
)
    requires
        forall|k: Seq<char>| #[trigger] connections.contains_key(k) ==> connections[k].id == k,
        forall|k: Seq<char>| #[trigger] tunnels.contains_key(k) ==> tunnels[k].id == k,
    ensures
        EngineState::restored(connections, tunnels).consistent(),
        EngineState::restored(connections, tunnels).at_rest(),
{
    let back = EngineState::restored(connections, tunnels);
    assert forall|k: Seq<char>| #[trigger] back.tunnels.contains_key(k) implies back.connections.contains_key(
        back.tunnels[k].connection_id,
    ) && back.tunnels[k].id == k && back.tunnels[k].status == TunnelStatus::Inactive by {
        assert(tunnels.contains_key(k));
    }
    assert forall|k: Seq<char>| #[trigger] back.connections.contains_key(k) implies back.connections[k].id
        == k by {
        assert(connections.contains_key(k));
    }
}

/// Recording the forwarders of the first `n` tunnels of an endpoint that
/// has a session refuses none of them and leaves each of these tunnels
/// running.
pub proof fn lemma_started_among(s: EngineState, id: Seq<char>, list: Seq<TunnelView>, n: int)
    requires
        s.consistent(),
        s.sessions.contains(id),
        lists_tunnels_of(s, id, list),
        0 <= n <= list.len(),
    ensures
        s.started_each(list, n) == s.started_among(list, n),
        s.refused_each(list, n) == Seq::<TunnelView>::empty(),
    decreases n,
{
    if n <= 0 {
        assert(s.started_among(list, n) =~= s);
    } else {
        lemma_started_among(s, id, list, n - 1);
        let before = s.started_among(list, n - 1);
        let t = list[n - 1];
        assert(!among(list, n - 1, t.id)) by {
            if among(list, n - 1, t.id) {
                let i = choose|i: int| 0 <= i < n - 1 && i < list.len() && (#[trigger] list[i]).id
                    == t.id;
                assert(list[i].id != list[n - 1].id);
            }
        }
        assert(before.can_start(t));
        let after = before.started(t);
        let want = s.started_among(list, n);
        assert forall|k: Seq<char>| among(list, n, k) <==> (k == t.id || among(list, n - 1, k)) by {
            if among(list, n, k) {
                let i = choose|i: int| 0 <= i < n && i < list.len() && (#[trigger] list[i]).id == k;
                if i < n - 1 {
                    assert(among(list, n - 1, k));
                }
            }
            if among(list, n - 1, k) {
                let i = choose|i: int| 0 <= i < n - 1 && i < list.len() && (#[trigger] list[i]).id
                    == k;
                assert(0 <= i < n && list[i].id == k);
            }
            if k == t.id {
                assert(list[n - 1].id == k);
            }
        }
        assert(after.tunnels =~= want.tunnels);
        assert(after.active =~= want.active);
        assert(after =~= want);
    }
}

/// Recording a forwarder for every tunnel of an endpoint that has a
/// session, each started from the tunnel as it is declared, refuses none
/// and leaves every tunnel of the endpoint active with one forwarder of
/// its kind, and every other tunnel and forwarder as it was.
pub proof fn lemma_all_started(s: EngineState, id: Seq<char>, list: Seq<TunnelView>)
    requires
        s.consistent(),
        s.sessions.contains(id),
        lists_tunnels_of(s, id, list),
    ensures
        s.started_each(list, list.len() as int) == s.all_started(id),
        s.refused_each(list, list.len() as int) == Seq::<TunnelView>::empty(),
{
    let n = list.len() as int;
    lemma_started_among(s, id, list, n);
    let got = s.started_among(list, n);
    let want = s.all_started(id);
    assert forall|k: Seq<char>| s.tunnels.contains_key(k) implies (among(list, n, k)
        <==> s.tunnels[k].connection_id == id) by {
        if among(list, n, k) {
            let i = choose|i: int| 0 <= i < n && i < list.len() && (#[trigger] list[i]).id == k;
            assert(s.tunnels[list[i].id] == list[i]);
        }
        if s.tunnels[k].connection_id == id {
            assert(s.tunnels_of(id).contains(k));
        }
    }
    assert forall|k: Seq<char>| among(list, n, k) <==> s.tunnels_of(id).contains(k) by {
        if among(list, n, k) {
            let i = choose|i: int| 0 <= i < n && i < list.len() && (#[trigger] list[i]).id == k;
            assert(s.tunnels.contains_key(list[i].id));
        }
    }
    assert(got.tunnels =~= want.tunnels);
    assert(got.active =~= want.active);
    assert(got =~= want);
}

} // verus!
