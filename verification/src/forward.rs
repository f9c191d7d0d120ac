//! The rules of a forwarding worker: where it listens and where it relays
//! to, how its accept loop reacts to what happens, and when its keepalive
//! gives up on the session.

use vstd::prelude::*;
use crate::model::{
    failure_view, ConnectionResult, ConnectionResultView, ErrorCode, SSHTunnel, TunnelType,
    TunnelView,
};
use crate::text::{address, address_text, join2};

verus! {

/// Seconds between two keepalive probes of a worker.
pub const KEEPALIVE_INTERVAL_SECS: u64 = 30;

/// The number of keepalive probes that must fail in a row before a worker
/// with automatic reconnection gives up on its session.
pub const KEEPALIVE_FAILURE_LIMIT: u32 = 3;

/// What a worker sets up before it accepts connections.
#[derive(Debug, PartialEq, Eq)]
pub enum ForwardPlan {
    /// Listen on the local address `bind_address`; relay each accepted
    /// socket through a direct channel to `remote_host:remote_port`.
    Local { bind_address: String, remote_host: String, remote_port: u16 },
    /// Ask the SSH peer to listen on `listen_port`; relay each accepted
    /// channel to the local address `dial_address`.
    Remote { listen_port: u16, dial_address: String },
}

/// What a [`ForwardPlan`] holds, as mathematical values.
pub enum ForwardPlanView {
    Local { bind_address: Seq<char>, remote_host: Seq<char>, remote_port: u16 },
    Remote { listen_port: u16, dial_address: Seq<char> },
}

impl View for ForwardPlan {
    type V = ForwardPlanView;

    open spec fn view(&self) -> ForwardPlanView {
        match self {
            ForwardPlan::Local { bind_address, remote_host, remote_port } => ForwardPlanView::Local {
                bind_address: bind_address@,
                remote_host: remote_host@,
                remote_port: *remote_port,
            },
            ForwardPlan::Remote { listen_port, dial_address } => ForwardPlanView::Remote {
                listen_port: *listen_port,
                dial_address: dial_address@,
            },
        }
    }
}

/// The plan of a local forward: bind every interface on the local port,
/// relay to the remote host and port.
pub open spec fn local_plan(t: TunnelView) -> ForwardPlanView {
    ForwardPlanView::Local {
        bind_address: address("0.0.0.0"@, t.local_port),
        remote_host: t.remote_host,
        remote_port: t.remote_port,
    }
}

/// The plan of a remote forward: have the peer listen on the remote port,
/// relay to the local port on the loopback address.
pub open spec fn remote_plan(t: TunnelView) -> ForwardPlanView {
    ForwardPlanView::Remote {
        listen_port: t.remote_port,
        dial_address: address("127.0.0.1"@, t.local_port),
    }
}

/// The plan of a tunnel, by its direction.
pub open spec fn plan_of(t: TunnelView) -> ForwardPlanView {
    match t.tunnel_type {
        TunnelType::Local => local_plan(t),
        TunnelType::Remote => remote_plan(t),
    }
}

/// What a worker for a local forward sets up.
pub fn start_local_forwarding(tunnel: &SSHTunnel) -> (plan: ForwardPlan)
    ensures
        plan@ == local_plan(tunnel@),
{
    ForwardPlan::Local {
        bind_address: address_text("0.0.0.0", tunnel.local_port),
        remote_host: tunnel.remote_host.clone(),
        remote_port: tunnel.remote_port,
    }
}

/// What a worker for a remote forward sets up.
pub fn start_remote_forwarding(tunnel: &SSHTunnel) -> (plan: ForwardPlan)
    ensures
        plan@ == remote_plan(tunnel@),
{
    ForwardPlan::Remote {
        listen_port: tunnel.remote_port,
        dial_address: address_text("127.0.0.1", tunnel.local_port),
    }
}

/// What the worker of a tunnel sets up, by the tunnel's direction.
pub fn forward_plan(tunnel: &SSHTunnel) -> (plan: ForwardPlan)
    ensures
        plan@ == plan_of(tunnel@),
{
    match tunnel.tunnel_type {
        TunnelType::Local => start_local_forwarding(tunnel),
        TunnelType::Remote => start_remote_forwarding(tunnel),
    }
}

/// The outcome reported when the local listener cannot be bound.
pub open spec fn bind_failure(bind_address: Seq<char>, detail: Seq<char>) -> ConnectionResultView {
    failure_view("Failed to bind to "@ + bind_address + ": "@ + detail, ErrorCode::BindFailed)
}

/// The outcome reported when the peer refuses to listen.
pub open spec fn listen_failure(name: Seq<char>, detail: Seq<char>) -> ConnectionResultView {
    failure_view(
        "Failed to create remote forwarding for tunnel "@ + name + ": "@ + detail,
        ErrorCode::ForwardListenFailed,
    )
}

/// The outcome of a worker that could not be set up: a local forward
/// failed to bind its address, a remote forward was refused by the peer.
/// No forwarder is to be recorded for the tunnel.
pub fn start_failed(tunnel: &SSHTunnel, detail: &str) -> (r: ConnectionResult)
    ensures
        r@ == match tunnel@.tunnel_type {
            TunnelType::Local => bind_failure(address("0.0.0.0"@, tunnel@.local_port), detail@),
            TunnelType::Remote => listen_failure(tunnel@.name, detail@),
        },
{
    match tunnel.tunnel_type {
        TunnelType::Local => {
            let bound = address_text("0.0.0.0", tunnel.local_port);
            let mut message = join2("Failed to bind to ", bound.as_str());
            message.append(": ");
            message.append(detail);
            ConnectionResult::failed(message, ErrorCode::BindFailed)
        },
        TunnelType::Remote => {
            let mut message = join2(
                "Failed to create remote forwarding for tunnel ",
                tunnel.name.as_str(),
            );
            message.append(": ");
            message.append(detail);
            ConnectionResult::failed(message, ErrorCode::ForwardListenFailed)
        },
    }
}

/// What happens to a running worker.
#[derive(Clone, Copy, Debug, PartialEq, Eq, Structural)]
pub enum WorkerEvent {
    /// A connection was accepted.
    Accepted,
    /// Accepting failed.
    AcceptFailed,
    /// The keepalive gave up on the session.
    KeepaliveEnded,
    /// The worker was told to stop.
    Cancelled,
}

/// What a worker does about an event.
#[derive(Clone, Copy, Debug, PartialEq, Eq, Structural)]
pub enum WorkerAction {
    /// Relay the accepted connection in a task of its own and go on
    /// accepting.
    Relay,
    /// Leave the accept loop and end the keepalive. With `report`, the
    /// worker ended by itself and the engine is to be told that the tunnel
    /// has stopped.
    Exit { report: bool },
}

/// The action that an event calls for: an accepted connection is relayed;
/// a failed accept or the end of the keepalive ends the worker by itself;
/// a cancelled worker ends without a report, since whoever cancelled it
/// has recorded that already.
pub open spec fn worker_action(event: WorkerEvent) -> WorkerAction {
    match event {
        WorkerEvent::Accepted => WorkerAction::Relay,
        WorkerEvent::AcceptFailed => WorkerAction::Exit { report: true },
        WorkerEvent::KeepaliveEnded => WorkerAction::Exit { report: true },
        WorkerEvent::Cancelled => WorkerAction::Exit { report: false },
    }
}

/// Decides what a worker does about an event.
pub fn worker_step(event: WorkerEvent) -> (action: WorkerAction)
    ensures
        action == worker_action(event),
{
    match event {
        WorkerEvent::Accepted => WorkerAction::Relay,
        WorkerEvent::AcceptFailed => WorkerAction::Exit { report: true },
        WorkerEvent::KeepaliveEnded => WorkerAction::Exit { report: true },
        WorkerEvent::Cancelled => WorkerAction::Exit { report: false },
    }
}

/// What the keepalive does after a probe.
#[derive(Clone, Copy, Debug, PartialEq, Eq, Structural)]
pub enum KeepaliveVerdict {
    /// Probe again after [`KEEPALIVE_INTERVAL_SECS`].
    Continue,
    /// Give up on the session: the keepalive ends.
    Escalate,
}

/// The keepalive of one worker: how many probes have failed in a row, and
/// whether the tunnel asks for automatic reconnection.
#[derive(Clone, Copy, Debug, PartialEq, Eq, Structural)]
pub struct Keepalive {
    pub failure_count: u32,
    pub auto_reconnect: bool,
}

/// The failure count after one more failed probe: it stops at the largest
/// value it can hold.
pub open spec fn bumped(count: u32) -> u32 {
    if count < u32::MAX {
        (count + 1) as u32
    } else {
        count
    }
}

impl Keepalive {
    /// The keepalive after a probe: a success clears the count, a failure
    /// adds to it.
    pub open spec fn after(self, probe_ok: bool) -> Keepalive {
        Keepalive {
            failure_count: if probe_ok {
                0
            } else {
                bumped(self.failure_count)
            },
            ..self
        }
    }

    /// The verdict after a probe: the keepalive gives up when the probe
    /// failed, the count has reached the limit and the tunnel asks for
    /// automatic reconnection.
    pub open spec fn verdict(self, probe_ok: bool) -> KeepaliveVerdict {
        if !probe_ok && self.after(probe_ok).failure_count >= KEEPALIVE_FAILURE_LIMIT
            && self.auto_reconnect {
            KeepaliveVerdict::Escalate
        } else {
            KeepaliveVerdict::Continue
        }
    }

    /// The keepalive of a worker that has not probed yet.
    pub fn new(auto_reconnect: bool) -> (k: Keepalive)
        ensures
            k == (Keepalive { failure_count: 0, auto_reconnect }),
    {
        Keepalive { failure_count: 0, auto_reconnect }
    }

    /// Records the outcome of a probe and says whether to go on.
    pub fn record(&mut self, probe_ok: bool) -> (verdict: KeepaliveVerdict)
        ensures
            *final(self) == old(self).after(probe_ok),
            verdict == old(self).verdict(probe_ok),
    {
        if probe_ok {
            self.failure_count = 0;
            KeepaliveVerdict::Continue
        } else {
            if self.failure_count < u32::MAX {
                self.failure_count = self.failure_count + 1;
            }
            if self.failure_count >= KEEPALIVE_FAILURE_LIMIT && self.auto_reconnect {
                KeepaliveVerdict::Escalate
            } else {
                KeepaliveVerdict::Continue
            }
        }
    }
}

/// With automatic reconnection, the third failure in a row ends the
/// keepalive, whatever came before.
pub proof fn lemma_third_failure_escalates(k: Keepalive)
    requires
        k.auto_reconnect,
    ensures
        k.after(false).after(false).verdict(false) == KeepaliveVerdict::Escalate,
{
}

/// After a success, two failures in a row do not end the keepalive.
pub proof fn lemma_success_resets(k: Keepalive)
    ensures
        k.after(true).verdict(false) == KeepaliveVerdict::Continue,
        k.after(true).after(false).verdict(false) == KeepaliveVerdict::Continue,
{
}

/// Without automatic reconnection the keepalive never ends by itself.
pub proof fn lemma_no_escalation_without_reconnect(k: Keepalive, probe_ok: bool)
    requires
        !k.auto_reconnect,
    ensures
        k.verdict(probe_ok) == KeepaliveVerdict::Continue,
{
}

} // verus!
