use vesper::forward::{
    forward_plan, start_failed, start_local_forwarding, start_remote_forwarding, worker_step,
    ForwardPlan, Keepalive, KeepaliveVerdict, WorkerAction, WorkerEvent,
    KEEPALIVE_FAILURE_LIMIT, KEEPALIVE_INTERVAL_SECS,
};
use vesper::model::{ConnectionResult, SSHTunnel, TunnelStatus, TunnelType};

fn rule(kind: TunnelType) -> SSHTunnel {
    SSHTunnel {
        id: "t".to_string(),
        connection_id: "e".to_string(),
        name: "db".to_string(),
        tunnel_type: kind,
        local_port: 15432,
        remote_host: "10.0.0.5".to_string(),
        remote_port: 5432,
        status: TunnelStatus::Inactive,
        auto_reconnect: true,
    }
}

#[test]
fn local_forward_binds_every_interface() {
    let plan = ForwardPlan::Local {
        bind_address: "0.0.0.0:15432".to_string(),
        remote_host: "10.0.0.5".to_string(),
        remote_port: 5432,
    };
    assert_eq!(start_local_forwarding(&rule(TunnelType::Local)), plan);
    assert_eq!(forward_plan(&rule(TunnelType::Local)), plan);
}

#[test]
fn remote_forward_dials_the_loopback_address() {
    let plan =
        ForwardPlan::Remote { listen_port: 5432, dial_address: "127.0.0.1:15432".to_string() };
    assert_eq!(start_remote_forwarding(&rule(TunnelType::Remote)), plan);
    assert_eq!(forward_plan(&rule(TunnelType::Remote)), plan);
}

#[test]
fn start_failures_are_reported_by_direction() {
    assert_eq!(
        start_failed(&rule(TunnelType::Local), "Address already in use"),
        ConnectionResult {
            success: false,
            message: "Failed to bind to 0.0.0.0:15432: Address already in use".to_string(),
            error_code: Some("BIND_FAILED".to_string()),
        }
    );
    assert_eq!(
        start_failed(&rule(TunnelType::Remote), "denied"),
        ConnectionResult {
            success: false,
            message: "Failed to create remote forwarding for tunnel db: denied".to_string(),
            error_code: Some("FORWARD_LISTEN_FAILED".to_string()),
        }
    );
}

#[test]
fn worker_relays_until_something_ends_it() {
    assert_eq!(worker_step(WorkerEvent::Accepted), WorkerAction::Relay);
    assert_eq!(worker_step(WorkerEvent::AcceptFailed), WorkerAction::Exit { report: true });
    assert_eq!(worker_step(WorkerEvent::KeepaliveEnded), WorkerAction::Exit { report: true });
    assert_eq!(worker_step(WorkerEvent::Cancelled), WorkerAction::Exit { report: false });
}

#[test]
fn keepalive_gives_up_on_the_third_failure_in_a_row() {
    let mut k = Keepalive::new(true);
    assert_eq!(k, Keepalive { failure_count: 0, auto_reconnect: true });
    assert_eq!(k.record(false), KeepaliveVerdict::Continue);
    assert_eq!(k.failure_count, 1);
    assert_eq!(k.record(false), KeepaliveVerdict::Continue);
    assert_eq!(k.failure_count, 2);
    assert_eq!(k.record(false), KeepaliveVerdict::Escalate);
    assert_eq!(k.failure_count, 3);
    assert_eq!(KEEPALIVE_FAILURE_LIMIT, 3);
    assert_eq!(KEEPALIVE_INTERVAL_SECS, 30);
}

#[test]
fn keepalive_success_clears_the_count() {
    let mut k = Keepalive::new(true);
    assert_eq!(k.record(false), KeepaliveVerdict::Continue);
    assert_eq!(k.record(false), KeepaliveVerdict::Continue);
    assert_eq!(k.record(true), KeepaliveVerdict::Continue);
    assert_eq!(k.failure_count, 0);
    assert_eq!(k.record(false), KeepaliveVerdict::Continue);
    assert_eq!(k.record(false), KeepaliveVerdict::Continue);
    assert_eq!(k.record(false), KeepaliveVerdict::Escalate);
}

#[test]
fn keepalive_without_reconnection_keeps_probing() {
    let mut k = Keepalive::new(false);
    for expected in 1..=10u32 {
        assert_eq!(k.record(false), KeepaliveVerdict::Continue);
        assert_eq!(k.failure_count, expected);
    }
}

#[test]
fn keepalive_count_stops_at_its_largest_value() {
    let mut k = Keepalive { failure_count: u32::MAX - 1, auto_reconnect: false };
    assert_eq!(k.record(false), KeepaliveVerdict::Continue);
    assert_eq!(k.failure_count, u32::MAX);
    assert_eq!(k.record(false), KeepaliveVerdict::Continue);
    assert_eq!(k.failure_count, u32::MAX);
    let mut eager = Keepalive { failure_count: u32::MAX, auto_reconnect: true };
    assert_eq!(eager.record(false), KeepaliveVerdict::Escalate);
}
