use vesper::fresh::{generate_id, ID_LENGTH};
use vesper::manager::{
    ConnectStep, ConnectionManager, HealthAction, Initialized, HEALTH_INTERVAL_SECS,
    RECONNECT_DELAY_SECS,
};
use vesper::model::{
    AuthMethod, ConnectionResult, ConnectionStatus, EngineError, ErrorCode, SSHConnection,
    SSHTunnel, Timestamp, TunnelHandle, TunnelStatus, TunnelType,
};

fn at(secs: u64) -> Timestamp {
    Timestamp { secs_since_epoch: secs, nanos_since_epoch: 7 }
}

fn endpoint(name: &str) -> SSHConnection {
    SSHConnection {
        id: "ignored".to_string(),
        name: name.to_string(),
        host: "127.0.0.1".to_string(),
        port: 22022,
        username: "u".to_string(),
        auth_method: AuthMethod::Password,
        password: Some("pw".to_string()),
        key_path: None,
        status: ConnectionStatus::Connected,
        last_connected: None,
        created_at: at(1),
    }
}

fn tunnel(owner: &str, name: &str, local_port: u16) -> SSHTunnel {
    SSHTunnel {
        id: "ignored".to_string(),
        connection_id: owner.to_string(),
        name: name.to_string(),
        tunnel_type: TunnelType::Local,
        local_port,
        remote_host: "127.0.0.1".to_string(),
        remote_port: 5432,
        status: TunnelStatus::Active,
        auto_reconnect: false,
    }
}

fn sorted_ids(list: &[SSHTunnel]) -> Vec<String> {
    let mut ids: Vec<String> = list.iter().map(|t| t.id.clone()).collect();
    ids.sort();
    ids
}

/// A manager with endpoint `e` and tunnels `t1`, `t2` under it.
fn catalog() -> ConnectionManager {
    let mut m = ConnectionManager::new();
    m.insert_connection(endpoint("E"), "e".to_string(), at(100)).unwrap();
    m.insert_tunnel(tunnel("e", "T1", 15432), "t1".to_string()).unwrap();
    m.insert_tunnel(tunnel("e", "T2", 15433), "t2".to_string()).unwrap();
    m
}

/// The catalog of `catalog`, connected, with both forwarders running.
fn connected() -> ConnectionManager {
    let mut m = catalog();
    assert!(matches!(m.connect_ssh("e"), ConnectStep::Authenticate(_)));
    let (result, plan) = m.session_established("e", at(200));
    assert!(result.success);
    for t in plan {
        assert!(m.tunnel_started(t));
    }
    m
}

#[test]
fn new_manager_is_empty() {
    let m = ConnectionManager::new();
    assert!(m.get_connections().is_empty());
    assert!(m.get_tunnels().is_empty());
    assert!(m.connected_ids().is_empty());
    assert_eq!(m.get_connection("e"), None);
}

#[test]
fn insert_connection_stamps_id_status_and_creation_time() {
    let mut m = ConnectionManager::new();
    let mut given = endpoint("E");
    given.last_connected = Some(at(5));
    assert_eq!(m.insert_connection(given, "e".to_string(), at(100)), Ok("e".to_string()));
    let stored = m.get_connection("e").unwrap();
    let mut expected = endpoint("E");
    expected.id = "e".to_string();
    expected.status = ConnectionStatus::Disconnected;
    expected.created_at = at(100);
    expected.last_connected = Some(at(5));
    assert_eq!(stored, expected);
    assert_eq!(m.get_connections(), vec![expected]);
}

#[test]
fn insert_connection_refuses_missing_fields() {
    let mut m = ConnectionManager::new();
    let mut no_host = endpoint("E");
    no_host.host = String::new();
    assert_eq!(
        m.insert_connection(no_host, "a".to_string(), at(1)),
        Err(EngineError::InvalidInput)
    );
    let mut no_user = endpoint("E");
    no_user.username = String::new();
    assert_eq!(
        m.insert_connection(no_user, "b".to_string(), at(1)),
        Err(EngineError::InvalidInput)
    );
    let mut no_port = endpoint("E");
    no_port.port = 0;
    assert_eq!(
        m.insert_connection(no_port, "c".to_string(), at(1)),
        Err(EngineError::InvalidInput)
    );
    assert!(m.get_connections().is_empty());
    let mut edge = endpoint("");
    edge.port = 1;
    assert!(m.insert_connection(edge, "d".to_string(), at(1)).is_ok());
    let mut top = endpoint("E");
    top.port = 65535;
    assert!(m.insert_connection(top, "f".to_string(), at(1)).is_ok());
}

#[test]
fn insert_connection_refuses_an_id_in_use() {
    let mut m = catalog();
    assert_eq!(
        m.insert_connection(endpoint("other"), "e".to_string(), at(1)),
        Err(EngineError::InvalidInput)
    );
    assert_eq!(m.get_connection("e").unwrap().name, "E");
}

#[test]
fn add_connection_assigns_a_new_id_and_the_current_time() {
    let mut m = ConnectionManager::new();
    let a = m.add_connection(endpoint("A")).unwrap();
    let b = m.add_connection(endpoint("B")).unwrap();
    assert_eq!(a.chars().count(), ID_LENGTH);
    assert_ne!(a, b);
    assert_ne!(a, "ignored");
    let stored = m.get_connection(&a).unwrap();
    assert_eq!(stored.id, a);
    assert_eq!(stored.name, "A");
    assert_eq!(stored.status, ConnectionStatus::Disconnected);
    assert!(stored.created_at.secs_since_epoch > 1_600_000_000);
    assert!(stored.created_at.nanos_since_epoch < 1_000_000_000);
    assert_eq!(m.get_connections().len(), 2);
    let mut bad = endpoint("C");
    bad.host = String::new();
    assert_eq!(m.add_connection(bad), Err(EngineError::InvalidInput));
}

#[test]
fn generated_ids_are_hyphenated_and_differ() {
    let a = generate_id();
    let b = generate_id();
    assert_eq!(a.len(), 36);
    assert_ne!(a, b);
    let hyphens: Vec<usize> = a.char_indices().filter(|(_, c)| *c == '-').map(|(i, _)| i).collect();
    assert_eq!(hyphens, vec![8, 13, 18, 23]);
    assert!(a.chars().all(|c| c == '-' || c.is_ascii_hexdigit()));
}

#[test]
fn update_connection_replaces_declared_fields_only() {
    let mut m = connected();
    let mut updates = endpoint("renamed");
    updates.id = "other".to_string();
    updates.host = "example.org".to_string();
    updates.port = 22;
    updates.username = "root".to_string();
    updates.auth_method = AuthMethod::Key;
    updates.password = None;
    updates.key_path = Some("/k".to_string());
    updates.status = ConnectionStatus::Error;
    updates.last_connected = None;
    updates.created_at = at(9);
    assert_eq!(m.update_connection("e".to_string(), updates), Ok(()));
    let stored = m.get_connection("e").unwrap();
    assert_eq!(stored.id, "e");
    assert_eq!(stored.name, "renamed");
    assert_eq!(stored.host, "example.org");
    assert_eq!(stored.port, 22);
    assert_eq!(stored.username, "root");
    assert_eq!(stored.auth_method, AuthMethod::Key);
    assert_eq!(stored.password, None);
    assert_eq!(stored.key_path, Some("/k".to_string()));
    assert_eq!(stored.status, ConnectionStatus::Connected);
    assert_eq!(stored.last_connected, Some(at(200)));
    assert_eq!(stored.created_at, at(100));
    assert_eq!(m.get_connection("other"), None);
}

#[test]
fn update_connection_errors() {
    let mut m = catalog();
    assert_eq!(
        m.update_connection("nobody".to_string(), endpoint("x")),
        Err(EngineError::ConnectionNotFound)
    );
    let mut bad = endpoint("x");
    bad.port = 0;
    assert_eq!(m.update_connection("e".to_string(), bad), Err(EngineError::InvalidInput));
    let mut both = endpoint("x");
    both.host = String::new();
    assert_eq!(
        m.update_connection("nobody".to_string(), both),
        Err(EngineError::ConnectionNotFound)
    );
    assert_eq!(m.get_connection("e").unwrap().name, "E");
}

#[test]
fn insert_tunnel_needs_its_endpoint() {
    let mut m = catalog();
    assert_eq!(
        m.insert_tunnel(tunnel("nobody", "T", 1), "t3".to_string()),
        Err(EngineError::InvalidInput)
    );
    assert_eq!(
        m.insert_tunnel(tunnel("e", "T", 1), "t1".to_string()),
        Err(EngineError::InvalidInput)
    );
    assert_eq!(m.add_tunnel(tunnel("nobody", "T", 1)), Err(EngineError::InvalidInput));
    assert_eq!(sorted_ids(&m.get_tunnels()), vec!["t1", "t2"]);
    let stored = m.get_tunnels().into_iter().find(|t| t.id == "t1").unwrap();
    let mut expected = tunnel("e", "T1", 15432);
    expected.id = "t1".to_string();
    expected.status = TunnelStatus::Inactive;
    assert_eq!(stored, expected);
}

#[test]
fn add_tunnel_assigns_a_new_id() {
    let mut m = catalog();
    let id = m.add_tunnel(tunnel("e", "T3", 1)).unwrap();
    assert_eq!(id.len(), 36);
    assert!(m.has_tunnel(&id));
    assert_eq!(m.get_tunnels().len(), 3);
    assert_eq!(sorted_ids(&m.get_tunnels_by_connection("e")).len(), 3);
}

#[test]
fn every_tunnel_has_its_endpoint_after_any_operation() {
    let mut m = connected();
    m.insert_connection(endpoint("F"), "f".to_string(), at(1)).unwrap();
    m.insert_tunnel(tunnel("f", "T3", 1), "t3".to_string()).unwrap();
    let _ = m.insert_tunnel(tunnel("g", "T4", 1), "t4".to_string());
    m.update_tunnel("t3".to_string(), tunnel("nobody", "T3b", 2)).unwrap();
    m.delete_connection("e".to_string()).unwrap();
    m.stop_tunnel("t3".to_string()).unwrap();
    let _ = m.disconnect_ssh("f");
    let endpoints: Vec<String> = m.get_connections().into_iter().map(|c| c.id).collect();
    let tunnels = m.get_tunnels();
    assert_eq!(sorted_ids(&tunnels), vec!["t3"]);
    for t in tunnels {
        assert!(endpoints.contains(&t.connection_id));
    }
}

#[test]
fn get_tunnels_by_connection_selects_by_owner() {
    let mut m = catalog();
    m.insert_connection(endpoint("F"), "f".to_string(), at(1)).unwrap();
    m.insert_tunnel(tunnel("f", "T3", 1), "t3".to_string()).unwrap();
    assert_eq!(sorted_ids(&m.get_tunnels_by_connection("e")), vec!["t1", "t2"]);
    assert_eq!(sorted_ids(&m.get_tunnels_by_connection("f")), vec!["t3"]);
    assert!(m.get_tunnels_by_connection("nobody").is_empty());
    assert_eq!(sorted_ids(&m.get_tunnels()), vec!["t1", "t2", "t3"]);
}

#[test]
fn update_tunnel_keeps_owner_and_status() {
    let mut m = connected();
    let mut updates = tunnel("elsewhere", "renamed", 9000);
    updates.tunnel_type = TunnelType::Remote;
    updates.remote_host = "db".to_string();
    updates.remote_port = 1;
    updates.auto_reconnect = true;
    updates.status = TunnelStatus::Error;
    assert_eq!(m.update_tunnel("t1".to_string(), updates), Ok(()));
    let stored = m.get_tunnels().into_iter().find(|t| t.id == "t1").unwrap();
    assert_eq!(
        stored,
        SSHTunnel {
            id: "t1".to_string(),
            connection_id: "e".to_string(),
            name: "renamed".to_string(),
            tunnel_type: TunnelType::Remote,
            local_port: 9000,
            remote_host: "db".to_string(),
            remote_port: 1,
            status: TunnelStatus::Active,
            auto_reconnect: true,
        }
    );
    assert_eq!(
        m.update_tunnel("nothing".to_string(), tunnel("e", "x", 1)),
        Err(EngineError::TunnelNotFound)
    );
}

#[test]
fn connect_marks_connecting_then_connected_and_plans_the_tunnels() {
    let mut m = catalog();
    match m.connect_ssh("e") {
        ConnectStep::Authenticate(snapshot) => {
            assert_eq!(snapshot.id, "e");
            assert_eq!(snapshot.host, "127.0.0.1");
            assert_eq!(snapshot.port, 22022);
            assert_eq!(snapshot.status, ConnectionStatus::Disconnected);
        }
        ConnectStep::Finished(r) => panic!("unexpected outcome {:?}", r),
    }
    assert_eq!(m.get_connection("e").unwrap().status, ConnectionStatus::Connecting);
    assert!(!m.has_session("e"));
    let (result, plan) = m.session_established("e", at(200));
    assert_eq!(
        result,
        ConnectionResult {
            success: true,
            message: "SSH connection established".to_string(),
            error_code: None
        }
    );
    assert_eq!(sorted_ids(&plan), vec!["t1", "t2"]);
    let stored = m.get_connection("e").unwrap();
    assert_eq!(stored.status, ConnectionStatus::Connected);
    assert_eq!(stored.last_connected, Some(at(200)));
    assert!(m.has_session("e"));
    assert_eq!(m.connected_ids(), vec!["e".to_string()]);
    assert!(!m.is_tunnel_active("t1"));
    for t in plan {
        assert!(m.tunnel_started(t));
    }
    assert!(m.is_tunnel_active("t1"));
    assert!(m.is_tunnel_active("t2"));
    for t in m.get_tunnels() {
        assert_eq!(t.status, TunnelStatus::Active);
    }
}

#[test]
fn connect_to_a_missing_endpoint_is_not_found() {
    let mut m = catalog();
    match m.connect_ssh("nobody") {
        ConnectStep::Finished(r) => assert_eq!(
            r,
            ConnectionResult {
                success: false,
                message: "Connection not found".to_string(),
                error_code: Some("NOT_FOUND".to_string())
            }
        ),
        ConnectStep::Authenticate(_) => panic!("nothing to authenticate against"),
    }
    assert_eq!(m.get_connection("e").unwrap().status, ConnectionStatus::Disconnected);
}

#[test]
fn failed_connect_marks_the_endpoint_and_stores_no_session() {
    let mut m = catalog();
    let _ = m.connect_ssh("e");
    m.connect_failed("e");
    assert_eq!(m.get_connection("e").unwrap().status, ConnectionStatus::Error);
    assert!(!m.has_session("e"));
    assert!(m.connected_ids().is_empty());
    m.connect_failed("nobody");
    assert_eq!(m.get_connections().len(), 1);
}

#[test]
fn session_for_a_deleted_endpoint_is_refused() {
    let mut m = catalog();
    let _ = m.connect_ssh("e");
    m.delete_connection("e".to_string()).unwrap();
    let (result, plan) = m.session_established("e", at(200));
    assert!(!result.success);
    assert_eq!(result.error_code, Some("NOT_FOUND".to_string()));
    assert!(plan.is_empty());
    assert!(!m.has_session("e"));
}

#[test]
fn forwarder_without_session_is_refused() {
    let mut m = catalog();
    let t1 = m.get_tunnels().into_iter().find(|t| t.id == "t1").unwrap();
    assert!(!m.tunnel_started(t1.clone()));
    assert!(!m.is_tunnel_active("t1"));
    let _ = m.connect_ssh("e");
    let _ = m.session_established("e", at(1));
    let mut stray = t1.clone();
    stray.id = "t9".to_string();
    assert!(!m.tunnel_started(stray));
    let mut moved = t1.clone();
    moved.connection_id = "f".to_string();
    assert!(!m.tunnel_started(moved));
    let mut remote = t1;
    remote.tunnel_type = TunnelType::Remote;
    assert!(m.tunnel_started(remote));
    assert!(m.is_tunnel_active("t1"));
    let stopped = m.stop_tunnel("t1".to_string()).unwrap().unwrap();
    assert_eq!(stopped.handle, TunnelHandle::Remote);
}

#[test]
fn disconnect_tears_down_everything_under_the_endpoint() {
    let mut m = connected();
    m.insert_connection(endpoint("F"), "f".to_string(), at(1)).unwrap();
    m.insert_tunnel(tunnel("f", "T3", 1), "t3".to_string()).unwrap();
    let _ = m.connect_ssh("f");
    let (_, plan) = m.session_established("f", at(1));
    for t in plan {
        assert!(m.tunnel_started(t));
    }
    let (result, teardown) = m.disconnect_ssh("e");
    assert_eq!(
        result,
        ConnectionResult {
            success: true,
            message: "SSH connection and all tunnels closed gracefully".to_string(),
            error_code: None
        }
    );
    let mut workers: Vec<String> = teardown.workers.iter().map(|w| w.tunnel.id.clone()).collect();
    workers.sort();
    assert_eq!(workers, vec!["t1", "t2"]);
    assert!(teardown.workers.iter().all(|w| w.handle == TunnelHandle::Local));
    assert!(teardown.close_session);
    assert!(!m.has_session("e"));
    assert!(!m.is_tunnel_active("t1"));
    assert!(!m.is_tunnel_active("t2"));
    assert_eq!(m.get_connection("e").unwrap().status, ConnectionStatus::Disconnected);
    for t in m.get_tunnels_by_connection("e") {
        assert_eq!(t.status, TunnelStatus::Inactive);
    }
    assert!(m.has_session("f"));
    assert!(m.is_tunnel_active("t3"));
    assert_eq!(m.get_tunnels_by_connection("f")[0].status, TunnelStatus::Active);
    assert_eq!(m.get_connection("f").unwrap().status, ConnectionStatus::Connected);
}

#[test]
fn disconnect_twice_succeeds_and_changes_nothing_more() {
    let mut m = connected();
    let (first, _) = m.disconnect_ssh("e");
    let endpoints = m.get_connections();
    let tunnels = m.get_tunnels();
    let (second, teardown) = m.disconnect_ssh("e");
    assert!(first.success);
    assert!(second.success);
    assert!(teardown.workers.is_empty());
    assert!(!teardown.close_session);
    assert_eq!(m.get_connections(), endpoints);
    assert_eq!(m.get_tunnels(), tunnels);
}

#[test]
fn disconnect_of_a_missing_endpoint_is_not_found() {
    let mut m = connected();
    let (result, teardown) = m.disconnect_ssh("nobody");
    assert_eq!(
        result,
        ConnectionResult {
            success: false,
            message: "Connection not found".to_string(),
            error_code: Some(ErrorCode::NotFound.as_string())
        }
    );
    assert!(teardown.workers.is_empty());
    assert!(!teardown.close_session);
    assert!(m.has_session("e"));
}

#[test]
fn delete_connection_cascades() {
    let mut m = connected();
    let teardown = m.delete_connection("e".to_string()).unwrap();
    let mut workers: Vec<String> = teardown.workers.iter().map(|w| w.tunnel.id.clone()).collect();
    workers.sort();
    assert_eq!(workers, vec!["t1", "t2"]);
    assert!(teardown.close_session);
    assert!(m.get_connections().is_empty());
    assert!(m.get_tunnels().is_empty());
    assert!(!m.has_session("e"));
    assert!(!m.is_tunnel_active("t1"));
    assert!(!m.is_tunnel_active("t2"));
    assert_eq!(m.delete_connection("e".to_string()), Err(EngineError::ConnectionNotFound));
}

#[test]
fn delete_connection_leaves_other_endpoints() {
    let mut m = catalog();
    m.insert_connection(endpoint("F"), "f".to_string(), at(1)).unwrap();
    m.insert_tunnel(tunnel("f", "T3", 1), "t3".to_string()).unwrap();
    let teardown = m.delete_connection("e".to_string()).unwrap();
    assert!(teardown.workers.is_empty());
    assert!(!teardown.close_session);
    assert_eq!(sorted_ids(&m.get_tunnels()), vec!["t3"]);
    assert_eq!(m.get_connections().len(), 1);
}

#[test]
fn delete_tunnel_twice_succeeds() {
    let mut m = connected();
    let first = m.delete_tunnel("t1".to_string()).unwrap();
    assert_eq!(first.unwrap().tunnel.id, "t1");
    assert_eq!(m.delete_tunnel("t1".to_string()), Ok(None));
    assert_eq!(m.delete_tunnel("never".to_string()), Ok(None));
    assert_eq!(sorted_ids(&m.get_tunnels()), vec!["t2"]);
    assert!(!m.is_tunnel_active("t1"));
    assert!(m.is_tunnel_active("t2"));
}

#[test]
fn stop_tunnel_on_inactive_succeeds() {
    let mut m = catalog();
    let before = m.get_tunnels();
    assert_eq!(m.stop_tunnel("t1".to_string()), Ok(None));
    assert_eq!(m.stop_tunnel("never".to_string()), Ok(None));
    assert_eq!(m.get_tunnels(), before);
}

#[test]
fn stop_tunnel_keeps_the_tunnel_and_marks_it_inactive() {
    let mut m = connected();
    let worker = m.stop_tunnel("t1".to_string()).unwrap().unwrap();
    assert_eq!(worker.tunnel.id, "t1");
    assert_eq!(worker.tunnel.local_port, 15432);
    assert_eq!(worker.handle, TunnelHandle::Local);
    assert!(!m.is_tunnel_active("t1"));
    assert!(m.is_tunnel_active("t2"));
    let tunnels = m.get_tunnels();
    assert_eq!(tunnels.iter().find(|t| t.id == "t1").unwrap().status, TunnelStatus::Inactive);
    assert_eq!(tunnels.iter().find(|t| t.id == "t2").unwrap().status, TunnelStatus::Active);
    assert!(m.has_session("e"));
    assert_eq!(m.stop_tunnel("t1".to_string()), Ok(None));
}

#[test]
fn health_check_reconnects_only_for_auto_reconnect() {
    let mut m = connected();
    assert_eq!(m.check_connection_health("e", false), HealthAction::Nothing);
    let mut wants = tunnel("e", "T1", 15432);
    wants.auto_reconnect = true;
    m.update_tunnel("t1".to_string(), wants).unwrap();
    assert_eq!(m.check_connection_health("e", false), HealthAction::Reconnect);
    assert_eq!(m.check_connection_health("e", true), HealthAction::Nothing);
    assert_eq!(m.check_connection_health("nobody", false), HealthAction::Nothing);
    let _ = m.disconnect_ssh("e");
    assert_eq!(m.check_connection_health("e", false), HealthAction::Nothing);
    assert_eq!(HEALTH_INTERVAL_SECS, 60);
    assert_eq!(RECONNECT_DELAY_SECS, 5);
}

#[test]
fn reconnection_restores_the_forwarders() {
    let mut m = connected();
    let mut wants = tunnel("e", "T1", 15432);
    wants.auto_reconnect = true;
    m.update_tunnel("t1".to_string(), wants).unwrap();
    assert_eq!(m.connected_ids(), vec!["e".to_string()]);
    assert_eq!(m.check_connection_health("e", false), HealthAction::Reconnect);
    let (_, teardown) = m.disconnect_ssh("e");
    assert_eq!(teardown.workers.len(), 2);
    assert!(matches!(m.connect_ssh("e"), ConnectStep::Authenticate(_)));
    assert_eq!(m.get_connection("e").unwrap().status, ConnectionStatus::Connecting);
    let (result, plan) = m.session_established("e", at(300));
    assert!(result.success);
    for t in plan {
        assert!(m.tunnel_started(t));
    }
    assert_eq!(m.get_connection("e").unwrap().status, ConnectionStatus::Connected);
    assert_eq!(m.get_connection("e").unwrap().last_connected, Some(at(300)));
    assert!(m.is_tunnel_active("t1"));
    assert_eq!(
        m.get_tunnels().iter().find(|t| t.id == "t1").unwrap().status,
        TunnelStatus::Active
    );
}

#[test]
fn initialize_loads_a_catalog_at_rest() {
    let mut stored = endpoint("E");
    stored.id = "e".to_string();
    stored.status = ConnectionStatus::Connected;
    stored.last_connected = Some(at(5));
    let mut rule = tunnel("e", "T", 1);
    rule.id = "t".to_string();
    rule.status = TunnelStatus::Active;
    let mut m = ConnectionManager::new();
    m.insert_connection(endpoint("old"), "old".to_string(), at(1)).unwrap();
    assert_eq!(
        m.initialize(vec![stored.clone()], vec![rule.clone()]),
        Initialized::Loaded { complete: true }
    );
    stored.status = ConnectionStatus::Disconnected;
    rule.status = TunnelStatus::Inactive;
    assert_eq!(m.get_connections(), vec![stored]);
    assert_eq!(m.get_tunnels(), vec![rule]);
    assert!(m.connected_ids().is_empty());
}

#[test]
fn initialize_leaves_out_what_does_not_fit() {
    let mut a = endpoint("A");
    a.id = "a".to_string();
    let mut again = endpoint("B");
    again.id = "a".to_string();
    let mut t = tunnel("a", "T", 1);
    t.id = "t".to_string();
    let mut t_again = tunnel("a", "T again", 2);
    t_again.id = "t".to_string();
    let mut dangling = tunnel("nobody", "T", 1);
    dangling.id = "u".to_string();

    let mut m = catalog();
    assert_eq!(
        m.initialize(vec![a.clone(), again], vec![]),
        Initialized::Loaded { complete: false }
    );
    assert_eq!(m.get_connections().len(), 1);
    assert_eq!(m.get_connection("a").unwrap().name, "B");
    assert!(m.get_tunnels().is_empty());

    assert_eq!(
        m.initialize(vec![a.clone()], vec![t.clone(), t_again]),
        Initialized::Loaded { complete: false }
    );
    assert_eq!(m.get_tunnels().len(), 1);
    assert_eq!(m.get_tunnels()[0].name, "T again");
    assert_eq!(m.get_tunnels()[0].local_port, 2);

    assert_eq!(
        m.initialize(vec![a.clone()], vec![dangling.clone(), t.clone()]),
        Initialized::Loaded { complete: false }
    );
    assert_eq!(sorted_ids(&m.get_tunnels()), vec!["t"]);
    assert_eq!(m.get_connection("a").unwrap().name, "A");

    assert_eq!(m.initialize(vec![], vec![dangling]), Initialized::Loaded { complete: false });
    assert!(m.get_connections().is_empty());
    assert!(m.get_tunnels().is_empty());

    assert_eq!(m.initialize(vec![a], vec![t]), Initialized::Loaded { complete: true });
    assert_eq!(sorted_ids(&m.get_tunnels()), vec!["t"]);
    assert_eq!(m.initialize(vec![], vec![]), Initialized::Loaded { complete: true });
    assert!(m.get_connections().is_empty());
}

#[test]
fn initialize_is_ignored_while_anything_is_live() {
    let mut m = connected();
    let endpoints = m.get_connections();
    let tunnels = m.get_tunnels();
    assert_eq!(m.initialize(vec![], vec![]), Initialized::KeptLive);
    assert_eq!(m.get_connections(), endpoints);
    assert_eq!(m.get_tunnels(), tunnels);
    assert!(m.has_session("e"));
}

#[test]
fn catalog_at_rest_survives_save_and_load() {
    let mut m = catalog();
    m.insert_connection(endpoint("F"), "f".to_string(), at(3)).unwrap();
    let _ = m.connect_ssh("e");
    let _ = m.session_established("e", at(200));
    let _ = m.disconnect_ssh("e");
    let endpoints = m.get_connections();
    let tunnels = m.get_tunnels();
    let mut back = ConnectionManager::new();
    assert_eq!(
        back.initialize(endpoints.clone(), tunnels.clone()),
        Initialized::Loaded { complete: true }
    );
    assert_eq!(back.get_connections(), endpoints);
    assert_eq!(back.get_tunnels(), tunnels);
    assert_eq!(back.get_connection("e").unwrap().last_connected, Some(at(200)));
}

#[test]
fn error_codes_have_their_stable_text() {
    let all = [
        (ErrorCode::NotFound, "NOT_FOUND"),
        (ErrorCode::InvalidInput, "INVALID_INPUT"),
        (ErrorCode::ConnectionFailed, "CONNECTION_FAILED"),
        (ErrorCode::ConnectionRefused, "CONNECTION_REFUSED"),
        (ErrorCode::ConnectionTimeout, "CONNECTION_TIMEOUT"),
        (ErrorCode::HostUnreachable, "HOST_UNREACHABLE"),
        (ErrorCode::TcpConnectionError, "TCP_CONNECTION_ERROR"),
        (ErrorCode::SshSessionError, "SSH_SESSION_ERROR"),
        (ErrorCode::SshHandshakeError, "SSH_HANDSHAKE_ERROR"),
        (ErrorCode::SshAuthError, "SSH_AUTH_ERROR"),
        (ErrorCode::PasswordMissing, "PASSWORD_MISSING"),
        (ErrorCode::KeyPathMissing, "KEY_PATH_MISSING"),
        (ErrorCode::KeyFileNotFound, "KEY_FILE_NOT_FOUND"),
        (ErrorCode::KeyFileReadError, "KEY_FILE_READ_ERROR"),
        (ErrorCode::Timeout, "TIMEOUT"),
        (ErrorCode::BindFailed, "BIND_FAILED"),
        (ErrorCode::ForwardListenFailed, "FORWARD_LISTEN_FAILED"),
        (ErrorCode::TunnelNotFound, "TUNNEL_NOT_FOUND"),
        (ErrorCode::ConnectionNotActive, "CONNECTION_NOT_ACTIVE"),
    ];
    for (code, text) in all {
        assert_eq!(code.as_string(), text);
    }
    assert_eq!(EngineError::ConnectionNotFound.message(), "Connection not found");
    assert_eq!(EngineError::TunnelNotFound.message(), "Tunnel not found");
    assert_eq!(EngineError::InvalidInput.message(), "Invalid input");
}

#[test]
fn results_carry_message_and_code() {
    assert_eq!(
        ConnectionResult::ok("fine".to_string()),
        ConnectionResult { success: true, message: "fine".to_string(), error_code: None }
    );
    assert_eq!(
        ConnectionResult::failed("bad".to_string(), ErrorCode::Timeout),
        ConnectionResult {
            success: false,
            message: "bad".to_string(),
            error_code: Some("TIMEOUT".to_string())
        }
    );
}

#[test]
fn add_succeeds_while_no_stored_id_looks_generated() {
    let mut m = catalog();
    for n in 0..20 {
        let id = m.add_connection(endpoint("more")).unwrap();
        assert_eq!(id.len(), ID_LENGTH);
        let t = m.add_tunnel(tunnel("e", "more", 2000 + n)).unwrap();
        assert_eq!(t.len(), ID_LENGTH);
        let under_new = m.add_tunnel(tunnel(&id, "under", 3000 + n)).unwrap();
        assert!(m.has_tunnel(&under_new));
    }
    assert_eq!(m.get_connections().len(), 21);
    assert_eq!(m.get_tunnels().len(), 42);
}

#[test]
fn recording_the_whole_plan_starts_every_tunnel_of_the_endpoint() {
    let mut m = catalog();
    m.insert_connection(endpoint("F"), "f".to_string(), at(1)).unwrap();
    m.insert_tunnel(tunnel("f", "T3", 1), "t3".to_string()).unwrap();
    let mut remote = tunnel("e", "T4", 1);
    remote.tunnel_type = TunnelType::Remote;
    m.insert_tunnel(remote, "t4".to_string()).unwrap();
    let _ = m.connect_ssh("e");
    let (_, plan) = m.session_established("e", at(200));
    assert_eq!(sorted_ids(&plan), vec!["t1", "t2", "t4"]);
    let refused = m.start_all_tunnels_for_connection(&plan);
    assert!(refused.is_empty());
    for t in m.get_tunnels_by_connection("e") {
        assert_eq!(t.status, TunnelStatus::Active);
        assert!(m.is_tunnel_active(&t.id));
    }
    assert!(!m.is_tunnel_active("t3"));
    assert_eq!(m.get_tunnels_by_connection("f")[0].status, TunnelStatus::Inactive);
    let stopped = m.stop_tunnel("t4".to_string()).unwrap().unwrap();
    assert_eq!(stopped.handle, TunnelHandle::Remote);
    assert_eq!(stopped.tunnel.status, TunnelStatus::Inactive);
    let local = m.stop_tunnel("t1".to_string()).unwrap().unwrap();
    assert_eq!(local.handle, TunnelHandle::Local);
}

#[test]
fn recording_refuses_forwarders_that_cannot_run() {
    let mut m = catalog();
    m.insert_connection(endpoint("F"), "f".to_string(), at(1)).unwrap();
    m.insert_tunnel(tunnel("f", "T3", 1), "t3".to_string()).unwrap();
    let _ = m.connect_ssh("e");
    let (_, plan) = m.session_established("e", at(200));
    let other = m.get_tunnels_by_connection("f");
    let mut stray = plan[0].clone();
    stray.id = "t9".to_string();
    let mut started = vec![other[0].clone(), plan[0].clone(), stray.clone()];
    started.push(plan[1].clone());
    let refused = m.start_all_tunnels_for_connection(&started);
    assert_eq!(refused, vec![other[0].clone(), stray]);
    assert!(m.is_tunnel_active("t1"));
    assert!(m.is_tunnel_active("t2"));
    assert!(!m.is_tunnel_active("t3"));
    assert!(!m.is_tunnel_active("t9"));
    assert!(m.start_all_tunnels_for_connection(&vec![]).is_empty());
}
