use vesper::commands::{
    create_connection, create_tunnel, parse_auth_method, parse_tunnel_type, test_connection,
    test_connection_data, update_connection, update_tunnel, CreateConnectionRequest,
    CreateTunnelRequest, UpdateConnectionRequest, UpdateTunnelRequest,
};
use vesper::manager::ConnectionManager;
use vesper::model::{AuthMethod, ConnectionStatus, TunnelStatus, TunnelType};

fn new_endpoint(auth_method: &str) -> CreateConnectionRequest {
    CreateConnectionRequest {
        name: "E".to_string(),
        host: "example.org".to_string(),
        port: 22,
        username: "u".to_string(),
        auth_method: auth_method.to_string(),
        password: Some("pw".to_string()),
        key_path: None,
    }
}

fn new_tunnel(owner: &str, tunnel_type: &str) -> CreateTunnelRequest {
    CreateTunnelRequest {
        name: "T".to_string(),
        connection_id: owner.to_string(),
        tunnel_type: tunnel_type.to_string(),
        local_port: 15432,
        remote_host: "127.0.0.1".to_string(),
        remote_port: 5432,
        auto_reconnect: true,
    }
}

#[test]
fn methods_and_directions_are_read_in_lower_case() {
    assert_eq!(parse_auth_method(&"password".to_string()), Some(AuthMethod::Password));
    assert_eq!(parse_auth_method(&"key".to_string()), Some(AuthMethod::Key));
    assert_eq!(parse_auth_method(&"Password".to_string()), None);
    assert_eq!(parse_auth_method(&String::new()), None);
    assert_eq!(parse_tunnel_type(&"local".to_string()), Some(TunnelType::Local));
    assert_eq!(parse_tunnel_type(&"remote".to_string()), Some(TunnelType::Remote));
    assert_eq!(parse_tunnel_type(&"dynamic".to_string()), None);
    assert_eq!(parse_tunnel_type(&"LOCAL".to_string()), None);
}

#[test]
fn create_connection_declares_the_endpoint() {
    let mut m = ConnectionManager::new();
    let id = create_connection(new_endpoint("key"), &mut m).unwrap();
    let stored = m.get_connection(&id).unwrap();
    assert_eq!(stored.id, id);
    assert_eq!(stored.name, "E");
    assert_eq!(stored.host, "example.org");
    assert_eq!(stored.port, 22);
    assert_eq!(stored.username, "u");
    assert_eq!(stored.auth_method, AuthMethod::Key);
    assert_eq!(stored.password, Some("pw".to_string()));
    assert_eq!(stored.key_path, None);
    assert_eq!(stored.status, ConnectionStatus::Disconnected);
    assert_eq!(stored.last_connected, None);
}

#[test]
fn create_connection_request_errors() {
    let mut m = ConnectionManager::new();
    assert_eq!(
        create_connection(new_endpoint("agent"), &mut m),
        Err("Invalid auth method".to_string())
    );
    let mut no_host = new_endpoint("password");
    no_host.host = String::new();
    assert_eq!(create_connection(no_host, &mut m), Err("Invalid input".to_string()));
    let mut no_port = new_endpoint("password");
    no_port.port = 0;
    assert_eq!(create_connection(no_port, &mut m), Err("Invalid input".to_string()));
    assert!(m.get_connections().is_empty());
}

#[test]
fn update_connection_edits_the_endpoint() {
    let mut m = ConnectionManager::new();
    let id = create_connection(new_endpoint("password"), &mut m).unwrap();
    let created = m.get_connection(&id).unwrap();
    let request = UpdateConnectionRequest {
        id: id.clone(),
        name: "renamed".to_string(),
        host: "h".to_string(),
        port: 2222,
        username: "root".to_string(),
        auth_method: "key".to_string(),
        password: None,
        key_path: Some("/k".to_string()),
    };
    assert_eq!(update_connection(request, &mut m), Ok(()));
    let stored = m.get_connection(&id).unwrap();
    assert_eq!(stored.name, "renamed");
    assert_eq!(stored.port, 2222);
    assert_eq!(stored.auth_method, AuthMethod::Key);
    assert_eq!(stored.key_path, Some("/k".to_string()));
    assert_eq!(stored.created_at, created.created_at);
    assert_eq!(stored.status, ConnectionStatus::Disconnected);
}

#[test]
fn update_connection_request_errors() {
    let mut m = ConnectionManager::new();
    let id = create_connection(new_endpoint("password"), &mut m).unwrap();
    let request = |id: &str, auth: &str, host: &str| UpdateConnectionRequest {
        id: id.to_string(),
        name: "x".to_string(),
        host: host.to_string(),
        port: 22,
        username: "u".to_string(),
        auth_method: auth.to_string(),
        password: None,
        key_path: None,
    };
    assert_eq!(
        update_connection(request("nobody", "agent", "h"), &mut m),
        Err("Connection not found".to_string())
    );
    assert_eq!(
        update_connection(request(&id, "agent", "h"), &mut m),
        Err("Invalid auth method".to_string())
    );
    assert_eq!(
        update_connection(request(&id, "key", ""), &mut m),
        Err("Invalid input".to_string())
    );
    assert_eq!(m.get_connection(&id).unwrap().name, "E");
}

#[test]
fn test_connection_hands_out_the_stored_endpoint() {
    let mut m = ConnectionManager::new();
    let id = create_connection(new_endpoint("password"), &mut m).unwrap();
    assert_eq!(test_connection(&id, &m), Ok(m.get_connection(&id).unwrap()));
    assert_eq!(test_connection("nobody", &m), Err("Connection not found".to_string()));
}

#[test]
fn test_connection_data_builds_a_temporary_endpoint() {
    let c = test_connection_data(new_endpoint("password")).unwrap();
    assert_eq!(c.id, "test");
    assert_eq!(c.host, "example.org");
    assert_eq!(c.auth_method, AuthMethod::Password);
    assert_eq!(c.status, ConnectionStatus::Disconnected);
    assert!(c.created_at.secs_since_epoch > 1_600_000_000);
    assert_eq!(
        test_connection_data(new_endpoint("none")),
        Err("Invalid auth method".to_string())
    );
}

#[test]
fn create_tunnel_declares_the_tunnel() {
    let mut m = ConnectionManager::new();
    let owner = create_connection(new_endpoint("password"), &mut m).unwrap();
    let id = create_tunnel(new_tunnel(&owner, "remote"), &mut m).unwrap();
    let stored = m.get_tunnels().into_iter().find(|t| t.id == id).unwrap();
    assert_eq!(stored.connection_id, owner);
    assert_eq!(stored.name, "T");
    assert_eq!(stored.tunnel_type, TunnelType::Remote);
    assert_eq!(stored.local_port, 15432);
    assert_eq!(stored.remote_host, "127.0.0.1");
    assert_eq!(stored.remote_port, 5432);
    assert_eq!(stored.status, TunnelStatus::Inactive);
    assert!(stored.auto_reconnect);
}

#[test]
fn create_tunnel_request_errors() {
    let mut m = ConnectionManager::new();
    let owner = create_connection(new_endpoint("password"), &mut m).unwrap();
    assert_eq!(
        create_tunnel(new_tunnel(&owner, "dynamic"), &mut m),
        Err("Invalid tunnel type".to_string())
    );
    assert_eq!(
        create_tunnel(new_tunnel("nobody", "local"), &mut m),
        Err("Invalid input".to_string())
    );
    assert!(m.get_tunnels().is_empty());
}

#[test]
fn update_tunnel_cannot_move_a_tunnel() {
    let mut m = ConnectionManager::new();
    let owner = create_connection(new_endpoint("password"), &mut m).unwrap();
    let id = create_tunnel(new_tunnel(&owner, "local"), &mut m).unwrap();
    let request = UpdateTunnelRequest {
        id: id.clone(),
        name: "renamed".to_string(),
        connection_id: "elsewhere".to_string(),
        tunnel_type: "remote".to_string(),
        local_port: 1,
        remote_host: "db".to_string(),
        remote_port: 2,
        auto_reconnect: false,
    };
    assert_eq!(update_tunnel(request, &mut m), Ok(()));
    let stored = m.get_tunnels().into_iter().find(|t| t.id == id).unwrap();
    assert_eq!(stored.connection_id, owner);
    assert_eq!(stored.name, "renamed");
    assert_eq!(stored.tunnel_type, TunnelType::Remote);
    assert_eq!(stored.local_port, 1);
    assert_eq!(stored.remote_host, "db");
    assert_eq!(stored.remote_port, 2);
    assert!(!stored.auto_reconnect);
}

#[test]
fn update_tunnel_request_errors() {
    let mut m = ConnectionManager::new();
    let owner = create_connection(new_endpoint("password"), &mut m).unwrap();
    let id = create_tunnel(new_tunnel(&owner, "local"), &mut m).unwrap();
    let request = |id: &str, kind: &str| UpdateTunnelRequest {
        id: id.to_string(),
        name: "x".to_string(),
        connection_id: owner.clone(),
        tunnel_type: kind.to_string(),
        local_port: 1,
        remote_host: "h".to_string(),
        remote_port: 2,
        auto_reconnect: false,
    };
    assert_eq!(update_tunnel(request("nothing", "socks"), &mut m), Err("Tunnel not found".to_string()));
    assert_eq!(update_tunnel(request(&id, "socks"), &mut m), Err("Invalid tunnel type".to_string()));
    assert_eq!(m.get_tunnels()[0].name, "T");
}
