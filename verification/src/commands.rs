//! The requests of the command layer and what each of them does to the
//! manager. Writing the catalog to disk afterwards, and running what the
//! manager hands back, is left to the caller.

use vstd::prelude::*;
use crate::engine::{merged_endpoint, merged_tunnel, new_endpoint, new_tunnel, valid_endpoint};
use crate::fresh::{default_created_at, holds_no_generated_id, ID_LENGTH};
use crate::manager::ConnectionManager;
use crate::model::{
    opt_text, AuthMethod, ConnectionStatus, ConnectionView, EngineError, SSHConnection, SSHTunnel,
    Timestamp, TunnelStatus, TunnelType, TunnelView,
};

verus! {

/// A request to declare an endpoint.
#[derive(Debug, PartialEq, Eq)]
pub struct CreateConnectionRequest {
    pub name: String,
    pub host: String,
    pub port: u16,
    pub username: String,
    pub auth_method: String,
    pub password: Option<String>,
    pub key_path: Option<String>,
}

/// A request to edit an endpoint.
#[derive(Debug, PartialEq, Eq)]
pub struct UpdateConnectionRequest {
    pub id: String,
    pub name: String,
    pub host: String,
    pub port: u16,
    pub username: String,
    pub auth_method: String,
    pub password: Option<String>,
    pub key_path: Option<String>,
}

/// A request to declare a tunnel.
#[derive(Debug, PartialEq, Eq)]
pub struct CreateTunnelRequest {
    pub name: String,
    pub connection_id: String,
    pub tunnel_type: String,
    pub local_port: u16,
    pub remote_host: String,
    pub remote_port: u16,
    pub auto_reconnect: bool,
}

/// A request to edit a tunnel.
#[derive(Debug, PartialEq, Eq)]
pub struct UpdateTunnelRequest {
    pub id: String,
    pub name: String,
    pub connection_id: String,
    pub tunnel_type: String,
    pub local_port: u16,
    pub remote_host: String,
    pub remote_port: u16,
    pub auto_reconnect: bool,
}

/// The authentication method that a request names, if it names one.
pub open spec fn auth_method_of(text: Seq<char>) -> Option<AuthMethod> {
    if text == "password"@ {
        Some(AuthMethod::Password)
    } else if text == "key"@ {
        Some(AuthMethod::Key)
    } else {
        None
    }
}

/// The direction that a request names, if it names one that is supported.
pub open spec fn tunnel_type_of(text: Seq<char>) -> Option<TunnelType> {
    if text == "local"@ {
        Some(TunnelType::Local)
    } else if text == "remote"@ {
        Some(TunnelType::Remote)
    } else {
        None
    }
}

/// Reads an authentication method.
pub fn parse_auth_method(text: &String) -> (method: Option<AuthMethod>)
    ensures
        method == auth_method_of(text@),
{
    if *text == "password".to_owned() {
        Some(AuthMethod::Password)
    } else if *text == "key".to_owned() {
        Some(AuthMethod::Key)
    } else {
        None
    }
}

/// Reads the direction of a tunnel.
pub fn parse_tunnel_type(text: &String) -> (kind: Option<TunnelType>)
    ensures
        kind == tunnel_type_of(text@),
{
    if *text == "local".to_owned() {
        Some(TunnelType::Local)
    } else if *text == "remote".to_owned() {
        Some(TunnelType::Remote)
    } else {
        None
    }
}

/// The endpoint that a request describes, before it has an id.
pub open spec fn described_endpoint(
    name: Seq<char>,
    host: Seq<char>,
    port: u16,
    username: Seq<char>,
    auth_method: AuthMethod,
    password: Option<Seq<char>>,
    key_path: Option<Seq<char>>,
) -> ConnectionView {
    ConnectionView {
        id: Seq::empty(),
        name,
        host,
        port,
        username,
        auth_method,
        password,
        key_path,
        status: ConnectionStatus::Disconnected,
        last_connected: None,
        created_at: Timestamp { secs_since_epoch: 0, nanos_since_epoch: 0 },
    }
}

impl CreateConnectionRequest {
    /// The endpoint that the request describes, given its method.
    pub open spec fn endpoint(self, auth_method: AuthMethod) -> ConnectionView {
        described_endpoint(
            self.name@,
            self.host@,
            self.port,
            self.username@,
            auth_method,
            opt_text(self.password),
            opt_text(self.key_path),
        )
    }
}

impl UpdateConnectionRequest {
    /// The endpoint that the request describes, given its method.
    pub open spec fn endpoint(self, auth_method: AuthMethod) -> ConnectionView {
        described_endpoint(
            self.name@,
            self.host@,
            self.port,
            self.username@,
            auth_method,
            opt_text(self.password),
            opt_text(self.key_path),
        )
    }
}

/// The tunnel that a request describes, before it has an id.
pub open spec fn described_tunnel(
    name: Seq<char>,
    connection_id: Seq<char>,
    tunnel_type: TunnelType,
    local_port: u16,
    remote_host: Seq<char>,
    remote_port: u16,
    auto_reconnect: bool,
) -> TunnelView {
    TunnelView {
        id: Seq::empty(),
        connection_id,
        name,
        tunnel_type,
        local_port,
        remote_host,
        remote_port,
        status: TunnelStatus::Inactive,
        auto_reconnect,
    }
}

impl CreateTunnelRequest {
    /// The tunnel that the request describes, given its direction.
    pub open spec fn tunnel(self, tunnel_type: TunnelType) -> TunnelView {
        described_tunnel(
            self.name@,
            self.connection_id@,
            tunnel_type,
            self.local_port,
            self.remote_host@,
            self.remote_port,
            self.auto_reconnect,
        )
    }
}

impl UpdateTunnelRequest {
    /// The tunnel that the request describes, given its direction.
    pub open spec fn tunnel(self, tunnel_type: TunnelType) -> TunnelView {
        described_tunnel(
            self.name@,
            self.connection_id@,
            tunnel_type,
            self.local_port,
            self.remote_host@,
            self.remote_port,
            self.auto_reconnect,
        )
    }
}

/// Builds the endpoint that a request describes.
fn build_endpoint(
    name: String,
    host: String,
    port: u16,
    username: String,
    auth_method: AuthMethod,
    password: Option<String>,
    key_path: Option<String>,
) -> (c: SSHConnection)
    ensures
        c@ == described_endpoint(
            name@,
            host@,
            port,
            username@,
            auth_method,
            opt_text(password),
            opt_text(key_path),
        ),
{
    SSHConnection {
        id: String::new(),
        name,
        host,
        port,
        username,
        auth_method,
        password,
        key_path,
        status: ConnectionStatus::Disconnected,
        last_connected: None,
        created_at: Timestamp { secs_since_epoch: 0, nanos_since_epoch: 0 },
    }
}

/// Builds the tunnel that a request describes.
fn build_tunnel(
    name: String,
    connection_id: String,
    tunnel_type: TunnelType,
    local_port: u16,
    remote_host: String,
    remote_port: u16,
    auto_reconnect: bool,
) -> (t: SSHTunnel)
    ensures
        t@ == described_tunnel(
            name@,
            connection_id@,
            tunnel_type,
            local_port,
            remote_host@,
            remote_port,
            auto_reconnect,
        ),
{
    SSHTunnel {
        id: String::new(),
        connection_id,
        name,
        tunnel_type,
        local_port,
        remote_host,
        remote_port,
        status: TunnelStatus::Inactive,
        auto_reconnect,
    }
}

/// Declares the endpoint that the request describes and returns its id.
/// Refused, with nothing changed, when the request names no authentication
/// method or lacks a required field.
pub fn create_connection(request: CreateConnectionRequest, manager: &mut ConnectionManager) -> (r:
    Result<String, String>)
    requires
        old(manager).wf(),
    ensures
        final(manager).wf(),
        auth_method_of(request.auth_method@) is None ==> r is Err && r->Err_0@
            == "Invalid auth method"@ && final(manager)@ == old(manager)@,
        auth_method_of(request.auth_method@) matches Some(method) ==> match r {
            Ok(id) => valid_endpoint(request.endpoint(method)) && id@.len() == ID_LENGTH && !old(
                manager,
            )@.connections.contains_key(id@) && final(manager)@ == old(manager)@.with_connection(
                new_endpoint(
                    request.endpoint(method),
                    id@,
                    final(manager)@.connections[id@].created_at,
                ),
            ) && final(manager)@.connections[id@].created_at.nanos_since_epoch < 1_000_000_000,
            Err(message) => message@ == EngineError::InvalidInput.sentence() && final(manager)@
                == old(manager)@,
        },
        auth_method_of(request.auth_method@) matches Some(method) && !valid_endpoint(
            request.endpoint(method),
        ) ==> r is Err,
        auth_method_of(request.auth_method@) matches Some(method) && valid_endpoint(
            request.endpoint(method),
        ) && holds_no_generated_id(old(manager)@.connections) ==> r is Ok,
{
    let method = match parse_auth_method(&request.auth_method) {
        Some(method) => method,
        None => {
            return Err("Invalid auth method".to_owned());
        },
    };
    let connection = build_endpoint(
        request.name,
        request.host,
        request.port,
        request.username,
        method,
        request.password,
        request.key_path,
    );
    match manager.add_connection(connection) {
        Ok(id) => Ok(id),
        Err(e) => Err(e.message()),
    }
}

/// Edits the endpoint that the request names: its declared fields are
/// replaced, its status and timestamps stay. Refused, with nothing
/// changed, when there is no such endpoint, when the request names no
/// authentication method, or when it lacks a required field.
pub fn update_connection(request: UpdateConnectionRequest, manager: &mut ConnectionManager) -> (r:
    Result<(), String>)
    requires
        old(manager).wf(),
    ensures
        final(manager).wf(),
        !old(manager)@.connections.contains_key(request.id@) ==> r is Err && r->Err_0@
            == EngineError::ConnectionNotFound.sentence() && final(manager)@ == old(manager)@,
        old(manager)@.connections.contains_key(request.id@) ==> match auth_method_of(
            request.auth_method@,
        ) {
            None => r is Err && r->Err_0@ == "Invalid auth method"@ && final(manager)@ == old(
                manager,
            )@,
            Some(method) => if valid_endpoint(request.endpoint(method)) {
                r is Ok && final(manager)@ == old(manager)@.with_connection(
                    merged_endpoint(
                        old(manager)@.connections[request.id@],
                        request.endpoint(method),
                    ),
                )
            } else {
                r is Err && r->Err_0@ == EngineError::InvalidInput.sentence() && final(manager)@
                    == old(manager)@
            },
        },
{
    if manager.get_connection(request.id.as_str()).is_none() {
        return Err(EngineError::ConnectionNotFound.message());
    }
    let method = match parse_auth_method(&request.auth_method) {
        Some(method) => method,
        None => {
            return Err("Invalid auth method".to_owned());
        },
    };
    let updates = build_endpoint(
        request.name,
        request.host,
        request.port,
        request.username,
        method,
        request.password,
        request.key_path,
    );
    match manager.update_connection(request.id, updates) {
        Ok(()) => Ok(()),
        Err(e) => Err(e.message()),
    }
}

/// The endpoint to test for the stored endpoint `id`, or the error where
/// there is none. The catalog is not touched.
pub fn test_connection(id: &str, manager: &ConnectionManager) -> (r: Result<SSHConnection, String>)
    requires
        manager.wf(),
    ensures
        match r {
            Ok(c) => manager@.connections.contains_key(id@) && c@ == manager@.connections[id@],
            Err(message) => !manager@.connections.contains_key(id@) && message@
                == EngineError::ConnectionNotFound.sentence(),
        },
{
    match manager.get_connection(id) {
        Some(c) => Ok(c),
        None => Err(EngineError::ConnectionNotFound.message()),
    }
}

/// The endpoint to test for a request that is not stored: it has the
/// fields of the request and the id `test`. Refused when the request names
/// no authentication method. No catalog is involved.
pub fn test_connection_data(request: CreateConnectionRequest) -> (r: Result<SSHConnection, String>)
    ensures
        match auth_method_of(request.auth_method@) {
            Some(method) => r is Ok && r->Ok_0@ == (ConnectionView {
                id: "test"@,
                created_at: r->Ok_0@.created_at,
                ..request.endpoint(method)
            }) && r->Ok_0@.created_at.nanos_since_epoch < 1_000_000_000,
            None => r is Err && r->Err_0@ == "Invalid auth method"@,
        },
{
    let method = match parse_auth_method(&request.auth_method) {
        Some(method) => method,
        None => {
            return Err("Invalid auth method".to_owned());
        },
    };
    let mut connection = build_endpoint(
        request.name,
        request.host,
        request.port,
        request.username,
        method,
        request.password,
        request.key_path,
    );
    connection.id = "test".to_owned();
    connection.created_at = default_created_at();
    Ok(connection)
}

/// Declares the tunnel that the request describes and returns its id.
/// Refused, with nothing changed, when the request names no supported
/// direction or an endpoint that does not exist.
pub fn create_tunnel(request: CreateTunnelRequest, manager: &mut ConnectionManager) -> (r: Result<
    String,
    String,
>)
    requires
        old(manager).wf(),
    ensures
        final(manager).wf(),
        tunnel_type_of(request.tunnel_type@) is None ==> r is Err && r->Err_0@
            == "Invalid tunnel type"@ && final(manager)@ == old(manager)@,
        tunnel_type_of(request.tunnel_type@) matches Some(kind) ==> match r {
            Ok(id) => old(manager)@.connections.contains_key(request.connection_id@) && id@.len()
                == ID_LENGTH && !old(manager)@.tunnels.contains_key(id@) && final(manager)@ == old(
                manager,
            )@.with_tunnel(new_tunnel(request.tunnel(kind), id@)),
            Err(message) => message@ == EngineError::InvalidInput.sentence() && final(manager)@
                == old(manager)@,
        },
        tunnel_type_of(request.tunnel_type@) is Some && !old(manager)@.connections.contains_key(
            request.connection_id@,
        ) ==> r is Err,
        tunnel_type_of(request.tunnel_type@) is Some && old(manager)@.connections.contains_key(
            request.connection_id@,
        ) && holds_no_generated_id(old(manager)@.tunnels) ==> r is Ok,
{
    let kind = match parse_tunnel_type(&request.tunnel_type) {
        Some(kind) => kind,
        None => {
            return Err("Invalid tunnel type".to_owned());
        },
    };
    let tunnel = build_tunnel(
        request.name,
        request.connection_id,
        kind,
        request.local_port,
        request.remote_host,
        request.remote_port,
        request.auto_reconnect,
    );
    match manager.add_tunnel(tunnel) {
        Ok(id) => Ok(id),
        Err(e) => Err(e.message()),
    }
}

/// Edits the tunnel that the request names: its declared fields are
/// replaced; its status and the endpoint it belongs to stay, whatever the
/// request says of them. Refused, with nothing changed, when there is no
/// such tunnel or the request names no supported direction.
pub fn update_tunnel(request: UpdateTunnelRequest, manager: &mut ConnectionManager) -> (r: Result<
    (),
    String,
>)
    requires
        old(manager).wf(),
    ensures
        final(manager).wf(),
        !old(manager)@.tunnels.contains_key(request.id@) ==> r is Err && r->Err_0@
            == EngineError::TunnelNotFound.sentence() && final(manager)@ == old(manager)@,
        old(manager)@.tunnels.contains_key(request.id@) ==> match tunnel_type_of(
            request.tunnel_type@,
        ) {
            None => r is Err && r->Err_0@ == "Invalid tunnel type"@ && final(manager)@ == old(
                manager,
            )@,
            Some(kind) => r is Ok && final(manager)@ == old(manager)@.with_tunnel(
                merged_tunnel(old(manager)@.tunnels[request.id@], request.tunnel(kind)),
            ),
        },
{
    if !manager.has_tunnel(request.id.as_str()) {
        return Err(EngineError::TunnelNotFound.message());
    }
    let kind = match parse_tunnel_type(&request.tunnel_type) {
        Some(kind) => kind,
        None => {
            return Err("Invalid tunnel type".to_owned());
        },
    };
    let updates = build_tunnel(
        request.name,
        request.connection_id,
        kind,
        request.local_port,
        request.remote_host,
        request.remote_port,
        request.auto_reconnect,
    );
    match manager.update_tunnel(request.id, updates) {
        Ok(()) => Ok(()),
        Err(e) => Err(e.message()),
    }
}

} // verus!
