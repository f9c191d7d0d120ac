//! The declared records of the catalog (endpoints and tunnels), the outcome
//! reported for connection attempts, and the mathematical view of each.

use vstd::prelude::*;

verus! {

/// A point in time, as whole seconds and nanoseconds since the Unix epoch.
#[derive(Clone, Copy, Debug, PartialEq, Eq, Structural)]
pub struct Timestamp {
    pub secs_since_epoch: u64,
    pub nanos_since_epoch: u32,
}

/// How an endpoint authenticates.
#[derive(Clone, Copy, Debug, PartialEq, Eq, Structural)]
pub enum AuthMethod {
    Password,
    Key,
}

/// The runtime status recorded for an endpoint.
#[derive(Clone, Copy, Debug, PartialEq, Eq, Structural)]
pub enum ConnectionStatus {
    Disconnected,
    Connecting,
    Connected,
    Error,
}

/// The direction of a forwarding rule.
#[derive(Clone, Copy, Debug, PartialEq, Eq, Structural)]
pub enum TunnelType {
    Local,
    Remote,
}

/// The runtime status recorded for a tunnel.
#[derive(Clone, Copy, Debug, PartialEq, Eq, Structural)]
pub enum TunnelStatus {
    Inactive,
    Active,
    Error,
}

/// The view of an optional string.
pub open spec fn opt_text(o: Option<String>) -> Option<Seq<char>> {
    match o {
        Some(s) => Some(s@),
        None => None,
    }
}

/// Clones an optional string.
pub fn clone_opt_text(o: &Option<String>) -> (r: Option<String>)
    ensures
        r == *o,
{
    match o {
        Some(s) => Some(s.clone()),
        None => None,
    }
}

/// A declared SSH target.
#[derive(Debug, PartialEq, Eq)]
pub struct SSHConnection {
    pub id: String,
    pub name: String,
    pub host: String,
    pub port: u16,
    pub username: String,
    pub auth_method: AuthMethod,
    pub password: Option<String>,
    pub key_path: Option<String>,
    pub status: ConnectionStatus,
    pub last_connected: Option<Timestamp>,
    pub created_at: Timestamp,
}

/// What an [`SSHConnection`] holds, as mathematical values.
pub struct ConnectionView {
    pub id: Seq<char>,
    pub name: Seq<char>,
    pub host: Seq<char>,
    pub port: u16,
    pub username: Seq<char>,
    pub auth_method: AuthMethod,
    pub password: Option<Seq<char>>,
    pub key_path: Option<Seq<char>>,
    pub status: ConnectionStatus,
    pub last_connected: Option<Timestamp>,
    pub created_at: Timestamp,
}

impl View for SSHConnection {
    type V = ConnectionView;

    open spec fn view(&self) -> ConnectionView {
        ConnectionView {
            id: self.id@,
            name: self.name@,
            host: self.host@,
            port: self.port,
            username: self.username@,
            auth_method: self.auth_method,
            password: opt_text(self.password),
            key_path: opt_text(self.key_path),
            status: self.status,
            last_connected: self.last_connected,
            created_at: self.created_at,
        }
    }
}

impl Clone for SSHConnection {
    fn clone(&self) -> (r: Self)
        ensures
            r == *self,
    {
        SSHConnection {
            id: self.id.clone(),
            name: self.name.clone(),
            host: self.host.clone(),
            port: self.port,
            username: self.username.clone(),
            auth_method: self.auth_method,
            password: clone_opt_text(&self.password),
            key_path: clone_opt_text(&self.key_path),
            status: self.status,
            last_connected: self.last_connected,
            created_at: self.created_at,
        }
    }
}

/// A declared forwarding rule, owned by the endpoint named in
/// `connection_id`.
#[derive(Debug, PartialEq, Eq)]
pub struct SSHTunnel {
    pub id: String,
    pub connection_id: String,
    pub name: String,
    pub tunnel_type: TunnelType,
    pub local_port: u16,
    pub remote_host: String,
    pub remote_port: u16,
    pub status: TunnelStatus,
    pub auto_reconnect: bool,
}

/// What an [`SSHTunnel`] holds, as mathematical values.
pub struct TunnelView {
    pub id: Seq<char>,
    pub connection_id: Seq<char>,
    pub name: Seq<char>,
    pub tunnel_type: TunnelType,
    pub local_port: u16,
    pub remote_host: Seq<char>,
    pub remote_port: u16,
    pub status: TunnelStatus,
    pub auto_reconnect: bool,
}

impl View for SSHTunnel {
    type V = TunnelView;

    open spec fn view(&self) -> TunnelView {
        TunnelView {
            id: self.id@,
            connection_id: self.connection_id@,
            name: self.name@,
            tunnel_type: self.tunnel_type,
            local_port: self.local_port,
            remote_host: self.remote_host@,
            remote_port: self.remote_port,
            status: self.status,
            auto_reconnect: self.auto_reconnect,
        }
    }
}

impl Clone for SSHTunnel {
    fn clone(&self) -> (r: Self)
        ensures
            r == *self,
    {
        SSHTunnel {
            id: self.id.clone(),
            connection_id: self.connection_id.clone(),
            name: self.name.clone(),
            tunnel_type: self.tunnel_type,
            local_port: self.local_port,
            remote_host: self.remote_host.clone(),
            remote_port: self.remote_port,
            status: self.status,
            auto_reconnect: self.auto_reconnect,
        }
    }
}

/// Which kind of worker serves an active tunnel. The task itself belongs to
/// whoever runs it; the engine keeps the kind.
#[derive(Clone, Copy, Debug, PartialEq, Eq, Structural)]
pub enum TunnelHandle {
    Local,
    Remote,
}

/// The handle kind that serves a tunnel of the given direction.
pub open spec fn handle_for(kind: TunnelType) -> TunnelHandle {
    match kind {
        TunnelType::Local => TunnelHandle::Local,
        TunnelType::Remote => TunnelHandle::Remote,
    }
}

/// A running forwarder: the tunnel as it was declared when the worker
/// started, and the kind of worker.
#[derive(Debug, PartialEq, Eq)]
pub struct ActiveTunnel {
    pub tunnel: SSHTunnel,
    pub handle: TunnelHandle,
}

/// What an [`ActiveTunnel`] holds, as mathematical values.
pub struct ActiveTunnelView {
    pub tunnel: TunnelView,
    pub handle: TunnelHandle,
}

impl View for ActiveTunnel {
    type V = ActiveTunnelView;

    open spec fn view(&self) -> ActiveTunnelView {
        ActiveTunnelView { tunnel: self.tunnel@, handle: self.handle }
    }
}

impl Clone for ActiveTunnel {
    fn clone(&self) -> (r: Self)
        ensures
            r == *self,
    {
        ActiveTunnel { tunnel: self.tunnel.clone(), handle: self.handle }
    }
}

/// The stable codes under which failures are reported.
#[derive(Clone, Copy, Debug, PartialEq, Eq, Structural)]
pub enum ErrorCode {
    NotFound,
    InvalidInput,
    ConnectionFailed,
    ConnectionRefused,
    ConnectionTimeout,
    HostUnreachable,
    TcpConnectionError,
    SshSessionError,
    SshHandshakeError,
    SshAuthError,
    PasswordMissing,
    KeyPathMissing,
    KeyFileNotFound,
    KeyFileReadError,
    Timeout,
    BindFailed,
    ForwardListenFailed,
    TunnelNotFound,
    ConnectionNotActive,
}

impl ErrorCode {
    /// The text of the code.
    pub open spec fn text(self) -> Seq<char> {
        match self {
            ErrorCode::NotFound => "NOT_FOUND"@,
            ErrorCode::InvalidInput => "INVALID_INPUT"@,
            ErrorCode::ConnectionFailed => "CONNECTION_FAILED"@,
            ErrorCode::ConnectionRefused => "CONNECTION_REFUSED"@,
            ErrorCode::ConnectionTimeout => "CONNECTION_TIMEOUT"@,
            ErrorCode::HostUnreachable => "HOST_UNREACHABLE"@,
            ErrorCode::TcpConnectionError => "TCP_CONNECTION_ERROR"@,
            ErrorCode::SshSessionError => "SSH_SESSION_ERROR"@,
            ErrorCode::SshHandshakeError => "SSH_HANDSHAKE_ERROR"@,
            ErrorCode::SshAuthError => "SSH_AUTH_ERROR"@,
            ErrorCode::PasswordMissing => "PASSWORD_MISSING"@,
            ErrorCode::KeyPathMissing => "KEY_PATH_MISSING"@,
            ErrorCode::KeyFileNotFound => "KEY_FILE_NOT_FOUND"@,
            ErrorCode::KeyFileReadError => "KEY_FILE_READ_ERROR"@,
            ErrorCode::Timeout => "TIMEOUT"@,
            ErrorCode::BindFailed => "BIND_FAILED"@,
            ErrorCode::ForwardListenFailed => "FORWARD_LISTEN_FAILED"@,
            ErrorCode::TunnelNotFound => "TUNNEL_NOT_FOUND"@,
            ErrorCode::ConnectionNotActive => "CONNECTION_NOT_ACTIVE"@,
        }
    }

    /// The code as an owned string.
    pub fn as_string(self) -> (s: String)
        ensures
            s@ == self.text(),
    {
        let lit: &'static str = match self {
            ErrorCode::NotFound => "NOT_FOUND",
            ErrorCode::InvalidInput => "INVALID_INPUT",
            ErrorCode::ConnectionFailed => "CONNECTION_FAILED",
            ErrorCode::ConnectionRefused => "CONNECTION_REFUSED",
            ErrorCode::ConnectionTimeout => "CONNECTION_TIMEOUT",
            ErrorCode::HostUnreachable => "HOST_UNREACHABLE",
            ErrorCode::TcpConnectionError => "TCP_CONNECTION_ERROR",
            ErrorCode::SshSessionError => "SSH_SESSION_ERROR",
            ErrorCode::SshHandshakeError => "SSH_HANDSHAKE_ERROR",
            ErrorCode::SshAuthError => "SSH_AUTH_ERROR",
            ErrorCode::PasswordMissing => "PASSWORD_MISSING",
            ErrorCode::KeyPathMissing => "KEY_PATH_MISSING",
            ErrorCode::KeyFileNotFound => "KEY_FILE_NOT_FOUND",
            ErrorCode::KeyFileReadError => "KEY_FILE_READ_ERROR",
            ErrorCode::Timeout => "TIMEOUT",
            ErrorCode::BindFailed => "BIND_FAILED",
            ErrorCode::ForwardListenFailed => "FORWARD_LISTEN_FAILED",
            ErrorCode::TunnelNotFound => "TUNNEL_NOT_FOUND",
            ErrorCode::ConnectionNotActive => "CONNECTION_NOT_ACTIVE",
        };
        lit.to_owned()
    }
}

/// The outcome of an operation that reports failure instead of raising it.
#[derive(Debug, PartialEq, Eq)]
pub struct ConnectionResult {
    pub success: bool,
    pub message: String,
    pub error_code: Option<String>,
}

/// What a [`ConnectionResult`] holds, as mathematical values.
pub struct ConnectionResultView {
    pub success: bool,
    pub message: Seq<char>,
    pub error_code: Option<Seq<char>>,
}

impl View for ConnectionResult {
    type V = ConnectionResultView;

    open spec fn view(&self) -> ConnectionResultView {
        ConnectionResultView {
            success: self.success,
            message: self.message@,
            error_code: opt_text(self.error_code),
        }
    }
}

impl Clone for ConnectionResult {
    fn clone(&self) -> (r: Self)
        ensures
            r == *self,
    {
        ConnectionResult {
            success: self.success,
            message: self.message.clone(),
            error_code: clone_opt_text(&self.error_code),
        }
    }
}

/// The view of a successful outcome with the given message.
pub open spec fn success_view(message: Seq<char>) -> ConnectionResultView {
    ConnectionResultView { success: true, message, error_code: None }
}

/// The view of a failed outcome with the given message and code.
pub open spec fn failure_view(message: Seq<char>, code: ErrorCode) -> ConnectionResultView {
    ConnectionResultView { success: false, message, error_code: Some(code.text()) }
}

impl ConnectionResult {
    /// A successful outcome.
    pub fn ok(message: String) -> (r: ConnectionResult)
        ensures
            r@ == success_view(message@),
    {
        ConnectionResult { success: true, message, error_code: None }
    }

    /// A failed outcome under the given code.
    pub fn failed(message: String, code: ErrorCode) -> (r: ConnectionResult)
        ensures
            r@ == failure_view(message@, code),
    {
        ConnectionResult { success: false, message, error_code: Some(code.as_string()) }
    }
}

/// Why a catalog operation was refused.
#[derive(Clone, Copy, Debug, PartialEq, Eq, Structural)]
pub enum EngineError {
    /// No endpoint has the given id.
    ConnectionNotFound,
    /// No tunnel has the given id.
    TunnelNotFound,
    /// A required field is missing or out of range, or the id is taken.
    InvalidInput,
}

impl EngineError {
    /// The sentence shown for the error.
    pub open spec fn sentence(self) -> Seq<char> {
        match self {
            EngineError::ConnectionNotFound => "Connection not found"@,
            EngineError::TunnelNotFound => "Tunnel not found"@,
            EngineError::InvalidInput => "Invalid input"@,
        }
    }

    /// The sentence shown for the error, as an owned string.
    pub fn message(self) -> (s: String)
        ensures
            s@ == self.sentence(),
    {
        let lit: &'static str = match self {
            EngineError::ConnectionNotFound => "Connection not found",
            EngineError::TunnelNotFound => "Tunnel not found",
            EngineError::InvalidInput => "Invalid input",
        };
        lit.to_owned()
    }
}

} // verus!
