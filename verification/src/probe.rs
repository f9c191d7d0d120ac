//! Authenticating against an endpoint, as a sequence of decisions. The
//! caller performs one action at a time (look for the key file, open the
//! TCP connection, create the session, shake hands, authenticate, verify)
//! and reports what came of it; the library says what to do next or how
//! the attempt ended.

use vstd::prelude::*;
use crate::model::{
    failure_view, opt_text, success_view, AuthMethod, ConnectionResult, ConnectionResultView,
    ConnectionView, ErrorCode, SSHConnection,
};
use crate::text::{address, join2, push_decimal};

verus! {

/// Seconds after which a connection test is given up.
pub const PROBE_TIMEOUT_SECS: u64 = 5;

/// Why a TCP connection could not be opened.
#[derive(Clone, Copy, Debug, PartialEq, Eq, Structural)]
pub enum TcpErrorKind {
    ConnectionRefused,
    TimedOut,
    HostUnreachable,
    Other,
}

/// The code under which a failed TCP connection is reported.
pub open spec fn tcp_error_code(kind: TcpErrorKind) -> ErrorCode {
    match kind {
        TcpErrorKind::ConnectionRefused => ErrorCode::ConnectionRefused,
        TcpErrorKind::TimedOut => ErrorCode::ConnectionTimeout,
        TcpErrorKind::HostUnreachable => ErrorCode::HostUnreachable,
        TcpErrorKind::Other => ErrorCode::TcpConnectionError,
    }
}

/// What the caller is to do next.
#[derive(Debug, PartialEq, Eq)]
pub enum ProbeAction {
    /// See whether a file exists at `path`.
    CheckKeyFile { path: String },
    /// Open a TCP connection to `host:port`.
    ConnectTcp { host: String, port: u16 },
    /// Create an SSH session on the open connection.
    CreateSession,
    /// Perform the SSH handshake.
    Handshake,
    /// Authenticate with a password.
    AuthPassword { username: String, password: String },
    /// Authenticate with the private key in the file at `path`.
    AuthKeyFile { username: String, path: String },
    /// Ask the session whether it is authenticated.
    VerifyAuthenticated,
}

/// What a [`ProbeAction`] holds, as mathematical values.
pub enum ProbeActionView {
    CheckKeyFile { path: Seq<char> },
    ConnectTcp { host: Seq<char>, port: u16 },
    CreateSession,
    Handshake,
    AuthPassword { username: Seq<char>, password: Seq<char> },
    AuthKeyFile { username: Seq<char>, path: Seq<char> },
    VerifyAuthenticated,
}

impl View for ProbeAction {
    type V = ProbeActionView;

    open spec fn view(&self) -> ProbeActionView {
        match self {
            ProbeAction::CheckKeyFile { path } => ProbeActionView::CheckKeyFile { path: path@ },
            ProbeAction::ConnectTcp { host, port } => ProbeActionView::ConnectTcp {
                host: host@,
                port: *port,
            },
            ProbeAction::CreateSession => ProbeActionView::CreateSession,
            ProbeAction::Handshake => ProbeActionView::Handshake,
            ProbeAction::AuthPassword { username, password } => ProbeActionView::AuthPassword {
                username: username@,
                password: password@,
            },
            ProbeAction::AuthKeyFile { username, path } => ProbeActionView::AuthKeyFile {
                username: username@,
                path: path@,
            },
            ProbeAction::VerifyAuthenticated => ProbeActionView::VerifyAuthenticated,
        }
    }
}

/// What came of the last action, or that the attempt begins or has run out
/// of time.
#[derive(Debug, PartialEq, Eq)]
pub enum ProbeEvent {
    /// The attempt begins.
    Begin,
    /// The key file was looked for.
    KeyFileChecked { exists: bool },
    /// The TCP connection is open.
    TcpConnected,
    /// The TCP connection could not be opened.
    TcpFailed { kind: TcpErrorKind, detail: String },
    /// The session was created.
    SessionCreated,
    /// The session could not be created.
    SessionFailed { detail: String },
    /// The handshake succeeded.
    HandshakeDone,
    /// The handshake failed.
    HandshakeFailed { detail: String },
    /// The authentication request went through.
    AuthAccepted,
    /// The authentication request failed.
    AuthRejected { detail: String },
    /// The session said whether it is authenticated.
    Verified { authenticated: bool },
    /// The time for the attempt is over.
    TimedOut,
}

/// What a [`ProbeEvent`] holds, as mathematical values.
pub enum ProbeEventView {
    Begin,
    KeyFileChecked { exists: bool },
    TcpConnected,
    TcpFailed { kind: TcpErrorKind, detail: Seq<char> },
    SessionCreated,
    SessionFailed { detail: Seq<char> },
    HandshakeDone,
    HandshakeFailed { detail: Seq<char> },
    AuthAccepted,
    AuthRejected { detail: Seq<char> },
    Verified { authenticated: bool },
    TimedOut,
}

impl View for ProbeEvent {
    type V = ProbeEventView;

    open spec fn view(&self) -> ProbeEventView {
        match self {
            ProbeEvent::Begin => ProbeEventView::Begin,
            ProbeEvent::KeyFileChecked { exists } => ProbeEventView::KeyFileChecked {
                exists: *exists,
            },
            ProbeEvent::TcpConnected => ProbeEventView::TcpConnected,
            ProbeEvent::TcpFailed { kind, detail } => ProbeEventView::TcpFailed {
                kind: *kind,
                detail: detail@,
            },
            ProbeEvent::SessionCreated => ProbeEventView::SessionCreated,
            ProbeEvent::SessionFailed { detail } => ProbeEventView::SessionFailed {
                detail: detail@,
            },
            ProbeEvent::HandshakeDone => ProbeEventView::HandshakeDone,
            ProbeEvent::HandshakeFailed { detail } => ProbeEventView::HandshakeFailed {
                detail: detail@,
            },
            ProbeEvent::AuthAccepted => ProbeEventView::AuthAccepted,
            ProbeEvent::AuthRejected { detail } => ProbeEventView::AuthRejected { detail: detail@ },
            ProbeEvent::Verified { authenticated } => ProbeEventView::Verified {
                authenticated: *authenticated,
            },
            ProbeEvent::TimedOut => ProbeEventView::TimedOut,
        }
    }
}

/// One step of an attempt: an action to perform, or the outcome.
#[derive(Debug, PartialEq, Eq)]
pub enum ProbeStep {
    Act(ProbeAction),
    Finished(ConnectionResult),
}

/// What a [`ProbeStep`] holds, as mathematical values.
pub enum ProbeStepView {
    Act(ProbeActionView),
    Finished(ConnectionResultView),
}

impl View for ProbeStep {
    type V = ProbeStepView;

    open spec fn view(&self) -> ProbeStepView {
        match self {
            ProbeStep::Act(a) => ProbeStepView::Act(a@),
            ProbeStep::Finished(r) => ProbeStepView::Finished(r@),
        }
    }
}

/// The key file of an endpoint: its key path, where that is a non-empty
/// text.
pub open spec fn key_file(c: ConnectionView) -> Option<Seq<char>> {
    match c.key_path {
        Some(p) => if p.len() > 0 {
            Some(p)
        } else {
            None
        },
        None => None,
    }
}

/// The failure reported for an endpoint with key authentication and no key
/// path, before anything is attempted.
pub open spec fn key_path_missing_early() -> ProbeStepView {
    ProbeStepView::Finished(
        failure_view(
            "Key authentication requires specifying a key file path"@,
            ErrorCode::KeyPathMissing,
        ),
    )
}

/// The step of opening the TCP connection to an endpoint.
pub open spec fn connect_tcp(c: ConnectionView) -> ProbeStepView {
    ProbeStepView::Act(ProbeActionView::ConnectTcp { host: c.host, port: c.port })
}

/// How an attempt begins: with key authentication, the key path must be
/// there and the file is looked for first; with a password, the TCP
/// connection is opened at once.
pub open spec fn probe_begin(c: ConnectionView) -> ProbeStepView {
    match c.auth_method {
        AuthMethod::Key => match key_file(c) {
            Some(path) => ProbeStepView::Act(ProbeActionView::CheckKeyFile { path }),
            None => key_path_missing_early(),
        },
        AuthMethod::Password => connect_tcp(c),
    }
}

/// What follows the handshake: the authentication request that the
/// endpoint's method calls for, or the failure for a missing credential.
pub open spec fn probe_credentials(c: ConnectionView) -> ProbeStepView {
    match c.auth_method {
        AuthMethod::Password => match c.password {
            Some(password) => ProbeStepView::Act(
                ProbeActionView::AuthPassword { username: c.username, password },
            ),
            None => ProbeStepView::Finished(
                failure_view(
                    "Password authentication requires providing a password"@,
                    ErrorCode::PasswordMissing,
                ),
            ),
        },
        AuthMethod::Key => match key_file(c) {
            Some(path) => ProbeStepView::Act(
                ProbeActionView::AuthKeyFile { username: c.username, path },
            ),
            None => ProbeStepView::Finished(
                failure_view(
                    "Key authentication requires providing a key file path"@,
                    ErrorCode::KeyPathMissing,
                ),
            ),
        },
    }
}

/// The text of an optional text, empty where there is none.
pub open spec fn text_or_empty(o: Option<Seq<char>>) -> Seq<char> {
    match o {
        Some(s) => s,
        None => Seq::empty(),
    }
}

/// The step that follows event `e` in an attempt against endpoint `c`.
pub open spec fn probe_next(c: ConnectionView, e: ProbeEventView) -> ProbeStepView {
    match e {
        ProbeEventView::Begin => probe_begin(c),
        ProbeEventView::KeyFileChecked { exists } => if exists {
            connect_tcp(c)
        } else {
            ProbeStepView::Finished(
                failure_view(
                    "Key file does not exist: "@ + text_or_empty(c.key_path),
                    ErrorCode::KeyFileNotFound,
                ),
            )
        },
        ProbeEventView::TcpConnected => ProbeStepView::Act(ProbeActionView::CreateSession),
        ProbeEventView::TcpFailed { kind, detail } => ProbeStepView::Finished(
            failure_view(
                "Unable to connect to server "@ + address(c.host, c.port) + " - "@ + detail,
                tcp_error_code(kind),
            ),
        ),
        ProbeEventView::SessionCreated => ProbeStepView::Act(ProbeActionView::Handshake),
        ProbeEventView::SessionFailed { detail } => ProbeStepView::Finished(
            failure_view("Failed to create SSH session: "@ + detail, ErrorCode::SshSessionError),
        ),
        ProbeEventView::HandshakeDone => probe_credentials(c),
        ProbeEventView::HandshakeFailed { detail } => ProbeStepView::Finished(
            failure_view("SSH handshake failed: "@ + detail, ErrorCode::SshHandshakeError),
        ),
        ProbeEventView::AuthAccepted => ProbeStepView::Act(ProbeActionView::VerifyAuthenticated),
        ProbeEventView::AuthRejected { detail } => ProbeStepView::Finished(
            failure_view("SSH authentication failed: "@ + detail, ErrorCode::SshAuthError),
        ),
        ProbeEventView::Verified { authenticated } => if authenticated {
            ProbeStepView::Finished(success_view("SSH connection test successful"@))
        } else {
            ProbeStepView::Finished(
                failure_view("SSH authentication failed"@, ErrorCode::SshAuthError),
            )
        },
        ProbeEventView::TimedOut => ProbeStepView::Finished(
            failure_view("SSH connection test timed out"@, ErrorCode::Timeout),
        ),
    }
}

/// The key file of the endpoint, where its key path is a non-empty text.
fn key_file_of(connection: &SSHConnection) -> (path: Option<String>)
    ensures
        opt_text(path) == key_file(connection@),
{
    match &connection.key_path {
        Some(p) => {
            if p.as_str().is_empty() {
                None
            } else {
                Some(p.clone())
            }
        },
        None => None,
    }
}

/// The step of opening the TCP connection to the endpoint.
fn connect_tcp_step(connection: &SSHConnection) -> (step: ProbeStep)
    ensures
        step@ == connect_tcp(connection@),
{
    ProbeStep::Act(ProbeAction::ConnectTcp { host: connection.host.clone(), port: connection.port })
}

/// A finished step that reports `head` followed by `detail` under `code`.
fn failed_with_detail(head: &str, detail: &str, code: ErrorCode) -> (step: ProbeStep)
    ensures
        step@ == ProbeStepView::Finished(failure_view(head@ + detail@, code)),
{
    ProbeStep::Finished(ConnectionResult::failed(join2(head, detail), code))
}

/// Says what follows `event` in an attempt to authenticate against
/// `connection`: the next action, or the outcome. The attempt starts with
/// [`ProbeEvent::Begin`]; every later event reports what came of the
/// action that the step before asked for.
pub fn test_ssh_connection(connection: &SSHConnection, event: ProbeEvent) -> (step: ProbeStep)
    ensures
        step@ == probe_next(connection@, event@),
{
    match event {
        ProbeEvent::Begin => match connection.auth_method {
            AuthMethod::Key => match key_file_of(connection) {
                Some(path) => ProbeStep::Act(ProbeAction::CheckKeyFile { path }),
                None => ProbeStep::Finished(
                    ConnectionResult::failed(
                        "Key authentication requires specifying a key file path".to_owned(),
                        ErrorCode::KeyPathMissing,
                    ),
                ),
            },
            AuthMethod::Password => connect_tcp_step(connection),
        },
        ProbeEvent::KeyFileChecked { exists } => {
            if exists {
                connect_tcp_step(connection)
            } else {
                match &connection.key_path {
                    Some(p) => failed_with_detail(
                        "Key file does not exist: ",
                        p.as_str(),
                        ErrorCode::KeyFileNotFound,
                    ),
                    None => {
                        assert("Key file does not exist: "@ + Seq::<char>::empty()
                            =~= "Key file does not exist: "@);
                        ProbeStep::Finished(
                            ConnectionResult::failed(
                                "Key file does not exist: ".to_owned(),
                                ErrorCode::KeyFileNotFound,
                            ),
                        )
                    },
                }
            }
        },
        ProbeEvent::TcpConnected => ProbeStep::Act(ProbeAction::CreateSession),
        ProbeEvent::TcpFailed { kind, detail } => {
            let code = match kind {
                TcpErrorKind::ConnectionRefused => ErrorCode::ConnectionRefused,
                TcpErrorKind::TimedOut => ErrorCode::ConnectionTimeout,
                TcpErrorKind::HostUnreachable => ErrorCode::HostUnreachable,
                TcpErrorKind::Other => ErrorCode::TcpConnectionError,
            };
            let mut message = join2("Unable to connect to server ", connection.host.as_str());
            message.push(':');
            push_decimal(&mut message, connection.port);
            message.append(" - ");
            message.append(detail.as_str());
            assert(message@ =~= "Unable to connect to server "@ + address(
                connection@.host,
                connection@.port,
            ) + " - "@ + detail@);
            ProbeStep::Finished(ConnectionResult::failed(message, code))
        },
        ProbeEvent::SessionCreated => ProbeStep::Act(ProbeAction::Handshake),
        ProbeEvent::SessionFailed { detail } => failed_with_detail(
            "Failed to create SSH session: ",
            detail.as_str(),
            ErrorCode::SshSessionError,
        ),
        ProbeEvent::HandshakeDone => match connection.auth_method {
            AuthMethod::Password => match &connection.password {
                Some(password) => ProbeStep::Act(
                    ProbeAction::AuthPassword {
                        username: connection.username.clone(),
                        password: password.clone(),
                    },
                ),
                None => ProbeStep::Finished(
                    ConnectionResult::failed(
                        "Password authentication requires providing a password".to_owned(),
                        ErrorCode::PasswordMissing,
                    ),
                ),
            },
            AuthMethod::Key => match key_file_of(connection) {
                Some(path) => ProbeStep::Act(
                    ProbeAction::AuthKeyFile { username: connection.username.clone(), path },
                ),
                None => ProbeStep::Finished(
                    ConnectionResult::failed(
                        "Key authentication requires providing a key file path".to_owned(),
                        ErrorCode::KeyPathMissing,
                    ),
                ),
            },
        },
        ProbeEvent::HandshakeFailed { detail } => failed_with_detail(
            "SSH handshake failed: ",
            detail.as_str(),
            ErrorCode::SshHandshakeError,
        ),
        ProbeEvent::AuthAccepted => ProbeStep::Act(ProbeAction::VerifyAuthenticated),
        ProbeEvent::AuthRejected { detail } => failed_with_detail(
            "SSH authentication failed: ",
            detail.as_str(),
            ErrorCode::SshAuthError,
        ),
        ProbeEvent::Verified { authenticated } => {
            if authenticated {
                ProbeStep::Finished(
                    ConnectionResult::ok("SSH connection test successful".to_owned()),
                )
            } else {
                ProbeStep::Finished(
                    ConnectionResult::failed(
                        "SSH authentication failed".to_owned(),
                        ErrorCode::SshAuthError,
                    ),
                )
            }
        },
        ProbeEvent::TimedOut => ProbeStep::Finished(
            ConnectionResult::failed(
                "SSH connection test timed out".to_owned(),
                ErrorCode::Timeout,
            ),
        ),
    }
}

/// An attempt succeeds on one event only: the session saying that it is
/// authenticated.
pub proof fn lemma_success_needs_verification(c: ConnectionView, e: ProbeEventView)
    ensures
        (probe_next(c, e) matches ProbeStepView::Finished(r) && r.success) <==> e
            == (ProbeEventView::Verified { authenticated: true }),
{
}

/// A TCP connection is opened only at the beginning of an attempt with a
/// password, or after the key file was found.
pub proof fn lemma_socket_after_key_file(c: ConnectionView, e: ProbeEventView)
    requires
        probe_next(c, e) is Act,
        probe_next(c, e)->Act_0 is ConnectTcp,
    ensures
        (e is Begin && c.auth_method == AuthMethod::Password) || e == (ProbeEventView::KeyFileChecked {
            exists: true,
        }),
{
}

} // verus!
