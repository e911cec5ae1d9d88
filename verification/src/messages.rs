//! The messages exchanged with the login daemon, and the classified
//! errors a login attempt can end in.

use vstd::prelude::*;

verus! {

/// Kind of challenge carried by a daemon auth message. Only `Secret`
/// and `SecretVisible` prompts are answered with the user's password;
/// any other kind ends the attempt.
#[derive(Clone, Copy, Debug, PartialEq, Eq, Structural)]
pub enum AuthMessageKind {
    Secret,
    SecretVisible,
    Informational,
    ErrorNotice,
}

/// Classification a daemon error message carries on the wire.
#[derive(Clone, Copy, Debug, PartialEq, Eq, Structural)]
pub enum ErrorKind {
    AuthError,
    Error,
}

/// An outbound message to the daemon.
#[derive(Debug, Clone)]
pub enum Request {
    CreateSession { username: String },
    PostAuthMessageResponse { response: Option<String> },
    StartSession { cmd: Vec<String>, env: Vec<String> },
    CancelSession,
}

/// Mathematical model of an outbound message: each text field as a
/// sequence of characters.
pub enum RequestModel {
    CreateSession { username: Seq<char> },
    PostAuthMessageResponse { response: Option<Seq<char>> },
    StartSession { cmd: Seq<Seq<char>>, env: Seq<Seq<char>> },
    CancelSession,
}

impl View for Request {
    type V = RequestModel;

    open spec fn view(&self) -> RequestModel {
        match self {
            Request::CreateSession { username } => RequestModel::CreateSession {
                username: username@,
            },
            Request::PostAuthMessageResponse { response } => RequestModel::PostAuthMessageResponse {
                response: response.deep_view(),
            },
            Request::StartSession { cmd, env } => RequestModel::StartSession {
                cmd: cmd.deep_view(),
                env: env.deep_view(),
            },
            Request::CancelSession => RequestModel::CancelSession,
        }
    }
}

/// An inbound message from the daemon.
#[derive(Debug, Clone)]
pub enum Response {
    AuthMessage { kind: AuthMessageKind, message: String },
    Success,
    Error { kind: ErrorKind, description: String },
}

/// Mathematical model of an inbound message: each text field as a
/// sequence of characters.
pub enum ResponseModel {
    AuthMessage { kind: AuthMessageKind, message: Seq<char> },
    Success,
    Error { kind: ErrorKind, description: Seq<char> },
}

impl View for Response {
    type V = ResponseModel;

    open spec fn view(&self) -> ResponseModel {
        match self {
            Response::AuthMessage { kind, message } => ResponseModel::AuthMessage {
                kind: *kind,
                message: message@,
            },
            Response::Success => ResponseModel::Success,
            Response::Error { kind, description } => ResponseModel::Error {
                kind: *kind,
                description: description@,
            },
        }
    }
}

/// A classified, credential-free failure of a login attempt, tagged
/// with the phase it occurred in. The description never contains the
/// password.
#[derive(Debug, Clone)]
pub enum LoginError {
    /// The session command was empty or blank; no connection was opened.
    ConfigError { description: String },
    /// The daemon's socket could not be reached.
    ConnectionError { description: String },
    /// The peer broke the framing or sent a message out of sequence or
    /// of an unexpected kind.
    ProtocolError { description: String },
    /// The daemon explicitly rejected the credentials.
    AuthError { description: String },
    /// The transport failed mid-exchange.
    IoError { description: String },
}

impl LoginError {
    /// The human-readable description carried by any of the variants.
    pub fn description(&self) -> (r: &String)
        ensures
            r@ == self.description_text(),
    {
        match self {
            LoginError::ConfigError { description } => description,
            LoginError::ConnectionError { description } => description,
            LoginError::ProtocolError { description } => description,
            LoginError::AuthError { description } => description,
            LoginError::IoError { description } => description,
        }
    }

    /// The description field of any variant, as a character sequence.
    pub open spec fn description_text(&self) -> Seq<char> {
        match self {
            LoginError::ConfigError { description } => description@,
            LoginError::ConnectionError { description } => description@,
            LoginError::ProtocolError { description } => description@,
            LoginError::AuthError { description } => description@,
            LoginError::IoError { description } => description@,
        }
    }
}

} // verus!
