//! The authentication protocol state machine.
//!
//! One login attempt walks a strict, ordered exchange: create the
//! session, answer exactly one credential prompt, observe the result,
//! then request the session start. A reply that is not valid for the
//! current state moves the machine to `Failed` — it never guesses,
//! retries, or waits out a misbehaving peer. The daemon's error
//! description is carried verbatim; the password itself appears in no
//! state and in no error.

use crate::messages::AuthMessageKind;
use crate::messages::LoginError;
use crate::messages::Request;
use crate::messages::Response;
use vstd::prelude::*;

verus! {

/// Where one login attempt stands. `Failed` is terminal and reachable
/// from every other state.
#[derive(Debug, Clone)]
pub enum ProtoState {
    /// Nothing sent yet.
    Idle,
    /// `CreateSession` sent; the one credential prompt is owed.
    AwaitingAuthPrompt,
    /// The prompt was answered; success or rejection is owed.
    AwaitingAuthResult,
    /// The daemon accepted the credentials.
    Authenticated,
    /// `StartSession` sent; the daemon owes no further reply.
    SessionRequested,
    /// The attempt is over and the connection is done with.
    Done,
    /// The attempt failed; the error says in which phase and why.
    Failed(LoginError),
}

/// Open an attempt: the machine awaits the prompt and `CreateSession`
/// is owed to the daemon.
pub fn create_session_request(username: &String) -> (r: (ProtoState, Request))
    ensures
        r.0 is AwaitingAuthPrompt,
        r.1 matches Request::CreateSession { username: u } && u@ == username@,
{
    (
        ProtoState::AwaitingAuthPrompt,
        Request::CreateSession { username: username.clone() },
    )
}

/// The fixed text of the failure for a prompt of a kind this client
/// never answers. Fixed text by construction: no failure description
/// is ever derived from the password.
pub open spec fn unexpected_prompt_text() -> Seq<char> {
    "daemon sent a non-secret message in place of the credential prompt"@
}

/// The fixed text of the failure for success arriving before any
/// credential was sent.
pub open spec fn early_success_text() -> Seq<char> {
    "daemon reported success before any credential was sent"@
}

/// The fixed text of the failure for a second prompt after the one
/// supported credential exchange.
pub open spec fn second_prompt_text() -> Seq<char> {
    "daemon sent a second prompt; one credential exchange is supported"@
}

/// The fixed text of the failure for a reply in a state that expects
/// none.
pub open spec fn out_of_sequence_text() -> Seq<char> {
    "daemon message out of sequence for the current state"@
}

/// Feed one daemon reply to the machine: the next state, and the
/// message now owed to the daemon, if any.
///
/// From `AwaitingAuthPrompt`, a secret or secret-visible prompt is
/// answered with the password; any other kind of prompt, or any other
/// message, fails the attempt — an informational message in place of a
/// prompt is a protocol violation, not something to answer with the
/// password. From `AwaitingAuthResult`, success authenticates and a
/// daemon error rejects the credentials, its description carried
/// verbatim. A reply in any other state is out of sequence.
pub fn advance_on_reply(state: &ProtoState, reply: &Response, password: &String) -> (r: (
    ProtoState,
    Option<Request>,
))
    ensures
        state is AwaitingAuthPrompt ==> (reply matches Response::AuthMessage { kind, .. } ==> (((
        kind == AuthMessageKind::Secret || kind == AuthMessageKind::SecretVisible) ==> (r.0
            is AwaitingAuthResult && (r.1 matches Some(
            Request::PostAuthMessageResponse { response: Some(p) },
        ) && p@ == password@))) && ((kind == AuthMessageKind::Informational || kind
            == AuthMessageKind::ErrorNotice) ==> ((r.0 matches ProtoState::Failed(e) && (e
            matches LoginError::ProtocolError { description: d } && d@ == unexpected_prompt_text()))
            && r.1 is None)))),
        state is AwaitingAuthPrompt ==> (reply matches Response::Error { description, .. } ==> ((
        r.0 matches ProtoState::Failed(e) && (e matches LoginError::AuthError { description: d }
            && d@ == description@)) && r.1 is None)),
        state is AwaitingAuthPrompt ==> (reply is Success ==> ((r.0 matches ProtoState::Failed(e)
            && (e matches LoginError::ProtocolError { description: d } && d@
            == early_success_text())) && r.1 is None)),
        state is AwaitingAuthResult ==> (reply is Success ==> (r.0 is Authenticated && r.1
            is None)),
        state is AwaitingAuthResult ==> (reply matches Response::Error { description, .. } ==> ((
        r.0 matches ProtoState::Failed(e) && (e matches LoginError::AuthError { description: d }
            && d@ == description@)) && r.1 is None)),
        state is AwaitingAuthResult ==> (reply is AuthMessage ==> ((r.0
            matches ProtoState::Failed(e) && (e matches LoginError::ProtocolError {
                description: d,
            } && d@ == second_prompt_text())) && r.1 is None)),
        !(state is AwaitingAuthPrompt || state is AwaitingAuthResult) ==> ((r.0
            matches ProtoState::Failed(e) && (e matches LoginError::ProtocolError {
                description: d,
            } && d@ == out_of_sequence_text())) && r.1 is None),
{
    match state {
        ProtoState::AwaitingAuthPrompt => match reply {
            Response::AuthMessage { kind, .. } => match kind {
                AuthMessageKind::Secret | AuthMessageKind::SecretVisible => (
                    ProtoState::AwaitingAuthResult,
                    Some(
                        Request::PostAuthMessageResponse { response: Some(password.clone()) },
                    ),
                ),
                AuthMessageKind::Informational | AuthMessageKind::ErrorNotice => (
                    ProtoState::Failed(
                        LoginError::ProtocolError {
                            description: "daemon sent a non-secret message in place of the credential prompt".to_owned(),
                        },
                    ),
                    None,
                ),
            },
            Response::Error { description, .. } => (
                ProtoState::Failed(LoginError::AuthError { description: description.clone() }),
                None,
            ),
            Response::Success => (
                ProtoState::Failed(
                    LoginError::ProtocolError {
                        description: "daemon reported success before any credential was sent".to_owned(),
                    },
                ),
                None,
            ),
        },
        ProtoState::AwaitingAuthResult => match reply {
            Response::Success => (ProtoState::Authenticated, None),
            Response::Error { description, .. } => (
                ProtoState::Failed(LoginError::AuthError { description: description.clone() }),
                None,
            ),
            Response::AuthMessage { .. } => (
                ProtoState::Failed(
                    LoginError::ProtocolError {
                        description: "daemon sent a second prompt; one credential exchange is supported".to_owned(),
                    },
                ),
                None,
            ),
        },
        _ => (
            ProtoState::Failed(
                LoginError::ProtocolError {
                    description: "daemon message out of sequence for the current state".to_owned(),
                },
            ),
            None,
        ),
    }
}

/// After authentication, request the session start. The daemon may
/// send nothing back — it may be replacing the caller's execution
/// context — so the machine owes it no further read. In any state but
/// `Authenticated` the request is out of order and fails the attempt.
pub fn start_session_request(state: &ProtoState, cmd: Vec<String>) -> (r: (
    ProtoState,
    Option<Request>,
))
    ensures
        state is Authenticated ==> (r.0 is SessionRequested && (r.1 matches Some(
            Request::StartSession { cmd: c, env: e },
        ) && c == cmd && e@.len() == 0)),
        !(state is Authenticated) ==> ((r.0 matches ProtoState::Failed(e) && e is ProtocolError)
            && r.1 is None),
{
    match state {
        ProtoState::Authenticated => (
            ProtoState::SessionRequested,
            Some(Request::StartSession { cmd, env: Vec::new() }),
        ),
        _ => (
            ProtoState::Failed(
                LoginError::ProtocolError {
                    description: "session start requested before authentication".to_owned(),
                },
            ),
            None,
        ),
    }
}

/// The cancellation message sent on a fresh connection when an attempt
/// fails after `CreateSession` went out, so the daemon releases any
/// partially created session state.
pub fn cancel_request() -> (r: Request)
    ensures
        r is CancelSession,
{
    Request::CancelSession
}

} // verus!
