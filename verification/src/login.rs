//! The login orchestrator: authenticate, then start the session.
//!
//! `authenticate_and_start` drives the protocol state machine through
//! one complete attempt. The daemon's replies arrive as already-decoded
//! messages in the order the transport delivers them; what goes out is
//! returned as the ordered sequence of messages owed to the daemon,
//! together with whether a cancellation is owed on a second, fresh
//! connection. The function is the single place that decides the whole
//! exchange; moving bytes on a socket is the caller's business.

use crate::messages::LoginError;
use crate::messages::Request;
use crate::messages::Response;
use crate::protocol::advance_on_reply;
use crate::protocol::create_session_request;
use crate::protocol::start_session_request;
use crate::protocol::ProtoState;
use vstd::prelude::*;
use vstd::string::StrSliceExecFns;

verus! {

/// The characters the session command is split on.
pub open spec fn is_space(c: char) -> bool {
    c == ' ' || c == '\t' || c == '\n' || c == '\u{b}' || c == '\u{c}' || c == '\r'
}

/// The leading word of `s`: everything before the first space.
pub open spec fn word_of(s: Seq<char>) -> Seq<char>
    decreases s.len(),
{
    if s.len() == 0 || is_space(s[0]) {
        Seq::empty()
    } else {
        seq![s[0]] + word_of(s.skip(1))
    }
}

/// What follows the leading word of `s`.
pub open spec fn rest_of(s: Seq<char>) -> Seq<char>
    decreases s.len(),
{
    if s.len() == 0 || is_space(s[0]) {
        s
    } else {
        rest_of(s.skip(1))
    }
}

/// What follows a word is never longer than the whole.
proof fn lemma_rest_of_le(s: Seq<char>)
    ensures
        rest_of(s).len() <= s.len(),
    decreases s.len(),
{
    if s.len() > 0 && !is_space(s[0]) {
        lemma_rest_of_le(s.skip(1));
    }
}

/// The words of `s`, in order: the session command split on
/// whitespace.
pub open spec fn argv_of(s: Seq<char>) -> Seq<Seq<char>>
    decreases s.len() via argv_of_decreases
{
    if s.len() == 0 {
        Seq::empty()
    } else if is_space(s[0]) {
        argv_of(s.skip(1))
    } else {
        seq![word_of(s)] + argv_of(rest_of(s))
    }
}

#[via_fn]
proof fn argv_of_decreases(s: Seq<char>) {
    if s.len() > 0 && !is_space(s[0]) {
        lemma_rest_of_le(s.skip(1));
    }
}

/// Where a scan that began a word stops, the word is exactly the
/// scanned characters and the rest begins at the stop.
proof fn lemma_word_boundary(s: Seq<char>, t: int)
    requires
        0 <= t <= s.len(),
        forall|k: int| 0 <= k < t ==> !is_space(s[k]),
        t == s.len() || is_space(s[t]),
    ensures
        word_of(s) == s.take(t),
        rest_of(s) == s.skip(t),
    decreases t,
{
    if t == 0 {
        assert(s.take(0) =~= Seq::<char>::empty());
        assert(s.skip(0) =~= s);
    } else {
        assert(!is_space(s[0]));
        lemma_word_boundary(s.skip(1), t - 1);
        assert(word_of(s) == seq![s[0]] + s.skip(1).take(t - 1));
        assert(seq![s[0]] + s.skip(1).take(t - 1) =~= s.take(t));
        assert(rest_of(s) == s.skip(1).skip(t - 1));
        assert(s.skip(1).skip(t - 1) =~= s.skip(t));
    }
}

/// Whether `c` is one of the characters the session command is split
/// on.
pub fn is_space_char(c: char) -> (r: bool)
    ensures
        r == is_space(c),
{
    c == ' ' || c == '\t' || c == '\n' || c == '\u{b}' || c == '\u{c}' || c == '\r'
}

/// The fixed text of the failure for an empty or blank session
/// command.
pub open spec fn empty_command_text() -> Seq<char> {
    "session command is empty"@
}

/// Split the session command on whitespace into the ordered argument
/// sequence handed to the daemon. An empty or blank command yields a
/// configuration error: the caller must not so much as open a
/// connection for it.
#[verifier::loop_isolation(false)]
pub fn build_argv(cmd: &str) -> (r: Result<Vec<String>, LoginError>)
    ensures
        r is Ok <==> argv_of(cmd@).len() > 0,
        r matches Ok(v) ==> v.deep_view() == argv_of(cmd@) && v@.len() > 0,
        r matches Err(e) ==> (e matches LoginError::ConfigError { description: d } && d@
            == empty_command_text()),
{
    let n = cmd.unicode_len();
    let mut args: Vec<String> = Vec::new();
    let mut i: usize = 0;
    proof {
        assert(cmd@.skip(0) =~= cmd@);
        assert(args.deep_view() =~= Seq::<Seq<char>>::empty());
        assert(Seq::<Seq<char>>::empty() + argv_of(cmd@) =~= argv_of(cmd@));
    }
    while i < n
        invariant
            i <= n,
            argv_of(cmd@) == args.deep_view() + argv_of(cmd@.skip(i as int)),
        decreases n - i,
    {
        let c = cmd.get_char(i);
        proof {
            assert(cmd@.skip(i as int)[0] == c);
        }
        if is_space_char(c) {
            proof {
                assert(cmd@.skip(i as int).skip(1) =~= cmd@.skip(i as int + 1));
            }
            i = i + 1;
        } else {
            let mut j: usize = i + 1;
            while j < n && !is_space_char(cmd.get_char(j))
                invariant
                    i < j <= n,
                    forall|k: int| i <= k < j ==> !is_space(cmd@[k]),
                decreases n - j,
            {
                j = j + 1;
            }
            let word = cmd.substring_char(i, j).to_owned();
            proof {
                let s = cmd@.skip(i as int);
                let t = j - i as int;
                assert forall|k: int| 0 <= k < t implies !is_space(s[k]) by {
                    assert(s[k] == cmd@[i + k]);
                }
                if j < n {
                    assert(s[t] == cmd@[j as int]);
                }
                lemma_word_boundary(s, t);
                assert(s.take(t) =~= cmd@.subrange(i as int, j as int));
                assert(s.skip(t) =~= cmd@.skip(j as int));
                assert(argv_of(s) == seq![word_of(s)] + argv_of(rest_of(s)));
            }
            let ghost dv_before = args.deep_view();
            args.push(word);
            proof {
                assert(args.deep_view() =~= dv_before + seq![word@]);
                assert(dv_before + (seq![word@] + argv_of(cmd@.skip(j as int))) =~= (dv_before
                    + seq![word@]) + argv_of(cmd@.skip(j as int)));
            }
            i = j;
        }
    }
    proof {
        assert(cmd@.skip(n as int).len() == 0);
        assert(argv_of(cmd@.skip(n as int)) =~= Seq::<Seq<char>>::empty());
        assert(args.deep_view() + Seq::<Seq<char>>::empty() =~= args.deep_view());
        assert(args.deep_view().len() == args@.len());
    }
    if args.len() == 0 {
        Err(LoginError::ConfigError { description: "session command is empty".to_owned() })
    } else {
        Ok(args)
    }
}

/// A daemon reply that is a prompt this client answers with the
/// password: a secret or secret-visible challenge.
pub open spec fn is_answerable_prompt(r: Response) -> bool {
    ||| r matches Response::AuthMessage { kind: crate::messages::AuthMessageKind::Secret, .. }
    ||| r matches Response::AuthMessage {
        kind: crate::messages::AuthMessageKind::SecretVisible,
        ..
    }
}

/// A daemon reply that is a prompt of a kind this client never
/// answers.
pub open spec fn is_unanswerable_prompt(r: Response) -> bool {
    ||| r matches Response::AuthMessage { kind: crate::messages::AuthMessageKind::Informational, .. }
    ||| r matches Response::AuthMessage { kind: crate::messages::AuthMessageKind::ErrorNotice, .. }
}

/// Everything one login attempt decided: the outcome handed to the
/// caller, the ordered messages owed to the daemon on the attempt's
/// own connection, and whether a `CancelSession` is owed on a second,
/// independent connection.
pub struct LoginRun {
    /// Success, or the classified, credential-free failure.
    pub outcome: Result<(), LoginError>,
    /// The messages to send on the attempt's connection, in order.
    pub sent: Vec<Request>,
    /// Whether the attempt failed after `CreateSession` was owed, so
    /// that a best-effort `CancelSession` on a fresh connection is
    /// called for. Its failure is secondary and never replaces the
    /// outcome.
    pub cancel_requested: bool,
}

/// One complete login attempt: validate the session command,
/// authenticate through exactly one credential prompt, and on success
/// request the session start.
///
/// `replies` are the daemon's messages in arrival order; the sequence
/// the transport could still deliver beyond what the exchange consumes
/// is ignored. A missing reply — the transport gave out — is an I/O
/// failure. The outcome never carries the password: every failure
/// description is either fixed text or the daemon's own description,
/// verbatim.
pub fn authenticate_and_start(
    username: &String,
    password: &String,
    session_command: &String,
    replies: &Vec<Response>,
) -> (r: LoginRun)
    ensures
        argv_of(session_command@).len() == 0 ==> ((r.outcome matches Err(e) && (e
            matches LoginError::ConfigError { description: d } && d@ == empty_command_text()))
            && r.sent@.len() == 0 && !r.cancel_requested),
        argv_of(session_command@).len() > 0 ==> (r.sent@.len() >= 1 && (r.sent@[0]
            matches Request::CreateSession { username: u } && u@ == username@)),
        argv_of(session_command@).len() > 0 && replies@.len() == 0 ==> ((r.outcome matches Err(e)
            && (e matches LoginError::IoError { description: d } && d@ == connection_lost_text()))
            && r.sent@.len() == 1 && r.cancel_requested),
        argv_of(session_command@).len() > 0 && replies@.len() >= 1 && is_answerable_prompt(
            replies@[0],
        ) ==> (r.sent@.len() >= 2 && (r.sent@[1] matches Request::PostAuthMessageResponse {
            response: Some(p),
        } && p@ == password@)),
        argv_of(session_command@).len() > 0 && replies@.len() == 1 && is_answerable_prompt(
            replies@[0],
        ) ==> ((r.outcome matches Err(e) && (e matches LoginError::IoError { description: d }
            && d@ == connection_lost_text())) && r.sent@.len() == 2 && r.cancel_requested),
        argv_of(session_command@).len() > 0 && replies@.len() >= 2 && is_answerable_prompt(
            replies@[0],
        ) ==> (replies@[1] is Success ==> (r.outcome is Ok && r.sent@.len() == 3 && (r.sent@[2]
            matches Request::StartSession { cmd: c, env: e } && c.deep_view() == argv_of(
            session_command@,
        ) && e@.len() == 0) && !r.cancel_requested)),
        argv_of(session_command@).len() > 0 && replies@.len() >= 2 && is_answerable_prompt(
            replies@[0],
        ) ==> (replies@[1] matches Response::Error { description, .. } ==> ((r.outcome
            matches Err(e) && (e matches LoginError::AuthError { description: d } && d@
            == description@)) && r.sent@.len() == 2 && r.cancel_requested)),
        argv_of(session_command@).len() > 0 && replies@.len() >= 2 && is_answerable_prompt(
            replies@[0],
        ) ==> (replies@[1] is AuthMessage ==> ((r.outcome matches Err(e) && (e
            matches LoginError::ProtocolError { description: d } && d@
            == crate::protocol::second_prompt_text())) && r.sent@.len() == 2
            && r.cancel_requested)),
        argv_of(session_command@).len() > 0 && replies@.len() >= 1 && is_unanswerable_prompt(
            replies@[0],
        ) ==> ((r.outcome matches Err(e) && (e matches LoginError::ProtocolError {
            description: d,
        } && d@ == crate::protocol::unexpected_prompt_text())) && r.sent@.len() == 1
            && r.cancel_requested),
        argv_of(session_command@).len() > 0 && replies@.len() >= 1 ==> (replies@[0]
            matches Response::Error { description, .. } ==> ((r.outcome matches Err(e) && (e
            matches LoginError::AuthError { description: d } && d@ == description@))
            && r.sent@.len() == 1 && r.cancel_requested)),
        argv_of(session_command@).len() > 0 && replies@.len() >= 1 ==> (replies@[0] is Success
            ==> ((r.outcome matches Err(e) && (e matches LoginError::ProtocolError {
            description: d,
        } && d@ == crate::protocol::early_success_text())) && r.sent@.len() == 1
            && r.cancel_requested)),
        r.cancel_requested <==> (argv_of(session_command@).len() > 0 && r.outcome is Err),
{
    let argv = match build_argv(session_command.as_str()) {
        Ok(v) => v,
        Err(e) => {
            return LoginRun { outcome: Err(e), sent: Vec::new(), cancel_requested: false };
        },
    };
    let mut sent: Vec<Request> = Vec::new();
    let (st_prompt, create) = create_session_request(username);
    sent.push(create);
    if replies.len() == 0 {
        return LoginRun {
            outcome: Err(io_failure()),
            sent,
            cancel_requested: true,
        };
    }
    let (st_after_prompt, answer) = advance_on_reply(&st_prompt, &replies[0], password);
    match st_after_prompt {
        ProtoState::AwaitingAuthResult => {
            let response = match answer {
                Some(q) => q,
                None => unreached(),
            };
            sent.push(response);
            if replies.len() == 1 {
                return LoginRun {
                    outcome: Err(io_failure()),
                    sent,
                    cancel_requested: true,
                };
            }
            let st = ProtoState::AwaitingAuthResult;
            let (st_result, _nothing) = advance_on_reply(&st, &replies[1], password);
            match st_result {
                ProtoState::Authenticated => {
                    let (_st_requested, start) = start_session_request(
                        &ProtoState::Authenticated,
                        argv,
                    );
                    let start = match start {
                        Some(q) => q,
                        None => unreached(),
                    };
                    sent.push(start);
                    LoginRun { outcome: Ok(()), sent, cancel_requested: false }
                },
                ProtoState::Failed(e) => LoginRun {
                    outcome: Err(e),
                    sent,
                    cancel_requested: true,
                },
                _ => unreached(),
            }
        },
        ProtoState::Failed(e) => LoginRun { outcome: Err(e), sent, cancel_requested: true },
        _ => unreached(),
    }
}

/// The fixed text of the failure for a transport that gave out
/// mid-exchange. Fixed text by construction: no failure description is
/// ever derived from the password.
pub open spec fn connection_lost_text() -> Seq<char> {
    "connection to the daemon closed mid-exchange"@
}

/// An I/O failure: the transport gave out mid-exchange.
fn io_failure() -> (e: LoginError)
    ensures
        e matches LoginError::IoError { description: d } && d@ == connection_lost_text(),
{
    LoginError::IoError {
        description: "connection to the daemon closed mid-exchange".to_owned(),
    }
}

} // verus!
