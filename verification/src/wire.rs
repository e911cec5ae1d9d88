//! The canonical wire form of every message, and the encoders that
//! produce it.
//!
//! Each payload is a flat JSON object: a `type` tag first, then the
//! fields of that message, in a fixed order, with no whitespace, all
//! string content escaped as `escape` defines. The functions here state
//! the exact byte sequence for each message; the encoders are proved to
//! produce it.

use crate::escape::append_escaped;
use crate::escape::esc;
use crate::messages::AuthMessageKind;
use crate::messages::ErrorKind;
use crate::messages::Request;
use crate::messages::RequestModel;
use crate::messages::Response;
use crate::messages::ResponseModel;
use vstd::prelude::*;
use vstd::utf8::encode_utf8;

verus! {

/// A string value on the wire: escaped content between quotes.
pub open spec fn quoted_str(s: Seq<char>) -> Seq<u8> {
    seq![34u8] + esc(encode_utf8(s)) + seq![34u8]
}

/// The elements of a JSON array of strings, between the brackets:
/// quoted values separated by commas.
pub open spec fn arr_items(items: Seq<Seq<char>>) -> Seq<u8>
    decreases items.len(),
{
    if items.len() == 0 {
        Seq::empty()
    } else if items.len() == 1 {
        quoted_str(items[0])
    } else {
        arr_items(items.drop_last()) + seq![44u8] + quoted_str(items.last())
    }
}

/// A JSON array of strings.
pub open spec fn str_array(items: Seq<Seq<char>>) -> Seq<u8> {
    seq![91u8] + arr_items(items) + seq![93u8]
}

/// The name a challenge kind carries on the wire.
pub open spec fn kind_name(kind: AuthMessageKind) -> Seq<char> {
    match kind {
        AuthMessageKind::Secret => "secret"@,
        AuthMessageKind::SecretVisible => "secret_visible"@,
        AuthMessageKind::Informational => "informational"@,
        AuthMessageKind::ErrorNotice => "error_notice"@,
    }
}

/// The name an error classification carries on the wire.
pub open spec fn error_kind_name(kind: ErrorKind) -> Seq<char> {
    match kind {
        ErrorKind::AuthError => "auth_error"@,
        ErrorKind::Error => "error"@,
    }
}

/// The opening of every payload, up to the quoted value of its
/// `type` tag.
pub open spec fn obj_open() -> Seq<u8> {
    encode_utf8("{\"type\":"@)
}

/// The wire form of each outbound message.
pub open spec fn wire_request(m: RequestModel) -> Seq<u8> {
    match m {
        RequestModel::CreateSession { username } => obj_open() + quoted_str("create_session"@)
            + encode_utf8(",\"username\":"@) + quoted_str(username) + seq![125u8],
        RequestModel::PostAuthMessageResponse { response: Some(r) } => obj_open() + quoted_str(
            "post_auth_message_response"@,
        ) + encode_utf8(",\"response\":"@) + quoted_str(r) + seq![125u8],
        RequestModel::PostAuthMessageResponse { response: None } => obj_open() + quoted_str(
            "post_auth_message_response"@,
        ) + encode_utf8(",\"response\":null}"@),
        RequestModel::StartSession { cmd, env } => obj_open() + quoted_str("start_session"@)
            + encode_utf8(",\"cmd\":"@) + str_array(cmd) + encode_utf8(",\"env\":"@) + str_array(env)
            + seq![125u8],
        RequestModel::CancelSession => obj_open() + quoted_str("cancel_session"@) + seq![125u8],
    }
}

/// The wire form of each inbound message, as a well-formed daemon
/// produces it.
pub open spec fn wire_response(m: ResponseModel) -> Seq<u8> {
    match m {
        ResponseModel::AuthMessage { kind, message } => obj_open() + quoted_str("auth_message"@)
            + encode_utf8(",\"auth_message_type\":"@) + quoted_str(kind_name(kind)) + encode_utf8(
            ",\"message\":"@,
        ) + quoted_str(message) + seq![125u8],
        ResponseModel::Success => obj_open() + quoted_str("success"@) + seq![125u8],
        ResponseModel::Error { kind, description } => obj_open() + quoted_str("error"@)
            + encode_utf8(",\"error_type\":"@) + quoted_str(error_kind_name(kind)) + encode_utf8(
            ",\"description\":"@,
        ) + quoted_str(description) + seq![125u8],
    }
}

/// Append the bytes of a literal piece of JSON syntax.
fn append_lit(out: &mut Vec<u8>, s: &str)
    ensures
        final(out)@ == old(out)@ + encode_utf8(s@),
{
    out.extend_from_slice(s.as_bytes());
    proof {
        assert(out@ =~= old(out)@ + encode_utf8(s@));
    }
}

/// Append a quoted, escaped string value.
fn append_quoted(out: &mut Vec<u8>, s: &str)
    ensures
        final(out)@ == old(out)@ + quoted_str(s@),
{
    out.push(34);
    append_escaped(out, s.as_bytes());
    out.push(34);
    proof {
        assert(out@ =~= old(out)@ + quoted_str(s@));
    }
}

/// Append a JSON array holding the given strings.
fn append_str_array(out: &mut Vec<u8>, items: &Vec<String>)
    ensures
        final(out)@ == old(out)@ + str_array(items.deep_view()),
{
    let ghost start = out@;
    out.push(91);
    let mut i: usize = 0;
    while i < items.len()
        invariant
            i <= items@.len(),
            out@ == start + seq![91u8] + arr_items(items.deep_view().take(i as int)),
        decreases items@.len() - i,
    {
        if i > 0 {
            out.push(44);
        }
        append_quoted(out, items[i].as_str());
        proof {
            let dv = items.deep_view();
            assert(dv.len() == items@.len());
            assert(dv[i as int] == items@[i as int]@);
            if i == 0 {
                assert(dv.take(1).len() == 1);
                assert(dv.take(1)[0] == dv[0]);
                assert(arr_items(dv.take(1)) == quoted_str(dv[0]));
                assert(out@ =~= start + seq![91u8] + arr_items(dv.take(i as int + 1)));
            } else {
                let t = dv.take(i as int + 1);
                assert(t.len() == i + 1);
                assert(t.drop_last() =~= dv.take(i as int));
                assert(t.last() == dv[i as int]);
                assert(arr_items(t) == arr_items(dv.take(i as int)) + seq![44u8] + quoted_str(
                    dv[i as int],
                ));
                assert(out@ =~= start + seq![91u8] + arr_items(t));
            }
        }
        i = i + 1;
    }
    out.push(93);
    proof {
        assert(items.deep_view().take(items@.len() as int) =~= items.deep_view());
        assert(out@ =~= start + str_array(items.deep_view()));
    }
}

/// Encode an outbound message into its exact wire form.
pub fn encode_request(req: &Request) -> (r: Vec<u8>)
    ensures
        r@ == wire_request(req@),
{
    let mut out: Vec<u8> = Vec::new();
    match req {
        Request::CreateSession { username } => {
            append_lit(&mut out, "{\"type\":");
            append_quoted(&mut out, "create_session");
            append_lit(&mut out, ",\"username\":");
            append_quoted(&mut out, username.as_str());
            out.push(125);
            proof {
                assert(out@ =~= wire_request(req@));
            }
        },
        Request::PostAuthMessageResponse { response } => {
            append_lit(&mut out, "{\"type\":");
            append_quoted(&mut out, "post_auth_message_response");
            match response {
                Some(r) => {
                    append_lit(&mut out, ",\"response\":");
                    append_quoted(&mut out, r.as_str());
                    out.push(125);
                },
                None => {
                    append_lit(&mut out, ",\"response\":null}");
                },
            }
            proof {
                assert(out@ =~= wire_request(req@));
            }
        },
        Request::StartSession { cmd, env } => {
            append_lit(&mut out, "{\"type\":");
            append_quoted(&mut out, "start_session");
            append_lit(&mut out, ",\"cmd\":");
            append_str_array(&mut out, cmd);
            append_lit(&mut out, ",\"env\":");
            append_str_array(&mut out, env);
            out.push(125);
            proof {
                assert(out@ =~= wire_request(req@));
            }
        },
        Request::CancelSession => {
            append_lit(&mut out, "{\"type\":");
            append_quoted(&mut out, "cancel_session");
            out.push(125);
            proof {
                assert(out@ =~= wire_request(req@));
            }
        },
    }
    out
}

/// The wire name of a challenge kind.
pub fn kind_name_str(kind: AuthMessageKind) -> (r: &'static str)
    ensures
        r@ == kind_name(kind),
{
    match kind {
        AuthMessageKind::Secret => "secret",
        AuthMessageKind::SecretVisible => "secret_visible",
        AuthMessageKind::Informational => "informational",
        AuthMessageKind::ErrorNotice => "error_notice",
    }
}

/// The wire name of an error classification.
pub fn error_kind_name_str(kind: ErrorKind) -> (r: &'static str)
    ensures
        r@ == error_kind_name(kind),
{
    match kind {
        ErrorKind::AuthError => "auth_error",
        ErrorKind::Error => "error",
    }
}

/// Encode an inbound message into the wire form a well-formed daemon
/// would use. The protocol never requires the client to send one of
/// these; it exists so that a daemon's side of an exchange can be
/// produced and checked against the decoder.
pub fn encode_response(resp: &Response) -> (r: Vec<u8>)
    ensures
        r@ == wire_response(resp@),
{
    let mut out: Vec<u8> = Vec::new();
    match resp {
        Response::AuthMessage { kind, message } => {
            append_lit(&mut out, "{\"type\":");
            append_quoted(&mut out, "auth_message");
            append_lit(&mut out, ",\"auth_message_type\":");
            append_quoted(&mut out, kind_name_str(*kind));
            append_lit(&mut out, ",\"message\":");
            append_quoted(&mut out, message.as_str());
            out.push(125);
            proof {
                assert(out@ =~= wire_response(resp@));
            }
        },
        Response::Success => {
            append_lit(&mut out, "{\"type\":");
            append_quoted(&mut out, "success");
            out.push(125);
            proof {
                assert(out@ =~= wire_response(resp@));
            }
        },
        Response::Error { kind, description } => {
            append_lit(&mut out, "{\"type\":");
            append_quoted(&mut out, "error");
            append_lit(&mut out, ",\"error_type\":");
            append_quoted(&mut out, error_kind_name_str(*kind));
            append_lit(&mut out, ",\"description\":");
            append_quoted(&mut out, description.as_str());
            out.push(125);
            proof {
                assert(out@ =~= wire_response(resp@));
            }
        },
    }
    out
}

} // verus!
