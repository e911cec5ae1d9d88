//! Decoding of daemon payloads.
//!
//! The decoder accepts exactly the shapes a well-formed daemon
//! produces — the tagged flat objects of `wire` — and classifies
//! everything else as a protocol violation. `spec_decode` is the
//! mathematical decoder; `decode_response` is proved to agree with it,
//! and `lemma_decode_wire_response` shows that decoding recovers every
//! field of every inbound message from its wire form.

use crate::escape::read_str_body;
use crate::escape::unescape_str_body;
use crate::messages::AuthMessageKind;
use crate::messages::ErrorKind;
use crate::messages::LoginError;
use crate::messages::Response;
use crate::messages::ResponseModel;
use crate::wire::error_kind_name;
use crate::wire::kind_name;
use crate::wire::obj_open;
use crate::wire::quoted_str;
use crate::wire::wire_response;
use vstd::prelude::*;
use vstd::utf8::decode_utf8;
use vstd::utf8::encode_utf8;
use vstd::utf8::encode_utf8_decode_utf8;
use vstd::utf8::encode_utf8_valid_utf8;
use vstd::utf8::is_ascii_chars;
use vstd::utf8::is_ascii_chars_encode_utf8;
use vstd::utf8::valid_utf8;

verus! {

/// `b` begins with the bytes of `p`.
pub open spec fn starts_with(b: Seq<u8>, p: Seq<u8>) -> bool {
    b.len() >= p.len() && b.take(p.len() as int) == p
}

/// A quoted string value: an opening quote, then a string body.
pub open spec fn read_quoted(b: Seq<u8>) -> Option<(Seq<u8>, Seq<u8>)> {
    if b.len() == 0 || b[0] != 34 {
        None
    } else {
        read_str_body(b.skip(1))
    }
}

/// The challenge kind a wire name stands for.
pub open spec fn kind_of_name(b: Seq<u8>) -> Option<AuthMessageKind> {
    if b == encode_utf8("secret"@) {
        Some(AuthMessageKind::Secret)
    } else if b == encode_utf8("secret_visible"@) {
        Some(AuthMessageKind::SecretVisible)
    } else if b == encode_utf8("informational"@) {
        Some(AuthMessageKind::Informational)
    } else if b == encode_utf8("error_notice"@) {
        Some(AuthMessageKind::ErrorNotice)
    } else {
        None
    }
}

/// The error classification a wire name stands for.
pub open spec fn error_kind_of_name(b: Seq<u8>) -> Option<ErrorKind> {
    if b == encode_utf8("auth_error"@) {
        Some(ErrorKind::AuthError)
    } else if b == encode_utf8("error"@) {
        Some(ErrorKind::Error)
    } else {
        None
    }
}

/// The fields of an auth message, after its tag: the challenge kind,
/// then the prompt text, then the end of the object.
pub open spec fn decode_auth_fields(b: Seq<u8>) -> Option<ResponseModel> {
    if !starts_with(b, encode_utf8(",\"auth_message_type\":"@)) {
        None
    } else {
        match read_quoted(b.skip(encode_utf8(",\"auth_message_type\":"@).len() as int)) {
            None => None,
            Some((kb, r)) => match kind_of_name(kb) {
                None => None,
                Some(kind) => {
                    if !starts_with(r, encode_utf8(",\"message\":"@)) {
                        None
                    } else {
                        match read_quoted(r.skip(encode_utf8(",\"message\":"@).len() as int)) {
                            None => None,
                            Some((mb, r2)) => {
                                if r2 == seq![125u8] && valid_utf8(mb) {
                                    Some(
                                        ResponseModel::AuthMessage {
                                            kind,
                                            message: decode_utf8(mb),
                                        },
                                    )
                                } else {
                                    None
                                }
                            },
                        }
                    }
                },
            },
        }
    }
}

/// The fields of an error message, after its tag: the classification,
/// then the description, then the end of the object.
pub open spec fn decode_error_fields(b: Seq<u8>) -> Option<ResponseModel> {
    if !starts_with(b, encode_utf8(",\"error_type\":"@)) {
        None
    } else {
        match read_quoted(b.skip(encode_utf8(",\"error_type\":"@).len() as int)) {
            None => None,
            Some((kb, r)) => match error_kind_of_name(kb) {
                None => None,
                Some(kind) => {
                    if !starts_with(r, encode_utf8(",\"description\":"@)) {
                        None
                    } else {
                        match read_quoted(r.skip(encode_utf8(",\"description\":"@).len() as int)) {
                            None => None,
                            Some((db, r2)) => {
                                if r2 == seq![125u8] && valid_utf8(db) {
                                    Some(
                                        ResponseModel::Error {
                                            kind,
                                            description: decode_utf8(db),
                                        },
                                    )
                                } else {
                                    None
                                }
                            },
                        }
                    }
                },
            },
        }
    }
}

/// The message a payload means, or `None` for anything malformed,
/// unrecognized, or trailed by stray bytes.
pub open spec fn spec_decode(b: Seq<u8>) -> Option<ResponseModel> {
    if !starts_with(b, obj_open()) {
        None
    } else {
        match read_quoted(b.skip(obj_open().len() as int)) {
            None => None,
            Some((tag, r1)) => {
                if tag == encode_utf8("success"@) {
                    if r1 == seq![125u8] {
                        Some(ResponseModel::Success)
                    } else {
                        None
                    }
                } else if tag == encode_utf8("auth_message"@) {
                    decode_auth_fields(r1)
                } else if tag == encode_utf8("error"@) {
                    decode_error_fields(r1)
                } else {
                    None
                }
            },
        }
    }
}

/// Splitting a concatenation at the length of its first part.
proof fn lemma_split_prefix(p: Seq<u8>, rest: Seq<u8>)
    ensures
        starts_with(p + rest, p),
        (p + rest).skip(p.len() as int) == rest,
{
    assert((p + rest).take(p.len() as int) =~= p);
    assert((p + rest).skip(p.len() as int) =~= rest);
}

/// The byte lengths of the names used on the wire. All are ASCII, and
/// no two names compared against the same field have the same length,
/// so these lengths are what tells them apart.
proof fn lemma_wire_name_lens()
    ensures
        encode_utf8("success"@).len() == 7,
        encode_utf8("auth_message"@).len() == 12,
        encode_utf8("error"@).len() == 5,
        encode_utf8("secret"@).len() == 6,
        encode_utf8("secret_visible"@).len() == 14,
        encode_utf8("informational"@).len() == 13,
        encode_utf8("error_notice"@).len() == 12,
        encode_utf8("auth_error"@).len() == 10,
{
    reveal_strlit("success");
    assert(is_ascii_chars("success"@));
    is_ascii_chars_encode_utf8("success"@);
    reveal_strlit("auth_message");
    assert(is_ascii_chars("auth_message"@));
    is_ascii_chars_encode_utf8("auth_message"@);
    reveal_strlit("error");
    assert(is_ascii_chars("error"@));
    is_ascii_chars_encode_utf8("error"@);
    reveal_strlit("secret");
    assert(is_ascii_chars("secret"@));
    is_ascii_chars_encode_utf8("secret"@);
    reveal_strlit("secret_visible");
    assert(is_ascii_chars("secret_visible"@));
    is_ascii_chars_encode_utf8("secret_visible"@);
    reveal_strlit("informational");
    assert(is_ascii_chars("informational"@));
    is_ascii_chars_encode_utf8("informational"@);
    reveal_strlit("error_notice");
    assert(is_ascii_chars("error_notice"@));
    is_ascii_chars_encode_utf8("error_notice"@);
    reveal_strlit("auth_error");
    assert(is_ascii_chars("auth_error"@));
    is_ascii_chars_encode_utf8("auth_error"@);
}

/// A wire name maps back to the challenge kind it was written for.
proof fn lemma_kind_name_round_trip(kind: AuthMessageKind)
    ensures
        kind_of_name(encode_utf8(kind_name(kind))) == Some(kind),
{
    lemma_wire_name_lens();
}

/// A wire name maps back to the error classification it was written
/// for.
proof fn lemma_error_kind_name_round_trip(kind: ErrorKind)
    ensures
        error_kind_of_name(encode_utf8(error_kind_name(kind))) == Some(kind),
{
    lemma_wire_name_lens();
}

/// Decoding a success message recovers it from its wire form.
proof fn lemma_decode_wire_success()
    ensures
        spec_decode(wire_response(ResponseModel::Success)) == Some(ResponseModel::Success),
{
    let m = ResponseModel::Success;
    let b = wire_response(m);
    let tagb = encode_utf8("success"@);
    let tail = quoted_str("success"@) + seq![125u8];
    assert(b =~= obj_open() + tail);
    lemma_split_prefix(obj_open(), tail);
    assert(tail[0] == 34);
    assert(tail.skip(1) =~= crate::escape::esc(tagb) + seq![34u8] + seq![125u8]);
    crate::escape::lemma_read_escaped(tagb, seq![125u8]);
    assert(read_quoted(tail) == Some((tagb, seq![125u8])));
}

/// Decoding an auth message recovers its kind and prompt from its
/// wire form.
#[verifier::rlimit(60)]
proof fn lemma_decode_wire_auth(kind: AuthMessageKind, message: Seq<char>)
    ensures
        spec_decode(wire_response(ResponseModel::AuthMessage { kind, message })) == Some(
            ResponseModel::AuthMessage { kind, message },
        ),
{
    let m = ResponseModel::AuthMessage { kind, message };
    let b = wire_response(m);
    lemma_wire_name_lens();
    let tagb = encode_utf8("auth_message"@);
    let kn = encode_utf8(kind_name(kind));
    let mb = encode_utf8(message);
    let t3 = quoted_str(message) + seq![125u8];
    let t2 = encode_utf8(",\"message\":"@) + t3;
    let t1 = quoted_str(kind_name(kind)) + t2;
    let t0 = encode_utf8(",\"auth_message_type\":"@) + t1;
    let tail = quoted_str("auth_message"@) + t0;
    assert(b =~= obj_open() + tail);
    lemma_split_prefix(obj_open(), tail);
    assert(tail[0] == 34);
    assert(tail.skip(1) =~= crate::escape::esc(tagb) + seq![34u8] + t0);
    crate::escape::lemma_read_escaped(tagb, t0);
    assert(read_quoted(tail) == Some((tagb, t0)));
    assert(tagb != encode_utf8("success"@));
    lemma_split_prefix(encode_utf8(",\"auth_message_type\":"@), t1);
    assert(t1[0] == 34);
    assert(t1.skip(1) =~= crate::escape::esc(kn) + seq![34u8] + t2);
    crate::escape::lemma_read_escaped(kn, t2);
    assert(read_quoted(t1) == Some((kn, t2)));
    lemma_kind_name_round_trip(kind);
    lemma_split_prefix(encode_utf8(",\"message\":"@), t3);
    assert(t3[0] == 34);
    assert(t3.skip(1) =~= crate::escape::esc(mb) + seq![34u8] + seq![125u8]);
    crate::escape::lemma_read_escaped(mb, seq![125u8]);
    assert(read_quoted(t3) == Some((mb, seq![125u8])));
    encode_utf8_valid_utf8(message);
    encode_utf8_decode_utf8(message);
    assert(decode_auth_fields(t0) == Some(m));
}

/// Decoding an error message recovers its classification and
/// description from its wire form.
#[verifier::rlimit(60)]
proof fn lemma_decode_wire_error(kind: ErrorKind, description: Seq<char>)
    ensures
        spec_decode(wire_response(ResponseModel::Error { kind, description })) == Some(
            ResponseModel::Error { kind, description },
        ),
{
    let m = ResponseModel::Error { kind, description };
    let b = wire_response(m);
    lemma_wire_name_lens();
    let tagb = encode_utf8("error"@);
    let kn = encode_utf8(error_kind_name(kind));
    let db = encode_utf8(description);
    let t3 = quoted_str(description) + seq![125u8];
    let t2 = encode_utf8(",\"description\":"@) + t3;
    let t1 = quoted_str(error_kind_name(kind)) + t2;
    let t0 = encode_utf8(",\"error_type\":"@) + t1;
    let tail = quoted_str("error"@) + t0;
    assert(b =~= obj_open() + tail);
    lemma_split_prefix(obj_open(), tail);
    assert(tail[0] == 34);
    assert(tail.skip(1) =~= crate::escape::esc(tagb) + seq![34u8] + t0);
    crate::escape::lemma_read_escaped(tagb, t0);
    assert(read_quoted(tail) == Some((tagb, t0)));
    assert(tagb != encode_utf8("success"@));
    assert(tagb != encode_utf8("auth_message"@));
    lemma_split_prefix(encode_utf8(",\"error_type\":"@), t1);
    assert(t1[0] == 34);
    assert(t1.skip(1) =~= crate::escape::esc(kn) + seq![34u8] + t2);
    crate::escape::lemma_read_escaped(kn, t2);
    assert(read_quoted(t1) == Some((kn, t2)));
    lemma_error_kind_name_round_trip(kind);
    lemma_split_prefix(encode_utf8(",\"description\":"@), t3);
    assert(t3[0] == 34);
    assert(t3.skip(1) =~= crate::escape::esc(db) + seq![34u8] + seq![125u8]);
    crate::escape::lemma_read_escaped(db, seq![125u8]);
    assert(read_quoted(t3) == Some((db, seq![125u8])));
    encode_utf8_valid_utf8(description);
    encode_utf8_decode_utf8(description);
    assert(decode_error_fields(t0) == Some(m));
}

/// Decoding recovers every field of every inbound message from its
/// wire form.
pub proof fn lemma_decode_wire_response(m: ResponseModel)
    ensures
        spec_decode(wire_response(m)) == Some(m),
{
    match m {
        ResponseModel::Success => lemma_decode_wire_success(),
        ResponseModel::AuthMessage { kind, message } => lemma_decode_wire_auth(kind, message),
        ResponseModel::Error { kind, description } => lemma_decode_wire_error(kind, description),
    }
}

/// Relies on `String::from_utf8`: it succeeds exactly on valid UTF-8
/// and yields the characters those bytes encode.
#[verifier::external_body]
fn string_from_utf8(bytes: Vec<u8>) -> (r: Option<String>)
    ensures
        r is Some <==> valid_utf8(bytes@),
        r matches Some(s) ==> s@ == decode_utf8(bytes@),
{
    String::from_utf8(bytes).ok()
}

/// A protocol-violation error with the given description.
fn protocol_violation(why: &str) -> (e: LoginError)
    ensures
        e is ProtocolError,
{
    LoginError::ProtocolError { description: why.to_owned() }
}

/// Expect the bytes of the literal `s` at position `from`; on success
/// the position just past them.
#[verifier::loop_isolation(false)]
fn expect_lit(b: &[u8], from: usize, s: &str) -> (r: Option<usize>)
    requires
        from <= b@.len(),
    ensures
        match r {
            Some(j) => {
                &&& from <= j <= b@.len()
                &&& starts_with(b@.skip(from as int), encode_utf8(s@))
                &&& j == from + encode_utf8(s@).len()
            },
            None => !starts_with(b@.skip(from as int), encode_utf8(s@)),
        },
{
    let sb = s.as_bytes();
    if b.len() - from < sb.len() {
        return None;
    }
    let mut k: usize = 0;
    while k < sb.len()
        invariant
            k <= sb@.len(),
            forall|t: int| 0 <= t < k ==> b@[from + t] == sb@[t],
        decreases sb@.len() - k,
    {
        if b[from + k] != sb[k] {
            proof {
                assert(b@.skip(from as int)[k as int] == b@[from + k]);
                if starts_with(b@.skip(from as int), encode_utf8(s@)) {
                    assert(b@.skip(from as int).take(sb@.len() as int)[k as int] == sb@[k as int]);
                }
            }
            return None;
        }
        k = k + 1;
    }
    proof {
        assert(b@.skip(from as int).take(sb@.len() as int) =~= sb@);
    }
    Some(from + sb.len())
}

/// Read a quoted string value at position `from`; on success the
/// unescaped content and the position just past the closing quote.
fn take_quoted(b: &[u8], from: usize) -> (r: Option<(Vec<u8>, usize)>)
    requires
        from <= b@.len(),
    ensures
        match r {
            Some((content, j)) => {
                &&& from <= j <= b@.len()
                &&& read_quoted(b@.skip(from as int)) == Some((content@, b@.skip(j as int)))
            },
            None => read_quoted(b@.skip(from as int)) is None,
        },
{
    if from >= b.len() || b[from] != 34 {
        proof {
            if from < b@.len() {
                assert(b@.skip(from as int)[0] == b@[from as int]);
            }
        }
        return None;
    }
    proof {
        assert(b@.skip(from as int)[0] == 34);
        assert(b@.skip(from as int).skip(1) =~= b@.skip(from as int + 1));
    }
    unescape_str_body(b, from + 1)
}

/// The challenge kind named by unescaped content, if recognized.
fn kind_from_name(kb: &Vec<u8>) -> (r: Option<AuthMessageKind>)
    ensures
        r == kind_of_name(kb@),
{
    if bytes_eq_lit(kb, "secret") {
        Some(AuthMessageKind::Secret)
    } else if bytes_eq_lit(kb, "secret_visible") {
        Some(AuthMessageKind::SecretVisible)
    } else if bytes_eq_lit(kb, "informational") {
        Some(AuthMessageKind::Informational)
    } else if bytes_eq_lit(kb, "error_notice") {
        Some(AuthMessageKind::ErrorNotice)
    } else {
        None
    }
}

/// The error classification named by unescaped content, if recognized.
fn error_kind_from_name(kb: &Vec<u8>) -> (r: Option<ErrorKind>)
    ensures
        r == error_kind_of_name(kb@),
{
    if bytes_eq_lit(kb, "auth_error") {
        Some(ErrorKind::AuthError)
    } else if bytes_eq_lit(kb, "error") {
        Some(ErrorKind::Error)
    } else {
        None
    }
}

/// Whether the bytes equal the UTF-8 bytes of the literal `s`.
#[verifier::loop_isolation(false)]
fn bytes_eq_lit(v: &Vec<u8>, s: &str) -> (r: bool)
    ensures
        r <==> v@ == encode_utf8(s@),
{
    let sb = s.as_bytes();
    if v.len() != sb.len() {
        return false;
    }
    let mut k: usize = 0;
    while k < sb.len()
        invariant
            k <= sb@.len(),
            forall|t: int| 0 <= t < k ==> v@[t] == sb@[t],
        decreases sb@.len() - k,
    {
        if v[k] != sb[k] {
            return false;
        }
        k = k + 1;
    }
    proof {
        assert(v@ =~= encode_utf8(s@));
    }
    true
}

/// Whether the single byte `125` — the closing brace — stands at
/// `from` and ends the payload.
fn ends_object(b: &[u8], from: usize) -> (r: bool)
    requires
        from <= b@.len(),
    ensures
        r <==> b@.skip(from as int) == seq![125u8],
{
    let r = b.len() - from == 1 && b[from] == 125;
    proof {
        if r {
            assert(b@.skip(from as int) =~= seq![125u8]);
        } else {
            if b@.skip(from as int) == seq![125u8] {
                assert(b@.skip(from as int).len() == 1);
                assert(b@[from as int] == b@.skip(from as int)[0]);
            }
        }
    }
    r
}

/// Decode one payload into the message it means, or a protocol error
/// for anything malformed, unrecognized, or out of shape.
pub fn decode_response(payload: &[u8]) -> (r: Result<Response, LoginError>)
    ensures
        match r {
            Ok(m) => spec_decode(payload@) == Some(m@),
            Err(e) => spec_decode(payload@) is None && e is ProtocolError,
        },
{
    proof {
        assert(payload@.skip(0) =~= payload@);
    }
    let i0 = match expect_lit(payload, 0, "{\"type\":") {
        Some(j) => j,
        None => {
            return Err(protocol_violation("daemon message does not open a tagged object"));
        },
    };
    let (tag, i1) = match take_quoted(payload, i0) {
        Some(p) => p,
        None => {
            return Err(protocol_violation("daemon message has a malformed type tag"));
        },
    };
    if bytes_eq_lit(&tag, "success") {
        if ends_object(payload, i1) {
            Ok(Response::Success)
        } else {
            Err(protocol_violation("unexpected bytes after a success message"))
        }
    } else if bytes_eq_lit(&tag, "auth_message") {
        let i2 = match expect_lit(payload, i1, ",\"auth_message_type\":") {
            Some(j) => j,
            None => {
                return Err(protocol_violation("auth message lacks its kind field"));
            },
        };
        proof {
            assert(payload@.skip(i1 as int).skip(encode_utf8(",\"auth_message_type\":"@).len() as int)
                =~= payload@.skip(i2 as int));
        }
        let (kb, i3) = match take_quoted(payload, i2) {
            Some(p) => p,
            None => {
                return Err(protocol_violation("auth message has a malformed kind"));
            },
        };
        let kind = match kind_from_name(&kb) {
            Some(k) => k,
            None => {
                return Err(protocol_violation("auth message kind is not recognized"));
            },
        };
        let i4 = match expect_lit(payload, i3, ",\"message\":") {
            Some(j) => j,
            None => {
                return Err(protocol_violation("auth message lacks its prompt field"));
            },
        };
        proof {
            assert(payload@.skip(i3 as int).skip(encode_utf8(",\"message\":"@).len() as int)
                =~= payload@.skip(i4 as int));
        }
        let (mb, i5) = match take_quoted(payload, i4) {
            Some(p) => p,
            None => {
                return Err(protocol_violation("auth message has a malformed prompt"));
            },
        };
        if !ends_object(payload, i5) {
            return Err(protocol_violation("unexpected bytes after an auth message"));
        }
        match string_from_utf8(mb) {
            Some(message) => Ok(Response::AuthMessage { kind, message }),
            None => Err(protocol_violation("auth message prompt is not UTF-8")),
        }
    } else if bytes_eq_lit(&tag, "error") {
        let i2 = match expect_lit(payload, i1, ",\"error_type\":") {
            Some(j) => j,
            None => {
                return Err(protocol_violation("error message lacks its kind field"));
            },
        };
        proof {
            assert(payload@.skip(i1 as int).skip(encode_utf8(",\"error_type\":"@).len() as int)
                =~= payload@.skip(i2 as int));
        }
        let (kb, i3) = match take_quoted(payload, i2) {
            Some(p) => p,
            None => {
                return Err(protocol_violation("error message has a malformed kind"));
            },
        };
        let kind = match error_kind_from_name(&kb) {
            Some(k) => k,
            None => {
                return Err(protocol_violation("error message kind is not recognized"));
            },
        };
        let i4 = match expect_lit(payload, i3, ",\"description\":") {
            Some(j) => j,
            None => {
                return Err(protocol_violation("error message lacks its description field"));
            },
        };
        proof {
            assert(payload@.skip(i3 as int).skip(encode_utf8(",\"description\":"@).len() as int)
                =~= payload@.skip(i4 as int));
        }
        let (db, i5) = match take_quoted(payload, i4) {
            Some(p) => p,
            None => {
                return Err(protocol_violation("error message has a malformed description"));
            },
        };
        if !ends_object(payload, i5) {
            return Err(protocol_violation("unexpected bytes after an error message"));
        }
        match string_from_utf8(db) {
            Some(description) => Ok(Response::Error { kind, description }),
            None => Err(protocol_violation("error description is not UTF-8")),
        }
    } else {
        Err(protocol_violation("daemon message tag is not recognized"))
    }
}

} // verus!
