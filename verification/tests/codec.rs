//! The wire codec: exact outbound bytes, framing, the length cap, and
//! the round trip from a daemon-shaped payload back to its fields.

use hypr_greeter::frame::check_declared_len;
use hypr_greeter::frame::decode_len_prefix;
use hypr_greeter::frame::encode_frame;
use hypr_greeter::messages::AuthMessageKind;
use hypr_greeter::messages::ErrorKind;
use hypr_greeter::messages::LoginError;
use hypr_greeter::messages::Request;
use hypr_greeter::messages::Response;
use hypr_greeter::parse::decode_response;
use hypr_greeter::wire::encode_request;
use hypr_greeter::wire::encode_response;

fn as_text(bytes: Vec<u8>) -> String {
    String::from_utf8(bytes).expect("wire form must be UTF-8")
}

#[test]
fn create_session_wire_form_is_exact() {
    let req = Request::CreateSession {
        username: "alice".to_string(),
    };
    assert_eq!(
        as_text(encode_request(&req)),
        "{\"type\":\"create_session\",\"username\":\"alice\"}"
    );
}

#[test]
fn post_auth_message_response_wire_form_is_exact() {
    let req = Request::PostAuthMessageResponse {
        response: Some("hunter2".to_string()),
    };
    assert_eq!(
        as_text(encode_request(&req)),
        "{\"type\":\"post_auth_message_response\",\"response\":\"hunter2\"}"
    );
}

#[test]
fn post_auth_message_response_without_answer_is_null() {
    let req = Request::PostAuthMessageResponse { response: None };
    assert_eq!(
        as_text(encode_request(&req)),
        "{\"type\":\"post_auth_message_response\",\"response\":null}"
    );
}

#[test]
fn start_session_wire_form_is_exact() {
    let req = Request::StartSession {
        cmd: vec!["/bin/bash".to_string(), "--login".to_string()],
        env: vec![],
    };
    assert_eq!(
        as_text(encode_request(&req)),
        "{\"type\":\"start_session\",\"cmd\":[\"/bin/bash\",\"--login\"],\"env\":[]}"
    );
}

#[test]
fn cancel_session_wire_form_is_exact() {
    assert_eq!(
        as_text(encode_request(&Request::CancelSession)),
        "{\"type\":\"cancel_session\"}"
    );
}

#[test]
fn quotes_backslashes_and_controls_are_escaped() {
    let req = Request::CreateSession {
        username: "a\"b\\c\nd".to_string(),
    };
    assert_eq!(
        as_text(encode_request(&req)),
        "{\"type\":\"create_session\",\"username\":\"a\\\"b\\\\c\\u000ad\"}"
    );
}

#[test]
fn multibyte_characters_pass_through_unescaped() {
    let req = Request::CreateSession {
        username: "héllo✓".to_string(),
    };
    assert_eq!(
        as_text(encode_request(&req)),
        "{\"type\":\"create_session\",\"username\":\"héllo✓\"}"
    );
}

#[test]
fn auth_message_round_trips_through_the_wire() {
    let original = Response::AuthMessage {
        kind: AuthMessageKind::Secret,
        message: "Password:".to_string(),
    };
    let decoded = decode_response(&encode_response(&original)).unwrap();
    match decoded {
        Response::AuthMessage { kind, message } => {
            assert!(matches!(kind, AuthMessageKind::Secret));
            assert_eq!(message, "Password:");
        }
        other => panic!("expected an auth message, got {:?}", other),
    }
}

#[test]
fn every_auth_message_kind_round_trips() {
    let kinds = [
        AuthMessageKind::Secret,
        AuthMessageKind::SecretVisible,
        AuthMessageKind::Informational,
        AuthMessageKind::ErrorNotice,
    ];
    for kind in kinds {
        let original = Response::AuthMessage {
            kind,
            message: "prompt".to_string(),
        };
        let decoded = decode_response(&encode_response(&original)).unwrap();
        match decoded {
            Response::AuthMessage { kind: k, message } => {
                assert_eq!(k, kind);
                assert_eq!(message, "prompt");
            }
            other => panic!("expected an auth message, got {:?}", other),
        }
    }
}

#[test]
fn success_round_trips_through_the_wire() {
    let payload = encode_response(&Response::Success);
    assert_eq!(as_text(payload.clone()), "{\"type\":\"success\"}");
    assert!(matches!(
        decode_response(&payload).unwrap(),
        Response::Success
    ));
}

#[test]
fn error_round_trips_with_both_kinds() {
    for (kind, name) in [
        (ErrorKind::AuthError, "auth_error"),
        (ErrorKind::Error, "error"),
    ] {
        let original = Response::Error {
            kind,
            description: "invalid credentials".to_string(),
        };
        let payload = encode_response(&original);
        assert_eq!(
            as_text(payload.clone()),
            format!(
                "{{\"type\":\"error\",\"error_type\":\"{}\",\"description\":\"invalid credentials\"}}",
                name
            )
        );
        match decode_response(&payload).unwrap() {
            Response::Error { kind: k, description } => {
                assert_eq!(k, kind);
                assert_eq!(description, "invalid credentials");
            }
            other => panic!("expected an error message, got {:?}", other),
        }
    }
}

#[test]
fn awkward_prompt_text_round_trips() {
    let original = Response::AuthMessage {
        kind: AuthMessageKind::SecretVisible,
        message: "line\nbreak \"quoted\" back\\slash tab\t é ✓".to_string(),
    };
    let decoded = decode_response(&encode_response(&original)).unwrap();
    match decoded {
        Response::AuthMessage { message, .. } => {
            assert_eq!(message, "line\nbreak \"quoted\" back\\slash tab\t é ✓");
        }
        other => panic!("expected an auth message, got {:?}", other),
    }
}

#[test]
fn short_escapes_from_the_daemon_are_understood() {
    let payload =
        b"{\"type\":\"auth_message\",\"auth_message_type\":\"secret\",\"message\":\"a\\tb\\nc\\\"d\\\\e\\/f\"}";
    match decode_response(payload).unwrap() {
        Response::AuthMessage { message, .. } => assert_eq!(message, "a\tb\nc\"d\\e/f"),
        other => panic!("expected an auth message, got {:?}", other),
    }
}

#[test]
fn unicode_hex_escapes_for_ascii_are_understood() {
    let payload =
        b"{\"type\":\"auth_message\",\"auth_message_type\":\"secret\",\"message\":\"\\u0041\\u000a\"}";
    match decode_response(payload).unwrap() {
        Response::AuthMessage { message, .. } => assert_eq!(message, "A\n"),
        other => panic!("expected an auth message, got {:?}", other),
    }
}

#[test]
fn malformed_payloads_are_protocol_errors() {
    let cases: Vec<&[u8]> = vec![
        b"",
        b"{}",
        b"{\"type\": \"success\"}",
        b"{\"type\":\"success\"} ",
        b"{\"type\":\"success\"",
        b"{\"type\":\"reboot\"}",
        b"{\"type\":\"auth_message\",\"auth_message_type\":\"telepathy\",\"message\":\"x\"}",
        b"{\"type\":\"auth_message\",\"message\":\"x\"}",
        b"{\"type\":\"error\",\"error_type\":\"warning\",\"description\":\"x\"}",
        b"{\"type\":\"auth_message\",\"auth_message_type\":\"secret\",\"message\":\"\\q\"}",
        b"{\"type\":\"auth_message\",\"auth_message_type\":\"secret\",\"message\":\"\\u0root\"}",
        b"not json at all",
    ];
    for payload in cases {
        assert!(
            matches!(
                decode_response(payload),
                Err(LoginError::ProtocolError { .. })
            ),
            "payload {:?} must be rejected",
            payload
        );
    }
}

#[test]
fn frames_carry_a_little_endian_length_prefix() {
    let payload = encode_request(&Request::CancelSession);
    let frame = encode_frame(&payload).unwrap();
    assert_eq!(frame.len(), 4 + payload.len());
    assert_eq!(
        u32::from_le_bytes([frame[0], frame[1], frame[2], frame[3]]) as usize,
        payload.len()
    );
    assert_eq!(&frame[4..], payload.as_slice());
}

#[test]
fn declared_length_prefix_is_decoded_little_endian() {
    assert_eq!(decode_len_prefix(&[0x2c, 0x00, 0x00, 0x00]), 44);
    assert_eq!(decode_len_prefix(&[0x00, 0x00, 0x10, 0x00]), 1048576);
}

#[test]
fn ten_mebibyte_declaration_is_rejected_before_any_read() {
    // A declared length of 10 MiB against the 1 MiB cap: the check
    // sees only the four prefix bytes, so nothing of the declared
    // payload can have been allocated or read.
    let declared = decode_len_prefix(&(10u32 * 1024 * 1024).to_le_bytes());
    assert!(matches!(
        check_declared_len(declared),
        Err(LoginError::ProtocolError { .. })
    ));
}

#[test]
fn declared_lengths_at_the_cap_pass_and_above_it_fail() {
    assert_eq!(check_declared_len(1048576).unwrap(), 1048576);
    assert_eq!(check_declared_len(0).unwrap(), 0);
    assert!(matches!(
        check_declared_len(1048577),
        Err(LoginError::ProtocolError { .. })
    ));
}

#[test]
fn oversized_outbound_payloads_are_refused() {
    let payload = vec![0u8; 1048577];
    assert!(matches!(
        encode_frame(&payload),
        Err(LoginError::ProtocolError { .. })
    ));
}
