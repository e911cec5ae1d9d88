//! One complete login attempt against a scripted daemon: the ordered
//! outbound messages, the outcome classification, and the cleanup
//! decision.

use hypr_greeter::login::authenticate_and_start;
use hypr_greeter::login::build_argv;
use hypr_greeter::messages::AuthMessageKind;
use hypr_greeter::messages::ErrorKind;
use hypr_greeter::messages::LoginError;
use hypr_greeter::messages::Request;
use hypr_greeter::messages::Response;
use hypr_greeter::protocol::cancel_request;

fn secret_prompt() -> Response {
    Response::AuthMessage {
        kind: AuthMessageKind::Secret,
        message: "Password:".to_string(),
    }
}

#[test]
fn successful_login_sends_exactly_create_post_start() {
    let replies = vec![secret_prompt(), Response::Success];
    let run = authenticate_and_start(
        &"alice".to_string(),
        &"hunter2".to_string(),
        &"Hyprland".to_string(),
        &replies,
    );
    assert!(run.outcome.is_ok());
    assert!(!run.cancel_requested);
    assert_eq!(run.sent.len(), 3);
    match &run.sent[0] {
        Request::CreateSession { username } => assert_eq!(username, "alice"),
        _ => panic!("first outbound message must be CreateSession"),
    }
    match &run.sent[1] {
        Request::PostAuthMessageResponse { response } => {
            assert_eq!(response.as_deref(), Some("hunter2"))
        }
        _ => panic!("second outbound message must be PostAuthMessageResponse"),
    }
    match &run.sent[2] {
        Request::StartSession { cmd, env } => {
            assert_eq!(cmd, &vec!["Hyprland".to_string()]);
            assert!(env.is_empty());
        }
        _ => panic!("third outbound message must be StartSession"),
    }
}

#[test]
fn session_command_is_split_on_whitespace() {
    let replies = vec![secret_prompt(), Response::Success];
    let run = authenticate_and_start(
        &"alice".to_string(),
        &"pw".to_string(),
        &"  /bin/bash\t--login  extra ".to_string(),
        &replies,
    );
    assert!(run.outcome.is_ok());
    match &run.sent[2] {
        Request::StartSession { cmd, .. } => {
            assert_eq!(
                cmd,
                &vec![
                    "/bin/bash".to_string(),
                    "--login".to_string(),
                    "extra".to_string()
                ]
            );
        }
        _ => panic!("third outbound message must be StartSession"),
    }
}

#[test]
fn empty_session_command_fails_with_config_error_before_any_io() {
    let replies = vec![secret_prompt(), Response::Success];
    let run = authenticate_and_start(
        &"alice".to_string(),
        &"pw".to_string(),
        &"".to_string(),
        &replies,
    );
    assert!(matches!(
        run.outcome,
        Err(LoginError::ConfigError { .. })
    ));
    assert!(run.sent.is_empty());
    assert!(!run.cancel_requested);
}

#[test]
fn blank_session_command_fails_with_config_error_before_any_io() {
    let replies = vec![secret_prompt(), Response::Success];
    let run = authenticate_and_start(
        &"alice".to_string(),
        &"pw".to_string(),
        &" \t \r\n ".to_string(),
        &replies,
    );
    assert!(matches!(
        run.outcome,
        Err(LoginError::ConfigError { .. })
    ));
    assert!(run.sent.is_empty());
    assert!(!run.cancel_requested);
}

#[test]
fn rejected_credentials_fail_with_auth_error_and_request_cancellation() {
    let replies = vec![
        secret_prompt(),
        Response::Error {
            kind: ErrorKind::AuthError,
            description: "invalid credentials".to_string(),
        },
    ];
    let run = authenticate_and_start(
        &"alice".to_string(),
        &"wrong".to_string(),
        &"Hyprland".to_string(),
        &replies,
    );
    match &run.outcome {
        Err(LoginError::AuthError { description }) => {
            assert!(description.contains("invalid credentials"));
        }
        other => panic!("expected AuthError, got {:?}", other),
    }
    assert_eq!(run.sent.len(), 2);
    // The cleanup goes out on a second, independent connection.
    assert!(run.cancel_requested);
    assert!(matches!(cancel_request(), Request::CancelSession));
}

#[test]
fn informational_prompt_fails_closed_without_answering() {
    let replies = vec![Response::AuthMessage {
        kind: AuthMessageKind::Informational,
        message: "have you tried turning it off and on again".to_string(),
    }];
    let run = authenticate_and_start(
        &"alice".to_string(),
        &"pw".to_string(),
        &"Hyprland".to_string(),
        &replies,
    );
    assert!(matches!(
        run.outcome,
        Err(LoginError::ProtocolError { .. })
    ));
    // The password was never sent: only CreateSession went out.
    assert_eq!(run.sent.len(), 1);
    assert!(matches!(&run.sent[0], Request::CreateSession { .. }));
    assert!(run.cancel_requested);
}

#[test]
fn error_notice_prompt_fails_closed_without_answering() {
    let replies = vec![Response::AuthMessage {
        kind: AuthMessageKind::ErrorNotice,
        message: "account locked".to_string(),
    }];
    let run = authenticate_and_start(
        &"alice".to_string(),
        &"pw".to_string(),
        &"Hyprland".to_string(),
        &replies,
    );
    assert!(matches!(
        run.outcome,
        Err(LoginError::ProtocolError { .. })
    ));
    assert_eq!(run.sent.len(), 1);
    assert!(run.cancel_requested);
}

#[test]
fn secret_visible_prompt_is_answered_like_a_secret_one() {
    let replies = vec![
        Response::AuthMessage {
            kind: AuthMessageKind::SecretVisible,
            message: "PIN:".to_string(),
        },
        Response::Success,
    ];
    let run = authenticate_and_start(
        &"bob".to_string(),
        &"1234".to_string(),
        &"sway".to_string(),
        &replies,
    );
    assert!(run.outcome.is_ok());
    assert_eq!(run.sent.len(), 3);
}

#[test]
fn success_in_place_of_prompt_is_a_protocol_error() {
    let replies = vec![Response::Success];
    let run = authenticate_and_start(
        &"alice".to_string(),
        &"pw".to_string(),
        &"Hyprland".to_string(),
        &replies,
    );
    assert!(matches!(
        run.outcome,
        Err(LoginError::ProtocolError { .. })
    ));
    assert_eq!(run.sent.len(), 1);
    assert!(run.cancel_requested);
}

#[test]
fn daemon_error_in_place_of_prompt_is_an_auth_error_verbatim() {
    let replies = vec![Response::Error {
        kind: ErrorKind::Error,
        description: "too many open sessions".to_string(),
    }];
    let run = authenticate_and_start(
        &"alice".to_string(),
        &"pw".to_string(),
        &"Hyprland".to_string(),
        &replies,
    );
    match &run.outcome {
        Err(LoginError::AuthError { description }) => {
            assert_eq!(description, "too many open sessions");
        }
        other => panic!("expected AuthError, got {:?}", other),
    }
    assert!(run.cancel_requested);
}

#[test]
fn second_prompt_after_password_is_a_protocol_error() {
    let replies = vec![secret_prompt(), secret_prompt()];
    let run = authenticate_and_start(
        &"alice".to_string(),
        &"pw".to_string(),
        &"Hyprland".to_string(),
        &replies,
    );
    assert!(matches!(
        run.outcome,
        Err(LoginError::ProtocolError { .. })
    ));
    assert_eq!(run.sent.len(), 2);
    assert!(run.cancel_requested);
}

#[test]
fn connection_lost_before_prompt_is_an_io_error() {
    let replies: Vec<Response> = vec![];
    let run = authenticate_and_start(
        &"alice".to_string(),
        &"pw".to_string(),
        &"Hyprland".to_string(),
        &replies,
    );
    assert!(matches!(run.outcome, Err(LoginError::IoError { .. })));
    assert_eq!(run.sent.len(), 1);
    assert!(run.cancel_requested);
}

#[test]
fn connection_lost_after_password_is_an_io_error() {
    let replies = vec![secret_prompt()];
    let run = authenticate_and_start(
        &"alice".to_string(),
        &"pw".to_string(),
        &"Hyprland".to_string(),
        &replies,
    );
    assert!(matches!(run.outcome, Err(LoginError::IoError { .. })));
    assert_eq!(run.sent.len(), 2);
    assert!(run.cancel_requested);
}

#[test]
fn no_failure_description_ever_contains_the_password() {
    let password = "sup3r-s3cret".to_string();
    let scripts: Vec<Vec<Response>> = vec![
        vec![],
        vec![Response::Success],
        vec![Response::AuthMessage {
            kind: AuthMessageKind::Informational,
            message: "hello".to_string(),
        }],
        vec![
            secret_prompt(),
            Response::Error {
                kind: ErrorKind::AuthError,
                description: "invalid credentials".to_string(),
            },
        ],
        vec![secret_prompt(), secret_prompt()],
        vec![secret_prompt()],
    ];
    for replies in scripts {
        let run = authenticate_and_start(
            &"alice".to_string(),
            &password,
            &"Hyprland".to_string(),
            &replies,
        );
        if let Err(e) = &run.outcome {
            assert!(!e.description().contains("sup3r-s3cret"));
        }
    }
}

#[test]
fn build_argv_splits_and_rejects_blank() {
    assert_eq!(
        build_argv("a bb  ccc").unwrap(),
        vec!["a".to_string(), "bb".to_string(), "ccc".to_string()]
    );
    assert!(matches!(
        build_argv(""),
        Err(LoginError::ConfigError { .. })
    ));
    assert!(matches!(
        build_argv("   "),
        Err(LoginError::ConfigError { .. })
    ));
}
