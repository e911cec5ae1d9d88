//! Configuration defaults, comment stripping, and the screen state.

use hypr_greeter::config::remove_json_comments;
use hypr_greeter::config::Config;
use hypr_greeter::ui::App;
use hypr_greeter::ui::Focus;

#[test]
fn comments_are_stripped_and_newlines_kept() {
    let input = "{\n  // a comment\n  \"a\": 1 // trailing\n}";
    assert_eq!(remove_json_comments(input), "{\n  \n  \"a\": 1 \n}");
}

#[test]
fn text_without_comments_is_unchanged() {
    let input = "{\"a\": [1, 2], \"b\": \"x/y\"}";
    assert_eq!(remove_json_comments(input), input);
}

#[test]
fn lone_slashes_are_kept() {
    assert_eq!(remove_json_comments("a / b /"), "a / b /");
}

#[test]
fn double_slash_inside_a_string_also_truncates() {
    // The format has always truncated at the first `//` of a line,
    // wherever it stands — even inside a JSON string.
    assert_eq!(remove_json_comments("\"http://x\"\n1"), "\"http:\n1");
}

#[test]
fn comment_at_end_without_newline_is_dropped() {
    assert_eq!(remove_json_comments("1 // the end"), "1 ");
}

#[test]
fn default_config_has_three_sessions_and_safe_security() {
    let c = Config::default();
    assert!(c.last_user.is_none());
    assert!(c.default_user.is_none());
    assert!(c.disable_autofill.is_none());
    assert_eq!(c.sessions.len(), 3);
    assert_eq!(c.sessions[0].name, "Hyprland");
    assert_eq!(c.sessions[0].command, "Hyprland");
    assert_eq!(c.sessions[1].name, "Sway");
    assert_eq!(c.sessions[1].command, "sway");
    assert_eq!(c.sessions[2].name, "TTY");
    assert_eq!(c.sessions[2].command, "/bin/bash");
    assert!(c.ui.show_clock);
    assert!(c.ui.show_date);
    assert_eq!(c.ui.clock_format, "%H:%M");
    assert_eq!(c.ui.date_format, "%A, %d %B %Y");
    assert!(c.security.clear_password_on_error);
    assert!(c.security.mask_password);
    assert_eq!(c.security.input_timeout, 0);
}

#[test]
fn new_app_without_any_remembered_user_focuses_username() {
    let app = App::new(Config::default());
    assert_eq!(app.username, "");
    assert_eq!(app.password, "");
    assert_eq!(app.selected_session, 0);
    assert!(app.error_message.is_none());
    assert!(matches!(app.focus, Focus::Username));
}

#[test]
fn new_app_autofills_default_user_and_focuses_password() {
    let mut config = Config::default();
    config.default_user = Some("alice".to_string());
    config.last_user = Some("bob".to_string());
    let app = App::new(config);
    assert_eq!(app.username, "alice");
    assert!(matches!(app.focus, Focus::Password));
}

#[test]
fn new_app_falls_back_to_last_user() {
    let mut config = Config::default();
    config.last_user = Some("bob".to_string());
    let app = App::new(config);
    assert_eq!(app.username, "bob");
    assert!(matches!(app.focus, Focus::Password));
}

#[test]
fn new_app_ignores_empty_default_user() {
    let mut config = Config::default();
    config.default_user = Some("".to_string());
    config.last_user = Some("bob".to_string());
    let app = App::new(config);
    assert_eq!(app.username, "bob");
}

#[test]
fn new_app_with_autofill_disabled_starts_empty() {
    let mut config = Config::default();
    config.default_user = Some("alice".to_string());
    config.last_user = Some("bob".to_string());
    config.disable_autofill = Some(true);
    let app = App::new(config);
    assert_eq!(app.username, "");
    assert!(matches!(app.focus, Focus::Username));
}

#[test]
fn focus_cycles_forward_and_backward() {
    let mut app = App::new(Config::default());
    assert!(matches!(app.focus, Focus::Username));
    app.next_focus();
    assert!(matches!(app.focus, Focus::Password));
    app.next_focus();
    assert!(matches!(app.focus, Focus::Session));
    app.next_focus();
    assert!(matches!(app.focus, Focus::Username));
    app.prev_focus();
    assert!(matches!(app.focus, Focus::Session));
    app.prev_focus();
    assert!(matches!(app.focus, Focus::Password));
    app.prev_focus();
    assert!(matches!(app.focus, Focus::Username));
}

#[test]
fn session_selection_stays_in_bounds() {
    let mut app = App::new(Config::default());
    assert_eq!(app.selected_session, 0);
    app.prev_session();
    assert_eq!(app.selected_session, 0);
    app.next_session();
    assert_eq!(app.selected_session, 1);
    app.next_session();
    assert_eq!(app.selected_session, 2);
    app.next_session();
    assert_eq!(app.selected_session, 2);
    app.prev_session();
    assert_eq!(app.selected_session, 1);
}

#[test]
fn current_session_command_follows_the_selection() {
    let mut app = App::new(Config::default());
    assert_eq!(app.current_session_command(), "Hyprland");
    app.next_session();
    assert_eq!(app.current_session_command(), "sway");
    app.next_session();
    assert_eq!(app.current_session_command(), "/bin/bash");
}

#[test]
fn set_error_clears_password_when_configured() {
    let mut app = App::new(Config::default());
    app.password = "secret".to_string();
    app.set_error("Login failed".to_string());
    assert_eq!(app.error_message.as_deref(), Some("Login failed"));
    assert_eq!(app.password, "");
}

#[test]
fn set_error_keeps_password_when_not_configured() {
    let mut config = Config::default();
    config.security.clear_password_on_error = false;
    let mut app = App::new(config);
    app.password = "secret".to_string();
    app.set_error("Login failed".to_string());
    assert_eq!(app.error_message.as_deref(), Some("Login failed"));
    assert_eq!(app.password, "secret");
}

#[test]
fn clear_error_drops_the_message_and_nothing_else() {
    let mut app = App::new(Config::default());
    app.username = "alice".to_string();
    app.set_error("nope".to_string());
    app.clear_error();
    assert!(app.error_message.is_none());
    assert_eq!(app.username, "alice");
}
