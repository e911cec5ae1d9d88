//! Screen state of the greeter: the input fields, the focus, the
//! selected session, and the displayed error.
//!
//! Rendering lives outside the library; these values and transitions
//! are what it draws. The password field is held only here and in the
//! one protocol answer; an error never writes into it, and clearing on
//! error is honored exactly when the configuration asks for it.

use crate::config::Config;
use vstd::prelude::*;

verus! {

/// Which input field the keyboard drives.
#[derive(Debug, Clone, Copy, PartialEq, Eq, Structural)]
pub enum Focus {
    Username,
    Password,
    Session,
}

/// The field after `f` in the tab order.
pub open spec fn focus_after(f: Focus) -> Focus {
    match f {
        Focus::Username => Focus::Password,
        Focus::Password => Focus::Session,
        Focus::Session => Focus::Username,
    }
}

/// The field before `f` in the tab order.
pub open spec fn focus_before(f: Focus) -> Focus {
    match f {
        Focus::Username => Focus::Session,
        Focus::Password => Focus::Username,
        Focus::Session => Focus::Password,
    }
}

/// The username shown at startup: nothing when autofill is disabled,
/// else the configured default user if one is set and non-empty, else
/// the remembered last user if non-empty, else nothing.
pub open spec fn autofill_username(config: Config) -> Seq<char> {
    if config.disable_autofill == Some(true) {
        Seq::empty()
    } else {
        match config.default_user {
            Some(u) => if u@.len() > 0 {
                u@
            } else {
                last_user_fallback(config)
            },
            None => last_user_fallback(config),
        }
    }
}

/// The remembered last user, where it is set and non-empty.
pub open spec fn last_user_fallback(config: Config) -> Seq<char> {
    match config.last_user {
        Some(l) => if l@.len() > 0 {
            l@
        } else {
            Seq::empty()
        },
        None => Seq::empty(),
    }
}

/// Everything the screen shows and the keyboard edits.
#[derive(Debug, Clone)]
pub struct App {
    /// The username field.
    pub username: String,
    /// The password field.
    pub password: String,
    /// Index of the selected session in `config.sessions`.
    pub selected_session: usize,
    /// The focused field.
    pub focus: Focus,
    /// The displayed error, if any.
    pub error_message: Option<String>,
    /// The configuration the screen was built from.
    pub config: Config,
}

impl App {
    /// Fresh screen state: the username autofilled as the
    /// configuration directs, focus on the password exactly when a
    /// username was filled in, everything else empty and the first
    /// session selected.
    pub fn new(config: Config) -> (r: App)
        ensures
            r.username@ == autofill_username(config),
            r.focus == (if autofill_username(config).len() > 0 {
                Focus::Password
            } else {
                Focus::Username
            }),
            r.password@.len() == 0,
            r.selected_session == 0,
            r.error_message is None,
            r.config == config,
    {
        let username: String = if matches!(config.disable_autofill, Some(true)) {
            String::new()
        } else {
            let default_nonempty: Option<String> = match &config.default_user {
                Some(u) => if u.as_str().is_empty() {
                    None
                } else {
                    Some(u.clone())
                },
                None => None,
            };
            match default_nonempty {
                Some(u) => u,
                None => match &config.last_user {
                    Some(l) => if l.as_str().is_empty() {
                        String::new()
                    } else {
                        l.clone()
                    },
                    None => String::new(),
                },
            }
        };
        let focus = if username.as_str().is_empty() {
            Focus::Username
        } else {
            Focus::Password
        };
        App {
            username,
            password: String::new(),
            selected_session: 0,
            focus,
            error_message: None,
            config,
        }
    }

    /// Move focus to the next field in the tab order. Nothing else
    /// changes.
    pub fn next_focus(&mut self)
        ensures
            final(self).focus == focus_after(old(self).focus),
            final(self).username == old(self).username,
            final(self).password == old(self).password,
            final(self).selected_session == old(self).selected_session,
            final(self).error_message == old(self).error_message,
            final(self).config == old(self).config,
    {
        self.focus = match self.focus {
            Focus::Username => Focus::Password,
            Focus::Password => Focus::Session,
            Focus::Session => Focus::Username,
        };
    }

    /// Move focus to the previous field in the tab order. Nothing
    /// else changes.
    pub fn prev_focus(&mut self)
        ensures
            final(self).focus == focus_before(old(self).focus),
            final(self).username == old(self).username,
            final(self).password == old(self).password,
            final(self).selected_session == old(self).selected_session,
            final(self).error_message == old(self).error_message,
            final(self).config == old(self).config,
    {
        self.focus = match self.focus {
            Focus::Username => Focus::Session,
            Focus::Password => Focus::Username,
            Focus::Session => Focus::Password,
        };
    }

    /// Select the next session, staying on the last one at the end of
    /// the list. Nothing else changes.
    pub fn next_session(&mut self)
        ensures
            final(self).selected_session == (if old(self).config.sessions@.len() >= 1 && old(
                self,
            ).selected_session < old(self).config.sessions@.len() - 1 {
                old(self).selected_session + 1
            } else {
                old(self).selected_session as int
            }),
            final(self).username == old(self).username,
            final(self).password == old(self).password,
            final(self).focus == old(self).focus,
            final(self).error_message == old(self).error_message,
            final(self).config == old(self).config,
    {
        let count = self.config.sessions.len();
        if count >= 1 && self.selected_session < count - 1 {
            self.selected_session = self.selected_session + 1;
        }
    }

    /// Select the previous session, staying on the first one at the
    /// start of the list. Nothing else changes.
    pub fn prev_session(&mut self)
        ensures
            final(self).selected_session == (if old(self).selected_session > 0 {
                old(self).selected_session - 1
            } else {
                0int
            }),
            final(self).username == old(self).username,
            final(self).password == old(self).password,
            final(self).focus == old(self).focus,
            final(self).error_message == old(self).error_message,
            final(self).config == old(self).config,
    {
        if self.selected_session > 0 {
            self.selected_session = self.selected_session - 1;
        }
    }

    /// The command of the selected session.
    pub fn current_session_command(&self) -> (r: &str)
        requires
            self.selected_session < self.config.sessions@.len(),
        ensures
            r@ == self.config.sessions@[self.selected_session as int].command@,
    {
        self.config.sessions[self.selected_session].command.as_str()
    }

    /// Drop the displayed error. Nothing else changes.
    pub fn clear_error(&mut self)
        ensures
            final(self).error_message is None,
            final(self).username == old(self).username,
            final(self).password == old(self).password,
            final(self).selected_session == old(self).selected_session,
            final(self).focus == old(self).focus,
            final(self).config == old(self).config,
    {
        self.error_message = None;
    }

    /// Display an error. The password field is cleared exactly when
    /// the configuration asks for that; nothing else changes.
    pub fn set_error(&mut self, message: String)
        ensures
            final(self).error_message == Some(message),
            final(self).password@ == (if old(self).config.security.clear_password_on_error {
                Seq::<char>::empty()
            } else {
                old(self).password@
            }),
            final(self).username == old(self).username,
            final(self).selected_session == old(self).selected_session,
            final(self).focus == old(self).focus,
            final(self).config == old(self).config,
    {
        self.error_message = Some(message);
        if self.config.security.clear_password_on_error {
            self.password = String::new();
        }
    }
}

} // verus!
