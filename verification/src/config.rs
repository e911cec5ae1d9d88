//! Configuration values the greeter works on.
//!
//! These are plain values: reading them from disk, and the JSON
//! deserialization of the file, happen outside the library. What is
//! verified here is the shape of the values, the built-in defaults,
//! and the stripping of line comments that the configuration file
//! format allows on top of JSON.

use vstd::prelude::*;
use vstd::string::StrSliceExecFns;
use vstd::string::StringExecFns;

verus! {

/// One selectable session: a display name and the command that starts
/// it.
#[derive(Debug, Clone)]
pub struct Session {
    /// Display name in the session selector.
    pub name: String,
    /// Command to execute, split on whitespace when handed to the
    /// daemon.
    pub command: String,
}

/// Colors of the screen, as hex strings interpreted by the renderer.
#[derive(Debug, Clone)]
pub struct ColorScheme {
    pub background: String,
    pub foreground: String,
    pub focused: String,
    pub error: String,
    pub success: String,
}

/// Display options. All of these only shape what is drawn.
#[derive(Debug, Clone)]
pub struct UiConfig {
    /// Show a clock.
    pub show_clock: bool,
    /// Clock format string, interpreted by the renderer.
    pub clock_format: String,
    /// Show the date under the clock.
    pub show_date: bool,
    /// Date format string, interpreted by the renderer.
    pub date_format: String,
    /// Color scheme.
    pub colors: ColorScheme,
    /// Input field width, as a percentage scale.
    pub field_width: Option<u32>,
    /// Input field height, as a percentage scale.
    pub field_height: Option<u32>,
    /// Rows between input fields.
    pub field_spacing: Option<u32>,
    /// Rows from the top of the screen to the clock.
    pub top_to_clock_spacing: Option<u32>,
    /// Rows from the clock to the input fields.
    pub clock_to_fields_spacing: Option<u32>,
    /// Title text over the fields.
    pub title: Option<String>,
}

/// Security-related options. These are display-side only: the login
/// core treats the password as sensitive whatever they say.
#[derive(Debug, Clone)]
pub struct SecurityConfig {
    /// Clear the password field after a failed attempt.
    pub clear_password_on_error: bool,
    /// Mask the password with asterisks.
    pub mask_password: bool,
    /// Seconds of inactivity before input is cleared; 0 disables.
    pub input_timeout: u32,
}

/// The whole configuration.
#[derive(Debug, Clone)]
pub struct Config {
    /// Last logged-in username, used as an autofill fallback.
    pub last_user: Option<String>,
    /// Username to autofill at startup; overrides `last_user`.
    pub default_user: Option<String>,
    /// If true, no username is autofilled at startup.
    pub disable_autofill: Option<bool>,
    /// The selectable sessions, in display order.
    pub sessions: Vec<Session>,
    /// Display options.
    pub ui: UiConfig,
    /// Security-related options.
    pub security: SecurityConfig,
}

impl Default for Config {
    /// The built-in configuration used when no file exists: three
    /// common sessions, clock and date shown, password masked and
    /// cleared on error.
    fn default() -> (c: Config)
        ensures
            c.last_user is None,
            c.default_user is None,
            c.disable_autofill is None,
            c.sessions@.len() == 3,
            c.sessions@[0].name@ == "Hyprland"@ && c.sessions@[0].command@ == "Hyprland"@,
            c.sessions@[1].name@ == "Sway"@ && c.sessions@[1].command@ == "sway"@,
            c.sessions@[2].name@ == "TTY"@ && c.sessions@[2].command@ == "/bin/bash"@,
            c.ui.show_clock && c.ui.show_date,
            c.ui.clock_format@ == "%H:%M"@,
            c.ui.date_format@ == "%A, %d %B %Y"@,
            c.security.clear_password_on_error,
            c.security.mask_password,
            c.security.input_timeout == 0,
    {
        let mut sessions: Vec<Session> = Vec::new();
        sessions.push(
            Session { name: String::from_str("Hyprland"), command: String::from_str("Hyprland") },
        );
        sessions.push(Session { name: String::from_str("Sway"), command: String::from_str("sway") });
        sessions.push(
            Session { name: String::from_str("TTY"), command: String::from_str("/bin/bash") },
        );
        Config {
            last_user: None,
            default_user: None,
            disable_autofill: None,
            sessions,
            ui: UiConfig {
                show_clock: true,
                clock_format: String::from_str("%H:%M"),
                show_date: true,
                date_format: String::from_str("%A, %d %B %Y"),
                colors: ColorScheme {
                    background: String::from_str("#1a1b26"),
                    foreground: String::from_str("#c0caf5"),
                    focused: String::from_str("#f7768e"),
                    error: String::from_str("#f7768e"),
                    success: String::from_str("#9ece6a"),
                },
                field_width: Some(100),
                field_height: Some(100),
                field_spacing: Some(1),
                top_to_clock_spacing: Some(100),
                clock_to_fields_spacing: Some(100),
                title: Some(String::from_str("Hyprland Greeter")),
            },
            security: SecurityConfig {
                clear_password_on_error: true,
                mask_password: true,
                input_timeout: 0,
            },
        }
    }
}

/// The suffix of `s` that begins at its first newline, or nothing if
/// no newline is left.
pub open spec fn from_eol(s: Seq<char>) -> Seq<char>
    decreases s.len(),
{
    if s.len() == 0 {
        Seq::empty()
    } else if s[0] == '\n' {
        s
    } else {
        from_eol(s.skip(1))
    }
}

/// What follows a position is never longer than the whole.
proof fn lemma_from_eol_le(s: Seq<char>)
    ensures
        from_eol(s).len() <= s.len(),
    decreases s.len(),
{
    if s.len() > 0 && s[0] != '\n' {
        lemma_from_eol_le(s.skip(1));
    }
}

/// `s` with every line truncated at its first `//`: the comment text
/// is dropped, the newline that ends it is kept.
pub open spec fn strip_comments(s: Seq<char>) -> Seq<char>
    decreases s.len() via strip_comments_decreases
{
    if s.len() == 0 {
        Seq::empty()
    } else if s.len() >= 2 && s[0] == '/' && s[1] == '/' {
        strip_comments(from_eol(s))
    } else {
        seq![s[0]] + strip_comments(s.skip(1))
    }
}

#[via_fn]
proof fn strip_comments_decreases(s: Seq<char>) {
    if s.len() >= 2 && s[0] == '/' && s[1] == '/' {
        lemma_from_eol_le(s.skip(1));
    }
}

/// Drop `//` line comments, so that what remains can be handed to a
/// JSON parser. A `//` is treated as starting a comment wherever it
/// stands on the line, as the configuration format has always done.
#[verifier::loop_isolation(false)]
pub fn remove_json_comments(json: &str) -> (r: String)
    ensures
        r@ == strip_comments(json@),
{
    let n = json.unicode_len();
    let mut out = String::new();
    let mut i: usize = 0;
    let mut in_comment = false;
    proof {
        assert(json@.skip(0) =~= json@);
        assert(out@ + strip_comments(json@) =~= strip_comments(json@));
    }
    while i < n
        invariant
            i <= n,
            i == n ==> !in_comment,
            !in_comment ==> strip_comments(json@) == out@ + strip_comments(json@.skip(i as int)),
            in_comment ==> strip_comments(json@) == out@ + strip_comments(
                from_eol(json@.skip(i as int)),
            ),
        decreases n - i, if in_comment { 1int } else { 0int },
    {
        let c = json.get_char(i);
        proof {
            assert(json@.skip(i as int)[0] == c);
        }
        if in_comment {
            if c == '\n' {
                in_comment = false;
            } else {
                proof {
                    assert(from_eol(json@.skip(i as int)) == from_eol(json@.skip(i as int + 1)))
                        by {
                        assert(json@.skip(i as int).skip(1) =~= json@.skip(i as int + 1));
                    }
                }
                i = i + 1;
                if i == n {
                    proof {
                        assert(json@.skip(i as int).len() == 0);
                        assert(from_eol(json@.skip(i as int)) =~= Seq::<char>::empty());
                    }
                    in_comment = false;
                }
            }
        } else if c == '/' && i + 1 < n && json.get_char(i + 1) == '/' {
            proof {
                let s = json@.skip(i as int);
                assert(s[1] == json@[i as int + 1]);
                assert(strip_comments(s) == strip_comments(from_eol(s)));
                assert(s.skip(1) =~= json@.skip(i as int + 1));
                assert(from_eol(s) == from_eol(json@.skip(i as int + 1)));
                assert(json@.skip(i as int + 1)[0] == json@[i as int + 1]);
                assert(json@.skip(i as int + 1).skip(1) =~= json@.skip(i as int + 2));
                assert(from_eol(json@.skip(i as int + 1)) == from_eol(json@.skip(i as int + 2)));
            }
            in_comment = true;
            i = i + 2;
            if i == n {
                proof {
                    assert(json@.skip(i as int).len() == 0);
                    assert(from_eol(json@.skip(i as int)) =~= Seq::<char>::empty());
                }
                in_comment = false;
            }
        } else {
            let piece = json.substring_char(i, i + 1);
            out.append(piece);
            proof {
                let s = json@.skip(i as int);
                assert(piece@ =~= seq![c]);
                assert(s.skip(1) =~= json@.skip(i as int + 1));
                assert(strip_comments(s) == seq![c] + strip_comments(json@.skip(i as int + 1)));
            }
            i = i + 1;
        }
    }
    proof {
        assert(json@.skip(n as int).len() == 0);
        assert(strip_comments(json@.skip(n as int)) =~= Seq::<char>::empty());
        assert(out@ + Seq::<char>::empty() =~= out@);
    }
    out
}

} // verus!
