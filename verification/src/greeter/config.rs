//! `/etc/writeonce/greeter.toml` schema.
//!
//! Tolerant of a missing file (defaults), missing keys (per-field defaults),
//! and unknown extra keys (ignored) — same discipline as writeonce-login.
use vstd::prelude::*;
use crate::text::{chars_of, extend_str, string_from, trim, trim_vec};

verus! {

/// The greeter's settings.
#[derive(Debug, Clone)]
pub struct Config {
    /// Host name shown in the banner; empty => read /etc/hostname.
    pub hostname: String,
    /// Welcome line.
    pub welcome: String,
    /// Name passed to `pam_start()`. MUST match a file in `/etc/pam.d/`:
    /// a mismatch makes PAM fall back to `other` (deny-by-default), so the
    /// default points at the file that ships.
    pub pam_service: String,
    /// Seed default session (by display Name) when nothing is remembered yet.
    pub default_session: String,
    /// Root-owned file storing the last-chosen session Name.
    pub state_path: String,
}

/// The mathematical value of a [`Config`].
pub struct ConfigModel {
    pub hostname: Seq<char>,
    pub welcome: Seq<char>,
    pub pam_service: Seq<char>,
    pub default_session: Seq<char>,
    pub state_path: Seq<char>,
}

impl View for Config {
    type V = ConfigModel;

    open spec fn view(&self) -> ConfigModel {
        ConfigModel {
            hostname: self.hostname@,
            welcome: self.welcome@,
            pam_service: self.pam_service@,
            default_session: self.default_session@,
            state_path: self.state_path@,
        }
    }
}

/// The settings of an empty file.
pub open spec fn default_config() -> ConfigModel {
    ConfigModel {
        hostname: seq![],
        welcome: "WriteOnce OS"@,
        pam_service: "writeonce-greeter"@,
        default_session: seq![],
        state_path: "/var/lib/writeonce-greeter/last"@,
    }
}

impl Default for Config {
    fn default() -> (c: Self)
        ensures
            c@ == default_config(),
    {
        Config {
            hostname: String::new(),
            welcome: String::from_str("WriteOnce OS"),
            pam_service: String::from_str("writeonce-greeter"),
            default_session: String::new(),
            state_path: String::from_str("/var/lib/writeonce-greeter/last"),
        }
    }
}

/// The host name the banner shows: the configured one, else the trimmed
/// `/etc/hostname` text when it could be read, else `localhost`.
pub open spec fn effective_hostname_spec(
    configured: Seq<char>,
    etc_hostname: Option<Seq<char>>,
) -> Seq<char> {
    if configured.len() > 0 {
        configured
    } else {
        match etc_hostname {
            Some(t) => trim(t),
            None => "localhost"@,
        }
    }
}

/// The remembered session name in the state file's text: trimmed, and none
/// when that is empty or the file could not be read.
pub open spec fn last_session_spec(contents: Option<Seq<char>>) -> Option<Seq<char>> {
    match contents {
        Some(t) => if trim(t).len() > 0 { Some(trim(t)) } else { None },
        None => None,
    }
}

impl Config {
    /// The configuration that was read (`loaded`, `None` when the file was
    /// missing or did not parse), or the defaults.
    pub fn load_or_default(loaded: Option<Config>) -> (c: Config)
        ensures
            match loaded {
                Some(l) => c@ == l@,
                None => c@ == default_config(),
            },
    {
        match loaded {
            Some(c) => c,
            None => Config::default(),
        }
    }

    /// The host name for the banner, given what `/etc/hostname` held.
    pub fn effective_hostname(&self, etc_hostname: Option<&str>) -> (h: String)
        ensures
            h@ == effective_hostname_spec(
                self.hostname@,
                match etc_hostname {
                    Some(t) => Some(t@),
                    None => None,
                },
            ),
    {
        if self.hostname.as_str().unicode_len() > 0 {
            return self.hostname.clone();
        }
        match etc_hostname {
            Some(t) => crate::text::trim_str(t),
            None => String::from_str("localhost"),
        }
    }

    /// Last session Name the user picked, from the state file's text (`None`
    /// if never saved or unreadable).
    pub fn read_last_session(&self, contents: Option<&str>) -> (r: Option<String>)
        ensures
            match r {
                Some(s) => last_session_spec(
                    match contents {
                        Some(t) => Some(t@),
                        None => None,
                    },
                ) == Some(s@),
                None => last_session_spec(
                    match contents {
                        Some(t) => Some(t@),
                        None => None,
                    },
                ) is None,
            },
    {
        match contents {
            Some(t) => {
                let s = crate::text::trim_str(t);
                if s.as_str().unicode_len() > 0 {
                    Some(s)
                } else {
                    None
                }
            },
            None => None,
        }
    }

    /// The text written to the state file for the chosen session Name.
    pub fn last_session_text(&self, name: &str) -> (t: String)
        ensures
            t@ == name@.push('\n'),
    {
        let mut v = chars_of(name);
        v.push('\n');
        string_from(&v)
    }
}

} // verus!
