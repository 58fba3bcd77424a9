//! `/etc/writeonce/login.toml` schema.
//!
//! Tolerant of missing file (defaults), missing keys (per-field defaults),
//! and unknown extra keys (ignored).
use vstd::prelude::*;
use crate::greeter::config::effective_hostname_spec;

verus! {

/// The console login's settings.
#[derive(Debug, Clone)]
pub struct Config {
    /// Host name to display in the banner; empty means "read /etc/hostname".
    pub hostname: String,
    /// Welcome line, printed below the hostname.
    pub welcome: String,
    /// Name passed to `pam_start()`. Must match a stanza in
    /// `/etc/pam.d/<name>`.
    pub pam_service: String,
    /// Path of the script `execve`d after a successful login.
    pub session_script: String,
}

/// The mathematical value of a [`Config`].
pub struct ConfigModel {
    pub hostname: Seq<char>,
    pub welcome: Seq<char>,
    pub pam_service: Seq<char>,
    pub session_script: Seq<char>,
}

impl View for Config {
    type V = ConfigModel;

    open spec fn view(&self) -> ConfigModel {
        ConfigModel {
            hostname: self.hostname@,
            welcome: self.welcome@,
            pam_service: self.pam_service@,
            session_script: self.session_script@,
        }
    }
}

/// The settings of an empty file.
pub open spec fn default_config() -> ConfigModel {
    ConfigModel {
        hostname: seq![],
        welcome: "WriteOnce OS"@,
        pam_service: "writeonce"@,
        session_script: "/etc/writeonce/session-start.sh"@,
    }
}

impl Default for Config {
    fn default() -> (c: Self)
        ensures
            c@ == default_config(),
    {
        Config {
            hostname: String::new(),
            welcome: String::from_str("WriteOnce OS"),
            pam_service: String::from_str("writeonce"),
            session_script: String::from_str("/etc/writeonce/session-start.sh"),
        }
    }
}

impl Config {
    /// The configuration that was read (`loaded`, `None` when the file was
    /// missing or did not parse), or the defaults.
    pub fn load_or_default(loaded: Option<Config>) -> (c: Config)
        ensures
            match loaded {
                Some(l) => c@ == l@,
                None => c@ == default_config(),
            },
    {
        match loaded {
            Some(c) => c,
            None => Config::default(),
        }
    }

    /// The host name for the banner: the configured one, else the trimmed
    /// `/etc/hostname` text when it could be read, else `localhost`.
    pub fn effective_hostname(&self, etc_hostname: Option<&str>) -> (h: String)
        ensures
            h@ == effective_hostname_spec(
                self.hostname@,
                match etc_hostname {
                    Some(t) => Some(t@),
                    None => None,
                },
            ),
    {
        if self.hostname.as_str().unicode_len() > 0 {
            return self.hostname.clone();
        }
        match etc_hostname {
            Some(t) => crate::text::trim_str(t),
            None => String::from_str("localhost"),
        }
    }
}

} // verus!
