//! `/etc/writeonce/pid1.toml` schema. Tolerant of missing file / missing keys.
use vstd::prelude::*;
use crate::clock::{duration_from_secs, duration_of_secs};

verus! {

/// Where PID 1 reads its configuration.
pub const DEFAULT_PATH: &'static str = "/etc/writeonce/pid1.toml";

/// PID 1's settings.
#[derive(Debug, Clone)]
pub struct Config {
    /// Path to the tty to attach the placeholder service to.
    pub tty: String,
    /// Binary the prototype execs on first boot.
    pub child: String,
    /// argv passed to `child`. First element is conventionally the basename.
    pub child_args: Vec<String>,
    /// SIGTERM-to-SIGKILL grace window for the placeholder.
    pub shutdown_grace_seconds: u64,
}

/// The mathematical value of a [`Config`].
pub struct ConfigModel {
    pub tty: Seq<char>,
    pub child: Seq<char>,
    pub child_args: Seq<Seq<char>>,
    pub shutdown_grace_seconds: u64,
}

impl View for Config {
    type V = ConfigModel;

    open spec fn view(&self) -> ConfigModel {
        ConfigModel {
            tty: self.tty@,
            child: self.child@,
            child_args: self.child_args@.map_values(|s: String| s@),
            shutdown_grace_seconds: self.shutdown_grace_seconds,
        }
    }
}

/// The settings of an empty file.
pub open spec fn default_config() -> ConfigModel {
    ConfigModel {
        tty: "/dev/tty1"@,
        child: "/bin/sh"@,
        child_args: seq!["sh"@],
        shutdown_grace_seconds: 10,
    }
}

impl Default for Config {
    fn default() -> (c: Self)
        ensures
            c@ == default_config(),
    {
        let c = Config {
            tty: String::from_str("/dev/tty1"),
            child: String::from_str("/bin/sh"),
            child_args: vec![String::from_str("sh")],
            shutdown_grace_seconds: 10,
        };
        assert(c@.child_args =~= seq!["sh"@]);
        c
    }
}

impl Config {
    /// The configuration read from [`DEFAULT_PATH`] (`loaded`, `None` when
    /// the file was missing or did not parse), or the defaults.
    pub fn load_or_default(loaded: Option<Config>) -> (c: Config)
        ensures
            match loaded {
                Some(l) => c@ == l@,
                None => c@ == default_config(),
            },
    {
        match loaded {
            Some(c) => c,
            None => Config::default(),
        }
    }

    /// The grace window as a `Duration` of `shutdown_grace_seconds` seconds.
    pub fn shutdown_grace(&self) -> (d: std::time::Duration)
        ensures
            d == duration_of_secs(self.shutdown_grace_seconds),
    {
        duration_from_secs(self.shutdown_grace_seconds)
    }
}

} // verus!
