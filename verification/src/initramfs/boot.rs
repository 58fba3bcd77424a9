//! The `/init` binary's decisions: whether to run, whether to drop to the
//! recovery shell, how long to keep looking for the root device, and what
//! the switch to the real root does.
use vstd::prelude::*;
use crate::initramfs::cmdline::{CmdLine, CmdLineModel, RootSpec, RootSpecModel};
use crate::initramfs::discover::DiscoverError;
use crate::login::flow::arg_views;
use crate::text::{chars_of, ends_with, extend_str, string_from};

verus! {

/// The refusal to run as anything but PID 1, unless faking is asked for.
pub fn startup_error(fake: bool, pid: u32) -> (r: Option<String>)
    ensures
        r is Some <==> (!fake && pid != 1),
        r matches Some(m) ==> m@ == "not running as PID 1 (set WO_INITRAMFS_FAKE=1 to override)"@,
{
    if !fake && pid != 1 {
        Some(String::from_str("not running as PID 1 (set WO_INITRAMFS_FAKE=1 to override)"))
    } else {
        None
    }
}

/// What `/init` does after reading the command line.
#[derive(Debug, Clone)]
pub enum BootStep {
    /// `wo.recovery`: drop to the recovery shell.
    Recovery,
    /// No `root=`: refuse, with this message, and drop to the shell.
    NoRoot(String),
    /// Find `root`, waiting up to `rootwait_secs`, mount it as `fstype`
    /// with `flags`, and start `init`.
    Boot { root: RootSpec, rootwait_secs: u64, fstype: String, flags: u64, init: String },
}

/// The step for a parsed command line: recovery when asked for; else the
/// root is required; the filesystem type defaults to ext4.
pub fn boot_step(cmd: &CmdLine) -> (s: BootStep)
    ensures
        cmd.recovery ==> s is Recovery,
        !cmd.recovery && cmd.root_spec is None ==> (s matches BootStep::NoRoot(m) && m@
            == "no root= on /proc/cmdline"@),
        !cmd.recovery && cmd.root_spec is Some ==> (s matches BootStep::Boot {
            root,
            rootwait_secs,
            fstype,
            flags,
            init,
        } && Some(root@) == cmd@.root_spec && rootwait_secs == cmd.rootwait_secs && fstype@ == (
        match cmd.rootfstype {
            Some(t) => t@,
            None => "ext4"@,
        }) && flags == cmd.mount_flags && init@ == cmd.init_path@),
{
    if cmd.recovery {
        return BootStep::Recovery;
    }
    match &cmd.root_spec {
        None => BootStep::NoRoot(String::from_str("no root= on /proc/cmdline")),
        Some(r) => BootStep::Boot {
            root: r.clone_spec(),
            rootwait_secs: cmd.rootwait_secs,
            fstype: match &cmd.rootfstype {
                Some(t) => t.clone(),
                None => String::from_str("ext4"),
            },
            flags: cmd.mount_flags,
            init: cmd.init_path.clone(),
        },
    }
}

impl RootSpec {
    /// A copy of the root spec.
    pub fn clone_spec(&self) -> (r: RootSpec)
        ensures
            r@ == self@,
    {
        match self {
            RootSpec::Uuid(s) => RootSpec::Uuid(s.clone()),
            RootSpec::PartUuid(s) => RootSpec::PartUuid(s.clone()),
            RootSpec::Label(s) => RootSpec::Label(s.clone()),
            RootSpec::Device(s) => RootSpec::Device(s.clone()),
        }
    }
}

/// What the wait for the root device does after one look.
#[derive(Debug)]
pub enum PollStep {
    /// The root device is there; `polls` looks failed before.
    Found { path: String, polls: u32 },
    /// Look again in 100 ms; `announce` on the first miss.
    Retry { announce: bool },
    /// Give up with this error.
    GiveUp(DiscoverError),
}

/// One step of the wait: a found device ends it; a device not found yet
/// is looked for again until the deadline; any other error ends it.
pub fn poll_step(look: Result<String, DiscoverError>, attempt: u32, before_deadline: bool) -> (r: (
    PollStep,
    u32,
))
    requires
        attempt < u32::MAX,
    ensures
        match look {
            Ok(p) => r.0 matches PollStep::Found { path, polls } && path@ == p@ && polls == attempt
                && r.1 == attempt,
            Err(DiscoverError::NotFound(_)) => if before_deadline {
                r.0 matches PollStep::Retry { announce } && announce == (attempt == 0) && r.1
                    == attempt + 1
            } else {
                r.0 is GiveUp && r.1 == attempt
            },
            Err(_) => r.0 is GiveUp && r.1 == attempt,
        },
{
    match look {
        Ok(p) => (PollStep::Found { path: p, polls: attempt }, attempt),
        Err(e) => {
            let retry = match &e {
                DiscoverError::NotFound(_) => before_deadline,
                _ => false,
            };
            if retry {
                (PollStep::Retry { announce: attempt == 0 }, attempt + 1)
            } else {
                (PollStep::GiveUp(e), attempt)
            }
        },
    }
}

/// The pseudo-filesystems moved into the new root: each with its place
/// under `/sysroot`.
pub fn move_mounts() -> (r: Vec<(String, String)>)
    ensures
        r@.map_values(|p: (String, String)| (p.0@, p.1@)) == seq![
            ("/proc"@, "/sysroot/proc"@),
            ("/sys"@, "/sysroot/sys"@),
            ("/dev"@, "/sysroot/dev"@),
        ],
{
    let r = vec![
        (String::from_str("/proc"), String::from_str("/sysroot/proc")),
        (String::from_str("/sys"), String::from_str("/sysroot/sys")),
        (String::from_str("/dev"), String::from_str("/sysroot/dev")),
    ];
    assert(r@.map_values(|p: (String, String)| (p.0@, p.1@)) =~= seq![
        ("/proc"@, "/sysroot/proc"@),
        ("/sys"@, "/sysroot/sys"@),
        ("/dev"@, "/sysroot/dev"@),
    ]);
    r
}

/// The environment PID 1 starts with after the switch.
pub fn init_env() -> (r: Vec<String>)
    ensures
        arg_views(r@) == seq!["PATH=/usr/bin:/usr/sbin:/bin:/sbin"@, "TERM=linux"@],
{
    let r = vec![String::from_str("PATH=/usr/bin:/usr/sbin:/bin:/sbin"), String::from_str("TERM=linux")];
    assert(arg_views(r@) =~= seq!["PATH=/usr/bin:/usr/sbin:/bin:/sbin"@, "TERM=linux"@]);
    r
}

/// What the shell's `cat` prints for a file's text: the text, and a
/// newline when it does not end with one.
pub fn cat_output(text: &str) -> (r: String)
    ensures
        r@ == (if ends_with(text@, "\n"@) { text@ } else { text@ + "\n"@ }),
{
    let v = chars_of(text);
    let nl = chars_of("\n");
    if crate::text::vec_ends_with(&v, &nl) {
        String::from_str(text)
    } else {
        let mut w = chars_of(text);
        extend_str(&mut w, "\n");
        string_from(&w)
    }
}

} // verus!
