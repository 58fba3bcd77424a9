//! PID 1's decisions: the essential mounts, the placeholder child's command
//! line, and what each signal does to the supervisor's state.
use vstd::prelude::*;
use crate::initramfs::mount::{MountModel, MountRequest};
use crate::login::flow::arg_views;
use crate::pid1::config::Config;
use crate::text::chars_of;

verus! {

/// `MS_NOSUID` from `<sys/mount.h>`, read from the `libc` crate; the
/// contract states its Linux value, as libc's source defines it.
#[verifier::external_body]
fn ms_nosuid() -> (r: u64)
    ensures
        r == 0x02,
{
    libc::MS_NOSUID as u64
}

/// `MS_NODEV` from `<sys/mount.h>`, read from the `libc` crate; the
/// contract states its Linux value, as libc's source defines it.
#[verifier::external_body]
fn ms_nodev() -> (r: u64)
    ensures
        r == 0x04,
{
    libc::MS_NODEV as u64
}

/// `MS_NOEXEC` from `<sys/mount.h>`, read from the `libc` crate; the
/// contract states its Linux value, as libc's source defines it.
#[verifier::external_body]
fn ms_noexec() -> (r: u64)
    ensures
        r == 0x08,
{
    libc::MS_NOEXEC as u64
}

/// Mount flag: ignore set-user-ID bits.
pub open spec fn MS_NOSUID() -> u64 { 0x02 }

/// Mount flag: no device nodes.
pub open spec fn MS_NODEV() -> u64 { 0x04 }

/// Mount flag: no program execution.
pub open spec fn MS_NOEXEC() -> u64 { 0x08 }

/// The pseudo-filesystems PID 1 mounts, in order: `/proc`, `/sys`, a
/// devtmpfs `/dev`, `/dev/pts`, a tmpfs `/run` and the cgroup2 hierarchy.
pub open spec fn pid1_mounts_spec() -> Seq<MountModel> {
    seq![
        MountModel {
            source: "proc"@,
            target: "/proc"@,
            fstype: "proc"@,
            flags: 0x0e,
            data: None,
        },
        MountModel {
            source: "sysfs"@,
            target: "/sys"@,
            fstype: "sysfs"@,
            flags: 0x0e,
            data: None,
        },
        MountModel {
            source: "devtmpfs"@,
            target: "/dev"@,
            fstype: "devtmpfs"@,
            flags: 0x02,
            data: Some("mode=755"@),
        },
        MountModel {
            source: "devpts"@,
            target: "/dev/pts"@,
            fstype: "devpts"@,
            flags: 0x0a,
            data: Some("gid=5,mode=620"@),
        },
        MountModel {
            source: "tmpfs"@,
            target: "/run"@,
            fstype: "tmpfs"@,
            flags: 0x06,
            data: Some("mode=755"@),
        },
        MountModel {
            source: "cgroup2"@,
            target: "/sys/fs/cgroup"@,
            fstype: "cgroup2"@,
            flags: 0x0e,
            data: None,
        },
    ]
}

fn mount_request(source: &str, target: &str, fstype: &str, flags: u64, data: Option<&str>) -> (r:
    MountRequest)
    ensures
        r@ == (MountModel {
            source: source@,
            target: target@,
            fstype: fstype@,
            flags,
            data: match data {
                Some(d) => Some(d@),
                None => None,
            },
        }),
{
    MountRequest {
        source: String::from_str(source),
        target: String::from_str(target),
        fstype: String::from_str(fstype),
        flags,
        data: match data {
            Some(d) => Some(String::from_str(d)),
            None => None,
        },
    }
}

/// The essential mounts, each with its flags from libc's constants. A
/// target that is already mounted counts as done, so the list can be
/// mounted again after a restart.
pub fn essential_mounts() -> (r: Vec<MountRequest>)
    ensures
        r@.map_values(|m: MountRequest| m@) == pid1_mounts_spec(),
{
    let nosuid = ms_nosuid();
    let nodev = ms_nodev();
    let noexec = ms_noexec();
    let all = nosuid | noexec | nodev;
    assert(all == 0x0e) by (bit_vector)
        requires
            nosuid == 0x02,
            nodev == 0x04,
            noexec == 0x08,
            all == nosuid | noexec | nodev,
    ;
    let pts = nosuid | noexec;
    assert(pts == 0x0a) by (bit_vector)
        requires
            nosuid == 0x02,
            noexec == 0x08,
            pts == nosuid | noexec,
    ;
    let run = nosuid | nodev;
    assert(run == 0x06) by (bit_vector)
        requires
            nosuid == 0x02,
            nodev == 0x04,
            run == nosuid | nodev,
    ;
    let r = vec![
        mount_request("proc", "/proc", "proc", all, None),
        mount_request("sysfs", "/sys", "sysfs", all, None),
        mount_request("devtmpfs", "/dev", "devtmpfs", nosuid, Some("mode=755")),
        mount_request("devpts", "/dev/pts", "devpts", pts, Some("gid=5,mode=620")),
        mount_request("tmpfs", "/run", "tmpfs", run, Some("mode=755")),
        mount_request("cgroup2", "/sys/fs/cgroup", "cgroup2", all, None),
    ];
    assert(r@.map_values(|m: MountRequest| m@) =~= pid1_mounts_spec());
    r
}

/// The refusal to run as anything but PID 1, unless faking is asked for.
pub fn startup_error(fake: bool, pid: u32) -> (r: Option<String>)
    ensures
        r is Some <==> (!fake && pid != 1),
        r matches Some(m) ==> m@ == "not running as PID 1 (set WO_PID1_FAKE=1 to override)"@,
{
    if !fake && pid != 1 {
        Some(String::from_str("not running as PID 1 (set WO_PID1_FAKE=1 to override)"))
    } else {
        None
    }
}

/// What the placeholder child runs: on the configured terminal, the
/// configured program with its arguments, in a minimal environment.
#[derive(Debug, Clone)]
pub struct ChildExec {
    pub tty: String,
    pub program: String,
    pub argv: Vec<String>,
    pub env: Vec<String>,
}

/// The placeholder shell's environment.
pub open spec fn child_env_spec() -> Seq<Seq<char>> {
    seq!["PATH=/usr/bin:/usr/sbin:/bin:/sbin"@, "HOME=/root"@, "TERM=linux"@]
}

/// A NUL character, which no C string carries.
pub open spec fn holds_nul(s: Seq<char>) -> bool {
    exists|j: int| 0 <= j < s.len() && s[j] == '\0'
}

fn has_nul_char(s: &str) -> (b: bool)
    ensures
        b == holds_nul(s@),
{
    let v = chars_of(s);
    let mut j: usize = 0;
    while j < v.len()
        invariant
            j <= v.len(),
            v@ == s@,
            forall|k: int| 0 <= k < j ==> v@[k] != '\0',
        decreases v.len() - j,
    {
        if v[j] == '\0' {
            return true;
        }
        j = j + 1;
    }
    false
}

/// The child's command line for the configuration; `None` when the
/// terminal, the program or an argument holds a NUL character (the child
/// then gives up before `execve`).
pub fn child_exec(cfg: &Config) -> (r: Option<ChildExec>)
    ensures
        match r {
            Some(c) => {
                &&& c.tty@ == cfg.tty@
                &&& c.program@ == cfg.child@
                &&& arg_views(c.argv@) == arg_views(cfg.child_args@)
                &&& arg_views(c.env@) == child_env_spec()
                &&& !holds_nul(cfg.tty@) && !holds_nul(cfg.child@)
                &&& forall|i: int| 0 <= i < cfg.child_args@.len() ==> !holds_nul(#[trigger] cfg.child_args@[i]@)
            },
            None => holds_nul(cfg.tty@) || holds_nul(cfg.child@) || exists|i: int|
                0 <= i < cfg.child_args@.len() && holds_nul(#[trigger] cfg.child_args@[i]@),
        },
{
    if has_nul_char(cfg.tty.as_str()) || has_nul_char(cfg.child.as_str()) {
        return None;
    }
    let mut argv: Vec<String> = Vec::new();
    let mut i: usize = 0;
    while i < cfg.child_args.len()
        invariant
            i <= cfg.child_args.len(),
            arg_views(argv@) == arg_views(cfg.child_args@).take(i as int),
            forall|k: int| 0 <= k < i ==> !holds_nul(#[trigger] cfg.child_args@[k]@),
        decreases cfg.child_args.len() - i,
    {
        if has_nul_char(cfg.child_args[i].as_str()) {
            return None;
        }
        let ghost before = arg_views(argv@);
        argv.push(cfg.child_args[i].clone());
        assert(arg_views(argv@) =~= before.push(cfg.child_args@[i as int]@));
        assert(arg_views(cfg.child_args@).take(i + 1) =~= arg_views(cfg.child_args@).take(
            i as int,
        ).push(cfg.child_args@[i as int]@));
        i = i + 1;
    }
    assert(arg_views(cfg.child_args@).take(cfg.child_args.len() as int) =~= arg_views(
        cfg.child_args@,
    ));
    let env = vec![
        String::from_str("PATH=/usr/bin:/usr/sbin:/bin:/sbin"),
        String::from_str("HOME=/root"),
        String::from_str("TERM=linux"),
    ];
    assert(arg_views(env@) =~= child_env_spec());
    Some(ChildExec { tty: cfg.tty.clone(), program: cfg.child.clone(), argv, env })
}

/// The signals PID 1 acts on.
#[derive(Debug, Clone, Copy, PartialEq, Eq)]
pub enum SignalKind {
    /// `SIGCHLD`: some child changed state.
    Child,
    /// `SIGHUP`: a reload request (not implemented).
    Hangup,
    /// `SIGTERM` or `SIGINT`: shut down.
    Shutdown,
    /// Anything else, by number.
    Other(i32),
}

/// What PID 1 does about one signal.
#[derive(Debug, Clone, Copy, PartialEq, Eq)]
pub enum SignalAction {
    /// Reap every exited child.
    Reap,
    /// Note the reload request.
    NoteHangup,
    /// Begin the shutdown; send `SIGTERM` to the child when there is one.
    BeginShutdown { terminate: Option<i32> },
    /// The shutdown is already under way.
    Nothing,
    /// Note an unexpected signal.
    NoteUnhandled(i32),
}

/// The supervisor's state: the placeholder child (0 once reaped) and the
/// instant, in nanoseconds of the monotonic clock, at which the shutdown
/// began.
#[derive(Debug, Clone, Copy, PartialEq, Eq)]
pub struct Supervisor {
    pub child_pid: i32,
    pub shutdown_started: Option<u64>,
}

/// How long the next wait for signals may last.
#[derive(Debug, Clone, Copy, PartialEq, Eq)]
pub enum Wait {
    /// No shutdown under way: wait for the next signal.
    Forever,
    /// Wait at most this many milliseconds.
    Millis(i32),
    /// The grace time is over: kill, sync and reboot.
    Finish,
}

/// The state and action after a signal.
pub open spec fn on_signal_spec(s: Supervisor, k: SignalKind, now: u64) -> (Supervisor, SignalAction) {
    match k {
        SignalKind::Child => (s, SignalAction::Reap),
        SignalKind::Hangup => (s, SignalAction::NoteHangup),
        SignalKind::Shutdown => if s.shutdown_started is None {
            (
                Supervisor { shutdown_started: Some(now), ..s },
                SignalAction::BeginShutdown {
                    terminate: if s.child_pid > 0 { Some(s.child_pid) } else { None },
                },
            )
        } else {
            (s, SignalAction::Nothing)
        },
        SignalKind::Other(n) => (s, SignalAction::NoteUnhandled(n)),
    }
}

/// The wait before the next signal: forever outside a shutdown; during
/// one, the rest of the grace time in whole milliseconds (cut to `i32`,
/// at least 1), or the end once `grace_secs` have passed.
pub open spec fn wait_spec(started: Option<u64>, now: u64, grace_secs: u64) -> Wait {
    match started {
        None => Wait::Forever,
        Some(t) => {
            let elapsed = now - t;
            let grace = grace_secs * 1_000_000_000;
            if elapsed >= grace {
                Wait::Finish
            } else {
                let ms = ((grace - elapsed) / 1_000_000) as i32;
                Wait::Millis(if ms < 1 { 1 } else { ms })
            }
        },
    }
}

impl Supervisor {
    /// The state after spawning the child, before any signal.
    pub fn new(child_pid: i32) -> (s: Supervisor)
        ensures
            s.child_pid == child_pid,
            s.shutdown_started is None,
    {
        Supervisor { child_pid, shutdown_started: None }
    }

    /// Handles one signal at monotonic time `now`, as [`on_signal_spec`]
    /// says: a shutdown begins only once.
    pub fn on_signal(&mut self, k: SignalKind, now: u64) -> (a: SignalAction)
        ensures
            (*final(self), a) == on_signal_spec(*old(self), k, now),
    {
        match k {
            SignalKind::Child => SignalAction::Reap,
            SignalKind::Hangup => SignalAction::NoteHangup,
            SignalKind::Shutdown => {
                if self.shutdown_started.is_none() {
                    self.shutdown_started = Some(now);
                    SignalAction::BeginShutdown {
                        terminate: if self.child_pid > 0 {
                            Some(self.child_pid)
                        } else {
                            None
                        },
                    }
                } else {
                    SignalAction::Nothing
                }
            },
            SignalKind::Other(n) => SignalAction::NoteUnhandled(n),
        }
    }

    /// Notes a reaped child: when it is the placeholder, it is gone.
    pub fn on_reaped(&mut self, pid: i32)
        ensures
            final(self).child_pid == (if pid == old(self).child_pid { 0 } else { old(self).child_pid }),
            final(self).shutdown_started == old(self).shutdown_started,
    {
        if pid == self.child_pid {
            self.child_pid = 0;
        }
    }

    /// The next wait at monotonic time `now` (not before the shutdown
    /// began), as [`wait_spec`] says.
    pub fn next_wait(&self, now: u64, grace_secs: u64) -> (w: Wait)
        requires
            self.shutdown_started matches Some(t) ==> t <= now,
        ensures
            w == wait_spec(self.shutdown_started, now, grace_secs),
    {
        match self.shutdown_started {
            None => Wait::Forever,
            Some(t) => {
                let elapsed: u128 = (now - t) as u128;
                let grace: u128 = grace_secs as u128 * 1_000_000_000;
                if elapsed >= grace {
                    Wait::Finish
                } else {
                    let left: u128 = (grace - elapsed) / 1_000_000;
                    #[verifier::truncate]
                    let ms: i32 = left as i32;
                    Wait::Millis(if ms < 1 { 1 } else { ms })
                }
            },
        }
    }

    /// The child to kill with `SIGKILL` when the grace time is over, if
    /// one is still there.
    pub fn final_kill(&self) -> (r: Option<i32>)
        ensures
            r == (if self.child_pid > 0 { Some(self.child_pid) } else { None::<i32> }),
    {
        if self.child_pid > 0 {
            Some(self.child_pid)
        } else {
            None
        }
    }
}

/// A shutdown begins only once: a second `SIGTERM`/`SIGINT` changes
/// nothing and sends nothing.
pub proof fn lemma_shutdown_begins_once(s: Supervisor, t1: u64, t2: u64)
    ensures
        ({
            let (s1, _) = on_signal_spec(s, SignalKind::Shutdown, t1);
            on_signal_spec(s1, SignalKind::Shutdown, t2) == (s1, SignalAction::Nothing)
        }),
{
}

/// `SIGTERM` goes only to the placeholder child while it lives.
pub proof fn lemma_terminate_only_live_child(s: Supervisor, k: SignalKind, now: u64)
    ensures
        on_signal_spec(s, k, now).1 matches SignalAction::BeginShutdown { terminate: Some(p) } ==> p
            == s.child_pid && p > 0,
{
}

/// During a shutdown the wait is at least a millisecond, and the end
/// comes once the grace time has passed.
pub proof fn lemma_wait_bounds(t: u64, now: u64, grace_secs: u64)
    requires
        t <= now,
    ensures
        wait_spec(Some(t), now, grace_secs) matches Wait::Millis(ms) ==> ms >= 1,
        (now - t) >= grace_secs * 1_000_000_000 ==> wait_spec(Some(t), now, grace_secs) == Wait::Finish,
        (now - t) < grace_secs * 1_000_000_000 ==> wait_spec(Some(t), now, grace_secs) is Millis,
{
}

} // verus!
