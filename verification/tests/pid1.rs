use writeonce::pid1::config::Config;
use writeonce::pid1::supervise::{
    child_exec, essential_mounts, startup_error, SignalAction, SignalKind, Supervisor, Wait,
};

#[test]
fn pid1_defaults_without_a_config_file() {
    let c = Config::load_or_default(None);
    assert_eq!(c.shutdown_grace_seconds, 10);
    assert_eq!(c.tty, "/dev/tty1");
    assert_eq!(c.child, "/bin/sh");
    assert_eq!(c.child_args, vec!["sh".to_string()]);
    assert_eq!(c.shutdown_grace(), std::time::Duration::from_secs(10));
    let mine = Config {
        tty: "/dev/ttyS0".into(),
        child: "/sbin/writeonce-svc".into(),
        child_args: vec!["svc".into(), "--foreground".into()],
        shutdown_grace_seconds: 30,
    };
    let kept = Config::load_or_default(Some(mine));
    assert_eq!(kept.tty, "/dev/ttyS0");
    assert_eq!(kept.shutdown_grace(), std::time::Duration::from_secs(30));
}

#[test]
fn pid1_essential_mounts() {
    let m = essential_mounts();
    let targets: Vec<&str> = m.iter().map(|r| r.target.as_str()).collect();
    assert_eq!(targets, vec!["/proc", "/sys", "/dev", "/dev/pts", "/run", "/sys/fs/cgroup"]);
    let all = libc::MS_NOSUID | libc::MS_NODEV | libc::MS_NOEXEC;
    assert_eq!(m[0].flags, all as u64);
    assert_eq!(m[2].flags, libc::MS_NOSUID as u64);
    assert_eq!(m[2].data.as_deref(), Some("mode=755"));
    assert_eq!(m[3].flags, (libc::MS_NOSUID | libc::MS_NOEXEC) as u64);
    assert_eq!(m[3].data.as_deref(), Some("gid=5,mode=620"));
    assert_eq!(m[4].flags, (libc::MS_NOSUID | libc::MS_NODEV) as u64);
    assert_eq!(m[5].fstype, "cgroup2");
}

#[test]
fn refuses_to_run_as_another_pid() {
    assert_eq!(
        startup_error(false, 42),
        Some("not running as PID 1 (set WO_PID1_FAKE=1 to override)".to_string())
    );
    assert_eq!(startup_error(true, 42), None);
    assert_eq!(startup_error(false, 1), None);
}

#[test]
fn placeholder_child_command() {
    let c = child_exec(&Config::default()).unwrap();
    assert_eq!(c.tty, "/dev/tty1");
    assert_eq!(c.program, "/bin/sh");
    assert_eq!(c.argv, vec!["sh".to_string()]);
    assert_eq!(c.env, vec!["PATH=/usr/bin:/usr/sbin:/bin:/sbin", "HOME=/root", "TERM=linux"]);
    let mut bad = Config::default();
    bad.child_args.push("a\0b".into());
    assert!(child_exec(&bad).is_none());
}

#[test]
fn shutdown_begins_once_and_waits_out_the_grace() {
    let mut s = Supervisor::new(77);
    assert_eq!(s.on_signal(SignalKind::Child, 5), SignalAction::Reap);
    assert_eq!(s.on_signal(SignalKind::Hangup, 5), SignalAction::NoteHangup);
    assert_eq!(s.on_signal(SignalKind::Other(10), 5), SignalAction::NoteUnhandled(10));
    assert_eq!(s.next_wait(5, 10), Wait::Forever);
    assert_eq!(
        s.on_signal(SignalKind::Shutdown, 1_000),
        SignalAction::BeginShutdown { terminate: Some(77) }
    );
    assert_eq!(s.on_signal(SignalKind::Shutdown, 2_000), SignalAction::Nothing);
    assert_eq!(s.shutdown_started, Some(1_000));
    assert_eq!(s.next_wait(1_000, 10), Wait::Millis(10_000));
    assert_eq!(s.next_wait(1_000 + 9_999_999_999, 10), Wait::Millis(1));
    assert_eq!(s.next_wait(1_000 + 10_000_000_000, 10), Wait::Finish);
    assert_eq!(s.final_kill(), Some(77));
    s.on_reaped(12);
    assert_eq!(s.child_pid, 77);
    s.on_reaped(77);
    assert_eq!(s.child_pid, 0);
    assert_eq!(s.final_kill(), None);
}

#[test]
fn shutdown_without_a_child_sends_nothing() {
    let mut s = Supervisor::new(0);
    assert_eq!(s.on_signal(SignalKind::Shutdown, 0), SignalAction::BeginShutdown { terminate: None });
    assert_eq!(s.next_wait(0, 0), Wait::Finish);
}
