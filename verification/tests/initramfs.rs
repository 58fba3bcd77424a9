use writeonce::initramfs::boot::{boot_step, cat_output, poll_step, BootStep, PollStep};
use writeonce::initramfs::cmdline::{CmdLine, RootSpec};
use writeonce::initramfs::discover::DiscoverError;
use writeonce::initramfs::modules::{extend_with_module_line, find_ko, names_from_config};
use writeonce::initramfs::mount::{essentials, mount_result, MountRun};
use writeonce::initramfs::recovery::{parse_recovery_line, RecoveryCommand};

#[test]
fn parse_typical_cmdline() {
    let c = CmdLine::parse("BOOT_IMAGE=/bzImage root=UUID=418b032e-1143-4f14 ro quiet console=tty0");
    assert_eq!(c.root_spec, Some(RootSpec::Uuid("418b032e-1143-4f14".into())));
    assert_eq!(c.init_path, "/sbin/writeonce-pid1");
    assert!(!c.recovery);
}

#[test]
fn parse_device_root() {
    let c = CmdLine::parse("root=/dev/sda3 rootfstype=ext4 init=/sbin/bash");
    assert_eq!(c.root_spec, Some(RootSpec::Device("/dev/sda3".into())));
    assert_eq!(c.rootfstype.as_deref(), Some("ext4"));
    assert_eq!(c.init_path, "/sbin/bash");
}

#[test]
fn recovery_token_sets_flag() {
    let c = CmdLine::parse("wo.recovery");
    assert!(c.recovery);
}

#[test]
fn defaults_when_no_root() {
    let c = CmdLine::parse("ro quiet");
    assert!(c.root_spec.is_none());
    assert_eq!(c.init_path, "/sbin/writeonce-pid1");
    assert_eq!(c.rootwait_secs, 30);
}

#[test]
fn rootwait_override() {
    let c = CmdLine::parse("root=LABEL=writeonce-root writeonce.rootwait=45");
    assert_eq!(c.rootwait_secs, 45);
}

#[test]
fn rootwait_zero_means_fail_fast() {
    let c = CmdLine::parse("writeonce.rootwait=0");
    assert_eq!(c.rootwait_secs, 0);
}

#[test]
fn rootwait_garbage_falls_back_to_zero() {
    let c = CmdLine::parse("writeonce.rootwait=ten");
    assert_eq!(c.rootwait_secs, 0);
}

#[test]
fn rw_token_clears_rdonly() {
    let c = CmdLine::parse("root=UUID=abc rw");
    assert_eq!(c.mount_flags & libc::MS_RDONLY as u64, 0, "rw should clear MS_RDONLY");
    assert_ne!(c.mount_flags & libc::MS_NOATIME as u64, 0, "MS_NOATIME should remain set");
}

#[test]
fn ro_token_sets_rdonly() {
    let c = CmdLine::parse("root=UUID=abc ro");
    assert_ne!(c.mount_flags & libc::MS_RDONLY as u64, 0, "ro should set MS_RDONLY");
}

#[test]
fn default_mount_flags_is_writable() {
    let c = CmdLine::parse("root=UUID=abc");
    assert_eq!(c.mount_flags & libc::MS_RDONLY as u64, 0, "no token → writable by default");
    assert_ne!(c.mount_flags & libc::MS_NOATIME as u64, 0);
}

#[test]
fn ro_then_rw_keeps_writable() {
    let c = CmdLine::parse("root=UUID=abc ro rw");
    assert_eq!(c.mount_flags & libc::MS_RDONLY as u64, 0);
}

#[test]
fn rw_then_ro_is_read_only() {
    let c = CmdLine::parse("rw quiet ro");
    assert_eq!(c.mount_flags, (libc::MS_RDONLY | libc::MS_NOATIME) as u64);
}

#[test]
fn fake_token_is_recovery_too_and_other_roots() {
    assert!(CmdLine::parse("quiet wo.fake").recovery);
    let c = CmdLine::parse("root=PARTUUID=ab-cd rootflags=noatime root=LABEL=x");
    assert_eq!(c.root_spec, Some(RootSpec::Label("x".into())));
    assert_eq!(c.rootflags.as_deref(), Some("noatime"));
    assert_eq!(CmdLine::parse("root=PARTUUID=ab-cd").root_spec, Some(RootSpec::PartUuid("ab-cd".into())));
}

#[test]
fn extend_skips_comments_and_blanks() {
    let mut v: Vec<String> = Vec::new();
    extend_with_module_line(&mut v, "");
    extend_with_module_line(&mut v, "   ");
    extend_with_module_line(&mut v, "# comment");
    extend_with_module_line(&mut v, "  i915 ");
    extend_with_module_line(&mut v, "ahci");
    assert_eq!(v, vec!["i915".to_string(), "ahci".to_string()]);
}

#[test]
fn module_names_from_several_files() {
    let bodies = vec!["i915\n# gpu\n".to_string(), "\n  ahci \r\nxhci_pci".to_string()];
    assert_eq!(
        names_from_config(&bodies),
        vec!["i915".to_string(), "ahci".to_string(), "xhci_pci".to_string()]
    );
}

#[test]
fn find_ko_matches_base_name() {
    let files = vec![
        "/lib/modules/6.1/kernel/drivers/ata/libahci.ko".to_string(),
        "/lib/modules/6.1/kernel/drivers/ata/ahci.ko.zst".to_string(),
    ];
    assert_eq!(find_ko(&files, "ahci"), Some("/lib/modules/6.1/kernel/drivers/ata/ahci.ko.zst".to_string()));
    assert_eq!(find_ko(&files, "i915"), None);
}

#[test]
fn essential_mounts_of_the_initramfs() {
    let m = essentials();
    assert_eq!(m.len(), 3);
    assert_eq!(m[0].target, "/proc");
    assert_eq!(m[2].fstype, "devtmpfs");
    assert_eq!(m[2].data.as_deref(), Some("mode=755"));
}

#[test]
fn recovery_shell_commands() {
    assert_eq!(parse_recovery_line("   \n"), RecoveryCommand::Nothing);
    assert_eq!(parse_recovery_line(" exit \n"), RecoveryCommand::Halt);
    assert_eq!(parse_recovery_line("ls"), RecoveryCommand::List("/".into()));
    assert_eq!(parse_recovery_line("ls /sys  extra"), RecoveryCommand::List("/sys".into()));
    assert_eq!(parse_recovery_line("cat"), RecoveryCommand::CatUsage);
    assert_eq!(parse_recovery_line("cat /proc/cmdline"), RecoveryCommand::Cat("/proc/cmdline".into()));
    assert_eq!(parse_recovery_line("blocks"), RecoveryCommand::Blocks);
    assert_eq!(
        parse_recovery_line("busybox sh -i"),
        RecoveryCommand::Run(vec!["busybox".into(), "sh".into(), "-i".into()])
    );
}

#[test]
fn boot_steps() {
    assert!(matches!(boot_step(&CmdLine::parse("wo.recovery root=/dev/sda2")), BootStep::Recovery));
    match boot_step(&CmdLine::parse("quiet")) {
        BootStep::NoRoot(m) => assert_eq!(m, "no root= on /proc/cmdline"),
        _ => panic!("expected NoRoot"),
    }
    match boot_step(&CmdLine::parse("root=/dev/sda2 ro")) {
        BootStep::Boot { root, fstype, init, rootwait_secs, .. } => {
            assert_eq!(root, RootSpec::Device("/dev/sda2".into()));
            assert_eq!(fstype, "ext4");
            assert_eq!(init, "/sbin/writeonce-pid1");
            assert_eq!(rootwait_secs, 30);
        }
        _ => panic!("expected Boot"),
    }
}

#[test]
fn root_wait_steps() {
    let (s, n) = poll_step(Err(DiscoverError::NotFound("UUID=x".into())), 0, true);
    assert!(matches!(s, PollStep::Retry { announce: true }));
    assert_eq!(n, 1);
    let (s, n) = poll_step(Err(DiscoverError::NotFound("UUID=x".into())), 3, true);
    assert!(matches!(s, PollStep::Retry { announce: false }));
    assert_eq!(n, 4);
    let (s, _) = poll_step(Err(DiscoverError::NotFound("UUID=x".into())), 3, false);
    assert!(matches!(s, PollStep::GiveUp(DiscoverError::NotFound(_))));
    let (s, _) = poll_step(Ok("/dev/sdb2".into()), 5, true);
    match s {
        PollStep::Found { path, polls } => {
            assert_eq!(path, "/dev/sdb2");
            assert_eq!(polls, 5);
        }
        _ => panic!("expected Found"),
    }
}

#[test]
fn cat_adds_missing_newline() {
    assert_eq!(cat_output("a\n"), "a\n");
    assert_eq!(cat_output("a"), "a\n");
}

#[test]
fn discovery_error_messages() {
    assert_eq!(DiscoverError::NotFound("UUID=abc".into()).message(), "no block device matched: UUID=abc");
    assert_eq!(DiscoverError::Unsupported("ZFS=x".into()).message(), "unsupported root spec: ZFS=x");
    let io = DiscoverError::Io(std::io::Error::new(std::io::ErrorKind::Other, "boom"));
    assert_eq!(io.message(), "io: boom");
}

#[test]
fn mount_outcomes() {
    assert_eq!(mount_result(None), Ok(()));
    assert_eq!(mount_result(Some(libc::EBUSY)), Ok(()));
    assert_eq!(mount_result(Some(libc::ENOENT)), Err(libc::ENOENT));
    assert_eq!(mount_result(Some(1)), Err(1));
}

#[test]
fn essential_mounts_run_in_order_and_stop_at_a_failure() {
    let mut run = MountRun::new(essentials());
    assert_eq!(run.next_mount().unwrap().target, "/proc");
    run.record(None);
    assert_eq!(run.next_mount().unwrap().target, "/sys");
    run.record(Some(libc::EBUSY));
    let dev = run.next_mount().unwrap();
    assert_eq!(dev.target, "/dev");
    assert_eq!(dev.data.as_deref(), Some("mode=755"));
    run.record(None);
    assert!(run.next_mount().is_none());
    assert_eq!(run.result(), Ok(()));

    let mut failing = MountRun::new(essentials());
    failing.record(None);
    assert_eq!(failing.next_mount().unwrap().target, "/sys");
    failing.record(Some(libc::EACCES));
    assert!(failing.next_mount().is_none());
    assert_eq!(failing.result(), Err(libc::EACCES));
    assert_eq!(failing.outcomes.len(), 2);

    assert_eq!(MountRun::new(Vec::new()).result(), Ok(()));
    assert!(MountRun::new(Vec::new()).next_mount().is_none());
}
