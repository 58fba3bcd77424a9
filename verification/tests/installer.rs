use writeonce::installer::mkfs::{blkid_uuid_args, format_esp_args, format_root_args, uuid_from_blkid};
use writeonce::installer::bootloader::{esp_plan, format_cmdline, EspLayout};
use writeonce::installer::customize::{
    apply, days_from_reading, home_action, home_dir, network_writes, patch_xinitrc, rewrite_group,
    rewrite_passwd, rewrite_shadow, vconsole_conf, HomeAction, SysrootTexts,
};
use writeonce::installer::detect::{
    lookup, read_one, removable_devices, safety_check, sort_devices, BlockAttrs, SafetyError, UsbDevice,
};
use writeonce::installer::manifest::{
    check_digest, sha256_hex, ArtifactHasher, ImageSection, Manifest, MetadataSection, VerificationSection,
};
use writeonce::installer::mount_::{mount_args, MountGuard};
use writeonce::installer::partition::{create_args, partition_paths, zap_args};
use writeonce::installer::pipeline::{check_named_target, eligible_devices, pick_device, use_cli_flow, TargetError};
use writeonce::installer::prompt::{
    gather_partition, gather_plan, valid_keymap, validate_hash, validate_keymap, validate_username,
    PlanAnswers, PlanError,
};
use writeonce::installer::spec::{
    InstallationPlan, KeyboardSpec, PartitionPlan, PartitionsSpec, ResolvedKeyboard, ResolvedNetwork,
    ResolvedUser, TargetOsSpec, UserSpec,
};
use writeonce::installer::tui::{App, Key, Outcome, Screen};

const HASH: &str = "$6$saltsalt$abcdefghijklmnopqrstuvwxyz";

fn stick(path: &str, gb: u64, removable: bool) -> UsbDevice {
    UsbDevice {
        path: path.to_string(),
        size_bytes: gb * 1_000_000_000,
        vendor: "SanDisk".to_string(),
        model: "Cruzer".to_string(),
        removable,
    }
}

fn user() -> ResolvedUser {
    ResolvedUser {
        name: "ann".into(),
        real_name: "Ann Smith".into(),
        password_hash: HASH.into(),
        shell: "/bin/bash".into(),
        groups: vec!["wheel".into(), "video".into()],
        uid: 1000,
        gid: 1000,
    }
}

#[test]
fn cmdline_template_gets_the_root_uuid() {
    assert_eq!(
        format_cmdline("root=UUID=__ROOT_UUID__ ro quiet", "1234-abcd"),
        "root=UUID=1234-abcd ro quiet"
    );
    assert_eq!(format_cmdline("a __ROOT_UUID____ROOT_UUID__ b", "x"), "a xx b");
    assert_eq!(format_cmdline("no placeholder", "x"), "no placeholder");
}

#[test]
fn esp_population_plan() {
    let p = esp_plan(&EspLayout {
        esp_mount: "/tmp/w/root/boot/efi".into(),
        bootloader: "/art/BOOTX64.EFI".into(),
        kernel: "/art/bzImage".into(),
        initramfs: "/art/initramfs.img".into(),
        cmdline: "root=UUID=x".into(),
    });
    assert_eq!(p.dirs, vec!["/tmp/w/root/boot/efi/EFI/BOOT".to_string(), "/tmp/w/root/boot/efi/EFI/WriteOnce".to_string()]);
    assert_eq!(p.copies[0], ("/art/BOOTX64.EFI".to_string(), "/tmp/w/root/boot/efi/EFI/BOOT/BOOTX64.EFI".to_string()));
    assert_eq!(p.copies[1].1, "/tmp/w/root/boot/efi/EFI/WriteOnce/bzImage");
    assert_eq!(p.cmdline_path, "/tmp/w/root/boot/efi/EFI/WriteOnce/cmdline.txt");
}

#[test]
fn partition_names_for_both_schemes() {
    assert_eq!(partition_paths("/dev/sdb"), ("/dev/sdb1".to_string(), "/dev/sdb2".to_string()));
    assert_eq!(partition_paths("/dev/nvme0n1"), ("/dev/nvme0n1p1".to_string(), "/dev/nvme0n1p2".to_string()));
}

#[test]
fn sgdisk_arguments() {
    assert_eq!(zap_args("/dev/sdb"), vec!["--zap-all".to_string(), "/dev/sdb".to_string()]);
    let a = create_args("/dev/sdb", &PartitionPlan { esp_mib: 512, root_gib: None });
    assert_eq!(a[0], "--new=1:0:+512M");
    assert_eq!(a[3], "--new=2:0:0");
    assert_eq!(a[6], "/dev/sdb");
    let a = create_args("/dev/sdb", &PartitionPlan { esp_mib: 256, root_gib: Some(20) });
    assert_eq!(a[3], "--new=2:0:+20G");
    assert_eq!(a[2], "--change-name=1:WRITEONCE-ESP");
}

#[test]
fn mount_guard_and_arguments() {
    let mut g = MountGuard::new("/mnt/x".into());
    assert!(g.is_armed());
    g.forget();
    assert!(!g.is_armed());
    assert_eq!(g.target, "/mnt/x");
    assert_eq!(mount_args("/dev/sdb2", "/mnt/x", "ext4"), vec!["-t", "ext4", "/dev/sdb2", "/mnt/x"]);
}

#[test]
fn device_from_sysfs_attributes() {
    let d = read_one("sdb", Some("1\n"), Some("62521344\n"), Some("SanDisk \n"), None).unwrap();
    assert_eq!(d.path, "/dev/sdb");
    assert_eq!(d.size_bytes, 62521344 * 512);
    assert_eq!(d.vendor, "SanDisk");
    assert_eq!(d.model, "");
    assert!(d.removable);
    assert!(read_one("sdb", Some("1"), Some("lots"), None, None).is_none());
    assert!(lookup(false, "sdb", Some("1"), Some("8"), None, None).is_none());
    assert!(!lookup(true, "sda", Some("0"), Some("8"), None, None).unwrap().removable);
}

#[test]
fn removable_devices_are_filtered_and_sorted() {
    let e = |name: &str, rem: &str| BlockAttrs {
        name: name.into(),
        removable: Some(rem.into()),
        size: Some("2048".into()),
        vendor: None,
        model: None,
    };
    let found = removable_devices(&vec![e("sdc", "1"), e("loop0", "1"), e("sda", "0"), e("sdb", "1")]);
    let paths: Vec<&str> = found.iter().map(|d| d.path.as_str()).collect();
    assert_eq!(paths, vec!["/dev/sdb", "/dev/sdc"]);
    let sorted = sort_devices(vec![stick("/dev/sdc", 1, true), stick("/dev/sdb", 2, true)]);
    assert_eq!(sorted[0].path, "/dev/sdb");
}

#[test]
fn safety_check_refusals() {
    let d = stick("/dev/sdb", 8, true);
    assert_eq!(safety_check(&d, false, ""), Err(SafetyError::Missing("/dev/sdb".into())));
    assert_eq!(
        safety_check(&stick("/dev/sda", 8, false), true, ""),
        Err(SafetyError::NotRemovable("/dev/sda".into()))
    );
    let mounts = "/dev/sda2 / ext4 rw 0 0\n/dev/sdb1 /media/x vfat rw 0 0\n";
    assert_eq!(safety_check(&d, true, mounts), Err(SafetyError::Mounted("/dev/sdb".into())));
    assert_eq!(safety_check(&d, true, "/dev/sdbb1 /x vfat rw 0 0\n"), Ok(()));
    assert!(SafetyError::Mounted("/dev/sdb".into()).message().contains("currently mounted"));
}

#[test]
fn safety_check_refuses_any_mounted_partition() {
    let d = stick("/dev/sdb", 8, true);
    assert_eq!(
        safety_check(&d, true, "/dev/sda1 / ext4 rw 0 0\n/dev/sdb3 /mnt ext4 rw 0 0\n"),
        Err(SafetyError::Mounted("/dev/sdb".into()))
    );
    assert_eq!(
        safety_check(&d, true, "/dev/sdb12 /mnt ext4 rw 0 0\n"),
        Err(SafetyError::Mounted("/dev/sdb".into()))
    );
    assert_eq!(safety_check(&d, true, "/dev/sdb /mnt ext4 rw 0 0\n"), Err(SafetyError::Mounted("/dev/sdb".into())));
    let n = stick("/dev/nvme0n1", 8, true);
    assert_eq!(
        safety_check(&n, true, "/dev/nvme0n1p2 /boot vfat rw 0 0\n"),
        Err(SafetyError::Mounted("/dev/nvme0n1".into()))
    );
    assert_eq!(safety_check(&n, true, "/dev/nvme0n1px /x vfat rw 0 0\n"), Ok(()));
    assert_eq!(safety_check(&d, true, "/dev/sdb3x /x vfat rw 0 0\n/dev/sdc3 /y vfat rw 0 0\n"), Ok(()));
    assert_eq!(safety_check(&d, true, "/dev/sdb3"), Ok(()));
}

#[test]
fn plan_validation_errors() {
    assert_eq!(validate_username(""), Err(PlanError::ReservedUsername));
    assert_eq!(validate_username("root"), Err(PlanError::ReservedUsername));
    assert_eq!(validate_username("Ann"), Err(PlanError::UsernameCharacters("Ann".into())));
    assert_eq!(validate_username("ann_2"), Ok(()));
    assert_eq!(validate_keymap("de-latin1"), Err(PlanError::KeymapCharacters("de-latin1".into())));
    assert_eq!(validate_keymap(""), Ok(()));
    assert!(!valid_keymap(""));
    assert!(valid_keymap("dvorak"));
    assert_eq!(validate_hash("$1$abc"), Err(PlanError::HashNotSha512("$1$abc".into())));
    assert_eq!(validate_hash("$6$short"), Err(PlanError::HashTooShort));
    assert_eq!(validate_hash(HASH), Ok(()));
}

#[test]
fn partition_plan_rules() {
    let d = stick("/dev/sdb", 16, true);
    assert!(matches!(gather_partition(None, &d, 50, 0), Err(PlanError::EspOutOfRange(50))));
    let p = gather_partition(None, &d, 512, 0).unwrap();
    assert_eq!((p.esp_mib, p.root_gib), (512, None));
    let spec = PartitionsSpec { esp_mib: Some(256), root_gib: Some(10_000) };
    match gather_partition(Some(&spec), &d, 512, 0) {
        Err(PlanError::RootTooLarge { requested, .. }) => assert_eq!(requested, 10_000),
        other => panic!("unexpected {other:?}"),
    }
    assert_eq!(
        PlanError::EspOutOfRange(50).message(),
        "ESP size 50 MiB out of sane range [100, 4096]"
    );
}

fn answers() -> PlanAnswers {
    PlanAnswers {
        esp_mib: 512,
        root_gib: 0,
        user_name: "ann".into(),
        real_name: "".into(),
        password_hash: HASH.into(),
        layout: "us".into(),
        variant: "".into(),
    }
}

#[test]
fn spec_values_win_over_answers() {
    let spec = TargetOsSpec {
        user: Some(UserSpec { name: Some("bob".into()), shell: Some("/bin/zsh".into()), ..Default::default() }),
        keyboard: Some(KeyboardSpec { layout: Some("de".into()), variant: Some("".into()) }),
        ..Default::default()
    };
    let plan = gather_plan(&spec, &stick("/dev/sdb", 16, true), answers()).unwrap();
    assert_eq!(plan.user.name, "bob");
    assert_eq!(plan.user.shell, "/bin/zsh");
    assert_eq!(plan.user.groups, vec!["wheel", "video", "audio", "input", "plugdev"]);
    assert_eq!(plan.user.uid, 1000);
    assert_eq!(plan.keyboard.layout, "de");
    assert_eq!(plan.keyboard.variant, None);
    assert!(!plan.network.enabled_at_boot);
}

#[test]
fn passwd_shadow_group_rewrites() {
    let u = user();
    let passwd = "root:x:0:0:root:/root:/bin/bash\nwriteonce:x:1000:1000::/home/writeonce:/bin/bash\n";
    assert_eq!(
        rewrite_passwd(passwd, &u),
        "root:x:0:0:root:/root:/bin/bash\nann:x:1000:1000:Ann Smith:/home/ann:/bin/bash\n"
    );
    assert_eq!(
        rewrite_passwd("root:x:0:0::/root:/bin/sh", &u),
        "root:x:0:0::/root:/bin/sh\nann:x:1000:1000:Ann Smith:/home/ann:/bin/bash\n"
    );
    let shadow = "root:!:19000:0:99999:7:::\nwriteonce:!:19000:0:99999:7:::\n";
    assert_eq!(
        rewrite_shadow(shadow, &u, 20000),
        format!("root:!:19000:0:99999:7:::\nann:{HASH}:20000:0:99999:7:::\n")
    );
    let group = "root:x:0:\nwheel:x:10:writeonce,bob\nwriteonce:x:1000:\naudio:x:11:writeonce\nodd\n";
    assert_eq!(
        rewrite_group(group, &u),
        "root:x:0:\nwheel:x:10:bob,ann\nann:x:1000:\naudio:x:11:\nodd\n"
    );
    assert_eq!(rewrite_group("video:x:12:\n", &u), "video:x:12:ann\nann:x:1000:\n");
}

#[test]
fn keyboard_files() {
    let k = ResolvedKeyboard { layout: "de".into(), variant: Some("nodeadkeys".into()) };
    assert_eq!(vconsole_conf(&k), "KEYMAP=de-nodeadkeys\n");
    assert_eq!(
        patch_xinitrc("#!/bin/sh\n  setxkbmap us\nexec i3", &k),
        "#!/bin/sh\nsetxkbmap -layout de -variant nodeadkeys\nexec i3\n"
    );
    let k = ResolvedKeyboard { layout: "fr".into(), variant: None };
    assert_eq!(vconsole_conf(&k), "KEYMAP=fr\n");
    assert_eq!(patch_xinitrc("setxkbmap x\n", &k), "setxkbmap fr\n");
}

#[test]
fn network_and_home_decisions() {
    assert!(network_writes(ResolvedNetwork { enabled_at_boot: false }, true).is_empty());
    let w = network_writes(ResolvedNetwork { enabled_at_boot: true }, false);
    assert_eq!(w.len(), 3);
    assert_eq!(w[0].path, "etc/writeonce/enabled.d/iwd.service.toml");
    assert_eq!(w[0].body, "# Pre-enabled by writeonce-installer (network.enabled_at_boot=true).\nunit = \"iwd.service\"\n");
    let w = network_writes(ResolvedNetwork { enabled_at_boot: true }, true);
    assert_eq!(w.len(), 4);
    assert_eq!(w[3].path, "etc/writeonce/services/default.target.toml");
    assert!(w[3].body.contains("requires    = [\"multi-user.target\"]"));
    assert_eq!(home_action(false, "ann"), HomeAction::Create);
    assert_eq!(home_action(true, "writeonce"), HomeAction::Keep);
    assert_eq!(home_action(true, "ann"), HomeAction::Rename);
    assert_eq!(home_dir("ann"), "home/ann");
    assert_eq!(days_from_reading(Some(86_400 * 3 + 5)), 3);
    assert_eq!(days_from_reading(None), 19_500);
}

#[test]
fn customisation_writes_every_file() {
    let plan = InstallationPlan {
        partition: PartitionPlan { esp_mib: 512, root_gib: None },
        user: user(),
        keyboard: ResolvedKeyboard { layout: "us".into(), variant: None },
        network: ResolvedNetwork { enabled_at_boot: true },
    };
    let texts = SysrootTexts {
        passwd: "writeonce:x:1000:1000::/home/writeonce:/bin/bash\n".into(),
        shadow: "".into(),
        group: "writeonce:x:1000:\n".into(),
        xinitrc: Some("setxkbmap gb\n".into()),
        default_target_exists: false,
    };
    let w = apply(&plan, &texts, 20000);
    let paths: Vec<&str> = w.iter().map(|f| f.path.as_str()).collect();
    assert_eq!(
        paths,
        vec![
            "etc/passwd",
            "etc/shadow",
            "etc/group",
            "home/ann/.xinitrc",
            "etc/vconsole.conf",
            "etc/writeonce/enabled.d/iwd.service.toml",
            "etc/writeonce/enabled.d/dhcpcd.service.toml",
            "etc/writeonce/enabled.d/writeonce-modules-load.service.toml",
        ]
    );
    assert_eq!(w[1].body, format!("ann:{HASH}:20000:0:99999:7:::\n"));
    assert_eq!(w[3].body, "setxkbmap us\n");
}

fn manifest() -> Manifest {
    Manifest {
        schema_version: "1".into(),
        image: ImageSection {
            kernel: "bzImage".into(),
            initramfs: "initramfs.img".into(),
            bootloader: "BOOTX64.EFI".into(),
            sysroot: "/abs/sysroot.tar.zst".into(),
            cmdline: "root=UUID=__ROOT_UUID__".into(),
        },
        verification: VerificationSection {
            kernel_sha256: "aa".into(),
            initramfs_sha256: "bb".into(),
            bootloader_sha256: "cc".into(),
            sysroot_sha256: "dd".into(),
        },
        metadata: MetadataSection::default(),
    }
}

#[test]
fn manifest_paths_and_digests() {
    let a = manifest().resolve("/art/");
    assert_eq!(a.kernel, "/art/bzImage");
    assert_eq!(manifest().resolve("/art").initramfs, "/art/initramfs.img");
    assert_eq!(a.sysroot, "/abs/sysroot.tar.zst");
    assert_eq!(a.bootloader_sha, "cc");
    assert_eq!(check_digest("kernel", "AB", "ab"), Ok(()));
    assert_eq!(
        check_digest("kernel", "ab", "cd"),
        Err("SHA-256 mismatch on kernel: manifest says ab, got cd".to_string())
    );
}

#[test]
fn sha256_of_known_inputs() {
    assert_eq!(sha256_hex(b""), "e3b0c44298fc1c149afbf4c8996fb92427ae41e4649b934ca495991b7852b855");
    assert_eq!(sha256_hex(b"abc"), "ba7816bf8f01cfea414140de5dae2223b00361a396177a9cb410ff61f20015ad");
    let mut h = ArtifactHasher::new();
    h.update(b"a");
    h.update(b"bc");
    assert_eq!(h.hex_digest(), sha256_hex(b"abc"));
}

#[test]
fn target_choice_rules() {
    assert!(use_cli_flow(false, false, false, false));
    assert!(!use_cli_flow(false, false, false, true));
    assert_eq!(check_named_target(None, "/dev/sdx", false).unwrap_err(), TargetError::NotFound("/dev/sdx".into()));
    assert_eq!(
        check_named_target(Some(stick("/dev/sda", 8, false)), "/dev/sda", false).unwrap_err(),
        TargetError::NotRemovable("/dev/sda".into())
    );
    assert!(check_named_target(Some(stick("/dev/sda", 8, false)), "/dev/sda", true).is_ok());
    let list = vec![stick("/dev/sdb", 8, true), stick("/dev/sdc", 8, true)];
    assert_eq!(pick_device(&list, " 1\n").unwrap().path, "/dev/sdc");
    assert_eq!(pick_device(&list, "2").unwrap_err(), TargetError::OutOfRange);
    assert_eq!(pick_device(&list, "x").unwrap_err(), TargetError::NotANumber);
    assert_eq!(pick_device(&list[..1].to_vec(), "").unwrap().path, "/dev/sdb");
    assert_eq!(pick_device(&vec![], "").unwrap_err(), TargetError::NoDevices);
    let ok = eligible_devices(&list, &vec![true, true], "/dev/sdc1 /m vfat rw 0 0\n");
    assert_eq!(ok.len(), 1);
    assert_eq!(ok[0].path, "/dev/sdb");
}

fn form() -> App {
    App::new(&TargetOsSpec::default(), vec![stick("/dev/sdb", 16, true), stick("/dev/sdc", 8, false)])
}

fn type_text(app: &mut App, s: &str) {
    for c in s.chars() {
        app.handle_key(Key::Char { c, ctrl: false });
    }
}

#[test]
fn form_walks_through_all_screens() {
    let mut app = form();
    assert_eq!(app.esp_mib_input, "512");
    assert_eq!(app.root_gib_input, "0");
    assert_eq!(app.kb_layout, "us");
    app.handle_key(Key::Down);
    app.handle_key(Key::Enter);
    assert_eq!(app.error.as_deref(), Some("/dev/sdc is not removable; refusing."));
    app.handle_key(Key::Char { c: 'k', ctrl: false });
    assert_eq!(app.device_idx, 0);
    assert_eq!(app.error, None);
    app.handle_key(Key::Enter);
    assert_eq!(app.screen, Screen::Partition);
    app.handle_key(Key::Backspace);
    app.handle_key(Key::Backspace);
    app.handle_key(Key::Backspace);
    type_text(&mut app, "32");
    app.handle_key(Key::Enter);
    assert_eq!(app.error.as_deref(), Some("ESP must be a number in 64–8192 MiB"));
    app.handle_key(Key::Backspace);
    app.handle_key(Key::Backspace);
    type_text(&mut app, "x256");
    assert_eq!(app.esp_mib_input, "256");
    app.handle_key(Key::Tab);
    type_text(&mut app, "99999");
    app.handle_key(Key::Enter);
    assert!(app.error.as_deref().unwrap().starts_with("root 99999 GiB exceeds available"));
    for _ in 0..5 {
        app.handle_key(Key::Backspace);
    }
    app.handle_key(Key::Enter);
    assert_eq!(app.screen, Screen::User);
    type_text(&mut app, "root");
    app.handle_key(Key::Enter);
    assert_eq!(app.error.as_deref(), Some("username must be set and must not be 'root'"));
    for _ in 0..4 {
        app.handle_key(Key::Backspace);
    }
    type_text(&mut app, "ann");
    app.handle_key(Key::Tab);
    app.handle_key(Key::Tab);
    type_text(&mut app, "secret1");
    app.handle_key(Key::Enter);
    assert_eq!(app.error.as_deref(), Some("password and confirmation do not match"));
    app.handle_key(Key::Up);
    assert_eq!(app.user_focus, 1);
    app.handle_key(Key::Tab);
    app.handle_key(Key::Tab);
    assert_eq!(app.user_focus, 3);
    type_text(&mut app, "secret1");
    app.handle_key(Key::Enter);
    assert_eq!(app.screen, Screen::Keyboard);
    app.handle_key(Key::Tab);
    type_text(&mut app, "Intl");
    app.handle_key(Key::Enter);
    assert_eq!(app.error.as_deref(), Some("variant must be lowercase alphanumeric + underscore"));
    for _ in 0..4 {
        app.handle_key(Key::Backspace);
    }
    app.handle_key(Key::Enter);
    assert_eq!(app.screen, Screen::Summary);
    let values = app.summary_values();
    assert_eq!(values[0].1, "ESP 256 MiB · root rest of disk");
    assert_eq!(values[1].1, "ann (uid 1000, no real name)");
    assert_eq!(values[3].1, "wheel,video,audio,input,plugdev");
    assert_eq!(values[4].1, "us");
    app.handle_key(Key::Enter);
    assert_eq!(app.outcome, Some(Outcome::Confirmed));
    let plan = app.build_plan(HASH.to_string()).unwrap();
    assert_eq!(plan.partition.esp_mib, 256);
    assert_eq!(plan.partition.root_gib, None);
    assert_eq!(plan.user.name, "ann");
    assert_eq!(plan.keyboard.variant, None);
}

#[test]
fn form_cancels_on_escape_and_control_c() {
    let mut app = form();
    app.handle_key(Key::Esc);
    assert_eq!(app.outcome, Some(Outcome::Cancelled));
    let mut app = form();
    app.handle_key(Key::Char { c: 'c', ctrl: true });
    assert_eq!(app.outcome, Some(Outcome::Cancelled));
}

#[test]
fn form_texts() {
    let mut app = form();
    assert_eq!(app.footer_text(), "↑↓ select   Enter continue   Esc cancel");
    app.handle_key(Key::Down);
    app.handle_key(Key::Enter);
    assert!(app.footer_text().starts_with("⚠ /dev/sdc is not removable; refusing.    │    "));
    assert_eq!(app.masked("pässwd"), "●●●●●●●");
    app.show_passwords = true;
    assert_eq!(app.masked("pässwd"), "pässwd");
    assert!(app.build_plan("$1$x".into()).is_err());
}

#[test]
fn filesystem_command_lines_and_the_uuid() {
    assert_eq!(format_esp_args("/dev/sdb1"), vec!["-F", "32", "-n", "WRITEONCE", "/dev/sdb1"]);
    assert_eq!(
        format_root_args("/dev/sdb2"),
        vec!["-F", "-L", "writeonce-root", "-E", "lazy_itable_init=0,lazy_journal_init=0", "/dev/sdb2"]
    );
    assert_eq!(blkid_uuid_args("/dev/sdb2"), vec!["-s", "UUID", "-o", "value", "/dev/sdb2"]);
    assert_eq!(uuid_from_blkid("418b032e-1143-4f14\n"), Some("418b032e-1143-4f14".to_string()));
    assert_eq!(uuid_from_blkid(" \n"), None);
}

#[test]
fn target_refusal_messages() {
    assert_eq!(TargetError::NotFound("/dev/sdz".into()).message(), "device /dev/sdz not found under /sys/block");
    assert_eq!(
        TargetError::NotRemovable("/dev/sda".into()).message(),
        "/dev/sda is not removable. Pass --force-non-removable if you really mean to install onto an internal disk."
    );
    assert_eq!(
        TargetError::NoDevices.message(),
        "no removable devices found; specify --target /dev/sdX explicitly"
    );
    assert_eq!(TargetError::NotANumber.message(), "expected a number");
    assert_eq!(TargetError::OutOfRange.message(), "index out of range");
}
