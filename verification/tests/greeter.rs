use writeonce::greeter::config::Config;
use writeonce::greeter::flow::{
    base_env, choice_from_line, default_index, launch_command, merge_pam_env, pam_env_hints,
    render_banner, runtime_dir_missing, tty_name, username_from_line, vtnr_from, UserInfo,
};
use writeonce::greeter::sessions::{
    sort_sessions_by_keys,
    discover, menu_for, parse_desktop, session_dirs, shell_session, strip_field_codes, Session,
    SessionKind,
};

#[test]
fn parses_a_typical_sway_desktop() {
    let d = "\
[Desktop Entry]
Name=Sway
Comment=An i3-compatible Wayland compositor
Exec=sway
Type=Application
DesktopNames=sway
";
    let s = parse_desktop(d).expect("should parse");
    assert_eq!(s.name, "Sway");
    assert_eq!(s.command, "sway");
    assert_eq!(s.desktop_names, "sway");
    assert_eq!(s.kind, SessionKind::Wayland);
    assert_eq!(s.primary_desktop(), "sway");
}

#[test]
fn strips_exec_field_codes() {
    assert_eq!(strip_field_codes("Hyprland %U"), "Hyprland");
    assert_eq!(strip_field_codes("startplasma-wayland %f"), "startplasma-wayland");
    assert_eq!(strip_field_codes("foo"), "foo");
}

#[test]
fn ignores_keys_outside_desktop_entry_group() {
    let d = "\
[Desktop Entry]
Name=Hyprland
Exec=Hyprland
[Desktop Action new]
Exec=should-be-ignored
";
    let s = parse_desktop(d).unwrap();
    assert_eq!(s.command, "Hyprland");
}

#[test]
fn falls_back_to_tryexec_and_then_exec_name() {
    let d = "[Desktop Entry]\nTryExec=wayfire\n";
    let s = parse_desktop(d).unwrap();
    assert_eq!(s.command, "wayfire");
    assert_eq!(s.name, "wayfire");
}

#[test]
fn no_exec_means_no_session() {
    assert!(parse_desktop("[Desktop Entry]\nName=Broken\n").is_none());
}

#[test]
fn shell_session_is_tty_kind() {
    let s = shell_session("/bin/bash");
    assert_eq!(s.kind, SessionKind::Shell);
    assert_eq!(s.command, "/bin/bash");
}

#[test]
fn stripping_twice_is_stripping_once() {
    let once = strip_field_codes("  sway   %U  --debug %f ");
    assert_eq!(once, "sway --debug");
    assert_eq!(strip_field_codes(&once), once);
}

#[test]
fn field_code_needs_exactly_two_bytes() {
    assert_eq!(strip_field_codes("run %% %Uu %"), "run %Uu %");
}

#[test]
fn primary_desktop_takes_first_name_trimmed() {
    let s = Session {
        name: "X".to_string(),
        command: "x".to_string(),
        desktop_names: " wlroots ;sway;".to_string(),
        kind: SessionKind::Wayland,
    };
    assert_eq!(s.primary_desktop(), "wlroots");
}

#[test]
fn session_dirs_in_priority_order() {
    let d = session_dirs("/home/ann");
    assert_eq!(
        d,
        vec![
            "/usr/share/wayland-sessions".to_string(),
            "/home/ann/.nix-profile/share/wayland-sessions".to_string(),
            "/nix/var/nix/profiles/default/share/wayland-sessions".to_string(),
            "/home/ann/.local/share/wayland-sessions".to_string(),
        ]
    );
}

#[test]
fn discover_dedups_by_name_and_sorts_case_insensitively() {
    let files = vec![
        "[Desktop Entry]\nName=sway\nExec=sway\n".to_string(),
        "[Desktop Entry]\nName=Hyprland\nExec=Hyprland\n".to_string(),
        "not a desktop file".to_string(),
        "[Desktop Entry]\nName=sway\nExec=other-sway\n".to_string(),
        "[Desktop Entry]\nName=Niri\nExec=niri-session\n".to_string(),
    ];
    let found = discover(&files);
    let names: Vec<&str> = found.iter().map(|s| s.name.as_str()).collect();
    assert_eq!(names, vec!["Hyprland", "Niri", "sway"]);
    assert_eq!(found[2].command, "sway");
}

#[test]
fn menu_ends_with_the_shell() {
    let m = menu_for(discover(&vec!["[Desktop Entry]\nExec=sway\n".to_string()]), "/bin/zsh");
    assert_eq!(m.len(), 2);
    assert_eq!(m[1].name, "Shell (bash)");
    assert_eq!(m[1].command, "/bin/zsh");
}

#[test]
fn tty_name_and_vt_number() {
    assert_eq!(tty_name("/dev/tty3"), "tty3");
    assert_eq!(tty_name("ttyS0"), "ttyS0");
    assert_eq!(vtnr_from("/dev/tty7"), 7);
    assert_eq!(vtnr_from("/dev/ttyS0"), 0);
    assert_eq!(vtnr_from("/dev/console"), 0);
}

#[test]
fn empty_username_means_default_user() {
    assert_eq!(username_from_line("   \n"), "writeonce");
    assert_eq!(username_from_line(" ann \n"), "ann");
}

fn menu() -> Vec<Session> {
    vec![
        Session { name: "Hyprland".into(), command: "Hyprland".into(), desktop_names: "Hyprland".into(), kind: SessionKind::Wayland },
        Session { name: "sway".into(), command: "sway".into(), desktop_names: "sway;wlroots".into(), kind: SessionKind::Wayland },
        shell_session("/bin/bash"),
    ]
}

#[test]
fn default_index_prefers_remembered_then_configured() {
    let mut cfg = Config::default();
    assert_eq!(default_index(&menu(), &cfg, Some("sway".into())), 1);
    assert_eq!(default_index(&menu(), &cfg, Some("gone".into())), 0);
    assert_eq!(default_index(&menu(), &cfg, None), 0);
    cfg.default_session = "Shell (bash)".into();
    assert_eq!(default_index(&menu(), &cfg, None), 2);
}

#[test]
fn choice_reads_one_based_numbers() {
    assert_eq!(choice_from_line("2\n", 3, 0), 1);
    assert_eq!(choice_from_line("\n", 3, 2), 2);
    assert_eq!(choice_from_line("4", 3, 0), 0);
    assert_eq!(choice_from_line("0", 3, 1), 1);
    assert_eq!(choice_from_line("x", 3, 1), 1);
}

#[test]
fn pam_hints_for_a_compositor() {
    let m = menu();
    assert_eq!(
        pam_env_hints(&m[1], 1),
        vec![
            "XDG_SEAT=seat0".to_string(),
            "XDG_VTNR=1".to_string(),
            "XDG_SESSION_CLASS=user".to_string(),
            "XDG_SESSION_TYPE=wayland".to_string(),
            "XDG_SESSION_DESKTOP=sway".to_string(),
        ]
    );
    assert_eq!(pam_env_hints(&m[2], 2).len(), 4);
    assert_eq!(pam_env_hints(&m[2], 2)[3], "XDG_SESSION_TYPE=tty");
}

fn user() -> UserInfo {
    UserInfo { name: "ann".into(), uid: 1000, gid: 1000, home: "/home/ann".into(), shell: "/bin/zsh".into() }
}

#[test]
fn session_environment_and_merge() {
    let m = menu();
    let mut env = base_env(&user(), &m[1], 1);
    assert_eq!(env[0], "USER=ann");
    assert_eq!(env[8], "XDG_VTNR=1");
    assert_eq!(env[10], "XDG_SESSION_TYPE=wayland");
    assert_eq!(env[11], "XDG_CURRENT_DESKTOP=sway;wlroots");
    assert_eq!(env[12], "XDG_SESSION_DESKTOP=sway");
    let n = env.len();
    let pam = vec![
        ("XDG_RUNTIME_DIR".to_string(), "/run/user/1000".to_string()),
        ("HOME".to_string(), "/elsewhere".to_string()),
    ];
    merge_pam_env(&mut env, &pam);
    assert_eq!(env.len(), n + 1);
    assert_eq!(env[n], "XDG_RUNTIME_DIR=/run/user/1000");
    assert_eq!(env[2], "HOME=/home/ann");
    assert!(!runtime_dir_missing(&m[1], &pam));
    assert!(runtime_dir_missing(&m[1], &vec![]));
    assert!(!runtime_dir_missing(&m[2], &vec![]));
}

#[test]
fn launch_command_for_each_kind() {
    let m = menu();
    let (prog, argv) = launch_command(&user(), &m[2]);
    assert_eq!(prog, "/bin/bash");
    assert_eq!(argv, vec!["-bash".to_string()]);
    let (prog, argv) = launch_command(&user(), &m[1]);
    assert_eq!(prog, "/bin/zsh");
    assert_eq!(argv, vec!["/bin/zsh".to_string(), "-l".into(), "-c".into(), "exec sway".into()]);
}

#[test]
fn greeter_banner_names_the_host() {
    let b = render_banner(&Config::default(), "t450");
    assert!(b.starts_with("\n  ┌─ WriteOnce OS ─"));
    assert!(b.contains("  │  t450 — sign in\n"));
}

#[test]
fn defaults_without_a_config_file() {
    let c = Config::load_or_default(None);
    assert_eq!(c.welcome, "WriteOnce OS");
    assert_eq!(c.pam_service, "writeonce-greeter");
    assert_eq!(c.state_path, "/var/lib/writeonce-greeter/last");
}

#[test]
fn hostname_and_last_session_texts() {
    let c = Config::default();
    assert_eq!(c.effective_hostname(Some(" t450 \n")), "t450");
    assert_eq!(c.effective_hostname(None), "localhost");
    assert_eq!(c.read_last_session(Some(" sway \n")), Some("sway".to_string()));
    assert_eq!(c.read_last_session(Some("  \n")), None);
    assert_eq!(c.last_session_text("sway"), "sway\n");
}

fn wayland(name: &str) -> Session {
    Session { name: name.into(), command: name.to_lowercase(), desktop_names: String::new(), kind: SessionKind::Wayland }
}

#[test]
fn sessions_sort_by_the_given_keys_stably() {
    let ss = vec![wayland("A"), wayland("B"), wayland("C"), wayland("D")];
    let keys: Vec<String> = vec!["m".into(), "b".into(), "m".into(), "a".into()];
    let names: Vec<String> = sort_sessions_by_keys(&ss, &keys).into_iter().map(|s| s.name).collect();
    assert_eq!(names, vec!["D", "B", "A", "C"]);
}
