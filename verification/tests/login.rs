use writeonce::login::config::Config;
use writeonce::login::flow::{
    answer_message, line_without_end, parse_tty_args, render_banner, session_create_argv,
    session_create_env, Conversation, TtyArgs, PAM_ERROR_MSG, PAM_PROMPT_ECHO_OFF,
    PAM_PROMPT_ECHO_ON, PAM_TEXT_INFO,
};
use writeonce::session_create::{
    build_env, create_session_call, parse_args, ArgError, SessionArgs, SessionArgsOutcome,
};

fn argv(v: &[&str]) -> Vec<String> {
    v.iter().map(|s| s.to_string()).collect()
}

#[test]
fn login_defaults_without_a_config_file() {
    let c = Config::load_or_default(None);
    assert_eq!(c.hostname, "");
    assert_eq!(c.welcome, "WriteOnce OS");
    assert_eq!(c.pam_service, "writeonce");
    assert_eq!(c.session_script, "/etc/writeonce/session-start.sh");
    assert_eq!(c.effective_hostname(Some(" t450\n")), "t450");
    assert_eq!(c.effective_hostname(None), "localhost");
    let named = Config { hostname: "box".into(), ..Config::default() };
    assert_eq!(named.effective_hostname(Some("other")), "box");
}

#[test]
fn tty_arguments() {
    assert_eq!(
        parse_tty_args(&argv(&["writeonce-login"]), "/etc/writeonce/login.toml"),
        TtyArgs::Run { tty: "/dev/tty1".into(), config: "/etc/writeonce/login.toml".into() }
    );
    assert_eq!(
        parse_tty_args(&argv(&["l", "--tty", "/dev/tty2", "--config", "/x.toml"]), "/d"),
        TtyArgs::Run { tty: "/dev/tty2".into(), config: "/x.toml".into() }
    );
    assert_eq!(parse_tty_args(&argv(&["l", "--tty"]), "/d"), TtyArgs::Invalid("--tty requires a value".into()));
    assert_eq!(
        parse_tty_args(&argv(&["l", "--config"]), "/d"),
        TtyArgs::Invalid("--config requires a value".into())
    );
    assert_eq!(parse_tty_args(&argv(&["l", "-h", "--bogus"]), "/d"), TtyArgs::Help);
    assert_eq!(parse_tty_args(&argv(&["l", "--bogus"]), "/d"), TtyArgs::Invalid("unknown argument: --bogus".into()));
}

#[test]
fn login_banner_and_lines() {
    let c = Config::default();
    assert_eq!(render_banner(&c, "t450"), "\nWriteOnce OS\nt450 tty login\n");
    assert_eq!(line_without_end("alice\r\n"), "alice");
    assert_eq!(line_without_end("alice"), "alice");
    assert_eq!(line_without_end("\n\n"), "");
}

#[test]
fn hand_over_to_the_session_helper() {
    let a = session_create_argv("alice", 1000, 100, "/home/alice", "/bin/bash", "/dev/tty2", 2, "/s.sh");
    assert_eq!(
        a,
        argv(&[
            "writeonce-session-create", "--user", "alice", "--uid", "1000", "--gid", "100",
            "--home", "/home/alice", "--shell", "/bin/bash", "--tty", "/dev/tty2", "--vtnr", "2",
            "--session-script", "/s.sh",
        ])
    );
    assert_eq!(session_create_env(), argv(&["PATH=/usr/sbin:/usr/bin:/sbin:/bin", "RUST_LOG=info"]));
    match parse_args(&a) {
        SessionArgsOutcome::Run(s) => {
            assert_eq!(s.user, "alice");
            assert_eq!(s.uid, 1000);
            assert_eq!(s.gid, 100);
            assert_eq!(s.home, "/home/alice");
            assert_eq!(s.shell, "/bin/bash");
            assert_eq!(s.tty, "/dev/tty2");
            assert_eq!(s.vtnr, 2);
            assert_eq!(s.session_script, "/s.sh");
        }
        other => panic!("unexpected {other:?}"),
    }
}

fn invalid(v: &[&str]) -> ArgError {
    match parse_args(&argv(v)) {
        SessionArgsOutcome::Invalid(e) => e,
        other => panic!("unexpected {other:?}"),
    }
}

#[test]
fn session_helper_refusals() {
    assert_eq!(invalid(&["h", "--user"]), ArgError::MissingValue("--user".into()));
    assert_eq!(invalid(&["h", "--uid", "x1"]), ArgError::BadNumber("x1".into()));
    assert_eq!(invalid(&["h", "--frob"]), ArgError::Unknown("--frob".into()));
    assert_eq!(invalid(&["h", "--user", "a"]), ArgError::Required("--uid".into()));
    assert!(matches!(parse_args(&argv(&["h", "--help"])), SessionArgsOutcome::Help));
    assert_eq!(ArgError::MissingValue("--user".into()).message(), "--user requires a value");
    assert_eq!(ArgError::Unknown("--frob".into()).message(), "unknown argument: --frob");
    assert_eq!(ArgError::Required("--uid".into()).message(), "--uid is required");
    assert_eq!(ArgError::BadNumber("".into()).message(), "cannot parse integer from empty string");
    assert_eq!(ArgError::BadNumber("99999999999".into()).message(), "number too large to fit in target type");
    assert_eq!(ArgError::BadNumber("x1".into()).message(), "invalid digit found in string");
    // the same words as std's parser
    assert_eq!("".parse::<u32>().unwrap_err().to_string(), "cannot parse integer from empty string");
    assert_eq!("99999999999".parse::<u32>().unwrap_err().to_string(), "number too large to fit in target type");
    assert_eq!("x1".parse::<u32>().unwrap_err().to_string(), "invalid digit found in string");
}

fn args() -> SessionArgs {
    SessionArgs {
        user: "alice".into(),
        uid: 1000,
        gid: 100,
        home: "/home/alice".into(),
        shell: "/bin/bash".into(),
        tty: "/dev/tty2".into(),
        vtnr: 2,
        session_script: "/s.sh".into(),
    }
}

#[test]
fn registration_request_and_environment() {
    let c = create_session_call(&args(), 4242);
    assert_eq!(c.uid, 1000);
    assert_eq!(c.pid, 4242);
    assert_eq!(c.service, "writeonce-login");
    assert_eq!(c.seat_id, "seat0");
    assert_eq!(c.tty, "/dev/tty2");
    assert!(!c.remote);
    let env = build_env(&args(), "c3", "/run/user/1000").unwrap();
    assert_eq!(env[0], "USER=alice");
    assert_eq!(env[5], "XDG_SESSION_ID=c3");
    assert_eq!(env[6], "XDG_RUNTIME_DIR=/run/user/1000");
    assert_eq!(env.len(), 11);
    assert!(build_env(&args(), "c\0", "/run").is_none());
}

struct Scripted {
    seen: Vec<String>,
}

impl Conversation for Scripted {
    fn prompt_echo_off(&mut self, msg: &str) -> Option<String> {
        self.seen.push(format!("off:{msg}"));
        Some("secret".into())
    }
    fn prompt_echo_on(&mut self, msg: &str) -> Option<String> {
        self.seen.push(format!("on:{msg}"));
        Some("alice".into())
    }
    fn info(&mut self, msg: &str) {
        self.seen.push(format!("info:{msg}"));
    }
    fn error(&mut self, msg: &str) {
        self.seen.push(format!("error:{msg}"));
    }
}

#[test]
fn pam_messages_go_to_the_right_prompt() {
    let mut c = Scripted { seen: Vec::new() };
    assert_eq!(answer_message(&mut c, PAM_PROMPT_ECHO_OFF, "Password: "), Some("secret".into()));
    assert_eq!(answer_message(&mut c, PAM_PROMPT_ECHO_ON, "login: "), Some("alice".into()));
    assert_eq!(answer_message(&mut c, PAM_TEXT_INFO, "hello"), None);
    assert_eq!(answer_message(&mut c, PAM_ERROR_MSG, "bad"), None);
    assert_eq!(answer_message(&mut c, 99, "odd"), None);
    assert_eq!(c.seen, vec!["off:Password: ", "on:login: ", "info:hello", "error:bad"]);
}
