//! The post-login helper: it registers the session with the login manager,
//! then starts the session script as the user. Here are its arguments, the
//! registration request and the script's environment.
use vstd::prelude::*;
use crate::login::flow::{arg_views, session_create_argv_spec};
use crate::num::{lemma_parse_dec_digits, parse_nat, parse_u32, parse_u32_vec};
use crate::text::{chars_of, extend_str, string_from, vec_eq};

verus! {

/// What the helper was asked to start.
#[derive(Debug, Clone)]
pub struct SessionArgs {
    pub user: String,
    pub uid: u32,
    pub gid: u32,
    pub home: String,
    pub shell: String,
    pub tty: String,
    pub vtnr: u32,
    pub session_script: String,
}

/// Why the command line is refused.
#[derive(Debug, Clone, PartialEq, Eq)]
pub enum ArgError {
    /// The option (named here) is the last argument.
    MissingValue(String),
    /// A number option's value (here) is not a `u32`.
    BadNumber(String),
    /// An argument that is no option.
    Unknown(String),
    /// A required option (named here) was not given.
    Required(String),
}

/// What the command line asks for.
#[derive(Debug, Clone)]
pub enum SessionArgsOutcome {
    Run(SessionArgs),
    Help,
    Invalid(ArgError),
}

/// The options read so far.
pub struct ArgState {
    pub user: Option<Seq<char>>,
    pub uid: Option<u32>,
    pub gid: Option<u32>,
    pub home: Option<Seq<char>>,
    pub shell: Option<Seq<char>>,
    pub tty: Seq<char>,
    pub vtnr: u32,
    pub session_script: Option<Seq<char>>,
}

/// The mathematical value of an [`ArgError`].
pub enum ArgErrorModel {
    MissingValue(Seq<char>),
    BadNumber(Seq<char>),
    Unknown(Seq<char>),
    Required(Seq<char>),
}

/// The mathematical value of a [`SessionArgsOutcome`].
pub enum ArgsOutcomeModel {
    Run(ArgState),
    Help,
    Invalid(ArgErrorModel),
}

/// Before any argument: `/dev/tty1`, VT 1, nothing else.
pub open spec fn initial_state() -> ArgState {
    ArgState {
        user: None,
        uid: None,
        gid: None,
        home: None,
        shell: None,
        tty: "/dev/tty1"@,
        vtnr: 1,
        session_script: None,
    }
}

/// The options that take a value.
pub open spec fn is_value_option(a: Seq<char>) -> bool {
    a == "--user"@ || a == "--uid"@ || a == "--gid"@ || a == "--home"@ || a == "--shell"@
        || a == "--tty"@ || a == "--vtnr"@ || a == "--session-script"@
}

/// The state after the option `opt` with its value `v`; a number option
/// with a value that is not a `u32` refuses the line.
pub open spec fn set_option(st: ArgState, opt: Seq<char>, v: Seq<char>) -> Option<ArgState> {
    if opt == "--user"@ {
        Some(ArgState { user: Some(v), ..st })
    } else if opt == "--uid"@ {
        match parse_u32(v) {
            Some(n) => Some(ArgState { uid: Some(n), ..st }),
            None => None,
        }
    } else if opt == "--gid"@ {
        match parse_u32(v) {
            Some(n) => Some(ArgState { gid: Some(n), ..st }),
            None => None,
        }
    } else if opt == "--home"@ {
        Some(ArgState { home: Some(v), ..st })
    } else if opt == "--shell"@ {
        Some(ArgState { shell: Some(v), ..st })
    } else if opt == "--tty"@ {
        Some(ArgState { tty: v, ..st })
    } else if opt == "--vtnr"@ {
        match parse_u32(v) {
            Some(n) => Some(ArgState { vtnr: n, ..st }),
            None => None,
        }
    } else {
        Some(ArgState { session_script: Some(v), ..st })
    }
}

/// The first required option that is missing, in the order user, uid,
/// gid, home, shell, session script.
pub open spec fn first_missing(st: ArgState) -> Option<Seq<char>> {
    if st.user is None {
        Some("--user"@)
    } else if st.uid is None {
        Some("--uid"@)
    } else if st.gid is None {
        Some("--gid"@)
    } else if st.home is None {
        Some("--home"@)
    } else if st.shell is None {
        Some("--shell"@)
    } else if st.session_script is None {
        Some("--session-script"@)
    } else {
        None
    }
}

/// The command line from `argv[i]` on, as the helper reads it: each value
/// option takes the next argument (later ones win), `-h`/`--help` asks for
/// the usage, anything else is refused; at the end every required option
/// must have been given.
pub open spec fn session_args_from(argv: Seq<Seq<char>>, i: int, st: ArgState) -> ArgsOutcomeModel
    decreases argv.len() - i,
{
    if i < 0 || i >= argv.len() {
        match first_missing(st) {
            Some(opt) => ArgsOutcomeModel::Invalid(ArgErrorModel::Required(opt)),
            None => ArgsOutcomeModel::Run(st),
        }
    } else if is_value_option(argv[i]) {
        if i + 1 >= argv.len() {
            ArgsOutcomeModel::Invalid(ArgErrorModel::MissingValue(argv[i]))
        } else {
            match set_option(st, argv[i], argv[i + 1]) {
                Some(st2) => session_args_from(argv, i + 2, st2),
                None => ArgsOutcomeModel::Invalid(ArgErrorModel::BadNumber(argv[i + 1])),
            }
        }
    } else if argv[i] == "-h"@ || argv[i] == "--help"@ {
        ArgsOutcomeModel::Help
    } else {
        ArgsOutcomeModel::Invalid(ArgErrorModel::Unknown(argv[i]))
    }
}

proof fn lemma_option_names_distinct()
    ensures
        "--user"@ != "--uid"@,
        "--user"@ != "--gid"@,
        "--user"@ != "--home"@,
        "--user"@ != "--shell"@,
        "--user"@ != "--tty"@,
        "--user"@ != "--vtnr"@,
        "--user"@ != "--session-script"@,
        "--user"@ != "-h"@,
        "--user"@ != "--help"@,
        "--uid"@ != "--gid"@,
        "--uid"@ != "--home"@,
        "--uid"@ != "--shell"@,
        "--uid"@ != "--tty"@,
        "--uid"@ != "--vtnr"@,
        "--uid"@ != "--session-script"@,
        "--uid"@ != "-h"@,
        "--uid"@ != "--help"@,
        "--gid"@ != "--home"@,
        "--gid"@ != "--shell"@,
        "--gid"@ != "--tty"@,
        "--gid"@ != "--vtnr"@,
        "--gid"@ != "--session-script"@,
        "--gid"@ != "-h"@,
        "--gid"@ != "--help"@,
        "--home"@ != "--shell"@,
        "--home"@ != "--tty"@,
        "--home"@ != "--vtnr"@,
        "--home"@ != "--session-script"@,
        "--home"@ != "-h"@,
        "--home"@ != "--help"@,
        "--shell"@ != "--tty"@,
        "--shell"@ != "--vtnr"@,
        "--shell"@ != "--session-script"@,
        "--shell"@ != "-h"@,
        "--shell"@ != "--help"@,
        "--tty"@ != "--vtnr"@,
        "--tty"@ != "--session-script"@,
        "--tty"@ != "-h"@,
        "--tty"@ != "--help"@,
        "--vtnr"@ != "--session-script"@,
        "--vtnr"@ != "-h"@,
        "--vtnr"@ != "--help"@,
        "--session-script"@ != "-h"@,
        "--session-script"@ != "--help"@,
        "-h"@ != "--help"@,
{
    reveal_strlit("--user");
    reveal_strlit("--uid");
    reveal_strlit("--gid");
    reveal_strlit("--home");
    reveal_strlit("--shell");
    reveal_strlit("--tty");
    reveal_strlit("--vtnr");
    reveal_strlit("--session-script");
    reveal_strlit("-h");
    reveal_strlit("--help");
    assert("--user"@.len() != "--uid"@.len());
    assert("--user"@.len() != "--gid"@.len());
    assert("--user"@[2] != "--home"@[2]);
    assert("--user"@.len() != "--shell"@.len());
    assert("--user"@.len() != "--tty"@.len());
    assert("--user"@[2] != "--vtnr"@[2]);
    assert("--user"@.len() != "--session-script"@.len());
    assert("--user"@.len() != "-h"@.len());
    assert("--user"@[2] != "--help"@[2]);
    assert("--uid"@[2] != "--gid"@[2]);
    assert("--uid"@.len() != "--home"@.len());
    assert("--uid"@.len() != "--shell"@.len());
    assert("--uid"@[2] != "--tty"@[2]);
    assert("--uid"@.len() != "--vtnr"@.len());
    assert("--uid"@.len() != "--session-script"@.len());
    assert("--uid"@.len() != "-h"@.len());
    assert("--uid"@.len() != "--help"@.len());
    assert("--gid"@.len() != "--home"@.len());
    assert("--gid"@.len() != "--shell"@.len());
    assert("--gid"@[2] != "--tty"@[2]);
    assert("--gid"@.len() != "--vtnr"@.len());
    assert("--gid"@.len() != "--session-script"@.len());
    assert("--gid"@.len() != "-h"@.len());
    assert("--gid"@.len() != "--help"@.len());
    assert("--home"@.len() != "--shell"@.len());
    assert("--home"@.len() != "--tty"@.len());
    assert("--home"@[2] != "--vtnr"@[2]);
    assert("--home"@.len() != "--session-script"@.len());
    assert("--home"@.len() != "-h"@.len());
    assert("--home"@[3] != "--help"@[3]);
    assert("--shell"@.len() != "--tty"@.len());
    assert("--shell"@.len() != "--vtnr"@.len());
    assert("--shell"@.len() != "--session-script"@.len());
    assert("--shell"@.len() != "-h"@.len());
    assert("--shell"@.len() != "--help"@.len());
    assert("--tty"@.len() != "--vtnr"@.len());
    assert("--tty"@.len() != "--session-script"@.len());
    assert("--tty"@.len() != "-h"@.len());
    assert("--tty"@.len() != "--help"@.len());
    assert("--vtnr"@.len() != "--session-script"@.len());
    assert("--vtnr"@.len() != "-h"@.len());
    assert("--vtnr"@[2] != "--help"@[2]);
    assert("--session-script"@.len() != "-h"@.len());
    assert("--session-script"@.len() != "--help"@.len());
    assert("-h"@.len() != "--help"@.len());
}

/// The options read so far, as the loop below keeps them.
struct ArgsSoFar {
    user: Option<String>,
    uid: Option<u32>,
    gid: Option<u32>,
    home: Option<String>,
    shell: Option<String>,
    tty: String,
    vtnr: u32,
    session_script: Option<String>,
}

impl ArgsSoFar {
    spec fn model(&self) -> ArgState {
        ArgState {
            user: match self.user { Some(s) => Some(s@), None => None },
            uid: self.uid,
            gid: self.gid,
            home: match self.home { Some(s) => Some(s@), None => None },
            shell: match self.shell { Some(s) => Some(s@), None => None },
            tty: self.tty@,
            vtnr: self.vtnr,
            session_script: match self.session_script { Some(s) => Some(s@), None => None },
        }
    }
}

impl ArgError {
    /// The mathematical value of the error.
    pub open spec fn model(&self) -> ArgErrorModel {
        match self {
            ArgError::MissingValue(s) => ArgErrorModel::MissingValue(s@),
            ArgError::BadNumber(s) => ArgErrorModel::BadNumber(s@),
            ArgError::Unknown(s) => ArgErrorModel::Unknown(s@),
            ArgError::Required(s) => ArgErrorModel::Required(s@),
        }
    }

    /// The message printed for the error, in std's words for a number
    /// that does not parse.
    pub fn message(&self) -> (m: String)
        ensures
            self matches ArgError::MissingValue(o) ==> m@ == o@ + " requires a value"@,
            self matches ArgError::Unknown(a) ==> m@ == "unknown argument: "@ + a@,
            self matches ArgError::Required(o) ==> m@ == o@ + " is required"@,
            self matches ArgError::BadNumber(v) ==> m@ == (if v@.len() == 0 {
                "cannot parse integer from empty string"@
            } else if parse_nat(v@) is Some {
                "number too large to fit in target type"@
            } else {
                "invalid digit found in string"@
            }),
    {
        match self {
            ArgError::MissingValue(o) => {
                let mut v = chars_of(o.as_str());
                extend_str(&mut v, " requires a value");
                string_from(&v)
            },
            ArgError::Unknown(a) => {
                let mut v = chars_of("unknown argument: ");
                extend_str(&mut v, a.as_str());
                string_from(&v)
            },
            ArgError::Required(o) => {
                let mut v = chars_of(o.as_str());
                extend_str(&mut v, " is required");
                string_from(&v)
            },
            ArgError::BadNumber(t) => {
                let tv = chars_of(t.as_str());
                if tv.len() == 0 {
                    String::from_str("cannot parse integer from empty string")
                } else if crate::num::parse_u64_vec(&tv).is_some() || digits_only(&tv) {
                    String::from_str("number too large to fit in target type")
                } else {
                    String::from_str("invalid digit found in string")
                }
            },
        }
    }
}

/// Whether `v` has the shape of an unsigned number (an optional `+`, then
/// only digits, at least one), whatever its size.
fn digits_only(v: &Vec<char>) -> (b: bool)
    ensures
        b == (parse_nat(v@) is Some),
{
    let start: usize = if v.len() > 0 && v[0] == '+' { 1 } else { 0 };
    if start >= v.len() {
        return false;
    }
    let mut i = start;
    while i < v.len()
        invariant
            start <= i <= v.len(),
            start == (if v@.len() > 0 && v@[0] == '+' { 1int } else { 0int }),
            forall|j: int| start <= j < i ==> crate::text::is_digit(#[trigger] v@[j]),
        decreases v.len() - i,
    {
        if !('0' <= v[i] && v[i] <= '9') {
            let ghost body = crate::num::unsigned_body(v@);
            assert(body[i - start] == v@[i as int]);
            return false;
        }
        i = i + 1;
    }
    let ghost body = crate::num::unsigned_body(v@);
    assert(forall|j: int| 0 <= j < body.len() ==> body[j] == v@[j + start]);
    true
}

impl SessionArgsOutcome {
    /// The mathematical value of the outcome.
    pub open spec fn model(&self) -> ArgsOutcomeModel {
        match self {
            SessionArgsOutcome::Run(a) => ArgsOutcomeModel::Run(
                ArgState {
                    user: Some(a.user@),
                    uid: Some(a.uid),
                    gid: Some(a.gid),
                    home: Some(a.home@),
                    shell: Some(a.shell@),
                    tty: a.tty@,
                    vtnr: a.vtnr,
                    session_script: Some(a.session_script@),
                },
            ),
            SessionArgsOutcome::Help => ArgsOutcomeModel::Help,
            SessionArgsOutcome::Invalid(e) => ArgsOutcomeModel::Invalid(e.model()),
        }
    }
}

/// Reads the helper's command line (the program name first), as
/// [`session_args_from`] says.
pub fn parse_args(argv: &Vec<String>) -> (r: SessionArgsOutcome)
    ensures
        r.model() == session_args_from(arg_views(argv@), 1, initial_state()),
{
    let ghost av = arg_views(argv@);
    let mut st = ArgsSoFar {
        user: None,
        uid: None,
        gid: None,
        home: None,
        shell: None,
        tty: String::from_str("/dev/tty1"),
        vtnr: 1,
        session_script: None,
    };
    let mut i: usize = 1;
    let o_user = chars_of("--user");
    let o_uid = chars_of("--uid");
    let o_gid = chars_of("--gid");
    let o_home = chars_of("--home");
    let o_shell = chars_of("--shell");
    let o_tty = chars_of("--tty");
    let o_vtnr = chars_of("--vtnr");
    let o_script = chars_of("--session-script");
    let o_h = chars_of("-h");
    let o_help = chars_of("--help");
    while i < argv.len()
        invariant
            1 <= i,
            av == arg_views(argv@),
            o_user@ == "--user"@,
            o_uid@ == "--uid"@,
            o_gid@ == "--gid"@,
            o_home@ == "--home"@,
            o_shell@ == "--shell"@,
            o_tty@ == "--tty"@,
            o_vtnr@ == "--vtnr"@,
            o_script@ == "--session-script"@,
            o_h@ == "-h"@,
            o_help@ == "--help"@,
            session_args_from(av, 1, initial_state()) == session_args_from(av, i as int, st.model()),
        decreases argv.len() - i,
    {
        proof {
            lemma_option_names_distinct();
        }
        let a = chars_of(argv[i].as_str());
        let is_user = vec_eq(&a, &o_user);
        let is_uid = vec_eq(&a, &o_uid);
        let is_gid = vec_eq(&a, &o_gid);
        let is_home = vec_eq(&a, &o_home);
        let is_shell = vec_eq(&a, &o_shell);
        let is_tty = vec_eq(&a, &o_tty);
        let is_vtnr = vec_eq(&a, &o_vtnr);
        let is_script = vec_eq(&a, &o_script);
        if is_user || is_uid || is_gid || is_home || is_shell || is_tty || is_vtnr || is_script {
            if i + 1 >= argv.len() {
                return SessionArgsOutcome::Invalid(ArgError::MissingValue(argv[i].clone()));
            }
            let v = &argv[i + 1];
            assert(av[i as int] == a@);
            assert(av[i + 1] == v@);
            assert(is_value_option(av[i as int]));
            let ghost next = set_option(st.model(), av[i as int], av[i + 1]);
            if is_uid || is_gid || is_vtnr {
                match parse_u32_vec(&chars_of(v.as_str())) {
                    Some(n) => {
                        if is_uid {
                            st.uid = Some(n);
                        } else if is_gid {
                            st.gid = Some(n);
                        } else {
                            st.vtnr = n;
                        }
                    },
                    None => {
                        return SessionArgsOutcome::Invalid(ArgError::BadNumber(v.clone()));
                    },
                }
            } else if is_user {
                st.user = Some(v.clone());
            } else if is_home {
                st.home = Some(v.clone());
            } else if is_shell {
                st.shell = Some(v.clone());
            } else if is_tty {
                st.tty = v.clone();
            } else {
                st.session_script = Some(v.clone());
            }
            assert(next == Some(st.model()));
            i = i + 2;
        } else if vec_eq(&a, &o_h) || vec_eq(&a, &o_help) {
            return SessionArgsOutcome::Help;
        } else {
            return SessionArgsOutcome::Invalid(ArgError::Unknown(argv[i].clone()));
        }
    }
    match (st.user, st.uid, st.gid, st.home, st.shell, st.session_script) {
        (Some(user), Some(uid), Some(gid), Some(home), Some(shell), Some(session_script)) => {
            SessionArgsOutcome::Run(
                SessionArgs { user, uid, gid, home, shell, tty: st.tty, vtnr: st.vtnr, session_script },
            )
        },
        (None, _, _, _, _, _) => SessionArgsOutcome::Invalid(ArgError::Required(String::from_str("--user"))),
        (_, None, _, _, _, _) => SessionArgsOutcome::Invalid(ArgError::Required(String::from_str("--uid"))),
        (_, _, None, _, _, _) => SessionArgsOutcome::Invalid(ArgError::Required(String::from_str("--gid"))),
        (_, _, _, None, _, _) => SessionArgsOutcome::Invalid(ArgError::Required(String::from_str("--home"))),
        (_, _, _, _, None, _) => SessionArgsOutcome::Invalid(ArgError::Required(String::from_str("--shell"))),
        (_, _, _, _, _, None) => SessionArgsOutcome::Invalid(
            ArgError::Required(String::from_str("--session-script")),
        ),
    }
}

/// The `CreateSession` call that registers the helper's session: the
/// user's uid, the helper's PID, service `writeonce-login`, type `tty`,
/// class `user`, seat `seat0`, the VT and terminal; no desktop, display or
/// remote origin.
#[derive(Debug, Clone)]
pub struct CreateSessionCall {
    pub uid: u32,
    pub pid: u32,
    pub service: String,
    pub session_type: String,
    pub class: String,
    pub desktop: String,
    pub seat_id: String,
    pub vtnr: u32,
    pub tty: String,
    pub display: String,
    pub remote: bool,
    pub remote_user: String,
    pub remote_host: String,
}

/// The registration request for the session of `args`, made by process
/// `pid`.
pub fn create_session_call(args: &SessionArgs, pid: u32) -> (c: CreateSessionCall)
    ensures
        c.uid == args.uid,
        c.pid == pid,
        c.service@ == "writeonce-login"@,
        c.session_type@ == "tty"@,
        c.class@ == "user"@,
        c.desktop@ == Seq::<char>::empty(),
        c.seat_id@ == "seat0"@,
        c.vtnr == args.vtnr,
        c.tty@ == args.tty@,
        c.display@ == Seq::<char>::empty(),
        !c.remote,
        c.remote_user@ == Seq::<char>::empty(),
        c.remote_host@ == Seq::<char>::empty(),
{
    CreateSessionCall {
        uid: args.uid,
        pid,
        service: String::from_str("writeonce-login"),
        session_type: String::from_str("tty"),
        class: String::from_str("user"),
        desktop: String::new(),
        seat_id: String::from_str("seat0"),
        vtnr: args.vtnr,
        tty: args.tty.clone(),
        display: String::new(),
        remote: false,
        remote_user: String::new(),
        remote_host: String::new(),
    }
}

/// The session script's environment.
pub open spec fn session_env_spec(
    user: Seq<char>,
    home: Seq<char>,
    shell: Seq<char>,
    session_id: Seq<char>,
    runtime_path: Seq<char>,
) -> Seq<Seq<char>> {
    seq![
        "USER="@ + user,
        "LOGNAME="@ + user,
        "HOME="@ + home,
        "SHELL="@ + shell,
        "PATH=/run/current-system/sw/bin:/usr/local/bin:/usr/bin:/bin"@,
        "XDG_SESSION_ID="@ + session_id,
        "XDG_RUNTIME_DIR="@ + runtime_path,
        "XDG_SESSION_CLASS=user"@,
        "XDG_SESSION_TYPE=tty"@,
        "TERM=linux"@,
        "LANG=C.UTF-8"@,
    ]
}

/// Some entry holds a NUL character, which no C string can carry.
pub open spec fn has_nul(v: Seq<Seq<char>>) -> bool {
    exists|i: int, j: int| 0 <= i < v.len() && 0 <= j < v[i].len() && v[i][j] == '\0'
}

fn joined(key: &str, value: &str) -> (r: String)
    ensures
        r@ == key@ + value@,
{
    let mut v = chars_of(key);
    extend_str(&mut v, value);
    string_from(&v)
}

fn find_nul(v: &Vec<String>) -> (b: bool)
    ensures
        b == has_nul(arg_views(v@)),
{
    let ghost av = arg_views(v@);
    let mut i: usize = 0;
    while i < v.len()
        invariant
            i <= v.len(),
            av == arg_views(v@),
            forall|a: int, b: int| 0 <= a < i && 0 <= b < av[a].len() ==> av[a][b] != '\0',
        decreases v.len() - i,
    {
        let s = chars_of(v[i].as_str());
        let mut j: usize = 0;
        while j < s.len()
            invariant
                j <= s.len(),
                i < v.len(),
                av == arg_views(v@),
                s@ == av[i as int],
                forall|b: int| 0 <= b < j ==> s@[b] != '\0',
            decreases s.len() - j,
        {
            if s[j] == '\0' {
                return true;
            }
            j = j + 1;
        }
        i = i + 1;
    }
    false
}

/// The session script's environment, or `None` when a value holds a NUL
/// character (the helper then refuses to start: "env contains NUL byte").
pub fn build_env(args: &SessionArgs, session_id: &str, runtime_path: &str) -> (r: Option<
    Vec<String>,
>)
    ensures
        ({
            let want = session_env_spec(args.user@, args.home@, args.shell@, session_id@, runtime_path@);
            match r {
                Some(v) => arg_views(v@) == want && !has_nul(want),
                None => has_nul(want),
            }
        }),
{
    let env = vec![
        joined("USER=", args.user.as_str()),
        joined("LOGNAME=", args.user.as_str()),
        joined("HOME=", args.home.as_str()),
        joined("SHELL=", args.shell.as_str()),
        String::from_str("PATH=/run/current-system/sw/bin:/usr/local/bin:/usr/bin:/bin"),
        joined("XDG_SESSION_ID=", session_id),
        joined("XDG_RUNTIME_DIR=", runtime_path),
        String::from_str("XDG_SESSION_CLASS=user"),
        String::from_str("XDG_SESSION_TYPE=tty"),
        String::from_str("TERM=linux"),
        String::from_str("LANG=C.UTF-8"),
    ];
    assert(arg_views(env@) =~= session_env_spec(
        args.user@,
        args.home@,
        args.shell@,
        session_id@,
        runtime_path@,
    ));
    if find_nul(&env) {
        None
    } else {
        Some(env)
    }
}

/// The helper reads back every value the console login hands it: the
/// command line the login builds for a session yields exactly that user,
/// those numbers, home, shell, terminal, VT and script.
pub proof fn lemma_session_args_roundtrip(
    user: Seq<char>,
    uid: u32,
    gid: u32,
    home: Seq<char>,
    shell: Seq<char>,
    tty: Seq<char>,
    vtnr: u32,
    script: Seq<char>,
)
    ensures
        session_args_from(
            session_create_argv_spec(user, uid, gid, home, shell, tty, vtnr, script),
            1,
            initial_state(),
        ) == ArgsOutcomeModel::Run(
            ArgState {
                user: Some(user),
                uid: Some(uid),
                gid: Some(gid),
                home: Some(home),
                shell: Some(shell),
                tty,
                vtnr,
                session_script: Some(script),
            },
        ),
{
    lemma_option_names_distinct();
    lemma_parse_dec_digits(uid as nat);
    lemma_parse_dec_digits(gid as nat);
    lemma_parse_dec_digits(vtnr as nat);
    let argv = session_create_argv_spec(user, uid, gid, home, shell, tty, vtnr, script);
    reveal_with_fuel(session_args_from, 10);
    assert(argv.len() == 17);
}

} // verus!
