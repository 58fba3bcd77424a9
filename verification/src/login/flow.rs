//! The console login's decisions between its terminal reads and writes:
//! its arguments, the banner, PAM's prompts, and the command line that hands
//! the session to the session helper.
use vstd::prelude::*;
use crate::login::config::Config;
use crate::num::{dec_digits, push_decimal};
use crate::text::{chars_of, extend_str, slice, string_from, vec_eq};

verus! {

/// The terminal when no `--tty` is given.
pub const DEFAULT_TTY: &'static str = "/dev/tty1";

/// The helper that asks the login manager for the session and starts it.
pub const SESSION_CREATE_PATH: &'static str = "/usr/sbin/writeonce-session-create";

/// What the command line asks for.
#[derive(Debug, Clone, PartialEq, Eq)]
pub enum TtyArgs {
    /// Run on `tty` with the configuration file `config`.
    Run { tty: String, config: String },
    /// Print the usage and exit successfully.
    Help,
    /// Refuse the command line with this message.
    Invalid(String),
}

/// The mathematical value of [`TtyArgs`].
pub enum TtyArgsModel {
    Run { tty: Seq<char>, config: Seq<char> },
    Help,
    Invalid(Seq<char>),
}

impl View for TtyArgs {
    type V = TtyArgsModel;

    open spec fn view(&self) -> TtyArgsModel {
        match self {
            TtyArgs::Run { tty, config } => TtyArgsModel::Run { tty: tty@, config: config@ },
            TtyArgs::Help => TtyArgsModel::Help,
            TtyArgs::Invalid(m) => TtyArgsModel::Invalid(m@),
        }
    }
}

/// The arguments from `argv[i]` on, `tty` and `config` holding what the
/// earlier ones set: `--tty PATH` and `--config PATH` set a value (which
/// must be there), `-h`/`--help` asks for the usage, anything else is
/// refused; the first decision wins.
pub open spec fn args_from(argv: Seq<Seq<char>>, i: int, tty: Seq<char>, config: Seq<char>) -> TtyArgsModel
    decreases argv.len() - i,
{
    if i < 0 || i >= argv.len() {
        TtyArgsModel::Run { tty, config }
    } else if argv[i] == "--tty"@ {
        if i + 1 >= argv.len() {
            TtyArgsModel::Invalid("--tty requires a value"@)
        } else {
            args_from(argv, i + 2, argv[i + 1], config)
        }
    } else if argv[i] == "--config"@ {
        if i + 1 >= argv.len() {
            TtyArgsModel::Invalid("--config requires a value"@)
        } else {
            args_from(argv, i + 2, tty, argv[i + 1])
        }
    } else if argv[i] == "-h"@ || argv[i] == "--help"@ {
        TtyArgsModel::Help
    } else {
        TtyArgsModel::Invalid("unknown argument: "@ + argv[i])
    }
}

/// The views of a list of strings.
pub open spec fn arg_views(v: Seq<String>) -> Seq<Seq<char>> {
    v.map_values(|s: String| s@)
}

/// Reads `argv` (the program name first) as [`args_from`] says, starting
/// from `/dev/tty1` and `default_config`.
pub fn parse_tty_args(argv: &Vec<String>, default_config: &str) -> (r: TtyArgs)
    ensures
        r@ == args_from(arg_views(argv@), 1, DEFAULT_TTY@, default_config@),
{
    let ghost av = arg_views(argv@);
    let mut tty = String::from_str(DEFAULT_TTY);
    let mut config = String::from_str(default_config);
    let mut i: usize = 1;
    let t_opt = chars_of("--tty");
    let c_opt = chars_of("--config");
    let h_short = chars_of("-h");
    let h_long = chars_of("--help");
    while i < argv.len()
        invariant
            1 <= i,
            av == arg_views(argv@),
            t_opt@ == "--tty"@,
            c_opt@ == "--config"@,
            h_short@ == "-h"@,
            h_long@ == "--help"@,
            args_from(av, 1, DEFAULT_TTY@, default_config@) == args_from(av, i as int, tty@, config@),
        decreases argv.len() - i,
    {
        let a = chars_of(argv[i].as_str());
        if vec_eq(&a, &t_opt) {
            if i + 1 >= argv.len() {
                return TtyArgs::Invalid(String::from_str("--tty requires a value"));
            }
            tty = argv[i + 1].clone();
            i = i + 2;
        } else if vec_eq(&a, &c_opt) {
            if i + 1 >= argv.len() {
                return TtyArgs::Invalid(String::from_str("--config requires a value"));
            }
            config = argv[i + 1].clone();
            i = i + 2;
        } else if vec_eq(&a, &h_short) || vec_eq(&a, &h_long) {
            return TtyArgs::Help;
        } else {
            let mut m = chars_of("unknown argument: ");
            extend_str(&mut m, argv[i].as_str());
            return TtyArgs::Invalid(string_from(&m));
        }
    }
    TtyArgs::Run { tty, config }
}

/// The console banner: a blank line, the welcome line, `<host> tty login`.
pub fn render_banner(cfg: &Config, host: &str) -> (r: String)
    ensures
        r@ == "\n"@ + cfg.welcome@ + "\n"@ + host@ + " tty login\n"@,
{
    let mut out = chars_of("\n");
    extend_str(&mut out, cfg.welcome.as_str());
    extend_str(&mut out, "\n");
    extend_str(&mut out, host);
    extend_str(&mut out, " tty login\n");
    string_from(&out)
}

/// A line as read from the terminal without the `\r` and `\n` characters
/// that end it (`trim_end_matches(['\r', '\n'])`).
pub open spec fn strip_line_end(s: Seq<char>) -> Seq<char>
    decreases s.len(),
{
    if s.len() > 0 && (s.last() == '\r' || s.last() == '\n') {
        strip_line_end(s.drop_last())
    } else {
        s
    }
}

/// The typed line without its line ending.
pub fn line_without_end(line: &str) -> (r: String)
    ensures
        r@ == strip_line_end(line@),
{
    let v = chars_of(line);
    let mut k: usize = v.len();
    assert(v@.take(k as int) =~= v@);
    while k > 0 && (v[k - 1] == '\r' || v[k - 1] == '\n')
        invariant
            k <= v.len(),
            strip_line_end(v@) == strip_line_end(v@.take(k as int)),
        decreases k,
    {
        assert(v@.take(k as int).drop_last() =~= v@.take(k - 1));
        k = k - 1;
    }
    let r = slice(&v, 0, k);
    assert(r@ =~= v@.take(k as int));
    string_from(&r)
}

/// The arguments that start the session helper as root for `user`: the
/// account's numbers, home and shell, the terminal and its VT number, and
/// the script the session runs.
pub open spec fn session_create_argv_spec(
    user: Seq<char>,
    uid: u32,
    gid: u32,
    home: Seq<char>,
    shell: Seq<char>,
    tty_path: Seq<char>,
    vtnr: u32,
    session_script: Seq<char>,
) -> Seq<Seq<char>> {
    seq![
        "writeonce-session-create"@,
        "--user"@, user,
        "--uid"@, dec_digits(uid as nat),
        "--gid"@, dec_digits(gid as nat),
        "--home"@, home,
        "--shell"@, shell,
        "--tty"@, tty_path,
        "--vtnr"@, dec_digits(vtnr as nat),
        "--session-script"@, session_script,
    ]
}

fn decimal(n: u32) -> (s: String)
    ensures
        s@ == dec_digits(n as nat),
{
    let mut v: Vec<char> = Vec::new();
    push_decimal(&mut v, n as u64);
    assert(v@ =~= dec_digits(n as nat));
    string_from(&v)
}

/// The session helper's arguments, as [`session_create_argv_spec`] says.
pub fn session_create_argv(
    user: &str,
    uid: u32,
    gid: u32,
    home: &str,
    shell: &str,
    tty_path: &str,
    vtnr: u32,
    session_script: &str,
) -> (r: Vec<String>)
    ensures
        arg_views(r@) == session_create_argv_spec(
            user@,
            uid,
            gid,
            home@,
            shell@,
            tty_path@,
            vtnr,
            session_script@,
        ),
{
    let r = vec![
        String::from_str("writeonce-session-create"),
        String::from_str("--user"),
        String::from_str(user),
        String::from_str("--uid"),
        decimal(uid),
        String::from_str("--gid"),
        decimal(gid),
        String::from_str("--home"),
        String::from_str(home),
        String::from_str("--shell"),
        String::from_str(shell),
        String::from_str("--tty"),
        String::from_str(tty_path),
        String::from_str("--vtnr"),
        decimal(vtnr),
        String::from_str("--session-script"),
        String::from_str(session_script),
    ];
    assert(arg_views(r@) =~= session_create_argv_spec(
        user@,
        uid,
        gid,
        home@,
        shell@,
        tty_path@,
        vtnr,
        session_script@,
    ));
    r
}

/// The session helper's own environment (it builds the user's later).
pub fn session_create_env() -> (r: Vec<String>)
    ensures
        arg_views(r@) == seq!["PATH=/usr/sbin:/usr/bin:/sbin:/bin"@, "RUST_LOG=info"@],
{
    let r = vec![
        String::from_str("PATH=/usr/sbin:/usr/bin:/sbin:/bin"),
        String::from_str("RUST_LOG=info"),
    ];
    assert(arg_views(r@) =~= seq!["PATH=/usr/sbin:/usr/bin:/sbin:/bin"@, "RUST_LOG=info"@]);
    r
}

/// PAM's message styles.
pub const PAM_PROMPT_ECHO_OFF: i32 = 1;
pub const PAM_PROMPT_ECHO_ON: i32 = 2;
pub const PAM_ERROR_MSG: i32 = 3;
pub const PAM_TEXT_INFO: i32 = 4;

/// libpam's transaction handle (`pam_handle_t`): opaque, only ever seen
/// behind a pointer that libpam hands out.
#[allow(non_camel_case_types)]
pub struct pam_handle {
    _opaque: (),
}

/// How the login talks to PAM: each prompt is shown on the terminal and
/// answered by the user.
///
/// An implementation may keep a record of what it has been handed
/// (`keeps_record` true, `shown` the record): each message with the PAM
/// style it was handed under. Such an implementation adds the message of
/// each call to the record and nothing else. By default nothing is
/// recorded, and the methods promise nothing.
pub trait Conversation {
    /// Whether this conversation keeps the record `shown`.
    open spec fn keeps_record(&self) -> bool {
        false
    }

    /// The messages handed to the conversation so far, each with its style.
    open spec fn shown(&self) -> Seq<(i32, Seq<char>)> {
        Seq::empty()
    }

    /// A prompt whose answer is not echoed (the password).
    fn prompt_echo_off(&mut self, msg: &str) -> (r: Option<String>)
        ensures
            old(self).keeps_record() ==> final(self).keeps_record() && final(self).shown()
                == old(self).shown().push((PAM_PROMPT_ECHO_OFF, msg@)),
    ;

    /// A prompt whose answer is echoed.
    fn prompt_echo_on(&mut self, msg: &str) -> (r: Option<String>)
        ensures
            old(self).keeps_record() ==> final(self).keeps_record() && final(self).shown()
                == old(self).shown().push((PAM_PROMPT_ECHO_ON, msg@)),
    ;

    /// A message to show.
    fn info(&mut self, msg: &str)
        ensures
            old(self).keeps_record() ==> final(self).keeps_record() && final(self).shown()
                == old(self).shown().push((PAM_TEXT_INFO, msg@)),
    ;

    /// An error to show.
    fn error(&mut self, msg: &str)
        ensures
            old(self).keeps_record() ==> final(self).keeps_record() && final(self).shown()
                == old(self).shown().push((PAM_ERROR_MSG, msg@)),
    ;
}

/// The styles a conversation is handed: the two prompts and the two
/// messages.
pub open spec fn handed_style(style: i32) -> bool {
    style == PAM_PROMPT_ECHO_OFF || style == PAM_PROMPT_ECHO_ON || style == PAM_TEXT_INFO
        || style == PAM_ERROR_MSG
}

/// The answer to one PAM message: the two prompt styles ask the
/// conversation; the message styles only show the text; an unknown style
/// is not answered and not shown.
pub fn answer_message<C: Conversation>(conv: &mut C, style: i32, text: &str) -> (r: Option<String>)
    ensures
        old(conv).keeps_record() && handed_style(style) ==> final(conv).keeps_record()
            && final(conv).shown() == old(conv).shown().push((style, text@)),
        old(conv).keeps_record() && !handed_style(style) ==> final(conv).keeps_record()
            && final(conv).shown() == old(conv).shown(),
        (style != PAM_PROMPT_ECHO_OFF && style != PAM_PROMPT_ECHO_ON) ==> r is None,
{
    if style == PAM_PROMPT_ECHO_OFF {
        conv.prompt_echo_off(text)
    } else if style == PAM_PROMPT_ECHO_ON {
        conv.prompt_echo_on(text)
    } else if style == PAM_TEXT_INFO {
        conv.info(text);
        None
    } else if style == PAM_ERROR_MSG {
        conv.error(text);
        None
    } else {
        None
    }
}

} // verus!
