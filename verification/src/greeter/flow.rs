//! The greeter's decisions between its terminal reads and writes: the menu,
//! the default and chosen session, the PAM hints, the session's environment
//! and command line.
use vstd::prelude::*;
use crate::greeter::config::Config;
use crate::greeter::sessions::{primary_desktop_of, Session, SessionKind, SessionModel};
use crate::num::{dec_digits, parse_u32, parse_u32_vec, parse_usize, parse_usize_vec, push_decimal};
use crate::text::{
    chars_of, extend, extend_str, slice, starts_with, string_from, string_of, strip_prefix, trim,
    trim_vec, vec_eq, vec_starts_with,
};

verus! {

/// The user asked for when the operator just presses Enter.
pub const DEFAULT_USER: &'static str = "writeonce";

/// Login shell when the account names none.
pub const FALLBACK_SHELL: &'static str = "/bin/bash";

/// The account the session runs as, as the password database gives it.
pub struct UserInfo {
    pub name: String,
    pub uid: u32,
    pub gid: u32,
    pub home: String,
    pub shell: String,
}

/// `s` without `prefix`, or all of `s` when it does not start with it.
pub open spec fn strip_or_keep(s: Seq<char>, prefix: Seq<char>) -> Seq<char> {
    match strip_prefix(s, prefix) {
        Some(r) => r,
        None => s,
    }
}

/// The terminal's name for PAM: the path without `/dev/`.
pub fn tty_name(tty_path: &str) -> (r: String)
    ensures
        r@ == strip_or_keep(tty_path@, "/dev/"@),
{
    let v = chars_of(tty_path);
    let p = chars_of("/dev/");
    if vec_starts_with(&v, &p) {
        string_of(&v, p.len(), v.len())
    } else {
        String::from_str(tty_path)
    }
}

/// The virtual terminal number of a `/dev/ttyN` path; 0 for anything else.
pub open spec fn vtnr_spec(tty_path: Seq<char>) -> u32 {
    match strip_prefix(tty_path, "/dev/tty"@) {
        Some(rest) => match parse_u32(rest) {
            Some(n) => n,
            None => 0,
        },
        None => 0,
    }
}

/// The virtual terminal number of a `/dev/ttyN` path; 0 for anything else
/// (a serial console, say).
pub fn vtnr_from(tty_path: &str) -> (n: u32)
    ensures
        n == vtnr_spec(tty_path@),
{
    let v = chars_of(tty_path);
    let p = chars_of("/dev/tty");
    if vec_starts_with(&v, &p) {
        let rest = slice(&v, p.len(), v.len());
        assert(rest@ =~= v@.skip(p@.len() as int));
        match parse_u32_vec(&rest) {
            Some(n) => n,
            None => 0,
        }
    } else {
        0
    }
}

/// The user name typed at the prompt: trimmed, or the default user when
/// nothing was typed.
pub fn username_from_line(line: &str) -> (r: String)
    ensures
        r@ == (if trim(line@).len() > 0 { trim(line@) } else { DEFAULT_USER@ }),
{
    let t = trim_vec(&chars_of(line));
    if t.len() > 0 {
        string_from(&t)
    } else {
        String::from_str(DEFAULT_USER)
    }
}

/// The home and login shell the menu is built for: the account's, or `/`
/// and `/bin/bash` for an unknown user (authentication fails later, and
/// nothing tells which users exist).
pub fn menu_home_and_shell(user: Option<&UserInfo>) -> (r: (String, String))
    ensures
        match user {
            Some(u) => r.0@ == u.home@ && r.1@ == u.shell@,
            None => r.0@ == "/"@ && r.1@ == FALLBACK_SHELL@,
        },
{
    match user {
        Some(u) => (u.home.clone(), u.shell.clone()),
        None => (String::from_str("/"), String::from_str(FALLBACK_SHELL)),
    }
}

/// The login shell an account names, or `/bin/bash` when it names none.
pub fn login_shell_or_default(shell: &str) -> (r: String)
    ensures
        r@ == (if shell@.len() == 0 { FALLBACK_SHELL@ } else { shell@ }),
{
    if shell.is_empty() {
        String::from_str(FALLBACK_SHELL)
    } else {
        String::from_str(shell)
    }
}

/// The views of the menu's sessions.
pub open spec fn menu_views(menu: Seq<Session>) -> Seq<SessionModel> {
    menu.map_values(|s: Session| s@)
}

/// Index of the first session named `w`.
pub open spec fn first_named(menu: Seq<SessionModel>, w: Seq<char>) -> Option<int> {
    if exists|i: int| 0 <= i < menu.len() && menu[i].name == w {
        Some(choose|i: int| 0 <= i < menu.len() && menu[i].name == w && forall|j: int|
            0 <= j < i ==> menu[j].name != w)
    } else {
        None
    }
}

/// The session the menu highlights: the remembered one, else the
/// configured default (when set); 0 when that name is not on the menu.
pub open spec fn default_index_spec(
    menu: Seq<SessionModel>,
    remembered: Option<Seq<char>>,
    default_session: Seq<char>,
) -> int {
    let want = match remembered {
        Some(r) => Some(r),
        None => if default_session.len() > 0 { Some(default_session) } else { None },
    };
    match want {
        Some(w) => match first_named(menu, w) {
            Some(i) => i,
            None => 0,
        },
        None => 0,
    }
}

proof fn lemma_first_named_is(menu: Seq<SessionModel>, w: Seq<char>, i: int)
    requires
        0 <= i < menu.len(),
        menu[i].name == w,
        forall|j: int| 0 <= j < i ==> menu[j].name != w,
    ensures
        first_named(menu, w) == Some(i),
{
    let c = choose|k: int| 0 <= k < menu.len() && menu[k].name == w && forall|j: int|
        0 <= j < k ==> menu[j].name != w;
    assert(0 <= c < menu.len() && menu[c].name == w && forall|j: int| 0 <= j < c ==> menu[j].name != w);
    if c < i {
        assert(menu[c].name != w);
    } else if c > i {
        assert(menu[i].name != w);
    }
}

/// The highlighted session: a remembered session that is on the menu is
/// highlighted (its first entry), whatever the configured default; with
/// nothing remembered, a configured default on the menu is; otherwise (or
/// when the wanted name is not on the menu) the first entry is.
pub proof fn lemma_default_index_choice(menu: Seq<SessionModel>, remembered: Option<Seq<char>>, default_session: Seq<char>)
    ensures
        match remembered {
            Some(r) => forall|i: int|
                0 <= i < menu.len() && (#[trigger] menu[i]).name == r && (forall|j: int|
                    0 <= j < i ==> menu[j].name != r) ==> default_index_spec(menu, remembered, default_session) == i,
            None => true,
        },
        forall|i: int|
            remembered is None && default_session.len() > 0 && 0 <= i < menu.len() && (#[trigger] menu[i]).name
                == default_session && (forall|j: int| 0 <= j < i ==> menu[j].name != default_session)
                ==> default_index_spec(menu, remembered, default_session) == i,
        (match remembered {
            Some(r) => forall|i: int| 0 <= i < menu.len() ==> (#[trigger] menu[i]).name != r,
            None => default_session.len() == 0 || forall|i: int|
                0 <= i < menu.len() ==> (#[trigger] menu[i]).name != default_session,
        }) ==> default_index_spec(menu, remembered, default_session) == 0,
{
    if let Some(r) = remembered {
        assert forall|i: int|
            0 <= i < menu.len() && (#[trigger] menu[i]).name == r && (forall|j: int|
                0 <= j < i ==> menu[j].name != r) implies default_index_spec(menu, remembered, default_session) == i by {
            lemma_first_named_is(menu, r, i);
        }
    }
    assert forall|i: int|
        remembered is None && default_session.len() > 0 && 0 <= i < menu.len() && (#[trigger] menu[i]).name
            == default_session && (forall|j: int| 0 <= j < i ==> menu[j].name != default_session)
        implies default_index_spec(menu, remembered, default_session) == i by {
        lemma_first_named_is(menu, default_session, i);
    }
}

/// Position of the first session named `w`.
fn position_named(menu: &Vec<Session>, w: &Vec<char>) -> (r: Option<usize>)
    ensures
        match r {
            Some(i) => first_named(menu_views(menu@), w@) == Some(i as int),
            None => first_named(menu_views(menu@), w@) is None,
        },
{
    let ghost mv = menu_views(menu@);
    let mut i: usize = 0;
    while i < menu.len()
        invariant
            i <= menu.len(),
            mv == menu_views(menu@),
            forall|j: int| 0 <= j < i ==> mv[j].name != w@,
        decreases menu.len() - i,
    {
        if vec_eq(&chars_of(menu[i].name.as_str()), w) {
            assert(mv[i as int].name == w@);
            let ghost c = choose|k: int| 0 <= k < mv.len() && mv[k].name == w@ && forall|j: int|
                0 <= j < k ==> mv[j].name != w@;
            assert(0 <= c < mv.len() && mv[c].name == w@ && forall|j: int| 0 <= j < c ==> mv[j].name != w@);
            assert(c == i) by {
                if c < i {
                    assert(mv[c].name != w@);
                } else if c > i {
                    assert(mv[i as int].name != w@);
                }
            }
            return Some(i);
        }
        i = i + 1;
    }
    None
}

/// The highlighted session: the remembered one (`remembered`, read from
/// the state file), else the configured default; 0 when the menu has no
/// such name.
pub fn default_index(menu: &Vec<Session>, cfg: &Config, remembered: Option<String>) -> (r: usize)
    ensures
        r == default_index_spec(
            menu_views(menu@),
            match remembered {
                Some(s) => Some(s@),
                None => None,
            },
            cfg.default_session@,
        ),
{
    let want = match remembered {
        Some(r) => Some(chars_of(r.as_str())),
        None => if cfg.default_session.as_str().unicode_len() > 0 {
            Some(chars_of(cfg.default_session.as_str()))
        } else {
            None
        },
    };
    match want {
        Some(w) => match position_named(menu, &w) {
            Some(i) => i,
            None => 0,
        },
        None => 0,
    }
}

/// The session chosen by the typed line: a number from 1 to the menu's
/// length picks that entry; anything else (Enter included) keeps the
/// default.
pub open spec fn choice_spec(line: Seq<char>, len: usize, default_idx: usize) -> usize {
    let t = trim(line);
    if t.len() == 0 {
        default_idx
    } else {
        match parse_usize(t) {
            Some(n) => if 1 <= n && n <= len { (n - 1) as usize } else { default_idx },
            None => default_idx,
        }
    }
}

/// Reads the choice from the typed line, as [`choice_spec`] says.
pub fn choice_from_line(line: &str, len: usize, default_idx: usize) -> (r: usize)
    ensures
        r == choice_spec(line@, len, default_idx),
{
    let t = trim_vec(&chars_of(line));
    if t.len() == 0 {
        return default_idx;
    }
    match parse_usize_vec(&t) {
        Some(n) => if 1 <= n && n <= len {
            n - 1
        } else {
            default_idx
        },
        None => default_idx,
    }
}

/// One menu line: `   › 1) Sway` (the marker on the highlighted entry).
pub open spec fn menu_line(i: int, name: Seq<char>, highlighted: bool) -> Seq<char> {
    "   "@ + (if highlighted { "\u{203a}"@ } else { " "@ }) + " "@ + dec_digits((i + 1) as nat)
        + ") "@ + name + "\n"@
}

/// The menu's text after its heading, one line per session.
pub open spec fn menu_body(menu: Seq<SessionModel>, default_idx: int) -> Seq<char>
    decreases menu.len(),
{
    if menu.len() == 0 {
        seq![]
    } else {
        menu_body(menu.drop_last(), default_idx) + menu_line(
            menu.len() - 1,
            menu.last().name,
            menu.len() - 1 == default_idx,
        )
    }
}

/// The session menu as printed: the heading, then each session.
pub fn menu_text(menu: &Vec<Session>, default_idx: usize) -> (r: String)
    ensures
        r@ == "  Session (\u{2699}):\n"@ + menu_body(menu_views(menu@), default_idx as int),
{
    let ghost mv = menu_views(menu@);
    let mut out: Vec<char> = Vec::new();
    extend_str(&mut out, "  Session (\u{2699}):\n");
    let ghost head = out@;
    let mut i: usize = 0;
    assert(mv.take(0) =~= Seq::<SessionModel>::empty());
    while i < menu.len()
        invariant
            i <= menu.len(),
            mv == menu_views(menu@),
            head == "  Session (\u{2699}):\n"@,
            out@ == head + menu_body(mv.take(i as int), default_idx as int),
        decreases menu.len() - i,
    {
        assert(mv.take(i + 1).drop_last() =~= mv.take(i as int));
        extend_str(&mut out, "   ");
        if i == default_idx {
            extend_str(&mut out, "\u{203a}");
        } else {
            extend_str(&mut out, " ");
        }
        extend_str(&mut out, " ");
        push_decimal(&mut out, i as u64 + 1);
        extend_str(&mut out, ") ");
        extend_str(&mut out, menu[i].name.as_str());
        extend_str(&mut out, "\n");
        assert(out@ =~= head + menu_body(mv.take(i + 1), default_idx as int));
        i = i + 1;
    }
    assert(mv.take(menu.len() as int) =~= mv);
    string_from(&out)
}

/// The prompt under the menu: `  choose [1-N, Enter = D]: `.
pub fn choice_prompt(len: usize, default_idx: usize) -> (r: String)
    requires
        default_idx < len,
    ensures
        r@ == "  choose [1-"@ + dec_digits(len as nat) + ", Enter = "@ + dec_digits(
            (default_idx + 1) as nat,
        ) + "]: "@,
{
    let mut out: Vec<char> = Vec::new();
    extend_str(&mut out, "  choose [1-");
    push_decimal(&mut out, len as u64);
    extend_str(&mut out, ", Enter = ");
    push_decimal(&mut out, default_idx as u64 + 1);
    extend_str(&mut out, "]: ");
    string_from(&out)
}

/// The login prompt: `  login [writeonce]: `.
pub fn login_prompt() -> (r: String)
    ensures
        r@ == "  login ["@ + DEFAULT_USER@ + "]: "@,
{
    let mut out: Vec<char> = Vec::new();
    extend_str(&mut out, "  login [");
    extend_str(&mut out, DEFAULT_USER);
    extend_str(&mut out, "]: ");
    string_from(&out)
}

/// The banner above the prompt.
pub open spec fn banner_spec(welcome: Seq<char>, host: Seq<char>) -> Seq<char> {
    "\n"@ + "  \u{250c}\u{2500} "@ + welcome
        + " \u{2500}\u{2500}\u{2500}\u{2500}\u{2500}\u{2500}\u{2500}\u{2500}\u{2500}\u{2500}\u{2500}\u{2500}\u{2500}\u{2500}\u{2500}\u{2500}\u{2500}\u{2500}\u{2500}\u{2500}\u{2500}\u{2500}\u{2500}\u{2500}\u{2500}\u{2500}\u{2500}\n"@
        + "  \u{2502}  "@ + host + " \u{2014} sign in\n"@
        + "  \u{2514}\u{2500}\u{2500}\u{2500}\u{2500}\u{2500}\u{2500}\u{2500}\u{2500}\u{2500}\u{2500}\u{2500}\u{2500}\u{2500}\u{2500}\u{2500}\u{2500}\u{2500}\u{2500}\u{2500}\u{2500}\u{2500}\u{2500}\u{2500}\u{2500}\u{2500}\u{2500}\u{2500}\u{2500}\u{2500}\u{2500}\u{2500}\u{2500}\u{2500}\n"@
}

/// The banner for the configured welcome line and the host name.
pub fn render_banner(cfg: &Config, host: &str) -> (r: String)
    ensures
        r@ == banner_spec(cfg.welcome@, host@),
{
    let mut out: Vec<char> = Vec::new();
    extend_str(&mut out, "\n");
    extend_str(&mut out, "  \u{250c}\u{2500} ");
    extend_str(&mut out, cfg.welcome.as_str());
    extend_str(
        &mut out,
        " \u{2500}\u{2500}\u{2500}\u{2500}\u{2500}\u{2500}\u{2500}\u{2500}\u{2500}\u{2500}\u{2500}\u{2500}\u{2500}\u{2500}\u{2500}\u{2500}\u{2500}\u{2500}\u{2500}\u{2500}\u{2500}\u{2500}\u{2500}\u{2500}\u{2500}\u{2500}\u{2500}\n",
    );
    extend_str(&mut out, "  \u{2502}  ");
    extend_str(&mut out, host);
    extend_str(&mut out, " \u{2014} sign in\n");
    extend_str(
        &mut out,
        "  \u{2514}\u{2500}\u{2500}\u{2500}\u{2500}\u{2500}\u{2500}\u{2500}\u{2500}\u{2500}\u{2500}\u{2500}\u{2500}\u{2500}\u{2500}\u{2500}\u{2500}\u{2500}\u{2500}\u{2500}\u{2500}\u{2500}\u{2500}\u{2500}\u{2500}\u{2500}\u{2500}\u{2500}\u{2500}\u{2500}\u{2500}\u{2500}\u{2500}\u{2500}\n",
    );
    string_from(&out)
}

/// `XDG_SESSION_TYPE` for a session kind.
pub open spec fn session_type_spec(kind: SessionKind) -> Seq<char> {
    match kind {
        SessionKind::Wayland => "wayland"@,
        SessionKind::Shell => "tty"@,
    }
}

/// `XDG_SESSION_TYPE` for a session kind.
pub fn session_type(kind: SessionKind) -> (r: &'static str)
    ensures
        r@ == session_type_spec(kind),
{
    match kind {
        SessionKind::Wayland => "wayland",
        SessionKind::Shell => "tty",
    }
}

/// The variables handed to PAM before authentication, so that the login
/// session is bound to `seat0` and the terminal and typed: seat, VT,
/// class, type and, for a compositor with a desktop name, the desktop.
pub open spec fn pam_hints_spec(s: SessionModel, vtnr: u32) -> Seq<Seq<char>> {
    let base = seq![
        "XDG_SEAT=seat0"@,
        "XDG_VTNR="@ + dec_digits(vtnr as nat),
        "XDG_SESSION_CLASS=user"@,
        "XDG_SESSION_TYPE="@ + session_type_spec(s.kind),
    ];
    if s.kind == SessionKind::Wayland && primary_desktop_of(s.desktop_names).len() > 0 {
        base.push("XDG_SESSION_DESKTOP="@ + primary_desktop_of(s.desktop_names))
    } else {
        base
    }
}

fn key_value(key: &str, value: &str) -> (r: String)
    ensures
        r@ == key@ + value@,
{
    let mut v = chars_of(key);
    extend_str(&mut v, value);
    string_from(&v)
}

/// The PAM environment hints, as [`pam_hints_spec`] says.
pub fn pam_env_hints(s: &Session, vtnr: u32) -> (r: Vec<String>)
    ensures
        r@.map_values(|x: String| x@) == pam_hints_spec(s@, vtnr),
{
    let mut vt = chars_of("XDG_VTNR=");
    push_decimal(&mut vt, vtnr as u64);
    let mut r = vec![
        String::from_str("XDG_SEAT=seat0"),
        string_from(&vt),
        String::from_str("XDG_SESSION_CLASS=user"),
        key_value("XDG_SESSION_TYPE=", session_type(s.kind)),
    ];
    if s.kind == SessionKind::Wayland {
        let primary = s.primary_desktop();
        if !primary.is_empty() {
            r.push(key_value("XDG_SESSION_DESKTOP=", primary));
        }
    }
    assert(r@.map_values(|x: String| x@) =~= pam_hints_spec(s@, vtnr));
    r
}

/// Whether the launch deserves the warning that logind gave no runtime
/// directory: a compositor session and no `XDG_RUNTIME_DIR` in PAM's list.
pub fn runtime_dir_missing(s: &Session, pam_env: &Vec<(String, String)>) -> (b: bool)
    ensures
        b == (s.kind == SessionKind::Wayland && !(exists|i: int|
            0 <= i < pam_env@.len() && (#[trigger] pam_env@[i]).0@ == "XDG_RUNTIME_DIR"@)),
{
    if s.kind != SessionKind::Wayland {
        return false;
    }
    let key = chars_of("XDG_RUNTIME_DIR");
    let mut i: usize = 0;
    while i < pam_env.len()
        invariant
            i <= pam_env.len(),
            key@ == "XDG_RUNTIME_DIR"@,
            forall|j: int| 0 <= j < i ==> (#[trigger] pam_env@[j]).0@ != "XDG_RUNTIME_DIR"@,
        decreases pam_env.len() - i,
    {
        if vec_eq(&chars_of(pam_env[i].0.as_str()), &key) {
            return false;
        }
        i = i + 1;
    }
    true
}

/// The session's own environment: the account, a fixed `PATH`, terminal,
/// locale and seat, and the session type; a compositor also gets its
/// desktop names (the session name when it has none).
pub open spec fn base_env_spec(
    name: Seq<char>,
    home: Seq<char>,
    shell: Seq<char>,
    s: SessionModel,
    vtnr: u32,
) -> Seq<Seq<char>> {
    let common = seq![
        "USER="@ + name,
        "LOGNAME="@ + name,
        "HOME="@ + home,
        "SHELL="@ + shell,
        "PATH=/usr/local/bin:/usr/bin:/bin"@,
        "TERM=linux"@,
        "LANG=C.UTF-8"@,
        "XDG_SEAT=seat0"@,
        "XDG_VTNR="@ + dec_digits(vtnr as nat),
        "XDG_SESSION_CLASS=user"@,
    ];
    match s.kind {
        SessionKind::Wayland => {
            let current = if s.desktop_names.len() == 0 { s.name } else { s.desktop_names };
            let primary = if primary_desktop_of(s.desktop_names).len() == 0 {
                s.name
            } else {
                primary_desktop_of(s.desktop_names)
            };
            common + seq![
                "XDG_SESSION_TYPE=wayland"@,
                "XDG_CURRENT_DESKTOP="@ + current,
                "XDG_SESSION_DESKTOP="@ + primary,
            ]
        },
        SessionKind::Shell => common.push("XDG_SESSION_TYPE=tty"@),
    }
}

/// The views of a list of strings.
pub open spec fn str_views(v: Seq<String>) -> Seq<Seq<char>> {
    v.map_values(|x: String| x@)
}

/// The session's environment, as [`base_env_spec`] says.
pub fn base_env(user: &UserInfo, s: &Session, vtnr: u32) -> (r: Vec<String>)
    ensures
        str_views(r@) == base_env_spec(user.name@, user.home@, user.shell@, s@, vtnr),
{
    let mut vt = chars_of("XDG_VTNR=");
    push_decimal(&mut vt, vtnr as u64);
    let mut env = vec![
        key_value("USER=", user.name.as_str()),
        key_value("LOGNAME=", user.name.as_str()),
        key_value("HOME=", user.home.as_str()),
        key_value("SHELL=", user.shell.as_str()),
        String::from_str("PATH=/usr/local/bin:/usr/bin:/bin"),
        String::from_str("TERM=linux"),
        String::from_str("LANG=C.UTF-8"),
        String::from_str("XDG_SEAT=seat0"),
        string_from(&vt),
        String::from_str("XDG_SESSION_CLASS=user"),
    ];
    match s.kind {
        SessionKind::Wayland => {
            env.push(String::from_str("XDG_SESSION_TYPE=wayland"));
            let current = if s.desktop_names.as_str().unicode_len() == 0 {
                s.name.as_str()
            } else {
                s.desktop_names.as_str()
            };
            env.push(key_value("XDG_CURRENT_DESKTOP=", current));
            let primary = s.primary_desktop();
            let primary = if primary.unicode_len() == 0 {
                s.name.as_str()
            } else {
                primary
            };
            env.push(key_value("XDG_SESSION_DESKTOP=", primary));
        },
        SessionKind::Shell => {
            env.push(String::from_str("XDG_SESSION_TYPE=tty"));
        },
    }
    assert(str_views(env@) =~= base_env_spec(user.name@, user.home@, user.shell@, s@, vtnr));
    env
}

/// Some entry of `env` sets `key`.
pub open spec fn env_has_key(env: Seq<Seq<char>>, key: Seq<char>) -> bool {
    exists|i: int| 0 <= i < env.len() && starts_with(#[trigger] env[i], key + "="@)
}

/// `env` with PAM's variables added in order, each only when no earlier
/// entry sets the same key: the session's own keys win.
pub open spec fn merge_env_spec(env: Seq<Seq<char>>, pam: Seq<(Seq<char>, Seq<char>)>) -> Seq<
    Seq<char>,
>
    decreases pam.len(),
{
    if pam.len() == 0 {
        env
    } else {
        let merged = merge_env_spec(env, pam.drop_last());
        let (k, v) = pam.last();
        if env_has_key(merged, k) {
            merged
        } else {
            merged.push(k + "="@ + v)
        }
    }
}

/// The views of PAM's variable list.
pub open spec fn pair_views(v: Seq<(String, String)>) -> Seq<(Seq<char>, Seq<char>)> {
    v.map_values(|p: (String, String)| (p.0@, p.1@))
}

fn env_has_key_exec(env: &Vec<String>, key: &str) -> (b: bool)
    ensures
        b == env_has_key(str_views(env@), key@),
{
    let mut prefix = chars_of(key);
    prefix.push('=');
    proof {
        reveal_strlit("=");
        assert(prefix@ =~= key@ + "="@);
    }
    let ghost ev = str_views(env@);
    let mut i: usize = 0;
    while i < env.len()
        invariant
            i <= env.len(),
            ev == str_views(env@),
            prefix@ == key@ + "="@,
            forall|j: int| 0 <= j < i ==> !starts_with(#[trigger] ev[j], key@ + "="@),
        decreases env.len() - i,
    {
        if vec_starts_with(&chars_of(env[i].as_str()), &prefix) {
            assert(starts_with(ev[i as int], key@ + "="@));
            return true;
        }
        i = i + 1;
    }
    false
}

/// Adds PAM's variables (`XDG_RUNTIME_DIR`, `XDG_SESSION_ID`, the session
/// bus, …) to the environment, as [`merge_env_spec`] says.
pub fn merge_pam_env(env: &mut Vec<String>, pam_env: &Vec<(String, String)>)
    ensures
        str_views(final(env)@) == merge_env_spec(str_views(old(env)@), pair_views(pam_env@)),
{
    let ghost e0 = str_views(env@);
    let ghost pv = pair_views(pam_env@);
    let mut i: usize = 0;
    assert(pv.take(0) =~= Seq::<(Seq<char>, Seq<char>)>::empty());
    while i < pam_env.len()
        invariant
            i <= pam_env.len(),
            pv == pair_views(pam_env@),
            str_views(env@) == merge_env_spec(e0, pv.take(i as int)),
        decreases pam_env.len() - i,
    {
        assert(pv.take(i + 1).drop_last() =~= pv.take(i as int));
        let (k, v) = (&pam_env[i].0, &pam_env[i].1);
        if !env_has_key_exec(env, k.as_str()) {
            let mut e = chars_of(k.as_str());
            e.push('=');
            extend_str(&mut e, v.as_str());
            proof {
                reveal_strlit("=");
                assert(e@ =~= k@ + "="@ + v@);
            }
            let ghost before = str_views(env@);
            env.push(string_from(&e));
            assert(str_views(env@) =~= before.push(k@ + "="@ + v@));
        }
        i = i + 1;
    }
    assert(pv.take(pam_env.len() as int) =~= pv);
}

/// The text after the last `/` (all of `s` when there is none), as
/// `rsplit('/').next()` gives it.
pub open spec fn last_segment(s: Seq<char>) -> Seq<char>
    decreases s.len(),
{
    if s.len() == 0 {
        s
    } else if s.last() == '/' {
        seq![]
    } else {
        last_segment(s.drop_last()).push(s.last())
    }
}

fn last_segment_vec(v: &Vec<char>) -> (r: Vec<char>)
    ensures
        r@ == last_segment(v@),
{
    let mut k: usize = v.len();
    assert(v@.take(k as int) =~= v@);
    assert(v@ + v@.skip(k as int) =~= v@);
    while k > 0 && v[k - 1] != '/'
        invariant
            k <= v.len(),
            last_segment(v@) == last_segment(v@.take(k as int)) + v@.skip(k as int),
        decreases k,
    {
        let ghost t = v@.take(k as int);
        assert(t.drop_last() =~= v@.take(k - 1));
        assert(v@.skip(k - 1) =~= seq![v@[k - 1]] + v@.skip(k as int));
        assert(last_segment(t) == last_segment(v@.take(k - 1)).push(v@[k - 1]));
        assert(last_segment(v@.take(k - 1)).push(v@[k - 1]) + v@.skip(k as int) =~= last_segment(
            v@.take(k - 1),
        ) + v@.skip(k - 1));
        k = k - 1;
    }
    assert(last_segment(v@.take(k as int)) =~= Seq::<char>::empty()) by {
        if k > 0 {
            assert(v@.take(k as int).last() == '/');
        }
    }
    assert(v@.take(v.len() as int) =~= v@);
    let r = slice(v, k, v.len());
    assert(r@ =~= v@.skip(k as int));
    assert(Seq::<char>::empty() + v@.skip(k as int) =~= v@.skip(k as int));
    r
}

/// The program and argument list that start the session: a shell as a
/// login shell (`argv[0]` is `-` and its base name); a compositor through
/// the account's shell, `-l -c 'exec <command>'`, so the profile puts the
/// Nix profile on `PATH`.
pub open spec fn launch_spec(shell: Seq<char>, s: SessionModel) -> (Seq<char>, Seq<Seq<char>>) {
    match s.kind {
        SessionKind::Shell => (s.command, seq!["-"@ + last_segment(s.command)]),
        SessionKind::Wayland => (
            shell,
            seq![shell, "-l"@, "-c"@, "exec "@ + s.command],
        ),
    }
}

/// The program and arguments that start the session, as [`launch_spec`]
/// says.
pub fn launch_command(user: &UserInfo, s: &Session) -> (r: (String, Vec<String>))
    ensures
        (r.0@, str_views(r.1@)) == launch_spec(user.shell@, s@),
{
    match s.kind {
        SessionKind::Shell => {
            let base = last_segment_vec(&chars_of(s.command.as_str()));
            let mut a = chars_of("-");
            extend(&mut a, &base);
            let argv = vec![string_from(&a)];
            assert(str_views(argv@) =~= seq!["-"@ + last_segment(s.command@)]);
            (s.command.clone(), argv)
        },
        SessionKind::Wayland => {
            let argv = vec![
                user.shell.clone(),
                String::from_str("-l"),
                String::from_str("-c"),
                key_value("exec ", s.command.as_str()),
            ];
            assert(str_views(argv@) =~= seq![user.shell@, "-l"@, "-c"@, "exec "@ + s.command@]);
            (user.shell.clone(), argv)
        },
    }
}

/// Merging PAM's variables keeps the session's own entries, in place and
/// first: on a conflict the session's value wins.
pub proof fn lemma_merge_keeps_own(env: Seq<Seq<char>>, pam: Seq<(Seq<char>, Seq<char>)>)
    ensures
        merge_env_spec(env, pam).len() >= env.len(),
        merge_env_spec(env, pam).take(env.len() as int) == env,
    decreases pam.len(),
{
    if pam.len() > 0 {
        lemma_merge_keeps_own(env, pam.drop_last());
        let m = merge_env_spec(env, pam.drop_last());
        assert(m.push(pam.last().0 + "="@ + pam.last().1).take(env.len() as int) =~= m.take(
            env.len() as int,
        ));
    }
}

/// After the merge every variable PAM names is set.
pub proof fn lemma_merge_sets_all(env: Seq<Seq<char>>, pam: Seq<(Seq<char>, Seq<char>)>, j: int)
    requires
        0 <= j < pam.len(),
    ensures
        env_has_key(merge_env_spec(env, pam), pam[j].0),
    decreases pam.len(),
{
    let prev = merge_env_spec(env, pam.drop_last());
    let k = pam.last().0;
    if j == pam.len() - 1 {
        if !env_has_key(prev, k) {
            let e = k + "="@ + pam.last().1;
            let m = prev.push(e);
            assert(m[prev.len() as int] == e);
            assert(e.take((k + "="@).len() as int) =~= k + "="@);
            assert(starts_with(m[prev.len() as int], k + "="@));
        }
    } else {
        lemma_merge_sets_all(env, pam.drop_last(), j);
        assert(pam.drop_last()[j] == pam[j]);
        let kj = pam[j].0;
        let w = choose|i: int| 0 <= i < prev.len() && starts_with(#[trigger] prev[i], kj + "="@);
        if !env_has_key(prev, k) {
            let m = prev.push(k + "="@ + pam.last().1);
            assert(m[w] == prev[w]);
        }
    }
}

} // verus!
