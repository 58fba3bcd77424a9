//! Session discovery — the "gear icon" list.
//!
//! Freedesktop session desktop files (`*.desktop`) are read from the
//! standard locations plus the Nix profile directories. A synthetic
//! **Shell (bash)** entry is always appended so local login works even
//! before any compositor is installed.
use vstd::prelude::*;
use crate::text::{
    chars_of, eq_ignore_case, eq_ignore_case_vec, extend, extend_str, join, lines, lines_vec,
    slice, split_once, split_once_vec, starts_with, string_from, string_of, trim, trim_vec,
    find_char, is_ws, trim_end, trim_start,
    vec_eq, vec_lex_lt, lex_lt, views, ws_tokens, ws_tokens_vec, all_words, is_word,
    lemma_ws_split_words, lemma_ws_tokens_of_join, lemma_lex_irreflexive, lemma_lex_transitive,
};
use crate::order::{insert_by, lemma_no_duplicates_kept, lemma_same_elements, lemma_sort_by, sort_by, strict_order};
use crate::login::flow::arg_views;

verus! {

/// What a session runs as.
#[derive(Debug, Clone, Copy, PartialEq, Eq, Structural)]
pub enum SessionKind {
    /// A Wayland compositor session (`XDG_SESSION_TYPE=wayland`).
    Wayland,
    /// The plain login shell (`XDG_SESSION_TYPE=tty`).
    Shell,
}

/// One entry of the session menu.
#[derive(Debug, Clone, PartialEq, Eq)]
pub struct Session {
    /// Display name (`Name=`), shown in the menu.
    pub name: String,
    /// Command to run (`Exec=`, field codes stripped). For `Shell` this is
    /// the user's login shell.
    pub command: String,
    /// `DesktopNames=` (semicolon-separated), e.g. `"sway"` / `"Hyprland"`.
    pub desktop_names: String,
    pub kind: SessionKind,
}

/// The mathematical value of a [`Session`].
pub struct SessionModel {
    pub name: Seq<char>,
    pub command: Seq<char>,
    pub desktop_names: Seq<char>,
    pub kind: SessionKind,
}

impl View for Session {
    type V = SessionModel;

    open spec fn view(&self) -> SessionModel {
        SessionModel {
            name: self.name@,
            command: self.command@,
            desktop_names: self.desktop_names@,
            kind: self.kind,
        }
    }
}

/// The text of `s` up to its first `;` (all of it when there is none).
pub open spec fn before_semicolon(s: Seq<char>) -> Seq<char> {
    match split_once(s, ';') {
        Some((a, _)) => a,
        None => s,
    }
}

/// First `DesktopNames` entry, trimmed.
pub open spec fn primary_desktop_of(desktop_names: Seq<char>) -> Seq<char> {
    trim(before_semicolon(desktop_names))
}

impl Session {
    /// First `DesktopNames` entry (for `XDG_SESSION_DESKTOP`); empty if none.
    pub fn primary_desktop(&self) -> (r: &str)
        ensures
            r@ == primary_desktop_of(self.desktop_names@),
    {
        let v = chars_of(self.desktop_names.as_str());
        let end = match split_once_vec(&v, ';') {
            Some(_) => {
                let mut k: usize = 0;
                while k < v.len() && v[k] != ';'
                    invariant
                        k <= v.len(),
                        forall|j: int| 0 <= j < k ==> v@[j] != ';',
                    decreases v.len() - k,
                {
                    k = k + 1;
                }
                proof {
                    lemma_first_semicolon(v@, k as int);
                }
                k
            },
            None => v.len(),
        };
        let head = slice(&v, 0, end);
        proof {
            assert(end == v.len() ==> head@ =~= v@);
        }
        let (a, b) = crate::text::trim_bounds(&head);
        self.desktop_names.as_str().substring_char(a, b)
    }
}

proof fn lemma_first_semicolon(s: Seq<char>, k: int)
    requires
        0 <= k <= s.len(),
        forall|j: int| 0 <= j < k ==> s[j] != ';',
        k < s.len() ==> s[k] == ';',
        split_once(s, ';') is Some,
    ensures
        k < s.len(),
        before_semicolon(s) == s.take(k),
{
    crate::text::lemma_find_char_first(s, ';', k);
}

/// The directories scanned for `*.desktop` session files, in priority order.
pub open spec fn session_dirs_spec(home: Seq<char>) -> Seq<Seq<char>> {
    seq![
        "/usr/share/wayland-sessions"@,
        home + "/.nix-profile/share/wayland-sessions"@,
        "/nix/var/nix/profiles/default/share/wayland-sessions"@,
        home + "/.local/share/wayland-sessions"@,
    ]
}

/// The directories scanned for `*.desktop` session files, in priority order.
/// Nix profile dirs mirror the PATH set by `/etc/profile.d/nix.sh`.
pub fn session_dirs(home: &str) -> (r: Vec<String>)
    ensures
        r@.map_values(|s: String| s@) == session_dirs_spec(home@),
{
    let mut nix = chars_of(home);
    extend_str(&mut nix, "/.nix-profile/share/wayland-sessions");
    let mut local = chars_of(home);
    extend_str(&mut local, "/.local/share/wayland-sessions");
    let r = vec![
        String::from_str("/usr/share/wayland-sessions"),
        string_from(&nix),
        String::from_str("/nix/var/nix/profiles/default/share/wayland-sessions"),
        string_from(&local),
    ];
    assert(r@.map_values(|s: String| s@) =~= session_dirs_spec(home@));
    r
}

/// The always-present login-shell session.
pub fn shell_session(shell: &str) -> (s: Session)
    ensures
        s@.name == "Shell (bash)"@,
        s@.command == shell@,
        s@.desktop_names == Seq::<char>::empty(),
        s@.kind == SessionKind::Shell,
{
    Session {
        name: String::from_str("Shell (bash)"),
        command: String::from_str(shell),
        desktop_names: String::new(),
        kind: SessionKind::Shell,
    }
}

/// A freedesktop `Exec` field code: `%` and one more ASCII character
/// (two bytes).
pub open spec fn is_field_code(t: Seq<char>) -> bool {
    t.len() == 2 && t[0] == '%' && (t[1] as u32) < 128
}

/// The tokens of `toks` that are not field codes.
pub open spec fn without_field_codes(toks: Seq<Seq<char>>) -> Seq<Seq<char>> {
    toks.filter(not_field_code())
}

/// The tokens that are not field codes, as a predicate.
pub open spec fn not_field_code() -> spec_fn(Seq<char>) -> bool {
    |t: Seq<char>| !is_field_code(t)
}

/// `Exec` with its field codes (`%f %F %u %U …`) removed and the remaining
/// words joined by single spaces.
pub open spec fn strip_field_codes_spec(exec: Seq<char>) -> Seq<char> {
    join(without_field_codes(ws_tokens(exec)), " "@)
}

fn is_field_code_vec(t: &Vec<char>) -> (b: bool)
    ensures
        b == is_field_code(t@),
{
    t.len() == 2 && t[0] == '%' && (t[1] as u32) < 128
}

/// Strip freedesktop `Exec` field codes (%f %F %u %U %i %c %k %d %D %n %N
/// %v %m). They never apply to a session launch and must not be passed to
/// the compositor.
pub fn strip_field_codes(exec: &str) -> (r: String)
    ensures
        r@ == strip_field_codes_spec(exec@),
{
    let v = chars_of(exec);
    let r = strip_field_codes_vec(&v);
    string_from(&r)
}

fn strip_field_codes_vec(v: &Vec<char>) -> (r: Vec<char>)
    ensures
        r@ == strip_field_codes_spec(v@),
{
    let toks = ws_tokens_vec(v);
    let ghost all = views(toks@);
    let mut out: Vec<char> = Vec::new();
    let mut kept: usize = 0;
    let ghost mut kept_seq: Seq<Seq<char>> = seq![];
    let mut i: usize = 0;
    let sp = chars_of(" ");
    assert(all.take(0) =~= Seq::<Seq<char>>::empty());
    while i < toks.len()
        invariant
            i <= toks.len(),
            all == views(toks@),
            all == ws_tokens(v@),
            sp@ == " "@,
            kept_seq == without_field_codes(all.take(i as int)),
            kept == kept_seq.len(),
            out@ == join(kept_seq, " "@),
        decreases toks.len() - i,
    {
        proof {
            let t = all.take(i + 1);
            assert(t.drop_last() =~= all.take(i as int));
            reveal(Seq::filter);
            assert((not_field_code())(t.last()) == !is_field_code(t.last()));
            assert(without_field_codes(t) == if !is_field_code(t.last()) {
                without_field_codes(t.drop_last()).push(t.last())
            } else {
                without_field_codes(t.drop_last())
            });
        }
        if !is_field_code_vec(&toks[i]) {
            if kept > 0 {
                extend(&mut out, &sp);
            }
            extend(&mut out, &toks[i]);
            proof {
                let ks = kept_seq.push(all[i as int]);
                assert(ks.drop_last() =~= kept_seq);
                if kept == 0 {
                    assert(out@ =~= join(ks, " "@));
                }
                kept_seq = ks;
            }
            kept = kept + 1;
        }
        i = i + 1;
    }
    assert(all.take(toks.len() as int) =~= all);
    out
}

/// `s` without the trailing run of `c` (`str::trim_end_matches(c)`).
pub open spec fn trim_end_char(s: Seq<char>, c: char) -> Seq<char>
    decreases s.len(),
{
    if s.len() > 0 && s.last() == c {
        trim_end_char(s.drop_last(), c)
    } else {
        s
    }
}

/// What has been read of a `.desktop` file so far.
pub struct DesktopScan {
    pub name: Option<Seq<char>>,
    pub exec_cmd: Option<Seq<char>>,
    pub try_exec: Option<Seq<char>>,
    pub desktop_names: Seq<char>,
    pub in_entry: bool,
}

/// Before the first line.
pub open spec fn scan_start() -> DesktopScan {
    DesktopScan { name: None, exec_cmd: None, try_exec: None, desktop_names: seq![], in_entry: false }
}

/// The effect of one line: comments and blank lines are skipped, a `[group]`
/// header decides whether the following keys belong to `[Desktop Entry]`
/// (compared without regard to ASCII case), and inside that group the first
/// `Name`, `Exec` and `TryExec` are kept while `DesktopNames` keeps the last.
pub open spec fn scan_line(st: DesktopScan, raw: Seq<char>) -> DesktopScan {
    let line = trim(raw);
    if line.len() == 0 || line[0] == '#' {
        st
    } else if line[0] == '[' {
        DesktopScan { in_entry: eq_ignore_case(line, "[Desktop Entry]"@), ..st }
    } else if !st.in_entry {
        st
    } else {
        match split_once(line, '=') {
            None => st,
            Some((k0, v0)) => {
                let k = trim(k0);
                let v = trim(v0);
                if k == "Name"@ && st.name is None {
                    DesktopScan { name: Some(v), ..st }
                } else if k == "Exec"@ && st.exec_cmd is None {
                    DesktopScan { exec_cmd: Some(strip_field_codes_spec(v)), ..st }
                } else if k == "TryExec"@ && st.try_exec is None {
                    DesktopScan { try_exec: Some(v), ..st }
                } else if k == "DesktopNames"@ {
                    DesktopScan { desktop_names: trim_end_char(v, ';'), ..st }
                } else {
                    st
                }
            },
        }
    }
}

/// The scan state after the lines `ls`.
pub open spec fn scan_lines(ls: Seq<Seq<char>>) -> DesktopScan
    decreases ls.len(),
{
    if ls.len() == 0 {
        scan_start()
    } else {
        scan_line(scan_lines(ls.drop_last()), ls.last())
    }
}

/// The session a `.desktop` file describes: the command is `Exec` (field
/// codes stripped) or else `TryExec`; there is no session when neither
/// gives a non-empty command; the name falls back to the command.
pub open spec fn parse_desktop_spec(content: Seq<char>) -> Option<SessionModel> {
    let st = scan_lines(lines(content));
    let cmd = if st.exec_cmd is Some { st.exec_cmd } else { st.try_exec };
    match cmd {
        None => None,
        Some(e) => if e.len() == 0 {
            None
        } else {
            Some(
                SessionModel {
                    name: match st.name {
                        Some(n) => n,
                        None => e,
                    },
                    command: e,
                    desktop_names: st.desktop_names,
                    kind: SessionKind::Wayland,
                },
            )
        },
    }
}

proof fn lemma_find_char_after(p: Seq<char>, t: Seq<char>, c: char)
    requires
        forall|k: int| 0 <= k < p.len() ==> p[k] != c,
    ensures
        find_char(p + t, c) == match find_char(t, c) {
            Some(i) => Some(i + p.len()),
            None => None::<int>,
        },
    decreases p.len(),
{
    if p.len() > 0 {
        let s = p + t;
        assert(s[0] == p[0]);
        assert(s.drop_first() =~= p.drop_first() + t);
        lemma_find_char_after(p.drop_first(), t, c);
    } else {
        assert(p + t =~= t);
    }
}

/// No whitespace at either end (or empty).
pub open spec fn no_outer_ws(v: Seq<char>) -> bool {
    v.len() == 0 || (!is_ws(v[0]) && !is_ws(v.last()))
}

proof fn lemma_trim_no_outer_ws(v: Seq<char>)
    requires
        no_outer_ws(v),
    ensures
        trim(v) == v,
{
    if v.len() > 0 {
        assert(trim_start(v) == v);
        assert(trim_end(v) == v);
    } else {
        assert(trim_start(v) == v);
        assert(trim_end(v) == v);
    }
}

/// A `key=value` line: trimmed it is itself, and it splits at its `=` into
/// the key and the value.
proof fn lemma_key_value_line(key: Seq<char>, v: Seq<char>)
    requires
        key.len() > 0,
        no_outer_ws(key),
        forall|k: int| 0 <= k < key.len() ==> key[k] != '=',
        no_outer_ws(v),
    ensures
        trim(key + "="@ + v) == key + "="@ + v,
        split_once(key + "="@ + v, '=') == Some((key, v)),
        trim(key) == key,
        trim(v) == v,
{
    reveal_strlit("=");
    let line = key + "="@ + v;
    assert(line[0] == key[0]);
    if v.len() > 0 {
        assert(line.last() == v.last());
    } else {
        assert(line.last() == '=');
    }
    assert(!is_ws('='));
    lemma_trim_no_outer_ws(line);
    lemma_trim_no_outer_ws(key);
    lemma_trim_no_outer_ws(v);
    assert(key + "="@ + v =~= key + ("="@ + v));
    assert(("="@ + v)[0] == '=');
    assert(find_char("="@ + v, '=') == Some(0int));
    lemma_find_char_after(key, "="@ + v, '=');
    assert(line.take(key.len() as int) =~= key);
    assert(line.skip(key.len() as int + 1) =~= v);
}

/// Inside `[Desktop Entry]`, an `Exec=v` line sets the command to `v`
/// with its field codes stripped when no `Exec` came before, and never
/// touches `TryExec`; a `TryExec=v` line sets only `TryExec`, and never
/// the command.
pub proof fn lemma_exec_and_try_exec_lines(st: DesktopScan, v: Seq<char>)
    requires
        st.in_entry,
        no_outer_ws(v),
    ensures
        st.exec_cmd is None ==> scan_line(st, "Exec="@ + v).exec_cmd == Some(strip_field_codes_spec(v)),
        scan_line(st, "Exec="@ + v).try_exec == st.try_exec,
        scan_line(st, "TryExec="@ + v).exec_cmd == st.exec_cmd,
        st.try_exec is None ==> scan_line(st, "TryExec="@ + v).try_exec == Some(v),
{
    reveal_strlit("Exec");
    reveal_strlit("TryExec");
    reveal_strlit("Exec=");
    reveal_strlit("TryExec=");
    reveal_strlit("=");
    reveal_strlit("Name");
    reveal_strlit("DesktopNames");
    let e = "Exec"@;
    let t = "TryExec"@;
    assert("Exec="@ =~= e + "="@);
    assert("TryExec="@ =~= t + "="@);
    assert("Exec="@ + v =~= e + "="@ + v);
    assert("TryExec="@ + v =~= t + "="@ + v);
    lemma_key_value_line(e, v);
    lemma_key_value_line(t, v);
    assert(e != "Name"@ && e != "TryExec"@ && e != "DesktopNames"@);
    assert(t != "Name"@ && t != "Exec"@ && t != "DesktopNames"@);
    assert((e + "="@ + v)[0] == 'E');
    assert((t + "="@ + v)[0] == 'T');
}

/// The command of a `.desktop` session is the first `Exec` of
/// `[Desktop Entry]` (field codes stripped) whenever the group has one that
/// is not empty, whatever its `TryExec`; `TryExec` gives the command only
/// when the group has no `Exec`.
pub proof fn lemma_exec_decides_command(content: Seq<char>)
    ensures
        ({
            let st = scan_lines(lines(content));
            &&& match st.exec_cmd {
                Some(e) => e.len() > 0 ==> match parse_desktop_spec(content) {
                    Some(s) => s.command == e,
                    None => false,
                },
                None => match st.try_exec {
                    Some(t) => t.len() > 0 ==> match parse_desktop_spec(content) {
                        Some(s) => s.command == t,
                        None => false,
                    },
                    None => parse_desktop_spec(content) is None,
                },
            }
        }),
{
}

/// Executable scan state.
struct Scan {
    name: Option<Vec<char>>,
    exec_cmd: Option<Vec<char>>,
    try_exec: Option<Vec<char>>,
    desktop_names: Vec<char>,
    in_entry: bool,
}

impl Scan {
    spec fn model(&self) -> DesktopScan {
        DesktopScan {
            name: match self.name { Some(v) => Some(v@), None => None },
            exec_cmd: match self.exec_cmd { Some(v) => Some(v@), None => None },
            try_exec: match self.try_exec { Some(v) => Some(v@), None => None },
            desktop_names: self.desktop_names@,
            in_entry: self.in_entry,
        }
    }
}

fn trim_end_char_vec(v: &Vec<char>, c: char) -> (r: Vec<char>)
    ensures
        r@ == trim_end_char(v@, c),
{
    let mut j = v.len();
    assert(v@.take(j as int) =~= v@);
    while j > 0 && v[j - 1] == c
        invariant
            j <= v.len(),
            trim_end_char(v@, c) == trim_end_char(v@.take(j as int), c),
        decreases j,
    {
        assert(v@.take(j as int).drop_last() =~= v@.take(j - 1));
        j = j - 1;
    }
    let r = slice(v, 0, j);
    assert(r@ =~= v@.take(j as int));
    r
}

fn scan_line_exec(st: &mut Scan, raw: &Vec<char>)
    ensures
        final(st).model() == scan_line(old(st).model(), raw@),
{
    let line = trim_vec(raw);
    if line.len() == 0 || line[0] == '#' {
        return;
    }
    if line[0] == '[' {
        let hdr = chars_of("[Desktop Entry]");
        st.in_entry = eq_ignore_case_vec(&line, &hdr);
        return;
    }
    if !st.in_entry {
        return;
    }
    match split_once_vec(&line, '=') {
        None => {},
        Some((k0, v0)) => {
            let k = trim_vec(&k0);
            let v = trim_vec(&v0);
            let name_k = chars_of("Name");
            let exec_k = chars_of("Exec");
            let try_k = chars_of("TryExec");
            let names_k = chars_of("DesktopNames");
            if vec_eq(&k, &name_k) && st.name.is_none() {
                st.name = Some(v);
            } else if vec_eq(&k, &exec_k) && st.exec_cmd.is_none() {
                st.exec_cmd = Some(strip_field_codes_vec(&v));
            } else if vec_eq(&k, &try_k) && st.try_exec.is_none() {
                st.try_exec = Some(v);
            } else if vec_eq(&k, &names_k) {
                st.desktop_names = trim_end_char_vec(&v, ';');
            }
        },
    }
}

/// Parse a `.desktop` file's `[Desktop Entry]` group into a `Session`.
/// Returns `None` if there's no usable `Exec`/`TryExec`.
pub fn parse_desktop(content: &str) -> (r: Option<Session>)
    ensures
        match r {
            Some(s) => parse_desktop_spec(content@) == Some(s@),
            None => parse_desktop_spec(content@) is None,
        },
{
    let v = chars_of(content);
    let ls = lines_vec(&v);
    let ghost all = views(ls@);
    let mut st = Scan { name: None, exec_cmd: None, try_exec: None, desktop_names: Vec::new(), in_entry: false };
    assert(st.model() == scan_start()) by {
        assert(st.desktop_names@ =~= Seq::<char>::empty());
    }
    assert(all.take(0) =~= Seq::<Seq<char>>::empty());
    let mut i: usize = 0;
    while i < ls.len()
        invariant
            i <= ls.len(),
            all == views(ls@),
            all == lines(v@),
            st.model() == scan_lines(all.take(i as int)),
        decreases ls.len() - i,
    {
        assert(all.take(i + 1).drop_last() =~= all.take(i as int));
        scan_line_exec(&mut st, &ls[i]);
        i = i + 1;
    }
    assert(all.take(ls.len() as int) =~= all);
    let cmd = match st.exec_cmd {
        Some(e) => Some(e),
        None => st.try_exec,
    };
    match cmd {
        None => None,
        Some(e) => {
            if e.len() == 0 {
                return None;
            }
            let name = match st.name {
                Some(n) => string_from(&n),
                None => string_from(&e),
            };
            Some(Session {
                name,
                command: string_from(&e),
                desktop_names: string_from(&st.desktop_names),
                kind: SessionKind::Wayland,
            })
        },
    }
}

/// What `str::to_lowercase` makes of a text (Unicode lower case); a
/// function of the text alone.
pub uninterp spec fn lowercase_of(s: Seq<char>) -> Seq<char>;

/// `str::to_lowercase`: the contract claims only that the result is a
/// function of the text.
#[verifier::external_body]
fn to_lowercase(s: &str) -> (r: String)
    ensures
        r@ == lowercase_of(s@),
{
    s.to_lowercase()
}

/// The parsed sessions of the desktop files' texts, in order, the first
/// session of each name kept and files that do not parse skipped.
pub open spec fn unique_sessions(contents: Seq<Seq<char>>) -> Seq<SessionModel>
    decreases contents.len(),
{
    if contents.len() == 0 {
        seq![]
    } else {
        let prev = unique_sessions(contents.drop_last());
        match parse_desktop_spec(contents.last()) {
            Some(s) => if exists|j: int| 0 <= j < prev.len() && (#[trigger] prev[j]).name == s.name {
                prev
            } else {
                prev.push(s)
            },
            None => prev,
        }
    }
}

/// `l` with `x` placed after every session whose lower-cased name does not
/// sort after `x`'s (one step of a stable sort).
pub open spec fn insert_by_lower_name(l: Seq<SessionModel>, x: SessionModel) -> Seq<SessionModel>
    decreases l.len(),
{
    if l.len() == 0 {
        seq![x]
    } else if lex_lt(lowercase_of(x.name), lowercase_of(l[0].name)) {
        seq![x] + l
    } else {
        seq![l[0]] + insert_by_lower_name(l.drop_first(), x)
    }
}

/// `xs` stably sorted by lower-cased name.
pub open spec fn sort_by_lower_name(xs: Seq<SessionModel>) -> Seq<SessionModel>
    decreases xs.len(),
{
    if xs.len() == 0 {
        seq![]
    } else {
        insert_by_lower_name(sort_by_lower_name(xs.drop_last()), xs.last())
    }
}

/// The order of the menu: by lower-cased name.
pub open spec fn by_lower_name() -> spec_fn(SessionModel, SessionModel) -> bool {
    |a: SessionModel, b: SessionModel| lex_lt(lowercase_of(a.name), lowercase_of(b.name))
}

proof fn lemma_by_lower_name_strict()
    ensures
        strict_order(by_lower_name()),
{
    let f = by_lower_name();
    assert forall|a: SessionModel| !#[trigger] f(a, a) by {
        lemma_lex_irreflexive(lowercase_of(a.name));
    }
    assert forall|a: SessionModel, b: SessionModel, c: SessionModel|
        #![trigger f(a, b), f(b, c)]
        f(a, b) && f(b, c) implies f(a, c) by {
        lemma_lex_transitive(lowercase_of(a.name), lowercase_of(b.name), lowercase_of(c.name));
    }
}

proof fn lemma_insert_by_lower_name_is_insert_by(l: Seq<SessionModel>, x: SessionModel)
    ensures
        insert_by_lower_name(l, x) == insert_by(l, x, by_lower_name()),
    decreases l.len(),
{
    if l.len() > 0 {
        lemma_insert_by_lower_name_is_insert_by(l.drop_first(), x);
    }
}

proof fn lemma_sort_by_lower_name_is_sort_by(xs: Seq<SessionModel>)
    ensures
        sort_by_lower_name(xs) == sort_by(xs, by_lower_name()),
    decreases xs.len(),
{
    if xs.len() > 0 {
        lemma_sort_by_lower_name_is_sort_by(xs.drop_last());
        lemma_insert_by_lower_name_is_insert_by(sort_by_lower_name(xs.drop_last()), xs.last());
    }
}

proof fn lemma_unique_sessions_names(contents: Seq<Seq<char>>)
    ensures
        forall|i: int, j: int|
            0 <= i < j < unique_sessions(contents).len() ==> (#[trigger] unique_sessions(contents)[i]).name
                != (#[trigger] unique_sessions(contents)[j]).name,
    decreases contents.len(),
{
    if contents.len() > 0 {
        lemma_unique_sessions_names(contents.drop_last());
    }
}

/// The installed sessions are listed each name once, ordered by their
/// lower-cased names, and they are exactly the distinct sessions found.
pub proof fn lemma_discover_ordered(contents: Seq<Seq<char>>)
    ensures
        ({
            let found = unique_sessions(contents);
            let out = sort_by_lower_name(found);
            &&& forall|i: int, j: int|
                0 <= i < j < out.len() ==> !lex_lt(
                    lowercase_of((#[trigger] out[j]).name),
                    lowercase_of((#[trigger] out[i]).name),
                )
            &&& forall|i: int, j: int| 0 <= i < j < out.len() ==> (#[trigger] out[i]).name != (#[trigger] out[j]).name
            &&& out.to_multiset() == found.to_multiset()
        }),
{
    let found = unique_sessions(contents);
    let out = sort_by_lower_name(found);
    lemma_by_lower_name_strict();
    lemma_sort_by_lower_name_is_sort_by(found);
    lemma_sort_by(found, by_lower_name());
    lemma_unique_sessions_names(contents);
    assert(found.no_duplicates()) by {
        assert forall|i: int, j: int| 0 <= i < found.len() && 0 <= j < found.len() && i != j implies found[i]
            != found[j] by {
            if i < j {
                assert(found[i].name != found[j].name);
            } else {
                assert(found[j].name != found[i].name);
            }
        }
    }
    lemma_no_duplicates_kept(out, found);
    assert forall|i: int, j: int| 0 <= i < j < out.len() implies (#[trigger] out[i]).name
        != (#[trigger] out[j]).name by {
        lemma_same_elements(out, found, i);
        lemma_same_elements(out, found, j);
        let p = choose|p: int| 0 <= p < found.len() && found[p] == out[i];
        let q = choose|q: int| 0 <= q < found.len() && found[q] == out[j];
        assert(out[i] != out[j]);
        if p < q {
            assert(found[p].name != found[q].name);
        } else if q < p {
            assert(found[q].name != found[p].name);
        }
    }
    assert forall|i: int, j: int| 0 <= i < j < out.len() implies !lex_lt(
        lowercase_of((#[trigger] out[j]).name),
        lowercase_of((#[trigger] out[i]).name),
    ) by {
        assert(!(by_lower_name())(out[j], out[i]));
    }
}

/// The models of a list of sessions.
pub open spec fn session_views(v: Seq<Session>) -> Seq<SessionModel> {
    v.map_values(|s: Session| s@)
}

/// A field-by-field copy of a session.
fn copy_session(s: &Session) -> (r: Session)
    ensures
        r@ == s@,
{
    Session {
        name: s.name.clone(),
        command: s.command.clone(),
        desktop_names: s.desktop_names.clone(),
        kind: s.kind,
    }
}

/// Each session paired with its sort key (`ks[i]` for `ss[i]`).
pub open spec fn keyed(ss: Seq<SessionModel>, ks: Seq<Seq<char>>) -> Seq<(SessionModel, Seq<char>)> {
    Seq::new(ss.len(), |i: int| (ss[i], ks[i]))
}

/// Order of keyed sessions: by key.
pub open spec fn by_key() -> spec_fn((SessionModel, Seq<char>), (SessionModel, Seq<char>)) -> bool {
    |a: (SessionModel, Seq<char>), b: (SessionModel, Seq<char>)| lex_lt(a.1, b.1)
}

/// The sessions stably sorted by the keys that come with them.
pub open spec fn sort_by_keys(ss: Seq<SessionModel>, ks: Seq<Seq<char>>) -> Seq<SessionModel> {
    sort_by(keyed(ss, ks), by_key()).map_values(|p: (SessionModel, Seq<char>)| p.0)
}

fn insert_keyed(l: &mut Vec<Session>, lk: &mut Vec<Vec<char>>, x: Session, xk: Vec<char>)
    requires
        old(lk)@.len() == old(l)@.len(),
    ensures
        final(lk)@.len() == final(l)@.len(),
        keyed(session_views(final(l)@), views(final(lk)@)) == insert_by(
            keyed(session_views(old(l)@), views(old(lk)@)),
            (x@, xk@),
            by_key(),
        ),
{
    let ghost big = keyed(session_views(l@), views(lk@));
    let ghost px = (x@, xk@);
    let ghost f = by_key();
    let mut i: usize = 0;
    assert(big.skip(0) =~= big);
    assert(big.take(0) + insert_by(big.skip(0), px, f) =~= insert_by(big, px, f));
    while i < l.len()
        invariant
            i <= l.len(),
            l@ == old(l)@,
            lk@ == old(lk)@,
            lk@.len() == l@.len(),
            big == keyed(session_views(l@), views(lk@)),
            px == (x@, xk@),
            f == by_key(),
            insert_by(big, px, f) == big.take(i as int) + insert_by(big.skip(i as int), px, f),
        decreases l.len() - i,
    {
        let ghost rest = big.skip(i as int);
        assert(rest[0] == (l@[i as int]@, lk@[i as int]@));
        if vec_lex_lt(&xk, &lk[i]) {
            assert(f(px, rest[0]));
            let ghost ol = session_views(l@);
            let ghost ok = views(lk@);
            l.insert(i, x);
            lk.insert(i, xk);
            assert(session_views(l@) =~= ol.take(i as int).push(px.0) + ol.skip(i as int));
            assert(views(lk@) =~= ok.take(i as int).push(px.1) + ok.skip(i as int));
            assert(keyed(session_views(l@), views(lk@)) =~= big.take(i as int) + (seq![px] + rest));
            return;
        }
        assert(!f(px, rest[0]));
        assert(rest.drop_first() =~= big.skip(i + 1));
        assert(big.take(i as int) + (seq![rest[0]] + insert_by(rest.drop_first(), px, f)) =~= big.take(i + 1)
            + insert_by(big.skip(i + 1), px, f));
        i = i + 1;
    }
    assert(big.skip(l.len() as int) =~= Seq::<(SessionModel, Seq<char>)>::empty());
    let ghost ol = session_views(l@);
    let ghost ok = views(lk@);
    l.push(x);
    lk.push(xk);
    assert(session_views(l@) =~= ol.push(px.0));
    assert(views(lk@) =~= ok.push(px.1));
    assert(keyed(session_views(l@), views(lk@)) =~= big.push(px));
    assert(big.take(big.len() as int) =~= big);
}

/// The sessions stably sorted by the keys given with them (`keys[i]` is
/// the key of `sessions[i]`).
pub fn sort_sessions_by_keys(sessions: &Vec<Session>, keys: &Vec<String>) -> (r: Vec<Session>)
    requires
        keys@.len() == sessions@.len(),
    ensures
        session_views(r@) == sort_by_keys(session_views(sessions@), arg_views(keys@)),
{
    let ghost all = keyed(session_views(sessions@), arg_views(keys@));
    let mut out: Vec<Session> = Vec::new();
    let mut outk: Vec<Vec<char>> = Vec::new();
    let mut k: usize = 0;
    assert(all.take(0) =~= Seq::<(SessionModel, Seq<char>)>::empty());
    assert(keyed(session_views(out@), views(outk@)) =~= Seq::<(SessionModel, Seq<char>)>::empty());
    while k < sessions.len()
        invariant
            k <= sessions.len(),
            keys@.len() == sessions@.len(),
            all == keyed(session_views(sessions@), arg_views(keys@)),
            outk@.len() == out@.len(),
            keyed(session_views(out@), views(outk@)) == sort_by(all.take(k as int), by_key()),
        decreases sessions.len() - k,
    {
        assert(all.take(k + 1).drop_last() =~= all.take(k as int));
        assert(all.take(k + 1).last() == (sessions@[k as int]@, keys@[k as int]@));
        insert_keyed(&mut out, &mut outk, copy_session(&sessions[k]), chars_of(keys[k].as_str()));
        k = k + 1;
    }
    assert(all.take(sessions.len() as int) =~= all);
    let ghost sorted = sort_by(all, by_key());
    assert(session_views(out@) =~= sorted.map_values(|p: (SessionModel, Seq<char>)| p.0)) by {
        assert forall|j: int| 0 <= j < out@.len() implies session_views(out@)[j] == sorted[j].0 by {
            assert(keyed(session_views(out@), views(outk@))[j] == (session_views(out@)[j], views(outk@)[j]));
        }
    }
    out
}

/// Every session is keyed by its lower-cased name.
pub open spec fn keyed_by_lower_name(ps: Seq<(SessionModel, Seq<char>)>) -> bool {
    forall|i: int| 0 <= i < ps.len() ==> (#[trigger] ps[i]).1 == lowercase_of(ps[i].0.name)
}

proof fn lemma_insert_keyed_lower(l: Seq<(SessionModel, Seq<char>)>, x: (SessionModel, Seq<char>))
    requires
        keyed_by_lower_name(l),
        x.1 == lowercase_of(x.0.name),
    ensures
        insert_by(l, x, by_key()).map_values(|p: (SessionModel, Seq<char>)| p.0) == insert_by_lower_name(
            l.map_values(|p: (SessionModel, Seq<char>)| p.0),
            x.0,
        ),
    decreases l.len(),
{
    let firsts = l.map_values(|p: (SessionModel, Seq<char>)| p.0);
    if l.len() == 0 {
        assert(insert_by(l, x, by_key()).map_values(|p: (SessionModel, Seq<char>)| p.0) =~= seq![x.0]);
    } else {
        assert(firsts[0] == l[0].0);
        assert(l[0].1 == lowercase_of(l[0].0.name));
        if (by_key())(x, l[0]) {
            assert((seq![x] + l).map_values(|p: (SessionModel, Seq<char>)| p.0) =~= seq![x.0] + firsts);
        } else {
            let t = l.drop_first();
            assert(keyed_by_lower_name(t)) by {
                assert forall|i: int| 0 <= i < t.len() implies (#[trigger] t[i]).1 == lowercase_of(t[i].0.name) by {
                    assert(t[i] == l[i + 1]);
                }
            }
            lemma_insert_keyed_lower(t, x);
            assert(t.map_values(|p: (SessionModel, Seq<char>)| p.0) =~= firsts.drop_first());
            assert((seq![l[0]] + insert_by(t, x, by_key())).map_values(|p: (SessionModel, Seq<char>)| p.0)
                =~= seq![l[0].0] + insert_by(t, x, by_key()).map_values(|p: (SessionModel, Seq<char>)| p.0));
        }
    }
}

proof fn lemma_sort_keyed_lower(ps: Seq<(SessionModel, Seq<char>)>)
    requires
        keyed_by_lower_name(ps),
    ensures
        keyed_by_lower_name(sort_by(ps, by_key())),
        sort_by(ps, by_key()).map_values(|p: (SessionModel, Seq<char>)| p.0) == sort_by_lower_name(
            ps.map_values(|p: (SessionModel, Seq<char>)| p.0),
        ),
    decreases ps.len(),
{
    if ps.len() > 0 {
        let d = ps.drop_last();
        assert(keyed_by_lower_name(d)) by {
            assert forall|i: int| 0 <= i < d.len() implies (#[trigger] d[i]).1 == lowercase_of(d[i].0.name) by {
                assert(d[i] == ps[i]);
            }
        }
        lemma_sort_keyed_lower(d);
        let s = sort_by(d, by_key());
        let x = ps.last();
        assert(x.1 == lowercase_of(x.0.name));
        lemma_insert_keyed_lower(s, x);
        let r = insert_by(s, x, by_key());
        assert forall|k: int| 0 <= k < r.len() implies (#[trigger] r[k]).1 == lowercase_of(r[k].0.name) by {
            crate::order::lemma_insert_by_elements(s, x, by_key(), k);
            if r[k] != x {
                let m = choose|m: int| 0 <= m < s.len() && s[m] == r[k];
                assert(s[m].1 == lowercase_of(s[m].0.name));
            }
        }
        let firsts = ps.map_values(|p: (SessionModel, Seq<char>)| p.0);
        assert(d.map_values(|p: (SessionModel, Seq<char>)| p.0) =~= firsts.drop_last());
        assert(firsts.last() == x.0);
    }
}

/// With each session keyed by its lower-cased name, sorting by the keys
/// is sorting by lower-cased name.
pub proof fn lemma_sort_by_keys_is_by_lower_name(ss: Seq<SessionModel>, ks: Seq<Seq<char>>)
    requires
        ks.len() == ss.len(),
        forall|i: int| 0 <= i < ss.len() ==> #[trigger] ks[i] == lowercase_of(ss[i].name),
    ensures
        sort_by_keys(ss, ks) == sort_by_lower_name(ss),
{
    let ps = keyed(ss, ks);
    assert(keyed_by_lower_name(ps)) by {
        assert forall|i: int| 0 <= i < ps.len() implies (#[trigger] ps[i]).1 == lowercase_of(ps[i].0.name) by {
            assert(ps[i] == (ss[i], ks[i]));
        }
    }
    lemma_sort_keyed_lower(ps);
    assert(ps.map_values(|p: (SessionModel, Seq<char>)| p.0) =~= ss);
}

/// The installed compositor sessions from the texts of the `.desktop`
/// files found (in the order the directories were read): deduplicated by
/// display name, the first kept, and sorted by lower-cased name.
pub fn discover(contents: &Vec<String>) -> (r: Vec<Session>)
    ensures
        session_views(r@) == sort_by_lower_name(
            unique_sessions(contents@.map_values(|c: String| c@)),
        ),
{
    let ghost cv = contents@.map_values(|c: String| c@);
    let mut uniq: Vec<Session> = Vec::new();
    let mut i: usize = 0;
    assert(cv.take(0) =~= Seq::<Seq<char>>::empty());
    while i < contents.len()
        invariant
            i <= contents.len(),
            cv == contents@.map_values(|c: String| c@),
            session_views(uniq@) == unique_sessions(cv.take(i as int)),
        decreases contents.len() - i,
    {
        assert(cv.take(i + 1).drop_last() =~= cv.take(i as int));
        assert(cv.take(i + 1).last() == contents@[i as int]@);
        let ghost prev = session_views(uniq@);
        match parse_desktop(contents[i].as_str()) {
            Some(s) => {
                let name = chars_of(s.name.as_str());
                let mut seen = false;
                let mut j: usize = 0;
                while j < uniq.len()
                    invariant
                        j <= uniq.len(),
                        prev == session_views(uniq@),
                        name@ == s@.name,
                        seen == (exists|k: int| 0 <= k < j && (#[trigger] prev[k]).name == s@.name),
                    decreases uniq.len() - j,
                {
                    if vec_eq(&chars_of(uniq[j].name.as_str()), &name) {
                        assert(prev[j as int].name == s@.name);
                        seen = true;
                    }
                    j = j + 1;
                }
                if !seen {
                    uniq.push(s);
                    assert(session_views(uniq@) =~= prev.push(s@));
                }
            },
            None => {},
        }
        i = i + 1;
    }
    assert(cv.take(contents.len() as int) =~= cv);
    let mut keys: Vec<String> = Vec::new();
    let mut k: usize = 0;
    while k < uniq.len()
        invariant
            k <= uniq.len(),
            keys@.len() == k,
            forall|j: int| 0 <= j < k ==> (#[trigger] keys@[j])@ == lowercase_of(uniq@[j].name@),
        decreases uniq.len() - k,
    {
        keys.push(to_lowercase(uniq[k].name.as_str()));
        k = k + 1;
    }
    proof {
        lemma_sort_by_keys_is_by_lower_name(session_views(uniq@), arg_views(keys@));
    }
    sort_sessions_by_keys(&uniq, &keys)
}

/// The full menu: the discovered compositor sessions, then the login shell.
pub fn menu_for(discovered: Vec<Session>, shell: &str) -> (m: Vec<Session>)
    ensures
        m@.len() == discovered@.len() + 1,
        session_views(m@).take(discovered@.len() as int) == session_views(discovered@),
        m@.last()@.name == "Shell (bash)"@,
        m@.last()@.command == shell@,
        m@.last()@.desktop_names == Seq::<char>::empty(),
        m@.last()@.kind == SessionKind::Shell,
{
    let mut m = discovered;
    let ghost before = m@;
    m.push(shell_session(shell));
    assert(session_views(m@).take(before.len() as int) =~= session_views(before));
    m
}

proof fn lemma_filter_idempotent(s: Seq<Seq<char>>, p: spec_fn(Seq<char>) -> bool)
    ensures
        s.filter(p).filter(p) == s.filter(p),
    decreases s.len(),
{
    reveal(Seq::filter);
    if s.len() > 0 {
        lemma_filter_idempotent(s.drop_last(), p);
        let f = s.drop_last().filter(p);
        if p(s.last()) {
            assert(f.push(s.last()).drop_last() =~= f);
            assert(f.push(s.last()).last() == s.last());
        }
    }
}

proof fn lemma_filter_words(s: Seq<Seq<char>>, p: spec_fn(Seq<char>) -> bool)
    requires
        all_words(s),
    ensures
        all_words(s.filter(p)),
{
    assert forall|i: int| 0 <= i < s.filter(p).len() implies is_word(#[trigger] s.filter(p)[i]) by {
        assert(s.filter(p).contains(s.filter(p)[i]));
        s.lemma_filter_contains_rev(p, s.filter(p)[i]);
        let j = choose|j: int| 0 <= j < s.len() && s[j] == s.filter(p)[i];
        assert(is_word(s[j]));
    }
}

/// The words of a stripped command, read back, are its kept words.
proof fn lemma_tokens_of_stripped(exec: Seq<char>)
    ensures
        ws_tokens(strip_field_codes_spec(exec)) == without_field_codes(ws_tokens(exec)),
{
    lemma_ws_split_words(exec, seq![]);
    lemma_filter_words(ws_tokens(exec), not_field_code());
    lemma_ws_tokens_of_join(without_field_codes(ws_tokens(exec)));
}

/// No field code is left in a stripped `Exec` command.
pub proof fn lemma_no_field_code_left(exec: Seq<char>)
    ensures
        forall|i: int|
            0 <= i < ws_tokens(strip_field_codes_spec(exec)).len() ==> !is_field_code(
                #[trigger] ws_tokens(strip_field_codes_spec(exec))[i],
            ),
{
    lemma_tokens_of_stripped(exec);
    let f = without_field_codes(ws_tokens(exec));
    assert forall|i: int| 0 <= i < f.len() implies !is_field_code(#[trigger] f[i]) by {
        ws_tokens(exec).lemma_filter_pred(not_field_code(), i);
    }
}

/// Stripping field codes twice is stripping them once.
pub proof fn lemma_strip_field_codes_idempotent(exec: Seq<char>)
    ensures
        strip_field_codes_spec(strip_field_codes_spec(exec)) == strip_field_codes_spec(exec),
{
    lemma_tokens_of_stripped(exec);
    lemma_filter_idempotent(ws_tokens(exec), not_field_code());
}

} // verus!
