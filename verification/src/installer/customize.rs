//! Rewrites of the staged sysroot's `/etc` files for the operator's choices.
//!
//! Each rewrite is a function from the file's old text to its new text; the
//! caller reads and writes the files.
use vstd::prelude::*;
use crate::clock::{since_unix_epoch, system_now};
use crate::installer::prompt::{opt_string, UserModel};
use crate::installer::spec::{InstallationPlan, ResolvedKeyboard, ResolvedNetwork, ResolvedUser};
use crate::num::{dec_digits, push_decimal};
use crate::text::{
    chars_of, extend, extend_str, join, join_vecs, lines, lines_vec, slice, split_char,
    split_char_vec, starts_with, string_from, trim_start, trim_start_index, vec_eq,
    vec_starts_with, views,
};

verus! {

/// The skeleton's placeholder account, replaced by the chosen user.
pub const PLACEHOLDER_USER: &'static str = "writeonce";

/// Each line followed by a newline.
pub open spec fn newline_join(ls: Seq<Seq<char>>) -> Seq<char>
    decreases ls.len(),
{
    if ls.len() == 0 {
        seq![]
    } else {
        newline_join(ls.drop_last()) + ls.last() + seq!['\n']
    }
}

/// A `passwd` or `shadow` line of the placeholder account.
pub open spec fn is_placeholder(l: Seq<char>) -> bool {
    starts_with(l, "writeonce:"@)
}

/// The lines with every placeholder line replaced by `entry`.
pub open spec fn replace_placeholder(ls: Seq<Seq<char>>, entry: Seq<char>) -> Seq<Seq<char>> {
    ls.map_values(|l: Seq<char>| if is_placeholder(l) { entry } else { l })
}

/// Some line is a placeholder line.
pub open spec fn has_placeholder(ls: Seq<Seq<char>>) -> bool {
    exists|i: int| 0 <= i < ls.len() && is_placeholder(#[trigger] ls[i])
}

/// `text` with each placeholder line replaced by `entry`, every line ended
/// by a newline, and `entry` appended when no line was a placeholder.
pub open spec fn rewrite_with_entry(text: Seq<char>, entry: Seq<char>) -> Seq<char> {
    let ls = lines(text);
    newline_join(replace_placeholder(ls, entry)) + if has_placeholder(ls) {
        seq![]
    } else {
        entry + seq!['\n']
    }
}

/// The `/etc/passwd` entry of the user: `name:x:uid:gid:real name:/home/name:shell`.
pub open spec fn passwd_entry(u: UserModel) -> Seq<char> {
    u.name + ":x:"@ + dec_digits(u.uid as nat) + ":"@ + dec_digits(u.gid as nat) + ":"@
        + u.real_name + ":/home/"@ + u.name + ":"@ + u.shell
}

/// The `/etc/shadow` entry of the user, the password last changed `days`
/// days after the epoch: `name:hash:days:0:99999:7:::`.
pub open spec fn shadow_entry(u: UserModel, days: u64) -> Seq<char> {
    u.name + ":"@ + u.password_hash + ":"@ + dec_digits(days as nat) + ":0:99999:7:::"@
}

/// The `/etc/group` entry of the user's primary group: `name:x:gid:`.
pub open spec fn group_entry(u: UserModel) -> Seq<char> {
    u.name + ":x:"@ + dec_digits(u.gid as nat) + ":"@
}

/// The fields of a `/etc/group` line as `splitn(4, ':')` yields them: the
/// fourth holds the rest of the line.
pub open spec fn group_fields(l: Seq<char>) -> Seq<Seq<char>> {
    let p = split_char(l, ':');
    if p.len() <= 4 {
        p
    } else {
        p.take(3).push(join(p.skip(3), ":"@))
    }
}

/// A member that stays in a group's list: not empty, not the placeholder.
pub open spec fn kept_member(m: Seq<char>) -> bool {
    m.len() > 0 && m != "writeonce"@
}

/// The members of a group's member field that stay.
pub open spec fn kept_members(field: Seq<char>) -> Seq<Seq<char>> {
    split_char(field, ',').filter(kept_member_pred())
}

/// [`kept_member`] as a predicate.
pub open spec fn kept_member_pred() -> spec_fn(Seq<char>) -> bool {
    |m: Seq<char>| kept_member(m)
}

/// The line is the placeholder's primary group.
pub open spec fn is_primary_group_line(l: Seq<char>) -> bool {
    group_fields(l).len() >= 4 && group_fields(l)[0] == "writeonce"@
}

/// One line of `/etc/group` rewritten: a line of fewer than four fields
/// stays; the placeholder group becomes the user's primary group; every
/// other group loses the placeholder (and empty names) from its members,
/// and a group among the user's supplementary groups gains the user.
pub open spec fn rewrite_group_line(l: Seq<char>, u: UserModel) -> Seq<char> {
    let f = group_fields(l);
    if f.len() < 4 {
        l
    } else if f[0] == "writeonce"@ {
        group_entry(u)
    } else {
        let ms = kept_members(f[3]);
        let ms2 = if u.groups.contains(f[0]) && !ms.contains(u.name) {
            ms.push(u.name)
        } else {
            ms
        };
        f[0] + ":"@ + f[1] + ":"@ + f[2] + ":"@ + join(ms2, ","@)
    }
}

/// `/etc/group` rewritten for the user, the primary group appended when
/// the placeholder group was missing.
pub open spec fn group_spec(text: Seq<char>, u: UserModel) -> Seq<char> {
    let ls = lines(text);
    newline_join(ls.map_values(|l: Seq<char>| rewrite_group_line(l, u))) + if exists|i: int|
        0 <= i < ls.len() && is_primary_group_line(#[trigger] ls[i]) {
        seq![]
    } else {
        group_entry(u) + seq!['\n']
    }
}

/// The `setxkbmap` command for a layout and optional variant.
pub open spec fn setxkbmap_line(layout: Seq<char>, variant: Option<Seq<char>>) -> Seq<char> {
    match variant {
        Some(v) => "setxkbmap -layout "@ + layout + " -variant "@ + v,
        None => "setxkbmap "@ + layout,
    }
}

/// A line of `.xinitrc` that runs `setxkbmap`.
pub open spec fn is_setxkbmap_line(l: Seq<char>) -> bool {
    starts_with(trim_start(l), "setxkbmap "@)
}

/// `.xinitrc` with every `setxkbmap` line replaced by `cmd`, the lines
/// joined by newlines and one newline at the end.
pub open spec fn xinitrc_spec(text: Seq<char>, cmd: Seq<char>) -> Seq<char> {
    join(lines(text).map_values(|l: Seq<char>| if is_setxkbmap_line(l) { cmd } else { l }), "\n"@)
        + "\n"@
}

/// `/etc/vconsole.conf` for a layout and optional variant:
/// `KEYMAP=layout[-variant]`.
pub open spec fn vconsole_spec(layout: Seq<char>, variant: Option<Seq<char>>) -> Seq<char> {
    "KEYMAP="@ + layout + match variant {
        Some(v) => "-"@ + v,
        None => seq![],
    } + "\n"@
}

/// Days since the epoch for a clock reading of `secs` seconds past it, and
/// 19500 when the clock reads before the epoch.
pub open spec fn days_spec(secs: Option<u64>) -> u64 {
    match secs {
        Some(s) => (s / 86_400) as u64,
        None => 19_500,
    }
}

proof fn lemma_newline_join_push(ls: Seq<Seq<char>>, i: int)
    requires
        0 <= i < ls.len(),
    ensures
        newline_join(ls.take(i + 1)) == newline_join(ls.take(i)) + ls[i] + seq!['\n'],
{
    assert(ls.take(i + 1).drop_last() =~= ls.take(i));
}

/// Appends a line and its newline.
fn push_line(out: &mut Vec<char>, l: &Vec<char>)
    ensures
        final(out)@ == old(out)@ + l@ + seq!['\n'],
{
    extend(out, l);
    out.push('\n');
}

/// Replaces the placeholder lines of `text` by `entry`, as
/// [`rewrite_with_entry`] says.
fn rewrite_lines_with_entry(text: &str, entry: &Vec<char>) -> (r: Vec<char>)
    ensures
        r@ == rewrite_with_entry(text@, entry@),
{
    let ls = lines_vec(&chars_of(text));
    let ghost lv = views(ls@);
    let ghost mapped = replace_placeholder(lv, entry@);
    let prefix = chars_of("writeonce:");
    let mut out: Vec<char> = Vec::new();
    let mut found = false;
    let mut i: usize = 0;
    assert(mapped.take(0) =~= Seq::<Seq<char>>::empty());
    while i < ls.len()
        invariant
            i <= ls.len(),
            lv == views(ls@),
            lv == lines(text@),
            mapped == replace_placeholder(lv, entry@),
            prefix@ == "writeonce:"@,
            out@ == newline_join(mapped.take(i as int)),
            found == (exists|k: int| 0 <= k < i && is_placeholder(#[trigger] lv[k])),
        decreases ls.len() - i,
    {
        proof {
            lemma_newline_join_push(mapped, i as int);
        }
        if vec_starts_with(&ls[i], &prefix) {
            push_line(&mut out, entry);
            found = true;
        } else {
            push_line(&mut out, &ls[i]);
        }
        i = i + 1;
    }
    assert(mapped.take(ls.len() as int) =~= mapped);
    if !found {
        extend(&mut out, entry);
        out.push('\n');
    }
    out
}

/// The user's `/etc/passwd` entry.
fn passwd_entry_vec(u: &ResolvedUser) -> (r: Vec<char>)
    ensures
        r@ == passwd_entry(u@),
{
    let mut e: Vec<char> = Vec::new();
    extend_str(&mut e, u.name.as_str());
    extend_str(&mut e, ":x:");
    push_decimal(&mut e, u.uid as u64);
    extend_str(&mut e, ":");
    push_decimal(&mut e, u.gid as u64);
    extend_str(&mut e, ":");
    extend_str(&mut e, u.real_name.as_str());
    extend_str(&mut e, ":/home/");
    extend_str(&mut e, u.name.as_str());
    extend_str(&mut e, ":");
    extend_str(&mut e, u.shell.as_str());
    e
}

/// `/etc/passwd` with the placeholder account replaced by the user (or the
/// user appended when there was none).
pub fn rewrite_passwd(text: &str, user: &ResolvedUser) -> (r: String)
    ensures
        r@ == rewrite_with_entry(text@, passwd_entry(user@)),
{
    let e = passwd_entry_vec(user);
    string_from(&rewrite_lines_with_entry(text, &e))
}

/// `/etc/shadow` with the placeholder account replaced by the user's hash,
/// changed `days` days after the epoch (or appended when there was none);
/// `root` and every other line stay.
pub fn rewrite_shadow(text: &str, user: &ResolvedUser, days: u64) -> (r: String)
    ensures
        r@ == rewrite_with_entry(text@, shadow_entry(user@, days)),
{
    let mut e: Vec<char> = Vec::new();
    extend_str(&mut e, user.name.as_str());
    extend_str(&mut e, ":");
    extend_str(&mut e, user.password_hash.as_str());
    extend_str(&mut e, ":");
    push_decimal(&mut e, days);
    extend_str(&mut e, ":0:99999:7:::");
    string_from(&rewrite_lines_with_entry(text, &e))
}

/// Days since the epoch from a clock reading, as [`days_spec`] says.
pub fn days_from_reading(secs: Option<u64>) -> (d: u64)
    ensures
        d == days_spec(secs),
{
    match secs {
        Some(s) => s / 86_400,
        None => 19_500,
    }
}

/// Days since the epoch by the system clock (19500 when it reads before
/// the epoch).
pub fn days_since_epoch() -> (d: u64)
    ensures
        exists|s: Option<u64>| d == days_spec(s),
{
    let now = system_now();
    let secs = match since_unix_epoch(&now) {
        Some((s, _)) => Some(s),
        None => None,
    };
    days_from_reading(secs)
}

/// `/etc/shadow` rewritten for the user, the change day read from the
/// clock.
pub fn rewrite_shadow_now(text: &str, user: &ResolvedUser) -> (r: String)
    ensures
        exists|days: u64| r@ == rewrite_with_entry(text@, shadow_entry(user@, days)),
{
    let days = days_since_epoch();
    rewrite_shadow(text, user, days)
}

/// `splitn(4, ':')` of a group line.
fn group_fields_vec(l: &Vec<char>) -> (r: Vec<Vec<char>>)
    ensures
        views(r@) == group_fields(l@),
{
    let p = split_char_vec(l, ':');
    if p.len() <= 4 {
        return p;
    }
    let ghost pv = views(p@);
    let mut head: Vec<Vec<char>> = Vec::new();
    let mut rest: Vec<Vec<char>> = Vec::new();
    let mut i: usize = 0;
    while i < p.len()
        invariant
            4 < p.len(),
            i <= p.len(),
            pv == views(p@),
            i <= 3 ==> views(head@) == pv.take(i as int) && rest@.len() == 0,
            i > 3 ==> views(head@) == pv.take(3) && views(rest@) == pv.subrange(3, i as int),
        decreases p.len() - i,
    {
        let c = slice(&p[i], 0, p[i].len());
        assert(p[i as int]@.subrange(0, p[i as int]@.len() as int) =~= p[i as int]@);
        if i < 3 {
            let ghost before = head@;
            head.push(c);
            assert(views(head@) =~= pv.take(i + 1));
        } else {
            let ghost before = rest@;
            rest.push(c);
            assert(views(rest@) =~= pv.subrange(3, i + 1));
        }
        i = i + 1;
    }
    assert(pv.subrange(3, p.len() as int) =~= pv.skip(3));
    let sep = chars_of(":");
    let tail = join_vecs(&rest, &sep);
    let ghost hv = views(head@);
    head.push(tail);
    assert(views(head@) =~= hv.push(tail@));
    head
}

/// The members of a member field that stay, in order.
fn kept_members_vec(field: &Vec<char>) -> (r: Vec<Vec<char>>)
    ensures
        views(r@) == kept_members(field@),
{
    let parts = split_char_vec(field, ',');
    let ghost pv = views(parts@);
    let placeholder = chars_of(PLACEHOLDER_USER);
    proof {
        reveal_strlit("writeonce");
    }
    let mut out: Vec<Vec<char>> = Vec::new();
    let mut i: usize = 0;
    assert(pv.take(0) =~= Seq::<Seq<char>>::empty());
    assert(pv.take(0).filter(kept_member_pred()) =~= Seq::<Seq<char>>::empty()) by {
        reveal(Seq::filter);
    }
    while i < parts.len()
        invariant
            i <= parts.len(),
            pv == views(parts@),
            pv == split_char(field@, ','),
            placeholder@ == "writeonce"@,
            views(out@) == pv.take(i as int).filter(kept_member_pred()),
        decreases parts.len() - i,
    {
        let ghost t = pv.take(i + 1);
        assert(t.drop_last() =~= pv.take(i as int));
        assert(t.last() == parts@[i as int]@);
        assert(t.len() > 0);
        assert((kept_member_pred())(t.last()) == kept_member(t.last()));
        assert(t.filter(kept_member_pred()) == if kept_member(t.last()) {
            pv.take(i as int).filter(kept_member_pred()).push(t.last())
        } else {
            pv.take(i as int).filter(kept_member_pred())
        }) by {
            reveal(Seq::filter);
        }
        let m = &parts[i];
        if m.len() > 0 && !vec_eq(m, &placeholder) {
            let c = slice(m, 0, m.len());
            assert(m@.subrange(0, m@.len() as int) =~= m@);
            let ghost before = out@;
            out.push(c);
            assert(views(out@) =~= views(before).push(c@));
        }
        i = i + 1;
    }
    assert(pv.take(parts.len() as int) =~= pv);
    out
}

/// Whether `x` is one of `xs`.
fn contains_vec(xs: &Vec<Vec<char>>, x: &Vec<char>) -> (b: bool)
    ensures
        b == views(xs@).contains(x@),
{
    let mut i: usize = 0;
    while i < xs.len()
        invariant
            i <= xs.len(),
            forall|k: int| 0 <= k < i ==> views(xs@)[k] != x@,
        decreases xs.len() - i,
    {
        if vec_eq(&xs[i], x) {
            assert(views(xs@)[i as int] == x@);
            return true;
        }
        i = i + 1;
    }
    false
}

/// Whether `x` is one of the strings `xs`.
fn contains_string(xs: &Vec<String>, x: &Vec<char>) -> (b: bool)
    ensures
        b == xs@.map_values(|s: String| s@).contains(x@),
{
    let ghost sv = xs@.map_values(|s: String| s@);
    let mut i: usize = 0;
    while i < xs.len()
        invariant
            i <= xs.len(),
            sv == xs@.map_values(|s: String| s@),
            forall|k: int| 0 <= k < i ==> sv[k] != x@,
        decreases xs.len() - i,
    {
        if vec_eq(&chars_of(xs[i].as_str()), x) {
            assert(sv[i as int] == x@);
            return true;
        }
        i = i + 1;
    }
    false
}

/// The user's primary group entry.
fn group_entry_vec(u: &ResolvedUser) -> (r: Vec<char>)
    ensures
        r@ == group_entry(u@),
{
    let mut e: Vec<char> = Vec::new();
    extend_str(&mut e, u.name.as_str());
    extend_str(&mut e, ":x:");
    push_decimal(&mut e, u.gid as u64);
    extend_str(&mut e, ":");
    e
}

/// One `/etc/group` line rewritten, as [`rewrite_group_line`] says, and
/// whether it was the placeholder group.
fn rewrite_group_line_vec(l: &Vec<char>, u: &ResolvedUser) -> (r: (Vec<char>, bool))
    ensures
        r.0@ == rewrite_group_line(l@, u@),
        r.1 == is_primary_group_line(l@),
{
    let f = group_fields_vec(l);
    if f.len() < 4 {
        return (slice(l, 0, l.len()), false);
    }
    proof {
        assert(l@.subrange(0, l@.len() as int) =~= l@);
    }
    let placeholder = chars_of(PLACEHOLDER_USER);
    if vec_eq(&f[0], &placeholder) {
        return (group_entry_vec(u), true);
    }
    let mut ms = kept_members_vec(&f[3]);
    let name = chars_of(u.name.as_str());
    if contains_string(&u.groups, &f[0]) && !contains_vec(&ms, &name) {
        let ghost before = ms@;
        ms.push(name);
        assert(views(ms@) =~= views(before).push(u.name@));
    }
    let mut out: Vec<char> = Vec::new();
    extend(&mut out, &f[0]);
    out.push(':');
    extend(&mut out, &f[1]);
    out.push(':');
    extend(&mut out, &f[2]);
    out.push(':');
    let joined = join_vecs(&ms, &chars_of(","));
    extend(&mut out, &joined);
    proof {
        reveal_strlit(":");
    }
    assert(out@ =~= rewrite_group_line(l@, u@));
    (out, false)
}

/// `/etc/group` with the placeholder group replaced by the user's primary
/// group, the placeholder dropped from every member list and the user added
/// to the supplementary groups, as [`group_spec`] says.
pub fn rewrite_group(text: &str, user: &ResolvedUser) -> (r: String)
    ensures
        r@ == group_spec(text@, user@),
{
    let ls = lines_vec(&chars_of(text));
    let ghost lv = views(ls@);
    let ghost mapped = lv.map_values(|l: Seq<char>| rewrite_group_line(l, user@));
    let mut out: Vec<char> = Vec::new();
    let mut found = false;
    let mut i: usize = 0;
    assert(mapped.take(0) =~= Seq::<Seq<char>>::empty());
    while i < ls.len()
        invariant
            i <= ls.len(),
            lv == views(ls@),
            lv == lines(text@),
            mapped == lv.map_values(|l: Seq<char>| rewrite_group_line(l, user@)),
            out@ == newline_join(mapped.take(i as int)),
            found == (exists|k: int| 0 <= k < i && is_primary_group_line(#[trigger] lv[k])),
        decreases ls.len() - i,
    {
        proof {
            lemma_newline_join_push(mapped, i as int);
        }
        let (line, primary) = rewrite_group_line_vec(&ls[i], user);
        push_line(&mut out, &line);
        if primary {
            found = true;
        }
        i = i + 1;
    }
    assert(mapped.take(ls.len() as int) =~= mapped);
    if !found {
        let e = group_entry_vec(user);
        extend(&mut out, &e);
        out.push('\n');
    }
    string_from(&out)
}

/// The `setxkbmap` command for the keyboard.
pub fn setxkbmap_command(kbd: &ResolvedKeyboard) -> (r: String)
    ensures
        r@ == setxkbmap_line(kbd.layout@, opt_string(kbd.variant)),
{
    let mut c: Vec<char> = Vec::new();
    match &kbd.variant {
        Some(v) => {
            extend_str(&mut c, "setxkbmap -layout ");
            extend_str(&mut c, kbd.layout.as_str());
            extend_str(&mut c, " -variant ");
            extend_str(&mut c, v.as_str());
        },
        None => {
            extend_str(&mut c, "setxkbmap ");
            extend_str(&mut c, kbd.layout.as_str());
        },
    }
    string_from(&c)
}

/// `.xinitrc` with its `setxkbmap` lines set to the keyboard's layout, as
/// [`xinitrc_spec`] says.
pub fn patch_xinitrc(text: &str, kbd: &ResolvedKeyboard) -> (r: String)
    ensures
        r@ == xinitrc_spec(text@, setxkbmap_line(kbd.layout@, opt_string(kbd.variant))),
{
    let cmd = chars_of(setxkbmap_command(kbd).as_str());
    let ls = lines_vec(&chars_of(text));
    let ghost lv = views(ls@);
    let ghost mapped = lv.map_values(|l: Seq<char>| if is_setxkbmap_line(l) { cmd@ } else { l });
    let prefix = chars_of("setxkbmap ");
    let mut parts: Vec<Vec<char>> = Vec::new();
    let mut i: usize = 0;
    while i < ls.len()
        invariant
            i <= ls.len(),
            lv == views(ls@),
            mapped == lv.map_values(|l: Seq<char>| if is_setxkbmap_line(l) { cmd@ } else { l }),
            prefix@ == "setxkbmap "@,
            views(parts@) == mapped.take(i as int),
        decreases ls.len() - i,
    {
        let line = &ls[i];
        let k = trim_start_index(line);
        let rest = slice(line, k, line.len());
        assert(rest@ =~= line@.skip(k as int));
        assert(lv[i as int] == line@);
        assert(mapped[i as int] == (if is_setxkbmap_line(line@) { cmd@ } else { line@ }));
        let item = if vec_starts_with(&rest, &prefix) {
            assert(cmd@.subrange(0, cmd@.len() as int) =~= cmd@);
            slice(&cmd, 0, cmd.len())
        } else {
            assert(line@.subrange(0, line@.len() as int) =~= line@);
            slice(line, 0, line.len())
        };
        assert(item@ == mapped[i as int]);
        let ghost before = parts@;
        parts.push(item);
        assert(views(parts@) =~= views(before).push(item@));
        assert(mapped.take(i + 1) =~= mapped.take(i as int).push(mapped[i as int]));
        i = i + 1;
    }
    assert(mapped.take(ls.len() as int) =~= mapped);
    let nl = chars_of("\n");
    let mut out = join_vecs(&parts, &nl);
    extend(&mut out, &nl);
    string_from(&out)
}

/// `/etc/vconsole.conf` for the keyboard.
pub fn vconsole_conf(kbd: &ResolvedKeyboard) -> (r: String)
    ensures
        r@ == vconsole_spec(kbd.layout@, opt_string(kbd.variant)),
{
    let mut c: Vec<char> = Vec::new();
    extend_str(&mut c, "KEYMAP=");
    extend_str(&mut c, kbd.layout.as_str());
    match &kbd.variant {
        Some(v) => {
            extend_str(&mut c, "-");
            extend_str(&mut c, v.as_str());
        },
        None => {},
    }
    extend_str(&mut c, "\n");
    proof {
        assert(c@ =~= vconsole_spec(kbd.layout@, opt_string(kbd.variant)));
    }
    string_from(&c)
}

/// Where the staged unit file of `default.target` lives, below the root.
pub const DEFAULT_TARGET_PATH: &'static str = "etc/writeonce/services/default.target.toml";

/// `default.target` for a headless install: it requires `multi-user.target`
/// so the pre-enabled network units start at boot.
pub const HEADLESS_DEFAULT_TARGET: &'static str = "# Rewritten by writeonce-installer (network.enabled_at_boot=true).\n\
# default.target requires multi-user.target so enabled.d entries\n\
# (iwd, dhcpcd, modules-load) fire at boot \u{2014} necessary for SSH/headless.\n\
\n\
[unit]\n\
description = \"Default supervisor target \u{2014} headless (network at boot)\"\n\
requires    = [\"multi-user.target\"]\n\
after       = [\"multi-user.target\"]\n";

/// A file the installer writes: its path below the root and its text.
pub struct FileWrite {
    pub path: String,
    pub body: String,
}

/// The units a headless install pre-enables.
pub open spec fn network_units() -> Seq<Seq<char>> {
    seq!["iwd.service"@, "dhcpcd.service"@, "writeonce-modules-load.service"@]
}

/// The `enabled.d` stub of a unit, below the root.
pub open spec fn stub_path(unit: Seq<char>) -> Seq<char> {
    "etc/writeonce/enabled.d/"@ + unit + ".toml"@
}

/// The text of a unit's `enabled.d` stub: one `unit = "<name>"` key.
pub open spec fn stub_body(unit: Seq<char>) -> Seq<char> {
    "# Pre-enabled by writeonce-installer (network.enabled_at_boot=true).\n"@ + "unit = \""@
        + unit + "\"\n"@
}

/// The files written for the network choice: none when the network stays
/// opt-in; otherwise a stub per unit and, when the staged `default.target`
/// exists, its headless version.
pub open spec fn network_plan(enabled: bool, default_target_exists: bool) -> Seq<
    (Seq<char>, Seq<char>),
> {
    if !enabled {
        seq![]
    } else {
        network_units().map_values(|u: Seq<char>| (stub_path(u), stub_body(u))) + if default_target_exists {
            seq![(DEFAULT_TARGET_PATH@, HEADLESS_DEFAULT_TARGET@)]
        } else {
            seq![]
        }
    }
}

/// The paths and texts of a list of file writes.
pub open spec fn write_views(w: Seq<FileWrite>) -> Seq<(Seq<char>, Seq<char>)> {
    w.map_values(|f: FileWrite| (f.path@, f.body@))
}

fn unit_stub(unit: &str) -> (f: FileWrite)
    ensures
        f.path@ == stub_path(unit@),
        f.body@ == stub_body(unit@),
{
    let mut p: Vec<char> = Vec::new();
    extend_str(&mut p, "etc/writeonce/enabled.d/");
    extend_str(&mut p, unit);
    extend_str(&mut p, ".toml");
    let mut b: Vec<char> = Vec::new();
    extend_str(&mut b, "# Pre-enabled by writeonce-installer (network.enabled_at_boot=true).\n");
    extend_str(&mut b, "unit = \"");
    extend_str(&mut b, unit);
    extend_str(&mut b, "\"\n");
    FileWrite { path: string_from(&p), body: string_from(&b) }
}

/// The files to write for the network choice, as [`network_plan`] says.
pub fn network_writes(net: ResolvedNetwork, default_target_exists: bool) -> (r: Vec<FileWrite>)
    ensures
        write_views(r@) == network_plan(net.enabled_at_boot, default_target_exists),
{
    let mut r: Vec<FileWrite> = Vec::new();
    if !net.enabled_at_boot {
        assert(write_views(r@) =~= Seq::<(Seq<char>, Seq<char>)>::empty());
        return r;
    }
    r.push(unit_stub("iwd.service"));
    r.push(unit_stub("dhcpcd.service"));
    r.push(unit_stub("writeonce-modules-load.service"));
    if default_target_exists {
        r.push(FileWrite {
            path: String::from_str(DEFAULT_TARGET_PATH),
            body: String::from_str(HEADLESS_DEFAULT_TARGET),
        });
    }
    assert(write_views(r@) =~= network_plan(net.enabled_at_boot, default_target_exists));
    r
}

/// What becomes of the skeleton's home directory.
#[derive(Debug, Clone, Copy, PartialEq, Eq)]
pub enum HomeAction {
    /// No skeleton home: create the user's.
    Create,
    /// The user is the placeholder: the skeleton home is theirs.
    Keep,
    /// Move the skeleton home to the user's name.
    Rename,
}

/// The decision for the home directory.
pub open spec fn home_action_spec(skeleton_exists: bool, name: Seq<char>) -> HomeAction {
    if !skeleton_exists {
        HomeAction::Create
    } else if name == "writeonce"@ {
        HomeAction::Keep
    } else {
        HomeAction::Rename
    }
}

/// Decides what becomes of `home/writeonce` for the user `name`.
pub fn home_action(skeleton_exists: bool, name: &str) -> (a: HomeAction)
    ensures
        a == home_action_spec(skeleton_exists, name@),
{
    if !skeleton_exists {
        HomeAction::Create
    } else if vec_eq(&chars_of(name), &chars_of(PLACEHOLDER_USER)) {
        proof {
            reveal_strlit("writeonce");
        }
        HomeAction::Keep
    } else {
        proof {
            reveal_strlit("writeonce");
        }
        HomeAction::Rename
    }
}

/// The user's home directory below the root: `home/<name>`.
pub fn home_dir(name: &str) -> (p: String)
    ensures
        p@ == "home/"@ + name@,
{
    let mut v: Vec<char> = Vec::new();
    extend_str(&mut v, "home/");
    extend_str(&mut v, name);
    string_from(&v)
}

/// The staged sysroot's files that the customisation reads.
pub struct SysrootTexts {
    /// `etc/passwd`.
    pub passwd: String,
    /// `etc/shadow`.
    pub shadow: String,
    /// `etc/group`.
    pub group: String,
    /// The user's `.xinitrc` (after the home step), when there is one.
    pub xinitrc: Option<String>,
    /// Whether `etc/writeonce/services/default.target.toml` exists.
    pub default_target_exists: bool,
}

/// Every file the customisation writes, below the root, in order:
/// `passwd`, `shadow` (changed `days` days after the epoch), `group`, the
/// user's `.xinitrc` when there is one, `vconsole.conf`, then the network
/// files.
pub open spec fn apply_spec(
    u: UserModel,
    layout: Seq<char>,
    variant: Option<Seq<char>>,
    network: bool,
    passwd: Seq<char>,
    shadow: Seq<char>,
    group: Seq<char>,
    xinitrc: Option<Seq<char>>,
    default_target_exists: bool,
    days: u64,
) -> Seq<(Seq<char>, Seq<char>)> {
    seq![
        ("etc/passwd"@, rewrite_with_entry(passwd, passwd_entry(u))),
        ("etc/shadow"@, rewrite_with_entry(shadow, shadow_entry(u, days))),
        ("etc/group"@, group_spec(group, u)),
    ] + match xinitrc {
        Some(t) => seq![
            ("home/"@ + u.name + "/.xinitrc"@, xinitrc_spec(t, setxkbmap_line(layout, variant))),
        ],
        None => seq![],
    } + seq![("etc/vconsole.conf"@, vconsole_spec(layout, variant))] + network_plan(
        network,
        default_target_exists,
    )
}

/// The files that make the staged sysroot the operator's: the account in
/// `passwd`, `shadow` and `group`, the keyboard in `.xinitrc` and
/// `vconsole.conf`, and the network choice, as [`apply_spec`] says.
pub fn apply(plan: &InstallationPlan, texts: &SysrootTexts, days: u64) -> (r: Vec<FileWrite>)
    ensures
        write_views(r@) == apply_spec(
            plan.user@,
            plan.keyboard.layout@,
            opt_string(plan.keyboard.variant),
            plan.network.enabled_at_boot,
            texts.passwd@,
            texts.shadow@,
            texts.group@,
            opt_string(texts.xinitrc),
            texts.default_target_exists,
            days,
        ),
{
    let mut r: Vec<FileWrite> = Vec::new();
    r.push(FileWrite {
        path: String::from_str("etc/passwd"),
        body: rewrite_passwd(texts.passwd.as_str(), &plan.user),
    });
    r.push(FileWrite {
        path: String::from_str("etc/shadow"),
        body: rewrite_shadow(texts.shadow.as_str(), &plan.user, days),
    });
    r.push(FileWrite {
        path: String::from_str("etc/group"),
        body: rewrite_group(texts.group.as_str(), &plan.user),
    });
    match &texts.xinitrc {
        Some(t) => {
            let mut p = chars_of("home/");
            extend_str(&mut p, plan.user.name.as_str());
            extend_str(&mut p, "/.xinitrc");
            r.push(FileWrite { path: string_from(&p), body: patch_xinitrc(t.as_str(), &plan.keyboard) });
        },
        None => {},
    }
    r.push(FileWrite { path: String::from_str("etc/vconsole.conf"), body: vconsole_conf(&plan.keyboard) });
    let ghost before = write_views(r@);
    let net = network_writes(plan.network, texts.default_target_exists);
    let ghost nv = write_views(net@);
    let mut i: usize = 0;
    while i < net.len()
        invariant
            i <= net.len(),
            nv == write_views(net@),
            write_views(r@) == before + nv.take(i as int),
        decreases net.len() - i,
    {
        let ghost r0 = r@;
        let w = FileWrite { path: net[i].path.clone(), body: net[i].body.clone() };
        assert(nv[i as int] == (w.path@, w.body@));
        r.push(w);
        assert(write_views(r@) =~= write_views(r0).push(nv[i as int]));
        assert(nv.take(i + 1) =~= nv.take(i as int).push(nv[i as int]));
        assert(write_views(r@) =~= before + nv.take(i + 1));
        i = i + 1;
    }
    assert(nv.take(net.len() as int) =~= nv);
    assert(write_views(r@) =~= apply_spec(
        plan.user@,
        plan.keyboard.layout@,
        opt_string(plan.keyboard.variant),
        plan.network.enabled_at_boot,
        texts.passwd@,
        texts.shadow@,
        texts.group@,
        opt_string(texts.xinitrc),
        texts.default_target_exists,
        days,
    ));
    r
}

} // verus!
