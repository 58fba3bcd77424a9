//! `/proc/cmdline` parser.
//!
//! Recognises the kernel boot parameters that affect initramfs behaviour:
//! `root=UUID=…` / `root=PARTUUID=…` / `root=LABEL=…` / `root=/dev/sdaN`,
//! `rootfstype=`, `rootflags=`, `init=`, `wo.recovery` (and its synonym
//! `wo.fake`), `writeonce.rootwait=N`, and the `ro` / `rw` tokens that decide
//! whether the real root is mounted read-only.
use vstd::prelude::*;
use crate::num::{parse_u64, parse_u64_vec};
use crate::text::{
    chars_of, slice, starts_with, string_of, vec_eq, vec_starts_with, views, ws_tokens,
    ws_tokens_vec,
};

verus! {

/// `MS_RDONLY` from `<sys/mount.h>`, read from the `libc` crate; the
/// contract states its Linux value, as libc's source defines it.
#[verifier::external_body]
fn ms_rdonly() -> (r: u64)
    ensures
        r == 1,
{
    libc::MS_RDONLY as u64
}

/// `MS_NOATIME` from `<sys/mount.h>`, read from the `libc` crate; the
/// contract states its Linux value, as libc's source defines it.
#[verifier::external_body]
fn ms_noatime() -> (r: u64)
    ensures
        r == 0x400,
{
    libc::MS_NOATIME as u64
}

/// Mount flag: read-only.
pub open spec fn MS_RDONLY() -> u64 { 1 }

/// Mount flag: do not update access times.
pub open spec fn MS_NOATIME() -> u64 { 0x400 }

/// Which device holds the real root filesystem.
#[derive(Debug, Clone, PartialEq, Eq)]
pub enum RootSpec {
    /// `root=UUID=ccdc4477-...`
    Uuid(String),
    /// `root=PARTUUID=...`
    PartUuid(String),
    /// `root=LABEL=...`
    Label(String),
    /// `root=/dev/sda3`
    Device(String),
}

/// The mathematical value of a [`RootSpec`].
pub enum RootSpecModel {
    Uuid(Seq<char>),
    PartUuid(Seq<char>),
    Label(Seq<char>),
    Device(Seq<char>),
}

impl View for RootSpec {
    type V = RootSpecModel;

    open spec fn view(&self) -> RootSpecModel {
        match self {
            RootSpec::Uuid(s) => RootSpecModel::Uuid(s@),
            RootSpec::PartUuid(s) => RootSpecModel::PartUuid(s@),
            RootSpec::Label(s) => RootSpecModel::Label(s@),
            RootSpec::Device(s) => RootSpecModel::Device(s@),
        }
    }
}

/// The parsed kernel command line.
#[derive(Debug, Default, Clone)]
pub struct CmdLine {
    pub root_spec: Option<RootSpec>,
    pub rootfstype: Option<String>,
    pub rootflags: Option<String>,
    pub init_path: String,
    pub recovery: bool,
    /// Seconds to wait for the root device to appear before giving up.
    /// Default 30; `writeonce.rootwait=N` on the command line.
    pub rootwait_secs: u64,
    /// `mount(2)` flags for the real root: `MS_NOATIME` by default, plus
    /// `MS_RDONLY` after an `ro` token and without it after an `rw` token
    /// (the last of the two wins).
    pub mount_flags: u64,
}

/// The mathematical value of a [`CmdLine`].
pub struct CmdLineModel {
    pub root_spec: Option<RootSpecModel>,
    pub rootfstype: Option<Seq<char>>,
    pub rootflags: Option<Seq<char>>,
    pub init_path: Seq<char>,
    pub recovery: bool,
    pub rootwait_secs: u64,
    pub mount_flags: u64,
}

impl View for CmdLine {
    type V = CmdLineModel;

    open spec fn view(&self) -> CmdLineModel {
        CmdLineModel {
            root_spec: match self.root_spec {
                Some(r) => Some(r@),
                None => None,
            },
            rootfstype: match self.rootfstype {
                Some(s) => Some(s@),
                None => None,
            },
            rootflags: match self.rootflags {
                Some(s) => Some(s@),
                None => None,
            },
            init_path: self.init_path@,
            recovery: self.recovery,
            rootwait_secs: self.rootwait_secs,
            mount_flags: self.mount_flags,
        }
    }
}

/// The value of `root=` after its prefix.
pub open spec fn root_spec_of(v: Seq<char>) -> RootSpecModel {
    if starts_with(v, "UUID="@) {
        RootSpecModel::Uuid(v.skip(5))
    } else if starts_with(v, "PARTUUID="@) {
        RootSpecModel::PartUuid(v.skip(9))
    } else if starts_with(v, "LABEL="@) {
        RootSpecModel::Label(v.skip(6))
    } else {
        RootSpecModel::Device(v)
    }
}

/// The command line before any token is read.
pub open spec fn cmdline_defaults() -> CmdLineModel {
    CmdLineModel {
        root_spec: None,
        rootfstype: None,
        rootflags: None,
        init_path: "/sbin/writeonce-pid1"@,
        recovery: false,
        rootwait_secs: 30,
        mount_flags: MS_NOATIME(),
    }
}

/// The effect of one whitespace-separated token.
pub open spec fn apply_token(c: CmdLineModel, t: Seq<char>) -> CmdLineModel {
    if starts_with(t, "root="@) {
        CmdLineModel { root_spec: Some(root_spec_of(t.skip(5))), ..c }
    } else if starts_with(t, "rootfstype="@) {
        CmdLineModel { rootfstype: Some(t.skip(11)), ..c }
    } else if starts_with(t, "rootflags="@) {
        CmdLineModel { rootflags: Some(t.skip(10)), ..c }
    } else if starts_with(t, "init="@) {
        CmdLineModel { init_path: t.skip(5), ..c }
    } else if starts_with(t, "writeonce.rootwait="@) {
        CmdLineModel {
            rootwait_secs: match parse_u64(t.skip(19)) {
                Some(n) => n,
                None => 0,
            },
            ..c
        }
    } else if t == "rw"@ {
        CmdLineModel { mount_flags: c.mount_flags & !MS_RDONLY(), ..c }
    } else if t == "ro"@ {
        CmdLineModel { mount_flags: c.mount_flags | MS_RDONLY(), ..c }
    } else if t == "wo.recovery"@ || t == "wo.fake"@ {
        CmdLineModel { recovery: true, ..c }
    } else {
        c
    }
}

/// The command line after reading `toks` from left to right.
pub open spec fn cmdline_of_tokens(toks: Seq<Seq<char>>) -> CmdLineModel
    decreases toks.len(),
{
    if toks.len() == 0 {
        cmdline_defaults()
    } else {
        apply_token(cmdline_of_tokens(toks.drop_last()), toks.last())
    }
}

/// What [`CmdLine::parse`] makes of the text `s`.
pub open spec fn cmdline_spec(s: Seq<char>) -> CmdLineModel {
    cmdline_of_tokens(ws_tokens(s))
}

/// Prefix literals, with their views.
fn lit(s: &str) -> (v: Vec<char>)
    ensures
        v@ == s@,
{
    chars_of(s)
}

fn root_spec_from(v: &Vec<char>) -> (r: RootSpec)
    ensures
        r@ == root_spec_of(v@),
{
    let uuid = lit("UUID=");
    let partuuid = lit("PARTUUID=");
    let label = lit("LABEL=");
    proof {
        reveal_strlit("UUID=");
        reveal_strlit("PARTUUID=");
        reveal_strlit("LABEL=");
    }
    let n = v.len();
    assert(v@.subrange(0, n as int) =~= v@);
    assert(n >= 5 ==> v@.subrange(5, n as int) =~= v@.skip(5));
    assert(n >= 9 ==> v@.subrange(9, n as int) =~= v@.skip(9));
    assert(n >= 6 ==> v@.subrange(6, n as int) =~= v@.skip(6));
    if vec_starts_with(v, &uuid) {
        RootSpec::Uuid(string_of(v, 5, v.len()))
    } else if vec_starts_with(v, &partuuid) {
        RootSpec::PartUuid(string_of(v, 9, v.len()))
    } else if vec_starts_with(v, &label) {
        RootSpec::Label(string_of(v, 6, v.len()))
    } else {
        RootSpec::Device(string_of(v, 0, v.len()))
    }
}

impl CmdLine {
    /// Reads one token into the command line.
    fn apply(&mut self, t: &Vec<char>)
        ensures
            final(self)@ == apply_token(old(self)@, t@),
    {
        let root = lit("root=");
        let fstype = lit("rootfstype=");
        let flags = lit("rootflags=");
        let init = lit("init=");
        let wait = lit("writeonce.rootwait=");
        let rw = lit("rw");
        let ro = lit("ro");
        let rec = lit("wo.recovery");
        let fake = lit("wo.fake");
        proof {
            reveal_strlit("root=");
            reveal_strlit("rootfstype=");
            reveal_strlit("rootflags=");
            reveal_strlit("init=");
            reveal_strlit("writeonce.rootwait=");
        }
        let n = t.len();
        if vec_starts_with(t, &root) {
            let v = slice(t, 5, n);
            assert(v@ =~= t@.skip(5));
            self.root_spec = Some(root_spec_from(&v));
        } else if vec_starts_with(t, &fstype) {
            self.rootfstype = Some(string_of(t, 11, n));
            assert(t@.subrange(11, n as int) =~= t@.skip(11));
        } else if vec_starts_with(t, &flags) {
            self.rootflags = Some(string_of(t, 10, n));
            assert(t@.subrange(10, n as int) =~= t@.skip(10));
        } else if vec_starts_with(t, &init) {
            self.init_path = string_of(t, 5, n);
            assert(t@.subrange(5, n as int) =~= t@.skip(5));
        } else if vec_starts_with(t, &wait) {
            let v = slice(t, 19, n);
            assert(v@ =~= t@.skip(19));
            self.rootwait_secs = match parse_u64_vec(&v) {
                Some(x) => x,
                None => 0,
            };
        } else if vec_eq(t, &rw) {
            self.mount_flags = self.mount_flags & !ms_rdonly();
        } else if vec_eq(t, &ro) {
            self.mount_flags = self.mount_flags | ms_rdonly();
        } else if vec_eq(t, &rec) || vec_eq(t, &fake) {
            self.recovery = true;
        }
    }

    /// Parses the text of `/proc/cmdline`.
    pub fn parse(s: &str) -> (c: CmdLine)
        ensures
            c@ == cmdline_spec(s@),
    {
        let v = chars_of(s);
        let toks = ws_tokens_vec(&v);
        let mut out = CmdLine {
            root_spec: None,
            rootfstype: None,
            rootflags: None,
            init_path: String::from_str("/sbin/writeonce-pid1"),
            recovery: false,
            rootwait_secs: 30,
            mount_flags: ms_noatime(),
        };
        let ghost all = views(toks@);
        assert(all.take(0) =~= Seq::<Seq<char>>::empty());
        let mut i: usize = 0;
        while i < toks.len()
            invariant
                i <= toks.len(),
                all == views(toks@),
                all == ws_tokens(v@),
                out@ == cmdline_of_tokens(all.take(i as int)),
            decreases toks.len() - i,
        {
            assert(all.take(i + 1).drop_last() =~= all.take(i as int));
            out.apply(&toks[i]);
            i = i + 1;
        }
        assert(all.take(toks.len() as int) =~= all);
        out
    }
}

/// The last `ro` or `rw` token: `Some(true)` for `ro`.
pub open spec fn last_ro_rw(toks: Seq<Seq<char>>) -> Option<bool>
    decreases toks.len(),
{
    if toks.len() == 0 {
        None
    } else if toks.last() == "ro"@ {
        Some(true)
    } else if toks.last() == "rw"@ {
        Some(false)
    } else {
        last_ro_rw(toks.drop_last())
    }
}

proof fn lemma_token_literals()
    ensures
        "ro"@ != "rw"@,
        !starts_with("ro"@, "root="@) && !starts_with("rw"@, "root="@),
        !starts_with("ro"@, "rootfstype="@) && !starts_with("rw"@, "rootfstype="@),
        !starts_with("ro"@, "rootflags="@) && !starts_with("rw"@, "rootflags="@),
        !starts_with("ro"@, "init="@) && !starts_with("rw"@, "init="@),
        !starts_with("ro"@, "writeonce.rootwait="@) && !starts_with("rw"@, "writeonce.rootwait="@),
        !starts_with("wo.recovery"@, "root="@) && !starts_with("wo.fake"@, "root="@),
        !starts_with("wo.recovery"@, "rootfstype="@) && !starts_with("wo.fake"@, "rootfstype="@),
        !starts_with("wo.recovery"@, "rootflags="@) && !starts_with("wo.fake"@, "rootflags="@),
        !starts_with("wo.recovery"@, "init="@) && !starts_with("wo.fake"@, "init="@),
        !starts_with("wo.recovery"@, "writeonce.rootwait="@) && !starts_with(
            "wo.fake"@,
            "writeonce.rootwait="@,
        ),
        "wo.recovery"@ != "rw"@ && "wo.recovery"@ != "ro"@,
        "wo.fake"@ != "rw"@ && "wo.fake"@ != "ro"@,
{
    reveal_strlit("ro");
    reveal_strlit("rw");
    reveal_strlit("root=");
    reveal_strlit("rootfstype=");
    reveal_strlit("rootflags=");
    reveal_strlit("init=");
    reveal_strlit("writeonce.rootwait=");
    reveal_strlit("wo.recovery");
    reveal_strlit("wo.fake");
    assert("ro"@[1] != "rw"@[1]);
    assert("wo.recovery"@.len() != "rw"@.len());
    assert("wo.fake"@.len() != "rw"@.len());
    assert("wo.recovery"@.take(5)[0] != "root="@[0]);
    assert("wo.fake"@.take(5)[0] != "root="@[0]);
    assert("wo.recovery"@.take(5)[0] != "init="@[0]);
    assert("wo.fake"@.take(5)[0] != "init="@[0]);
    assert("wo.recovery"@.take(10)[0] != "rootflags="@[0]);
    assert("wo.recovery"@.take(11)[0] != "rootfstype="@[0]);
}

/// The root is mounted without access times always, and read-only exactly
/// when the last of the `ro`/`rw` tokens is `ro` (writable when there is
/// none).
pub proof fn lemma_mount_flags(toks: Seq<Seq<char>>)
    ensures
        cmdline_of_tokens(toks).mount_flags == (if last_ro_rw(toks) == Some(true) {
            MS_NOATIME() | MS_RDONLY()
        } else {
            MS_NOATIME()
        }),
    decreases toks.len(),
{
    assert((0x400u64 | 1u64) == 0x401u64) by (bit_vector);
    if toks.len() > 0 {
        lemma_mount_flags(toks.drop_last());
        lemma_token_literals();
        let prev = cmdline_of_tokens(toks.drop_last()).mount_flags;
        assert(prev == 0x400u64 || prev == 0x401u64);
        assert((0x400u64 & !1u64) == 0x400u64 && (0x401u64 & !1u64) == 0x400u64 && (0x400u64 | 1u64)
            == 0x401u64 && (0x401u64 | 1u64) == 0x401u64) by (bit_vector);
        let t = toks.last();
        if t == "ro"@ || t == "rw"@ {
            assert(!starts_with(t, "root="@) && !starts_with(t, "rootfstype="@) && !starts_with(
                t,
                "rootflags="@,
            ) && !starts_with(t, "init="@) && !starts_with(t, "writeonce.rootwait="@));
        }
    }
}

/// The recovery shell is asked for exactly when a `wo.recovery` or
/// `wo.fake` token is on the command line.
pub proof fn lemma_recovery_flag(toks: Seq<Seq<char>>)
    ensures
        cmdline_of_tokens(toks).recovery == exists|i: int|
            0 <= i < toks.len() && (toks[i] == "wo.recovery"@ || toks[i] == "wo.fake"@),
    decreases toks.len(),
{
    if toks.len() > 0 {
        lemma_recovery_flag(toks.drop_last());
        lemma_token_literals();
        let t = toks.last();
        let p = toks.drop_last();
        if t == "wo.recovery"@ || t == "wo.fake"@ {
            assert(toks[toks.len() - 1] == t);
        } else {
            if exists|i: int| 0 <= i < toks.len() && (toks[i] == "wo.recovery"@ || toks[i] == "wo.fake"@) {
                let i = choose|i: int| 0 <= i < toks.len() && (toks[i] == "wo.recovery"@ || toks[i] == "wo.fake"@);
                assert(i < toks.len() - 1);
                assert(p[i] == toks[i]);
            }
            if exists|i: int| 0 <= i < p.len() && (p[i] == "wo.recovery"@ || p[i] == "wo.fake"@) {
                let i = choose|i: int| 0 <= i < p.len() && (p[i] == "wo.recovery"@ || p[i] == "wo.fake"@);
                assert(toks[i] == p[i]);
            }
        }
    }
}

} // verus!
