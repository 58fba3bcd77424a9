//! Which kernel modules the initramfs loads: one module name per line of
//! `/etc/modules-load.conf` and of the files in `/etc/modules-load.d/`
//! (blank lines and `#` comments skipped), each found as a `*.ko`,
//! `*.ko.xz` or `*.ko.zst` file under `/lib/modules/`.
use vstd::prelude::*;
use crate::text::{
    chars_of, concat, find_char, lines, lines_vec, slice, string_from, trim, trim_vec, vec_eq,
    views,
};

verus! {

/// The config file naming modules to load.
pub const MODULES_LOAD_CONF: &'static str = "/etc/modules-load.conf";

/// The directory of further module-list files.
pub const MODULES_LOAD_D_DIR: &'static str = "/etc/modules-load.d";

/// The module name a config line declares, if any: the trimmed line, unless
/// it is blank or a `#` comment.
pub open spec fn module_of_line(line: Seq<char>) -> Option<Seq<char>> {
    let l = trim(line);
    if l.len() == 0 || l[0] == '#' {
        None
    } else {
        Some(l)
    }
}

/// `names` followed by the module a line declares.
pub open spec fn with_module_line(names: Seq<Seq<char>>, line: Seq<char>) -> Seq<Seq<char>> {
    match module_of_line(line) {
        Some(m) => names.push(m),
        None => names,
    }
}

/// The views of a list of strings.
pub open spec fn string_views(v: Seq<String>) -> Seq<Seq<char>> {
    v.map_values(|s: String| s@)
}

/// Appends the module named on `line` (if any) to `out`.
pub fn extend_with_module_line(out: &mut Vec<String>, line: &str)
    ensures
        string_views(final(out)@) == with_module_line(string_views(old(out)@), line@),
{
    let v = chars_of(line);
    let l = trim_vec(&v);
    if l.len() == 0 || l[0] == '#' {
        return;
    }
    let ghost before = out@;
    out.push(string_from(&l));
    assert(string_views(out@) =~= string_views(before).push(l@));
}

/// The modules declared by the lines `ls`, in order.
pub open spec fn modules_of_lines(ls: Seq<Seq<char>>) -> Seq<Seq<char>>
    decreases ls.len(),
{
    if ls.len() == 0 {
        seq![]
    } else {
        with_module_line(modules_of_lines(ls.drop_last()), ls.last())
    }
}

/// The modules declared by the config texts `bodies`, in order.
pub open spec fn modules_of_bodies(bodies: Seq<Seq<char>>) -> Seq<Seq<char>>
    decreases bodies.len(),
{
    if bodies.len() == 0 {
        seq![]
    } else {
        modules_of_bodies(bodies.drop_last()) + modules_of_lines(lines(bodies.last()))
    }
}

/// The module names declared by the texts of the config files, taken in the
/// order given (`/etc/modules-load.conf` first, then the files of
/// `/etc/modules-load.d/` in sorted order).
pub fn names_from_config(bodies: &Vec<String>) -> (names: Vec<String>)
    ensures
        string_views(names@) == modules_of_bodies(string_views(bodies@)),
{
    let ghost bs = string_views(bodies@);
    let mut names: Vec<String> = Vec::new();
    let mut b: usize = 0;
    assert(bs.take(0) =~= Seq::<Seq<char>>::empty());
    assert(string_views(names@) =~= Seq::<Seq<char>>::empty());
    while b < bodies.len()
        invariant
            b <= bodies.len(),
            bs == string_views(bodies@),
            string_views(names@) == modules_of_bodies(bs.take(b as int)),
        decreases bodies.len() - b,
    {
        let v = chars_of(bodies[b].as_str());
        let ls = lines_vec(&v);
        let ghost all = views(ls@);
        let ghost base = string_views(names@);
        assert(all.take(0) =~= Seq::<Seq<char>>::empty());
        assert(base + modules_of_lines(all.take(0)) =~= base);
        let mut i: usize = 0;
        while i < ls.len()
            invariant
                i <= ls.len(),
                all == views(ls@),
                string_views(names@) == base + modules_of_lines(all.take(i as int)),
            decreases ls.len() - i,
        {
            assert(all.take(i + 1).drop_last() =~= all.take(i as int));
            let line = string_from(&ls[i]);
            extend_with_module_line(&mut names, line.as_str());
            proof {
                let m = modules_of_lines(all.take(i as int));
                match module_of_line(all[i as int]) {
                    Some(x) => assert(base + m.push(x) =~= (base + m).push(x)),
                    None => {},
                }
            }
            i = i + 1;
        }
        assert(all.take(ls.len() as int) =~= all);
        assert(bs.take(b + 1).drop_last() =~= bs.take(b as int));
        assert(bs[b as int] == bodies@[b as int]@);
        b = b + 1;
    }
    assert(bs.take(bodies.len() as int) =~= bs);
    names
}

/// The last path component of `p` (what follows its last `/`).
pub open spec fn base_name(p: Seq<char>) -> Seq<char>
    decreases p.len(),
{
    if p.len() == 0 {
        p
    } else if p.last() == '/' {
        seq![]
    } else {
        base_name(p.drop_last()).push(p.last())
    }
}

/// File names under which module `name` is shipped.
pub open spec fn is_module_file_for(file_name: Seq<char>, name: Seq<char>) -> bool {
    ||| file_name == name + ".ko"@
    ||| file_name == name + ".ko.xz"@
    ||| file_name == name + ".ko.zst"@
}

proof fn lemma_base_name_after_slash(dir: Seq<char>, f: Seq<char>)
    requires
        forall|k: int| 0 <= k < f.len() ==> f[k] != '/',
    ensures
        base_name(dir + seq!['/'] + f) == f,
    decreases f.len(),
{
    let p = dir + seq!['/'] + f;
    if f.len() == 0 {
        assert(p.last() == '/');
    } else {
        assert(p.last() == f.last());
        assert(p.drop_last() =~= dir + seq!['/'] + f.drop_last());
        lemma_base_name_after_slash(dir, f.drop_last());
        assert(f.drop_last().push(f.last()) =~= f);
    }
}

/// A module `name` (a file name, without `/`) is found under any directory
/// as `name.ko`, `name.ko.xz` or `name.ko.zst`, and under no other
/// suffix of those three: `name.ko.gz` and the bare `name` are not it.
pub proof fn lemma_module_file_names(dir: Seq<char>, name: Seq<char>)
    requires
        forall|k: int| 0 <= k < name.len() ==> name[k] != '/',
    ensures
        is_module_file_for(base_name(dir + seq!['/'] + name + ".ko"@), name),
        is_module_file_for(base_name(dir + seq!['/'] + name + ".ko.xz"@), name),
        is_module_file_for(base_name(dir + seq!['/'] + name + ".ko.zst"@), name),
        !is_module_file_for(base_name(dir + seq!['/'] + name + ".ko.gz"@), name),
        !is_module_file_for(base_name(dir + seq!['/'] + name), name),
{
    reveal_strlit(".ko");
    reveal_strlit(".ko.xz");
    reveal_strlit(".ko.zst");
    reveal_strlit(".ko.gz");
    let sufs = seq![".ko"@, ".ko.xz"@, ".ko.zst"@, ".ko.gz"@];
    assert forall|i: int| 0 <= i < 4 implies base_name(dir + seq!['/'] + (name + #[trigger] sufs[i])) == name + sufs[i] by {
        let f = name + sufs[i];
        assert forall|k: int| 0 <= k < f.len() implies f[k] != '/' by {
            if k < name.len() {
                assert(f[k] == name[k]);
            } else {
                assert(f[k] == sufs[i][k - name.len()]);
            }
        }
        lemma_base_name_after_slash(dir, f);
    }
    assert(dir + seq!['/'] + name + ".ko"@ =~= dir + seq!['/'] + (name + sufs[0]));
    assert(dir + seq!['/'] + name + ".ko.xz"@ =~= dir + seq!['/'] + (name + sufs[1]));
    assert(dir + seq!['/'] + name + ".ko.zst"@ =~= dir + seq!['/'] + (name + sufs[2]));
    assert(dir + seq!['/'] + name + ".ko.gz"@ =~= dir + seq!['/'] + (name + sufs[3]));
    let g = name + ".ko.gz"@;
    assert(g.len() == name.len() + 6);
    assert((name + ".ko"@).len() == name.len() + 3);
    assert((name + ".ko.xz"@).len() == name.len() + 6);
    assert(g[name.len() as int + 5] == 'z');
    assert((name + ".ko.xz"@)[name.len() as int + 5] == 'z');
    assert(g[name.len() as int + 4] == 'g');
    assert((name + ".ko.xz"@)[name.len() as int + 4] == 'x');
    assert((name + ".ko.zst"@).len() == name.len() + 7);
    lemma_base_name_after_slash(dir, name);
}

fn base_name_vec(p: &Vec<char>) -> (r: Vec<char>)
    ensures
        r@ == base_name(p@),
{
    let mut k = p.len();
    assert(p@.take(k as int) =~= p@);
    while k > 0 && p[k - 1] != '/'
        invariant
            k <= p.len(),
            forall|j: int| k <= j < p.len() ==> p@[j] != '/',
            base_name(p@) == base_name(p@.take(k as int)) + p@.skip(k as int),
        decreases k,
    {
        let ghost t = p@.take(k as int);
        assert(t.drop_last() =~= p@.take(k - 1));
        assert(base_name(t) == base_name(t.drop_last()).push(t.last()));
        assert(p@.skip(k - 1) =~= seq![p@[k - 1]] + p@.skip(k as int));
        assert(base_name(t.drop_last()).push(t.last()) + p@.skip(k as int) =~= base_name(
            p@.take(k - 1),
        ) + p@.skip(k - 1));
        k = k - 1;
    }
    let r = slice(p, k, p.len());
    assert(base_name(p@.take(k as int)) =~= Seq::<char>::empty());
    assert(r@ =~= p@.skip(k as int));
    r
}

/// Whether the file at `path` is the module `name` (`name.ko`, `name.ko.xz`
/// or `name.ko.zst`).
pub fn is_module_file(path: &str, name: &str) -> (b: bool)
    ensures
        b == is_module_file_for(base_name(path@), name@),
{
    let p = chars_of(path);
    let f = base_name_vec(&p);
    let n = chars_of(name);
    let ko = concat(&n, &chars_of(".ko"));
    let xz = concat(&n, &chars_of(".ko.xz"));
    let zst = concat(&n, &chars_of(".ko.zst"));
    vec_eq(&f, &ko) || vec_eq(&f, &xz) || vec_eq(&f, &zst)
}

/// The first of `files` (regular files under `/lib/modules/`, in the order
/// a depth-first walk visits them) that is the module `name`.
pub fn find_ko(files: &Vec<String>, name: &str) -> (r: Option<String>)
    ensures
        match r {
            Some(p) => exists|i: int|
                0 <= i < files.len() && files@[i]@ == p@ && is_module_file_for(
                    base_name(p@),
                    name@,
                ) && forall|j: int|
                    0 <= j < i ==> !is_module_file_for(base_name(#[trigger] files@[j]@), name@),
            None => forall|j: int|
                0 <= j < files.len() ==> !is_module_file_for(base_name(#[trigger] files@[j]@), name@),
        },
{
    let mut i: usize = 0;
    while i < files.len()
        invariant
            i <= files.len(),
            forall|j: int|
                0 <= j < i ==> !is_module_file_for(base_name(#[trigger] files@[j]@), name@),
        decreases files.len() - i,
    {
        if is_module_file(files[i].as_str(), name) {
            let p = files[i].clone();
            assert(files@[i as int]@ == p@);
            return Some(p);
        }
        i = i + 1;
    }
    None
}

} // verus!
