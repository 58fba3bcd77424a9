//! Removable block devices, as `/sys/block/<name>/…` describes them.
//!
//! Each block device has `removable` ("1" if removable), `size` (512-byte
//! sectors), `device/vendor` and `device/model`. Refusing to install onto
//! non-removable or mounted devices is the safety hook.
use vstd::prelude::*;
use crate::num::{all_digits, dec_digits, lemma_dec_digits_ok, parse_u64, parse_u64_vec};
use crate::text::{
    chars_of, extend, extend_str, is_digit, lex_lt, lines, lines_vec, starts_with, string_from, trim,
    trim_vec, vec_eq, vec_lex_lt, vec_starts_with, views, lemma_lex_irreflexive, lemma_lex_transitive,
};
use crate::order::{insert_by, lemma_sort_by, sort_by, strict_order};

verus! {

/// A block device the installer may write to.
#[derive(Debug, Clone)]
pub struct UsbDevice {
    /// Device node, e.g. /dev/sdb.
    pub path: String,
    /// Size in bytes.
    pub size_bytes: u64,
    /// Vendor string (may be empty).
    pub vendor: String,
    /// Model string (may be empty).
    pub model: String,
    /// True if /sys/block/<name>/removable reads "1".
    pub removable: bool,
}

/// The mathematical value of a [`UsbDevice`].
pub struct UsbDeviceModel {
    pub path: Seq<char>,
    pub size_bytes: u64,
    pub vendor: Seq<char>,
    pub model: Seq<char>,
    pub removable: bool,
}

impl View for UsbDevice {
    type V = UsbDeviceModel;

    open spec fn view(&self) -> UsbDeviceModel {
        UsbDeviceModel {
            path: self.path@,
            size_bytes: self.size_bytes,
            vendor: self.vendor@,
            model: self.model@,
            removable: self.removable,
        }
    }
}

impl UsbDevice {
    /// A field-by-field copy.
    pub fn duplicate(&self) -> (r: UsbDevice)
        ensures
            r@ == self@,
    {
        UsbDevice {
            path: self.path.clone(),
            size_bytes: self.size_bytes,
            vendor: self.vendor.clone(),
            model: self.model.clone(),
            removable: self.removable,
        }
    }
}

/// The view of an optional text.
pub open spec fn opt_view(t: Option<&str>) -> Option<Seq<char>> {
    match t {
        Some(s) => Some(s@),
        None => None,
    }
}

/// A trimmed sysfs attribute, or empty when it could not be read.
pub open spec fn attr_or_empty(t: Option<Seq<char>>) -> Seq<char> {
    match t {
        Some(s) => trim(s),
        None => seq![],
    }
}

/// The device that `/sys/block/<name>` describes, from the texts of its
/// `removable`, `size`, `device/vendor` and `device/model` files (`None`
/// for one that could not be read): none unless `size` holds a sector
/// count.
pub open spec fn read_one_spec(
    name: Seq<char>,
    removable: Option<Seq<char>>,
    size: Option<Seq<char>>,
    vendor: Option<Seq<char>>,
    model: Option<Seq<char>>,
) -> Option<UsbDeviceModel> {
    match size {
        None => None,
        Some(t) => match parse_u64(trim(t)) {
            None => None,
            Some(sectors) => Some(
                UsbDeviceModel {
                    path: "/dev/"@ + name,
                    size_bytes: (sectors * 512) as u64,
                    vendor: attr_or_empty(vendor),
                    model: attr_or_empty(model),
                    removable: match removable {
                        Some(r) => trim(r) == "1"@,
                        None => false,
                    },
                },
            ),
        },
    }
}

fn attr_text(t: Option<&str>) -> (r: String)
    ensures
        r@ == attr_or_empty(opt_view(t)),
{
    match t {
        Some(s) => crate::text::trim_str(s),
        None => String::new(),
    }
}

/// Builds the device of `/sys/block/<name>` from its attribute texts.
/// The sector count must fit in a byte count.
pub fn read_one(
    name: &str,
    removable: Option<&str>,
    size: Option<&str>,
    vendor: Option<&str>,
    model: Option<&str>,
) -> (r: Option<UsbDevice>)
    requires
        size matches Some(t) ==> (parse_u64(trim(t@)) matches Some(n) ==> n * 512 <= u64::MAX),
    ensures
        match r {
            Some(d) => read_one_spec(
                name@,
                opt_view(removable),
                opt_view(size),
                opt_view(vendor),
                opt_view(model),
            ) == Some(d@),
            None => read_one_spec(
                name@,
                opt_view(removable),
                opt_view(size),
                opt_view(vendor),
                opt_view(model),
            ) is None,
        },
{
    let is_removable = match removable {
        Some(t) => vec_eq(&trim_vec(&chars_of(t)), &chars_of("1")),
        None => false,
    };
    let sectors = match size {
        None => return None,
        Some(t) => match parse_u64_vec(&trim_vec(&chars_of(t))) {
            None => return None,
            Some(n) => n,
        },
    };
    let mut path = chars_of("/dev/");
    extend_str(&mut path, name);
    Some(UsbDevice {
        path: string_from(&path),
        size_bytes: sectors * 512,
        vendor: attr_text(vendor),
        model: attr_text(model),
        removable: is_removable,
    })
}

/// Names under `/sys/block` that are never install targets: ramdisks,
/// loop devices, device-mapper nodes, optical drives and zram.
pub open spec fn is_skipped_block_name(name: Seq<char>) -> bool {
    ||| starts_with(name, "ram"@)
    ||| starts_with(name, "loop"@)
    ||| starts_with(name, "dm-"@)
    ||| starts_with(name, "sr"@)
    ||| starts_with(name, "zram"@)
}

/// Whether `/sys/block/<name>` is a possible install target by its name.
pub fn is_candidate_block_name(name: &str) -> (b: bool)
    ensures
        b == !is_skipped_block_name(name@),
{
    let n = chars_of(name);
    !(vec_starts_with(&n, &chars_of("ram")) || vec_starts_with(&n, &chars_of("loop"))
        || vec_starts_with(&n, &chars_of("dm-")) || vec_starts_with(&n, &chars_of("sr"))
        || vec_starts_with(&n, &chars_of("zram")))
}

/// `l` with `x` placed after every device whose path does not sort after
/// `x`'s (one step of a stable sort by path).
pub open spec fn insert_by_path(l: Seq<UsbDeviceModel>, x: UsbDeviceModel) -> Seq<UsbDeviceModel>
    decreases l.len(),
{
    if l.len() == 0 {
        seq![x]
    } else if lex_lt(x.path, l[0].path) {
        seq![x] + l
    } else {
        seq![l[0]] + insert_by_path(l.drop_first(), x)
    }
}

/// `xs` stably sorted by path.
pub open spec fn sort_by_path(xs: Seq<UsbDeviceModel>) -> Seq<UsbDeviceModel>
    decreases xs.len(),
{
    if xs.len() == 0 {
        seq![]
    } else {
        insert_by_path(sort_by_path(xs.drop_last()), xs.last())
    }
}

/// The order of the device list: by path.
pub open spec fn by_path() -> spec_fn(UsbDeviceModel, UsbDeviceModel) -> bool {
    |a: UsbDeviceModel, b: UsbDeviceModel| lex_lt(a.path, b.path)
}

proof fn lemma_insert_by_path_is_insert_by(l: Seq<UsbDeviceModel>, x: UsbDeviceModel)
    ensures
        insert_by_path(l, x) == insert_by(l, x, by_path()),
    decreases l.len(),
{
    if l.len() > 0 {
        lemma_insert_by_path_is_insert_by(l.drop_first(), x);
    }
}

/// The device list comes out ordered by path and holds exactly the
/// devices it was given.
pub proof fn lemma_sort_by_path_ordered(xs: Seq<UsbDeviceModel>)
    ensures
        forall|i: int, j: int|
            0 <= i < j < sort_by_path(xs).len() ==> !lex_lt(
                (#[trigger] sort_by_path(xs)[j]).path,
                (#[trigger] sort_by_path(xs)[i]).path,
            ),
        sort_by_path(xs).to_multiset() == xs.to_multiset(),
    decreases xs.len(),
{
    let f = by_path();
    assert(strict_order(f)) by {
        assert forall|a: UsbDeviceModel| !#[trigger] f(a, a) by {
            lemma_lex_irreflexive(a.path);
        }
        assert forall|a: UsbDeviceModel, b: UsbDeviceModel, c: UsbDeviceModel|
            #![trigger f(a, b), f(b, c)]
            f(a, b) && f(b, c) implies f(a, c) by {
            lemma_lex_transitive(a.path, b.path, c.path);
        }
    }
    assert(sort_by_path(xs) == sort_by(xs, f)) by {
        lemma_sort_by_path_is_sort_by(xs);
    }
    lemma_sort_by(xs, f);
    let out = sort_by_path(xs);
    assert forall|i: int, j: int| 0 <= i < j < out.len() implies !lex_lt(
        (#[trigger] out[j]).path,
        (#[trigger] out[i]).path,
    ) by {
        assert(!f(out[j], out[i]));
    }
}

proof fn lemma_sort_by_path_is_sort_by(xs: Seq<UsbDeviceModel>)
    ensures
        sort_by_path(xs) == sort_by(xs, by_path()),
    decreases xs.len(),
{
    if xs.len() > 0 {
        lemma_sort_by_path_is_sort_by(xs.drop_last());
        lemma_insert_by_path_is_insert_by(sort_by_path(xs.drop_last()), xs.last());
    }
}

/// The models of a list of devices.
pub open spec fn device_views(v: Seq<UsbDevice>) -> Seq<UsbDeviceModel> {
    v.map_values(|d: UsbDevice| d@)
}

fn insert_device(l: &mut Vec<UsbDevice>, x: UsbDevice)
    ensures
        device_views(final(l)@) == insert_by_path(device_views(old(l)@), x@),
{
    let ghost big = device_views(l@);
    let xp = chars_of(x.path.as_str());
    let mut i: usize = 0;
    assert(big.skip(0) =~= big);
    assert(big.take(0) + insert_by_path(big.skip(0), x@) =~= insert_by_path(big, x@));
    while i < l.len()
        invariant
            i <= l.len(),
            big == device_views(l@),
            big == device_views(old(l)@),
            xp@ == x@.path,
            insert_by_path(big, x@) == big.take(i as int) + insert_by_path(big.skip(i as int), x@),
        decreases l.len() - i,
    {
        let ghost rest = big.skip(i as int);
        assert(rest[0] == l@[i as int]@);
        if vec_lex_lt(&xp, &chars_of(l[i].path.as_str())) {
            l.insert(i, x);
            assert(device_views(l@) =~= big.take(i as int) + (seq![x@] + rest));
            return;
        }
        assert(rest.drop_first() =~= big.skip(i + 1));
        assert(big.take(i as int) + (seq![rest[0]] + insert_by_path(rest.drop_first(), x@))
            =~= big.take(i + 1) + insert_by_path(big.skip(i + 1), x@));
        i = i + 1;
    }
    assert(big.skip(l.len() as int) =~= Seq::<UsbDeviceModel>::empty());
    let ghost before = l@;
    l.push(x);
    assert(device_views(l@) =~= device_views(before) + seq![x@]);
    assert(big.take(big.len() as int) =~= big);
}

/// The devices sorted by path, equal paths keeping their order.
pub fn sort_devices(devs: Vec<UsbDevice>) -> (r: Vec<UsbDevice>)
    ensures
        device_views(r@) == sort_by_path(device_views(devs@)),
{
    let ghost all = device_views(devs@);
    let mut out: Vec<UsbDevice> = Vec::new();
    let mut i: usize = 0;
    assert(all.take(0) =~= Seq::<UsbDeviceModel>::empty());
    assert(device_views(out@) =~= Seq::<UsbDeviceModel>::empty());
    while i < devs.len()
        invariant
            i <= devs.len(),
            all == device_views(devs@),
            device_views(out@) == sort_by_path(all.take(i as int)),
        decreases devs.len() - i,
    {
        assert(all.take(i + 1).drop_last() =~= all.take(i as int));
        insert_device(&mut out, devs[i].duplicate());
        i = i + 1;
    }
    assert(all.take(devs.len() as int) =~= all);
    out
}

/// The device a `--target` path names, given the name `/sys/block` knows
/// it by, whether `/sys/block/<name>` exists, and the texts of its
/// attributes: none when the directory is missing, else as [`read_one`]
/// reads it.
pub fn lookup(
    block_dir_exists: bool,
    name: &str,
    removable: Option<&str>,
    size: Option<&str>,
    vendor: Option<&str>,
    model: Option<&str>,
) -> (r: Option<UsbDevice>)
    requires
        size matches Some(t) ==> (parse_u64(trim(t@)) matches Some(n) ==> n * 512 <= u64::MAX),
    ensures
        !block_dir_exists ==> r is None,
        block_dir_exists ==> match r {
            Some(d) => read_one_spec(
                name@,
                opt_view(removable),
                opt_view(size),
                opt_view(vendor),
                opt_view(model),
            ) == Some(d@),
            None => read_one_spec(
                name@,
                opt_view(removable),
                opt_view(size),
                opt_view(vendor),
                opt_view(model),
            ) is None,
        },
{
    if !block_dir_exists {
        return None;
    }
    read_one(name, removable, size, vendor, model)
}

/// The attribute texts of one entry of `/sys/block`.
pub struct BlockAttrs {
    pub name: String,
    pub removable: Option<String>,
    pub size: Option<String>,
    pub vendor: Option<String>,
    pub model: Option<String>,
}

/// A size attribute whose sector count, if it has one, fits a byte count.
pub open spec fn size_fits(size: Option<Seq<char>>) -> bool {
    match size {
        Some(t) => match parse_u64(trim(t)) {
            Some(n) => n * 512 <= u64::MAX,
            None => true,
        },
        None => true,
    }
}

/// The view of an optional string.
pub open spec fn opt_string_view(o: Option<String>) -> Option<Seq<char>> {
    match o {
        Some(s) => Some(s@),
        None => None,
    }
}

/// The removable devices among the entries, in the order read: entries
/// with a skipped name, unreadable size or no removable flag are left out.
pub open spec fn removable_spec(es: Seq<BlockAttrs>) -> Seq<UsbDeviceModel>
    decreases es.len(),
{
    if es.len() == 0 {
        seq![]
    } else {
        let prev = removable_spec(es.drop_last());
        let e = es.last();
        if is_skipped_block_name(e.name@) {
            prev
        } else {
            match read_one_spec(
                e.name@,
                opt_string_view(e.removable),
                opt_string_view(e.size),
                opt_string_view(e.vendor),
                opt_string_view(e.model),
            ) {
                Some(d) => if d.removable { prev.push(d) } else { prev },
                None => prev,
            }
        }
    }
}

fn as_text(o: &Option<String>) -> (r: Option<&str>)
    ensures
        opt_view(r) == opt_string_view(*o),
{
    match o {
        Some(s) => Some(s.as_str()),
        None => None,
    }
}

/// The removable block devices of the `/sys/block` entries, sorted by
/// path (`list_removable`'s choice and order).
pub fn removable_devices(entries: &Vec<BlockAttrs>) -> (r: Vec<UsbDevice>)
    requires
        forall|i: int|
            0 <= i < entries@.len() ==> size_fits(opt_string_view((#[trigger] entries@[i]).size)),
    ensures
        device_views(r@) == sort_by_path(removable_spec(entries@)),
{
    let mut out: Vec<UsbDevice> = Vec::new();
    let mut i: usize = 0;
    assert(entries@.take(0) =~= Seq::<BlockAttrs>::empty());
    while i < entries.len()
        invariant
            i <= entries.len(),
            forall|k: int|
                0 <= k < entries@.len() ==> size_fits(opt_string_view((#[trigger] entries@[k]).size)),
            device_views(out@) == removable_spec(entries@.take(i as int)),
        decreases entries.len() - i,
    {
        assert(entries@.take(i + 1).drop_last() =~= entries@.take(i as int));
        let e = &entries[i];
        assert(entries@.take(i + 1).last() == *e);
        if is_candidate_block_name(e.name.as_str()) {
            match read_one(
                e.name.as_str(),
                as_text(&e.removable),
                as_text(&e.size),
                as_text(&e.vendor),
                as_text(&e.model),
            ) {
                Some(d) => {
                    if d.removable {
                        let ghost before = device_views(out@);
                        out.push(d);
                        assert(device_views(out@) =~= before.push(out@.last()@));
                    }
                },
                None => {},
            }
        }
        i = i + 1;
    }
    assert(entries@.take(entries.len() as int) =~= entries@);
    sort_devices(out)
}

/// Why a device is refused as an install target.
#[derive(Debug, Clone, PartialEq, Eq)]
pub enum SafetyError {
    /// The device node does not exist.
    Missing(String),
    /// The device is not marked removable.
    NotRemovable(String),
    /// The device or one of its partitions is mounted.
    Mounted(String),
}

/// The mathematical value of a [`SafetyError`]: which check failed.
pub enum SafetyVerdict {
    Safe,
    Missing,
    NotRemovable,
    Mounted,
}

/// `s` is one or more decimal digits followed by a space.
pub open spec fn digits_then_space(s: Seq<char>) -> bool
    decreases s.len(),
{
    s.len() >= 2 && is_digit(s[0]) && (s[1] == ' ' || digits_then_space(s.drop_first()))
}

/// What follows a device path at the start of a `/proc/mounts` line when
/// the line's source is the device itself (`" "`) or one of its partitions:
/// digits (`sdb3`) or `p` and digits (`nvme0n1p1`), then a space.
pub open spec fn device_or_partition_tail(rest: Seq<char>) -> bool {
    ||| rest.len() > 0 && rest[0] == ' '
    ||| digits_then_space(rest)
    ||| rest.len() > 0 && rest[0] == 'p' && digits_then_space(rest.drop_first())
}

/// A `/proc/mounts` line mounts the device `path` or one of its partitions.
pub open spec fn mounts_device(line: Seq<char>, path: Seq<char>) -> bool {
    starts_with(line, path) && device_or_partition_tail(line.skip(path.len() as int))
}

proof fn lemma_digits_then_space(d: Seq<char>, rest: Seq<char>)
    requires
        d.len() > 0,
        all_digits(d),
    ensures
        digits_then_space(d + " "@ + rest),
    decreases d.len(),
{
    reveal_strlit(" ");
    let s = d + " "@ + rest;
    assert(s[0] == d[0]);
    if d.len() == 1 {
        assert(s[1] == ' ');
    } else {
        lemma_digits_then_space(d.drop_first(), rest);
        assert(s.drop_first() =~= d.drop_first() + " "@ + rest);
    }
}

/// A `/proc/mounts` line whose source is the device node itself, or any of
/// its partitions, named by number (`sdb3`) or by `p` and number
/// (`nvme0n1p1`), mounts the device: [`safety_check`] refuses it.
pub proof fn lemma_partition_lines_mount_device(path: Seq<char>, n: nat, rest: Seq<char>)
    ensures
        mounts_device(path + " "@ + rest, path),
        mounts_device(path + dec_digits(n) + " "@ + rest, path),
        mounts_device(path + "p"@ + dec_digits(n) + " "@ + rest, path),
{
    reveal_strlit(" ");
    reveal_strlit("p");
    lemma_dec_digits_ok(n);
    let d = dec_digits(n);
    let l0 = path + " "@ + rest;
    assert(l0.take(path.len() as int) =~= path);
    assert(l0.skip(path.len() as int) =~= " "@ + rest);
    let l1 = path + d + " "@ + rest;
    assert(l1.take(path.len() as int) =~= path);
    assert(l1.skip(path.len() as int) =~= d + " "@ + rest);
    lemma_digits_then_space(d, rest);
    let l2 = path + "p"@ + d + " "@ + rest;
    assert(l2.take(path.len() as int) =~= path);
    assert(l2.skip(path.len() as int) =~= "p"@ + d + " "@ + rest);
    assert(("p"@ + d + " "@ + rest).drop_first() =~= d + " "@ + rest);
}

fn digits_then_space_at(v: &Vec<char>, i: usize) -> (b: bool)
    requires
        i <= v.len(),
    ensures
        b == digits_then_space(v@.skip(i as int)),
    decreases v.len() - i,
{
    let ghost s = v@.skip(i as int);
    if v.len() > 0 && i < v.len() - 1 && '0' <= v[i] && v[i] <= '9' {
        assert(s[0] == v@[i as int] && s[1] == v@[i + 1]);
        if v[i + 1] == ' ' {
            true
        } else {
            assert(s.drop_first() =~= v@.skip(i + 1));
            digits_then_space_at(v, i + 1)
        }
    } else {
        proof {
            if i + 1 < v.len() {
                assert(s[0] == v@[i as int]);
            }
        }
        false
    }
}

/// Whether a `/proc/mounts` line mounts the device `path` or one of its
/// partitions.
fn line_mounts_device(line: &Vec<char>, path: &Vec<char>) -> (b: bool)
    ensures
        b == mounts_device(line@, path@),
{
    if !vec_starts_with(line, path) {
        return false;
    }
    let n = path.len();
    let ghost rest = line@.skip(n as int);
    if n < line.len() && line[n] == ' ' {
        assert(rest[0] == line@[n as int]);
        return true;
    }
    if n < line.len() {
        assert(rest[0] == line@[n as int]);
    }
    if digits_then_space_at(line, n) {
        return true;
    }
    if n < line.len() && line[n] == 'p' {
        assert(rest.drop_first() =~= line@.skip(n + 1));
        digits_then_space_at(line, n + 1)
    } else {
        false
    }
}

/// The safety verdict on a device: it must exist, be removable, and have
/// none of its nodes in `/proc/mounts` (text `mounts`).
pub open spec fn safety_spec(d: UsbDeviceModel, exists: bool, mounts: Seq<char>) -> SafetyVerdict {
    if !exists {
        SafetyVerdict::Missing
    } else if !d.removable {
        SafetyVerdict::NotRemovable
    } else if exists|i: int| 0 <= i < lines(mounts).len() && mounts_device(lines(mounts)[i], d.path) {
        SafetyVerdict::Mounted
    } else {
        SafetyVerdict::Safe
    }
}

/// Refuses a device that does not exist (`exists`), is not removable, or is
/// mounted according to the text of `/proc/mounts`.
pub fn safety_check(device: &UsbDevice, exists: bool, mounts: &str) -> (r: Result<(), SafetyError>)
    ensures
        match r {
            Ok(()) => safety_spec(device@, exists, mounts@) is Safe,
            Err(SafetyError::Missing(p)) => safety_spec(device@, exists, mounts@) is Missing && p@
                == device@.path,
            Err(SafetyError::NotRemovable(p)) => safety_spec(device@, exists, mounts@) is NotRemovable
                && p@ == device@.path,
            Err(SafetyError::Mounted(p)) => safety_spec(device@, exists, mounts@) is Mounted && p@
                == device@.path,
        },
{
    if !exists {
        return Err(SafetyError::Missing(device.path.clone()));
    }
    if !device.removable {
        return Err(SafetyError::NotRemovable(device.path.clone()));
    }
    let p = chars_of(device.path.as_str());
    let ls = lines_vec(&chars_of(mounts));
    let ghost all = views(ls@);
    let mut i: usize = 0;
    while i < ls.len()
        invariant
            i <= ls.len(),
            all == views(ls@),
            all == lines(mounts@),
            exists,
            device@.removable,
            p@ == device@.path,
            forall|j: int| 0 <= j < i ==> !mounts_device(#[trigger] all[j], device@.path),
        decreases ls.len() - i,
    {
        assert(all[i as int] == ls@[i as int]@);
        if line_mounts_device(&ls[i], &p) {
            return Err(SafetyError::Mounted(device.path.clone()));
        }
        i = i + 1;
    }
    Ok(())
}

impl SafetyError {
    /// The message the installer prints for the refusal.
    pub fn message(&self) -> (m: String)
        ensures
            self matches SafetyError::Missing(p) ==> m@ == "device "@ + p@ + " does not exist"@,
            self matches SafetyError::NotRemovable(p) ==> m@ == "device "@ + p@
                + " is NOT marked removable. Refusing to overwrite \u{2014} pass --force-non-removable if you really mean this"@,
            self matches SafetyError::Mounted(p) ==> m@ == "device "@ + p@
                + " or one of its partitions is currently mounted. unmount before installing."@,
    {
        let (head, p, tail) = match self {
            SafetyError::Missing(p) => ("device ", p, " does not exist"),
            SafetyError::NotRemovable(p) => (
                "device ",
                p,
                " is NOT marked removable. Refusing to overwrite \u{2014} pass --force-non-removable if you really mean this",
            ),
            SafetyError::Mounted(p) => (
                "device ",
                p,
                " or one of its partitions is currently mounted. unmount before installing.",
            ),
        };
        let mut v = chars_of(head);
        extend_str(&mut v, p.as_str());
        extend_str(&mut v, tail);
        string_from(&v)
    }
}

} // verus!
