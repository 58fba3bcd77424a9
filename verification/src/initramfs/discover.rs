//! Finding the root block device that a [`RootSpec`] names.
//!
//! `Device(path)` is taken as it is once devtmpfs shows it. `PartUuid(u)`
//! matches the GPT partition UUID that `/sys/class/block/<name>/uuid`
//! exposes. `Uuid(u)` and `Label(l)` are read from the ext2/3/4 superblock
//! of each `/dev/<name>`: the volume label (superblock offset 120) and the
//! filesystem UUID (offset 104), after the magic `0xEF53` at offset 56.
use vstd::prelude::*;
use vstd::utf8::{decode_utf8, valid_utf8};
use crate::initramfs::cmdline::{RootSpec, RootSpecModel};
use crate::text::{
    chars_of, eq_ignore_case, eq_ignore_case_vec, extend, extend_str, lower_ascii, lower_vec,
    is_ws, string_from, trim, trim_end, trim_start, trim_vec, vec_eq,
};

verus! {

/// `std::io::Error`, carried through unchanged.
#[verifier::external_type_specification]
#[verifier::external_body]
pub struct ExIoError(std::io::Error);

/// Why no root device could be returned.
#[derive(Debug)]
pub enum DiscoverError {
    Unsupported(String),
    NotFound(String),
    Io(std::io::Error),
}

/// `Display` of `std::io::Error`: the error's text. Nothing is promised of
/// it (it is the operating system's wording).
#[verifier::external_body]
fn io_error_text(e: &std::io::Error) -> String {
    format!("{e}")
}

impl DiscoverError {
    /// The message printed for the error.
    pub fn message(&self) -> (m: String)
        ensures
            self matches DiscoverError::Unsupported(s) ==> m@ == "unsupported root spec: "@ + s@,
            self matches DiscoverError::NotFound(s) ==> m@ == "no block device matched: "@ + s@,
            self is Io ==> m@.len() >= 4 && m@.take(4) == "io: "@,
    {
        match self {
            DiscoverError::Unsupported(s) => {
                let mut v = chars_of("unsupported root spec: ");
                extend_str(&mut v, s.as_str());
                string_from(&v)
            },
            DiscoverError::NotFound(s) => {
                let mut v = chars_of("no block device matched: ");
                extend_str(&mut v, s.as_str());
                string_from(&v)
            },
            DiscoverError::Io(e) => {
                let mut v = chars_of("io: ");
                let ghost head = v@;
                extend_str(&mut v, io_error_text(e).as_str());
                proof {
                    reveal_strlit("io: ");
                    assert(v@.take(4) =~= head);
                }
                string_from(&v)
            },
        }
    }
}

/// The size of the superblock block read from a device.
pub open spec fn SUPERBLOCK_LEN() -> nat { 1024 }

/// A buffer holds an ext2/3/4 superblock: 1024 bytes whose little-endian
/// `s_magic` at offset 56 is `0xEF53`.
pub open spec fn ext4_superblock_valid(sb: Seq<u8>) -> bool {
    sb.len() == 1024 && sb[56] == 0x53 && sb[57] == 0xEF
}

/// Whether `sb` holds an ext2/3/4 superblock.
pub fn ext4_superblock_ok(sb: &Vec<u8>) -> (b: bool)
    ensures
        b == ext4_superblock_valid(sb@),
{
    sb.len() == 1024 && sb[56] == 0x53 && sb[57] == 0xEF
}

/// Length of the label in the 16-byte `s_volume_name` field: up to the
/// first NUL, or all 16 bytes.
pub open spec fn label_len(field: Seq<u8>) -> int
    decreases field.len(),
{
    if field.len() == 0 {
        0
    } else if field[0] == 0 {
        0
    } else {
        1 + label_len(field.drop_first())
    }
}

/// The volume label of a valid superblock: the UTF-8 text of
/// `s_volume_name` up to its first NUL; none when that is empty or not
/// UTF-8.
pub open spec fn ext4_label_spec(sb: Seq<u8>) -> Option<Seq<char>> {
    let field = sb.subrange(120, 136);
    let bytes = field.take(label_len(field));
    if !valid_utf8(bytes) {
        None
    } else if decode_utf8(bytes).len() == 0 {
        None
    } else {
        Some(decode_utf8(bytes))
    }
}

/// Decodes UTF-8 with `core::str::from_utf8`; the contract claims what std
/// documents and vstd models: text exactly for valid UTF-8, decoded as
/// `decode_utf8` says.
#[verifier::external_body]
pub(crate) fn utf8_text(b: &[u8]) -> (r: Option<String>)
    ensures
        r is Some <==> valid_utf8(b@),
        r matches Some(s) ==> s@ == decode_utf8(b@),
{
    core::str::from_utf8(b).ok().map(|s| s.to_string())
}

proof fn lemma_label_len_bounds(field: Seq<u8>)
    ensures
        0 <= label_len(field) <= field.len(),
        forall|j: int| 0 <= j < label_len(field) ==> field[j] != 0,
        label_len(field) < field.len() ==> field[label_len(field)] == 0,
    decreases field.len(),
{
    if field.len() > 0 && field[0] != 0 {
        lemma_label_len_bounds(field.drop_first());
        assert forall|j: int| 0 <= j < label_len(field) implies field[j] != 0 by {
            if j > 0 {
                assert(field[j] == field.drop_first()[j - 1]);
            }
        }
    }
}

proof fn lemma_label_len_first_zero(field: Seq<u8>, k: int)
    requires
        0 <= k <= field.len(),
        forall|j: int| 0 <= j < k ==> field[j] != 0,
        k < field.len() ==> field[k] == 0,
    ensures
        label_len(field) == k,
    decreases k,
{
    if k > 0 {
        lemma_label_len_first_zero(field.drop_first(), k - 1);
    }
}

/// The volume label of an ext2/3/4 superblock, if it has one.
pub fn ext4_label(sb: &Vec<u8>) -> (r: Option<String>)
    requires
        ext4_superblock_valid(sb@),
    ensures
        match r {
            Some(s) => ext4_label_spec(sb@) == Some(s@),
            None => ext4_label_spec(sb@) is None,
        },
{
    let ghost field = sb@.subrange(120, 136);
    let mut k: usize = 0;
    while k < 16 && sb[120 + k] != 0
        invariant
            k <= 16,
            sb@.len() == 1024,
            field == sb@.subrange(120, 136),
            forall|j: int| 0 <= j < k ==> field[j] != 0,
        decreases 16 - k,
    {
        k = k + 1;
    }
    proof {
        lemma_label_len_first_zero(field, k as int);
    }
    let mut bytes: Vec<u8> = Vec::new();
    let mut i: usize = 0;
    while i < k
        invariant
            i <= k <= 16,
            sb@.len() == 1024,
            field == sb@.subrange(120, 136),
            bytes@ =~= field.take(i as int),
        decreases k - i,
    {
        bytes.push(sb[120 + i]);
        assert(field.take(i + 1) =~= field.take(i as int).push(field[i as int]));
        i = i + 1;
    }
    match utf8_text(bytes.as_slice()) {
        None => None,
        Some(s) => {
            if s.as_str().unicode_len() == 0 {
                None
            } else {
                Some(s)
            }
        },
    }
}

/// A lower-case hexadecimal digit.
pub open spec fn hex_char(d: nat) -> char {
    if d < 10 {
        crate::num::digit_char(d)
    } else if d == 10 { 'a' }
    else if d == 11 { 'b' }
    else if d == 12 { 'c' }
    else if d == 13 { 'd' }
    else if d == 14 { 'e' }
    else { 'f' }
}

/// Two lower-case hex digits of a byte (`{:02x}`).
pub open spec fn hex_byte(b: u8) -> Seq<char> {
    seq![hex_char((b / 16) as nat), hex_char((b % 16) as nat)]
}

/// The hex digits of `bytes`, in order.
pub open spec fn hex_bytes(bytes: Seq<u8>) -> Seq<char>
    decreases bytes.len(),
{
    if bytes.len() == 0 {
        seq![]
    } else {
        hex_bytes(bytes.drop_last()) + hex_byte(bytes.last())
    }
}

/// The filesystem UUID of a valid superblock as `blkid` prints it: the 16
/// bytes of `s_uuid` (offset 104) in lower-case hex, grouped 8-4-4-4-12.
pub open spec fn ext4_uuid_spec(sb: Seq<u8>) -> Seq<char> {
    let u = sb.subrange(104, 120);
    hex_bytes(u.subrange(0, 4)) + "-"@ + hex_bytes(u.subrange(4, 6)) + "-"@ + hex_bytes(
        u.subrange(6, 8),
    ) + "-"@ + hex_bytes(u.subrange(8, 10)) + "-"@ + hex_bytes(u.subrange(10, 16))
}

fn hex_digit(d: u8) -> (c: char)
    requires
        d < 16,
    ensures
        c == hex_char(d as nat),
{
    if d < 10 {
        crate::num::digit_to_char(d as u64)
    } else if d == 10 { 'a' }
    else if d == 11 { 'b' }
    else if d == 12 { 'c' }
    else if d == 13 { 'd' }
    else if d == 14 { 'e' }
    else { 'f' }
}

/// Appends the hex digits of `sb[lo..hi]`.
pub(crate) fn push_hex(out: &mut Vec<char>, sb: &Vec<u8>, lo: usize, hi: usize)
    requires
        lo <= hi <= sb.len(),
    ensures
        final(out)@ == old(out)@ + hex_bytes(sb@.subrange(lo as int, hi as int)),
{
    let ghost start = out@;
    let mut i = lo;
    assert(sb@.subrange(lo as int, lo as int) =~= Seq::<u8>::empty());
    assert(start + hex_bytes(Seq::<u8>::empty()) =~= start);
    while i < hi
        invariant
            lo <= i <= hi <= sb.len(),
            out@ == start + hex_bytes(sb@.subrange(lo as int, i as int)),
        decreases hi - i,
    {
        let b = sb[i];
        out.push(hex_digit(b / 16));
        out.push(hex_digit(b % 16));
        assert(sb@.subrange(lo as int, i + 1).drop_last() =~= sb@.subrange(lo as int, i as int));
        assert(out@ =~= start + hex_bytes(sb@.subrange(lo as int, i + 1)));
        i = i + 1;
    }
}

/// The filesystem UUID of an ext2/3/4 superblock, in `blkid`'s canonical
/// lower-case 8-4-4-4-12 form.
pub fn ext4_uuid(sb: &Vec<u8>) -> (r: String)
    requires
        ext4_superblock_valid(sb@),
    ensures
        r@ == ext4_uuid_spec(sb@),
{
    let mut out: Vec<char> = Vec::new();
    push_hex(&mut out, sb, 104, 108);
    out.push('-');
    push_hex(&mut out, sb, 108, 110);
    out.push('-');
    push_hex(&mut out, sb, 110, 112);
    out.push('-');
    push_hex(&mut out, sb, 112, 114);
    out.push('-');
    push_hex(&mut out, sb, 114, 120);
    proof {
        let u = sb@.subrange(104, 120);
        reveal_strlit("-");
        assert(u.subrange(0, 4) =~= sb@.subrange(104, 108));
        assert(u.subrange(4, 6) =~= sb@.subrange(108, 110));
        assert(u.subrange(6, 8) =~= sb@.subrange(110, 112));
        assert(u.subrange(8, 10) =~= sb@.subrange(112, 114));
        assert(u.subrange(10, 16) =~= sb@.subrange(114, 120));
        assert(out@ =~= ext4_uuid_spec(sb@));
    }
    string_from(&out)
}

/// What the walk of `/sys/class/block` found for one block device.
#[derive(Debug, Clone)]
pub struct BlockEntry {
    /// The entry's name, `sda2` for `/sys/class/block/sda2`.
    pub name: String,
    /// Whether devtmpfs shows `/dev/<name>`.
    pub dev_exists: bool,
    /// The text of `/sys/class/block/<name>/uuid`, when readable.
    pub partuuid: Option<String>,
    /// The 1024 bytes at offset 1024 of `/dev/<name>`, when readable.
    pub superblock: Option<Vec<u8>>,
}

/// The mathematical value of a [`BlockEntry`].
pub struct BlockEntryModel {
    pub name: Seq<char>,
    pub dev_exists: bool,
    pub partuuid: Option<Seq<char>>,
    pub superblock: Option<Seq<u8>>,
}

impl View for BlockEntry {
    type V = BlockEntryModel;

    open spec fn view(&self) -> BlockEntryModel {
        BlockEntryModel {
            name: self.name@,
            dev_exists: self.dev_exists,
            partuuid: match self.partuuid {
                Some(s) => Some(s@),
                None => None,
            },
            superblock: match self.superblock {
                Some(b) => Some(b@),
                None => None,
            },
        }
    }
}

/// The models of a list of entries.
pub open spec fn entry_views(es: Seq<BlockEntry>) -> Seq<BlockEntryModel> {
    es.map_values(|e: BlockEntry| e@)
}

/// Whether a block device is the root that `spec` names (never for
/// `Device`, which is not searched for).
pub open spec fn entry_matches(spec: RootSpecModel, e: BlockEntryModel) -> bool {
    match spec {
        RootSpecModel::Device(_) => false,
        RootSpecModel::PartUuid(u) => e.dev_exists && match e.partuuid {
            Some(b) => eq_ignore_case(trim(b), u),
            None => false,
        },
        RootSpecModel::Label(l) => e.dev_exists && match e.superblock {
            Some(sb) => ext4_superblock_valid(sb) && ext4_label_spec(sb) == Some(l),
            None => false,
        },
        RootSpecModel::Uuid(u) => e.dev_exists && match e.superblock {
            Some(sb) => ext4_superblock_valid(sb) && ext4_uuid_spec(sb) == lower_ascii(u),
            None => false,
        },
    }
}

/// Index of the first entry that matches.
pub open spec fn first_match(spec: RootSpecModel, es: Seq<BlockEntryModel>) -> Option<int>
    decreases es.len(),
{
    if es.len() == 0 {
        None
    } else if entry_matches(spec, es[0]) {
        Some(0)
    } else {
        match first_match(spec, es.drop_first()) {
            Some(i) => Some(i + 1),
            None => None,
        }
    }
}

/// The message of the `NotFound` error for `spec`.
pub open spec fn not_found_text(spec: RootSpecModel) -> Seq<char> {
    match spec {
        RootSpecModel::Device(p) => p,
        RootSpecModel::PartUuid(u) => u,
        RootSpecModel::Label(l) => "LABEL="@ + l,
        RootSpecModel::Uuid(u) => "UUID="@ + u,
    }
}

/// One look for the root device: the path of the device, or the text of
/// the `NotFound` error.
pub open spec fn locate_once_spec(
    spec: RootSpecModel,
    device_exists: bool,
    es: Seq<BlockEntryModel>,
) -> Result<Seq<char>, Seq<char>> {
    match spec {
        RootSpecModel::Device(p) => if device_exists { Ok(p) } else { Err(p) },
        _ => match first_match(spec, es) {
            Some(i) => Ok("/dev/"@ + es[i].name),
            None => Err(not_found_text(spec)),
        },
    }
}

fn entry_matches_exec(spec: &RootSpec, e: &BlockEntry) -> (b: bool)
    ensures
        b == entry_matches(spec@, e@),
{
    match spec {
        RootSpec::Device(_) => false,
        RootSpec::PartUuid(u) => {
            if !e.dev_exists {
                return false;
            }
            match &e.partuuid {
                Some(body) => {
                    let t = trim_vec(&chars_of(body.as_str()));
                    eq_ignore_case_vec(&t, &chars_of(u.as_str()))
                },
                None => false,
            }
        },
        RootSpec::Label(l) => {
            if !e.dev_exists {
                return false;
            }
            match &e.superblock {
                Some(sb) => {
                    if !ext4_superblock_ok(sb) {
                        return false;
                    }
                    match ext4_label(sb) {
                        Some(found) => vec_eq(&chars_of(found.as_str()), &chars_of(l.as_str())),
                        None => false,
                    }
                },
                None => false,
            }
        },
        RootSpec::Uuid(u) => {
            if !e.dev_exists {
                return false;
            }
            match &e.superblock {
                Some(sb) => {
                    if !ext4_superblock_ok(sb) {
                        return false;
                    }
                    let found = ext4_uuid(sb);
                    let want = lower_vec(&chars_of(u.as_str()));
                    vec_eq(&chars_of(found.as_str()), &want)
                },
                None => false,
            }
        },
    }
}

/// Looks once for the root device that `spec` names. `device_exists` says
/// whether the path of a `Device` spec exists; `entries` is what the walk of
/// `/sys/class/block` found, in the order it found it.
pub fn locate_root_once(spec: &RootSpec, device_exists: bool, entries: &Vec<BlockEntry>) -> (r:
    Result<String, DiscoverError>)
    ensures
        match r {
            Ok(p) => locate_once_spec(spec@, device_exists, entry_views(entries@)) == Ok::<
                Seq<char>,
                Seq<char>,
            >(p@),
            Err(DiscoverError::NotFound(m)) => locate_once_spec(
                spec@,
                device_exists,
                entry_views(entries@),
            ) == Err::<Seq<char>, Seq<char>>(m@),
            Err(_) => false,
        },
{
    let ghost es = entry_views(entries@);
    match spec {
        RootSpec::Device(p) => {
            if device_exists {
                return Ok(p.clone());
            } else {
                return Err(DiscoverError::NotFound(p.clone()));
            }
        },
        _ => {},
    }
    let mut i: usize = 0;
    assert(es.skip(0) =~= es);
    while i < entries.len()
        invariant
            i <= entries.len(),
            es == entry_views(entries@),
            !(spec@ is Device),
            first_match(spec@, es) == match first_match(spec@, es.skip(i as int)) {
                Some(j) => Some(j + i),
                None => None,
            },
        decreases entries.len() - i,
    {
        assert(es.skip(i as int).drop_first() =~= es.skip(i + 1));
        assert(es[i as int] == entries@[i as int]@);
        if entry_matches_exec(spec, &entries[i]) {
            let mut path = chars_of("/dev/");
            extend_str(&mut path, entries[i].name.as_str());
            return Ok(string_from(&path));
        }
        i = i + 1;
    }
    assert(es.skip(entries.len() as int) =~= Seq::<BlockEntryModel>::empty());
    let msg = match spec {
        RootSpec::Device(p) => p.clone(),
        RootSpec::PartUuid(u) => u.clone(),
        RootSpec::Label(l) => {
            let mut m = chars_of("LABEL=");
            extend_str(&mut m, l.as_str());
            string_from(&m)
        },
        RootSpec::Uuid(u) => {
            let mut m = chars_of("UUID=");
            extend_str(&mut m, u.as_str());
            string_from(&m)
        },
    };
    Err(DiscoverError::NotFound(msg))
}

proof fn lemma_first_match_is(spec: RootSpecModel, es: Seq<BlockEntryModel>, i: int)
    requires
        0 <= i < es.len(),
        entry_matches(spec, es[i]),
        forall|j: int| 0 <= j < i ==> !entry_matches(spec, #[trigger] es[j]),
    ensures
        first_match(spec, es) == Some(i),
    decreases i,
{
    if i > 0 {
        assert(!entry_matches(spec, es[0]));
        let rest = es.drop_first();
        assert forall|j: int| 0 <= j < i - 1 implies !entry_matches(spec, #[trigger] rest[j]) by {
            assert(rest[j] == es[j + 1]);
        }
        assert(rest[i - 1] == es[i]);
        lemma_first_match_is(spec, rest, i - 1);
    }
}

proof fn lemma_first_match_none(spec: RootSpecModel, es: Seq<BlockEntryModel>)
    requires
        forall|j: int| 0 <= j < es.len() ==> !entry_matches(spec, #[trigger] es[j]),
    ensures
        first_match(spec, es) is None,
    decreases es.len(),
{
    if es.len() > 0 {
        assert(!entry_matches(spec, es[0]));
        let rest = es.drop_first();
        assert forall|j: int| 0 <= j < rest.len() implies !entry_matches(spec, #[trigger] rest[j]) by {
            assert(rest[j] == es[j + 1]);
        }
        lemma_first_match_none(spec, rest);
    }
}

/// The block device has partition UUID `u`: its node exists and the text
/// of its `uuid` file, with surrounding whitespace (the trailing newline)
/// removed, is `u` up to ASCII case.
pub open spec fn has_partuuid(e: BlockEntryModel, u: Seq<char>) -> bool {
    e.dev_exists && match e.partuuid {
        Some(b) => lower_ascii(trim(b)) == lower_ascii(u),
        None => false,
    }
}

/// `root=PARTUUID=u` finds `/dev/<name>` of the first block device whose
/// `uuid` text, with surrounding whitespace removed, is `u` up to ASCII
/// case; when there is none, the error names `u`.
pub proof fn lemma_partuuid_root(u: Seq<char>, device_exists: bool, es: Seq<BlockEntryModel>)
    ensures
        forall|i: int|
            0 <= i < es.len() && has_partuuid(#[trigger] es[i], u) && (forall|j: int|
                0 <= j < i ==> !has_partuuid(#[trigger] es[j], u)) ==> locate_once_spec(
                RootSpecModel::PartUuid(u),
                device_exists,
                es,
            ) == Ok::<Seq<char>, Seq<char>>("/dev/"@ + es[i].name),
        (forall|j: int| 0 <= j < es.len() ==> !has_partuuid(#[trigger] es[j], u)) ==> locate_once_spec(
            RootSpecModel::PartUuid(u),
            device_exists,
            es,
        ) == Err::<Seq<char>, Seq<char>>(u),
{
    let spec = RootSpecModel::PartUuid(u);
    assert forall|k: int| 0 <= k < es.len() implies entry_matches(spec, #[trigger] es[k]) == has_partuuid(
        es[k],
        u,
    ) by {}
    assert forall|i: int|
        0 <= i < es.len() && has_partuuid(#[trigger] es[i], u) && (forall|j: int|
            0 <= j < i ==> !has_partuuid(#[trigger] es[j], u)) implies locate_once_spec(
        spec,
        device_exists,
        es,
    ) == Ok::<Seq<char>, Seq<char>>("/dev/"@ + es[i].name) by {
        assert forall|j: int| 0 <= j < i implies !entry_matches(spec, #[trigger] es[j]) by {
            assert(!has_partuuid(es[j], u));
        }
        lemma_first_match_is(spec, es, i);
    }
    if forall|j: int| 0 <= j < es.len() ==> !has_partuuid(#[trigger] es[j], u) {
        assert forall|j: int| 0 <= j < es.len() implies !entry_matches(spec, #[trigger] es[j]) by {
            assert(!has_partuuid(es[j], u));
        }
        lemma_first_match_none(spec, es);
    }
}

/// The text of a `uuid` file ends in a newline: `u` followed by it still
/// names partition UUID `u`.
pub proof fn lemma_partuuid_newline(u: Seq<char>)
    requires
        u.len() > 0,
        !is_ws(u[0]),
        !is_ws(u.last()),
    ensures
        trim(u + "\n"@) == u,
{
    reveal_strlit("\n");
    let s = u + "\n"@;
    assert(s[0] == u[0]);
    assert(trim_start(s) == s);
    assert(is_ws(s.last()));
    assert(s.drop_last() =~= u);
    assert(trim_end(s) == trim_end(u));
    assert(trim_end(u) == u);
}

} // verus!
