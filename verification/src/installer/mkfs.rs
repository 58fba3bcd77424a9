//! Formatting the two partitions and reading back the root filesystem's
//! UUID: the `mkfs.vfat`, `mkfs.ext4` and `blkid` command lines, and what
//! `blkid` prints.
use vstd::prelude::*;
use crate::login::flow::arg_views;
use crate::text::{chars_of, string_from, trim, trim_vec};

verus! {

/// `mkfs.vfat` arguments for the ESP: FAT32, label `WRITEONCE`.
pub fn format_esp_args(esp: &str) -> (r: Vec<String>)
    ensures
        arg_views(r@) == seq!["-F"@, "32"@, "-n"@, "WRITEONCE"@, esp@],
{
    let r = vec![
        String::from_str("-F"),
        String::from_str("32"),
        String::from_str("-n"),
        String::from_str("WRITEONCE"),
        String::from_str(esp),
    ];
    assert(arg_views(r@) =~= seq!["-F"@, "32"@, "-n"@, "WRITEONCE"@, esp@]);
    r
}

/// `mkfs.ext4` arguments for the root: forced, label `writeonce-root`, and
/// the inode tables and journal initialised now rather than on first boot.
pub fn format_root_args(root: &str) -> (r: Vec<String>)
    ensures
        arg_views(r@) == seq![
            "-F"@,
            "-L"@,
            "writeonce-root"@,
            "-E"@,
            "lazy_itable_init=0,lazy_journal_init=0"@,
            root@,
        ],
{
    let r = vec![
        String::from_str("-F"),
        String::from_str("-L"),
        String::from_str("writeonce-root"),
        String::from_str("-E"),
        String::from_str("lazy_itable_init=0,lazy_journal_init=0"),
        String::from_str(root),
    ];
    assert(arg_views(r@) =~= seq![
        "-F"@,
        "-L"@,
        "writeonce-root"@,
        "-E"@,
        "lazy_itable_init=0,lazy_journal_init=0"@,
        root@,
    ]);
    r
}

/// `blkid` arguments that print just the filesystem UUID of `device`.
pub fn blkid_uuid_args(device: &str) -> (r: Vec<String>)
    ensures
        arg_views(r@) == seq!["-s"@, "UUID"@, "-o"@, "value"@, device@],
{
    let r = vec![
        String::from_str("-s"),
        String::from_str("UUID"),
        String::from_str("-o"),
        String::from_str("value"),
        String::from_str(device),
    ];
    assert(arg_views(r@) =~= seq!["-s"@, "UUID"@, "-o"@, "value"@, device@]);
    r
}

/// The UUID in what `blkid` printed: the text trimmed, refused when empty.
pub fn uuid_from_blkid(output: &str) -> (r: Option<String>)
    ensures
        match r {
            Some(u) => u@ == trim(output@) && u@.len() > 0,
            None => trim(output@).len() == 0,
        },
{
    let t = trim_vec(&chars_of(output));
    if t.len() == 0 {
        None
    } else {
        Some(string_from(&t))
    }
}

} // verus!
