//! The two-partition GPT layout: a FAT32 ESP (type `EF00`) and an ext4 root
//! (type `8300`), written by `sgdisk`.
use vstd::prelude::*;
use crate::installer::spec::PartitionPlan;
use crate::num::{dec_digits, push_decimal};
use crate::login::flow::arg_views;
use crate::text::{chars_of, extend_str, is_digit, string_from};

verus! {

/// The device paths of the two partitions of a disk: `p1`/`p2` after a
/// name ending in a digit (`nvme0n1` → `nvme0n1p1`), `1`/`2` otherwise
/// (`sdb` → `sdb1`).
pub open spec fn partition_paths_spec(device: Seq<char>) -> (Seq<char>, Seq<char>) {
    if device.len() > 0 && is_digit(device.last()) {
        (device + "p1"@, device + "p2"@)
    } else {
        (device + "1"@, device + "2"@)
    }
}

/// The ESP and root partition paths of `device`, as
/// [`partition_paths_spec`] says.
pub fn partition_paths(device: &str) -> (r: (String, String))
    ensures
        (r.0@, r.1@) == partition_paths_spec(device@),
{
    let v = chars_of(device);
    let mut esp = chars_of(device);
    let mut root = chars_of(device);
    if v.len() > 0 && '0' <= v[v.len() - 1] && v[v.len() - 1] <= '9' {
        extend_str(&mut esp, "p1");
        extend_str(&mut root, "p2");
    } else {
        extend_str(&mut esp, "1");
        extend_str(&mut root, "2");
    }
    (string_from(&esp), string_from(&root))
}

/// The `sgdisk` arguments that wipe the old table.
pub fn zap_args(device: &str) -> (r: Vec<String>)
    ensures
        arg_views(r@) == seq!["--zap-all"@, device@],
{
    let r = vec![String::from_str("--zap-all"), String::from_str(device)];
    assert(arg_views(r@) =~= seq!["--zap-all"@, device@]);
    r
}

/// The root partition's `--new` argument: the rest of the disk, or the
/// planned size in GiB.
pub open spec fn root_new_arg(root_gib: Option<u32>) -> Seq<char> {
    match root_gib {
        None => "--new=2:0:0"@,
        Some(g) => "--new=2:0:+"@ + dec_digits(g as nat) + "G"@,
    }
}

/// The `sgdisk` arguments that create the layout: the ESP of the planned
/// MiB first, then the root partition, each with its type code and name.
pub open spec fn create_args_spec(device: Seq<char>, plan_esp: u32, plan_root: Option<u32>) -> Seq<
    Seq<char>,
> {
    seq![
        "--new=1:0:+"@ + dec_digits(plan_esp as nat) + "M"@,
        "--typecode=1:EF00"@,
        "--change-name=1:WRITEONCE-ESP"@,
        root_new_arg(plan_root),
        "--typecode=2:8300"@,
        "--change-name=2:writeonce-root"@,
        device,
    ]
}

/// The `sgdisk` arguments that create the layout for `plan`.
pub fn create_args(device: &str, plan: &PartitionPlan) -> (r: Vec<String>)
    ensures
        arg_views(r@) == create_args_spec(device@, plan.esp_mib, plan.root_gib),
{
    let mut esp = chars_of("--new=1:0:+");
    push_decimal(&mut esp, plan.esp_mib as u64);
    extend_str(&mut esp, "M");
    let root = match plan.root_gib {
        None => String::from_str("--new=2:0:0"),
        Some(g) => {
            let mut v = chars_of("--new=2:0:+");
            push_decimal(&mut v, g as u64);
            extend_str(&mut v, "G");
            string_from(&v)
        },
    };
    let r = vec![
        string_from(&esp),
        String::from_str("--typecode=1:EF00"),
        String::from_str("--change-name=1:WRITEONCE-ESP"),
        root,
        String::from_str("--typecode=2:8300"),
        String::from_str("--change-name=2:writeonce-root"),
        String::from_str(device),
    ];
    assert(arg_views(r@) =~= create_args_spec(device@, plan.esp_mib, plan.root_gib));
    r
}

} // verus!
