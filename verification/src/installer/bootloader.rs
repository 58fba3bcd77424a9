//! The ESP's contents: the bootloader at the UEFI default path, the kernel,
//! the initramfs and the kernel command line.
//!
//! ```text
//! /EFI/BOOT/BOOTX64.EFI            UEFI default boot path
//! /EFI/WriteOnce/bzImage           kernel
//! /EFI/WriteOnce/initramfs.img     initramfs
//! /EFI/WriteOnce/cmdline.txt       kernel command line (root=UUID=…)
//! ```
use vstd::prelude::*;
use crate::text::{chars_of, extend, join_path, join_path_str, slice, starts_with, string_from};

verus! {

/// The placeholder of the command-line template for the root UUID.
pub const ROOT_UUID_PLACEHOLDER: &'static str = "__ROOT_UUID__";

/// `s` with every occurrence of the non-empty `pat` replaced by `rep`,
/// scanning left to right without overlap (`str::replace`).
pub open spec fn replace_all(s: Seq<char>, pat: Seq<char>, rep: Seq<char>) -> Seq<char>
    recommends
        pat.len() > 0,
    decreases s.len(),
{
    if s.len() == 0 || pat.len() == 0 {
        s
    } else if starts_with(s, pat) {
        rep + replace_all(s.skip(pat.len() as int), pat, rep)
    } else {
        seq![s[0]] + replace_all(s.drop_first(), pat, rep)
    }
}

proof fn lemma_replace_all_skip(s: Seq<char>, pat: Seq<char>, rep: Seq<char>, i: int)
    requires
        pat.len() > 0,
        0 <= i < s.len(),
    ensures
        starts_with(s.skip(i), pat) ==> replace_all(s.skip(i), pat, rep) == rep + replace_all(
            s.skip(i + pat.len()),
            pat,
            rep,
        ),
        !starts_with(s.skip(i), pat) ==> replace_all(s.skip(i), pat, rep) == seq![s[i]]
            + replace_all(s.skip(i + 1), pat, rep),
{
    let t = s.skip(i);
    if starts_with(t, pat) {
        assert(t.skip(pat.len() as int) =~= s.skip(i + pat.len()));
    } else {
        assert(t.drop_first() =~= s.skip(i + 1));
    }
}

/// `str::replace` with a non-empty pattern, as [`replace_all`] says.
pub fn replace_all_str(s: &str, pat: &str, rep: &str) -> (r: String)
    requires
        pat@.len() > 0,
    ensures
        r@ == replace_all(s@, pat@, rep@),
{
    let v = chars_of(s);
    let p = chars_of(pat);
    let rv = chars_of(rep);
    let mut out: Vec<char> = Vec::new();
    let mut i: usize = 0;
    assert(v@.skip(0) =~= v@);
    while i < v.len()
        invariant
            i <= v.len(),
            v@ == s@,
            p@ == pat@,
            rv@ == rep@,
            p@.len() > 0,
            out@ + replace_all(v@.skip(i as int), p@, rv@) == replace_all(v@, p@, rv@),
        decreases v.len() - i,
    {
        proof {
            lemma_replace_all_skip(v@, p@, rv@, i as int);
        }
        let mut matches = p.len() <= v.len() - i;
        let mut k: usize = 0;
        while matches && k < p.len()
            invariant
                i + p.len() <= v.len() || !matches,
                k <= p.len(),
                matches ==> forall|j: int| 0 <= j < k ==> v@[i + j] == p@[j],
                !matches ==> !starts_with(v@.skip(i as int), p@),
            decreases p.len() - k,
        {
            if v[i + k] != p[k] {
                assert(v@.skip(i as int)[k as int] != p@[k as int]);
                matches = false;
                k = p.len();
            } else {
                k = k + 1;
            }
        }
        if matches {
            assert(v@.skip(i as int).take(p@.len() as int) =~= p@);
            extend(&mut out, &rv);
            if i + p.len() == v.len() {
                assert(v@.skip(i + p.len()) =~= Seq::<char>::empty());
            }
            i = i + p.len();
        } else {
            if p.len() > v.len() - i {
                assert(!starts_with(v@.skip(i as int), p@));
            }
            out.push(v[i]);
            i = i + 1;
        }
        assert(out@ + replace_all(v@.skip(i as int), p@, rv@) =~= replace_all(v@, p@, rv@));
    }
    assert(v@.skip(i as int) =~= Seq::<char>::empty());
    assert(out@ + Seq::<char>::empty() =~= out@);
    string_from(&out)
}

/// The final kernel command line: the template with the root partition's
/// UUID put in place of every `__ROOT_UUID__`.
pub fn format_cmdline(template: &str, root_uuid: &str) -> (r: String)
    ensures
        r@ == replace_all(template@, ROOT_UUID_PLACEHOLDER@, root_uuid@),
{
    proof {
        reveal_strlit("__ROOT_UUID__");
    }
    replace_all_str(template, ROOT_UUID_PLACEHOLDER, root_uuid)
}

/// Where the ESP's files come from and what the command line says.
pub struct EspLayout {
    /// Where the ESP is mounted.
    pub esp_mount: String,
    pub bootloader: String,
    pub kernel: String,
    pub initramfs: String,
    /// Already has `root=UUID=…` substituted.
    pub cmdline: String,
}

/// The copies and writes that populate the ESP.
pub struct EspPlan {
    /// Directories to create, in order.
    pub dirs: Vec<String>,
    /// `(source, destination)` copies, in order.
    pub copies: Vec<(String, String)>,
    /// Where the command line is written.
    pub cmdline_path: String,
}

/// The views of a list of copies.
pub open spec fn copy_views(v: Seq<(String, String)>) -> Seq<(Seq<char>, Seq<char>)> {
    v.map_values(|p: (String, String)| (p.0@, p.1@))
}

/// The ESP's population: `EFI/BOOT` and `EFI/WriteOnce` under the mount,
/// the bootloader as `EFI/BOOT/BOOTX64.EFI`, the kernel as
/// `EFI/WriteOnce/bzImage`, the initramfs as `EFI/WriteOnce/initramfs.img`,
/// and the command line in `EFI/WriteOnce/cmdline.txt`.
pub fn esp_plan(layout: &EspLayout) -> (p: EspPlan)
    ensures
        p.dirs@.map_values(|s: String| s@) == seq![
            join_path(layout.esp_mount@, "EFI/BOOT"@),
            join_path(layout.esp_mount@, "EFI/WriteOnce"@),
        ],
        copy_views(p.copies@) == seq![
            (layout.bootloader@, join_path(join_path(layout.esp_mount@, "EFI/BOOT"@), "BOOTX64.EFI"@)),
            (layout.kernel@, join_path(join_path(layout.esp_mount@, "EFI/WriteOnce"@), "bzImage"@)),
            (layout.initramfs@, join_path(join_path(layout.esp_mount@, "EFI/WriteOnce"@), "initramfs.img"@)),
        ],
        p.cmdline_path@ == join_path(join_path(layout.esp_mount@, "EFI/WriteOnce"@), "cmdline.txt"@),
{
    let efi_boot = join_path_str(layout.esp_mount.as_str(), "EFI/BOOT");
    let efi_wo = join_path_str(layout.esp_mount.as_str(), "EFI/WriteOnce");
    let copies = vec![
        (layout.bootloader.clone(), join_path_str(efi_boot.as_str(), "BOOTX64.EFI")),
        (layout.kernel.clone(), join_path_str(efi_wo.as_str(), "bzImage")),
        (layout.initramfs.clone(), join_path_str(efi_wo.as_str(), "initramfs.img")),
    ];
    let cmdline_path = join_path_str(efi_wo.as_str(), "cmdline.txt");
    let dirs = vec![efi_boot, efi_wo];
    assert(copy_views(copies@) =~= seq![
        (layout.bootloader@, join_path(join_path(layout.esp_mount@, "EFI/BOOT"@), "BOOTX64.EFI"@)),
        (layout.kernel@, join_path(join_path(layout.esp_mount@, "EFI/WriteOnce"@), "bzImage"@)),
        (layout.initramfs@, join_path(join_path(layout.esp_mount@, "EFI/WriteOnce"@), "initramfs.img"@)),
    ]);
    assert(dirs@.map_values(|s: String| s@) =~= seq![
        join_path(layout.esp_mount@, "EFI/BOOT"@),
        join_path(layout.esp_mount@, "EFI/WriteOnce"@),
    ]);
    EspPlan { dirs, copies, cmdline_path }
}

} // verus!
