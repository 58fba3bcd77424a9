//! The artifact bundle's `manifest.toml`, the artifacts' paths, and their
//! SHA-256 checks.
use vstd::prelude::*;
use crate::initramfs::discover::{hex_bytes, push_hex};
use crate::text::{chars_of, eq_ignore_case, eq_ignore_case_vec, extend_str, join_path, join_path_str, string_from};

verus! {

/// The bundle's metadata.
#[derive(Debug, Clone)]
pub struct Manifest {
    pub schema_version: String,
    pub image: ImageSection,
    pub verification: VerificationSection,
    pub metadata: MetadataSection,
}

/// The artifacts' file names and the command-line template.
#[derive(Debug, Clone)]
pub struct ImageSection {
    pub kernel: String,
    pub initramfs: String,
    pub bootloader: String,
    pub sysroot: String,
    /// Kernel command line template, with `__ROOT_UUID__` where the root
    /// partition's UUID goes.
    pub cmdline: String,
}

/// The artifacts' expected SHA-256 digests, in hex.
#[derive(Debug, Clone)]
pub struct VerificationSection {
    pub kernel_sha256: String,
    pub initramfs_sha256: String,
    pub bootloader_sha256: String,
    pub sysroot_sha256: String,
}

/// Build information, for people to read.
#[derive(Debug, Clone)]
pub struct MetadataSection {
    pub build_key: String,
    pub built_at: String,
    pub writeonce_git_sha: String,
}

impl Default for MetadataSection {
    fn default() -> (m: MetadataSection)
        ensures
            m.build_key@ == Seq::<char>::empty(),
            m.built_at@ == Seq::<char>::empty(),
            m.writeonce_git_sha@ == Seq::<char>::empty(),
    {
        MetadataSection { build_key: String::new(), built_at: String::new(), writeonce_git_sha: String::new() }
    }
}

/// The artifacts with their paths and expected digests.
#[derive(Debug, Clone)]
pub struct ResolvedArtifacts {
    pub kernel: String,
    pub initramfs: String,
    pub bootloader: String,
    pub sysroot: String,
    pub cmdline_template: String,
    pub kernel_sha: String,
    pub initramfs_sha: String,
    pub bootloader_sha: String,
    pub sysroot_sha: String,
}

impl Manifest {
    /// The artifacts of the bundle in `dir`: each file name joined onto
    /// `dir`, the template and digests as the manifest gives them.
    pub fn resolve(&self, dir: &str) -> (r: ResolvedArtifacts)
        ensures
            r.kernel@ == join_path(dir@, self.image.kernel@),
            r.initramfs@ == join_path(dir@, self.image.initramfs@),
            r.bootloader@ == join_path(dir@, self.image.bootloader@),
            r.sysroot@ == join_path(dir@, self.image.sysroot@),
            r.cmdline_template@ == self.image.cmdline@,
            r.kernel_sha@ == self.verification.kernel_sha256@,
            r.initramfs_sha@ == self.verification.initramfs_sha256@,
            r.bootloader_sha@ == self.verification.bootloader_sha256@,
            r.sysroot_sha@ == self.verification.sysroot_sha256@,
    {
        ResolvedArtifacts {
            kernel: join_path_str(dir, self.image.kernel.as_str()),
            initramfs: join_path_str(dir, self.image.initramfs.as_str()),
            bootloader: join_path_str(dir, self.image.bootloader.as_str()),
            sysroot: join_path_str(dir, self.image.sysroot.as_str()),
            cmdline_template: self.image.cmdline.clone(),
            kernel_sha: self.verification.kernel_sha256.clone(),
            initramfs_sha: self.verification.initramfs_sha256.clone(),
            bootloader_sha: self.verification.bootloader_sha256.clone(),
            sysroot_sha: self.verification.sysroot_sha256.clone(),
        }
    }
}

/// A `sha2::Sha256` hasher, kept opaque. `sha2::Sha256` is an alias of a
/// generic core wrapper with type-level numbers, so the hasher sits in a
/// private field of this struct, its contents described by [`absorbed`],
/// and is reached only through the functions below.
#[verifier::external_body]
pub struct Sha256State {
    inner: sha2::Sha256,
}

/// The bytes a hasher has absorbed so far, in order.
pub uninterp spec fn absorbed(h: Sha256State) -> Seq<u8>;

/// The SHA-256 digest of a byte string, a function of the bytes alone.
pub uninterp spec fn sha256_of(data: Seq<u8>) -> Seq<u8>;

/// `Sha256::new` (`Digest::new`): a hasher that has absorbed nothing.
#[verifier::external_body]
fn sha256_new() -> (h: Sha256State)
    ensures
        absorbed(h) == Seq::<u8>::empty(),
{
    Sha256State { inner: sha2::Digest::new() }
}

/// `Digest::update`: the hasher absorbs `data` after what it had.
#[verifier::external_body]
fn sha256_update(h: &mut Sha256State, data: &[u8])
    ensures
        absorbed(*final(h)) == absorbed(*old(h)) + data@,
{
    sha2::Digest::update(&mut h.inner, data)
}

/// `Digest::finalize`: the 32-byte digest of everything absorbed.
#[verifier::external_body]
fn sha256_finalize(h: Sha256State) -> (d: Vec<u8>)
    ensures
        d@ == sha256_of(absorbed(h)),
        d@.len() == 32,
{
    sha2::Digest::finalize(h.inner).to_vec()
}

/// A SHA-256 computation over a stream of chunks.
pub struct ArtifactHasher {
    h: Sha256State,
}

impl ArtifactHasher {
    /// The bytes fed so far.
    pub closed spec fn input(&self) -> Seq<u8> {
        absorbed(self.h)
    }

    /// A hasher that has been fed nothing.
    pub fn new() -> (r: ArtifactHasher)
        ensures
            r.input() == Seq::<u8>::empty(),
    {
        ArtifactHasher { h: sha256_new() }
    }

    /// Feeds the next chunk.
    pub fn update(&mut self, chunk: &[u8])
        ensures
            final(self).input() == old(self).input() + chunk@,
    {
        sha256_update(&mut self.h, chunk);
    }

    /// The digest of everything fed, in lower-case hex (`{:x}`).
    pub fn hex_digest(self) -> (s: String)
        ensures
            s@ == hex_bytes(sha256_of(self.input())),
    {
        let ghost fed = absorbed(self.h);
        let d = sha256_finalize(self.h);
        let mut out: Vec<char> = Vec::new();
        push_hex(&mut out, &d, 0, d.len());
        assert(d@.subrange(0, d@.len() as int) =~= d@);
        assert(out@ =~= hex_bytes(sha256_of(fed)));
        string_from(&out)
    }
}

/// The SHA-256 digest of `data` in lower-case hex.
pub fn sha256_hex(data: &[u8]) -> (s: String)
    ensures
        s@ == hex_bytes(sha256_of(data@)),
{
    let mut h = ArtifactHasher::new();
    h.update(data);
    assert(Seq::<u8>::empty() + data@ =~= data@);
    h.hex_digest()
}

/// The refusal of an artifact whose digest differs from the manifest's.
pub open spec fn mismatch_text(label: Seq<char>, expected: Seq<char>, actual: Seq<char>) -> Seq<char> {
    "SHA-256 mismatch on "@ + label + ": manifest says "@ + expected + ", got "@ + actual
}

/// The refusal of a file that reads back with another digest after the
/// write.
pub open spec fn reread_mismatch_text(label: Seq<char>, expected: Seq<char>, actual: Seq<char>) -> Seq<
    char,
> {
    "re-read SHA mismatch on "@ + label + ": expected "@ + expected + " got "@ + actual
}

/// Compares an artifact's digest with the manifest's, ignoring ASCII case.
pub fn check_digest(label: &str, expected: &str, actual: &str) -> (r: Result<(), String>)
    ensures
        match r {
            Ok(()) => eq_ignore_case(actual@, expected@),
            Err(m) => !eq_ignore_case(actual@, expected@) && m@ == mismatch_text(label@, expected@, actual@),
        },
{
    if eq_ignore_case_vec(&chars_of(actual), &chars_of(expected)) {
        Ok(())
    } else {
        let mut m = chars_of("SHA-256 mismatch on ");
        extend_str(&mut m, label);
        extend_str(&mut m, ": manifest says ");
        extend_str(&mut m, expected);
        extend_str(&mut m, ", got ");
        extend_str(&mut m, actual);
        Err(string_from(&m))
    }
}

/// Compares a written file's digest, read back, with the expected one.
pub fn check_reread(label: &str, expected: &str, actual: &str) -> (r: Result<(), String>)
    ensures
        match r {
            Ok(()) => eq_ignore_case(actual@, expected@),
            Err(m) => !eq_ignore_case(actual@, expected@) && m@ == reread_mismatch_text(label@, expected@, actual@),
        },
{
    if eq_ignore_case_vec(&chars_of(actual), &chars_of(expected)) {
        Ok(())
    } else {
        let mut m = chars_of("re-read SHA mismatch on ");
        extend_str(&mut m, label);
        extend_str(&mut m, ": expected ");
        extend_str(&mut m, expected);
        extend_str(&mut m, " got ");
        extend_str(&mut m, actual);
        Err(string_from(&m))
    }
}

/// The artifacts checked before anything is written, in order: label,
/// path and expected digest.
pub fn artifact_checks(a: &ResolvedArtifacts) -> (r: Vec<(String, String, String)>)
    ensures
        r@.map_values(|t: (String, String, String)| (t.0@, t.1@, t.2@)) == seq![
            ("kernel"@, a.kernel@, a.kernel_sha@),
            ("initramfs"@, a.initramfs@, a.initramfs_sha@),
            ("bootloader"@, a.bootloader@, a.bootloader_sha@),
            ("sysroot"@, a.sysroot@, a.sysroot_sha@),
        ],
{
    let r = vec![
        (String::from_str("kernel"), a.kernel.clone(), a.kernel_sha.clone()),
        (String::from_str("initramfs"), a.initramfs.clone(), a.initramfs_sha.clone()),
        (String::from_str("bootloader"), a.bootloader.clone(), a.bootloader_sha.clone()),
        (String::from_str("sysroot"), a.sysroot.clone(), a.sysroot_sha.clone()),
    ];
    assert(r@.map_values(|t: (String, String, String)| (t.0@, t.1@, t.2@)) =~= seq![
        ("kernel"@, a.kernel@, a.kernel_sha@),
        ("initramfs"@, a.initramfs@, a.initramfs_sha@),
        ("bootloader"@, a.bootloader@, a.bootloader_sha@),
        ("sysroot"@, a.sysroot@, a.sysroot_sha@),
    ]);
    r
}

/// The files read back from the written ESP (mounted at `esp_dir`), in
/// order: label, path and expected digest.
pub fn reread_checks(a: &ResolvedArtifacts, esp_dir: &str) -> (r: Vec<(String, String, String)>)
    ensures
        r@.map_values(|t: (String, String, String)| (t.0@, t.1@, t.2@)) == seq![
            ("kernel"@, join_path(esp_dir@, "EFI/WriteOnce/bzImage"@), a.kernel_sha@),
            ("initramfs"@, join_path(esp_dir@, "EFI/WriteOnce/initramfs.img"@), a.initramfs_sha@),
            ("bootloader"@, join_path(esp_dir@, "EFI/BOOT/BOOTX64.EFI"@), a.bootloader_sha@),
        ],
{
    let r = vec![
        (String::from_str("kernel"), join_path_str(esp_dir, "EFI/WriteOnce/bzImage"), a.kernel_sha.clone()),
        (
            String::from_str("initramfs"),
            join_path_str(esp_dir, "EFI/WriteOnce/initramfs.img"),
            a.initramfs_sha.clone(),
        ),
        (String::from_str("bootloader"), join_path_str(esp_dir, "EFI/BOOT/BOOTX64.EFI"), a.bootloader_sha.clone()),
    ];
    assert(r@.map_values(|t: (String, String, String)| (t.0@, t.1@, t.2@)) =~= seq![
        ("kernel"@, join_path(esp_dir@, "EFI/WriteOnce/bzImage"@), a.kernel_sha@),
        ("initramfs"@, join_path(esp_dir@, "EFI/WriteOnce/initramfs.img"@), a.initramfs_sha@),
        ("bootloader"@, join_path(esp_dir@, "EFI/BOOT/BOOTX64.EFI"@), a.bootloader_sha@),
    ]);
    r
}

} // verus!
