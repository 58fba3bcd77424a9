//! `mount(8)` / `umount(8)` command lines and the guard that unmounts a
//! target unless it was released.
use vstd::prelude::*;
use crate::login::flow::arg_views;

verus! {

/// The `mount` arguments: `-t <fstype> <source> <target>`.
pub fn mount_args(source: &str, target: &str, fs_type: &str) -> (r: Vec<String>)
    ensures
        arg_views(r@) == seq!["-t"@, fs_type@, source@, target@],
{
    let r = vec![
        String::from_str("-t"),
        String::from_str(fs_type),
        String::from_str(source),
        String::from_str(target),
    ];
    assert(arg_views(r@) =~= seq!["-t"@, fs_type@, source@, target@]);
    r
}

/// The lazy `umount` tried when the plain one fails: `-l <target>`.
pub fn lazy_umount_args(target: &str) -> (r: Vec<String>)
    ensures
        arg_views(r@) == seq!["-l"@, target@],
{
    let r = vec![String::from_str("-l"), String::from_str(target)];
    assert(arg_views(r@) =~= seq!["-l"@, target@]);
    r
}

/// A mounted target that is to be unmounted when its owner lets go of it,
/// unless [`MountGuard::forget`] released it first.
#[derive(Debug)]
pub struct MountGuard {
    pub target: String,
    active: bool,
}

impl MountGuard {
    /// Whether the target is still to be unmounted.
    pub closed spec fn armed(&self) -> bool {
        self.active
    }

    /// The guarded mount point.
    pub closed spec fn mount_point(&self) -> Seq<char> {
        self.target@
    }

    /// A guard for `target`, armed.
    pub fn new(target: String) -> (g: MountGuard)
        ensures
            g.mount_point() == target@,
            g.armed(),
    {
        MountGuard { target, active: true }
    }

    /// Releases the guard: the target was unmounted already.
    pub fn forget(&mut self)
        ensures
            !final(self).armed(),
            final(self).mount_point() == old(self).mount_point(),
    {
        self.active = false;
    }

    /// Whether the target is still to be unmounted.
    pub fn is_armed(&self) -> (b: bool)
        ensures
            b == self.armed(),
    {
        self.active
    }
}

} // verus!
