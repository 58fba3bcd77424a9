//! The pseudo-filesystems the initramfs userland needs before anything else.
use vstd::prelude::*;

verus! {

/// `EBUSY` from `<errno.h>`, read from the `libc` crate; the contract
/// states its Linux value, as libc's source defines it.
#[verifier::external_body]
fn ebusy() -> (r: i32)
    ensures
        r == 16,
{
    libc::EBUSY
}

/// What one `mount(2)` call comes to, from the error number it failed with
/// (`None` when it succeeded): a target that is already mounted (`EBUSY`)
/// counts as mounted, so the list can be mounted again; any other error
/// stops the list with that error number.
pub open spec fn mount_result_spec(errno: Option<i32>) -> Result<(), i32> {
    match errno {
        None => Ok(()),
        Some(e) => if e == 16 { Ok(()) } else { Err(e) },
    }
}

/// What one `mount(2)` call comes to; see [`mount_result_spec`].
pub fn mount_result(errno: Option<i32>) -> (r: Result<(), i32>)
    ensures
        r == mount_result_spec(errno),
{
    match errno {
        None => Ok(()),
        Some(e) => if e == ebusy() { Ok(()) } else { Err(e) },
    }
}

/// One `mount(2)` call: source, target, filesystem type, flags and data.
#[derive(Debug, Clone)]
pub struct MountRequest {
    pub source: String,
    pub target: String,
    pub fstype: String,
    pub flags: u64,
    pub data: Option<String>,
}

/// The mathematical value of a [`MountRequest`].
pub struct MountModel {
    pub source: Seq<char>,
    pub target: Seq<char>,
    pub fstype: Seq<char>,
    pub flags: u64,
    pub data: Option<Seq<char>>,
}

impl View for MountRequest {
    type V = MountModel;

    open spec fn view(&self) -> MountModel {
        MountModel {
            source: self.source@,
            target: self.target@,
            fstype: self.fstype@,
            flags: self.flags,
            data: match self.data {
                Some(d) => Some(d@),
                None => None,
            },
        }
    }
}

/// The mounts of [`essentials`], in order.
pub open spec fn essentials_spec() -> Seq<MountModel> {
    seq![
        MountModel { source: "proc"@, target: "/proc"@, fstype: "proc"@, flags: 0, data: None },
        MountModel { source: "sysfs"@, target: "/sys"@, fstype: "sysfs"@, flags: 0, data: None },
        MountModel {
            source: "devtmpfs"@,
            target: "/dev"@,
            fstype: "devtmpfs"@,
            flags: 0,
            data: Some("mode=755"@),
        },
    ]
}

fn request(source: &str, target: &str, fstype: &str, data: Option<&str>) -> (r: MountRequest)
    ensures
        r@ == (MountModel {
            source: source@,
            target: target@,
            fstype: fstype@,
            flags: 0,
            data: match data {
                Some(d) => Some(d@),
                None => None,
            },
        }),
{
    MountRequest {
        source: String::from_str(source),
        target: String::from_str(target),
        fstype: String::from_str(fstype),
        flags: 0,
        data: match data {
            Some(d) => Some(String::from_str(d)),
            None => None,
        },
    }
}

/// The in-kernel pseudo-filesystems to mount first: `/proc`, `/sys` and a
/// devtmpfs `/dev` (mode 755). Mounting is idempotent: a target that is
/// already mounted (`EBUSY`) counts as done.
pub fn essentials() -> (r: Vec<MountRequest>)
    ensures
        r@.map_values(|m: MountRequest| m@) == essentials_spec(),
{
    let r = vec![
        request("proc", "/proc", "proc", None),
        request("sysfs", "/sys", "sysfs", None),
        request("devtmpfs", "/dev", "devtmpfs", Some("mode=755")),
    ];
    assert(r@.map_values(|m: MountRequest| m@) =~= essentials_spec());
    r
}

/// A list of mounts being made in order: what is planned and the outcome of
/// each call made so far (the error number it failed with, `None` when it
/// succeeded). The run stops at the first call that fails with an error
/// other than `EBUSY`.
pub struct MountRun {
    pub requests: Vec<MountRequest>,
    pub outcomes: Vec<Option<i32>>,
}

impl MountRun {
    /// The mounts planned, in order.
    pub open spec fn planned(&self) -> Seq<MountModel> {
        self.requests@.map_values(|m: MountRequest| m@)
    }

    /// The outcomes of the calls made so far, in order.
    pub open spec fn made(&self) -> Seq<Option<i32>> {
        self.outcomes@
    }

    /// No more calls than planned, and every call before the last one made
    /// counted as mounted.
    pub open spec fn wf(&self) -> bool {
        &&& self.made().len() <= self.planned().len()
        &&& forall|i: int| 0 <= i < self.made().len() - 1 ==> (#[trigger] mount_result_spec(self.made()[i])) is Ok
    }

    /// Every planned mount was made, or the last one made failed.
    pub open spec fn finished(&self) -> bool {
        ||| self.made().len() == self.planned().len()
        ||| self.made().len() > 0 && mount_result_spec(self.made().last()) is Err
    }

    /// The run's result: the error of the last call made when it failed,
    /// else success.
    pub open spec fn result_spec(&self) -> Result<(), i32> {
        if self.made().len() > 0 && mount_result_spec(self.made().last()) is Err {
            mount_result_spec(self.made().last())
        } else {
            Ok(())
        }
    }

    /// A run of `requests` with no call made yet.
    pub fn new(requests: Vec<MountRequest>) -> (r: MountRun)
        ensures
            r.wf(),
            r.planned() == requests@.map_values(|m: MountRequest| m@),
            r.made() == Seq::<Option<i32>>::empty(),
    {
        MountRun { requests, outcomes: Vec::new() }
    }

    /// The mount to make next: the planned one after the calls made, none
    /// once the run is finished.
    pub fn next_mount(&self) -> (r: Option<&MountRequest>)
        requires
            self.wf(),
        ensures
            r is None <==> self.finished(),
            r matches Some(m) ==> m@ == self.planned()[self.made().len() as int],
    {
        let n = self.outcomes.len();
        if n == self.requests.len() {
            return None;
        }
        if n > 0 {
            match mount_result(self.outcomes[n - 1]) {
                Ok(()) => {},
                Err(_) => return None,
            }
        }
        assert(self.requests@.map_values(|m: MountRequest| m@)[n as int] == self.requests@[n as int]@);
        Some(&self.requests[n])
    }

    /// Records the outcome of the call [`MountRun::next_mount`] gave.
    pub fn record(&mut self, errno: Option<i32>)
        requires
            old(self).wf(),
            !old(self).finished(),
        ensures
            final(self).wf(),
            final(self).planned() == old(self).planned(),
            final(self).made() == old(self).made().push(errno),
    {
        self.outcomes.push(errno);
    }

    /// The run's result; see [`MountRun::result_spec`].
    pub fn result(&self) -> (r: Result<(), i32>)
        requires
            self.wf(),
        ensures
            r == self.result_spec(),
    {
        let n = self.outcomes.len();
        if n > 0 {
            match mount_result(self.outcomes[n - 1]) {
                Ok(()) => Ok(()),
                Err(e) => Err(e),
            }
        } else {
            Ok(())
        }
    }
}

/// A finished run succeeds exactly when every call made counted as
/// mounted (succeeded, or failed with `EBUSY`), and then every planned
/// mount was made; a failed run made no call after the failing one.
pub proof fn lemma_mount_run_result(run: MountRun)
    requires
        run.wf(),
        run.finished(),
    ensures
        run.result_spec() is Ok <==> forall|i: int|
            0 <= i < run.made().len() ==> (#[trigger] mount_result_spec(run.made()[i])) is Ok,
        run.result_spec() is Ok ==> run.made().len() == run.planned().len(),
        run.result_spec() is Err ==> run.result_spec() == mount_result_spec(run.made().last()),
{
    let n = run.made().len();
    if run.result_spec() is Ok {
        assert forall|i: int| 0 <= i < n implies (#[trigger] mount_result_spec(run.made()[i])) is Ok by {
            if i < n - 1 {
            } else {
                assert(i == n - 1);
            }
        }
    } else {
        assert(!(mount_result_spec(run.made()[n - 1]) is Ok));
    }
}

} // verus!
