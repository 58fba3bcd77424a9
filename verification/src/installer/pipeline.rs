//! The install pipeline's decisions: which input flow runs, which device is
//! the target, which devices the form offers, and whether the operator
//! must confirm the wipe.
use vstd::prelude::*;
use crate::installer::detect::{device_views, safety_check, safety_spec, SafetyVerdict, UsbDevice, UsbDeviceModel};
use crate::num::{parse_usize, parse_usize_vec};
use crate::text::{chars_of, join_path, join_path_str, trim, trim_vec};

verus! {

/// The line-by-line prompts run instead of the form when asked for, when
/// the target or `--yes` was given, or when stdin and stdout are not both
/// terminals.
pub fn use_cli_flow(no_tui: bool, target_given: bool, yes: bool, on_tty: bool) -> (b: bool)
    ensures
        b == (no_tui || target_given || yes || !on_tty),
{
    no_tui || target_given || yes || !on_tty
}

/// The typed `yes` is asked for on the prompt flow unless `--yes` was
/// given (the form's summary screen is its confirmation).
pub fn must_confirm(yes: bool, cli_flow: bool) -> (b: bool)
    ensures
        b == (!yes && cli_flow),
{
    !yes && cli_flow
}

/// The operator typed exactly `yes` (surrounding blanks aside).
pub fn confirmed(line: &str) -> (b: bool)
    ensures
        b == (trim(line@) == "yes"@),
{
    crate::text::vec_eq(&trim_vec(&chars_of(line)), &chars_of("yes"))
}

/// Why no target device could be chosen.
#[derive(Debug, Clone, PartialEq, Eq)]
pub enum TargetError {
    /// The named device is not under `/sys/block`.
    NotFound(String),
    /// The named device is not removable and that was not overridden.
    NotRemovable(String),
    /// No removable device is connected.
    NoDevices,
    /// The answer to the pick is not a number.
    NotANumber,
    /// The picked number is not on the list.
    OutOfRange,
}

impl TargetError {
    /// The message the installer prints for the refusal.
    pub fn message(&self) -> (m: String)
        ensures
            self matches TargetError::NotFound(p) ==> m@ == "device "@ + p@ + " not found under /sys/block"@,
            self matches TargetError::NotRemovable(p) ==> m@ == p@
                + " is not removable. Pass --force-non-removable if you really mean to install onto an internal disk."@,
            self is NoDevices ==> m@ == "no removable devices found; specify --target /dev/sdX explicitly"@,
            self is NotANumber ==> m@ == "expected a number"@,
            self is OutOfRange ==> m@ == "index out of range"@,
    {
        match self {
            TargetError::NotFound(p) => {
                let mut v = chars_of("device ");
                crate::text::extend_str(&mut v, p.as_str());
                crate::text::extend_str(&mut v, " not found under /sys/block");
                crate::text::string_from(&v)
            },
            TargetError::NotRemovable(p) => {
                let mut v = chars_of(p.as_str());
                crate::text::extend_str(
                    &mut v,
                    " is not removable. Pass --force-non-removable if you really mean to install onto an internal disk.",
                );
                crate::text::string_from(&v)
            },
            TargetError::NoDevices => String::from_str("no removable devices found; specify --target /dev/sdX explicitly"),
            TargetError::NotANumber => String::from_str("expected a number"),
            TargetError::OutOfRange => String::from_str("index out of range"),
        }
    }
}

/// The device named with `--target`, as `lookup` found it: refused when
/// missing, or when not removable unless `--force-non-removable`.
pub fn check_named_target(found: Option<UsbDevice>, path: &str, force_non_removable: bool) -> (r:
    Result<UsbDevice, TargetError>)
    ensures
        match found {
            None => r matches Err(TargetError::NotFound(p)) && p@ == path@,
            Some(d) => if !d.removable && !force_non_removable {
                r matches Err(TargetError::NotRemovable(p)) && p@ == d.path@
            } else {
                r matches Ok(x) && x@ == d@
            },
        },
{
    match found {
        None => Err(TargetError::NotFound(String::from_str(path))),
        Some(d) => {
            if !d.removable && !force_non_removable {
                Err(TargetError::NotRemovable(d.path.clone()))
            } else {
                Ok(d)
            }
        },
    }
}

/// The pick among the listed devices: none is refused; a single one is
/// taken without asking; otherwise the typed index (from 0) must name one.
pub open spec fn pick_spec(devices: Seq<UsbDeviceModel>, answer: Seq<char>) -> Result<int, TargetError> {
    if devices.len() == 0 {
        Err(TargetError::NoDevices)
    } else if devices.len() == 1 {
        Ok(0)
    } else {
        match parse_usize(trim(answer)) {
            None => Err(TargetError::NotANumber),
            Some(i) => if i < devices.len() { Ok(i as int) } else { Err(TargetError::OutOfRange) },
        }
    }
}

/// Whether the operator must be asked which device to use.
pub fn must_pick(n_devices: usize) -> (b: bool)
    ensures
        b == (n_devices > 1),
{
    n_devices > 1
}

/// The chosen device among `devices`, with the typed `answer` (read only
/// when there are several), as [`pick_spec`] says.
pub fn pick_device(devices: &Vec<UsbDevice>, answer: &str) -> (r: Result<UsbDevice, TargetError>)
    ensures
        match pick_spec(device_views(devices@), answer@) {
            Ok(i) => r matches Ok(d) && d@ == devices@[i]@,
            Err(e) => r == Err::<UsbDevice, TargetError>(e),
        },
{
    if devices.len() == 0 {
        return Err(TargetError::NoDevices);
    }
    if devices.len() == 1 {
        return Ok(devices[0].duplicate());
    }
    match parse_usize_vec(&trim_vec(&chars_of(answer))) {
        None => Err(TargetError::NotANumber),
        Some(i) => if i < devices.len() {
            Ok(devices[i].duplicate())
        } else {
            Err(TargetError::OutOfRange)
        },
    }
}

/// The devices the form offers: those that pass the safety check (each
/// with whether its node exists), in order.
pub open spec fn eligible_spec(devices: Seq<UsbDeviceModel>, exists: Seq<bool>, mounts: Seq<char>) -> Seq<
    UsbDeviceModel,
>
    decreases devices.len(),
{
    if devices.len() == 0 {
        seq![]
    } else {
        let prev = eligible_spec(devices.drop_last(), exists.take(devices.len() - 1), mounts);
        if safety_spec(devices.last(), exists[devices.len() - 1], mounts) == SafetyVerdict::Safe {
            prev.push(devices.last())
        } else {
            prev
        }
    }
}

/// Keeps the devices that pass the safety check against `/proc/mounts`
/// (`exists[i]` telling whether the node of `devices[i]` exists).
pub fn eligible_devices(devices: &Vec<UsbDevice>, exists: &Vec<bool>, mounts: &str) -> (r: Vec<UsbDevice>)
    requires
        exists@.len() == devices@.len(),
    ensures
        device_views(r@) == eligible_spec(device_views(devices@), exists@, mounts@),
{
    let ghost dv = device_views(devices@);
    let mut out: Vec<UsbDevice> = Vec::new();
    let mut i: usize = 0;
    assert(dv.take(0) =~= Seq::<UsbDeviceModel>::empty());
    while i < devices.len()
        invariant
            i <= devices.len(),
            exists@.len() == devices@.len(),
            dv == device_views(devices@),
            device_views(out@) == eligible_spec(dv.take(i as int), exists@.take(i as int), mounts@),
        decreases devices.len() - i,
    {
        let ghost t = dv.take(i + 1);
        assert(t.drop_last() =~= dv.take(i as int));
        assert(exists@.take(i + 1).take(i as int) =~= exists@.take(i as int));
        assert(t.last() == devices@[i as int]@);
        let ok = safety_check(&devices[i], exists[i], mounts).is_ok();
        if ok {
            let ghost before = device_views(out@);
            out.push(devices[i].duplicate());
            assert(device_views(out@) =~= before.push(devices@[i as int]@));
        }
        i = i + 1;
    }
    assert(dv.take(devices.len() as int) =~= dv);
    assert(exists@.take(devices.len() as int) =~= exists@);
    out
}

/// The mount points under the work directory: the root at `root`, the ESP
/// at `root/boot/efi`.
pub fn mount_points(workdir: &str) -> (r: (String, String))
    ensures
        r.0@ == join_path(workdir@, "root"@),
        r.1@ == join_path(join_path(workdir@, "root"@), "boot/efi"@),
{
    let root = join_path_str(workdir, "root");
    let esp = join_path_str(root.as_str(), "boot/efi");
    (root, esp)
}

} // verus!
