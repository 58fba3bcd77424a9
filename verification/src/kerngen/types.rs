//! The schema of a hardware probe: a flat dump of the host's identity,
//! kept uninterpreted so a probe taken today still serves a later resolver.
use vstd::prelude::*;

verus! {

/// The schema version; bumped when the schema changes incompatibly.
pub const PROBE_VERSION: u32 = 1;

/// A hardware probe.
#[derive(Debug)]
pub struct Probe {
    pub probe_version: u32,
    pub probed_at_unix: u64,
    pub uname: Uname,
    pub cpu: CpuInfo,
    pub dmi: DmiInfo,
    pub firmware: FirmwareInfo,
    pub devices: Vec<Device>,
}

/// The kernel's identity, as `uname(2)` reports it.
#[derive(Debug, Clone)]
pub struct Uname {
    pub sysname: String,
    pub release: String,
    pub version: String,
    pub machine: String,
}

impl Default for Uname {
    fn default() -> (u: Uname)
        ensures
            u.sysname@ == Seq::<char>::empty(),
            u.release@ == Seq::<char>::empty(),
            u.version@ == Seq::<char>::empty(),
            u.machine@ == Seq::<char>::empty(),
    {
        Uname { sysname: String::new(), release: String::new(), version: String::new(), machine: String::new() }
    }
}

/// The first CPU of `/proc/cpuinfo`, and the number of logical CPUs.
#[derive(Debug)]
pub struct CpuInfo {
    pub vendor_id: String,
    pub cpu_family: u32,
    pub model: u32,
    pub model_name: String,
    pub stepping: u32,
    pub flags: Vec<String>,
    /// Number of `processor :` blocks (logical CPUs, hyperthread siblings
    /// included).
    pub cpu_count: u32,
}

impl Default for CpuInfo {
    fn default() -> (c: CpuInfo)
        ensures
            c.vendor_id@ == Seq::<char>::empty(),
            c.cpu_family == 0,
            c.model == 0,
            c.model_name@ == Seq::<char>::empty(),
            c.stepping == 0,
            c.flags@.len() == 0,
            c.cpu_count == 0,
    {
        CpuInfo {
            vendor_id: String::new(),
            cpu_family: 0,
            model: 0,
            model_name: String::new(),
            stepping: 0,
            flags: Vec::new(),
            cpu_count: 0,
        }
    }
}

/// The DMI strings of `/sys/class/dmi/id/*`; absent when the hardware or
/// kernel does not provide one.
#[derive(Debug, Clone)]
pub struct DmiInfo {
    pub sys_vendor: Option<String>,
    pub product_name: Option<String>,
    pub product_version: Option<String>,
    pub product_serial: Option<String>,
    pub board_vendor: Option<String>,
    pub board_name: Option<String>,
    pub bios_vendor: Option<String>,
    pub bios_version: Option<String>,
    pub bios_date: Option<String>,
}

/// What the firmware is.
#[derive(Debug, Clone, Copy, PartialEq, Eq)]
pub struct FirmwareInfo {
    pub efi: bool,
    /// 32 or 64; absent on BIOS systems or when the entry is missing.
    pub fw_platform_size: Option<u32>,
    /// Absent when the SecureBoot variable cannot be read.
    pub secure_boot: Option<bool>,
}

impl Default for FirmwareInfo {
    fn default() -> (f: FirmwareInfo)
        ensures
            !f.efi,
            f.fw_platform_size is None,
            f.secure_boot is None,
    {
        FirmwareInfo { efi: false, fw_platform_size: None, secure_boot: None }
    }
}

/// A device with a `modalias`.
#[derive(Debug, Clone)]
pub struct Device {
    /// `pci`, `usb`, `acpi`, `virtio` or `platform`.
    pub subsystem: String,
    /// The `modalias` file's text.
    pub modalias: String,
    /// Its path under `/sys/bus/<subsystem>/devices/`.
    pub syspath: String,
    /// The bound driver, if any.
    pub driver: Option<String>,
}

/// The mathematical value of a [`Device`].
pub struct DeviceModel {
    pub subsystem: Seq<char>,
    pub modalias: Seq<char>,
    pub syspath: Seq<char>,
    pub driver: Option<Seq<char>>,
}

impl View for Device {
    type V = DeviceModel;

    open spec fn view(&self) -> DeviceModel {
        DeviceModel {
            subsystem: self.subsystem@,
            modalias: self.modalias@,
            syspath: self.syspath@,
            driver: match self.driver {
                Some(d) => Some(d@),
                None => None,
            },
        }
    }
}

impl Device {
    /// A field-by-field copy.
    pub fn duplicate(&self) -> (r: Device)
        ensures
            r@ == self@,
    {
        Device {
            subsystem: self.subsystem.clone(),
            modalias: self.modalias.clone(),
            syspath: self.syspath.clone(),
            driver: match &self.driver {
                Some(d) => Some(d.clone()),
                None => None,
            },
        }
    }
}

} // verus!
