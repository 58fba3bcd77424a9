//! Reading the hardware fingerprint into a [`Probe`].
//!
//! Every read is best-effort: a missing file leaves its part of the probe
//! empty, and the probe never fails as a whole.
use vstd::prelude::*;
use crate::clock::{secs_of_reading, secs_or_zero, since_unix_epoch, system_now, valid_reading};
use crate::kerngen::types::{
    CpuInfo, Device, DeviceModel, DmiInfo, FirmwareInfo, Probe, Uname, PROBE_VERSION,
};
use crate::login::flow::arg_views;
use crate::num::{parse_u32, parse_u32_vec};
use crate::text::{
    chars_of, lex_lt, lines, lines_vec, split_once, split_once_vec, starts_with, string_from, trim,
    trim_vec, vec_eq, vec_lex_lt, vec_starts_with, views, ws_tokens, ws_tokens_vec,
    lemma_lex_irreflexive, lemma_lex_transitive,
};
use crate::order::{insert_by, lemma_sort_by, sort_by, strict_order};

verus! {

/// Seconds since the epoch for a clock reading; 0 before the epoch.
pub open spec fn unix_secs(reading: Option<u64>) -> u64 {
    match reading {
        Some(s) => s,
        None => 0,
    }
}

/// Seconds since the epoch by the system clock (0 when it reads before the
/// epoch). The clock decides the reading; the result is its seconds.
pub fn now_unix() -> (r: u64)
    ensures
        exists|d: Option<(u64, u32)>| valid_reading(d) && r == #[trigger] secs_of_reading(d),
{
    let d = since_unix_epoch(&system_now());
    let r = secs_or_zero(d);
    assert(valid_reading(d) && r == secs_of_reading(d));
    r
}

/// What `/proc/cpuinfo` has told so far.
pub struct CpuScan {
    pub vendor_id: Seq<char>,
    pub cpu_family: u32,
    pub model: u32,
    pub model_name: Seq<char>,
    pub stepping: u32,
    pub flags: Seq<Seq<char>>,
    pub cpu_count: nat,
    /// Still inside the first `processor` block.
    pub in_first_block: bool,
}

/// Before any line.
pub open spec fn cpu_scan_start() -> CpuScan {
    CpuScan {
        vendor_id: seq![],
        cpu_family: 0,
        model: 0,
        model_name: seq![],
        stepping: 0,
        flags: seq![],
        cpu_count: 0,
        in_first_block: true,
    }
}

/// A number field: the value, or 0 when it does not parse.
pub open spec fn u32_or_zero(v: Seq<char>) -> u32 {
    match parse_u32(v) {
        Some(n) => n,
        None => 0,
    }
}

/// One line of `/proc/cpuinfo`: an empty line ends the first block; a
/// `key : value` line counts a `processor` and, within the first block,
/// sets the field it names; other lines change nothing.
pub open spec fn cpu_scan_line(st: CpuScan, line: Seq<char>) -> CpuScan {
    if line.len() == 0 {
        CpuScan { in_first_block: false, ..st }
    } else {
        match split_once(line, ':') {
            None => st,
            Some((k, v)) => {
                let key = trim(k);
                let val = trim(v);
                let st1 = if key == "processor"@ {
                    CpuScan { cpu_count: st.cpu_count + 1, ..st }
                } else {
                    st
                };
                if !st.in_first_block {
                    st1
                } else if key == "vendor_id"@ {
                    CpuScan { vendor_id: val, ..st1 }
                } else if key == "cpu family"@ {
                    CpuScan { cpu_family: u32_or_zero(val), ..st1 }
                } else if key == "model"@ {
                    CpuScan { model: u32_or_zero(val), ..st1 }
                } else if key == "model name"@ {
                    CpuScan { model_name: val, ..st1 }
                } else if key == "stepping"@ {
                    CpuScan { stepping: u32_or_zero(val), ..st1 }
                } else if key == "flags"@ {
                    CpuScan { flags: ws_tokens(val), ..st1 }
                } else {
                    st1
                }
            },
        }
    }
}

/// The scan after the lines `ls`.
pub open spec fn cpu_scan_lines(ls: Seq<Seq<char>>) -> CpuScan
    decreases ls.len(),
{
    if ls.len() == 0 {
        cpu_scan_start()
    } else {
        cpu_scan_line(cpu_scan_lines(ls.drop_last()), ls.last())
    }
}

proof fn lemma_cpu_count_bound(ls: Seq<Seq<char>>)
    ensures
        cpu_scan_lines(ls).cpu_count <= ls.len(),
    decreases ls.len(),
{
    if ls.len() > 0 {
        lemma_cpu_count_bound(ls.drop_last());
    }
}

/// The CPU as the text of `/proc/cpuinfo` describes it, as
/// [`cpu_scan_lines`] reads it.
pub fn parse_cpuinfo(body: &str) -> (c: CpuInfo)
    requires
        lines(body@).len() <= u32::MAX,
    ensures
        ({
            let st = cpu_scan_lines(lines(body@));
            &&& c.vendor_id@ == st.vendor_id
            &&& c.cpu_family == st.cpu_family
            &&& c.model == st.model
            &&& c.model_name@ == st.model_name
            &&& c.stepping == st.stepping
            &&& arg_views(c.flags@) == st.flags
            &&& c.cpu_count == st.cpu_count
        }),
{
    let ls = lines_vec(&chars_of(body));
    let ghost lv = views(ls@);
    let mut vendor_id: Vec<char> = Vec::new();
    let mut cpu_family: u32 = 0;
    let mut model: u32 = 0;
    let mut model_name: Vec<char> = Vec::new();
    let mut stepping: u32 = 0;
    let mut flags: Vec<Vec<char>> = Vec::new();
    let mut cpu_count: u32 = 0;
    let mut in_first = true;
    let k_processor = chars_of("processor");
    let k_vendor = chars_of("vendor_id");
    let k_family = chars_of("cpu family");
    let k_model = chars_of("model");
    let k_model_name = chars_of("model name");
    let k_stepping = chars_of("stepping");
    let k_flags = chars_of("flags");
    let mut i: usize = 0;
    assert(lv.take(0) =~= Seq::<Seq<char>>::empty());
    assert(views(flags@) =~= Seq::<Seq<char>>::empty());
    while i < ls.len()
        invariant
            i <= ls.len(),
            lv == views(ls@),
            lv == lines(body@),
            lv.len() <= u32::MAX,
            k_processor@ == "processor"@,
            k_vendor@ == "vendor_id"@,
            k_family@ == "cpu family"@,
            k_model@ == "model"@,
            k_model_name@ == "model name"@,
            k_stepping@ == "stepping"@,
            k_flags@ == "flags"@,
            ({
                let st = cpu_scan_lines(lv.take(i as int));
                &&& vendor_id@ == st.vendor_id
                &&& cpu_family == st.cpu_family
                &&& model == st.model
                &&& model_name@ == st.model_name
                &&& stepping == st.stepping
                &&& views(flags@) == st.flags
                &&& cpu_count == st.cpu_count
                &&& in_first == st.in_first_block
            }),
        decreases ls.len() - i,
    {
        assert(lv.take(i + 1).drop_last() =~= lv.take(i as int));
        proof {
            lemma_cpu_count_bound(lv.take(i as int));
        }
        let line = &ls[i];
        assert(line@ == lv[i as int]);
        if line.len() == 0 {
            in_first = false;
        } else {
            match split_once_vec(line, ':') {
                None => {},
                Some((k, v)) => {
                    let key = trim_vec(&k);
                    let val = trim_vec(&v);
                    if vec_eq(&key, &k_processor) {
                        cpu_count = cpu_count + 1;
                    }
                    if in_first {
                        if vec_eq(&key, &k_vendor) {
                            vendor_id = val;
                        } else if vec_eq(&key, &k_family) {
                            cpu_family = match parse_u32_vec(&val) {
                                Some(n) => n,
                                None => 0,
                            };
                        } else if vec_eq(&key, &k_model) {
                            model = match parse_u32_vec(&val) {
                                Some(n) => n,
                                None => 0,
                            };
                        } else if vec_eq(&key, &k_model_name) {
                            model_name = val;
                        } else if vec_eq(&key, &k_stepping) {
                            stepping = match parse_u32_vec(&val) {
                                Some(n) => n,
                                None => 0,
                            };
                        } else if vec_eq(&key, &k_flags) {
                            flags = ws_tokens_vec(&val);
                        }
                    }
                },
            }
        }
        i = i + 1;
    }
    assert(lv.take(ls.len() as int) =~= lv);
    let mut flag_strings: Vec<String> = Vec::new();
    let mut j: usize = 0;
    while j < flags.len()
        invariant
            j <= flags.len(),
            arg_views(flag_strings@) == views(flags@).take(j as int),
        decreases flags.len() - j,
    {
        let ghost before = arg_views(flag_strings@);
        flag_strings.push(string_from(&flags[j]));
        assert(arg_views(flag_strings@) =~= before.push(flags@[j as int]@));
        assert(views(flags@).take(j + 1) =~= views(flags@).take(j as int).push(flags@[j as int]@));
        j = j + 1;
    }
    assert(views(flags@).take(flags.len() as int) =~= views(flags@));
    CpuInfo {
        vendor_id: string_from(&vendor_id),
        cpu_family,
        model,
        model_name: string_from(&model_name),
        stepping,
        flags: flag_strings,
        cpu_count,
    }
}

/// A DMI attribute: its trimmed text, absent when unreadable or empty.
pub open spec fn dmi_value_spec(contents: Option<Seq<char>>) -> Option<Seq<char>> {
    match contents {
        Some(t) => if trim(t).len() > 0 { Some(trim(t)) } else { None },
        None => None,
    }
}

/// The view of an optional text.
pub open spec fn opt_text(t: Option<&str>) -> Option<Seq<char>> {
    match t {
        Some(s) => Some(s@),
        None => None,
    }
}

/// The view of an optional string.
pub open spec fn opt_str(t: Option<String>) -> Option<Seq<char>> {
    match t {
        Some(s) => Some(s@),
        None => None,
    }
}

/// A DMI attribute from the text of its file (`None` when unreadable).
pub fn dmi_value(contents: Option<&str>) -> (r: Option<String>)
    ensures
        opt_str(r) == dmi_value_spec(opt_text(contents)),
{
    match contents {
        Some(t) => {
            let v = trim_vec(&chars_of(t));
            if v.len() > 0 {
                Some(string_from(&v))
            } else {
                None
            }
        },
        None => None,
    }
}

/// The texts of the nine DMI files, as read (`None` when unreadable).
pub struct DmiTexts {
    pub sys_vendor: Option<String>,
    pub product_name: Option<String>,
    pub product_version: Option<String>,
    pub product_serial: Option<String>,
    pub board_vendor: Option<String>,
    pub board_name: Option<String>,
    pub bios_vendor: Option<String>,
    pub bios_version: Option<String>,
    pub bios_date: Option<String>,
}

fn dmi_of(t: &Option<String>) -> (r: Option<String>)
    ensures
        opt_str(r) == dmi_value_spec(opt_str(*t)),
{
    match t {
        Some(s) => dmi_value(Some(s.as_str())),
        None => None,
    }
}

/// The DMI strings from the files' texts, each as [`dmi_value_spec`] says.
pub fn dmi_info(t: &DmiTexts) -> (d: DmiInfo)
    ensures
        opt_str(d.sys_vendor) == dmi_value_spec(opt_str(t.sys_vendor)),
        opt_str(d.product_name) == dmi_value_spec(opt_str(t.product_name)),
        opt_str(d.product_version) == dmi_value_spec(opt_str(t.product_version)),
        opt_str(d.product_serial) == dmi_value_spec(opt_str(t.product_serial)),
        opt_str(d.board_vendor) == dmi_value_spec(opt_str(t.board_vendor)),
        opt_str(d.board_name) == dmi_value_spec(opt_str(t.board_name)),
        opt_str(d.bios_vendor) == dmi_value_spec(opt_str(t.bios_vendor)),
        opt_str(d.bios_version) == dmi_value_spec(opt_str(t.bios_version)),
        opt_str(d.bios_date) == dmi_value_spec(opt_str(t.bios_date)),
{
    DmiInfo {
        sys_vendor: dmi_of(&t.sys_vendor),
        product_name: dmi_of(&t.product_name),
        product_version: dmi_of(&t.product_version),
        product_serial: dmi_of(&t.product_serial),
        board_vendor: dmi_of(&t.board_vendor),
        board_name: dmi_of(&t.board_name),
        bios_vendor: dmi_of(&t.bios_vendor),
        bios_version: dmi_of(&t.bios_version),
        bios_date: dmi_of(&t.bios_date),
    }
}

/// The firmware: on an EFI system (`/sys/firmware/efi` exists), the
/// platform size from the text of `fw_platform_size` (absent when it does
/// not parse) and the SecureBoot state; nothing on a BIOS system.
pub fn firmware_info(efi_exists: bool, fw_platform_size: Option<&str>, secure_boot: Option<bool>) -> (f:
    FirmwareInfo)
    ensures
        f.efi == efi_exists,
        f.fw_platform_size == (if !efi_exists {
            None
        } else {
            match fw_platform_size {
                Some(t) => parse_u32(trim(t@)),
                None => None,
            }
        }),
        f.secure_boot == (if efi_exists { secure_boot } else { None }),
{
    if !efi_exists {
        return FirmwareInfo::default();
    }
    let size = match fw_platform_size {
        Some(t) => parse_u32_vec(&trim_vec(&chars_of(t))),
        None => None,
    };
    FirmwareInfo { efi: true, fw_platform_size: size, secure_boot }
}

/// The SecureBoot state from the `efivars` entries in directory order
/// (name and, for a `SecureBoot-*` entry, its bytes or `None` when they
/// could not be read): the first `SecureBoot-*` entry with at least five
/// bytes decides by its fifth (after the 4-byte attribute prefix); an
/// unreadable one ends the search with no answer.
pub open spec fn secure_boot_spec(entries: Seq<(Seq<char>, Option<Seq<u8>>)>) -> Option<bool>
    decreases entries.len(),
{
    if entries.len() == 0 {
        None
    } else {
        let (name, bytes) = entries[0];
        if !starts_with(name, "SecureBoot-"@) {
            secure_boot_spec(entries.drop_first())
        } else {
            match bytes {
                None => None,
                Some(b) => if b.len() >= 5 {
                    Some(b[4] != 0)
                } else {
                    secure_boot_spec(entries.drop_first())
                },
            }
        }
    }
}

/// The views of the `efivars` entries.
pub open spec fn entry_views(v: Seq<(String, Option<Vec<u8>>)>) -> Seq<(Seq<char>, Option<Seq<u8>>)> {
    v.map_values(
        |e: (String, Option<Vec<u8>>)|
            (
                e.0@,
                match e.1 {
                    Some(b) => Some(b@),
                    None => None,
                },
            ),
    )
}

/// The SecureBoot state, as [`secure_boot_spec`] says.
pub fn secure_boot_from(entries: &Vec<(String, Option<Vec<u8>>)>) -> (r: Option<bool>)
    ensures
        r == secure_boot_spec(entry_views(entries@)),
{
    let ghost ev = entry_views(entries@);
    let prefix = chars_of("SecureBoot-");
    let mut i: usize = 0;
    assert(ev.skip(0) =~= ev);
    while i < entries.len()
        invariant
            i <= entries.len(),
            ev == entry_views(entries@),
            prefix@ == "SecureBoot-"@,
            secure_boot_spec(ev) == secure_boot_spec(ev.skip(i as int)),
        decreases entries.len() - i,
    {
        assert(ev.skip(i as int).drop_first() =~= ev.skip(i + 1));
        assert(ev.skip(i as int)[0] == ev[i as int]);
        let (name, bytes) = (&entries[i].0, &entries[i].1);
        if vec_starts_with(&chars_of(name.as_str()), &prefix) {
            match bytes {
                None => {
                    return None;
                },
                Some(b) => {
                    if b.len() >= 5 {
                        return Some(b[4] != 0);
                    }
                },
            }
        }
        i = i + 1;
    }
    assert(ev.skip(entries.len() as int) =~= Seq::<(Seq<char>, Option<Seq<u8>>)>::empty());
    None
}

/// A device entry from its `modalias` text (`None` when unreadable): kept,
/// trimmed, only when it says something.
pub fn device_entry(bus: &str, syspath: &str, modalias: Option<&str>, driver: Option<String>) -> (r:
    Option<Device>)
    ensures
        match modalias {
            None => r is None,
            Some(t) => if trim(t@).len() == 0 {
                r is None
            } else {
                r matches Some(d) && d@ == (DeviceModel {
                    subsystem: bus@,
                    modalias: trim(t@),
                    syspath: syspath@,
                    driver: opt_str(driver),
                })
            },
        },
{
    match modalias {
        None => None,
        Some(t) => {
            let m = trim_vec(&chars_of(t));
            if m.len() == 0 {
                None
            } else {
                Some(
                    Device {
                        subsystem: String::from_str(bus),
                        modalias: string_from(&m),
                        syspath: String::from_str(syspath),
                        driver,
                    },
                )
            }
        },
    }
}

/// `a` sorts before `b`: by subsystem, then by sysfs path.
pub open spec fn device_before(a: DeviceModel, b: DeviceModel) -> bool {
    lex_lt(a.subsystem, b.subsystem) || (a.subsystem == b.subsystem && lex_lt(a.syspath, b.syspath))
}

/// `l` with `x` placed after every device that does not sort after it.
pub open spec fn insert_device_spec(l: Seq<DeviceModel>, x: DeviceModel) -> Seq<DeviceModel>
    decreases l.len(),
{
    if l.len() == 0 {
        seq![x]
    } else if device_before(x, l[0]) {
        seq![x] + l
    } else {
        seq![l[0]] + insert_device_spec(l.drop_first(), x)
    }
}

/// `xs` stably sorted by subsystem and path.
pub open spec fn sort_devices_spec(xs: Seq<DeviceModel>) -> Seq<DeviceModel>
    decreases xs.len(),
{
    if xs.len() == 0 {
        seq![]
    } else {
        insert_device_spec(sort_devices_spec(xs.drop_last()), xs.last())
    }
}

proof fn lemma_insert_device_is_insert_by(l: Seq<DeviceModel>, x: DeviceModel)
    ensures
        insert_device_spec(l, x) == insert_by(l, x, |a: DeviceModel, b: DeviceModel| device_before(a, b)),
    decreases l.len(),
{
    if l.len() > 0 {
        lemma_insert_device_is_insert_by(l.drop_first(), x);
    }
}

proof fn lemma_sort_devices_is_sort_by(xs: Seq<DeviceModel>)
    ensures
        sort_devices_spec(xs) == sort_by(xs, |a: DeviceModel, b: DeviceModel| device_before(a, b)),
    decreases xs.len(),
{
    if xs.len() > 0 {
        lemma_sort_devices_is_sort_by(xs.drop_last());
        lemma_insert_device_is_insert_by(sort_devices_spec(xs.drop_last()), xs.last());
    }
}

/// The probe's devices come out ordered by subsystem, then by path, and
/// they are exactly the devices read.
pub proof fn lemma_sort_devices_ordered(xs: Seq<DeviceModel>)
    ensures
        forall|i: int, j: int|
            0 <= i < j < sort_devices_spec(xs).len() ==> !device_before(
                #[trigger] sort_devices_spec(xs)[j],
                #[trigger] sort_devices_spec(xs)[i],
            ),
        sort_devices_spec(xs).to_multiset() == xs.to_multiset(),
{
    let f = |a: DeviceModel, b: DeviceModel| device_before(a, b);
    assert(strict_order(f)) by {
        assert forall|a: DeviceModel| !#[trigger] f(a, a) by {
            lemma_lex_irreflexive(a.subsystem);
            lemma_lex_irreflexive(a.syspath);
        }
        assert forall|a: DeviceModel, b: DeviceModel, c: DeviceModel|
            #![trigger f(a, b), f(b, c)]
            f(a, b) && f(b, c) implies f(a, c) by {
            if lex_lt(a.subsystem, b.subsystem) && lex_lt(b.subsystem, c.subsystem) {
                lemma_lex_transitive(a.subsystem, b.subsystem, c.subsystem);
            }
            if a.subsystem == b.subsystem && b.subsystem == c.subsystem && lex_lt(a.syspath, b.syspath)
                && lex_lt(b.syspath, c.syspath) {
                lemma_lex_transitive(a.syspath, b.syspath, c.syspath);
            }
        }
    }
    lemma_sort_devices_is_sort_by(xs);
    lemma_sort_by(xs, f);
    let out = sort_devices_spec(xs);
    assert forall|i: int, j: int| 0 <= i < j < out.len() implies !device_before(
        #[trigger] out[j],
        #[trigger] out[i],
    ) by {
        assert(!f(out[j], out[i]));
    }
}

/// The models of a list of devices.
pub open spec fn probe_device_views(v: Seq<Device>) -> Seq<DeviceModel> {
    v.map_values(|d: Device| d@)
}

fn before_exec(a: &Device, b: &Device) -> (r: bool)
    ensures
        r == device_before(a@, b@),
{
    let asub = chars_of(a.subsystem.as_str());
    let bsub = chars_of(b.subsystem.as_str());
    vec_lex_lt(&asub, &bsub) || (vec_eq(&asub, &bsub) && vec_lex_lt(
        &chars_of(a.syspath.as_str()),
        &chars_of(b.syspath.as_str()),
    ))
}

fn insert_probe_device(l: &mut Vec<Device>, x: Device)
    ensures
        probe_device_views(final(l)@) == insert_device_spec(probe_device_views(old(l)@), x@),
{
    let ghost big = probe_device_views(l@);
    let mut i: usize = 0;
    assert(big.skip(0) =~= big);
    assert(big.take(0) + insert_device_spec(big.skip(0), x@) =~= insert_device_spec(big, x@));
    while i < l.len()
        invariant
            i <= l.len(),
            big == probe_device_views(l@),
            big == probe_device_views(old(l)@),
            insert_device_spec(big, x@) == big.take(i as int) + insert_device_spec(big.skip(i as int), x@),
        decreases l.len() - i,
    {
        let ghost rest = big.skip(i as int);
        assert(rest[0] == l@[i as int]@);
        if before_exec(&x, &l[i]) {
            l.insert(i, x);
            assert(probe_device_views(l@) =~= big.take(i as int) + (seq![x@] + rest));
            return;
        }
        assert(rest.drop_first() =~= big.skip(i + 1));
        assert(big.take(i as int) + (seq![rest[0]] + insert_device_spec(rest.drop_first(), x@))
            =~= big.take(i + 1) + insert_device_spec(big.skip(i + 1), x@));
        i = i + 1;
    }
    assert(big.skip(l.len() as int) =~= Seq::<DeviceModel>::empty());
    let ghost before = l@;
    l.push(x);
    assert(probe_device_views(l@) =~= probe_device_views(before) + seq![x@]);
    assert(big.take(big.len() as int) =~= big);
}

/// The devices sorted by subsystem, then path, equal keys keeping their
/// order.
pub fn sort_probe_devices(devs: Vec<Device>) -> (r: Vec<Device>)
    ensures
        probe_device_views(r@) == sort_devices_spec(probe_device_views(devs@)),
{
    let ghost all = probe_device_views(devs@);
    let mut out: Vec<Device> = Vec::new();
    let mut i: usize = 0;
    assert(all.take(0) =~= Seq::<DeviceModel>::empty());
    assert(probe_device_views(out@) =~= Seq::<DeviceModel>::empty());
    while i < devs.len()
        invariant
            i <= devs.len(),
            all == probe_device_views(devs@),
            probe_device_views(out@) == sort_devices_spec(all.take(i as int)),
        decreases devs.len() - i,
    {
        assert(all.take(i + 1).drop_last() =~= all.take(i as int));
        insert_probe_device(&mut out, devs[i].duplicate());
        i = i + 1;
    }
    assert(all.take(devs.len() as int) =~= all);
    out
}

/// Everything read from the machine for a probe.
pub struct ProbeReadings {
    /// Seconds since the epoch (`None` when the clock reads before it).
    pub now: Option<u64>,
    pub uname: Uname,
    /// The text of `/proc/cpuinfo`, when readable.
    pub cpuinfo: Option<String>,
    pub dmi: DmiTexts,
    /// Whether `/sys/firmware/efi` exists.
    pub efi_exists: bool,
    /// The text of `/sys/firmware/efi/fw_platform_size`, when readable.
    pub fw_platform_size: Option<String>,
    pub secure_boot: Option<bool>,
    /// The devices with a `modalias`, bus by bus.
    pub devices: Vec<Device>,
}

/// The probe from the machine's readings: the schema version, the time (0
/// before the epoch), the kernel, the CPU (empty when `/proc/cpuinfo` was
/// unreadable), the DMI strings, the firmware and the devices sorted.
pub fn collect(r: ProbeReadings) -> (p: Probe)
    requires
        r.cpuinfo matches Some(b) ==> lines(b@).len() <= u32::MAX,
    ensures
        p.probe_version == PROBE_VERSION,
        p.probed_at_unix == unix_secs(r.now),
        p.uname.sysname@ == r.uname.sysname@,
        p.uname.release@ == r.uname.release@,
        p.uname.version@ == r.uname.version@,
        p.uname.machine@ == r.uname.machine@,
        match r.cpuinfo {
            Some(b) => {
                let st = cpu_scan_lines(lines(b@));
                &&& p.cpu.vendor_id@ == st.vendor_id
                &&& p.cpu.cpu_family == st.cpu_family
                &&& p.cpu.model == st.model
                &&& p.cpu.model_name@ == st.model_name
                &&& p.cpu.stepping == st.stepping
                &&& arg_views(p.cpu.flags@) == st.flags
                &&& p.cpu.cpu_count == st.cpu_count
            },
            None => p.cpu.vendor_id@ == Seq::<char>::empty() && p.cpu.cpu_family == 0 && p.cpu.model
                == 0 && p.cpu.model_name@ == Seq::<char>::empty() && p.cpu.stepping == 0
                && p.cpu.flags@.len() == 0 && p.cpu.cpu_count == 0,
        },
        opt_str(p.dmi.sys_vendor) == dmi_value_spec(opt_str(r.dmi.sys_vendor)),
        opt_str(p.dmi.product_name) == dmi_value_spec(opt_str(r.dmi.product_name)),
        opt_str(p.dmi.product_version) == dmi_value_spec(opt_str(r.dmi.product_version)),
        opt_str(p.dmi.product_serial) == dmi_value_spec(opt_str(r.dmi.product_serial)),
        opt_str(p.dmi.board_vendor) == dmi_value_spec(opt_str(r.dmi.board_vendor)),
        opt_str(p.dmi.board_name) == dmi_value_spec(opt_str(r.dmi.board_name)),
        opt_str(p.dmi.bios_vendor) == dmi_value_spec(opt_str(r.dmi.bios_vendor)),
        opt_str(p.dmi.bios_version) == dmi_value_spec(opt_str(r.dmi.bios_version)),
        opt_str(p.dmi.bios_date) == dmi_value_spec(opt_str(r.dmi.bios_date)),
        p.firmware.efi == r.efi_exists,
        p.firmware.fw_platform_size == (if !r.efi_exists {
            None
        } else {
            match r.fw_platform_size {
                Some(t) => parse_u32(trim(t@)),
                None => None,
            }
        }),
        p.firmware.secure_boot == (if r.efi_exists { r.secure_boot } else { None }),
        probe_device_views(p.devices@) == sort_devices_spec(probe_device_views(r.devices@)),
{
    let cpu = match &r.cpuinfo {
        Some(b) => parse_cpuinfo(b.as_str()),
        None => CpuInfo::default(),
    };
    let dmi = dmi_info(&r.dmi);
    let firmware = firmware_info(
        r.efi_exists,
        match &r.fw_platform_size {
            Some(t) => Some(t.as_str()),
            None => None,
        },
        r.secure_boot,
    );
    let probed_at_unix = match r.now {
        Some(s) => s,
        None => 0,
    };
    Probe {
        probe_version: PROBE_VERSION,
        probed_at_unix,
        uname: r.uname,
        cpu,
        dmi,
        firmware,
        devices: sort_probe_devices(r.devices),
    }
}

/// The buses whose devices are probed, in order.
pub fn probe_buses() -> (r: Vec<&'static str>)
    ensures
        r@.map_values(|s: &str| s@) == seq!["pci"@, "usb"@, "acpi"@, "virtio"@, "platform"@],
{
    let r = vec!["pci", "usb", "acpi", "virtio", "platform"];
    assert(r@.map_values(|s: &str| s@) =~= seq!["pci"@, "usb"@, "acpi"@, "virtio"@, "platform"@]);
    r
}

/// What the command line asks the probe tool for.
#[derive(Debug, Clone, PartialEq, Eq)]
pub enum ProbeCommand {
    /// Probe, writing the JSON to this path (`None` or `-` for stdout).
    Probe(Option<String>),
    /// Print the usage.
    Help,
    /// Refuse: an unknown subcommand (exit status 2).
    UnknownSubcommand(String),
    /// Refuse the probe's arguments with this message (exit status 1).
    BadArgument(String),
}

/// The probe's arguments from `args[i]` on: `-o`/`--output PATH` sets the
/// output (the last one wins), `-h`/`--help` asks for the usage, anything
/// else is refused.
pub open spec fn probe_args_from(args: Seq<Seq<char>>, i: int, output: Option<Seq<char>>) -> (
    Option<Option<Seq<char>>>,
    Option<Seq<char>>,
)
    decreases args.len() - i,
{
    if i < 0 || i >= args.len() {
        (Some(output), None)
    } else if args[i] == "-o"@ || args[i] == "--output"@ {
        if i + 1 >= args.len() {
            (None, Some("--output requires a value"@))
        } else {
            probe_args_from(args, i + 2, Some(args[i + 1]))
        }
    } else if args[i] == "-h"@ || args[i] == "--help"@ {
        (None, None)
    } else {
        (None, Some("probe: unknown argument: "@ + args[i]))
    }
}

/// Reads the tool's command line (the program name first): `probe` with
/// its arguments, a help request (also for no subcommand), or an unknown
/// subcommand.
pub fn parse_probe_command(argv: &Vec<String>) -> (r: ProbeCommand)
    ensures
        ({
            let av = arg_views(argv@);
            if av.len() < 2 || av[1] == "-h"@ || av[1] == "--help"@ || av[1] == "help"@ {
                r == ProbeCommand::Help
            } else if av[1] == "probe"@ {
                match probe_args_from(av, 2, None) {
                    (Some(out), _) => r matches ProbeCommand::Probe(o) && opt_str(o) == out,
                    (None, Some(m)) => r matches ProbeCommand::BadArgument(x) && x@ == m,
                    (None, None) => r == ProbeCommand::Help,
                }
            } else {
                r matches ProbeCommand::UnknownSubcommand(s) && s@ == av[1]
            }
        }),
{
    let ghost av = arg_views(argv@);
    if argv.len() < 2 {
        return ProbeCommand::Help;
    }
    let sub = chars_of(argv[1].as_str());
    assert(sub@ == av[1]);
    if vec_eq(&sub, &chars_of("-h")) || vec_eq(&sub, &chars_of("--help")) || vec_eq(&sub, &chars_of("help")) {
        return ProbeCommand::Help;
    }
    if !vec_eq(&sub, &chars_of("probe")) {
        return ProbeCommand::UnknownSubcommand(argv[1].clone());
    }
    let mut output: Option<String> = None;
    let mut i: usize = 2;
    let o_short = chars_of("-o");
    let o_long = chars_of("--output");
    let h_short = chars_of("-h");
    let h_long = chars_of("--help");
    while i < argv.len()
        invariant
            2 <= i,
            av == arg_views(argv@),
            o_short@ == "-o"@,
            o_long@ == "--output"@,
            h_short@ == "-h"@,
            h_long@ == "--help"@,
            probe_args_from(av, 2, None) == probe_args_from(av, i as int, opt_str(output)),
            av.len() >= 2,
            av[1] == "probe"@,
            !(av[1] == "-h"@ || av[1] == "--help"@ || av[1] == "help"@),
        decreases argv.len() - i,
    {
        let a = chars_of(argv[i].as_str());
        if vec_eq(&a, &o_short) || vec_eq(&a, &o_long) {
            if i + 1 >= argv.len() {
                return ProbeCommand::BadArgument(String::from_str("--output requires a value"));
            }
            output = Some(argv[i + 1].clone());
            i = i + 2;
        } else if vec_eq(&a, &h_short) || vec_eq(&a, &h_long) {
            return ProbeCommand::Help;
        } else {
            let mut m = chars_of("probe: unknown argument: ");
            crate::text::extend_str(&mut m, argv[i].as_str());
            return ProbeCommand::BadArgument(string_from(&m));
        }
    }
    ProbeCommand::Probe(output)
}

} // verus!
