use writeonce::kerngen::probe::{
    collect, device_entry, dmi_info, dmi_value, firmware_info, now_unix, parse_cpuinfo,
    parse_probe_command, probe_buses, secure_boot_from, sort_probe_devices, DmiTexts,
    ProbeCommand, ProbeReadings,
};
use writeonce::kerngen::types::{CpuInfo, Device, DmiInfo, FirmwareInfo, Probe, Uname, PROBE_VERSION};
use serde_json::Value;

#[test]
fn now_unix_is_post_2024() {
    // Sanity: any modern test run is past 2024-01-01 (1704067200).
    assert!(now_unix() > 1_704_067_200);
}

const CPUINFO: &str = "\
processor\t: 0
vendor_id\t: GenuineIntel
cpu family\t: 6
model\t\t: 142
model name\t: Intel(R) Core(TM) i5-8350U CPU @ 1.70GHz
stepping\t: 10
flags\t\t: fpu vme  de pse

processor\t: 1
vendor_id\t: OtherVendor
model\t\t: 99

processor\t: 2
";

#[test]
fn cpuinfo_first_block_and_processor_count() {
    let c = parse_cpuinfo(CPUINFO);
    assert_eq!(c.vendor_id, "GenuineIntel");
    assert_eq!(c.cpu_family, 6);
    assert_eq!(c.model, 142);
    assert_eq!(c.model_name, "Intel(R) Core(TM) i5-8350U CPU @ 1.70GHz");
    assert_eq!(c.stepping, 10);
    assert_eq!(c.flags, vec!["fpu", "vme", "de", "pse"]);
    assert_eq!(c.cpu_count, 3);
}

#[test]
fn cpuinfo_garbage_numbers_read_as_zero() {
    let c = parse_cpuinfo("cpu family : six\nmodel : 7\nno colon here\n");
    assert_eq!(c.cpu_family, 0);
    assert_eq!(c.model, 7);
    assert_eq!(c.cpu_count, 0);
    assert!(c.flags.is_empty());
}

#[test]
fn dmi_values_are_trimmed_and_blank_means_absent() {
    assert_eq!(dmi_value(Some("  LENOVO \n")), Some("LENOVO".to_string()));
    assert_eq!(dmi_value(Some(" \n")), None);
    assert_eq!(dmi_value(None), None);
    let t = DmiTexts {
        sys_vendor: Some("LENOVO\n".into()),
        product_name: Some("20L5\n".into()),
        product_version: Some("ThinkPad T480\n".into()),
        product_serial: None,
        board_vendor: Some("\n".into()),
        board_name: None,
        bios_vendor: None,
        bios_version: Some(" N24ET \n".into()),
        bios_date: None,
    };
    let d = dmi_info(&t);
    assert_eq!(d.sys_vendor.as_deref(), Some("LENOVO"));
    assert_eq!(d.product_version.as_deref(), Some("ThinkPad T480"));
    assert_eq!(d.board_vendor, None);
    assert_eq!(d.bios_version.as_deref(), Some("N24ET"));
}

#[test]
fn firmware_facts_only_on_efi() {
    let f = firmware_info(true, Some("64\n"), Some(true));
    assert!(f.efi);
    assert_eq!(f.fw_platform_size, Some(64));
    assert_eq!(f.secure_boot, Some(true));
    let b = firmware_info(false, Some("64\n"), Some(true));
    assert!(!b.efi);
    assert_eq!(b.fw_platform_size, None);
    assert_eq!(b.secure_boot, None);
    assert_eq!(firmware_info(true, Some("sixty"), None).fw_platform_size, None);
}

#[test]
fn secure_boot_reads_the_fifth_byte() {
    let on = vec![
        ("Boot0000-8be4df61".to_string(), Some(vec![7u8, 0, 0, 0, 0])),
        ("SecureBoot-8be4df61".to_string(), Some(vec![6u8, 0, 0, 0, 1])),
    ];
    assert_eq!(secure_boot_from(&on), Some(true));
    let off = vec![("SecureBoot-x".to_string(), Some(vec![6u8, 0, 0, 0, 0]))];
    assert_eq!(secure_boot_from(&off), Some(false));
    let unreadable = vec![("SecureBoot-x".to_string(), None)];
    assert_eq!(secure_boot_from(&unreadable), None);
    let short = vec![
        ("SecureBoot-a".to_string(), Some(vec![1u8, 2])),
        ("SecureBoot-b".to_string(), Some(vec![0u8, 0, 0, 0, 9])),
    ];
    assert_eq!(secure_boot_from(&short), Some(true));
    assert_eq!(secure_boot_from(&vec![]), None);
}

fn dev(bus: &str, path: &str) -> Device {
    Device { subsystem: bus.into(), modalias: "m".into(), syspath: path.into(), driver: None }
}

#[test]
fn device_entries_and_their_order() {
    assert!(device_entry("pci", "/sys/x", None, None).is_none());
    assert!(device_entry("pci", "/sys/x", Some(" \n"), None).is_none());
    let d = device_entry("pci", "/sys/x", Some("pci:v00008086d\n"), Some("i915".into())).unwrap();
    assert_eq!(d.modalias, "pci:v00008086d");
    assert_eq!(d.driver.as_deref(), Some("i915"));
    let sorted = sort_probe_devices(vec![dev("usb", "b"), dev("pci", "z"), dev("usb", "a"), dev("pci", "c")]);
    let keys: Vec<(String, String)> =
        sorted.iter().map(|d| (d.subsystem.clone(), d.syspath.clone())).collect();
    assert_eq!(
        keys,
        vec![
            ("pci".to_string(), "c".to_string()),
            ("pci".to_string(), "z".to_string()),
            ("usb".to_string(), "a".to_string()),
            ("usb".to_string(), "b".to_string()),
        ]
    );
    assert_eq!(probe_buses(), vec!["pci", "usb", "acpi", "virtio", "platform"]);
}

#[test]
fn collect_assembles_the_probe() {
    let r = ProbeReadings {
        now: None,
        uname: Uname {
            sysname: "Linux".into(),
            release: "6.9.0".into(),
            version: "#1".into(),
            machine: "x86_64".into(),
        },
        cpuinfo: None,
        dmi: DmiTexts {
            sys_vendor: None,
            product_name: None,
            product_version: None,
            product_serial: None,
            board_vendor: None,
            board_name: None,
            bios_vendor: None,
            bios_version: None,
            bios_date: None,
        },
        efi_exists: false,
        fw_platform_size: None,
        secure_boot: Some(true),
        devices: vec![dev("usb", "1"), dev("acpi", "2")],
    };
    let p = collect(r);
    assert_eq!(p.probe_version, PROBE_VERSION);
    assert_eq!(p.probed_at_unix, 0);
    assert_eq!(p.uname.machine, "x86_64");
    assert_eq!(p.cpu.cpu_count, 0);
    assert_eq!(p.firmware.secure_boot, None);
    assert_eq!(p.devices[0].subsystem, "acpi");
}

fn argv(v: &[&str]) -> Vec<String> {
    v.iter().map(|s| s.to_string()).collect()
}

#[test]
fn probe_command_line() {
    assert_eq!(parse_probe_command(&argv(&["kerngen"])), ProbeCommand::Help);
    assert_eq!(parse_probe_command(&argv(&["kerngen", "help"])), ProbeCommand::Help);
    assert_eq!(parse_probe_command(&argv(&["kerngen", "probe"])), ProbeCommand::Probe(None));
    assert_eq!(
        parse_probe_command(&argv(&["kerngen", "probe", "-o", "a.json", "--output", "b.json"])),
        ProbeCommand::Probe(Some("b.json".into()))
    );
    assert_eq!(
        parse_probe_command(&argv(&["kerngen", "probe", "-o"])),
        ProbeCommand::BadArgument("--output requires a value".into())
    );
    assert_eq!(
        parse_probe_command(&argv(&["kerngen", "probe", "-x"])),
        ProbeCommand::BadArgument("probe: unknown argument: -x".into())
    );
    assert_eq!(parse_probe_command(&argv(&["kerngen", "probe", "--help"])), ProbeCommand::Help);
    assert_eq!(
        parse_probe_command(&argv(&["kerngen", "resolve"])),
        ProbeCommand::UnknownSubcommand("resolve".into())
    );
}

fn text(s: &str) -> Value {
    Value::String(s.to_string())
}

fn opt_text(s: &Option<String>) -> Value {
    match s {
        Some(t) => text(t),
        None => Value::Null,
    }
}

fn probe_to_json(p: &Probe) -> Value {
    let mut uname = serde_json::Map::new();
    uname.insert("sysname".into(), text(&p.uname.sysname));
    uname.insert("release".into(), text(&p.uname.release));
    uname.insert("version".into(), text(&p.uname.version));
    uname.insert("machine".into(), text(&p.uname.machine));
    let mut cpu = serde_json::Map::new();
    cpu.insert("vendor_id".into(), text(&p.cpu.vendor_id));
    cpu.insert("cpu_family".into(), Value::from(p.cpu.cpu_family));
    cpu.insert("model".into(), Value::from(p.cpu.model));
    cpu.insert("model_name".into(), text(&p.cpu.model_name));
    cpu.insert("stepping".into(), Value::from(p.cpu.stepping));
    cpu.insert("flags".into(), Value::Array(p.cpu.flags.iter().map(|f| text(f)).collect()));
    cpu.insert("cpu_count".into(), Value::from(p.cpu.cpu_count));
    let mut dmi = serde_json::Map::new();
    dmi.insert("sys_vendor".into(), opt_text(&p.dmi.sys_vendor));
    dmi.insert("product_name".into(), opt_text(&p.dmi.product_name));
    dmi.insert("product_version".into(), opt_text(&p.dmi.product_version));
    dmi.insert("product_serial".into(), opt_text(&p.dmi.product_serial));
    dmi.insert("board_vendor".into(), opt_text(&p.dmi.board_vendor));
    dmi.insert("board_name".into(), opt_text(&p.dmi.board_name));
    dmi.insert("bios_vendor".into(), opt_text(&p.dmi.bios_vendor));
    dmi.insert("bios_version".into(), opt_text(&p.dmi.bios_version));
    dmi.insert("bios_date".into(), opt_text(&p.dmi.bios_date));
    let mut fw = serde_json::Map::new();
    fw.insert("efi".into(), Value::Bool(p.firmware.efi));
    fw.insert(
        "fw_platform_size".into(),
        p.firmware.fw_platform_size.map(Value::from).unwrap_or(Value::Null),
    );
    fw.insert("secure_boot".into(), p.firmware.secure_boot.map(Value::Bool).unwrap_or(Value::Null));
    let devices: Vec<Value> = p
        .devices
        .iter()
        .map(|d| {
            let mut m = serde_json::Map::new();
            m.insert("subsystem".into(), text(&d.subsystem));
            m.insert("modalias".into(), text(&d.modalias));
            m.insert("syspath".into(), text(&d.syspath));
            m.insert("driver".into(), opt_text(&d.driver));
            Value::Object(m)
        })
        .collect();
    let mut top = serde_json::Map::new();
    top.insert("probe_version".into(), Value::from(p.probe_version));
    top.insert("probed_at_unix".into(), Value::from(p.probed_at_unix));
    top.insert("uname".into(), Value::Object(uname));
    top.insert("cpu".into(), Value::Object(cpu));
    top.insert("dmi".into(), Value::Object(dmi));
    top.insert("firmware".into(), Value::Object(fw));
    top.insert("devices".into(), Value::Array(devices));
    Value::Object(top)
}

fn get_text(v: &Value, key: &str) -> String {
    v[key].as_str().expect("a string field").to_string()
}

fn get_opt_text(v: &Value, key: &str) -> Option<String> {
    v[key].as_str().map(|s| s.to_string())
}

fn get_u32(v: &Value, key: &str) -> u32 {
    v[key].as_u64().expect("a number field") as u32
}

fn probe_from_json(v: &Value) -> Probe {
    let u = &v["uname"];
    let c = &v["cpu"];
    let d = &v["dmi"];
    let f = &v["firmware"];
    Probe {
        probe_version: get_u32(v, "probe_version"),
        probed_at_unix: v["probed_at_unix"].as_u64().expect("a number field"),
        uname: Uname {
            sysname: get_text(u, "sysname"),
            release: get_text(u, "release"),
            version: get_text(u, "version"),
            machine: get_text(u, "machine"),
        },
        cpu: CpuInfo {
            vendor_id: get_text(c, "vendor_id"),
            cpu_family: get_u32(c, "cpu_family"),
            model: get_u32(c, "model"),
            model_name: get_text(c, "model_name"),
            stepping: get_u32(c, "stepping"),
            flags: c["flags"]
                .as_array()
                .expect("a list")
                .iter()
                .map(|x| x.as_str().expect("a string").to_string())
                .collect(),
            cpu_count: get_u32(c, "cpu_count"),
        },
        dmi: DmiInfo {
            sys_vendor: get_opt_text(d, "sys_vendor"),
            product_name: get_opt_text(d, "product_name"),
            product_version: get_opt_text(d, "product_version"),
            product_serial: get_opt_text(d, "product_serial"),
            board_vendor: get_opt_text(d, "board_vendor"),
            board_name: get_opt_text(d, "board_name"),
            bios_vendor: get_opt_text(d, "bios_vendor"),
            bios_version: get_opt_text(d, "bios_version"),
            bios_date: get_opt_text(d, "bios_date"),
        },
        firmware: FirmwareInfo {
            efi: f["efi"].as_bool().expect("a flag"),
            fw_platform_size: f["fw_platform_size"].as_u64().map(|n| n as u32),
            secure_boot: f["secure_boot"].as_bool(),
        },
        devices: v["devices"]
            .as_array()
            .expect("a list")
            .iter()
            .map(|x| Device {
                subsystem: get_text(x, "subsystem"),
                modalias: get_text(x, "modalias"),
                syspath: get_text(x, "syspath"),
                driver: get_opt_text(x, "driver"),
            })
            .collect(),
    }
}

#[test]
fn probe_collect_returns_consistent_schema() {
    let r = ProbeReadings {
        now: Some(1_710_000_000),
        uname: Uname {
            sysname: "Linux".into(),
            release: "6.9.0".into(),
            version: "#1 SMP".into(),
            machine: "x86_64".into(),
        },
        cpuinfo: Some("processor\t: 0\nvendor_id\t: GenuineIntel\ncpu family\t: 6\nmodel\t\t: 142\nflags\t\t: fpu sse2\n\nprocessor\t: 1\n".into()),
        dmi: DmiTexts {
            sys_vendor: Some("LENOVO\n".into()),
            product_name: None,
            product_version: None,
            product_serial: None,
            board_vendor: None,
            board_name: None,
            bios_vendor: None,
            bios_version: Some("1.2\n".into()),
            bios_date: None,
        },
        efi_exists: true,
        fw_platform_size: Some("64\n".into()),
        secure_boot: Some(true),
        devices: vec![dev("usb", "1"), dev("acpi", "2")],
    };
    let p = collect(r);
    let json = serde_json::to_string(&probe_to_json(&p)).expect("serialise");
    let back = probe_from_json(&serde_json::from_str::<Value>(&json).expect("deserialise"));
    assert_eq!(back.probe_version, PROBE_VERSION);
    assert_eq!(back.probed_at_unix, p.probed_at_unix);
    assert_eq!(back.uname.machine, p.uname.machine);
    assert_eq!(back.cpu.vendor_id, p.cpu.vendor_id);
    assert_eq!(back.cpu.flags, p.cpu.flags);
    assert_eq!(back.cpu.cpu_count, p.cpu.cpu_count);
    assert_eq!(back.dmi.sys_vendor, p.dmi.sys_vendor);
    assert_eq!(back.dmi.bios_version, p.dmi.bios_version);
    assert_eq!(back.firmware, p.firmware);
    assert_eq!(back.devices.len(), p.devices.len());
    for (a, b) in back.devices.iter().zip(p.devices.iter()) {
        assert_eq!(a.subsystem, b.subsystem);
        assert_eq!(a.syspath, b.syspath);
        assert_eq!(a.driver, b.driver);
    }
    assert_eq!(serde_json::to_string(&probe_to_json(&back)).expect("serialise"), json);
}
