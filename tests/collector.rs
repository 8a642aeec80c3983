use hwid::extract::{extract, Extraction, LineSelect};
use hwid::HardwareInfo;
use hwid::network::{
    eligible, narrow_interfaces, InterfaceCandidate,
    InterfaceType,
};
use hwid::probe::{probe_for, Attribute, Platform, Source};
use hwid::text::{same_text, starts_with, text_less};
use hwid::HardwareError;

fn candidate(name: &str, mac: &str) -> InterfaceCandidate {
    InterfaceCandidate { name: name.to_string(), mac_address: mac.to_string() }
}

#[test]
fn narrowing_keeps_least_primary_mac() {
    let cands = vec![
        candidate("wlan0", "cc:cc:cc:cc:cc:cc"),
        candidate("eth0", "bb:bb:bb:bb:bb:bb"),
        candidate("en0", "aa:aa:aa:aa:aa:aa"),
    ];
    let r = narrow_interfaces(&cands);
    assert_eq!(r.len(), 1);
    assert_eq!(r[0].name, "en0");
    assert_eq!(r[0].mac_address, "aa:aa:aa:aa:aa:aa");
    assert!(r[0].is_up);
    assert_eq!(r[0].interface_type, InterfaceType::Ethernet);
}

#[test]
fn narrowing_ignores_non_primary_names() {
    let cands = vec![candidate("wlan0", "00:00:00:00:00:01"), candidate("eth0", "bb:bb:bb:bb:bb:bb")];
    let r = narrow_interfaces(&cands);
    assert_eq!(r.len(), 1);
    assert_eq!(r[0].name, "eth0");
}

#[test]
fn zero_mac_is_never_retained() {
    let cands = vec![candidate("en0", "00:00:00:00:00:00"), candidate("eth0", "00:00:00:00:00:00")];
    assert!(narrow_interfaces(&cands).is_empty());
    let cands = vec![candidate("en0", "00:00:00:00:00:00"), candidate("eth0", "ff:ff:ff:ff:ff:ff")];
    let r = narrow_interfaces(&cands);
    assert_eq!(r.len(), 1);
    assert_eq!(r[0].mac_address, "ff:ff:ff:ff:ff:ff");
}

#[test]
fn empty_mac_and_empty_list_give_nothing() {
    assert!(narrow_interfaces(&vec![candidate("en0", "")]).is_empty());
    assert!(narrow_interfaces(&vec![]).is_empty());
}

#[test]
fn equal_macs_keep_the_first() {
    let cands = vec![candidate("eth0", "aa:aa:aa:aa:aa:aa"), candidate("en0", "aa:aa:aa:aa:aa:aa")];
    let r = narrow_interfaces(&cands);
    assert_eq!(r[0].name, "eth0");
}

#[test]
fn primary_names_are_exact() {
    assert!(HardwareInfo::is_primary_interface("en0"));
    assert!(HardwareInfo::is_primary_interface("eth0"));
    assert!(HardwareInfo::is_primary_interface("enp0s1"));
    assert!(!HardwareInfo::is_primary_interface("en1"));
    assert!(!HardwareInfo::is_primary_interface("eth0:1"));
    assert!(!HardwareInfo::is_primary_interface(""));
    assert!(!eligible(&candidate("wlan0", "aa:aa:aa:aa:aa:aa")));
    assert!(eligible(&candidate("en0", "aa:aa:aa:aa:aa:aa")));
}

#[test]
fn interface_types_by_prefix() {
    assert_eq!(HardwareInfo::detect_interface_type("enp3s0"), InterfaceType::Ethernet);
    assert_eq!(HardwareInfo::detect_interface_type("eth1"), InterfaceType::Ethernet);
    assert_eq!(HardwareInfo::detect_interface_type("wlan0"), InterfaceType::WiFi);
    assert_eq!(HardwareInfo::detect_interface_type("wifi0"), InterfaceType::WiFi);
    assert_eq!(HardwareInfo::detect_interface_type("lo"), InterfaceType::Unknown);
    assert_eq!(HardwareInfo::detect_interface_type("e"), InterfaceType::Unknown);
}

#[test]
fn text_order_and_prefixes() {
    assert!(text_less("aa", "ab"));
    assert!(text_less("a", "ab"));
    assert!(!text_less("ab", "ab"));
    assert!(!text_less("b", "ab"));
    assert!(starts_with("model name", "model"));
    assert!(!starts_with("mod", "model"));
    assert!(same_text("abc", "abc"));
    assert!(!same_text("abc", "abcd"));
}

#[test]
fn extract_second_line_trimmed() {
    let out = "Name                    \r\nIntel(R) Core(TM) i7  \r\n\r\n";
    let r = extract(out, &Extraction::Trimmed(LineSelect::Nth(1)));
    assert_eq!(r, "Intel(R) Core(TM) i7");
    assert_eq!(extract(out, &Extraction::Trimmed(LineSelect::Nth(5))), "");
    assert_eq!(extract("", &Extraction::Trimmed(LineSelect::Nth(0))), "");
}

#[test]
fn extract_whole_trimmed() {
    assert_eq!(extract("  To Be Filled\n", &Extraction::Trimmed(LineSelect::Whole)), "To Be Filled");
    assert_eq!(extract("\t\n", &Extraction::Trimmed(LineSelect::Whole)), "");
}

#[test]
fn extract_field_of_prefixed_line() {
    let cpuinfo = "processor\t: 0\nmodel name\t: AMD Ryzen 7\nphysical id\t: 0\n";
    let rule = Extraction::Field {
        line: LineSelect::StartingWith("model name".to_string()),
        delimiter: ':',
        trimmed: true,
    };
    assert_eq!(extract(cpuinfo, &rule), "AMD Ryzen 7");
    let rule = Extraction::Field {
        line: LineSelect::StartingWith("physical id".to_string()),
        delimiter: ':',
        trimmed: true,
    };
    assert_eq!(extract(cpuinfo, &rule), "0");
    let rule = Extraction::Field {
        line: LineSelect::StartingWith("flags".to_string()),
        delimiter: ':',
        trimmed: true,
    };
    assert_eq!(extract(cpuinfo, &rule), "");
}

#[test]
fn extract_field_stops_at_second_delimiter() {
    let out = "      Hardware UUID: 12:34\n      Serial Number (system): C02X\n";
    let rule = Extraction::Field {
        line: LineSelect::Containing("Hardware UUID".to_string()),
        delimiter: ':',
        trimmed: true,
    };
    assert_eq!(extract(out, &rule), "12");
}

#[test]
fn extract_field_untrimmed() {
    let out = "DEVNAME=/dev/sda\nID_SERIAL= Samsung_SSD \nID_TYPE=disk\n";
    let rule = Extraction::Field {
        line: LineSelect::StartingWith("ID_SERIAL=".to_string()),
        delimiter: '=',
        trimmed: false,
    };
    assert_eq!(extract(out, &rule), " Samsung_SSD ");
}

#[test]
fn extract_word_of_line() {
    let out = "1: lo: <LOOPBACK>\n    link/loopback 00:00:00:00:00:00 brd 00:00:00:00:00:00\n2: eth0: <UP>\n    link/ether 52:54:00:12:34:56 brd ff:ff:ff:ff:ff:ff\n";
    let rule = Extraction::Word { line: LineSelect::Containing("link/ether".to_string()), index: 1 };
    assert_eq!(extract(out, &rule), "52:54:00:12:34:56");
    let rule = Extraction::Word { line: LineSelect::Nth(0), index: 0 };
    assert_eq!(extract("  AA-BB-CC   \\Device\\Tcpip\n", &rule), "AA-BB-CC");
    let rule = Extraction::Word { line: LineSelect::Nth(0), index: 7 };
    assert_eq!(extract("a b", &rule), "");
}

#[test]
fn probes_by_platform() {
    assert!(matches!(
        probe_for(Platform::Other, Attribute::CpuInfo),
        Err(HardwareError::UnsupportedSystem(_))
    ));
    let p = probe_for(Platform::Linux, Attribute::MotherboardSerial).unwrap();
    assert!(matches!(p.source, Source::File(ref f) if f == "/sys/class/dmi/id/board_serial"));
    let p = probe_for(Platform::Windows, Attribute::DiskModel).unwrap();
    match p.source {
        Source::Command { program, args } => {
            assert_eq!(program, "wmic");
            assert_eq!(args, vec!["diskdrive", "get", "model"]);
        }
        _ => panic!("expected a command"),
    }
    let p = probe_for(Platform::MacOs, Attribute::BiosVendor).unwrap();
    assert!(matches!(p.source, Source::Fixed(ref v) if v == "Apple Inc."));
}

fn read_with(platform: Platform, attribute: Attribute, text: &str) -> String {
    let probe = probe_for(platform, attribute).unwrap();
    extract(text, &probe.rule)
}

#[test]
fn linux_probes_fix_sources_and_rules() {
    let p = probe_for(Platform::Linux, Attribute::DiskSerial).unwrap();
    match p.source {
        Source::Command { program, args } => {
            assert_eq!(program, "udevadm");
            assert_eq!(args, vec!["info", "--query=property", "--name=/dev/sda"]);
        }
        _ => panic!("expected a command"),
    }
    let out = "DEVNAME=/dev/sda\nID_SERIAL= Samsung_SSD \nID_TYPE=disk\n";
    assert_eq!(read_with(Platform::Linux, Attribute::DiskSerial, out), "Samsung_SSD");

    let p = probe_for(Platform::Linux, Attribute::MemorySerial).unwrap();
    match p.source {
        Source::Command { program, args } => {
            assert_eq!(program, "sudo");
            assert_eq!(args, vec!["dmidecode", "-t", "memory"]);
        }
        _ => panic!("expected a command"),
    }
    let out = "Memory Device\n\tSize: 8 GB\n\tSerial Number: 1A2B3C4D \n\tSerial Number: FFFF\n";
    assert_eq!(read_with(Platform::Linux, Attribute::MemorySerial, out), "1A2B3C4D");

    let p = probe_for(Platform::Linux, Attribute::MotherboardUuid).unwrap();
    assert!(matches!(p.source, Source::File(ref f) if f == "/sys/class/dmi/id/product_uuid"));
    let uuid = "4C4C4544-0042-3510-8051-B4C04F4A4E32\n";
    assert_eq!(
        read_with(Platform::Linux, Attribute::MotherboardUuid, uuid),
        "4C4C4544-0042-3510-8051-B4C04F4A4E32"
    );

    let cpuinfo = "processor\t: 0\nmodel name\t: Intel Xeon\nphysical id\t: 1\n";
    assert_eq!(read_with(Platform::Linux, Attribute::CpuInfo, cpuinfo), "Intel Xeon");
    assert_eq!(read_with(Platform::Linux, Attribute::CpuPhysicalId, cpuinfo), "1");

    let ip = "2: eth0: <UP>\n    link/ether 52:54:00:12:34:56 brd ff:ff:ff:ff:ff:ff\n";
    assert_eq!(read_with(Platform::Linux, Attribute::MacAddress, ip), "52:54:00:12:34:56");
    assert_eq!(read_with(Platform::Linux, Attribute::DiskModel, "Samsung SSD 970 \nOther\n"), "Samsung SSD 970");
}

#[test]
fn windows_and_macos_probes_read_values() {
    let out = "SerialNumber  \r\nABC123  \r\n";
    assert_eq!(read_with(Platform::Windows, Attribute::DiskSerial, out), "ABC123");
    let getmac = "AA-BB-CC-DD-EE-FF   \\Device\\Tcpip_{X}\r\n";
    assert_eq!(read_with(Platform::Windows, Attribute::MacAddress, getmac), "AA-BB-CC-DD-EE-FF");
    let hw = "Hardware:\n      Model Identifier: MacBookPro16,1\n      Serial Number (system): C02XYZ\n";
    assert_eq!(read_with(Platform::MacOs, Attribute::MotherboardSerial, hw), "C02XYZ");
    assert_eq!(read_with(Platform::MacOs, Attribute::MotherboardProductName, hw), "MacBookPro16,1");
    let p = probe_for(Platform::MacOs, Attribute::MotherboardManufacturer).unwrap();
    assert!(matches!(p.source, Source::Fixed(ref v) if v == "Apple Inc."));
}
