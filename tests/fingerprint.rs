use hwid::digest::{code_from_digest, code_of_bytes};
use hwid::network::{InterfaceType, NetworkInfo};
use hwid::{HardwareError, HardwareInfo};

fn interface(name: &str, mac: &str, is_up: bool) -> NetworkInfo {
    NetworkInfo {
        name: name.to_string(),
        mac_address: mac.to_string(),
        is_up,
        interface_type: InterfaceType::Ethernet,
    }
}

fn snapshot(serial: &str, uuid: &str, interfaces: Vec<NetworkInfo>) -> HardwareInfo {
    HardwareInfo {
        cpu_info: "Test CPU".to_string(),
        motherboard_serial: serial.to_string(),
        disk_serial: "DS1".to_string(),
        mac_address: "aa:bb:cc:dd:ee:ff".to_string(),
        os_info: "Linux 6.1".to_string(),
        memory_serial: "MS1".to_string(),
        bios_version: "1.0".to_string(),
        cpu_physical_id: "0".to_string(),
        disk_model: "DM1".to_string(),
        disk_firmware: "FW1".to_string(),
        motherboard_uuid: uuid.to_string(),
        motherboard_manufacturer: "Maker".to_string(),
        motherboard_product_name: "PB1".to_string(),
        bios_vendor: "Vendor".to_string(),
        bios_release_date: "2020-01-01".to_string(),
        network_interfaces: interfaces,
    }
}

fn scenario() -> HardwareInfo {
    snapshot("SN123", "UUID-ABC", vec![interface("en0", "aa:bb:cc:dd:ee:ff", true)])
}

fn is_code_format(s: &str) -> bool {
    let b = s.as_bytes();
    b.len() == 19
        && b.iter().enumerate().all(|(i, c)| {
            if i == 4 || i == 9 || i == 14 {
                *c == b'-'
            } else {
                c.is_ascii_digit() || (b'a'..=b'f').contains(c)
            }
        })
}

#[test]
fn end_to_end_code_is_fixed() {
    assert_eq!(scenario().generate_unique_code().unwrap(), "03df-8cea-815d-851d");
}

#[test]
fn derivation_is_deterministic() {
    let s = scenario();
    let a = s.generate_unique_code().unwrap();
    let b = s.generate_unique_code().unwrap();
    let c = scenario().generate_unique_code().unwrap();
    assert_eq!(a, b);
    assert_eq!(a, c);
}

#[test]
fn fields_outside_the_recipe_do_not_matter() {
    let mut s = scenario();
    s.cpu_info = "Other CPU".to_string();
    s.bios_vendor = "Other".to_string();
    s.disk_serial = "X".to_string();
    assert_eq!(s.generate_unique_code().unwrap(), "03df-8cea-815d-851d");
}

#[test]
fn swapping_serial_and_uuid_changes_code() {
    let swapped = snapshot("UUID-ABC", "SN123", vec![interface("en0", "aa:bb:cc:dd:ee:ff", true)]);
    let code = swapped.generate_unique_code().unwrap();
    assert_eq!(code, "7b5a-fc80-4425-3ed1");
    assert_ne!(code, scenario().generate_unique_code().unwrap());
}

#[test]
fn empty_serial_is_missing_critical_data() {
    let s = snapshot("", "UUID-ABC", vec![interface("en0", "aa:bb:cc:dd:ee:ff", true)]);
    assert_eq!(s.generate_unique_code(), Err(HardwareError::MissingCriticalData));
}

#[test]
fn empty_uuid_is_missing_critical_data() {
    let s = snapshot("SN123", "", vec![interface("en0", "aa:bb:cc:dd:ee:ff", true)]);
    assert_eq!(s.generate_unique_code(), Err(HardwareError::MissingCriticalData));
}

#[test]
fn code_has_grouped_hex_format() {
    for s in [scenario(), snapshot("a", "b", vec![]), snapshot("ü", "✓", vec![])] {
        let code = s.generate_unique_code().unwrap();
        assert!(is_code_format(&code), "{}", code);
    }
}

#[test]
fn hash_input_follows_recipe() {
    let mut expected = b"SN123UUID-ABCaa:bb:cc:dd:ee:ff".to_vec();
    expected.push(0xFF);
    expected.extend_from_slice(b"0:PB1:DM1");
    assert_eq!(scenario().hash_input(), expected);
}

#[test]
fn down_or_empty_interfaces_are_skipped() {
    let s = snapshot(
        "SN123",
        "UUID-ABC",
        vec![interface("en0", "aa:bb:cc:dd:ee:ff", false), interface("eth0", "", true)],
    );
    let mut expected = b"SN123UUID-ABC".to_vec();
    expected.push(0xFF);
    expected.extend_from_slice(b"0:PB1:DM1");
    assert_eq!(s.hash_input(), expected);
    assert_eq!(s.generate_unique_code().unwrap(), "9426-b288-70da-66b9");
}

#[test]
fn code_from_known_digest() {
    let digest = [
        0xd4, 0x1d, 0x8c, 0xd9, 0x8f, 0x00, 0xb2, 0x04, 0xe9, 0x80, 0x09, 0x98, 0xec, 0xf8,
        0x42, 0x7e,
    ];
    assert_eq!(code_from_digest(&digest), "d41d-8cd9-8f00-b204");
}

#[test]
fn code_of_bytes_uses_md5() {
    assert_eq!(code_of_bytes(b""), "d41d-8cd9-8f00-b204");
    assert_eq!(code_of_bytes(b"abc"), "9001-5098-3cd2-4fb0");
}

#[test]
fn os_info_joins_name_and_version() {
    assert_eq!(HardwareInfo::os_info_of("Ubuntu", "22.04"), "Ubuntu 22.04");
    assert_eq!(HardwareInfo::os_info_of("Linux", ""), "Linux");
    assert_eq!(HardwareInfo::os_info_of("", "13.4"), "13.4");
    assert_eq!(HardwareInfo::os_info_of("", ""), "");
}
