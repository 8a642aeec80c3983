use vstd::prelude::*;
use vstd::string::*;
use vstd::utf8::{encode_scalar, encode_utf8, encode_utf8_decode_utf8};

use crate::digest::{code_of_bytes, fingerprint_code, is_code_format, md5_of};
use crate::error::HardwareError;
use crate::extract::{extract, trim, Extraction, LineSelect};
use crate::network::{interface_type_of, is_primary_name, InterfaceType, NetworkInfo};
use crate::text::{same_text, starts_with};

verus! {

/// Every hardware attribute collected in one run. Absent values are empty
/// strings.
#[derive(Clone, Debug)]
pub struct HardwareInfo {
    pub cpu_info: String,
    pub motherboard_serial: String,
    pub disk_serial: String,
    pub mac_address: String,
    pub os_info: String,
    pub memory_serial: String,
    pub bios_version: String,
    pub cpu_physical_id: String,
    pub disk_model: String,
    pub disk_firmware: String,
    pub motherboard_uuid: String,
    pub motherboard_manufacturer: String,
    pub motherboard_product_name: String,
    pub bios_vendor: String,
    pub bios_release_date: String,
    pub network_interfaces: Vec<NetworkInfo>,
}

/// The MAC address bytes of the interfaces that are up and have one, in order.
pub open spec fn mac_bytes(ifs: Seq<NetworkInfo>) -> Seq<u8>
    decreases ifs.len(),
{
    if ifs.len() == 0 {
        Seq::empty()
    } else {
        let last = ifs.last();
        mac_bytes(ifs.drop_last()) + if last.is_up && last.mac_address@.len() > 0 {
            encode_utf8(last.mac_address@)
        } else {
            Seq::empty()
        }
    }
}

/// The separator byte between the identity part and the secondary part.
pub const SEPARATOR: u8 = 0xFF;

impl HardwareInfo {
    /// Whether `name` is one of the primary interface names.
    pub fn is_primary_interface(name: &str) -> (r: bool)
        ensures
            r == is_primary_name(name@),
    {
        proof {
            reveal_strlit("en0");
            assert("en0"@ =~= seq!['e', 'n', '0']);
            reveal_strlit("eth0");
            assert("eth0"@ =~= seq!['e', 't', 'h', '0']);
            reveal_strlit("enp0s1");
            assert("enp0s1"@ =~= seq!['e', 'n', 'p', '0', 's', '1']);
        }
        same_text(name, "en0") || same_text(name, "eth0") || same_text(name, "enp0s1")
    }

    /// The interface kind for a name.
    pub fn detect_interface_type(name: &str) -> (r: InterfaceType)
        ensures
            r == interface_type_of(name@),
    {
        proof {
            reveal_strlit("en");
            assert("en"@ =~= seq!['e', 'n']);
            reveal_strlit("eth");
            assert("eth"@ =~= seq!['e', 't', 'h']);
            reveal_strlit("wl");
            assert("wl"@ =~= seq!['w', 'l']);
            reveal_strlit("wifi");
            assert("wifi"@ =~= seq!['w', 'i', 'f', 'i']);
        }
        if starts_with(name, "en") || starts_with(name, "eth") {
            InterfaceType::Ethernet
        } else if starts_with(name, "wl") || starts_with(name, "wifi") {
            InterfaceType::WiFi
        } else {
            InterfaceType::Unknown
        }
    }

    /// The operating system description: its name, a space and its version,
    /// trimmed, so that a missing part leaves no stray space.
    pub fn os_info_of(name: &str, version: &str) -> (r: String)
        ensures
            r@ == trim(name@ + seq![' '] + version@),
    {
        proof {
            reveal_strlit(" ");
            assert(" "@ =~= seq![' ']);
        }
        let mut joined = String::from_str(name);
        joined.append(" ");
        joined.append(version);
        extract(joined.as_str(), &Extraction::Trimmed(LineSelect::Whole))
    }

    /// Whether both critical fields, motherboard serial and UUID, are present.
    pub open spec fn has_critical_data(self) -> bool {
        self.motherboard_serial@.len() > 0 && self.motherboard_uuid@.len() > 0
    }

    /// The UTF-8 bytes of `"{cpu_physical_id}:{motherboard_product_name}:{disk_model}"`.
    pub open spec fn secondary_bytes(self) -> Seq<u8> {
        encode_utf8(self.cpu_physical_id@) + seq![58u8] + encode_utf8(
            self.motherboard_product_name@,
        ) + seq![58u8] + encode_utf8(self.disk_model@)
    }

    /// The bytes that are digested: motherboard serial, motherboard UUID, the
    /// MAC addresses of the interfaces that are up, the separator byte, and
    /// the secondary part.
    pub open spec fn digest_input(self) -> Seq<u8> {
        encode_utf8(self.motherboard_serial@) + encode_utf8(self.motherboard_uuid@) + mac_bytes(
            self.network_interfaces@,
        ) + seq![SEPARATOR] + self.secondary_bytes()
    }

    /// The fingerprint of a snapshot that has its critical data.
    pub open spec fn unique_code(self) -> Seq<char> {
        fingerprint_code(md5_of(self.digest_input()))
    }

    /// The bytes that the fingerprint digests.
    pub fn hash_input(&self) -> (r: Vec<u8>)
        ensures
            r@ == self.digest_input(),
    {
        let mut r: Vec<u8> = Vec::new();
        push_bytes(&mut r, self.motherboard_serial.as_str().as_bytes());
        push_bytes(&mut r, self.motherboard_uuid.as_str().as_bytes());
        let ifs = &self.network_interfaces;
        let ghost start = r@;
        let mut i: usize = 0;
        while i < ifs.len()
            invariant
                i <= ifs@.len(),
                r@ == start + mac_bytes(ifs@.subrange(0, i as int)),
            decreases ifs@.len() - i,
        {
            let n = &ifs[i];
            proof {
                assert(ifs@.subrange(0, i + 1).drop_last() =~= ifs@.subrange(0, i as int));
            }
            if n.is_up && !n.mac_address.as_str().is_empty() {
                push_bytes(&mut r, n.mac_address.as_str().as_bytes());
            }
            i = i + 1;
            assert(r@ =~= start + mac_bytes(ifs@.subrange(0, i as int)));
        }
        assert(ifs@.subrange(0, i as int) =~= ifs@);
        r.push(SEPARATOR);
        push_bytes(&mut r, self.cpu_physical_id.as_str().as_bytes());
        r.push(58u8);
        push_bytes(&mut r, self.motherboard_product_name.as_str().as_bytes());
        r.push(58u8);
        push_bytes(&mut r, self.disk_model.as_str().as_bytes());
        assert(r@ =~= self.digest_input());
        r
    }

    /// The snapshot's fingerprint, `xxxx-xxxx-xxxx-xxxx` in lowercase
    /// hexadecimal; fails when the motherboard serial or UUID is empty.
    pub fn generate_unique_code(&self) -> (r: Result<String, HardwareError>)
        ensures
            r is Ok <==> self.has_critical_data(),
            r is Ok ==> r->Ok_0@ == self.unique_code(),
            r is Ok ==> is_code_format(r->Ok_0@),
            r is Err ==> r->Err_0 == HardwareError::MissingCriticalData,
    {
        if self.motherboard_serial.as_str().is_empty() || self.motherboard_uuid.as_str().is_empty() {
            return Err(HardwareError::MissingCriticalData);
        }
        let input = self.hash_input();
        Ok(code_of_bytes(input.as_slice()))
    }
}

/// Whether two interface lists contribute the same MAC addresses: same
/// length, and at each place the same MAC address and the same `is_up`.
pub open spec fn same_macs(a: Seq<NetworkInfo>, b: Seq<NetworkInfo>) -> bool {
    &&& a.len() == b.len()
    &&& forall|k: int|
        0 <= k < a.len() ==> (#[trigger] a[k]).mac_address@ == b[k].mac_address@ && a[k].is_up
            == b[k].is_up
}

proof fn lemma_same_macs_same_bytes(a: Seq<NetworkInfo>, b: Seq<NetworkInfo>)
    requires
        same_macs(a, b),
    ensures
        mac_bytes(a) == mac_bytes(b),
    decreases a.len(),
{
    if a.len() > 0 {
        lemma_same_macs_same_bytes(a.drop_last(), b.drop_last());
    }
}

/// The fingerprint is a function of the motherboard serial and UUID, the MAC
/// addresses of the interfaces that are up, the CPU physical id, the
/// motherboard product name and the disk model: two snapshots that agree on
/// these get the same result.
pub proof fn lemma_code_deterministic(a: HardwareInfo, b: HardwareInfo)
    requires
        a.motherboard_serial@ == b.motherboard_serial@,
        a.motherboard_uuid@ == b.motherboard_uuid@,
        same_macs(a.network_interfaces@, b.network_interfaces@),
        a.cpu_physical_id@ == b.cpu_physical_id@,
        a.motherboard_product_name@ == b.motherboard_product_name@,
        a.disk_model@ == b.disk_model@,
    ensures
        a.has_critical_data() == b.has_critical_data(),
        a.digest_input() == b.digest_input(),
        a.unique_code() == b.unique_code(),
{
    lemma_same_macs_same_bytes(a.network_interfaces@, b.network_interfaces@);
}

/// UTF-8 encoding distributes over concatenation.
proof fn lemma_encode_utf8_concat(a: Seq<char>, b: Seq<char>)
    ensures
        encode_utf8(a + b) == encode_utf8(a) + encode_utf8(b),
    decreases a.len(),
{
    if a.len() > 0 {
        lemma_encode_utf8_concat(a.drop_first(), b);
        assert((a + b).drop_first() =~= a.drop_first() + b);
        assert(encode_utf8(a + b) == encode_scalar(a[0] as u32) + encode_utf8(a.drop_first() + b));
    } else {
        assert(a + b =~= b);
    }
}

/// The digest input is not a commutative combination of serial and UUID:
/// swapping the two changes it, unless serial followed by UUID reads the same
/// as UUID followed by serial (as when they are equal).
pub proof fn lemma_serial_uuid_order(a: HardwareInfo, b: HardwareInfo)
    requires
        b.motherboard_serial@ == a.motherboard_uuid@,
        b.motherboard_uuid@ == a.motherboard_serial@,
        same_macs(a.network_interfaces@, b.network_interfaces@),
        a.cpu_physical_id@ == b.cpu_physical_id@,
        a.motherboard_product_name@ == b.motherboard_product_name@,
        a.disk_model@ == b.disk_model@,
        a.motherboard_serial@ + a.motherboard_uuid@ != a.motherboard_uuid@ + a.motherboard_serial@,
    ensures
        a.digest_input() != b.digest_input(),
{
    let s = a.motherboard_serial@;
    let u = a.motherboard_uuid@;
    let x = encode_utf8(s) + encode_utf8(u);
    let y = encode_utf8(u) + encode_utf8(s);
    lemma_encode_utf8_concat(s, u);
    lemma_encode_utf8_concat(u, s);
    encode_utf8_decode_utf8(s + u);
    encode_utf8_decode_utf8(u + s);
    assert(x != y);
    let n = x.len() as int;
    assert(a.digest_input().subrange(0, n) =~= x);
    assert(b.digest_input().subrange(0, n) =~= y);
}

/// Appends `b` to `v`.
fn push_bytes(v: &mut Vec<u8>, b: &[u8])
    ensures
        final(v)@ == old(v)@ + b@,
{
    let mut i: usize = 0;
    while i < b.len()
        invariant
            i <= b@.len(),
            v@ == old(v)@ + b@.subrange(0, i as int),
        decreases b@.len() - i,
    {
        v.push(b[i]);
        i = i + 1;
        assert(v@ =~= old(v)@ + b@.subrange(0, i as int));
    }
    assert(b@.subrange(0, i as int) =~= b@);
}

} // verus!
