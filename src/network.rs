use vstd::prelude::*;

use crate::hardware_info::HardwareInfo;
use crate::text::{has_prefix, lemma_text_lt_irreflexive, lemma_text_lt_transitive, same_text, text_less, text_lt};

verus! {

/// The kind of a network interface, told by its name.
#[derive(Clone, Copy, Debug, PartialEq, Eq, Structural)]
pub enum InterfaceType {
    Ethernet,
    WiFi,
    Unknown,
}

/// A network interface kept in a hardware snapshot.
#[derive(Clone, Debug)]
pub struct NetworkInfo {
    pub name: String,
    pub mac_address: String,
    pub is_up: bool,
    pub interface_type: InterfaceType,
}

/// A network interface as the operating system lists it: its name and its
/// MAC address in colon-separated hexadecimal.
#[derive(Clone, Debug)]
pub struct InterfaceCandidate {
    pub name: String,
    pub mac_address: String,
}

/// The names of the conventional primary interfaces: `en0`, `eth0`, `enp0s1`.
pub open spec fn is_primary_name(name: Seq<char>) -> bool {
    ||| name == seq!['e', 'n', '0']
    ||| name == seq!['e', 't', 'h', '0']
    ||| name == seq!['e', 'n', 'p', '0', 's', '1']
}

/// The all-zero MAC address, `00:00:00:00:00:00`.
pub open spec fn zero_mac() -> Seq<char> {
    seq!['0', '0', ':', '0', '0', ':', '0', '0', ':', '0', '0', ':', '0', '0', ':', '0', '0']
}

/// The interface kind for a name: `en*` and `eth*` are Ethernet, `wl*` and
/// `wifi*` are Wi-Fi, anything else is unknown.
pub open spec fn interface_type_of(name: Seq<char>) -> InterfaceType {
    if has_prefix(name, seq!['e', 'n']) || has_prefix(name, seq!['e', 't', 'h']) {
        InterfaceType::Ethernet
    } else if has_prefix(name, seq!['w', 'l']) || has_prefix(name, seq!['w', 'i', 'f', 'i']) {
        InterfaceType::WiFi
    } else {
        InterfaceType::Unknown
    }
}

/// Whether an interface may contribute to the fingerprint: a primary name and
/// a MAC address that is neither empty nor all zeros.
pub open spec fn is_eligible(c: InterfaceCandidate) -> bool {
    &&& is_primary_name(c.name@)
    &&& c.mac_address@.len() > 0
    &&& c.mac_address@ != zero_mac()
}

/// Whether candidate `i` is the first eligible one with the least MAC address.
pub open spec fn is_first_least(cands: Seq<InterfaceCandidate>, i: int) -> bool {
    &&& 0 <= i < cands.len()
    &&& is_eligible(cands[i])
    &&& forall|k: int|
        0 <= k < cands.len() && is_eligible(#[trigger] cands[k]) ==> !text_lt(
            cands[k].mac_address@,
            cands[i].mac_address@,
        ) && (k < i ==> cands[k].mac_address@ != cands[i].mac_address@)
}

/// Whether `n` is what the snapshot keeps of candidate `c`.
pub open spec fn is_kept_as(c: InterfaceCandidate, n: NetworkInfo) -> bool {
    &&& n.name@ == c.name@
    &&& n.mac_address@ == c.mac_address@
    &&& n.is_up
    &&& n.interface_type == interface_type_of(c.name@)
}

/// Whether `r` is the narrowed interface list for `cands`: eligible
/// candidates sorted by MAC address (stably), cut to the first one.
pub open spec fn is_narrowed(cands: Seq<InterfaceCandidate>, r: Seq<NetworkInfo>) -> bool {
    if exists|k: int| 0 <= k < cands.len() && is_eligible(#[trigger] cands[k]) {
        &&& r.len() == 1
        &&& exists|i: int| is_first_least(cands, i) && is_kept_as(cands[i], r[0])
    } else {
        r.len() == 0
    }
}

/// Whether `mac` is the all-zero address.
fn is_zero_mac(mac: &str) -> (r: bool)
    ensures
        r == (mac@ == zero_mac()),
{
    proof {
        reveal_strlit("00:00:00:00:00:00");
        assert("00:00:00:00:00:00"@ =~= seq!['0', '0', ':', '0', '0', ':', '0', '0', ':', '0', '0', ':', '0', '0', ':', '0', '0']);
    }
    same_text(mac, "00:00:00:00:00:00")
}

/// Whether a candidate may contribute to the fingerprint.
pub fn eligible(c: &InterfaceCandidate) -> (r: bool)
    ensures
        r == is_eligible(*c),
{
    HardwareInfo::is_primary_interface(c.name.as_str()) && !c.mac_address.as_str().is_empty()
        && !is_zero_mac(c.mac_address.as_str())
}

/// Narrows the listed interfaces to the one that the fingerprint uses: the
/// eligible candidates sorted by MAC address, cut to the first.
pub fn narrow_interfaces(cands: &Vec<InterfaceCandidate>) -> (r: Vec<NetworkInfo>)
    ensures
        is_narrowed(cands@, r@),
{
    let mut best: Option<usize> = None;
    let mut j: usize = 0;
    while j < cands.len()
        invariant
            j <= cands@.len(),
            match best {
                None => forall|k: int| 0 <= k < j ==> !is_eligible(#[trigger] cands@[k]),
                Some(b) => {
                    &&& b < j
                    &&& is_eligible(cands@[b as int])
                    &&& forall|k: int|
                        0 <= k < j && is_eligible(#[trigger] cands@[k]) ==> !text_lt(
                            cands@[k].mac_address@,
                            cands@[b as int].mac_address@,
                        ) && (k < b ==> cands@[k].mac_address@ != cands@[b as int].mac_address@)
                },
            },
        decreases cands@.len() - j,
    {
        if eligible(&cands[j]) {
            match best {
                None => {
                    proof {
                        lemma_text_lt_irreflexive(cands@[j as int].mac_address@);
                    }
                    best = Some(j);
                },
                Some(b) => {
                    if text_less(cands[j].mac_address.as_str(), cands[b].mac_address.as_str()) {
                        proof {
                            let mj = cands@[j as int].mac_address@;
                            let mb = cands@[b as int].mac_address@;
                            lemma_text_lt_irreflexive(mj);
                            assert forall|k: int|
                                0 <= k <= j && is_eligible(#[trigger] cands@[k]) implies !text_lt(
                                cands@[k].mac_address@,
                                mj,
                            ) && (k < j ==> cands@[k].mac_address@ != mj) by {
                                if k < j {
                                    if text_lt(cands@[k].mac_address@, mj) {
                                        lemma_text_lt_transitive(cands@[k].mac_address@, mj, mb);
                                    }
                                }
                            }
                        }
                        best = Some(j);
                    }
                },
            }
        }
        j = j + 1;
    }
    let mut r: Vec<NetworkInfo> = Vec::new();
    match best {
        None => {},
        Some(b) => {
            let c = &cands[b];
            r.push(
                NetworkInfo {
                    name: c.name.clone(),
                    mac_address: c.mac_address.clone(),
                    is_up: true,
                    interface_type: HardwareInfo::detect_interface_type(c.name.as_str()),
                },
            );
            assert(is_first_least(cands@, b as int));
        },
    }
    r
}

/// An interface whose MAC address is all zeros, or empty, or whose name is
/// not a primary one, is never kept.
pub proof fn lemma_narrowed_are_eligible(cands: Seq<InterfaceCandidate>, r: Seq<NetworkInfo>)
    requires
        is_narrowed(cands, r),
    ensures
        r.len() <= 1,
        forall|k: int|
            0 <= k < r.len() ==> {
                &&& (#[trigger] r[k]).mac_address@ != zero_mac()
                &&& r[k].mac_address@.len() > 0
                &&& is_primary_name(r[k].name@)
                &&& r[k].is_up
            },
{
}

} // verus!
