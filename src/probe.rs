use vstd::prelude::*;
use vstd::string::*;

use crate::error::HardwareError;
use crate::extract::{Extraction, LineSelect, RuleView, SelectView};

verus! {

/// The operating systems that have probes.
#[derive(Clone, Copy, Debug, PartialEq, Eq, Structural)]
pub enum Platform {
    Windows,
    Linux,
    MacOs,
    Other,
}

/// The hardware attributes read by probes.
#[derive(Clone, Copy, Debug, PartialEq, Eq, Structural)]
pub enum Attribute {
    CpuInfo,
    CpuPhysicalId,
    MotherboardSerial,
    MotherboardUuid,
    MotherboardManufacturer,
    MotherboardProductName,
    DiskSerial,
    DiskModel,
    DiskFirmware,
    BiosVersion,
    BiosVendor,
    BiosReleaseDate,
    MemorySerial,
    MacAddress,
}

/// Where a probe's text comes from.
#[derive(Clone, Debug)]
pub enum Source {
    /// The standard output of a program run with these arguments.
    Command { program: String, args: Vec<String> },
    /// The contents of a file.
    File(String),
    /// A value known without asking the system.
    Fixed(String),
}

/// A source as plain values.
pub enum SourceView {
    Command { program: Seq<char>, args: Seq<Seq<char>> },
    File(Seq<char>),
    Fixed(Seq<char>),
}

impl View for Source {
    type V = SourceView;

    open spec fn view(&self) -> SourceView {
        match self {
            Source::Command { program, args } => SourceView::Command {
                program: program@,
                args: args@.map_values(|a: String| a@),
            },
            Source::File(path) => SourceView::File(path@),
            Source::Fixed(value) => SourceView::Fixed(value@),
        }
    }
}

/// How one attribute is read on one platform: the text's source and the rule
/// that extracts the value from it.
#[derive(Clone, Debug)]
pub struct Probe {
    pub source: Source,
    pub rule: Extraction,
}

/// A probe as plain values.
pub struct ProbeView {
    pub source: SourceView,
    pub rule: RuleView,
}

impl View for Probe {
    type V = ProbeView;

    open spec fn view(&self) -> ProbeView {
        ProbeView { source: self.source@, rule: self.rule@ }
    }
}

/// A program run with these arguments.
pub open spec fn command_view(program: &str, args: Seq<&str>) -> SourceView {
    SourceView::Command { program: program@, args: args.map_values(|a: &str| a@) }
}

/// The second line of `wmic <args>`, trimmed: `wmic ... get <field>` prints
/// a header line and then the value.
pub open spec fn wmic_view(args: Seq<&str>) -> ProbeView {
    ProbeView { source: command_view("wmic", args), rule: RuleView::Trimmed(SelectView::Nth(1)) }
}

/// The whole file at `path`, trimmed.
pub open spec fn file_view(path: &str) -> ProbeView {
    ProbeView { source: SourceView::File(path@), rule: RuleView::Trimmed(SelectView::Whole) }
}

/// What follows the first `:` on the first line that holds `key` (up to a
/// second `:`), trimmed.
pub open spec fn keyed_view(source: SourceView, key: &str) -> ProbeView {
    ProbeView {
        source,
        rule: RuleView::Field { line: SelectView::Containing(key@), delimiter: ':', trimmed: true },
    }
}

/// The same as `keyed_view`, on the first line that begins with `key`.
pub open spec fn prefixed_view(source: SourceView, key: &str, delimiter: char) -> ProbeView {
    ProbeView {
        source,
        rule: RuleView::Field { line: SelectView::StartingWith(key@), delimiter, trimmed: true },
    }
}

/// A fixed value.
pub open spec fn fixed_view(value: &str) -> ProbeView {
    ProbeView { source: SourceView::Fixed(value@), rule: RuleView::Trimmed(SelectView::Whole) }
}

/// The probe for each attribute on Windows.
pub open spec fn windows_expected(attribute: Attribute) -> ProbeView {
    match attribute {
        Attribute::CpuInfo => wmic_view(seq!["cpu", "get", "name"]),
        Attribute::CpuPhysicalId => wmic_view(seq!["cpu", "get", "processorid"]),
        Attribute::MotherboardSerial => wmic_view(seq!["baseboard", "get", "serialnumber"]),
        Attribute::MotherboardUuid => wmic_view(seq!["csproduct", "get", "uuid"]),
        Attribute::MotherboardManufacturer => wmic_view(
            seq!["baseboard", "get", "manufacturer"],
        ),
        Attribute::MotherboardProductName => wmic_view(seq!["baseboard", "get", "product"]),
        Attribute::DiskSerial => wmic_view(seq!["diskdrive", "get", "serialnumber"]),
        Attribute::DiskModel => wmic_view(seq!["diskdrive", "get", "model"]),
        Attribute::DiskFirmware => wmic_view(seq!["diskdrive", "get", "firmwarerevision"]),
        Attribute::BiosVersion => wmic_view(seq!["bios", "get", "version"]),
        Attribute::BiosVendor => wmic_view(seq!["bios", "get", "manufacturer"]),
        Attribute::BiosReleaseDate => wmic_view(seq!["bios", "get", "releasedate"]),
        Attribute::MemorySerial => wmic_view(seq!["memorychip", "get", "serialnumber"]),
        Attribute::MacAddress => ProbeView {
            source: command_view("getmac", seq![]),
            rule: RuleView::Word { line: SelectView::Nth(0), index: 0 },
        },
    }
}

/// The probe for each attribute on Linux.
pub open spec fn linux_expected(attribute: Attribute) -> ProbeView {
    match attribute {
        Attribute::CpuInfo => prefixed_view(
            SourceView::File("/proc/cpuinfo"@),
            "model name",
            ':',
        ),
        Attribute::CpuPhysicalId => prefixed_view(
            SourceView::File("/proc/cpuinfo"@),
            "physical id",
            ':',
        ),
        Attribute::MotherboardSerial => file_view("/sys/class/dmi/id/board_serial"),
        Attribute::MotherboardUuid => file_view("/sys/class/dmi/id/product_uuid"),
        Attribute::MotherboardManufacturer => file_view("/sys/class/dmi/id/board_vendor"),
        Attribute::MotherboardProductName => file_view("/sys/class/dmi/id/board_name"),
        Attribute::DiskSerial => prefixed_view(
            command_view("udevadm", seq!["info", "--query=property", "--name=/dev/sda"]),
            "ID_SERIAL=",
            '=',
        ),
        Attribute::DiskModel => ProbeView {
            source: command_view("lsblk", seq!["-no", "MODEL"]),
            rule: RuleView::Trimmed(SelectView::Nth(0)),
        },
        Attribute::DiskFirmware => file_view("/sys/class/block/sda/device/firmware_rev"),
        Attribute::BiosVersion => file_view("/sys/class/dmi/id/bios_version"),
        Attribute::BiosVendor => file_view("/sys/class/dmi/id/bios_vendor"),
        Attribute::BiosReleaseDate => file_view("/sys/class/dmi/id/bios_date"),
        Attribute::MemorySerial => keyed_view(
            command_view("sudo", seq!["dmidecode", "-t", "memory"]),
            "Serial Number:",
        ),
        Attribute::MacAddress => ProbeView {
            source: command_view("ip", seq!["link", "show"]),
            rule: RuleView::Word { line: SelectView::Containing("link/ether"@), index: 1 },
        },
    }
}

/// The probe for each attribute on macOS.
pub open spec fn macos_expected(attribute: Attribute) -> ProbeView {
    match attribute {
        Attribute::CpuInfo | Attribute::CpuPhysicalId => ProbeView {
            source: command_view("sysctl", seq!["-n", "machdep.cpu.brand_string"]),
            rule: RuleView::Trimmed(SelectView::Whole),
        },
        Attribute::MotherboardSerial => keyed_view(
            command_view("system_profiler", seq!["SPHardwareDataType"]),
            "Serial Number",
        ),
        Attribute::MotherboardUuid => keyed_view(
            command_view("system_profiler", seq!["SPHardwareDataType"]),
            "Hardware UUID",
        ),
        Attribute::MotherboardManufacturer | Attribute::BiosVendor => fixed_view(
            "Apple Inc.",
        ),
        Attribute::MotherboardProductName => keyed_view(
            command_view("system_profiler", seq!["SPHardwareDataType"]),
            "Model Identifier",
        ),
        Attribute::DiskSerial => keyed_view(
            command_view("diskutil", seq!["info", "disk0"]),
            "Serial Number",
        ),
        Attribute::DiskModel => keyed_view(
            command_view("diskutil", seq!["info", "disk0"]),
            "Device / Media Name",
        ),
        Attribute::DiskFirmware => keyed_view(
            command_view("system_profiler", seq!["SPNVMeDataType"]),
            "Firmware Version",
        ),
        Attribute::BiosVersion | Attribute::BiosReleaseDate => keyed_view(
            command_view("system_profiler", seq!["SPHardwareDataType"]),
            "Boot ROM Version",
        ),
        Attribute::MemorySerial => keyed_view(
            command_view("system_profiler", seq!["SPMemoryDataType"]),
            "Serial Number:",
        ),
        Attribute::MacAddress => ProbeView {
            source: command_view("ifconfig", seq![]),
            rule: RuleView::Word { line: SelectView::Containing("ether"@), index: 1 },
        },
    }
}

/// The probe for each attribute on each platform; none on `Other`.
pub open spec fn expected_probe(platform: Platform, attribute: Attribute) -> Option<ProbeView> {
    match platform {
        Platform::Windows => Some(windows_expected(attribute)),
        Platform::Linux => Some(linux_expected(attribute)),
        Platform::MacOs => Some(macos_expected(attribute)),
        Platform::Other => None,
    }
}

fn command(program: &str, args: &[&str]) -> (r: Source)
    ensures
        r@ == command_view(program, args@),
{
    let mut v: Vec<String> = Vec::new();
    let mut i: usize = 0;
    while i < args.len()
        invariant
            i <= args@.len(),
            v@.len() == i,
            forall|k: int| 0 <= k < i ==> (#[trigger] v@[k])@ == args@[k]@,
        decreases args@.len() - i,
    {
        v.push(String::from_str(args[i]));
        i = i + 1;
    }
    assert(v@.map_values(|a: String| a@) =~= args@.map_values(|a: &str| a@));
    Source::Command { program: String::from_str(program), args: v }
}

fn command_without_args(program: &str) -> (r: Source)
    ensures
        r@ == command_view(program, seq![]),
{
    let none: [&str; 0] = [];
    assert(none@ =~= Seq::<&str>::empty());
    command(program, &none)
}

fn command_with_arg(program: &str, arg: &str) -> (r: Source)
    ensures
        r@ == command_view(program, seq![arg]),
{
    let one: [&str; 1] = [arg];
    assert(one@ =~= seq![arg]);
    command(program, &one)
}

fn file(path: &str) -> (r: Source)
    ensures
        r@ == SourceView::File(path@),
{
    Source::File(String::from_str(path))
}

fn wmic(args: &[&str]) -> (r: Probe)
    ensures
        r@ == wmic_view(args@),
{
    Probe { source: command("wmic", args), rule: Extraction::Trimmed(LineSelect::Nth(1)) }
}

fn whole_file(path: &str) -> (r: Probe)
    ensures
        r@ == file_view(path),
{
    Probe { source: file(path), rule: Extraction::Trimmed(LineSelect::Whole) }
}

fn keyed(source: Source, key: &str) -> (r: Probe)
    ensures
        r@ == keyed_view(source@, key),
{
    Probe {
        source,
        rule: Extraction::Field {
            line: LineSelect::Containing(String::from_str(key)),
            delimiter: ':',
            trimmed: true,
        },
    }
}

fn prefixed(source: Source, key: &str, delimiter: char) -> (r: Probe)
    ensures
        r@ == prefixed_view(source@, key, delimiter),
{
    Probe {
        source,
        rule: Extraction::Field {
            line: LineSelect::StartingWith(String::from_str(key)),
            delimiter,
            trimmed: true,
        },
    }
}

fn fixed(value: &str) -> (r: Probe)
    ensures
        r@ == fixed_view(value),
{
    Probe {
        source: Source::Fixed(String::from_str(value)),
        rule: Extraction::Trimmed(LineSelect::Whole),
    }
}

fn windows_probe(attribute: Attribute) -> (r: Probe)
    ensures
        r@ == windows_expected(attribute),
{
    match attribute {
        Attribute::CpuInfo => wmic(&["cpu", "get", "name"]),
        Attribute::CpuPhysicalId => wmic(&["cpu", "get", "processorid"]),
        Attribute::MotherboardSerial => wmic(&["baseboard", "get", "serialnumber"]),
        Attribute::MotherboardUuid => wmic(&["csproduct", "get", "uuid"]),
        Attribute::MotherboardManufacturer => wmic(&["baseboard", "get", "manufacturer"]),
        Attribute::MotherboardProductName => wmic(&["baseboard", "get", "product"]),
        Attribute::DiskSerial => wmic(&["diskdrive", "get", "serialnumber"]),
        Attribute::DiskModel => wmic(&["diskdrive", "get", "model"]),
        Attribute::DiskFirmware => wmic(&["diskdrive", "get", "firmwarerevision"]),
        Attribute::BiosVersion => wmic(&["bios", "get", "version"]),
        Attribute::BiosVendor => wmic(&["bios", "get", "manufacturer"]),
        Attribute::BiosReleaseDate => wmic(&["bios", "get", "releasedate"]),
        Attribute::MemorySerial => wmic(&["memorychip", "get", "serialnumber"]),
        Attribute::MacAddress => Probe {
            source: command_without_args("getmac"),
            rule: Extraction::Word { line: LineSelect::Nth(0), index: 0 },
        },
    }
}

fn linux_probe(attribute: Attribute) -> (r: Probe)
    ensures
        r@ == linux_expected(attribute),
{
    match attribute {
        Attribute::CpuInfo => prefixed(file("/proc/cpuinfo"), "model name", ':'),
        Attribute::CpuPhysicalId => prefixed(file("/proc/cpuinfo"), "physical id", ':'),
        Attribute::MotherboardSerial => whole_file("/sys/class/dmi/id/board_serial"),
        Attribute::MotherboardUuid => whole_file("/sys/class/dmi/id/product_uuid"),
        Attribute::MotherboardManufacturer => whole_file("/sys/class/dmi/id/board_vendor"),
        Attribute::MotherboardProductName => whole_file("/sys/class/dmi/id/board_name"),
        Attribute::DiskSerial => prefixed(
            command("udevadm", &["info", "--query=property", "--name=/dev/sda"]),
            "ID_SERIAL=",
            '=',
        ),
        Attribute::DiskModel => Probe {
            source: command("lsblk", &["-no", "MODEL"]),
            rule: Extraction::Trimmed(LineSelect::Nth(0)),
        },
        Attribute::DiskFirmware => whole_file("/sys/class/block/sda/device/firmware_rev"),
        Attribute::BiosVersion => whole_file("/sys/class/dmi/id/bios_version"),
        Attribute::BiosVendor => whole_file("/sys/class/dmi/id/bios_vendor"),
        Attribute::BiosReleaseDate => whole_file("/sys/class/dmi/id/bios_date"),
        Attribute::MemorySerial => keyed(
            command("sudo", &["dmidecode", "-t", "memory"]),
            "Serial Number:",
        ),
        Attribute::MacAddress => Probe {
            source: command("ip", &["link", "show"]),
            rule: Extraction::Word {
                line: LineSelect::Containing(String::from_str("link/ether")),
                index: 1,
            },
        },
    }
}

fn macos_probe(attribute: Attribute) -> (r: Probe)
    ensures
        r@ == macos_expected(attribute),
{
    match attribute {
        Attribute::CpuInfo | Attribute::CpuPhysicalId => Probe {
            source: command("sysctl", &["-n", "machdep.cpu.brand_string"]),
            rule: Extraction::Trimmed(LineSelect::Whole),
        },
        Attribute::MotherboardSerial => keyed(
            command_with_arg("system_profiler", "SPHardwareDataType"),
            "Serial Number",
        ),
        Attribute::MotherboardUuid => keyed(
            command_with_arg("system_profiler", "SPHardwareDataType"),
            "Hardware UUID",
        ),
        Attribute::MotherboardManufacturer | Attribute::BiosVendor => fixed("Apple Inc."),
        Attribute::MotherboardProductName => keyed(
            command_with_arg("system_profiler", "SPHardwareDataType"),
            "Model Identifier",
        ),
        Attribute::DiskSerial => keyed(command("diskutil", &["info", "disk0"]), "Serial Number"),
        Attribute::DiskModel => keyed(
            command("diskutil", &["info", "disk0"]),
            "Device / Media Name",
        ),
        Attribute::DiskFirmware => keyed(
            command_with_arg("system_profiler", "SPNVMeDataType"),
            "Firmware Version",
        ),
        Attribute::BiosVersion | Attribute::BiosReleaseDate => keyed(
            command_with_arg("system_profiler", "SPHardwareDataType"),
            "Boot ROM Version",
        ),
        Attribute::MemorySerial => keyed(
            command_with_arg("system_profiler", "SPMemoryDataType"),
            "Serial Number:",
        ),
        Attribute::MacAddress => Probe {
            source: command_without_args("ifconfig"),
            rule: Extraction::Word {
                line: LineSelect::Containing(String::from_str("ether")),
                index: 1,
            },
        },
    }
}

/// The probe that reads `attribute` on `platform`, as `expected_probe`
/// gives it; `UnsupportedSystem` on a platform that has none.
pub fn probe_for(platform: Platform, attribute: Attribute) -> (r: Result<Probe, HardwareError>)
    ensures
        match expected_probe(platform, attribute) {
            Some(p) => r is Ok && r->Ok_0@ == p,
            None => r is Err && r->Err_0 is UnsupportedSystem,
        },
        r is Err <==> platform == Platform::Other,
{
    match platform {
        Platform::Windows => Ok(windows_probe(attribute)),
        Platform::Linux => Ok(linux_probe(attribute)),
        Platform::MacOs => Ok(macos_probe(attribute)),
        Platform::Other => Err(
            HardwareError::UnsupportedSystem(String::from_str("no probe for this operating system")),
        ),
    }
}

} // verus!
