//! The Tenstorrent NPU reader: its configuration, the device name and the
//! details it reports from a chip's telemetry, and the board tables it uses
//! for power limits and memory sizes.
use vstd::prelude::*;
use crate::labels::LabelMap;
use crate::number::{decimal_string, push_padded, push_radix, radix_string, zero_pad};
use crate::tenstorrent::arch::Arch;
use crate::tenstorrent::chip::{
    Telemetry, board_type_spec, dotted3, dotted_version, firmware_date_spec, GIB,
};
use crate::tenstorrent::device::{pci_address_spec, push_pci_address};
use crate::text::{str_eq, string_of};

verus! {

/// How Tenstorrent metrics are collected.
#[derive(Debug, Clone, Copy, PartialEq, Eq, Structural)]
pub enum CollectionMethod {
    /// Read directly from the device files.
    DeviceFile,
}

/// Configuration of the Tenstorrent reader.
#[derive(Debug, Clone, Copy, PartialEq, Eq, Structural)]
pub struct TenstorrentConfig {
    /// The method used first to collect metrics.
    pub primary_method: CollectionMethod,
}

impl Default for TenstorrentConfig {
    fn default() -> (r: Self)
        ensures
            r.primary_method == CollectionMethod::DeviceFile,
    {
        TenstorrentConfig { primary_method: CollectionMethod::DeviceFile }
    }
}

/// Reads Tenstorrent NPUs.
#[derive(Debug, Clone, Copy, PartialEq, Eq, Structural)]
pub struct TenstorrentReader {
    config: TenstorrentConfig,
}

impl TenstorrentReader {
    /// The configuration of the reader.
    pub closed spec fn config_spec(&self) -> TenstorrentConfig {
        self.config
    }

    /// A reader with the default configuration.
    pub fn new() -> (r: Self)
        ensures
            r.config_spec().primary_method == CollectionMethod::DeviceFile,
    {
        Self::with_config(TenstorrentConfig::default())
    }

    /// A reader with the given configuration.
    pub fn with_config(config: TenstorrentConfig) -> (r: Self)
        ensures
            r.config_spec() == config,
    {
        TenstorrentReader { config }
    }

    /// The method by which the reader collects.
    pub fn collection_method(&self) -> (r: CollectionMethod)
        ensures
            r == self.config_spec().primary_method,
    {
        self.config.primary_method
    }

    /// The base name of a device string such as `wh0`: the string itself.
    pub fn get_base_device_name(device: &str) -> (r: String)
        ensures
            r@ == device@,
    {
        string_of(device)
    }
}

/// The status message after a detection that found `found` devices: none
/// when some were found.
pub fn detection_status(found: usize) -> (r: Option<String>)
    ensures
        found > 0 ==> r is None,
        found == 0 ==> (r matches Some(s) && s@ == "No Tenstorrent devices found"@),
{
    if found > 0 {
        None
    } else {
        Some(string_of("No Tenstorrent devices found"))
    }
}

/// The status message after a failed detection.
pub fn detection_failure_status(error: &str) -> (r: String)
    ensures
        r@ == "Failed to detect Tenstorrent devices: "@ + error@,
{
    let mut s = string_of("Failed to detect Tenstorrent devices: ");
    s.append(error);
    s
}

/// The name of an architecture.
pub open spec fn arch_name(a: Arch) -> Seq<char> {
    match a {
        Arch::Grayskull => "Grayskull"@,
        Arch::Wormhole => "Wormhole"@,
        Arch::Blackhole => "Blackhole"@,
    }
}

/// The board type of telemetry, or `Unknown`.
pub open spec fn board_text(t: Telemetry) -> Seq<char> {
    match board_type_spec(t.serial()) {
        Some(s) => s,
        None => "Unknown"@,
    }
}

fn board_str(t: &Telemetry) -> (r: &'static str)
    ensures
        r@ == board_text(*t),
{
    match t.try_board_type() {
        Some(s) => s,
        None => "Unknown",
    }
}

/// `Tenstorrent <architecture> <board>`.
pub fn device_name(t: &Telemetry) -> (r: String)
    ensures
        r@ == "Tenstorrent "@ + arch_name(t.arch) + " "@ + board_text(*t),
{
    let mut s = string_of("Tenstorrent ");
    match t.arch {
        Arch::Grayskull => s.append("Grayskull"),
        Arch::Wormhole => s.append("Wormhole"),
        Arch::Blackhole => s.append("Blackhole"),
    }
    s.append(" ");
    s.append(board_str(t));
    s
}

/// The instance name of the device at an index: `tt<index>`.
pub fn instance_name(index: usize) -> (r: String)
    ensures
        r@ == "tt"@ + radix_string(index as nat, 10),
{
    let mut s = string_of("tt");
    push_radix(&mut s, index as u64, 10);
    s
}

/// The power limit in watts that utilization is measured against: the limit
/// in the upper half of the TDP word when nonzero, else a figure by board
/// name, else by architecture.
pub open spec fn tdp_limit_spec(upper: u32, board: Seq<char>, arch: Arch) -> u32 {
    if upper > 0 {
        upper
    } else if board == "e75"@ || board == "e150"@ {
        75
    } else if board == "e300"@ || board == "e300_R2"@ || board == "e300_R3"@ {
        100
    } else if board == "GALAXY"@ {
        300
    } else if board == "n150"@ || board == "NEBULA_CB"@ {
        150
    } else if board == "n300"@ {
        160
    } else if board == "galaxy-wormhole"@ {
        200
    } else if board == "p100"@ || board == "p100a"@ {
        300
    } else if board == "p150a"@ || board == "p150b"@ || board == "p150c"@ {
        350
    } else if board == "p300a"@ || board == "p300b"@ || board == "p300c"@ {
        400
    } else if board == "galaxy-blackhole"@ {
        450
    } else {
        match arch {
            Arch::Grayskull => 75,
            Arch::Wormhole => 160,
            Arch::Blackhole => 350,
        }
    }
}

/// The power limit in watts of a chip, for its utilization.
pub fn tdp_limit_watts(t: &Telemetry) -> (r: u32)
    ensures
        r == tdp_limit_spec((t.tdp >> 16u32) & 0xFFFFu32, board_type_spec(t.serial()).unwrap_or(
            "UNSUPPORTED"@,
        ), t.arch),
{
    let upper = (t.tdp >> 16) & 0xFFFF;
    if upper > 0 {
        return upper;
    }
    let b = t.board_type();
    proof {
        match board_type_spec(t.serial()) {
            Some(x) => {},
            None => {},
        }
    }
    if str_eq(b, "e75") || str_eq(b, "e150") {
        75
    } else if str_eq(b, "e300") || str_eq(b, "e300_R2") || str_eq(b, "e300_R3") {
        100
    } else if str_eq(b, "GALAXY") {
        300
    } else if str_eq(b, "n150") || str_eq(b, "NEBULA_CB") {
        150
    } else if str_eq(b, "n300") {
        160
    } else if str_eq(b, "galaxy-wormhole") {
        200
    } else if str_eq(b, "p100") || str_eq(b, "p100a") {
        300
    } else if str_eq(b, "p150a") || str_eq(b, "p150b") || str_eq(b, "p150c") {
        350
    } else if str_eq(b, "p300a") || str_eq(b, "p300b") || str_eq(b, "p300c") {
        400
    } else if str_eq(b, "galaxy-blackhole") {
        450
    } else {
        match t.arch {
            Arch::Grayskull => 75,
            Arch::Wormhole => 160,
            Arch::Blackhole => 350,
        }
    }
}

/// Memory in GiB of a known board name.
pub open spec fn board_memory_gib(board: Seq<char>) -> Option<u64> {
    if board == "e75"@ {
        Some(16)
    } else if board == "e150"@ {
        Some(32)
    } else if board == "e300"@ || board == "e300_R2"@ || board == "e300_R3"@ {
        Some(48)
    } else if board == "GALAXY"@ {
        Some(96)
    } else if board == "n150"@ || board == "NEBULA_CB"@ {
        Some(32)
    } else if board == "n300"@ {
        Some(64)
    } else if board == "galaxy-wormhole"@ {
        Some(96)
    } else if board == "p100"@ || board == "p100a"@ {
        Some(96)
    } else if board == "p150a"@ || board == "p150b"@ || board == "p150c"@ {
        Some(144)
    } else if board == "p300a"@ || board == "p300b"@ || board == "p300c"@ {
        Some(288)
    } else if board == "galaxy-blackhole"@ {
        Some(576)
    } else {
        None
    }
}

fn memory_gib_of(b: &str) -> (r: Option<u64>)
    ensures
        r == board_memory_gib(b@),
{
    if str_eq(b, "e75") {
        Some(16)
    } else if str_eq(b, "e150") {
        Some(32)
    } else if str_eq(b, "e300") || str_eq(b, "e300_R2") || str_eq(b, "e300_R3") {
        Some(48)
    } else if str_eq(b, "GALAXY") {
        Some(96)
    } else if str_eq(b, "n150") || str_eq(b, "NEBULA_CB") {
        Some(32)
    } else if str_eq(b, "n300") {
        Some(64)
    } else if str_eq(b, "galaxy-wormhole") {
        Some(96)
    } else if str_eq(b, "p100") || str_eq(b, "p100a") {
        Some(96)
    } else if str_eq(b, "p150a") || str_eq(b, "p150b") || str_eq(b, "p150c") {
        Some(144)
    } else if str_eq(b, "p300a") || str_eq(b, "p300b") || str_eq(b, "p300c") {
        Some(288)
    } else if str_eq(b, "galaxy-blackhole") {
        Some(576)
    } else {
        None
    }
}

/// The board name that the tables match: the board type, or `UNSUPPORTED`.
pub open spec fn table_board(t: Telemetry) -> Seq<char> {
    match board_type_spec(t.serial()) {
        Some(s) => s,
        None => "UNSUPPORTED"@,
    }
}

/// Total memory in bytes that the reader reports: none while DDR is not up;
/// by board name; for another board, when the DDR speed is known, 16, 32 or
/// 96 GiB by architecture, else none.
pub open spec fn total_memory_spec(t: Telemetry) -> u64 {
    if t.ddr_status == 0 {
        0
    } else {
        match board_memory_gib(table_board(t)) {
            Some(g) => (g * GIB) as u64,
            None => if t.ddr_speed is Some {
                match t.arch {
                    Arch::Grayskull => (16 * GIB) as u64,
                    Arch::Wormhole => (32 * GIB) as u64,
                    Arch::Blackhole => (96 * GIB) as u64,
                }
            } else {
                0
            },
        }
    }
}

/// Whether the DDR speed is reported as a detail: DDR is up, the board is
/// not in the memory table and the speed is known.
pub open spec fn reports_ddr_speed(t: Telemetry) -> bool {
    t.ddr_status != 0 && board_memory_gib(table_board(t)) is None && t.ddr_speed is Some
}

/// Total memory in bytes of a chip.
pub fn total_memory(t: &Telemetry) -> (r: u64)
    ensures
        r == total_memory_spec(*t),
{
    if t.ddr_status == 0 {
        return 0;
    }
    match memory_gib_of(t.board_type()) {
        Some(g) => g * GIB,
        None => if t.ddr_speed.is_some() {
            match t.arch {
                Arch::Grayskull => 16 * GIB,
                Arch::Wormhole => 32 * GIB,
                Arch::Blackhole => 96 * GIB,
            }
        } else {
            0
        },
    }
}

/// PCIe location, ids and link of a device as the driver reports them.
#[derive(Debug, Clone, Copy, PartialEq, Eq, Structural)]
pub struct PciLinkInfo {
    pub domain: u16,
    pub bus: u16,
    pub slot: u16,
    pub function: u16,
    pub vendor: u16,
    pub device_id: u16,
    pub link_width: u32,
    pub link_gen: u32,
}

/// `0x` and eight hexadecimal digits.
pub open spec fn hex8(v: u32) -> Seq<char> {
    "0x"@ + zero_pad(radix_string(v as nat, 16), 8)
}

/// `0x` and four hexadecimal digits.
pub open spec fn hex4(v: u16) -> Seq<char> {
    "0x"@ + zero_pad(radix_string(v as nat, 16), 4)
}

/// `major.minor.patch` of bytes 2, 1 and 0 of a version word.
pub open spec fn byte_version(v: u32) -> Seq<char> {
    dotted3(((v >> 16u32) & 0xFFu32) as nat, ((v >> 8u32) & 0xFFu32) as nat, (v & 0xFFu32) as nat)
}

/// A decimal number.
pub open spec fn dec(n: nat) -> Seq<char> {
    radix_string(n, 10)
}

/// The details that the reader reports of a chip, but for the readings it
/// keeps as fractions (voltage, current, temperatures, power).
pub open spec fn luwen_detail_spec(t: Telemetry, pci: Option<PciLinkInfo>) -> Map<Seq<char>, Seq<char>> {
    let m0 = Map::<Seq<char>, Seq<char>>::empty().insert("board_type"@, board_text(t)).insert(
        "board_id"@,
        zero_pad(radix_string(t.serial() as nat, 16), 16),
    ).insert("collection_method"@, "luwen"@);
    let m1 = match pci {
        Some(p) => m0.insert(
            "pcie_address"@,
            pci_address_spec(p.domain, p.bus, p.slot, p.function),
        ).insert("pcie_vendor_id"@, hex4(p.vendor)).insert("pcie_device_id"@, hex4(p.device_id)).insert(
            "pcie_link_width"@,
            "x"@ + dec(p.link_width as nat),
        ).insert("pcie_link_gen"@, "Gen"@ + dec(p.link_gen as nat)),
        None => m0,
    };
    let m2 = m1.insert(
        "arc_fw_version"@,
        byte_version(t.arc0_fw_version),
    ).insert(
        "eth_fw_version"@,
        dotted3(
            ((t.eth_fw_version >> 16u32) & 0x0FFu32) as nat,
            ((t.eth_fw_version >> 12u32) & 0x00Fu32) as nat,
            (t.eth_fw_version & 0xFFFu32) as nat,
        ),
    ).insert("fw_date"@, firmware_date_spec(t.wh_fw_date));
    let m3 = if t.ddr_fw_version != 0 {
        m2.insert("ddr_fw_version"@, byte_version(t.ddr_fw_version))
    } else {
        m2
    };
    let m4 = if t.spibootrom_fw_version != 0 {
        m3.insert("spibootrom_fw_version"@, byte_version(t.spibootrom_fw_version))
    } else {
        m3
    };
    let tdp_limit = (t.tdp >> 16u32) & 0xFFFFu32;
    let tdc_limit = (t.tdc >> 16u32) & 0xFFFFu32;
    let m5 = if tdp_limit > 0 {
        m4.insert("tdp_limit"@, dec(tdp_limit as nat))
    } else {
        m4
    };
    let m6 = if tdc_limit > 0 {
        m5.insert("tdc_limit"@, dec(tdc_limit as nat))
    } else {
        m5
    };
    let heartbeat = if t.arch == Arch::Blackhole {
        t.timer_heartbeat
    } else {
        t.arc0_health
    };
    let m7 = m6.insert("aiclk_mhz"@, dec((t.aiclk & 0xffffu32) as nat)).insert(
        "axiclk_mhz"@,
        dec(t.axiclk as nat),
    ).insert("arcclk_mhz"@, dec(t.arcclk as nat)).insert("pcie_status"@, hex8(t.pcie_status)).insert(
        "eth_status0"@,
        hex8(t.eth_status0),
    ).insert("eth_status1"@, hex8(t.eth_status1)).insert("ddr_status"@, hex8(t.ddr_status)).insert(
        "heartbeat"@,
        dec(heartbeat as nat),
    ).insert("arc0_health"@, dec(t.arc0_health as nat)).insert(
        "arc3_health"@,
        dec(t.arc3_health as nat),
    );
    let m8 = if t.faults != 0 {
        m7.insert("faults"@, hex8(t.faults))
    } else {
        m7
    };
    let m9 = if t.throttler != 0 {
        m8.insert("throttler"@, hex8(t.throttler))
    } else {
        m8
    };
    let m10 = if t.fan_speed != 0 {
        m9.insert("fan_speed"@, dec(t.fan_speed as nat))
    } else {
        m9
    };
    let m11 = if t.fan_rpm != 0 {
        m10.insert("fan_rpm"@, dec(t.fan_rpm as nat))
    } else {
        m10
    };
    if reports_ddr_speed(t) {
        m11.insert("ddr_speed"@, dec(t.ddr_speed.unwrap() as nat))
    } else {
        m11
    }
}

fn hex8_string(v: u32) -> (r: String)
    ensures
        r@ == hex8(v),
{
    let mut s = string_of("0x");
    push_padded(&mut s, v as u64, 16, 8);
    s
}

fn hex4_string(v: u16) -> (r: String)
    ensures
        r@ == hex4(v),
{
    let mut s = string_of("0x");
    push_padded(&mut s, v as u64, 16, 4);
    s
}

fn prefixed_decimal(prefix: &str, n: u32) -> (r: String)
    ensures
        r@ == prefix@ + dec(n as nat),
{
    let mut s = string_of(prefix);
    push_radix(&mut s, n as u64, 10);
    s
}

fn byte_version_string(v: u32) -> (r: String)
    ensures
        r@ == byte_version(v),
{
    dotted_version((v >> 16) & 0xFF, (v >> 8) & 0xFF, v & 0xFF)
}

/// The details that the reader reports of a chip from its telemetry and, when
/// known, its PCIe link; the fractional readings are added by the caller.
pub fn luwen_detail(t: &Telemetry, pci: Option<PciLinkInfo>) -> (m: LabelMap)
    ensures
        m.wf(),
        m@ == luwen_detail_spec(*t, pci),
{
    let mut m = LabelMap::new();
    m.insert(string_of("board_type"), string_of(board_str(t)));
    m.insert(string_of("board_id"), t.board_serial_number_hex());
    m.insert(string_of("collection_method"), string_of("luwen"));
    if let Some(p) = pci {
        let mut a = String::new();
        push_pci_address(&mut a, p.domain, p.bus, p.slot, p.function);
        m.insert(string_of("pcie_address"), a);
        m.insert(string_of("pcie_vendor_id"), hex4_string(p.vendor));
        m.insert(string_of("pcie_device_id"), hex4_string(p.device_id));
        m.insert(string_of("pcie_link_width"), prefixed_decimal("x", p.link_width));
        m.insert(string_of("pcie_link_gen"), prefixed_decimal("Gen", p.link_gen));
    }
    m.insert(string_of("arc_fw_version"), t.arc_fw_version());
    m.insert(string_of("eth_fw_version"), t.eth_fw_version());
    m.insert(string_of("fw_date"), t.firmware_date());
    if t.ddr_fw_version != 0 {
        m.insert(string_of("ddr_fw_version"), byte_version_string(t.ddr_fw_version));
    }
    if t.spibootrom_fw_version != 0 {
        m.insert(string_of("spibootrom_fw_version"), byte_version_string(t.spibootrom_fw_version));
    }
    let tdp_limit = (t.tdp >> 16) & 0xFFFF;
    let tdc_limit = (t.tdc >> 16) & 0xFFFF;
    if tdp_limit > 0 {
        m.insert(string_of("tdp_limit"), decimal_string(tdp_limit as u64));
    }
    if tdc_limit > 0 {
        m.insert(string_of("tdc_limit"), decimal_string(tdc_limit as u64));
    }
    m.insert(string_of("aiclk_mhz"), decimal_string(t.ai_clk() as u64));
    m.insert(string_of("axiclk_mhz"), decimal_string(t.axi_clk() as u64));
    m.insert(string_of("arcclk_mhz"), decimal_string(t.arc_clk() as u64));
    m.insert(string_of("pcie_status"), hex8_string(t.pcie_status));
    m.insert(string_of("eth_status0"), hex8_string(t.eth_status0));
    m.insert(string_of("eth_status1"), hex8_string(t.eth_status1));
    m.insert(string_of("ddr_status"), hex8_string(t.ddr_status));
    m.insert(string_of("heartbeat"), decimal_string(t.telemetry_heartbeat() as u64));
    m.insert(string_of("arc0_health"), decimal_string(t.arc0_health as u64));
    m.insert(string_of("arc3_health"), decimal_string(t.arc3_health as u64));
    if t.faults != 0 {
        m.insert(string_of("faults"), hex8_string(t.faults));
    }
    if t.throttler != 0 {
        m.insert(string_of("throttler"), hex8_string(t.throttler));
    }
    if t.fan_speed != 0 {
        m.insert(string_of("fan_speed"), decimal_string(t.fan_speed as u64));
    }
    if t.fan_rpm != 0 {
        m.insert(string_of("fan_rpm"), decimal_string(t.fan_rpm as u64));
    }
    if t.ddr_status != 0 {
        if memory_gib_of(t.board_type()).is_none() {
            if let Some(speed) = t.ddr_speed {
                m.insert(string_of("ddr_speed"), decimal_string(speed as u64));
            }
        }
    }
    proof {
        match board_type_spec(t.serial()) {
            Some(x) => {},
            None => {},
        }
    }
    m
}

} // verus!
