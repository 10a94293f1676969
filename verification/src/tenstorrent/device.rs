//! Decisions of the direct device path: the initialization status of a
//! chip, the heartbeat check, register names by architecture, where the
//! telemetry block lies, and the PCI identity of a device.
use vstd::prelude::*;
use crate::number::{push_padded, radix_string, zero_pad};
use crate::tenstorrent::arch::Arch;
use crate::tenstorrent::chip::{Telemetry, zero_telemetry};
use crate::tenstorrent::kmdif::{DeviceInfo, PhysicalDevice};
use crate::tenstorrent::tlb::{bdf_parts, decode_bus_dev_fn};

verus! {

/// How far a chip has come in its initialization.
#[derive(Debug, Clone)]
pub struct InitStatus {
    pub arc_ready: bool,
    pub dram_ready: bool,
    pub eth_ready: bool,
    pub pcie_ready: bool,
    pub init_complete: bool,
    pub error_message: Option<String>,
}

impl InitStatus {
    /// Nothing ready, no error.
    pub fn new() -> (r: Self)
        ensures
            !r.arc_ready,
            !r.dram_ready,
            !r.eth_ready,
            !r.pcie_ready,
            !r.init_complete,
            r.error_message is None,
    {
        InitStatus {
            arc_ready: false,
            dram_ready: false,
            eth_ready: false,
            pcie_ready: false,
            init_complete: false,
            error_message: None,
        }
    }

    /// Whether initialization failed.
    pub fn has_error(&self) -> (r: bool)
        ensures
            r == self.error_message is Some,
    {
        self.error_message.is_some()
    }

    /// Records the subsystems that the first telemetry shows ready: DRAM
    /// when the DDR status is nonzero, PCIe when the PCIe status is nonzero,
    /// Ethernet when either Ethernet status is nonzero (always on Grayskull,
    /// which has none); initialization is then complete.
    pub fn record_telemetry(&mut self, arch: Arch, t: &Telemetry)
        ensures
            final(self).dram_ready == (old(self).dram_ready || t.ddr_status != 0),
            final(self).pcie_ready == (old(self).pcie_ready || t.pcie_status != 0),
            final(self).eth_ready == (old(self).eth_ready || arch == Arch::Grayskull
                || t.eth_status0 != 0 || t.eth_status1 != 0),
            final(self).init_complete,
            final(self).arc_ready == old(self).arc_ready,
            final(self).error_message == old(self).error_message,
    {
        if t.ddr_status != 0 {
            self.dram_ready = true;
        }
        if t.pcie_status != 0 {
            self.pcie_ready = true;
        }
        if !arch.is_grayskull() {
            if t.eth_status0 != 0 || t.eth_status1 != 0 {
                self.eth_ready = true;
            }
        } else {
            self.eth_ready = true;
        }
        self.init_complete = true;
    }
}

/// Whether the heartbeat counter moved between two reads: it advanced by
/// at least one, counting modulo 2^32.
pub fn heartbeat_advanced(first: u32, second: u32) -> (r: bool)
    ensures
        r == ((second as int - first as int) % 0x1_0000_0000 >= 1),
        r == (first != second),
{
    let inc = second.wrapping_sub(first);
    assert(inc == (second as int - first as int) % 0x1_0000_0000);
    inc >= 1
}

/// The name of the first ARC scratch register of an architecture.
pub fn scratch_base_name(arch: Arch) -> (r: &'static str)
    ensures
        arch == Arch::Blackhole ==> r@ == "arc_ss.reset_unit.SCRATCH_0"@,
        arch != Arch::Blackhole ==> r@ == "ARC_RESET.SCRATCH[0]"@,
{
    match arch {
        Arch::Blackhole => "arc_ss.reset_unit.SCRATCH_0",
        _ => "ARC_RESET.SCRATCH[0]",
    }
}

/// The name of the ARC control register that raises its interrupt.
pub fn misc_cntl_name(arch: Arch) -> (r: &'static str)
    ensures
        arch == Arch::Blackhole ==> r@ == "arc_ss.reset_unit.ARC_MISC_CNTL"@,
        arch != Arch::Blackhole ==> r@ == "ARC_RESET.ARC_MISC_CNTL"@,
{
    match arch {
        Arch::Blackhole => "arc_ss.reset_unit.ARC_MISC_CNTL",
        _ => "ARC_RESET.ARC_MISC_CNTL",
    }
}

/// The AXI offset of the telemetry block: the CSM base plus the block's
/// address in the ARC's map, whose CSM starts at `0x10000000`.
pub fn csm_telemetry_offset(csm_base: u64, telemetry_addr: u32) -> (r: u64)
    requires
        telemetry_addr >= 0x1000_0000,
        csm_base as int + (telemetry_addr - 0x1000_0000) <= u64::MAX,
    ensures
        r == csm_base as int + (telemetry_addr - 0x1000_0000),
{
    csm_base + ((telemetry_addr - 0x1000_0000) as u64)
}

impl PhysicalDevice {
    /// The PCI identity of a device from what the driver reports: the ids as
    /// given, and bus, slot and function unpacked from `bus_dev_fn`.
    pub fn from_device_info(info: &DeviceInfo) -> (r: PhysicalDevice)
        ensures
            r.vendor_id == info.vendor_id,
            r.device_id == info.device_id,
            r.subsystem_vendor_id == info.subsystem_vendor_id,
            r.subsystem_id == info.subsystem_id,
            (r.pci_bus, r.slot, r.pci_function) == bdf_parts(info.bus_dev_fn),
            r.pci_domain == info.pci_domain,
    {
        let (bus, slot, function) = decode_bus_dev_fn(info.bus_dev_fn);
        PhysicalDevice {
            vendor_id: info.vendor_id,
            device_id: info.device_id,
            subsystem_vendor_id: info.subsystem_vendor_id,
            subsystem_id: info.subsystem_id,
            pci_bus: bus,
            slot,
            pci_function: function,
            pci_domain: info.pci_domain,
        }
    }
}

/// `n` in lower-case hexadecimal, zero-padded to `width` digits.
pub open spec fn hex_padded(n: nat, width: nat) -> Seq<char> {
    zero_pad(radix_string(n, 16), width)
}

/// The PCI address `dddd:bb:ss.f` of a device, each part in hexadecimal.
pub open spec fn pci_address_spec(domain: u16, bus: u16, slot: u16, function: u16) -> Seq<char> {
    hex_padded(domain as nat, 4) + ":"@ + hex_padded(bus as nat, 2) + ":"@ + hex_padded(
        slot as nat,
        2,
    ) + "."@ + hex_padded(function as nat, 1)
}

/// Appends the PCI address `dddd:bb:ss.f` of a device.
pub fn push_pci_address(out: &mut String, domain: u16, bus: u16, slot: u16, function: u16)
    ensures
        final(out)@ == old(out)@ + pci_address_spec(domain, bus, slot, function),
{
    push_padded(out, domain as u64, 16, 4);
    out.append(":");
    push_padded(out, bus as u64, 16, 2);
    out.append(":");
    push_padded(out, slot as u64, 16, 2);
    out.append(".");
    push_padded(out, function as u64, 16, 1);
    proof {
        let a = hex_padded(domain as nat, 4);
        let b = hex_padded(bus as nat, 2);
        let c = hex_padded(slot as nat, 2);
        let d = hex_padded(function as nat, 1);
        assert(old(out)@ + a + ":"@ + b + ":"@ + c + "."@ + d =~= old(out)@ + (a + ":"@ + b + ":"@
            + c + "."@ + d));
    }
}

/// The sysfs file of a device's PCI configuration space.
pub fn pci_config_path(domain: u16, bus: u16, slot: u16, function: u16) -> (r: String)
    ensures
        r@ == "/sys/bus/pci/devices/"@ + pci_address_spec(domain, bus, slot, function)
            + "/config"@,
{
    let mut s = String::new();
    s.append("/sys/bus/pci/devices/");
    push_pci_address(&mut s, domain, bus, slot, function);
    s.append("/config");
    s
}


/// The offsets in the CSM telemetry block of the words a device reads, in
/// order: 0 to 88, then 96 to 104, then 112 to 144, each 4 apart, and 176
/// (the timer heartbeat) on Blackhole.
pub open spec fn csm_offsets_spec(arch: Arch) -> Seq<u32> {
    let base = Seq::new(23, |i: int| (4 * i) as u32) + Seq::new(3, |i: int| (96 + 4 * i) as u32)
        + Seq::new(9, |i: int| (112 + 4 * i) as u32);
    if arch == Arch::Blackhole {
        base.push(176)
    } else {
        base
    }
}

/// The offsets of the telemetry words to read, in order.
pub fn csm_field_offsets(arch: Arch) -> (r: Vec<u32>)
    ensures
        r@ == csm_offsets_spec(arch),
{
    let mut r: Vec<u32> = Vec::new();
    let mut k: u32 = 0;
    while k < 23
        invariant
            k <= 23,
            r@ == Seq::new(k as nat, |i: int| (4 * i) as u32),
        decreases 23 - k,
    {
        r.push(4 * k);
        assert(r@ =~= Seq::new((k + 1) as nat, |i: int| (4 * i) as u32));
        k = k + 1;
    }
    let ghost a = r@;
    let mut k: u32 = 0;
    while k < 3
        invariant
            k <= 3,
            r@ == a + Seq::new(k as nat, |i: int| (96 + 4 * i) as u32),
        decreases 3 - k,
    {
        r.push(96 + 4 * k);
        assert(r@ =~= a + Seq::new((k + 1) as nat, |i: int| (96 + 4 * i) as u32));
        k = k + 1;
    }
    let ghost b = r@;
    let mut k: u32 = 0;
    while k < 9
        invariant
            k <= 9,
            r@ == b + Seq::new(k as nat, |i: int| (112 + 4 * i) as u32),
        decreases 9 - k,
    {
        r.push(112 + 4 * k);
        assert(r@ =~= b + Seq::new((k + 1) as nat, |i: int| (112 + 4 * i) as u32));
        k = k + 1;
    }
    if arch.is_blackhole() {
        r.push(176);
    }
    r
}

/// The telemetry block assembled from the words read at
/// [`csm_offsets_spec`], in that order; the fields it does not hold are zero.
pub open spec fn csm_telemetry_spec(arch: Arch, w: Seq<u32>) -> Telemetry {
    Telemetry {
        arch: arch,
        enum_version: w[0],
        device_id: w[1],
        asic_ro: w[2],
        asic_idd: w[3],
        board_id_high: w[4],
        board_id_low: w[5],
        arc0_fw_version: w[6],
        arc1_fw_version: w[7],
        arc2_fw_version: w[8],
        arc3_fw_version: w[9],
        spibootrom_fw_version: w[10],
        eth_fw_version: w[11],
        m3_bl_fw_version: w[12],
        m3_app_fw_version: w[13],
        ddr_status: w[14],
        eth_status0: w[15],
        eth_status1: w[16],
        pcie_status: w[17],
        faults: w[18],
        arc0_health: w[19],
        arc1_health: w[20],
        arc2_health: w[21],
        arc3_health: w[22],
        aiclk: w[23],
        axiclk: w[24],
        arcclk: w[25],
        vcore: w[26],
        asic_temperature: w[27],
        vreg_temperature: w[28],
        board_temperature: w[29],
        tdp: w[30],
        tdc: w[31],
        vdd_limits: w[32],
        thm_limits: w[33],
        wh_fw_date: w[34],
        timer_heartbeat: if arch == Arch::Blackhole {
            w[35]
        } else {
            0
        },
        ..zero_telemetry()
    }
}

/// The telemetry of a device from the words read at the offsets of
/// [`csm_field_offsets`], in the same order.
pub fn telemetry_from_csm_words(arch: Arch, words: &Vec<u32>) -> (t: Telemetry)
    requires
        words@.len() == csm_offsets_spec(arch).len(),
    ensures
        t == csm_telemetry_spec(arch, words@),
{
    let mut t = Telemetry::default();
    t.arch = arch;
    t.enum_version = words[0];
    t.device_id = words[1];
    t.asic_ro = words[2];
    t.asic_idd = words[3];
    t.board_id_high = words[4];
    t.board_id_low = words[5];
    t.arc0_fw_version = words[6];
    t.arc1_fw_version = words[7];
    t.arc2_fw_version = words[8];
    t.arc3_fw_version = words[9];
    t.spibootrom_fw_version = words[10];
    t.eth_fw_version = words[11];
    t.m3_bl_fw_version = words[12];
    t.m3_app_fw_version = words[13];
    t.ddr_status = words[14];
    t.eth_status0 = words[15];
    t.eth_status1 = words[16];
    t.pcie_status = words[17];
    t.faults = words[18];
    t.arc0_health = words[19];
    t.arc1_health = words[20];
    t.arc2_health = words[21];
    t.arc3_health = words[22];
    t.aiclk = words[23];
    t.axiclk = words[24];
    t.arcclk = words[25];
    t.vcore = words[26];
    t.asic_temperature = words[27];
    t.vreg_temperature = words[28];
    t.board_temperature = words[29];
    t.tdp = words[30];
    t.tdc = words[31];
    t.vdd_limits = words[32];
    t.thm_limits = words[33];
    t.wh_fw_date = words[34];
    if arch.is_blackhole() {
        t.timer_heartbeat = words[35];
    }
    t
}

} // verus!
