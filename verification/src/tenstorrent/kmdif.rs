//! Data structures shared with the Tenstorrent kernel driver, the DMA
//! request that the ARC firmware executes, and AXI address parsing.
use vstd::prelude::*;
use crate::number::{parse_unsigned, parse_u32_span};
use crate::text::chars_of;

verus! {

/// Largest DMA transfer in bytes.
pub const MAX_DMA_BYTES: u32 = 4_194_304u32;
/// Write-combined BAR0 mapping size on Grayskull.
/// (156 MiB + 20 MiB + 288 MiB).
pub const GS_BAR0_WC_MAPPING_SIZE: u64 = 486_539_264u64;
/// Write-combined BAR0 mapping size on Blackhole.
/// (376 MiB).
pub const BH_BAR0_WC_MAPPING_SIZE: u64 = 394_264_576u64;
/// ARC scratch register 6 on Grayskull and Wormhole.
pub const GS_WH_ARC_SCRATCH6_ADDR: u32 = 0x1ff30078;
/// Offset of the NOC node id register on Blackhole.
pub const BH_NOC_NODE_ID_OFFSET: u32 = 0x1FD04044;

/// Kinds of memory mapping that the driver offers.
#[derive(Debug, Clone, Copy, PartialEq, Eq, Structural)]
pub enum MappingId {
    Unused,
    Resource0Uc,
    Resource0Wc,
    Resource1Uc,
    Resource1Wc,
    Resource2Uc,
    Resource2Wc,
    Unknown(u32),
}

/// The mapping id of a driver value: 0..=6 name the known kinds in order.
pub open spec fn mapping_id_spec(value: u32) -> MappingId {
    if value == 0 {
        MappingId::Unused
    } else if value == 1 {
        MappingId::Resource0Uc
    } else if value == 2 {
        MappingId::Resource0Wc
    } else if value == 3 {
        MappingId::Resource1Uc
    } else if value == 4 {
        MappingId::Resource1Wc
    } else if value == 5 {
        MappingId::Resource2Uc
    } else if value == 6 {
        MappingId::Resource2Wc
    } else {
        MappingId::Unknown(value)
    }
}

impl MappingId {
    /// The mapping id of a driver value.
    pub fn from_u32(value: u32) -> (r: MappingId)
        ensures
            r == mapping_id_spec(value),
    {
        if value == 0 {
            MappingId::Unused
        } else if value == 1 {
            MappingId::Resource0Uc
        } else if value == 2 {
            MappingId::Resource0Wc
        } else if value == 3 {
            MappingId::Resource1Uc
        } else if value == 4 {
            MappingId::Resource1Wc
        } else if value == 5 {
            MappingId::Resource2Uc
        } else if value == 6 {
            MappingId::Resource2Wc
        } else {
            MappingId::Unknown(value)
        }
    }

    /// The discriminant of the variant: 0..=6 for the known kinds in order and
    /// 7 for `Unknown`, whatever value it carries.
    pub fn as_u32(&self) -> (r: u32)
        ensures
            r == match *self {
                MappingId::Unused => 0u32,
                MappingId::Resource0Uc => 1,
                MappingId::Resource0Wc => 2,
                MappingId::Resource1Uc => 3,
                MappingId::Resource1Wc => 4,
                MappingId::Resource2Uc => 5,
                MappingId::Resource2Wc => 6,
                MappingId::Unknown(_) => 7,
            },
    {
        match self {
            MappingId::Unused => 0,
            MappingId::Resource0Uc => 1,
            MappingId::Resource0Wc => 2,
            MappingId::Resource1Uc => 3,
            MappingId::Resource1Wc => 4,
            MappingId::Resource2Uc => 5,
            MappingId::Resource2Wc => 6,
            MappingId::Unknown(_) => 7,
        }
    }
}

/// Converting a known value to a mapping id and back gives the value.
pub proof fn law_mapping_id_roundtrip(value: u32)
    requires
        value <= 6,
    ensures
        match mapping_id_spec(value) {
            MappingId::Unused => 0u32,
            MappingId::Resource0Uc => 1,
            MappingId::Resource0Wc => 2,
            MappingId::Resource1Uc => 3,
            MappingId::Resource1Wc => 4,
            MappingId::Resource2Uc => 5,
            MappingId::Resource2Wc => 6,
            MappingId::Unknown(_) => 7,
        } == value,
{
}

/// Device information that the driver reports.
#[derive(Debug, Default, Clone, Copy)]
pub struct DeviceInfo {
    pub vendor_id: u16,
    pub device_id: u16,
    pub subsystem_vendor_id: u16,
    pub subsystem_id: u16,
    pub bus_dev_fn: u16,
    pub max_dma_buf_size_log2: u16,
    pub pci_domain: u16,
}

/// The packed control word of a DMA request: transfer size in bits 0..28,
/// then the flags `write` (bit 28, host to chip), `pcie_msi_on_done` (29),
/// `pcie_write_on_done` (30) and `trigger` (31).
#[derive(Debug, Clone, Copy, PartialEq, Eq, Structural)]
pub struct DmaPack {
    bits: u32,
}

impl DmaPack {
    /// The packed bits.
    pub closed spec fn spec_bits(&self) -> u32 {
        self.bits
    }

    /// The transfer size field.
    pub open spec fn size_spec(&self) -> u32 {
        self.spec_bits() & 0x0FFF_FFFFu32
    }

    /// A flag bit.
    pub open spec fn bit_spec(&self, i: u32) -> bool {
        (self.spec_bits() >> i) & 1u32 == 1u32
    }

    /// All fields zero.
    pub fn new() -> (r: Self)
        ensures
            r.spec_bits() == 0,
    {
        DmaPack { bits: 0 }
    }

    /// The word with the given packed bits.
    pub fn from_bits(bits: u32) -> (r: Self)
        ensures
            r.spec_bits() == bits,
    {
        DmaPack { bits }
    }

    /// The packed bits.
    pub fn into_bits(&self) -> (r: u32)
        ensures
            r == self.spec_bits(),
    {
        self.bits
    }

    /// The transfer size in bytes.
    pub fn size_bytes(&self) -> (r: u32)
        ensures
            r == self.size_spec(),
    {
        self.bits & 0x0FFF_FFFF
    }

    /// The word with a new transfer size; the flags are kept.
    pub fn with_size_bytes(self, size: u32) -> (r: Self)
        requires
            size < 0x1000_0000,
        ensures
            r.size_spec() == size,
            forall|i: u32| 28 <= i < 32 ==> r.bit_spec(i) == self.bit_spec(i),
    {
        let b = self.bits;
        let nb = (b & 0xF000_0000) | size;
        assert((nb & 0x0FFF_FFFFu32) == size) by (bit_vector)
            requires
                nb == (b & 0xF000_0000u32) | size,
                size < 0x1000_0000u32,
        ;
        assert(forall|i: u32| 28 <= i < 32 ==> ((nb >> i) & 1u32) == ((b >> i) & 1u32)) by (bit_vector)
            requires
                nb == (b & 0xF000_0000u32) | size,
                size < 0x1000_0000u32,
        ;
        DmaPack { bits: nb }
    }

    fn with_bit(self, i: u32, value: bool) -> (r: Self)
        requires
            28 <= i < 32,
        ensures
            r.bit_spec(i) == value,
            r.size_spec() == self.size_spec(),
            forall|j: u32| 28 <= j < 32 && j != i ==> r.bit_spec(j) == self.bit_spec(j),
    {
        let b = self.bits;
        let nb = if value { b | (1u32 << i) } else { b & !(1u32 << i) };
        assert(value ==> ((b | (1u32 << i)) >> i) & 1u32 == 1u32) by (bit_vector)
            requires
                i < 32,
        ;
        assert(!value ==> ((b & !(1u32 << i)) >> i) & 1u32 == 0u32) by (bit_vector)
            requires
                i < 32,
        ;
        assert(((b | (1u32 << i)) & 0x0FFF_FFFFu32) == (b & 0x0FFF_FFFFu32)) by (bit_vector)
            requires
                28 <= i < 32,
        ;
        assert(((b & !(1u32 << i)) & 0x0FFF_FFFFu32) == (b & 0x0FFF_FFFFu32)) by (bit_vector)
            requires
                28 <= i < 32,
        ;
        assert(forall|j: u32| j < 32 && j != i ==> (((b | (1u32 << i)) >> j) & 1u32) == ((b >> j) & 1u32))
            by (bit_vector)
            requires
                i < 32,
        ;
        assert(forall|j: u32| j < 32 && j != i ==> (((b & !(1u32 << i)) >> j) & 1u32) == ((b >> j) & 1u32))
            by (bit_vector)
            requires
                i < 32,
        ;
        DmaPack { bits: nb }
    }

    /// The word with the direction flag set to `write` (bit 28).
    pub fn with_write(self, value: bool) -> (r: Self)
        ensures
            r.bit_spec(28) == value,
            r.size_spec() == self.size_spec(),
            forall|j: u32| 29 <= j < 32 ==> r.bit_spec(j) == self.bit_spec(j),
    {
        self.with_bit(28, value)
    }

    /// The word with the MSI-on-completion flag (bit 29).
    pub fn with_pcie_msi_on_done(self, value: bool) -> (r: Self)
        ensures
            r.bit_spec(29) == value,
            r.size_spec() == self.size_spec(),
            forall|j: u32| 28 <= j < 32 && j != 29 ==> r.bit_spec(j) == self.bit_spec(j),
    {
        self.with_bit(29, value)
    }

    /// The word with the write-on-completion flag (bit 30).
    pub fn with_pcie_write_on_done(self, value: bool) -> (r: Self)
        ensures
            r.bit_spec(30) == value,
            r.size_spec() == self.size_spec(),
            forall|j: u32| 28 <= j < 32 && j != 30 ==> r.bit_spec(j) == self.bit_spec(j),
    {
        self.with_bit(30, value)
    }

    /// The word with the trigger flag (bit 31).
    pub fn with_trigger(self, value: bool) -> (r: Self)
        ensures
            r.bit_spec(31) == value,
            r.size_spec() == self.size_spec(),
            forall|j: u32| 28 <= j < 31 ==> r.bit_spec(j) == self.bit_spec(j),
    {
        self.with_bit(31, value)
    }

    /// The direction flag.
    pub fn write(&self) -> (r: bool)
        ensures
            r == self.bit_spec(28),
    {
        (self.bits >> 28) & 1 == 1
    }

    /// The trigger flag.
    pub fn trigger(&self) -> (r: bool)
        ensures
            r == self.bit_spec(31),
    {
        (self.bits >> 31) & 1 == 1
    }
}

/// A DMA request as the ARC firmware reads it from CSM: five 32-bit words.
#[derive(Debug, Clone, Copy)]
pub struct ArcPcieCtrlDmaRequest {
    /// Address on the chip.
    pub chip_addr: u32,
    /// Low half of the host physical address.
    pub host_phys_addr_lo: u32,
    /// Where the DMA engine writes the completion flag.
    pub completion_flag_phys_addr: u32,
    pub dma_pack: DmaPack,
    /// Repeat count; bit 31 marks a 64-bit transfer.
    pub repeat: u32,
}

/// DMA configuration of a chip.
#[derive(Clone)]
pub struct DmaConfig {
    /// Address in CSM where the DMA request structure resides.
    pub csm_pcie_ctrl_dma_request_offset: u32,
    /// Register that raises the ARC interrupt.
    pub arc_misc_cntl_addr: u32,
    /// Register that takes the high half of the host address.
    pub dma_host_phys_addr_high: u32,
    pub support_64_bit_dma: bool,
    pub use_msi_for_dma: bool,
    pub read_threshold: u32,
    pub write_threshold: u32,
}

/// PCI identity and location of a device.
pub struct PhysicalDevice {
    pub vendor_id: u16,
    pub device_id: u16,
    pub subsystem_vendor_id: u16,
    pub subsystem_id: u16,
    pub pci_bus: u16,
    pub slot: u16,
    pub pci_function: u16,
    pub pci_domain: u16,
}

/// Why a DMA request cannot be made.
#[derive(Debug, Clone, Copy, PartialEq, Eq, Structural)]
pub enum DmaRequestError {
    /// The host address needs 64 bits and the chip has no 64-bit DMA.
    No64bitDma,
    /// The transfer does not fit the 28-bit size field.
    DmaTooLarge { size: u32 },
}

/// Builds the DMA request of a transfer of `size` bytes between `chip_addr`
/// and the host buffer at `host_buffer_addr`.
pub fn build_dma_request(
    chip_addr: u32,
    host_buffer_addr: u64,
    size: u32,
    write: bool,
    completion_flag_phys_addr: u64,
    dma_config: &DmaConfig,
) -> (r: Result<ArcPcieCtrlDmaRequest, DmaRequestError>)
    ensures
        match r {
            Ok(req) => {
                &&& host_buffer_addr / 0x1_0000_0000 == 0 || dma_config.support_64_bit_dma
                &&& size < 0x1000_0000
                &&& req.chip_addr == chip_addr
                &&& req.host_phys_addr_lo == host_buffer_addr % 0x1_0000_0000
                &&& req.completion_flag_phys_addr == completion_flag_phys_addr % 0x1_0000_0000
                &&& req.dma_pack.size_spec() == size
                &&& req.dma_pack.bit_spec(28) == write
                &&& req.dma_pack.bit_spec(29) == dma_config.use_msi_for_dma
                &&& req.dma_pack.bit_spec(30) == !dma_config.use_msi_for_dma
                &&& req.dma_pack.bit_spec(31)
                &&& req.repeat == if host_buffer_addr / 0x1_0000_0000 != 0 {
                    0x8000_0001u32
                } else {
                    1u32
                }
            },
            Err(DmaRequestError::No64bitDma) => host_buffer_addr / 0x1_0000_0000 != 0
                && !dma_config.support_64_bit_dma,
            Err(DmaRequestError::DmaTooLarge { size: s }) => (host_buffer_addr / 0x1_0000_0000 == 0
                || dma_config.support_64_bit_dma) && size >= 0x1000_0000 && s == size,
        },
{
    assert((host_buffer_addr >> 32u64) == host_buffer_addr / 0x1_0000_0000) by (bit_vector);
    assert((host_buffer_addr & 0xffffffffu64) == host_buffer_addr % 0x1_0000_0000) by (bit_vector);
    assert((completion_flag_phys_addr & 0xffffffffu64) == completion_flag_phys_addr % 0x1_0000_0000)
        by (bit_vector);
    let host_phys_addr_hi = (host_buffer_addr >> 32) as u32;
    assert(host_buffer_addr >> 32u64 < 0x1_0000_0000) by (bit_vector);
    assert((host_phys_addr_hi != 0) == (host_buffer_addr / 0x1_0000_0000 != 0));
    if host_phys_addr_hi != 0 && !dma_config.support_64_bit_dma {
        return Err(DmaRequestError::No64bitDma);
    }
    if size > 0x0FFF_FFFF {
        return Err(DmaRequestError::DmaTooLarge { size });
    }
    let pack = DmaPack::new().with_size_bytes(size).with_write(write).with_pcie_msi_on_done(
        dma_config.use_msi_for_dma,
    ).with_pcie_write_on_done(!dma_config.use_msi_for_dma).with_trigger(true);
    let hi_flag: u32 = if host_phys_addr_hi != 0 { 1 } else { 0 };
    assert((1u32 | (1u32 << 31u32)) == 0x8000_0001u32) by (bit_vector);
    assert((1u32 | (0u32 << 31u32)) == 1u32) by (bit_vector);
    Ok(ArcPcieCtrlDmaRequest {
        chip_addr,
        host_phys_addr_lo: (host_buffer_addr & 0xffffffff) as u32,
        completion_flag_phys_addr: (completion_flag_phys_addr & 0xffffffff) as u32,
        dma_pack: pack,
        repeat: 1 | (hi_flag << 31),
    })
}

impl ArcPcieCtrlDmaRequest {
    /// The five words written to CSM, in field order.
    pub fn to_words(&self) -> (r: [u32; 5])
        ensures
            r@ == seq![
                self.chip_addr,
                self.host_phys_addr_lo,
                self.completion_flag_phys_addr,
                self.dma_pack.spec_bits(),
                self.repeat,
            ],
    {
        let w = [
            self.chip_addr,
            self.host_phys_addr_lo,
            self.completion_flag_phys_addr,
            self.dma_pack.into_bits(),
            self.repeat,
        ];
        assert(w@ =~= seq![
            self.chip_addr,
            self.host_phys_addr_lo,
            self.completion_flag_phys_addr,
            self.dma_pack.spec_bits(),
            self.repeat,
        ]);
        w
    }
}

/// An AXI address and access size.
#[derive(Default, Debug, Clone, Copy, PartialEq, Eq, Structural)]
pub struct AxiData {
    pub addr: u32,
    pub size_bytes: u32,
}

/// An address string that names no address.
#[derive(Debug, Clone, Copy, PartialEq, Eq, Structural)]
pub struct AxiParseError;

/// Parses a decimal AXI address; the size is left zero.
pub fn axi_translate(addr_str: &str) -> (r: Result<AxiData, AxiParseError>)
    ensures
        match r {
            Ok(d) => parse_unsigned(addr_str@, 10, u32::MAX as nat) == Some(d.addr as nat)
                && d.size_bytes == 0,
            Err(_) => parse_unsigned(addr_str@, 10, u32::MAX as nat) is None,
        },
{
    let v = chars_of(addr_str);
    let n = v.len();
    assert(v@.subrange(0, n as int) =~= addr_str@);
    match parse_u32_span(&v, 0, n) {
        Some(a) => Ok(AxiData { addr: a, size_bytes: 0 }),
        None => Err(AxiParseError),
    }
}

/// A TLB window as the driver takes it.
#[derive(Default, Debug, Clone, Copy)]
pub struct TlbData {
    pub local_offset: u64,
    pub x_end: u32,
    pub y_end: u32,
    pub x_start: u32,
    pub y_start: u32,
    pub noc_sel: u32,
    pub mcast: bool,
    pub ordering: TlbOrdering,
    pub linked: bool,
    pub static_vc: u32,
}

/// NOC ordering of a TLB window.
#[derive(Debug, Clone, Copy, PartialEq, Eq, Structural)]
pub enum TlbOrdering {
    Posted,
    Relaxed,
    Strict,
}

impl Default for TlbOrdering {
    fn default() -> (r: Self)
        ensures
            r == TlbOrdering::Posted,
    {
        TlbOrdering::Posted
    }
}

impl TlbOrdering {
    /// The driver's encoding: Posted 0, Relaxed 1, Strict 2.
    pub fn to_u8(self) -> (r: u8)
        ensures
            r == match self {
                TlbOrdering::Posted => 0u8,
                TlbOrdering::Relaxed => 1,
                TlbOrdering::Strict => 2,
            },
    {
        match self {
            TlbOrdering::Posted => 0,
            TlbOrdering::Relaxed => 1,
            TlbOrdering::Strict => 2,
        }
    }
}

} // verus!
