//! TLB windows, the driver's BAR mapping records, and the plan by which the
//! BARs of a device are mapped into the process.
use vstd::prelude::*;
use crate::tenstorrent::arch::Arch;

verus! {

/// NOC ordering of a TLB window.
#[derive(Debug, Clone, Copy, PartialEq, Eq, Structural)]
pub enum TlbOrdering {
    Posted,
    Relaxed,
    Strict,
}

impl Default for TlbOrdering {
    fn default() -> (r: Self)
        ensures
            r == TlbOrdering::Posted,
    {
        TlbOrdering::Posted
    }
}

impl TlbOrdering {
    /// The encoding of the ordering in a TLB register: Posted 0, Relaxed 1,
    /// Strict 2.
    pub fn to_u8(self) -> (r: u8)
        ensures
            r == match self {
                TlbOrdering::Posted => 0u8,
                TlbOrdering::Relaxed => 1,
                TlbOrdering::Strict => 2,
            },
    {
        match self {
            TlbOrdering::Posted => 0,
            TlbOrdering::Relaxed => 1,
            TlbOrdering::Strict => 2,
        }
    }
}

/// A TLB window onto the NOC: a target core (or rectangle of cores for a
/// multicast) and the address inside it.
#[derive(Debug, Clone, Copy, PartialEq, Eq, Structural)]
pub struct Tlb {
    pub local_offset: u64,
    pub x_end: u8,
    pub y_end: u8,
    pub x_start: u8,
    pub y_start: u8,
    pub noc_sel: u8,
    pub mcast: bool,
    pub ordering: TlbOrdering,
    pub linked: bool,
    pub static_vc: u8,
}

/// The window with every field zero, unicast, posted ordering.
pub open spec fn default_tlb() -> Tlb {
    Tlb {
        local_offset: 0,
        x_end: 0,
        y_end: 0,
        x_start: 0,
        y_start: 0,
        noc_sel: 0,
        mcast: false,
        ordering: TlbOrdering::Posted,
        linked: false,
        static_vc: 0,
    }
}

impl Default for Tlb {
    fn default() -> (r: Self)
        ensures
            r == default_tlb(),
    {
        Tlb {
            local_offset: 0,
            x_end: 0,
            y_end: 0,
            x_start: 0,
            y_start: 0,
            noc_sel: 0,
            mcast: false,
            ordering: TlbOrdering::Posted,
            linked: false,
            static_vc: 0,
        }
    }
}

impl Tlb {
    /// A unicast window onto core (`x`, `y`) at `addr`; the other fields are
    /// their defaults.
    pub fn new(x: u8, y: u8, addr: u64) -> (r: Self)
        ensures
            r == (Tlb { x_end: x, y_end: y, local_offset: addr, ..default_tlb() }),
    {
        Tlb { x_end: x, y_end: y, local_offset: addr, ..Tlb::default() }
    }

    /// A multicast window onto the rectangle of cores from (`x_start`,
    /// `y_start`) to (`x_end`, `y_end`) at `addr`.
    pub fn multicast(x_start: u8, y_start: u8, x_end: u8, y_end: u8, addr: u64) -> (r: Self)
        ensures
            r == multicast_tlb(x_start, y_start, x_end, y_end, addr),
    {
        Tlb { x_start, y_start, x_end, y_end, local_offset: addr, mcast: true, ..Tlb::default() }
    }

    /// A broadcast window: the same multicast window, over the whole grid that
    /// the caller names (see [`law_broadcast_is_multicast`]).
    pub fn broadcast(x_start: u8, y_start: u8, x_end: u8, y_end: u8, addr: u64) -> (r: Self)
        ensures
            r == multicast_tlb(x_start, y_start, x_end, y_end, addr),
    {
        Tlb { x_start, y_start, x_end, y_end, local_offset: addr, mcast: true, ..Tlb::default() }
    }
}

/// The multicast window onto the rectangle from (`xs`, `ys`) to (`xe`, `ye`)
/// at `addr`: the default window with those corners and multicast set.
pub open spec fn multicast_tlb(xs: u8, ys: u8, xe: u8, ye: u8, addr: u64) -> Tlb {
    Tlb { x_start: xs, y_start: ys, x_end: xe, y_end: ye, local_offset: addr, mcast: true, ..default_tlb() }
}

/// A broadcast and a multicast over the same rectangle and address are the
/// same window: those corners and that offset, multicast on, NOC 0, posted
/// ordering, not linked, static VC 0.
pub proof fn law_broadcast_is_multicast(xs: u8, ys: u8, xe: u8, ye: u8, addr: u64)
    ensures
        multicast_tlb(xs, ys, xe, ye, addr).x_start == xs,
        multicast_tlb(xs, ys, xe, ye, addr).y_start == ys,
        multicast_tlb(xs, ys, xe, ye, addr).x_end == xe,
        multicast_tlb(xs, ys, xe, ye, addr).y_end == ye,
        multicast_tlb(xs, ys, xe, ye, addr).local_offset == addr,
        multicast_tlb(xs, ys, xe, ye, addr).mcast,
        multicast_tlb(xs, ys, xe, ye, addr).noc_sel == 0,
        multicast_tlb(xs, ys, xe, ye, addr).ordering == TlbOrdering::Posted,
        !multicast_tlb(xs, ys, xe, ye, addr).linked,
        multicast_tlb(xs, ys, xe, ye, addr).static_vc == 0,
{
}

/// A named TLB window of a device: its register address and size.
#[derive(Debug, Clone, Copy)]
pub struct DeviceTlbInfo {
    pub name: &'static str,
    pub address: u32,
    pub size: u32,
}

/// A DMA buffer that the driver allocated for TLB mapping.
#[derive(Debug, Default, Clone, Copy)]
pub struct AllocateDmaBuffer {
    pub requested_size: usize,
    pub physical_address: u64,
    pub mapping_id: u32,
}

/// One memory mapping that the driver offers: its kind, its offset in the
/// device file and its size.
#[derive(Debug, Default, Clone, Copy, PartialEq, Eq, Structural)]
pub struct PciBarMapping {
    pub mapping_id: u32,
    pub base_address: u64,
    pub mapping_size: u64,
}

/// The driver's answer to a mapping query.
#[derive(Debug, Default)]
pub struct QueryMappings {
    pub mappings: [PciBarMapping; 6],
    pub mapping_count: u32,
}

/// Mapping id of BAR0 uncached.
pub const RESOURCE0_UC: u32 = 1;
/// Mapping id of BAR0 write-combined.
pub const RESOURCE0_WC: u32 = 2;
/// Mapping id of BAR1 uncached.
pub const RESOURCE1_UC: u32 = 3;
/// Mapping id of BAR2 uncached.
pub const RESOURCE2_UC: u32 = 5;
/// Start of the system register window inside BAR2 on Wormhole (496 MiB).
pub const WH_SYSTEM_REG_START_OFFSET: usize = 520_093_696usize;
/// Offset that turns a system register address into a window offset on
/// Wormhole (480 MiB).
pub const WH_SYSTEM_REG_OFFSET_ADJUST: usize = 503_316_480usize;

/// The last of the first `n` mappings with the given id; later entries of
/// the driver's answer replace earlier ones.
pub open spec fn last_with_id(s: Seq<PciBarMapping>, n: int, id: u32) -> Option<PciBarMapping>
    decreases n,
{
    if n <= 0 {
        None
    } else if s[n - 1].mapping_id == id {
        Some(s[n - 1])
    } else {
        last_with_id(s, n - 1, id)
    }
}

/// Size of the write-combined part of BAR0 for an architecture.
pub open spec fn wc_mapping_size_spec(arch: Arch) -> u64 {
    if arch == Arch::Blackhole {
        394_264_576u64
    } else {
        486_539_264u64
    }
}

/// A window of the device file to map: offset and length.
#[derive(Debug, Clone, Copy, PartialEq, Eq, Structural)]
pub struct MapWindow {
    pub offset: u64,
    pub len: u64,
}

/// How the BARs of a device are to be mapped.
#[derive(Debug, Clone, Copy, PartialEq, Eq, Structural)]
pub struct BarPlan {
    /// The uncached BAR0 mapping; its size is the size of BAR0.
    pub bar0_uc: PciBarMapping,
    /// The write-combined BAR0 window to try first: offset and length.
    pub bar0_wc: Option<MapWindow>,
    /// Size of the write-combined part of BAR0 for this architecture.
    pub wc_mapping_size: u64,
    /// BAR1 uncached, mapped on Blackhole only.
    pub bar1_uc: Option<PciBarMapping>,
    /// BAR2 uncached, which holds the system registers on Wormhole only.
    pub system_reg: Option<PciBarMapping>,
}

/// Why the BARs cannot be mapped.
#[derive(Debug, Clone, Copy, PartialEq, Eq, Structural)]
pub enum BarPlanError {
    /// The driver offers no uncached BAR0 mapping.
    NoBar0Uc,
}

/// The plan of `bar_plan` over the first `count` mappings of the driver's
/// answer.
pub open spec fn bar_plan_spec(s: Seq<PciBarMapping>, count: int, arch: Arch) -> Result<
    BarPlan,
    BarPlanError,
> {
    let wc = wc_mapping_size_spec(arch);
    match last_with_id(s, count, 1) {
        None => Err(BarPlanError::NoBar0Uc),
        Some(uc) => Ok(
            BarPlan {
                bar0_uc: uc,
                bar0_wc: match last_with_id(s, count, 2) {
                    Some(m) => Some(
                        MapWindow {
                            offset: m.base_address,
                            len: if m.mapping_size < wc {
                                m.mapping_size
                            } else {
                                wc
                            },
                        },
                    ),
                    None => None,
                },
                wc_mapping_size: wc,
                bar1_uc: if arch == Arch::Blackhole {
                    last_with_id(s, count, 3)
                } else {
                    None
                },
                system_reg: if arch == Arch::Wormhole {
                    last_with_id(s, count, 5)
                } else {
                    None
                },
            },
        ),
    }
}

fn find_last_mapping(mappings: &[PciBarMapping], count: usize, id: u32) -> (r: Option<PciBarMapping>)
    requires
        count <= mappings@.len(),
    ensures
        r == last_with_id(mappings@, count as int, id),
{
    let mut found: Option<PciBarMapping> = None;
    let mut i: usize = 0;
    while i < count
        invariant
            i <= count,
            count <= mappings@.len(),
            found == last_with_id(mappings@, i as int, id),
        decreases count - i,
    {
        if mappings[i].mapping_id == id {
            found = Some(mappings[i]);
        }
        i = i + 1;
    }
    found
}

/// Decides how to map the BARs from the first `count` mappings that the
/// driver reported: the last mapping of each kind counts, an uncached BAR0
/// is needed, the write-combined window is capped at the architecture's
/// size, BAR1 is used on Blackhole and BAR2 (system registers) on Wormhole.
pub fn bar_plan(mappings: &[PciBarMapping], count: usize, arch: Arch) -> (r: Result<
    BarPlan,
    BarPlanError,
>)
    requires
        count <= mappings@.len(),
    ensures
        r == bar_plan_spec(mappings@, count as int, arch),
{
    let wc: u64 = if arch.is_blackhole() {
        394_264_576u64
    } else {
        486_539_264u64
    };
    let uc = match find_last_mapping(mappings, count, RESOURCE0_UC) {
        Some(m) => m,
        None => {
            return Err(BarPlanError::NoBar0Uc);
        },
    };
    let bar0_wc = match find_last_mapping(mappings, count, RESOURCE0_WC) {
        Some(m) => Some(
            MapWindow {
                offset: m.base_address,
                len: if m.mapping_size < wc {
                    m.mapping_size
                } else {
                    wc
                },
            },
        ),
        None => None,
    };
    let bar1_uc = if arch.is_blackhole() {
        find_last_mapping(mappings, count, RESOURCE1_UC)
    } else {
        None
    };
    let system_reg = if arch.is_wormhole() {
        find_last_mapping(mappings, count, RESOURCE2_UC)
    } else {
        None
    };
    Ok(BarPlan { bar0_uc: uc, bar0_wc, wc_mapping_size: wc, bar1_uc, system_reg })
}

impl BarPlan {
    /// Offset in the device file and length of the uncached BAR0 window:
    /// when the write-combined window was mapped, the uncached one starts
    /// after it and is shorter by its size (never below zero); otherwise it
    /// covers all of BAR0.
    pub fn bar0_uc_window(&self, wc_mapped: bool) -> (r: (u64, u64))
        requires
            wc_mapped ==> self.bar0_uc.base_address + self.wc_mapping_size <= u64::MAX,
        ensures
            wc_mapped ==> r == (
                (self.bar0_uc.base_address + self.wc_mapping_size) as u64,
                if self.bar0_uc.mapping_size >= self.wc_mapping_size {
                    (self.bar0_uc.mapping_size - self.wc_mapping_size) as u64
                } else {
                    0u64
                },
            ),
            !wc_mapped ==> r == (self.bar0_uc.base_address, self.bar0_uc.mapping_size),
    {
        if wc_mapped {
            (
                self.bar0_uc.base_address + self.wc_mapping_size,
                self.bar0_uc.mapping_size.saturating_sub(self.wc_mapping_size),
            )
        } else {
            (self.bar0_uc.base_address, self.bar0_uc.mapping_size)
        }
    }
}

/// Bus, slot and function packed in a driver's `bus_dev_fn` word.
pub open spec fn bdf_parts(bdf: u16) -> (u16, u16, u16) {
    ((bdf >> 8u16) & 0xffu16, (bdf >> 3u16) & 0x1fu16, bdf & 7u16)
}

/// Unpacks bus (bits 8..16), slot (bits 3..8) and function (bits 0..3).
pub fn decode_bus_dev_fn(bdf: u16) -> (r: (u16, u16, u16))
    ensures
        r == bdf_parts(bdf),
        r.0 < 256,
        r.1 < 32,
        r.2 < 8,
{
    let bus = (bdf >> 8) & 0xff;
    let slot = (bdf >> 3) & 0x1f;
    let function = bdf & 7;
    assert(((bdf >> 8u16) & 0xffu16) < 256 && ((bdf >> 3u16) & 0x1fu16) < 32 && (bdf & 7u16) < 8)
        by (bit_vector);
    (bus, slot, function)
}

/// The write-combined window of a plan never exceeds the write-combined
/// size of the architecture, and the uncached BAR0 mapping is a mapping of
/// that kind from the driver's answer.
pub proof fn law_bar_plan_windows(s: Seq<PciBarMapping>, count: int, arch: Arch)
    requires
        0 <= count <= s.len(),
    ensures
        bar_plan_spec(s, count, arch) matches Ok(p) ==> {
            &&& p.bar0_uc.mapping_id == RESOURCE0_UC
            &&& p.wc_mapping_size == wc_mapping_size_spec(arch)
            &&& (p.bar0_wc matches Some(w) ==> w.len <= p.wc_mapping_size)
        },
{
    if last_with_id(s, count, 1) is Some {
        lemma_last_with_id(s, count, 1);
    }
}

/// The mapping that `last_with_id` finds has the id looked for.
pub proof fn lemma_last_with_id(s: Seq<PciBarMapping>, n: int, id: u32)
    requires
        last_with_id(s, n, id) is Some,
    ensures
        last_with_id(s, n, id).unwrap().mapping_id == id,
    decreases n,
{
    if n > 0 && s[n - 1].mapping_id != id {
        lemma_last_with_id(s, n - 1, id);
    }
}

} // verus!
