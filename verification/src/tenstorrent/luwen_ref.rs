//! The chip access layer: register names, the layout of the telemetry block
//! in CSM, how partial AXI writes are merged, the NOC windows of multicast
//! and broadcast writes, and when a telemetry read is retried.
use vstd::prelude::*;
use crate::number::parse_unsigned;
use crate::tenstorrent::arc_protocol::le_word;
use crate::tenstorrent::arch::Arch;
use crate::tenstorrent::chip::{Telemetry, zero_telemetry};
use crate::tenstorrent::error::PlatformError;
use crate::tenstorrent::kmdif::{AxiData, AxiParseError};
use crate::tenstorrent::tlb::{Tlb, default_tlb};
use crate::number::{parse_hex_u32_span, parse_u32_span};
use crate::text::{chars_of, str_eq};

verus! {

/// An error of the chip access layer.
#[derive(Debug)]
pub enum LuwenError {
    /// The PCI device failed; the message says how.
    Pci(String),
    /// The platform layer failed.
    Platform(PlatformError),
}

/// The address of a register that the access layer knows by name.
pub open spec fn luwen_register_addr(name: Seq<char>) -> Option<u32> {
    if name == "ARC_RESET.SCRATCH[0]"@ {
        Some(0x1ff30060)
    } else if name == "ARC_RESET.SCRATCH[1]"@ {
        Some(0x1ff30064)
    } else if name == "ARC_RESET.SCRATCH[2]"@ {
        Some(0x1ff30068)
    } else if name == "ARC_RESET.SCRATCH[3]"@ {
        Some(0x1ff3006c)
    } else if name == "ARC_RESET.SCRATCH[4]"@ {
        Some(0x1ff30070)
    } else if name == "ARC_RESET.SCRATCH[5]"@ {
        Some(0x1ff30074)
    } else if name == "ARC_RESET.POST_CODE"@ {
        Some(0x1ff3007c)
    } else if name == "ARC_RESET.ARC_MISC_CNTL"@ {
        Some(0x1ff30100)
    } else if name == "ARC_CSM.ARC_PCIE_DMA_REQUEST"@ {
        Some(0x1fef83b0)
    } else if name == "ARC_CSM.ARC_PCIE_DMA_REQUEST.trigger"@ {
        Some(0x1fef83b0)
    } else if name == "arc_ss.reset_unit.SCRATCH_0"@ {
        Some(0xffff0060)
    } else if name == "arc_ss.reset_unit.SCRATCH_RAM[0]"@ {
        Some(0xffff0060)
    } else if name == "arc_ss.reset_unit.SCRATCH_RAM[10]"@ {
        Some(0xffff0088)
    } else if name == "arc_ss.reset_unit.SCRATCH_RAM[11]"@ {
        Some(0xffff008c)
    } else if name == "arc_ss.reset_unit.SCRATCH_RAM[12]"@ {
        Some(0xffff0090)
    } else if name == "arc_ss.reset_unit.SCRATCH_RAM[13]"@ {
        Some(0xffff0094)
    } else if name == "arc_ss.reset_unit.ARC_MISC_CNTL"@ {
        Some(0xffff0100)
    } else if name == "ARC_CSM.DATA[0]"@ {
        Some(0x1fef8000)
    } else {
        None
    }
}

fn register_lookup(name: &str) -> (r: Option<u32>)
    ensures
        r == luwen_register_addr(name@),
{
    if str_eq(name, "ARC_RESET.SCRATCH[0]") {
        Some(0x1ff30060)
    } else if str_eq(name, "ARC_RESET.SCRATCH[1]") {
        Some(0x1ff30064)
    } else if str_eq(name, "ARC_RESET.SCRATCH[2]") {
        Some(0x1ff30068)
    } else if str_eq(name, "ARC_RESET.SCRATCH[3]") {
        Some(0x1ff3006c)
    } else if str_eq(name, "ARC_RESET.SCRATCH[4]") {
        Some(0x1ff30070)
    } else if str_eq(name, "ARC_RESET.SCRATCH[5]") {
        Some(0x1ff30074)
    } else if str_eq(name, "ARC_RESET.POST_CODE") {
        Some(0x1ff3007c)
    } else if str_eq(name, "ARC_RESET.ARC_MISC_CNTL") {
        Some(0x1ff30100)
    } else if str_eq(name, "ARC_CSM.ARC_PCIE_DMA_REQUEST") {
        Some(0x1fef83b0)
    } else if str_eq(name, "ARC_CSM.ARC_PCIE_DMA_REQUEST.trigger") {
        Some(0x1fef83b0)
    } else if str_eq(name, "arc_ss.reset_unit.SCRATCH_0") {
        Some(0xffff0060)
    } else if str_eq(name, "arc_ss.reset_unit.SCRATCH_RAM[0]") {
        Some(0xffff0060)
    } else if str_eq(name, "arc_ss.reset_unit.SCRATCH_RAM[10]") {
        Some(0xffff0088)
    } else if str_eq(name, "arc_ss.reset_unit.SCRATCH_RAM[11]") {
        Some(0xffff008c)
    } else if str_eq(name, "arc_ss.reset_unit.SCRATCH_RAM[12]") {
        Some(0xffff0090)
    } else if str_eq(name, "arc_ss.reset_unit.SCRATCH_RAM[13]") {
        Some(0xffff0094)
    } else if str_eq(name, "arc_ss.reset_unit.ARC_MISC_CNTL") {
        Some(0xffff0100)
    } else if str_eq(name, "ARC_CSM.DATA[0]") {
        Some(0x1fef8000)
    } else {
        None
    }
}

/// The address that an address string names: a known register name, else
/// `0x` followed by a hexadecimal `u32`, else a decimal `u32` (each with an
/// optional `+`, as `from_str_radix` takes it).
pub open spec fn luwen_addr_spec(s: Seq<char>) -> Option<u32> {
    match luwen_register_addr(s) {
        Some(a) => Some(a),
        None => {
            let parsed = if s.len() >= 2 && s[0] == '0' && s[1] == 'x' {
                parse_unsigned(s.subrange(2, s.len() as int), 16, u32::MAX as nat)
            } else {
                parse_unsigned(s, 10, u32::MAX as nat)
            };
            match parsed {
                Some(v) => Some(v as u32),
                None => None,
            }
        },
    }
}

/// Translates a register name or numeric address string to an AXI address;
/// the access size is left zero.
pub fn axi_translate(addr_str: &str) -> (r: Result<AxiData, AxiParseError>)
    ensures
        match r {
            Ok(d) => luwen_addr_spec(addr_str@) == Some(d.addr) && d.size_bytes == 0,
            Err(_) => luwen_addr_spec(addr_str@) is None,
        },
{
    if let Some(a) = register_lookup(addr_str) {
        return Ok(AxiData { addr: a, size_bytes: 0 });
    }
    let v = chars_of(addr_str);
    let n = v.len();
    let parsed = if n >= 2 && v[0] == '0' && v[1] == 'x' {
        parse_hex_u32_span(&v, 2, n)
    } else {
        assert(v@.subrange(0, n as int) =~= v@);
        parse_u32_span(&v, 0, n)
    };
    match parsed {
        Some(a) => Ok(AxiData { addr: a, size_bytes: 0 }),
        None => Err(AxiParseError),
    }
}

/// Number of 32-bit words of the telemetry block that are read.
pub const TELEMETRY_WORDS: usize = 39;

/// The telemetry block read as consecutive 32-bit words: word `i` at byte
/// offset `4 * i`. The heartbeat is the ARC0 health counter; fields the
/// block does not hold keep their defaults.
pub open spec fn telemetry_of_words(arch: Arch, w: Seq<u32>) -> Telemetry {
    Telemetry {
        arch,
        board_id: (w[4] as int * 0x1_0000_0000 + w[5] as int) as u64,
        enum_version: w[0],
        device_id: w[1],
        asic_ro: w[2],
        asic_idd: w[3],
        board_id_high: w[4],
        board_id_low: w[5],
        arc0_fw_version: w[6],
        arc1_fw_version: w[7],
        arc2_fw_version: w[8],
        arc3_fw_version: w[9],
        spibootrom_fw_version: w[10],
        eth_fw_version: w[11],
        m3_bl_fw_version: w[12],
        m3_app_fw_version: w[13],
        ddr_status: w[14],
        eth_status0: w[15],
        eth_status1: w[16],
        pcie_status: w[17],
        faults: w[18],
        arc0_health: w[19],
        arc1_health: w[20],
        arc2_health: w[21],
        arc3_health: w[22],
        fan_speed: w[23],
        aiclk: w[24],
        axiclk: w[25],
        arcclk: w[26],
        throttler: w[27],
        vcore: w[28],
        asic_temperature: w[29],
        vreg_temperature: w[30],
        board_temperature: w[31],
        tdp: w[32],
        tdc: w[33],
        vdd_limits: w[34],
        thm_limits: w[35],
        wh_fw_date: w[36],
        asic_tmon0: w[37],
        asic_tmon1: w[38],
        timer_heartbeat: w[19],
        ..zero_telemetry()
    }
}

/// The byte addresses of the telemetry words of a block at `offset`.
pub fn telemetry_word_addresses(offset: u32) -> (r: Vec<u32>)
    requires
        offset as int + 4 * (TELEMETRY_WORDS as int - 1) <= u32::MAX,
    ensures
        r@.len() == TELEMETRY_WORDS,
        forall|i: int| 0 <= i < TELEMETRY_WORDS ==> #[trigger] r@[i] == offset as int + 4 * i,
{
    let mut r: Vec<u32> = Vec::new();
    let mut i: u32 = 0;
    while i < 39
        invariant
            i <= 39,
            offset as int + 4 * 38 <= u32::MAX,
            r@.len() == i,
            forall|k: int| 0 <= k < i ==> #[trigger] r@[k] == offset as int + 4 * k,
        decreases 39 - i,
    {
        r.push(offset + 4 * i);
        i = i + 1;
    }
    r
}

/// Builds the telemetry of a chip from the words of its telemetry block.
pub fn telemetry_from_words(arch: Arch, w: &[u32]) -> (t: Telemetry)
    requires
        w@.len() >= TELEMETRY_WORDS,
    ensures
        t == telemetry_of_words(arch, w@),
{
    let high = w[4];
    let low = w[5];
    let board_id: u64 = ((high as u64) << 32) | (low as u64);
    assert(((high as u64) << 32u64) | (low as u64) == (high as int * 0x1_0000_0000 + low as int) as u64)
        by (bit_vector);
    Telemetry {
        arch,
        board_id,
        enum_version: w[0],
        device_id: w[1],
        asic_ro: w[2],
        asic_idd: w[3],
        board_id_high: high,
        board_id_low: low,
        arc0_fw_version: w[6],
        arc1_fw_version: w[7],
        arc2_fw_version: w[8],
        arc3_fw_version: w[9],
        spibootrom_fw_version: w[10],
        eth_fw_version: w[11],
        m3_bl_fw_version: w[12],
        m3_app_fw_version: w[13],
        ddr_status: w[14],
        eth_status0: w[15],
        eth_status1: w[16],
        pcie_status: w[17],
        faults: w[18],
        arc0_health: w[19],
        arc1_health: w[20],
        arc2_health: w[21],
        arc3_health: w[22],
        fan_speed: w[23],
        aiclk: w[24],
        axiclk: w[25],
        arcclk: w[26],
        throttler: w[27],
        vcore: w[28],
        asic_temperature: w[29],
        vreg_temperature: w[30],
        board_temperature: w[31],
        tdp: w[32],
        tdc: w[33],
        vdd_limits: w[34],
        thm_limits: w[35],
        wh_fw_date: w[36],
        asic_tmon0: w[37],
        asic_tmon1: w[38],
        timer_heartbeat: w[19],
        ..Telemetry::default()
    }
}

/// The value of the first telemetry word while the firmware has not yet
/// filled the block.
pub const TELEMETRY_NOT_READY: u32 = 0x66666666;

/// Where the telemetry block lies in the AXI space: the firmware reports its
/// address in the ARC's own map, whose CSM starts at `0x10000000`.
pub fn telemetry_struct_offset(csm_base: u32, telemetry_addr: u32) -> (r: u32)
    requires
        telemetry_addr >= 0x1000_0000,
        csm_base as int + (telemetry_addr - 0x1000_0000) <= u32::MAX,
    ensures
        r == csm_base as int + (telemetry_addr - 0x1000_0000),
{
    csm_base + (telemetry_addr - 0x1000_0000)
}

/// Which offset the telemetry is read from: when the translated block
/// starts with zero and the raw address holds the not-ready marker, the raw
/// address; else the translated offset.
pub fn telemetry_read_base(
    struct_offset: u32,
    telemetry_addr: u32,
    first_word: u32,
    raw_first_word: Option<u32>,
) -> (r: u32)
    ensures
        r == if first_word == 0 && raw_first_word == Some(TELEMETRY_NOT_READY) {
            telemetry_addr
        } else {
            struct_offset
        },
{
    if first_word == 0 {
        if let Some(raw) = raw_first_word {
            if raw == TELEMETRY_NOT_READY {
                return telemetry_addr;
            }
        }
    }
    struct_offset
}

/// The firmware has filled the telemetry block.
pub open spec fn telemetry_ready(t: Telemetry) -> bool {
    t.enum_version != TELEMETRY_NOT_READY
}

/// Number of delayed retries of a telemetry read that is not ready.
pub const TELEMETRY_MAX_RETRIES: u32 = 10;

/// What to do after a telemetry read.
#[derive(Debug, Clone, Copy, PartialEq, Eq, Structural)]
pub enum TelemetryRetry {
    /// Return the telemetry that was read.
    Accept,
    /// Wait and read again.
    RetryAfterDelay,
    /// Read once more and return that result as it is.
    FinalAttempt,
}

/// Decides after read number `attempt` (0 for the first, undelayed read)
/// whose outcome was `ready` (a read that failed is not ready): ready
/// telemetry is accepted; otherwise the read is retried after a delay up to
/// the retry limit, and then read a last time.
pub fn telemetry_retry_step(attempt: u32, ready: bool) -> (r: TelemetryRetry)
    ensures
        ready ==> r == TelemetryRetry::Accept,
        !ready && attempt < TELEMETRY_MAX_RETRIES ==> r == TelemetryRetry::RetryAfterDelay,
        !ready && attempt >= TELEMETRY_MAX_RETRIES ==> r == TelemetryRetry::FinalAttempt,
{
    if ready {
        TelemetryRetry::Accept
    } else if attempt < TELEMETRY_MAX_RETRIES {
        TelemetryRetry::RetryAfterDelay
    } else {
        TelemetryRetry::FinalAttempt
    }
}

/// Whether telemetry is ready, as the retry loop tests it.
pub fn is_telemetry_ready(t: &Telemetry) -> (r: bool)
    ensures
        r == telemetry_ready(*t),
{
    t.enum_version != TELEMETRY_NOT_READY
}

/// Byte `i` (0 least significant) of a little-endian word.
pub open spec fn word_byte(x: u32, i: int) -> u8 {
    ((x as int / pow256(i)) % 0x100) as u8
}

/// 256 to the power `i`, for `i` in 0..4.
pub open spec fn pow256(i: int) -> int {
    if i == 0 {
        1
    } else if i == 1 {
        0x100
    } else if i == 2 {
        0x1_0000
    } else {
        0x100_0000
    }
}

/// The byte that ends up at position `i` of a write of `len` bytes over
/// the word `old`.
pub open spec fn merged_byte(old: u32, data: Seq<u8>, len: int, i: int) -> u8 {
    if i < len {
        data[i]
    } else {
        word_byte(old, i)
    }
}

fn byte_at(x: u32, i: u32) -> (r: u8)
    requires
        i < 4,
    ensures
        r == word_byte(x, i as int),
{
    let s = 8 * i;
    let b = ((x >> s) & 0xff) as u8;
    if i == 0 {
        assert((x >> 0u32) & 0xffu32 == x % 0x100) by (bit_vector);
    } else if i == 1 {
        assert((x >> 8u32) & 0xffu32 == (x / 0x100) % 0x100) by (bit_vector);
    } else if i == 2 {
        assert((x >> 16u32) & 0xffu32 == (x / 0x1_0000) % 0x100) by (bit_vector);
    } else {
        assert((x >> 24u32) & 0xffu32 == (x / 0x100_0000) % 0x100) by (bit_vector);
    }
    b
}

/// The word written by an AXI write of `len` bytes (at most one word) over a
/// register that holds `old`: the low `len` bytes come from `data`, the
/// others are kept, little-endian.
pub fn merge_partial_write(old: u32, data: &[u8], len: usize) -> (r: u32)
    requires
        1 <= len <= 4,
        data@.len() >= len,
    ensures
        r == le_word(
            merged_byte(old, data@, len as int, 0),
            merged_byte(old, data@, len as int, 1),
            merged_byte(old, data@, len as int, 2),
            merged_byte(old, data@, len as int, 3),
        ),
{
    let b0 = if 0 < len { data[0] } else { byte_at(old, 0) };
    let b1 = if 1 < len { data[1] } else { byte_at(old, 1) };
    let b2 = if 2 < len { data[2] } else { byte_at(old, 2) };
    let b3 = if 3 < len { data[3] } else { byte_at(old, 3) };
    (b0 as u32) + (b1 as u32) * 0x100 + (b2 as u32) * 0x1_0000 + (b3 as u32) * 0x100_0000
}

/// A word is the little-endian composition of its bytes.
pub proof fn lemma_word_bytes(x: u32)
    ensures
        le_word(word_byte(x, 0), word_byte(x, 1), word_byte(x, 2), word_byte(x, 3)) == x,
{
    let b0 = x as int % 0x100;
    let q1 = x as int / 0x100;
    let b1 = q1 % 0x100;
    let q2 = x as int / 0x1_0000;
    let b2 = q2 % 0x100;
    let b3 = x as int / 0x100_0000;
    assert(q2 == q1 / 0x100);
    assert(x as int / 0x100_0000 == q2 / 0x100);
    assert(b3 < 0x100);
    assert(word_byte(x, 3) == b3 % 0x100);
    assert(x as int == b0 + b1 * 0x100 + b2 * 0x1_0000 + b3 * 0x100_0000);
}

/// Writing a register's own low bytes back leaves it unchanged, and a
/// full-word write does not depend on what the register held.
pub proof fn law_partial_write(old: u32, other: u32, data: Seq<u8>, len: int)
    requires
        1 <= len <= 4,
        data.len() >= len,
    ensures
        (forall|i: int| 0 <= i < len ==> data[i] == word_byte(old, i)) ==> le_word(
            merged_byte(old, data, len, 0),
            merged_byte(old, data, len, 1),
            merged_byte(old, data, len, 2),
            merged_byte(old, data, len, 3),
        ) == old,
        len == 4 ==> le_word(
            merged_byte(old, data, len, 0),
            merged_byte(old, data, len, 1),
            merged_byte(old, data, len, 2),
            merged_byte(old, data, len, 3),
        ) == le_word(
            merged_byte(other, data, len, 0),
            merged_byte(other, data, len, 1),
            merged_byte(other, data, len, 2),
            merged_byte(other, data, len, 3),
        ),
{
    lemma_word_bytes(old);
}

/// The board id of telemetry read from words is its serial number.
pub proof fn law_board_id_is_serial(arch: Arch, w: Seq<u32>)
    requires
        w.len() >= TELEMETRY_WORDS,
    ensures
        telemetry_of_words(arch, w).board_id == telemetry_of_words(arch, w).serial(),
{
    let hi = w[4];
    let lo = w[5];
    assert(((hi as u64) << 32u64) | (lo as u64) == (hi as int * 0x1_0000_0000 + lo as int) as u64)
        by (bit_vector);
}

/// The first core of the NOC grid that multicasts may reach: Grayskull
/// (0, 0), Wormhole (1, 0), Blackhole (0, 1).
pub open spec fn noc_origin(arch: Arch) -> (u8, u8) {
    match arch {
        Arch::Grayskull => (0u8, 0u8),
        Arch::Wormhole => (1u8, 0u8),
        Arch::Blackhole => (0u8, 1u8),
    }
}

/// The first core of the NOC grid that multicasts may reach.
pub fn noc_grid_origin(arch: Arch) -> (r: (u8, u8))
    ensures
        r == noc_origin(arch),
{
    match arch {
        Arch::Grayskull => (0, 0),
        Arch::Wormhole => (1, 0),
        Arch::Blackhole => (0, 1),
    }
}

/// The window of a broadcast write: from the grid origin to the last core
/// of a grid of the given size.
pub fn noc_broadcast_tlb(arch: Arch, grid_size_x: u8, grid_size_y: u8, addr: u64) -> (r: Tlb)
    requires
        grid_size_x >= 1,
        grid_size_y >= 1,
    ensures
        r == (Tlb {
            x_start: noc_origin(arch).0,
            y_start: noc_origin(arch).1,
            x_end: (grid_size_x - 1) as u8,
            y_end: (grid_size_y - 1) as u8,
            local_offset: addr,
            mcast: true,
            ..default_tlb()
        }),
{
    let (x0, y0) = noc_grid_origin(arch);
    Tlb::broadcast(x0, y0, grid_size_x - 1, grid_size_y - 1, addr)
}

/// The window of a multicast write: the requested start is raised to the
/// grid origin where it lies before it.
pub fn noc_multicast_tlb(
    arch: Arch,
    start_x: u8,
    start_y: u8,
    end_x: u8,
    end_y: u8,
    addr: u64,
) -> (r: Tlb)
    ensures
        r == (Tlb {
            x_start: if start_x >= noc_origin(arch).0 {
                start_x
            } else {
                noc_origin(arch).0
            },
            y_start: if start_y >= noc_origin(arch).1 {
                start_y
            } else {
                noc_origin(arch).1
            },
            x_end: end_x,
            y_end: end_y,
            local_offset: addr,
            mcast: true,
            ..default_tlb()
        }),
{
    let (x0, y0) = noc_grid_origin(arch);
    let sx = if start_x >= x0 {
        start_x
    } else {
        x0
    };
    let sy = if start_y >= y0 {
        start_y
    } else {
        y0
    };
    Tlb::multicast(sx, sy, end_x, end_y, addr)
}

/// A chip reached through the access layer; the layer itself (the reads
/// and writes of the device) is the caller's.
#[derive(Debug, Clone, Copy, PartialEq, Eq, Structural)]
pub struct LuwenChip {
    pub arch: Arch,
}

impl LuwenChip {
    /// A chip of the given architecture.
    pub fn new(arch: Arch) -> (r: Result<LuwenChip, PlatformError>)
        ensures
            r matches Ok(c) && c.arch == arch,
    {
        Ok(LuwenChip { arch })
    }

    /// The architecture of the chip.
    pub fn get_arch(&self) -> (r: Arch)
        ensures
            r == self.arch,
    {
        self.arch
    }

    /// The scratch register read to see whether the ARC firmware answers.
    pub fn init_scratch_register(&self) -> (r: &'static str)
        ensures
            self.arch == Arch::Blackhole ==> r@ == "arc_ss.reset_unit.SCRATCH_0"@,
            self.arch != Arch::Blackhole ==> r@ == "ARC_RESET.SCRATCH[0]"@,
    {
        if self.arch.is_blackhole() {
            "arc_ss.reset_unit.SCRATCH_0"
        } else {
            "ARC_RESET.SCRATCH[0]"
        }
    }

    /// Whether initialization checks DDR training: on Wormhole and Blackhole.
    pub fn init_checks_ddr(&self) -> (r: bool)
        ensures
            r == (self.arch == Arch::Wormhole || self.arch == Arch::Blackhole),
    {
        self.arch.is_wormhole() || self.arch.is_blackhole()
    }

    /// Whether telemetry is read through the ARC message that reports its
    /// address: on Wormhole and Grayskull; other chips have no telemetry
    /// path here.
    pub fn telemetry_via_arc_message(&self) -> (r: bool)
        ensures
            r == (self.arch == Arch::Wormhole || self.arch == Arch::Grayskull),
    {
        self.arch.is_wormhole() || self.arch.is_grayskull()
    }

    /// The telemetry of a chip whose telemetry address could not be had:
    /// every field at its default but the architecture.
    pub fn placeholder_telemetry(&self) -> (t: Telemetry)
        ensures
            t == (Telemetry { arch: self.arch, ..zero_telemetry() }),
    {
        Telemetry { arch: self.arch, ..Telemetry::default() }
    }
}

} // verus!
