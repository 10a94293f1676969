//! Register access through the BAR mappings of a device: which mapping a
//! register address falls in, 32-bit accesses that straddle two aligned
//! words, and the check of a read that came back as all ones.
use vstd::prelude::*;

verus! {

/// The value a dead PCIe link reads as.
pub const ERROR_VALUE: u32 = 0xffff_ffff;

/// Shift of the part of the word at byte offset `off` (1..4) that lies in
/// the first aligned word.
pub open spec fn byte_shift(off: u32) -> u32 {
    (off * 8) as u32
}

/// The low `bits` bits set, for `bits` below 32.
pub open spec fn low_mask(bits: u32) -> u32 {
    ((1u32 << bits) - 1) as u32
}

/// The word read at byte offset `off` (1..4) past the aligned word `a`,
/// whose last bytes come from the next aligned word `b`.
pub open spec fn spanning_read(a: u32, b: u32, off: u32) -> u32 {
    let shift = byte_shift(off);
    let inverse_shift = (32 - shift) as u32;
    let inverse_mask = low_mask(inverse_shift);
    ((a >> shift) & inverse_mask) | ((b << inverse_shift) & !inverse_mask)
}

/// The two aligned words after writing `data` at byte offset `off` (1..4)
/// over `a` and `b`.
pub open spec fn spanning_write(a: u32, b: u32, off: u32, data: u32) -> (u32, u32) {
    let shift = byte_shift(off);
    let inverse_shift = (32 - shift) as u32;
    let inverse_mask = low_mask(inverse_shift);
    let mask = low_mask(shift);
    (
        (a & mask) | ((data & inverse_mask) << shift),
        (b & !mask) | ((data & !inverse_mask) >> inverse_shift),
    )
}

/// Reads the 32-bit word at byte offset `byte_offset` (1..4) past the
/// aligned word `a`, taking its last bytes from the next aligned word `b`.
pub fn unaligned_read32(a: u32, b: u32, byte_offset: usize) -> (r: u32)
    requires
        1 <= byte_offset <= 3,
    ensures
        r == spanning_read(a, b, byte_offset as u32),
{
    let shift: u32 = (byte_offset * 8) as u32;
    let inverse_shift: u32 = 32 - shift;
    assert(1u32 << inverse_shift >= 1) by (bit_vector)
        requires
            8 <= inverse_shift <= 24,
    ;
    let inverse_mask: u32 = (1u32 << inverse_shift) - 1;
    ((a >> shift) & inverse_mask) | ((b << inverse_shift) & !inverse_mask)
}

/// The two aligned words that hold `data` written at byte offset
/// `byte_offset` (1..4) past `a`: the bytes before the offset in `a` and
/// those after the written word in `b` are kept.
pub fn unaligned_write32(a: u32, b: u32, byte_offset: usize, data: u32) -> (r: (u32, u32))
    requires
        1 <= byte_offset <= 3,
    ensures
        r == spanning_write(a, b, byte_offset as u32, data),
{
    let shift: u32 = (byte_offset * 8) as u32;
    let inverse_shift: u32 = 32 - shift;
    assert(1u32 << inverse_shift >= 1 && 1u32 << shift >= 1) by (bit_vector)
        requires
            8 <= inverse_shift <= 24,
            8 <= shift <= 24,
    ;
    let inverse_mask: u32 = (1u32 << inverse_shift) - 1;
    let mask: u32 = (1u32 << shift) - 1;
    let a2 = (a & mask) | ((data & inverse_mask) << shift);
    let b2 = (b & !mask) | ((data & !inverse_mask) >> inverse_shift);
    (a2, b2)
}

proof fn lemma_spanning_one(a: u32, b: u32, d: u32, shift: u32)
    requires
        shift == 8 || shift == 16 || shift == 24,
    ensures
        ({
            let inv = (32 - shift) as u32;
            let im = ((1u32 << inv) - 1) as u32;
            let m = ((1u32 << shift) - 1) as u32;
            let a2 = (a & m) | ((d & im) << shift);
            let b2 = (b & !m) | ((d & !im) >> inv);
            &&& ((a2 >> shift) & im) | ((b2 << inv) & !im) == d
            &&& a2 & m == a & m
            &&& b2 & !m == b & !m
            &&& ((a & m) | (((((a >> shift) & im) | ((b << inv) & !im)) & im) << shift)) == a
            &&& ((b & !m) | (((((a >> shift) & im) | ((b << inv) & !im)) & !im) >> inv)) == b
        }),
{
    if shift == 8 {
        assert({
            let inv = 24u32;
            let im = ((1u32 << inv) - 1) as u32;
            let m = ((1u32 << 8u32) - 1) as u32;
            let a2 = (a & m) | ((d & im) << 8u32);
            let b2 = (b & !m) | ((d & !im) >> inv);
            &&& ((a2 >> 8u32) & im) | ((b2 << inv) & !im) == d
            &&& a2 & m == a & m
            &&& b2 & !m == b & !m
            &&& ((a & m) | (((((a >> 8u32) & im) | ((b << inv) & !im)) & im) << 8u32)) == a
            &&& ((b & !m) | (((((a >> 8u32) & im) | ((b << inv) & !im)) & !im) >> inv)) == b
        }) by (bit_vector);
    } else if shift == 16 {
        assert({
            let inv = 16u32;
            let im = ((1u32 << inv) - 1) as u32;
            let m = ((1u32 << 16u32) - 1) as u32;
            let a2 = (a & m) | ((d & im) << 16u32);
            let b2 = (b & !m) | ((d & !im) >> inv);
            &&& ((a2 >> 16u32) & im) | ((b2 << inv) & !im) == d
            &&& a2 & m == a & m
            &&& b2 & !m == b & !m
            &&& ((a & m) | (((((a >> 16u32) & im) | ((b << inv) & !im)) & im) << 16u32)) == a
            &&& ((b & !m) | (((((a >> 16u32) & im) | ((b << inv) & !im)) & !im) >> inv)) == b
        }) by (bit_vector);
    } else {
        assert({
            let inv = 8u32;
            let im = ((1u32 << inv) - 1) as u32;
            let m = ((1u32 << 24u32) - 1) as u32;
            let a2 = (a & m) | ((d & im) << 24u32);
            let b2 = (b & !m) | ((d & !im) >> inv);
            &&& ((a2 >> 24u32) & im) | ((b2 << inv) & !im) == d
            &&& a2 & m == a & m
            &&& b2 & !m == b & !m
            &&& ((a & m) | (((((a >> 24u32) & im) | ((b << inv) & !im)) & im) << 24u32)) == a
            &&& ((b & !m) | (((((a >> 24u32) & im) | ((b << inv) & !im)) & !im) >> inv)) == b
        }) by (bit_vector);
    }
}

/// Reading back a straddling word that was just written gives what was
/// written; the write keeps the bytes of `a` before the offset and the
/// bytes of `b` after the written word; and writing back what was read
/// changes neither word.
pub proof fn law_unaligned_write_read_back(a: u32, b: u32, off: u32, data: u32)
    requires
        1 <= off <= 3,
    ensures
        spanning_read(spanning_write(a, b, off, data).0, spanning_write(a, b, off, data).1, off)
            == data,
        spanning_write(a, b, off, data).0 & low_mask(byte_shift(off)) == a & low_mask(
            byte_shift(off),
        ),
        spanning_write(a, b, off, data).1 & !low_mask(byte_shift(off)) == b & !low_mask(
            byte_shift(off),
        ),
        spanning_write(a, b, off, spanning_read(a, b, off)) == (a, b),
{
    lemma_spanning_one(a, b, data, byte_shift(off));
}

/// Which mapping of a device a register address falls in.
#[derive(Debug, Clone, Copy, PartialEq, Eq, Structural)]
pub enum RegisterRegion {
    /// The system register mapping (BAR2 of a Wormhole).
    SystemRegisters,
    /// The write-combined part of BAR0.
    Bar0Wc,
    /// The uncached part of BAR0.
    Bar0Uc,
}

/// Where the BAR mappings of a device start and what of them is mapped.
#[derive(Debug, Clone, Copy, PartialEq, Eq, Structural)]
pub struct RegisterLayout {
    /// Whether the system registers are mapped.
    pub has_system_reg: bool,
    /// Registers at or above this address are system registers.
    pub system_reg_start_offset: u32,
    /// Address of the first register of the system register mapping.
    pub system_reg_offset_adjust: u32,
    /// Whether the write-combined part of BAR0 is mapped.
    pub has_bar0_wc: bool,
    /// Size of the write-combined part of BAR0.
    pub bar0_wc_size: u64,
    /// Offset in BAR0 at which the uncached mapping starts.
    pub bar0_uc_offset: u64,
}

/// The mapping and offset in it of register `addr`: system registers first
/// (when mapped and `addr` is at or above their start), then the
/// write-combined part of BAR0 (when mapped and `addr` is below its size),
/// else the uncached part of BAR0.
pub open spec fn register_location_spec(l: RegisterLayout, addr: u32) -> (RegisterRegion, int) {
    if l.has_system_reg && addr >= l.system_reg_start_offset {
        (RegisterRegion::SystemRegisters, addr - l.system_reg_offset_adjust)
    } else if l.has_bar0_wc && (addr as u64) < l.bar0_wc_size {
        (RegisterRegion::Bar0Wc, addr as int)
    } else {
        (RegisterRegion::Bar0Uc, addr - (l.bar0_uc_offset as u32))
    }
}

impl RegisterLayout {
    /// The mapping that register `addr` falls in and its offset there. The
    /// address must not lie below the start of the mapping it falls in.
    pub fn register_location(&self, addr: u32) -> (r: (RegisterRegion, u32))
        requires
            register_location_spec(*self, addr).1 >= 0,
        ensures
            r.0 == register_location_spec(*self, addr).0,
            r.1 == register_location_spec(*self, addr).1,
    {
        if self.has_system_reg && addr >= self.system_reg_start_offset {
            (RegisterRegion::SystemRegisters, addr - self.system_reg_offset_adjust)
        } else if self.has_bar0_wc && (addr as u64) < self.bar0_wc_size {
            (RegisterRegion::Bar0Wc, addr)
        } else {
            (RegisterRegion::Bar0Uc, addr - (self.bar0_uc_offset as u32))
        }
    }
}

/// Why a register access failed.
#[derive(Debug, Clone, Copy, PartialEq, Eq, Structural)]
pub enum PciAccessError {
    /// The BARs are not mapped.
    BarUnmapped,
    /// The scratch register also reads as all ones: the link is gone.
    BrokenConnection,
}

/// Whether a read must be checked against the scratch register: checking is
/// on and the value read (all ones when there is none) is all ones.
pub fn needs_scratch_check(read_checking_enabled: bool, data_read: Option<u32>) -> (r: bool)
    ensures
        r == (read_checking_enabled && match data_read {
            Some(d) => d == ERROR_VALUE,
            None => true,
        }),
{
    let d = match data_read {
        Some(d) => d,
        None => ERROR_VALUE,
    };
    read_checking_enabled && d == ERROR_VALUE
}

/// The verdict of the scratch register read (`None` when the BARs are not
/// mapped): a scratch value of all ones means the link is broken.
pub fn scratch_verdict(scratch: Option<u32>) -> (r: Result<(), PciAccessError>)
    ensures
        r == match scratch {
            None => Err(PciAccessError::BarUnmapped),
            Some(s) => if s == ERROR_VALUE {
                Err(PciAccessError::BrokenConnection)
            } else {
                Ok(())
            },
        },
{
    match scratch {
        None => Err(PciAccessError::BarUnmapped),
        Some(s) => if s == ERROR_VALUE {
            Err(PciAccessError::BrokenConnection)
        } else {
            Ok(())
        },
    }
}

} // verus!
