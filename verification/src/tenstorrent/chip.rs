//! The ARC telemetry block and the values derived from it: firmware
//! versions and dates, the board serial number and board type, clocks, and
//! board-specific power and memory figures.
use vstd::prelude::*;
use super::arch::Arch;
use crate::number::{push_padded, push_radix, radix_string, zero_pad};

verus! {

/// The telemetry block that the ARC firmware of a Tenstorrent chip keeps up
/// to date, one field per 32-bit word (the board id in two halves).
#[derive(Clone, Copy, Debug)]
pub struct Telemetry {
    pub arch: Arch,
    pub board_id: u64,
    pub enum_version: u32,
    pub entry_count: u32,
    pub device_id: u32,
    pub asic_id: u32,
    pub asic_ro: u32,
    pub asic_idd: u32,
    pub board_id_high: u32,
    pub board_id_low: u32,
    pub harvesting_state: u32,
    pub update_telem_speed: u32,
    pub arc0_fw_version: u32,
    pub arc1_fw_version: u32,
    pub arc2_fw_version: u32,
    pub arc3_fw_version: u32,
    pub spibootrom_fw_version: u32,
    pub eth_fw_version: u32,
    pub ddr_fw_version: u32,
    pub l2cpu_fw_version: u32,
    pub m3_bl_fw_version: u32,
    pub m3_app_fw_version: u32,
    pub ddr_speed: Option<u32>,
    pub ddr_status: u32,
    pub eth_status0: u32,
    pub eth_status1: u32,
    pub pcie_status: u32,
    pub faults: u32,
    pub arc0_health: u32,
    pub arc1_health: u32,
    pub arc2_health: u32,
    pub arc3_health: u32,
    pub fan_speed: u32,
    pub aiclk: u32,
    pub axiclk: u32,
    pub arcclk: u32,
    pub l2cpuclk0: u32,
    pub l2cpuclk1: u32,
    pub l2cpuclk2: u32,
    pub l2cpuclk3: u32,
    pub throttler: u32,
    pub vcore: u32,
    pub asic_temperature: u32,
    pub vreg_temperature: u32,
    pub board_temperature: u32,
    pub tdp: u32,
    pub tdc: u32,
    pub vdd_limits: u32,
    pub thm_limits: u32,
    pub wh_fw_date: u32,
    pub asic_tmon0: u32,
    pub asic_tmon1: u32,
    pub mvddq_power: u32,
    pub gddr_train_temp0: u32,
    pub gddr_train_temp1: u32,
    pub asic_power: Option<u32>,
    pub aux_status: Option<u32>,
    pub boot_date: u32,
    pub rt_seconds: u32,
    pub eth_debug_status0: u32,
    pub eth_debug_status1: u32,
    pub tt_flash_version: u32,
    pub fw_bundle_version: u32,
    pub timer_heartbeat: u32,
    pub noc_translation_enabled: bool,
    pub tensix_enabled_col: u32,
    pub enabled_eth: u32,
    pub enabled_gddr: u32,
    pub enabled_l2cpu: u32,
    pub enabled_pcie: u32,
    pub fan_rpm: u32,
}

/// The all-zero telemetry block of a Grayskull chip.
pub open spec fn zero_telemetry() -> Telemetry {
    Telemetry {
                arch: Arch::Grayskull,
                board_id: 0,
                enum_version: 0,
                entry_count: 0,
                device_id: 0,
                asic_id: 0,
                asic_ro: 0,
                asic_idd: 0,
                board_id_high: 0,
                board_id_low: 0,
                harvesting_state: 0,
                update_telem_speed: 0,
                arc0_fw_version: 0,
                arc1_fw_version: 0,
                arc2_fw_version: 0,
                arc3_fw_version: 0,
                spibootrom_fw_version: 0,
                eth_fw_version: 0,
                ddr_fw_version: 0,
                l2cpu_fw_version: 0,
                m3_bl_fw_version: 0,
                m3_app_fw_version: 0,
                ddr_speed: None,
                ddr_status: 0,
                eth_status0: 0,
                eth_status1: 0,
                pcie_status: 0,
                faults: 0,
                arc0_health: 0,
                arc1_health: 0,
                arc2_health: 0,
                arc3_health: 0,
                fan_speed: 0,
                aiclk: 0,
                axiclk: 0,
                arcclk: 0,
                l2cpuclk0: 0,
                l2cpuclk1: 0,
                l2cpuclk2: 0,
                l2cpuclk3: 0,
                throttler: 0,
                vcore: 0,
                asic_temperature: 0,
                vreg_temperature: 0,
                board_temperature: 0,
                tdp: 0,
                tdc: 0,
                vdd_limits: 0,
                thm_limits: 0,
                wh_fw_date: 0,
                asic_tmon0: 0,
                asic_tmon1: 0,
                mvddq_power: 0,
                gddr_train_temp0: 0,
                gddr_train_temp1: 0,
                asic_power: None,
                aux_status: None,
                boot_date: 0,
                rt_seconds: 0,
                eth_debug_status0: 0,
                eth_debug_status1: 0,
                tt_flash_version: 0,
                fw_bundle_version: 0,
                timer_heartbeat: 0,
                noc_translation_enabled: false,
                tensix_enabled_col: 0,
                enabled_eth: 0,
                enabled_gddr: 0,
                enabled_l2cpu: 0,
                enabled_pcie: 0,
                fan_rpm: 0,
            }
}

impl Default for Telemetry {
    fn default() -> (r: Self)
        ensures
            r == zero_telemetry(),
    {
        Telemetry {
            arch: Arch::Grayskull,
            board_id: 0,
            enum_version: 0,
            entry_count: 0,
            device_id: 0,
            asic_id: 0,
            asic_ro: 0,
            asic_idd: 0,
            board_id_high: 0,
            board_id_low: 0,
            harvesting_state: 0,
            update_telem_speed: 0,
            arc0_fw_version: 0,
            arc1_fw_version: 0,
            arc2_fw_version: 0,
            arc3_fw_version: 0,
            spibootrom_fw_version: 0,
            eth_fw_version: 0,
            ddr_fw_version: 0,
            l2cpu_fw_version: 0,
            m3_bl_fw_version: 0,
            m3_app_fw_version: 0,
            ddr_speed: None,
            ddr_status: 0,
            eth_status0: 0,
            eth_status1: 0,
            pcie_status: 0,
            faults: 0,
            arc0_health: 0,
            arc1_health: 0,
            arc2_health: 0,
            arc3_health: 0,
            fan_speed: 0,
            aiclk: 0,
            axiclk: 0,
            arcclk: 0,
            l2cpuclk0: 0,
            l2cpuclk1: 0,
            l2cpuclk2: 0,
            l2cpuclk3: 0,
            throttler: 0,
            vcore: 0,
            asic_temperature: 0,
            vreg_temperature: 0,
            board_temperature: 0,
            tdp: 0,
            tdc: 0,
            vdd_limits: 0,
            thm_limits: 0,
            wh_fw_date: 0,
            asic_tmon0: 0,
            asic_tmon1: 0,
            mvddq_power: 0,
            gddr_train_temp0: 0,
            gddr_train_temp1: 0,
            asic_power: None,
            aux_status: None,
            boot_date: 0,
            rt_seconds: 0,
            eth_debug_status0: 0,
            eth_debug_status1: 0,
            tt_flash_version: 0,
            fw_bundle_version: 0,
            timer_heartbeat: 0,
            noc_translation_enabled: false,
            tensix_enabled_col: 0,
            enabled_eth: 0,
            enabled_gddr: 0,
            enabled_l2cpu: 0,
            enabled_pcie: 0,
            fan_rpm: 0,
        }
    }
}


/// The day of a packed firmware date (bits 16..24) as the date shows it: a
/// field above 99, which is no day of a month, is shown as 99, so that the
/// date keeps its two-digit day.
pub open spec fn shown_day(d: u32) -> nat {
    let day = ((d >> 16u32) & 0xFFu32) as nat;
    if day > 99 {
        99
    } else {
        day
    }
}

/// A packed firmware date in the form YYYY-MM-DD: year offset from 2020 in
/// bits 28..32, month in 24..28, and the day of [`shown_day`].
pub open spec fn firmware_date_spec(d: u32) -> Seq<char> {
    zero_pad(radix_string((((d >> 28u32) & 0xFu32) + 2020) as nat, 10), 4) + seq!['-'] + zero_pad(
        radix_string(((d >> 24u32) & 0xFu32) as nat, 10),
        2,
    ) + seq!['-'] + zero_pad(radix_string(shown_day(d), 10), 2)
}

/// 10 to the power `k`.
pub open spec fn pow10(k: nat) -> nat
    decreases k,
{
    if k == 0 {
        1
    } else {
        10 * pow10((k - 1) as nat)
    }
}

/// A number below 10^k has at most `k` decimal digits.
pub proof fn lemma_dec_len(n: nat, k: nat)
    requires
        k >= 1,
        n < pow10(k),
    ensures
        radix_string(n, 10).len() <= k,
    decreases k,
{
    if n >= 10 {
        let q = n / 10;
        assert(q < pow10((k - 1) as nat)) by (nonlinear_arith)
            requires
                n < pow10(k),
                k >= 1,
                pow10(k) == 10 * pow10((k - 1) as nat),
                q == n / 10,
        ;
        if k == 1 {
            assert(pow10(1) == 10) by {
                reveal_with_fuel(pow10, 2);
            }
        } else {
            lemma_dec_len(q, (k - 1) as nat);
        }
    }
}

/// A number below 10^width, zero-padded to `width` decimal digits, is
/// exactly `width` digits long.
proof fn lemma_padded_len(n: nat, width: nat)
    requires
        width >= 1,
        n < pow10(width),
    ensures
        zero_pad(radix_string(n, 10), width).len() == width,
        crate::number::all_digits(zero_pad(radix_string(n, 10), width), 10),
{
    lemma_dec_len(n, width);
    crate::number::lemma_zero_pad(n, 10, width);
}

/// The firmware date always has the form YYYY-MM-DD: ten characters,
/// dashes at positions 4 and 7 and decimal digits elsewhere.
pub proof fn law_firmware_date_form(d: u32)
    ensures
        firmware_date_spec(d).len() == 10,
        firmware_date_spec(d)[4] == '-',
        firmware_date_spec(d)[7] == '-',
        forall|i: int|
            0 <= i < 10 && i != 4 && i != 7 ==> crate::number::is_digit(
                #[trigger] firmware_date_spec(d)[i],
            ),
{
    assert(pow10(2) == 100 && pow10(4) == 10000) by {
        reveal_with_fuel(pow10, 5);
    }
    assert((d >> 28u32) & 0xFu32 <= 15 && (d >> 24u32) & 0xFu32 <= 15) by (bit_vector);
    let y = zero_pad(radix_string((((d >> 28u32) & 0xFu32) + 2020) as nat, 10), 4);
    let m = zero_pad(radix_string(((d >> 24u32) & 0xFu32) as nat, 10), 2);
    let dd = zero_pad(radix_string(shown_day(d), 10), 2);
    lemma_padded_len((((d >> 28u32) & 0xFu32) + 2020) as nat, 4);
    lemma_padded_len(((d >> 24u32) & 0xFu32) as nat, 2);
    lemma_padded_len(shown_day(d), 2);
    let s = firmware_date_spec(d);
    assert(s =~= y + seq!['-'] + m + seq!['-'] + dd);
    assert forall|i: int| 0 <= i < 10 && i != 4 && i != 7 implies crate::number::is_digit(
        #[trigger] s[i],
    ) by {
        if i < 4 {
            assert(s[i] == y[i]);
        } else if i < 7 {
            assert(s[i] == m[i - 5]);
        } else {
            assert(s[i] == dd[i - 8]);
        }
    }
}

/// The board serial number in hexadecimal is always sixteen lower-case
/// hexadecimal digits, which `from_str_radix` with radix 16 reads back as the
/// serial number: the high board id word over the low one.
pub proof fn law_board_serial_hex(high: u32, low: u32)
    ensures
        zero_pad(radix_string(serial_spec(high, low) as nat, 16), 16).len() == 16,
        forall|i: int|
            0 <= i < 16 ==> crate::number::is_lower_hex_digit(
                #[trigger] zero_pad(radix_string(serial_spec(high, low) as nat, 16), 16)[i],
            ),
        crate::number::parse_unsigned(
            zero_pad(radix_string(serial_spec(high, low) as nat, 16), 16),
            16,
            u64::MAX as nat,
        ) == Some(serial_spec(high, low) as nat),
        serial_spec(high, low) as int == high as int * 0x1_0000_0000 + low as int,
{
    let n = serial_spec(high, low) as nat;
    assert(crate::number::pow16(16) == 0x1_0000_0000_0000_0000) by {
        reveal_with_fuel(crate::number::pow16, 17);
    }
    crate::number::lemma_hex_len(n, 16);
    crate::number::lemma_radix_lower_hex(n);
    crate::number::law_radix_roundtrip(n, 16, 16, u64::MAX as nat);
    let r = radix_string(n, 16);
    let s = zero_pad(r, 16);
    let k = (16 - r.len()) as nat;
    assert forall|i: int| 0 <= i < 16 implies crate::number::is_lower_hex_digit(#[trigger] s[i]) by {
        if r.len() < 16 {
            assert(s == Seq::new(k, |j: int| '0') + r);
            if i >= k {
                assert(s[i] == r[i - k]);
            }
        } else {
            assert(s == r);
        }
    }
}

/// `format!("{a}.{b}.{c}")`.
pub open spec fn dotted3(a: nat, b: nat, c: nat) -> Seq<char> {
    radix_string(a, 10) + seq!['.'] + radix_string(b, 10) + seq!['.'] + radix_string(c, 10)
}

/// Writes `a.b.c` in decimal.
pub fn dotted_version(a: u32, b: u32, c: u32) -> (s: String)
    ensures
        s@ == dotted3(a as nat, b as nat, c as nat),
{
    let mut s = String::new();
    push_radix(&mut s, a as u64, 10);
    crate::text::push_char(&mut s, '.');
    push_radix(&mut s, b as u64, 10);
    crate::text::push_char(&mut s, '.');
    push_radix(&mut s, c as u64, 10);
    s
}

/// The 64-bit board serial number made of its two halves.
pub open spec fn serial_spec(high: u32, low: u32) -> u64 {
    (high as int * 0x1_0000_0000 + low as int) as u64
}

/// Board type name from the board serial number: bits 36..56 select the
/// board, and for the E300 bits 32..36 select the revision.
pub open spec fn board_type_spec(serial: u64) -> Option<Seq<char>> {
    let code = (serial >> 36u64) & 0xFFFFFu64;
    if code == 0x1 {
        let rev = (serial >> 32u64) & 0xFu64;
        if rev == 0x2 {
            Some("E300_R2"@)
        } else if rev == 0x3 || rev == 0x4 {
            Some("E300_R3"@)
        } else {
            None
        }
    } else if code == 0x3 {
        Some("e150"@)
    } else if code == 0x7 {
        Some("e75"@)
    } else if code == 0x8 {
        Some("NEBULA_CB"@)
    } else if code == 0xA {
        Some("e300"@)
    } else if code == 0xB {
        Some("GALAXY"@)
    } else if code == 0x14 {
        Some("n300"@)
    } else if code == 0x18 {
        Some("n150"@)
    } else if code == 0x35 {
        Some("galaxy-wormhole"@)
    } else if code == 0x36 {
        Some("p100"@)
    } else if code == 0x40 {
        Some("p150a"@)
    } else if code == 0x41 {
        Some("p150b"@)
    } else if code == 0x42 {
        Some("p150c"@)
    } else if code == 0x43 {
        Some("p100a"@)
    } else if code == 0x44 {
        Some("p300b"@)
    } else if code == 0x45 {
        Some("p300a"@)
    } else if code == 0x46 {
        Some("p300c"@)
    } else if code == 0x47 {
        Some("galaxy-blackhole"@)
    } else {
        None
    }
}

/// One GiB.
pub const GIB: u64 = 1024 * 1024 * 1024;

/// Board memory in bytes by board: e75 16 GiB; e150 32; E300 variants and
/// e300 48; GALAXY 128; n150 32; n300 64; NEBULA_CB 32; galaxy-wormhole 96;
/// p100/p100a 96; p150a/b/c 144; p300a/b/c 288; galaxy-blackhole 576; for an
/// unknown board 16, 32 or 96 GiB for Grayskull, Wormhole or Blackhole.
pub open spec fn board_memory_spec(serial: u64, arch: Arch) -> u64 {
    let code = (serial >> 36u64) & 0xFFFFFu64;
    let rev = (serial >> 32u64) & 0xFu64;
    if code == 0x7 {
        (16 * GIB) as u64
    } else if code == 0x3 {
        (32 * GIB) as u64
    } else if code == 0xA || (code == 0x1 && (rev == 0x2 || rev == 0x3 || rev == 0x4)) {
        (48 * GIB) as u64
    } else if code == 0xB {
        (128 * GIB) as u64
    } else if code == 0x18 {
        (32 * GIB) as u64
    } else if code == 0x14 {
        (64 * GIB) as u64
    } else if code == 0x8 {
        (32 * GIB) as u64
    } else if code == 0x35 {
        (96 * GIB) as u64
    } else if code == 0x36 || code == 0x43 {
        (96 * GIB) as u64
    } else if code == 0x40 || code == 0x41 || code == 0x42 {
        (144 * GIB) as u64
    } else if code == 0x44 || code == 0x45 || code == 0x46 {
        (288 * GIB) as u64
    } else if code == 0x47 {
        (576 * GIB) as u64
    } else {
        match arch {
            Arch::Grayskull => (16 * GIB) as u64,
            Arch::Wormhole => (32 * GIB) as u64,
            Arch::Blackhole => (96 * GIB) as u64,
        }
    }
}

/// Board thermal design power in watts by board: e75 and e150 75; E300
/// variants and e300 100; GALAXY 300; n150 150; n300 160; NEBULA_CB 150;
/// galaxy-wormhole 200; p100/p100a 300; p150a/b/c 350; p300a/b/c 400;
/// galaxy-blackhole 450; for an unknown board 75, 160 or 350 for Grayskull,
/// Wormhole or Blackhole.
pub open spec fn board_tdp_spec(serial: u64, arch: Arch) -> u32 {
    let code = (serial >> 36u64) & 0xFFFFFu64;
    let rev = (serial >> 32u64) & 0xFu64;
    if code == 0x7 || code == 0x3 {
        75
    } else if code == 0xA || (code == 0x1 && (rev == 0x2 || rev == 0x3 || rev == 0x4)) {
        100
    } else if code == 0xB {
        300
    } else if code == 0x18 || code == 0x8 {
        150
    } else if code == 0x14 {
        160
    } else if code == 0x35 {
        200
    } else if code == 0x36 || code == 0x43 {
        300
    } else if code == 0x40 || code == 0x41 || code == 0x42 {
        350
    } else if code == 0x44 || code == 0x45 || code == 0x46 {
        400
    } else if code == 0x47 {
        450
    } else {
        match arch {
            Arch::Grayskull => 75,
            Arch::Wormhole => 160,
            Arch::Blackhole => 350,
        }
    }
}

impl Telemetry {
    /// The board serial number of this block.
    pub open spec fn serial(&self) -> u64 {
        serial_spec(self.board_id_high, self.board_id_low)
    }

    /// Firmware date in YYYY-MM-DD format (see [`law_firmware_date_form`]).
    pub fn firmware_date(&self) -> (s: String)
        ensures
            s@ == firmware_date_spec(self.wh_fw_date),
    {
        let d = self.wh_fw_date;
        assert((d >> 28u32) & 0xFu32 <= 15) by (bit_vector);
        let year = ((self.wh_fw_date >> 28) & 0xF) + 2020;
        let month = (self.wh_fw_date >> 24) & 0xF;
        let field = (self.wh_fw_date >> 16) & 0xFF;
        let day = if field > 99 {
            99
        } else {
            field
        };
        let mut s = String::new();
        push_padded(&mut s, year as u64, 10, 4);
        crate::text::push_char(&mut s, '-');
        push_padded(&mut s, month as u64, 10, 2);
        crate::text::push_char(&mut s, '-');
        push_padded(&mut s, day as u64, 10, 2);
        s
    }

    /// ARC firmware version in MAJOR.MINOR.PATCH format (bits 16..24, 8..16, 0..8).
    pub fn arc_fw_version(&self) -> (s: String)
        ensures
            s@ == dotted3(
                ((self.arc0_fw_version >> 16u32) & 0xFFu32) as nat,
                ((self.arc0_fw_version >> 8u32) & 0xFFu32) as nat,
                (self.arc0_fw_version & 0xFFu32) as nat,
            ),
    {
        dotted_version(
            (self.arc0_fw_version >> 16) & 0xFF,
            (self.arc0_fw_version >> 8) & 0xFF,
            self.arc0_fw_version & 0xFF,
        )
    }

    /// Ethernet firmware version in MAJOR.MINOR.PATCH format (bits 16..24,
    /// 12..16, 0..12).
    pub fn eth_fw_version(&self) -> (s: String)
        ensures
            s@ == dotted3(
                ((self.eth_fw_version >> 16u32) & 0x0FFu32) as nat,
                ((self.eth_fw_version >> 12u32) & 0x00Fu32) as nat,
                (self.eth_fw_version & 0xFFFu32) as nat,
            ),
    {
        dotted_version(
            (self.eth_fw_version >> 16) & 0x0FF,
            (self.eth_fw_version >> 12) & 0x00F,
            self.eth_fw_version & 0xFFF,
        )
    }

    /// The board serial number: the high half in the upper 32 bits.
    pub fn board_serial_number(&self) -> (r: u64)
        ensures
            r == self.serial(),
            r as int == self.board_id_high as int * 0x1_0000_0000 + self.board_id_low as int,
    {
        let h = self.board_id_high as u64;
        let l = self.board_id_low as u64;
        assert(((h << 32u64) | l) == h * 0x1_0000_0000u64 + l) by (bit_vector)
            requires
                h < 0x1_0000_0000u64,
                l < 0x1_0000_0000u64,
        ;
        (h << 32) | l
    }

    /// The board serial number as 16 lower-case hexadecimal digits (see
    /// [`law_board_serial_hex`]).
    pub fn board_serial_number_hex(&self) -> (s: String)
        ensures
            s@ == zero_pad(radix_string(self.serial() as nat, 16), 16),
    {
        let mut s = String::new();
        push_padded(&mut s, self.board_serial_number(), 16, 16);
        s
    }

    /// The board type, or `None` when the serial number names no known board.
    pub fn try_board_type(&self) -> (r: Option<&'static str>)
        ensures
            match r {
                Some(t) => board_type_spec(self.serial()) == Some(t@),
                None => board_type_spec(self.serial()) is None,
            },
    {
        let serial = self.board_serial_number();
        let code = (serial >> 36) & 0xFFFFF;
        if code == 0x1 {
            let rev = (serial >> 32) & 0xF;
            if rev == 0x2 {
                Some("E300_R2")
            } else if rev == 0x3 || rev == 0x4 {
                Some("E300_R3")
            } else {
                None
            }
        } else if code == 0x3 {
            Some("e150")
        } else if code == 0x7 {
            Some("e75")
        } else if code == 0x8 {
            Some("NEBULA_CB")
        } else if code == 0xA {
            Some("e300")
        } else if code == 0xB {
            Some("GALAXY")
        } else if code == 0x14 {
            Some("n300")
        } else if code == 0x18 {
            Some("n150")
        } else if code == 0x35 {
            Some("galaxy-wormhole")
        } else if code == 0x36 {
            Some("p100")
        } else if code == 0x40 {
            Some("p150a")
        } else if code == 0x41 {
            Some("p150b")
        } else if code == 0x42 {
            Some("p150c")
        } else if code == 0x43 {
            Some("p100a")
        } else if code == 0x44 {
            Some("p300b")
        } else if code == 0x45 {
            Some("p300a")
        } else if code == 0x46 {
            Some("p300c")
        } else if code == 0x47 {
            Some("galaxy-blackhole")
        } else {
            None
        }
    }

    /// The board type, or `"UNSUPPORTED"`.
    pub fn board_type(&self) -> (r: &'static str)
        ensures
            match board_type_spec(self.serial()) {
                Some(t) => r@ == t,
                None => r@ == "UNSUPPORTED"@,
            },
    {
        match self.try_board_type() {
            Some(t) => t,
            None => "UNSUPPORTED",
        }
    }

    /// AI clock speed in MHz (low 16 bits).
    pub fn ai_clk(&self) -> (r: u32)
        ensures
            r == self.aiclk & 0xffffu32,
    {
        self.aiclk & 0xffff
    }

    /// AXI clock speed in MHz.
    pub fn axi_clk(&self) -> (r: u32)
        ensures
            r == self.axiclk,
    {
        self.axiclk
    }

    /// ARC clock speed in MHz.
    pub fn arc_clk(&self) -> (r: u32)
        ensures
            r == self.arcclk,
    {
        self.arcclk
    }

    /// Voltage regulator temperature in whole degrees Celsius (low 16 bits).
    pub fn vreg_temperature(&self) -> (r: u32)
        ensures
            r == self.vreg_temperature & 0xffffu32,
    {
        self.vreg_temperature & 0xffff
    }

    /// Inlet temperature in degrees Celsius (bits 16..24 of the board temperature).
    pub fn inlet_temperature(&self) -> (r: u32)
        ensures
            r == (self.board_temperature >> 16u32) & 0xffu32,
    {
        (self.board_temperature >> 0x10) & 0xff
    }

    /// First outlet temperature in degrees Celsius (bits 8..16).
    pub fn outlet_temperature1(&self) -> (r: u32)
        ensures
            r == (self.board_temperature >> 8u32) & 0xffu32,
    {
        (self.board_temperature >> 0x08) & 0xff
    }

    /// Second outlet temperature in degrees Celsius (bits 0..8).
    pub fn outlet_temperature2(&self) -> (r: u32)
        ensures
            r == self.board_temperature & 0xffu32,
    {
        self.board_temperature & 0xff
    }

    /// Power consumption in watts (low 16 bits of `tdp`).
    pub fn power(&self) -> (r: u32)
        ensures
            r == self.tdp & 0xffffu32,
    {
        self.tdp & 0xffff
    }

    /// Current in amperes (low 16 bits of `tdc`).
    pub fn current(&self) -> (r: u32)
        ensures
            r == self.tdc & 0xffffu32,
    {
        self.tdc & 0xffff
    }

    /// The heartbeat counter: the timer heartbeat on Blackhole, ARC0 health
    /// elsewhere.
    pub fn telemetry_heartbeat(&self) -> (r: u32)
        ensures
            r == if self.arch == Arch::Blackhole {
                self.timer_heartbeat
            } else {
                self.arc0_health
            },
    {
        if self.arch.is_blackhole() {
            self.timer_heartbeat
        } else {
            self.arc0_health
        }
    }

    /// Board thermal design power in watts (see [`board_tdp_spec`]).
    pub fn get_board_tdp(&self) -> (r: u32)
        ensures
            r == board_tdp_spec(self.serial(), self.arch),
    {
        let serial = self.board_serial_number();
        let code = (serial >> 36) & 0xFFFFF;
        let rev = (serial >> 32) & 0xF;
        if code == 0x7 || code == 0x3 {
            75
        } else if code == 0xA || (code == 0x1 && (rev == 0x2 || rev == 0x3 || rev == 0x4)) {
            100
        } else if code == 0xB {
            300
        } else if code == 0x18 || code == 0x8 {
            150
        } else if code == 0x14 {
            160
        } else if code == 0x35 {
            200
        } else if code == 0x36 || code == 0x43 {
            300
        } else if code == 0x40 || code == 0x41 || code == 0x42 {
            350
        } else if code == 0x44 || code == 0x45 || code == 0x46 {
            400
        } else if code == 0x47 {
            450
        } else {
            match self.arch {
                Arch::Grayskull => 75,
                Arch::Wormhole => 160,
                Arch::Blackhole => 350,
            }
        }
    }

    /// Board memory size in bytes (see [`board_memory_spec`]).
    pub fn get_board_memory_size(&self) -> (r: u64)
        ensures
            r == board_memory_spec(self.serial(), self.arch),
    {
        let serial = self.board_serial_number();
        let code = (serial >> 36) & 0xFFFFF;
        let rev = (serial >> 32) & 0xF;
        if code == 0x7 {
            16 * GIB
        } else if code == 0x3 {
            32 * GIB
        } else if code == 0xA || (code == 0x1 && (rev == 0x2 || rev == 0x3 || rev == 0x4)) {
            48 * GIB
        } else if code == 0xB {
            128 * GIB
        } else if code == 0x18 {
            32 * GIB
        } else if code == 0x14 {
            64 * GIB
        } else if code == 0x8 {
            32 * GIB
        } else if code == 0x35 {
            96 * GIB
        } else if code == 0x36 || code == 0x43 {
            96 * GIB
        } else if code == 0x40 || code == 0x41 || code == 0x42 {
            144 * GIB
        } else if code == 0x44 || code == 0x45 || code == 0x46 {
            288 * GIB
        } else if code == 0x47 {
            576 * GIB
        } else {
            match self.arch {
                Arch::Grayskull => 16 * GIB,
                Arch::Wormhole => 32 * GIB,
                Arch::Blackhole => 96 * GIB,
            }
        }
    }
}


/// The board code of a serial number: bits 36..56.
pub open spec fn board_code(serial: u64) -> u64 {
    (serial >> 36u64) & 0xFFFFFu64
}

/// The board revision of a serial number: bits 32..36.
pub open spec fn board_revision(serial: u64) -> u64 {
    (serial >> 32u64) & 0xFu64
}

/// Each known board code names its board: 0x3 e150, 0x7 e75, 0x8 NEBULA_CB,
/// 0xA e300, 0xB GALAXY, 0x14 n300, 0x18 n150, 0x35 galaxy-wormhole, 0x36
/// p100, 0x40..0x42 p150a..c, 0x43 p100a, 0x44 p300b, 0x45 p300a, 0x46 p300c,
/// 0x47 galaxy-blackhole; code 0x1 names the E300 of revision 2 (E300_R2) or
/// 3 and 4 (E300_R3); any other code names no board.
pub proof fn law_board_type_of_code(serial: u64)
    ensures
        board_code(serial) == 0x3 ==> board_type_spec(serial) == Some("e150"@),
        board_code(serial) == 0x7 ==> board_type_spec(serial) == Some("e75"@),
        board_code(serial) == 0x8 ==> board_type_spec(serial) == Some("NEBULA_CB"@),
        board_code(serial) == 0xA ==> board_type_spec(serial) == Some("e300"@),
        board_code(serial) == 0xB ==> board_type_spec(serial) == Some("GALAXY"@),
        board_code(serial) == 0x14 ==> board_type_spec(serial) == Some("n300"@),
        board_code(serial) == 0x18 ==> board_type_spec(serial) == Some("n150"@),
        board_code(serial) == 0x35 ==> board_type_spec(serial) == Some("galaxy-wormhole"@),
        board_code(serial) == 0x36 ==> board_type_spec(serial) == Some("p100"@),
        board_code(serial) == 0x40 ==> board_type_spec(serial) == Some("p150a"@),
        board_code(serial) == 0x41 ==> board_type_spec(serial) == Some("p150b"@),
        board_code(serial) == 0x42 ==> board_type_spec(serial) == Some("p150c"@),
        board_code(serial) == 0x43 ==> board_type_spec(serial) == Some("p100a"@),
        board_code(serial) == 0x44 ==> board_type_spec(serial) == Some("p300b"@),
        board_code(serial) == 0x45 ==> board_type_spec(serial) == Some("p300a"@),
        board_code(serial) == 0x46 ==> board_type_spec(serial) == Some("p300c"@),
        board_code(serial) == 0x47 ==> board_type_spec(serial) == Some("galaxy-blackhole"@),
        board_code(serial) == 0x1 && board_revision(serial) == 0x2 ==> board_type_spec(serial) == Some("E300_R2"@),
        board_code(serial) == 0x1 && (board_revision(serial) == 0x3 || board_revision(serial) == 0x4)
            ==> board_type_spec(serial) == Some("E300_R3"@),
        board_code(serial) == 0x1 && !(0x2 <= board_revision(serial) <= 0x4) ==> board_type_spec(serial) is None,
        !(board_code(serial) == 0x1 || board_code(serial) == 0x3 || board_code(serial) == 0x7 || board_code(serial)
            == 0x8 || board_code(serial) == 0xA || board_code(serial) == 0xB || board_code(serial) == 0x14
            || board_code(serial) == 0x18 || board_code(serial) == 0x35 || board_code(serial) == 0x36
            || (0x40 <= board_code(serial) <= 0x47)) ==> board_type_spec(serial) is None,
{
}

/// Distinct boards have distinct names: two serial numbers whose boards have
/// the same name have the same board code (and, for the E300, the same
/// revision family).
pub proof fn law_board_types_distinct(s1: u64, s2: u64)
    requires
        board_type_spec(s1) is Some,
        board_type_spec(s1) == board_type_spec(s2),
    ensures
        board_code(s1) == board_code(s2),
{
    reveal_strlit("e150");
    reveal_strlit("e75");
    reveal_strlit("NEBULA_CB");
    reveal_strlit("e300");
    reveal_strlit("GALAXY");
    reveal_strlit("n300");
    reveal_strlit("n150");
    reveal_strlit("galaxy-wormhole");
    reveal_strlit("p100");
    reveal_strlit("p150a");
    reveal_strlit("p150b");
    reveal_strlit("p150c");
    reveal_strlit("p100a");
    reveal_strlit("p300b");
    reveal_strlit("p300a");
    reveal_strlit("p300c");
    reveal_strlit("galaxy-blackhole");
    reveal_strlit("E300_R2");
    reveal_strlit("E300_R3");
    assert("e150"@.len() == 4 && "e150"@[0] == 'e' && "e150"@[1] == '1');
    assert("e75"@.len() == 3);
    assert("NEBULA_CB"@.len() == 9);
    assert("e300"@.len() == 4 && "e300"@[0] == 'e' && "e300"@[1] == '3');
    assert("GALAXY"@.len() == 6);
    assert("n300"@.len() == 4 && "n300"@[0] == 'n' && "n300"@[1] == '3');
    assert("n150"@.len() == 4 && "n150"@[0] == 'n' && "n150"@[1] == '1');
    assert("galaxy-wormhole"@.len() == 15);
    assert("p100"@.len() == 4 && "p100"@[0] == 'p' && "p100"@[1] == '1');
    assert("p150a"@.len() == 5 && "p150a"@[1] == '1' && "p150a"@[2] == '5' && "p150a"@[4] == 'a');
    assert("p150b"@.len() == 5 && "p150b"@[1] == '1' && "p150b"@[2] == '5' && "p150b"@[4] == 'b');
    assert("p150c"@.len() == 5 && "p150c"@[1] == '1' && "p150c"@[2] == '5' && "p150c"@[4] == 'c');
    assert("p100a"@.len() == 5 && "p100a"@[1] == '1' && "p100a"@[2] == '0' && "p100a"@[4] == 'a');
    assert("p300b"@.len() == 5 && "p300b"@[1] == '3' && "p300b"@[2] == '0' && "p300b"@[4] == 'b');
    assert("p300a"@.len() == 5 && "p300a"@[1] == '3' && "p300a"@[2] == '0' && "p300a"@[4] == 'a');
    assert("p300c"@.len() == 5 && "p300c"@[1] == '3' && "p300c"@[2] == '0' && "p300c"@[4] == 'c');
    assert("galaxy-blackhole"@.len() == 16);
    assert("E300_R2"@.len() == 7);
    assert("E300_R3"@.len() == 7);
}

} // verus!
