//! Chip detection: which of the scanned devices become chips, the
//! architecture that a board's serial number implies, and the telemetry of
//! a chip whose real telemetry cannot be read.
use vstd::prelude::*;
use crate::tenstorrent::arch::Arch;
use crate::tenstorrent::chip::{Telemetry, zero_telemetry};
use crate::tenstorrent::error::PlatformError;
use crate::number::{push_radix, radix_string, parse_unsigned, parse_unsigned_span};
use crate::tenstorrent::arch::{arch_from_device_id, arch_of_device_id_spec};
use crate::text::{
    chars_of, contains_seq, field_span, field_value, line_spans, lines_seq, span_contains,
    span_to_string, spans_view, spans_within, trim_end_matches_seq, trim_end_matches_span, trim_seq,
    trim_span, trim_start_matches_seq, trim_start_matches_span, trimmed_eq,
};
use crate::cpuinfo::{string_views, u32_of};

verus! {

/// Options of chip detection.
#[derive(Debug, Clone)]
pub struct ChipDetectOptions {
    /// Skip a device whose architecture cannot be told, instead of failing.
    pub continue_on_failure: bool,
    /// Look only at chips on a local physical interface.
    pub local_only: bool,
    /// When not empty, only chips of these architectures are returned.
    pub chip_filter: Vec<Arch>,
    /// Initialize nothing that might disturb the NOC.
    pub noc_safe: bool,
}

impl Default for ChipDetectOptions {
    fn default() -> (r: Self)
        ensures
            r.continue_on_failure,
            r.local_only,
            r.chip_filter@.len() == 0,
            !r.noc_safe,
    {
        ChipDetectOptions {
            continue_on_failure: true,
            local_only: true,
            chip_filter: Vec::new(),
            noc_safe: false,
        }
    }
}

/// A detection error; the text says what went wrong.
#[derive(Debug, Clone)]
pub struct DetectError(pub String);

impl DetectError {
    /// The text of the error.
    pub fn message(&self) -> (r: &str)
        ensures
            r@ == self.0@,
    {
        self.0.as_str()
    }
}

/// A detected chip: the index of its device file and its architecture.
#[derive(Debug, Clone, Copy, PartialEq, Eq, Structural)]
pub struct Chip {
    pub device_id: usize,
    pub arch: Arch,
}

/// A chip which may or may not be initialized.
#[derive(Debug, Clone, Copy, PartialEq, Eq, Structural)]
pub enum UninitChip {
    /// The chip is fine and can be used.
    Initialized(Chip),
}

impl UninitChip {
    /// The chip, ready for use.
    pub fn init<E>(self) -> (r: Result<Chip, E>)
        ensures
            match self {
                UninitChip::Initialized(c) => r matches Ok(x) && x == c,
            },
    {
        match self {
            UninitChip::Initialized(chip) => Ok(chip),
        }
    }
}

/// The architecture that the board code (bits 36..56 of a serial number)
/// implies, for the codes of known boards.
pub open spec fn arch_of_board_code(code: u64) -> Option<Arch> {
    if code == 0x1 || code == 0x3 || code == 0x7 || code == 0x8 || code == 0xA || code == 0xB {
        Some(Arch::Grayskull)
    } else if code == 0x14 || code == 0x18 || code == 0x35 {
        Some(Arch::Wormhole)
    } else if code == 0x36 || (0x40 <= code <= 0x47) {
        Some(Arch::Blackhole)
    } else {
        None
    }
}

/// The architecture of a board code.
pub fn board_code_arch(code: u64) -> (r: Option<Arch>)
    ensures
        r == arch_of_board_code(code),
{
    if code == 0x1 || code == 0x3 || code == 0x7 || code == 0x8 || code == 0xA || code == 0xB {
        Some(Arch::Grayskull)
    } else if code == 0x14 || code == 0x18 || code == 0x35 {
        Some(Arch::Wormhole)
    } else if code == 0x36 || (0x40 <= code && code <= 0x47) {
        Some(Arch::Blackhole)
    } else {
        None
    }
}

/// The telemetry of a chip that detection could not read: placeholder
/// values typical of the architecture, the board id of its most common
/// board (e75, n300, p100), and DDR marked up.
pub open spec fn fallback_telemetry_spec(device_id: usize, arch: Arch) -> Telemetry {
    let (high, aiclk, vcore, tdp, tdc, temp, ddr) = match arch {
        Arch::Grayskull => (0x7u32, 1000u32, 750u32, 30u32, 40u32, 720u32, 1600u32),
        Arch::Wormhole => (0x14u32, 1200u32, 800u32, 50u32, 60u32, 800u32, 6400u32),
        Arch::Blackhole => (0x36u32, 1400u32, 850u32, 80u32, 90u32, 880u32, 8000u32),
    };
    Telemetry {
        arch,
        device_id: device_id as u32,
        board_id_high: high,
        board_id_low: 1,
        aiclk,
        vcore,
        tdp,
        tdc,
        asic_temperature: temp,
        ddr_speed: Some(ddr),
        ddr_status: 1,
        ..zero_telemetry()
    }
}

/// Real telemetry `t` read back from `chip`: the chip's device index, and
/// the chip's architecture unless the board id is set and its board code
/// names a known board, whose architecture it then takes.
pub open spec fn read_back_telemetry_spec(chip: Chip, t: Telemetry) -> Telemetry {
    let arch = if t.board_id_high != 0 || t.board_id_low != 0 {
        match arch_of_board_code((t.serial() >> 36) & 0xFFFFF) {
            Some(a) => a,
            None => chip.arch,
        }
    } else {
        chip.arch
    };
    Telemetry { device_id: chip.device_id as u32, arch, ..t }
}

impl Chip {
    /// The architecture of the chip.
    pub fn get_arch(&self) -> (r: Arch)
        ensures
            r == self.arch,
    {
        self.arch
    }

    /// The telemetry of the chip from what could be read of it (`read_back`):
    /// real telemetry is the chip's, so it carries the chip's device index and
    /// architecture, the architecture replaced by the one that the board code
    /// implies where the board id is set and its code is known; without real
    /// telemetry, the placeholder telemetry of the chip's architecture.
    pub fn get_telemetry(&self, read_back: Option<Telemetry>) -> (r: Result<Telemetry, PlatformError>)
        ensures
            match read_back {
                Some(t) => r matches Ok(x) && x == read_back_telemetry_spec(*self, t),
                None => r matches Ok(x) && x == fallback_telemetry_spec(self.device_id, self.arch),
            },
    {
        match read_back {
            Some(t) => {
                let mut t = t;
                t.device_id = self.device_id as u32;
                t.arch = self.arch;
                if t.board_id_high != 0 || t.board_id_low != 0 {
                    let code = (t.board_serial_number() >> 36) & 0xFFFFF;
                    if let Some(a) = board_code_arch(code) {
                        t.arch = a;
                    }
                }
                Ok(t)
            },
            None => Ok(self.fallback_telemetry()),
        }
    }

    /// The placeholder telemetry of the chip.
    pub fn fallback_telemetry(&self) -> (t: Telemetry)
        ensures
            t == fallback_telemetry_spec(self.device_id, self.arch),
    {
        let mut t = Telemetry::default();
        t.arch = self.arch;
        t.device_id = self.device_id as u32;
        t.board_id_low = 1;
        match self.arch {
            Arch::Grayskull => {
                t.board_id_high = 0x7;
                t.aiclk = 1000;
                t.vcore = 750;
                t.tdp = 30;
                t.tdc = 40;
                t.asic_temperature = 45 * 16;
                t.ddr_speed = Some(1600);
            },
            Arch::Wormhole => {
                t.board_id_high = 0x14;
                t.aiclk = 1200;
                t.vcore = 800;
                t.tdp = 50;
                t.tdc = 60;
                t.asic_temperature = 50 * 16;
                t.ddr_speed = Some(6400);
            },
            Arch::Blackhole => {
                t.board_id_high = 0x36;
                t.aiclk = 1400;
                t.vcore = 850;
                t.tdp = 80;
                t.tdc = 90;
                t.asic_temperature = 55 * 16;
                t.ddr_speed = Some(8000);
            },
        }
        t.ddr_status = 1;
        t
    }
}

/// Whether detection keeps a chip of `arch` under a filter: an empty filter
/// keeps every chip.
pub open spec fn filter_keeps(filter: Seq<Arch>, arch: Arch) -> bool {
    filter.len() == 0 || filter.contains(arch)
}

/// The chips that detection yields from the scanned devices, each a device
/// index and the architecture found for it (`None` when none was found),
/// under the given filter, when every device has an architecture or failures
/// are skipped.
pub open spec fn detected_chips(scanned: Seq<(usize, Option<Arch>)>, filter: Seq<Arch>) -> Seq<
    UninitChip,
>
    decreases scanned.len(),
{
    if scanned.len() == 0 {
        Seq::empty()
    } else {
        let rest = detected_chips(scanned.drop_last(), filter);
        let (id, a) = scanned.last();
        match a {
            Some(arch) => if filter_keeps(filter, arch) {
                rest.push(UninitChip::Initialized(Chip { device_id: id, arch }))
            } else {
                rest
            },
            None => rest,
        }
    }
}

/// The first scanned device without an architecture.
pub open spec fn first_unknown(scanned: Seq<(usize, Option<Arch>)>) -> Option<usize>
    decreases scanned.len(),
{
    if scanned.len() == 0 {
        None
    } else {
        match first_unknown(scanned.drop_last()) {
            Some(id) => Some(id),
            None => if scanned.last().1 is None {
                Some(scanned.last().0)
            } else {
                None
            },
        }
    }
}

fn contains_arch(filter: &Vec<Arch>, arch: Arch) -> (r: bool)
    ensures
        r == filter@.contains(arch),
{
    let mut i: usize = 0;
    while i < filter.len()
        invariant
            i <= filter@.len(),
            forall|k: int| 0 <= k < i ==> filter@[k] != arch,
        decreases filter.len() - i,
    {
        if filter[i] == arch {
            assert(filter@[i as int] == arch);
            return true;
        }
        i = i + 1;
    }
    false
}

/// Turns the scanned devices (each a device index and the architecture
/// found for it, in scan order) into chips: a device without an
/// architecture is skipped when `continue_on_failure`, else detection fails
/// naming it; chips outside a nonempty filter are left out.
pub fn detect_chips_silent(options: &ChipDetectOptions, scanned: &[(usize, Option<Arch>)]) -> (r:
    Result<Vec<UninitChip>, DetectError>)
    ensures
        match r {
            Ok(chips) => chips@ == detected_chips(scanned@, options.chip_filter@) && (
            options.continue_on_failure || first_unknown(scanned@) is None),
            Err(e) => !options.continue_on_failure && match first_unknown(scanned@) {
                Some(id) => e.0@ == "Failed to determine architecture for device "@ + radix_string(
                    id as nat,
                    10,
                ),
                None => false,
            },
        },
{
    let mut chips: Vec<UninitChip> = Vec::new();
    let mut i: usize = 0;
    while i < scanned.len()
        invariant
            i <= scanned@.len(),
            chips@ == detected_chips(scanned@.subrange(0, i as int), options.chip_filter@),
            options.continue_on_failure || first_unknown(scanned@.subrange(0, i as int)) is None,
        decreases scanned.len() - i,
    {
        let ghost pre = scanned@.subrange(0, i as int);
        let ghost next = scanned@.subrange(0, i as int + 1);
        assert(next.drop_last() =~= pre);
        assert(next.last() == scanned@[i as int]);
        let (id, found) = scanned[i];
        match found {
            Some(arch) => {
                if options.chip_filter.len() == 0 || contains_arch(&options.chip_filter, arch) {
                    chips.push(UninitChip::Initialized(Chip { device_id: id, arch }));
                }
            },
            None => {
                if !options.continue_on_failure {
                    proof {
                        lemma_first_unknown_prefix(scanned@, i as int + 1);
                    }
                    let mut msg = String::new();
                    msg.append("Failed to determine architecture for device ");
                    push_radix(&mut msg, id as u64, 10);
                    return Err(DetectError(msg));
                }
            },
        }
        i = i + 1;
    }
    assert(scanned@.subrange(0, scanned@.len() as int) =~= scanned@);
    Ok(chips)
}

/// The first device without an architecture in a prefix is the first one
/// in the whole scan.
pub proof fn lemma_first_unknown_prefix(s: Seq<(usize, Option<Arch>)>, n: int)
    requires
        0 <= n <= s.len(),
        first_unknown(s.subrange(0, n)) is Some,
    ensures
        first_unknown(s) == first_unknown(s.subrange(0, n)),
    decreases s.len() - n,
{
    if n < s.len() {
        assert(s.subrange(0, n + 1).drop_last() =~= s.subrange(0, n));
        lemma_first_unknown_prefix(s, n + 1);
    } else {
        assert(s.subrange(0, n) =~= s);
    }
}

/// Every chip that detection yields passes the architecture filter and is
/// a scanned device with the architecture found for it.
pub proof fn law_detected_chips_come_from_scan(scanned: Seq<(usize, Option<Arch>)>, filter: Seq<Arch>)
    ensures
        forall|i: int|
            0 <= i < detected_chips(scanned, filter).len() ==> {
                let c = #[trigger] detected_chips(scanned, filter)[i];
                match c {
                    UninitChip::Initialized(chip) => filter_keeps(filter, chip.arch) && exists|j: int|
                        0 <= j < scanned.len() && scanned[j] == (chip.device_id, Some(chip.arch)),
                }
            },
    decreases scanned.len(),
{
    if scanned.len() > 0 {
        let prev = scanned.drop_last();
        law_detected_chips_come_from_scan(prev, filter);
        let rest = detected_chips(prev, filter);
        assert forall|i: int| 0 <= i < detected_chips(scanned, filter).len() implies {
            let c = #[trigger] detected_chips(scanned, filter)[i];
            match c {
                UninitChip::Initialized(chip) => filter_keeps(filter, chip.arch) && exists|j: int|
                    0 <= j < scanned.len() && scanned[j] == (chip.device_id, Some(chip.arch)),
            }
        } by {
            let d = detected_chips(scanned, filter);
            if i < rest.len() {
                assert(d[i] == rest[i]);
                let c = rest[i];
                match c {
                    UninitChip::Initialized(chip) => {
                        let j = choose|j: int| 0 <= j < prev.len() && prev[j] == (chip.device_id, Some(chip.arch));
                        assert(scanned[j] == prev[j]);
                    },
                }
            } else {
                assert(scanned[scanned.len() - 1] == scanned.last());
            }
        }
    }
}


/// The architecture that a sysfs device id file names: its trimmed text,
/// without leading `0x`s, read as a hexadecimal `u16`; `None` when the text
/// is no such number, `Some(None)` for an id of no known architecture.
pub open spec fn sysfs_device_arch_spec(text: Seq<char>) -> Option<Option<Arch>> {
    match parse_unsigned(trim_start_matches_seq(trim_seq(text), seq!['0', 'x']), 16, 0xffff) {
        Some(id) => Some(arch_of_device_id_spec(id as u16)),
        None => None,
    }
}

/// Reads the architecture from the text of a sysfs device id file.
pub fn sysfs_device_arch(text: &str) -> (r: Option<Option<Arch>>)
    ensures
        r == sysfs_device_arch_spec(text@),
{
    let v = chars_of(text);
    let n = v.len();
    assert(v@.subrange(0, n as int) =~= text@);
    let (a, b) = trim_span(&v, 0, n);
    let p = vec!['0', 'x'];
    assert(p@ =~= seq!['0', 'x']);
    let c = trim_start_matches_span(&v, a, b, &p);
    match parse_unsigned_span(&v, c, b, 16, 0xffff) {
        Some(id) => Some(arch_from_device_id(id as u16)),
        None => None,
    }
}

/// The board id words that `tt-smi` reports as text: without leading `0x`s,
/// read as a hexadecimal `u64`, split into its high and low 32 bits; `None`
/// when the text is no such number.
pub open spec fn board_id_words_spec(text: Seq<char>) -> Option<(u32, u32)> {
    match parse_unsigned(trim_start_matches_seq(text, seq!['0', 'x']), 16, u64::MAX as nat) {
        Some(id) => Some(((id / 0x1_0000_0000) as u32, (id % 0x1_0000_0000) as u32)),
        None => None,
    }
}

/// Reads the board id words from the `board_id` text of `tt-smi`.
pub fn board_id_words(text: &str) -> (r: Option<(u32, u32)>)
    ensures
        r == board_id_words_spec(text@),
{
    let v = chars_of(text);
    let n = v.len();
    assert(v@.subrange(0, n as int) =~= text@);
    let p = vec!['0', 'x'];
    assert(p@ =~= seq!['0', 'x']);
    let c = trim_start_matches_span(&v, 0, n, &p);
    match parse_unsigned_span(&v, c, n, 16, u64::MAX) {
        Some(id) => Some(((id / 0x1_0000_0000) as u32, (id % 0x1_0000_0000) as u32)),
        None => None,
    }
}

/// The lower case of a character, for comparing with a lower-case ASCII
/// word: ASCII capitals and the Kelvin sign become ASCII letters; no other
/// character lowers to an ASCII letter in one character.
pub open spec fn lower_char(c: char) -> char {
    if 'A' <= c <= 'Z' {
        ((c as int) + 32) as char
    } else if c == '\u{212A}' {
        'k'
    } else {
        c
    }
}

/// `s` equals the lower-case ASCII word `w` once lower-cased.
pub open spec fn lower_eq(s: Seq<char>, w: Seq<char>) -> bool {
    s.len() == w.len() && forall|i: int| 0 <= i < s.len() ==> lower_char(#[trigger] s[i]) == w[i]
}

fn lower_eq_span(v: &Vec<char>, lo: usize, hi: usize, w: &str) -> (r: bool)
    requires
        lo <= hi <= v@.len(),
    ensures
        r == lower_eq(v@.subrange(lo as int, hi as int), w@),
{
    let wv = chars_of(w);
    if hi - lo != wv.len() {
        return false;
    }
    let mut i: usize = 0;
    while i < wv.len()
        invariant
            hi - lo == wv@.len(),
            lo <= hi <= v@.len(),
            wv@ == w@,
            i <= wv@.len(),
            forall|k: int| 0 <= k < i ==> lower_char(#[trigger] v@[lo + k]) == wv@[k],
        decreases wv.len() - i,
    {
        let c = v[lo + i];
        let l = if 'A' <= c && c <= 'Z' {
            ((c as u8) + 32) as char
        } else if c == '\u{212A}' {
            'k'
        } else {
            c
        };
        if l != wv[i] {
            assert(v@.subrange(lo as int, hi as int)[i as int] == v@[lo + i]);
            return false;
        }
        i = i + 1;
    }
    assert forall|k: int| 0 <= k < hi - lo implies lower_char(#[trigger] v@.subrange(lo as int, hi as int)[k])
        == w@[k] by {
        assert(v@.subrange(lo as int, hi as int)[k] == v@[lo + k]);
    }
    true
}

/// The architecture that the driver's `arch` file names, lower-cased and
/// trimmed.
pub open spec fn driver_arch_spec(text: Seq<char>) -> Option<Arch> {
    let t = trim_seq(text);
    if lower_eq(t, "grayskull"@) {
        Some(Arch::Grayskull)
    } else if lower_eq(t, "wormhole"@) {
        Some(Arch::Wormhole)
    } else if lower_eq(t, "blackhole"@) {
        Some(Arch::Blackhole)
    } else {
        None
    }
}

/// Reads the architecture from the text of the driver's `arch` file.
pub fn driver_arch(text: &str) -> (r: Option<Arch>)
    ensures
        r == driver_arch_spec(text@),
{
    let v = chars_of(text);
    let n = v.len();
    assert(v@.subrange(0, n as int) =~= text@);
    let (a, b) = trim_span(&v, 0, n);
    if lower_eq_span(&v, a, b, "grayskull") {
        Some(Arch::Grayskull)
    } else if lower_eq_span(&v, a, b, "wormhole") {
        Some(Arch::Wormhole)
    } else if lower_eq_span(&v, a, b, "blackhole") {
        Some(Arch::Blackhole)
    } else {
        None
    }
}


/// Scan state over a `tensix-fw-sysinfo` report: core voltage (mV), power
/// (W), current (A), AI clock (MHz), board id, and the texts of the ASIC
/// temperature in degrees, in order.
pub type SysinfoScan = (u32, u32, u32, u32, Option<u64>, Seq<Seq<char>>);

/// A reading with its unit suffix removed, as a `u32`.
pub open spec fn reading(v: Seq<char>, unit: Seq<char>) -> Option<u32> {
    u32_of(trim_end_matches_seq(v, unit))
}

/// One line of the report, told apart by the key it contains, in this order:
/// `vcore:`, `tdp:`, `tdc:`, `asic_temperature:`, `aiclk:`, `board_id:`.
pub open spec fn sysinfo_step(st: SysinfoScan, line: Seq<char>) -> SysinfoScan {
    let (vcore, tdp, tdc, aiclk, board, temps) = st;
    match field_value(line) {
        None => st,
        Some(v) => if contains_seq(line, "vcore:"@) {
            match reading(v, "mV"@) {
                Some(x) => (x, tdp, tdc, aiclk, board, temps),
                None => st,
            }
        } else if contains_seq(line, "tdp:"@) {
            match reading(v, "W"@) {
                Some(x) => (vcore, x, tdc, aiclk, board, temps),
                None => st,
            }
        } else if contains_seq(line, "tdc:"@) {
            match reading(v, "A"@) {
                Some(x) => (vcore, tdp, x, aiclk, board, temps),
                None => st,
            }
        } else if contains_seq(line, "asic_temperature:"@) {
            (vcore, tdp, tdc, aiclk, board, temps.push(v))
        } else if contains_seq(line, "aiclk:"@) {
            match reading(v, "MHz"@) {
                Some(x) => (vcore, tdp, tdc, x, board, temps),
                None => st,
            }
        } else if contains_seq(line, "board_id:"@) {
            match parse_unsigned(trim_start_matches_seq(v, "0x"@), 16, u64::MAX as nat) {
                Some(id) => (vcore, tdp, tdc, aiclk, Some(id as u64), temps),
                None => st,
            }
        } else {
            st
        },
    }
}

/// The scan of the first `n` lines.
pub open spec fn sysinfo_scan(ls: Seq<Seq<char>>, n: nat) -> SysinfoScan
    decreases n,
{
    if n == 0 {
        (0, 0, 0, 0, None, Seq::empty())
    } else {
        sysinfo_step(sysinfo_scan(ls, (n - 1) as nat), ls[n - 1])
    }
}

/// The telemetry a scan gives for a chip: the readings found, the board id
/// split into its high and low words, every other value zero.
pub open spec fn sysinfo_telemetry(arch: Arch, device_id: u32, st: SysinfoScan) -> Telemetry {
    let (vcore, tdp, tdc, aiclk, board, temps) = st;
    Telemetry {
        arch: arch,
        device_id: device_id,
        vcore: vcore,
        tdp: tdp,
        tdc: tdc,
        aiclk: aiclk,
        board_id_high: match board {
            Some(id) => (id / 0x1_0000_0000) as u32,
            None => 0,
        },
        board_id_low: match board {
            Some(id) => (id % 0x1_0000_0000) as u32,
            None => 0,
        },
        ..zero_telemetry()
    }
}

fn reading_span(v: &Vec<char>, lo: usize, hi: usize, unit: &Vec<char>) -> (r: Option<u32>)
    requires
        lo <= hi <= v.len(),
    ensures
        r == reading(v@.subrange(lo as int, hi as int), unit@),
{
    let b = trim_end_matches_span(v, lo, hi, unit);
    match parse_unsigned_span(v, lo, b, 10, u32::MAX as u64) {
        Some(x) => Some(x as u32),
        None => None,
    }
}

impl Chip {
    /// The telemetry in a `tensix-fw-sysinfo -v` report, when it gives a
    /// power or core voltage reading: the readings of its lines (a later
    /// line of a key wins), the ASIC temperature left at zero, and beside it
    /// the texts of the ASIC temperature readings, in order, which are
    /// fractional degrees.
    pub fn telemetry_from_fw_sysinfo(&self, output: &str) -> (r: Option<(Telemetry, Vec<String>)>)
        ensures
            ({
                let st = sysinfo_scan(lines_seq(output@), lines_seq(output@).len());
                match r {
                    Some((t, temps)) => (st.1 > 0 || st.0 > 0) && t == sysinfo_telemetry(
                        self.arch,
                        self.device_id as u32,
                        st,
                    ) && string_views(temps@) == st.5,
                    None => !(st.1 > 0 || st.0 > 0),
                }
            }),
    {
        let v = chars_of(output);
        let n = v.len();
        assert(v@.subrange(0, n as int) =~= v@);
        let lines = line_spans(&v, 0, n);
        let ghost ls = lines_seq(output@);
        let k_vcore = chars_of("vcore:");
        let k_tdp = chars_of("tdp:");
        let k_tdc = chars_of("tdc:");
        let k_temp = chars_of("asic_temperature:");
        let k_aiclk = chars_of("aiclk:");
        let k_board = chars_of("board_id:");
        let u_mv = chars_of("mV");
        let u_w = chars_of("W");
        let u_a = chars_of("A");
        let u_mhz = chars_of("MHz");
        let hex = chars_of("0x");
        let mut vcore: u32 = 0;
        let mut tdp: u32 = 0;
        let mut tdc: u32 = 0;
        let mut aiclk: u32 = 0;
        let mut board: Option<u64> = None;
        let mut temps: Vec<String> = Vec::new();
        let mut i: usize = 0;
        while i < lines.len()
            invariant
                i <= lines.len(),
                n == v.len(),
                v@ == output@,
                ls == lines_seq(output@),
                k_vcore@ == "vcore:"@,
                k_tdp@ == "tdp:"@,
                k_tdc@ == "tdc:"@,
                k_temp@ == "asic_temperature:"@,
                k_aiclk@ == "aiclk:"@,
                k_board@ == "board_id:"@,
                u_mv@ == "mV"@,
                u_w@ == "W"@,
                u_a@ == "A"@,
                u_mhz@ == "MHz"@,
                hex@ == "0x"@,
                spans_view(v@, lines@) == ls,
                spans_within(lines@, 0, n as int),
                sysinfo_scan(ls, i as nat) == (vcore, tdp, tdc, aiclk, board, string_views(temps@)),
            decreases lines.len() - i,
        {
            let (lo, hi) = lines[i];
            assert(ls[i as int] == v@.subrange(lo as int, hi as int));
            assert(sysinfo_scan(ls, (i + 1) as nat) == sysinfo_step(
                sysinfo_scan(ls, i as nat),
                ls[i as int],
            ));
            if let Some((a, b)) = field_span(&v, lo, hi) {
                if span_contains(&v, lo, hi, &k_vcore) {
                    if let Some(x) = reading_span(&v, a, b, &u_mv) {
                        vcore = x;
                    }
                } else if span_contains(&v, lo, hi, &k_tdp) {
                    if let Some(x) = reading_span(&v, a, b, &u_w) {
                        tdp = x;
                    }
                } else if span_contains(&v, lo, hi, &k_tdc) {
                    if let Some(x) = reading_span(&v, a, b, &u_a) {
                        tdc = x;
                    }
                } else if span_contains(&v, lo, hi, &k_temp) {
                    let ghost before = temps@;
                    temps.push(span_to_string(&v, a, b));
                    assert(string_views(temps@) =~= string_views(before).push(
                        v@.subrange(a as int, b as int),
                    ));
                } else if span_contains(&v, lo, hi, &k_aiclk) {
                    if let Some(x) = reading_span(&v, a, b, &u_mhz) {
                        aiclk = x;
                    }
                } else if span_contains(&v, lo, hi, &k_board) {
                    let c = trim_start_matches_span(&v, a, b, &hex);
                    if let Some(id) = parse_unsigned_span(&v, c, b, 16, u64::MAX) {
                        board = Some(id);
                    }
                }
            }
            i = i + 1;
        }
        assert(ls.len() == i);
        if tdp > 0 || vcore > 0 {
            let mut t = Telemetry::default();
            t.arch = self.arch;
            t.device_id = self.device_id as u32;
            t.vcore = vcore;
            t.tdp = tdp;
            t.tdc = tdc;
            t.aiclk = aiclk;
            if let Some(id) = board {
                t.board_id_high = (id >> 32) as u32;
                t.board_id_low = (id & 0xFFFF_FFFF) as u32;
                assert(id >> 32 == id / 0x1_0000_0000) by (bit_vector);
                assert(id & 0xFFFF_FFFF == id % 0x1_0000_0000) by (bit_vector);
            }
            Some((t, temps))
        } else {
            None
        }
    }
}


/// A device file name read as a device number, as `str::parse::<usize>`
/// reads it.
pub open spec fn device_number(name: Seq<char>) -> Option<usize> {
    match parse_unsigned(name, 10, usize::MAX as nat) {
        Some(v) => Some(v as usize),
        None => None,
    }
}

/// The numbers of the names that are device numbers, in order.
pub open spec fn device_numbers(names: Seq<Seq<char>>) -> Seq<usize>
    decreases names.len(),
{
    if names.len() == 0 {
        Seq::empty()
    } else {
        let prev = device_numbers(names.drop_last());
        match device_number(names.last()) {
            Some(id) => prev.push(id),
            None => prev,
        }
    }
}

/// Numbers never decrease along `s`.
pub open spec fn ascending(s: Seq<usize>) -> bool {
    forall|i: int, j: int| 0 <= i <= j < s.len() ==> s[i] <= s[j]
}

/// Inserts `x` into the ascending `out` after every number not larger.
fn insert_ascending(out: &mut Vec<usize>, x: usize)
    requires
        ascending(old(out)@),
    ensures
        ascending(final(out)@),
        final(out)@.to_multiset() == old(out)@.to_multiset().insert(x),
{
    let mut j = out.len();
    while j > 0 && out[j - 1] > x
        invariant
            j <= out.len(),
            forall|k: int| j <= k < out.len() ==> out@[k] > x,
        decreases j,
    {
        j = j - 1;
    }
    let ghost before = out@;
    out.insert(j, x);
    proof {
        vstd::seq_lib::to_multiset_insert(before, j as int, x);
        assert forall|a: int, b: int| 0 <= a <= b < out@.len() implies out@[a] <= out@[b] by {
            if a < j as int && b < j as int {
            } else if a < j as int && b == j as int {
                assert(before[j - 1] <= x);
            } else if a < j as int {
                assert(out@[b] == before[b - 1]);
            } else if a == j as int && b > j as int {
                assert(out@[b] == before[b - 1]);
            } else if a > j as int {
                assert(out@[a] == before[a - 1]);
                assert(out@[b] == before[b - 1]);
            }
        }
    }
}

/// The numbers of the device files of `/dev/tenstorrent` from their names:
/// the names that read as a `usize`, in ascending order.
pub fn device_numbers_from_names(names: &Vec<String>) -> (r: Vec<usize>)
    ensures
        ascending(r@),
        r@.to_multiset() == device_numbers(string_views(names@)).to_multiset(),
{
    broadcast use vstd::seq_lib::group_to_multiset_ensures;

    let ghost ns = string_views(names@);
    let mut out: Vec<usize> = Vec::new();
    let mut i: usize = 0;
    assert(ns.take(0) =~= Seq::<Seq<char>>::empty());
    while i < names.len()
        invariant
            i <= names.len(),
            ns == string_views(names@),
            ascending(out@),
            out@.to_multiset() == device_numbers(ns.take(i as int)).to_multiset(),
        decreases names.len() - i,
    {
        let v = chars_of(names[i].as_str());
        let n = v.len();
        assert(v@.subrange(0, n as int) =~= v@);
        assert(ns.take(i + 1).drop_last() =~= ns.take(i as int));
        assert(ns.take(i + 1).last() == names@[i as int]@);
        match parse_unsigned_span(&v, 0, n, 10, usize::MAX as u64) {
            Some(id) => {
                insert_ascending(&mut out, id as usize);
                proof {
                    vstd::seq_lib::to_multiset_build(device_numbers(ns.take(i as int)), id as usize);
                }
            },
            None => {},
        }
        i = i + 1;
    }
    assert(ns.take(i as int) =~= ns);
    out
}


/// Whether a PCI `vendor` file names Tenstorrent: its trimmed text is
/// `0x1e52`.
pub fn is_tenstorrent_vendor(vendor: &str) -> (r: bool)
    ensures
        r == (trim_seq(vendor@) == "0x1e52"@),
{
    trimmed_eq(vendor, "0x1e52")
}

} // verus!
