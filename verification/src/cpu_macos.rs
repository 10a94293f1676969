//! CPU facts on macOS from the text of `system_profiler` and `sysctl`: the
//! chip of an Apple Silicon Mac and its core counts, the processor of an
//! Intel Mac, each read once and kept.
use vstd::prelude::*;
use crate::cpuinfo::{string_views, u32_of};
use crate::number::parse_u32_span;
use crate::text::{
    field_span, field_value,    chars_of, contains_seq, find_char, first_index, line_spans, lines_seq, span_contains,
    span_starts_with, span_to_string, spans_view, spans_within, split_seq, split_spans,
    split_ws_seq, starts_with_seq, trim_seq, trim_span, ws_token_spans,
};

verus! {

/// Why a core count could not be read.
#[derive(Debug, Clone, Copy, PartialEq, Eq)]
pub enum MacCpuError {
    /// The `sysctl` output has no value after a colon.
    MissingValue,
    /// The value is no `u32`.
    InvalidNumber,
    /// No line of the display report gives a GPU core count.
    NoGpuCores,
}

/// What `system_profiler SPHardwareDataType` says of an Intel Mac: model,
/// number of processors, cores, threads (two per core), the texts of the
/// processor speed in GHz, in order, and the L3 cache size.
#[derive(Debug, Clone)]
pub struct IntelMacHardware {
    pub cpu_model: String,
    pub socket_count: u32,
    pub total_cores: u32,
    pub total_threads: u32,
    pub speed_values: Vec<String>,
    pub cache_size: u32,
}

/// The facts of an Apple Silicon Mac: chip name, performance cores,
/// efficiency cores and GPU cores.
pub type AppleSiliconHardware = (String, u32, u32, u32);

/// CPU reader for macOS; keeps the hardware facts once they are read.
pub struct MacOsCpuReader {
    is_apple_silicon: bool,
    cached_cpu_model: Option<String>,
    cached_p_core_count: Option<u32>,
    cached_e_core_count: Option<u32>,
    cached_gpu_core_count: Option<u32>,
    cached_intel_info: Option<IntelMacHardware>,
}

/// Twice `c`, wrapping at 2^32.
pub open spec fn double_u32(c: u32) -> u32 {
    ((c as nat * 2) % 0x1_0000_0000) as u32
}

/// Scan state over the Intel hardware report: model, processors, cores,
/// threads, speed texts, cache size.
pub type IntelScan = (Seq<char>, u32, u32, u32, Seq<Seq<char>>, u32);

/// One line of the Intel report, trimmed, told apart by its start.
pub open spec fn intel_step(st: IntelScan, raw: Seq<char>) -> IntelScan {
    let line = trim_seq(raw);
    let (model, sockets, cores, threads, speeds, cache) = st;
    if starts_with_seq(line, "Processor Name:"@) {
        (
            match field_value(line) {
                Some(v) => v,
                None => Seq::empty(),
            },
            sockets,
            cores,
            threads,
            speeds,
            cache,
        )
    } else if starts_with_seq(line, "Processor Speed:"@) {
        match field_value(line) {
            Some(v) => {
                let w = split_ws_seq(v);
                if w.len() > 0 {
                    (model, sockets, cores, threads, speeds.push(w[0]), cache)
                } else {
                    st
                }
            },
            None => st,
        }
    } else if starts_with_seq(line, "Number of Processors:"@) {
        match field_value(line) {
            Some(v) => match u32_of(v) {
                Some(p) => (model, p, cores, threads, speeds, cache),
                None => st,
            },
            None => st,
        }
    } else if starts_with_seq(line, "Total Number of Cores:"@) {
        match field_value(line) {
            Some(v) => match u32_of(v) {
                Some(c) => (model, sockets, c, double_u32(c), speeds, cache),
                None => st,
            },
            None => st,
        }
    } else if starts_with_seq(line, "L3 Cache:"@) {
        match field_value(line) {
            Some(v) => {
                let w = split_ws_seq(v);
                if w.len() > 0 {
                    match u32_of(w[0]) {
                        Some(s) => (model, sockets, cores, threads, speeds, s),
                        None => st,
                    }
                } else {
                    st
                }
            },
            None => st,
        }
    } else {
        st
    }
}

/// The scan of the first `n` lines; one processor and nothing else known at
/// the start.
pub open spec fn intel_scan(ls: Seq<Seq<char>>, n: nat) -> IntelScan
    decreases n,
{
    if n == 0 {
        (Seq::empty(), 1, 0, 0, Seq::empty(), 0)
    } else {
        intel_step(intel_scan(ls, (n - 1) as nat), ls[n - 1])
    }
}

/// The hardware report scanned in full matches `h`.
pub open spec fn intel_matches(h: IntelMacHardware, report: Seq<char>) -> bool {
    let st = intel_scan(lines_seq(report), lines_seq(report).len());
    &&& h.cpu_model@ == st.0
    &&& h.socket_count == st.1
    &&& h.total_cores == st.2
    &&& h.total_threads == st.3
    &&& string_views(h.speed_values@) == st.4
    &&& h.cache_size == st.5
}

/// The first line from `i` on that, trimmed, begins with `Chip:`.
pub open spec fn first_chip_line(ls: Seq<Seq<char>>, i: nat) -> Option<Seq<char>>
    decreases ls.len() - i,
{
    if i >= ls.len() {
        None
    } else if starts_with_seq(trim_seq(ls[i as int]), "Chip:"@) {
        Some(trim_seq(ls[i as int]))
    } else {
        first_chip_line(ls, i + 1)
    }
}

/// The chip name: the value of the first `Chip:` line, or empty.
pub open spec fn chip_model_spec(report: Seq<char>) -> Seq<char> {
    match first_chip_line(lines_seq(report), 0) {
        Some(l) => match field_value(l) {
            Some(v) => v,
            None => Seq::empty(),
        },
        None => Seq::empty(),
    }
}

/// What a `sysctl` core count output gives: the trimmed text after the
/// first colon (up to a second one) as a `u32`.
pub open spec fn sysctl_count_spec(out: Seq<char>) -> Result<u32, MacCpuError> {
    match field_value(out) {
        Some(v) => match u32_of(v) {
            Some(c) => Ok(c),
            None => Err(MacCpuError::InvalidNumber),
        },
        None => Err(MacCpuError::MissingValue),
    }
}

/// The text between the first two double quotes of `s`.
pub open spec fn quoted(s: Seq<char>) -> Option<Seq<char>> {
    match first_index(s, '"') {
        Some(a) => {
            let rest = s.subrange(a + 1, s.len() as int);
            match first_index(rest, '"') {
                Some(b) => Some(rest.subrange(0, b)),
                None => None,
            }
        },
        None => None,
    }
}

/// The GPU core count a line of the display report gives: a line that
/// names `sppci_cores`, whose part after the first colon holds the count in
/// double quotes.
pub open spec fn gpu_cores_in_line(l: Seq<char>) -> Option<u32> {
    if contains_seq(l, "sppci_cores"@) {
        let p = split_seq(l, ':');
        if p.len() > 1 {
            match quoted(p[1]) {
                Some(q) => u32_of(q),
                None => None,
            }
        } else {
            None
        }
    } else {
        None
    }
}

/// The count of the first line from `i` on that gives one.
pub open spec fn first_gpu_cores(ls: Seq<Seq<char>>, i: nat) -> Option<u32>
    decreases ls.len() - i,
{
    if i >= ls.len() {
        None
    } else {
        match gpu_cores_in_line(ls[i as int]) {
            Some(c) => Some(c),
            None => first_gpu_cores(ls, i + 1),
        }
    }
}

/// The name of the chip in a `system_profiler SPHardwareDataType` report.
pub fn chip_model(hardware_info: &str) -> (r: String)
    ensures
        r@ == chip_model_spec(hardware_info@),
{
    let v = chars_of(hardware_info);
    let n = v.len();
    assert(v@.subrange(0, n as int) =~= v@);
    let lines = line_spans(&v, 0, n);
    let ghost ls = lines_seq(hardware_info@);
    let p_chip = chars_of("Chip:");
    let mut i: usize = 0;
    while i < lines.len()
        invariant
            i <= lines.len(),
            n == v.len(),
            v@ == hardware_info@,
            ls == lines_seq(hardware_info@),
            p_chip@ == "Chip:"@,
            spans_view(v@, lines@) == ls,
            spans_within(lines@, 0, n as int),
            first_chip_line(ls, 0) == first_chip_line(ls, i as nat),
        decreases lines.len() - i,
    {
        let (lo, hi) = lines[i];
        assert(ls[i as int] == v@.subrange(lo as int, hi as int));
        let (a, b) = trim_span(&v, lo, hi);
        if span_starts_with(&v, a, b, &p_chip) {
            assert(first_chip_line(ls, i as nat) == Some(v@.subrange(a as int, b as int)));
            return match field_span(&v, a, b) {
                Some((c, d)) => span_to_string(&v, c, d),
                None => String::new(),
            };
        }
        i = i + 1;
    }
    assert(first_chip_line(ls, i as nat) is None);
    String::new()
}

/// A core count from the output of `sysctl hw.perflevelN.physicalcpu`.
pub fn sysctl_count(output: &str) -> (r: Result<u32, MacCpuError>)
    ensures
        r == sysctl_count_spec(output@),
{
    let v = chars_of(output);
    let n = v.len();
    assert(v@.subrange(0, n as int) =~= v@);
    match field_span(&v, 0, n) {
        Some((a, b)) => match parse_u32_span(&v, a, b) {
            Some(c) => Ok(c),
            None => Err(MacCpuError::InvalidNumber),
        },
        None => Err(MacCpuError::MissingValue),
    }
}

fn line_gpu_cores(v: &Vec<char>, lo: usize, hi: usize, key: &Vec<char>) -> (r: Option<u32>)
    requires
        lo <= hi <= v.len(),
        key@ == "sppci_cores"@,
    ensures
        r == gpu_cores_in_line(v@.subrange(lo as int, hi as int)),
{
    if !span_contains(v, lo, hi, key) {
        return None;
    }
    let parts = split_spans(v, lo, hi, ':');
    if parts.len() < 2 {
        return None;
    }
    let (a, b) = parts[1];
    assert(spans_view(v@, parts@)[1] == v@.subrange(a as int, b as int));
    let ghost s = v@.subrange(a as int, b as int);
    match find_char(v, a, b, '"') {
        Some(q1) => {
            assert(s.subrange(q1 + 1 - a, s.len() as int) =~= v@.subrange(q1 + 1, b as int));
            match find_char(v, q1 + 1, b, '"') {
                Some(q2) => {
                    assert(v@.subrange(q1 + 1, b as int).subrange(0, q2 - (q1 + 1)) =~= v@.subrange(
                        q1 + 1,
                        q2 as int,
                    ));
                    parse_u32_span(v, q1 + 1, q2)
                },
                None => None,
            }
        },
        None => None,
    }
}

/// The GPU core count in the output of `system_profiler SPDisplaysDataType
/// -json`: that of the first line naming `sppci_cores` with a quoted number
/// after its colon.
pub fn gpu_core_count(report: &str) -> (r: Result<u32, MacCpuError>)
    ensures
        match first_gpu_cores(lines_seq(report@), 0) {
            Some(c) => r == Ok::<u32, MacCpuError>(c),
            None => r == Err::<u32, MacCpuError>(MacCpuError::NoGpuCores),
        },
{
    let v = chars_of(report);
    let n = v.len();
    assert(v@.subrange(0, n as int) =~= v@);
    let lines = line_spans(&v, 0, n);
    let ghost ls = lines_seq(report@);
    let key = chars_of("sppci_cores");
    let mut i: usize = 0;
    while i < lines.len()
        invariant
            i <= lines.len(),
            n == v.len(),
            v@ == report@,
            ls == lines_seq(report@),
            key@ == "sppci_cores"@,
            spans_view(v@, lines@) == ls,
            spans_within(lines@, 0, n as int),
            first_gpu_cores(ls, 0) == first_gpu_cores(ls, i as nat),
        decreases lines.len() - i,
    {
        let (lo, hi) = lines[i];
        assert(ls[i as int] == v@.subrange(lo as int, hi as int));
        match line_gpu_cores(&v, lo, hi, &key) {
            Some(c) => {
                return Ok(c);
            },
            None => {},
        }
        i = i + 1;
    }
    assert(first_gpu_cores(ls, i as nat) is None);
    Err(MacCpuError::NoGpuCores)
}

/// Scans an Intel Mac's `system_profiler SPHardwareDataType` report.
pub fn scan_intel_mac_hardware(hardware_info: &str) -> (r: IntelMacHardware)
    ensures
        intel_matches(r, hardware_info@),
{
    let v = chars_of(hardware_info);
    let n = v.len();
    assert(v@.subrange(0, n as int) =~= v@);
    let lines = line_spans(&v, 0, n);
    let ghost ls = lines_seq(hardware_info@);
    let p_name = chars_of("Processor Name:");
    let p_speed = chars_of("Processor Speed:");
    let p_procs = chars_of("Number of Processors:");
    let p_cores = chars_of("Total Number of Cores:");
    let p_l3 = chars_of("L3 Cache:");
    let mut model = String::new();
    let mut sockets: u32 = 1;
    let mut cores: u32 = 0;
    let mut threads: u32 = 0;
    let mut speeds: Vec<String> = Vec::new();
    let mut cache: u32 = 0;
    let mut i: usize = 0;
    while i < lines.len()
        invariant
            i <= lines.len(),
            n == v.len(),
            v@ == hardware_info@,
            ls == lines_seq(hardware_info@),
            p_name@ == "Processor Name:"@,
            p_speed@ == "Processor Speed:"@,
            p_procs@ == "Number of Processors:"@,
            p_cores@ == "Total Number of Cores:"@,
            p_l3@ == "L3 Cache:"@,
            spans_view(v@, lines@) == ls,
            spans_within(lines@, 0, n as int),
            ({
                let st = intel_scan(ls, i as nat);
                &&& model@ == st.0
                &&& sockets == st.1
                &&& cores == st.2
                &&& threads == st.3
                &&& string_views(speeds@) == st.4
                &&& cache == st.5
            }),
        decreases lines.len() - i,
    {
        let (lo, hi) = lines[i];
        assert(ls[i as int] == v@.subrange(lo as int, hi as int));
        let (a, b) = trim_span(&v, lo, hi);
        let ghost line = v@.subrange(a as int, b as int);
        assert(intel_scan(ls, (i + 1) as nat) == intel_step(intel_scan(ls, i as nat), ls[i as int]));
        if span_starts_with(&v, a, b, &p_name) {
            model = match field_span(&v, a, b) {
                Some((c, d)) => span_to_string(&v, c, d),
                None => String::new(),
            };
        } else if span_starts_with(&v, a, b, &p_speed) {
            if let Some((c, d)) = field_span(&v, a, b) {
                let toks = ws_token_spans(&v, c, d);
                if toks.len() > 0 {
                    let (e, f) = toks[0];
                    assert(spans_view(v@, toks@)[0] == v@.subrange(e as int, f as int));
                    let ghost before = speeds@;
                    speeds.push(span_to_string(&v, e, f));
                    assert(string_views(speeds@) =~= string_views(before).push(v@.subrange(e as int, f as int)));
                }
            }
        } else if span_starts_with(&v, a, b, &p_procs) {
            if let Some((c, d)) = field_span(&v, a, b) {
                if let Some(p) = parse_u32_span(&v, c, d) {
                    sockets = p;
                }
            }
        } else if span_starts_with(&v, a, b, &p_cores) {
            if let Some((c, d)) = field_span(&v, a, b) {
                if let Some(k) = parse_u32_span(&v, c, d) {
                    cores = k;
                    threads = k.wrapping_mul(2);
                }
            }
        } else if span_starts_with(&v, a, b, &p_l3) {
            if let Some((c, d)) = field_span(&v, a, b) {
                let toks = ws_token_spans(&v, c, d);
                if toks.len() > 0 {
                    let (e, f) = toks[0];
                    assert(spans_view(v@, toks@)[0] == v@.subrange(e as int, f as int));
                    if let Some(s) = parse_u32_span(&v, e, f) {
                        cache = s;
                    }
                }
            }
        }
        i = i + 1;
    }
    assert(ls.len() == i);
    IntelMacHardware {
        cpu_model: model,
        socket_count: sockets,
        total_cores: cores,
        total_threads: threads,
        speed_values: speeds,
        cache_size: cache,
    }
}

fn copy_hardware(h: &IntelMacHardware) -> (r: IntelMacHardware)
    ensures
        r.cpu_model@ == h.cpu_model@,
        r.socket_count == h.socket_count,
        r.total_cores == h.total_cores,
        r.total_threads == h.total_threads,
        string_views(r.speed_values@) == string_views(h.speed_values@),
        r.cache_size == h.cache_size,
{
    let mut speeds: Vec<String> = Vec::new();
    let mut i: usize = 0;
    while i < h.speed_values.len()
        invariant
            i <= h.speed_values.len(),
            string_views(speeds@) == string_views(h.speed_values@).take(i as int),
        decreases h.speed_values.len() - i,
    {
        let ghost before = speeds@;
        let t = h.speed_values[i].clone();
        speeds.push(t);
        assert(string_views(speeds@) =~= string_views(before).push(t@));
        assert(string_views(h.speed_values@).take(i + 1) =~= string_views(h.speed_values@).take(
            i as int,
        ).push(h.speed_values@[i as int]@));
        i = i + 1;
    }
    assert(string_views(h.speed_values@).take(i as int) =~= string_views(h.speed_values@));
    IntelMacHardware {
        cpu_model: h.cpu_model.clone(),
        socket_count: h.socket_count,
        total_cores: h.total_cores,
        total_threads: h.total_threads,
        speed_values: speeds,
        cache_size: h.cache_size,
    }
}

impl MacOsCpuReader {
    /// Whether the reader is for an Apple Silicon Mac.
    pub closed spec fn apple_silicon(&self) -> bool {
        self.is_apple_silicon
    }

    /// The Apple Silicon facts kept so far, when all of them are.
    pub closed spec fn cached_apple(&self) -> Option<(Seq<char>, u32, u32, u32)> {
        match (
            self.cached_cpu_model,
            self.cached_p_core_count,
            self.cached_e_core_count,
            self.cached_gpu_core_count,
        ) {
            (Some(m), Some(p), Some(e), Some(g)) => Some((m@, p, e, g)),
            _ => None,
        }
    }

    /// Whether the Intel facts are kept, and then whether they match `h`.
    pub closed spec fn cached_intel_is(&self, h: Option<IntelMacHardware>) -> bool {
        match (self.cached_intel_info, h) {
            (None, None) => true,
            (Some(a), Some(b)) => a.cpu_model@ == b.cpu_model@ && a.socket_count == b.socket_count
                && a.total_cores == b.total_cores && a.total_threads == b.total_threads && string_views(
                a.speed_values@,
            ) == string_views(b.speed_values@) && a.cache_size == b.cache_size,
            _ => false,
        }
    }

    /// A reader for the machine that `uname -m` names: Apple Silicon when it
    /// says `arm64`. Nothing is kept yet.
    pub fn new(uname_machine: &str) -> (r: Self)
        ensures
            r.apple_silicon() == (trim_seq(uname_machine@) == "arm64"@),
            r.cached_apple() is None,
            r.cached_intel_is(None),
    {
        let is_apple_silicon = crate::platform::machine_is_arm64(uname_machine);
        MacOsCpuReader {
            is_apple_silicon,
            cached_cpu_model: None,
            cached_p_core_count: None,
            cached_e_core_count: None,
            cached_gpu_core_count: None,
            cached_intel_info: None,
        }
    }

    /// Whether the reader is for an Apple Silicon Mac.
    pub fn is_apple_silicon(&self) -> (r: bool)
        ensures
            r == self.apple_silicon(),
    {
        self.is_apple_silicon
    }

    /// The base frequency in MHz assumed when none is measured: 3000 on
    /// Apple Silicon, 2400 on Intel.
    pub fn get_cpu_base_frequency(&self) -> (r: u32)
        ensures
            r == if self.apple_silicon() { 3000u32 } else { 2400u32 },
    {
        if self.is_apple_silicon {
            3000
        } else {
            2400
        }
    }

    /// The maximum frequency in MHz assumed when none is measured: 3500 on
    /// Apple Silicon, 3000 on Intel.
    pub fn get_cpu_max_frequency(&self) -> (r: u32)
        ensures
            r == if self.apple_silicon() { 3500u32 } else { 3000u32 },
    {
        if self.is_apple_silicon {
            3500
        } else {
            3000
        }
    }

    /// The CPU temperature, which macOS does not report without special
    /// tools: always unknown.
    pub fn get_cpu_temperature(&self) -> (r: Option<u32>)
        ensures
            r is None,
    {
        None
    }

    /// The Apple Silicon facts: those kept from an earlier read, else the
    /// chip name from the hardware report and the three counts, which are
    /// then kept. The first count that could not be read is the error, and
    /// then nothing is kept.
    pub fn parse_apple_silicon_hardware_info(
        &mut self,
        hardware_info: &str,
        p_core_count: Result<u32, MacCpuError>,
        e_core_count: Result<u32, MacCpuError>,
        gpu_core_count: Result<u32, MacCpuError>,
    ) -> (r: Result<AppleSiliconHardware, MacCpuError>)
        ensures
            final(self).apple_silicon() == old(self).apple_silicon(),
            final(self).cached_intel_is(None) == old(self).cached_intel_is(None),
            match old(self).cached_apple() {
                Some(c) => r matches Ok(h) && (h.0@, h.1, h.2, h.3) == c && final(self).cached_apple()
                    == Some(c),
                None => match (p_core_count, e_core_count, gpu_core_count) {
                    (Ok(p), Ok(e), Ok(g)) => r matches Ok(h) && (h.0@, h.1, h.2, h.3) == (
                        chip_model_spec(hardware_info@),
                        p,
                        e,
                        g,
                    ) && final(self).cached_apple() == Some(
                        (chip_model_spec(hardware_info@), p, e, g),
                    ),
                    (Err(x), _, _) => r == Err::<AppleSiliconHardware, MacCpuError>(x)
                        && final(self).cached_apple() is None,
                    (Ok(_), Err(x), _) => r == Err::<AppleSiliconHardware, MacCpuError>(x)
                        && final(self).cached_apple() is None,
                    (Ok(_), Ok(_), Err(x)) => r == Err::<AppleSiliconHardware, MacCpuError>(x)
                        && final(self).cached_apple() is None,
                },
            },
    {
        if let (Some(m), Some(p), Some(e), Some(g)) = (
            &self.cached_cpu_model,
            self.cached_p_core_count,
            self.cached_e_core_count,
            self.cached_gpu_core_count,
        ) {
            return Ok((m.clone(), p, e, g));
        }
        let cpu_model = chip_model(hardware_info);
        let p = match p_core_count {
            Ok(x) => x,
            Err(x) => {
                return Err(x);
            },
        };
        let e = match e_core_count {
            Ok(x) => x,
            Err(x) => {
                return Err(x);
            },
        };
        let g = match gpu_core_count {
            Ok(x) => x,
            Err(x) => {
                return Err(x);
            },
        };
        self.cached_cpu_model = Some(cpu_model.clone());
        self.cached_p_core_count = Some(p);
        self.cached_e_core_count = Some(e);
        self.cached_gpu_core_count = Some(g);
        Ok((cpu_model, p, e, g))
    }

    /// The Intel facts: those kept from an earlier read, else the scan of the
    /// hardware report, which is then kept.
    pub fn parse_intel_mac_hardware_info(&mut self, hardware_info: &str) -> (r: IntelMacHardware)
        ensures
            final(self).apple_silicon() == old(self).apple_silicon(),
            final(self).cached_apple() == old(self).cached_apple(),
            old(self).cached_intel_is(None) ==> intel_matches(r, hardware_info@),
            !old(self).cached_intel_is(None) ==> old(self).cached_intel_is(Some(r)),
            final(self).cached_intel_is(Some(r)),
    {
        match &self.cached_intel_info {
            Some(h) => {
                let r = copy_hardware(h);
                return r;
            },
            None => {},
        }
        let h = scan_intel_mac_hardware(hardware_info);
        self.cached_intel_info = Some(copy_hardware(&h));
        h
    }
}

} // verus!
