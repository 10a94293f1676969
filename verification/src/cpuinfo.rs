//! The text of `/proc/cpuinfo`: model name and platform, processor and
//! socket counts, the frequency and cache size lines, and the model name of
//! an ARM processor that reports only its implementer and part.
use vstd::prelude::*;
use crate::number::parse_unsigned;
use crate::text::{
    field_span, field_value, chars_of, line_spans, lines_seq, span_to_string, spans_view,
    spans_within, split_ws_seq, starts_with_seq, string_of, trim_seq, trim_span, ws_token_spans,
    span_starts_with,
};
use crate::number::parse_u32_span;

verus! {

/// The vendor family of a processor.
#[derive(Debug, Clone, PartialEq, Eq)]
pub enum CpuPlatformType {
    Intel,
    Amd,
    Arm,
    Other(String),
}

/// A character with ASCII upper case letters made lower case.
pub open spec fn ascii_lower(c: char) -> char {
    if 'A' <= c <= 'Z' {
        ((c as int) + 32) as char
    } else {
        c
    }
}

/// `p` (lower case) occurs in `s` at `i`, ignoring ASCII case.
pub open spec fn occurs_ci_at(s: Seq<char>, p: Seq<char>, i: int) -> bool {
    0 <= i && i + p.len() <= s.len() && forall|j: int| 0 <= j < p.len() ==> ascii_lower(#[trigger] s[i + j]) == p[j]
}

/// `p` (lower case) occurs in `s`, ignoring ASCII case; for the words
/// looked for here this is what lower-casing `s` and searching gives.
pub open spec fn contains_ci(s: Seq<char>, p: Seq<char>) -> bool {
    exists|i: int| #[trigger] occurs_ci_at(s, p, i)
}

pub(crate) fn lower(c: char) -> (r: char)
    ensures
        r == ascii_lower(c),
{
    if 'A' <= c && c <= 'Z' {
        ((c as u8) + 32) as char
    } else {
        c
    }
}

fn contains_ci_exec(s: &Vec<char>, p: &Vec<char>) -> (r: bool)
    ensures
        r == contains_ci(s@, p@),
{
    if p.len() > s.len() {
        assert(!contains_ci(s@, p@)) by {
            if contains_ci(s@, p@) {
                let i = choose|i: int| #[trigger] occurs_ci_at(s@, p@, i);
            }
        }
        return false;
    }
    let mut i: usize = 0;
    while i <= s.len() - p.len()
        invariant
            p.len() <= s.len(),
            forall|k: int| 0 <= k < i ==> !#[trigger] occurs_ci_at(s@, p@, k),
        decreases s.len() - i,
    {
        let mut j: usize = 0;
        let mut ok = true;
        while j < p.len()
            invariant
                i + p.len() <= s.len(),
                j <= p.len(),
                ok ==> forall|t: int| 0 <= t < j ==> ascii_lower(#[trigger] s@[i + t]) == p@[t],
                !ok ==> !occurs_ci_at(s@, p@, i as int),
            decreases p.len() - j,
        {
            if ok && lower(s[i + j]) != p[j] {
                ok = false;
            }
            j = j + 1;
        }
        if ok {
            assert(occurs_ci_at(s@, p@, i as int));
            return true;
        }
        i = i + 1;
    }
    assert(!contains_ci(s@, p@)) by {
        if contains_ci(s@, p@) {
            let k = choose|k: int| #[trigger] occurs_ci_at(s@, p@, k);
            assert(k < i);
        }
    }
    false
}

/// A vendor that a model name can name.
#[derive(Debug, Clone, Copy, PartialEq, Eq, Structural)]
pub enum CpuVendor {
    Intel,
    Amd,
    Arm,
}

/// The vendor that a model name names: Intel, AMD or ARM (looked for in
/// that order, ignoring case), else the vendor known before.
pub open spec fn vendor_of(model: Seq<char>, before: Option<CpuVendor>) -> Option<CpuVendor> {
    if contains_ci(model, "intel"@) {
        Some(CpuVendor::Intel)
    } else if contains_ci(model, "amd"@) {
        Some(CpuVendor::Amd)
    } else if contains_ci(model, "arm"@) {
        Some(CpuVendor::Arm)
    } else {
        before
    }
}

/// A `u32` in decimal.
pub open spec fn u32_of(s: Seq<char>) -> Option<u32> {
    match parse_unsigned(s, 10, u32::MAX as nat) {
        Some(v) => Some(v as u32),
        None => None,
    }
}

/// What a scan of cpuinfo lines has found: model name, vendor, number of
/// processors, physical package ids, the frequency texts in order, cache
/// size in MB, implementer and part.
pub type CpuScan = (
    Seq<char>,
    Option<CpuVendor>,
    nat,
    Set<u32>,
    Seq<Seq<char>>,
    u32,
    Seq<char>,
    Seq<char>,
);

/// One line of the scan. Lines are told apart by their start, in this
/// order: `model name`, `processor`, `physical id`, `cpu MHz`, `cache size`
/// (read while no size is known), `CPU implementer`, `CPU part`.
pub open spec fn scan_step(st: CpuScan, line: Seq<char>) -> CpuScan {
    let (model, vendor, procs, ids, mhz, cache, imp, part) = st;
    if starts_with_seq(line, "model name"@) {
        match field_value(line) {
            Some(v) => (v, vendor_of(v, vendor), procs, ids, mhz, cache, imp, part),
            None => st,
        }
    } else if starts_with_seq(line, "processor"@) {
        (model, vendor, procs + 1, ids, mhz, cache, imp, part)
    } else if starts_with_seq(line, "physical id"@) {
        match field_value(line) {
            Some(v) => match u32_of(v) {
                Some(id) => (model, vendor, procs, ids.insert(id), mhz, cache, imp, part),
                None => st,
            },
            None => st,
        }
    } else if starts_with_seq(line, "cpu MHz"@) {
        match field_value(line) {
            Some(v) => (model, vendor, procs, ids, mhz.push(v), cache, imp, part),
            None => st,
        }
    } else if starts_with_seq(line, "cache size"@) {
        if cache == 0 {
            match field_value(line) {
                Some(v) => {
                    let w = split_ws_seq(v);
                    if w.len() > 0 {
                        match u32_of(w[0]) {
                            Some(kb) => (model, vendor, procs, ids, mhz, kb / 1024, imp, part),
                            None => st,
                        }
                    } else {
                        st
                    }
                },
                None => st,
            }
        } else {
            st
        }
    } else if starts_with_seq(line, "CPU implementer"@) {
        match field_value(line) {
            Some(v) => (model, vendor, procs, ids, mhz, cache, v, part),
            None => st,
        }
    } else if starts_with_seq(line, "CPU part"@) {
        match field_value(line) {
            Some(v) => (model, vendor, procs, ids, mhz, cache, imp, v),
            None => st,
        }
    } else {
        st
    }
}

/// The scan of the first `n` lines.
pub open spec fn scan_lines(lines: Seq<Seq<char>>, n: nat) -> CpuScan
    decreases n,
{
    if n == 0 {
        (Seq::empty(), None, 0, Set::empty(), Seq::empty(), 0, Seq::empty(), Seq::empty())
    } else {
        scan_step(scan_lines(lines, (n - 1) as nat), lines[n - 1])
    }
}

/// The findings of a cpuinfo text.
pub struct CpuInfoScan {
    pub cpu_model: String,
    pub platform_type: CpuPlatformType,
    pub processor_count: u32,
    /// Number of distinct physical package ids, or 1 when none is given.
    pub socket_count: u32,
    /// The `cpu MHz` values, in order, as text.
    pub mhz_values: Vec<String>,
    pub cache_size_mb: u32,
    pub cpu_implementer: String,
    pub cpu_part: String,
}

/// The platform that a vendor stands for.
pub open spec fn platform_matches(p: CpuPlatformType, v: Option<CpuVendor>) -> bool {
    match v {
        Some(CpuVendor::Intel) => p == CpuPlatformType::Intel,
        Some(CpuVendor::Amd) => p == CpuPlatformType::Amd,
        Some(CpuVendor::Arm) => p == CpuPlatformType::Arm,
        None => p matches CpuPlatformType::Other(s) && s@ == "Unknown"@,
    }
}

/// The texts of a list of strings.
pub open spec fn string_views(v: Seq<String>) -> Seq<Seq<char>> {
    Seq::new(v.len(), |i: int| v[i]@)
}

fn u32_in(v: &Vec<char>, lo: usize, hi: usize) -> (r: Option<u32>)
    requires
        lo <= hi <= v@.len(),
    ensures
        r == u32_of(v@.subrange(lo as int, hi as int)),
{
    parse_u32_span(v, lo, hi)
}

/// Counting `processor` lines never goes down from one line to the next.
proof fn lemma_processor_count_grows(ls: Seq<Seq<char>>, a: nat, b: nat)
    requires
        a <= b <= ls.len(),
    ensures
        scan_lines(ls, a).2 <= scan_lines(ls, b).2,
    decreases b,
{
    if a < b {
        lemma_processor_count_grows(ls, a, (b - 1) as nat);
    }
}

/// Scans the text of `/proc/cpuinfo`. The number of `processor` lines must
/// fit a `u32`, as the count of them does.
pub fn scan_cpuinfo(content: &str) -> (r: CpuInfoScan)
    requires
        scan_lines(lines_seq(content@), lines_seq(content@).len()).2 <= u32::MAX,
    ensures
        ({
            let st = scan_lines(lines_seq(content@), lines_seq(content@).len());
            &&& r.cpu_model@ == st.0
            &&& platform_matches(r.platform_type, st.1)
            &&& r.processor_count == st.2
            &&& st.3.finite()
            &&& r.socket_count == if st.3.len() == 0 {
                1
            } else {
                st.3.len() as u32
            }
            &&& string_views(r.mhz_values@) == st.4
            &&& r.cache_size_mb == st.5
            &&& r.cpu_implementer@ == st.6
            &&& r.cpu_part@ == st.7
        }),
{
    let v = chars_of(content);
    let n = v.len();
    assert(v@.subrange(0, n as int) =~= content@);
    let lines = line_spans(&v, 0, n);
    let ghost ls = lines_seq(content@);
    let p_model = chars_of("model name");
    let p_proc = chars_of("processor");
    let p_phys = chars_of("physical id");
    let p_mhz = chars_of("cpu MHz");
    let p_cache = chars_of("cache size");
    let p_imp = chars_of("CPU implementer");
    let p_part = chars_of("CPU part");
    let mut model = String::new();
    let mut vendor: Option<CpuVendor> = None;
    let mut procs: u32 = 0;
    let mut ids: Vec<u32> = Vec::new();
    let mut mhz: Vec<String> = Vec::new();
    let mut cache: u32 = 0;
    let mut imp = String::new();
    let mut part = String::new();
    let mut i: usize = 0;
    while i < lines.len()
        invariant
            i <= lines@.len(),
            n == v@.len(),
            spans_view(v@, lines@) == ls,
            spans_within(lines@, 0, n as int),
            scan_lines(ls, ls.len()).2 <= u32::MAX,
            p_model@ == "model name"@,
            p_proc@ == "processor"@,
            p_phys@ == "physical id"@,
            p_mhz@ == "cpu MHz"@,
            p_cache@ == "cache size"@,
            p_imp@ == "CPU implementer"@,
            p_part@ == "CPU part"@,
            ids@.no_duplicates(),
            ({
                let st = scan_lines(ls, i as nat);
                &&& model@ == st.0
                &&& vendor == st.1
                &&& procs == st.2
                &&& ids@.to_set() == st.3
                &&& string_views(mhz@) == st.4
                &&& cache == st.5
                &&& imp@ == st.6
                &&& part@ == st.7
            }),
        decreases lines.len() - i,
    {
        let (lo, hi) = lines[i];
        let ghost line = v@.subrange(lo as int, hi as int);
        assert(ls[i as int] == line);
        let ghost before = scan_lines(ls, i as nat);
        assert(scan_lines(ls, (i + 1) as nat) == scan_step(before, line));
        if span_starts_with(&v, lo, hi, &p_model) {
            if let Some((a, b)) = field_span(&v, lo, hi) {
                let value = span_to_string(&v, a, b);
                let mut val_chars: Vec<char> = Vec::new();
                let mut k = a;
                while k < b
                    invariant
                        a <= k <= b <= v@.len(),
                        val_chars@ == v@.subrange(a as int, k as int),
                    decreases b - k,
                {
                    val_chars.push(v[k]);
                    assert(v@.subrange(a as int, k + 1) =~= v@.subrange(a as int, k as int).push(v@[k as int]));
                    k = k + 1;
                }
                if contains_ci_exec(&val_chars, &chars_of("intel")) {
                    vendor = Some(CpuVendor::Intel);
                } else if contains_ci_exec(&val_chars, &chars_of("amd")) {
                    vendor = Some(CpuVendor::Amd);
                } else if contains_ci_exec(&val_chars, &chars_of("arm")) {
                    vendor = Some(CpuVendor::Arm);
                }
                model = value;
            }
        } else if span_starts_with(&v, lo, hi, &p_proc) {
            proof {
                lemma_processor_count_grows(ls, (i + 1) as nat, ls.len());
            }
            procs = procs + 1;
        } else if span_starts_with(&v, lo, hi, &p_phys) {
            if let Some((a, b)) = field_span(&v, lo, hi) {
                if let Some(id) = u32_in(&v, a, b) {
                    let mut found = false;
                    let mut k: usize = 0;
                    while k < ids.len()
                        invariant
                            k <= ids@.len(),
                            found == exists|t: int| 0 <= t < k && ids@[t] == id,
                        decreases ids.len() - k,
                    {
                        if ids[k] == id {
                            found = true;
                        }
                        k = k + 1;
                    }
                    if !found {
                        let ghost old_ids = ids@;
                        ids.push(id);
                        proof {
                            assert forall|x: u32| #[trigger] ids@.contains(x) == (old_ids.contains(x) || x == id) by {
                                if x == id {
                                    assert(ids@[old_ids.len() as int] == id);
                                }
                                if old_ids.contains(x) {
                                    let t = choose|t: int| 0 <= t < old_ids.len() && old_ids[t] == x;
                                    assert(ids@[t] == x);
                                }
                                if ids@.contains(x) && x != id {
                                    let t = choose|t: int| 0 <= t < ids@.len() && ids@[t] == x;
                                    assert(old_ids[t] == x);
                                }
                            }
                            assert(ids@.to_set() =~= old_ids.to_set().insert(id));
                            assert forall|a: int, b: int| 0 <= a < ids@.len() && 0 <= b < ids@.len() && a != b implies ids@[a] != ids@[b] by {
                                if a < old_ids.len() && b < old_ids.len() {
                                    assert(ids@[a] == old_ids[a] && ids@[b] == old_ids[b]);
                                } else if a < old_ids.len() {
                                    assert(ids@[a] == old_ids[a]);
                                } else if b < old_ids.len() {
                                    assert(ids@[b] == old_ids[b]);
                                }
                            }
                        }
                    } else {
                        assert(ids@.to_set().contains(id));
                        assert(ids@.to_set() =~= ids@.to_set().insert(id));
                    }
                }
            }
        } else if span_starts_with(&v, lo, hi, &p_mhz) {
            if let Some((a, b)) = field_span(&v, lo, hi) {
                let ghost old_m = mhz@;
                mhz.push(span_to_string(&v, a, b));
                assert(string_views(mhz@) =~= string_views(old_m).push(v@.subrange(a as int, b as int)));
            }
        } else if span_starts_with(&v, lo, hi, &p_cache) {
            if cache == 0 {
                if let Some((a, b)) = field_span(&v, lo, hi) {
                    let w = ws_token_spans(&v, a, b);
                    if w.len() > 0 {
                        let (c, d) = w[0];
                        assert(spans_view(v@, w@)[0] == v@.subrange(c as int, d as int));
                        if let Some(kb) = u32_in(&v, c, d) {
                            cache = kb / 1024;
                        }
                    }
                }
            }
        } else if span_starts_with(&v, lo, hi, &p_imp) {
            if let Some((a, b)) = field_span(&v, lo, hi) {
                imp = span_to_string(&v, a, b);
            }
        } else if span_starts_with(&v, lo, hi, &p_part) {
            if let Some((a, b)) = field_span(&v, lo, hi) {
                part = span_to_string(&v, a, b);
            }
        }
        i = i + 1;
    }
    assert(lines@.len() == ls.len());
    proof {
        ids@.unique_seq_to_set();
        vstd::seq_lib::seq_to_set_is_finite(ids@);
    }
    let sockets: u32 = if ids.len() == 0 {
        1
    } else {
        ids.len() as u32
    };
    let platform = match vendor {
        Some(CpuVendor::Intel) => CpuPlatformType::Intel,
        Some(CpuVendor::Amd) => CpuPlatformType::Amd,
        Some(CpuVendor::Arm) => CpuPlatformType::Arm,
        None => CpuPlatformType::Other(string_of("Unknown")),
    };
    CpuInfoScan {
        cpu_model: model,
        platform_type: platform,
        processor_count: procs,
        socket_count: sockets,
        mhz_values: mhz,
        cache_size_mb: cache,
        cpu_implementer: imp,
        cpu_part: part,
    }
}


/// Whether `uname -m` names an ARM machine: `aarch64`, `arm64` or any name
/// starting with `arm`.
pub fn is_arm_architecture(arch: &str) -> (r: bool)
    ensures
        r == is_arm_machine(arch@),
{
    let v = chars_of(arch);
    let n = v.len();
    assert(v@.subrange(0, n as int) =~= arch@);
    crate::text::str_eq(arch, "aarch64") || crate::text::str_eq(arch, "arm64") || span_starts_with(
        &v,
        0,
        n,
        &chars_of("arm"),
    )
}

/// The vendor name of an ARM implementer code.
pub open spec fn implementer_name_spec(code: Seq<char>) -> Seq<char> {
    if code == "0x41"@ {
        "ARM"@
    } else if code == "0x42"@ {
        "Broadcom"@
    } else if code == "0x43"@ {
        "Cavium"@
    } else if code == "0x44"@ {
        "DEC"@
    } else if code == "0x4e"@ {
        "NVIDIA"@
    } else if code == "0x50"@ {
        "APM"@
    } else if code == "0x51"@ {
        "Qualcomm"@
    } else if code == "0x53"@ {
        "Samsung"@
    } else if code == "0x54"@ {
        "HiSilicon"@
    } else if code == "0x56"@ {
        "Marvell"@
    } else if code == "0x61"@ {
        "Apple"@
    } else if code == "0x66"@ {
        "Faraday"@
    } else if code == "0x69"@ {
        "Intel"@
    } else {
        "Unknown"@
    }
}

/// The vendor name of an ARM implementer code.
pub fn implementer_name(code: &str) -> (r: &'static str)
    ensures
        r@ == implementer_name_spec(code@),
{
    if crate::text::str_eq(code, "0x41") {
        "ARM"
    } else if crate::text::str_eq(code, "0x42") {
        "Broadcom"
    } else if crate::text::str_eq(code, "0x43") {
        "Cavium"
    } else if crate::text::str_eq(code, "0x44") {
        "DEC"
    } else if crate::text::str_eq(code, "0x4e") {
        "NVIDIA"
    } else if crate::text::str_eq(code, "0x50") {
        "APM"
    } else if crate::text::str_eq(code, "0x51") {
        "Qualcomm"
    } else if crate::text::str_eq(code, "0x53") {
        "Samsung"
    } else if crate::text::str_eq(code, "0x54") {
        "HiSilicon"
    } else if crate::text::str_eq(code, "0x56") {
        "Marvell"
    } else if crate::text::str_eq(code, "0x61") {
        "Apple"
    } else if crate::text::str_eq(code, "0x66") {
        "Faraday"
    } else if crate::text::str_eq(code, "0x69") {
        "Intel"
    } else {
        "Unknown"
    }
}

/// The model name of an ARM processor whose cpuinfo gives no model name:
/// `<vendor> ARM Processor`, with ` (Part: <part>)` when the part is known,
/// or `ARM Processor` when neither implementer nor part is known.
pub open spec fn arm_model_spec(implementer: Seq<char>, part: Seq<char>) -> Seq<char> {
    if implementer.len() == 0 && part.len() == 0 {
        "ARM Processor"@
    } else if part.len() == 0 {
        implementer_name_spec(implementer) + " ARM Processor"@
    } else {
        implementer_name_spec(implementer) + " ARM Processor"@ + " (Part: "@ + part + ")"@
    }
}

/// The model name of an ARM processor whose cpuinfo gives no model name.
pub fn arm_model_name(implementer: &str, part: &str) -> (r: String)
    ensures
        r@ == arm_model_spec(implementer@, part@),
{
    let iv = chars_of(implementer);
    let pv = chars_of(part);
    if iv.len() == 0 && pv.len() == 0 {
        return string_of("ARM Processor");
    }
    let mut s = string_of(implementer_name(implementer));
    s.append(" ARM Processor");
    if pv.len() > 0 {
        s.append(" (Part: ");
        s.append(part);
        s.append(")");
    }
    s
}

/// `uname -m` names an ARM machine: `aarch64`, `arm64` or any name starting
/// with `arm`.
pub open spec fn is_arm_machine(arch: Seq<char>) -> bool {
    arch == "aarch64"@ || arch == "arm64"@ || starts_with_seq(arch, "arm"@)
}

/// Completes a cpuinfo scan with the machine name that `uname -m` gave: on an
/// ARM machine whose cpuinfo names no model, the platform is ARM and the
/// model is made from the implementer and part codes; otherwise the scan is
/// kept as it is.
pub fn apply_machine_architecture(scan: &mut CpuInfoScan, architecture: &str)
    ensures
        if is_arm_machine(architecture@) && old(scan).cpu_model@.len() == 0 {
            &&& final(scan).cpu_model@ == arm_model_spec(old(scan).cpu_implementer@, old(scan).cpu_part@)
            &&& final(scan).platform_type == CpuPlatformType::Arm
            &&& final(scan).processor_count == old(scan).processor_count
            &&& final(scan).socket_count == old(scan).socket_count
            &&& final(scan).mhz_values == old(scan).mhz_values
            &&& final(scan).cache_size_mb == old(scan).cache_size_mb
            &&& final(scan).cpu_implementer == old(scan).cpu_implementer
            &&& final(scan).cpu_part == old(scan).cpu_part
        } else {
            *final(scan) == *old(scan)
        },
{
    if is_arm_architecture(architecture) && chars_of(scan.cpu_model.as_str()).len() == 0 {
        let model = arm_model_name(scan.cpu_implementer.as_str(), scan.cpu_part.as_str());
        scan.cpu_model = model;
        scan.platform_type = CpuPlatformType::Arm;
    }
}

/// A reading in thousandths, such as a cpufreq file in kHz or a thermal
/// zone in millidegrees, in whole units: the trimmed text read as a `u32`,
/// divided by 1000.
pub fn thousandths(text: &str) -> (r: Option<u32>)
    ensures
        r == match u32_of(trim_seq(text@)) {
            Some(k) => Some((k / 1000) as u32),
            None => None,
        },
{
    let v = chars_of(text);
    let n = v.len();
    assert(v@.subrange(0, n as int) =~= text@);
    let (a, b) = trim_span(&v, 0, n);
    match u32_in(&v, a, b) {
        Some(k) => Some(k / 1000),
        None => None,
    }
}


/// An ARM implementer code that the vendor table knows.
pub open spec fn known_implementer(code: Seq<char>) -> bool {
    code == "0x41"@ || code == "0x42"@ || code == "0x43"@ || code == "0x44"@ || code == "0x4e"@ || code == "0x50"@ || code == "0x51"@ || code == "0x53"@ || code == "0x54"@ || code == "0x56"@ || code == "0x61"@ || code == "0x66"@ || code == "0x69"@
}

/// Each known ARM implementer code names its vendor: 0x41 ARM, 0x42 Broadcom,
/// 0x43 Cavium, 0x44 DEC, 0x4e NVIDIA, 0x50 APM, 0x51 Qualcomm, 0x53 Samsung,
/// 0x54 HiSilicon, 0x56 Marvell, 0x61 Apple, 0x66 Faraday, 0x69 Intel; the
/// name is `Unknown` exactly for the codes outside that table.
pub proof fn law_implementer_names(code: Seq<char>)
    ensures
        code == "0x41"@ ==> implementer_name_spec(code) == "ARM"@,
        code == "0x42"@ ==> implementer_name_spec(code) == "Broadcom"@,
        code == "0x43"@ ==> implementer_name_spec(code) == "Cavium"@,
        code == "0x44"@ ==> implementer_name_spec(code) == "DEC"@,
        code == "0x4e"@ ==> implementer_name_spec(code) == "NVIDIA"@,
        code == "0x50"@ ==> implementer_name_spec(code) == "APM"@,
        code == "0x51"@ ==> implementer_name_spec(code) == "Qualcomm"@,
        code == "0x53"@ ==> implementer_name_spec(code) == "Samsung"@,
        code == "0x54"@ ==> implementer_name_spec(code) == "HiSilicon"@,
        code == "0x56"@ ==> implementer_name_spec(code) == "Marvell"@,
        code == "0x61"@ ==> implementer_name_spec(code) == "Apple"@,
        code == "0x66"@ ==> implementer_name_spec(code) == "Faraday"@,
        code == "0x69"@ ==> implementer_name_spec(code) == "Intel"@,
        implementer_name_spec(code) == "Unknown"@ <==> !known_implementer(code),
{
    reveal_strlit("ARM");
    reveal_strlit("Broadcom");
    reveal_strlit("Cavium");
    reveal_strlit("DEC");
    reveal_strlit("NVIDIA");
    reveal_strlit("APM");
    reveal_strlit("Qualcomm");
    reveal_strlit("Samsung");
    reveal_strlit("HiSilicon");
    reveal_strlit("Marvell");
    reveal_strlit("Apple");
    reveal_strlit("Faraday");
    reveal_strlit("Intel");
    reveal_strlit("Unknown");
    assert("ARM"@.len() == 3 && "ARM"@[0] == 'A' && "ARM"@[1] == 'R');
    assert("Broadcom"@.len() == 8 && "Broadcom"@[0] == 'B' && "Broadcom"@[1] == 'r');
    assert("Cavium"@.len() == 6 && "Cavium"@[0] == 'C' && "Cavium"@[1] == 'a');
    assert("DEC"@.len() == 3 && "DEC"@[0] == 'D' && "DEC"@[1] == 'E');
    assert("NVIDIA"@.len() == 6 && "NVIDIA"@[0] == 'N' && "NVIDIA"@[1] == 'V');
    assert("APM"@.len() == 3 && "APM"@[0] == 'A' && "APM"@[1] == 'P');
    assert("Qualcomm"@.len() == 8 && "Qualcomm"@[0] == 'Q' && "Qualcomm"@[1] == 'u');
    assert("Samsung"@.len() == 7 && "Samsung"@[0] == 'S' && "Samsung"@[1] == 'a');
    assert("HiSilicon"@.len() == 9 && "HiSilicon"@[0] == 'H' && "HiSilicon"@[1] == 'i');
    assert("Marvell"@.len() == 7 && "Marvell"@[0] == 'M' && "Marvell"@[1] == 'a');
    assert("Apple"@.len() == 5 && "Apple"@[0] == 'A' && "Apple"@[1] == 'p');
    assert("Faraday"@.len() == 7 && "Faraday"@[0] == 'F' && "Faraday"@[1] == 'a');
    assert("Intel"@.len() == 5 && "Intel"@[0] == 'I' && "Intel"@[1] == 'n');
    assert("Unknown"@.len() == 7 && "Unknown"@[0] == 'U' && "Unknown"@[1] == 'n');
    reveal_strlit("0x41");
    reveal_strlit("0x42");
    reveal_strlit("0x43");
    reveal_strlit("0x44");
    reveal_strlit("0x4e");
    reveal_strlit("0x50");
    reveal_strlit("0x51");
    reveal_strlit("0x53");
    reveal_strlit("0x54");
    reveal_strlit("0x56");
    reveal_strlit("0x61");
    reveal_strlit("0x66");
    reveal_strlit("0x69");
    assert("0x41"@.len() == 4 && "0x41"@[2] == '4' && "0x41"@[3] == '1');
    assert("0x42"@.len() == 4 && "0x42"@[2] == '4' && "0x42"@[3] == '2');
    assert("0x43"@.len() == 4 && "0x43"@[2] == '4' && "0x43"@[3] == '3');
    assert("0x44"@.len() == 4 && "0x44"@[2] == '4' && "0x44"@[3] == '4');
    assert("0x4e"@.len() == 4 && "0x4e"@[2] == '4' && "0x4e"@[3] == 'e');
    assert("0x50"@.len() == 4 && "0x50"@[2] == '5' && "0x50"@[3] == '0');
    assert("0x51"@.len() == 4 && "0x51"@[2] == '5' && "0x51"@[3] == '1');
    assert("0x53"@.len() == 4 && "0x53"@[2] == '5' && "0x53"@[3] == '3');
    assert("0x54"@.len() == 4 && "0x54"@[2] == '5' && "0x54"@[3] == '4');
    assert("0x56"@.len() == 4 && "0x56"@[2] == '5' && "0x56"@[3] == '6');
    assert("0x61"@.len() == 4 && "0x61"@[2] == '6' && "0x61"@[3] == '1');
    assert("0x66"@.len() == 4 && "0x66"@[2] == '6' && "0x66"@[3] == '6');
    assert("0x69"@.len() == 4 && "0x69"@[2] == '6' && "0x69"@[3] == '9');
}

/// Distinct known implementer codes name distinct vendors.
pub proof fn law_implementer_names_distinct(c1: Seq<char>, c2: Seq<char>)
    requires
        known_implementer(c1),
        known_implementer(c2),
        implementer_name_spec(c1) == implementer_name_spec(c2),
    ensures
        c1 == c2,
{
    reveal_strlit("ARM");
    reveal_strlit("Broadcom");
    reveal_strlit("Cavium");
    reveal_strlit("DEC");
    reveal_strlit("NVIDIA");
    reveal_strlit("APM");
    reveal_strlit("Qualcomm");
    reveal_strlit("Samsung");
    reveal_strlit("HiSilicon");
    reveal_strlit("Marvell");
    reveal_strlit("Apple");
    reveal_strlit("Faraday");
    reveal_strlit("Intel");
    reveal_strlit("Unknown");
    assert("ARM"@.len() == 3 && "ARM"@[0] == 'A' && "ARM"@[1] == 'R');
    assert("Broadcom"@.len() == 8 && "Broadcom"@[0] == 'B' && "Broadcom"@[1] == 'r');
    assert("Cavium"@.len() == 6 && "Cavium"@[0] == 'C' && "Cavium"@[1] == 'a');
    assert("DEC"@.len() == 3 && "DEC"@[0] == 'D' && "DEC"@[1] == 'E');
    assert("NVIDIA"@.len() == 6 && "NVIDIA"@[0] == 'N' && "NVIDIA"@[1] == 'V');
    assert("APM"@.len() == 3 && "APM"@[0] == 'A' && "APM"@[1] == 'P');
    assert("Qualcomm"@.len() == 8 && "Qualcomm"@[0] == 'Q' && "Qualcomm"@[1] == 'u');
    assert("Samsung"@.len() == 7 && "Samsung"@[0] == 'S' && "Samsung"@[1] == 'a');
    assert("HiSilicon"@.len() == 9 && "HiSilicon"@[0] == 'H' && "HiSilicon"@[1] == 'i');
    assert("Marvell"@.len() == 7 && "Marvell"@[0] == 'M' && "Marvell"@[1] == 'a');
    assert("Apple"@.len() == 5 && "Apple"@[0] == 'A' && "Apple"@[1] == 'p');
    assert("Faraday"@.len() == 7 && "Faraday"@[0] == 'F' && "Faraday"@[1] == 'a');
    assert("Intel"@.len() == 5 && "Intel"@[0] == 'I' && "Intel"@[1] == 'n');
    assert("Unknown"@.len() == 7 && "Unknown"@[0] == 'U' && "Unknown"@[1] == 'n');
    reveal_strlit("0x41");
    reveal_strlit("0x42");
    reveal_strlit("0x43");
    reveal_strlit("0x44");
    reveal_strlit("0x4e");
    reveal_strlit("0x50");
    reveal_strlit("0x51");
    reveal_strlit("0x53");
    reveal_strlit("0x54");
    reveal_strlit("0x56");
    reveal_strlit("0x61");
    reveal_strlit("0x66");
    reveal_strlit("0x69");
    assert("0x41"@.len() == 4 && "0x41"@[2] == '4' && "0x41"@[3] == '1');
    assert("0x42"@.len() == 4 && "0x42"@[2] == '4' && "0x42"@[3] == '2');
    assert("0x43"@.len() == 4 && "0x43"@[2] == '4' && "0x43"@[3] == '3');
    assert("0x44"@.len() == 4 && "0x44"@[2] == '4' && "0x44"@[3] == '4');
    assert("0x4e"@.len() == 4 && "0x4e"@[2] == '4' && "0x4e"@[3] == 'e');
    assert("0x50"@.len() == 4 && "0x50"@[2] == '5' && "0x50"@[3] == '0');
    assert("0x51"@.len() == 4 && "0x51"@[2] == '5' && "0x51"@[3] == '1');
    assert("0x53"@.len() == 4 && "0x53"@[2] == '5' && "0x53"@[3] == '3');
    assert("0x54"@.len() == 4 && "0x54"@[2] == '5' && "0x54"@[3] == '4');
    assert("0x56"@.len() == 4 && "0x56"@[2] == '5' && "0x56"@[3] == '6');
    assert("0x61"@.len() == 4 && "0x61"@[2] == '6' && "0x61"@[3] == '1');
    assert("0x66"@.len() == 4 && "0x66"@[2] == '6' && "0x66"@[3] == '6');
    assert("0x69"@.len() == 4 && "0x69"@[2] == '6' && "0x69"@[3] == '9');
}

/// The model name made for an ARM processor with a known implementer and a
/// part is `<vendor> ARM Processor (Part: <part>)`, the vendor being the
/// implementer's; with no part it is `<vendor> ARM Processor`.
pub proof fn law_arm_model_of_known_implementer(code: Seq<char>, part: Seq<char>)
    requires
        known_implementer(code),
    ensures
        part.len() > 0 ==> arm_model_spec(code, part) == implementer_name_spec(code) + " ARM Processor (Part: "@
            + part + ")"@,
        part.len() == 0 ==> arm_model_spec(code, part) == implementer_name_spec(code) + " ARM Processor"@,
        code == "0x54"@ && part.len() > 0 ==> arm_model_spec(code, part) == "HiSilicon ARM Processor (Part: "@ + part
            + ")"@,
{
    reveal_strlit(" ARM Processor");
    reveal_strlit(" (Part: ");
    reveal_strlit(" ARM Processor (Part: ");
    reveal_strlit("HiSilicon ARM Processor (Part: ");
    reveal_strlit("HiSilicon");
    reveal_strlit("0x41");
    reveal_strlit("0x42");
    reveal_strlit("0x43");
    reveal_strlit("0x44");
    reveal_strlit("0x4e");
    reveal_strlit("0x50");
    reveal_strlit("0x51");
    reveal_strlit("0x53");
    reveal_strlit("0x54");
    reveal_strlit("0x56");
    reveal_strlit("0x61");
    reveal_strlit("0x66");
    reveal_strlit("0x69");
    assert("0x41"@.len() == 4 && "0x41"@[2] == '4' && "0x41"@[3] == '1');
    assert("0x42"@.len() == 4 && "0x42"@[2] == '4' && "0x42"@[3] == '2');
    assert("0x43"@.len() == 4 && "0x43"@[2] == '4' && "0x43"@[3] == '3');
    assert("0x44"@.len() == 4 && "0x44"@[2] == '4' && "0x44"@[3] == '4');
    assert("0x4e"@.len() == 4 && "0x4e"@[2] == '4' && "0x4e"@[3] == 'e');
    assert("0x50"@.len() == 4 && "0x50"@[2] == '5' && "0x50"@[3] == '0');
    assert("0x51"@.len() == 4 && "0x51"@[2] == '5' && "0x51"@[3] == '1');
    assert("0x53"@.len() == 4 && "0x53"@[2] == '5' && "0x53"@[3] == '3');
    assert("0x54"@.len() == 4 && "0x54"@[2] == '5' && "0x54"@[3] == '4');
    assert("0x56"@.len() == 4 && "0x56"@[2] == '5' && "0x56"@[3] == '6');
    assert("0x61"@.len() == 4 && "0x61"@[2] == '6' && "0x61"@[3] == '1');
    assert("0x66"@.len() == 4 && "0x66"@[2] == '6' && "0x66"@[3] == '6');
    assert("0x69"@.len() == 4 && "0x69"@[2] == '6' && "0x69"@[3] == '9');
    assert(" ARM Processor"@ + " (Part: "@ =~= " ARM Processor (Part: "@);
    assert("HiSilicon"@ + " ARM Processor (Part: "@ =~= "HiSilicon ARM Processor (Part: "@);
    assert(code.len() > 0);
}


/// Without implementer and part codes the model name is `ARM Processor`;
/// with an implementer code outside the vendor table it names the vendor
/// `Unknown`.
pub proof fn law_arm_model_without_known_vendor(code: Seq<char>, part: Seq<char>)
    ensures
        code.len() == 0 && part.len() == 0 ==> arm_model_spec(code, part) == "ARM Processor"@,
        !known_implementer(code) && (code.len() > 0 || part.len() > 0) && part.len() == 0 ==> arm_model_spec(code, part)
            == "Unknown ARM Processor"@,
        !known_implementer(code) && part.len() > 0 ==> arm_model_spec(code, part) == "Unknown ARM Processor (Part: "@
            + part + ")"@,
{
    law_implementer_names(code);
    reveal_strlit("Unknown");
    reveal_strlit(" ARM Processor");
    reveal_strlit(" (Part: ");
    reveal_strlit("Unknown ARM Processor");
    reveal_strlit("Unknown ARM Processor (Part: ");
    assert("Unknown"@ + " ARM Processor"@ =~= "Unknown ARM Processor"@);
    assert("Unknown"@ + " ARM Processor"@ + " (Part: "@ =~= "Unknown ARM Processor (Part: "@);
}

} // verus!
