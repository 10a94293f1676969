//! Rebellions NPUs: where the vendor tool is found, how the fields of its
//! JSON report are read, the model variant by memory size, and the details
//! reported for a device.
use vstd::prelude::*;
use crate::labels::LabelMap;
use crate::number::parse_unsigned;
use crate::text::{
    chars_of, split_seq, split_spans, split_ws_seq, spans_view, trim_end_matches_seq,
    trim_end_matches_span, trim_start_matches_seq, trim_start_matches_span, ws_token_spans,
    span_to_string, string_of,
};
use crate::number::{parse_u32_span, parse_u64_span};

verus! {

/// `str::parse::<u32>`, with 0 for text that is no such number.
pub open spec fn u32_or_zero(s: Seq<char>) -> u32 {
    match parse_unsigned(s, 10, u32::MAX as nat) {
        Some(v) => v as u32,
        None => 0,
    }
}

/// `str::parse::<u64>`, with 0 for text that is no such number.
pub open spec fn u64_or_zero(s: Seq<char>) -> u64 {
    match parse_unsigned(s, 10, u64::MAX as nat) {
        Some(v) => v as u64,
        None => 0,
    }
}

fn u32_or_zero_of(v: &Vec<char>, lo: usize, hi: usize) -> (r: u32)
    requires
        lo <= hi <= v@.len(),
    ensures
        r == u32_or_zero(v@.subrange(lo as int, hi as int)),
{
    match parse_u32_span(v, lo, hi) {
        Some(x) => x,
        None => 0,
    }
}

fn u64_or_zero_of(v: &Vec<char>, lo: usize, hi: usize) -> (r: u64)
    requires
        lo <= hi <= v@.len(),
    ensures
        r == u64_or_zero(v@.subrange(lo as int, hi as int)),
{
    match parse_u64_span(v, lo, hi) {
        Some(x) => x,
        None => 0,
    }
}

/// Reads Rebellions NPUs through `rbln-smi`.
pub struct RebellionsReader {
    command_path: String,
}

/// Where `rbln-smi` is run from: `/usr/local/bin` when it is there, else
/// `/usr/bin`, else the search path.
pub open spec fn rbln_smi_path(in_usr_local_bin: bool, in_usr_bin: bool) -> Seq<char> {
    if in_usr_local_bin {
        "/usr/local/bin/rbln-smi"@
    } else if in_usr_bin {
        "/usr/bin/rbln-smi"@
    } else {
        "rbln-smi"@
    }
}

impl RebellionsReader {
    /// The command the reader runs.
    pub closed spec fn command_spec(&self) -> Seq<char> {
        self.command_path@
    }

    /// A reader of the `rbln-smi` found: the flags say whether it exists in
    /// `/usr/local/bin` and in `/usr/bin`.
    pub fn new(in_usr_local_bin: bool, in_usr_bin: bool) -> (r: Self)
        ensures
            r.command_spec() == rbln_smi_path(in_usr_local_bin, in_usr_bin),
    {
        let p = if in_usr_local_bin {
            "/usr/local/bin/rbln-smi"
        } else if in_usr_bin {
            "/usr/bin/rbln-smi"
        } else {
            "rbln-smi"
        };
        RebellionsReader { command_path: string_of(p) }
    }

    /// A reader that runs the given command.
    pub fn with_command_path(path: String) -> (r: Self)
        ensures
            r.command_spec() == path@,
    {
        RebellionsReader { command_path: path }
    }

    /// The command the reader runs.
    pub fn command_path(&self) -> (r: &str)
        ensures
            r@ == self.command_spec(),
    {
        self.command_path.as_str()
    }

    /// `str::parse::<u32>`, or 0.
    pub fn parse_u32(s: &str) -> (r: u32)
        ensures
            r == u32_or_zero(s@),
    {
        let v = chars_of(s);
        let n = v.len();
        assert(v@.subrange(0, n as int) =~= s@);
        u32_or_zero_of(&v, 0, n)
    }

    /// A temperature such as `45C`: trailing `C`s removed, then read as a
    /// `u32`, or 0.
    pub fn parse_temperature(temp_str: &str) -> (r: u32)
        ensures
            r == u32_or_zero(trim_end_matches_seq(temp_str@, seq!['C'])),
    {
        let v = chars_of(temp_str);
        let n = v.len();
        assert(v@.subrange(0, n as int) =~= temp_str@);
        let c = vec!['C'];
        assert(c@ =~= seq!['C']);
        let b = trim_end_matches_span(&v, 0, n, &c);
        u32_or_zero_of(&v, 0, b)
    }

    /// A byte count, or 0.
    pub fn parse_memory(mem_str: &str) -> (r: u64)
        ensures
            r == u64_or_zero(mem_str@),
    {
        let v = chars_of(mem_str);
        let n = v.len();
        assert(v@.subrange(0, n as int) =~= mem_str@);
        u64_or_zero_of(&v, 0, n)
    }
}

/// The model variant of a device by its memory: up to 16 GiB `ATOM`, up to
/// 32 GiB `ATOM+`, else `ATOM Max`.
pub open spec fn atom_variant(total_memory_bytes: u64) -> Seq<char> {
    if total_memory_bytes <= 16 * 0x4000_0000 {
        "ATOM"@
    } else if total_memory_bytes <= 32 * 0x4000_0000 {
        "ATOM+"@
    } else {
        "ATOM Max"@
    }
}

/// `name (variant)`, the variant told by the memory size.
pub fn get_device_model(name: &str, total_memory_bytes: u64) -> (r: String)
    ensures
        r@ == name@ + " ("@ + atom_variant(total_memory_bytes) + ")"@,
{
    let variant = if total_memory_bytes <= 16 * 0x4000_0000 {
        "ATOM"
    } else if total_memory_bytes <= 32 * 0x4000_0000 {
        "ATOM+"
    } else {
        "ATOM Max"
    };
    let mut s = string_of(name);
    s.append(" (");
    s.append(variant);
    s.append(")");
    s
}

/// The status message of a failed read.
pub fn read_error_status(error: &str) -> (r: String)
    ensures
        r@ == "Error reading Rebellions devices: "@ + error@,
{
    let mut s = string_of("Error reading Rebellions devices: ");
    s.append(error);
    s
}

/// The fields of one device in the report of the vendor tool.
pub struct RblnDevice {
    pub name: String,
    pub sid: String,
    pub uuid: String,
    pub device: String,
    pub status: String,
    pub fw_ver: String,
    pub bus_id: String,
    pub numa_node: String,
    pub link_speed: String,
    pub link_width: String,
    pub temperature: String,
    pub card_power: String,
    pub pstate: String,
    pub memory_used: String,
    pub memory_total: String,
    pub util: String,
    pub board_info: String,
}

/// The details that the reader reports of a device.
pub open spec fn rbln_detail_spec(kmd_version: Seq<char>, d: &RblnDevice) -> Map<Seq<char>, Seq<char>> {
    Map::<Seq<char>, Seq<char>>::empty().insert("KMD Version"@, kmd_version).insert(
        "Firmware Version"@,
        d.fw_ver@,
    ).insert("Device Name"@, d.device@).insert("Serial ID"@, d.sid@).insert("Status"@, d.status@).insert(
        "PCIe Bus"@,
        d.bus_id@,
    ).insert("PCIe Link Speed"@, d.link_speed@).insert("PCIe Link Width"@, "x"@ + d.link_width@).insert(
        "NUMA Node"@,
        d.numa_node@,
    ).insert("Performance State"@, d.pstate@).insert("Board Info"@, d.board_info@)
}

/// The details of a device, with the driver version of the report.
pub fn rbln_detail(kmd_version: &str, d: &RblnDevice) -> (m: LabelMap)
    ensures
        m.wf(),
        m@ == rbln_detail_spec(kmd_version@, d),
{
    let mut m = LabelMap::new();
    m.insert(string_of("KMD Version"), string_of(kmd_version));
    m.insert(string_of("Firmware Version"), d.fw_ver.clone());
    m.insert(string_of("Device Name"), d.device.clone());
    m.insert(string_of("Serial ID"), d.sid.clone());
    m.insert(string_of("Status"), d.status.clone());
    m.insert(string_of("PCIe Bus"), d.bus_id.clone());
    m.insert(string_of("PCIe Link Speed"), d.link_speed.clone());
    let mut w = string_of("x");
    w.append(d.link_width.as_str());
    m.insert(string_of("PCIe Link Width"), w);
    m.insert(string_of("NUMA Node"), d.numa_node.clone());
    m.insert(string_of("Performance State"), d.pstate.clone());
    m.insert(string_of("Board Info"), d.board_info.clone());
    m
}

/// The details that the NPU reader reports of a device.
pub open spec fn rbln_npu_detail_spec(kmd_version: Seq<char>, d: &RblnDevice) -> Map<Seq<char>, Seq<char>> {
    Map::<Seq<char>, Seq<char>>::empty().insert("Serial ID"@, d.sid@).insert(
        "Device Path"@,
        d.device@,
    ).insert("Status"@, d.status@).insert("Firmware Version"@, d.fw_ver@).insert(
        "KMD Version"@,
        kmd_version,
    ).insert("Board Info"@, d.board_info@).insert("PCI Bus ID"@, d.bus_id@).insert(
        "PCI NUMA Node"@,
        d.numa_node@,
    ).insert("PCI Link Speed"@, d.link_speed@).insert("PCI Link Width"@, d.link_width@).insert(
        "Performance State"@,
        d.pstate@,
    )
}

/// The details of a device as the NPU reader reports them, with the driver
/// version of the report.
pub fn rbln_npu_detail(kmd_version: &str, d: &RblnDevice) -> (m: LabelMap)
    ensures
        m.wf(),
        m@ == rbln_npu_detail_spec(kmd_version@, d),
{
    let mut m = LabelMap::new();
    m.insert(string_of("Serial ID"), d.sid.clone());
    m.insert(string_of("Device Path"), d.device.clone());
    m.insert(string_of("Status"), d.status.clone());
    m.insert(string_of("Firmware Version"), d.fw_ver.clone());
    m.insert(string_of("KMD Version"), string_of(kmd_version));
    m.insert(string_of("Board Info"), d.board_info.clone());
    m.insert(string_of("PCI Bus ID"), d.bus_id.clone());
    m.insert(string_of("PCI NUMA Node"), d.numa_node.clone());
    m.insert(string_of("PCI Link Speed"), d.link_speed.clone());
    m.insert(string_of("PCI Link Width"), d.link_width.clone());
    m.insert(string_of("Performance State"), d.pstate.clone());
    m
}

/// The name of a device: `Rebellions <model>`.
pub fn rbln_device_name(d: &RblnDevice) -> (r: String)
    ensures
        r@ == "Rebellions "@ + d.name@ + " ("@ + atom_variant(u64_or_zero(d.memory_total@)) + ")"@,
{
    let total = RebellionsReader::parse_memory(d.memory_total.as_str());
    let model = get_device_model(d.name.as_str(), total);
    let mut s = string_of("Rebellions ");
    s.append(model.as_str());
    s
}

/// Reads Rebellions NPUs through `rbln-stat` or `rbln-smi`.
pub struct RebellionsNpuReader;

impl RebellionsNpuReader {
    /// The reader.
    pub fn new() -> (r: Self) {
        RebellionsNpuReader
    }

    /// The tool to run, as its name and its path: the first of the known paths
    /// that exists; else `rbln-stat`, then `rbln-smi`, when the search path has
    /// it; else none.
    pub fn get_rebellions_command(exists: &[bool; 4], stat_on_path: bool, smi_on_path: bool) -> (r: Option<
        (String, String),
    >)
        ensures
            exists[0] ==> (r matches Some(c) && c.0@ == "rbln-stat"@ && c.1@ == rbln_tool_paths()[0]),
            !exists[0] && exists[1] ==> (r matches Some(c) && c.0@ == "rbln-stat"@ && c.1@
                == rbln_tool_paths()[1]),
            !exists[0] && !exists[1] && exists[2] ==> (r matches Some(c) && c.0@ == "rbln-smi"@ && c.1@
                == rbln_tool_paths()[2]),
            !exists[0] && !exists[1] && !exists[2] && exists[3] ==> (r matches Some(c) && c.0@
                == "rbln-smi"@ && c.1@ == rbln_tool_paths()[3]),
            !exists[0] && !exists[1] && !exists[2] && !exists[3] ==> (if stat_on_path {
                r matches Some(c) && c.0@ == "rbln-stat"@ && c.1@ == "rbln-stat"@
            } else if smi_on_path {
                r matches Some(c) && c.0@ == "rbln-smi"@ && c.1@ == "rbln-smi"@
            } else {
                r is None
            }),
    {
        if exists[0] {
            Some((string_of("rbln-stat"), string_of("/usr/local/bin/rbln-stat")))
        } else if exists[1] {
            Some((string_of("rbln-stat"), string_of("/usr/bin/rbln-stat")))
        } else if exists[2] {
            Some((string_of("rbln-smi"), string_of("/usr/local/bin/rbln-smi")))
        } else if exists[3] {
            Some((string_of("rbln-smi"), string_of("/usr/bin/rbln-smi")))
        } else if stat_on_path {
            Some((string_of("rbln-stat"), string_of("rbln-stat")))
        } else if smi_on_path {
            Some((string_of("rbln-smi"), string_of("rbln-smi")))
        } else {
            None
        }
    }
}

/// The paths where the vendor tools are looked for, in order.
pub open spec fn rbln_tool_paths() -> Seq<Seq<char>> {
    seq![
        "/usr/local/bin/rbln-stat"@,
        "/usr/bin/rbln-stat"@,
        "/usr/local/bin/rbln-smi"@,
        "/usr/bin/rbln-smi"@,
    ]
}

/// A temperature such as `45C/90C`: trailing `C`s removed, the part before
/// the first `/` read as a `u32`, or 0.
pub fn npu_parse_temperature(temp_str: &str) -> (r: u32)
    ensures
        r == u32_or_zero(split_seq(trim_end_matches_seq(temp_str@, seq!['C']), '/')[0]),
{
    let v = chars_of(temp_str);
    let n = v.len();
    assert(v@.subrange(0, n as int) =~= temp_str@);
    let c = vec!['C'];
    assert(c@ =~= seq!['C']);
    let b = trim_end_matches_span(&v, 0, n, &c);
    let parts = split_spans(&v, 0, b, '/');
    proof {
        crate::text::lemma_split_nonempty(v@.subrange(0, b as int), '/');
    }
    let (lo, hi) = parts[0];
    assert(spans_view(v@, parts@)[0] == v@.subrange(lo as int, hi as int));
    u32_or_zero_of(&v, lo, hi)
}

/// Memory in bytes from a figure in MiB such as `512MiB`: trailing `MiB`s
/// removed, read as a `u64` (0 when it is none), times 2^20.
pub fn parse_memory_mib(mem: &str) -> (r: u64)
    requires
        u64_or_zero(trim_end_matches_seq(mem@, "MiB"@)) * 0x10_0000 <= u64::MAX,
    ensures
        r == u64_or_zero(trim_end_matches_seq(mem@, "MiB"@)) * 0x10_0000,
{
    let v = chars_of(mem);
    let n = v.len();
    assert(v@.subrange(0, n as int) =~= mem@);
    let p = chars_of("MiB");
    let b = trim_end_matches_span(&v, 0, n, &p);
    let x = u64_or_zero_of(&v, 0, b);
    x * 0x10_0000
}

/// The program name of a command line: the last `/`-separated part of its
/// first word, or `unknown` when it has none.
pub open spec fn process_name_spec(cmd: Seq<char>) -> Seq<char> {
    let words = split_ws_seq(cmd);
    if words.len() == 0 {
        "unknown"@
    } else {
        split_seq(words[0], '/').last()
    }
}

/// The program name of a command line.
pub fn extract_process_name(cmd: &str) -> (r: String)
    ensures
        r@ == process_name_spec(cmd@),
{
    let v = chars_of(cmd);
    let n = v.len();
    assert(v@.subrange(0, n as int) =~= cmd@);
    let words = ws_token_spans(&v, 0, n);
    if words.len() == 0 {
        return string_of("unknown");
    }
    let (lo, hi) = words[0];
    assert(spans_view(v@, words@)[0] == v@.subrange(lo as int, hi as int));
    let parts = split_spans(&v, lo, hi, '/');
    proof {
        crate::text::lemma_split_nonempty(v@.subrange(lo as int, hi as int), '/');
    }
    let k = parts.len() - 1;
    let (a, b) = parts[k];
    assert(spans_view(v@, parts@)[k as int] == v@.subrange(a as int, b as int));
    span_to_string(&v, a, b)
}

/// The device index of a context's NPU name such as `npu3`: leading `npu`s
/// removed, read as a number, or 0.
pub fn context_device_id(npu: &str) -> (r: u64)
    ensures
        r == u64_or_zero(trim_start_matches_seq(npu@, "npu"@)),
{
    let v = chars_of(npu);
    let n = v.len();
    assert(v@.subrange(0, n as int) =~= npu@);
    let p = chars_of("npu");
    let a = trim_start_matches_span(&v, 0, n, &p);
    u64_or_zero_of(&v, a, n)
}

/// Memory in bytes of a context from a figure in MB such as `256MB`.
pub fn context_memory_bytes(mem: &str) -> (r: u64)
    requires
        u64_or_zero(trim_end_matches_seq(mem@, "MB"@)) * 0x10_0000 <= u64::MAX,
    ensures
        r == u64_or_zero(trim_end_matches_seq(mem@, "MB"@)) * 0x10_0000,
{
    let v = chars_of(mem);
    let n = v.len();
    assert(v@.subrange(0, n as int) =~= mem@);
    let p = chars_of("MB");
    let b = trim_end_matches_span(&v, 0, n, &p);
    let x = u64_or_zero_of(&v, 0, b);
    x * 0x10_0000
}

} // verus!
