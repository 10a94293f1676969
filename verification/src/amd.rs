//! AMD GPUs: the detail map and the integer readings of a device, from the
//! values that the driver reports for it.
use vstd::prelude::*;
use crate::labels::LabelMap;
use crate::number::{push_padded, push_radix, radix_string, zero_pad};
use crate::text::string_of;

verus! {

/// A PCIe link: its generation and lane count.
#[derive(Debug, Clone, Copy, PartialEq, Eq, Structural)]
pub struct AmdPcieLink {
    pub gen: u32,
    pub width: u32,
}

/// A power cap in watts: the current cap and its allowed range.
#[derive(Debug, Clone, Copy, PartialEq, Eq, Structural)]
pub struct AmdPowerCap {
    pub current: u32,
    pub min: u32,
    pub max: u32,
}

/// What the driver reports of one AMD GPU, as plain values. The `sensor_`
/// values and the current link, fan speed and memory clock come from the
/// hwmon sensors and are `None` where there are no sensors; the `metrics_`
/// values come from the GPU metrics table.
#[derive(Debug)]
pub struct AmdGpuSample {
    pub marketing_name: String,
    pub pci_bus: String,
    pub rocm_version: Option<String>,
    pub device_id: u32,
    pub revision_id: u32,
    pub asic_name: String,
    /// VBIOS version and date.
    pub vbios: Option<(String, String)>,
    pub power_cap: Option<AmdPowerCap>,
    pub max_gpu_link: Option<AmdPcieLink>,
    pub max_system_link: Option<AmdPcieLink>,
    pub min_dpm_link: Option<AmdPcieLink>,
    pub max_dpm_link: Option<AmdPcieLink>,
    pub current_link: Option<AmdPcieLink>,
    pub fan_rpm: Option<u32>,
    pub mclk: Option<u32>,
    /// Edge temperature in degrees Celsius from the metrics table.
    pub metrics_temperature: Option<u32>,
    /// Current graphics clock in MHz from the metrics table.
    pub metrics_gfxclk: Option<u32>,
    /// Edge temperature in degrees Celsius from the sensors.
    pub sensor_edge_temperature: Option<u32>,
    /// Shader clock in MHz from the sensors.
    pub sensor_sclk: Option<u32>,
    /// VRAM total heap size in bytes.
    pub vram_total_heap: u64,
    /// VRAM usable heap size in bytes.
    pub vram_usable_heap: u64,
}

/// `format!("{}", n)`.
pub open spec fn dec(n: nat) -> Seq<char> {
    radix_string(n, 10)
}

/// `format!("{:#0w$x}", n)`: `0x` and the hexadecimal digits, zero-padded so
/// that the whole has at least `w` characters.
pub open spec fn alt_hex(n: nat, w: nat) -> Seq<char> {
    "0x"@ + zero_pad(radix_string(n, 16), (w - 2) as nat)
}

/// `Gen<gen> x<width>`.
pub open spec fn link_text(l: AmdPcieLink) -> Seq<char> {
    "Gen"@ + dec(l.gen as nat) + " x"@ + dec(l.width as nat)
}

/// `m` with `key` set to the text of the link, when there is one.
pub open spec fn with_link(m: Map<Seq<char>, Seq<char>>, key: Seq<char>, l: Option<AmdPcieLink>) -> Map<
    Seq<char>,
    Seq<char>,
> {
    match l {
        Some(x) => m.insert(key, link_text(x)),
        None => m,
    }
}

/// The detail map of an AMD GPU: name, PCI bus, ROCm version, device and
/// revision ids, ASIC name, VBIOS, power cap, the PCIe links, fan speed and
/// memory clock, each where it is known.
pub open spec fn amd_detail_spec(s: AmdGpuSample) -> Map<Seq<char>, Seq<char>> {
    let m0 = Map::<Seq<char>, Seq<char>>::empty().insert("Device Name"@, s.marketing_name@).insert(
        "PCI Bus"@,
        s.pci_bus@,
    );
    let m1 = match s.rocm_version {
        Some(v) => m0.insert("ROCm Version"@, v@),
        None => m0,
    };
    let m2 = m1.insert("Device ID"@, alt_hex(s.device_id as nat, 6)).insert(
        "Revision ID"@,
        alt_hex(s.revision_id as nat, 4),
    ).insert("ASIC Name"@, s.asic_name@);
    let m3 = match s.vbios {
        Some((ver, date)) => m2.insert("VBIOS Version"@, ver@).insert("VBIOS Date"@, date@),
        None => m2,
    };
    let m4 = match s.power_cap {
        Some(c) => m3.insert("Power Cap"@, dec(c.current as nat) + " W"@).insert(
            "Power Cap (Min)"@,
            dec(c.min as nat) + " W"@,
        ).insert("Power Cap (Max)"@, dec(c.max as nat) + " W"@),
        None => m3,
    };
    let m5 = with_link(
        with_link(
            with_link(with_link(with_link(m4, "Max GPU Link"@, s.max_gpu_link), "Max System Link"@, s.max_system_link), "Min DPM Link"@, s.min_dpm_link),
            "Max DPM Link"@,
            s.max_dpm_link,
        ),
        "Current Link"@,
        s.current_link,
    );
    let m6 = match s.fan_rpm {
        Some(f) => m5.insert("Fan Speed"@, dec(f as nat) + " RPM"@),
        None => m5,
    };
    match s.mclk {
        Some(c) => m6.insert("Memory Clock"@, dec(c as nat) + " MHz"@),
        None => m6,
    }
}

/// A reading from the metrics table, or from the sensors where the table
/// gives none or zero.
pub open spec fn reading_with_fallback(primary: Option<u32>, fallback: Option<u32>) -> u32 {
    let p = match primary {
        Some(x) => x,
        None => 0,
    };
    if p == 0 {
        match fallback {
            Some(x) => x,
            None => 0,
        }
    } else {
        p
    }
}

fn with_unit(n: u32, unit: &str) -> (r: String)
    ensures
        r@ == dec(n as nat) + unit@,
{
    let mut s = String::new();
    push_radix(&mut s, n as u64, 10);
    s.append(unit);
    s
}

fn alt_hex_string(n: u32, width: usize) -> (r: String)
    requires
        width >= 2,
    ensures
        r@ == alt_hex(n as nat, width as nat),
{
    let mut s = string_of("0x");
    push_padded(&mut s, n as u64, 16, width - 2);
    s
}

fn link_string(l: AmdPcieLink) -> (r: String)
    ensures
        r@ == link_text(l),
{
    let mut s = string_of("Gen");
    push_radix(&mut s, l.gen as u64, 10);
    s.append(" x");
    push_radix(&mut s, l.width as u64, 10);
    s
}

fn insert_link(m: &mut LabelMap, key: &str, l: Option<AmdPcieLink>)
    requires
        old(m).wf(),
    ensures
        final(m).wf(),
        final(m)@ == with_link(old(m)@, key@, l),
{
    if let Some(x) = l {
        m.insert(string_of(key), link_string(x));
    }
}

/// The detail map of an AMD GPU.
pub fn amd_gpu_detail(s: &AmdGpuSample) -> (m: LabelMap)
    ensures
        m.wf(),
        m@ == amd_detail_spec(*s),
{
    let mut m = LabelMap::new();
    m.insert(string_of("Device Name"), s.marketing_name.clone());
    m.insert(string_of("PCI Bus"), s.pci_bus.clone());
    if let Some(v) = &s.rocm_version {
        m.insert(string_of("ROCm Version"), v.clone());
    }
    m.insert(string_of("Device ID"), alt_hex_string(s.device_id, 6));
    m.insert(string_of("Revision ID"), alt_hex_string(s.revision_id, 4));
    m.insert(string_of("ASIC Name"), s.asic_name.clone());
    if let Some((ver, date)) = &s.vbios {
        m.insert(string_of("VBIOS Version"), ver.clone());
        m.insert(string_of("VBIOS Date"), date.clone());
    }
    if let Some(c) = s.power_cap {
        m.insert(string_of("Power Cap"), with_unit(c.current, " W"));
        m.insert(string_of("Power Cap (Min)"), with_unit(c.min, " W"));
        m.insert(string_of("Power Cap (Max)"), with_unit(c.max, " W"));
    }
    insert_link(&mut m, "Max GPU Link", s.max_gpu_link);
    insert_link(&mut m, "Max System Link", s.max_system_link);
    insert_link(&mut m, "Min DPM Link", s.min_dpm_link);
    insert_link(&mut m, "Max DPM Link", s.max_dpm_link);
    insert_link(&mut m, "Current Link", s.current_link);
    if let Some(f) = s.fan_rpm {
        m.insert(string_of("Fan Speed"), with_unit(f, " RPM"));
    }
    if let Some(c) = s.mclk {
        m.insert(string_of("Memory Clock"), with_unit(c, " MHz"));
    }
    m
}

fn fallback_reading(primary: Option<u32>, fallback: Option<u32>) -> (r: u32)
    ensures
        r == reading_with_fallback(primary, fallback),
{
    let mut v: u32 = match primary {
        Some(x) => x,
        None => 0,
    };
    if v == 0 {
        if let Some(x) = fallback {
            v = x;
        }
    }
    v
}

/// The temperature of the GPU in degrees Celsius: the metrics table's edge
/// temperature, or the sensors' where the table gives none or zero.
pub fn amd_temperature(s: &AmdGpuSample) -> (r: u32)
    ensures
        r == reading_with_fallback(s.metrics_temperature, s.sensor_edge_temperature),
{
    fallback_reading(s.metrics_temperature, s.sensor_edge_temperature)
}

/// The graphics clock in MHz: the metrics table's, or the sensors' shader
/// clock where the table gives none or zero.
pub fn amd_frequency(s: &AmdGpuSample) -> (r: u32)
    ensures
        r == reading_with_fallback(s.metrics_gfxclk, s.sensor_sclk),
{
    fallback_reading(s.metrics_gfxclk, s.sensor_sclk)
}

/// The VRAM size in bytes: the total heap size, or the usable heap size when
/// the total is not known (zero).
pub fn amd_total_memory(s: &AmdGpuSample) -> (r: u64)
    ensures
        r == if s.vram_total_heap > 0 { s.vram_total_heap } else { s.vram_usable_heap },
{
    if s.vram_total_heap > 0 {
        s.vram_total_heap
    } else if s.vram_usable_heap > 0 {
        s.vram_usable_heap
    } else {
        0
    }
}

/// The identifier of an AMD GPU: `GPU-` and its PCI bus address, since AMD
/// GPUs have no UUID.
pub fn amd_uuid(pci_bus: &str) -> (r: String)
    ensures
        r@ == "GPU-"@ + pci_bus@,
{
    let mut s = string_of("GPU-");
    s.append(pci_bus);
    s
}

} // verus!
