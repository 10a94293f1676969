//! The mock Apple Silicon node: the Prometheus template with a placeholder
//! for every dynamic value, and its rendering with the values of a sample.
use vstd::prelude::*;
use crate::number::{push_radix, radix_string};
use crate::text::{
    contains_seq, count_char, lacks_char, lemma_replace_keeps_count, lemma_replace_not_found, replace_all,
    replace_seq, starts_with_seq, string_of,
};

verus! {

/// A decimal number.
pub open spec fn dec(n: nat) -> Seq<char> {
    radix_string(n, 10)
}

/// `start` followed by the placeholder `{{<name><i>}}`.
pub open spec fn with_placeholder(start: Seq<char>, name: Seq<char>, i: nat) -> Seq<char> {
    start + "{{"@ + name + dec(i) + "}}"@
}

/// The placeholder `{{<name><i>}}`.
pub open spec fn placeholder(name: Seq<char>, i: nat) -> Seq<char> {
    with_placeholder(Seq::empty(), name, i)
}

/// `start` followed by the sample line of GPU `i` for a metric, its value a
/// placeholder; the thermal metric also labels the level with a
/// placeholder.
pub open spec fn with_gpu_line(
    start: Seq<char>,
    metric: Seq<char>,
    gpu: Seq<char>,
    inst: Seq<char>,
    uuid: Seq<char>,
    i: nat,
    value: Seq<char>,
    thermal: bool,
) -> Seq<char> {
    let labels = start + metric + "{gpu=\""@ + gpu + "\", instance=\""@ + inst + "\", uuid=\""@ + uuid
        + "\", index=\""@ + dec(i) + "\""@;
    let level = if thermal {
        with_placeholder(labels + ", level=\""@, "THERMAL_LEVEL_"@, i) + "\""@
    } else {
        labels
    };
    with_placeholder(level + "} "@, value, i) + "\n"@
}

/// `start` followed by the sample lines of the first `n` GPUs for a metric.
pub open spec fn with_gpu_lines(
    start: Seq<char>,
    metric: Seq<char>,
    gpu: Seq<char>,
    inst: Seq<char>,
    uuids: Seq<Seq<char>>,
    n: nat,
    value: Seq<char>,
    thermal: bool,
) -> Seq<char>
    decreases n,
{
    if n == 0 {
        start
    } else {
        with_gpu_line(
            with_gpu_lines(start, metric, gpu, inst, uuids, (n - 1) as nat, value, thermal),
            metric,
            gpu,
            inst,
            uuids[n - 1],
            (n - 1) as nat,
            value,
            thermal,
        )
    }
}

/// `start` followed by the help and type lines of a gauge.
pub open spec fn with_gauge_header(start: Seq<char>, metric: Seq<char>, help: Seq<char>) -> Seq<char> {
    start + "# HELP "@ + metric + " "@ + help + "\n# TYPE "@ + metric + " gauge\n"@
}

/// The texts of a list of strings.
pub open spec fn views(v: Seq<String>) -> Seq<Seq<char>> {
    Seq::new(v.len(), |i: int| v[i]@)
}

/// Generates the mock responses of an Apple Silicon node.
pub struct AppleSiliconMockGenerator {
    gpu_name: String,
    instance_name: String,
}

/// `start` followed by a gauge section over all GPUs.
pub open spec fn with_gpu_section(
    start: Seq<char>,
    g: AppleSiliconMockGenerator,
    uuids: Seq<Seq<char>>,
    metric: Seq<char>,
    help: Seq<char>,
    value: Seq<char>,
    thermal: bool,
) -> Seq<char> {
    with_gpu_lines(
        with_gauge_header(start, metric, help),
        metric,
        g.gpu_name_spec(),
        g.instance_spec(),
        uuids,
        uuids.len(),
        value,
        thermal,
    )
}

/// `start` followed by the system part of the template: CPU utilization
/// and core counts by core type, memory used, total and pressure.
pub open spec fn with_system_section(start: Seq<char>, inst: Seq<char>, memory_total_bytes: u64) -> Seq<char> {
    start + "# HELP all_smi_cpu_utilization CPU utilization percentage\n# TYPE all_smi_cpu_utilization gauge\n"@
        + "all_smi_cpu_utilization{instance=\""@ + inst + "\", core_type=\"efficiency\"} {{CPU_E_UTIL}}\n"@
        + "all_smi_cpu_utilization{instance=\""@ + inst + "\", core_type=\"performance\"} {{CPU_P_UTIL}}\n"@
        + "all_smi_cpu_utilization{instance=\""@ + inst + "\"} {{CPU_UTIL}}\n"@
        + "# HELP all_smi_cpu_cores Number of CPU cores\n# TYPE all_smi_cpu_cores gauge\n"@
        + "all_smi_cpu_cores{instance=\""@ + inst + "\", core_type=\"efficiency\"} 4\n"@
        + "all_smi_cpu_cores{instance=\""@ + inst + "\", core_type=\"performance\"} 12\n"@
        + "all_smi_cpu_cores{instance=\""@ + inst + "\"} 16\n"@
        + "# HELP all_smi_memory_used_bytes System memory used in bytes\n# TYPE all_smi_memory_used_bytes gauge\n"@
        + "all_smi_memory_used_bytes{instance=\""@ + inst + "\"} {{MEM_USED}}\n"@
        + "# HELP all_smi_memory_total_bytes System memory total in bytes\n# TYPE all_smi_memory_total_bytes gauge\n"@
        + "all_smi_memory_total_bytes{instance=\""@ + inst + "\"} "@ + dec(memory_total_bytes as nat) + "\n"@
        + "# HELP all_smi_memory_pressure Memory pressure level\n# TYPE all_smi_memory_pressure gauge\n"@
        + "all_smi_memory_pressure{instance=\""@ + inst + "\"} {{MEM_PRESSURE}}\n"@
}

/// `start` followed by the GPU sections: utilization, memory used and
/// total, temperature, power and frequency.
pub open spec fn with_gpu_metrics(start: Seq<char>, g: AppleSiliconMockGenerator, uuids: Seq<Seq<char>>) -> Seq<char> {
    let s1 = with_gpu_section(start, g, uuids, "all_smi_gpu_utilization"@, "GPU utilization percentage"@, "UTIL_"@, false);
    let s2 = with_gpu_section(s1, g, uuids, "all_smi_gpu_memory_used_bytes"@, "GPU memory used in bytes"@, "MEM_USED_"@, false);
    let s3 = with_gpu_section(s2, g, uuids, "all_smi_gpu_memory_total_bytes"@, "GPU memory total in bytes"@, "MEM_TOTAL_"@, false);
    let s4 = with_gpu_section(s3, g, uuids, "all_smi_gpu_temperature_celsius"@, "GPU temperature in celsius"@, "TEMP_"@, false);
    let s5 = with_gpu_section(s4, g, uuids, "all_smi_gpu_power_consumption_watts"@, "GPU power consumption in watts"@, "POWER_"@, false);
    with_gpu_section(s5, g, uuids, "all_smi_gpu_frequency_mhz"@, "GPU frequency in MHz"@, "FREQ_"@, false)
}

/// `start` followed by the ANE sections: utilization and power.
pub open spec fn with_ane_metrics(start: Seq<char>, g: AppleSiliconMockGenerator, uuids: Seq<Seq<char>>) -> Seq<char> {
    let s1 = with_gpu_section(start, g, uuids, "all_smi_ane_utilization"@, "ANE utilization in mW"@, "ANE_"@, false);
    with_gpu_section(s1, g, uuids, "all_smi_ane_power_watts"@, "ANE power consumption in watts"@, "ANE_WATTS_"@, false)
}

/// `start` followed by the thermal pressure section.
pub open spec fn with_thermal_metrics(start: Seq<char>, g: AppleSiliconMockGenerator, uuids: Seq<Seq<char>>) -> Seq<char> {
    with_gpu_section(
        start,
        g,
        uuids,
        "all_smi_thermal_pressure_level"@,
        "Thermal pressure level (nominal/fair/serious/critical)"@,
        "THERMAL_VALUE_"@,
        true,
    )
}

/// The whole template for GPUs with the given uuids.
pub open spec fn apple_template(
    g: AppleSiliconMockGenerator,
    uuids: Seq<Seq<char>>,
    memory_total_bytes: u64,
) -> Seq<char> {
    let s1 = with_gpu_metrics(Seq::<char>::empty(), g, uuids);
    let s2 = with_ane_metrics(s1, g, uuids);
    let s3 = with_thermal_metrics(s2, g, uuids);
    with_system_section(s3, g.instance_spec(), memory_total_bytes)
}

fn push_placeholder(out: &mut String, name: &str, i: usize)
    ensures
        final(out)@ == with_placeholder(old(out)@, name@, i as nat),
{
    out.append("{{");
    out.append(name);
    push_radix(out, i as u64, 10);
    out.append("}}");
}

/// The thermal pressure of a temperature: nominal below 50 °C, fair below
/// 65, serious below 75, else critical; with its level number.
pub open spec fn thermal_pressure_spec(t: u32) -> (Seq<char>, u32) {
    if t < 50 {
        ("nominal"@, 0)
    } else if t < 65 {
        ("fair"@, 1)
    } else if t < 75 {
        ("serious"@, 2)
    } else {
        ("critical"@, 3)
    }
}

/// The thermal pressure of a temperature in degrees Celsius.
pub fn thermal_pressure(t: u32) -> (r: (&'static str, u32))
    ensures
        (r.0@, r.1) == thermal_pressure_spec(t),
{
    if t < 50 {
        ("nominal", 0)
    } else if t < 65 {
        ("fair", 1)
    } else if t < 75 {
        ("serious", 2)
    } else {
        ("critical", 3)
    }
}

/// The values of one GPU of a sample; the fractional ones already written
/// as the response shows them.
pub struct AppleGpuSample {
    /// Utilization with two decimals.
    pub utilization: String,
    pub memory_used_bytes: u64,
    pub memory_total_bytes: u64,
    pub temperature_celsius: u32,
    /// Power in watts with three decimals.
    pub power_watts: String,
    pub frequency_mhz: u32,
    /// ANE power in milliwatts with one decimal.
    pub ane_milliwatts: String,
    /// ANE power in watts with three decimals.
    pub ane_watts: String,
}

/// The values of the CPU and memory part of a sample.
pub struct AppleSystemSample {
    /// Efficiency-core utilization with two decimals.
    pub cpu_efficiency_utilization: String,
    /// Performance-core utilization with two decimals.
    pub cpu_performance_utilization: String,
    /// Overall utilization with two decimals.
    pub cpu_utilization: String,
    pub memory_used_bytes: u64,
    /// Memory pressure percentage with two decimals.
    pub memory_pressure: String,
}

/// `s` with the placeholders of GPU `i` filled from its sample, in the
/// order the response is rendered.
pub open spec fn fill_gpu(s: Seq<char>, g: AppleGpuSample, i: nat) -> Seq<char> {
    let t = thermal_pressure_spec(g.temperature_celsius);
    let s1 = replace_seq(s, placeholder("UTIL_"@, i), g.utilization@);
    let s2 = replace_seq(s1, placeholder("MEM_USED_"@, i), dec(g.memory_used_bytes as nat));
    let s3 = replace_seq(s2, placeholder("MEM_TOTAL_"@, i), dec(g.memory_total_bytes as nat));
    let s4 = replace_seq(s3, placeholder("TEMP_"@, i), dec(g.temperature_celsius as nat));
    let s5 = replace_seq(s4, placeholder("POWER_"@, i), g.power_watts@);
    let s6 = replace_seq(s5, placeholder("FREQ_"@, i), dec(g.frequency_mhz as nat));
    let s7 = replace_seq(s6, placeholder("ANE_"@, i), g.ane_milliwatts@);
    let s8 = replace_seq(s7, placeholder("ANE_WATTS_"@, i), g.ane_watts@);
    let s9 = replace_seq(s8, placeholder("THERMAL_LEVEL_"@, i), t.0);
    replace_seq(s9, placeholder("THERMAL_VALUE_"@, i), dec(t.1 as nat))
}

/// `s` with the placeholders of the first `n` GPUs filled.
pub open spec fn fill_gpus(s: Seq<char>, gpus: Seq<AppleGpuSample>, n: nat) -> Seq<char>
    decreases n,
{
    if n == 0 {
        s
    } else {
        fill_gpu(fill_gpus(s, gpus, (n - 1) as nat), gpus[n - 1], (n - 1) as nat)
    }
}

/// `s` with the CPU and memory placeholders filled.
pub open spec fn fill_system(s: Seq<char>, c: AppleSystemSample) -> Seq<char> {
    let s1 = replace_seq(s, "{{CPU_E_UTIL}}"@, c.cpu_efficiency_utilization@);
    let s2 = replace_seq(s1, "{{CPU_P_UTIL}}"@, c.cpu_performance_utilization@);
    let s3 = replace_seq(s2, "{{CPU_UTIL}}"@, c.cpu_utilization@);
    let s4 = replace_seq(s3, "{{MEM_USED}}"@, dec(c.memory_used_bytes as nat));
    replace_seq(s4, "{{MEM_PRESSURE}}"@, c.memory_pressure@)
}

fn placeholder_string(name: &str, i: usize) -> (r: String)
    ensures
        r@ == placeholder(name@, i as nat),
{
    let mut s = String::new();
    push_placeholder(&mut s, name, i);
    assert(s@ == placeholder(name@, i as nat));
    s
}

fn replace_placeholder(s: String, name: &str, i: usize, value: &str) -> (r: String)
    ensures
        r@ == replace_seq(s@, placeholder(name@, i as nat), value@),
{
    let p = placeholder_string(name, i);
    proof {
        reveal_strlit("{{");
        reveal_strlit("}}");
    }
    replace_all(s.as_str(), p.as_str(), value)
}

fn decimal(n: u64) -> (r: String)
    ensures
        r@ == dec(n as nat),
{
    crate::number::decimal_string(n)
}

impl AppleSiliconMockGenerator {
    /// The GPU name of the node.
    pub closed spec fn gpu_name_spec(&self) -> Seq<char> {
        self.gpu_name@
    }

    /// The instance name of the node.
    pub closed spec fn instance_spec(&self) -> Seq<char> {
        self.instance_name@
    }

    /// A generator for a node; the GPU is named `Apple M3 Max` unless given.
    pub fn new(gpu_name: Option<String>, instance_name: String) -> (r: Self)
        ensures
            r.gpu_name_spec() == match gpu_name {
                Some(n) => n@,
                None => "Apple M3 Max"@,
            },
            r.instance_spec() == instance_name@,
    {
        let name = match gpu_name {
            Some(n) => n,
            None => string_of("Apple M3 Max"),
        };
        AppleSiliconMockGenerator { gpu_name: name, instance_name }
    }

    fn push_gpu_section(
        &self,
        out: &mut String,
        uuids: &Vec<String>,
        metric: &str,
        help: &str,
        value: &str,
        thermal: bool,
    )
        ensures
            final(out)@ == with_gpu_section(old(out)@, *self, views(uuids@), metric@, help@, value@, thermal),
    {
        out.append("# HELP ");
        out.append(metric);
        out.append(" ");
        out.append(help);
        out.append("\n# TYPE ");
        out.append(metric);
        out.append(" gauge\n");
        let ghost head = out@;
        let ghost us = views(uuids@);
        let mut i: usize = 0;
        while i < uuids.len()
            invariant
                i <= uuids@.len(),
                us == views(uuids@),
                out@ == with_gpu_lines(
                    head,
                    metric@,
                    self.gpu_name@,
                    self.instance_name@,
                    us,
                    i as nat,
                    value@,
                    thermal,
                ),
            decreases uuids.len() - i,
        {
            out.append(metric);
            out.append("{gpu=\"");
            out.append(self.gpu_name.as_str());
            out.append("\", instance=\"");
            out.append(self.instance_name.as_str());
            out.append("\", uuid=\"");
            out.append(uuids[i].as_str());
            out.append("\", index=\"");
            push_radix(out, i as u64, 10);
            out.append("\"");
            if thermal {
                out.append(", level=\"");
                push_placeholder(out, "THERMAL_LEVEL_", i);
                out.append("\"");
            }
            out.append("} ");
            push_placeholder(out, value, i);
            out.append("\n");
            assert(us[i as int] == uuids@[i as int]@);
            i = i + 1;
        }
    }

    /// Appends the GPU sections: utilization, memory used and total,
    /// temperature, power and frequency, one placeholder sample per GPU.
    fn add_gpu_metrics(&self, template: &mut String, gpu_uuids: &Vec<String>)
        ensures
            final(template)@ == with_gpu_metrics(old(template)@, *self, views(gpu_uuids@)),
    {
        self.push_gpu_section(template, gpu_uuids, "all_smi_gpu_utilization", "GPU utilization percentage", "UTIL_", false);
        self.push_gpu_section(template, gpu_uuids, "all_smi_gpu_memory_used_bytes", "GPU memory used in bytes", "MEM_USED_", false);
        self.push_gpu_section(template, gpu_uuids, "all_smi_gpu_memory_total_bytes", "GPU memory total in bytes", "MEM_TOTAL_", false);
        self.push_gpu_section(template, gpu_uuids, "all_smi_gpu_temperature_celsius", "GPU temperature in celsius", "TEMP_", false);
        self.push_gpu_section(template, gpu_uuids, "all_smi_gpu_power_consumption_watts", "GPU power consumption in watts", "POWER_", false);
        self.push_gpu_section(template, gpu_uuids, "all_smi_gpu_frequency_mhz", "GPU frequency in MHz", "FREQ_", false);
    }

    /// Appends the ANE sections: utilization in mW and power in watts.
    fn add_ane_metrics(&self, template: &mut String, gpu_uuids: &Vec<String>)
        ensures
            final(template)@ == with_ane_metrics(old(template)@, *self, views(gpu_uuids@)),
    {
        self.push_gpu_section(template, gpu_uuids, "all_smi_ane_utilization", "ANE utilization in mW", "ANE_", false);
        self.push_gpu_section(template, gpu_uuids, "all_smi_ane_power_watts", "ANE power consumption in watts", "ANE_WATTS_", false);
    }

    /// Appends the thermal pressure section, whose samples carry the level
    /// as a label.
    fn add_thermal_metrics(&self, template: &mut String, gpu_uuids: &Vec<String>)
        ensures
            final(template)@ == with_thermal_metrics(old(template)@, *self, views(gpu_uuids@)),
    {
        self.push_gpu_section(
            template,
            gpu_uuids,
            "all_smi_thermal_pressure_level",
            "Thermal pressure level (nominal/fair/serious/critical)",
            "THERMAL_VALUE_",
            true,
        );
    }

    /// Appends the CPU utilization and core counts by core type (12
    /// performance and 4 efficiency cores) and the memory metrics.
    fn add_apple_system_metrics(&self, t: &mut String, memory_total_bytes: u64)
        ensures
            final(t)@ == with_system_section(old(t)@, self.instance_spec(), memory_total_bytes),
    {
        let inst = self.instance_name.as_str();
        t.append("# HELP all_smi_cpu_utilization CPU utilization percentage\n# TYPE all_smi_cpu_utilization gauge\n");
        t.append("all_smi_cpu_utilization{instance=\"");
        t.append(inst);
        t.append("\", core_type=\"efficiency\"} {{CPU_E_UTIL}}\n");
        t.append("all_smi_cpu_utilization{instance=\"");
        t.append(inst);
        t.append("\", core_type=\"performance\"} {{CPU_P_UTIL}}\n");
        t.append("all_smi_cpu_utilization{instance=\"");
        t.append(inst);
        t.append("\"} {{CPU_UTIL}}\n");
        t.append("# HELP all_smi_cpu_cores Number of CPU cores\n# TYPE all_smi_cpu_cores gauge\n");
        t.append("all_smi_cpu_cores{instance=\"");
        t.append(inst);
        t.append("\", core_type=\"efficiency\"} 4\n");
        t.append("all_smi_cpu_cores{instance=\"");
        t.append(inst);
        t.append("\", core_type=\"performance\"} 12\n");
        t.append("all_smi_cpu_cores{instance=\"");
        t.append(inst);
        t.append("\"} 16\n");
        t.append("# HELP all_smi_memory_used_bytes System memory used in bytes\n# TYPE all_smi_memory_used_bytes gauge\n");
        t.append("all_smi_memory_used_bytes{instance=\"");
        t.append(inst);
        t.append("\"} {{MEM_USED}}\n");
        t.append("# HELP all_smi_memory_total_bytes System memory total in bytes\n# TYPE all_smi_memory_total_bytes gauge\n");
        t.append("all_smi_memory_total_bytes{instance=\"");
        t.append(inst);
        t.append("\"} ");
        push_radix(t, memory_total_bytes, 10);
        t.append("\n");
        t.append("# HELP all_smi_memory_pressure Memory pressure level\n# TYPE all_smi_memory_pressure gauge\n");
        t.append("all_smi_memory_pressure{instance=\"");
        t.append(inst);
        t.append("\"} {{MEM_PRESSURE}}\n");
    }

    /// The template of the node's response for GPUs with the given uuids:
    /// every GPU, ANE and thermal metric with one placeholder sample per
    /// GPU, then the CPU and memory metrics.
    pub fn build_apple_template(&self, gpu_uuids: &Vec<String>, memory_total_bytes: u64) -> (r: String)
        ensures
            r@ == apple_template(*self, views(gpu_uuids@), memory_total_bytes),
    {
        let mut template = String::new();
        self.add_gpu_metrics(&mut template, gpu_uuids);
        self.add_ane_metrics(&mut template, gpu_uuids);
        self.add_thermal_metrics(&mut template, gpu_uuids);
        self.add_apple_system_metrics(&mut template, memory_total_bytes);
        template
    }

    /// The response of the node: the template with the placeholders of each
    /// GPU filled from its sample, then those of the CPU and memory (see
    /// [`law_render_fills_placeholders`], [`law_render_keeps_lines`] and
    /// [`law_render_without_placeholders`]).
    pub fn render_apple_response(
        &self,
        template: &str,
        gpus: &Vec<AppleGpuSample>,
        system: &AppleSystemSample,
    ) -> (r: String)
        ensures
            r@ == rendered(template@, gpus@, *system),
    {
        let mut response = string_of(template);
        let mut i: usize = 0;
        while i < gpus.len()
            invariant
                i <= gpus@.len(),
                response@ == fill_gpus(template@, gpus@, i as nat),
            decreases gpus.len() - i,
        {
            let g = &gpus[i];
            let (level, value) = thermal_pressure(g.temperature_celsius);
            response = replace_placeholder(response, "UTIL_", i, g.utilization.as_str());
            response = replace_placeholder(response, "MEM_USED_", i, decimal(g.memory_used_bytes).as_str());
            response = replace_placeholder(response, "MEM_TOTAL_", i, decimal(g.memory_total_bytes).as_str());
            response = replace_placeholder(response, "TEMP_", i, decimal(g.temperature_celsius as u64).as_str());
            response = replace_placeholder(response, "POWER_", i, g.power_watts.as_str());
            response = replace_placeholder(response, "FREQ_", i, decimal(g.frequency_mhz as u64).as_str());
            response = replace_placeholder(response, "ANE_", i, g.ane_milliwatts.as_str());
            response = replace_placeholder(response, "ANE_WATTS_", i, g.ane_watts.as_str());
            response = replace_placeholder(response, "THERMAL_LEVEL_", i, level);
            response = replace_placeholder(response, "THERMAL_VALUE_", i, decimal(value as u64).as_str());
            i = i + 1;
        }
        proof {
            reveal_strlit("{{CPU_E_UTIL}}");
            reveal_strlit("{{CPU_P_UTIL}}");
            reveal_strlit("{{CPU_UTIL}}");
            reveal_strlit("{{MEM_USED}}");
            reveal_strlit("{{MEM_PRESSURE}}");
        }
        response = replace_all(response.as_str(), "{{CPU_E_UTIL}}", system.cpu_efficiency_utilization.as_str());
        response = replace_all(response.as_str(), "{{CPU_P_UTIL}}", system.cpu_performance_utilization.as_str());
        response = replace_all(response.as_str(), "{{CPU_UTIL}}", system.cpu_utilization.as_str());
        response = replace_all(response.as_str(), "{{MEM_USED}}", decimal(system.memory_used_bytes).as_str());
        response = replace_all(response.as_str(), "{{MEM_PRESSURE}}", system.memory_pressure.as_str());
        response
    }
}


/// The texts of a GPU sample hold no line break.
pub open spec fn gpu_texts_line_free(g: AppleGpuSample) -> bool {
    &&& lacks_char(g.utilization@, '\n')
    &&& lacks_char(g.power_watts@, '\n')
    &&& lacks_char(g.ane_milliwatts@, '\n')
    &&& lacks_char(g.ane_watts@, '\n')
}

/// The texts of a system sample hold no line break.
pub open spec fn system_texts_line_free(c: AppleSystemSample) -> bool {
    &&& lacks_char(c.cpu_efficiency_utilization@, '\n')
    &&& lacks_char(c.cpu_performance_utilization@, '\n')
    &&& lacks_char(c.cpu_utilization@, '\n')
    &&& lacks_char(c.memory_pressure@, '\n')
}

/// The response for a template and a sample: the template with every GPU's
/// placeholders filled, then those of the CPU and memory.
pub open spec fn rendered(template: Seq<char>, gpus: Seq<AppleGpuSample>, system: AppleSystemSample) -> Seq<char> {
    fill_system(fill_gpus(template, gpus, gpus.len()), system)
}

proof fn lemma_dec_lacks(n: nat, c: char)
    requires
        !crate::number::is_digit(c),
    ensures
        lacks_char(dec(n), c),
{
    crate::number::lemma_radix_string(n, 10);
}

proof fn lemma_placeholder_shape(name: Seq<char>, i: nat, c: char)
    requires
        lacks_char(name, c),
        c != '{' && c != '}',
        !crate::number::is_digit(c),
    ensures
        lacks_char(placeholder(name, i), c),
        placeholder(name, i).len() > 0,
        placeholder(name, i)[0] == '{',
{
    reveal_strlit("{{");
    reveal_strlit("}}");
    lemma_dec_lacks(i, c);
    let p = placeholder(name, i);
    assert(p =~= "{{"@ + name + dec(i) + "}}"@);
    assert forall|k: int| 0 <= k < p.len() implies p[k] != c by {
        if k < 2 {
        } else if k < 2 + name.len() {
            assert(p[k] == name[k - 2]);
        } else if k < 2 + name.len() + dec(i).len() {
            assert(p[k] == dec(i)[k - 2 - name.len()]);
        }
    }
}

proof fn lemma_names_line_free()
    ensures
        lacks_char("UTIL_"@, '\n'),
        lacks_char("MEM_USED_"@, '\n'),
        lacks_char("MEM_TOTAL_"@, '\n'),
        lacks_char("TEMP_"@, '\n'),
        lacks_char("POWER_"@, '\n'),
        lacks_char("FREQ_"@, '\n'),
        lacks_char("ANE_"@, '\n'),
        lacks_char("ANE_WATTS_"@, '\n'),
        lacks_char("THERMAL_LEVEL_"@, '\n'),
        lacks_char("THERMAL_VALUE_"@, '\n'),
        lacks_char("nominal"@, '\n'),
        lacks_char("fair"@, '\n'),
        lacks_char("serious"@, '\n'),
        lacks_char("critical"@, '\n'),
        lacks_char("{{CPU_E_UTIL}}"@, '\n'),
        lacks_char("{{CPU_P_UTIL}}"@, '\n'),
        lacks_char("{{CPU_UTIL}}"@, '\n'),
        lacks_char("{{MEM_USED}}"@, '\n'),
        lacks_char("{{MEM_PRESSURE}}"@, '\n'),
{
    reveal_strlit("UTIL_");
    reveal_strlit("MEM_USED_");
    reveal_strlit("MEM_TOTAL_");
    reveal_strlit("TEMP_");
    reveal_strlit("POWER_");
    reveal_strlit("FREQ_");
    reveal_strlit("ANE_");
    reveal_strlit("ANE_WATTS_");
    reveal_strlit("THERMAL_LEVEL_");
    reveal_strlit("THERMAL_VALUE_");
    reveal_strlit("nominal");
    reveal_strlit("fair");
    reveal_strlit("serious");
    reveal_strlit("critical");
    reveal_strlit("{{CPU_E_UTIL}}");
    reveal_strlit("{{CPU_P_UTIL}}");
    reveal_strlit("{{CPU_UTIL}}");
    reveal_strlit("{{MEM_USED}}");
    reveal_strlit("{{MEM_PRESSURE}}");
}

proof fn lemma_fill_gpu_lines(s: Seq<char>, g: AppleGpuSample, i: nat)
    requires
        gpu_texts_line_free(g),
    ensures
        count_char(fill_gpu(s, g, i), '\n') == count_char(s, '\n'),
{
    lemma_names_line_free();
    let t = thermal_pressure_spec(g.temperature_celsius);
    lemma_placeholder_shape("UTIL_"@, i, '\n');
    lemma_placeholder_shape("MEM_USED_"@, i, '\n');
    lemma_placeholder_shape("MEM_TOTAL_"@, i, '\n');
    lemma_placeholder_shape("TEMP_"@, i, '\n');
    lemma_placeholder_shape("POWER_"@, i, '\n');
    lemma_placeholder_shape("FREQ_"@, i, '\n');
    lemma_placeholder_shape("ANE_"@, i, '\n');
    lemma_placeholder_shape("ANE_WATTS_"@, i, '\n');
    lemma_placeholder_shape("THERMAL_LEVEL_"@, i, '\n');
    lemma_placeholder_shape("THERMAL_VALUE_"@, i, '\n');
    lemma_dec_lacks(g.memory_used_bytes as nat, '\n');
    lemma_dec_lacks(g.memory_total_bytes as nat, '\n');
    lemma_dec_lacks(g.temperature_celsius as nat, '\n');
    lemma_dec_lacks(g.frequency_mhz as nat, '\n');
    lemma_dec_lacks(t.1 as nat, '\n');
    let s1 = replace_seq(s, placeholder("UTIL_"@, i), g.utilization@);
    let s2 = replace_seq(s1, placeholder("MEM_USED_"@, i), dec(g.memory_used_bytes as nat));
    let s3 = replace_seq(s2, placeholder("MEM_TOTAL_"@, i), dec(g.memory_total_bytes as nat));
    let s4 = replace_seq(s3, placeholder("TEMP_"@, i), dec(g.temperature_celsius as nat));
    let s5 = replace_seq(s4, placeholder("POWER_"@, i), g.power_watts@);
    let s6 = replace_seq(s5, placeholder("FREQ_"@, i), dec(g.frequency_mhz as nat));
    let s7 = replace_seq(s6, placeholder("ANE_"@, i), g.ane_milliwatts@);
    let s8 = replace_seq(s7, placeholder("ANE_WATTS_"@, i), g.ane_watts@);
    let s9 = replace_seq(s8, placeholder("THERMAL_LEVEL_"@, i), t.0);
    lemma_replace_keeps_count(s, placeholder("UTIL_"@, i), g.utilization@, '\n');
    lemma_replace_keeps_count(s1, placeholder("MEM_USED_"@, i), dec(g.memory_used_bytes as nat), '\n');
    lemma_replace_keeps_count(s2, placeholder("MEM_TOTAL_"@, i), dec(g.memory_total_bytes as nat), '\n');
    lemma_replace_keeps_count(s3, placeholder("TEMP_"@, i), dec(g.temperature_celsius as nat), '\n');
    lemma_replace_keeps_count(s4, placeholder("POWER_"@, i), g.power_watts@, '\n');
    lemma_replace_keeps_count(s5, placeholder("FREQ_"@, i), dec(g.frequency_mhz as nat), '\n');
    lemma_replace_keeps_count(s6, placeholder("ANE_"@, i), g.ane_milliwatts@, '\n');
    lemma_replace_keeps_count(s7, placeholder("ANE_WATTS_"@, i), g.ane_watts@, '\n');
    lemma_replace_keeps_count(s8, placeholder("THERMAL_LEVEL_"@, i), t.0, '\n');
    lemma_replace_keeps_count(s9, placeholder("THERMAL_VALUE_"@, i), dec(t.1 as nat), '\n');
}

proof fn lemma_fill_gpus_lines(s: Seq<char>, gpus: Seq<AppleGpuSample>, n: nat)
    requires
        n <= gpus.len(),
        forall|k: int| 0 <= k < gpus.len() ==> gpu_texts_line_free(#[trigger] gpus[k]),
    ensures
        count_char(fill_gpus(s, gpus, n), '\n') == count_char(s, '\n'),
    decreases n,
{
    if n > 0 {
        lemma_fill_gpus_lines(s, gpus, (n - 1) as nat);
        lemma_fill_gpu_lines(fill_gpus(s, gpus, (n - 1) as nat), gpus[n - 1], (n - 1) as nat);
    }
}

/// Rendering keeps the lines of any template: when no text of the sample
/// holds a line break, the response has exactly as many line breaks as the
/// template.
pub proof fn law_render_keeps_lines(template: Seq<char>, gpus: Seq<AppleGpuSample>, system: AppleSystemSample)
    requires
        forall|k: int| 0 <= k < gpus.len() ==> gpu_texts_line_free(#[trigger] gpus[k]),
        system_texts_line_free(system),
    ensures
        count_char(rendered(template, gpus, system), '\n') == count_char(template, '\n'),
{
    lemma_names_line_free();
    lemma_fill_gpus_lines(template, gpus, gpus.len());
    let s0 = fill_gpus(template, gpus, gpus.len());
    let c = system;
    lemma_dec_lacks(c.memory_used_bytes as nat, '\n');
    let s1 = replace_seq(s0, "{{CPU_E_UTIL}}"@, c.cpu_efficiency_utilization@);
    let s2 = replace_seq(s1, "{{CPU_P_UTIL}}"@, c.cpu_performance_utilization@);
    let s3 = replace_seq(s2, "{{CPU_UTIL}}"@, c.cpu_utilization@);
    let s4 = replace_seq(s3, "{{MEM_USED}}"@, dec(c.memory_used_bytes as nat));
    lemma_replace_keeps_count(s0, "{{CPU_E_UTIL}}"@, c.cpu_efficiency_utilization@, '\n');
    lemma_replace_keeps_count(s1, "{{CPU_P_UTIL}}"@, c.cpu_performance_utilization@, '\n');
    lemma_replace_keeps_count(s2, "{{CPU_UTIL}}"@, c.cpu_utilization@, '\n');
    lemma_replace_keeps_count(s3, "{{MEM_USED}}"@, dec(c.memory_used_bytes as nat), '\n');
    lemma_replace_keeps_count(s4, "{{MEM_PRESSURE}}"@, c.memory_pressure@, '\n');
}

proof fn lemma_fill_gpus_absent(s: Seq<char>, gpus: Seq<AppleGpuSample>, n: nat)
    requires
        n <= gpus.len(),
        forall|name: Seq<char>, i: nat|
            is_gpu_field(name) && i < gpus.len() ==> !contains_seq(s, #[trigger] placeholder(name, i)),
    ensures
        fill_gpus(s, gpus, n) == s,
    decreases n,
{
    if n > 0 {
        lemma_fill_gpus_absent(s, gpus, (n - 1) as nat);
        let i = (n - 1) as nat;
        let g = gpus[n - 1];
        let t = thermal_pressure_spec(g.temperature_celsius);
        lemma_replace_not_found(s, placeholder("UTIL_"@, i), g.utilization@);
        lemma_replace_not_found(s, placeholder("MEM_USED_"@, i), dec(g.memory_used_bytes as nat));
        lemma_replace_not_found(s, placeholder("MEM_TOTAL_"@, i), dec(g.memory_total_bytes as nat));
        lemma_replace_not_found(s, placeholder("TEMP_"@, i), dec(g.temperature_celsius as nat));
        lemma_replace_not_found(s, placeholder("POWER_"@, i), g.power_watts@);
        lemma_replace_not_found(s, placeholder("FREQ_"@, i), dec(g.frequency_mhz as nat));
        lemma_replace_not_found(s, placeholder("ANE_"@, i), g.ane_milliwatts@);
        lemma_replace_not_found(s, placeholder("ANE_WATTS_"@, i), g.ane_watts@);
        lemma_replace_not_found(s, placeholder("THERMAL_LEVEL_"@, i), t.0);
        lemma_replace_not_found(s, placeholder("THERMAL_VALUE_"@, i), dec(t.1 as nat));
    }
}

/// A template in which none of the placeholders that rendering fills
/// occurs (`{{<field><i>}}` for the GPUs of the sample, and the CPU and
/// memory placeholders) is returned unchanged, whatever the sample.
pub proof fn law_render_without_placeholders(
    template: Seq<char>,
    gpus: Seq<AppleGpuSample>,
    system: AppleSystemSample,
)
    requires
        forall|name: Seq<char>, i: nat|
            is_gpu_field(name) && i < gpus.len() ==> !contains_seq(template, #[trigger] placeholder(name, i)),
        !contains_seq(template, "{{CPU_E_UTIL}}"@),
        !contains_seq(template, "{{CPU_P_UTIL}}"@),
        !contains_seq(template, "{{CPU_UTIL}}"@),
        !contains_seq(template, "{{MEM_USED}}"@),
        !contains_seq(template, "{{MEM_PRESSURE}}"@),
    ensures
        rendered(template, gpus, system) == template,
{
    lemma_fill_gpus_absent(template, gpus, gpus.len());
    let c = system;
    lemma_replace_not_found(template, "{{CPU_E_UTIL}}"@, c.cpu_efficiency_utilization@);
    lemma_replace_not_found(template, "{{CPU_P_UTIL}}"@, c.cpu_performance_utilization@);
    lemma_replace_not_found(template, "{{CPU_UTIL}}"@, c.cpu_utilization@);
    lemma_replace_not_found(template, "{{MEM_USED}}"@, dec(c.memory_used_bytes as nat));
    lemma_replace_not_found(template, "{{MEM_PRESSURE}}"@, c.memory_pressure@);
}


/// A piece of a template: literal text, or a placeholder `{{<name>}}`.
enum Piece {
    Text(Seq<char>),
    Hole(Seq<char>),
}

/// The placeholder of a name: `{{<name>}}`.
spec fn hole_text(n: Seq<char>) -> Seq<char> {
    seq!['{', '{'] + n + seq!['}', '}']
}

spec fn piece_text(p: Piece) -> Seq<char> {
    match p {
        Piece::Text(t) => t,
        Piece::Hole(n) => hole_text(n),
    }
}

/// The text of a list of pieces.
spec fn flatten(ps: Seq<Piece>) -> Seq<char>
    decreases ps.len(),
{
    if ps.len() == 0 {
        Seq::empty()
    } else {
        piece_text(ps[0]) + flatten(ps.drop_first())
    }
}

/// Every `{` of `t` is followed, inside `t`, by a character other than `{`:
/// no `{{` starts in `t` nor at its end.
pub open spec fn brace_ok(t: Seq<char>) -> bool {
    forall|i: int| 0 <= i < t.len() && #[trigger] t[i] == '{' ==> i + 1 < t.len() && t[i + 1] != '{'
}

/// A placeholder name: not empty, no braces.
spec fn name_ok(n: Seq<char>) -> bool {
    n.len() > 0 && lacks_char(n, '{') && lacks_char(n, '}')
}

spec fn pieces_ok(ps: Seq<Piece>) -> bool {
    forall|k: int|
        0 <= k < ps.len() ==> match #[trigger] ps[k] {
            Piece::Text(t) => brace_ok(t),
            Piece::Hole(n) => name_ok(n),
        }
}

/// The pieces with every placeholder named `n` replaced by the text `r`.
spec fn subst(ps: Seq<Piece>, n: Seq<char>, r: Seq<char>) -> Seq<Piece> {
    ps.map_values(|p: Piece| if p == Piece::Hole(n) { Piece::Text(r) } else { p })
}

proof fn lemma_flatten_concat(a: Seq<Piece>, b: Seq<Piece>)
    ensures
        flatten(a + b) == flatten(a) + flatten(b),
    decreases a.len(),
{
    if a.len() == 0 {
        assert(a + b =~= b);
        assert(flatten(a) + flatten(b) =~= flatten(b));
    } else {
        assert((a + b).drop_first() =~= a.drop_first() + b);
        assert((a + b)[0] == a[0]);
        lemma_flatten_concat(a.drop_first(), b);
        assert(flatten(a + b) =~= flatten(a) + flatten(b));
    }
}

proof fn lemma_lacks_brace_ok(t: Seq<char>)
    requires
        lacks_char(t, '{'),
    ensures
        brace_ok(t),
{
}

proof fn lemma_brace_ok_concat(a: Seq<char>, b: Seq<char>)
    requires
        brace_ok(a),
        brace_ok(b),
    ensures
        brace_ok(a + b),
{
    let s = a + b;
    assert forall|i: int| 0 <= i < s.len() && #[trigger] s[i] == '{' implies i + 1 < s.len() && s[i + 1] != '{' by {
        if i < a.len() {
            assert(s[i] == a[i]);
            assert(s[i + 1] == a[i + 1]);
        } else {
            assert(s[i] == b[i - a.len()]);
            assert(s[i + 1] == b[i + 1 - a.len()]);
        }
    }
}

/// A text with no `{{` between a well-formed text and one that does not
/// start with `{` makes a well-formed whole.
proof fn lemma_around(a: Seq<char>, x: Seq<char>, b: Seq<char>)
    requires
        brace_ok(a),
        no_double_brace(x),
        brace_ok(b),
        b.len() > 0,
        b[0] != '{',
    ensures
        brace_ok(a + x + b),
{
    let s = a + x + b;
    assert forall|i: int| 0 <= i < s.len() && #[trigger] s[i] == '{' implies i + 1 < s.len() && s[i + 1] != '{' by {
        if i < a.len() {
            assert(s[i] == a[i]);
            assert(s[i + 1] == a[i + 1]);
        } else if i < a.len() + x.len() {
            assert(s[i] == x[i - a.len()]);
            if i + 1 < a.len() + x.len() {
                assert(s[i + 1] == x[i + 1 - a.len()]);
            } else {
                assert(s[i + 1] == b[0]);
            }
        } else {
            assert(s[i] == b[i - a.len() - x.len()]);
            assert(s[i + 1] == b[i + 1 - a.len() - x.len()]);
        }
    }
}

/// A text with no `{{` is copied through a replacement of a placeholder.
proof fn lemma_replace_text(t: Seq<char>, y: Seq<char>, p: Seq<char>, r: Seq<char>)
    requires
        brace_ok(t),
        p.len() >= 2,
        p[0] == '{',
        p[1] == '{',
    ensures
        replace_seq(t + y, p, r) == t + replace_seq(y, p, r),
    decreases t.len(),
{
    let s = t + y;
    if t.len() == 0 {
        assert(s =~= y);
        assert(t + replace_seq(y, p, r) =~= replace_seq(y, p, r));
    } else {
        assert(!starts_with_seq(s, p)) by {
            if starts_with_seq(s, p) {
                assert(s.subrange(0, p.len() as int)[0] == s[0]);
                assert(s.subrange(0, p.len() as int)[1] == s[1]);
                assert(s[0] == t[0]);
                if t[0] == '{' {
                    assert(s[1] == t[1]);
                }
            }
        }
        let t1 = t.drop_first();
        assert(brace_ok(t1)) by {
            assert forall|i: int| 0 <= i < t1.len() && #[trigger] t1[i] == '{' implies i + 1 < t1.len() && t1[i + 1] != '{' by {
                assert(t1[i] == t[i + 1]);
                assert(t[i + 2] == t1[i + 1]);
            }
        }
        assert(s.drop_first() =~= t1 + y);
        lemma_replace_text(t1, y, p, r);
        assert(seq![s[0]] + (t1 + replace_seq(y, p, r)) =~= t + replace_seq(y, p, r));
    }
}

proof fn lemma_hole_shape(n: Seq<char>)
    requires
        name_ok(n),
    ensures
        hole_text(n).len() == n.len() + 4,
        hole_text(n)[0] == '{',
        hole_text(n)[1] == '{',
        brace_ok(hole_text(n).drop_first()),
{
    let h = hole_text(n);
    let t = h.drop_first();
    assert forall|i: int| 0 <= i < t.len() && #[trigger] t[i] == '{' implies i + 1 < t.len() && t[i + 1] != '{' by {
        assert(t[i] == h[i + 1]);
        if i == 0 {
            assert(t[1] == n[0]);
        } else if i + 1 < 2 + n.len() {
            assert(h[i + 1] == n[i - 1]);
        }
    }
}

/// A placeholder is replaced by the text of its name.
proof fn lemma_replace_hole_same(n: Seq<char>, y: Seq<char>, r: Seq<char>)
    requires
        name_ok(n),
    ensures
        replace_seq(hole_text(n) + y, hole_text(n), r) == r + replace_seq(y, hole_text(n), r),
{
    let h = hole_text(n);
    let s = h + y;
    assert(s.subrange(0, h.len() as int) =~= h);
    assert(s.subrange(h.len() as int, s.len() as int) =~= y);
}

/// A placeholder of another name is copied through.
proof fn lemma_replace_hole_other(n1: Seq<char>, n2: Seq<char>, y: Seq<char>, r: Seq<char>)
    requires
        name_ok(n1),
        name_ok(n2),
        n1 != n2,
    ensures
        replace_seq(hole_text(n1) + y, hole_text(n2), r) == hole_text(n1) + replace_seq(y, hole_text(n2), r),
{
    let h1 = hole_text(n1);
    let p = hole_text(n2);
    let s = h1 + y;
    lemma_hole_shape(n1);
    lemma_hole_shape(n2);
    assert(!starts_with_seq(s, p)) by {
        if starts_with_seq(s, p) {
            let l1 = n1.len() as int;
            let l2 = n2.len() as int;
            assert forall|k: int| 0 <= k < p.len() implies s[k] == p[k] by {
                assert(s.subrange(0, p.len() as int)[k] == s[k]);
            }
            if l2 > l1 {
                assert(s[2 + l1] == h1[2 + l1]);
                assert(h1[2 + l1] == '}');
                assert(p[2 + l1] == n2[l1]);
            } else if l2 < l1 {
                assert(p[2 + l2] == '}');
                assert(s[2 + l2] == h1[2 + l2]);
                assert(h1[2 + l2] == n1[l2]);
            } else {
                assert forall|k: int| 0 <= k < l1 implies n1[k] == n2[k] by {
                    assert(s[2 + k] == h1[2 + k]);
                    assert(h1[2 + k] == n1[k]);
                    assert(p[2 + k] == n2[k]);
                }
                assert(n1 =~= n2);
            }
        }
    }
    let t = h1.drop_first();
    assert(s.drop_first() =~= t + y);
    lemma_replace_text(t, y, p, r);
    assert(seq![s[0]] + (t + replace_seq(y, p, r)) =~= h1 + replace_seq(y, p, r));
}

/// Replacing a placeholder in the text of pieces replaces it piece by piece.
proof fn lemma_replace_pieces(ps: Seq<Piece>, n: Seq<char>, r: Seq<char>)
    requires
        pieces_ok(ps),
        name_ok(n),
    ensures
        replace_seq(flatten(ps), hole_text(n), r) == flatten(subst(ps, n, r)),
    decreases ps.len(),
{
    lemma_hole_shape(n);
    if ps.len() == 0 {
    } else {
        let rest = ps.drop_first();
        assert(pieces_ok(rest)) by {
            assert forall|k: int| 0 <= k < rest.len() implies match #[trigger] rest[k] {
                Piece::Text(t) => brace_ok(t),
                Piece::Hole(m) => name_ok(m),
            } by {
                assert(rest[k] == ps[k + 1]);
            }
        }
        lemma_replace_pieces(rest, n, r);
        let q = subst(ps, n, r);
        assert(q.drop_first() =~= subst(rest, n, r));
        assert(q.len() > 0);
        match ps[0] {
            Piece::Text(t) => {
                assert(ps[0] == Piece::Text(t));
                lemma_replace_text(t, flatten(rest), hole_text(n), r);
            },
            Piece::Hole(m) => {
                if m == n {
                    lemma_replace_hole_same(n, flatten(rest), r);
                } else {
                    lemma_replace_hole_other(m, n, flatten(rest), r);
                }
            },
        }
    }
}

proof fn lemma_subst_ok(ps: Seq<Piece>, n: Seq<char>, r: Seq<char>)
    requires
        pieces_ok(ps),
        brace_ok(r),
    ensures
        pieces_ok(subst(ps, n, r)),
        forall|k: int|
            0 <= k < ps.len() ==> (#[trigger] subst(ps, n, r)[k] matches Piece::Hole(m) ==> m != n
                && ps[k] == Piece::Hole(m)),
        subst(ps, n, r).len() == ps.len(),
{
    let q = subst(ps, n, r);
    assert forall|k: int| 0 <= k < q.len() implies match #[trigger] q[k] {
        Piece::Text(t) => brace_ok(t),
        Piece::Hole(m) => name_ok(m),
    } by {
        assert(q[k] == (if ps[k] == Piece::Hole(n) { Piece::Text(r) } else { ps[k] }));
    }
}

/// Text made of pieces that are all text with no `{{` has no `{{`.
proof fn lemma_flatten_text_ok(ps: Seq<Piece>)
    requires
        pieces_ok(ps),
        forall|k: int| 0 <= k < ps.len() ==> #[trigger] ps[k] is Text,
    ensures
        brace_ok(flatten(ps)),
    decreases ps.len(),
{
    if ps.len() > 0 {
        let rest = ps.drop_first();
        assert(pieces_ok(rest)) by {
            assert forall|k: int| 0 <= k < rest.len() implies match #[trigger] rest[k] {
                Piece::Text(t) => brace_ok(t),
                Piece::Hole(m) => name_ok(m),
            } by {
                assert(rest[k] == ps[k + 1]);
            }
        }
        assert forall|k: int| 0 <= k < rest.len() implies #[trigger] rest[k] is Text by {
            assert(rest[k] == ps[k + 1]);
        }
        lemma_flatten_text_ok(rest);
        assert(ps[0] is Text);
        lemma_brace_ok_concat(piece_text(ps[0]), flatten(rest));
    }
}


/// A GPU field of the template, whose placeholders carry a GPU index.
pub open spec fn is_gpu_field(name: Seq<char>) -> bool {
    ||| name == "UTIL_"@
    ||| name == "MEM_USED_"@
    ||| name == "MEM_TOTAL_"@
    ||| name == "TEMP_"@
    ||| name == "POWER_"@
    ||| name == "FREQ_"@
    ||| name == "ANE_"@
    ||| name == "ANE_WATTS_"@
    ||| name == "THERMAL_LEVEL_"@
    ||| name == "THERMAL_VALUE_"@
}

/// A placeholder name of the CPU and memory part of the template.
spec fn is_system_field(m: Seq<char>) -> bool {
    ||| m == "CPU_E_UTIL"@
    ||| m == "CPU_P_UTIL"@
    ||| m == "CPU_UTIL"@
    ||| m == "MEM_USED"@
    ||| m == "MEM_PRESSURE"@
}

/// The placeholder name is that of a GPU field of a GPU below `n`.
spec fn gpu_hole(m: Seq<char>, n: nat) -> bool {
    exists|name: Seq<char>, j: nat| is_gpu_field(name) && j < n && m == #[trigger] (name + dec(j))
}

proof fn lemma_field_names()
    ensures
        forall|name: Seq<char>|
            is_gpu_field(name) ==> name.len() > 0 && lacks_char(name, '{') && lacks_char(name, '}'),
        forall|m: Seq<char>| is_system_field(m) ==> name_ok(m),
        "{{CPU_E_UTIL}}"@ == hole_text("CPU_E_UTIL"@),
        "{{CPU_P_UTIL}}"@ == hole_text("CPU_P_UTIL"@),
        "{{CPU_UTIL}}"@ == hole_text("CPU_UTIL"@),
        "{{MEM_USED}}"@ == hole_text("MEM_USED"@),
        "{{MEM_PRESSURE}}"@ == hole_text("MEM_PRESSURE"@),
        lacks_char("nominal"@, '{'),
        lacks_char("fair"@, '{'),
        lacks_char("serious"@, '{'),
        lacks_char("critical"@, '{'),
{
    reveal_strlit("UTIL_");
    reveal_strlit("MEM_USED_");
    reveal_strlit("MEM_TOTAL_");
    reveal_strlit("TEMP_");
    reveal_strlit("POWER_");
    reveal_strlit("FREQ_");
    reveal_strlit("ANE_");
    reveal_strlit("ANE_WATTS_");
    reveal_strlit("THERMAL_LEVEL_");
    reveal_strlit("THERMAL_VALUE_");
    reveal_strlit("nominal");
    reveal_strlit("fair");
    reveal_strlit("serious");
    reveal_strlit("critical");
    reveal_strlit("{{CPU_E_UTIL}}");
    reveal_strlit("{{CPU_P_UTIL}}");
    reveal_strlit("{{CPU_UTIL}}");
    reveal_strlit("{{MEM_USED}}");
    reveal_strlit("{{MEM_PRESSURE}}");
    reveal_strlit("CPU_E_UTIL");
    reveal_strlit("CPU_P_UTIL");
    reveal_strlit("CPU_UTIL");
    reveal_strlit("MEM_USED");
    reveal_strlit("MEM_PRESSURE");
    assert("{{CPU_E_UTIL}}"@ =~= hole_text("CPU_E_UTIL"@));
    assert("{{CPU_P_UTIL}}"@ =~= hole_text("CPU_P_UTIL"@));
    assert("{{CPU_UTIL}}"@ =~= hole_text("CPU_UTIL"@));
    assert("{{MEM_USED}}"@ =~= hole_text("MEM_USED"@));
    assert("{{MEM_PRESSURE}}"@ =~= hole_text("MEM_PRESSURE"@));
}

proof fn lemma_indexed_name(name: Seq<char>, i: nat)
    requires
        is_gpu_field(name),
    ensures
        name_ok(name + dec(i)),
        placeholder(name, i) == hole_text(name + dec(i)),
{
    lemma_field_names();
    lemma_dec_lacks(i, '{');
    lemma_dec_lacks(i, '}');
    reveal_strlit("{{");
    reveal_strlit("}}");
    assert(placeholder(name, i) =~= hole_text(name + dec(i)));
    let m = name + dec(i);
    assert forall|k: int| 0 <= k < m.len() implies m[k] != '{' && m[k] != '}' by {
        if k < name.len() {
            assert(m[k] == name[k]);
        } else {
            assert(m[k] == dec(i)[k - name.len()]);
        }
    }
}

/// One placeholder of GPU `i` filled, in the pieces.
proof fn lemma_fill_one(ps: Seq<Piece>, name: Seq<char>, i: nat, r: Seq<char>) -> (q: Seq<Piece>)
    requires
        pieces_ok(ps),
        is_gpu_field(name),
        brace_ok(r),
    ensures
        pieces_ok(q),
        q.len() == ps.len(),
        flatten(q) == replace_seq(flatten(ps), placeholder(name, i), r),
        forall|k: int|
            0 <= k < ps.len() ==> (#[trigger] q[k] matches Piece::Hole(m) ==> ps[k] == Piece::Hole(m)
                && m != name + dec(i)),
{
    lemma_indexed_name(name, i);
    lemma_replace_pieces(ps, name + dec(i), r);
    lemma_subst_ok(ps, name + dec(i), r);
    subst(ps, name + dec(i), r)
}

/// The texts of a GPU sample hold no `{{` and do not end with `{`.
pub open spec fn gpu_texts_brace_ok(g: AppleGpuSample) -> bool {
    &&& brace_ok(g.utilization@)
    &&& brace_ok(g.power_watts@)
    &&& brace_ok(g.ane_milliwatts@)
    &&& brace_ok(g.ane_watts@)
}

/// The texts of a system sample hold no `{{` and do not end with `{`.
pub open spec fn system_texts_brace_ok(c: AppleSystemSample) -> bool {
    &&& brace_ok(c.cpu_efficiency_utilization@)
    &&& brace_ok(c.cpu_performance_utilization@)
    &&& brace_ok(c.cpu_utilization@)
    &&& brace_ok(c.memory_pressure@)
}

/// The placeholders of GPU `i` filled, in the pieces.
proof fn lemma_fill_gpu_pieces(ps: Seq<Piece>, g: AppleGpuSample, i: nat) -> (q: Seq<Piece>)
    requires
        pieces_ok(ps),
        gpu_texts_brace_ok(g),
    ensures
        pieces_ok(q),
        q.len() == ps.len(),
        flatten(q) == fill_gpu(flatten(ps), g, i),
        forall|k: int|
            0 <= k < ps.len() ==> (#[trigger] q[k] matches Piece::Hole(m) ==> ps[k] == Piece::Hole(m)
                && forall|name: Seq<char>| is_gpu_field(name) ==> m != name + dec(i)),
{
    lemma_field_names();
    let t = thermal_pressure_spec(g.temperature_celsius);
    lemma_dec_lacks(g.memory_used_bytes as nat, '{');
    lemma_dec_lacks(g.memory_total_bytes as nat, '{');
    lemma_dec_lacks(g.temperature_celsius as nat, '{');
    lemma_dec_lacks(g.frequency_mhz as nat, '{');
    lemma_dec_lacks(t.1 as nat, '{');
    let q1 = lemma_fill_one(ps, "UTIL_"@, i, g.utilization@);
    let q2 = lemma_fill_one(q1, "MEM_USED_"@, i, dec(g.memory_used_bytes as nat));
    let q3 = lemma_fill_one(q2, "MEM_TOTAL_"@, i, dec(g.memory_total_bytes as nat));
    let q4 = lemma_fill_one(q3, "TEMP_"@, i, dec(g.temperature_celsius as nat));
    let q5 = lemma_fill_one(q4, "POWER_"@, i, g.power_watts@);
    let q6 = lemma_fill_one(q5, "FREQ_"@, i, dec(g.frequency_mhz as nat));
    let q7 = lemma_fill_one(q6, "ANE_"@, i, g.ane_milliwatts@);
    let q8 = lemma_fill_one(q7, "ANE_WATTS_"@, i, g.ane_watts@);
    let q9 = lemma_fill_one(q8, "THERMAL_LEVEL_"@, i, t.0);
    let q10 = lemma_fill_one(q9, "THERMAL_VALUE_"@, i, dec(t.1 as nat));
    assert forall|k: int|
        0 <= k < ps.len() && (#[trigger] q10[k] matches Piece::Hole(m)) implies ps[k] == q10[k] && forall|
        name: Seq<char>,
    | is_gpu_field(name) ==> q10[k]->Hole_0 != name + dec(i) by {
        assert(q10[k] matches Piece::Hole(m));
        assert(q9[k] == q10[k]);
        assert(q8[k] == q9[k]);
        assert(q7[k] == q8[k]);
        assert(q6[k] == q7[k]);
        assert(q5[k] == q6[k]);
        assert(q4[k] == q5[k]);
        assert(q3[k] == q4[k]);
        assert(q2[k] == q3[k]);
        assert(q1[k] == q2[k]);
        assert(ps[k] == q1[k]);
    }
    q10
}

/// The placeholders of the first `n` GPUs filled, in the pieces.
proof fn lemma_fill_gpus_pieces(ps: Seq<Piece>, gpus: Seq<AppleGpuSample>, n: nat) -> (q: Seq<Piece>)
    requires
        pieces_ok(ps),
        n <= gpus.len(),
        forall|k: int| 0 <= k < gpus.len() ==> gpu_texts_brace_ok(#[trigger] gpus[k]),
    ensures
        pieces_ok(q),
        q.len() == ps.len(),
        flatten(q) == fill_gpus(flatten(ps), gpus, n),
        forall|k: int|
            0 <= k < ps.len() ==> (#[trigger] q[k] matches Piece::Hole(m) ==> ps[k] == Piece::Hole(m)
                && !gpu_hole(m, n)),
    decreases n,
{
    if n == 0 {
        ps
    } else {
        let q0 = lemma_fill_gpus_pieces(ps, gpus, (n - 1) as nat);
        let q = lemma_fill_gpu_pieces(q0, gpus[n - 1], (n - 1) as nat);
        assert forall|k: int| 0 <= k < ps.len() && (#[trigger] q[k] matches Piece::Hole(m)) implies ps[k]
            == q[k] && !gpu_hole(q[k]->Hole_0, n) by {
            let m = q[k]->Hole_0;
            assert(q0[k] == q[k]);
            if gpu_hole(m, n) {
                let (name, j) = choose|name: Seq<char>, j: nat| is_gpu_field(name) && j < n && m == #[trigger] (name + dec(j));
                if j < n - 1 {
                    assert(gpu_hole(m, (n - 1) as nat));
                } else {
                    assert(m != name + dec((n - 1) as nat));
                }
            }
        }
        q
    }
}


/// The labels of the sample line of GPU `i` for a metric, up to the closing
/// quote of its index.
spec fn line_labels(metric: Seq<char>, gpu: Seq<char>, inst: Seq<char>, uuid: Seq<char>, i: nat) -> Seq<char> {
    metric + "{gpu=\""@ + gpu + "\", instance=\""@ + inst + "\", uuid=\""@ + uuid + "\", index=\""@ + dec(i)
        + "\""@
}

/// The pieces of the sample line of GPU `i` for a metric.
spec fn line_pieces(
    metric: Seq<char>,
    gpu: Seq<char>,
    inst: Seq<char>,
    uuid: Seq<char>,
    i: nat,
    value: Seq<char>,
    thermal: bool,
) -> Seq<Piece> {
    let lab = line_labels(metric, gpu, inst, uuid, i);
    if thermal {
        seq![
            Piece::Text(lab + ", level=\""@),
            Piece::Hole("THERMAL_LEVEL_"@ + dec(i)),
            Piece::Text("\""@ + "} "@),
            Piece::Hole(value + dec(i)),
            Piece::Text("\n"@),
        ]
    } else {
        seq![Piece::Text(lab + "} "@), Piece::Hole(value + dec(i)), Piece::Text("\n"@)]
    }
}

/// The texts that the template copies from the generator and the uuids hold
/// no `{{`.
spec fn names_ok(gpu: Seq<char>, inst: Seq<char>, uuids: Seq<Seq<char>>) -> bool {
    no_double_brace(gpu) && no_double_brace(inst) && forall|k: int|
        0 <= k < uuids.len() ==> no_double_brace(#[trigger] uuids[k])
}

/// A metric name of the template holds no brace.
spec fn metric_ok(metric: Seq<char>) -> bool {
    lacks_char(metric, '{')
}

proof fn lemma_flatten_one(x: Piece)
    ensures
        flatten(seq![x]) == piece_text(x),
{
    assert(seq![x].drop_first() =~= Seq::<Piece>::empty());
    assert(flatten(Seq::<Piece>::empty()) == Seq::<char>::empty());
    assert(flatten(seq![x]) =~= piece_text(x));
}

proof fn lemma_flatten_small(a: Piece, b: Piece, c: Piece, d: Piece, e: Piece)
    ensures
        flatten(seq![a, b, c]) == piece_text(a) + piece_text(b) + piece_text(c),
        flatten(seq![a, b, c, d, e]) == piece_text(a) + piece_text(b) + piece_text(c) + piece_text(d)
            + piece_text(e),
{
    lemma_flatten_one(a);
    lemma_flatten_one(b);
    lemma_flatten_one(c);
    lemma_flatten_one(d);
    lemma_flatten_one(e);
    assert(seq![a, b, c] =~= seq![a] + seq![b] + seq![c]);
    lemma_flatten_concat(seq![a], seq![b]);
    lemma_flatten_concat(seq![a] + seq![b], seq![c]);
    assert(seq![a, b, c, d, e] =~= seq![a] + seq![b] + seq![c] + seq![d] + seq![e]);
    lemma_flatten_concat(seq![a] + seq![b] + seq![c], seq![d]);
    lemma_flatten_concat(seq![a] + seq![b] + seq![c] + seq![d], seq![e]);
}

/// A placeholder written after a text is that text and the placeholder of
/// the indexed name.
proof fn lemma_with_placeholder(start: Seq<char>, name: Seq<char>, i: nat)
    ensures
        with_placeholder(start, name, i) == start + hole_text(name + dec(i)),
{
    reveal_strlit("{{");
    reveal_strlit("}}");
    assert(with_placeholder(start, name, i) =~= start + hole_text(name + dec(i)));
}

proof fn lemma_line_literals()
    ensures
        brace_ok("{gpu=\""@),
        lacks_char("\", instance=\""@, '{'),
        lacks_char("\", uuid=\""@, '{'),
        lacks_char("\", index=\""@, '{'),
        "\", instance=\""@.len() > 0 && "\", instance=\""@[0] == '"',
        "\", uuid=\""@.len() > 0 && "\", uuid=\""@[0] == '"',
        "\", index=\""@.len() > 0 && "\", index=\""@[0] == '"',
        lacks_char("\""@, '{'),
        lacks_char(", level=\""@, '{'),
        lacks_char("} "@, '{'),
        lacks_char("\n"@, '{'),
        "{{"@ == seq!['{', '{'],
        "}}"@ == seq!['}', '}'],
{
    reveal_strlit("{gpu=\"");
    reveal_strlit("\", instance=\"");
    reveal_strlit("\", uuid=\"");
    reveal_strlit("\", index=\"");
    reveal_strlit("\"");
    reveal_strlit(", level=\"");
    reveal_strlit("} ");
    reveal_strlit("\n");
    reveal_strlit("{{");
    reveal_strlit("}}");
    assert("{{"@ =~= seq!['{', '{']);
    assert("}}"@ =~= seq!['}', '}']);
}

proof fn lemma_labels_ok(metric: Seq<char>, gpu: Seq<char>, inst: Seq<char>, uuid: Seq<char>, i: nat)
    requires
        metric_ok(metric),
        no_double_brace(gpu),
        no_double_brace(inst),
        no_double_brace(uuid),
    ensures
        brace_ok(line_labels(metric, gpu, inst, uuid, i)),
{
    lemma_line_literals();
    lemma_dec_lacks(i, '{');
    let instance = "\", instance=\""@;
    let uuid_key = "\", uuid=\""@;
    let index_key = "\", index=\""@;
    let a1 = metric + "{gpu=\""@;
    lemma_brace_ok_concat(metric, "{gpu=\""@);
    lemma_around(a1, gpu, instance);
    lemma_around(a1 + gpu + instance, inst, uuid_key);
    lemma_around(a1 + gpu + instance + inst + uuid_key, uuid, index_key);
    lemma_brace_ok_concat(a1 + gpu + instance + inst + uuid_key + uuid + index_key, dec(i));
    lemma_brace_ok_concat(a1 + gpu + instance + inst + uuid_key + uuid + index_key + dec(i), "\""@);
}

proof fn lemma_line_text(
    start: Seq<char>,
    metric: Seq<char>,
    gpu: Seq<char>,
    inst: Seq<char>,
    uuid: Seq<char>,
    i: nat,
    value: Seq<char>,
    thermal: bool,
)
    ensures
        with_gpu_line(start, metric, gpu, inst, uuid, i, value, thermal) == start + flatten(
            line_pieces(metric, gpu, inst, uuid, i, value, thermal),
        ),
{
    let lab = line_labels(metric, gpu, inst, uuid, i);
    let labels = start + metric + "{gpu=\""@ + gpu + "\", instance=\""@ + inst + "\", uuid=\""@ + uuid
        + "\", index=\""@ + dec(i) + "\""@;
    assert(labels =~= start + lab);
    let hv = hole_text(value + dec(i));
    if thermal {
        let ht = hole_text("THERMAL_LEVEL_"@ + dec(i));
        lemma_with_placeholder(labels + ", level=\""@, "THERMAL_LEVEL_"@, i);
        let level = labels + ", level=\""@ + ht + "\""@;
        lemma_with_placeholder(level + "} "@, value, i);
        lemma_flatten_small(
            Piece::Text(lab + ", level=\""@),
            Piece::Hole("THERMAL_LEVEL_"@ + dec(i)),
            Piece::Text("\""@ + "} "@),
            Piece::Hole(value + dec(i)),
            Piece::Text("\n"@),
        );
        assert(with_gpu_line(start, metric, gpu, inst, uuid, i, value, thermal) == level + "} "@ + hv + "\n"@);
        assert(level + "} "@ + hv + "\n"@ =~= start + ((lab + ", level=\""@) + ht + ("\""@ + "} "@) + hv + "\n"@));
    } else {
        lemma_with_placeholder(labels + "} "@, value, i);
        lemma_flatten_small(
            Piece::Text(lab + "} "@),
            Piece::Hole(value + dec(i)),
            Piece::Text("\n"@),
            Piece::Text("\n"@),
            Piece::Text("\n"@),
        );
        assert(with_gpu_line(start, metric, gpu, inst, uuid, i, value, thermal) == labels + "} "@ + hv + "\n"@);
        assert(labels + "} "@ + hv + "\n"@ =~= start + ((lab + "} "@) + hv + "\n"@));
    }
}

/// The pieces of the sample line of GPU `i` are well formed, and their
/// placeholders are GPU fields of GPU `i`.
proof fn lemma_line_pieces_ok(
    metric: Seq<char>,
    gpu: Seq<char>,
    inst: Seq<char>,
    uuid: Seq<char>,
    i: nat,
    value: Seq<char>,
    thermal: bool,
)
    requires
        metric_ok(metric),
        no_double_brace(gpu),
        no_double_brace(inst),
        no_double_brace(uuid),
        is_gpu_field(value),
    ensures
        pieces_ok(line_pieces(metric, gpu, inst, uuid, i, value, thermal)),
        holes_ok(line_pieces(metric, gpu, inst, uuid, i, value, thermal), i + 1),
{
    lemma_line_literals();
    lemma_labels_ok(metric, gpu, inst, uuid, i);
    lemma_indexed_name(value, i);
    lemma_field_names();
    let lab = line_labels(metric, gpu, inst, uuid, i);
    let ps = line_pieces(metric, gpu, inst, uuid, i, value, thermal);
    assert(gpu_hole(value + dec(i), i + 1)) by {
        assert(is_gpu_field(value) && i < i + 1);
    }
    assert(is_gpu_field("THERMAL_LEVEL_"@));
    lemma_indexed_name("THERMAL_LEVEL_"@, i);
    assert(gpu_hole("THERMAL_LEVEL_"@ + dec(i), i + 1)) by {
        assert(is_gpu_field("THERMAL_LEVEL_"@) && i < i + 1);
    }
    lemma_brace_ok_concat(lab, ", level=\""@);
    lemma_brace_ok_concat("\""@, "} "@);
    lemma_brace_ok_concat(lab, "} "@);
    lemma_lacks_brace_ok("\n"@);
    assert forall|k: int| 0 <= k < ps.len() implies match #[trigger] ps[k] {
        Piece::Text(t) => brace_ok(t),
        Piece::Hole(n) => name_ok(n),
    } by {}
    assert forall|k: int| 0 <= k < ps.len() implies (#[trigger] ps[k] matches Piece::Hole(m) ==> gpu_hole(m, i + 1)
        || is_system_field(m)) by {}
}


/// Every placeholder among the pieces is a GPU field of a GPU below `n` or
/// a CPU and memory field.
spec fn holes_ok(ps: Seq<Piece>, n: nat) -> bool {
    forall|k: int|
        0 <= k < ps.len() ==> (#[trigger] ps[k] matches Piece::Hole(m) ==> gpu_hole(m, n) || is_system_field(m))
}

proof fn lemma_gpu_hole_mono(m: Seq<char>, a: nat, b: nat)
    requires
        gpu_hole(m, a),
        a <= b,
    ensures
        gpu_hole(m, b),
{
    let (name, j) = choose|name: Seq<char>, j: nat| is_gpu_field(name) && j < a && m == #[trigger] (name + dec(j));
    assert(is_gpu_field(name) && j < b && m == name + dec(j));
}

proof fn lemma_pieces_concat(a: Seq<Piece>, b: Seq<Piece>, n: nat)
    requires
        pieces_ok(a),
        pieces_ok(b),
        holes_ok(a, n),
        holes_ok(b, n),
    ensures
        pieces_ok(a + b),
        holes_ok(a + b, n),
        flatten(a + b) == flatten(a) + flatten(b),
{
    lemma_flatten_concat(a, b);
    let s = a + b;
    assert forall|k: int| 0 <= k < s.len() implies match #[trigger] s[k] {
        Piece::Text(t) => brace_ok(t),
        Piece::Hole(m) => name_ok(m),
    } by {
        if k < a.len() {
            assert(s[k] == a[k]);
        } else {
            assert(s[k] == b[k - a.len()]);
        }
    }
    assert forall|k: int| 0 <= k < s.len() implies (#[trigger] s[k] matches Piece::Hole(m) ==> gpu_hole(m, n)
        || is_system_field(m)) by {
        if k < a.len() {
            assert(s[k] == a[k]);
        } else {
            assert(s[k] == b[k - a.len()]);
        }
    }
}

proof fn lemma_holes_mono(ps: Seq<Piece>, a: nat, b: nat)
    requires
        holes_ok(ps, a),
        a <= b,
    ensures
        holes_ok(ps, b),
{
    assert forall|k: int| 0 <= k < ps.len() implies (#[trigger] ps[k] matches Piece::Hole(m) ==> gpu_hole(m, b)
        || is_system_field(m)) by {
        if ps[k] is Hole {
            let m = ps[k]->Hole_0;
            if gpu_hole(m, a) {
                lemma_gpu_hole_mono(m, a, b);
            }
        }
    }
}

/// The pieces of the sample lines of the first `n` GPUs.
spec fn lines_pieces(
    metric: Seq<char>,
    gpu: Seq<char>,
    inst: Seq<char>,
    uuids: Seq<Seq<char>>,
    n: nat,
    value: Seq<char>,
    thermal: bool,
) -> Seq<Piece>
    decreases n,
{
    if n == 0 {
        Seq::empty()
    } else {
        lines_pieces(metric, gpu, inst, uuids, (n - 1) as nat, value, thermal) + line_pieces(
            metric,
            gpu,
            inst,
            uuids[n - 1],
            (n - 1) as nat,
            value,
            thermal,
        )
    }
}

proof fn lemma_lines_pieces(
    start: Seq<char>,
    metric: Seq<char>,
    gpu: Seq<char>,
    inst: Seq<char>,
    uuids: Seq<Seq<char>>,
    n: nat,
    value: Seq<char>,
    thermal: bool,
)
    requires
        metric_ok(metric),
        names_ok(gpu, inst, uuids),
        n <= uuids.len(),
        is_gpu_field(value),
    ensures
        with_gpu_lines(start, metric, gpu, inst, uuids, n, value, thermal) == start + flatten(
            lines_pieces(metric, gpu, inst, uuids, n, value, thermal),
        ),
        pieces_ok(lines_pieces(metric, gpu, inst, uuids, n, value, thermal)),
        holes_ok(lines_pieces(metric, gpu, inst, uuids, n, value, thermal), n),
    decreases n,
{
    let ps = lines_pieces(metric, gpu, inst, uuids, n, value, thermal);
    if n == 0 {
        assert(start + flatten(ps) =~= start);
    } else {
        let m = (n - 1) as nat;
        let prev = lines_pieces(metric, gpu, inst, uuids, m, value, thermal);
        let line = line_pieces(metric, gpu, inst, uuids[n - 1], m, value, thermal);
        lemma_lines_pieces(start, metric, gpu, inst, uuids, m, value, thermal);
        assert(no_double_brace(uuids[n - 1]));
        lemma_line_text(
            with_gpu_lines(start, metric, gpu, inst, uuids, m, value, thermal),
            metric,
            gpu,
            inst,
            uuids[n - 1],
            m,
            value,
            thermal,
        );
        lemma_line_pieces_ok(metric, gpu, inst, uuids[n - 1], m, value, thermal);
        lemma_holes_mono(prev, m, n);
        lemma_pieces_concat(prev, line, n);
        assert(start + flatten(prev) + flatten(line) =~= start + flatten(ps));
    }
}

/// The help and type lines of a gauge.
spec fn header_text(metric: Seq<char>, help: Seq<char>) -> Seq<char> {
    "# HELP "@ + metric + " "@ + help + "\n# TYPE "@ + metric + " gauge\n"@
}

proof fn lemma_lacks_concat(a: Seq<char>, b: Seq<char>, c: char)
    requires
        lacks_char(a, c),
        lacks_char(b, c),
    ensures
        lacks_char(a + b, c),
{
    assert forall|i: int| 0 <= i < (a + b).len() implies (a + b)[i] != c by {
        if i < a.len() {
            assert((a + b)[i] == a[i]);
        } else {
            assert((a + b)[i] == b[i - a.len()]);
        }
    }
}

proof fn lemma_header_ok(metric: Seq<char>, help: Seq<char>)
    requires
        lacks_char(metric, '{'),
        lacks_char(help, '{'),
    ensures
        brace_ok(header_text(metric, help)),
{
    reveal_strlit("# HELP ");
    reveal_strlit(" ");
    reveal_strlit("\n# TYPE ");
    reveal_strlit(" gauge\n");
    let c = '{';
    lemma_lacks_concat("# HELP "@, metric, c);
    lemma_lacks_concat("# HELP "@ + metric, " "@, c);
    lemma_lacks_concat("# HELP "@ + metric + " "@, help, c);
    lemma_lacks_concat("# HELP "@ + metric + " "@ + help, "\n# TYPE "@, c);
    lemma_lacks_concat("# HELP "@ + metric + " "@ + help + "\n# TYPE "@, metric, c);
    lemma_lacks_concat("# HELP "@ + metric + " "@ + help + "\n# TYPE "@ + metric, " gauge\n"@, c);
}

/// A gauge section appended to the pieces of a text.
proof fn lemma_section_step(
    acc: Seq<Piece>,
    g: AppleSiliconMockGenerator,
    uuids: Seq<Seq<char>>,
    metric: Seq<char>,
    help: Seq<char>,
    value: Seq<char>,
    thermal: bool,
) -> (r: Seq<Piece>)
    requires
        pieces_ok(acc),
        holes_ok(acc, uuids.len()),
        lacks_char(metric, '{'),
        lacks_char(help, '{'),
        names_ok(g.gpu_name_spec(), g.instance_spec(), uuids),
        is_gpu_field(value),
    ensures
        pieces_ok(r),
        holes_ok(r, uuids.len()),
        flatten(r) == with_gpu_section(flatten(acc), g, uuids, metric, help, value, thermal),
{
    let gpu = g.gpu_name_spec();
    let inst = g.instance_spec();
    let n = uuids.len();
    let hp = seq![Piece::Text(header_text(metric, help))];
    let lp = lines_pieces(metric, gpu, inst, uuids, n, value, thermal);
    lemma_header_ok(metric, help);
    lemma_flatten_one(Piece::Text(header_text(metric, help)));
    let h = with_gauge_header(flatten(acc), metric, help);
    assert(h =~= flatten(acc) + header_text(metric, help));
    lemma_lines_pieces(h, metric, gpu, inst, uuids, n, value, thermal);
    assert(pieces_ok(hp)) by {
        assert forall|k: int| 0 <= k < hp.len() implies match #[trigger] hp[k] {
            Piece::Text(t) => brace_ok(t),
            Piece::Hole(m) => name_ok(m),
        } by {}
    }
    assert(holes_ok(hp, n)) by {
        assert forall|k: int| 0 <= k < hp.len() implies (#[trigger] hp[k] matches Piece::Hole(m) ==> gpu_hole(m, n)
            || is_system_field(m)) by {}
    }
    lemma_pieces_concat(acc, hp, n);
    lemma_pieces_concat(acc + hp, lp, n);
    assert(flatten(acc) + header_text(metric, help) + flatten(lp) =~= flatten(acc + hp + lp));
    acc + hp + lp
}


/// A text followed by a placeholder.
spec fn text_hole(t: Seq<char>, h: Seq<char>) -> Seq<Piece> {
    seq![Piece::Text(t), Piece::Hole(h)]
}

proof fn lemma_text_hole(t: Seq<char>, h: Seq<char>)
    ensures
        flatten(text_hole(t, h)) == t + hole_text(h),
{
    lemma_flatten_one(Piece::Text(t));
    lemma_flatten_one(Piece::Hole(h));
    assert(text_hole(t, h) =~= seq![Piece::Text(t)] + seq![Piece::Hole(h)]);
    lemma_flatten_concat(seq![Piece::Text(t)], seq![Piece::Hole(h)]);
}

proof fn lemma_system_literals()
    ensures
        brace_ok("# HELP all_smi_cpu_utilization CPU utilization percentage\n# TYPE all_smi_cpu_utilization gauge\n"@),
        brace_ok("all_smi_cpu_utilization{instance=\""@),
        brace_ok("\", core_type=\"efficiency\"} "@),
        brace_ok("\", core_type=\"performance\"} "@),
        brace_ok("\"} "@),
        brace_ok("\n"@),
        brace_ok("# HELP all_smi_cpu_cores Number of CPU cores\n# TYPE all_smi_cpu_cores gauge\n"@),
        brace_ok("all_smi_cpu_cores{instance=\""@),
        brace_ok("\", core_type=\"efficiency\"} 4\n"@),
        brace_ok("\", core_type=\"performance\"} 12\n"@),
        brace_ok("\"} 16\n"@),
        brace_ok("# HELP all_smi_memory_used_bytes System memory used in bytes\n# TYPE all_smi_memory_used_bytes gauge\n"@),
        brace_ok("all_smi_memory_used_bytes{instance=\""@),
        brace_ok("# HELP all_smi_memory_total_bytes System memory total in bytes\n# TYPE all_smi_memory_total_bytes gauge\n"@),
        brace_ok("all_smi_memory_total_bytes{instance=\""@),
        brace_ok("# HELP all_smi_memory_pressure Memory pressure level\n# TYPE all_smi_memory_pressure gauge\n"@),
        brace_ok("all_smi_memory_pressure{instance=\""@),
        "\", core_type=\"efficiency\"} "@.len() > 0 && "\", core_type=\"efficiency\"} "@[0] == '"',
        "\", core_type=\"performance\"} "@.len() > 0 && "\", core_type=\"performance\"} "@[0] == '"',
        "\"} "@.len() > 0 && "\"} "@[0] == '"',
        "\", core_type=\"efficiency\"} 4\n"@.len() > 0 && "\", core_type=\"efficiency\"} 4\n"@[0] == '"',
        "\", core_type=\"performance\"} 12\n"@.len() > 0 && "\", core_type=\"performance\"} 12\n"@[0] == '"',
        "\"} 16\n"@.len() > 0 && "\"} 16\n"@[0] == '"',
        "\", core_type=\"efficiency\"} {{CPU_E_UTIL}}\n"@ == "\", core_type=\"efficiency\"} "@ + "{{CPU_E_UTIL}}"@ + "\n"@,
        "\", core_type=\"performance\"} {{CPU_P_UTIL}}\n"@ == "\", core_type=\"performance\"} "@ + "{{CPU_P_UTIL}}"@ + "\n"@,
        "\"} {{CPU_UTIL}}\n"@ == "\"} "@ + "{{CPU_UTIL}}"@ + "\n"@,
        "\"} {{MEM_USED}}\n"@ == "\"} "@ + "{{MEM_USED}}"@ + "\n"@,
        "\"} {{MEM_PRESSURE}}\n"@ == "\"} "@ + "{{MEM_PRESSURE}}"@ + "\n"@,
{
    reveal_strlit("# HELP all_smi_cpu_utilization CPU utilization percentage\n# TYPE all_smi_cpu_utilization gauge\n");
    reveal_strlit("all_smi_cpu_utilization{instance=\"");
    reveal_strlit("\", core_type=\"efficiency\"} ");
    reveal_strlit("\", core_type=\"performance\"} ");
    reveal_strlit("\"} ");
    reveal_strlit("\n");
    reveal_strlit("# HELP all_smi_cpu_cores Number of CPU cores\n# TYPE all_smi_cpu_cores gauge\n");
    reveal_strlit("all_smi_cpu_cores{instance=\"");
    reveal_strlit("\", core_type=\"efficiency\"} 4\n");
    reveal_strlit("\", core_type=\"performance\"} 12\n");
    reveal_strlit("\"} 16\n");
    reveal_strlit("# HELP all_smi_memory_used_bytes System memory used in bytes\n# TYPE all_smi_memory_used_bytes gauge\n");
    reveal_strlit("all_smi_memory_used_bytes{instance=\"");
    reveal_strlit("# HELP all_smi_memory_total_bytes System memory total in bytes\n# TYPE all_smi_memory_total_bytes gauge\n");
    reveal_strlit("all_smi_memory_total_bytes{instance=\"");
    reveal_strlit("# HELP all_smi_memory_pressure Memory pressure level\n# TYPE all_smi_memory_pressure gauge\n");
    reveal_strlit("all_smi_memory_pressure{instance=\"");
    reveal_strlit("\", core_type=\"efficiency\"} {{CPU_E_UTIL}}\n");
    reveal_strlit("\", core_type=\"performance\"} {{CPU_P_UTIL}}\n");
    reveal_strlit("\"} {{CPU_UTIL}}\n");
    reveal_strlit("\"} {{MEM_USED}}\n");
    reveal_strlit("\"} {{MEM_PRESSURE}}\n");
    reveal_strlit("{{CPU_E_UTIL}}");
    reveal_strlit("{{CPU_P_UTIL}}");
    reveal_strlit("{{CPU_UTIL}}");
    reveal_strlit("{{MEM_USED}}");
    reveal_strlit("{{MEM_PRESSURE}}");
    assert("\", core_type=\"efficiency\"} {{CPU_E_UTIL}}\n"@ =~= "\", core_type=\"efficiency\"} "@ + "{{CPU_E_UTIL}}"@ + "\n"@);
    assert("\", core_type=\"performance\"} {{CPU_P_UTIL}}\n"@ =~= "\", core_type=\"performance\"} "@ + "{{CPU_P_UTIL}}"@ + "\n"@);
    assert("\"} {{CPU_UTIL}}\n"@ =~= "\"} "@ + "{{CPU_UTIL}}"@ + "\n"@);
    assert("\"} {{MEM_USED}}\n"@ =~= "\"} "@ + "{{MEM_USED}}"@ + "\n"@);
    assert("\"} {{MEM_PRESSURE}}\n"@ =~= "\"} "@ + "{{MEM_PRESSURE}}"@ + "\n"@);
}


/// The texts between the placeholders of the CPU and memory part of the
/// template.
spec fn sys_t1(inst: Seq<char>) -> Seq<char> {
    "# HELP all_smi_cpu_utilization CPU utilization percentage\n# TYPE all_smi_cpu_utilization gauge\n"@
        + "all_smi_cpu_utilization{instance=\""@ + inst + "\", core_type=\"efficiency\"} "@
}

spec fn sys_t2(inst: Seq<char>) -> Seq<char> {
    "\n"@ + "all_smi_cpu_utilization{instance=\""@ + inst + "\", core_type=\"performance\"} "@
}

spec fn sys_t3(inst: Seq<char>) -> Seq<char> {
    "\n"@ + "all_smi_cpu_utilization{instance=\""@ + inst + "\"} "@
}

spec fn sys_t4(inst: Seq<char>) -> Seq<char> {
    "\n"@ + "# HELP all_smi_cpu_cores Number of CPU cores\n# TYPE all_smi_cpu_cores gauge\n"@
        + "all_smi_cpu_cores{instance=\""@ + inst + "\", core_type=\"efficiency\"} 4\n"@
        + "all_smi_cpu_cores{instance=\""@ + inst + "\", core_type=\"performance\"} 12\n"@
        + "all_smi_cpu_cores{instance=\""@ + inst + "\"} 16\n"@
        + "# HELP all_smi_memory_used_bytes System memory used in bytes\n# TYPE all_smi_memory_used_bytes gauge\n"@
        + "all_smi_memory_used_bytes{instance=\""@ + inst + "\"} "@
}

spec fn sys_t5(inst: Seq<char>, mem: u64) -> Seq<char> {
    "\n"@
        + "# HELP all_smi_memory_total_bytes System memory total in bytes\n# TYPE all_smi_memory_total_bytes gauge\n"@
        + "all_smi_memory_total_bytes{instance=\""@ + inst + "\"} "@ + dec(mem as nat) + "\n"@
        + "# HELP all_smi_memory_pressure Memory pressure level\n# TYPE all_smi_memory_pressure gauge\n"@
        + "all_smi_memory_pressure{instance=\""@ + inst + "\"} "@
}

/// The pieces of the CPU and memory part of the template.
spec fn system_pieces(inst: Seq<char>, mem: u64) -> Seq<Piece> {
    text_hole(sys_t1(inst), "CPU_E_UTIL"@) + text_hole(sys_t2(inst), "CPU_P_UTIL"@) + text_hole(
        sys_t3(inst),
        "CPU_UTIL"@,
    ) + text_hole(sys_t4(inst), "MEM_USED"@) + text_hole(sys_t5(inst, mem), "MEM_PRESSURE"@) + seq![
        Piece::Text("\n"@),
    ]
}

proof fn lemma_sys_step1(start: Seq<char>, inst: Seq<char>)
    ensures
        start
            + "# HELP all_smi_cpu_utilization CPU utilization percentage\n# TYPE all_smi_cpu_utilization gauge\n"@
            + "all_smi_cpu_utilization{instance=\""@ + inst + "\", core_type=\"efficiency\"} {{CPU_E_UTIL}}\n"@
            == start + (sys_t1(inst) + hole_text("CPU_E_UTIL"@)) + "\n"@,
{
    lemma_system_literals();
    lemma_field_names();
    assert(start
        + "# HELP all_smi_cpu_utilization CPU utilization percentage\n# TYPE all_smi_cpu_utilization gauge\n"@
        + "all_smi_cpu_utilization{instance=\""@ + inst + "\", core_type=\"efficiency\"} {{CPU_E_UTIL}}\n"@
        =~= start + (sys_t1(inst) + hole_text("CPU_E_UTIL"@)) + "\n"@);
}

proof fn lemma_sys_step2(p: Seq<char>, inst: Seq<char>)
    ensures
        p + "\n"@ + "all_smi_cpu_utilization{instance=\""@ + inst
            + "\", core_type=\"performance\"} {{CPU_P_UTIL}}\n"@
            == p + (sys_t2(inst) + hole_text("CPU_P_UTIL"@)) + "\n"@,
{
    lemma_system_literals();
    lemma_field_names();
    assert(p + "\n"@ + "all_smi_cpu_utilization{instance=\""@ + inst
        + "\", core_type=\"performance\"} {{CPU_P_UTIL}}\n"@ =~= p + (sys_t2(inst) + hole_text("CPU_P_UTIL"@))
        + "\n"@);
}

proof fn lemma_sys_step3(p: Seq<char>, inst: Seq<char>)
    ensures
        p + "\n"@ + "all_smi_cpu_utilization{instance=\""@ + inst + "\"} {{CPU_UTIL}}\n"@
            == p + (sys_t3(inst) + hole_text("CPU_UTIL"@)) + "\n"@,
{
    lemma_system_literals();
    lemma_field_names();
    assert(p + "\n"@ + "all_smi_cpu_utilization{instance=\""@ + inst + "\"} {{CPU_UTIL}}\n"@ =~= p + (sys_t3(
        inst,
    ) + hole_text("CPU_UTIL"@)) + "\n"@);
}

proof fn lemma_sys_step4(p: Seq<char>, inst: Seq<char>)
    ensures
        p + "\n"@ + "# HELP all_smi_cpu_cores Number of CPU cores\n# TYPE all_smi_cpu_cores gauge\n"@
            + "all_smi_cpu_cores{instance=\""@ + inst + "\", core_type=\"efficiency\"} 4\n"@
            + "all_smi_cpu_cores{instance=\""@ + inst + "\", core_type=\"performance\"} 12\n"@
            + "all_smi_cpu_cores{instance=\""@ + inst + "\"} 16\n"@
            + "# HELP all_smi_memory_used_bytes System memory used in bytes\n# TYPE all_smi_memory_used_bytes gauge\n"@
            + "all_smi_memory_used_bytes{instance=\""@ + inst + "\"} {{MEM_USED}}\n"@
            == p + (sys_t4(inst) + hole_text("MEM_USED"@)) + "\n"@,
{
    lemma_system_literals();
    lemma_field_names();
    assert(p + "\n"@ + "# HELP all_smi_cpu_cores Number of CPU cores\n# TYPE all_smi_cpu_cores gauge\n"@
        + "all_smi_cpu_cores{instance=\""@ + inst + "\", core_type=\"efficiency\"} 4\n"@
        + "all_smi_cpu_cores{instance=\""@ + inst + "\", core_type=\"performance\"} 12\n"@
        + "all_smi_cpu_cores{instance=\""@ + inst + "\"} 16\n"@
        + "# HELP all_smi_memory_used_bytes System memory used in bytes\n# TYPE all_smi_memory_used_bytes gauge\n"@
        + "all_smi_memory_used_bytes{instance=\""@ + inst + "\"} {{MEM_USED}}\n"@ =~= p + (sys_t4(inst)
        + hole_text("MEM_USED"@)) + "\n"@);
}

proof fn lemma_sys_step5(p: Seq<char>, inst: Seq<char>, mem: u64)
    ensures
        p + "\n"@
            + "# HELP all_smi_memory_total_bytes System memory total in bytes\n# TYPE all_smi_memory_total_bytes gauge\n"@
            + "all_smi_memory_total_bytes{instance=\""@ + inst + "\"} "@ + dec(mem as nat) + "\n"@
            + "# HELP all_smi_memory_pressure Memory pressure level\n# TYPE all_smi_memory_pressure gauge\n"@
            + "all_smi_memory_pressure{instance=\""@ + inst + "\"} {{MEM_PRESSURE}}\n"@
            == p + (sys_t5(inst, mem) + hole_text("MEM_PRESSURE"@)) + "\n"@,
{
    lemma_system_literals();
    lemma_field_names();
    assert(p + "\n"@
        + "# HELP all_smi_memory_total_bytes System memory total in bytes\n# TYPE all_smi_memory_total_bytes gauge\n"@
        + "all_smi_memory_total_bytes{instance=\""@ + inst + "\"} "@ + dec(mem as nat) + "\n"@
        + "# HELP all_smi_memory_pressure Memory pressure level\n# TYPE all_smi_memory_pressure gauge\n"@
        + "all_smi_memory_pressure{instance=\""@ + inst + "\"} {{MEM_PRESSURE}}\n"@ =~= p + (sys_t5(inst, mem)
        + hole_text("MEM_PRESSURE"@)) + "\n"@);
}

proof fn lemma_system_text(start: Seq<char>, inst: Seq<char>, mem: u64)
    ensures
        with_system_section(start, inst, mem) == start + flatten(system_pieces(inst, mem)),
{
    let a = sys_t1(inst) + hole_text("CPU_E_UTIL"@);
    let b = sys_t2(inst) + hole_text("CPU_P_UTIL"@);
    let c = sys_t3(inst) + hole_text("CPU_UTIL"@);
    let d = sys_t4(inst) + hole_text("MEM_USED"@);
    let e = sys_t5(inst, mem) + hole_text("MEM_PRESSURE"@);
    lemma_sys_step1(start, inst);
    lemma_sys_step2(start + a, inst);
    lemma_sys_step3(start + a + b, inst);
    lemma_sys_step4(start + a + b + c, inst);
    lemma_sys_step5(start + a + b + c + d, inst, mem);
    assert(with_system_section(start, inst, mem) == start + a + b + c + d + e + "\n"@);
    let pa = text_hole(sys_t1(inst), "CPU_E_UTIL"@);
    let pb = text_hole(sys_t2(inst), "CPU_P_UTIL"@);
    let pc = text_hole(sys_t3(inst), "CPU_UTIL"@);
    let pd = text_hole(sys_t4(inst), "MEM_USED"@);
    let pe = text_hole(sys_t5(inst, mem), "MEM_PRESSURE"@);
    let pf = seq![Piece::Text("\n"@)];
    lemma_text_hole(sys_t1(inst), "CPU_E_UTIL"@);
    lemma_text_hole(sys_t2(inst), "CPU_P_UTIL"@);
    lemma_text_hole(sys_t3(inst), "CPU_UTIL"@);
    lemma_text_hole(sys_t4(inst), "MEM_USED"@);
    lemma_text_hole(sys_t5(inst, mem), "MEM_PRESSURE"@);
    lemma_flatten_one(Piece::Text("\n"@));
    lemma_flatten_concat(pa, pb);
    lemma_flatten_concat(pa + pb, pc);
    lemma_flatten_concat(pa + pb + pc, pd);
    lemma_flatten_concat(pa + pb + pc + pd, pe);
    lemma_flatten_concat(pa + pb + pc + pd + pe, pf);
    assert(flatten(system_pieces(inst, mem)) == a + b + c + d + e + "\n"@);
    assert(start + a + b + c + d + e + "\n"@ =~= start + (a + b + c + d + e + "\n"@));
}


proof fn lemma_system_texts_ok(inst: Seq<char>, mem: u64)
    requires
        no_double_brace(inst),
    ensures
        brace_ok(sys_t1(inst)),
        brace_ok(sys_t2(inst)),
        brace_ok(sys_t3(inst)),
        brace_ok(sys_t4(inst)),
        brace_ok(sys_t5(inst, mem)),
{
    lemma_system_literals();
    lemma_dec_lacks(mem as nat, '{');
    let nl = "\n"@;
    let cpu_head = "# HELP all_smi_cpu_utilization CPU utilization percentage\n# TYPE all_smi_cpu_utilization gauge\n"@;
    let cpu = "all_smi_cpu_utilization{instance=\""@;
    let eff = "\", core_type=\"efficiency\"} "@;
    let perf = "\", core_type=\"performance\"} "@;
    let close = "\"} "@;
    let cores_head = "# HELP all_smi_cpu_cores Number of CPU cores\n# TYPE all_smi_cpu_cores gauge\n"@;
    let cores = "all_smi_cpu_cores{instance=\""@;
    let eff4 = "\", core_type=\"efficiency\"} 4\n"@;
    let perf12 = "\", core_type=\"performance\"} 12\n"@;
    let all16 = "\"} 16\n"@;
    let used_head = "# HELP all_smi_memory_used_bytes System memory used in bytes\n# TYPE all_smi_memory_used_bytes gauge\n"@;
    let used = "all_smi_memory_used_bytes{instance=\""@;
    let total_head = "# HELP all_smi_memory_total_bytes System memory total in bytes\n# TYPE all_smi_memory_total_bytes gauge\n"@;
    let total = "all_smi_memory_total_bytes{instance=\""@;
    let pressure_head = "# HELP all_smi_memory_pressure Memory pressure level\n# TYPE all_smi_memory_pressure gauge\n"@;
    let pressure = "all_smi_memory_pressure{instance=\""@;
    lemma_brace_ok_concat(cpu_head, cpu);
    lemma_around(cpu_head + cpu, inst, eff);
    lemma_brace_ok_concat(nl, cpu);
    lemma_around(nl + cpu, inst, perf);
    lemma_around(nl + cpu, inst, close);
    let c1 = nl + cores_head + cores;
    lemma_brace_ok_concat(nl, cores_head);
    lemma_brace_ok_concat(nl + cores_head, cores);
    lemma_around(c1, inst, eff4);
    lemma_brace_ok_concat(c1 + inst + eff4, cores);
    let c2 = c1 + inst + eff4 + cores;
    lemma_around(c2, inst, perf12);
    lemma_brace_ok_concat(c2 + inst + perf12, cores);
    let c3 = c2 + inst + perf12 + cores;
    lemma_around(c3, inst, all16);
    lemma_brace_ok_concat(c3 + inst + all16, used_head);
    lemma_brace_ok_concat(c3 + inst + all16 + used_head, used);
    lemma_around(c3 + inst + all16 + used_head + used, inst, close);
    let m1 = nl + total_head + total;
    lemma_brace_ok_concat(nl, total_head);
    lemma_brace_ok_concat(nl + total_head, total);
    lemma_around(m1, inst, close);
    lemma_brace_ok_concat(m1 + inst + close, dec(mem as nat));
    lemma_brace_ok_concat(m1 + inst + close + dec(mem as nat), nl);
    let m2 = m1 + inst + close + dec(mem as nat) + nl;
    lemma_brace_ok_concat(m2, pressure_head);
    lemma_brace_ok_concat(m2 + pressure_head, pressure);
    lemma_around(m2 + pressure_head + pressure, inst, close);
}

proof fn lemma_system_pieces_ok(inst: Seq<char>, mem: u64, n: nat)
    requires
        no_double_brace(inst),
    ensures
        pieces_ok(system_pieces(inst, mem)),
        holes_ok(system_pieces(inst, mem), n),
{
    lemma_system_texts_ok(inst, mem);
    lemma_field_names();
    lemma_system_literals();
    let ps = system_pieces(inst, mem);
    assert forall|k: int| 0 <= k < ps.len() implies match #[trigger] ps[k] {
        Piece::Text(t) => brace_ok(t),
        Piece::Hole(m) => name_ok(m),
    } by {}
    assert forall|k: int| 0 <= k < ps.len() implies (#[trigger] ps[k] matches Piece::Hole(m) ==> gpu_hole(m, n)
        || is_system_field(m)) by {}
}


proof fn lemma_metric_literals()
    ensures
        lacks_char("all_smi_gpu_utilization"@, '{'),
        lacks_char("GPU utilization percentage"@, '{'),
        lacks_char("all_smi_gpu_memory_used_bytes"@, '{'),
        lacks_char("GPU memory used in bytes"@, '{'),
        lacks_char("all_smi_gpu_memory_total_bytes"@, '{'),
        lacks_char("GPU memory total in bytes"@, '{'),
        lacks_char("all_smi_gpu_temperature_celsius"@, '{'),
        lacks_char("GPU temperature in celsius"@, '{'),
        lacks_char("all_smi_gpu_power_consumption_watts"@, '{'),
        lacks_char("GPU power consumption in watts"@, '{'),
        lacks_char("all_smi_gpu_frequency_mhz"@, '{'),
        lacks_char("GPU frequency in MHz"@, '{'),
        lacks_char("all_smi_ane_utilization"@, '{'),
        lacks_char("ANE utilization in mW"@, '{'),
        lacks_char("all_smi_ane_power_watts"@, '{'),
        lacks_char("ANE power consumption in watts"@, '{'),
        lacks_char("all_smi_thermal_pressure_level"@, '{'),
        lacks_char("Thermal pressure level (nominal/fair/serious/critical)"@, '{'),
{
    reveal_strlit("all_smi_gpu_utilization");
    reveal_strlit("GPU utilization percentage");
    reveal_strlit("all_smi_gpu_memory_used_bytes");
    reveal_strlit("GPU memory used in bytes");
    reveal_strlit("all_smi_gpu_memory_total_bytes");
    reveal_strlit("GPU memory total in bytes");
    reveal_strlit("all_smi_gpu_temperature_celsius");
    reveal_strlit("GPU temperature in celsius");
    reveal_strlit("all_smi_gpu_power_consumption_watts");
    reveal_strlit("GPU power consumption in watts");
    reveal_strlit("all_smi_gpu_frequency_mhz");
    reveal_strlit("GPU frequency in MHz");
    reveal_strlit("all_smi_ane_utilization");
    reveal_strlit("ANE utilization in mW");
    reveal_strlit("all_smi_ane_power_watts");
    reveal_strlit("ANE power consumption in watts");
    reveal_strlit("all_smi_thermal_pressure_level");
    reveal_strlit("Thermal pressure level (nominal/fair/serious/critical)");
}

/// The template is the text of well-formed pieces whose placeholders are
/// the GPU fields of its GPUs and the CPU and memory fields.
proof fn lemma_template_pieces(g: AppleSiliconMockGenerator, uuids: Seq<Seq<char>>, mem: u64) -> (ps: Seq<Piece>)
    requires
        names_ok(g.gpu_name_spec(), g.instance_spec(), uuids),
    ensures
        pieces_ok(ps),
        holes_ok(ps, uuids.len()),
        flatten(ps) == apple_template(g, uuids, mem),
{
    lemma_metric_literals();
    let n = uuids.len();
    let p0 = Seq::<Piece>::empty();
    assert(flatten(p0) == Seq::<char>::empty());
    let p1 = lemma_section_step(p0, g, uuids, "all_smi_gpu_utilization"@, "GPU utilization percentage"@, "UTIL_"@, false);
    let p2 = lemma_section_step(p1, g, uuids, "all_smi_gpu_memory_used_bytes"@, "GPU memory used in bytes"@, "MEM_USED_"@, false);
    let p3 = lemma_section_step(p2, g, uuids, "all_smi_gpu_memory_total_bytes"@, "GPU memory total in bytes"@, "MEM_TOTAL_"@, false);
    let p4 = lemma_section_step(p3, g, uuids, "all_smi_gpu_temperature_celsius"@, "GPU temperature in celsius"@, "TEMP_"@, false);
    let p5 = lemma_section_step(p4, g, uuids, "all_smi_gpu_power_consumption_watts"@, "GPU power consumption in watts"@, "POWER_"@, false);
    let p6 = lemma_section_step(p5, g, uuids, "all_smi_gpu_frequency_mhz"@, "GPU frequency in MHz"@, "FREQ_"@, false);
    assert(flatten(p6) == with_gpu_metrics(Seq::<char>::empty(), g, uuids));
    let p7 = lemma_section_step(p6, g, uuids, "all_smi_ane_utilization"@, "ANE utilization in mW"@, "ANE_"@, false);
    let p8 = lemma_section_step(p7, g, uuids, "all_smi_ane_power_watts"@, "ANE power consumption in watts"@, "ANE_WATTS_"@, false);
    assert(flatten(p8) == with_ane_metrics(flatten(p6), g, uuids));
    let p9 = lemma_section_step(
        p8,
        g,
        uuids,
        "all_smi_thermal_pressure_level"@,
        "Thermal pressure level (nominal/fair/serious/critical)"@,
        "THERMAL_VALUE_"@,
        true,
    );
    assert(flatten(p9) == with_thermal_metrics(flatten(p8), g, uuids));
    let sp = system_pieces(g.instance_spec(), mem);
    lemma_system_text(flatten(p9), g.instance_spec(), mem);
    lemma_system_pieces_ok(g.instance_spec(), mem, n);
    lemma_pieces_concat(p9, sp, n);
    p9 + sp
}

/// One CPU or memory placeholder filled, in the pieces.
proof fn lemma_fill_system_one(ps: Seq<Piece>, name: Seq<char>, r: Seq<char>) -> (q: Seq<Piece>)
    requires
        pieces_ok(ps),
        is_system_field(name),
        brace_ok(r),
    ensures
        pieces_ok(q),
        q.len() == ps.len(),
        flatten(q) == replace_seq(flatten(ps), hole_text(name), r),
        forall|k: int|
            0 <= k < ps.len() ==> (#[trigger] q[k] matches Piece::Hole(m) ==> ps[k] == Piece::Hole(m)
                && m != name),
{
    lemma_field_names();
    lemma_replace_pieces(ps, name, r);
    lemma_subst_ok(ps, name, r);
    subst(ps, name, r)
}

/// No placeholder opening `{{` occurs in the text.
pub open spec fn no_double_brace(s: Seq<char>) -> bool {
    forall|i: int| 0 <= i && i + 1 < s.len() ==> !(#[trigger] s[i] == '{' && s[i + 1] == '{')
}

/// Rendering a built template fills every placeholder: when the GPU and
/// instance names and the uuids hold no `{{`, the texts of the sample are
/// numbers as a float prints them (no `{{`, no trailing `{`), and there is a
/// sample for each GPU of the template, no `{{` is left in the response.
pub proof fn law_render_fills_placeholders(
    g: AppleSiliconMockGenerator,
    uuids: Seq<Seq<char>>,
    memory_total_bytes: u64,
    gpus: Seq<AppleGpuSample>,
    system: AppleSystemSample,
)
    requires
        no_double_brace(g.gpu_name_spec()),
        no_double_brace(g.instance_spec()),
        forall|k: int| 0 <= k < uuids.len() ==> no_double_brace(#[trigger] uuids[k]),
        uuids.len() <= gpus.len(),
        forall|k: int| 0 <= k < gpus.len() ==> gpu_texts_brace_ok(#[trigger] gpus[k]),
        system_texts_brace_ok(system),
    ensures
        no_double_brace(rendered(apple_template(g, uuids, memory_total_bytes), gpus, system)),
{
    let tp = lemma_template_pieces(g, uuids, memory_total_bytes);
    let q = lemma_fill_gpus_pieces(tp, gpus, gpus.len());
    lemma_field_names();
    let c = system;
    lemma_dec_lacks(c.memory_used_bytes as nat, '{');
    let q1 = lemma_fill_system_one(q, "CPU_E_UTIL"@, c.cpu_efficiency_utilization@);
    let q2 = lemma_fill_system_one(q1, "CPU_P_UTIL"@, c.cpu_performance_utilization@);
    let q3 = lemma_fill_system_one(q2, "CPU_UTIL"@, c.cpu_utilization@);
    let q4 = lemma_fill_system_one(q3, "MEM_USED"@, dec(c.memory_used_bytes as nat));
    let q5 = lemma_fill_system_one(q4, "MEM_PRESSURE"@, c.memory_pressure@);
    assert(flatten(q5) == rendered(apple_template(g, uuids, memory_total_bytes), gpus, system));
    assert forall|k: int| 0 <= k < q5.len() implies #[trigger] q5[k] is Text by {
        if q5[k] is Hole {
            let m = q5[k]->Hole_0;
            assert(q4[k] == q5[k]);
            assert(q3[k] == q4[k]);
            assert(q2[k] == q3[k]);
            assert(q1[k] == q2[k]);
            assert(q[k] == q1[k]);
            assert(tp[k] == q[k]);
            assert(gpu_hole(m, uuids.len()) || is_system_field(m));
            if gpu_hole(m, uuids.len()) {
                lemma_gpu_hole_mono(m, uuids.len(), gpus.len());
            }
        }
    }
    lemma_flatten_text_ok(q5);
    let r = flatten(q5);
    assert forall|i: int| 0 <= i && i + 1 < r.len() implies !(#[trigger] r[i] == '{' && r[i + 1] == '{') by {}
}


/// The thermal pressure of a temperature goes by bands: below 50 °C nominal
/// (level 0), from 50 below 65 fair (1), from 65 below 75 serious (2), from 75
/// on critical (3). The level never falls as the temperature rises, and the
/// name goes with the level.
pub proof fn law_thermal_pressure_bands(t1: u32, t2: u32)
    ensures
        t1 < 50 ==> thermal_pressure_spec(t1) == ("nominal"@, 0u32),
        50 <= t1 < 65 ==> thermal_pressure_spec(t1) == ("fair"@, 1u32),
        65 <= t1 < 75 ==> thermal_pressure_spec(t1) == ("serious"@, 2u32),
        75 <= t1 ==> thermal_pressure_spec(t1) == ("critical"@, 3u32),
        t1 <= t2 ==> thermal_pressure_spec(t1).1 <= thermal_pressure_spec(t2).1,
        thermal_pressure_spec(t1).1 == thermal_pressure_spec(t2).1 ==> thermal_pressure_spec(t1).0
            == thermal_pressure_spec(t2).0,
{
}

} // verus!
