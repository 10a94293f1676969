//! Prometheus metrics of NPUs: the metrics common to every NPU vendor and
//! those of Tenstorrent boards, built from the text details of a device.
use vstd::prelude::*;
use crate::labels::LabelMap;
use crate::metrics::{
    MetricBuilder, hex_register_spec, hex_register_value, label_views, metric_block,
    numeric_text_spec, numeric_value_text,
};
use crate::number::{decimal_string, radix_string};
use crate::text::{str_eq, string_of};

verus! {

/// What the exporters read of a device: its identity and its details.
pub struct GpuInfo {
    pub uuid: String,
    pub name: String,
    pub device_type: String,
    pub instance: String,
    pub detail: LabelMap,
}

/// The labels every NPU sample carries: device name, instance, uuid and
/// index.
pub open spec fn base_labels(info: &GpuInfo, index: usize) -> Seq<(Seq<char>, Seq<char>)> {
    seq![
        ("npu"@, info.name@),
        ("instance"@, info.instance@),
        ("uuid"@, info.uuid@),
        ("index"@, radix_string(index as nat, 10)),
    ]
}

/// An info metric (value 1) labelled with a detail, when the detail is
/// present.
pub open spec fn info_block(
    info: &GpuInfo,
    index: usize,
    key: Seq<char>,
    name: Seq<char>,
    help: Seq<char>,
    label: Seq<char>,
) -> Seq<char> {
    if info.detail@.contains_key(key) {
        metric_block(
            name,
            help,
            "gauge"@,
            base_labels(info, index).push((label, info.detail@[key])),
            "1"@,
        )
    } else {
        Seq::empty()
    }
}

/// A metric whose value is the number in a detail, when the detail is
/// present and holds a number.
pub open spec fn numeric_block(
    info: &GpuInfo,
    index: usize,
    key: Seq<char>,
    name: Seq<char>,
    help: Seq<char>,
    ty: Seq<char>,
) -> Seq<char> {
    if info.detail@.contains_key(key) {
        match numeric_text_spec(info.detail@[key]) {
            Some(t) => metric_block(name, help, ty, base_labels(info, index), t),
            None => Seq::empty(),
        }
    } else {
        Seq::empty()
    }
}

/// A gauge whose value is the hexadecimal register in a detail, when the
/// detail is present and holds one.
pub open spec fn register_block(
    info: &GpuInfo,
    index: usize,
    key: Seq<char>,
    name: Seq<char>,
    help: Seq<char>,
) -> Seq<char> {
    if info.detail@.contains_key(key) {
        match hex_register_spec(info.detail@[key]) {
            Some(x) => metric_block(name, help, "gauge"@, base_labels(info, index), radix_string(x as nat, 10)),
            None => Seq::empty(),
        }
    } else {
        Seq::empty()
    }
}

pub(crate) fn base_labels_vec(info: &GpuInfo, index: usize) -> (r: Vec<(String, String)>)
    ensures
        label_views(r@) == base_labels(info, index),
{
    let mut r: Vec<(String, String)> = Vec::new();
    r.push((string_of("npu"), info.name.clone()));
    r.push((string_of("instance"), info.instance.clone()));
    r.push((string_of("uuid"), info.uuid.clone()));
    r.push((string_of("index"), decimal_string(index as u64)));
    assert(label_views(r@) =~= base_labels(info, index));
    r
}

pub(crate) fn push_label(v: &mut Vec<(String, String)>, k: &str, val: &str)
    ensures
        label_views(final(v)@) == label_views(old(v)@).push((k@, val@)),
{
    v.push((string_of(k), string_of(val)));
    assert(label_views(v@) =~= label_views(old(v)@).push((k@, val@)));
}

pub(crate) fn emit_info(
    b: &mut MetricBuilder,
    info: &GpuInfo,
    index: usize,
    key: &str,
    name: &str,
    help: &str,
    label: &str,
)
    requires
        info.detail.wf(),
    ensures
        final(b)@ == old(b)@ + info_block(info, index, key@, name@, help@, label@),
{
    match info.detail.get(key) {
        Some(v) => {
            let mut ls = base_labels_vec(info, index);
            push_label(&mut ls, label, v.as_str());
            b.block(name, help, "gauge", &ls, "1");
        },
        None => {
            assert(old(b)@ + Seq::<char>::empty() =~= old(b)@);
        },
    }
}

pub(crate) fn emit_numeric(
    b: &mut MetricBuilder,
    info: &GpuInfo,
    index: usize,
    key: &str,
    name: &str,
    help: &str,
    ty: &str,
)
    requires
        info.detail.wf(),
    ensures
        final(b)@ == old(b)@ + numeric_block(info, index, key@, name@, help@, ty@),
{
    if let Some(v) = info.detail.get(key) {
        if let Some(t) = numeric_value_text(v.as_str()) {
            let ls = base_labels_vec(info, index);
            b.block(name, help, ty, &ls, t.as_str());
            return;
        }
    }
    assert(old(b)@ + Seq::<char>::empty() =~= old(b)@);
}

pub(crate) fn emit_register(b: &mut MetricBuilder, info: &GpuInfo, index: usize, key: &str, name: &str, help: &str)
    requires
        info.detail.wf(),
    ensures
        final(b)@ == old(b)@ + register_block(info, index, key@, name@, help@),
{
    if let Some(v) = info.detail.get(key) {
        if let Some(x) = hex_register_value(v.as_str()) {
            let ls = base_labels_vec(info, index);
            let t = decimal_string(x as u64);
            b.block(name, help, "gauge", &ls, t.as_str());
            return;
        }
    }
    assert(old(b)@ + Seq::<char>::empty() =~= old(b)@);
}

/// The generic NPU firmware metric.
pub open spec fn generic_firmware_section(info: &GpuInfo, index: usize) -> Seq<char> {
    if info.device_type@ == "NPU"@ {
        info_block(
            info,
            index,
            "firmware"@,
            "all_smi_npu_firmware_info"@,
            "NPU firmware version"@,
            "firmware"@,
        )
    } else {
        Seq::empty()
    }
}

/// The metrics and helpers shared by every NPU vendor.
pub struct CommonNpuExporter;

impl CommonNpuExporter {
    /// The exporter.
    pub fn new() -> (r: Self) {
        CommonNpuExporter
    }

    /// A register value written in hexadecimal, as a number.
    pub fn parse_hex_register(value: &str) -> (r: Option<u32>)
        ensures
            r == hex_register_spec(value@),
    {
        hex_register_value(value)
    }

    /// A numeric detail as the text of its number; `None` when it is none.
    pub fn parse_numeric_value(value: &str) -> (r: Option<String>)
        ensures
            match r {
                Some(t) => numeric_text_spec(value@) == Some(t@),
                None => numeric_text_spec(value@) is None,
            },
    {
        numeric_value_text(value)
    }

    /// A status gauge: 1 when the detail `status_key` holds `normal_status`,
    /// else 0, labelled with the status; nothing when the detail is absent.
    pub fn export_status_metric(
        builder: &mut MetricBuilder,
        info: &GpuInfo,
        index: usize,
        metric_name: &str,
        metric_help: &str,
        status_key: &str,
        normal_status: &str,
    )
        requires
            info.detail.wf(),
        ensures
            final(builder)@ == old(builder)@ + if info.detail@.contains_key(status_key@) {
                metric_block(
                    metric_name@,
                    metric_help@,
                    "gauge"@,
                    base_labels(info, index).push(("status"@, info.detail@[status_key@])),
                    if info.detail@[status_key@] == normal_status@ {
                        "1"@
                    } else {
                        "0"@
                    },
                )
            } else {
                Seq::empty()
            },
    {
        match info.detail.get(status_key) {
            Some(status) => {
                let value = if str_eq(status.as_str(), normal_status) {
                    "1"
                } else {
                    "0"
                };
                let mut ls = base_labels_vec(info, index);
                push_label(&mut ls, "status", status.as_str());
                builder.block(metric_name, metric_help, "gauge", &ls, value);
            },
            None => {
                assert(old(builder)@ + Seq::<char>::empty() =~= old(builder)@);
            },
        }
    }

    /// The generic firmware metric of an NPU.
    pub fn export_generic_npu_metrics(&self, builder: &mut MetricBuilder, info: &GpuInfo, index: usize)
        requires
            info.detail.wf(),
        ensures
            final(builder)@ == old(builder)@ + generic_firmware_section(info, index),
    {
        if !str_eq(info.device_type.as_str(), "NPU") {
            assert(old(builder)@ + Seq::<char>::empty() =~= old(builder)@);
            return;
        }
        emit_info(
            builder,
            info,
            index,
            "firmware",
            "all_smi_npu_firmware_info",
            "NPU firmware version",
            "firmware",
        );
    }

    /// The device information metric of an NPU, labelled with its type.
    pub fn export_device_info(&self, builder: &mut MetricBuilder, info: &GpuInfo, index: usize)
        ensures
            final(builder)@ == old(builder)@ + if info.device_type@ == "NPU"@ {
                metric_block(
                    "all_smi_npu_device_info"@,
                    "NPU device information"@,
                    "gauge"@,
                    base_labels(info, index).push(("device_type"@, info.device_type@)),
                    "1"@,
                )
            } else {
                Seq::empty()
            },
    {
        if !str_eq(info.device_type.as_str(), "NPU") {
            assert(old(builder)@ + Seq::<char>::empty() =~= old(builder)@);
            return;
        }
        let mut ls = base_labels_vec(info, index);
        push_label(&mut ls, "device_type", info.device_type.as_str());
        builder.block("all_smi_npu_device_info", "NPU device information", "gauge", &ls, "1");
    }

    /// The firmware metric of an NPU: the generic one.
    pub fn export_firmware_info(&self, builder: &mut MetricBuilder, info: &GpuInfo, index: usize)
        requires
            info.detail.wf(),
        ensures
            final(builder)@ == old(builder)@ + generic_firmware_section(info, index),
    {
        self.export_generic_npu_metrics(builder, info, index);
    }

    /// The generic temperature metric of an NPU.
    pub fn export_temperature_metrics(
        &self,
        builder: &mut MetricBuilder,
        info: &GpuInfo,
        index: usize,
    )
        requires
            info.detail.wf(),
        ensures
            final(builder)@ == old(builder)@ + if info.device_type@ == "NPU"@ {
                numeric_block(
                    info,
                    index,
                    "temperature"@,
                    "all_smi_npu_temperature_celsius"@,
                    "NPU temperature in celsius"@,
                    "gauge"@,
                )
            } else {
                Seq::empty()
            },
    {
        if !str_eq(info.device_type.as_str(), "NPU") {
            assert(old(builder)@ + Seq::<char>::empty() =~= old(builder)@);
            return;
        }
        emit_numeric(
            builder,
            info,
            index,
            "temperature",
            "all_smi_npu_temperature_celsius",
            "NPU temperature in celsius",
            "gauge",
        );
    }

    /// The generic power metrics of an NPU: power and power draw.
    pub fn export_power_metrics(&self, builder: &mut MetricBuilder, info: &GpuInfo, index: usize)
        requires
            info.detail.wf(),
        ensures
            final(builder)@ == if info.device_type@ == "NPU"@ {
                old(builder)@ + numeric_block(
                    info,
                    index,
                    "power"@,
                    "all_smi_npu_power_watts"@,
                    "NPU power consumption in watts"@,
                    "gauge"@,
                ) + numeric_block(
                    info,
                    index,
                    "power_draw"@,
                    "all_smi_npu_power_draw_watts"@,
                    "NPU power draw in watts"@,
                    "gauge"@,
                )
            } else {
                old(builder)@
            },
    {
        if !str_eq(info.device_type.as_str(), "NPU") {
            return;
        }
        emit_numeric(
            builder,
            info,
            index,
            "power",
            "all_smi_npu_power_watts",
            "NPU power consumption in watts",
            "gauge",
        );
        emit_numeric(
            builder,
            info,
            index,
            "power_draw",
            "all_smi_npu_power_draw_watts",
            "NPU power draw in watts",
            "gauge",
        );
    }
}

} // verus!
