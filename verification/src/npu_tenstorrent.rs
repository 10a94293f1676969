//! Prometheus metrics of Tenstorrent boards: firmware, temperatures, clocks,
//! power, status registers and health counters, board and PCIe information.
use vstd::prelude::*;
use crate::metrics::{MetricBuilder, metric_block, numeric_text_spec, numeric_value_text};
use crate::npu_export::{
    CommonNpuExporter, GpuInfo, base_labels, info_block, numeric_block, register_block,
};
use crate::text::{
    chars_of, contains_seq, span_contains, span_starts_with, span_to_string, starts_with_seq,
};

verus! {

/// `start` followed by the firmware metrics.
pub open spec fn firmware_section(start: Seq<char>, info: &GpuInfo, index: usize) -> Seq<char> {
    start + info_block(
        info,
        index,
        "arc_fw_version"@,
        "all_smi_tenstorrent_arc_firmware_info"@,
        "ARC firmware version"@,
        "version"@,
    ) + info_block(
        info,
        index,
        "eth_fw_version"@,
        "all_smi_tenstorrent_eth_firmware_info"@,
        "Ethernet firmware version"@,
        "version"@,
    ) + info_block(
        info,
        index,
        "fw_date"@,
        "all_smi_tenstorrent_firmware_date_info"@,
        "Firmware build date"@,
        "date"@,
    ) + info_block(
        info,
        index,
        "ddr_fw_version"@,
        "all_smi_tenstorrent_ddr_firmware_info"@,
        "DDR firmware version"@,
        "version"@,
    ) + info_block(
        info,
        index,
        "spibootrom_fw_version"@,
        "all_smi_tenstorrent_spibootrom_firmware_info"@,
        "SPI Boot ROM firmware version"@,
        "version"@,
    )
}

/// `start` followed by the temperature metrics.
pub open spec fn temperature_section(start: Seq<char>, info: &GpuInfo, index: usize) -> Seq<char> {
    start + numeric_block(
        info,
        index,
        "asic_temperature"@,
        "all_smi_tenstorrent_asic_temperature_celsius"@,
        "ASIC temperature in celsius"@,
        "gauge"@,
    ) + numeric_block(
        info,
        index,
        "vreg_temperature"@,
        "all_smi_tenstorrent_vreg_temperature_celsius"@,
        "Voltage regulator temperature in celsius"@,
        "gauge"@,
    ) + numeric_block(
        info,
        index,
        "inlet_temperature"@,
        "all_smi_tenstorrent_inlet_temperature_celsius"@,
        "Inlet temperature in celsius"@,
        "gauge"@,
    ) + numeric_block(
        info,
        index,
        "outlet_temperature1"@,
        "all_smi_tenstorrent_outlet1_temperature_celsius"@,
        "Outlet 1 temperature in celsius"@,
        "gauge"@,
    ) + numeric_block(
        info,
        index,
        "outlet_temperature2"@,
        "all_smi_tenstorrent_outlet2_temperature_celsius"@,
        "Outlet 2 temperature in celsius"@,
        "gauge"@,
    )
}

/// `start` followed by the clock metrics.
pub open spec fn clock_section(start: Seq<char>, info: &GpuInfo, index: usize) -> Seq<char> {
    start + numeric_block(
        info,
        index,
        "aiclk_mhz"@,
        "all_smi_tenstorrent_aiclk_mhz"@,
        "AI clock frequency in MHz"@,
        "gauge"@,
    ) + numeric_block(
        info,
        index,
        "axiclk_mhz"@,
        "all_smi_tenstorrent_axiclk_mhz"@,
        "AXI clock frequency in MHz"@,
        "gauge"@,
    ) + numeric_block(
        info,
        index,
        "arcclk_mhz"@,
        "all_smi_tenstorrent_arcclk_mhz"@,
        "ARC clock frequency in MHz"@,
        "gauge"@,
    )
}

/// `start` followed by the power, limit and heartbeat metrics.
pub open spec fn power_section(start: Seq<char>, info: &GpuInfo, index: usize) -> Seq<char> {
    start + numeric_block(
        info,
        index,
        "voltage"@,
        "all_smi_tenstorrent_voltage_volts"@,
        "Core voltage in volts"@,
        "gauge"@,
    ) + numeric_block(
        info,
        index,
        "current"@,
        "all_smi_tenstorrent_current_amperes"@,
        "Current in amperes"@,
        "gauge"@,
    ) + numeric_block(
        info,
        index,
        "power_limit_tdp"@,
        "all_smi_tenstorrent_power_limit_tdp_watts"@,
        "TDP power limit in watts"@,
        "gauge"@,
    ) + numeric_block(
        info,
        index,
        "power_limit_tdc"@,
        "all_smi_tenstorrent_power_limit_tdc_amperes"@,
        "TDC current limit in amperes"@,
        "gauge"@,
    ) + numeric_block(
        info,
        index,
        "tdp_limit"@,
        "all_smi_tenstorrent_tdp_limit_watts"@,
        "TDP limit in watts"@,
        "gauge"@,
    ) + numeric_block(
        info,
        index,
        "tdc_limit"@,
        "all_smi_tenstorrent_tdc_limit_amperes"@,
        "TDC limit in amperes"@,
        "gauge"@,
    ) + numeric_block(
        info,
        index,
        "thermal_limit"@,
        "all_smi_tenstorrent_thermal_limit_celsius"@,
        "Thermal limit in celsius"@,
        "gauge"@,
    ) + numeric_block(
        info,
        index,
        "heartbeat"@,
        "all_smi_tenstorrent_heartbeat"@,
        "Device heartbeat counter"@,
        "counter"@,
    ) + numeric_block(
        info,
        index,
        "power_watts"@,
        "all_smi_tenstorrent_power_raw_watts"@,
        "Raw power consumption in watts"@,
        "gauge"@,
    )
}

/// The Ethernet status of one port, when its detail is present.
pub open spec fn eth_status_block(info: &GpuInfo, index: usize, key: Seq<char>, port: Seq<char>) -> Seq<
    char,
> {
    if info.detail@.contains_key(key) {
        metric_block(
            "all_smi_tenstorrent_eth_status_info"@,
            "Ethernet status register value"@,
            "gauge"@,
            base_labels(info, index).push(("port"@, port)).push(("status"@, info.detail@[key])),
            "1"@,
        )
    } else {
        Seq::empty()
    }
}

/// `start` followed by the status register and health counter metrics.
pub open spec fn status_section(start: Seq<char>, info: &GpuInfo, index: usize) -> Seq<char> {
    start + info_block(
        info,
        index,
        "pcie_status"@,
        "all_smi_tenstorrent_pcie_status_info"@,
        "PCIe status register value"@,
        "status"@,
    ) + eth_status_block(info, index, "eth_status0"@, "0"@) + eth_status_block(
        info,
        index,
        "eth_status1"@,
        "1"@,
    ) + register_block(
        info,
        index,
        "ddr_status"@,
        "all_smi_tenstorrent_ddr_status"@,
        "DDR status register value"@,
    ) + numeric_block(
        info,
        index,
        "arc0_health"@,
        "all_smi_tenstorrent_arc0_health"@,
        "ARC0 health counter"@,
        "counter"@,
    ) + numeric_block(
        info,
        index,
        "arc3_health"@,
        "all_smi_tenstorrent_arc3_health"@,
        "ARC3 health counter"@,
        "counter"@,
    ) + register_block(
        info,
        index,
        "faults"@,
        "all_smi_tenstorrent_faults"@,
        "Fault register value"@,
    ) + register_block(
        info,
        index,
        "throttler"@,
        "all_smi_tenstorrent_throttler"@,
        "Throttler state register value"@,
    ) + numeric_block(
        info,
        index,
        "fan_speed"@,
        "all_smi_tenstorrent_fan_speed_percent"@,
        "Fan speed percentage"@,
        "gauge"@,
    ) + numeric_block(
        info,
        index,
        "fan_rpm"@,
        "all_smi_tenstorrent_fan_rpm"@,
        "Fan speed in RPM"@,
        "gauge"@,
    )
}

/// The architecture named in a device name.
pub open spec fn arch_label(name: Seq<char>) -> Seq<char> {
    if contains_seq(name, "Grayskull"@) {
        "grayskull"@
    } else if contains_seq(name, "Wormhole"@) {
        "wormhole"@
    } else if contains_seq(name, "Blackhole"@) {
        "blackhole"@
    } else {
        "unknown"@
    }
}

/// `start` followed by the board and collection method metrics.
pub open spec fn board_section(start: Seq<char>, info: &GpuInfo, index: usize) -> Seq<char> {
    start + (if info.detail@.contains_key("board_type"@) {
        metric_block(
            "all_smi_tenstorrent_board_info"@,
            "Tenstorrent board information"@,
            "gauge"@,
            base_labels(info, index).push(("board_type"@, info.detail@["board_type"@])).push(
                (
                    "board_id"@,
                    if info.detail@.contains_key("board_id"@) {
                        info.detail@["board_id"@]
                    } else {
                        Seq::empty()
                    },
                ),
            ).push(("architecture"@, arch_label(info.name@))),
            "1"@,
        )
    } else {
        Seq::empty()
    }) + info_block(
        info,
        index,
        "collection_method"@,
        "all_smi_tenstorrent_collection_method_info"@,
        "Data collection method used"@,
        "method"@,
    )
}

/// A metric whose value is the number after a prefix in a detail.
pub open spec fn prefixed_block(
    info: &GpuInfo,
    index: usize,
    key: Seq<char>,
    prefix: Seq<char>,
    name: Seq<char>,
    help: Seq<char>,
) -> Seq<char> {
    if info.detail@.contains_key(key) && starts_with_seq(info.detail@[key], prefix) {
        match numeric_text_spec(
            info.detail@[key].subrange(prefix.len() as int, info.detail@[key].len() as int),
        ) {
            Some(t) => metric_block(name, help, "gauge"@, base_labels(info, index), t),
            None => Seq::empty(),
        }
    } else {
        Seq::empty()
    }
}

/// `start` followed by the PCIe and DRAM metrics.
pub open spec fn pcie_section(start: Seq<char>, info: &GpuInfo, index: usize) -> Seq<char> {
    start + info_block(
        info,
        index,
        "pcie_address"@,
        "all_smi_tenstorrent_pcie_address_info"@,
        "PCIe address information"@,
        "address"@,
    ) + (if info.detail@.contains_key("pcie_vendor_id"@) && info.detail@.contains_key(
        "pcie_device_id"@,
    ) {
        metric_block(
            "all_smi_tenstorrent_pcie_device_info"@,
            "PCIe device identification"@,
            "gauge"@,
            base_labels(info, index).push(("vendor_id"@, info.detail@["pcie_vendor_id"@])).push(
                ("device_id"@, info.detail@["pcie_device_id"@]),
            ),
            "1"@,
        )
    } else {
        Seq::empty()
    }) + prefixed_block(
        info,
        index,
        "pcie_link_gen"@,
        "Gen"@,
        "all_smi_tenstorrent_pcie_generation"@,
        "PCIe generation"@,
    ) + prefixed_block(
        info,
        index,
        "pcie_link_width"@,
        "x"@,
        "all_smi_tenstorrent_pcie_width"@,
        "PCIe link width"@,
    ) + info_block(
        info,
        index,
        "dram_speed"@,
        "all_smi_tenstorrent_dram_info"@,
        "DRAM configuration information"@,
        "speed"@,
    )
}

/// Whether the Tenstorrent exporter handles a device: its name names
/// Tenstorrent.
pub open spec fn handles(info: &GpuInfo) -> bool {
    contains_seq(info.name@, "Tenstorrent"@)
}

fn text_contains(s: &str, p: &str) -> (r: bool)
    ensures
        r == contains_seq(s@, p@),
{
    let v = chars_of(s);
    let pv = chars_of(p);
    let n = v.len();
    assert(v@.subrange(0, n as int) =~= s@);
    span_contains(&v, 0, n, &pv)
}

/// The metrics of Tenstorrent boards.
pub struct TenstorrentExporter {
    common: CommonNpuExporter,
}

impl TenstorrentExporter {
    /// The exporter.
    pub fn new() -> (r: Self) {
        TenstorrentExporter { common: CommonNpuExporter::new() }
    }

    /// Whether the exporter handles a device.
    pub fn can_handle(&self, info: &GpuInfo) -> (r: bool)
        ensures
            r == handles(info),
    {
        text_contains(info.name.as_str(), "Tenstorrent")
    }

    /// The vendor of the boards handled.
    pub fn vendor_name(&self) -> (r: &'static str)
        ensures
            r@ == "Tenstorrent"@,
    {
        "Tenstorrent"
    }

    /// Firmware versions and date.
    pub fn export_firmware(&self, builder: &mut MetricBuilder, info: &GpuInfo, index: usize)
        requires
            info.detail.wf(),
        ensures
            final(builder)@ == firmware_section(old(builder)@, info, index),
    {
        crate::npu_export::emit_info(
            builder,
            info,
            index,
            "arc_fw_version",
            "all_smi_tenstorrent_arc_firmware_info",
            "ARC firmware version",
            "version",
        );
        crate::npu_export::emit_info(
            builder,
            info,
            index,
            "eth_fw_version",
            "all_smi_tenstorrent_eth_firmware_info",
            "Ethernet firmware version",
            "version",
        );
        crate::npu_export::emit_info(
            builder,
            info,
            index,
            "fw_date",
            "all_smi_tenstorrent_firmware_date_info",
            "Firmware build date",
            "date",
        );
        crate::npu_export::emit_info(
            builder,
            info,
            index,
            "ddr_fw_version",
            "all_smi_tenstorrent_ddr_firmware_info",
            "DDR firmware version",
            "version",
        );
        crate::npu_export::emit_info(
            builder,
            info,
            index,
            "spibootrom_fw_version",
            "all_smi_tenstorrent_spibootrom_firmware_info",
            "SPI Boot ROM firmware version",
            "version",
        );
    }

    /// Temperatures of the chip, its voltage regulator, inlet and outlets.
    pub fn export_temperatures(&self, builder: &mut MetricBuilder, info: &GpuInfo, index: usize)
        requires
            info.detail.wf(),
        ensures
            final(builder)@ == temperature_section(old(builder)@, info, index),
    {
        crate::npu_export::emit_numeric(
            builder,
            info,
            index,
            "asic_temperature",
            "all_smi_tenstorrent_asic_temperature_celsius",
            "ASIC temperature in celsius",
            "gauge",
        );
        crate::npu_export::emit_numeric(
            builder,
            info,
            index,
            "vreg_temperature",
            "all_smi_tenstorrent_vreg_temperature_celsius",
            "Voltage regulator temperature in celsius",
            "gauge",
        );
        crate::npu_export::emit_numeric(
            builder,
            info,
            index,
            "inlet_temperature",
            "all_smi_tenstorrent_inlet_temperature_celsius",
            "Inlet temperature in celsius",
            "gauge",
        );
        crate::npu_export::emit_numeric(
            builder,
            info,
            index,
            "outlet_temperature1",
            "all_smi_tenstorrent_outlet1_temperature_celsius",
            "Outlet 1 temperature in celsius",
            "gauge",
        );
        crate::npu_export::emit_numeric(
            builder,
            info,
            index,
            "outlet_temperature2",
            "all_smi_tenstorrent_outlet2_temperature_celsius",
            "Outlet 2 temperature in celsius",
            "gauge",
        );
    }

    /// AI, AXI and ARC clock frequencies.
    pub fn export_clocks(&self, builder: &mut MetricBuilder, info: &GpuInfo, index: usize)
        requires
            info.detail.wf(),
        ensures
            final(builder)@ == clock_section(old(builder)@, info, index),
    {
        crate::npu_export::emit_numeric(
            builder,
            info,
            index,
            "aiclk_mhz",
            "all_smi_tenstorrent_aiclk_mhz",
            "AI clock frequency in MHz",
            "gauge",
        );
        crate::npu_export::emit_numeric(
            builder,
            info,
            index,
            "axiclk_mhz",
            "all_smi_tenstorrent_axiclk_mhz",
            "AXI clock frequency in MHz",
            "gauge",
        );
        crate::npu_export::emit_numeric(
            builder,
            info,
            index,
            "arcclk_mhz",
            "all_smi_tenstorrent_arcclk_mhz",
            "ARC clock frequency in MHz",
            "gauge",
        );
    }

    /// Voltage, current, power limits, thermal limit, heartbeat and raw
    /// power.
    pub fn export_power(&self, builder: &mut MetricBuilder, info: &GpuInfo, index: usize)
        requires
            info.detail.wf(),
        ensures
            final(builder)@ == power_section(old(builder)@, info, index),
    {
        crate::npu_export::emit_numeric(
            builder,
            info,
            index,
            "voltage",
            "all_smi_tenstorrent_voltage_volts",
            "Core voltage in volts",
            "gauge",
        );
        crate::npu_export::emit_numeric(
            builder,
            info,
            index,
            "current",
            "all_smi_tenstorrent_current_amperes",
            "Current in amperes",
            "gauge",
        );
        crate::npu_export::emit_numeric(
            builder,
            info,
            index,
            "power_limit_tdp",
            "all_smi_tenstorrent_power_limit_tdp_watts",
            "TDP power limit in watts",
            "gauge",
        );
        crate::npu_export::emit_numeric(
            builder,
            info,
            index,
            "power_limit_tdc",
            "all_smi_tenstorrent_power_limit_tdc_amperes",
            "TDC current limit in amperes",
            "gauge",
        );
        crate::npu_export::emit_numeric(
            builder,
            info,
            index,
            "tdp_limit",
            "all_smi_tenstorrent_tdp_limit_watts",
            "TDP limit in watts",
            "gauge",
        );
        crate::npu_export::emit_numeric(
            builder,
            info,
            index,
            "tdc_limit",
            "all_smi_tenstorrent_tdc_limit_amperes",
            "TDC limit in amperes",
            "gauge",
        );
        crate::npu_export::emit_numeric(
            builder,
            info,
            index,
            "thermal_limit",
            "all_smi_tenstorrent_thermal_limit_celsius",
            "Thermal limit in celsius",
            "gauge",
        );
        crate::npu_export::emit_numeric(
            builder,
            info,
            index,
            "heartbeat",
            "all_smi_tenstorrent_heartbeat",
            "Device heartbeat counter",
            "counter",
        );
        crate::npu_export::emit_numeric(
            builder,
            info,
            index,
            "power_watts",
            "all_smi_tenstorrent_power_raw_watts",
            "Raw power consumption in watts",
            "gauge",
        );
    }

    fn export_eth_status(
        &self,
        builder: &mut MetricBuilder,
        info: &GpuInfo,
        index: usize,
        key: &str,
        port: &str,
    )
        requires
            info.detail.wf(),
        ensures
            final(builder)@ == old(builder)@ + eth_status_block(info, index, key@, port@),
    {
        match info.detail.get(key) {
            Some(v) => {
                let mut ls = crate::npu_export::base_labels_vec(info, index);
                crate::npu_export::push_label(&mut ls, "port", port);
                crate::npu_export::push_label(&mut ls, "status", v.as_str());
                builder.block(
                    "all_smi_tenstorrent_eth_status_info",
                    "Ethernet status register value",
                    "gauge",
                    &ls,
                    "1",
                );
            },
            None => {
                assert(old(builder)@ + Seq::<char>::empty() =~= old(builder)@);
            },
        }
    }

    /// Status registers (PCIe, Ethernet, DDR, faults, throttler), ARC
    /// health counters and fan readings.
    pub fn export_status_health(&self, builder: &mut MetricBuilder, info: &GpuInfo, index: usize)
        requires
            info.detail.wf(),
        ensures
            final(builder)@ == status_section(old(builder)@, info, index),
    {
        crate::npu_export::emit_info(
            builder,
            info,
            index,
            "pcie_status",
            "all_smi_tenstorrent_pcie_status_info",
            "PCIe status register value",
            "status",
        );
        self.export_eth_status(builder, info, index, "eth_status0", "0");
        self.export_eth_status(builder, info, index, "eth_status1", "1");
        crate::npu_export::emit_register(
            builder,
            info,
            index,
            "ddr_status",
            "all_smi_tenstorrent_ddr_status",
            "DDR status register value",
        );
        crate::npu_export::emit_numeric(
            builder,
            info,
            index,
            "arc0_health",
            "all_smi_tenstorrent_arc0_health",
            "ARC0 health counter",
            "counter",
        );
        crate::npu_export::emit_numeric(
            builder,
            info,
            index,
            "arc3_health",
            "all_smi_tenstorrent_arc3_health",
            "ARC3 health counter",
            "counter",
        );
        crate::npu_export::emit_register(
            builder,
            info,
            index,
            "faults",
            "all_smi_tenstorrent_faults",
            "Fault register value",
        );
        crate::npu_export::emit_register(
            builder,
            info,
            index,
            "throttler",
            "all_smi_tenstorrent_throttler",
            "Throttler state register value",
        );
        crate::npu_export::emit_numeric(
            builder,
            info,
            index,
            "fan_speed",
            "all_smi_tenstorrent_fan_speed_percent",
            "Fan speed percentage",
            "gauge",
        );
        crate::npu_export::emit_numeric(
            builder,
            info,
            index,
            "fan_rpm",
            "all_smi_tenstorrent_fan_rpm",
            "Fan speed in RPM",
            "gauge",
        );
    }

    /// Board type, board id and architecture; the collection method.
    pub fn export_board_info(&self, builder: &mut MetricBuilder, info: &GpuInfo, index: usize)
        requires
            info.detail.wf(),
        ensures
            final(builder)@ == board_section(old(builder)@, info, index),
    {
        if let Some(board_type) = info.detail.get("board_type") {
            let arch = if text_contains(info.name.as_str(), "Grayskull") {
                "grayskull"
            } else if text_contains(info.name.as_str(), "Wormhole") {
                "wormhole"
            } else if text_contains(info.name.as_str(), "Blackhole") {
                "blackhole"
            } else {
                "unknown"
            };
            let board_id = match info.detail.get("board_id") {
                Some(s) => s.as_str(),
                None => "",
            };
            proof {
                if !info.detail@.contains_key("board_id"@) {
                    reveal_strlit("");
                    assert(board_id@ =~= Seq::<char>::empty());
                }
            }
            let mut ls = crate::npu_export::base_labels_vec(info, index);
            crate::npu_export::push_label(&mut ls, "board_type", board_type.as_str());
            crate::npu_export::push_label(&mut ls, "board_id", board_id);
            crate::npu_export::push_label(&mut ls, "architecture", arch);
            builder.block(
                "all_smi_tenstorrent_board_info",
                "Tenstorrent board information",
                "gauge",
                &ls,
                "1",
            );
        }
        crate::npu_export::emit_info(
            builder,
            info,
            index,
            "collection_method",
            "all_smi_tenstorrent_collection_method_info",
            "Data collection method used",
            "method",
        );
    }

    fn emit_prefixed(
        &self,
        builder: &mut MetricBuilder,
        info: &GpuInfo,
        index: usize,
        key: &str,
        prefix: &str,
        name: &str,
        help: &str,
    )
        requires
            info.detail.wf(),
        ensures
            final(builder)@ == old(builder)@ + prefixed_block(info, index, key@, prefix@, name@, help@),
    {
        if let Some(v) = info.detail.get(key) {
            let cv = chars_of(v.as_str());
            let pv = chars_of(prefix);
            let n = cv.len();
            assert(cv@.subrange(0, n as int) =~= v@);
            if span_starts_with(&cv, 0, n, &pv) {
                let rest = span_to_string(&cv, pv.len(), n);
                if let Some(t) = numeric_value_text(rest.as_str()) {
                    let ls = crate::npu_export::base_labels_vec(info, index);
                    builder.block(name, help, "gauge", &ls, t.as_str());
                    return;
                }
            }
        }
        assert(old(builder)@ + Seq::<char>::empty() =~= old(builder)@);
    }

    /// PCIe address, ids, generation and width; DRAM speed.
    pub fn export_pcie_dram(&self, builder: &mut MetricBuilder, info: &GpuInfo, index: usize)
        requires
            info.detail.wf(),
        ensures
            final(builder)@ == pcie_section(old(builder)@, info, index),
    {
        crate::npu_export::emit_info(
            builder,
            info,
            index,
            "pcie_address",
            "all_smi_tenstorrent_pcie_address_info",
            "PCIe address information",
            "address",
        );
        if let Some(vendor_id) = info.detail.get("pcie_vendor_id") {
            if let Some(device_id) = info.detail.get("pcie_device_id") {
                let mut ls = crate::npu_export::base_labels_vec(info, index);
                crate::npu_export::push_label(&mut ls, "vendor_id", vendor_id.as_str());
                crate::npu_export::push_label(&mut ls, "device_id", device_id.as_str());
                builder.block(
                    "all_smi_tenstorrent_pcie_device_info",
                    "PCIe device identification",
                    "gauge",
                    &ls,
                    "1",
                );
            }
        }
        self.emit_prefixed(
            builder,
            info,
            index,
            "pcie_link_gen",
            "Gen",
            "all_smi_tenstorrent_pcie_generation",
            "PCIe generation",
        );
        self.emit_prefixed(
            builder,
            info,
            index,
            "pcie_link_width",
            "x",
            "all_smi_tenstorrent_pcie_width",
            "PCIe link width",
        );
        crate::npu_export::emit_info(
            builder,
            info,
            index,
            "dram_speed",
            "all_smi_tenstorrent_dram_info",
            "DRAM configuration information",
            "speed",
        );
    }

    /// Every Tenstorrent metric of a device that the exporter handles, in
    /// order: firmware, temperatures, clocks, power, status, board, PCIe.
    pub fn export_vendor_metrics(&self, builder: &mut MetricBuilder, info: &GpuInfo, index: usize)
        requires
            info.detail.wf(),
        ensures
            handles(info) ==> final(builder)@ == pcie_section(
                board_section(
                    status_section(
                        power_section(
                            clock_section(
                                temperature_section(
                                    firmware_section(old(builder)@, info, index),
                                    info,
                                    index,
                                ),
                                info,
                                index,
                            ),
                            info,
                            index,
                        ),
                        info,
                        index,
                    ),
                    info,
                    index,
                ),
                info,
                index,
            ),
            !handles(info) ==> final(builder)@ == old(builder)@,
    {
        if !self.can_handle(info) {
            return;
        }
        self.export_firmware(builder, info, index);
        self.export_temperatures(builder, info, index);
        self.export_clocks(builder, info, index);
        self.export_power(builder, info, index);
        self.export_status_health(builder, info, index);
        self.export_board_info(builder, info, index);
        self.export_pcie_dram(builder, info, index);
    }

    /// The generic firmware metric, as every NPU exports it.
    pub fn export_generic_npu_metrics(&self, builder: &mut MetricBuilder, info: &GpuInfo, index: usize)
        requires
            info.detail.wf(),
        ensures
            final(builder)@ == old(builder)@ + crate::npu_export::generic_firmware_section(info, index),
    {
        self.common.export_generic_npu_metrics(builder, info, index);
    }
}


/// The architecture label names the architecture that the device name
/// mentions, lower-cased: Grayskull first, then Wormhole, then Blackhole; it
/// is `unknown` exactly when the name mentions none of them.
pub proof fn law_arch_label(name: Seq<char>)
    ensures
        contains_seq(name, "Grayskull"@) ==> arch_label(name) == "grayskull"@,
        !contains_seq(name, "Grayskull"@) && contains_seq(name, "Wormhole"@) ==> arch_label(name) == "wormhole"@,
        !contains_seq(name, "Grayskull"@) && !contains_seq(name, "Wormhole"@) && contains_seq(name, "Blackhole"@)
            ==> arch_label(name) == "blackhole"@,
        arch_label(name) == "unknown"@ <==> !(contains_seq(name, "Grayskull"@) || contains_seq(name, "Wormhole"@)
            || contains_seq(name, "Blackhole"@)),
{
    reveal_strlit("grayskull");
    reveal_strlit("wormhole");
    reveal_strlit("blackhole");
    reveal_strlit("unknown");
    assert("grayskull"@.len() == 9 && "wormhole"@.len() == 8 && "blackhole"@.len() == 9 && "unknown"@.len() == 7);
}

} // verus!
