use all_smi::labels::LabelMap;
use all_smi::metrics::{hex_register_value, numeric_value_text, MetricBuilder};
use all_smi::npu_export::{CommonNpuExporter, GpuInfo};
use all_smi::npu_tenstorrent::TenstorrentExporter;

fn info(name: &str, pairs: &[(&str, &str)]) -> GpuInfo {
    let mut detail = LabelMap::new();
    for (k, v) in pairs {
        detail.insert(k.to_string(), v.to_string());
    }
    GpuInfo {
        uuid: "u-1".to_string(),
        name: name.to_string(),
        device_type: "NPU".to_string(),
        instance: "tt0".to_string(),
        detail,
    }
}

const BASE: &str = "npu=\"Tenstorrent Wormhole n300\",instance=\"tt0\",uuid=\"u-1\",index=\"0\"";

#[test]
fn test_metric_builder_lines() {
    let mut b = MetricBuilder::new();
    b.help("m", "help text");
    b.type_("m", "gauge");
    b.metric("m", &vec![("a".to_string(), "x\"y\\z\n".to_string())], "1");
    b.metric("n", &vec![], "2");
    assert_eq!(
        b.build(),
        "# HELP m help text\n# TYPE m gauge\nm{a=\"x\\\"y\\\\z\\n\"} 1\nn 2\n"
    );
}

#[test]
fn test_numeric_value_text() {
    assert_eq!(numeric_value_text("45.0").as_deref(), Some("45"));
    assert_eq!(numeric_value_text(" 45.50 ").as_deref(), Some("45.5"));
    assert_eq!(numeric_value_text("007").as_deref(), Some("7"));
    assert_eq!(numeric_value_text("-0.0").as_deref(), Some("-0"));
    assert_eq!(numeric_value_text(".5").as_deref(), Some("0.5"));
    assert_eq!(numeric_value_text("+3.").as_deref(), Some("3"));
    assert_eq!(numeric_value_text("1000").as_deref(), Some("1000"));
    assert_eq!(numeric_value_text("abc"), None);
    assert_eq!(numeric_value_text("."), None);
    assert_eq!(numeric_value_text(""), None);
    assert_eq!(numeric_value_text("1.2.3"), None);
}

#[test]
fn test_hex_register_value() {
    assert_eq!(hex_register_value("0x0000001f"), Some(31));
    assert_eq!(hex_register_value("0xFFFFFFFF"), Some(u32::MAX));
    assert_eq!(hex_register_value("ff"), Some(255));
    assert_eq!(hex_register_value("0x0x1"), Some(1));
    assert_eq!(hex_register_value("0x123456789"), None);
    assert_eq!(hex_register_value("0x"), None);
    assert_eq!(hex_register_value("0xg1"), None);
    assert_eq!(CommonNpuExporter::parse_hex_register(" 0x10 "), None);
    assert_eq!(CommonNpuExporter::parse_hex_register("0x10 "), Some(16));
}

#[test]
fn test_status_metric() {
    let i = info("Tenstorrent Wormhole n300", &[("state", "ok")]);
    let mut b = MetricBuilder::new();
    CommonNpuExporter::export_status_metric(&mut b, &i, 0, "m_status", "Status", "state", "ok");
    CommonNpuExporter::export_status_metric(&mut b, &i, 0, "m2", "Other", "state", "bad");
    CommonNpuExporter::export_status_metric(&mut b, &i, 0, "m3", "Absent", "missing", "ok");
    let expected = format!(
        "# HELP m_status Status\n# TYPE m_status gauge\nm_status{{{BASE},status=\"ok\"}} 1\n# HELP m2 Other\n# TYPE m2 gauge\nm2{{{BASE},status=\"ok\"}} 0\n"
    );
    assert_eq!(b.build(), expected);
}

#[test]
fn test_common_generic_metrics() {
    let e = CommonNpuExporter::new();
    let i = info("Tenstorrent Wormhole n300", &[("firmware", "1.2"), ("temperature", "41.0"), ("power_draw", "x")]);
    let mut b = MetricBuilder::new();
    e.export_generic_npu_metrics(&mut b, &i, 0);
    e.export_temperature_metrics(&mut b, &i, 0);
    e.export_power_metrics(&mut b, &i, 0);
    let expected = format!(
        "# HELP all_smi_npu_firmware_info NPU firmware version\n# TYPE all_smi_npu_firmware_info gauge\nall_smi_npu_firmware_info{{{BASE},firmware=\"1.2\"}} 1\n# HELP all_smi_npu_temperature_celsius NPU temperature in celsius\n# TYPE all_smi_npu_temperature_celsius gauge\nall_smi_npu_temperature_celsius{{{BASE}}} 41\n"
    );
    assert_eq!(b.build(), expected);
    let mut gpu = info("GPU", &[("firmware", "1")]);
    gpu.device_type = "GPU".to_string();
    let mut b = MetricBuilder::new();
    e.export_device_info(&mut b, &gpu, 0);
    e.export_firmware_info(&mut b, &gpu, 0);
    assert_eq!(b.build(), "");
}

#[test]
fn test_tenstorrent_vendor_metrics() {
    let e = TenstorrentExporter::new();
    let i = info(
        "Tenstorrent Wormhole n300",
        &[
            ("arc_fw_version", "1.2.3"),
            ("aiclk_mhz", "1000"),
            ("ddr_status", "0x00000011"),
            ("eth_status1", "0x00000001"),
            ("board_type", "n300"),
            ("pcie_link_gen", "Gen4"),
        ],
    );
    assert!(e.can_handle(&i));
    assert_eq!(e.vendor_name(), "Tenstorrent");
    let mut b = MetricBuilder::new();
    e.export_vendor_metrics(&mut b, &i, 0);
    let text = b.build();
    let expected = format!(
        "# HELP all_smi_tenstorrent_arc_firmware_info ARC firmware version\n# TYPE all_smi_tenstorrent_arc_firmware_info gauge\nall_smi_tenstorrent_arc_firmware_info{{{BASE},version=\"1.2.3\"}} 1\n\
# HELP all_smi_tenstorrent_aiclk_mhz AI clock frequency in MHz\n# TYPE all_smi_tenstorrent_aiclk_mhz gauge\nall_smi_tenstorrent_aiclk_mhz{{{BASE}}} 1000\n\
# HELP all_smi_tenstorrent_eth_status_info Ethernet status register value\n# TYPE all_smi_tenstorrent_eth_status_info gauge\nall_smi_tenstorrent_eth_status_info{{{BASE},port=\"1\",status=\"0x00000001\"}} 1\n\
# HELP all_smi_tenstorrent_ddr_status DDR status register value\n# TYPE all_smi_tenstorrent_ddr_status gauge\nall_smi_tenstorrent_ddr_status{{{BASE}}} 17\n\
# HELP all_smi_tenstorrent_board_info Tenstorrent board information\n# TYPE all_smi_tenstorrent_board_info gauge\nall_smi_tenstorrent_board_info{{{BASE},board_type=\"n300\",board_id=\"\",architecture=\"wormhole\"}} 1\n\
# HELP all_smi_tenstorrent_pcie_generation PCIe generation\n# TYPE all_smi_tenstorrent_pcie_generation gauge\nall_smi_tenstorrent_pcie_generation{{{BASE}}} 4\n"
    );
    assert_eq!(text, expected);
    let other = info("Furiosa RNGD", &[("arc_fw_version", "1")]);
    assert!(!e.can_handle(&other));
    let mut b = MetricBuilder::new();
    e.export_vendor_metrics(&mut b, &other, 0);
    assert_eq!(b.build(), "");
}

#[test]
fn test_tenstorrent_power_and_pcie_sections() {
    let e = TenstorrentExporter::new();
    let i = info(
        "Tenstorrent Wormhole n300",
        &[("heartbeat", "42"), ("voltage", "0.80"), ("pcie_vendor_id", "0x1e52"), ("pcie_device_id", "0x401e"), ("pcie_link_width", "16")],
    );
    let mut b = MetricBuilder::new();
    e.export_power(&mut b, &i, 0);
    e.export_pcie_dram(&mut b, &i, 0);
    let expected = format!(
        "# HELP all_smi_tenstorrent_voltage_volts Core voltage in volts\n# TYPE all_smi_tenstorrent_voltage_volts gauge\nall_smi_tenstorrent_voltage_volts{{{BASE}}} 0.8\n\
# HELP all_smi_tenstorrent_heartbeat Device heartbeat counter\n# TYPE all_smi_tenstorrent_heartbeat counter\nall_smi_tenstorrent_heartbeat{{{BASE}}} 42\n\
# HELP all_smi_tenstorrent_pcie_device_info PCIe device identification\n# TYPE all_smi_tenstorrent_pcie_device_info gauge\nall_smi_tenstorrent_pcie_device_info{{{BASE},vendor_id=\"0x1e52\",device_id=\"0x401e\"}} 1\n"
    );
    assert_eq!(b.build(), expected);
}

#[test]
fn numeric_text_in_exponent_form_matches_float_printing() {
    let cases = [
        "1e3", "1.5e-3", "-2.50E+2", "12.345e1", "5e-1", "0e10", "-0e0", "1.e2", ".5e1",
        " 7.25e0 ", "123456789012345e-20", "1e280", "9.99e-280", "0.000001e5", "+4E-0",
        "1e300", "1e281", "1e-281", "1.7976931348623157e308", "17976931348623157e292",
        "1234567890123456e0", "1e-300", "2.5e-306",
    ];
    for c in cases {
        let expected = format!("{}", c.trim().parse::<f64>().unwrap());
        assert_eq!(numeric_value_text(c).as_deref(), Some(expected.as_str()), "{c}");
    }
    assert_eq!(numeric_value_text("1e3").as_deref(), Some("1000"));
    assert_eq!(numeric_value_text("1.5e-3").as_deref(), Some("0.0015"));
    for bad in ["e5", "1e", "1e+", ".e1", "1e2.5", "inf", "NaN", "1e309", "1.8e308", "-2e400"] {
        assert_eq!(numeric_value_text(bad), None, "{bad}");
    }
}

#[test]
fn numeric_text_out_of_float_range() {
    let threshold = "179769313486231580793728971405303415079934132710037826936173778980444968292764750946649017977587207096330286416692887910946555547851940402630657488671505820681908902000708383676273854845817711531764475730270069855571366959622842914819860834936475292719074168444365510704342711559699508093042880177904174497792";
    assert!(threshold.parse::<f64>().unwrap().is_infinite());
    assert_eq!(numeric_value_text(threshold), None);
    let huge = format!("1{}", "0".repeat(400));
    assert_eq!(numeric_value_text(&huge), None);
    let tiny = format!("0.{}1", "0".repeat(400));
    assert_eq!(numeric_value_text(&tiny).as_deref(), Some("0"));
    assert_eq!(numeric_value_text("1e-400").as_deref(), Some("0"));
    assert_eq!(numeric_value_text("-1e-400").as_deref(), Some("-0"));
    assert_eq!(numeric_value_text("0e99999999999999999999999").as_deref(), Some("0"));
    assert_eq!(numeric_value_text("1e99999999999999999999999"), None);
    assert_eq!(numeric_value_text("1e-99999999999999999999999").as_deref(), Some("0"));
}
