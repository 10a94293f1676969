use all_smi::furiosa::{CollectionMethod as FuriosaMethod, FuriosaConfig, FuriosaReader};
use all_smi::mock_apple::{thermal_pressure, AppleGpuSample, AppleSiliconMockGenerator, AppleSystemSample};
use all_smi::rebellions::{
    context_device_id, context_memory_bytes, extract_process_name,
    get_device_model, npu_parse_temperature, parse_memory_mib, rbln_detail, rbln_device_name, rbln_npu_detail,
    read_error_status, RblnDevice, RebellionsNpuReader, RebellionsReader,
};
use all_smi::remote::{
    extract_host_identifier, extract_hostname_from_url, fetch_step, metrics_url, parse_hosts_content,
    FetchOutcome, FetchStep, RemoteCollectorBuilder,
};
use all_smi::tenstorrent::arch::Arch;
use all_smi::tenstorrent::chip::Telemetry;
use all_smi::tenstorrent_reader::{
    detection_failure_status, detection_status, device_name, instance_name, luwen_detail,
    tdp_limit_watts, total_memory, CollectionMethod, PciLinkInfo, TenstorrentConfig,
    TenstorrentReader,
};

fn n300() -> Telemetry {
    let mut t = Telemetry::default();
    t.arch = Arch::Wormhole;
    t.board_id_high = 0x0000_0140;
    t.board_id_low = 0x1234;
    t
}

#[test]
fn test_tenstorrent_reader_config() {
    let r = TenstorrentReader::new();
    assert_eq!(r.collection_method(), CollectionMethod::DeviceFile);
    let r = TenstorrentReader::with_config(TenstorrentConfig::default());
    assert_eq!(r.collection_method(), CollectionMethod::DeviceFile);
    assert_eq!(detection_status(2), None);
    assert_eq!(detection_status(0).as_deref(), Some("No Tenstorrent devices found"));
    assert_eq!(detection_failure_status("boom"), "Failed to detect Tenstorrent devices: boom");
}

#[test]
fn test_tenstorrent_device_name_and_tables() {
    let mut t = n300();
    assert_eq!(device_name(&t), "Tenstorrent Wormhole n300");
    assert_eq!(instance_name(3), "tt3");
    assert_eq!(tdp_limit_watts(&t), 160);
    t.tdp = 120 << 16;
    assert_eq!(tdp_limit_watts(&t), 120);
    assert_eq!(total_memory(&t), 0);
    t.ddr_status = 1;
    assert_eq!(total_memory(&t), 64 * 1024 * 1024 * 1024);
    let mut u = Telemetry::default();
    u.arch = Arch::Blackhole;
    u.ddr_status = 1;
    assert_eq!(device_name(&u), "Tenstorrent Blackhole Unknown");
    assert_eq!(total_memory(&u), 0);
    u.ddr_speed = Some(8000);
    assert_eq!(total_memory(&u), 96 * 1024 * 1024 * 1024);
    assert_eq!(tdp_limit_watts(&u), 350);
}

#[test]
fn test_luwen_detail() {
    let mut t = n300();
    t.arc0_fw_version = 0x0001_0203;
    t.aiclk = 0xABCD_03E8;
    t.pcie_status = 0x1f;
    t.faults = 0;
    t.throttler = 2;
    t.tdp = 150 << 16;
    t.arc0_health = 77;
    let pci = PciLinkInfo {
        domain: 0,
        bus: 0x3a,
        slot: 0,
        function: 1,
        vendor: 0x1e52,
        device_id: 0x401e,
        link_width: 16,
        link_gen: 4,
    };
    let m = luwen_detail(&t, Some(pci));
    assert_eq!(m.get("board_type").unwrap(), "n300");
    assert_eq!(m.get("board_id").unwrap(), "0000014000001234");
    assert_eq!(m.get("collection_method").unwrap(), "luwen");
    assert_eq!(m.get("pcie_address").unwrap(), "0000:3a:00.1");
    assert_eq!(m.get("pcie_vendor_id").unwrap(), "0x1e52");
    assert_eq!(m.get("pcie_link_width").unwrap(), "x16");
    assert_eq!(m.get("pcie_link_gen").unwrap(), "Gen4");
    assert_eq!(m.get("arc_fw_version").unwrap(), "1.2.3");
    assert_eq!(m.get("aiclk_mhz").unwrap(), "1000");
    assert_eq!(m.get("pcie_status").unwrap(), "0x0000001f");
    assert_eq!(m.get("tdp_limit").unwrap(), "150");
    assert_eq!(m.get("heartbeat").unwrap(), "77");
    assert_eq!(m.get("throttler").unwrap(), "0x00000002");
    assert!(m.get("faults").is_none());
    assert!(m.get("tdc_limit").is_none());
    assert!(m.get("ddr_fw_version").is_none());
    let m2 = luwen_detail(&t, None);
    assert!(m2.get("pcie_address").is_none());
}

#[test]
fn test_rebellions_reader() {
    let r = RebellionsReader::new(false, true);
    assert_eq!(r.command_path(), "/usr/bin/rbln-smi");
    assert_eq!(RebellionsReader::new(false, false).command_path(), "rbln-smi");
    let r = RebellionsReader::with_command_path("/opt/rbln-smi".to_string());
    assert_eq!(r.command_path(), "/opt/rbln-smi");
    assert_eq!(RebellionsReader::parse_temperature("45C"), 45);
    assert_eq!(RebellionsReader::parse_temperature("hot"), 0);
    assert_eq!(RebellionsReader::parse_u32("12"), 12);
    assert_eq!(RebellionsReader::parse_memory("17179869184"), 17179869184);
    assert_eq!(get_device_model("RBLN-CA22", 16 * 1024 * 1024 * 1024), "RBLN-CA22 (ATOM)");
    assert_eq!(get_device_model("RBLN-CA22", 16 * 1024 * 1024 * 1024 + 1), "RBLN-CA22 (ATOM+)");
    assert_eq!(get_device_model("RBLN-CA25", 64 * 1024 * 1024 * 1024), "RBLN-CA25 (ATOM Max)");
    assert_eq!(read_error_status("e"), "Error reading Rebellions devices: e");
    let d = RblnDevice {
        name: "RBLN-CA22".to_string(),
        sid: "S1".to_string(),
        uuid: "U".to_string(),
        device: "rbln0".to_string(),
        status: "normal".to_string(),
        fw_ver: "1.0".to_string(),
        bus_id: "0000:01:00.0".to_string(),
        numa_node: "0".to_string(),
        link_speed: "16GT/s".to_string(),
        link_width: "16".to_string(),
        temperature: "40C".to_string(),
        card_power: "50000mW".to_string(),
        pstate: "P0".to_string(),
        memory_used: "0".to_string(),
        memory_total: "34359738368".to_string(),
        util: "0.0".to_string(),
        board_info: "B".to_string(),
    };
    let m = rbln_detail("KMD1", &d);
    assert_eq!(m.len(), 11);
    assert_eq!(m.get("PCIe Link Width").unwrap(), "x16");
    assert_eq!(m.get("KMD Version").unwrap(), "KMD1");
    assert_eq!(rbln_device_name(&d), "Rebellions RBLN-CA22 (ATOM+)");
    let n = rbln_npu_detail("KMD1", &d);
    assert_eq!(n.len(), 11);
    assert_eq!(n.get("PCI Link Width").unwrap(), "16");
    assert_eq!(n.get("Device Path").unwrap(), &d.device);
    assert_eq!(n.get("KMD Version").unwrap(), "KMD1");
    assert!(n.get("PCIe Bus").is_none());
}

#[test]
fn test_rebellions_npu_reader_helpers() {
    let _r = RebellionsNpuReader::new();
    assert_eq!(npu_parse_temperature("45/90C"), 45);
    assert_eq!(npu_parse_temperature("45C/90C"), 0);
    assert_eq!(npu_parse_temperature("x/1"), 0);
    assert_eq!(parse_memory_mib("512MiB"), 512 * 1024 * 1024);
    assert_eq!(parse_memory_mib("?"), 0);
    assert_eq!(extract_process_name("/usr/bin/python3 train.py"), "python3");
    assert_eq!(extract_process_name("   "), "unknown");
    assert_eq!(extract_process_name("dir/"), "");
    assert_eq!(context_device_id("npu3"), 3);
    assert_eq!(context_memory_bytes("256MB"), 256 * 1024 * 1024);
    let c = RebellionsNpuReader::get_rebellions_command(&[false, true, true, false], false, false).unwrap();
    assert_eq!((c.0.as_str(), c.1.as_str()), ("rbln-stat", "/usr/bin/rbln-stat"));
    let c = RebellionsNpuReader::get_rebellions_command(&[false; 4], false, true).unwrap();
    assert_eq!((c.0.as_str(), c.1.as_str()), ("rbln-smi", "rbln-smi"));
    assert!(RebellionsNpuReader::get_rebellions_command(&[false; 4], false, false).is_none());
}

#[test]
fn test_furiosa_reader() {
    let r = FuriosaReader::new();
    assert_eq!(r.primary_method(), FuriosaMethod::Furiosactl);
    assert_eq!(r.next_method(false), Some(FuriosaMethod::DeviceFile));
    assert_eq!(r.next_method(true), None);
    let r = FuriosaReader::with_config(FuriosaConfig { primary_method: FuriosaMethod::DeviceFile, fallback_method: None });
    assert_eq!(r.next_method(false), None);
}

#[test]
fn test_remote_hosts() {
    assert_eq!(extract_hostname_from_url("http://remote1:9090"), "remote1:9090");
    assert_eq!(extract_hostname_from_url("https://remote1:9090/metrics"), "remote1:9090");
    assert_eq!(extract_hostname_from_url("remote2:9090"), "remote2:9090");
    assert_eq!(extract_host_identifier("http://a/b/c"), "a");
    assert_eq!(metrics_url("host:9090"), "http://host:9090/metrics");
    assert_eq!(metrics_url("https://host"), "https://host/metrics");
    let hosts = parse_hosts_content("# comment\nhttp://a:1\n\n  b:2  \nhttps://c\n");
    assert_eq!(hosts, vec!["a:1".to_string(), "b:2".to_string(), "c".to_string()]);
    let b = RemoteCollectorBuilder::new().with_hosts(vec!["x".to_string()]).with_max_connections(4);
    assert_eq!(b.max_connections(), Some(4));
    let b = b.add_hosts_from_content("y\n#z\n");
    assert_eq!(b.hosts(), &vec!["x".to_string(), "y".to_string()]);
    match fetch_step(1, 3, FetchOutcome::ConnectionError("refused".to_string())) {
        FetchStep::Retry => {}
        _ => panic!("expected a retry"),
    }
    match fetch_step(3, 3, FetchOutcome::ConnectionError("refused".to_string())) {
        FetchStep::Failed(m) => assert_eq!(m, "Connection error after 3 attempts: refused"),
        _ => panic!("expected a failure"),
    }
    match fetch_step(2, 3, FetchOutcome::Text("ok".to_string())) {
        FetchStep::Done(t) => assert_eq!(t, "ok"),
        _ => panic!("expected the text"),
    }
}

#[test]
fn test_apple_mock_template_and_render() {
    let g = AppleSiliconMockGenerator::new(None, "node-1".to_string());
    let t = g.build_apple_template(&vec!["APPLE-1".to_string()], 68_719_476_736);
    assert!(t.starts_with("# HELP all_smi_gpu_utilization GPU utilization percentage\n# TYPE all_smi_gpu_utilization gauge\nall_smi_gpu_utilization{gpu=\"Apple M3 Max\", instance=\"node-1\", uuid=\"APPLE-1\", index=\"0\"} {{UTIL_0}}\n"));
    assert!(t.contains("all_smi_thermal_pressure_level{gpu=\"Apple M3 Max\", instance=\"node-1\", uuid=\"APPLE-1\", index=\"0\", level=\"{{THERMAL_LEVEL_0}}\"} {{THERMAL_VALUE_0}}\n"));
    assert!(t.contains("all_smi_memory_total_bytes{instance=\"node-1\"} 68719476736\n"));
    assert!(t.ends_with("all_smi_memory_pressure{instance=\"node-1\"} {{MEM_PRESSURE}}\n"));
    let gpus = vec![AppleGpuSample {
        utilization: "12.50".to_string(),
        memory_used_bytes: 100,
        memory_total_bytes: 200,
        temperature_celsius: 66,
        power_watts: "5.000".to_string(),
        frequency_mhz: 1000,
        ane_milliwatts: "0.0".to_string(),
        ane_watts: "0.000".to_string(),
    }];
    let sys = AppleSystemSample {
        cpu_efficiency_utilization: "3.00".to_string(),
        cpu_performance_utilization: "7.00".to_string(),
        cpu_utilization: "10.00".to_string(),
        memory_used_bytes: 5,
        memory_pressure: "50.00".to_string(),
    };
    let r = g.render_apple_response(&t, &gpus, &sys);
    assert!(!r.contains("{{"));
    assert!(r.contains("index=\"0\"} 12.50\n"));
    assert!(r.contains("level=\"serious\"} 2\n"));
    assert!(r.contains("all_smi_memory_pressure{instance=\"node-1\"} 50.00\n"));
    assert_eq!(thermal_pressure(49), ("nominal", 0));
    assert_eq!(thermal_pressure(75), ("critical", 3));
    let named = AppleSiliconMockGenerator::new(Some("Apple M4".to_string()), "n".to_string());
    assert!(named.build_apple_template(&vec![], 1).starts_with("# HELP all_smi_gpu_utilization"));
}

#[test]
fn base_device_name_is_the_device() {
    assert_eq!(all_smi::tenstorrent_reader::TenstorrentReader::get_base_device_name("wh0"), "wh0");
}

#[test]
fn arc_errors() {
    match all_smi::tenstorrent::arc_protocol::ArcProtocol::failure_error(3) {
        all_smi::tenstorrent::error::PlatformError::ChipError(m) => {
            assert_eq!(m, "ARC message failed with return code: 3")
        }
        other => panic!("unexpected {other:?}"),
    }
    match all_smi::tenstorrent::arc_protocol::ArcProtocol::timeout_error() {
        all_smi::tenstorrent::error::PlatformError::Timeout(m) => assert_eq!(m, "ARC message timeout"),
        other => panic!("unexpected {other:?}"),
    }
}

#[test]
fn prompt_answers() {
    assert!(all_smi::system::answer_is_yes("y\n"));
    assert!(all_smi::system::answer_is_yes("  YES \n"));
    assert!(all_smi::system::answer_is_yes("Yes"));
    assert!(!all_smi::system::answer_is_yes("\n"));
    assert!(!all_smi::system::answer_is_yes("no"));
    assert!(!all_smi::system::answer_is_yes("yess"));
    assert!(!all_smi::system::answer_is_yes("y e s"));
}

fn apple_gpu(util: &str, temp: u32) -> AppleGpuSample {
    AppleGpuSample {
        utilization: util.to_string(),
        memory_used_bytes: 1,
        memory_total_bytes: 2,
        temperature_celsius: temp,
        power_watts: "1.500".to_string(),
        frequency_mhz: 900,
        ane_milliwatts: "2.0".to_string(),
        ane_watts: "0.002".to_string(),
    }
}

fn apple_system() -> AppleSystemSample {
    AppleSystemSample {
        cpu_efficiency_utilization: "1.00".to_string(),
        cpu_performance_utilization: "2.00".to_string(),
        cpu_utilization: "3.00".to_string(),
        memory_used_bytes: 7,
        memory_pressure: "4.00".to_string(),
    }
}

#[test]
fn apple_render_fills_every_placeholder_and_keeps_lines() {
    let g = AppleSiliconMockGenerator::new(Some("Apple M2".to_string()), "mac".to_string());
    let uuids = vec!["A-0".to_string(), "A-1".to_string(), "A-2".to_string()];
    let t = g.build_apple_template(&uuids, 1024);
    let gpus = vec![apple_gpu("1.00", 40), apple_gpu("2.00", 60), apple_gpu("3.00", 90)];
    let r = g.render_apple_response(&t, &gpus, &apple_system());
    assert!(t.contains("{{UTIL_2}}") && t.contains("{{THERMAL_LEVEL_1}}"));
    assert!(!r.contains("{{"));
    assert_eq!(r.matches('\n').count(), t.matches('\n').count());
    assert!(r.contains("uuid=\"A-2\", index=\"2\", level=\"critical\"} 3\n"));
}

#[test]
fn apple_render_leaves_plain_text_alone() {
    let g = AppleSiliconMockGenerator::new(None, "mac".to_string());
    let plain = "no placeholders here\nsecond line\n";
    let r = g.render_apple_response(plain, &vec![apple_gpu("9.00", 10)], &apple_system());
    assert_eq!(r, plain);
}

#[test]
fn apple_render_with_single_braces_in_names() {
    let g = AppleSiliconMockGenerator::new(Some("GPU{x".to_string()), "host{".to_string());
    let t = g.build_apple_template(&vec!["U{".to_string()], 1);
    let r = g.render_apple_response(&t, &vec![apple_gpu("0.50", 70)], &apple_system());
    assert!(!r.contains("{{"));
    assert!(r.contains("uuid=\"U{\", index=\"0\", level=\"serious\"} 2\n"));
}

#[test]
fn apple_render_keeps_text_without_placeholders() {
    let g = AppleSiliconMockGenerator::new(None, "mac".to_string());
    let t = "metric{label=\"x\"} 1\n{{UNKNOWN}} stays\n";
    let r = g.render_apple_response(t, &vec![apple_gpu("1.00", 20)], &apple_system());
    assert_eq!(r, t);
}
