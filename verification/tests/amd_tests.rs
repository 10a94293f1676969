use all_smi::amd::{
    amd_frequency, amd_gpu_detail, amd_temperature, amd_total_memory, amd_uuid, AmdGpuSample,
    AmdPcieLink, AmdPowerCap,
};
use all_smi::remote::remote_instance_name;

fn sample() -> AmdGpuSample {
    AmdGpuSample {
        marketing_name: "AMD Radeon RX 7900 XTX".to_string(),
        pci_bus: "0000:03:00.0".to_string(),
        rocm_version: Some("6.1.0".to_string()),
        device_id: 0x744c,
        revision_id: 0xc8,
        asic_name: "GFX1100".to_string(),
        vbios: Some(("113-D70201-100".to_string(), "2023/01/01".to_string())),
        power_cap: Some(AmdPowerCap { current: 327, min: 0, max: 402 }),
        max_gpu_link: Some(AmdPcieLink { gen: 4, width: 16 }),
        max_system_link: None,
        min_dpm_link: Some(AmdPcieLink { gen: 1, width: 1 }),
        max_dpm_link: None,
        current_link: Some(AmdPcieLink { gen: 4, width: 16 }),
        fan_rpm: Some(1200),
        mclk: None,
        metrics_temperature: Some(0),
        metrics_gfxclk: None,
        sensor_edge_temperature: Some(45),
        sensor_sclk: Some(2500),
        vram_total_heap: 0,
        vram_usable_heap: 25_753_026_560,
    }
}

#[test]
fn amd_detail_map_values() {
    let m = amd_gpu_detail(&sample());
    assert_eq!(m.get("Device Name").unwrap(), "AMD Radeon RX 7900 XTX");
    assert_eq!(m.get("Device ID").unwrap(), "0x744c");
    assert_eq!(m.get("Revision ID").unwrap(), "0xc8");
    assert_eq!(m.get("ROCm Version").unwrap(), "6.1.0");
    assert_eq!(m.get("VBIOS Date").unwrap(), "2023/01/01");
    assert_eq!(m.get("Power Cap").unwrap(), "327 W");
    assert_eq!(m.get("Power Cap (Max)").unwrap(), "402 W");
    assert_eq!(m.get("Max GPU Link").unwrap(), "Gen4 x16");
    assert_eq!(m.get("Min DPM Link").unwrap(), "Gen1 x1");
    assert_eq!(m.get("Current Link").unwrap(), "Gen4 x16");
    assert_eq!(m.get("Fan Speed").unwrap(), "1200 RPM");
    assert!(m.get("Max System Link").is_none());
    assert!(m.get("Memory Clock").is_none());
}

#[test]
fn amd_short_ids_are_padded() {
    let mut s = sample();
    s.device_id = 0x7;
    s.revision_id = 0x1;
    s.rocm_version = None;
    let m = amd_gpu_detail(&s);
    assert_eq!(m.get("Device ID").unwrap(), "0x0007");
    assert_eq!(m.get("Revision ID").unwrap(), "0x01");
    assert!(m.get("ROCm Version").is_none());
}

#[test]
fn amd_readings_fall_back_to_sensors() {
    let s = sample();
    assert_eq!(amd_temperature(&s), 45);
    assert_eq!(amd_frequency(&s), 2500);
    assert_eq!(amd_total_memory(&s), 25_753_026_560);
    let mut t = sample();
    t.metrics_temperature = Some(61);
    t.metrics_gfxclk = Some(0);
    t.sensor_sclk = None;
    t.vram_total_heap = 25_769_803_776;
    assert_eq!(amd_temperature(&t), 61);
    assert_eq!(amd_frequency(&t), 0);
    assert_eq!(amd_total_memory(&t), 25_769_803_776);
    assert_eq!(amd_uuid("0000:03:00.0"), "GPU-0000:03:00.0");
}

#[test]
fn remote_instance_name_order() {
    let g = vec!["gpu-node".to_string()];
    let c = vec!["cpu-node".to_string()];
    let m = vec!["mem-node".to_string()];
    let none: Vec<String> = Vec::new();
    assert_eq!(remote_instance_name(&g, &c, &m).as_deref(), Some("gpu-node"));
    assert_eq!(remote_instance_name(&none, &c, &m).as_deref(), Some("cpu-node"));
    assert_eq!(remote_instance_name(&none, &none, &m).as_deref(), Some("mem-node"));
    assert_eq!(remote_instance_name(&none, &none, &none), None);
}
