use all_smi::cpu_macos::{
    chip_model, gpu_core_count, scan_intel_mac_hardware, sysctl_count, MacCpuError, MacOsCpuReader,
};

const APPLE_REPORT: &str = "Hardware:\n\n    Hardware Overview:\n\n      Model Name: MacBook Pro\n      Chip: Apple M1 Pro\n      Total Number of Cores: 10 (8 performance and 2 efficiency)\n";

const INTEL_REPORT: &str = "Hardware:\n\n    Hardware Overview:\n\n      Processor Name: Quad-Core Intel Core i7\n      Processor Speed: 2.3 GHz\n      Number of Processors: 1\n      Total Number of Cores: 4\n      L2 Cache (per Core): 256 KB\n      L3 Cache: 6 MB\n";

const DISPLAYS_JSON: &str = "{\n  \"SPDisplaysDataType\" : [\n    {\n      \"sppci_cores\" : \"16\",\n      \"sppci_model\" : \"Apple M1 Pro\"\n    }\n  ]\n}\n";

#[test]
fn chip_name_from_report() {
    assert_eq!(chip_model(APPLE_REPORT), "Apple M1 Pro");
    assert_eq!(chip_model("Model Name: iMac\n"), "");
}

#[test]
fn sysctl_counts() {
    assert_eq!(sysctl_count("hw.perflevel0.physicalcpu: 8\n"), Ok(8));
    assert_eq!(sysctl_count(""), Err(MacCpuError::MissingValue));
    assert_eq!(sysctl_count("hw.perflevel1.physicalcpu: many"), Err(MacCpuError::InvalidNumber));
}

#[test]
fn gpu_cores_from_display_report() {
    assert_eq!(gpu_core_count(DISPLAYS_JSON), Ok(16));
    assert_eq!(gpu_core_count("{}"), Err(MacCpuError::NoGpuCores));
    assert_eq!(
        gpu_core_count("\"sppci_cores\" : 7\n\"sppci_cores\" : \"24\"\n"),
        Ok(24)
    );
}

#[test]
fn intel_report_scan() {
    let h = scan_intel_mac_hardware(INTEL_REPORT);
    assert_eq!(h.cpu_model, "Quad-Core Intel Core i7");
    assert_eq!(h.socket_count, 1);
    assert_eq!(h.total_cores, 4);
    assert_eq!(h.total_threads, 8);
    assert_eq!(h.speed_values, vec!["2.3".to_string()]);
    assert_eq!(h.cache_size, 6);
}

#[test]
fn intel_report_defaults() {
    let h = scan_intel_mac_hardware("");
    assert_eq!(h.cpu_model, "");
    assert_eq!(h.socket_count, 1);
    assert_eq!(h.total_cores, 0);
    assert_eq!(h.total_threads, 0);
    assert!(h.speed_values.is_empty());
    assert_eq!(h.cache_size, 0);
}

#[test]
fn reader_kind_from_uname() {
    assert!(MacOsCpuReader::new("arm64\n").is_apple_silicon());
    assert!(!MacOsCpuReader::new("x86_64\n").is_apple_silicon());
}

#[test]
fn apple_facts_are_kept_after_first_read() {
    let mut reader = MacOsCpuReader::new("arm64");
    let first = reader.parse_apple_silicon_hardware_info(APPLE_REPORT, Ok(8), Ok(2), Ok(16));
    assert_eq!(first, Ok(("Apple M1 Pro".to_string(), 8, 2, 16)));
    let again = reader.parse_apple_silicon_hardware_info("", Ok(1), Ok(1), Ok(1));
    assert_eq!(again, Ok(("Apple M1 Pro".to_string(), 8, 2, 16)));
}

#[test]
fn apple_read_fails_on_first_bad_count() {
    let mut reader = MacOsCpuReader::new("arm64");
    let r = reader.parse_apple_silicon_hardware_info(
        APPLE_REPORT,
        Ok(8),
        Err(MacCpuError::InvalidNumber),
        Err(MacCpuError::NoGpuCores),
    );
    assert_eq!(r, Err(MacCpuError::InvalidNumber));
    let r = reader.parse_apple_silicon_hardware_info(APPLE_REPORT, Ok(8), Ok(2), Ok(16));
    assert_eq!(r, Ok(("Apple M1 Pro".to_string(), 8, 2, 16)));
}

#[test]
fn intel_facts_are_kept_after_first_read() {
    let mut reader = MacOsCpuReader::new("x86_64");
    let first = reader.parse_intel_mac_hardware_info(INTEL_REPORT);
    assert_eq!(first.total_cores, 4);
    let again = reader.parse_intel_mac_hardware_info("Total Number of Cores: 12\n");
    assert_eq!(again.total_cores, 4);
    assert_eq!(again.cpu_model, "Quad-Core Intel Core i7");
}

#[test]
fn assumed_frequencies() {
    let apple = MacOsCpuReader::new("arm64");
    assert_eq!(apple.get_cpu_base_frequency(), 3000);
    assert_eq!(apple.get_cpu_max_frequency(), 3500);
    assert_eq!(apple.get_cpu_temperature(), None);
    let intel = MacOsCpuReader::new("x86_64");
    assert_eq!(intel.get_cpu_base_frequency(), 2400);
    assert_eq!(intel.get_cpu_max_frequency(), 3000);
}
