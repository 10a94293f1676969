use all_smi::cpuinfo::{
    apply_machine_architecture, arm_model_name, implementer_name, is_arm_architecture, thousandths,
    scan_cpuinfo, CpuPlatformType,
};

const INTEL_CPUINFO: &str = "processor\t: 0\nvendor_id\t: GenuineIntel\nmodel name\t: Intel(R) Xeon(R) Gold 6230 CPU @ 2.10GHz\ncpu MHz\t\t: 2100.000\ncache size\t: 28160 KB\nphysical id\t: 0\n\nprocessor\t: 1\nmodel name\t: Intel(R) Xeon(R) Gold 6230 CPU @ 2.10GHz\ncpu MHz\t\t: 2200.500\ncache size\t: 1024 KB\nphysical id\t: 1\n\nprocessor\t: 2\nphysical id\t: 1\n";

const ARM_CPUINFO: &str = "processor\t: 0\nBogoMIPS\t: 50.00\nCPU implementer\t: 0x41\nCPU part\t: 0xd0c\n\nprocessor\t: 1\nCPU implementer\t: 0x41\nCPU part\t: 0xd0c\n";

#[test]
fn intel_cpuinfo_scan() {
    let scan = scan_cpuinfo(INTEL_CPUINFO);
    assert_eq!(scan.cpu_model, "Intel(R) Xeon(R) Gold 6230 CPU @ 2.10GHz");
    assert_eq!(scan.platform_type, CpuPlatformType::Intel);
    assert_eq!(scan.processor_count, 3);
    assert_eq!(scan.socket_count, 2);
    assert_eq!(scan.mhz_values, vec!["2100.000".to_string(), "2200.500".to_string()]);
    // the first cache size line wins: 28160 KB is 27 MB
    assert_eq!(scan.cache_size_mb, 27);
}

#[test]
fn arm_cpuinfo_scan() {
    let scan = scan_cpuinfo(ARM_CPUINFO);
    assert_eq!(scan.cpu_model, "");
    assert_eq!(scan.platform_type, CpuPlatformType::Other("Unknown".to_string()));
    assert_eq!(scan.processor_count, 2);
    assert_eq!(scan.socket_count, 1);
    assert_eq!(scan.cpu_implementer, "0x41");
    assert_eq!(scan.cpu_part, "0xd0c");
}

#[test]
fn amd_model_names_amd() {
    let scan = scan_cpuinfo("model name\t: AMD EPYC 7742 64-Core Processor\n");
    assert_eq!(scan.platform_type, CpuPlatformType::Amd);
}

#[test]
fn arm_machine_names() {
    assert!(is_arm_architecture("aarch64"));
    assert!(is_arm_architecture("arm64"));
    assert!(is_arm_architecture("armv7l"));
    assert!(!is_arm_architecture("x86_64"));
}

#[test]
fn implementer_codes() {
    assert_eq!(implementer_name("0x41"), "ARM");
    assert_eq!(implementer_name("0x61"), "Apple");
    assert_eq!(implementer_name("0x4e"), "NVIDIA");
    assert_eq!(implementer_name("0x99"), "Unknown");
}

#[test]
fn arm_model_names() {
    assert_eq!(arm_model_name("0x41", "0xd0c"), "ARM ARM Processor (Part: 0xd0c)");
    assert_eq!(arm_model_name("0x51", ""), "Qualcomm ARM Processor");
    assert_eq!(arm_model_name("", ""), "ARM Processor");
}

#[test]
fn khz_files() {
    assert_eq!(thousandths("3500000\n"), Some(3500));
    assert_eq!(thousandths("999"), Some(0));
    assert_eq!(thousandths("n/a"), None);
}

#[test]
fn arm_machine_without_model_gets_arm_platform() {
    let mut scan = scan_cpuinfo(ARM_CPUINFO);
    assert_eq!(scan.cpu_model, "");
    apply_machine_architecture(&mut scan, "aarch64");
    assert_eq!(scan.platform_type, CpuPlatformType::Arm);
    assert_eq!(scan.cpu_model, "ARM ARM Processor (Part: 0xd0c)");
    assert_eq!(scan.processor_count, 2);
    let mut on_x86 = scan_cpuinfo(ARM_CPUINFO);
    let before = on_x86.platform_type.clone();
    apply_machine_architecture(&mut on_x86, "x86_64");
    assert_eq!((on_x86.cpu_model.as_str(), on_x86.platform_type), ("", before));
    let mut intel = scan_cpuinfo(INTEL_CPUINFO);
    apply_machine_architecture(&mut intel, "arm64");
    assert_eq!(intel.platform_type, CpuPlatformType::Intel);
}
