use all_smi::platform::{
    device_tree_is_jetson, listing_has_furiosa_devices, listing_has_nvidia_gpu,
    machine_is_arm64, snapshot_has_tenstorrent_devices,
};

#[test]
fn nvidia_listing() {
    assert!(listing_has_nvidia_gpu("GPU 0: NVIDIA GeForce RTX 4090 (UUID: GPU-1)\n"));
    assert!(!listing_has_nvidia_gpu("No devices were found\n"));
}

#[test]
fn jetson_device_tree() {
    assert!(device_tree_is_jetson("nvidia,p3737-0000+p3701-0000\0nvidia,tegra234\0"));
    assert!(!device_tree_is_jetson("raspberrypi,4-model-b\0brcm,bcm2711\0"));
}

#[test]
fn furiosa_listing() {
    assert!(!listing_has_furiosa_devices("+------+--------+\n"));
    assert!(listing_has_furiosa_devices("| NPU | Name |\n| npu0 | warboy |\n"));
    assert!(!listing_has_furiosa_devices(""));
}

#[test]
fn tenstorrent_snapshot() {
    assert!(snapshot_has_tenstorrent_devices("{\"device_info\": []}"));
    assert!(!snapshot_has_tenstorrent_devices("{}"));
}

#[test]
fn arm64_machine() {
    assert!(machine_is_arm64("arm64\n"));
    assert!(!machine_is_arm64("aarch64\n"));
    assert!(!machine_is_arm64("arm64e"));
}
