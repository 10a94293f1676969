use all_smi::tenstorrent::arc_protocol::{ArcMsg, ArcProtocol, ArcRegisters, ArcResponse, TypedArcMsg};
use all_smi::tenstorrent::arch::{arch_from_device_id, Arch};
use all_smi::tenstorrent::chip::Telemetry;
use all_smi::tenstorrent::detect::{
    board_code_arch, detect_chips_silent, device_numbers_from_names, driver_arch, sysfs_device_arch,
    Chip, ChipDetectOptions,
    UninitChip,
};
use all_smi::tenstorrent::device::{
    csm_field_offsets, telemetry_from_csm_words,
    csm_telemetry_offset, heartbeat_advanced, misc_cntl_name, pci_config_path, scratch_base_name,
    InitStatus,
};
use all_smi::tenstorrent::kmdif::{
    build_dma_request, DeviceInfo, DmaConfig, DmaPack, DmaRequestError, MappingId, PhysicalDevice,
};
use all_smi::tenstorrent::luwen_ref::{
    axi_translate, merge_partial_write, noc_broadcast_tlb, noc_multicast_tlb, telemetry_from_words,
    telemetry_read_base, telemetry_retry_step, telemetry_struct_offset, telemetry_word_addresses,
    LuwenChip, TelemetryRetry,
};
use all_smi::tenstorrent::pci::{PciAccessError, RegisterLayout, RegisterRegion, needs_scratch_check, scratch_verdict, unaligned_read32, unaligned_write32};
use all_smi::tenstorrent::tlb::{
    bar_plan, decode_bus_dev_fn, BarPlanError, MapWindow, PciBarMapping, Tlb, TlbOrdering,
};

#[test]
fn test_arc_msg_register_roundtrip() {
    let mut m = ArcMsg::new(TypedArcMsg::GetSmbusTelemetryAddr);
    m.arg0 = 0x1234_5678;
    m.arg1 = 7;
    let (r0, r1, r2) = m.to_registers();
    assert_eq!(r0, 0x002C_AA55);
    let back = ArcMsg::from_registers(r0, r1, r2);
    assert_eq!(back, m);
    let b = m.to_bytes();
    assert_eq!(b, [0x55, 0xAA, 0x2C, 0, 0x78, 0x56, 0x34, 0x12, 7, 0, 0, 0]);
    assert_eq!(TypedArcMsg::Nop.code(), 0x11);
    assert_eq!(ArcProtocol::doorbell_value(), 0x20);
    assert_eq!(ArcProtocol::check_response(0x0000_55aa), ArcResponse::Done);
    assert_eq!(ArcProtocol::check_response(0x0300_55aa), ArcResponse::Failed(3));
    assert_eq!(ArcProtocol::check_response(0x0000_aa55), ArcResponse::Pending);
    assert_eq!(ArcRegisters::translate("ARC_CSM.DATA[0]").unwrap(), 0x1FEF0000);
    assert!(ArcRegisters::translate("nope").is_err());
}

#[test]
fn test_telemetry_from_words_and_accessors() {
    let mut w = [0u32; 39];
    for (i, x) in w.iter_mut().enumerate() {
        *x = i as u32 + 100;
    }
    w[4] = 0x0000_0014;
    w[5] = 0x0000_0001;
    w[6] = 0x0001_0203;
    w[24] = 0x0001_03E8;
    let t = telemetry_from_words(Arch::Wormhole, &w);
    assert_eq!(t.enum_version, 100);
    assert_eq!(t.board_id, 0x14_0000_0001);
    assert_eq!(t.board_serial_number(), 0x14_0000_0001);
    assert_eq!(t.timer_heartbeat, 119);
    assert_eq!(t.asic_tmon1, 138);
    assert_eq!(t.arc_fw_version(), "1.2.3");
    assert_eq!(t.ai_clk(), 1000);
    assert_eq!(t.board_serial_number_hex(), "0000001400000001");
    let addrs = telemetry_word_addresses(0x1000);
    assert_eq!(addrs.len(), 39);
    assert_eq!(addrs[0], 0x1000);
    assert_eq!(addrs[38], 0x1000 + 38 * 4);
}

#[test]
fn test_telemetry_offsets_and_retry() {
    assert_eq!(telemetry_struct_offset(0x1fef8000, 0x1000_0100), 0x1fef8100);
    assert_eq!(telemetry_read_base(10, 20, 0, Some(0x66666666)), 20);
    assert_eq!(telemetry_read_base(10, 20, 0, Some(1)), 10);
    assert_eq!(telemetry_read_base(10, 20, 5, Some(0x66666666)), 10);
    assert_eq!(telemetry_retry_step(0, true), TelemetryRetry::Accept);
    assert_eq!(telemetry_retry_step(3, false), TelemetryRetry::RetryAfterDelay);
    assert_eq!(telemetry_retry_step(10, false), TelemetryRetry::FinalAttempt);
    assert_eq!(csm_telemetry_offset(0x1FEF0000, 0x1000_0010), 0x1FEF0010);
}

#[test]
fn test_luwen_axi_translate() {
    assert_eq!(axi_translate("ARC_RESET.SCRATCH[3]").unwrap().addr, 0x1ff3006c);
    assert_eq!(axi_translate("arc_ss.reset_unit.SCRATCH_RAM[12]").unwrap().addr, 0xffff0090);
    assert_eq!(axi_translate("0x1000").unwrap().addr, 0x1000);
    assert_eq!(axi_translate("4096").unwrap().addr, 4096);
    assert!(axi_translate("0xZZ").is_err());
    assert!(axi_translate("register").is_err());
    assert_eq!(all_smi::tenstorrent::kmdif::axi_translate("123").unwrap().addr, 123);
    assert!(all_smi::tenstorrent::kmdif::axi_translate("0x10").is_err());
}

#[test]
fn test_merge_partial_write() {
    assert_eq!(merge_partial_write(0xAABB_CCDD, &[0x11], 1), 0xAABB_CC11);
    assert_eq!(merge_partial_write(0xAABB_CCDD, &[0x11, 0x22], 2), 0xAABB_2211);
    assert_eq!(merge_partial_write(0xAABB_CCDD, &[1, 2, 3, 4], 4), 0x0403_0201);
    assert_eq!(merge_partial_write(0xAABB_CCDD, &[0xDD, 0xCC, 0xBB], 3), 0xAABB_CCDD);
}

#[test]
fn test_noc_windows() {
    let b = noc_broadcast_tlb(Arch::Wormhole, 10, 12, 0x100);
    assert_eq!((b.x_start, b.y_start, b.x_end, b.y_end), (1, 0, 9, 11));
    assert!(b.mcast);
    let m = noc_multicast_tlb(Arch::Blackhole, 0, 0, 5, 5, 8);
    assert_eq!((m.x_start, m.y_start), (0, 1));
    let t = Tlb::new(3, 4, 0x40);
    assert_eq!((t.x_end, t.y_end, t.local_offset, t.mcast), (3, 4, 0x40, false));
    assert_eq!(Tlb::broadcast(0, 1, 2, 3, 9), Tlb::multicast(0, 1, 2, 3, 9));
    assert_eq!(TlbOrdering::Strict.to_u8(), 2);
}

#[test]
fn test_bar_plan() {
    let maps = [
        PciBarMapping { mapping_id: 1, base_address: 0, mapping_size: 0x2000_0000 },
        PciBarMapping { mapping_id: 2, base_address: 0x1000_0000, mapping_size: 0x4000_0000 },
        PciBarMapping { mapping_id: 5, base_address: 0x8000_0000, mapping_size: 0x100_0000 },
        PciBarMapping { mapping_id: 1, base_address: 0x10, mapping_size: 0x3000_0000 },
    ];
    let p = bar_plan(&maps, 4, Arch::Wormhole).unwrap();
    assert_eq!(p.bar0_uc, maps[3]);
    assert_eq!(p.bar0_wc, Some(MapWindow { offset: 0x1000_0000, len: 486_539_264 }));
    assert_eq!(p.system_reg, Some(maps[2]));
    assert_eq!(p.bar1_uc, None);
    assert_eq!(p.bar0_uc_window(true), (0x10 + 486_539_264, 0x3000_0000 - 486_539_264));
    assert_eq!(p.bar0_uc_window(false), (0x10, 0x3000_0000));
    let p = bar_plan(&maps, 3, Arch::Blackhole).unwrap();
    assert_eq!(p.bar0_uc, maps[0]);
    assert_eq!(p.system_reg, None);
    assert_eq!(p.bar0_uc_window(true).1, 0x2000_0000 - 394_264_576);
    assert_eq!(bar_plan(&maps[1..], 2, Arch::Grayskull), Err(BarPlanError::NoBar0Uc));
}

#[test]
fn test_pci_identity() {
    assert_eq!(decode_bus_dev_fn(0x3A0B), (0x3A, 1, 3));
    let info = DeviceInfo {
        vendor_id: 0x1e52,
        device_id: 0x401e,
        subsystem_vendor_id: 1,
        subsystem_id: 2,
        bus_dev_fn: 0x0108,
        max_dma_buf_size_log2: 0,
        pci_domain: 0,
    };
    let p = PhysicalDevice::from_device_info(&info);
    assert_eq!((p.pci_bus, p.slot, p.pci_function), (1, 1, 0));
    assert_eq!(pci_config_path(0, 0x3a, 0, 1), "/sys/bus/pci/devices/0000:3a:00.1/config");
    assert_eq!(arch_from_device_id(0x401e), Some(Arch::Wormhole));
    assert_eq!(arch_from_device_id(0x1234), None);
    assert_eq!(MappingId::from_u32(2), MappingId::Resource0Wc);
    assert_eq!(MappingId::from_u32(9), MappingId::Unknown(9));
    assert_eq!(MappingId::from_u32(9).as_u32(), 7);
}

#[test]
fn test_dma_request() {
    let cfg = DmaConfig {
        csm_pcie_ctrl_dma_request_offset: 0,
        arc_misc_cntl_addr: 0,
        dma_host_phys_addr_high: 0,
        support_64_bit_dma: false,
        use_msi_for_dma: false,
        read_threshold: 0,
        write_threshold: 0,
    };
    let req = build_dma_request(0x100, 0x2000, 64, true, 0x3000, &cfg).unwrap();
    assert_eq!(req.host_phys_addr_lo, 0x2000);
    assert_eq!(req.dma_pack.size_bytes(), 64);
    assert!(req.dma_pack.write());
    assert!(req.dma_pack.trigger());
    assert_eq!(req.repeat, 1);
    assert_eq!(req.to_words()[3], 64 | (1 << 28) | (1 << 30) | (1 << 31));
    assert_eq!(
        build_dma_request(0, 0x1_0000_0000, 64, false, 0, &cfg).unwrap_err(),
        DmaRequestError::No64bitDma
    );
    assert_eq!(
        build_dma_request(0, 0, 0x1000_0000, false, 0, &cfg).unwrap_err(),
        DmaRequestError::DmaTooLarge { size: 0x1000_0000 }
    );
    let p = DmaPack::new().with_size_bytes(5).with_trigger(true);
    assert_eq!(p.into_bits(), 5 | (1 << 31));
}

#[test]
fn test_init_status_and_heartbeat() {
    let mut s = InitStatus::new();
    assert!(!s.has_error());
    let mut t = Telemetry::default();
    t.ddr_status = 1;
    s.record_telemetry(Arch::Grayskull, &t);
    assert!(s.dram_ready && s.eth_ready && !s.pcie_ready && s.init_complete);
    let mut s2 = InitStatus::new();
    s2.record_telemetry(Arch::Wormhole, &t);
    assert!(!s2.eth_ready);
    s2.error_message = Some("x".to_string());
    assert!(s2.has_error());
    assert!(heartbeat_advanced(5, 6));
    assert!(heartbeat_advanced(u32::MAX, 0));
    assert!(!heartbeat_advanced(7, 7));
    assert_eq!(scratch_base_name(Arch::Blackhole), "arc_ss.reset_unit.SCRATCH_0");
    assert_eq!(misc_cntl_name(Arch::Wormhole), "ARC_RESET.ARC_MISC_CNTL");
}

#[test]
fn test_detection() {
    let opts = ChipDetectOptions::default();
    let scanned = [(0usize, Some(Arch::Wormhole)), (1, None), (2, Some(Arch::Blackhole))];
    let chips = detect_chips_silent(&opts, &scanned).unwrap();
    assert_eq!(chips.len(), 2);
    assert_eq!(chips[1], UninitChip::Initialized(Chip { device_id: 2, arch: Arch::Blackhole }));
    let strict = ChipDetectOptions { continue_on_failure: false, ..ChipDetectOptions::default() };
    let err = detect_chips_silent(&strict, &scanned).unwrap_err();
    assert_eq!(err.message(), "Failed to determine architecture for device 1");
    let only_bh = ChipDetectOptions { chip_filter: vec![Arch::Blackhole], ..ChipDetectOptions::default() };
    assert_eq!(detect_chips_silent(&only_bh, &scanned).unwrap().len(), 1);
    assert_eq!(board_code_arch(0x36), Some(Arch::Blackhole));
    assert_eq!(board_code_arch(0x99), None);
    let chip = Chip { device_id: 3, arch: Arch::Grayskull };
    let f = chip.get_telemetry(None).unwrap();
    assert_eq!((f.board_id_high, f.aiclk, f.asic_temperature, f.ddr_speed), (7, 1000, 720, Some(1600)));
    let mut real = Telemetry::default();
    real.board_id_high = 0x0014 << 4;
    let t = chip.get_telemetry(Some(real)).unwrap();
    assert_eq!(t.arch, Arch::Wormhole);
    let c: Result<Chip, ()> = UninitChip::Initialized(chip).init();
    assert_eq!(c.unwrap(), chip);
    let l = LuwenChip::new(Arch::Blackhole).unwrap();
    assert_eq!(l.init_scratch_register(), "arc_ss.reset_unit.SCRATCH_0");
    assert!(l.init_checks_ddr());
    assert!(!l.telemetry_via_arc_message());
}

#[test]
fn sysfs_device_ids() {
    assert_eq!(sysfs_device_arch("0x401e\n"), Some(Some(Arch::Wormhole)));
    assert_eq!(sysfs_device_arch("faca"), Some(Some(Arch::Grayskull)));
    assert_eq!(sysfs_device_arch("0xb140"), Some(Some(Arch::Blackhole)));
    assert_eq!(sysfs_device_arch("0x1234"), Some(None));
    assert_eq!(sysfs_device_arch("zz"), None);
}

#[test]
fn driver_arch_names() {
    assert_eq!(driver_arch("wormhole\n"), Some(Arch::Wormhole));
    assert_eq!(driver_arch("Blackhole"), Some(Arch::Blackhole));
    assert_eq!(driver_arch("GRAYSKULL"), Some(Arch::Grayskull));
    assert_eq!(driver_arch("quasar"), None);
}

#[test]
fn fw_sysinfo_report_readings() {
    let chip = Chip { device_id: 2, arch: Arch::Wormhole };
    let report = "vcore: 850mV\ntdp: 75W\ntdc: 40A\nasic_temperature: 52.5\naiclk: 1000MHz\nboard_id: 0x0000010000000abc\n";
    let (t, temps) = chip.telemetry_from_fw_sysinfo(report).unwrap();
    assert_eq!(t.vcore, 850);
    assert_eq!(t.tdp, 75);
    assert_eq!(t.tdc, 40);
    assert_eq!(t.aiclk, 1000);
    assert_eq!(t.board_id_high, 0x100);
    assert_eq!(t.board_id_low, 0xabc);
    assert_eq!(t.device_id, 2);
    assert_eq!(t.arch, Arch::Wormhole);
    assert_eq!(t.asic_temperature, 0);
    assert_eq!(temps, vec!["52.5".to_string()]);
}

#[test]
fn fw_sysinfo_without_power_gives_nothing() {
    let chip = Chip { device_id: 0, arch: Arch::Blackhole };
    assert!(chip.telemetry_from_fw_sysinfo("aiclk: 1000MHz\nboard_id: 0x1\n").is_none());
    assert!(chip.telemetry_from_fw_sysinfo("").is_none());
    let (t, _) = chip.telemetry_from_fw_sysinfo("vcore: 700mV\ntdp: x\n").unwrap();
    assert_eq!(t.vcore, 700);
    assert_eq!(t.tdp, 0);
}

#[test]
fn unaligned_reads_take_bytes_from_both_words() {
    assert_eq!(unaligned_read32(0x4433_2211, 0x8877_6655, 1), 0x5544_3322);
    assert_eq!(unaligned_read32(0x4433_2211, 0x8877_6655, 2), 0x6655_4433);
    assert_eq!(unaligned_read32(0x4433_2211, 0x8877_6655, 3), 0x7766_5544);
}

#[test]
fn unaligned_write_then_read_back() {
    let (a, b) = unaligned_write32(0x4433_2211, 0x8877_6655, 1, 0xddcc_bbaa);
    assert_eq!((a, b), (0xccbb_aa11, 0x8877_66dd));
    assert_eq!(unaligned_read32(a, b, 1), 0xddcc_bbaa);
    let (a, b) = unaligned_write32(0x4433_2211, 0x8877_6655, 3, 0xddcc_bbaa);
    assert_eq!((a, b), (0xaa33_2211, 0x88dd_ccbb));
    assert_eq!(unaligned_read32(a, b, 3), 0xddcc_bbaa);
}

#[test]
fn register_locations() {
    let layout = RegisterLayout {
        has_system_reg: true,
        system_reg_start_offset: 0x1000,
        system_reg_offset_adjust: 0x800,
        has_bar0_wc: true,
        bar0_wc_size: 0x100,
        bar0_uc_offset: 0x100,
    };
    assert_eq!(layout.register_location(0x1004), (RegisterRegion::SystemRegisters, 0x804));
    assert_eq!(layout.register_location(0x10), (RegisterRegion::Bar0Wc, 0x10));
    assert_eq!(layout.register_location(0x200), (RegisterRegion::Bar0Uc, 0x100));
    let plain = RegisterLayout { has_system_reg: false, has_bar0_wc: false, ..layout };
    assert_eq!(plain.register_location(0x1004), (RegisterRegion::Bar0Uc, 0xf04));
}

#[test]
fn all_ones_reads_are_checked() {
    assert!(needs_scratch_check(true, Some(0xffff_ffff)));
    assert!(needs_scratch_check(true, None));
    assert!(!needs_scratch_check(true, Some(5)));
    assert!(!needs_scratch_check(false, Some(0xffff_ffff)));
    assert_eq!(scratch_verdict(None), Err(PciAccessError::BarUnmapped));
    assert_eq!(scratch_verdict(Some(0xffff_ffff)), Err(PciAccessError::BrokenConnection));
    assert_eq!(scratch_verdict(Some(0)), Ok(()));
}

#[test]
fn csm_telemetry_layout() {
    let offsets = csm_field_offsets(Arch::Wormhole);
    assert_eq!(offsets.len(), 35);
    assert_eq!(offsets[22], 88);
    assert_eq!(offsets[23], 96);
    assert_eq!(offsets[26], 112);
    assert_eq!(offsets[34], 144);
    let bh = csm_field_offsets(Arch::Blackhole);
    assert_eq!(bh.len(), 36);
    assert_eq!(bh[35], 176);
    let words: Vec<u32> = (0..36).map(|i| 1000 + i).collect();
    let t = telemetry_from_csm_words(Arch::Blackhole, &words);
    assert_eq!(t.enum_version, 1000);
    assert_eq!(t.board_id_high, 1004);
    assert_eq!(t.arc0_health, 1019);
    assert_eq!(t.aiclk, 1023);
    assert_eq!(t.vcore, 1026);
    assert_eq!(t.tdc, 1031);
    assert_eq!(t.wh_fw_date, 1034);
    assert_eq!(t.timer_heartbeat, 1035);
    assert_eq!(t.telemetry_heartbeat(), 1035);
    let wh = telemetry_from_csm_words(Arch::Wormhole, &words[..35].to_vec());
    assert_eq!(wh.timer_heartbeat, 0);
    assert_eq!(wh.telemetry_heartbeat(), 1019);
    assert_eq!(wh.arch, Arch::Wormhole);
}

#[test]
fn device_numbers_ascending() {
    let names: Vec<String> = ["3", "0", "x", "10", "+2", "", "1"].iter().map(|s| s.to_string()).collect();
    assert_eq!(device_numbers_from_names(&names), vec![0, 1, 2, 3, 10]);
    assert_eq!(device_numbers_from_names(&Vec::new()), Vec::<usize>::new());
}

#[test]
fn tenstorrent_vendor_id() {
    assert!(all_smi::tenstorrent::detect::is_tenstorrent_vendor("0x1e52\n"));
    assert!(!all_smi::tenstorrent::detect::is_tenstorrent_vendor("0x10de\n"));
}

#[test]
fn firmware_date_form() {
    let mut t = Telemetry::default();
    t.wh_fw_date = 0x3514_0C1E;
    assert_eq!(t.firmware_date(), "2023-05-20");
    t.wh_fw_date = 0x00FF_0000;
    assert_eq!(t.firmware_date(), "2020-00-99");
    t.wh_fw_date = 0xFFFF_FFFF;
    assert_eq!(t.firmware_date(), "2035-15-99");
    t.wh_fw_date = 0x0000_0000;
    assert_eq!(t.firmware_date().len(), 10);
}

#[test]
fn register_translate_unknown_name_message() {
    assert_eq!(ArcRegisters::translate("arc_ss.reset_unit.SCRATCH_2").unwrap(), 0xFFB2A068);
    match ArcRegisters::translate("ARC_RESET.SCRATCH[3]") {
        Err(all_smi::tenstorrent::error::PlatformError::InvalidParameter(m)) => {
            assert_eq!(m, "Unknown register: ARC_RESET.SCRATCH[3]")
        }
        _ => panic!("expected an invalid parameter"),
    }
}

#[test]
fn read_back_telemetry_is_the_chips() {
    let chip = Chip { device_id: 5, arch: Arch::Blackhole };
    let mut real = Telemetry::default();
    real.device_id = 99;
    real.arch = Arch::Grayskull;
    real.tdp = 42;
    let t = chip.get_telemetry(Some(real)).unwrap();
    assert_eq!((t.device_id, t.arch, t.tdp), (5, Arch::Blackhole, 42));
    let mut unknown_board = Telemetry::default();
    unknown_board.board_id_high = 0x99 << 4;
    let u = chip.get_telemetry(Some(unknown_board)).unwrap();
    assert_eq!((u.device_id, u.arch), (5, Arch::Blackhole));
    let mut wormhole_board = Telemetry::default();
    wormhole_board.board_id_high = 0x14 << 4;
    let w = chip.get_telemetry(Some(wormhole_board)).unwrap();
    assert_eq!((w.device_id, w.arch), (5, Arch::Wormhole));
}

#[test]
fn board_serial_hex_form() {
    let mut t = Telemetry::default();
    t.board_id_high = 0x14;
    t.board_id_low = 1;
    let s = t.board_serial_number_hex();
    assert_eq!(s, "0000001400000001");
    assert_eq!(u64::from_str_radix(&s, 16), Ok(t.board_serial_number()));
    t.board_id_high = 0xFFFF_FFFF;
    t.board_id_low = 0xABCD_EF01;
    let m = t.board_serial_number_hex();
    assert_eq!(m, "ffffffffabcdef01");
    assert_eq!(u64::from_str_radix(&m, 16), Ok(0xFFFF_FFFF_ABCD_EF01));
}

#[test]
fn broadcast_window_fields() {
    let b = Tlb::broadcast(1, 2, 9, 11, 0x1000);
    assert_eq!(b, Tlb::multicast(1, 2, 9, 11, 0x1000));
    assert_eq!((b.x_start, b.y_start, b.x_end, b.y_end, b.local_offset), (1, 2, 9, 11, 0x1000));
    assert!(b.mcast && !b.linked);
    assert_eq!((b.noc_sel, b.static_vc, b.ordering), (0, 0, TlbOrdering::Posted));
}

#[test]
fn arc_message_options_default() {
    let o = all_smi::tenstorrent::arc_msg::ArcMsgOptions::default();
    assert_eq!(o.timeout_secs, 1);
    assert!(o.wait_for_done && !o.use_second_mailbox && o.addrs.is_none());
}

#[test]
fn tt_smi_board_id_words() {
    assert_eq!(all_smi::tenstorrent::detect::board_id_words("0x0000001400000001"), Some((0x14, 1)));
    assert_eq!(all_smi::tenstorrent::detect::board_id_words("ffffffffabcdef01"), Some((0xFFFF_FFFF, 0xABCD_EF01)));
    assert_eq!(all_smi::tenstorrent::detect::board_id_words("0x"), None);
    assert_eq!(all_smi::tenstorrent::detect::board_id_words("0x1_0"), None);
}
