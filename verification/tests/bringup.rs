use asahi::buffer::FwVersion;
use asahi::hw::{GpuGen, GpuIdConfig, GpuRevision, GpuVariant, F32};
use asahi::initdata::{
    build, globals, hw_data_a_extra, hw_shared1, hw_shared2, hwdata_a, hwdata_b, make_channel,
    runtime_pointers, stats_frag, t8103_data, uat_level_info, ChannelRing, GlobalPowerZone,
    GlobalsScalars, HwDataAScalars, HwDataBScalars, HwPowerZone, InitConfig, InitParts, PerfState,
    PipeChannels, PowerFloats, PowerZone, PwrConfig, RingAllocator, RuntimeBuffers, SystemChannels,
};
use asahi::mmu::{IOVA_USER_TOP, UAT_PGMSK};

fn bits(x: f32) -> F32 {
    F32(x.to_bits())
}

fn config() -> InitConfig {
    InitConfig {
        chip_id: 0x8103,
        gpu_core: 11,
        base_clock_hz: 24_000_000,
        uat_oas: 40,
        fast_die0_sensor_mask: 0x1212_1212_1212_1212,
        fast_die0_sensor_mask_alt: 0x1313_1313_1313_1313,
        fast_die0_sensor_present: 0xff,
        unk_87c: -220,
        unk_8cc: 9880,
        unk_e24: 112,
        unk_4e0: 4,
        unk_534: 7,
        unk_564: 5,
        unk_ab8: 0x48,
        unk_abc: 8,
        sram_k: bits(1.02),
        unk_coef_a: vec![bits(1.5)],
        unk_coef_b: Vec::new(),
        shared1_tab: vec![-1, 2, -3],
        shared2_tab: vec![-1, -1, 4],
        shared2_unk_508: 0xcc_0000,
        global_tab: None,
    }
}

fn power() -> PwrConfig {
    PwrConfig {
        power_sample_period: 8,
        ppm_filter_time_constant_ms: 100,
        avg_power_target_filter_tc: 125,
        avg_power_filter_tc_ms: 300,
        perf_base_pstate: 3,
        perf_max_pstate: 6,
        max_power_mw: 16575,
        pwr_min_duty_cycle: 40,
        perf_tgt_utilization: 85,
        perf_boost_min_util: 90,
        perf_boost_ce_step: 25,
        perf_reset_iters: 6,
        perf_filter_drop_threshold: 0,
        max_freq_mhz: 1278,
        fast_die0_release_temp: 80,
        fast_die0_prop_tgt_delta: 2,
        avg_power_min_duty_cycle: 40,
        min_sram_microvolt: 790_000,
        idle_off_delay_ms: 2,
        fender_idle_off_delay_ms: 40,
        fw_early_wake_timeout_ms: 5,
        pwr_integral_gain: bits(0.02),
        pwr_proportional_gain: bits(5.3),
        ppm_kp: bits(0.9),
        perf_integral_gain: bits(1.6),
        perf_integral_gain2: bits(0.5),
        perf_proportional_gain: bits(10.4),
        perf_proportional_gain2: bits(2.0),
        fast_die0_proportional_gain: bits(5.0),
        avg_power_kp: bits(4.0),
        power_zones: vec![
            PowerZone { target: 1500, target_offset: 250, filter_tc: 10 },
            PowerZone { target: 900, target_offset: 900, filter_tc: 0 },
        ],
        core_leak_coef: vec![bits(1000.0)],
        sram_leak_coef: vec![bits(45.0), bits(46.0)],
        perf_states: vec![
            PerfState { freq_mhz: 0, volt_mv: vec![400], pwr_mw: 0 },
            PerfState { freq_mhz: 396, volt_mv: vec![603, 850], pwr_mw: 3645 },
            PerfState { freq_mhz: 1278, volt_mv: vec![928], pwr_mw: 16575 },
        ],
    }
}

fn id() -> GpuIdConfig {
    GpuIdConfig {
        gpu_gen: GpuGen::G13,
        gpu_variant: GpuVariant::G,
        gpu_rev: GpuRevision::B1,
        max_dies: 1,
        num_clusters: 2,
        num_cores: 8,
        num_active_cores: 15,
        num_frags: 3,
        num_gps: 4,
        core_masks: vec![0xff, 0x7f],
        core_masks_packed: vec![0x7fff],
    }
}

fn floats() -> PowerFloats {
    let n = |i: u32| F32(i);
    PowerFloats {
        pwr_filter_a_neg: n(1),
        pwr_filter_a: n(2),
        pwr_integral_min_clamp: n(3),
        max_power: n(4),
        pwr_pstate_related_k: n(5),
        ppm_filter_a_neg: n(6),
        ppm_filter_a: n(7),
        ppm_ki_dt: n(8),
        perf_filter_a_neg: n(9),
        perf_filter_a2_neg: n(10),
        perf_filter_a: n(11),
        perf_filter_a2: n(12),
        perf_integral_min_clamp: n(13),
        boost_state_unk_k: n(14),
        pwr_min_duty_cycle: n(15),
        max_pstate_scaled: n(16),
        fast_die0_ki_dt: n(17),
        avg_power_target_filter_a_neg: n(18),
        avg_power_target_filter_a: n(19),
        avg_power_filter_a_neg: n(20),
        avg_power_filter_a: n(21),
        avg_power_ki_dt: n(22),
    }
}

#[test]
fn constants_are_the_bits_of_their_numbers() {
    let t = t8103_data();
    assert_eq!(t.unk_d8c, 0x8000_0000);
    assert_eq!(t.unk_d90, 4);
    assert_eq!(t.unk_d9c, bits(0.6));
    assert_eq!(t.unk_da4, bits(0.4));
    assert_eq!(t.unk_dac, bits(0.38552));
    assert_eq!(t.unk_db8, bits(65536.0));
    assert_eq!(t.unk_dbc, bits(13.56));
    assert_eq!(t.unk_dcc, 600);
    let e = hw_data_a_extra();
    assert_eq!(e.unk_60, bits(0.88888888));
    assert_eq!(e.unk_64, bits(0.66666666));
    assert_eq!(e.unk_68, bits(0.111111111));
    assert_eq!(e.unk_6c, bits(0.33333333));
    assert_eq!(e.unk_70, bits(-0.4));
    assert_eq!(e.unk_74, bits(-0.8));
    assert_eq!(e.unk_7c, bits(65536.0));
    assert_eq!(e.unk_80, bits(-5.0));
    assert_eq!(e.unk_84, bits(-10.0));
    assert_eq!(e.unk_9c, bits(8000.0));
    assert_eq!(e.unk_c4, bits(65536.0));
    assert_eq!(e.unk_114, bits(65536.0));
    assert_eq!((e.unk_38, e.unk_3c, e.unk_40, e.unk_48), (4, 8000, 2500, 0xffff_ffff));
    assert_eq!((e.unk_a0, e.unk_a8, e.unk_ac), (1400, 72, 24));
    assert_eq!((e.unk_b0, e.unk_b8), (1728000, 576000));
    let a = HwDataAScalars::new(FwVersion::V13_0B4, &config(), &power(), 1, &floats());
    assert_eq!(a.unk_10, bits(1.0));
    assert_eq!(a.unk_79c, bits(95.0));
    assert_eq!(a.unk_7fc, bits(65536.0));
    assert_eq!(a.min_pstate_scaled_4, bits(100.0));
    assert_eq!(a.unk_alpha_neg, bits(0.8));
    assert_eq!(a.unk_alpha, bits(0.2));
    assert_eq!(a.unk_894, bits(1.0));
    assert_eq!(a.unk_8a8, bits(65536.0));
    assert_eq!(a.unk_d20, bits(65536.0));
    assert_eq!(a.unk_6fc, bits(65536.0));
}

#[test]
fn first_part_of_the_hardware_description() {
    let a = HwDataAScalars::new(FwVersion::V12_3, &config(), &power(), 2, &floats());
    assert_eq!(a.clocks_per_period, 192_000);
    assert_eq!(a.clocks_per_period_2, None);
    assert_eq!(a.pwr_status, 4);
    assert_eq!(a.base_pstate_scaled, 300);
    assert_eq!(a.max_pstate_scaled, 600);
    assert_eq!(a.pwr_pstate_max_dc_offset, -560);
    assert_eq!(a.ppm_filter_tc_periods_x4, 48);
    assert_eq!(a.avg_power_filter_tc_periods_x4, 148);
    assert_eq!(a.avg_power_target_filter_tc_x4, 500);
    assert_eq!(a.avg_power_target_filter_tc_xperiod, 1000);
    assert_eq!(a.fast_die0_release_temp_cc, 8000);
    assert_eq!(a.fast_die0_prop_tgt_delta, 200);
    assert_eq!(a.fast_die0_sensor_mask, 0x1212);
    assert_eq!(a.fast_die0_sensor_mask_2, 0x1212);
    assert_eq!(a.fast_die0_sensor_mask_alt, 0x1313);
    assert_eq!(a.fast_die0_sensor_present, 3);
    assert_eq!(a.power_zone_count, 2);
    assert_eq!(a.max_power_1, F32(4));
    assert_eq!(a.max_power_4, 16575);
    assert_eq!(a.max_power_7, F32(4));
    assert_eq!(a.unk_87c, -220);
    assert_eq!(a.unk_6fc, bits(0.0));
    assert_eq!(a.unk_730_0, None);
    assert_eq!(a.base_clock_mhz, None);
    assert_eq!(a.unk_e10_0, None);
    assert_eq!(a.unk_1638_4, Some(1));
    assert_eq!(a.t8103_data, Some(t8103_data()));
}

#[test]
fn newer_firmware_is_told_more() {
    let a = HwDataAScalars::new(FwVersion::V13_0B4, &config(), &power(), 8, &floats());
    assert_eq!(a.clocks_per_period_2, Some(192_000));
    assert_eq!(a.unk_730_0, Some(0x232800));
    assert_eq!(a.base_clock_mhz, Some(24));
    assert_eq!(a.base_clock_mhz_2, Some(24));
    assert_eq!(a.unk_e10_0, Some(hw_data_a_extra()));
    assert_eq!(a.unk_1638_4, None);
    assert_eq!(a.fast_die0_sensor_mask, 0x1212_1212_1212_1212);
    assert_eq!(a.fast_die0_sensor_present, 0xff);
}

#[test]
fn another_chip_has_no_special_data() {
    let mut cfg = config();
    cfg.chip_id = 0x6000;
    let a = HwDataAScalars::new(FwVersion::V12_3, &cfg, &power(), 1, &floats());
    assert_eq!(a.t8103_data, None);
    assert_eq!(a.unk_6fc, bits(65536.0));
    assert_eq!(a.fast_die0_sensor_mask, 0x12);
    assert_eq!(a.fast_die0_sensor_present, 1);
}

#[test]
fn tables_of_the_first_part() {
    let a = hwdata_a(FwVersion::V12_3, &config(), &power(), 2, &floats());
    assert_eq!(a.sram_k, vec![bits(1.02); 3]);
    assert_eq!(a.core_leak_coef, vec![bits(1000.0)]);
    assert_eq!(a.sram_leak_coef, vec![bits(45.0), bits(46.0)]);
    assert_eq!(a.unk_coef_a, vec![bits(1.5), bits(0.0)]);
    assert_eq!(a.unk_coef_b, vec![bits(0.0), bits(0.0)]);
    assert_eq!(
        a.power_zones,
        vec![
            HwPowerZone {
                target: 1500,
                target_off: 1250,
                filter_tc_x4: 40,
                filter_tc_xperiod: 80,
                unk_10: None,
            },
            HwPowerZone {
                target: 900,
                target_off: 0,
                filter_tc_x4: 0,
                filter_tc_xperiod: 0,
                unk_10: None,
            },
        ]
    );
    let a = hwdata_a(FwVersion::V13_0B4, &config(), &power(), 2, &floats());
    assert_eq!(a.power_zones[0].unk_10, Some(1_320_000_000));
    assert_eq!(a.hws1.table, vec![-1, 2, -3]);
    assert_eq!(a.hws2.table, vec![-1, -1, 4]);
}

#[test]
fn shared_tables() {
    let s1 = hw_shared1(&config());
    assert_eq!((s1.unk_40, s1.unk_a4), (0xffff, 0xffff));
    assert_eq!(s1.table, vec![-1, 2, -3]);
    let s2 = hw_shared2(&config());
    assert_eq!((s2.unk_28, s2.unk_508), (0xff, 0xcc_0000));
    assert_eq!(s2.table, vec![-1, -1, 4]);
}

#[test]
fn second_part_of_the_hardware_description() {
    let b = HwDataBScalars::new(FwVersion::V12_3, &config(), &power(), &id(), 0x1234_0000);
    assert_eq!(b.unk_0, Some(0x13_0000_0000));
    assert_eq!(b.unk_30, 0x6f_ffff_8000);
    assert_eq!(b.unkptr_38, 0xffff_ffa0_1180_0000);
    assert_eq!(b.chip_id, 0x8103);
    assert_eq!(b.base_clock_khz, 24_000);
    assert_eq!(b.power_sample_period, 8);
    assert_eq!(b.num_frags, 6);
    assert_eq!(b.num_cores, 16);
    assert_eq!(b.uat_ttb_base, 0x1234_0000);
    assert_eq!(b.gpu_core_id, 11);
    assert_eq!(b.max_pstate, 2);
    assert_eq!(b.num_pstates, Some(3));
    assert_eq!(b.min_sram_volt, Some(790));
    assert_eq!(b.unk_ab8, Some(0x48));
    assert_eq!((b.unk_ae4_1, b.unk_ae4_2, b.unk_ae4_3), (0xf, 0x3f, 0x3f));
    assert_eq!(b.unk_c3c, None);
    let b = HwDataBScalars::new(FwVersion::V13_0B4, &config(), &power(), &id(), 0);
    assert_eq!((b.unk_0, b.unk_10, b.num_pstates, b.min_sram_volt), (None, None, None, None));
    assert_eq!((b.unk_ae4_1, b.unk_ae4_2, b.unk_ae4_3), (3, 7, 7));
    assert_eq!((b.unk_b38_0, b.unk_b38_4, b.unk_c3c), (Some(1), Some(1), Some(0x19)));
}

#[test]
fn memory_gets_enough_voltage() {
    let b = hwdata_b(FwVersion::V12_3, &config(), &power(), &id(), 0);
    assert_eq!(b.pstates.len(), 3);
    assert_eq!(b.pstates[0].voltages, vec![400]);
    assert_eq!(b.pstates[0].voltages_sram, vec![790]);
    assert_eq!(b.pstates[1].voltages, vec![603, 850]);
    assert_eq!(b.pstates[1].voltages_sram, vec![790, 850]);
    assert_eq!(b.pstates[2].voltages_sram, vec![928]);
    assert_eq!(b.pstates[1].frequency, 396);
    assert_eq!(b.pstates[1].rel_max_power, 21);
    assert_eq!(b.pstates[1].rel_boost_power, 21);
    assert_eq!(b.pstates[2].rel_max_power, 100);
    assert_eq!(b.pstates[0].sram_k, bits(1.02));
}

#[test]
fn global_state() {
    let g = GlobalsScalars::new(FwVersion::V12_3, &config(), &power(), &floats(), 0xb);
    assert_eq!((g.unk_28, g.unk_2c, g.unk_34), (1, 1, 120));
    assert_eq!((g.sub_unk_54, g.sub_unk_56, g.sub_unk_58), (0xffff, 40, 0xffff));
    assert_eq!(g.max_power, 16575);
    assert_eq!(g.max_pstate_scaled, 600);
    assert_eq!(g.avg_power_filter_tc_periods, 37);
    assert_eq!(g.avg_power_ki_dt, F32(22));
    assert_eq!(g.fast_die0_ki_dt, F32(17));
    assert_eq!(g.ppm_ki_dt, F32(8));
    assert_eq!(g.fast_die0_release_temp, 8000);
    assert_eq!(g.unk_89bc, 9880);
    assert_eq!(g.unk_89c4, -220);
    assert_eq!(g.fault_control, 0xb);
    assert_eq!((g.unk_11020, g.unk_11024, g.unk_11028), (40, 10, 250));
    assert_eq!(g.idle_off_delay_ms, 2);
    assert_eq!((g.unk_903c, g.unk_118e8), (0, 0));
    assert_eq!((g.unk_1102c_8, g.unk_118e4_0, g.unk_11edc), (None, None, None));
    let mut cfg = config();
    cfg.global_tab = Some(vec![1, 2, 3]);
    let g = globals(FwVersion::V13_0B4, &cfg, &power(), &floats(), 0);
    assert_eq!((g.scalars.unk_903c, g.scalars.unk_118e8), (1, 1));
    assert_eq!(g.scalars.unk_1102c_8, Some(100));
    assert_eq!((g.scalars.unk_118e4_0, g.scalars.unk_11efc), (Some(50), Some(8)));
    assert_eq!(g.unk_118ec, vec![1, 2, 3]);
    assert_eq!(
        g.power_zones,
        vec![
            GlobalPowerZone { target: 1500, target_off: 1250, filter_tc: 10 },
            GlobalPowerZone { target: 900, target_off: 0, filter_tc: 0 },
        ]
    );
}

#[test]
fn rings_that_the_driver_reads_are_shared() {
    assert_eq!(make_channel(true), RingAllocator::Shared);
    assert_eq!(make_channel(false), RingAllocator::Private);
}

#[test]
fn pointers_and_channels() {
    let b = RuntimeBuffers {
        stats_vtx: 1,
        stats_frag: 2,
        stats_comp: 3,
        hwdata_a: 4,
        unkptr_190: 5,
        unkptr_198: 6,
        hwdata_b: 7,
        fwlog_ring2: 8,
        unkptr_1b8: 9,
        unkptr_1c0: 10,
        unkptr_1c8: 11,
        buffer_mgr_ctl: 12,
    };
    let mut p = runtime_pointers(&b);
    assert!(p.pipes.is_empty() && p.channels.is_none());
    assert_eq!((p.stats_vtx, p.stats_frag, p.stats_comp, p.hwdata_a), (1, 2, 3, 4));
    assert_eq!((p.unkptr_190, p.unkptr_198), (5, 6));
    assert_eq!((p.hwdata_b, p.hwdata_b_2), (7, 7));
    assert_eq!((p.fwlog_ring2, p.unkptr_1b8, p.unkptr_1c0, p.unkptr_1c8), (8, 9, 10, 11));
    assert_eq!((p.buffer_mgr_ctl, p.buffer_mgr_ctl_2), (12, 12));
    assert_eq!(p.scratch_unk_6b38, 0xff);
    let ring = |n: u64| ChannelRing { state: n, ring: n + 1 };
    let system = SystemChannels {
        device_control: ring(100),
        event: ring(110),
        fw_log: ring(120),
        ktrace: ring(130),
        stats: ring(140),
    };
    p.set_channels(
        system,
        &vec![ring(10), ring(20)],
        &vec![ring(30), ring(40)],
        &vec![ring(50), ring(60)],
    );
    assert_eq!(p.channels, Some(system));
    assert_eq!(
        p.pipes,
        vec![
            PipeChannels { vtx: ring(10), frag: ring(30), comp: ring(50) },
            PipeChannels { vtx: ring(20), frag: ring(40), comp: ring(60) },
        ]
    );
    assert_eq!(p.hwdata_a, 4);
    let s = stats_frag();
    assert_eq!((s.cur_stamp_id, s.unk_118), (-1, -1));
}

#[test]
fn levels_partition_the_address() {
    let parts = InitParts { unk_buf: 1, runtime_pointers: 2, globals: 3, fw_status: 4 };
    let d = build(FwVersion::V12_3, 40, parts);
    assert!(d.ver_info.is_empty());
    assert_eq!(d.parts, parts);
    assert_eq!((d.uat_page_size, d.uat_page_bits, d.uat_num_levels), (0x4000, 14, 3));
    assert_eq!(d.host_mapped_fw_allocations, 1);
    let masks: Vec<u64> = d.uat_level_info.iter().map(|l| l.index_mask).collect();
    assert_eq!(masks, vec![0x70_0000_0000, 0xf_fe00_0000, 0x1ff_c000]);
    assert_eq!(masks[0] + masks[1] + masks[2] + UAT_PGMSK, IOVA_USER_TOP);
    let d = build(FwVersion::V13_0B4, 40, parts);
    assert_eq!(d.ver_info, vec![1, 1, 16, 1]);
    let l = uat_level_info(40, 25, 2048);
    assert_eq!(l, d.uat_level_info[1]);
    assert_eq!((l.unk_1, l.unk_2, l.unk_3, l.unk_4, l.unk_8), (14, 14, 8, 0x4000, 1));
    assert_eq!((l.index_shift, l.num_entries), (25, 2048));
    assert_eq!(l.unk_10, 0xff_ffff_c000);
}
