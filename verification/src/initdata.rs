//! The data that the firmware is started with: what it has to know of the hardware and
//! how it is to manage power.
//!
//! In the structures, fields that are zero are left out. A field that only some firmware
//! has is `None` for the others. Floating point numbers are given by their bits; those
//! that have to be computed come in a [`PowerFloats`].
use crate::buffer::FwVersion;
use crate::hw::{GpuIdConfig, F32};
use crate::mmu::UAT_PGMSK;
use vstd::prelude::*;

verus! {

/// The size of each of the buffers that the firmware keeps for itself.
pub const STATS_COMP_SIZE: usize = 0x980;

pub const UNK_190_SIZE: usize = 0x80;

pub const UNK_198_SIZE: usize = 0xc0;

pub const FWLOG_RING2_SIZE: usize = 0x600;

pub const UNK_1B8_SIZE: usize = 0x1000;

pub const UNK_1C0_SIZE: usize = 0x300;

pub const UNK_1C8_SIZE: usize = 0x1000;

pub const BUFFER_MGR_CTL_COUNT: usize = 127;

pub const UNK_BUF_SIZE: usize = 0x4000;

/// A limit on the power over some time.
#[derive(Copy, Clone, Debug, PartialEq, Eq, Structural)]
pub struct PowerZone {
    pub target: u32,
    pub target_offset: u32,
    pub filter_tc: u32,
}

/// A performance state.
#[derive(Debug)]
pub struct PerfState {
    pub freq_mhz: u32,
    /// For each cluster.
    pub volt_mv: Vec<u32>,
    pub pwr_mw: u32,
}

/// How a machine manages power.
#[derive(Debug)]
pub struct PwrConfig {
    /// In milliseconds.
    pub power_sample_period: u32,
    pub ppm_filter_time_constant_ms: u32,
    pub avg_power_target_filter_tc: u32,
    pub avg_power_filter_tc_ms: u32,
    pub perf_base_pstate: u32,
    pub perf_max_pstate: u32,
    pub max_power_mw: u32,
    pub pwr_min_duty_cycle: u32,
    pub perf_tgt_utilization: u32,
    pub perf_boost_min_util: u32,
    pub perf_boost_ce_step: u32,
    pub perf_reset_iters: u32,
    pub perf_filter_drop_threshold: u32,
    pub max_freq_mhz: u32,
    pub fast_die0_release_temp: u32,
    pub fast_die0_prop_tgt_delta: u32,
    pub avg_power_min_duty_cycle: u32,
    pub min_sram_microvolt: u32,
    pub idle_off_delay_ms: u32,
    pub fender_idle_off_delay_ms: u32,
    pub fw_early_wake_timeout_ms: u32,
    pub pwr_integral_gain: F32,
    pub pwr_proportional_gain: F32,
    pub ppm_kp: F32,
    pub perf_integral_gain: F32,
    pub perf_integral_gain2: F32,
    pub perf_proportional_gain: F32,
    pub perf_proportional_gain2: F32,
    pub fast_die0_proportional_gain: F32,
    pub avg_power_kp: F32,
    pub power_zones: Vec<PowerZone>,
    pub core_leak_coef: Vec<F32>,
    pub sram_leak_coef: Vec<F32>,
    pub perf_states: Vec<PerfState>,
}

/// What is fixed for a chip.
#[derive(Debug)]
pub struct InitConfig {
    pub chip_id: u32,
    pub gpu_core: u32,
    pub base_clock_hz: u32,
    /// The physical address width of the GPU.
    pub uat_oas: u32,
    pub fast_die0_sensor_mask: u64,
    pub fast_die0_sensor_mask_alt: u64,
    pub fast_die0_sensor_present: u32,
    pub unk_87c: i32,
    pub unk_8cc: u32,
    pub unk_e24: u32,
    pub unk_4e0: u64,
    pub unk_534: u32,
    pub unk_564: u32,
    pub unk_ab8: u32,
    pub unk_abc: u32,
    pub sram_k: F32,
    /// By cluster; zero beyond the end.
    pub unk_coef_a: Vec<F32>,
    /// By cluster; zero beyond the end.
    pub unk_coef_b: Vec<F32>,
    pub shared1_tab: Vec<i32>,
    pub shared2_tab: Vec<i32>,
    pub shared2_unk_508: u32,
    pub global_tab: Option<Vec<u8>>,
}

/// The floating point numbers that are computed from a power configuration.
#[derive(Copy, Clone, Debug, PartialEq, Eq, Structural)]
pub struct PowerFloats {
    pub pwr_filter_a_neg: F32,
    pub pwr_filter_a: F32,
    pub pwr_integral_min_clamp: F32,
    pub max_power: F32,
    pub pwr_pstate_related_k: F32,
    pub ppm_filter_a_neg: F32,
    pub ppm_filter_a: F32,
    pub ppm_ki_dt: F32,
    pub perf_filter_a_neg: F32,
    pub perf_filter_a2_neg: F32,
    pub perf_filter_a: F32,
    pub perf_filter_a2: F32,
    pub perf_integral_min_clamp: F32,
    pub boost_state_unk_k: F32,
    pub pwr_min_duty_cycle: F32,
    pub max_pstate_scaled: F32,
    pub fast_die0_ki_dt: F32,
    pub avg_power_target_filter_a_neg: F32,
    pub avg_power_target_filter_a: F32,
    pub avg_power_filter_a_neg: F32,
    pub avg_power_filter_a: F32,
    pub avg_power_ki_dt: F32,
}

/// What only the t8103 needs.
#[derive(Copy, Clone, Debug, PartialEq, Eq, Structural)]
pub struct T8103Data {
    pub unk_d8c: u32,
    pub unk_d90: u32,
    pub unk_d9c: F32,
    pub unk_da4: F32,
    pub unk_dac: F32,
    pub unk_db8: F32,
    pub unk_dbc: F32,
    pub unk_dcc: u32,
}

impl T8103Data {
    pub open spec fn values() -> T8103Data {
        T8103Data {
            unk_d8c: 0x8000_0000,
            unk_d90: 4,
            unk_d9c: F32(0x3f19_999a),
            unk_da4: F32(0x3ecc_cccd),
            unk_dac: F32(0x3ec5_62e1),
            unk_db8: F32(0x4780_0000),
            unk_dbc: F32(0x4158_f5c3),
            unk_dcc: 600,
        }
    }
}

/// What the t8103 needs.
pub fn t8103_data() -> (r: T8103Data)
    ensures
        r == T8103Data::values(),
{
    T8103Data {
        unk_d8c: 0x8000_0000,
        unk_d90: 4,
        unk_d9c: F32(0x3f19_999a),
        unk_da4: F32(0x3ecc_cccd),
        unk_dac: F32(0x3ec5_62e1),
        unk_db8: F32(0x4780_0000),
        unk_dbc: F32(0x4158_f5c3),
        unk_dcc: 600,
    }
}

/// What only newer firmware needs.
#[derive(Copy, Clone, Debug, PartialEq, Eq, Structural)]
pub struct HwDataA130Extra {
    pub unk_38: u32,
    pub unk_3c: u32,
    pub unk_40: u32,
    pub unk_48: u32,
    pub unk_4c: u32,
    pub unk_54: u32,
    pub unk_58: u32,
    pub unk_60: F32,
    pub unk_64: F32,
    pub unk_68: F32,
    pub unk_6c: F32,
    pub unk_70: F32,
    pub unk_74: F32,
    pub unk_7c: F32,
    pub unk_80: F32,
    pub unk_84: F32,
    pub unk_8c: u32,
    pub unk_90: u32,
    pub unk_9c: F32,
    pub unk_a0: u32,
    pub unk_a8: u32,
    pub unk_ac: u32,
    pub unk_b0: u32,
    pub unk_b8: u32,
    pub unk_c4: F32,
    pub unk_114: F32,
    pub unk_124: u32,
    pub unk_128: u32,
}

impl HwDataA130Extra {
    pub open spec fn values() -> HwDataA130Extra {
        HwDataA130Extra {
            unk_38: 4,
            unk_3c: 8000,
            unk_40: 2500,
            unk_48: 0xffff_ffff,
            unk_4c: 50,
            unk_54: 50,
            unk_58: 1,
            unk_60: F32(0x3f63_8e39),
            unk_64: F32(0x3f2a_aaab),
            unk_68: F32(0x3de3_8e39),
            unk_6c: F32(0x3eaa_aaab),
            unk_70: F32(0xbecc_cccd),
            unk_74: F32(0xbf4c_cccd),
            unk_7c: F32(0x4780_0000),
            unk_80: F32(0xc0a0_0000),
            unk_84: F32(0xc120_0000),
            unk_8c: 40,
            unk_90: 600,
            unk_9c: F32(0x45fa_0000),
            unk_a0: 1400,
            unk_a8: 72,
            unk_ac: 24,
            unk_b0: 1728000,
            unk_b8: 576000,
            unk_c4: F32(0x4780_0000),
            unk_114: F32(0x4780_0000),
            unk_124: 40,
            unk_128: 600,
        }
    }
}

/// What newer firmware needs.
pub fn hw_data_a_extra() -> (r: HwDataA130Extra)
    ensures
        r == HwDataA130Extra::values(),
{
    HwDataA130Extra {
        unk_38: 4,
        unk_3c: 8000,
        unk_40: 2500,
        unk_48: 0xffff_ffff,
        unk_4c: 50,
        unk_54: 50,
        unk_58: 1,
        unk_60: F32(0x3f63_8e39),
        unk_64: F32(0x3f2a_aaab),
        unk_68: F32(0x3de3_8e39),
        unk_6c: F32(0x3eaa_aaab),
        unk_70: F32(0xbecc_cccd),
        unk_74: F32(0xbf4c_cccd),
        unk_7c: F32(0x4780_0000),
        unk_80: F32(0xc0a0_0000),
        unk_84: F32(0xc120_0000),
        unk_8c: 40,
        unk_90: 600,
        unk_9c: F32(0x45fa_0000),
        unk_a0: 1400,
        unk_a8: 72,
        unk_ac: 24,
        unk_b0: 1728000,
        unk_b8: 576000,
        unk_c4: F32(0x4780_0000),
        unk_114: F32(0x4780_0000),
        unk_124: 40,
        unk_128: 600,
    }
}

/// The single numbers of the first part of the hardware description.
#[derive(Copy, Clone, Debug, PartialEq, Eq, Structural)]
pub struct HwDataAScalars {
    pub clocks_per_period: u32,
    pub clocks_per_period_2: Option<u32>,
    pub pwr_status: u32,
    pub unk_10: F32,
    pub actual_pstate: u32,
    pub tgt_pstate: u32,
    pub base_pstate_scaled: u32,
    pub unk_40: u32,
    pub max_pstate_scaled: u32,
    pub min_pstate_scaled: u32,
    pub unk_64c: u32,
    pub pwr_filter_a_neg: F32,
    pub pwr_filter_a: F32,
    pub pwr_integral_gain: F32,
    pub pwr_integral_min_clamp: F32,
    pub max_power_1: F32,
    pub pwr_proportional_gain: F32,
    pub pwr_pstate_related_k: F32,
    pub pwr_pstate_max_dc_offset: i32,
    pub max_pstate_scaled_2: u32,
    pub max_power_2: u32,
    pub max_pstate_scaled_3: u32,
    pub ppm_filter_tc_periods_x4: u32,
    pub ppm_filter_a_neg: F32,
    pub ppm_filter_a: F32,
    pub ppm_ki_dt: F32,
    pub unk_6fc: F32,
    pub ppm_kp: F32,
    pub pwr_min_duty_cycle: u32,
    pub max_pstate_scaled_4: u32,
    pub max_power_3: u32,
    pub ppm_filter_tc_ms: u32,
    pub unk_730_0: Option<u32>,
    pub perf_tgt_utilization: u32,
    pub perf_boost_min_util: u32,
    pub perf_boost_ce_step: u32,
    pub perf_reset_iters: u32,
    pub unk_774: u32,
    pub unk_778: u32,
    pub perf_filter_drop_threshold: u32,
    pub perf_filter_a_neg: F32,
    pub perf_filter_a2_neg: F32,
    pub perf_filter_a: F32,
    pub perf_filter_a2: F32,
    pub perf_ki: F32,
    pub perf_ki2: F32,
    pub perf_integral_min_clamp: F32,
    pub unk_79c: F32,
    pub perf_kp: F32,
    pub perf_kp2: F32,
    pub boost_state_unk_k: F32,
    pub base_pstate_scaled_2: u32,
    pub max_pstate_scaled_5: u32,
    pub base_pstate_scaled_3: u32,
    pub perf_tgt_utilization_2: u32,
    pub base_pstate_scaled_4: u32,
    pub unk_7fc: F32,
    pub pwr_min_duty_cycle_2: F32,
    pub max_pstate_scaled_6: F32,
    pub max_freq_mhz: u32,
    pub pwr_min_duty_cycle_3: u32,
    pub min_pstate_scaled_4: F32,
    pub max_pstate_scaled_7: u32,
    pub unk_alpha_neg: F32,
    pub unk_alpha: F32,
    pub fast_die0_sensor_mask: u64,
    pub fast_die0_release_temp_cc: u32,
    pub unk_87c: i32,
    pub unk_880: u32,
    pub unk_894: F32,
    pub fast_die0_ki_dt: F32,
    pub unk_8a8: F32,
    pub fast_die0_kp: F32,
    pub pwr_min_duty_cycle_4: u32,
    pub max_pstate_scaled_8: u32,
    pub max_pstate_scaled_9: u32,
    pub fast_die0_prop_tgt_delta: u32,
    pub unk_8cc: u32,
    pub max_pstate_scaled_10: u32,
    pub max_pstate_scaled_11: u32,
    pub unk_c2c: u32,
    pub power_zone_count: u32,
    pub max_power_4: u32,
    pub max_power_5: u32,
    pub max_power_6: u32,
    pub avg_power_target_filter_a_neg: F32,
    pub avg_power_target_filter_a: F32,
    pub avg_power_target_filter_tc_x4: u32,
    pub avg_power_target_filter_tc_xperiod: u32,
    pub base_clock_mhz: Option<u32>,
    pub avg_power_filter_tc_periods_x4: u32,
    pub avg_power_filter_a_neg: F32,
    pub avg_power_filter_a: F32,
    pub avg_power_ki_dt: F32,
    pub unk_d20: F32,
    pub avg_power_kp: F32,
    pub avg_power_min_duty_cycle: u32,
    pub max_pstate_scaled_12: u32,
    pub max_pstate_scaled_13: u32,
    pub max_power_7: F32,
    pub max_power_8: u32,
    pub unk_d4c: u32,
    pub base_clock_mhz_2: Option<u32>,
    pub max_pstate_scaled_14: u32,
    pub t8103_data: Option<T8103Data>,
    pub unk_e10_0: Option<HwDataA130Extra>,
    pub fast_die0_sensor_mask_2: u64,
    pub unk_e24: u32,
    pub unk_e28: u32,
    pub fast_die0_sensor_mask_alt: u64,
    pub fast_die0_sensor_present: u32,
    pub unk_1638_4: Option<u8>,
    pub unk_3ce8: u32,
}

/// The bits of the first `n` bytes.
pub open spec fn cluster_mask_8(n: u32) -> u64 {
    (!0u64) >> ((8 - n) * 8)
}

/// The first `n` bits.
pub open spec fn cluster_mask_1(n: u32) -> u32 {
    (!0u32) >> (32 - n)
}

/// The sensor masks keep a byte, or a bit, for each cluster.
pub proof fn law_cluster_masks(n: u32, i: u64)
    requires
        1 <= n <= 8,
        i < 8,
    ensures
        (cluster_mask_8(n) >> (8 * i)) & 0xff == if i < n {
            0xff
        } else {
            0u64
        },
        (cluster_mask_1(n) as u64 >> i) & 1 == if i < n {
            1
        } else {
            0u64
        },
{
    let m8 = cluster_mask_8(n);
    let m1 = cluster_mask_1(n);
    assert((m8 >> ((8 * i) as u64)) & 0xff == (if i < n {
        0xffu64
    } else {
        0u64
    }) && (m1 as u64 >> i) & 1 == (if i < n {
        1u64
    } else {
        0u64
    })) by (bit_vector)
        requires
            1 <= n <= 8,
            i < 8,
            m8 == (!0u64) >> (((8 - n) * 8) as u64),
            m1 == (!0u32) >> ((32 - n) as u32),
    ;
}

/// The numbers in the global state are in range.
pub open spec fn globals_ok(pwr: PwrConfig) -> bool {
    &&& pwr.power_sample_period >= 1
    &&& 100 * pwr.perf_max_pstate <= u32::MAX
    &&& 100 * pwr.fast_die0_release_temp <= u32::MAX
    &&& 100 * pwr.fast_die0_prop_tgt_delta <= u32::MAX
    &&& pwr.power_zones@.len() <= u32::MAX
    &&& forall|i: int|
        0 <= i < pwr.power_zones@.len() ==> (#[trigger] pwr.power_zones@[i]).target_offset
            <= pwr.power_zones@[i].target
}

/// The numbers that the firmware's power management is set up with are in range.
pub open spec fn pwr_ok(pwr: PwrConfig, cfg: InitConfig) -> bool {
    &&& globals_ok(pwr)
    &&& pwr.perf_base_pstate <= pwr.perf_max_pstate
    &&& i32::MIN <= pwr.pwr_min_duty_cycle as i32 - ((100 * pwr.perf_max_pstate) as u32) as i32
        <= i32::MAX
    &&& cfg.base_clock_hz / 1000 * pwr.power_sample_period <= u32::MAX
    &&& 4 * (pwr.ppm_filter_time_constant_ms / pwr.power_sample_period) <= u32::MAX
    &&& 4 * (pwr.avg_power_filter_tc_ms / pwr.power_sample_period) <= u32::MAX
    &&& 4 * pwr.avg_power_target_filter_tc <= u32::MAX
    &&& pwr.power_sample_period * pwr.avg_power_target_filter_tc <= u32::MAX
    &&& forall|i: int|
        0 <= i < pwr.power_zones@.len() ==> {
            &&& 4 * (#[trigger] pwr.power_zones@[i]).filter_tc <= u32::MAX
            &&& pwr.power_sample_period * pwr.power_zones@[i].filter_tc <= u32::MAX
        }
}

impl HwDataAScalars {
    pub open spec fn values(
        version: FwVersion,
        cfg: InitConfig,
        pwr: PwrConfig,
        num_clusters: u32,
        f: PowerFloats,
    ) -> HwDataAScalars {
        let ventura = version == FwVersion::V13_0B4;
        let period_ms = pwr.power_sample_period;
        let ppm_filter_tc_periods = pwr.ppm_filter_time_constant_ms / period_ms;
        let avg_power_filter_tc_periods = pwr.avg_power_filter_tc_ms / period_ms;
        let base_ps_scaled = (100 * pwr.perf_base_pstate) as u32;
        let max_ps_scaled = (100 * pwr.perf_max_pstate) as u32;
        let clocks_per_period = (cfg.base_clock_hz / 1000 * period_ms) as u32;
        let mask_8 = cluster_mask_8(num_clusters);
        let mask_1 = cluster_mask_1(num_clusters);
        HwDataAScalars {
            clocks_per_period,
            clocks_per_period_2: if ventura {
                Some(clocks_per_period)
            } else {
                None
            },
            pwr_status: 4,
            unk_10: F32(0x3f80_0000),
            actual_pstate: 1,
            tgt_pstate: 1,
            base_pstate_scaled: base_ps_scaled,
            unk_40: 1,
            max_pstate_scaled: max_ps_scaled,
            min_pstate_scaled: 100,
            unk_64c: 625,
            pwr_filter_a_neg: f.pwr_filter_a_neg,
            pwr_filter_a: f.pwr_filter_a,
            pwr_integral_gain: pwr.pwr_integral_gain,
            pwr_integral_min_clamp: f.pwr_integral_min_clamp,
            max_power_1: f.max_power,
            pwr_proportional_gain: pwr.pwr_proportional_gain,
            pwr_pstate_related_k: f.pwr_pstate_related_k,
            pwr_pstate_max_dc_offset: (pwr.pwr_min_duty_cycle as i32 - max_ps_scaled as i32) as i32,
            max_pstate_scaled_2: max_ps_scaled,
            max_power_2: pwr.max_power_mw,
            max_pstate_scaled_3: max_ps_scaled,
            ppm_filter_tc_periods_x4: (ppm_filter_tc_periods * 4) as u32,
            ppm_filter_a_neg: f.ppm_filter_a_neg,
            ppm_filter_a: f.ppm_filter_a,
            ppm_ki_dt: f.ppm_ki_dt,
            unk_6fc: if ventura || cfg.chip_id != 0x8103 {
                F32(0x4780_0000)
            } else {
                F32(0)
            },
            ppm_kp: pwr.ppm_kp,
            pwr_min_duty_cycle: pwr.pwr_min_duty_cycle,
            max_pstate_scaled_4: max_ps_scaled,
            max_power_3: pwr.max_power_mw,
            ppm_filter_tc_ms: pwr.ppm_filter_time_constant_ms,
            unk_730_0: if ventura {
                Some(0x23_2800)
            } else {
                None
            },
            perf_tgt_utilization: pwr.perf_tgt_utilization,
            perf_boost_min_util: pwr.perf_boost_min_util,
            perf_boost_ce_step: pwr.perf_boost_ce_step,
            perf_reset_iters: pwr.perf_reset_iters,
            unk_774: 6,
            unk_778: 1,
            perf_filter_drop_threshold: pwr.perf_filter_drop_threshold,
            perf_filter_a_neg: f.perf_filter_a_neg,
            perf_filter_a2_neg: f.perf_filter_a2_neg,
            perf_filter_a: f.perf_filter_a,
            perf_filter_a2: f.perf_filter_a2,
            perf_ki: pwr.perf_integral_gain,
            perf_ki2: pwr.perf_integral_gain2,
            perf_integral_min_clamp: f.perf_integral_min_clamp,
            unk_79c: F32(0x42be_0000),
            perf_kp: pwr.perf_proportional_gain,
            perf_kp2: pwr.perf_proportional_gain2,
            boost_state_unk_k: f.boost_state_unk_k,
            base_pstate_scaled_2: base_ps_scaled,
            max_pstate_scaled_5: max_ps_scaled,
            base_pstate_scaled_3: base_ps_scaled,
            perf_tgt_utilization_2: pwr.perf_tgt_utilization,
            base_pstate_scaled_4: base_ps_scaled,
            unk_7fc: F32(0x4780_0000),
            pwr_min_duty_cycle_2: f.pwr_min_duty_cycle,
            max_pstate_scaled_6: f.max_pstate_scaled,
            max_freq_mhz: pwr.max_freq_mhz,
            pwr_min_duty_cycle_3: pwr.pwr_min_duty_cycle,
            min_pstate_scaled_4: F32(0x42c8_0000),
            max_pstate_scaled_7: max_ps_scaled,
            unk_alpha_neg: F32(0x3f4c_cccd),
            unk_alpha: F32(0x3e4c_cccd),
            fast_die0_sensor_mask: cfg.fast_die0_sensor_mask & mask_8,
            fast_die0_release_temp_cc: (100 * pwr.fast_die0_release_temp) as u32,
            unk_87c: cfg.unk_87c,
            unk_880: 4,
            unk_894: F32(0x3f80_0000),
            fast_die0_ki_dt: f.fast_die0_ki_dt,
            unk_8a8: F32(0x4780_0000),
            fast_die0_kp: pwr.fast_die0_proportional_gain,
            pwr_min_duty_cycle_4: pwr.pwr_min_duty_cycle,
            max_pstate_scaled_8: max_ps_scaled,
            max_pstate_scaled_9: max_ps_scaled,
            fast_die0_prop_tgt_delta: (100 * pwr.fast_die0_prop_tgt_delta) as u32,
            unk_8cc: cfg.unk_8cc,
            max_pstate_scaled_10: max_ps_scaled,
            max_pstate_scaled_11: max_ps_scaled,
            unk_c2c: 1,
            power_zone_count: pwr.power_zones@.len() as u32,
            max_power_4: pwr.max_power_mw,
            max_power_5: pwr.max_power_mw,
            max_power_6: pwr.max_power_mw,
            avg_power_target_filter_a_neg: f.avg_power_target_filter_a_neg,
            avg_power_target_filter_a: f.avg_power_target_filter_a,
            avg_power_target_filter_tc_x4: (4 * pwr.avg_power_target_filter_tc) as u32,
            avg_power_target_filter_tc_xperiod: (period_ms * pwr.avg_power_target_filter_tc) as u32,
            base_clock_mhz: if ventura {
                Some(cfg.base_clock_hz / 1_000_000)
            } else {
                None
            },
            avg_power_filter_tc_periods_x4: (4 * avg_power_filter_tc_periods) as u32,
            avg_power_filter_a_neg: f.avg_power_filter_a_neg,
            avg_power_filter_a: f.avg_power_filter_a,
            avg_power_ki_dt: f.avg_power_ki_dt,
            unk_d20: F32(0x4780_0000),
            avg_power_kp: pwr.avg_power_kp,
            avg_power_min_duty_cycle: pwr.avg_power_min_duty_cycle,
            max_pstate_scaled_12: max_ps_scaled,
            max_pstate_scaled_13: max_ps_scaled,
            max_power_7: f.max_power,
            max_power_8: pwr.max_power_mw,
            unk_d4c: pwr.avg_power_filter_tc_ms,
            base_clock_mhz_2: if ventura {
                Some(cfg.base_clock_hz / 1_000_000)
            } else {
                None
            },
            max_pstate_scaled_14: max_ps_scaled,
            t8103_data: if cfg.chip_id == 0x8103 {
                Some(T8103Data::values())
            } else {
                None
            },
            unk_e10_0: if ventura {
                Some(HwDataA130Extra::values())
            } else {
                None
            },
            fast_die0_sensor_mask_2: cfg.fast_die0_sensor_mask & mask_8,
            unk_e24: cfg.unk_e24,
            unk_e28: 1,
            fast_die0_sensor_mask_alt: cfg.fast_die0_sensor_mask_alt & mask_8,
            fast_die0_sensor_present: cfg.fast_die0_sensor_present & mask_1,
            unk_1638_4: if ventura {
                None
            } else {
                Some(1)
            },
            unk_3ce8: 1,
        }
    }

    pub fn new(
        version: FwVersion,
        cfg: &InitConfig,
        pwr: &PwrConfig,
        num_clusters: u32,
        f: &PowerFloats,
    ) -> (r: HwDataAScalars)
        requires
            pwr_ok(*pwr, *cfg),
            1 <= num_clusters <= 8,
        ensures
            r == Self::values(version, *cfg, *pwr, num_clusters, *f),
    {
        let ventura = is_ventura(version);
        let period_ms: u32 = pwr.power_sample_period;
        let ppm_filter_tc_periods: u32 = pwr.ppm_filter_time_constant_ms / period_ms;
        let avg_power_filter_tc_periods: u32 = pwr.avg_power_filter_tc_ms / period_ms;
        let base_ps_scaled: u32 = 100 * pwr.perf_base_pstate;
        let max_ps_scaled: u32 = 100 * pwr.perf_max_pstate;
        let clocks_per_period: u32 = cfg.base_clock_hz / 1000 * period_ms;
        let mask_8: u64 = (!0u64) >> ((8 - num_clusters) * 8);
        let mask_1: u32 = (!0u32) >> (32 - num_clusters);
        HwDataAScalars {
            clocks_per_period,
            clocks_per_period_2: if ventura {
                Some(clocks_per_period)
            } else {
                None
            },
            pwr_status: 4,
            unk_10: F32(0x3f80_0000),
            actual_pstate: 1,
            tgt_pstate: 1,
            base_pstate_scaled: base_ps_scaled,
            unk_40: 1,
            max_pstate_scaled: max_ps_scaled,
            min_pstate_scaled: 100,
            unk_64c: 625,
            pwr_filter_a_neg: f.pwr_filter_a_neg,
            pwr_filter_a: f.pwr_filter_a,
            pwr_integral_gain: pwr.pwr_integral_gain,
            pwr_integral_min_clamp: f.pwr_integral_min_clamp,
            max_power_1: f.max_power,
            pwr_proportional_gain: pwr.pwr_proportional_gain,
            pwr_pstate_related_k: f.pwr_pstate_related_k,
            pwr_pstate_max_dc_offset: pwr.pwr_min_duty_cycle as i32 - max_ps_scaled as i32,
            max_pstate_scaled_2: max_ps_scaled,
            max_power_2: pwr.max_power_mw,
            max_pstate_scaled_3: max_ps_scaled,
            ppm_filter_tc_periods_x4: ppm_filter_tc_periods * 4,
            ppm_filter_a_neg: f.ppm_filter_a_neg,
            ppm_filter_a: f.ppm_filter_a,
            ppm_ki_dt: f.ppm_ki_dt,
            unk_6fc: if ventura || cfg.chip_id != 0x8103 {
                F32(0x4780_0000)
            } else {
                F32(0)
            },
            ppm_kp: pwr.ppm_kp,
            pwr_min_duty_cycle: pwr.pwr_min_duty_cycle,
            max_pstate_scaled_4: max_ps_scaled,
            max_power_3: pwr.max_power_mw,
            ppm_filter_tc_ms: pwr.ppm_filter_time_constant_ms,
            unk_730_0: if ventura {
                Some(0x23_2800)
            } else {
                None
            },
            perf_tgt_utilization: pwr.perf_tgt_utilization,
            perf_boost_min_util: pwr.perf_boost_min_util,
            perf_boost_ce_step: pwr.perf_boost_ce_step,
            perf_reset_iters: pwr.perf_reset_iters,
            unk_774: 6,
            unk_778: 1,
            perf_filter_drop_threshold: pwr.perf_filter_drop_threshold,
            perf_filter_a_neg: f.perf_filter_a_neg,
            perf_filter_a2_neg: f.perf_filter_a2_neg,
            perf_filter_a: f.perf_filter_a,
            perf_filter_a2: f.perf_filter_a2,
            perf_ki: pwr.perf_integral_gain,
            perf_ki2: pwr.perf_integral_gain2,
            perf_integral_min_clamp: f.perf_integral_min_clamp,
            unk_79c: F32(0x42be_0000),
            perf_kp: pwr.perf_proportional_gain,
            perf_kp2: pwr.perf_proportional_gain2,
            boost_state_unk_k: f.boost_state_unk_k,
            base_pstate_scaled_2: base_ps_scaled,
            max_pstate_scaled_5: max_ps_scaled,
            base_pstate_scaled_3: base_ps_scaled,
            perf_tgt_utilization_2: pwr.perf_tgt_utilization,
            base_pstate_scaled_4: base_ps_scaled,
            unk_7fc: F32(0x4780_0000),
            pwr_min_duty_cycle_2: f.pwr_min_duty_cycle,
            max_pstate_scaled_6: f.max_pstate_scaled,
            max_freq_mhz: pwr.max_freq_mhz,
            pwr_min_duty_cycle_3: pwr.pwr_min_duty_cycle,
            min_pstate_scaled_4: F32(0x42c8_0000),
            max_pstate_scaled_7: max_ps_scaled,
            unk_alpha_neg: F32(0x3f4c_cccd),
            unk_alpha: F32(0x3e4c_cccd),
            fast_die0_sensor_mask: cfg.fast_die0_sensor_mask & mask_8,
            fast_die0_release_temp_cc: 100 * pwr.fast_die0_release_temp,
            unk_87c: cfg.unk_87c,
            unk_880: 4,
            unk_894: F32(0x3f80_0000),
            fast_die0_ki_dt: f.fast_die0_ki_dt,
            unk_8a8: F32(0x4780_0000),
            fast_die0_kp: pwr.fast_die0_proportional_gain,
            pwr_min_duty_cycle_4: pwr.pwr_min_duty_cycle,
            max_pstate_scaled_8: max_ps_scaled,
            max_pstate_scaled_9: max_ps_scaled,
            fast_die0_prop_tgt_delta: 100 * pwr.fast_die0_prop_tgt_delta,
            unk_8cc: cfg.unk_8cc,
            max_pstate_scaled_10: max_ps_scaled,
            max_pstate_scaled_11: max_ps_scaled,
            unk_c2c: 1,
            power_zone_count: pwr.power_zones.len() as u32,
            max_power_4: pwr.max_power_mw,
            max_power_5: pwr.max_power_mw,
            max_power_6: pwr.max_power_mw,
            avg_power_target_filter_a_neg: f.avg_power_target_filter_a_neg,
            avg_power_target_filter_a: f.avg_power_target_filter_a,
            avg_power_target_filter_tc_x4: 4 * pwr.avg_power_target_filter_tc,
            avg_power_target_filter_tc_xperiod: period_ms * pwr.avg_power_target_filter_tc,
            base_clock_mhz: if ventura {
                Some(cfg.base_clock_hz / 1_000_000)
            } else {
                None
            },
            avg_power_filter_tc_periods_x4: 4 * avg_power_filter_tc_periods,
            avg_power_filter_a_neg: f.avg_power_filter_a_neg,
            avg_power_filter_a: f.avg_power_filter_a,
            avg_power_ki_dt: f.avg_power_ki_dt,
            unk_d20: F32(0x4780_0000),
            avg_power_kp: pwr.avg_power_kp,
            avg_power_min_duty_cycle: pwr.avg_power_min_duty_cycle,
            max_pstate_scaled_12: max_ps_scaled,
            max_pstate_scaled_13: max_ps_scaled,
            max_power_7: f.max_power,
            max_power_8: pwr.max_power_mw,
            unk_d4c: pwr.avg_power_filter_tc_ms,
            base_clock_mhz_2: if ventura {
                Some(cfg.base_clock_hz / 1_000_000)
            } else {
                None
            },
            max_pstate_scaled_14: max_ps_scaled,
            t8103_data: if cfg.chip_id == 0x8103 {
                Some(t8103_data())
            } else {
                None
            },
            unk_e10_0: if ventura {
                Some(hw_data_a_extra())
            } else {
                None
            },
            fast_die0_sensor_mask_2: cfg.fast_die0_sensor_mask & mask_8,
            unk_e24: cfg.unk_e24,
            unk_e28: 1,
            fast_die0_sensor_mask_alt: cfg.fast_die0_sensor_mask_alt & mask_8,
            fast_die0_sensor_present: cfg.fast_die0_sensor_present & mask_1,
            unk_1638_4: if ventura {
                None
            } else {
                Some(1)
            },
            unk_3ce8: 1,
        }
    }
}

fn is_ventura(version: FwVersion) -> (r: bool)
    ensures
        r == (version == FwVersion::V13_0B4),
{
    match version {
        FwVersion::V12_3 => false,
        FwVersion::V13_0B4 => true,
    }
}

/// The single numbers of the second part of the hardware description.
#[derive(Copy, Clone, Debug, PartialEq, Eq, Structural)]
pub struct HwDataBScalars {
    pub unk_0: Option<u64>,
    pub unk_8: u64,
    pub unk_10: Option<u64>,
    pub unk_18: u64,
    pub unk_20: u64,
    pub unk_28: u64,
    pub unk_30: u64,
    pub unkptr_38: u64,
    pub chip_id: u32,
    pub unk_454: u32,
    pub unk_458: u32,
    pub unk_460: u32,
    pub unk_464: u32,
    pub unk_468: u32,
    pub unk_47c: u32,
    pub unk_484: u32,
    pub unk_48c: u32,
    pub base_clock_khz: u32,
    pub power_sample_period: u32,
    pub unk_49c: u32,
    pub unk_4a0: u32,
    pub unk_4a4: u32,
    pub unk_4c0: u32,
    pub unk_4e0: u64,
    pub unk_4f0: u32,
    pub unk_4f4: u32,
    pub unk_504: u32,
    pub unk_524: u32,
    pub unk_534: u32,
    pub num_frags: u32,
    pub unk_554: u32,
    pub uat_ttb_base: u64,
    pub gpu_core_id: u32,
    pub unk_564: u32,
    pub num_cores: u32,
    pub max_pstate: u32,
    pub num_pstates: Option<u32>,
    pub min_sram_volt: Option<u32>,
    pub unk_ab8: Option<u32>,
    pub unk_abc: Option<u32>,
    pub unk_ac0: Option<u32>,
    pub unk_ae4_1: u32,
    pub unk_ae4_2: u32,
    pub unk_ae4_3: u32,
    pub unk_b10: u32,
    pub unk_b24: u32,
    pub unk_b28: u32,
    pub unk_b2c: u32,
    pub unk_b38_0: Option<u32>,
    pub unk_b38_4: Option<u32>,
    /// Each of the twelve entries.
    pub unk_b38: u32,
    pub unk_c3c: Option<u32>,
}

impl HwDataBScalars {
    pub open spec fn values(
        version: FwVersion,
        cfg: InitConfig,
        pwr: PwrConfig,
        id: GpuIdConfig,
        uat_ttb_base: u64,
    ) -> HwDataBScalars {
        let ventura = version == FwVersion::V13_0B4;
        HwDataBScalars {
            unk_0: if ventura {
                None
            } else {
                Some(0x13_0000_0000)
            },
            unk_8: 0x14_0000_0000,
            unk_10: if ventura {
                None
            } else {
                Some(0x1_0000_0000)
            },
            unk_18: 0xffc0_0000,
            unk_20: 0x11_0000_0000,
            unk_28: 0x11_0000_0000,
            unk_30: 0x6f_ffff_8000,
            unkptr_38: 0xffff_ffa0_1180_0000,
            chip_id: cfg.chip_id,
            unk_454: 1,
            unk_458: 1,
            unk_460: 1,
            unk_464: 1,
            unk_468: 1,
            unk_47c: 1,
            unk_484: 1,
            unk_48c: 1,
            base_clock_khz: cfg.base_clock_hz / 1000,
            power_sample_period: pwr.power_sample_period,
            unk_49c: 1,
            unk_4a0: 1,
            unk_4a4: 1,
            unk_4c0: 0x1f,
            unk_4e0: cfg.unk_4e0,
            unk_4f0: 1,
            unk_4f4: 1,
            unk_504: 0x31,
            unk_524: 1,
            unk_534: cfg.unk_534,
            num_frags: (id.num_frags * id.num_clusters) as u32,
            unk_554: 1,
            uat_ttb_base,
            gpu_core_id: cfg.gpu_core,
            unk_564: cfg.unk_564,
            num_cores: (id.num_cores * id.num_clusters) as u32,
            max_pstate: (pwr.perf_states@.len() - 1) as u32,
            num_pstates: if ventura {
                None
            } else {
                Some(pwr.perf_states@.len() as u32)
            },
            min_sram_volt: if ventura {
                None
            } else {
                Some(pwr.min_sram_microvolt / 1000)
            },
            unk_ab8: if ventura {
                None
            } else {
                Some(cfg.unk_ab8)
            },
            unk_abc: if ventura {
                None
            } else {
                Some(cfg.unk_abc)
            },
            unk_ac0: if ventura {
                None
            } else {
                Some(0x1020)
            },
            unk_ae4_1: if ventura {
                3
            } else {
                0xf
            },
            unk_ae4_2: if ventura {
                7
            } else {
                0x3f
            },
            unk_ae4_3: if ventura {
                7
            } else {
                0x3f
            },
            unk_b10: 1,
            unk_b24: 1,
            unk_b28: 1,
            unk_b2c: 1,
            unk_b38_0: if ventura {
                Some(1)
            } else {
                None
            },
            unk_b38_4: if ventura {
                Some(1)
            } else {
                None
            },
            unk_b38: 0xffff_ffff,
            unk_c3c: if ventura {
                Some(0x19)
            } else {
                None
            },
        }
    }

    pub fn new(
        version: FwVersion,
        cfg: &InitConfig,
        pwr: &PwrConfig,
        id: &GpuIdConfig,
        uat_ttb_base: u64,
    ) -> (r: HwDataBScalars)
        requires
            1 <= pwr.perf_states@.len() <= u32::MAX,
            id.num_frags * id.num_clusters <= u32::MAX,
            id.num_cores * id.num_clusters <= u32::MAX,
        ensures
            r == Self::values(version, *cfg, *pwr, *id, uat_ttb_base),
    {
        let ventura = is_ventura(version);
        HwDataBScalars {
            unk_0: if ventura {
                None
            } else {
                Some(0x13_0000_0000)
            },
            unk_8: 0x14_0000_0000,
            unk_10: if ventura {
                None
            } else {
                Some(0x1_0000_0000)
            },
            unk_18: 0xffc0_0000,
            unk_20: 0x11_0000_0000,
            unk_28: 0x11_0000_0000,
            unk_30: 0x6f_ffff_8000,
            unkptr_38: 0xffff_ffa0_1180_0000,
            chip_id: cfg.chip_id,
            unk_454: 1,
            unk_458: 1,
            unk_460: 1,
            unk_464: 1,
            unk_468: 1,
            unk_47c: 1,
            unk_484: 1,
            unk_48c: 1,
            base_clock_khz: cfg.base_clock_hz / 1000,
            power_sample_period: pwr.power_sample_period,
            unk_49c: 1,
            unk_4a0: 1,
            unk_4a4: 1,
            unk_4c0: 0x1f,
            unk_4e0: cfg.unk_4e0,
            unk_4f0: 1,
            unk_4f4: 1,
            unk_504: 0x31,
            unk_524: 1,
            unk_534: cfg.unk_534,
            num_frags: id.num_frags * id.num_clusters,
            unk_554: 1,
            uat_ttb_base,
            gpu_core_id: cfg.gpu_core,
            unk_564: cfg.unk_564,
            num_cores: id.num_cores * id.num_clusters,
            max_pstate: pwr.perf_states.len() as u32 - 1,
            num_pstates: if ventura {
                None
            } else {
                Some(pwr.perf_states.len() as u32)
            },
            min_sram_volt: if ventura {
                None
            } else {
                Some(pwr.min_sram_microvolt / 1000)
            },
            unk_ab8: if ventura {
                None
            } else {
                Some(cfg.unk_ab8)
            },
            unk_abc: if ventura {
                None
            } else {
                Some(cfg.unk_abc)
            },
            unk_ac0: if ventura {
                None
            } else {
                Some(0x1020)
            },
            unk_ae4_1: if ventura {
                3
            } else {
                0xf
            },
            unk_ae4_2: if ventura {
                7
            } else {
                0x3f
            },
            unk_ae4_3: if ventura {
                7
            } else {
                0x3f
            },
            unk_b10: 1,
            unk_b24: 1,
            unk_b28: 1,
            unk_b2c: 1,
            unk_b38_0: if ventura {
                Some(1)
            } else {
                None
            },
            unk_b38_4: if ventura {
                Some(1)
            } else {
                None
            },
            unk_b38: 0xffff_ffff,
            unk_c3c: if ventura {
                Some(0x19)
            } else {
                None
            },
        }
    }
}

/// The single numbers of the global state.
#[derive(Copy, Clone, Debug, PartialEq, Eq, Structural)]
pub struct GlobalsScalars {
    pub unk_28: u32,
    pub unk_2c: u32,
    pub unk_34: u32,
    pub sub_unk_54: u16,
    pub sub_unk_56: u16,
    pub sub_unk_58: u16,
    pub sub_unk_5e: u32,
    pub sub_unk_66: u32,
    pub unk_8900: u32,
    pub max_power: u32,
    pub max_pstate_scaled: u32,
    pub max_pstate_scaled_2: u32,
    pub max_pstate_scaled_3: u32,
    pub power_zone_count: u32,
    pub avg_power_filter_tc_periods: u32,
    pub avg_power_ki_dt: F32,
    pub avg_power_kp: F32,
    pub avg_power_min_duty_cycle: u32,
    pub avg_power_target_filter_tc: u32,
    pub unk_89bc: u32,
    pub fast_die0_release_temp: u32,
    pub unk_89c4: i32,
    pub fast_die0_prop_tgt_delta: u32,
    pub fast_die0_kp: F32,
    pub fast_die0_ki_dt: F32,
    pub unk_89e0: u32,
    pub max_power_2: u32,
    pub ppm_kp: F32,
    pub ppm_ki_dt: F32,
    pub unk_89f4_8: Option<u32>,
    pub unk_900c: u32,
    pub unk_9010_0: Option<u32>,
    pub unk_903c: u32,
    pub fault_control: u32,
    pub do_init: u32,
    pub unk_11020: u32,
    pub unk_11024: u32,
    pub unk_11028: u32,
    pub unk_1102c_0: Option<u32>,
    pub unk_1102c_4: Option<u32>,
    pub unk_1102c_8: Option<u32>,
    pub unk_1102c_c: Option<u32>,
    pub idle_off_delay_ms: u32,
    pub fender_idle_off_delay_ms: u32,
    pub fw_early_wake_timeout_ms: u32,
    pub unk_118e0: u32,
    pub unk_118e4_0: Option<u32>,
    pub unk_118e8: u32,
    pub unk_11edc: Option<u32>,
    pub unk_11efc: Option<u32>,
}

impl GlobalsScalars {
    pub open spec fn values(
        version: FwVersion,
        cfg: InitConfig,
        pwr: PwrConfig,
        f: PowerFloats,
        fault_control: u32,
    ) -> GlobalsScalars {
        let ventura = version == FwVersion::V13_0B4;
        let avg_power_filter_tc_periods = pwr.avg_power_filter_tc_ms / pwr.power_sample_period;
        let max_ps_scaled = (100 * pwr.perf_max_pstate) as u32;
        GlobalsScalars {
            unk_28: 1,
            unk_2c: 1,
            unk_34: 120,
            sub_unk_54: 0xffff,
            sub_unk_56: 40,
            sub_unk_58: 0xffff,
            sub_unk_5e: 1,
            sub_unk_66: 1,
            unk_8900: 1,
            max_power: pwr.max_power_mw,
            max_pstate_scaled: max_ps_scaled,
            max_pstate_scaled_2: max_ps_scaled,
            max_pstate_scaled_3: max_ps_scaled,
            power_zone_count: pwr.power_zones@.len() as u32,
            avg_power_filter_tc_periods,
            avg_power_ki_dt: f.avg_power_ki_dt,
            avg_power_kp: pwr.avg_power_kp,
            avg_power_min_duty_cycle: pwr.avg_power_min_duty_cycle,
            avg_power_target_filter_tc: pwr.avg_power_target_filter_tc,
            unk_89bc: cfg.unk_8cc,
            fast_die0_release_temp: (100 * pwr.fast_die0_release_temp) as u32,
            unk_89c4: cfg.unk_87c,
            fast_die0_prop_tgt_delta: (100 * pwr.fast_die0_prop_tgt_delta) as u32,
            fast_die0_kp: pwr.fast_die0_proportional_gain,
            fast_die0_ki_dt: f.fast_die0_ki_dt,
            unk_89e0: 1,
            max_power_2: pwr.max_power_mw,
            ppm_kp: pwr.ppm_kp,
            ppm_ki_dt: f.ppm_ki_dt,
            unk_89f4_8: if ventura {
                Some(1)
            } else {
                None
            },
            unk_900c: 1,
            unk_9010_0: if ventura {
                Some(1)
            } else {
                None
            },
            unk_903c: if ventura {
                1
            } else {
                0
            },
            fault_control,
            do_init: 1,
            unk_11020: 40,
            unk_11024: 10,
            unk_11028: 250,
            unk_1102c_0: if ventura {
                Some(1)
            } else {
                None
            },
            unk_1102c_4: if ventura {
                Some(1)
            } else {
                None
            },
            unk_1102c_8: if ventura {
                Some(100)
            } else {
                None
            },
            unk_1102c_c: if ventura {
                Some(1)
            } else {
                None
            },
            idle_off_delay_ms: pwr.idle_off_delay_ms,
            fender_idle_off_delay_ms: pwr.fender_idle_off_delay_ms,
            fw_early_wake_timeout_ms: pwr.fw_early_wake_timeout_ms,
            unk_118e0: 40,
            unk_118e4_0: if ventura {
                Some(50)
            } else {
                None
            },
            unk_118e8: if cfg.global_tab is Some {
                1
            } else {
                0
            },
            unk_11edc: if ventura {
                Some(8)
            } else {
                None
            },
            unk_11efc: if ventura {
                Some(8)
            } else {
                None
            },
        }
    }

    pub fn new(
        version: FwVersion,
        cfg: &InitConfig,
        pwr: &PwrConfig,
        f: &PowerFloats,
        fault_control: u32,
    ) -> (r: GlobalsScalars)
        requires
            globals_ok(*pwr),
        ensures
            r == Self::values(version, *cfg, *pwr, *f, fault_control),
    {
        let ventura = is_ventura(version);
        let avg_power_filter_tc_periods: u32 = pwr.avg_power_filter_tc_ms
            / pwr.power_sample_period;
        let max_ps_scaled: u32 = 100 * pwr.perf_max_pstate;
        GlobalsScalars {
            unk_28: 1,
            unk_2c: 1,
            unk_34: 120,
            sub_unk_54: 0xffff,
            sub_unk_56: 40,
            sub_unk_58: 0xffff,
            sub_unk_5e: 1,
            sub_unk_66: 1,
            unk_8900: 1,
            max_power: pwr.max_power_mw,
            max_pstate_scaled: max_ps_scaled,
            max_pstate_scaled_2: max_ps_scaled,
            max_pstate_scaled_3: max_ps_scaled,
            power_zone_count: pwr.power_zones.len() as u32,
            avg_power_filter_tc_periods,
            avg_power_ki_dt: f.avg_power_ki_dt,
            avg_power_kp: pwr.avg_power_kp,
            avg_power_min_duty_cycle: pwr.avg_power_min_duty_cycle,
            avg_power_target_filter_tc: pwr.avg_power_target_filter_tc,
            unk_89bc: cfg.unk_8cc,
            fast_die0_release_temp: 100 * pwr.fast_die0_release_temp,
            unk_89c4: cfg.unk_87c,
            fast_die0_prop_tgt_delta: 100 * pwr.fast_die0_prop_tgt_delta,
            fast_die0_kp: pwr.fast_die0_proportional_gain,
            fast_die0_ki_dt: f.fast_die0_ki_dt,
            unk_89e0: 1,
            max_power_2: pwr.max_power_mw,
            ppm_kp: pwr.ppm_kp,
            ppm_ki_dt: f.ppm_ki_dt,
            unk_89f4_8: if ventura {
                Some(1)
            } else {
                None
            },
            unk_900c: 1,
            unk_9010_0: if ventura {
                Some(1)
            } else {
                None
            },
            unk_903c: if ventura {
                1
            } else {
                0
            },
            fault_control,
            do_init: 1,
            unk_11020: 40,
            unk_11024: 10,
            unk_11028: 250,
            unk_1102c_0: if ventura {
                Some(1)
            } else {
                None
            },
            unk_1102c_4: if ventura {
                Some(1)
            } else {
                None
            },
            unk_1102c_8: if ventura {
                Some(100)
            } else {
                None
            },
            unk_1102c_c: if ventura {
                Some(1)
            } else {
                None
            },
            idle_off_delay_ms: pwr.idle_off_delay_ms,
            fender_idle_off_delay_ms: pwr.fender_idle_off_delay_ms,
            fw_early_wake_timeout_ms: pwr.fw_early_wake_timeout_ms,
            unk_118e0: 40,
            unk_118e4_0: if ventura {
                Some(50)
            } else {
                None
            },
            unk_118e8: match &cfg.global_tab {
                Some(_) => 1,
                None => 0,
            },
            unk_11edc: if ventura {
                Some(8)
            } else {
                None
            },
            unk_11efc: if ventura {
                Some(8)
            } else {
                None
            },
        }
    }
}

/// Tables that both the hardware description and the global state hold.
#[derive(Debug)]
pub struct HwDataShared1 {
    pub table: Vec<i32>,
    pub unk_40: u32,
    pub unk_a4: u32,
}

fn copy_table(table: &Vec<i32>) -> (r: Vec<i32>)
    ensures
        r@ == table@,
{
    let mut v: Vec<i32> = Vec::new();
    let mut i: usize = 0;
    while i < table.len()
        invariant
            i <= table@.len(),
            v@ =~= table@.take(i as int),
        decreases table@.len() - i,
    {
        v.push(table[i]);
        i = i + 1;
    }
    assert(table@.take(i as int) =~= table@);
    v
}

pub fn hw_shared1(cfg: &InitConfig) -> (r: HwDataShared1)
    ensures
        r.table@ == cfg.shared1_tab@,
        r.unk_40 == 0xffff,
        r.unk_a4 == 0xffff,
{
    HwDataShared1 { table: copy_table(&cfg.shared1_tab), unk_40: 0xffff, unk_a4: 0xffff }
}

#[derive(Debug)]
pub struct HwDataShared2 {
    pub table: Vec<i32>,
    /// Each of the sixteen entries.
    pub unk_28: u8,
    pub unk_508: u32,
}

pub fn hw_shared2(cfg: &InitConfig) -> (r: HwDataShared2)
    ensures
        r.table@ == cfg.shared2_tab@,
        r.unk_28 == 0xff,
        r.unk_508 == cfg.shared2_unk_508,
{
    HwDataShared2 {
        table: copy_table(&cfg.shared2_tab),
        unk_28: 0xff,
        unk_508: cfg.shared2_unk_508,
    }
}

/// A power limit as the power management takes it.
#[derive(Copy, Clone, Debug, PartialEq, Eq, Structural)]
pub struct HwPowerZone {
    pub target: u32,
    pub target_off: u32,
    pub filter_tc_x4: u32,
    pub filter_tc_xperiod: u32,
    pub unk_10: Option<u32>,
}

pub open spec fn hw_power_zone(zone: PowerZone, period_ms: u32, ventura: bool) -> HwPowerZone {
    HwPowerZone {
        target: zone.target,
        target_off: (zone.target - zone.target_offset) as u32,
        filter_tc_x4: (4 * zone.filter_tc) as u32,
        filter_tc_xperiod: (period_ms * zone.filter_tc) as u32,
        unk_10: if ventura {
            Some(1_320_000_000)
        } else {
            None
        },
    }
}

/// The coefficient of a cluster; zero if there is none.
pub open spec fn coef_at(coefs: Seq<F32>, i: int) -> F32 {
    if i < coefs.len() {
        coefs[i]
    } else {
        F32(0)
    }
}

/// The first part of the hardware description.
#[derive(Debug)]
pub struct HwDataA {
    pub scalars: HwDataAScalars,
    pub hws1: HwDataShared1,
    pub hws2: HwDataShared2,
    /// One for each performance state.
    pub sram_k: Vec<F32>,
    pub core_leak_coef: Vec<F32>,
    pub sram_leak_coef: Vec<F32>,
    /// One for each cluster; the firmware takes both tables twice.
    pub unk_coef_a: Vec<F32>,
    pub unk_coef_b: Vec<F32>,
    /// The filter coefficients of the zones are filled in separately.
    pub power_zones: Vec<HwPowerZone>,
}

fn repeat(value: F32, count: usize) -> (r: Vec<F32>)
    ensures
        r@ == Seq::new(count as nat, |i: int| value),
{
    let mut v: Vec<F32> = Vec::new();
    let mut i: usize = 0;
    while i < count
        invariant
            i <= count,
            v@ =~= Seq::new(i as nat, |i: int| value),
        decreases count - i,
    {
        v.push(value);
        i = i + 1;
    }
    v
}

/// The first `count` coefficients, with zeroes where there are not so many.
fn padded(coefs: &Vec<F32>, count: usize) -> (r: Vec<F32>)
    ensures
        r@ == Seq::new(count as nat, |i: int| coef_at(coefs@, i)),
{
    let mut v: Vec<F32> = Vec::new();
    let mut i: usize = 0;
    while i < count
        invariant
            i <= count,
            v@ =~= Seq::new(i as nat, |i: int| coef_at(coefs@, i)),
        decreases count - i,
    {
        if i < coefs.len() {
            v.push(coefs[i]);
        } else {
            v.push(F32(0));
        }
        i = i + 1;
    }
    v
}

pub fn hwdata_a(
    version: FwVersion,
    cfg: &InitConfig,
    pwr: &PwrConfig,
    num_clusters: u32,
    floats: &PowerFloats,
) -> (r: HwDataA)
    requires
        pwr_ok(*pwr, *cfg),
        1 <= num_clusters <= 8,
    ensures
        r.scalars == HwDataAScalars::values(version, *cfg, *pwr, num_clusters, *floats),
        r.hws1.table@ == cfg.shared1_tab@ && r.hws1.unk_40 == 0xffff && r.hws1.unk_a4 == 0xffff,
        r.hws2.table@ == cfg.shared2_tab@ && r.hws2.unk_28 == 0xff,
        r.hws2.unk_508 == cfg.shared2_unk_508,
        r.sram_k@ == Seq::new(pwr.perf_states@.len(), |i: int| cfg.sram_k),
        r.core_leak_coef@ == pwr.core_leak_coef@,
        r.sram_leak_coef@ == pwr.sram_leak_coef@,
        r.unk_coef_a@ == Seq::new(num_clusters as nat, |i: int| coef_at(cfg.unk_coef_a@, i)),
        r.unk_coef_b@ == Seq::new(num_clusters as nat, |i: int| coef_at(cfg.unk_coef_b@, i)),
        r.power_zones@ == Seq::new(
            pwr.power_zones@.len(),
            |i: int|
                hw_power_zone(
                    pwr.power_zones@[i],
                    pwr.power_sample_period,
                    version == FwVersion::V13_0B4,
                ),
        ),
{
    let ventura = is_ventura(version);
    let period_ms: u32 = pwr.power_sample_period;
    let mut power_zones: Vec<HwPowerZone> = Vec::new();
    let mut i: usize = 0;
    while i < pwr.power_zones.len()
        invariant
            pwr_ok(*pwr, *cfg),
            period_ms == pwr.power_sample_period,
            ventura == (version == FwVersion::V13_0B4),
            i <= pwr.power_zones@.len(),
            power_zones@ =~= Seq::new(
                i as nat,
                |i: int|
                    hw_power_zone(
                        pwr.power_zones@[i],
                        pwr.power_sample_period,
                        version == FwVersion::V13_0B4,
                    ),
            ),
        decreases pwr.power_zones@.len() - i,
    {
        let zone = pwr.power_zones[i];
        power_zones.push(
            HwPowerZone {
                target: zone.target,
                target_off: zone.target - zone.target_offset,
                filter_tc_x4: 4 * zone.filter_tc,
                filter_tc_xperiod: period_ms * zone.filter_tc,
                unk_10: if ventura {
                    Some(1_320_000_000)
                } else {
                    None
                },
            },
        );
        i = i + 1;
    }
    let core_leak_coef = padded(&pwr.core_leak_coef, pwr.core_leak_coef.len());
    let sram_leak_coef = padded(&pwr.sram_leak_coef, pwr.sram_leak_coef.len());
    assert(core_leak_coef@ =~= pwr.core_leak_coef@);
    assert(sram_leak_coef@ =~= pwr.sram_leak_coef@);
    HwDataA {
        scalars: HwDataAScalars::new(version, cfg, pwr, num_clusters, floats),
        hws1: hw_shared1(cfg),
        hws2: hw_shared2(cfg),
        sram_k: repeat(cfg.sram_k, pwr.perf_states.len()),
        core_leak_coef,
        sram_leak_coef,
        unk_coef_a: padded(&cfg.unk_coef_a, num_clusters as usize),
        unk_coef_b: padded(&cfg.unk_coef_b, num_clusters as usize),
        power_zones,
    }
}

/// A performance state as the firmware takes it.
#[derive(Debug)]
pub struct HwPState {
    pub frequency: u32,
    pub voltages: Vec<u32>,
    /// The memory never gets less than its minimum.
    pub voltages_sram: Vec<u32>,
    pub sram_k: F32,
    /// In percent of the highest power.
    pub rel_max_power: u32,
    pub rel_boost_power: u32,
}

/// What the firmware is told of a performance state.
pub open spec fn pstate_is(raw: HwPState, ps: PerfState, cfg: InitConfig, pwr: PwrConfig) -> bool {
    &&& raw.frequency == ps.freq_mhz
    &&& raw.voltages@ == ps.volt_mv@
    &&& raw.voltages_sram@ == Seq::new(
        ps.volt_mv@.len(),
        |j: int|
            if ps.volt_mv@[j] >= pwr.min_sram_microvolt / 1000 {
                ps.volt_mv@[j]
            } else {
                pwr.min_sram_microvolt / 1000
            },
    )
    &&& raw.sram_k == cfg.sram_k
    &&& raw.rel_max_power == ps.pwr_mw * 100 / pwr.max_power_mw as int
    &&& raw.rel_boost_power == raw.rel_max_power
}

fn hw_pstate(ps: &PerfState, cfg: &InitConfig, pwr: &PwrConfig) -> (r: HwPState)
    requires
        ps.pwr_mw * 100 <= u32::MAX,
        pwr.max_power_mw >= 1,
    ensures
        pstate_is(r, *ps, *cfg, *pwr),
{
    let min_sram: u32 = pwr.min_sram_microvolt / 1000;
    let mut voltages: Vec<u32> = Vec::new();
    let mut voltages_sram: Vec<u32> = Vec::new();
    let mut j: usize = 0;
    while j < ps.volt_mv.len()
        invariant
            j <= ps.volt_mv@.len(),
            min_sram == pwr.min_sram_microvolt / 1000,
            voltages@ =~= ps.volt_mv@.take(j as int),
            voltages_sram@ =~= Seq::new(
                j as nat,
                |j: int|
                    if ps.volt_mv@[j] >= pwr.min_sram_microvolt / 1000 {
                        ps.volt_mv@[j]
                    } else {
                        pwr.min_sram_microvolt / 1000
                    },
            ),
        decreases ps.volt_mv@.len() - j,
    {
        let mv: u32 = ps.volt_mv[j];
        voltages.push(mv);
        if mv >= min_sram {
            voltages_sram.push(mv);
        } else {
            voltages_sram.push(min_sram);
        }
        j = j + 1;
    }
    assert(ps.volt_mv@.take(j as int) =~= ps.volt_mv@);
    let rel_power: u32 = ps.pwr_mw * 100 / pwr.max_power_mw;
    HwPState {
        frequency: ps.freq_mhz,
        voltages,
        voltages_sram,
        sram_k: cfg.sram_k,
        rel_max_power: rel_power,
        rel_boost_power: rel_power,
    }
}

/// The second part of the hardware description.
#[derive(Debug)]
pub struct HwDataB {
    pub scalars: HwDataBScalars,
    pub pstates: Vec<HwPState>,
}

pub fn hwdata_b(
    version: FwVersion,
    cfg: &InitConfig,
    pwr: &PwrConfig,
    id: &GpuIdConfig,
    uat_ttb_base: u64,
) -> (r: HwDataB)
    requires
        1 <= pwr.perf_states@.len() <= u32::MAX,
        id.num_frags * id.num_clusters <= u32::MAX,
        id.num_cores * id.num_clusters <= u32::MAX,
        pwr.max_power_mw >= 1,
        forall|i: int|
            0 <= i < pwr.perf_states@.len() ==> (#[trigger] pwr.perf_states@[i]).pwr_mw * 100
                <= u32::MAX,
    ensures
        r.scalars == HwDataBScalars::values(version, *cfg, *pwr, *id, uat_ttb_base),
        r.pstates@.len() == pwr.perf_states@.len(),
        forall|i: int|
            0 <= i < r.pstates@.len() ==> pstate_is(
                #[trigger] r.pstates@[i],
                pwr.perf_states@[i],
                *cfg,
                *pwr,
            ),
{
    let mut pstates: Vec<HwPState> = Vec::new();
    let mut i: usize = 0;
    while i < pwr.perf_states.len()
        invariant
            i <= pwr.perf_states@.len(),
            pstates@.len() == i,
            pwr.max_power_mw >= 1,
            forall|i: int|
                0 <= i < pwr.perf_states@.len() ==> (#[trigger] pwr.perf_states@[i]).pwr_mw * 100
                    <= u32::MAX,
            forall|k: int|
                0 <= k < i ==> pstate_is(
                    #[trigger] pstates@[k],
                    pwr.perf_states@[k],
                    *cfg,
                    *pwr,
                ),
        decreases pwr.perf_states@.len() - i,
    {
        pstates.push(hw_pstate(&pwr.perf_states[i], cfg, pwr));
        i = i + 1;
    }
    HwDataB { scalars: HwDataBScalars::new(version, cfg, pwr, id, uat_ttb_base), pstates }
}

/// No memory voltage is below the minimum, and none below that of its cluster.
pub proof fn law_sram_voltage_is_sufficient(
    raw: HwPState,
    ps: PerfState,
    cfg: InitConfig,
    pwr: PwrConfig,
    j: int,
)
    requires
        pstate_is(raw, ps, cfg, pwr),
        0 <= j < ps.volt_mv@.len(),
    ensures
        raw.voltages_sram@[j] >= raw.voltages@[j],
        raw.voltages_sram@[j] >= pwr.min_sram_microvolt / 1000,
        raw.voltages_sram@[j] == raw.voltages@[j] || raw.voltages_sram@[j]
            == pwr.min_sram_microvolt / 1000,
{
}

/// A power limit in the global state.
#[derive(Copy, Clone, Debug, PartialEq, Eq, Structural)]
pub struct GlobalPowerZone {
    pub target: u32,
    pub target_off: u32,
    pub filter_tc: u32,
}

/// The global state of the firmware.
#[derive(Debug)]
pub struct Globals {
    pub scalars: GlobalsScalars,
    pub hws1: HwDataShared1,
    pub hws2: HwDataShared2,
    pub power_zones: Vec<GlobalPowerZone>,
    /// Used if the chip has such a table.
    pub unk_118ec: Vec<u8>,
}

pub fn globals(
    version: FwVersion,
    cfg: &InitConfig,
    pwr: &PwrConfig,
    floats: &PowerFloats,
    fault_control: u32,
) -> (r: Globals)
    requires
        globals_ok(*pwr),
    ensures
        r.scalars == GlobalsScalars::values(version, *cfg, *pwr, *floats, fault_control),
        r.hws1.table@ == cfg.shared1_tab@ && r.hws1.unk_40 == 0xffff && r.hws1.unk_a4 == 0xffff,
        r.hws2.table@ == cfg.shared2_tab@ && r.hws2.unk_28 == 0xff,
        r.hws2.unk_508 == cfg.shared2_unk_508,
        r.power_zones@ == Seq::new(
            pwr.power_zones@.len(),
            |i: int|
                GlobalPowerZone {
                    target: pwr.power_zones@[i].target,
                    target_off: (pwr.power_zones@[i].target
                        - pwr.power_zones@[i].target_offset) as u32,
                    filter_tc: pwr.power_zones@[i].filter_tc,
                },
        ),
        r.unk_118ec@ == match cfg.global_tab {
            Some(tab) => tab@,
            None => Seq::empty(),
        },
{
    let mut power_zones: Vec<GlobalPowerZone> = Vec::new();
    let mut i: usize = 0;
    while i < pwr.power_zones.len()
        invariant
            globals_ok(*pwr),
            i <= pwr.power_zones@.len(),
            power_zones@ =~= Seq::new(
                i as nat,
                |i: int|
                    GlobalPowerZone {
                        target: pwr.power_zones@[i].target,
                        target_off: (pwr.power_zones@[i].target
                            - pwr.power_zones@[i].target_offset) as u32,
                        filter_tc: pwr.power_zones@[i].filter_tc,
                    },
            ),
        decreases pwr.power_zones@.len() - i,
    {
        let zone = pwr.power_zones[i];
        power_zones.push(
            GlobalPowerZone {
                target: zone.target,
                target_off: zone.target - zone.target_offset,
                filter_tc: zone.filter_tc,
            },
        );
        i = i + 1;
    }
    let mut unk_118ec: Vec<u8> = Vec::new();
    if let Some(tab) = &cfg.global_tab {
        let mut k: usize = 0;
        while k < tab.len()
            invariant
                k <= tab@.len(),
                unk_118ec@ =~= tab@.take(k as int),
            decreases tab@.len() - k,
        {
            unk_118ec.push(tab[k]);
            k = k + 1;
        }
        assert(tab@.take(k as int) =~= tab@);
    }
    Globals {
        scalars: GlobalsScalars::new(version, cfg, pwr, floats, fault_control),
        hws1: hw_shared1(cfg),
        hws2: hw_shared2(cfg),
        power_zones,
        unk_118ec,
    }
}

/// The allocator that a channel's ring comes from: rings that the driver reads are
/// shared, the others private to the firmware.
#[derive(Copy, Clone, Debug, PartialEq, Eq, Structural)]
pub enum RingAllocator {
    Shared,
    Private,
}

pub fn make_channel(rx: bool) -> (r: RingAllocator)
    ensures
        r == if rx {
            RingAllocator::Shared
        } else {
            RingAllocator::Private
        },
{
    if rx {
        RingAllocator::Shared
    } else {
        RingAllocator::Private
    }
}

/// A channel: where its pointers and its ring are.
#[derive(Copy, Clone, Debug, PartialEq, Eq, Structural)]
pub struct ChannelRing {
    pub state: u64,
    pub ring: u64,
}

/// The channels for one set of work queues.
#[derive(Copy, Clone, Debug, PartialEq, Eq, Structural)]
pub struct PipeChannels {
    pub vtx: ChannelRing,
    pub frag: ChannelRing,
    pub comp: ChannelRing,
}

/// Where the buffers of the firmware are.
#[derive(Copy, Clone, Debug, PartialEq, Eq, Structural)]
pub struct RuntimeBuffers {
    pub stats_vtx: u64,
    pub stats_frag: u64,
    pub stats_comp: u64,
    pub hwdata_a: u64,
    pub unkptr_190: u64,
    pub unkptr_198: u64,
    pub hwdata_b: u64,
    pub fwlog_ring2: u64,
    pub unkptr_1b8: u64,
    pub unkptr_1c0: u64,
    pub unkptr_1c8: u64,
    pub buffer_mgr_ctl: u64,
}

/// The channels other than those for work.
#[derive(Copy, Clone, Debug, PartialEq, Eq, Structural)]
pub struct SystemChannels {
    pub device_control: ChannelRing,
    pub event: ChannelRing,
    pub fw_log: ChannelRing,
    pub ktrace: ChannelRing,
    pub stats: ChannelRing,
}

/// What the firmware finds its buffers and channels by.
#[derive(Debug)]
pub struct RuntimePointers {
    pub pipes: Vec<PipeChannels>,
    pub channels: Option<SystemChannels>,
    pub stats_vtx: u64,
    pub stats_frag: u64,
    pub stats_comp: u64,
    pub hwdata_a: u64,
    pub unkptr_190: u64,
    pub unkptr_198: u64,
    pub hwdata_b: u64,
    pub hwdata_b_2: u64,
    pub fwlog_ring2: u64,
    pub unkptr_1b8: u64,
    pub unkptr_1c0: u64,
    pub unkptr_1c8: u64,
    pub buffer_mgr_ctl: u64,
    pub buffer_mgr_ctl_2: u64,
    pub scratch_unk_6b38: u32,
}

/// The pointers to the buffers. The channels come later.
pub fn runtime_pointers(b: &RuntimeBuffers) -> (r: RuntimePointers)
    ensures
        r == (RuntimePointers {
            pipes: r.pipes,
            channels: None,
            stats_vtx: b.stats_vtx,
            stats_frag: b.stats_frag,
            stats_comp: b.stats_comp,
            hwdata_a: b.hwdata_a,
            unkptr_190: b.unkptr_190,
            unkptr_198: b.unkptr_198,
            hwdata_b: b.hwdata_b,
            hwdata_b_2: b.hwdata_b,
            fwlog_ring2: b.fwlog_ring2,
            unkptr_1b8: b.unkptr_1b8,
            unkptr_1c0: b.unkptr_1c0,
            unkptr_1c8: b.unkptr_1c8,
            buffer_mgr_ctl: b.buffer_mgr_ctl,
            buffer_mgr_ctl_2: b.buffer_mgr_ctl,
            scratch_unk_6b38: 0xff,
        }),
        r.pipes@.len() == 0,
{
    RuntimePointers {
        pipes: Vec::new(),
        channels: None,
        stats_vtx: b.stats_vtx,
        stats_frag: b.stats_frag,
        stats_comp: b.stats_comp,
        hwdata_a: b.hwdata_a,
        unkptr_190: b.unkptr_190,
        unkptr_198: b.unkptr_198,
        hwdata_b: b.hwdata_b,
        hwdata_b_2: b.hwdata_b,
        fwlog_ring2: b.fwlog_ring2,
        unkptr_1b8: b.unkptr_1b8,
        unkptr_1c0: b.unkptr_1c0,
        unkptr_1c8: b.unkptr_1c8,
        buffer_mgr_ctl: b.buffer_mgr_ctl,
        buffer_mgr_ctl_2: b.buffer_mgr_ctl,
        scratch_unk_6b38: 0xff,
    }
}

impl RuntimePointers {
    /// Adds the channels: those for work by kind, one of each for every pipe.
    pub fn set_channels(
        &mut self,
        channels: SystemChannels,
        vtx: &Vec<ChannelRing>,
        frag: &Vec<ChannelRing>,
        comp: &Vec<ChannelRing>,
    )
        requires
            vtx@.len() == frag@.len() == comp@.len(),
        ensures
            *final(self) == (RuntimePointers {
                channels: Some(channels),
                pipes: final(self).pipes,
                ..*old(self)
            }),
            final(self).pipes@ == Seq::new(
                vtx@.len(),
                |i: int| PipeChannels { vtx: vtx@[i], frag: frag@[i], comp: comp@[i] },
            ),
    {
        let mut pipes: Vec<PipeChannels> = Vec::new();
        let mut i: usize = 0;
        while i < vtx.len()
            invariant
                i <= vtx@.len() == frag@.len() == comp@.len(),
                pipes@ =~= Seq::new(
                    i as nat,
                    |i: int| PipeChannels { vtx: vtx@[i], frag: frag@[i], comp: comp@[i] },
                ),
            decreases vtx@.len() - i,
        {
            pipes.push(PipeChannels { vtx: vtx[i], frag: frag[i], comp: comp[i] });
            i = i + 1;
        }
        self.channels = Some(channels);
        self.pipes = pipes;
    }
}

/// The fragment statistics start out without a current stamp.
#[derive(Copy, Clone, Debug, PartialEq, Eq, Structural)]
pub struct GpuStatsFrag {
    pub cur_stamp_id: i32,
    pub unk_118: i32,
}

pub fn stats_frag() -> (r: GpuStatsFrag)
    ensures
        r.cur_stamp_id == -1,
        r.unk_118 == -1,
{
    GpuStatsFrag { cur_stamp_id: -1, unk_118: -1 }
}

/// A level of the page tables.
#[derive(Copy, Clone, Debug, PartialEq, Eq, Structural)]
pub struct UatLevelInfo {
    pub index_shift: u8,
    pub unk_1: u8,
    pub unk_2: u8,
    pub unk_3: u8,
    pub unk_4: u16,
    pub num_entries: u16,
    pub unk_8: u64,
    /// The bits of an entry that are an address.
    pub unk_10: u64,
    /// The bits of an address that are the index into a table of this level.
    pub index_mask: u64,
}

pub open spec fn level_info(uat_oas: u32, index_shift: u8, num_entries: u16) -> UatLevelInfo {
    UatLevelInfo {
        index_shift,
        unk_1: 14,
        unk_2: 14,
        unk_3: 8,
        unk_4: 0x4000,
        num_entries,
        unk_8: 1,
        unk_10: (((1u64 << (uat_oas as u64)) - 1) as u64) & !UAT_PGMSK,
        index_mask: ((num_entries - 1) as u64) << (index_shift as u64),
    }
}

pub fn uat_level_info(uat_oas: u32, index_shift: u8, num_entries: u16) -> (r: UatLevelInfo)
    requires
        uat_oas < 64,
        index_shift < 64,
        num_entries >= 1,
    ensures
        r == level_info(uat_oas, index_shift, num_entries),
{
    let oas: u64 = uat_oas as u64;
    assert(1u64 << oas >= 1) by (bit_vector)
        requires
            oas < 64,
    ;
    UatLevelInfo {
        index_shift,
        unk_1: 14,
        unk_2: 14,
        unk_3: 8,
        unk_4: 0x4000,
        num_entries,
        unk_8: 1,
        unk_10: ((1u64 << oas) - 1) & !UAT_PGMSK,
        index_mask: ((num_entries - 1) as u64) << (index_shift as u64),
    }
}

/// Where the parts of the initialization data are.
#[derive(Copy, Clone, Debug, PartialEq, Eq, Structural)]
pub struct InitParts {
    pub unk_buf: u64,
    pub runtime_pointers: u64,
    pub globals: u64,
    pub fw_status: u64,
}

/// What the firmware is started with.
#[derive(Debug)]
pub struct InitData {
    /// Four numbers, for newer firmware.
    pub ver_info: Vec<u16>,
    pub parts: InitParts,
    pub uat_page_size: u16,
    pub uat_page_bits: u8,
    pub uat_num_levels: u8,
    pub uat_level_info: Vec<UatLevelInfo>,
    pub host_mapped_fw_allocations: u32,
}

pub fn build(version: FwVersion, uat_oas: u32, parts: InitParts) -> (r: InitData)
    requires
        uat_oas < 64,
    ensures
        r.ver_info@ == if version == FwVersion::V13_0B4 {
            seq![1u16, 1, 16, 1]
        } else {
            Seq::empty()
        },
        r.parts == parts,
        r.uat_page_size == 0x4000,
        r.uat_page_bits == 14,
        r.uat_num_levels == 3,
        r.uat_level_info@ == seq![
            level_info(uat_oas, 36, 8),
            level_info(uat_oas, 25, 2048),
            level_info(uat_oas, 14, 2048),
        ],
        r.host_mapped_fw_allocations == 1,
{
    let mut ver_info: Vec<u16> = Vec::new();
    if is_ventura(version) {
        ver_info.push(1);
        ver_info.push(1);
        ver_info.push(16);
        ver_info.push(1);
    }
    let mut levels: Vec<UatLevelInfo> = Vec::new();
    levels.push(uat_level_info(uat_oas, 36, 8));
    levels.push(uat_level_info(uat_oas, 25, 2048));
    levels.push(uat_level_info(uat_oas, 14, 2048));
    InitData {
        ver_info,
        parts,
        uat_page_size: 0x4000,
        uat_page_bits: 14,
        uat_num_levels: 3,
        uat_level_info: levels,
        host_mapped_fw_allocations: 1,
    }
}

/// The levels share the bits of a user address between them: every bit above the page
/// offset belongs to exactly one level.
pub proof fn law_levels_partition_the_address(uat_oas: u32)
    ensures
        ({
            let l0 = level_info(uat_oas, 36, 8).index_mask;
            let l1 = level_info(uat_oas, 25, 2048).index_mask;
            let l2 = level_info(uat_oas, 14, 2048).index_mask;
            &&& l0 & l1 == 0
            &&& l0 & l2 == 0
            &&& l1 & l2 == 0
            &&& l0 | l1 | l2 | UAT_PGMSK == crate::mmu::IOVA_USER_TOP
        }),
{
    assert(((7u64 << 36) & (2047u64 << 25) == 0) && ((7u64 << 36) & (2047u64 << 14) == 0) && ((
    2047u64 << 25) & (2047u64 << 14) == 0) && ((7u64 << 36) | (2047u64 << 25) | (2047u64 << 14)
        | 0x3fff == 0x7f_ffff_ffff)) by (bit_vector);
}

/// Each controller gets its own gains: those for the power, for the performance, for the
/// temperature and for the average power never stand in for one another.
pub proof fn law_controllers_keep_their_gains(
    version: FwVersion,
    cfg: InitConfig,
    pwr: PwrConfig,
    num_clusters: u32,
    floats: PowerFloats,
    a: HwDataA,
)
    requires
        pwr_ok(pwr, cfg),
        1 <= num_clusters <= 8,
        call_ensures(hwdata_a, (version, &cfg, &pwr, num_clusters, &floats), a),
    ensures
        a.scalars.pwr_integral_gain == pwr.pwr_integral_gain,
        a.scalars.pwr_proportional_gain == pwr.pwr_proportional_gain,
        a.scalars.ppm_kp == pwr.ppm_kp,
        a.scalars.perf_ki == pwr.perf_integral_gain,
        a.scalars.perf_ki2 == pwr.perf_integral_gain2,
        a.scalars.perf_kp == pwr.perf_proportional_gain,
        a.scalars.perf_kp2 == pwr.perf_proportional_gain2,
        a.scalars.fast_die0_kp == pwr.fast_die0_proportional_gain,
        a.scalars.avg_power_kp == pwr.avg_power_kp,
{
}

/// Two machines whose first part of the hardware description is the same manage power
/// with the same gains and limits.
pub proof fn law_description_tells_machines_apart(
    version: FwVersion,
    cfg: InitConfig,
    p: PwrConfig,
    q: PwrConfig,
    num_clusters: u32,
    floats: PowerFloats,
    a: HwDataA,
    b: HwDataA,
)
    requires
        pwr_ok(p, cfg),
        pwr_ok(q, cfg),
        1 <= num_clusters <= 8,
        call_ensures(hwdata_a, (version, &cfg, &p, num_clusters, &floats), a),
        call_ensures(hwdata_a, (version, &cfg, &q, num_clusters, &floats), b),
        a.scalars == b.scalars,
    ensures
        p.pwr_integral_gain == q.pwr_integral_gain,
        p.pwr_proportional_gain == q.pwr_proportional_gain,
        p.ppm_kp == q.ppm_kp,
        p.perf_integral_gain == q.perf_integral_gain,
        p.perf_integral_gain2 == q.perf_integral_gain2,
        p.perf_proportional_gain == q.perf_proportional_gain,
        p.perf_proportional_gain2 == q.perf_proportional_gain2,
        p.fast_die0_proportional_gain == q.fast_die0_proportional_gain,
        p.avg_power_kp == q.avg_power_kp,
        p.perf_base_pstate == q.perf_base_pstate,
        p.perf_max_pstate == q.perf_max_pstate,
        p.max_power_mw == q.max_power_mw,
        p.max_freq_mhz == q.max_freq_mhz,
        p.pwr_min_duty_cycle == q.pwr_min_duty_cycle,
        p.avg_power_min_duty_cycle == q.avg_power_min_duty_cycle,
        p.perf_tgt_utilization == q.perf_tgt_utilization,
        p.perf_boost_min_util == q.perf_boost_min_util,
        p.perf_boost_ce_step == q.perf_boost_ce_step,
        p.perf_reset_iters == q.perf_reset_iters,
        p.perf_filter_drop_threshold == q.perf_filter_drop_threshold,
        p.fast_die0_release_temp == q.fast_die0_release_temp,
        p.fast_die0_prop_tgt_delta == q.fast_die0_prop_tgt_delta,
        p.ppm_filter_time_constant_ms == q.ppm_filter_time_constant_ms,
        p.avg_power_filter_tc_ms == q.avg_power_filter_tc_ms,
        p.avg_power_target_filter_tc == q.avg_power_target_filter_tc,
        p.power_zones@.len() == q.power_zones@.len(),
{
}

/// Each filter coefficient that was computed is handed on under its own name.
pub proof fn law_filters_keep_their_coefficients(
    version: FwVersion,
    cfg: InitConfig,
    pwr: PwrConfig,
    num_clusters: u32,
    floats: PowerFloats,
    a: HwDataA,
)
    requires
        pwr_ok(pwr, cfg),
        1 <= num_clusters <= 8,
        call_ensures(hwdata_a, (version, &cfg, &pwr, num_clusters, &floats), a),
    ensures
        a.scalars.pwr_filter_a_neg == floats.pwr_filter_a_neg,
        a.scalars.pwr_filter_a == floats.pwr_filter_a,
        a.scalars.pwr_integral_min_clamp == floats.pwr_integral_min_clamp,
        a.scalars.max_power_1 == floats.max_power,
        a.scalars.max_power_7 == floats.max_power,
        a.scalars.pwr_pstate_related_k == floats.pwr_pstate_related_k,
        a.scalars.ppm_filter_a_neg == floats.ppm_filter_a_neg,
        a.scalars.ppm_filter_a == floats.ppm_filter_a,
        a.scalars.ppm_ki_dt == floats.ppm_ki_dt,
        a.scalars.perf_filter_a_neg == floats.perf_filter_a_neg,
        a.scalars.perf_filter_a2_neg == floats.perf_filter_a2_neg,
        a.scalars.perf_filter_a == floats.perf_filter_a,
        a.scalars.perf_filter_a2 == floats.perf_filter_a2,
        a.scalars.perf_integral_min_clamp == floats.perf_integral_min_clamp,
        a.scalars.boost_state_unk_k == floats.boost_state_unk_k,
        a.scalars.pwr_min_duty_cycle_2 == floats.pwr_min_duty_cycle,
        a.scalars.max_pstate_scaled_6 == floats.max_pstate_scaled,
        a.scalars.fast_die0_ki_dt == floats.fast_die0_ki_dt,
        a.scalars.avg_power_target_filter_a_neg == floats.avg_power_target_filter_a_neg,
        a.scalars.avg_power_target_filter_a == floats.avg_power_target_filter_a,
        a.scalars.avg_power_filter_a_neg == floats.avg_power_filter_a_neg,
        a.scalars.avg_power_filter_a == floats.avg_power_filter_a,
        a.scalars.avg_power_ki_dt == floats.avg_power_ki_dt,
{
}

/// Wherever the firmware looks for a limit, it finds the one of the machine.
pub proof fn law_limits_agree(
    version: FwVersion,
    cfg: InitConfig,
    pwr: PwrConfig,
    num_clusters: u32,
    floats: PowerFloats,
    a: HwDataA,
)
    requires
        pwr_ok(pwr, cfg),
        1 <= num_clusters <= 8,
        call_ensures(hwdata_a, (version, &cfg, &pwr, num_clusters, &floats), a),
    ensures
        pwr.max_power_mw == a.scalars.max_power_2 == a.scalars.max_power_3
            == a.scalars.max_power_4 == a.scalars.max_power_5 == a.scalars.max_power_6
            == a.scalars.max_power_8,
        pwr.pwr_min_duty_cycle == a.scalars.pwr_min_duty_cycle == a.scalars.pwr_min_duty_cycle_3
            == a.scalars.pwr_min_duty_cycle_4,
        pwr.avg_power_min_duty_cycle == a.scalars.avg_power_min_duty_cycle,
        pwr.max_freq_mhz == a.scalars.max_freq_mhz,
        pwr.perf_tgt_utilization == a.scalars.perf_tgt_utilization
            == a.scalars.perf_tgt_utilization_2,
        pwr.perf_boost_min_util == a.scalars.perf_boost_min_util,
        pwr.perf_boost_ce_step == a.scalars.perf_boost_ce_step,
        pwr.perf_reset_iters == a.scalars.perf_reset_iters,
        pwr.perf_filter_drop_threshold == a.scalars.perf_filter_drop_threshold,
        pwr.ppm_filter_time_constant_ms == a.scalars.ppm_filter_tc_ms,
        pwr.avg_power_filter_tc_ms == a.scalars.unk_d4c,
        pwr.power_zones@.len() == a.scalars.power_zone_count == a.power_zones@.len(),
{
}

/// Performance states count in hundredths: the lowest is one, the base and the highest
/// state are those of the machine, and each of them is the same wherever it stands.
pub proof fn law_pstates_are_in_hundredths(
    version: FwVersion,
    cfg: InitConfig,
    pwr: PwrConfig,
    num_clusters: u32,
    floats: PowerFloats,
    a: HwDataA,
)
    requires
        pwr_ok(pwr, cfg),
        1 <= num_clusters <= 8,
        call_ensures(hwdata_a, (version, &cfg, &pwr, num_clusters, &floats), a),
    ensures
        a.scalars.min_pstate_scaled == 100 * a.scalars.actual_pstate,
        a.scalars.actual_pstate == a.scalars.tgt_pstate == 1,
        100 * pwr.perf_base_pstate == a.scalars.base_pstate_scaled
            == a.scalars.base_pstate_scaled_2 == a.scalars.base_pstate_scaled_3
            == a.scalars.base_pstate_scaled_4,
        100 * pwr.perf_max_pstate == a.scalars.max_pstate_scaled == a.scalars.max_pstate_scaled_2
            == a.scalars.max_pstate_scaled_3 == a.scalars.max_pstate_scaled_4
            == a.scalars.max_pstate_scaled_5 == a.scalars.max_pstate_scaled_7
            == a.scalars.max_pstate_scaled_8 == a.scalars.max_pstate_scaled_9
            == a.scalars.max_pstate_scaled_10 == a.scalars.max_pstate_scaled_11
            == a.scalars.max_pstate_scaled_12 == a.scalars.max_pstate_scaled_13
            == a.scalars.max_pstate_scaled_14,
        a.scalars.base_pstate_scaled <= a.scalars.max_pstate_scaled,
        pwr.pwr_min_duty_cycle <= i32::MAX && a.scalars.max_pstate_scaled <= i32::MAX
            ==> a.scalars.pwr_pstate_max_dc_offset + a.scalars.max_pstate_scaled
            == a.scalars.pwr_min_duty_cycle,
{
}

/// Times are counted in sample periods: a filter's time constant is cut down to whole
/// periods, of which four times as many are given, and the clock ticks through each
/// period as often as the base clock says.
pub proof fn law_times_are_in_periods(
    version: FwVersion,
    cfg: InitConfig,
    pwr: PwrConfig,
    num_clusters: u32,
    floats: PowerFloats,
    a: HwDataA,
)
    requires
        pwr_ok(pwr, cfg),
        1 <= num_clusters <= 8,
        call_ensures(hwdata_a, (version, &cfg, &pwr, num_clusters, &floats), a),
    ensures
        a.scalars.ppm_filter_tc_periods_x4 % 4 == 0,
        (a.scalars.ppm_filter_tc_periods_x4 / 4) * pwr.power_sample_period
            <= pwr.ppm_filter_time_constant_ms < (a.scalars.ppm_filter_tc_periods_x4 / 4 + 1)
            * pwr.power_sample_period,
        a.scalars.avg_power_filter_tc_periods_x4 % 4 == 0,
        (a.scalars.avg_power_filter_tc_periods_x4 / 4) * pwr.power_sample_period
            <= pwr.avg_power_filter_tc_ms < (a.scalars.avg_power_filter_tc_periods_x4 / 4 + 1)
            * pwr.power_sample_period,
        a.scalars.avg_power_target_filter_tc_x4 == 4 * pwr.avg_power_target_filter_tc,
        a.scalars.avg_power_target_filter_tc_xperiod == pwr.avg_power_target_filter_tc
            * pwr.power_sample_period,
        a.scalars.clocks_per_period * 1000 <= cfg.base_clock_hz * pwr.power_sample_period
            < a.scalars.clocks_per_period * 1000 + 1000 * pwr.power_sample_period,
        a.scalars.fast_die0_release_temp_cc == 100 * pwr.fast_die0_release_temp,
        a.scalars.fast_die0_prop_tgt_delta == 100 * pwr.fast_die0_prop_tgt_delta,
{
    let t = pwr.power_sample_period as int;
    let p = pwr.ppm_filter_time_constant_ms as int;
    let v = pwr.avg_power_filter_tc_ms as int;
    let k = cfg.base_clock_hz as int / 1000;
    assert((p / t) * t <= p < (p / t + 1) * t) by (nonlinear_arith)
        requires
            t >= 1,
    ;
    assert((v / t) * t <= v < (v / t + 1) * t) by (nonlinear_arith)
        requires
            t >= 1,
    ;
    assert(a.scalars.avg_power_target_filter_tc_xperiod == pwr.avg_power_target_filter_tc
        * pwr.power_sample_period) by (nonlinear_arith)
        requires
            a.scalars.avg_power_target_filter_tc_xperiod == pwr.power_sample_period
                * pwr.avg_power_target_filter_tc,
    ;
    assert(k * t * 1000 <= cfg.base_clock_hz * t < k * t * 1000 + 1000 * t) by (nonlinear_arith)
        requires
            t >= 1,
            1000 * k <= cfg.base_clock_hz < 1000 * k + 1000,
    ;
}

/// The sensors of clusters that the chip does not have are left out, and those of the
/// others are as the chip's description has them.
pub proof fn law_sensors_of_missing_clusters_are_off(
    version: FwVersion,
    cfg: InitConfig,
    pwr: PwrConfig,
    num_clusters: u32,
    floats: PowerFloats,
    a: HwDataA,
    i: u64,
)
    requires
        pwr_ok(pwr, cfg),
        1 <= num_clusters <= 8,
        i < 8,
        call_ensures(hwdata_a, (version, &cfg, &pwr, num_clusters, &floats), a),
    ensures
        a.scalars.fast_die0_sensor_mask_2 == a.scalars.fast_die0_sensor_mask,
        i < num_clusters ==> {
            &&& (a.scalars.fast_die0_sensor_mask >> (8 * i)) & 0xff == (cfg.fast_die0_sensor_mask
                >> (8 * i)) & 0xff
            &&& (a.scalars.fast_die0_sensor_mask_alt >> (8 * i)) & 0xff == (
            cfg.fast_die0_sensor_mask_alt >> (8 * i)) & 0xff
            &&& (a.scalars.fast_die0_sensor_present >> i) & 1 == (cfg.fast_die0_sensor_present
                >> i) & 1
        },
        i >= num_clusters ==> {
            &&& (a.scalars.fast_die0_sensor_mask >> (8 * i)) & 0xff == 0
            &&& (a.scalars.fast_die0_sensor_mask_alt >> (8 * i)) & 0xff == 0
            &&& (a.scalars.fast_die0_sensor_present >> i) & 1 == 0
        },
{
    let n = num_clusters;
    let m8 = cluster_mask_8(n);
    let m1 = cluster_mask_1(n);
    let x = cfg.fast_die0_sensor_mask;
    let y = cfg.fast_die0_sensor_mask_alt;
    let z = cfg.fast_die0_sensor_present;
    assert({
        &&& i < n ==> ((x & m8) >> ((8 * i) as u64)) & 0xff == (x >> ((8 * i) as u64)) & 0xff
        &&& i < n ==> ((y & m8) >> ((8 * i) as u64)) & 0xff == (y >> ((8 * i) as u64)) & 0xff
        &&& i < n ==> ((z & m1) >> i) & 1 == (z >> i) & 1
        &&& i >= n ==> ((x & m8) >> ((8 * i) as u64)) & 0xff == 0
        &&& i >= n ==> ((y & m8) >> ((8 * i) as u64)) & 0xff == 0
        &&& i >= n ==> ((z & m1) >> i) & 1 == 0
    }) by (bit_vector)
        requires
            1 <= n <= 8,
            i < 8,
            m8 == (!0u64) >> (((8 - n) * 8) as u64),
            m1 == (!0u32) >> ((32 - n) as u32),
    ;
}

/// What depends on the chip comes from the chip's description, and what depends on the
/// firmware is there for the firmware that has a place for it, and for no other.
pub proof fn law_firmware_gets_its_own_fields(
    version: FwVersion,
    cfg: InitConfig,
    pwr: PwrConfig,
    num_clusters: u32,
    floats: PowerFloats,
    a: HwDataA,
)
    requires
        pwr_ok(pwr, cfg),
        1 <= num_clusters <= 8,
        call_ensures(hwdata_a, (version, &cfg, &pwr, num_clusters, &floats), a),
    ensures
        a.scalars.unk_87c == cfg.unk_87c,
        a.scalars.unk_8cc == cfg.unk_8cc,
        a.scalars.unk_e24 == cfg.unk_e24,
        a.scalars.t8103_data is Some <==> cfg.chip_id == 0x8103,
        a.scalars.clocks_per_period_2 is Some <==> version == FwVersion::V13_0B4,
        a.scalars.unk_730_0 is Some <==> version == FwVersion::V13_0B4,
        a.scalars.base_clock_mhz is Some <==> version == FwVersion::V13_0B4,
        a.scalars.base_clock_mhz_2 is Some <==> version == FwVersion::V13_0B4,
        a.scalars.unk_e10_0 is Some <==> version == FwVersion::V13_0B4,
        a.scalars.unk_1638_4 is Some <==> version == FwVersion::V12_3,
        version == FwVersion::V13_0B4 ==> {
            &&& a.scalars.clocks_per_period_2 == Some(a.scalars.clocks_per_period)
            &&& a.scalars.unk_730_0 == Some(2_304_000u32)
            &&& a.scalars.base_clock_mhz == a.scalars.base_clock_mhz_2
            &&& a.scalars.base_clock_mhz->0 * 1_000_000 <= cfg.base_clock_hz
                < (a.scalars.base_clock_mhz->0 + 1) * 1_000_000
        },
        version == FwVersion::V12_3 ==> a.scalars.unk_1638_4 == Some(1u8),
        a.scalars.unk_6fc == F32(0) <==> version == FwVersion::V12_3 && cfg.chip_id == 0x8103,
        a.scalars.unk_6fc != F32(0) ==> a.scalars.unk_6fc == a.scalars.unk_7fc,
{
}

/// The numbers that are the same for every machine.
pub proof fn law_fixed_numbers(
    version: FwVersion,
    cfg: InitConfig,
    pwr: PwrConfig,
    num_clusters: u32,
    floats: PowerFloats,
    a: HwDataA,
)
    requires
        pwr_ok(pwr, cfg),
        1 <= num_clusters <= 8,
        call_ensures(hwdata_a, (version, &cfg, &pwr, num_clusters, &floats), a),
    ensures
        a.scalars.pwr_status == a.scalars.unk_880 == 4,
        a.scalars.unk_40 == a.scalars.unk_778 == a.scalars.unk_c2c == a.scalars.unk_e28
            == a.scalars.unk_3ce8 == 1,
        a.scalars.unk_64c == 625,
        a.scalars.unk_774 == 6,
        a.scalars.unk_10 == a.scalars.unk_894,
        a.scalars.unk_894 == F32(0x3f80_0000),
        a.scalars.unk_79c == F32(0x42be_0000),
        a.scalars.unk_7fc == a.scalars.unk_8a8,
        a.scalars.unk_8a8 == a.scalars.unk_d20,
        a.scalars.unk_d20 == F32(0x4780_0000),
        a.scalars.min_pstate_scaled_4 == F32(0x42c8_0000),
        a.scalars.unk_alpha_neg == F32(0x3f4c_cccd),
        a.scalars.unk_alpha == F32(0x3e4c_cccd),
        a.hws1.unk_40 == a.hws1.unk_a4 == 0xffff,
        a.hws2.unk_28 == 0xff,
        a.scalars.t8103_data matches Some(t) ==> {
            &&& t.unk_d8c == 0x8000_0000
            &&& t.unk_d90 == 4
            &&& t.unk_d9c == F32(0x3f19_999a)
            &&& t.unk_da4 == F32(0x3ecc_cccd)
            &&& t.unk_dac == F32(0x3ec5_62e1)
            &&& t.unk_db8 == F32(0x4780_0000)
            &&& t.unk_dbc == F32(0x4158_f5c3)
            &&& t.unk_dcc == 600
        },
        a.scalars.unk_e10_0 matches Some(e) ==> {
            &&& e.unk_38 == 4
            &&& e.unk_3c == 8000
            &&& e.unk_40 == 2500
            &&& e.unk_48 == u32::MAX
            &&& e.unk_4c == e.unk_54 == 50
            &&& e.unk_58 == 1
            &&& e.unk_60 == F32(0x3f63_8e39)
            &&& e.unk_64 == F32(0x3f2a_aaab)
            &&& e.unk_68 == F32(0x3de3_8e39)
            &&& e.unk_6c == F32(0x3eaa_aaab)
            &&& e.unk_70 == F32(0xbecc_cccd)
            &&& e.unk_74 == F32(0xbf4c_cccd)
            &&& e.unk_80 == F32(0xc0a0_0000)
            &&& e.unk_84 == F32(0xc120_0000)
            &&& e.unk_7c == e.unk_c4
            &&& e.unk_c4 == e.unk_114
            &&& e.unk_114 == F32(0x4780_0000)
            &&& e.unk_8c == e.unk_124 == 40
            &&& e.unk_90 == e.unk_128 == 600
            &&& e.unk_9c == F32(0x45fa_0000)
            &&& e.unk_a0 == 1400
            &&& e.unk_a8 == 3 * e.unk_ac == 72
            &&& e.unk_b0 == 3 * e.unk_b8 == 1728000
        },
{
}

/// The tables hold a number for each performance state or cluster, from their own source,
/// and zero for a cluster without one.
pub proof fn law_tables_have_an_entry_for_each(
    version: FwVersion,
    cfg: InitConfig,
    pwr: PwrConfig,
    num_clusters: u32,
    floats: PowerFloats,
    a: HwDataA,
    i: int,
)
    requires
        pwr_ok(pwr, cfg),
        1 <= num_clusters <= 8,
        0 <= i,
        call_ensures(hwdata_a, (version, &cfg, &pwr, num_clusters, &floats), a),
    ensures
        a.sram_k@.len() == pwr.perf_states@.len(),
        i < pwr.perf_states@.len() ==> a.sram_k@[i] == cfg.sram_k,
        a.core_leak_coef@ == pwr.core_leak_coef@,
        a.sram_leak_coef@ == pwr.sram_leak_coef@,
        a.unk_coef_a@.len() == a.unk_coef_b@.len() == num_clusters,
        i < num_clusters && i < cfg.unk_coef_a@.len() ==> a.unk_coef_a@[i] == cfg.unk_coef_a@[i],
        i < num_clusters && i >= cfg.unk_coef_a@.len() ==> a.unk_coef_a@[i] == F32(0),
        i < num_clusters && i < cfg.unk_coef_b@.len() ==> a.unk_coef_b@[i] == cfg.unk_coef_b@[i],
        i < num_clusters && i >= cfg.unk_coef_b@.len() ==> a.unk_coef_b@[i] == F32(0),
        a.hws1.table@ == cfg.shared1_tab@,
        a.hws2.table@ == cfg.shared2_tab@,
        a.hws2.unk_508 == cfg.shared2_unk_508,
{
}

/// A power limit keeps its target; with its offset the target is reached exactly; and its
/// time constant stands four times, and in milliseconds.
pub proof fn law_power_zones_keep_their_targets(
    version: FwVersion,
    cfg: InitConfig,
    pwr: PwrConfig,
    num_clusters: u32,
    floats: PowerFloats,
    a: HwDataA,
    i: int,
)
    requires
        pwr_ok(pwr, cfg),
        1 <= num_clusters <= 8,
        0 <= i < pwr.power_zones@.len(),
        call_ensures(hwdata_a, (version, &cfg, &pwr, num_clusters, &floats), a),
    ensures
        a.power_zones@[i].target == pwr.power_zones@[i].target,
        a.power_zones@[i].target_off + pwr.power_zones@[i].target_offset
            == pwr.power_zones@[i].target,
        a.power_zones@[i].filter_tc_x4 == 4 * pwr.power_zones@[i].filter_tc,
        a.power_zones@[i].filter_tc_xperiod == pwr.power_sample_period
            * pwr.power_zones@[i].filter_tc,
        a.power_zones@[i].unk_10 is Some <==> version == FwVersion::V13_0B4,
        a.power_zones@[i].unk_10 is Some ==> a.power_zones@[i].unk_10 == Some(1_320_000_000u32),
{
}

/// The counts, clocks and addresses of the second part of the hardware description: cores
/// and fragment units are counted over all clusters, the clock is in kilohertz, and the
/// highest performance state is the last one.
pub proof fn law_second_part_counts_the_whole_chip(
    version: FwVersion,
    cfg: InitConfig,
    pwr: PwrConfig,
    id: GpuIdConfig,
    uat_ttb_base: u64,
    b: HwDataB,
)
    requires
        1 <= pwr.perf_states@.len() <= u32::MAX,
        id.num_frags * id.num_clusters <= u32::MAX,
        id.num_cores * id.num_clusters <= u32::MAX,
        call_ensures(hwdata_b, (version, &cfg, &pwr, &id, uat_ttb_base), b),
    ensures
        b.scalars.num_cores == id.num_clusters * id.num_cores,
        b.scalars.num_frags == id.num_clusters * id.num_frags,
        b.scalars.base_clock_khz * 1000 <= cfg.base_clock_hz < (b.scalars.base_clock_khz + 1)
            * 1000,
        b.scalars.power_sample_period == pwr.power_sample_period,
        b.scalars.chip_id == cfg.chip_id,
        b.scalars.gpu_core_id == cfg.gpu_core,
        b.scalars.uat_ttb_base == uat_ttb_base,
        b.scalars.unk_4e0 == cfg.unk_4e0,
        b.scalars.unk_534 == cfg.unk_534,
        b.scalars.unk_564 == cfg.unk_564,
        b.scalars.max_pstate + 1 == b.pstates@.len() == pwr.perf_states@.len(),
{
    assert(id.num_clusters * id.num_cores == id.num_cores * id.num_clusters) by (nonlinear_arith);
    assert(id.num_clusters * id.num_frags == id.num_frags * id.num_clusters) by (nonlinear_arith);
}

/// The fields that only some firmware has: older firmware gets the number of performance
/// states, the memory's minimum in millivolts and the chip's numbers, newer firmware some
/// switches.
pub proof fn law_second_part_fits_the_firmware(
    version: FwVersion,
    cfg: InitConfig,
    pwr: PwrConfig,
    id: GpuIdConfig,
    uat_ttb_base: u64,
    b: HwDataB,
)
    requires
        1 <= pwr.perf_states@.len() <= u32::MAX,
        id.num_frags * id.num_clusters <= u32::MAX,
        id.num_cores * id.num_clusters <= u32::MAX,
        call_ensures(hwdata_b, (version, &cfg, &pwr, &id, uat_ttb_base), b),
    ensures
        version == FwVersion::V12_3 ==> {
            &&& b.scalars.num_pstates matches Some(n) && n == pwr.perf_states@.len()
            &&& b.scalars.min_sram_volt matches Some(mv) && mv * 1000 <= pwr.min_sram_microvolt
                < (mv + 1) * 1000
            &&& b.scalars.unk_ab8 == Some(cfg.unk_ab8)
            &&& b.scalars.unk_abc == Some(cfg.unk_abc)
            &&& b.scalars.unk_ac0 == Some(0x1020u32)
            &&& b.scalars.unk_0 == Some(0x13_0000_0000u64)
            &&& b.scalars.unk_10 == Some(0x1_0000_0000u64)
            &&& b.scalars.unk_b38_0 is None && b.scalars.unk_b38_4 is None
            &&& b.scalars.unk_c3c is None
            &&& b.scalars.unk_ae4_1 == 0xf
            &&& b.scalars.unk_ae4_2 == b.scalars.unk_ae4_3 == 0x3f
        },
        version == FwVersion::V13_0B4 ==> {
            &&& b.scalars.num_pstates is None && b.scalars.min_sram_volt is None
            &&& b.scalars.unk_ab8 is None && b.scalars.unk_abc is None
            &&& b.scalars.unk_ac0 is None
            &&& b.scalars.unk_0 is None && b.scalars.unk_10 is None
            &&& b.scalars.unk_b38_0 == Some(1u32) && b.scalars.unk_b38_4 == Some(1u32)
            &&& b.scalars.unk_c3c == Some(0x19u32)
            &&& b.scalars.unk_ae4_1 == 3
            &&& b.scalars.unk_ae4_2 == b.scalars.unk_ae4_3 == 7
        },
        b.scalars.unk_8 == 0x14_0000_0000,
        b.scalars.unk_18 == 0xffc0_0000,
        b.scalars.unk_20 == b.scalars.unk_28 == 0x11_0000_0000,
        b.scalars.unk_30 == 0x6f_ffff_8000,
        b.scalars.unkptr_38 == 0xffff_ffa0_1180_0000,
        b.scalars.unk_454 == b.scalars.unk_458 == b.scalars.unk_460 == b.scalars.unk_464
            == b.scalars.unk_468 == b.scalars.unk_47c == b.scalars.unk_484 == b.scalars.unk_48c
            == 1,
        b.scalars.unk_49c == b.scalars.unk_4a0 == b.scalars.unk_4a4 == b.scalars.unk_4f0
            == b.scalars.unk_4f4 == b.scalars.unk_524 == b.scalars.unk_554 == 1,
        b.scalars.unk_b10 == b.scalars.unk_b24 == b.scalars.unk_b28 == b.scalars.unk_b2c == 1,
        b.scalars.unk_4c0 == 0x1f,
        b.scalars.unk_504 == 0x31,
        b.scalars.unk_b38 == u32::MAX,
{
}

/// A performance state keeps its frequency and its voltages; the memory gets the larger of
/// the cluster's voltage and its own minimum; and the power is the whole percentage of the
/// highest power that it reaches.
pub proof fn law_pstates_keep_their_order(
    version: FwVersion,
    cfg: InitConfig,
    pwr: PwrConfig,
    id: GpuIdConfig,
    uat_ttb_base: u64,
    b: HwDataB,
    i: int,
    j: int,
)
    requires
        1 <= pwr.perf_states@.len() <= u32::MAX,
        id.num_frags * id.num_clusters <= u32::MAX,
        id.num_cores * id.num_clusters <= u32::MAX,
        pwr.max_power_mw >= 1,
        0 <= i < pwr.perf_states@.len(),
        call_ensures(hwdata_b, (version, &cfg, &pwr, &id, uat_ttb_base), b),
    ensures
        b.pstates@[i].frequency == pwr.perf_states@[i].freq_mhz,
        b.pstates@[i].voltages@ == pwr.perf_states@[i].volt_mv@,
        b.pstates@[i].voltages_sram@.len() == b.pstates@[i].voltages@.len(),
        0 <= j < b.pstates@[i].voltages@.len() ==> {
            let mv = b.pstates@[i].voltages@[j];
            let sram = b.pstates@[i].voltages_sram@[j];
            &&& sram >= mv
            &&& 1000 * (sram + 1) > pwr.min_sram_microvolt
            &&& sram == mv || 1000 * sram <= pwr.min_sram_microvolt
        },
        b.pstates@[i].sram_k == cfg.sram_k,
        b.pstates@[i].rel_max_power * pwr.max_power_mw <= 100 * pwr.perf_states@[i].pwr_mw
            < (b.pstates@[i].rel_max_power + 1) * pwr.max_power_mw,
        b.pstates@[i].rel_boost_power == b.pstates@[i].rel_max_power,
{
    let m = pwr.max_power_mw as int;
    let p = pwr.perf_states@[i].pwr_mw * 100;
    assert(pstate_is(b.pstates@[i], pwr.perf_states@[i], cfg, pwr));
    assert((p / m) * m <= p < (p / m + 1) * m) by (nonlinear_arith)
        requires
            m >= 1,
    ;
}

/// The global state and the hardware description tell the firmware the same of the
/// machine wherever both speak of it.
pub proof fn law_globals_agree_with_the_description(
    version: FwVersion,
    cfg: InitConfig,
    pwr: PwrConfig,
    num_clusters: u32,
    floats: PowerFloats,
    fault_control: u32,
    a: HwDataA,
    g: Globals,
)
    requires
        pwr_ok(pwr, cfg),
        1 <= num_clusters <= 8,
        call_ensures(hwdata_a, (version, &cfg, &pwr, num_clusters, &floats), a),
        call_ensures(globals, (version, &cfg, &pwr, &floats, fault_control), g),
    ensures
        g.scalars.max_power == g.scalars.max_power_2 == a.scalars.max_power_2,
        g.scalars.max_pstate_scaled == g.scalars.max_pstate_scaled_2
            == g.scalars.max_pstate_scaled_3 == a.scalars.max_pstate_scaled,
        g.scalars.power_zone_count == a.scalars.power_zone_count,
        4 * g.scalars.avg_power_filter_tc_periods == a.scalars.avg_power_filter_tc_periods_x4,
        4 * g.scalars.avg_power_target_filter_tc == a.scalars.avg_power_target_filter_tc_x4,
        g.scalars.avg_power_min_duty_cycle == a.scalars.avg_power_min_duty_cycle,
        g.scalars.avg_power_ki_dt == a.scalars.avg_power_ki_dt,
        g.scalars.avg_power_kp == a.scalars.avg_power_kp,
        g.scalars.fast_die0_release_temp == a.scalars.fast_die0_release_temp_cc,
        g.scalars.fast_die0_prop_tgt_delta == a.scalars.fast_die0_prop_tgt_delta,
        g.scalars.fast_die0_kp == a.scalars.fast_die0_kp,
        g.scalars.fast_die0_ki_dt == a.scalars.fast_die0_ki_dt,
        g.scalars.ppm_kp == a.scalars.ppm_kp,
        g.scalars.ppm_ki_dt == a.scalars.ppm_ki_dt,
        g.scalars.unk_89bc == a.scalars.unk_8cc,
        g.scalars.unk_89c4 == a.scalars.unk_87c,
        g.hws1.table@ == a.hws1.table@,
        g.hws1.unk_40 == a.hws1.unk_40,
        g.hws1.unk_a4 == a.hws1.unk_a4,
        g.hws2.table@ == a.hws2.table@,
        g.hws2.unk_28 == a.hws2.unk_28,
        g.hws2.unk_508 == a.hws2.unk_508,
        g.power_zones@.len() == a.power_zones@.len(),
        forall|i: int|
            0 <= i < a.power_zones@.len() ==> {
                &&& (#[trigger] g.power_zones@[i]).target == a.power_zones@[i].target
                &&& g.power_zones@[i].target_off == a.power_zones@[i].target_off
                &&& 4 * g.power_zones@[i].filter_tc == a.power_zones@[i].filter_tc_x4
            },
{
}

/// What the global state says of the machine and of how faults are handled.
pub proof fn law_globals_hold_the_machine(
    version: FwVersion,
    cfg: InitConfig,
    pwr: PwrConfig,
    floats: PowerFloats,
    fault_control: u32,
    g: Globals,
)
    requires
        globals_ok(pwr),
        call_ensures(globals, (version, &cfg, &pwr, &floats, fault_control), g),
    ensures
        g.scalars.fault_control == fault_control,
        g.scalars.max_power == g.scalars.max_power_2 == pwr.max_power_mw,
        g.scalars.max_pstate_scaled == 100 * pwr.perf_max_pstate,
        g.scalars.power_zone_count == pwr.power_zones@.len(),
        g.scalars.avg_power_filter_tc_periods * pwr.power_sample_period
            <= pwr.avg_power_filter_tc_ms < (g.scalars.avg_power_filter_tc_periods + 1)
            * pwr.power_sample_period,
        g.scalars.avg_power_target_filter_tc == pwr.avg_power_target_filter_tc,
        g.scalars.avg_power_min_duty_cycle == pwr.avg_power_min_duty_cycle,
        g.scalars.avg_power_kp == pwr.avg_power_kp,
        g.scalars.fast_die0_kp == pwr.fast_die0_proportional_gain,
        g.scalars.ppm_kp == pwr.ppm_kp,
        g.scalars.avg_power_ki_dt == floats.avg_power_ki_dt,
        g.scalars.fast_die0_ki_dt == floats.fast_die0_ki_dt,
        g.scalars.ppm_ki_dt == floats.ppm_ki_dt,
        g.scalars.fast_die0_release_temp == 100 * pwr.fast_die0_release_temp,
        g.scalars.fast_die0_prop_tgt_delta == 100 * pwr.fast_die0_prop_tgt_delta,
        g.scalars.unk_89bc == cfg.unk_8cc,
        g.scalars.unk_89c4 == cfg.unk_87c,
        g.scalars.idle_off_delay_ms == pwr.idle_off_delay_ms,
        g.scalars.fender_idle_off_delay_ms == pwr.fender_idle_off_delay_ms,
        g.scalars.fw_early_wake_timeout_ms == pwr.fw_early_wake_timeout_ms,
        g.scalars.unk_118e8 == 1 <==> cfg.global_tab is Some,
        g.scalars.unk_118e8 <= 1,
        cfg.global_tab matches Some(tab) ==> g.unk_118ec@ == tab@,
        cfg.global_tab is None ==> g.unk_118ec@.len() == 0,
        g.scalars.do_init == 1,
{
    let t = pwr.power_sample_period as int;
    let v = pwr.avg_power_filter_tc_ms as int;
    assert((v / t) * t <= v < (v / t + 1) * t) by (nonlinear_arith)
        requires
            t >= 1,
    ;
}

/// The fixed numbers of the global state, and those that only newer firmware has.
pub proof fn law_globals_fit_the_firmware(
    version: FwVersion,
    cfg: InitConfig,
    pwr: PwrConfig,
    floats: PowerFloats,
    fault_control: u32,
    g: Globals,
)
    requires
        globals_ok(pwr),
        call_ensures(globals, (version, &cfg, &pwr, &floats, fault_control), g),
    ensures
        version == FwVersion::V12_3 ==> {
            &&& g.scalars.unk_89f4_8 is None && g.scalars.unk_9010_0 is None
            &&& g.scalars.unk_903c == 0
            &&& g.scalars.unk_1102c_0 is None && g.scalars.unk_1102c_4 is None
            &&& g.scalars.unk_1102c_8 is None && g.scalars.unk_1102c_c is None
            &&& g.scalars.unk_118e4_0 is None
            &&& g.scalars.unk_11edc is None && g.scalars.unk_11efc is None
        },
        version == FwVersion::V13_0B4 ==> {
            &&& g.scalars.unk_89f4_8 == Some(1u32) && g.scalars.unk_9010_0 == Some(1u32)
            &&& g.scalars.unk_903c == 1
            &&& g.scalars.unk_1102c_0 == Some(1u32) && g.scalars.unk_1102c_4 == Some(1u32)
            &&& g.scalars.unk_1102c_8 == Some(100u32) && g.scalars.unk_1102c_c == Some(1u32)
            &&& g.scalars.unk_118e4_0 == Some(50u32)
            &&& g.scalars.unk_11edc == Some(8u32) && g.scalars.unk_11efc == Some(8u32)
        },
        g.scalars.unk_28 == g.scalars.unk_2c == g.scalars.sub_unk_5e == g.scalars.sub_unk_66
            == g.scalars.unk_8900 == g.scalars.unk_89e0 == g.scalars.unk_900c == 1,
        g.scalars.unk_34 == 120,
        g.scalars.sub_unk_54 == g.scalars.sub_unk_58 == u16::MAX,
        g.scalars.sub_unk_56 == g.scalars.unk_11020 == g.scalars.unk_118e0 == 40,
        g.scalars.unk_11024 == 10,
        g.scalars.unk_11028 == 250,
{
}

/// The firmware finds each buffer where it was put: two sets of pointers are the same
/// only if all the buffers are.
pub proof fn law_buffers_are_found_again(
    b: RuntimeBuffers,
    c: RuntimeBuffers,
    p: RuntimePointers,
    q: RuntimePointers,
)
    requires
        call_ensures(runtime_pointers, (&b,), p),
        call_ensures(runtime_pointers, (&c,), q),
    ensures
        p.stats_vtx == b.stats_vtx && p.stats_frag == b.stats_frag && p.stats_comp == b.stats_comp,
        p.hwdata_a == b.hwdata_a,
        p.hwdata_b == p.hwdata_b_2 == b.hwdata_b,
        p.unkptr_190 == b.unkptr_190 && p.unkptr_198 == b.unkptr_198,
        p.fwlog_ring2 == b.fwlog_ring2,
        p.unkptr_1b8 == b.unkptr_1b8 && p.unkptr_1c0 == b.unkptr_1c0,
        p.unkptr_1c8 == b.unkptr_1c8,
        p.buffer_mgr_ctl == p.buffer_mgr_ctl_2 == b.buffer_mgr_ctl,
        p.scratch_unk_6b38 == 0xff,
        p.channels is None && p.pipes@.len() == 0,
        p == (RuntimePointers { pipes: p.pipes, ..q }) ==> b == c,
{
}

/// The page table geometry that the firmware is given: the entries of a level, times the
/// size that each covers, make up what an entry of the level above covers, down to a page.
pub proof fn law_levels_nest(version: FwVersion, uat_oas: u32, parts: InitParts, d: InitData)
    requires
        uat_oas < 64,
        call_ensures(build, (version, uat_oas, parts), d),
    ensures
        d.parts.unk_buf == parts.unk_buf,
        d.parts.runtime_pointers == parts.runtime_pointers,
        d.parts.globals == parts.globals,
        d.parts.fw_status == parts.fw_status,
        d.uat_level_info@.len() == d.uat_num_levels == 3,
        d.uat_page_size == UAT_PGMSK + 1,
        d.uat_page_size == vstd::arithmetic::power2::pow2(d.uat_page_bits as nat),
        d.uat_level_info@[2].index_shift == d.uat_page_bits,
        vstd::arithmetic::power2::pow2(
            (d.uat_level_info@[1].index_shift - d.uat_level_info@[2].index_shift) as nat,
        ) == d.uat_level_info@[2].num_entries,
        vstd::arithmetic::power2::pow2(
            (d.uat_level_info@[0].index_shift - d.uat_level_info@[1].index_shift) as nat,
        ) == d.uat_level_info@[1].num_entries,
        vstd::arithmetic::power2::pow2(d.uat_level_info@[0].index_shift as nat)
            * d.uat_level_info@[0].num_entries == crate::mmu::IOVA_USER_TOP + 1,
        forall|i: int|
            0 <= i < 3 ==> {
                &&& (#[trigger] d.uat_level_info@[i]).unk_1 == d.uat_level_info@[i].unk_2
                    == d.uat_page_bits
                &&& d.uat_level_info@[i].unk_3 == 8
                &&& d.uat_level_info@[i].unk_4 == d.uat_page_size
                &&& d.uat_level_info@[i].unk_8 == 1
                &&& d.uat_level_info@[i].unk_10 & UAT_PGMSK == 0
                &&& uat_oas >= d.uat_page_bits ==> d.uat_level_info@[i].unk_10 + d.uat_page_size
                    == 1u64 << (uat_oas as u64)
                &&& d.uat_level_info@[i].index_mask == (d.uat_level_info@[i].num_entries - 1)
                    * vstd::arithmetic::power2::pow2(d.uat_level_info@[i].index_shift as nat)
            },
        d.ver_info@.len() == 0 <==> version == FwVersion::V12_3,
        version == FwVersion::V13_0B4 ==> d.ver_info@ == seq![1u16, 1, 16, 1],
        d.host_mapped_fw_allocations == 1,
{
    vstd::arithmetic::power2::lemma2_to64();
    vstd::arithmetic::power2::lemma_pow2_adds(32, 4);
    assert(vstd::arithmetic::power2::pow2(36) == 0x10_0000_0000);
    let oas = uat_oas as u64;
    assert({
        &&& 1u64 << oas >= 1
        &&& (((1u64 << oas) - 1) as u64 & !0x3fffu64) & 0x3fff == 0
        &&& oas >= 14 ==> (((1u64 << oas) - 1) as u64 & !0x3fffu64) + 0x4000 == 1u64 << oas
        &&& 7u64 << 36 == 7 * 0x10_0000_0000
        &&& 2047u64 << 25 == 2047 * 0x200_0000
        &&& 2047u64 << 14 == 2047 * 0x4000
    }) by (bit_vector)
        requires
            oas < 64,
    ;
    assert(d.uat_level_info@[0] == level_info(uat_oas, 36, 8));
    assert(d.uat_level_info@[1] == level_info(uat_oas, 25, 2048));
    assert(d.uat_level_info@[2] == level_info(uat_oas, 14, 2048));
}

/// A ring that the driver reads must be shared; the driver never reads a private one.
pub proof fn law_rings_are_shared_to_be_read(rx: bool, r: RingAllocator)
    requires
        call_ensures(make_channel, (rx,), r),
    ensures
        r is Shared <==> rx,
        r is Private <==> !rx,
{
}

/// Each pipe gets its own channel of each kind, in order, and the buffers stay where they
/// are.
pub proof fn law_pipes_get_their_channels(
    p: &mut RuntimePointers,
    channels: SystemChannels,
    vtx: Vec<ChannelRing>,
    frag: Vec<ChannelRing>,
    comp: Vec<ChannelRing>,
    i: int,
)
    requires
        vtx@.len() == frag@.len() == comp@.len(),
        call_ensures(RuntimePointers::set_channels, (p, channels, &vtx, &frag, &comp), ()),
    ensures
        final(p).pipes@.len() == vtx@.len(),
        0 <= i < vtx@.len() ==> {
            &&& final(p).pipes@[i].vtx == vtx@[i]
            &&& final(p).pipes@[i].frag == frag@[i]
            &&& final(p).pipes@[i].comp == comp@[i]
        },
        final(p).channels == Some(channels),
        final(p).hwdata_a == old(p).hwdata_a,
        final(p).hwdata_b == old(p).hwdata_b,
        final(p).hwdata_b_2 == old(p).hwdata_b_2,
        final(p).stats_vtx == old(p).stats_vtx,
        final(p).stats_frag == old(p).stats_frag,
        final(p).stats_comp == old(p).stats_comp,
        final(p).fwlog_ring2 == old(p).fwlog_ring2,
        final(p).buffer_mgr_ctl == old(p).buffer_mgr_ctl,
        final(p).buffer_mgr_ctl_2 == old(p).buffer_mgr_ctl_2,
        final(p).unkptr_190 == old(p).unkptr_190,
        final(p).unkptr_198 == old(p).unkptr_198,
        final(p).unkptr_1b8 == old(p).unkptr_1b8,
        final(p).unkptr_1c0 == old(p).unkptr_1c0,
        final(p).unkptr_1c8 == old(p).unkptr_1c8,
        final(p).scratch_unk_6b38 == old(p).scratch_unk_6b38,
{
}

/// The fragment statistics start without a stamp.
pub proof fn law_statistics_start_without_a_stamp(r: GpuStatsFrag)
    requires
        call_ensures(stats_frag, (), r),
    ensures
        r.cur_stamp_id < 0,
        r.cur_stamp_id == r.unk_118 == -1,
{
}

/// The tables that the description and the global state share are the chip's, and a level's
/// fields follow from its shift and its number of entries.
pub proof fn law_shared_tables_and_levels(
    cfg: InitConfig,
    one: HwDataShared1,
    two: HwDataShared2,
    uat_oas: u32,
    shift: u8,
    entries: u16,
    level: UatLevelInfo,
)
    requires
        uat_oas < 64,
        shift < 64,
        entries >= 1,
        call_ensures(hw_shared1, (&cfg,), one),
        call_ensures(hw_shared2, (&cfg,), two),
        call_ensures(uat_level_info, (uat_oas, shift, entries), level),
    ensures
        one.table@ == cfg.shared1_tab@ && one.unk_40 == 0xffff && one.unk_a4 == 0xffff,
        two.table@ == cfg.shared2_tab@ && two.unk_28 == 0xff,
        two.unk_508 == cfg.shared2_unk_508,
        level.index_shift == shift,
        level.num_entries == entries,
        level.unk_1 == level.unk_2 == 14,
        level.unk_3 == 8,
        level.unk_4 == 0x4000,
        level.unk_8 == 1,
        (entries - 1) * vstd::arithmetic::power2::pow2(shift as nat) <= u64::MAX
            ==> level.index_mask == (entries - 1) * vstd::arithmetic::power2::pow2(shift as nat),
{
    if (entries - 1) * vstd::arithmetic::power2::pow2(shift as nat) <= u64::MAX {
        vstd::bits::lemma_u64_shl_is_mul((entries - 1) as u64, shift as u64);
    }
}

/// The settings of the chip and of newer firmware are those that the description holds.
pub proof fn law_extra_settings(
    version: FwVersion,
    cfg: InitConfig,
    pwr: PwrConfig,
    num_clusters: u32,
    floats: PowerFloats,
    a: HwDataA,
    t: T8103Data,
    e: HwDataA130Extra,
)
    requires
        pwr_ok(pwr, cfg),
        1 <= num_clusters <= 8,
        call_ensures(hwdata_a, (version, &cfg, &pwr, num_clusters, &floats), a),
        call_ensures(t8103_data, (), t),
        call_ensures(hw_data_a_extra, (), e),
    ensures
        a.scalars.t8103_data is Some ==> a.scalars.t8103_data->0 == t,
        a.scalars.unk_e10_0 is Some ==> a.scalars.unk_e10_0->0 == e,
{
}

} // verus!
