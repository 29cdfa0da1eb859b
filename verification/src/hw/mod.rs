//! Hardware configuration.
use vstd::prelude::*;

pub mod t8103;

verus! {

/// The bits of a 32-bit floating point number.
#[derive(Copy, Clone, Debug, PartialEq, Eq, Structural)]
pub struct F32(pub u32);

#[derive(Copy, Clone, Debug, PartialEq, Eq, Structural)]
pub enum GpuGen {
    G13,
    G14,
}

#[derive(Copy, Clone, Debug, PartialEq, Eq, Structural)]
pub enum GpuVariant {
    P,
    G,
    S,
    C,
    D,
}

#[derive(Copy, Clone, Debug, PartialEq, Eq, Structural)]
pub enum GpuRevision {
    A0,
    A1,
    B0,
    B1,
    C0,
    C1,
}

/// What the identification registers say of a GPU.
#[derive(Debug)]
pub struct GpuIdConfig {
    pub gpu_gen: GpuGen,
    pub gpu_variant: GpuVariant,
    pub gpu_rev: GpuRevision,
    pub max_dies: u32,
    pub num_clusters: u32,
    /// The cores of each cluster, whether they work or not.
    pub num_cores: u32,
    /// The cores that work.
    pub num_active_cores: u32,
    pub num_frags: u32,
    pub num_gps: u32,
    /// Which cores of each cluster work.
    pub core_masks: Vec<u32>,
    /// The same for all clusters, in as many words as are needed.
    pub core_masks_packed: Vec<u32>,
}

/// A performance state.
#[derive(Copy, Clone, Debug, PartialEq, Eq, Structural)]
pub struct PState {
    /// In microvolts.
    pub voltage: u32,
    /// In hertz.
    pub frequency: u32,
    /// In milliwatts.
    pub max_power: u32,
}

/// Device registers that the firmware uses.
#[derive(Copy, Clone, Debug, PartialEq, Eq, Structural)]
pub struct IOMapping {
    pub base: u64,
    pub size: u64,
    pub range_size: u64,
    pub writable: bool,
}

impl IOMapping {
    pub fn new(base: u64, size: u64, range_size: u64, writable: bool) -> (r: IOMapping)
        ensures
            r == (IOMapping { base, size, range_size, writable }),
    {
        IOMapping { base, size, range_size, writable }
    }
}

/// What is fixed for a chip.
#[derive(Debug)]
pub struct HwConfig {
    pub chip_id: u32,
    /// In millivolts.
    pub min_volt: u32,
    pub k: F32,
    pub io_mappings: Vec<Option<IOMapping>>,
}

/// What is found out about a machine.
#[derive(Debug)]
pub struct HwDynConfig {
    pub uat_ttb_base: u64,
    pub perf_states: Vec<PState>,
}

} // verus!
