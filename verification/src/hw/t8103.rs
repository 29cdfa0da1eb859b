//! Hardware configuration of the t8103.
use super::{HwConfig, IOMapping, F32};
use vstd::prelude::*;

verus! {

pub const CHIP_ID: u32 = 0x8103;

/// In millivolts.
pub const MIN_VOLT: u32 = 850;

/// The bits of 1.02.
pub const K: u32 = 0x3f82_8f5c;

pub const NUM_IO_MAPPINGS: usize = 20;

/// The registers by their place in the firmware's list.
pub open spec fn io_mapping(i: int) -> Option<IOMapping> {
    if i == 0 {
        Some(IOMapping { base: 0x2_04d0_0000, size: 0x1c000, range_size: 0x1c000, writable: true })
    } else if i == 1 {
        Some(IOMapping { base: 0x2_0e10_0000, size: 0x4000, range_size: 0x4000, writable: false })
    } else if i == 2 {
        Some(IOMapping { base: 0x2_3b10_4000, size: 0x4000, range_size: 0x4000, writable: true })
    } else if i == 3 {
        Some(IOMapping { base: 0x2_0400_0000, size: 0x20000, range_size: 0x20000, writable: true })
    } else if i == 7 {
        Some(IOMapping { base: 0x2_3b2e_8000, size: 0x1000, range_size: 0x1000, writable: false })
    } else if i == 8 {
        Some(IOMapping { base: 0x2_3bc0_0000, size: 0x1000, range_size: 0x1000, writable: true })
    } else if i == 9 {
        Some(IOMapping { base: 0x2_04d8_0000, size: 0x5000, range_size: 0x5000, writable: true })
    } else if i == 10 {
        Some(IOMapping { base: 0x2_04d6_1000, size: 0x1000, range_size: 0x1000, writable: true })
    } else if i == 11 {
        Some(IOMapping { base: 0x2_0000_0000, size: 0xd6400, range_size: 0xd6400, writable: true })
    } else if i == 13 {
        Some(IOMapping { base: 0x2_3b73_8000, size: 0x1000, range_size: 0x1000, writable: true })
    } else {
        None
    }
}

pub fn hwconfig() -> (r: HwConfig)
    ensures
        r.chip_id == CHIP_ID,
        r.min_volt == MIN_VOLT,
        r.k == F32(K),
        r.io_mappings@ == Seq::new(NUM_IO_MAPPINGS as nat, |i: int| io_mapping(i)),
{
    let mut v: Vec<Option<IOMapping>> = Vec::new();
    // Fender
    v.push(Some(IOMapping::new(0x2_04d0_0000, 0x1c000, 0x1c000, true)));
    // AICTimer
    v.push(Some(IOMapping::new(0x2_0e10_0000, 0x4000, 0x4000, false)));
    // AICSWInt
    v.push(Some(IOMapping::new(0x2_3b10_4000, 0x4000, 0x4000, true)));
    // RGX
    v.push(Some(IOMapping::new(0x2_0400_0000, 0x20000, 0x20000, true)));
    // UVD, unused, DisplayUnderrunWA
    v.push(None);
    v.push(None);
    v.push(None);
    // AnalogTempSensorControllerRegs
    v.push(Some(IOMapping::new(0x2_3b2e_8000, 0x1000, 0x1000, false)));
    // PMPDoorbell
    v.push(Some(IOMapping::new(0x2_3bc0_0000, 0x1000, 0x1000, true)));
    // MetrologySensorRegs
    v.push(Some(IOMapping::new(0x2_04d8_0000, 0x5000, 0x5000, true)));
    // GMGIFAFRegs
    v.push(Some(IOMapping::new(0x2_04d6_1000, 0x1000, 0x1000, true)));
    // MCache registers
    v.push(Some(IOMapping::new(0x2_0000_0000, 0xd6400, 0xd6400, true)));
    // AICBankedRegisters
    v.push(None);
    // PMGRScratch
    v.push(Some(IOMapping::new(0x2_3b73_8000, 0x1000, 0x1000, true)));
    // NIA special agent idle registers of both dies, CRE and streaming codec registers,
    // and two that have no name
    v.push(None);
    v.push(None);
    v.push(None);
    v.push(None);
    v.push(None);
    v.push(None);
    assert(v@ =~= Seq::new(NUM_IO_MAPPINGS as nat, |i: int| io_mapping(i)));
    HwConfig { chip_id: CHIP_ID, min_volt: MIN_VOLT, k: F32(K), io_mappings: v }
}

/// The registers of the chip that the firmware uses, each in its place of the firmware's
/// list and mapped over its whole range; the other places are empty.
pub proof fn law_registers_of_the_chip(r: HwConfig, i: u64)
    requires
        call_ensures(hwconfig, (), r),
    ensures
        r.chip_id == 0x8103,
        r.min_volt == 850,
        r.k == F32(0x3f82_8f5c),
        r.io_mappings@.len() == 20,
        0 <= i < 20 ==> {
            &&& r.io_mappings@[i as int] is None <==> 4 <= i <= 6 || i == 12 || i >= 14
            &&& r.io_mappings@[i as int] matches Some(map) ==> {
                &&& map.range_size == map.size
                &&& map.writable <==> i != 1 && i != 7
                &&& map.base == match i {
                    0 => 0x2_04d0_0000int,
                    1 => 0x2_0e10_0000,
                    2 => 0x2_3b10_4000,
                    3 => 0x2_0400_0000,
                    7 => 0x2_3b2e_8000,
                    8 => 0x2_3bc0_0000,
                    9 => 0x2_04d8_0000,
                    10 => 0x2_04d6_1000,
                    11 => 0x2_0000_0000,
                    _ => 0x2_3b73_8000,
                }
                &&& map.size == match i {
                    0 => 0x1c000int,
                    1 => 0x4000,
                    2 => 0x4000,
                    3 => 0x20000,
                    9 => 0x5000,
                    11 => 0xd6400,
                    _ => 0x1000,
                }
            }
        },
{
}

/// A range of registers is described as it was given.
pub proof fn law_register_range(base: u64, size: u64, range_size: u64, writable: bool, r: IOMapping)
    requires
        call_ensures(IOMapping::new, (base, size, range_size, writable), r),
    ensures
        r.base == base,
        r.size == size,
        r.range_size == range_size,
        r.writable == writable,
{
}

} // verus!
