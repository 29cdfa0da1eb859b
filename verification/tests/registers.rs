use asahi::error::Error;
use asahi::hw::{t8103, GpuGen, GpuRevision, GpuVariant, IOMapping, F32};
use asahi::regs::{
    get_fault_info, start_cpu, FaultInfo, FaultReason, FaultUnit, IdRegisters, CPU_RUN,
};

/// The registers of a GPU with one cluster of eight cores, of which seven work.
fn small() -> IdRegisters {
    IdRegisters {
        id_version: 0x0402_0000,
        id_counts_1: 0x0108,
        id_counts_2: 0x0003_0000,
        id_unk18: 0x0300,
        id_clusters: 0x0010_1000,
        core_mask_0: 0x7f,
        core_mask_1: 0,
    }
}

/// Four clusters of ten cores each, all working.
fn large() -> IdRegisters {
    IdRegisters {
        id_version: 0x0404_0000,
        id_counts_1: 0x020a,
        id_counts_2: 0x0004_0000,
        id_unk18: 0x0500,
        id_clusters: 0x0020_4000,
        core_mask_0: 0xffff_ffff,
        core_mask_1: 0xff,
    }
}

fn error_of(regs: IdRegisters) -> Option<Error> {
    match regs.get_gpu_id() {
        Ok(_) => None,
        Err(e) => Some(e),
    }
}

#[test]
fn starting_keeps_the_other_control_bits() {
    assert_eq!(CPU_RUN, 0x10);
    assert_eq!(start_cpu(0), 0x10);
    assert_eq!(start_cpu(0x8000_0001), 0x8000_0011);
    assert_eq!(start_cpu(0x10), 0x10);
}

#[test]
fn identifies_a_small_gpu() {
    let id = small().get_gpu_id().unwrap();
    assert_eq!(id.gpu_gen, GpuGen::G13);
    assert_eq!(id.gpu_variant, GpuVariant::G);
    assert_eq!(id.gpu_rev, GpuRevision::B1);
    assert_eq!(id.max_dies, 1);
    assert_eq!(id.num_clusters, 1);
    assert_eq!(id.num_cores, 8);
    assert_eq!(id.num_active_cores, 7);
    assert_eq!(id.num_frags, 1);
    assert_eq!(id.num_gps, 3);
    assert_eq!(id.core_masks, vec![0x7f]);
    assert_eq!(id.core_masks_packed, vec![0x7f]);
}

#[test]
fn identifies_a_large_gpu() {
    let id = large().get_gpu_id().unwrap();
    assert_eq!(id.gpu_variant, GpuVariant::C);
    assert_eq!(id.gpu_rev, GpuRevision::C1);
    assert_eq!(id.max_dies, 2);
    assert_eq!(id.num_active_cores, 40);
    assert_eq!(id.core_masks, vec![0x3ff, 0x3ff, 0x3ff, 0x3ff]);
    assert_eq!(id.core_masks_packed, vec![0xffff_ffff, 0xff]);
}

#[test]
fn the_cluster_count_tells_two_variants_apart() {
    let mut regs = large();
    regs.id_clusters = 0x0020_5000;
    assert_eq!(regs.get_gpu_id().unwrap().gpu_variant, GpuVariant::D);
    regs.id_version = 0x0503_0000;
    let id = regs.get_gpu_id().unwrap();
    assert_eq!(id.gpu_gen, GpuGen::G14);
    assert_eq!(id.gpu_variant, GpuVariant::S);
}

#[test]
fn cluster_masks_make_up_the_core_mask() {
    let mut regs = large();
    regs.core_mask_0 = 0x1234_5678;
    regs.core_mask_1 = 0x9a;
    let id = regs.get_gpu_id().unwrap();
    let mut whole: u64 = 0;
    for (i, mask) in id.core_masks.iter().enumerate() {
        whole |= (*mask as u64) << (10 * i);
    }
    assert_eq!(whole, 0x9a_1234_5678);
    assert_eq!(id.num_active_cores, whole.count_ones());
    assert!(id.num_active_cores <= 4 * 10);
}

#[test]
fn too_many_cores_are_refused_first() {
    let mut regs = large();
    regs.id_counts_1 = 0x20;
    regs.id_clusters = 0x3000;
    regs.core_mask_1 = 0xffff_ffff;
    regs.id_version = 0;
    assert_eq!(error_of(regs), Some(Error::ENODEV));
}

#[test]
fn a_leftover_mask_is_an_error() {
    let mut regs = small();
    regs.core_mask_0 = 0x1ff;
    assert_eq!(error_of(regs), Some(Error::EIO));
    regs.id_version = 0;
    assert_eq!(error_of(regs), Some(Error::EIO));
    let mut none = small();
    none.id_clusters = 0;
    assert_eq!(error_of(none), Some(Error::EIO));
    none.core_mask_0 = 0;
    let id = none.get_gpu_id().unwrap();
    assert_eq!(id.num_active_cores, 0);
    assert_eq!(id.core_masks, Vec::<u32>::new());
    assert_eq!(id.core_masks_packed, vec![0]);
}

#[test]
fn unknown_kinds_are_refused() {
    let mut regs = small();
    regs.id_version = 0x0302_0000;
    assert_eq!(error_of(regs), Some(Error::ENODEV));
    regs = small();
    regs.id_version = 0x0405_0000;
    assert_eq!(error_of(regs), Some(Error::ENODEV));
    regs = small();
    regs.id_unk18 = 0x0600;
    assert_eq!(error_of(regs), Some(Error::ENODEV));
}

#[test]
fn decodes_a_fault() {
    assert_eq!(get_fault_info(0), None);
    assert_eq!(get_fault_info(0xffff_ffff_ffff_fffe), None);
    let value: u64 = (0x12_3456_7890 << 24) | (1 << 23) | (0x3e << 17) | (0x24 << 9) | (3 << 1) | 1;
    assert_eq!(
        get_fault_info(value),
        Some(FaultInfo {
            address: 0x12_3456_7890,
            write: true,
            vm_slot: 0x3e,
            unit: FaultUnit::IAP(2),
            unk_8: false,
            reason: FaultReason::ReadOnly,
        })
    );
    let info = get_fault_info((0xf5 << 9) | (1 << 8) | (6 << 1) | 1).unwrap();
    assert_eq!(info.unit, FaultUnit::gVDM_MMB_SP(1));
    assert!(info.unk_8);
    assert!(!info.write);
    assert_eq!(info.reason, FaultReason::Unknown(6));
}

#[test]
fn every_kind_of_unit_is_told_apart() {
    let unit = |code: u64| get_fault_info((code << 9) | 1).unwrap().unit;
    assert_eq!(unit(0x00), FaultUnit::DCMP(0));
    assert_eq!(unit(0x9b), FaultUnit::IPF_CPF(9));
    assert_eq!(unit(0x1d), FaultUnit::VF_CPF(1));
    assert_eq!(unit(0x1e), FaultUnit::VF_CPF(1));
    assert_eq!(unit(0x1f), FaultUnit::Unknown(0x1f));
    assert_eq!(unit(0xa0), FaultUnit::Unknown(0xa0));
    assert_eq!(unit(0xa1), FaultUnit::dPM);
    assert_eq!(unit(0xa4), FaultUnit::dCDM_KS(2));
    assert_eq!(unit(0xac), FaultUnit::dRDE(1));
    assert_eq!(unit(0xae), FaultUnit::GSL2);
    assert_eq!(unit(0xaf), FaultUnit::Unknown(0xaf));
    assert_eq!(unit(0xb0), FaultUnit::GL2CC_META(0));
    assert_eq!(unit(0xb7), FaultUnit::GL2CC_META(7));
    assert_eq!(unit(0xb8), FaultUnit::GL2CC_MB);
    assert_eq!(unit(0xb9), FaultUnit::Unknown(0xb9));
    assert_eq!(unit(0xdf), FaultUnit::Unknown(0xdf));
    assert_eq!(unit(0xe0), FaultUnit::gPM_SP(0));
    assert_eq!(unit(0xff), FaultUnit::gRDE1_SP(1));
}

#[test]
fn the_chip_has_its_registers() {
    let cfg = t8103::hwconfig();
    assert_eq!(cfg.chip_id, 0x8103);
    assert_eq!(cfg.min_volt, 850);
    assert_eq!(cfg.k, F32(1.02f32.to_bits()));
    assert_eq!(cfg.io_mappings.len(), 20);
    assert_eq!(cfg.io_mappings.iter().flatten().count(), 10);
    assert_eq!(cfg.io_mappings[0], Some(IOMapping::new(0x204d00000, 0x1c000, 0x1c000, true)));
    assert_eq!(cfg.io_mappings[1], Some(IOMapping::new(0x20e100000, 0x4000, 0x4000, false)));
    assert_eq!(cfg.io_mappings[4], None);
    assert_eq!(cfg.io_mappings[7], Some(IOMapping::new(0x23b2e8000, 0x1000, 0x1000, false)));
    assert_eq!(cfg.io_mappings[11], Some(IOMapping::new(0x200000000, 0xd6400, 0xd6400, true)));
    assert_eq!(cfg.io_mappings[13], Some(IOMapping::new(0x23b738000, 0x1000, 0x1000, true)));
}
