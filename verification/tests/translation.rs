use asahi::drm::gem::shmem::{SGEntry, SGTable};
use asahi::drm::mm::InsertMode;
use asahi::error::Error;
use asahi::io_pgtable::FlushOps;
use asahi::mmu::{
    io_prot, map_in_range_request, map_io, map_node, map_prot, map_region, map_request, mapped_region,
    FlushInfo, FwCtlMsg, Handoff, Inspection, LockState, Mapping, PageRun, RegionInfo, TlbRange, Uat,
    UatBase, UnmapStep, Vm, VmBind, HANDOFF_SIZE, KERNEL_PTE_INDEX, PPL_MAGIC, PROT_FW_MMIO_RO,
    PROT_FW_MMIO_RW, PROT_FW_PRIV_RW, PROT_FW_SHARED_RW, PROT_GPU_SHARED_RW, SLOTS_SIZE,
    UAT_NUM_CTX,
};

fn base() -> UatBase {
    UatBase { ttbs: 0x1000, pagetables: 0x8_0000, lower_ttb: 0xc_0000, kernel_ttb: 0x10_0000 }
}

fn user(id: u64) -> Vm {
    Vm::new(false, id, 0x4000 * (id + 1))
}

fn nothing() -> Inspection {
    Inspection { cur_slot: None, ttb_cur: 0 }
}

#[test]
fn address_spaces() {
    let k = Vm::new(true, 7, 0x9000);
    assert_eq!((k.id(), k.ttb(), k.slot()), (7, 0x9000, Some(0)));
    assert_eq!(k.mm_size(), 0x10_0000_0000);
    let u = user(2);
    assert_eq!((u.id(), u.ttb(), u.slot()), (2, 0xc000, None));
    assert_eq!(u.mm_size(), 0x7f_ffff_c000);
    let c = Vm::config(true);
    assert_eq!((c.ias, c.oas, c.pgsize_bitmap, c.quirks, c.coherent_walk), (36, 36, 0x4000, 0, true));
    assert_eq!(Vm::config(false).ias, 39);
}

#[test]
fn addresses_are_checked() {
    let k = Vm::new(true, 0, 0);
    assert_eq!(k.map_iova(0xffff_ffa0_0000_4000, 0x4000), Ok(0x4000));
    assert_eq!(k.map_iova(0xffff_ffaf_ffff_c000, 0x4000), Ok(0xf_ffff_c000));
    assert_eq!(k.map_iova(0xffff_ffaf_ffff_c000, 0x4001), Err(Error::EINVAL));
    assert_eq!(k.map_iova(0xffff_ff9f_ffff_c000, 0x4000), Err(Error::EINVAL));
    let u = user(0);
    assert_eq!(u.map_iova(0x4000, 0x4000), Ok(0x4000));
    assert_eq!(u.map_iova(0, u64::MAX), Err(Error::EINVAL));
    assert_eq!(u.map_iova(0x7f_ffff_c000, 0x4000), Ok(0x7f_ffff_c000));
    assert_eq!(u.map_iova(0x7f_ffff_c000, 0x8000), Err(Error::EINVAL));
    assert_eq!(0xffff_ffa0_0000_0000u64 >> 36 & 7, KERNEL_PTE_INDEX as u64);
}

#[test]
fn page_runs_cover_their_range() {
    let u = user(0);
    let mut run = PageRun { iova: 0x8000, paddr: 0x10_0000, pgsize: 0x4000, left: 5, prot: 3 };
    let mut covered = Vec::new();
    for done in [0x4000u64, 0, 0xc000, 0x4000] {
        let request = u.next_pages(&run).unwrap().unwrap();
        assert_eq!(request.pgcount, run.left);
        assert_eq!((request.pgsize, request.prot), (0x4000, 3));
        assert_eq!(request.iova - 0x8000, request.paddr - 0x10_0000);
        covered.push(request.iova);
        run.advance(done);
    }
    assert_eq!(covered, vec![0x8000, 0xc000, 0xc000, 0x1_8000]);
    assert_eq!(u.next_pages(&run), None);
    assert_eq!((run.iova, run.paddr, run.left), (0x1_c000, 0x11_4000, 0));
    let out = PageRun { iova: 0, paddr: 0, pgsize: 0x4000, left: 1, prot: 0 };
    assert_eq!(u.next_pages(&out), Some(Err(Error::EINVAL)));
}

fn table(entries: &[(u64, u64)]) -> SGTable {
    let mut v = Vec::new();
    for (dma_address, dma_len) in entries {
        v.push(SGEntry { dma_address: *dma_address, dma_len: *dma_len });
    }
    SGTable { entries: v }
}

#[test]
fn objects_are_mapped_without_gaps() {
    let t = table(&[(0x10_0000, 0x8000), (0x40_0000, 0x4000)]);
    let plan = map_node(0xc000, Some(&t), 7);
    assert_eq!(plan.result, Ok(()));
    assert_eq!(
        plan.runs,
        vec![
            PageRun { iova: 0xc000, paddr: 0x10_0000, pgsize: 0x4000, left: 2, prot: 7 },
            PageRun { iova: 0x1_4000, paddr: 0x40_0000, pgsize: 0x4000, left: 1, prot: 7 },
        ]
    );
}

#[test]
fn unaligned_objects_are_refused() {
    let plan = map_node(0xc000, Some(&table(&[(0x4000, 0x4000), (0x8001, 0x4000)])), 7);
    assert_eq!(plan.result, Err(Error::EINVAL));
    assert_eq!(plan.runs.len(), 1);
    let plan = map_node(0xc000, Some(&table(&[(0x4000, 0x4001)])), 7);
    assert_eq!((plan.result, plan.runs.len()), (Err(Error::EINVAL), 0));
    let plan = map_node(0xc001, Some(&table(&[(0x4000, 0x4000)])), 7);
    assert_eq!(plan.result, Err(Error::EINVAL));
    let plan = map_node(0xc000, None, 7);
    assert_eq!((plan.result, plan.runs.len()), (Err(Error::EINVAL), 0));
    assert_eq!(map_node(0xc001, Some(&table(&[])), 7).result, Ok(()));
}

#[test]
fn mapping_requests_have_a_guard_page() {
    let r = map_request(0x8000);
    assert_eq!((r.size, r.alignment, r.start, r.end), (0xc000, 0, 0, u64::MAX));
    let r = map_in_range_request(0x4000, 0x80, 0x1000, 0x2000);
    assert_eq!((r.size, r.alignment, r.start, r.end), (0x8000, 0x80, 0x1000, 0x2000));
    assert_eq!((r.color, r.mode), (0, InsertMode::Best));
}

#[test]
fn registers_are_mapped_by_pages() {
    assert_eq!(io_prot(true), 0x37);
    assert_eq!(io_prot(false), 0x35);
    assert_eq!((PROT_FW_MMIO_RW, PROT_FW_MMIO_RO), (0x37, 0x35));
    let run = map_io(0x4000_0000, 0x8000, 0xffff_ffa0_0000_0000, true).unwrap();
    assert_eq!((run.paddr, run.left, run.prot), (0x4000_0000, 2, 0x37));
    assert_eq!(map_io(0x4000_0001, 0x8000, 0, true), Err(Error::EINVAL));
    assert_eq!(map_io(0x4000_0000, 0x8001, 0, true), Err(Error::EINVAL));
    assert_eq!(map_io(0x4000_0000, 0x8000, 1, true), Err(Error::EINVAL));
}

fn mapping(prot: u32) -> Mapping {
    Mapping { start: 0xc000, node_size: 0xc000, prot }
}

#[test]
fn mappings_leave_their_guard_out() {
    let m = mapping(PROT_FW_SHARED_RW);
    assert_eq!((m.iova(), m.size()), (0xc000, 0x8000));
    let run = m.unmap_run();
    assert_eq!((run.iova, run.left, run.pgsize), (0xc000, 2, 0x4000));
    assert_eq!(m.remap_prot(), None);
    assert_eq!(mapping(PROT_FW_PRIV_RW).remap_prot(), Some(PROT_FW_SHARED_RW));
    assert_eq!(
        m.flush_msg(3),
        FwCtlMsg { addr: 0xc000, unk_8: 0, slot: 3, unk_10: 1, unk_12: 2 }
    );
}

fn steps(m: &Mapping, vm: &Vm, seen: Inspection) -> Vec<UnmapStep> {
    let mut all = Vec::new();
    let mut step = m.drop_begin();
    while step != UnmapStep::Done {
        all.push(step);
        step = m.drop_next(vm, step, seen);
    }
    all
}

#[test]
fn uncached_mapping_is_only_unmapped() {
    let m = mapping(PROT_GPU_SHARED_RW);
    assert_eq!(steps(&m, &user(1), nothing()), vec![UnmapStep::Unmap]);
    let k = Vm::new(true, 0, 0);
    let all = steps(&m, &k, nothing());
    assert_eq!(all.len(), 2);
    match all[1] {
        UnmapStep::Invalidate { range } => {
            assert_eq!((range.asid, range.start, range.size), (0, 0xc000, 0x8000))
        }
        _ => panic!(),
    }
}

#[test]
fn cached_kernel_mapping_is_flushed() {
    let k = Vm::new(true, 0, 0);
    let all = steps(&mapping(PROT_FW_PRIV_RW), &k, nothing());
    let range = TlbRange { asid: 0, start: 0xc000, size: 0x8000 };
    assert_eq!(
        all,
        vec![
            UnmapStep::UnmapCached,
            UnmapStep::MapUncached { prot: PROT_FW_SHARED_RW },
            UnmapStep::InvalidateRemapped { range },
            UnmapStep::BeginFlush { slot: 64 },
            UnmapStep::SendFlush { slot: 64 },
            UnmapStep::EndFlush { slot: 64 },
            UnmapStep::Unmap,
            UnmapStep::Invalidate { range },
        ]
    );
}

#[test]
fn cached_user_mapping_is_flushed_through_its_slot() {
    let mut uat = Uat::new(base());
    let mut a = user(5);
    let mut b = user(6);
    let m = mapping(0x3);
    assert_eq!(steps(&m, &a, nothing()).len(), 3);
    let entry = uat.bind(&mut a).unwrap().update.unwrap().entry.ttb0;
    uat.bind(&mut b).unwrap();
    let own = Inspection { cur_slot: Some(1), ttb_cur: entry };
    let all = steps(&m, &a, own);
    let range = TlbRange { asid: 1, start: 0xc000, size: 0x8000 };
    assert_eq!(all[2], UnmapStep::InvalidateRemapped { range });
    assert_eq!(all[3], UnmapStep::Inspect { slot: 1 });
    assert_eq!(all[4], UnmapStep::BeginFlush { slot: 1 });
    assert_eq!(all[8], UnmapStep::Invalidate { range });
    assert_eq!(all.len(), 9);
    let idle = Inspection { cur_slot: None, ttb_cur: entry };
    assert_eq!(steps(&m, &a, idle)[4], UnmapStep::Unmap);
    let lost = Inspection { cur_slot: Some(1), ttb_cur: entry + 0x4000 };
    assert_eq!(steps(&m, &a, lost)[4], UnmapStep::Unmap);
    assert_eq!(Mapping::flush_slot(&b, Some(1), entry), None);
    assert_eq!(Mapping::flush_slot(&a, Some(1), entry), Some(1));
}

#[test]
fn flush_slots_have_states() {
    let mut f = FlushInfo { state: 0, addr: 0, size: 0 };
    assert!(f.begin_flush(0xc000, 0x8000));
    assert_eq!(f, FlushInfo { state: 1, addr: 0xc000, size: 0x8000 });
    assert!(!f.begin_flush(1, 2));
    assert!(!f.end_flush());
    f.state = 2;
    assert!(f.end_flush());
    assert_eq!(f, FlushInfo { state: 0, addr: 1, size: 2 });
}

fn handoff() -> Handoff {
    let mut flush = Vec::new();
    for _ in 0..UAT_NUM_CTX + 1 {
        flush.push(FlushInfo { state: 9, addr: 9, size: 9 });
    }
    Handoff {
        magic_ap: 0,
        magic_fw: 0,
        lock_ap: 0,
        lock_fw: 0,
        turn: 0,
        cur_slot: 5,
        flush,
        unk3: 7,
    }
}

#[test]
fn free_lock_is_taken_at_once() {
    let mut h = handoff();
    let s = h.lock_step(LockState::Idle);
    assert_eq!((s, h.lock_ap), (LockState::Wanting, 1));
    assert_eq!(h.lock_step(s), LockState::Locked);
    assert_eq!(h.lock_step(LockState::Locked), LockState::Locked);
    h.unlock();
    assert_eq!((h.lock_ap, h.turn), (0, 1));
}

#[test]
fn contended_lock_goes_by_the_turn() {
    let mut h = handoff();
    h.lock_fw = 1;
    h.turn = 1;
    let s = h.lock_step(LockState::Idle);
    let s = h.lock_step(s);
    assert_eq!(s, LockState::Contending);
    let s = h.lock_step(s);
    assert_eq!((s, h.lock_ap), (LockState::Yielding, 0));
    let s = h.lock_step(s);
    assert_eq!(s, LockState::Yielding);
    h.turn = 0;
    let s = h.lock_step(s);
    assert_eq!((s, h.lock_ap), (LockState::Wanting, 1));
    let s = h.lock_step(s);
    assert_eq!(s, LockState::Contending);
    let s = h.lock_step(s);
    assert_eq!((s, h.lock_ap), (LockState::Wanting, 1));
    h.lock_fw = 0;
    assert_eq!(h.lock_step(s), LockState::Locked);
}

#[test]
fn handoff_is_initialized() {
    let mut h = handoff();
    assert_eq!(h.current_slot(), Some(5));
    h.init_begin();
    assert_eq!((h.magic_ap, h.cur_slot, h.unk3), (PPL_MAGIC, 0, 0));
    assert_eq!(h.current_slot(), None);
    h.cur_slot = u32::MAX;
    assert_eq!(h.current_slot(), None);
    assert!(!h.fw_ready());
    h.magic_fw = PPL_MAGIC;
    assert!(h.fw_ready());
    h.init_end();
    assert_eq!(h.flush.len(), 65);
    assert!(h.flush.iter().all(|f| *f == FlushInfo { state: 0, addr: 0, size: 0 }));
    assert_eq!((HANDOFF_SIZE, SLOTS_SIZE), (0x648, 0x400));
}

#[test]
fn kernel_tables_are_set_up() {
    let uat = Uat::new(base());
    assert_eq!(uat.context_table_base(), 0x1000);
    let ttbs = uat.init_ttbs();
    assert_eq!(ttbs.len(), 64);
    assert_eq!((ttbs[0].ttb0, ttbs[0].ttb1), (0xc_0001, 0x8_0001));
    assert!(ttbs[1..].iter().all(|t| t.ttb0 == 0 && t.ttb1 == 0));
    assert_eq!(uat.kernel_pte(), 0x10_0003);
    assert!(uat.kernel_vm().is_kernel);
    assert_eq!((uat.kernel_vm().id(), uat.kernel_vm().ttb()), (0, 0x10_0000));
    let vm = uat.new_vm(9, 0x5000);
    assert_eq!((vm.id(), vm.ttb(), vm.is_kernel), (9, 0x5000, false));
}

#[test]
fn bound_address_space_gets_a_table_entry() {
    let mut uat = Uat::new(base());
    let mut vm = user(3);
    let bound = uat.bind(&mut vm).unwrap();
    assert_eq!(bound.bind, VmBind { vm_id: 3, slot: 1 });
    assert_eq!(bound.bind.slot(), 1);
    let update = bound.update.unwrap();
    assert_eq!((update.index, update.asid), (1, 1));
    assert_eq!((update.entry.ttb0, update.entry.ttb1), (0x1_0000_0001_0001, 0));
    assert_eq!(vm.slot(), Some(1));

    let again = uat.bind(&mut vm).unwrap();
    assert_eq!((again.bind.slot, again.update), (1, None));
    let copy = Uat::clone_bind(&mut vm, &again.bind);
    assert_eq!(copy, again.bind);
    assert_eq!(vm.active_users, 3);
    assert!(!uat.unbind(&mut vm));
    assert!(!uat.unbind(&mut vm));
    assert!(uat.unbind(&mut vm));
    assert!(vm.binding.is_none());
    assert_eq!(uat.bind(&mut vm).unwrap().update, None);
}

#[test]
fn lost_slot_is_written_again() {
    let mut uat = Uat::new(base());
    let mut first = user(0);
    uat.bind(&mut first).unwrap();
    uat.unbind(&mut first);
    let mut others = Vec::new();
    for i in 1..=63 {
        let mut vm = user(i);
        assert!(uat.bind(&mut vm).unwrap().update.is_some());
        others.push(vm);
    }
    assert!(uat.bind(&mut first).is_none());
    assert_eq!(first.active_users, 0);
    assert!(uat.unbind(&mut others[4]));
    let bound = uat.bind(&mut first).unwrap();
    assert_eq!(bound.update.unwrap().index, bound.bind.slot);
}

#[test]
fn dropped_address_space_clears_its_entry() {
    let mut uat = Uat::new(base());
    assert_eq!(user(1).drop_vm(None, 0), None);
    let mut vm = user(1);
    let entry = uat.bind(&mut vm).unwrap().update.unwrap().entry.ttb0;
    uat.unbind(&mut vm);
    assert_eq!(vm.drop_index(), Some(1));
    let d = vm.drop_vm(Some(1), entry).unwrap();
    assert_eq!((d.index, d.clear, d.in_use), (1, true, true));
    let mut vm = user(1);
    uat.bind(&mut vm).unwrap();
    uat.unbind(&mut vm);
    let d = vm.drop_vm(Some(1), 0).unwrap();
    assert_eq!((d.clear, d.in_use), (false, false));
}

#[test]
fn page_table_callbacks_do_nothing() {
    Uat::tlb_flush_all(&());
    Uat::tlb_flush_walk(&(), 0, 0, 0);
    Uat::tlb_add_page(&(), 0, 0);
}

#[test]
fn regions_have_to_be_large_enough() {
    let info = RegionInfo { index: 0, present: true, code: 0, start: 0x1000, size: 0x648 };
    let r = map_region(&info, 0x648, false).unwrap();
    assert_eq!((r.start, r.size, r.cached), (0x1000, 0x648, false));
    let mapped = mapped_region(&r, Some(0x77)).unwrap();
    assert_eq!((mapped.base, mapped.size, mapped.map), (0x1000, 0x648, 0x77));
    assert_eq!(mapped_region(&r, None), Err(Error::ENOMEM));
    assert_eq!(map_region(&info, 0x649, false), Err(Error::ENOMEM));
    let e = map_region(&RegionInfo { index: -61, ..info }, 1, true);
    assert_eq!(e, Err(Error::Other(-61)));
    let e = map_region(&RegionInfo { present: false, ..info }, 1, true);
    assert_eq!(e, Err(Error::EINVAL));
    let e = map_region(&RegionInfo { code: -19, ..info }, 1, true);
    assert_eq!(e, Err(Error::ENODEV));
}

#[test]
fn plain_mappings_are_shared() {
    assert_eq!(map_prot(), PROT_FW_SHARED_RW);
}

#[test]
fn bound_spaces_have_slots_of_their_own() {
    let mut uat = Uat::new(base());
    let mut table = vec![0u64; UAT_NUM_CTX];
    let mut spaces: Vec<Vm> = (1..=70).map(user).collect();
    let mut bound: Vec<usize> = Vec::new();
    for round in 0..200 {
        let index = (round * 37) % 70;
        match uat.bind(&mut spaces[index]) {
            Some(made) => {
                let slot = made.bind.slot();
                assert!((1..=63).contains(&slot));
                if let Some(update) = made.update {
                    assert_eq!((update.index, update.asid as u32), (slot, slot));
                    assert_eq!(update.entry.ttb1, 0);
                    table[slot as usize] = update.entry.ttb0;
                }
                let ttb = 0x4000 * (index as u64 + 2);
                assert_eq!(table[slot as usize], ttb | 1 | (slot as u64) << 48);
                let again = uat.bind(&mut spaces[index]).unwrap();
                assert_eq!((again.bind.slot(), again.update), (slot, None));
                assert!(!uat.unbind(&mut spaces[index]));
                bound.push(index);
            }
            None => {
                let first = bound.remove(0);
                let mut last = false;
                while !last {
                    last = uat.unbind(&mut spaces[first]);
                }
                bound.retain(|other| *other != first);
            }
        }
    }
}
