use asahi::buffer::{
    BlockControl, Buffer, BufferManager, ClusterBuffers, ClusterPlan, FwVersion, GpuBuffer, Info,
    MetaSizes, Part, PreemptSizes, Scene, SceneBuffers, SceneOffsets, SceneSizes, SceneSlot, Source,
    BLOCK_SIZE, MAX_BLOCKS, MAX_PAGES, MAX_SIZE, PAGE_SIZE,
};
use asahi::error::Error;

fn preempt() -> PreemptSizes {
    PreemptSizes { preempt1_size: 0x540, preempt2_size: 0x280, preempt3_size: 0x20 }
}

fn sizes() -> SceneSizes {
    SceneSizes { tilemap_size: 0x1000, tpc_size: 0x4001 }
}

fn user(size: u64) -> Part {
    Part { from: Source::User, size }
}

#[test]
fn buffer_limits() {
    assert_eq!(BLOCK_SIZE, 4 * PAGE_SIZE);
    assert_eq!(MAX_SIZE, PAGE_SIZE * MAX_PAGES as u64);
    assert_eq!(MAX_SIZE, BLOCK_SIZE * MAX_BLOCKS as u64);
}

#[test]
fn buffer_description() {
    let i = Info::new(FwVersion::V12_3, 1, 2, 3, 4);
    assert_eq!((i.page_list, i.block_list, i.block_ctl, i.counter), (1, 2, 3, 4));
    assert_eq!((i.last_id, i.cur_id, i.unk_1c), (0, -1, Some(0)));
    assert_eq!((i.page_list_size, i.block_size), (0x2_0000, 0x2_0000));
    assert_eq!((i.unk_30, i.unk_80, i.unk_84, i.unk_88), (0xd1a, 1, 0x3468, 0x1178));
    assert_eq!((i.page_count, i.block_count, i.last_page), (0, 0, 0));
    assert_eq!(Info::new(FwVersion::V13_0B4, 1, 2, 3, 4).unk_1c, None);
}

#[test]
fn blocks_are_listed() {
    let mut b = Buffer::new(1, &preempt());
    assert_eq!(b.block_count(), 0);
    assert_eq!(b.add_blocks(&vec![0x60_0000_0000]), Ok(()));
    assert_eq!(b.add_blocks(&vec![0x60_0008_0000, 0x60_0004_0000]), Ok(()));
    assert_eq!(b.block_count(), 3);
    assert_eq!((b.page_count, b.block_count, b.last_page), (12, 3, 11));
    assert_eq!(&b.block_list[..6], &[0xc0_0000, 0, 0xc0_0010, 0, 0xc0_0008, 0]);
    assert_eq!(
        &b.page_list[..12],
        &[
            0xc0_0000, 0xc0_0001, 0xc0_0002, 0xc0_0003, 0xc0_0010, 0xc0_0011, 0xc0_0012, 0xc0_0013,
            0xc0_0008, 0xc0_0009, 0xc0_000a, 0xc0_000b
        ]
    );
    assert_eq!(b.page_list[12], 0);
    assert_eq!(b.blocks, vec![0x60_0000_0000, 0x60_0008_0000, 0x60_0004_0000]);
}

#[test]
fn buffer_has_a_largest_size() {
    let mut b = Buffer::new(1, &preempt());
    let mut all = Vec::new();
    for i in 0..MAX_BLOCKS as u64 {
        all.push(i * BLOCK_SIZE);
    }
    assert_eq!(b.check_blocks(MAX_BLOCKS), Ok(()));
    assert_eq!(b.add_blocks(&all), Ok(()));
    assert_eq!(b.check_blocks(1), Err(Error::ENOMEM));
    assert_eq!(b.add_blocks(&vec![0]), Err(Error::ENOMEM));
    assert_eq!(b.block_count(), 0x2000);
    assert_eq!(b.last_page, 0x7fff);
}

#[test]
fn frames_are_counted() {
    let mut b = Buffer::new(1, &preempt());
    b.increment();
    b.increment();
    assert_eq!(b.counter, 2);
    b.counter = u32::MAX;
    b.increment();
    assert_eq!(b.counter, 0);
}

#[test]
fn scene_sizes_of_one_cluster() {
    let mut b = Buffer::new(1, &preempt());
    let plan = b.plan_scene(&sizes());
    assert_eq!(plan.object, Part { from: Source::KernelPrivate, size: 0x40 });
    assert_eq!((plan.user_buffer, plan.tvb_heapmeta), (user(0x80), user(0x200)));
    assert_eq!((plan.tvb_tilemap, plan.preempt_buf), (user(0x1000), user(0x7e0)));
    assert_eq!(plan.seq_buf, user(0x4000));
    assert_eq!(plan.tpc, Some(Part { from: Source::UserPrivate, size: 0x8000 }));
    assert_eq!(plan.clustering, None);
    assert_eq!(
        plan.offsets,
        SceneOffsets {
            preempt2_off: 0x540,
            preempt3_off: 0x7c0,
            meta2_off: 0x80,
            meta3_off: 0x280,
            meta4_off: 0x500,
        }
    );
}

#[test]
fn scene_sizes_of_several_clusters() {
    let meta = MetaSizes::new(8);
    assert_eq!((meta.meta1, meta.meta2, meta.meta3, meta.meta4), (0x80, 0xc80, 0x1400, 0x180));
    let mut b = Buffer::new(8, &preempt());
    assert_eq!(b.preempt.preempt1_size, 0x2a00);
    let plan = b.plan_scene(&sizes());
    assert_eq!(plan.preempt_buf, user(0x3f00));
    assert_eq!(
        plan.clustering,
        Some(ClusterPlan { tilemaps: user(0x8000), meta: user(0x1_1400) })
    );
    assert_eq!((plan.offsets.meta2_off, plan.offsets.meta3_off), (0x80, 0xd00));
    assert_eq!(plan.offsets.meta4_off, 0x2100);
}

#[test]
fn tile_pointers_are_reused_if_they_fit() {
    let mut b = Buffer::new(1, &preempt());
    let made = GpuBuffer { address: 0x100, size: 0x8000 };
    assert_eq!(b.take_tpc(Some(made)), Some(made));
    assert_eq!(b.plan_scene(&sizes()).tpc, None);
    assert_eq!(b.take_tpc(None), Some(made));
    let larger = SceneSizes { tilemap_size: 0, tpc_size: 0x8001 };
    assert_eq!(
        b.plan_scene(&larger).tpc,
        Some(Part { from: Source::UserPrivate, size: 0xc000 })
    );
}

#[test]
fn buffer_memory_comes_from_its_allocators() {
    let plan = Buffer::plan(FwVersion::V12_3);
    assert_eq!(plan.info, Part { from: Source::KernelShared, size: 0xc0 });
    assert_eq!(plan.block_ctl, Part { from: Source::KernelShared, size: 0x40 });
    assert_eq!(plan.counter, Part { from: Source::KernelShared, size: 0x40 });
    assert_eq!(plan.stats, Part { from: Source::KernelShared, size: 0x40 });
    assert_eq!(plan.page_list, Part { from: Source::UserPrivate, size: 0x2_0000 });
    assert_eq!(plan.block_list, Part { from: Source::UserPrivate, size: 0x1_0000 });
    assert_eq!(plan.kernel_buffer, Part { from: Source::KernelPrivate, size: 0x40 });
    assert_eq!(plan.block, user(0x2_0000));
    assert_eq!(Buffer::plan(FwVersion::V13_0B4).info.size, 0xbc);
}

#[test]
fn each_scene_sets_the_flag() {
    let mut b = Buffer::new(1, &preempt());
    assert_eq!(b.cpu_flag, 1);
    b.cpu_flag = 0;
    b.plan_scene(&sizes());
    assert_eq!(b.cpu_flag, 1);
}

#[test]
fn other_list_entries_stay_zero() {
    let mut b = Buffer::new(1, &preempt());
    assert_eq!((b.page_list.len(), b.block_list.len()), (MAX_PAGES, 2 * MAX_BLOCKS));
    assert!(b.page_list.iter().all(|x| *x == 0) && b.block_list.iter().all(|x| *x == 0));
    assert_eq!(b.block_ctl, BlockControl { total: 0, wptr: 0 });
    assert_eq!(b.add_blocks(&vec![0x60_0000_0000, 0x60_0008_0000]), Ok(()));
    assert_eq!(b.block_ctl, BlockControl { total: 2, wptr: 2 });
    assert_eq!((b.block_list[1], b.block_list[3]), (0, 0));
    assert!(b.page_list[8..].iter().all(|x| *x == 0));
    assert!(b.block_list[4..].iter().all(|x| *x == 0));
    assert_eq!(b.add_blocks(&vec![0x60_0004_0000]), Ok(()));
    assert_eq!(b.block_ctl, BlockControl { total: 3, wptr: 3 });
    assert_eq!((b.block_list[0], b.block_list[2]), (0xc0_0000, 0xc0_0010));
}

#[test]
fn sequence_buffer_counts_up() {
    let v = Buffer::seq_buf();
    assert_eq!(v.len(), 0x800);
    assert_eq!((v[0], v[1], v[2], v[0x3ff], v[0x400], v[0x7ff]), (0, 2, 3, 0x400, 0, 0));
}

#[test]
fn scenes_share_a_slot() {
    let mut mgr = BufferManager::new();
    let mut a = Buffer::new(1, &preempt());
    let mut b = Buffer::new(1, &preempt());
    assert_eq!(a.open_scene(&mut mgr), Some(SceneSlot { slot: 0, rebind: true }));
    assert_eq!(b.open_scene(&mut mgr), Some(SceneSlot { slot: 1, rebind: true }));
    assert_eq!(a.open_scene(&mut mgr), Some(SceneSlot { slot: 0, rebind: false }));
    assert_eq!(a.active_scenes, 2);
    assert!(!a.close_scene(&mut mgr));
    assert!(a.close_scene(&mut mgr));
    assert_eq!(a.active_scenes, 0);
    assert_eq!(a.open_scene(&mut mgr), Some(SceneSlot { slot: 0, rebind: false }));
}

#[test]
fn buffer_slots_run_out() {
    let mut mgr = BufferManager::new();
    let mut all = Vec::new();
    for _ in 0..127 {
        let mut b = Buffer::new(1, &preempt());
        assert!(b.open_scene(&mut mgr).unwrap().rebind);
        all.push(b);
    }
    let mut late = Buffer::new(1, &preempt());
    assert_eq!(late.open_scene(&mut mgr), None);
    assert_eq!(late.active_scenes, 0);
    assert!(all[9].close_scene(&mut mgr));
    assert_eq!(late.open_scene(&mut mgr), Some(SceneSlot { slot: 9, rebind: true }));
    assert_eq!(all[9].open_scene(&mut mgr), None);
}

fn scene(clustering: Option<ClusterBuffers>) -> Scene {
    Scene {
        buffers: SceneBuffers {
            object: 1,
            buffer_info: 2,
            kernel_buffer: 3,
            user_buffer: 4,
            tvb_heapmeta: 5,
            tvb_tilemap: 6,
            tpc: 7,
            preempt_buf: 0x1000,
            seq_buf: 8,
            clustering,
        },
        slot: SceneSlot { slot: 9, rebind: true },
        offsets: SceneOffsets {
            preempt2_off: 0x10,
            preempt3_off: 0x20,
            meta2_off: 0x80,
            meta3_off: 0x100,
            meta4_off: 0x180,
        },
    }
}

#[test]
fn scene_pointers() {
    let s = scene(None);
    assert_eq!((s.gpu_pointer(), s.buffer_pointer(), s.kernel_buffer_pointer()), (1, 2, 3));
    assert_eq!((s.tvb_heapmeta_pointer(), s.tvb_tilemap_pointer(), s.tpc_pointer()), (5, 6, 7));
    assert_eq!(s.preempt_buf_1_pointer(), 0x1000);
    assert_eq!(s.preempt_buf_2_pointer(), 0x1010);
    assert_eq!(s.preempt_buf_3_pointer(), 0x1020);
    assert_eq!((s.seq_buf_pointer(), s.slot(), s.rebind()), (8, 9, true));
    assert_eq!((s.cluster_tilemaps_pointer(), s.meta_1_pointer()), (None, None));
    assert_eq!((s.meta_2_pointer(), s.meta_3_pointer(), s.meta_4_pointer()), (None, None, None));
    let raw = s.to_raw(0x55);
    assert_eq!((raw.user_buffer, raw.stats), (4, 0x55));
}

#[test]
fn clustered_scene_pointers() {
    let s = scene(Some(ClusterBuffers { tilemaps: 0x2000, meta: 0x3000 }));
    assert_eq!(s.cluster_tilemaps_pointer(), Some(0x2000));
    assert_eq!(s.meta_1_pointer(), Some(0x3000));
    assert_eq!(s.meta_2_pointer(), Some(0x3080));
    assert_eq!(s.meta_3_pointer(), Some(0x3100));
    assert_eq!(s.meta_4_pointer(), Some(0x3180));
}

#[test]
fn rebinds_unless_nobody_had_the_slot() {
    let mut mgr = BufferManager::new();
    let mut all: Vec<Buffer> = (0..127).map(|_| Buffer::new(1, &preempt())).collect();
    for b in all.iter_mut() {
        assert!(b.open_scene(&mut mgr).unwrap().rebind);
    }
    assert!(all[3].close_scene(&mut mgr));
    assert_eq!(all[3].open_scene(&mut mgr), Some(SceneSlot { slot: 3, rebind: false }));
    assert!(all[3].close_scene(&mut mgr));
    let mut other = Buffer::new(1, &preempt());
    assert_eq!(other.open_scene(&mut mgr), Some(SceneSlot { slot: 3, rebind: true }));
    assert!(other.close_scene(&mut mgr));
    assert_eq!(all[3].open_scene(&mut mgr), Some(SceneSlot { slot: 3, rebind: true }));
    assert_eq!(all[3].open_scene(&mut mgr), Some(SceneSlot { slot: 3, rebind: false }));
}
