//! The tiler's buffers: a pool of memory blocks that the GPU fills while it sorts
//! geometry into tiles, and the scenes that use it.
use crate::error::{Error, Result};
use crate::mmu::{UAT_PGMSK, UAT_PGSZ};
use crate::sharing::{
    law_first_slot_is_new, law_sharers_have_slots_of_their_own, law_sharing_history,
    law_slot_is_kept_while_active, law_slot_is_unchanged_if_nobody_had_it, ShareEvent, Sharer,
    Sharing,
};
use crate::slotalloc::{Guard, SlotAllocator, SlotItem, SlotToken, Slots};
use crate::util::{align, law_round_up, lemma_align_mask, lemma_powers_of_two, round_up};
use vstd::prelude::*;

verus! {

/// The number of buffers that the GPU can know at a time.
pub const NUM_BUFFERS: u32 = 127;

/// A buffer page has 32 KiB.
pub const PAGE_SHIFT: u64 = 15;

pub const PAGE_SIZE: u64 = 0x8000;

pub const PAGES_PER_BLOCK: usize = 4;

pub const BLOCK_SIZE: u64 = 0x2_0000;

/// The largest size of a buffer.
pub const MAX_SIZE: u64 = 0x4000_0000;

/// How many pages and blocks the largest buffer has.
pub const MAX_PAGES: usize = 0x8000;

pub const MAX_BLOCKS: usize = 0x2000;

/// The sizes of what every scene and every buffer needs.
pub const KERNEL_BUFFER_SIZE: u64 = 0x40;

pub const USER_BUFFER_SIZE: u64 = 0x80;

pub const TVB_HEAPMETA_SIZE: u64 = 0x200;

pub const SEQ_BUF_COUNT: usize = 0x800;

/// The sizes of a buffer's and a scene's objects in GPU memory.
pub const BLOCK_CONTROL_SIZE: u64 = 0x40;

pub const COUNTER_SIZE: u64 = 0x40;

pub const STATS_SIZE: u64 = 0x40;

pub const SCENE_SIZE: u64 = 0x40;

/// Where memory comes from.
#[derive(Copy, Clone, Debug, PartialEq, Eq, Structural)]
pub enum Source {
    /// The client's address space: for the GPU.
    User,
    /// The client's address space: for the GPU and the firmware.
    UserPrivate,
    /// The driver's address space: shared with the firmware.
    KernelShared,
    /// The driver's address space: for the firmware alone.
    KernelPrivate,
}

/// A piece of memory to allocate. It starts out as zeroes.
#[derive(Copy, Clone, Debug, PartialEq, Eq, Structural)]
pub struct Part {
    pub from: Source,
    pub size: u64,
}

/// What the firmware is told of the blocks of a buffer.
#[derive(Copy, Clone, Debug, PartialEq, Eq, Structural)]
pub struct BlockControl {
    pub total: u32,
    pub wptr: u32,
}

/// The firmware generations whose structures differ.
#[derive(Copy, Clone, Debug, PartialEq, Eq, Structural)]
pub enum FwVersion {
    V12_3,
    V13_0B4,
}

/// A description of a buffer in GPU memory. The fields that start out as zero and are
/// not looked at again are left out.
#[derive(Copy, Clone, Debug, PartialEq, Eq, Structural)]
pub struct Info {
    pub last_id: i32,
    pub cur_id: i32,
    /// Only older firmware has this field.
    pub unk_1c: Option<u32>,
    pub page_list: u64,
    pub page_list_size: u32,
    pub page_count: u32,
    pub unk_30: u32,
    pub block_count: u32,
    pub block_list: u64,
    pub block_ctl: u64,
    pub last_page: u32,
    pub block_size: u32,
    pub counter: u64,
    pub unk_80: u32,
    pub unk_84: u32,
    pub unk_88: u32,
}

impl Info {
    /// The description of a buffer without blocks, given where its lists are.
    pub fn new(
        version: FwVersion,
        page_list: u64,
        block_list: u64,
        block_ctl: u64,
        counter: u64,
    ) -> (r: Info)
        ensures
            r == (Info {
                last_id: 0,
                cur_id: -1i32,
                unk_1c: if version == FwVersion::V12_3 {
                    Some(0u32)
                } else {
                    None
                },
                page_list,
                page_list_size: (4 * MAX_PAGES) as u32,
                page_count: 0,
                unk_30: 0xd1a,
                block_count: 0,
                block_list,
                block_ctl,
                last_page: 0,
                block_size: BLOCK_SIZE as u32,
                counter,
                unk_80: 1,
                unk_84: 0x3468,
                unk_88: 0x1178,
            }),
    {
        Info {
            last_id: 0,
            cur_id: -1,
            unk_1c: match version {
                FwVersion::V12_3 => Some(0),
                FwVersion::V13_0B4 => None,
            },
            page_list,
            page_list_size: (4 * MAX_PAGES) as u32,
            page_count: 0,
            unk_30: 0xd1a,
            block_count: 0,
            block_list,
            block_ctl,
            last_page: 0,
            block_size: BLOCK_SIZE as u32,
            counter,
            unk_80: 1,
            unk_84: 0x3468,
            unk_88: 0x1178,
        }
    }
}

/// What a buffer slot holds: nothing that anybody has to look at.
#[derive(Copy, Clone, Debug, PartialEq, Eq, Structural)]
pub struct SlotInner;

impl SlotItem for SlotInner {
    type Owner = ();
}

/// Hands the buffer slots out.
pub struct BufferManager(SlotAllocator<SlotInner>);

impl View for BufferManager {
    type V = Slots<SlotInner>;

    closed spec fn view(&self) -> Slots<SlotInner> {
        self.0@
    }
}

impl BufferManager {
    pub fn new() -> (r: BufferManager)
        ensures
            r@.fresh(),
            r@.slots.len() == NUM_BUFFERS,
    {
        let constructor = |_owner: &(), _slot: u32| -> (r: SlotInner) { SlotInner };
        BufferManager(SlotAllocator::new(NUM_BUFFERS, (), constructor))
    }
}

/// The tiling of a frame: what a scene needs to know of it.
#[derive(Copy, Clone, Debug, PartialEq, Eq, Structural)]
pub struct SceneSizes {
    pub tilemap_size: u64,
    pub tpc_size: u64,
}

/// How much memory each cluster needs to save a preempted frame, in three parts.
#[derive(Copy, Clone, Debug, PartialEq, Eq, Structural)]
pub struct PreemptSizes {
    pub preempt1_size: u64,
    pub preempt2_size: u64,
    pub preempt3_size: u64,
}

impl PreemptSizes {
    pub open spec fn total(self) -> int {
        self.preempt1_size + self.preempt2_size + self.preempt3_size
    }

    /// The sizes for a number of clusters.
    pub fn for_clusters(&self, num_clusters: u64) -> (r: PreemptSizes)
        requires
            num_clusters * self.total() <= u64::MAX,
        ensures
            r.preempt1_size == num_clusters * self.preempt1_size,
            r.preempt2_size == num_clusters * self.preempt2_size,
            r.preempt3_size == num_clusters * self.preempt3_size,
            r.total() == num_clusters * self.total(),
    {
        assert(num_clusters * self.total() == num_clusters * self.preempt1_size + num_clusters
            * self.preempt2_size + num_clusters * self.preempt3_size) by (nonlinear_arith)
            requires
                self.total() == self.preempt1_size + self.preempt2_size + self.preempt3_size,
        ;
        assert(num_clusters * self.preempt1_size >= 0) by (nonlinear_arith);
        assert(num_clusters * self.preempt2_size >= 0) by (nonlinear_arith);
        assert(num_clusters * self.preempt3_size >= 0) by (nonlinear_arith);
        PreemptSizes {
            preempt1_size: num_clusters * self.preempt1_size,
            preempt2_size: num_clusters * self.preempt2_size,
            preempt3_size: num_clusters * self.preempt3_size,
        }
    }
}

/// An allocation in GPU memory.
#[derive(Copy, Clone, Debug, PartialEq, Eq, Structural)]
pub struct GpuBuffer {
    pub address: u64,
    pub size: u64,
}

/// The buffers of a scene that only a GPU with several clusters needs.
#[derive(Copy, Clone, Debug, PartialEq, Eq, Structural)]
pub struct ClusterPlan {
    pub tilemaps: Part,
    pub meta: Part,
}

/// The sizes of the four parts of a cluster's metadata.
#[derive(Copy, Clone, Debug, PartialEq, Eq, Structural)]
pub struct MetaSizes {
    pub meta1: u64,
    pub meta2: u64,
    pub meta3: u64,
    pub meta4: u64,
}

impl MetaSizes {
    pub open spec fn total(self) -> int {
        self.meta1 + self.meta2 + self.meta3 + self.meta4
    }

    pub open spec fn spec_new(num_clusters: int) -> MetaSizes {
        MetaSizes {
            meta1: round_up(4 * num_clusters, 0x80) as u64,
            meta2: round_up(0x190 * num_clusters, 0x80) as u64,
            meta3: round_up(0x280 * num_clusters, 0x80) as u64,
            meta4: round_up(0x30 * num_clusters, 0x80) as u64,
        }
    }

    pub fn new(num_clusters: u64) -> (r: MetaSizes)
        requires
            num_clusters <= 0xffff,
        ensures
            r == Self::spec_new(num_clusters as int),
            r.total() <= 0x444 * num_clusters + 0x200,
    {
        proof {
            lemma_powers_of_two();
            law_round_up(4 * num_clusters, 0x80);
            law_round_up(0x190 * num_clusters, 0x80);
            law_round_up(0x280 * num_clusters, 0x80);
            law_round_up(0x30 * num_clusters, 0x80);
        }
        MetaSizes {
            meta1: align(4 * num_clusters, 0x80),
            meta2: align(0x190 * num_clusters, 0x80),
            meta3: align(0x280 * num_clusters, 0x80),
            meta4: align(0x30 * num_clusters, 0x80),
        }
    }
}

/// What a buffer needs.
#[derive(Copy, Clone, Debug, PartialEq, Eq, Structural)]
pub struct BufferPlan {
    pub info: Part,
    pub block_ctl: Part,
    pub counter: Part,
    pub page_list: Part,
    pub block_list: Part,
    pub kernel_buffer: Part,
    pub stats: Part,
    /// What each block of the buffer needs.
    pub block: Part,
}

/// What a new scene needs.
#[derive(Copy, Clone, Debug, PartialEq, Eq, Structural)]
pub struct ScenePlan {
    /// The scene object itself.
    pub object: Part,
    pub user_buffer: Part,
    pub tvb_heapmeta: Part,
    pub tvb_tilemap: Part,
    pub preempt_buf: Part,
    pub seq_buf: Part,
    /// A new buffer for tile pointers; none if the last one is large enough.
    pub tpc: Option<Part>,
    pub clustering: Option<ClusterPlan>,
    pub offsets: SceneOffsets,
}

/// Where in a scene's buffers the parts of them start.
#[derive(Copy, Clone, Debug, PartialEq, Eq, Structural)]
pub struct SceneOffsets {
    pub preempt2_off: u64,
    pub preempt3_off: u64,
    pub meta2_off: u64,
    pub meta3_off: u64,
    pub meta4_off: u64,
}

/// The number of the page that an address lies in.
pub open spec fn page_number(address: u64) -> int {
    address as int / PAGE_SIZE as int
}

/// The lists of pages and blocks show the blocks of a buffer, and nothing else: every
/// other entry of the list of blocks is zero, and so is what lies behind the last block.
pub open spec fn lists_show(blocks: Seq<u64>, page_list: Seq<u32>, block_list: Seq<u32>) -> bool {
    &&& page_list.len() == MAX_PAGES
    &&& block_list.len() == 2 * MAX_BLOCKS
    &&& forall|i: int|
        #![trigger blocks[i]]
        0 <= i < blocks.len() ==> block_list[2 * i] == page_number(blocks[i])
    &&& forall|i: int, j: int|
        #![trigger page_list[PAGES_PER_BLOCK * i + j]]
        0 <= i < blocks.len() && 0 <= j < PAGES_PER_BLOCK ==> page_list[PAGES_PER_BLOCK * i + j]
            == page_number(blocks[i]) + j
    &&& forall|k: int|
        PAGES_PER_BLOCK * blocks.len() <= k < page_list.len() ==> #[trigger] page_list[k] == 0
    &&& forall|k: int|
        0 <= k < block_list.len() && (k % 2 == 1 || 2 * blocks.len() <= k)
            ==> #[trigger] block_list[k] == 0
}

/// A buffer. The lists are what the GPU sees; the counts are what it is told of them.
pub struct Buffer {
    pub page_list: Vec<u32>,
    pub block_list: Vec<u32>,
    pub block_ctl: BlockControl,
    /// The addresses of the blocks.
    pub blocks: Vec<u64>,
    pub page_count: u32,
    pub block_count: u32,
    pub last_page: u32,
    /// How many frames have used the buffer; it wraps around.
    pub counter: u32,
    /// What the driver last wrote to the flag in the buffer's statistics.
    pub cpu_flag: u32,
    /// How many scenes use the buffer.
    pub active_scenes: usize,
    /// The slot of the buffer, while there are scenes.
    pub active_slot: Option<Guard<SlotInner>>,
    /// The token of the last slot.
    pub last_token: Option<SlotToken>,
    /// The buffer for tile pointers, shared by the scenes.
    pub tpc: Option<GpuBuffer>,
    pub preempt: PreemptSizes,
    pub num_clusters: u64,
}

fn zeroes(count: usize) -> (r: Vec<u32>)
    ensures
        r@ == Seq::new(count as nat, |i: int| 0u32),
{
    let mut v: Vec<u32> = Vec::new();
    let mut i: usize = 0;
    while i < count
        invariant
            i <= count,
            v@ =~= Seq::new(i as nat, |i: int| 0u32),
        decreases count - i,
    {
        v.push(0);
        i = i + 1;
    }
    v
}

impl Buffer {
    pub open spec fn wf(self) -> bool {
        &&& self.blocks@.len() <= MAX_BLOCKS
        &&& lists_show(self.blocks@, self.page_list@, self.block_list@)
        &&& self.block_count == self.blocks@.len()
        &&& self.block_ctl.total == self.blocks@.len()
        &&& self.block_ctl.wptr == self.blocks@.len()
        &&& self.page_count == PAGES_PER_BLOCK * self.blocks@.len()
        &&& self.last_page == if self.blocks@.len() == 0 {
            0
        } else {
            self.page_count - 1
        }
        &&& self.active_slot is Some <==> self.active_scenes > 0
        &&& self.active_slot is Some ==> self.last_token == Some(self.active_slot->0.token)
        &&& self.last_token is Some ==> self.last_token->0.slot < NUM_BUFFERS
        &&& self.num_clusters <= 0xffff
        &&& self.preempt.total() <= u64::MAX
    }

    /// A buffer without blocks and scenes. `preempt` is what each cluster needs.
    pub fn new(num_clusters: u64, preempt: &PreemptSizes) -> (r: Buffer)
        requires
            num_clusters <= 0xffff,
            num_clusters * preempt.total() <= u64::MAX,
        ensures
            r.wf(),
            r.blocks@.len() == 0,
            r.page_list@ == Seq::new(MAX_PAGES as nat, |i: int| 0u32),
            r.block_list@ == Seq::new((2 * MAX_BLOCKS) as nat, |i: int| 0u32),
            r.block_ctl == (BlockControl { total: 0, wptr: 0 }),
            r.counter == 0,
            r.cpu_flag == 1,
            r.active_scenes == 0,
            r.active_slot is None,
            r.last_token is None,
            r.tpc is None,
            r.num_clusters == num_clusters,
            r.preempt.preempt1_size == num_clusters * preempt.preempt1_size,
            r.preempt.preempt2_size == num_clusters * preempt.preempt2_size,
            r.preempt.preempt3_size == num_clusters * preempt.preempt3_size,
    {
        Buffer {
            page_list: zeroes(MAX_PAGES),
            block_list: zeroes(MAX_BLOCKS * 2),
            block_ctl: BlockControl { total: 0, wptr: 0 },
            blocks: Vec::new(),
            page_count: 0,
            block_count: 0,
            last_page: 0,
            counter: 0,
            cpu_flag: 1,
            active_scenes: 0,
            active_slot: None,
            last_token: None,
            tpc: None,
            preempt: preempt.for_clusters(num_clusters),
            num_clusters,
        }
    }

    /// What a buffer needs. Its description is shorter for newer firmware.
    pub fn plan(version: FwVersion) -> (r: BufferPlan)
        ensures
            r == (BufferPlan {
                info: Part {
                    from: Source::KernelShared,
                    size: if version == FwVersion::V12_3 {
                        0xc0
                    } else {
                        0xbc
                    },
                },
                block_ctl: Part { from: Source::KernelShared, size: BLOCK_CONTROL_SIZE },
                counter: Part { from: Source::KernelShared, size: COUNTER_SIZE },
                page_list: Part { from: Source::UserPrivate, size: (4 * MAX_PAGES) as u64 },
                block_list: Part { from: Source::UserPrivate, size: (4 * 2 * MAX_BLOCKS) as u64 },
                kernel_buffer: Part { from: Source::KernelPrivate, size: KERNEL_BUFFER_SIZE },
                stats: Part { from: Source::KernelShared, size: STATS_SIZE },
                block: Part { from: Source::User, size: BLOCK_SIZE },
            }),
    {
        let info_size: u64 = match version {
            FwVersion::V12_3 => 0xc0,
            FwVersion::V13_0B4 => 0xbc,
        };
        BufferPlan {
            info: Part { from: Source::KernelShared, size: info_size },
            block_ctl: Part { from: Source::KernelShared, size: BLOCK_CONTROL_SIZE },
            counter: Part { from: Source::KernelShared, size: COUNTER_SIZE },
            page_list: Part { from: Source::UserPrivate, size: 4 * MAX_PAGES as u64 },
            block_list: Part { from: Source::UserPrivate, size: 8 * MAX_BLOCKS as u64 },
            kernel_buffer: Part { from: Source::KernelPrivate, size: KERNEL_BUFFER_SIZE },
            stats: Part { from: Source::KernelShared, size: STATS_SIZE },
            block: Part { from: Source::User, size: BLOCK_SIZE },
        }
    }

    pub fn block_count(&self) -> (r: u32)
        requires
            self.wf(),
        ensures
            r == self.blocks@.len(),
    {
        self.blocks.len() as u32
    }

    /// Counts a frame.
    pub fn increment(&mut self)
        requires
            old(self).wf(),
        ensures
            final(self).wf(),
            *final(self) == (Buffer {
                counter: ((old(self).counter + 1) % 0x1_0000_0000) as u32,
                ..*old(self)
            }),
    {
        self.counter = self.counter.wrapping_add(1);
    }

    /// Whether there is room for `count` more blocks.
    pub fn check_blocks(&self, count: usize) -> (r: Result<()>)
        requires
            self.wf(),
            self.blocks@.len() + count <= usize::MAX,
        ensures
            r == if self.blocks@.len() + count > MAX_BLOCKS {
                Err(Error::ENOMEM)
            } else {
                Ok(())
            },
    {
        if self.blocks.len() + count > MAX_BLOCKS {
            Err(Error::ENOMEM)
        } else {
            Ok(())
        }
    }

    /// Adds blocks that have been allocated at these addresses, if there is room for all
    /// of them. Only their own entries of the lists change. The firmware's block control
    /// is then given the number of blocks, as its total and as its write pointer.
    pub fn add_blocks(&mut self, new_blocks: &Vec<u64>) -> (r: Result<()>)
        requires
            old(self).wf(),
            old(self).blocks@.len() + new_blocks@.len() <= usize::MAX,
            old(self).blocks@.len() + new_blocks@.len() >= 1,
            forall|i: int|
                0 <= i < new_blocks@.len() ==> page_number(#[trigger] new_blocks@[i])
                    + PAGES_PER_BLOCK - 1 <= u32::MAX,
        ensures
            final(self).wf(),
            r == if old(self).blocks@.len() + new_blocks@.len() > MAX_BLOCKS {
                Err::<(), Error>(Error::ENOMEM)
            } else {
                Ok(())
            },
            r is Err ==> *final(self) == *old(self),
            r is Ok ==> {
                &&& final(self).blocks@ == old(self).blocks@ + new_blocks@
                &&& final(self).block_ctl.total == final(self).blocks@.len()
                &&& final(self).block_ctl.wptr == final(self).blocks@.len()
                &&& forall|k: int|
                    0 <= k < MAX_PAGES && !(PAGES_PER_BLOCK * old(self).blocks@.len() <= k
                        < PAGES_PER_BLOCK * final(self).blocks@.len())
                        ==> #[trigger] final(self).page_list@[k] == old(self).page_list@[k]
                &&& forall|k: int|
                    0 <= k < 2 * MAX_BLOCKS && !(k % 2 == 0 && 2 * old(self).blocks@.len() <= k < 2
                        * final(self).blocks@.len()) ==> #[trigger] final(self).block_list@[k]
                        == old(self).block_list@[k]
                &&& final(self).cpu_flag == old(self).cpu_flag
                &&& final(self).counter == old(self).counter
                &&& final(self).active_scenes == old(self).active_scenes
                &&& final(self).active_slot == old(self).active_slot
                &&& final(self).last_token == old(self).last_token
                &&& final(self).tpc == old(self).tpc
                &&& final(self).preempt == old(self).preempt
                &&& final(self).num_clusters == old(self).num_clusters
            },
    {
        let cur_count: usize = self.blocks.len();
        let count: usize = new_blocks.len();
        if let Err(e) = self.check_blocks(count) {
            return Err(e);
        }
        let mut i: usize = 0;
        while i < count
            invariant
                i <= count == new_blocks@.len(),
                cur_count == old(self).blocks@.len(),
                cur_count + count <= MAX_BLOCKS,
                forall|k: int|
                    0 <= k < new_blocks@.len() ==> page_number(#[trigger] new_blocks@[k])
                        + PAGES_PER_BLOCK - 1 <= u32::MAX,
                self.blocks@ =~= old(self).blocks@ + new_blocks@.take(i as int),
                lists_show(self.blocks@, self.page_list@, self.block_list@),
                forall|k: int|
                    0 <= k < MAX_PAGES && !(PAGES_PER_BLOCK * cur_count <= k < PAGES_PER_BLOCK * (
                    cur_count + i)) ==> #[trigger] self.page_list@[k] == old(self).page_list@[k],
                forall|k: int|
                    0 <= k < 2 * MAX_BLOCKS && !(k % 2 == 0 && 2 * cur_count <= k < 2 * (cur_count
                        + i)) ==> #[trigger] self.block_list@[k] == old(self).block_list@[k],
                self.cpu_flag == old(self).cpu_flag,
                self.counter == old(self).counter,
                self.active_scenes == old(self).active_scenes,
                self.active_slot == old(self).active_slot,
                self.last_token == old(self).last_token,
                self.tpc == old(self).tpc,
                self.preempt == old(self).preempt,
                self.num_clusters == old(self).num_clusters,
                self.page_count == old(self).page_count,
            decreases count - i,
        {
            let block: u64 = new_blocks[i];
            let at: usize = cur_count + i;
            proof {
                assert(block >> 15 == block / 0x8000) by (bit_vector);
                assert(page_number(block) + PAGES_PER_BLOCK - 1 <= u32::MAX);
            }
            let page_num: u32 = (block >> PAGE_SHIFT) as u32;
            let ghost blocks_before = self.blocks@;
            let ghost pages_before = self.page_list@;
            let ghost list_before = self.block_list@;
            self.blocks.push(block);
            self.block_list.set(2 * at, page_num);
            let mut j: usize = 0;
            while j < PAGES_PER_BLOCK
                invariant
                    j <= PAGES_PER_BLOCK,
                    at < MAX_BLOCKS,
                    self.page_list@.len() == MAX_PAGES,
                    page_num + PAGES_PER_BLOCK - 1 <= u32::MAX,
                    pages_before.len() == MAX_PAGES,
                    forall|k: int|
                        0 <= k < MAX_PAGES && !(PAGES_PER_BLOCK * at <= k < PAGES_PER_BLOCK * at
                            + j) ==> #[trigger] self.page_list@[k] == pages_before[k],
                    self.cpu_flag == old(self).cpu_flag,
                    forall|k: int|
                        0 <= k < j ==> #[trigger] self.page_list@[PAGES_PER_BLOCK * at + k]
                            == page_num + k,
                    self.blocks@ == blocks_before.push(block),
                    self.block_list@ == list_before.update(2 * at, page_num),
                    self.counter == old(self).counter,
                    self.active_scenes == old(self).active_scenes,
                    self.active_slot == old(self).active_slot,
                    self.last_token == old(self).last_token,
                    self.tpc == old(self).tpc,
                    self.preempt == old(self).preempt,
                    self.num_clusters == old(self).num_clusters,
                    self.page_count == old(self).page_count,
                decreases PAGES_PER_BLOCK - j,
            {
                self.page_list.set(at * PAGES_PER_BLOCK + j, page_num + j as u32);
                j = j + 1;
            }
            proof {
                assert(new_blocks@.take(i + 1) =~= new_blocks@.take(i as int).push(block));
                assert forall|a: int, b: int|
                    #![trigger self.page_list@[PAGES_PER_BLOCK * a + b]]
                    0 <= a < self.blocks@.len() && 0 <= b < PAGES_PER_BLOCK implies
                    self.page_list@[PAGES_PER_BLOCK * a + b] == page_number(self.blocks@[a]) + b by {
                    if a < at {
                        assert(self.page_list@[PAGES_PER_BLOCK * a + b]
                            == pages_before[PAGES_PER_BLOCK * a + b]);
                    }
                }
                assert forall|a: int|
                    #![trigger self.blocks@[a]]
                    0 <= a < self.blocks@.len() implies self.block_list@[2 * a] == page_number(
                    self.blocks@[a],
                ) by {
                    if a < at {
                        assert(self.blocks@[a] == blocks_before[a]);
                    }
                }
                assert forall|k: int|
                    PAGES_PER_BLOCK * self.blocks@.len() <= k < MAX_PAGES implies
                    #[trigger] self.page_list@[k] == 0 by {
                    assert(self.page_list@[k] == pages_before[k]);
                }
                assert forall|k: int|
                    0 <= k < 2 * MAX_BLOCKS && (k % 2 == 1 || 2 * self.blocks@.len() <= k) implies
                    #[trigger] self.block_list@[k] == 0 by {
                    assert(self.block_list@[k] == list_before[k]);
                }
            }
            i = i + 1;
        }
        assert(new_blocks@.take(i as int) =~= new_blocks@);
        let new_count: usize = cur_count + count;
        self.block_ctl = BlockControl { total: new_count as u32, wptr: new_count as u32 };
        self.block_count = new_count as u32;
        self.page_count = (new_count * PAGES_PER_BLOCK) as u32;
        self.last_page = self.page_count - 1;
        Ok(())
    }

    /// The current buffer for tile pointers is large enough.
    pub open spec fn tpc_fits(self, size: int) -> bool {
        self.tpc is Some && self.tpc->0.size >= size
    }

    pub open spec fn offsets(self) -> SceneOffsets {
        let meta = MetaSizes::spec_new(self.num_clusters as int);
        SceneOffsets {
            preempt2_off: self.preempt.preempt1_size,
            preempt3_off: (self.preempt.preempt1_size + self.preempt.preempt2_size) as u64,
            meta2_off: meta.meta1,
            meta3_off: (meta.meta1 + meta.meta2) as u64,
            meta4_off: (meta.meta1 + meta.meta2 + meta.meta3) as u64,
        }
    }

    /// What a new scene needs for a frame. The scene object lies in the driver's address
    /// space, everything else in the client's; only the buffer for tile pointers is for the
    /// firmware too.
    pub open spec fn scene_plan(self, sizes: SceneSizes) -> ScenePlan {
        ScenePlan {
            object: Part { from: Source::KernelPrivate, size: SCENE_SIZE },
            user_buffer: Part { from: Source::User, size: USER_BUFFER_SIZE },
            tvb_heapmeta: Part { from: Source::User, size: TVB_HEAPMETA_SIZE },
            tvb_tilemap: Part { from: Source::User, size: sizes.tilemap_size },
            preempt_buf: Part { from: Source::User, size: self.preempt.total() as u64 },
            seq_buf: Part { from: Source::User, size: (8 * SEQ_BUF_COUNT) as u64 },
            tpc: if self.tpc_fits(sizes.tpc_size as int) {
                None
            } else {
                Some(
                    Part {
                        from: Source::UserPrivate,
                        size: round_up(sizes.tpc_size as int, UAT_PGSZ as int) as u64,
                    },
                )
            },
            clustering: if self.num_clusters > 1 {
                Some(
                    ClusterPlan {
                        tilemaps: Part {
                            from: Source::User,
                            size: (self.num_clusters * sizes.tilemap_size) as u64,
                        },
                        meta: Part {
                            from: Source::User,
                            size: (self.num_clusters * MetaSizes::spec_new(
                                self.num_clusters as int,
                            ).total()) as u64,
                        },
                    },
                )
            } else {
                None
            },
            offsets: self.offsets(),
        }
    }

    /// Begins a new scene for a frame: sets the flag in the statistics, and says what the
    /// scene needs.
    pub fn plan_scene(&mut self, sizes: &SceneSizes) -> (r: ScenePlan)
        requires
            old(self).wf(),
            sizes.tpc_size + UAT_PGSZ <= u64::MAX,
            old(self).num_clusters * sizes.tilemap_size <= u64::MAX,
        ensures
            final(self).wf(),
            *final(self) == (Buffer { cpu_flag: 1, ..*old(self) }),
            r == old(self).scene_plan(*sizes),
            r.tpc is Some ==> r.tpc->0.size >= sizes.tpc_size,
    {
        self.cpu_flag = 1;
        let meta = MetaSizes::new(self.num_clusters);
        let meta_size: u64 = meta.meta1 + meta.meta2 + meta.meta3 + meta.meta4;
        let reuse = match &self.tpc {
            Some(buf) => buf.size >= sizes.tpc_size,
            None => false,
        };
        proof {
            lemma_powers_of_two();
            lemma_align_mask(sizes.tpc_size, UAT_PGSZ);
            law_round_up(sizes.tpc_size as int, UAT_PGSZ as int);
            assert(self.num_clusters * meta_size <= 0xffff * 0x1_0000_0000) by (nonlinear_arith)
                requires
                    self.num_clusters <= 0xffff,
                    meta_size <= 0x1_0000_0000,
            ;
        }
        let tpc = if reuse {
            None
        } else {
            Some(
                Part {
                    from: Source::UserPrivate,
                    size: (sizes.tpc_size + UAT_PGMSK) & !UAT_PGMSK,
                },
            )
        };
        let clustering = if self.num_clusters > 1 {
            Some(
                ClusterPlan {
                    tilemaps: Part {
                        from: Source::User,
                        size: self.num_clusters * sizes.tilemap_size,
                    },
                    meta: Part { from: Source::User, size: self.num_clusters * meta_size },
                },
            )
        } else {
            None
        };
        let preempt_size: u64 = self.preempt.preempt1_size + self.preempt.preempt2_size
            + self.preempt.preempt3_size;
        ScenePlan {
            object: Part { from: Source::KernelPrivate, size: SCENE_SIZE },
            user_buffer: Part { from: Source::User, size: USER_BUFFER_SIZE },
            tvb_heapmeta: Part { from: Source::User, size: TVB_HEAPMETA_SIZE },
            tvb_tilemap: Part { from: Source::User, size: sizes.tilemap_size },
            preempt_buf: Part { from: Source::User, size: preempt_size },
            seq_buf: Part { from: Source::User, size: 8 * SEQ_BUF_COUNT as u64 },
            tpc,
            clustering,
            offsets: SceneOffsets {
                preempt2_off: self.preempt.preempt1_size,
                preempt3_off: self.preempt.preempt1_size + self.preempt.preempt2_size,
                meta2_off: meta.meta1,
                meta3_off: meta.meta1 + meta.meta2,
                meta4_off: meta.meta1 + meta.meta2 + meta.meta3,
            },
        }
    }

    /// What a scene's sequence buffer starts out as.
    pub fn seq_buf() -> (r: Vec<u64>)
        ensures
            r@ == Seq::new(
                SEQ_BUF_COUNT as nat,
                |i: int|
                    if 1 <= i < 0x400 {
                        (i + 1) as u64
                    } else {
                        0u64
                    },
            ),
    {
        let mut v: Vec<u64> = Vec::new();
        let mut i: usize = 0;
        while i < SEQ_BUF_COUNT
            invariant
                i <= SEQ_BUF_COUNT,
                v@ =~= Seq::new(
                    i as nat,
                    |i: int|
                        if 1 <= i < 0x400 {
                            (i + 1) as u64
                        } else {
                            0u64
                        },
                ),
            decreases SEQ_BUF_COUNT - i,
        {
            if 1 <= i && i < 0x400 {
                v.push(i as u64 + 1);
            } else {
                v.push(0);
            }
            i = i + 1;
        }
        v
    }

    /// The buffer for tile pointers that a scene uses: a new one, which later scenes can
    /// use too, or the last one.
    pub fn take_tpc(&mut self, new: Option<GpuBuffer>) -> (r: Option<GpuBuffer>)
        requires
            old(self).wf(),
        ensures
            final(self).wf(),
            *final(self) == (Buffer { tpc: r, ..*old(self) }),
            r == if new is Some {
                new
            } else {
                old(self).tpc
            },
    {
        if new.is_some() {
            self.tpc = new;
        }
        self.tpc
    }

    /// Counts a new scene in. The first one gets a slot for the buffer, preferably its
    /// last one. `None` means that all slots are in use: the user waits until one is
    /// free.
    pub fn open_scene(&mut self, mgr: &mut BufferManager) -> (r: Option<SceneSlot>)
        requires
            old(self).wf(),
            old(self).active_scenes < usize::MAX,
            old(mgr)@.wf(),
            old(mgr)@.slots.len() == NUM_BUFFERS,
            old(self).active_slot is None ==> old(mgr)@.can_get(old(self).last_token),
        ensures
            final(self).wf(),
            final(mgr)@.wf(),
            final(mgr)@.slots.len() == NUM_BUFFERS,
            scene_gives(*old(self), old(mgr)@, r, *final(self), final(mgr)@),
    {
        let mut rebind = false;
        if self.active_slot.is_none() {
            let slot = match mgr.0.get(self.last_token) {
                None => {
                    return None;
                },
                Some(slot) => slot,
            };
            proof {
                if slot.changed {
                    assert(old(mgr)@.idle(slot.token.slot as int));
                }
            }
            rebind = slot.changed();
            self.last_token = Some(slot.token());
            self.active_slot = Some(slot);
        }
        self.active_scenes = self.active_scenes + 1;
        let slot: u32 = self.active_slot.as_ref().unwrap().slot();
        Some(SceneSlot { slot, rebind })
    }

    /// Counts a scene out. The last one gives the slot back. `true` means that a waiting
    /// user can try again.
    pub fn close_scene(&mut self, mgr: &mut BufferManager) -> (r: bool)
        requires
            old(self).wf(),
            old(self).active_scenes > 0,
            old(mgr)@.wf(),
            old(self).active_scenes == 1 ==> {
                &&& old(mgr)@.issued(old(self).active_slot->0.token)
                &&& old(mgr)@.can_put(old(self).active_slot->0.token)
            },
        ensures
            final(self).wf(),
            final(mgr)@.wf(),
            final(mgr)@.slots.len() == old(mgr)@.slots.len(),
            if old(self).active_scenes > 1 {
                &&& !r
                &&& final(mgr)@ == old(mgr)@
                &&& *final(self) == (Buffer {
                    active_scenes: (old(self).active_scenes - 1) as usize,
                    ..*old(self)
                })
            } else {
                &&& r == !old(mgr)@.idle(old(self).active_slot->0.token.slot as int)
                &&& *final(self) == (Buffer { active_scenes: 0, active_slot: None, ..*old(self) })
                &&& final(mgr)@ == if r {
                    old(mgr)@.returned(old(self).active_slot->0.token, old(self).active_slot->0.item)
                } else {
                    old(mgr)@
                }
            },
    {
        self.active_scenes = self.active_scenes - 1;
        if self.active_scenes == 0 {
            match self.active_slot.take() {
                Some(slot) => mgr.0.put(slot),
                None => false,
            }
        } else {
            false
        }
    }
}

/// The slot of a scene's buffer, and whether the GPU has to be told about the buffer
/// first.
#[derive(Copy, Clone, Debug, PartialEq, Eq, Structural)]
pub struct SceneSlot {
    pub slot: u32,
    pub rebind: bool,
}

/// What opening a scene gives.
pub open spec fn scene_gives(
    buffer: Buffer,
    slots: Slots<SlotInner>,
    r: Option<SceneSlot>,
    after: Buffer,
    slots_after: Slots<SlotInner>,
) -> bool {
    if buffer.active_slot is Some {
        &&& slots_after == slots
        &&& after == (Buffer { active_scenes: (buffer.active_scenes + 1) as usize, ..buffer })
        &&& r == Some(SceneSlot { slot: buffer.active_slot->0.token.slot, rebind: false })
    } else {
        &&& slots.get_gives(buffer.last_token, after.active_slot, slots_after)
        &&& r is Some <==> after.active_slot is Some
        &&& r is None ==> after == buffer
        &&& r matches Some(scene) ==> {
            let guard = after.active_slot->0;
            &&& after == (Buffer {
                active_scenes: 1,
                active_slot: Some(guard),
                last_token: Some(guard.token),
                ..buffer
            })
            &&& scene == (SceneSlot { slot: guard.token.slot, rebind: guard.changed })
        }
    }
}

/// All scenes that are open at a time share one slot, and only the one that got the slot
/// may have to tell the GPU about the buffer.
pub proof fn law_open_scenes_share_the_slot(
    buffer: Buffer,
    slots: Slots<SlotInner>,
    first: SceneSlot,
    after: Buffer,
    slots_after: Slots<SlotInner>,
    second: Option<SceneSlot>,
    last: Buffer,
    slots_last: Slots<SlotInner>,
)
    requires
        buffer.wf(),
        buffer.active_scenes < usize::MAX - 1,
        scene_gives(buffer, slots, Some(first), after, slots_after),
        scene_gives(after, slots_after, second, last, slots_last),
    ensures
        second == Some(SceneSlot { slot: first.slot, rebind: false }),
        slots_last == slots_after,
{
}

/// A buffer that comes back to its last slot, with nobody else having had it, needs no
/// introduction.
pub proof fn law_kept_slot_needs_no_rebind(
    buffer: Buffer,
    slots: Slots<SlotInner>,
    scene: SceneSlot,
    after: Buffer,
    slots_after: Slots<SlotInner>,
)
    requires
        buffer.wf(),
        buffer.active_slot is None,
        buffer.last_token is Some,
        slots.matches(buffer.last_token->0),
        scene_gives(buffer, slots, Some(scene), after, slots_after),
    ensures
        scene == (SceneSlot { slot: buffer.last_token->0.slot, rebind: false }),
{
}

impl Buffer {
    /// The buffer as a sharer of the buffer slots.
    pub open spec fn sharer(self) -> Sharer<SlotInner> {
        Sharer {
            users: self.active_scenes as nat,
            guard: self.active_slot,
            token: self.last_token,
        }
    }
}

/// The slot of a new scene: only the scene for which its buffer got a slot that others may
/// have had has to tell the GPU about the buffer.
pub open spec fn scene_slot(sharer: Sharer<SlotInner>, guard: Guard<SlotInner>) -> SceneSlot {
    SceneSlot { slot: guard.token.slot, rebind: sharer.guard is None && guard.changed }
}

/// Opening a scene is what `Sharer::open_gives` says of a new user.
pub proof fn law_scene_opens(
    buffer: Buffer,
    slots: Slots<SlotInner>,
    r: Option<SceneSlot>,
    after: Buffer,
    slots_after: Slots<SlotInner>,
)
    requires
        buffer.wf(),
        buffer.active_scenes < usize::MAX,
        scene_gives(buffer, slots, r, after, slots_after),
    ensures
        r is None ==> buffer.sharer().open_gives(slots, None, slots_after) && after == buffer,
        r matches Some(scene) ==> {
            let guard = after.active_slot->0;
            &&& buffer.sharer().open_gives(slots, Some(guard), slots_after)
            &&& after.sharer() == buffer.sharer().opened(guard)
            &&& scene == scene_slot(buffer.sharer(), guard)
        },
{
}

/// Whatever buffers open and close scenes: scenes of one buffer that are open at the same
/// time have the same slot, which no other buffer with open scenes has, and only the first
/// of them may have to tell the GPU about the buffer. `i` and `k` open scenes of the
/// buffer, which has open scenes all the time in between.
pub proof fn law_scenes_of_a_buffer_share_its_slot(
    start: Sharing<SlotInner>,
    events: Seq<ShareEvent<SlotInner>>,
    id: u64,
    i: int,
    k: int,
)
    requires
        start.fresh(),
        start.allows_all(events),
        0 <= i < k < events.len(),
        events[i] matches ShareEvent::Open { id: one, guard: Some(_), .. } && one == id,
        events[k] matches ShareEvent::Open { id: two, .. } && two == id,
        forall|j: int| i < j <= k ==> #[trigger] start.after(events, j).active(id),
    ensures
        events[k]->guard is Some,
        scene_slot(start.after(events, k).sharers[id], events[k]->guard->0) == (SceneSlot {
            slot: scene_slot(start.after(events, i).sharers[id], events[i]->guard->0).slot,
            rebind: false,
        }),
        forall|other: u64|
            other != id && #[trigger] start.after(events, k + 1).active(other) ==> start.after(
                events,
                k + 1,
            ).slot(other) != events[k]->guard->0.token.slot,
{
    law_slot_is_kept_while_active(start, events, id, i + 1, k);
    law_sharing_history(start, events, i);
    assert(start.after(events, i).allows(events[i]));
    assert(start.after(events, i + 1) == start.after(events, i).step(events[i]));
    assert(start.after(events, k).allows(events[k]));
    assert(start.after(events, k).active(id));
    law_sharers_have_slots_of_their_own(start, events, k);
}

/// The first scene of a buffer tells the GPU about it.
pub proof fn law_first_scene_rebinds(
    start: Sharing<SlotInner>,
    events: Seq<ShareEvent<SlotInner>>,
    k: int,
)
    requires
        start.fresh(),
        start.allows_all(events),
        0 <= k < events.len(),
    ensures
        events[k] matches ShareEvent::Open { id, guard: Some(guard), .. } ==> (start.after(
            events,
            k,
        ).sharers[id].token is None ==> scene_slot(
            start.after(events, k).sharers[id],
            guard,
        ).rebind),
{
    law_first_slot_is_new(start, events, k);
    law_sharing_history(start, events, k);
    assert(start.after(events, k).allows(events[k]));
    if let ShareEvent::Open { id, .. } = events[k] {
        assert(start.after(events, k).sharer_wf(id));
    }
}

/// A buffer without open scenes that opens one does not have to tell the GPU about itself
/// exactly if it got the very slot of its last scene, with no other buffer having had it in
/// between. `i` is when the buffer last had open scenes, with the token.
pub proof fn law_rebinds_unless_nobody_had_the_slot(
    start: Sharing<SlotInner>,
    events: Seq<ShareEvent<SlotInner>>,
    id: u64,
    token: SlotToken,
    i: int,
    k: int,
)
    requires
        start.fresh(),
        start.allows_all(events),
        0 <= i <= k < events.len(),
        start.after(events, i).active(id),
        forall|j: int|
            i <= j <= k ==> #[trigger] start.after(events, j).sharers.contains_key(id)
                && start.after(events, j).sharers[id].token == Some(token),
        !start.after(events, k).active(id),
        events[k] matches ShareEvent::Open { id: opener, guard: Some(_), .. } && opener == id,
    ensures
        ({
            let scene = scene_slot(start.after(events, k).sharers[id], events[k]->guard->0);
            &&& !scene.rebind <==> (forall|j: int|
                i <= j < k ==> !(#[trigger] events[j]).others_get(id, token.slot))
            &&& !scene.rebind ==> scene.slot == token.slot
        }),
{
    law_slot_is_unchanged_if_nobody_had_it(start, events, id, token, i, k);
    assert(start.after(events, k).sharers.contains_key(id));
}

/// The size of a part of the metadata.
proof fn lemma_meta_part(a: int)
    requires
        0 <= a <= 0x1_0000_0000,
    ensures
        a <= (round_up(a, 0x80) as u64) < a + 0x80,
        (round_up(a, 0x80) as u64) as int % 0x80 == 0,
{
    let q = (a + 0x7f) / 0x80;
    assert(round_up(a, 0x80) == q * 0x80);
    assert((q * 0x80) % 0x80 == 0);
}

proof fn lemma_multiples_add(x: int, y: int)
    requires
        x % 0x80 == 0,
        y % 0x80 == 0,
    ensures
        (x + y) % 0x80 == 0,
{
}

/// The parts of the metadata for `n` clusters.
#[verifier::spinoff_prover]
proof fn lemma_meta_parts(n: int)
    requires
        0 <= n <= 0xffff,
    ensures
        ({
            let meta = MetaSizes::spec_new(n);
            &&& 4 * n <= meta.meta1 < 4 * n + 0x80
            &&& 0x190 * n <= meta.meta2 < 0x190 * n + 0x80
            &&& 0x280 * n <= meta.meta3 < 0x280 * n + 0x80
            &&& 0x30 * n <= meta.meta4 < 0x30 * n + 0x80
            &&& meta.meta1 as int % 0x80 == 0
            &&& (meta.meta1 + meta.meta2) % 0x80 == 0
            &&& (meta.meta1 + meta.meta2 + meta.meta3) % 0x80 == 0
        }),
{
    lemma_meta_part(4 * n);
    lemma_meta_part(0x190 * n);
    lemma_meta_part(0x280 * n);
    lemma_meta_part(0x30 * n);
    let meta = MetaSizes::spec_new(n);
    let (one, two, three) = (meta.meta1 as int, meta.meta2 as int, meta.meta3 as int);
    lemma_multiples_add(one, two);
    lemma_multiples_add(one + two, three);
}

/// The parts of a scene's buffers do not overlap and lie within them, and each part of
/// the metadata starts at a multiple of 0x80.
pub proof fn law_scene_parts_fit(buffer: Buffer)
    requires
        buffer.wf(),
    ensures
        buffer.offsets().preempt2_off <= buffer.offsets().preempt3_off,
        buffer.offsets().preempt3_off + buffer.preempt.preempt3_size == buffer.preempt.total(),
        4 * buffer.num_clusters <= buffer.offsets().meta2_off,
        buffer.offsets().meta2_off + 0x190 * buffer.num_clusters <= buffer.offsets().meta3_off,
        buffer.offsets().meta3_off + 0x280 * buffer.num_clusters <= buffer.offsets().meta4_off,
        buffer.offsets().meta4_off + 0x30 * buffer.num_clusters <= MetaSizes::spec_new(
            buffer.num_clusters as int,
        ).total(),
        buffer.offsets().meta2_off as int % 0x80 == 0,
        buffer.offsets().meta3_off as int % 0x80 == 0,
        buffer.offsets().meta4_off as int % 0x80 == 0,
{
    lemma_meta_parts(buffer.num_clusters as int);
}

/// A scene never gets a buffer for tile pointers that is too small for it.
pub proof fn law_tpc_is_large_enough(buffer: Buffer, size: u64, made: GpuBuffer)
    requires
        size + UAT_PGSZ <= u64::MAX,
        made.size == round_up(size as int, UAT_PGSZ as int),
    ensures
        ({
            let used = if buffer.tpc_fits(size as int) {
                buffer.tpc
            } else {
                Some(made)
            };
            used is Some && used->0.size >= size
        }),
{
    law_round_up(size as int, UAT_PGSZ as int);
}

/// The buffers of a scene, as addresses in GPU memory.
#[derive(Copy, Clone, Debug, PartialEq, Eq, Structural)]
pub struct SceneBuffers {
    pub object: u64,
    pub buffer_info: u64,
    pub kernel_buffer: u64,
    pub user_buffer: u64,
    pub tvb_heapmeta: u64,
    pub tvb_tilemap: u64,
    pub tpc: u64,
    pub preempt_buf: u64,
    pub seq_buf: u64,
    pub clustering: Option<ClusterBuffers>,
}

#[derive(Copy, Clone, Debug, PartialEq, Eq, Structural)]
pub struct ClusterBuffers {
    pub tilemaps: u64,
    pub meta: u64,
}

/// A frame's state in the tiler.
#[derive(Copy, Clone, Debug, PartialEq, Eq, Structural)]
pub struct Scene {
    pub buffers: SceneBuffers,
    pub slot: SceneSlot,
    pub offsets: SceneOffsets,
}

/// The scene object in GPU memory; its other fields are zero.
#[derive(Copy, Clone, Debug, PartialEq, Eq, Structural)]
pub struct RawScene {
    pub user_buffer: u64,
    pub stats: u64,
}

impl Scene {
    /// The parts of the buffers lie within the address range of the machine.
    pub open spec fn wf(self) -> bool {
        &&& self.buffers.preempt_buf + self.offsets.preempt2_off <= u64::MAX
        &&& self.buffers.preempt_buf + self.offsets.preempt3_off <= u64::MAX
        &&& self.buffers.clustering is Some ==> {
            &&& self.buffers.clustering->0.meta + self.offsets.meta2_off <= u64::MAX
            &&& self.buffers.clustering->0.meta + self.offsets.meta3_off <= u64::MAX
            &&& self.buffers.clustering->0.meta + self.offsets.meta4_off <= u64::MAX
        }
    }

    pub open spec fn meta_at(self, offset: u64) -> Option<u64> {
        match self.buffers.clustering {
            Some(c) => Some((c.meta + offset) as u64),
            None => None,
        }
    }

    pub fn rebind(&self) -> (r: bool)
        ensures
            r == self.slot.rebind,
    {
        self.slot.rebind
    }

    pub fn slot(&self) -> (r: u32)
        ensures
            r == self.slot.slot,
    {
        self.slot.slot
    }

    pub fn gpu_pointer(&self) -> (r: u64)
        ensures
            r == self.buffers.object,
    {
        self.buffers.object
    }

    pub fn kernel_buffer_pointer(&self) -> (r: u64)
        ensures
            r == self.buffers.kernel_buffer,
    {
        self.buffers.kernel_buffer
    }

    pub fn buffer_pointer(&self) -> (r: u64)
        ensures
            r == self.buffers.buffer_info,
    {
        self.buffers.buffer_info
    }

    pub fn tvb_heapmeta_pointer(&self) -> (r: u64)
        ensures
            r == self.buffers.tvb_heapmeta,
    {
        self.buffers.tvb_heapmeta
    }

    pub fn tvb_tilemap_pointer(&self) -> (r: u64)
        ensures
            r == self.buffers.tvb_tilemap,
    {
        self.buffers.tvb_tilemap
    }

    pub fn tpc_pointer(&self) -> (r: u64)
        ensures
            r == self.buffers.tpc,
    {
        self.buffers.tpc
    }

    pub fn preempt_buf_1_pointer(&self) -> (r: u64)
        ensures
            r == self.buffers.preempt_buf,
    {
        self.buffers.preempt_buf
    }

    pub fn preempt_buf_2_pointer(&self) -> (r: u64)
        requires
            self.wf(),
        ensures
            r == self.buffers.preempt_buf + self.offsets.preempt2_off,
    {
        self.buffers.preempt_buf + self.offsets.preempt2_off
    }

    pub fn preempt_buf_3_pointer(&self) -> (r: u64)
        requires
            self.wf(),
        ensures
            r == self.buffers.preempt_buf + self.offsets.preempt3_off,
    {
        self.buffers.preempt_buf + self.offsets.preempt3_off
    }

    pub fn cluster_tilemaps_pointer(&self) -> (r: Option<u64>)
        ensures
            r == match self.buffers.clustering {
                Some(c) => Some(c.tilemaps),
                None => None,
            },
    {
        match self.buffers.clustering {
            Some(c) => Some(c.tilemaps),
            None => None,
        }
    }

    pub fn meta_1_pointer(&self) -> (r: Option<u64>)
        ensures
            r == self.meta_at(0),
    {
        match self.buffers.clustering {
            Some(c) => Some(c.meta),
            None => None,
        }
    }

    pub fn meta_2_pointer(&self) -> (r: Option<u64>)
        requires
            self.wf(),
        ensures
            r == self.meta_at(self.offsets.meta2_off),
    {
        match self.buffers.clustering {
            Some(c) => Some(c.meta + self.offsets.meta2_off),
            None => None,
        }
    }

    pub fn meta_3_pointer(&self) -> (r: Option<u64>)
        requires
            self.wf(),
        ensures
            r == self.meta_at(self.offsets.meta3_off),
    {
        match self.buffers.clustering {
            Some(c) => Some(c.meta + self.offsets.meta3_off),
            None => None,
        }
    }

    pub fn meta_4_pointer(&self) -> (r: Option<u64>)
        requires
            self.wf(),
        ensures
            r == self.meta_at(self.offsets.meta4_off),
    {
        match self.buffers.clustering {
            Some(c) => Some(c.meta + self.offsets.meta4_off),
            None => None,
        }
    }

    pub fn seq_buf_pointer(&self) -> (r: u64)
        ensures
            r == self.buffers.seq_buf,
    {
        self.buffers.seq_buf
    }

    /// The scene object in GPU memory.
    pub fn to_raw(&self, stats: u64) -> (r: RawScene)
        ensures
            r == (RawScene { user_buffer: self.buffers.user_buffer, stats }),
    {
        RawScene { user_buffer: self.buffers.user_buffer, stats }
    }
}

/// The sizes of a buffer fit each other: pages make up blocks, and as many pages or blocks
/// as the lists have room for make up the largest buffer.
pub proof fn law_buffer_sizes_fit()
    ensures
        PAGE_SIZE == vstd::arithmetic::power2::pow2(PAGE_SHIFT as nat),
        BLOCK_SIZE == PAGES_PER_BLOCK * PAGE_SIZE,
        MAX_SIZE == MAX_PAGES * PAGE_SIZE == MAX_BLOCKS * BLOCK_SIZE,
        MAX_PAGES == PAGES_PER_BLOCK * MAX_BLOCKS,
        PAGE_SIZE == 2 * UAT_PGSZ,
        MAX_SIZE == 0x4000_0000,
        NUM_BUFFERS == 127,
{
    vstd::arithmetic::power2::lemma2_to64();
}

/// A new buffer's description says where its lists are, how long the list of pages and how
/// large a block is, and that nothing is in use.
pub proof fn law_new_description(
    version: FwVersion,
    page_list: u64,
    block_list: u64,
    block_ctl: u64,
    counter: u64,
    r: Info,
    plan: BufferPlan,
)
    requires
        call_ensures(Info::new, (version, page_list, block_list, block_ctl, counter), r),
        call_ensures(Buffer::plan, (version,), plan),
    ensures
        r.page_list == page_list,
        r.block_list == block_list,
        r.block_ctl == block_ctl,
        r.counter == counter,
        r.page_list_size == plan.page_list.size,
        r.block_size == plan.block.size,
        r.page_count == r.block_count == r.last_page == 0,
        r.last_id == 0,
        r.cur_id == -1,
        r.unk_1c is Some <==> version == FwVersion::V12_3,
        r.unk_1c is Some ==> r.unk_1c->0 == 0,
        r.unk_30 == 0xd1a,
        r.unk_80 == 1,
        r.unk_84 == 0x3468,
        r.unk_88 == 0x1178,
{
}

/// The lists of a buffer have room for every page, a word each, and for every block, two
/// words each, of the largest buffer. What the GPU alone uses comes from the client's
/// memory, what the firmware and the driver share from the driver's.
pub proof fn law_buffer_plan_has_room(version: FwVersion, r: BufferPlan)
    requires
        call_ensures(Buffer::plan, (version,), r),
    ensures
        (r.page_list.size / 4) * 0x8000 == 0x4000_0000,
        (r.block_list.size / 8) * r.block.size == 0x4000_0000,
        r.page_list.size % 4 == 0 && r.block_list.size % 8 == 0,
        r.block.size == 4 * 0x8000,
        r.block.from is User,
        r.page_list.from is UserPrivate && r.block_list.from is UserPrivate,
        r.kernel_buffer.from is KernelPrivate && r.kernel_buffer.size == 0x40,
        r.info.from is KernelShared,
        r.info.size == 0xbc + if version == FwVersion::V12_3 {
            4int
        } else {
            0
        },
        r.block_ctl.from is KernelShared && r.block_ctl.size == 0x40,
        r.counter.from is KernelShared && r.counter.size == 0x40,
        r.stats.from is KernelShared && r.stats.size == 0x40,
{
}

/// Each part of the metadata has its own bytes for each cluster, with less than 0x80 more.
pub proof fn law_metadata_of_each_cluster(num_clusters: u64, r: MetaSizes)
    requires
        num_clusters <= 0xffff,
        call_ensures(MetaSizes::new, (num_clusters,), r),
    ensures
        4 * num_clusters <= r.meta1 < 4 * num_clusters + 0x80,
        0x190 * num_clusters <= r.meta2 < 0x190 * num_clusters + 0x80,
        0x280 * num_clusters <= r.meta3 < 0x280 * num_clusters + 0x80,
        0x30 * num_clusters <= r.meta4 < 0x30 * num_clusters + 0x80,
        r.meta1 as int % 0x80 == 0,
        r.meta2 as int % 0x80 == 0,
        r.meta3 as int % 0x80 == 0,
        r.meta4 as int % 0x80 == 0,
{
    lemma_meta_part(4 * num_clusters);
    lemma_meta_part(0x190 * num_clusters);
    lemma_meta_part(0x280 * num_clusters);
    lemma_meta_part(0x30 * num_clusters);
}

/// Every cluster gets its own room to save a preempted frame, part by part.
pub proof fn law_preemption_room_of_each_cluster(
    sizes: PreemptSizes,
    num_clusters: u64,
    r: PreemptSizes,
)
    requires
        num_clusters * sizes.total() <= u64::MAX,
        call_ensures(PreemptSizes::for_clusters, (&sizes, num_clusters), r),
    ensures
        r.preempt1_size == sizes.preempt1_size * num_clusters,
        r.preempt2_size == sizes.preempt2_size * num_clusters,
        r.preempt3_size == sizes.preempt3_size * num_clusters,
{
    assert(r.preempt1_size == sizes.preempt1_size * num_clusters) by (nonlinear_arith)
        requires
            r.preempt1_size == num_clusters * sizes.preempt1_size,
    ;
    assert(r.preempt2_size == sizes.preempt2_size * num_clusters) by (nonlinear_arith)
        requires
            r.preempt2_size == num_clusters * sizes.preempt2_size,
    ;
    assert(r.preempt3_size == sizes.preempt3_size * num_clusters) by (nonlinear_arith)
        requires
            r.preempt3_size == num_clusters * sizes.preempt3_size,
    ;
}

/// A scene's plan has room for the frame: the tile map, all of the preempted state, and
/// whole pages for the tile pointers, unless those of the last scene are enough. A GPU with
/// several clusters has a tile map and metadata for each of them.
#[verifier::spinoff_prover]
pub proof fn law_scene_plan_has_room(buffer: Buffer, sizes: SceneSizes)
    requires
        buffer.wf(),
        sizes.tpc_size + UAT_PGSZ <= u64::MAX,
        buffer.num_clusters * sizes.tilemap_size <= u64::MAX,
    ensures
        ({
            let plan = buffer.scene_plan(sizes);
            &&& plan.tvb_tilemap.size == sizes.tilemap_size
            &&& plan.preempt_buf.size == buffer.preempt.preempt1_size
                + buffer.preempt.preempt2_size + buffer.preempt.preempt3_size
            &&& plan.offsets.preempt2_off == buffer.preempt.preempt1_size
            &&& plan.offsets.preempt3_off + buffer.preempt.preempt3_size == plan.preempt_buf.size
            &&& plan.seq_buf.size == 8 * 0x800
            &&& plan.user_buffer.size == 0x80
            &&& plan.tvb_heapmeta.size == 0x200
            &&& plan.object.size == 0x40
            &&& plan.object.from is KernelPrivate
            &&& plan.user_buffer.from is User && plan.tvb_heapmeta.from is User
            &&& plan.tvb_tilemap.from is User && plan.preempt_buf.from is User
            &&& plan.seq_buf.from is User
            &&& plan.tpc is None <==> (buffer.tpc matches Some(last) && last.size
                >= sizes.tpc_size)
            &&& plan.tpc matches Some(tpc) ==> {
                &&& tpc.from is UserPrivate
                &&& sizes.tpc_size <= tpc.size < sizes.tpc_size + 0x4000
                &&& tpc.size as int % 0x4000 == 0
            }
            &&& plan.clustering is Some <==> buffer.num_clusters >= 2
            &&& plan.clustering matches Some(c) ==> {
                &&& c.tilemaps.from is User && c.meta.from is User
                &&& c.tilemaps.size == buffer.num_clusters * sizes.tilemap_size
                &&& c.meta.size >= buffer.num_clusters * (plan.offsets.meta4_off + 0x30
                    * buffer.num_clusters)
                &&& c.meta.size < buffer.num_clusters * (plan.offsets.meta4_off + 0x30
                    * buffer.num_clusters + 0x80)
            }
        }),
{
    let n = buffer.num_clusters as int;
    lemma_meta_parts(n);
    law_round_up(sizes.tpc_size as int, UAT_PGSZ as int);
    let total = MetaSizes::spec_new(n).total();
    let low = buffer.offsets().meta4_off + 0x30 * n;
    assert(low <= total < low + 0x80);
    assert(0 <= n * total <= 0xffff * 0x1_0000_0000) by (nonlinear_arith)
        requires
            0 <= n <= 0xffff,
            0 <= total <= 0x1_0000_0000,
    ;
    if n > 1 {
        assert(n * low <= n * total < n * (low + 0x80)) by (nonlinear_arith)
            requires
                n > 1,
                low <= total < low + 0x80,
        ;
    }
}

/// The scene counts its sequence numbers up from the second entry: each entry of the first
/// half but the first is one more than its place, and the rest is zero.
pub proof fn law_sequence_buffer_counts(r: Vec<u64>, i: int)
    requires
        call_ensures(Buffer::seq_buf, (), r),
    ensures
        r@.len() == 0x800,
        1 <= i < 0x400 ==> r@[i] == i + 1,
        0x400 <= i < 0x800 ==> r@[i] == 0,
        r@[0] == 0,
{
}

/// A buffer has room for as many blocks as the largest buffer has, and is full only then.
pub proof fn law_room_for_blocks(buffer: Buffer, count: usize, r: Result<()>)
    requires
        buffer.wf(),
        buffer.blocks@.len() + count <= usize::MAX,
        call_ensures(Buffer::check_blocks, (&buffer, count), r),
    ensures
        r is Ok <==> (buffer.blocks@.len() + count) * 0x2_0000 <= 0x4000_0000,
        r is Err ==> r == Err::<(), Error>(Error::ENOMEM),
{
}

/// The scene object names the scene's user buffer and the buffer's statistics.
pub proof fn law_raw_scene(scene: Scene, stats: u64, r: RawScene)
    requires
        call_ensures(Scene::to_raw, (&scene, stats), r),
    ensures
        r.user_buffer == scene.buffers.user_buffer,
        r.stats == stats,
{
}

/// The parts of a scene's buffers are handed out where the buffers and the offsets put
/// them: in order, one behind the other.
pub proof fn law_scene_pointers(
    scene: Scene,
    one: u64,
    two: u64,
    three: u64,
    tilemaps: Option<u64>,
    meta1: Option<u64>,
    meta2: Option<u64>,
    meta3: Option<u64>,
    meta4: Option<u64>,
)
    requires
        scene.wf(),
        call_ensures(Scene::preempt_buf_1_pointer, (&scene,), one),
        call_ensures(Scene::preempt_buf_2_pointer, (&scene,), two),
        call_ensures(Scene::preempt_buf_3_pointer, (&scene,), three),
        call_ensures(Scene::cluster_tilemaps_pointer, (&scene,), tilemaps),
        call_ensures(Scene::meta_1_pointer, (&scene,), meta1),
        call_ensures(Scene::meta_2_pointer, (&scene,), meta2),
        call_ensures(Scene::meta_3_pointer, (&scene,), meta3),
        call_ensures(Scene::meta_4_pointer, (&scene,), meta4),
    ensures
        one == scene.buffers.preempt_buf,
        two - one == scene.offsets.preempt2_off,
        three - one == scene.offsets.preempt3_off,
        scene.buffers.clustering is Some <==> tilemaps is Some,
        scene.buffers.clustering is Some <==> meta1 is Some,
        scene.buffers.clustering is Some <==> meta2 is Some,
        scene.buffers.clustering is Some <==> meta3 is Some,
        scene.buffers.clustering is Some <==> meta4 is Some,
        scene.buffers.clustering matches Some(c) ==> {
            &&& tilemaps == Some(c.tilemaps)
            &&& meta1 == Some(c.meta)
            &&& meta2->0 - c.meta == scene.offsets.meta2_off
            &&& meta3->0 - c.meta == scene.offsets.meta3_off
            &&& meta4->0 - c.meta == scene.offsets.meta4_off
        },
{
}

/// What a scene says of its buffer, its slot and its other parts is what it was made with.
pub proof fn law_scene_names_its_buffers(
    scene: Scene,
    slot: u32,
    rebind: bool,
    object: u64,
    info: u64,
    kernel: u64,
    heapmeta: u64,
    tilemap: u64,
    tpc: u64,
    seq: u64,
)
    requires
        call_ensures(Scene::slot, (&scene,), slot),
        call_ensures(Scene::rebind, (&scene,), rebind),
        call_ensures(Scene::gpu_pointer, (&scene,), object),
        call_ensures(Scene::buffer_pointer, (&scene,), info),
        call_ensures(Scene::kernel_buffer_pointer, (&scene,), kernel),
        call_ensures(Scene::tvb_heapmeta_pointer, (&scene,), heapmeta),
        call_ensures(Scene::tvb_tilemap_pointer, (&scene,), tilemap),
        call_ensures(Scene::tpc_pointer, (&scene,), tpc),
        call_ensures(Scene::seq_buf_pointer, (&scene,), seq),
    ensures
        scene.slot == (SceneSlot { slot, rebind }),
        scene.buffers.object == object,
        scene.buffers.buffer_info == info,
        scene.buffers.kernel_buffer == kernel,
        scene.buffers.tvb_heapmeta == heapmeta,
        scene.buffers.tvb_tilemap == tilemap,
        scene.buffers.tpc == tpc,
        scene.buffers.seq_buf == seq,
{
}

/// A buffer's pages are listed in order: the pages of a block follow each other, and each
/// entry is the number of the page that its address lies in.
pub proof fn law_listed_pages_cover_the_blocks(buffer: Buffer, i: int, j: int)
    requires
        buffer.wf(),
        0 <= i < buffer.blocks@.len(),
        0 <= j < 4,
    ensures
        ({
            let page = buffer.page_list@[4 * i + j] as int;
            &&& (page - j) * 0x8000 <= buffer.blocks@[i] < (page - j + 1) * 0x8000
            &&& buffer.block_list@[2 * i] == page - j
            &&& buffer.block_list@[2 * i + 1] == 0
            &&& buffer.page_count == 4 * buffer.block_count
            &&& buffer.last_page + 1 == buffer.page_count
            &&& buffer.block_ctl.total == buffer.block_ctl.wptr == buffer.block_count
            &&& buffer.block_count == buffer.blocks@.len()
        }),
{
    assert(buffer.page_list@[PAGES_PER_BLOCK * i + j] == page_number(buffer.blocks@[i]) + j);
    assert(buffer.block_list@[2 * i] == page_number(buffer.blocks@[i]));
    assert((2 * i + 1) % 2 == 1);
}

/// Adding blocks keeps the ones that were there and appends the new ones in order, all or
/// none, and touches nothing else of the buffer.
pub proof fn law_blocks_are_appended(buffer: &mut Buffer, new_blocks: Vec<u64>, r: Result<()>)
    requires
        old(buffer).wf(),
        old(buffer).blocks@.len() + new_blocks@.len() <= usize::MAX,
        call_ensures(Buffer::add_blocks, (buffer, &new_blocks), r),
    ensures
        r is Ok <==> (old(buffer).blocks@.len() + new_blocks@.len()) * 0x2_0000 <= 0x4000_0000,
        r is Err ==> r == Err::<(), Error>(Error::ENOMEM) && *final(buffer) == *old(buffer),
        r is Ok ==> {
            &&& final(buffer).blocks@.len() == old(buffer).blocks@.len() + new_blocks@.len()
            &&& final(buffer).blocks@.take(old(buffer).blocks@.len() as int)
                =~= old(buffer).blocks@
            &&& final(buffer).blocks@.skip(old(buffer).blocks@.len() as int) =~= new_blocks@
            &&& final(buffer).block_count == final(buffer).blocks@.len()
            &&& final(buffer).page_count == 4 * final(buffer).blocks@.len()
            &&& final(buffer).block_ctl.total == final(buffer).block_ctl.wptr
                == final(buffer).blocks@.len()
        },
        final(buffer).counter == old(buffer).counter,
        final(buffer).cpu_flag == old(buffer).cpu_flag,
        final(buffer).sharer() == old(buffer).sharer(),
        final(buffer).tpc == old(buffer).tpc,
        final(buffer).preempt == old(buffer).preempt,
        final(buffer).num_clusters == old(buffer).num_clusters,
{
}

/// Frames are counted one by one; the count starts again after the last number.
pub proof fn law_frames_are_counted(buffer: &mut Buffer)
    requires
        old(buffer).wf(),
        call_ensures(Buffer::increment, (buffer,), ()),
    ensures
        old(buffer).counter < u32::MAX ==> final(buffer).counter == old(buffer).counter + 1,
        old(buffer).counter == u32::MAX ==> final(buffer).counter == 0,
        final(buffer).blocks@ == old(buffer).blocks@,
        final(buffer).sharer() == old(buffer).sharer(),
{
}

/// A scene's plan is made for the frame at hand, and raises the flag for the firmware.
pub proof fn law_planning_raises_the_flag(buffer: &mut Buffer, sizes: SceneSizes, r: ScenePlan)
    requires
        old(buffer).wf(),
        call_ensures(Buffer::plan_scene, (buffer, &sizes), r),
    ensures
        final(buffer).cpu_flag == 1,
        final(buffer).blocks@ == old(buffer).blocks@,
        final(buffer).sharer() == old(buffer).sharer(),
        final(buffer).tpc == old(buffer).tpc,
        r.tvb_tilemap.size == sizes.tilemap_size,
        r.tpc matches Some(tpc) ==> tpc.size >= sizes.tpc_size,
        r.tpc is None ==> old(buffer).tpc is Some && old(buffer).tpc->0.size >= sizes.tpc_size,
{
}

/// A new buffer for tile pointers takes the place of the last one; without a new one the
/// last one is used again.
pub proof fn law_tile_pointers_are_kept(
    buffer: &mut Buffer,
    new: Option<GpuBuffer>,
    r: Option<GpuBuffer>,
)
    requires
        old(buffer).wf(),
        call_ensures(Buffer::take_tpc, (buffer, new), r),
    ensures
        new is Some ==> r == new,
        new is None ==> r == old(buffer).tpc,
        final(buffer).tpc == r,
        final(buffer).sharer() == old(buffer).sharer(),
        final(buffer).blocks@ == old(buffer).blocks@,
{
}

/// A scene that is opened and closed again leaves the count of scenes as it was; the slot
/// is held exactly while there are scenes.
pub proof fn law_scenes_are_counted_in_and_out(
    buffer: &mut Buffer,
    mgr: &mut BufferManager,
    r: bool,
)
    requires
        old(buffer).wf(),
        old(buffer).active_scenes > 0,
        call_ensures(Buffer::close_scene, (buffer, mgr), r),
    ensures
        final(buffer).active_scenes + 1 == old(buffer).active_scenes,
        final(buffer).active_slot is Some <==> final(buffer).active_scenes > 0,
        final(buffer).active_scenes > 0 ==> final(buffer).active_slot == old(buffer).active_slot
            && !r,
        final(buffer).last_token == old(buffer).last_token,
        !r ==> final(mgr)@ == old(mgr)@,
        final(buffer).blocks@ == old(buffer).blocks@,
{
}

/// Opening a scene counts one more, and gives the slot that the buffer holds.
pub proof fn law_open_scene_holds_the_slot(
    buffer: &mut Buffer,
    mgr: &mut BufferManager,
    r: Option<SceneSlot>,
)
    requires
        old(buffer).wf(),
        old(buffer).active_scenes < usize::MAX,
        call_ensures(Buffer::open_scene, (buffer, mgr), r),
    ensures
        r is None ==> *final(buffer) == *old(buffer) && old(buffer).active_slot is None,
        r matches Some(scene) ==> {
            &&& final(buffer).active_scenes == old(buffer).active_scenes + 1
            &&& final(buffer).active_slot matches Some(guard) && guard.token.slot == scene.slot
            &&& final(buffer).last_token matches Some(token) && token.slot == scene.slot
            &&& scene.rebind ==> old(buffer).active_scenes == 0
            &&& old(buffer).active_slot is None ==> scene.rebind
                == final(buffer).active_slot->0.changed
        },
        final(buffer).blocks@ == old(buffer).blocks@,
{
}

/// A new buffer is empty and not in use: its lists are zero, its flag is up, and every
/// cluster has its room for preemption.
pub proof fn law_new_buffer(
    num_clusters: u64,
    preempt: PreemptSizes,
    r: Buffer,
    count: u32,
    mgr: BufferManager,
    i: int,
)
    requires
        num_clusters <= 0xffff,
        num_clusters * preempt.total() <= u64::MAX,
        call_ensures(Buffer::new, (num_clusters, &preempt), r),
        call_ensures(Buffer::block_count, (&r,), count),
        call_ensures(BufferManager::new, (), mgr),
    ensures
        count == 0 && r.blocks@.len() == 0,
        r.page_count == 0 && r.block_count == 0 && r.last_page == 0,
        r.block_ctl.total == 0 && r.block_ctl.wptr == 0,
        r.page_list@.len() == 0x8000 && r.block_list@.len() == 0x4000,
        0 <= i < 0x8000 ==> r.page_list@[i] == 0,
        0 <= i < 0x4000 ==> r.block_list@[i] == 0,
        r.counter == 0,
        r.cpu_flag == 1,
        r.active_scenes == 0 && r.active_slot is None && r.last_token is None,
        r.tpc is None,
        r.num_clusters == num_clusters,
        r.preempt.preempt1_size == num_clusters * preempt.preempt1_size,
        r.preempt.preempt2_size == num_clusters * preempt.preempt2_size,
        r.preempt.preempt3_size == num_clusters * preempt.preempt3_size,
        mgr@.slots.len() == 127,
        0 <= i < 127 ==> mgr@.idle(i),
        mgr@.get_count == 0 && mgr@.drop_count == 0,
{
}

/// A buffer counts its blocks.
pub proof fn law_blocks_are_counted(buffer: Buffer, r: u32)
    requires
        buffer.wf(),
        call_ensures(Buffer::block_count, (&buffer,), r),
    ensures
        r == buffer.blocks@.len() == buffer.block_count == buffer.block_ctl.total,
{
}

} // verus!
