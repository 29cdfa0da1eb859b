//! Allocation of GPU objects from a heap of address space.
//!
//! The range allocator chooses where in the heap's address range an object goes. The
//! heap backs that range, from its start up, with memory blocks that it adds as the
//! objects reach higher. Blocks that the CPU also maps are followed by a guard range that
//! no object is placed in, so that no object spans two blocks.
use crate::drm::mm::{InsertMode, InsertRequest};
use crate::error::{Error, Result};
use crate::mmu::{UAT_PGMSK, UAT_PGSZ};
use crate::util::{
    is_power_of_two, law_round_up, lemma_align_mask, lemma_mask_down, lemma_power_of_two_pos,
    lemma_powers_of_two, max, max_u64, power_of_two, round_up,
};
use vstd::prelude::*;

verus! {

/// The size and alignment of an array of `count` items.
pub fn array_layout<T>(count: usize) -> (r: (usize, usize))
    requires
        vstd::layout::size_of::<T>() * count <= usize::MAX,
    ensures
        r.0 == vstd::layout::size_of::<T>() * count,
        r.1 == vstd::layout::align_of::<T>(),
{
    (core::mem::size_of::<T>() * count, core::mem::align_of::<T>())
}

/// What a simple allocator asks for: an object of its own for each allocation, placed so
/// that the allocation ends as near to the end of the object as its alignment allows.
#[derive(Copy, Clone, Debug, PartialEq, Eq, Structural)]
pub struct SimplePlan {
    /// The size of the object.
    pub object_size: u64,
    /// Where in the object the allocation starts.
    pub offset: u64,
    /// The alignment of the object's mapping, which goes somewhere into `start..end`.
    pub map_align: u64,
    pub start: u64,
    pub end: u64,
    pub prot: u32,
}

/// An allocator for debugging: overruns leave the object and fault.
#[derive(Copy, Clone, Debug)]
pub struct SimpleAllocator {
    pub start: u64,
    pub end: u64,
    pub prot: u32,
    pub min_align: u64,
}

impl SimpleAllocator {
    pub fn new(start: u64, end: u64, min_align: u64, prot: u32) -> (r: SimpleAllocator)
        ensures
            r == (SimpleAllocator { start, end, prot, min_align }),
    {
        SimpleAllocator { start, end, prot, min_align }
    }

    /// The alignment that an allocation gets.
    pub open spec fn align(self, align: int) -> int {
        max(self.min_align as int, align)
    }

    pub fn allocate(&self, size: u64, align: u64) -> (r: SimplePlan)
        requires
            size + UAT_PGSZ <= u64::MAX,
            self.align(align as int) >= 1,
        ensures
            r.object_size == round_up(size as int, UAT_PGSZ as int),
            r.offset == ((r.object_size - size) as u64) & !((self.align(align as int) - 1) as u64),
            r.offset + size <= r.object_size,
            power_of_two(self.align(align as int)) ==> {
                &&& r.offset == (r.object_size - size) - (r.object_size - size) % self.align(
                    align as int,
                )
                &&& r.offset as int % self.align(align as int) == 0
            },
            r.map_align == max(self.min_align as int, UAT_PGSZ as int),
            r.start == self.start,
            r.end == self.end,
            r.prot == self.prot,
    {
        proof {
            lemma_powers_of_two();
            law_round_up(size as int, UAT_PGSZ as int);
        }
        let size_aligned: u64 = page_align(size);
        let align: u64 = max_u64(self.min_align, align);
        let rest: u64 = size_aligned - size;
        let offset: u64 = rest & !(align - 1);
        proof {
            let mask = (align - 1) as u64;
            assert(rest & !mask <= rest) by (bit_vector);
            if power_of_two(align as int) {
                lemma_mask_down(rest, align);
            }
        }
        SimplePlan {
            object_size: size_aligned,
            offset,
            map_align: max_u64(self.min_align, UAT_PGSZ),
            start: self.start,
            end: self.end,
            prot: self.prot,
        }
    }
}

/// A simple allocation: where the GPU finds it, and where in its object it starts.
#[derive(Copy, Clone, Debug, PartialEq, Eq, Structural)]
pub struct SimpleAllocation {
    pub gpu_ptr: u64,
    pub offset: u64,
    pub size: u64,
}

impl SimplePlan {
    /// The allocation of `size`, once its object has been mapped at `iova`.
    pub fn place(&self, iova: u64, size: u64) -> (r: SimpleAllocation)
        requires
            iova + self.offset <= u64::MAX,
        ensures
            r == (SimpleAllocation {
                gpu_ptr: (iova + self.offset) as u64,
                offset: self.offset,
                size,
            }),
    {
        SimpleAllocation { gpu_ptr: iova + self.offset, offset: self.offset, size }
    }
}

/// Where a simple allocation starts, given where its object was mapped: if the object
/// respects the mapping's alignment the allocation respects its own.
pub proof fn law_simple_allocation_is_aligned(iova: int, plan: SimplePlan, align: int)
    requires
        align >= 1,
        plan.offset as int % align == 0,
        plan.map_align as int % align == 0,
        iova % (plan.map_align as int) == 0,
        plan.map_align >= 1,
    ensures
        (iova + plan.offset) % align == 0,
{
    let k = iova / plan.map_align as int;
    let m = plan.map_align as int / align;
    vstd::arithmetic::div_mod::lemma_fundamental_div_mod(iova, plan.map_align as int);
    vstd::arithmetic::div_mod::lemma_fundamental_div_mod(plan.map_align as int, align);
    assert(iova == align * (m * k)) by (nonlinear_arith)
        requires
            iova == plan.map_align * k,
            plan.map_align == align * m,
    ;
    vstd::arithmetic::div_mod::lemma_mod_multiples_vanish(m * k, plan.offset as int, align);
}

/// Rounds a size up to whole pages.
pub fn page_align(size: u64) -> (r: u64)
    requires
        size + UAT_PGSZ <= u64::MAX,
    ensures
        r == round_up(size as int, UAT_PGSZ as int),
        r >= size,
{
    proof {
        lemma_powers_of_two();
        lemma_align_mask(size, UAT_PGSZ);
        law_round_up(size as int, UAT_PGSZ as int);
    }
    (size + UAT_PGSZ - 1) & !UAT_PGMSK
}

/// A memory block behind part of the heap.
pub struct Block<O> {
    pub object: O,
    /// Where the block is mapped.
    pub start: u64,
    pub size: u64,
}

impl<O> Block<O> {
    pub open spec fn end(self) -> int {
        self.start + self.size
    }

    pub open spec fn holds(self, addr: int) -> bool {
        self.start <= addr < self.end()
    }
}

/// A range that no object is placed in.
#[derive(Copy, Clone, Debug, PartialEq, Eq, Structural)]
pub struct GuardRange {
    pub start: u64,
    pub size: u64,
}

/// The contents of a heap.
#[verifier::ext_equal]
pub struct Heap<O> {
    pub start: u64,
    /// The last address of the heap.
    pub end: u64,
    /// Where the next block goes.
    pub top: u64,
    pub prot: u32,
    pub min_align: u64,
    pub block_size: u64,
    pub cpu_maps: bool,
    pub blocks: Seq<Block<O>>,
    pub guards: Seq<GuardRange>,
}

impl<O> Heap<O> {
    pub open spec fn guard_size(self) -> int {
        if self.cpu_maps {
            max(self.min_align as int, UAT_PGSZ as int)
        } else {
            0
        }
    }

    /// Where block `i` starts: the blocks and their guards follow each other from the
    /// start of the heap without gaps.
    pub open spec fn block_start(self, i: int) -> int {
        if i <= 0 {
            self.start as int
        } else {
            self.blocks[i - 1].end() + self.guard_size()
        }
    }

    pub open spec fn wf(self) -> bool {
        &&& power_of_two(self.min_align as int)
        &&& self.block_size >= self.min_align
        &&& self.block_size >= 1
        &&& self.start <= self.end
        &&& self.top == self.block_start(self.blocks.len() as int)
        &&& forall|i: int|
            0 <= i < self.blocks.len() ==> {
                &&& (#[trigger] self.blocks[i]).start == self.block_start(i)
                &&& self.blocks[i].size > 0
                &&& self.blocks[i].size as int % UAT_PGSZ as int == 0
                &&& self.blocks[i].end() <= self.top
            }
        &&& self.guards.len() == if self.cpu_maps {
            self.blocks.len()
        } else {
            0
        }
        &&& forall|i: int|
            0 <= i < self.guards.len() ==> {
                &&& (#[trigger] self.guards[i]).start == self.blocks[i].end()
                &&& self.guards[i].size == self.guard_size()
            }
    }

    /// A range that the range allocator may hand out: it lies in the heap and meets no
    /// guard.
    pub open spec fn can_place(self, start: int, size: int) -> bool {
        &&& size > 0
        &&& self.start <= start
        &&& start + size <= self.end + 1
        &&& forall|i: int|
            0 <= i < self.guards.len() ==> start + size <= (#[trigger] self.guards[i]).start
                || self.guards[i].start + self.guards[i].size <= start
    }

    /// The block that holds an address.
    pub open spec fn block_at(self, addr: int) -> Option<int> {
        if exists|i: int| 0 <= i < self.blocks.len() && (#[trigger] self.blocks[i]).holds(addr) {
            Some(choose|i: int| 0 <= i < self.blocks.len() && (#[trigger] self.blocks[i]).holds(addr))
        } else {
            None
        }
    }

    /// The block that an allocation's CPU pointer goes into: the last one if it was just
    /// added, else the one that holds its start.
    pub open spec fn backing(self, start: int, new_object: bool) -> Option<int> {
        if new_object {
            Some(self.blocks.len() - 1)
        } else {
            self.block_at(start)
        }
    }

    /// What an object that the range allocator placed at `start` becomes. It is an I/O
    /// error if the CPU maps the heap and no block holds the object.
    pub open spec fn allocation(self, start: u64, size: u64, new_object: bool) -> Result<
        HeapAllocation,
    > {
        if !self.cpu_maps {
            Ok(HeapAllocation { gpu_ptr: start, size, cpu: None })
        } else {
            match self.backing(start as int, new_object) {
                Some(i) => Ok(
                    HeapAllocation {
                        gpu_ptr: start,
                        size,
                        cpu: Some(
                            CpuPointer {
                                block: i as usize,
                                offset: (start - self.blocks[i].start) as u64,
                            },
                        ),
                    },
                ),
                None => Err(Error::EIO),
            }
        }
    }

    /// The size of the block that an allocation up to `end` needs.
    pub open spec fn needed(self, end: int) -> int {
        max(self.block_size as int, end - self.top)
    }

    /// What adding a block of `size` takes.
    pub open spec fn block_plan(self, size: int) -> BlockPlan {
        BlockPlan {
            size: round_up(size, UAT_PGSZ as int) as u64,
            gpu_ptr: self.top,
            prot: self.prot,
            exhausted: self.top + round_up(size, UAT_PGSZ as int) >= self.end,
        }
    }

    /// The guard range to reserve behind a block of `size` once that is mapped.
    pub open spec fn guard_after(self, size: int) -> GuardRange {
        GuardRange {
            start: (self.top + round_up(size, UAT_PGSZ as int)) as u64,
            size: self.guard_size() as u64,
        }
    }

    /// The state after a block of `size` has been added.
    pub open spec fn grown(self, size: int, object: O) -> Heap<O> {
        let aligned = round_up(size, UAT_PGSZ as int);
        Heap {
            top: (self.top + aligned + self.guard_size()) as u64,
            blocks: self.blocks.push(Block { object, start: self.top, size: aligned as u64 }),
            guards: if self.cpu_maps {
                self.guards.push(
                    GuardRange {
                        start: (self.top + aligned) as u64,
                        size: self.guard_size() as u64,
                    },
                )
            } else {
                self.guards
            },
            ..self
        }
    }
}

proof fn lemma_blocks_ascend<O>(heap: Heap<O>, i: int, j: int)
    requires
        heap.wf(),
        0 <= i < j < heap.blocks.len(),
    ensures
        heap.blocks[i].end() + heap.guard_size() <= heap.blocks[j].start,
    decreases j - i,
{
    assert(heap.blocks[j].start == heap.block_start(j));
    if i < j - 1 {
        lemma_blocks_ascend(heap, i, j - 1);
        assert(heap.blocks[j - 1].size > 0);
    }
}

proof fn lemma_block_at<O>(heap: Heap<O>, addr: int, i: int)
    requires
        heap.wf(),
        0 <= i < heap.blocks.len(),
        heap.blocks[i].holds(addr),
    ensures
        heap.block_at(addr) == Some(i),
{
    let k = heap.block_at(addr)->0;
    assert(heap.blocks[k].holds(addr));
    if k < i {
        lemma_blocks_ascend(heap, k, i);
    } else if k > i {
        lemma_blocks_ascend(heap, i, k);
    }
}

/// No two blocks overlap, and no block overlaps a guard.
pub proof fn law_blocks_are_disjoint<O>(heap: Heap<O>)
    requires
        heap.wf(),
    ensures
        forall|i: int, j: int|
            0 <= i < j < heap.blocks.len() ==> (#[trigger] heap.blocks[i]).end() <= (
            #[trigger] heap.blocks[j]).start,
        forall|i: int, j: int|
            0 <= i < heap.blocks.len() && 0 <= j < heap.guards.len() ==> (
            #[trigger] heap.blocks[i]).end() <= (#[trigger] heap.guards[j]).start
                || heap.guards[j].start + heap.guards[j].size <= heap.blocks[i].start,
{
    assert forall|i: int, j: int| 0 <= i < j < heap.blocks.len() implies (
    #[trigger] heap.blocks[i]).end() <= (#[trigger] heap.blocks[j]).start by {
        lemma_blocks_ascend(heap, i, j);
    }
    assert forall|i: int, j: int|
        0 <= i < heap.blocks.len() && 0 <= j < heap.guards.len() implies (
    #[trigger] heap.blocks[i]).end() <= (#[trigger] heap.guards[j]).start || heap.guards[j].start
        + heap.guards[j].size <= heap.blocks[i].start by {
        if i < j {
            lemma_blocks_ascend(heap, i, j);
        } else if j < i {
            lemma_blocks_ascend(heap, j, i);
        }
    }
}

/// What the CPU mapping of an allocation needs is there: an object placed below the top,
/// clear of all guards, lies in one block.
pub proof fn law_placed_object_lies_in_one_block<O>(heap: Heap<O>, start: int, size: int)
    requires
        heap.wf(),
        heap.cpu_maps,
        heap.can_place(start, size),
        start + size <= heap.top,
    ensures
        heap.block_at(start) is Some,
        heap.blocks[heap.block_at(start)->0].start <= start,
        start + size <= heap.blocks[heap.block_at(start)->0].end(),
{
    lemma_find_block(heap, start, size, heap.blocks.len() as int);
}

proof fn lemma_find_block<O>(heap: Heap<O>, start: int, size: int, n: int)
    requires
        heap.wf(),
        heap.cpu_maps,
        heap.can_place(start, size),
        0 <= n <= heap.blocks.len(),
        start + size <= heap.block_start(n),
    ensures
        heap.block_at(start) is Some,
        heap.blocks[heap.block_at(start)->0].start <= start,
        start + size <= heap.blocks[heap.block_at(start)->0].end(),
    decreases n,
{
    if n > 0 {
        let b = heap.blocks[n - 1];
        assert(heap.guards[n - 1].start == b.end());
        assert(heap.guards[n - 1].size == heap.guard_size());
        assert(start + size <= b.end());
        if b.start <= start {
            lemma_block_at(heap, start, n - 1);
        } else if n - 1 > 0 {
            assert(b.start == heap.block_start(n - 1));
            assert(heap.guards[n - 2].start + heap.guards[n - 2].size == b.start);
            lemma_find_block(heap, start, size, n - 1);
        }
    }
}

/// An object that reaches above the top starts at the top or above it, and the block
/// that is added for it covers it.
pub proof fn law_new_block_covers_the_object<O>(heap: Heap<O>, start: int, size: int, object: O)
    requires
        heap.wf(),
        heap.cpu_maps,
        heap.can_place(start, size),
        start + size > heap.top,
        heap.top + round_up(heap.needed(start + size), UAT_PGSZ as int) + heap.guard_size()
            <= u64::MAX,
    ensures
        heap.grown(heap.needed(start + size), object).wf(),
        heap.grown(heap.needed(start + size), object).blocks.last().start <= start,
        start + size <= heap.grown(heap.needed(start + size), object).blocks.last().end(),
        start + size <= heap.grown(heap.needed(start + size), object).top,
{
    law_round_up(heap.needed(start + size), UAT_PGSZ as int);
    lemma_grown_wf(heap, heap.needed(start + size), object);
    let n = heap.blocks.len() as int;
    if n > 0 {
        assert(heap.guards[n - 1].start + heap.guards[n - 1].size == heap.top);
        assert(heap.blocks[n - 1].end() <= heap.top);
    }
}

proof fn lemma_grown_wf<O>(heap: Heap<O>, size: int, object: O)
    requires
        heap.wf(),
        size >= 1,
        heap.top + round_up(size, UAT_PGSZ as int) + heap.guard_size() <= u64::MAX,
    ensures
        heap.grown(size, object).wf(),
{
    law_round_up(size, UAT_PGSZ as int);
    let after = heap.grown(size, object);
    let n = heap.blocks.len() as int;
    assert forall|i: int| 0 <= i <= n implies after.block_start(i) == heap.block_start(i) by {
        if i > 0 {
            assert(after.blocks[i - 1] == heap.blocks[i - 1]);
        }
    }
    assert forall|i: int| 0 <= i < after.blocks.len() implies {
        &&& (#[trigger] after.blocks[i]).start == after.block_start(i)
        &&& after.blocks[i].size > 0
        &&& after.blocks[i].size as int % UAT_PGSZ as int == 0
        &&& after.blocks[i].end() <= after.top
    } by {
        if i < n {
            assert(after.blocks[i] == heap.blocks[i]);
        }
    }
    assert forall|i: int| 0 <= i < after.guards.len() implies {
        &&& (#[trigger] after.guards[i]).start == after.blocks[i].end()
        &&& after.guards[i].size == after.guard_size()
    } by {
        if i < n {
            assert(after.guards[i] == heap.guards[i]);
            assert(after.blocks[i] == heap.blocks[i]);
        }
    }
}

/// What adding a block takes.
#[derive(Copy, Clone, Debug, PartialEq, Eq, Structural)]
pub struct BlockPlan {
    /// The size of the block's object.
    pub size: u64,
    /// Where to map it.
    pub gpu_ptr: u64,
    pub prot: u32,
    /// The heap's address range does not reach that far: worth a complaint.
    pub exhausted: bool,
}

/// An allocated object.
#[derive(Copy, Clone, Debug, PartialEq, Eq, Structural)]
pub struct HeapAllocation {
    pub gpu_ptr: u64,
    pub size: u64,
    /// Of a heap that the CPU maps: the block that backs the object, and where in the
    /// block it starts.
    pub cpu: Option<CpuPointer>,
}

#[derive(Copy, Clone, Debug, PartialEq, Eq, Structural)]
pub struct CpuPointer {
    pub block: usize,
    pub offset: u64,
}

/// Searches ascending blocks for the one that holds `addr`.
fn search<O>(blocks: &Vec<Block<O>>, addr: u64) -> (r: Option<usize>)
    requires
        forall|i: int| 0 <= i < blocks@.len() ==> (#[trigger] blocks@[i]).end() <= u64::MAX,
        forall|i: int, j: int|
            0 <= i < j < blocks@.len() ==> (#[trigger] blocks@[i]).end() <= (
            #[trigger] blocks@[j]).start,
    ensures
        match r {
            Some(i) => i < blocks@.len() && blocks@[i as int].holds(addr as int),
            None => forall|i: int|
                0 <= i < blocks@.len() ==> !(#[trigger] blocks@[i]).holds(addr as int),
        },
{
    let mut low: usize = 0;
    let mut high: usize = blocks.len();
    while low < high
        invariant
            low <= high <= blocks@.len(),
            forall|i: int| 0 <= i < blocks@.len() ==> (#[trigger] blocks@[i]).end() <= u64::MAX,
            forall|i: int, j: int|
                0 <= i < j < blocks@.len() ==> (#[trigger] blocks@[i]).end() <= (
                #[trigger] blocks@[j]).start,
            forall|i: int| 0 <= i < low ==> (#[trigger] blocks@[i]).end() <= addr,
            forall|i: int| high <= i < blocks@.len() ==> (#[trigger] blocks@[i]).start > addr,
        decreases high - low,
    {
        let mid: usize = low + (high - low) / 2;
        let block = &blocks[mid];
        assert(*block == blocks@[mid as int]);
        if block.start > addr {
            high = mid;
        } else if block.start + block.size <= addr {
            low = mid + 1;
        } else {
            return Some(mid);
        }
    }
    None
}

pub struct HeapAllocator<O> {
    start: u64,
    end: u64,
    top: u64,
    prot: u32,
    min_align: u64,
    block_size: u64,
    cpu_maps: bool,
    backing_objects: Vec<Block<O>>,
    guard_nodes: Vec<GuardRange>,
}

impl<O> View for HeapAllocator<O> {
    type V = Heap<O>;

    closed spec fn view(&self) -> Heap<O> {
        Heap {
            start: self.start,
            end: self.end,
            top: self.top,
            prot: self.prot,
            min_align: self.min_align,
            block_size: self.block_size,
            cpu_maps: self.cpu_maps,
            blocks: self.backing_objects@,
            guards: self.guard_nodes@,
        }
    }
}

impl<O> HeapAllocator<O> {
    /// An empty heap over `start..=end`. Its minimum alignment has to be a power of two.
    pub fn new(
        start: u64,
        end: u64,
        min_align: u64,
        prot: u32,
        block_size: u64,
        cpu_maps: bool,
    ) -> (r: Result<HeapAllocator<O>>)
        requires
            start <= end,
        ensures
            match r {
                Ok(heap) => {
                    &&& power_of_two(min_align as int)
                    &&& heap@.wf()
                    &&& heap@ == (Heap::<O> {
                        start,
                        end,
                        top: start,
                        prot,
                        min_align,
                        block_size: max(block_size as int, min_align as int) as u64,
                        cpu_maps,
                        blocks: Seq::empty(),
                        guards: Seq::empty(),
                    })
                },
                Err(e) => !power_of_two(min_align as int) && e == Error::EINVAL,
            },
    {
        if !is_power_of_two(min_align) {
            return Err(Error::EINVAL);
        }
        proof {
            lemma_power_of_two_pos(min_align as int);
        }
        let heap = HeapAllocator {
            start,
            end,
            top: start,
            prot,
            min_align,
            block_size: max_u64(block_size, min_align),
            cpu_maps,
            backing_objects: Vec::new(),
            guard_nodes: Vec::new(),
        };
        Ok(heap)
    }

    /// The size of the address range that the range allocator manages.
    pub fn mm_size(&self) -> (r: u64)
        requires
            self@.wf(),
            self@.end - self@.start < u64::MAX,
        ensures
            r == self@.end - self@.start + 1,
    {
        self.end - self.start + 1
    }

    /// The alignment that an allocation gets.
    pub open spec fn align(&self, align: int) -> int {
        max(self@.min_align as int, align)
    }

    /// What to ask the range allocator for. The alignment has to be a power of two, or
    /// zero for none.
    pub fn alloc_request(&self, size: u64, align: u64) -> (r: Result<InsertRequest>)
        requires
            self@.wf(),
            align == 0 || power_of_two(align as int) ==> size + self.align(align as int)
                <= u64::MAX,
        ensures
            match r {
                Ok(request) => {
                    &&& align == 0 || power_of_two(align as int)
                    &&& request == (InsertRequest {
                        size: round_up(size as int, self.align(align as int)) as u64,
                        alignment: self.align(align as int) as u64,
                        color: 0,
                        start: 0,
                        end: u64::MAX,
                        mode: InsertMode::Best,
                    })
                    &&& request.size >= size
                },
                Err(e) => align != 0 && !power_of_two(align as int) && e == Error::EINVAL,
            },
    {
        if align != 0 && !is_power_of_two(align) {
            return Err(Error::EINVAL);
        }
        proof {
            lemma_power_of_two_pos(self@.min_align as int);
        }
        let align: u64 = max_u64(self.min_align, align);
        let size_aligned: u64 = crate::util::align(size, align);
        proof {
            law_round_up(size as int, align as int);
        }
        Ok(
            crate::drm::mm::Allocator::<(), ()>::insert_node_generic(
                size_aligned,
                align,
                0,
                InsertMode::Best,
            ),
        )
    }

    /// The size of the block to add before an object at `start` is backed, if any.
    pub fn needs_block(&self, start: u64, size: u64) -> (r: Option<u64>)
        requires
            start + size <= u64::MAX,
        ensures
            r == if start + size > self@.top {
                Some(self@.needed(start + size) as u64)
            } else {
                None
            },
            start + size > self@.top ==> self@.needed(start + size) <= u64::MAX,
    {
        let end: u64 = start + size;
        if end > self.top {
            Some(max_u64(self.block_size, end - self.top))
        } else {
            None
        }
    }

    /// What adding a block of `size` takes.
    pub fn plan_block(&self, size: u64) -> (r: BlockPlan)
        requires
            self@.wf(),
            size + UAT_PGSZ <= u64::MAX,
        ensures
            r == self@.block_plan(size as int),
            r.size >= size,
    {
        let size_aligned: u64 = page_align(size);
        proof {
            law_round_up(size as int, UAT_PGSZ as int);
        }
        let exhausted = self.top.saturating_add(size_aligned) >= self.end;
        BlockPlan { size: size_aligned, gpu_ptr: self.top, prot: self.prot, exhausted }
    }

    /// The guard range to reserve behind a block of `size` that has been mapped. A heap that
    /// the CPU does not map needs none.
    pub fn plan_guard(&self, size: u64) -> (r: Option<GuardRange>)
        requires
            self@.wf(),
            size + UAT_PGSZ <= u64::MAX,
            self@.top + round_up(size as int, UAT_PGSZ as int) <= u64::MAX,
        ensures
            r == if self@.cpu_maps {
                Some(self@.guard_after(size as int))
            } else {
                None
            },
    {
        if self.cpu_maps {
            let new_top: u64 = self.top + page_align(size);
            Some(GuardRange { start: new_top, size: max_u64(self.min_align, UAT_PGSZ) })
        } else {
            None
        }
    }

    /// Adds a block after its object has been mapped and its guard reserved, or not. A
    /// failed mapping is passed on; a guard that could not be reserved is an I/O error.
    /// The guard does not matter to a heap that the CPU does not map.
    pub fn add_block(
        &mut self,
        size: u64,
        object: O,
        mapped: Result<()>,
        guarded: Result<()>,
    ) -> (r: Result<()>)
        requires
            old(self)@.wf(),
            size >= 1,
            size + UAT_PGSZ <= u64::MAX,
            mapped is Ok ==> {
                &&& old(self)@.top + round_up(size as int, UAT_PGSZ as int) <= u64::MAX
                &&& !old(self)@.cpu_maps || guarded is Ok ==> old(self)@.top + round_up(
                    size as int,
                    UAT_PGSZ as int,
                ) + old(self)@.guard_size() <= u64::MAX
            },
        ensures
            final(self)@.wf(),
            r == if mapped is Err {
                mapped
            } else if old(self)@.cpu_maps && guarded is Err {
                Err(Error::EIO)
            } else {
                Ok(())
            },
            final(self)@ == if r is Ok {
                old(self)@.grown(size as int, object)
            } else {
                old(self)@
            },
    {
        let plan = self.plan_block(size);
        if let Err(e) = mapped {
            return Err(e);
        }
        let mut new_top: u64 = self.top + plan.size;
        if let Some(guard) = self.plan_guard(size) {
            if guarded.is_err() {
                return Err(Error::EIO);
            }
            self.guard_nodes.push(guard);
            new_top = new_top + guard.size;
        }
        self.backing_objects.push(Block { object, start: plan.gpu_ptr, size: plan.size });
        self.top = new_top;
        proof {
            lemma_grown_wf(old(self)@, size as int, object);
            assert(self@ =~= old(self)@.grown(size as int, object));
        }
        Ok(())
    }

    /// The block that holds `addr`.
    pub fn find_obj(&self, addr: u64) -> (r: Result<usize>)
        requires
            self@.wf(),
        ensures
            match r {
                Ok(i) => {
                    &&& i < self@.blocks.len()
                    &&& self@.blocks[i as int].holds(addr as int)
                    &&& self@.block_at(addr as int) == Some(i as int)
                },
                Err(e) => e == Error::ENOENT && self@.block_at(addr as int) is None,
            },
    {
        proof {
            law_blocks_are_disjoint(self@);
        }
        match search(&self.backing_objects, addr) {
            Some(i) => {
                proof {
                    lemma_block_at(self@, addr as int, i as int);
                }
                Ok(i)
            },
            None => Err(Error::ENOENT),
        }
    }

    /// Completes an allocation at `start`, where the range allocator placed it, once the
    /// heap reaches that far. `new_object` says that a block was added for it. If the CPU
    /// maps the heap and no block holds the object, that is an I/O error.
    pub fn allocate(&self, start: u64, size: u64, new_object: bool) -> (r: Result<HeapAllocation>)
        requires
            self@.wf(),
            start + size <= self@.top,
            new_object ==> self@.blocks.len() > 0,
            self@.cpu_maps ==> (self@.backing(start as int, new_object) matches Some(i) ==> {
                &&& self@.blocks[i].start <= start
                &&& start + size <= self@.blocks[i].end()
            }),
        ensures
            r == self@.allocation(start, size, new_object),
    {
        if !self.cpu_maps {
            return Ok(HeapAllocation { gpu_ptr: start, size, cpu: None });
        }
        let block: usize = if new_object {
            self.backing_objects.len() - 1
        } else {
            match self.find_obj(start) {
                Ok(i) => i,
                Err(_) => {
                    return Err(Error::EIO);
                },
            }
        };
        let offset: u64 = start - self.backing_objects[block].start;
        Ok(HeapAllocation { gpu_ptr: start, size, cpu: Some(CpuPointer { block, offset }) })
    }
}

/// A range that the range allocator has handed out.
#[derive(Copy, Clone, Debug, PartialEq, Eq, Structural)]
pub struct Range {
    pub start: u64,
    pub size: u64,
}

/// What an allocation does next.
pub enum AllocStep<O> {
    /// Ask the range allocator for a range.
    Insert { request: InsertRequest },
    /// Make the object of a block that the heap needs in order to reach up to the range.
    MakeObject { range: Range, need: u64, plan: BlockPlan },
    /// Map it.
    MapBlock { range: Range, need: u64, plan: BlockPlan, object: O },
    /// Reserve the guard range behind the block.
    ReserveGuard { range: Range, need: u64, guard: GuardRange, object: O },
    /// Make sure that the CPU has mapped the block that the allocation lies in.
    MapForCpu { range: Range, allocation: HeapAllocation },
    /// Give the range back.
    Release { range: Range, error: Error },
    Done { result: Result<HeapAllocation> },
}

impl<O> AllocStep<O> {
    /// The range that the allocation has at the step.
    pub open spec fn range(self) -> Option<Range> {
        match self {
            AllocStep::Insert { .. } => None,
            AllocStep::MakeObject { range, .. } => Some(range),
            AllocStep::MapBlock { range, .. } => Some(range),
            AllocStep::ReserveGuard { range, .. } => Some(range),
            AllocStep::MapForCpu { range, .. } => Some(range),
            AllocStep::Release { range, .. } => Some(range),
            AllocStep::Done { .. } => None,
        }
    }

    /// The steps come in this order.
    pub open spec fn order(self) -> int {
        match self {
            AllocStep::Insert { .. } => 0,
            AllocStep::MakeObject { .. } => 1,
            AllocStep::MapBlock { .. } => 2,
            AllocStep::ReserveGuard { .. } => 3,
            AllocStep::MapForCpu { .. } => 4,
            AllocStep::Release { .. } => 5,
            AllocStep::Done { .. } => 6,
        }
    }
}

/// What came of a step.
pub enum AllocEvent<O> {
    /// Where the range allocator put the range.
    Placed { start: u64 },
    /// The object that was made.
    Made { object: O },
    Success,
    Failure { error: Error },
}

impl<O> AllocEvent<O> {
    /// The event answers the step.
    pub open spec fn answers(self, step: AllocStep<O>) -> bool {
        match step {
            AllocStep::Insert { .. } => self is Placed || self is Failure,
            AllocStep::MakeObject { .. } => self is Made || self is Failure,
            AllocStep::MapBlock { .. } => self is Success || self is Failure,
            AllocStep::ReserveGuard { .. } => self is Success || self is Failure,
            AllocStep::MapForCpu { .. } => self is Success || self is Failure,
            AllocStep::Release { .. } => self is Success,
            AllocStep::Done { .. } => false,
        }
    }
}

impl<O> Heap<O> {
    /// How an allocation starts: a request, or an error if the alignment is not a power of
    /// two.
    pub open spec fn alloc_begin(self, size: u64, align: u64) -> AllocStep<O> {
        if align == 0 || power_of_two(align as int) {
            let align = max(self.min_align as int, align as int);
            AllocStep::Insert {
                request: InsertRequest {
                    size: round_up(size as int, align) as u64,
                    alignment: align as u64,
                    color: 0,
                    start: 0,
                    end: u64::MAX,
                    mode: InsertMode::Best,
                },
            }
        } else {
            AllocStep::Done { result: Err(Error::EINVAL) }
        }
    }

    /// What follows once the heap reaches up to the range. An object that no block holds
    /// gives its range back.
    pub open spec fn complete(self, range: Range, new_object: bool) -> AllocStep<O> {
        match self.allocation(range.start, range.size, new_object) {
            Ok(allocation) => if self.cpu_maps {
                AllocStep::MapForCpu { range, allocation }
            } else {
                AllocStep::Done { result: Ok(allocation) }
            },
            Err(error) => AllocStep::Release { range, error },
        }
    }

    /// The heap and the next step after a step and what came of it. Whatever fails once
    /// there is a range, the range is given back before the allocation fails. A guard that
    /// cannot be reserved is an I/O error; all other failures are passed on.
    pub open spec fn alloc_next(self, step: AllocStep<O>, event: AllocEvent<O>) -> (
        Heap<O>,
        AllocStep<O>,
    ) {
        match step {
            AllocStep::Insert { request } => match event {
                AllocEvent::Placed { start } => {
                    let range = Range { start, size: request.size };
                    if start + request.size > self.top {
                        let need = self.needed(start + request.size);
                        (
                            self,
                            AllocStep::MakeObject {
                                range,
                                need: need as u64,
                                plan: self.block_plan(need),
                            },
                        )
                    } else {
                        (self, self.complete(range, false))
                    }
                },
                AllocEvent::Failure { error } => (self, AllocStep::Done { result: Err(error) }),
                _ => (self, step),
            },
            AllocStep::MakeObject { range, need, plan } => match event {
                AllocEvent::Made { object } => (
                    self,
                    AllocStep::MapBlock { range, need, plan, object },
                ),
                AllocEvent::Failure { error } => (self, AllocStep::Release { range, error }),
                _ => (self, step),
            },
            AllocStep::MapBlock { range, need, object, .. } => match event {
                AllocEvent::Success => if self.cpu_maps {
                    let guard = self.guard_after(need as int);
                    (self, AllocStep::ReserveGuard { range, need, guard, object })
                } else {
                    let grown = self.grown(need as int, object);
                    (grown, grown.complete(range, true))
                },
                AllocEvent::Failure { error } => (self, AllocStep::Release { range, error }),
                _ => (self, step),
            },
            AllocStep::ReserveGuard { range, need, object, .. } => match event {
                AllocEvent::Success => {
                    let grown = self.grown(need as int, object);
                    (grown, grown.complete(range, true))
                },
                AllocEvent::Failure { .. } => (
                    self,
                    AllocStep::Release { range, error: Error::EIO },
                ),
                _ => (self, step),
            },
            AllocStep::MapForCpu { range, allocation } => match event {
                AllocEvent::Success => (self, AllocStep::Done { result: Ok(allocation) }),
                AllocEvent::Failure { error } => (self, AllocStep::Release { range, error }),
                _ => (self, step),
            },
            AllocStep::Release { error, .. } => (self, AllocStep::Done { result: Err(error) }),
            AllocStep::Done { .. } => (self, step),
        }
    }

    /// The heap has to grow for the range.
    pub open spec fn grows_for(self, range: Range, need: u64) -> bool {
        &&& self.can_place(range.start as int, range.size as int)
        &&& range.start + range.size <= u64::MAX
        &&& range.start + range.size > self.top
        &&& need == self.needed(range.start + range.size)
        &&& need + UAT_PGSZ <= u64::MAX
    }

    /// The step is one that an allocation from this heap has come to.
    pub open spec fn step_wf(self, step: AllocStep<O>) -> bool {
        match step {
            AllocStep::MakeObject { range, need, plan } => {
                &&& self.grows_for(range, need)
                &&& plan == self.block_plan(need as int)
            },
            AllocStep::MapBlock { range, need, plan, .. } => {
                &&& self.grows_for(range, need)
                &&& plan == self.block_plan(need as int)
            },
            AllocStep::ReserveGuard { range, need, guard, .. } => {
                &&& self.grows_for(range, need)
                &&& self.cpu_maps
                &&& guard == self.guard_after(need as int)
                &&& self.top + round_up(need as int, UAT_PGSZ as int) <= u64::MAX
            },
            _ => true,
        }
    }

    /// What the machine's limits ask of an event: the range allocator hands out ranges of
    /// the heap that meet no guard, and addresses do not overflow.
    pub open spec fn event_fits(self, step: AllocStep<O>, event: AllocEvent<O>) -> bool {
        match step {
            AllocStep::Insert { request } => event matches AllocEvent::Placed { start } ==> {
                &&& self.can_place(start as int, request.size as int)
                &&& start + request.size <= u64::MAX
                &&& start + request.size > self.top ==> self.needed(start + request.size) + UAT_PGSZ
                    <= u64::MAX
            },
            AllocStep::MapBlock { need, .. } => event is Success ==> self.top + round_up(
                need as int,
                UAT_PGSZ as int,
            ) <= u64::MAX,
            AllocStep::ReserveGuard { need, .. } => event is Success ==> self.top + round_up(
                need as int,
                UAT_PGSZ as int,
            ) + self.guard_size() <= u64::MAX,
            _ => true,
        }
    }
}

impl<O> HeapAllocator<O> {
    /// Starts an allocation.
    pub fn alloc_begin(&self, size: u64, align: u64) -> (r: AllocStep<O>)
        requires
            self@.wf(),
            align == 0 || power_of_two(align as int) ==> size + self.align(align as int)
                <= u64::MAX,
        ensures
            r == self@.alloc_begin(size, align),
            self@.step_wf(r),
    {
        match self.alloc_request(size, align) {
            Ok(request) => AllocStep::Insert { request },
            Err(error) => AllocStep::Done { result: Err(error) },
        }
    }

    /// Completes an allocation in a range that the heap reaches up to.
    fn complete(&self, range: Range, new_object: bool) -> (r: AllocStep<O>)
        requires
            self@.wf(),
            self@.can_place(range.start as int, range.size as int),
            range.start + range.size <= self@.top,
            new_object ==> {
                &&& self@.blocks.len() > 0
                &&& self@.cpu_maps ==> self@.blocks.last().start <= range.start && range.start
                    + range.size <= self@.blocks.last().end()
            },
        ensures
            r == self@.complete(range, new_object),
    {
        proof {
            if self@.cpu_maps && !new_object {
                law_placed_object_lies_in_one_block(self@, range.start as int, range.size as int);
            }
        }
        match self.allocate(range.start, range.size, new_object) {
            Ok(allocation) => if self.cpu_maps {
                AllocStep::MapForCpu { range, allocation }
            } else {
                AllocStep::Done { result: Ok(allocation) }
            },
            Err(error) => AllocStep::Release { range, error },
        }
    }

    /// Takes note of what came of a step, and says what to do next.
    pub fn alloc_next(&mut self, step: AllocStep<O>, event: AllocEvent<O>) -> (r: AllocStep<O>)
        requires
            old(self)@.wf(),
            old(self)@.step_wf(step),
            event.answers(step),
            old(self)@.event_fits(step, event),
        ensures
            final(self)@.wf(),
            (final(self)@, r) == old(self)@.alloc_next(step, event),
            final(self)@.step_wf(r),
    {
        match step {
            AllocStep::Insert { request } => match event {
                AllocEvent::Placed { start } => {
                    let range = Range { start, size: request.size };
                    match self.needs_block(start, request.size) {
                        Some(need) => {
                            let plan = self.plan_block(need);
                            AllocStep::MakeObject { range, need, plan }
                        },
                        None => self.complete(range, false),
                    }
                },
                AllocEvent::Failure { error } => AllocStep::Done { result: Err(error) },
                _ => AllocStep::Insert { request },
            },
            AllocStep::MakeObject { range, need, plan } => match event {
                AllocEvent::Made { object } => AllocStep::MapBlock { range, need, plan, object },
                AllocEvent::Failure { error } => AllocStep::Release { range, error },
                _ => AllocStep::MakeObject { range, need, plan },
            },
            AllocStep::MapBlock { range, need, plan, object } => match event {
                AllocEvent::Success => match self.plan_guard(need) {
                    Some(guard) => AllocStep::ReserveGuard { range, need, guard, object },
                    None => self.grow(range, need, object),
                },
                AllocEvent::Failure { error } => AllocStep::Release { range, error },
                _ => AllocStep::MapBlock { range, need, plan, object },
            },
            AllocStep::ReserveGuard { range, need, guard, object } => match event {
                AllocEvent::Success => self.grow(range, need, object),
                AllocEvent::Failure { .. } => AllocStep::Release { range, error: Error::EIO },
                _ => AllocStep::ReserveGuard { range, need, guard, object },
            },
            AllocStep::MapForCpu { range, allocation } => match event {
                AllocEvent::Success => AllocStep::Done { result: Ok(allocation) },
                AllocEvent::Failure { error } => AllocStep::Release { range, error },
                _ => AllocStep::MapForCpu { range, allocation },
            },
            AllocStep::Release { error, .. } => AllocStep::Done { result: Err(error) },
            AllocStep::Done { result } => AllocStep::Done { result },
        }
    }

    /// Adds the block that a range needs, which is mapped and guarded, and completes the
    /// allocation.
    fn grow(&mut self, range: Range, need: u64, object: O) -> (r: AllocStep<O>)
        requires
            old(self)@.wf(),
            old(self)@.grows_for(range, need),
            old(self)@.top + round_up(need as int, UAT_PGSZ as int) + old(self)@.guard_size()
                <= u64::MAX,
        ensures
            final(self)@ == old(self)@.grown(need as int, object),
            final(self)@.wf(),
            r == final(self)@.complete(range, true),
            final(self)@.step_wf(r),
    {
        proof {
            let heap = self@;
            law_round_up(need as int, UAT_PGSZ as int);
            lemma_grown_wf(heap, need as int, object);
            if heap.cpu_maps {
                law_new_block_covers_the_object(
                    heap,
                    range.start as int,
                    range.size as int,
                    object,
                );
            }
            let next = heap.grown(need as int, object);
            assert(next.can_place(range.start as int, range.size as int)) by {
                assert forall|i: int| 0 <= i < next.guards.len() implies range.start + range.size
                    <= (#[trigger] next.guards[i]).start || next.guards[i].start
                    + next.guards[i].size <= range.start by {
                    if i < heap.guards.len() {
                        assert(next.guards[i] == heap.guards[i]);
                    }
                }
            }
        }
        let added = self.add_block(need, object, Ok(()), Ok(()));
        assert(added is Ok);
        self.complete(range, true)
    }
}

/// Whatever fails once an allocation has a range, the range is given back: the allocation
/// fails only without a range or by giving it back. A failure leaves the heap as it was.
/// No step changes the range, and every step leads on until the allocation is done.
pub proof fn law_failed_allocation_gives_its_range_back<O>(
    heap: Heap<O>,
    step: AllocStep<O>,
    event: AllocEvent<O>,
)
    requires
        event.answers(step),
    ensures
        ({
            let (after, next) = heap.alloc_next(step, event);
            &&& event is Failure && step.range() is Some ==> next is Release && after == heap
            &&& event is Failure && step.range() is None ==> next == (AllocStep::<O>::Done {
                result: Err(event->error),
            }) && after == heap
            &&& (next matches AllocStep::Done { result: Err(error) } ==> step.range() is None || step
                is Release && step->error == error)
            &&& step.range() is Some && next.range() is Some ==> next.range() == step.range()
            &&& next.order() > step.order()
        }),
{
}

proof fn lemma_round_up_bounds(a: int, b: int)
    requires
        b >= 1,
    ensures
        a <= round_up(a, b) < a + b,
        round_up(a, b) % b == 0,
{
    law_round_up(a, b);
}

/// An allocation at which nothing fails, step by step: the heap comes to reach up to the
/// range, with a block more if need be, and the object is the one that `HeapUse::gives`
/// says.
#[verifier::spinoff_prover]
#[verifier::rlimit(40)]
pub proof fn law_allocation_gives_the_object<O>(
    used: HeapUse<O>,
    asked: u64,
    align: u64,
    start: u64,
    object: O,
)
    requires
        used.wf(),
        used.heap.blocks.len() < usize::MAX,
        align == 0 || power_of_two(align as int),
        asked + max(used.heap.min_align as int, align as int) <= u64::MAX,
        ({
            let size = round_up(asked as int, max(used.heap.min_align as int, align as int));
            &&& used.free(start as int, size)
            &&& start + size <= u64::MAX
            &&& start + size > used.heap.top ==> used.heap.top + round_up(
                used.heap.needed(start + size),
                UAT_PGSZ as int,
            ) + used.heap.guard_size() <= u64::MAX
        }),
    ensures
        ({
            let size = round_up(
                asked as int,
                max(used.heap.min_align as int, align as int),
            ) as u64;
            let run = run_of(used.heap, asked, align, start, object);
            &&& run.0 == used.reaching(start, size, object)
            &&& run.1 == (AllocStep::<O>::Done { result: used.gives(start, size, object) })
            &&& used.gives(start, size, object) is Ok
        }),
{
    lemma_power_of_two_pos(used.heap.min_align as int);
    let align_used = max(used.heap.min_align as int, align as int);
    lemma_round_up_bounds(asked as int, align_used);
    let size = round_up(asked as int, align_used) as u64;
    lemma_allocate_keeps(used, start, size, object);
    lemma_round_up_bounds(used.heap.needed(start + size), UAT_PGSZ as int);
}

/// The heap and the last step of an allocation at which nothing fails.
pub open spec fn run_of<O>(heap: Heap<O>, asked: u64, align: u64, start: u64, object: O) -> (
    Heap<O>,
    AllocStep<O>,
) {
    let (placed_heap, placed) = heap.alloc_next(
        heap.alloc_begin(asked, align),
        AllocEvent::Placed { start },
    );
    let (heap, ready) = if placed is MakeObject {
        let (made_heap, made) = placed_heap.alloc_next(placed, AllocEvent::Made { object });
        let (mapped_heap, mapped) = made_heap.alloc_next(made, AllocEvent::Success);
        if mapped is ReserveGuard {
            mapped_heap.alloc_next(mapped, AllocEvent::Success)
        } else {
            (mapped_heap, mapped)
        }
    } else {
        (placed_heap, placed)
    };
    if ready is MapForCpu {
        heap.alloc_next(ready, AllocEvent::Success)
    } else {
        (heap, ready)
    }
}

/// A heap and the objects that live in it.
#[verifier::ext_equal]
pub struct HeapUse<O> {
    pub heap: Heap<O>,
    pub live: Seq<HeapAllocation>,
}

impl HeapAllocation {
    pub open spec fn end(self) -> int {
        self.gpu_ptr + self.size
    }

    pub open spec fn clear_of(self, start: int, size: int) -> bool {
        self.end() <= start || start + size <= self.gpu_ptr
    }
}

impl<O> HeapUse<O> {
    /// The object lies in the heap, below the top, clear of all guards; and if the CPU
    /// maps the heap, its CPU pointer leads to the same place, in one block.
    pub open spec fn backed(self, object: HeapAllocation) -> bool {
        &&& self.heap.can_place(object.gpu_ptr as int, object.size as int)
        &&& object.end() <= self.heap.top
        &&& object.cpu is Some <==> self.heap.cpu_maps
        &&& object.cpu matches Some(cpu) ==> {
            &&& cpu.block < self.heap.blocks.len()
            &&& self.heap.blocks[cpu.block as int].start + cpu.offset == object.gpu_ptr
            &&& object.end() <= self.heap.blocks[cpu.block as int].end()
        }
    }

    pub open spec fn wf(self) -> bool {
        &&& self.heap.wf()
        &&& self.heap.blocks.len() <= usize::MAX
        &&& forall|i: int| 0 <= i < self.live.len() ==> self.backed(#[trigger] self.live[i])
        &&& forall|i: int, j: int|
            0 <= i < j < self.live.len() ==> (#[trigger] self.live[i]).clear_of(
                (#[trigger] self.live[j]).gpu_ptr as int,
                self.live[j].size as int,
            )
    }

    /// The range allocator hands out only ranges that nothing lives in.
    pub open spec fn free(self, start: int, size: int) -> bool {
        &&& self.heap.can_place(start, size)
        &&& forall|i: int| 0 <= i < self.live.len() ==> (#[trigger] self.live[i]).clear_of(start, size)
    }

    /// The heap once it reaches up to the object: with a block more, if it did not.
    pub open spec fn reaching(self, start: u64, size: u64, object: O) -> Heap<O> {
        if start + size > self.heap.top {
            self.heap.grown(self.heap.needed(start + size), object)
        } else {
            self.heap
        }
    }

    /// The object that an allocation at `start` gives.
    pub open spec fn gives(self, start: u64, size: u64, object: O) -> Result<HeapAllocation> {
        self.reaching(start, size, object).allocation(start, size, start + size > self.heap.top)
    }

    pub open spec fn after_allocate(self, start: u64, size: u64, object: O) -> HeapUse<O> {
        HeapUse {
            heap: self.reaching(start, size, object),
            live: self.live.push(self.gives(start, size, object)->Ok_0),
        }
    }

    pub open spec fn after_drop(self, i: int) -> HeapUse<O> {
        HeapUse { heap: self.heap, live: self.live.remove(i) }
    }
}

/// An object placed where nothing lives is backed, and what lives in the heap stays so.
proof fn lemma_allocate_keeps<O>(used: HeapUse<O>, start: u64, size: u64, object: O)
    requires
        used.wf(),
        used.heap.blocks.len() < usize::MAX,
        used.free(start as int, size as int),
        start + size <= u64::MAX,
        start + size > used.heap.top ==> used.heap.top + round_up(
            used.heap.needed(start + size),
            UAT_PGSZ as int,
        ) + used.heap.guard_size() <= u64::MAX,
    ensures
        used.gives(start, size, object) is Ok,
        used.after_allocate(start, size, object).wf(),
{
    let heap = used.heap;
    let after = used.after_allocate(start, size, object);
    let next = after.heap;
    if start + size > heap.top {
        let needed = heap.needed(start + size);
        law_round_up(needed, UAT_PGSZ as int);
        lemma_grown_wf(heap, needed, object);
        if heap.cpu_maps {
            law_new_block_covers_the_object(heap, start as int, size as int, object);
        }
        assert forall|i: int| 0 <= i < heap.blocks.len() implies next.blocks[i]
            == heap.blocks[i] by {}
    } else if heap.cpu_maps {
        law_placed_object_lies_in_one_block(heap, start as int, size as int);
    }
    let made = used.gives(start, size, object)->Ok_0;
    assert(next.can_place(start as int, size as int));
    assert(after.backed(made));
    assert forall|i: int| 0 <= i < after.live.len() implies after.backed(
        #[trigger] after.live[i],
    ) by {
        if i < used.live.len() {
            assert(after.live[i] == used.live[i]);
            assert(used.backed(used.live[i]));
            assert(next.can_place(used.live[i].gpu_ptr as int, used.live[i].size as int));
        }
    }
    assert forall|i: int, j: int| 0 <= i < j < after.live.len() implies (
    #[trigger] after.live[i]).clear_of(
        (#[trigger] after.live[j]).gpu_ptr as int,
        after.live[j].size as int,
    ) by {
        assert(after.live[i] == used.live[i]);
        if j < used.live.len() {
            assert(after.live[j] == used.live[j]);
        }
    }
}

/// Nothing lives in a new heap.
pub proof fn law_new_heap_is_unused<O>(heap: Heap<O>)
    requires
        heap.wf(),
        heap.blocks.len() == 0,
    ensures
        (HeapUse { heap, live: Seq::empty() }).wf(),
{
}

/// Given that the range allocator hands out aligned ranges that nothing lives in: every
/// object has the size that was asked for, rounded up to its alignment, starts at a
/// multiple of that, and lies within the heap; no two living objects overlap, before and
/// after; and an object has a CPU pointer if and only if the CPU maps the heap.
pub proof fn law_living_objects_never_overlap<O>(
    used: HeapUse<O>,
    asked: u64,
    align: u64,
    start: u64,
    size: u64,
    object: O,
)
    requires
        used.wf(),
        used.heap.blocks.len() < usize::MAX,
        asked > 0,
        align == 0 || power_of_two(align as int),
        asked + max(used.heap.min_align as int, align as int) <= u64::MAX,
        size == round_up(asked as int, max(used.heap.min_align as int, align as int)),
        start as int % max(used.heap.min_align as int, align as int) == 0,
        used.free(start as int, size as int),
        start + size <= u64::MAX,
        start + size > used.heap.top ==> used.heap.top + round_up(
            used.heap.needed(start + size),
            UAT_PGSZ as int,
        ) + used.heap.guard_size() <= u64::MAX,
    ensures
        used.gives(start, size, object) matches Ok(made) && {
            &&& made.gpu_ptr as int % max(used.heap.min_align as int, align as int) == 0
            &&& made.size == round_up(
                asked as int,
                max(used.heap.min_align as int, align as int),
            )
            &&& asked <= made.size
            &&& made.size as int % max(used.heap.min_align as int, align as int) == 0
            &&& used.heap.start <= made.gpu_ptr
            &&& made.end() - 1 <= used.heap.end
            &&& made.cpu is Some <==> used.heap.cpu_maps
            &&& forall|i: int|
                0 <= i < used.live.len() ==> (#[trigger] used.live[i]).clear_of(
                    made.gpu_ptr as int,
                    made.size as int,
                )
        },
        used.after_allocate(start, size, object).wf(),
{
    lemma_power_of_two_pos(used.heap.min_align as int);
    law_round_up(asked as int, max(used.heap.min_align as int, align as int));
    lemma_allocate_keeps(used, start, size, object);
}

/// Dropping an object leaves the others as they are: they still do not overlap.
pub proof fn law_drop_keeps_the_others<O>(used: HeapUse<O>, i: int)
    requires
        used.wf(),
        0 <= i < used.live.len(),
    ensures
        used.after_drop(i).wf(),
        forall|j: int|
            0 <= j < used.live.len() && j != i ==> used.after_drop(i).live.contains(
                #[trigger] used.live[j],
            ),
{
    let after = used.after_drop(i);
    assert forall|j: int| 0 <= j < after.live.len() implies after.backed(
        #[trigger] after.live[j],
    ) by {
        assert(after.live[j] == used.live[if j < i { j } else { j + 1 }]);
    }
    assert forall|j: int, k: int| 0 <= j < k < after.live.len() implies (
    #[trigger] after.live[j]).clear_of(
        (#[trigger] after.live[k]).gpu_ptr as int,
        after.live[k].size as int,
    ) by {
        assert(after.live[j] == used.live[if j < i { j } else { j + 1 }]);
        assert(after.live[k] == used.live[if k < i { k } else { k + 1 }]);
    }
    assert forall|j: int| 0 <= j < used.live.len() && j != i implies after.live.contains(
        #[trigger] used.live[j],
    ) by {
        assert(after.live[if j < i { j } else { j - 1 }] == used.live[j]);
    }
}

/// What happens to a heap.
pub enum HeapEvent<O> {
    /// An allocation for which the range allocator chose `start`.
    Allocate { start: u64, size: u64, object: O },
    Drop { index: int },
}

impl<O> HeapUse<O> {
    /// The event can happen: the range allocator hands out only ranges that nothing lives
    /// in, and addresses do not overflow.
    pub open spec fn allows(self, event: HeapEvent<O>) -> bool {
        match event {
            HeapEvent::Allocate { start, size, .. } => {
                &&& self.heap.blocks.len() < usize::MAX
                &&& self.free(start as int, size as int)
                &&& start + size <= u64::MAX
                &&& start + size > self.heap.top ==> self.heap.top + round_up(
                    self.heap.needed(start + size),
                    UAT_PGSZ as int,
                ) + self.heap.guard_size() <= u64::MAX
            },
            HeapEvent::Drop { index } => 0 <= index < self.live.len(),
        }
    }

    pub open spec fn step(self, event: HeapEvent<O>) -> HeapUse<O> {
        match event {
            HeapEvent::Allocate { start, size, object } => self.after_allocate(start, size, object),
            HeapEvent::Drop { index } => self.after_drop(index),
        }
    }

    /// After the first `n` events.
    pub open spec fn after(self, events: Seq<HeapEvent<O>>, n: int) -> HeapUse<O>
        decreases n,
    {
        if n <= 0 {
            self
        } else {
            self.after(events, n - 1).step(events[n - 1])
        }
    }

    /// The events can happen one after the other.
    pub open spec fn allows_all(self, events: Seq<HeapEvent<O>>) -> bool {
        forall|k: int| 0 <= k < events.len() ==> #[trigger] self.after(events, k).allows(events[k])
    }
}

/// Whatever is allocated and dropped, from a new heap on: the objects that live in the heap
/// lie within it, no two of them overlap, and each can be reached by the CPU exactly if the
/// CPU maps the heap.
pub proof fn law_heap_history<O>(start: HeapUse<O>, events: Seq<HeapEvent<O>>, n: int)
    requires
        start.heap.wf(),
        start.heap.blocks.len() == 0,
        start.live.len() == 0,
        start.allows_all(events),
        0 <= n <= events.len(),
    ensures
        start.after(events, n).wf(),
        start.after(events, n).heap.start == start.heap.start,
        start.after(events, n).heap.end == start.heap.end,
        start.after(events, n).heap.cpu_maps == start.heap.cpu_maps,
        forall|i: int|
            0 <= i < start.after(events, n).live.len() ==> {
                let object = #[trigger] start.after(events, n).live[i];
                &&& start.heap.start <= object.gpu_ptr
                &&& object.end() - 1 <= start.heap.end
                &&& object.cpu is Some <==> start.heap.cpu_maps
            },
        forall|i: int, j: int|
            0 <= i < j < start.after(events, n).live.len() ==> (#[trigger] start.after(
                events,
                n,
            ).live[i]).clear_of(
                (#[trigger] start.after(events, n).live[j]).gpu_ptr as int,
                start.after(events, n).live[j].size as int,
            ),
    decreases n,
{
    if n == 0 {
        law_new_heap_is_unused(start.heap);
        assert(start.live =~= Seq::empty());
    } else {
        law_heap_history(start, events, n - 1);
        let before = start.after(events, n - 1);
        assert(before.allows(events[n - 1]));
        match events[n - 1] {
            HeapEvent::Allocate { start, size, object } => {
                lemma_allocate_keeps(before, start, size, object);
            },
            HeapEvent::Drop { index } => {
                law_drop_keeps_the_others(before, index);
            },
        }
        let now = start.after(events, n);
        assert forall|i: int| 0 <= i < now.live.len() implies now.backed(#[trigger] now.live[i]) by {}
    }
}

/// A simple allocation has an object of whole pages for itself, no more of them than it
/// needs, and ends as near to the end of the object as its alignment allows.
pub proof fn law_simple_allocation_ends_with_its_object(
    alloc: SimpleAllocator,
    size: u64,
    align: u64,
    plan: SimplePlan,
)
    requires
        size + UAT_PGSZ <= u64::MAX,
        power_of_two(alloc.align(align as int)),
        call_ensures(SimpleAllocator::allocate, (&alloc, size, align), plan),
    ensures
        plan.object_size as int % 0x4000 == 0,
        size <= plan.object_size < size + 0x4000,
        plan.offset + size <= plan.object_size,
        ({
            let used = if alloc.min_align >= align {
                alloc.min_align as int
            } else {
                align as int
            };
            &&& plan.offset as int % used == 0
            &&& plan.object_size - (plan.offset + size) < used
        }),
        plan.map_align == if alloc.min_align >= 0x4000 {
            alloc.min_align as int
        } else {
            0x4000
        },
        plan.start == alloc.start && plan.end == alloc.end && plan.prot == alloc.prot,
{
    lemma_round_up_bounds(size as int, UAT_PGSZ as int);
    lemma_power_of_two_pos(alloc.align(align as int));
    vstd::arithmetic::div_mod::lemma_mod_bound(
        plan.object_size - size,
        alloc.align(align as int),
    );
}

/// A simple allocator keeps what it was made with, and an allocation lies in its object as
/// planned.
pub proof fn law_simple_allocation_is_placed(
    start: u64,
    end: u64,
    min_align: u64,
    prot: u32,
    alloc: SimpleAllocator,
    plan: SimplePlan,
    iova: u64,
    size: u64,
    r: SimpleAllocation,
)
    requires
        iova + plan.offset <= u64::MAX,
        call_ensures(SimpleAllocator::new, (start, end, min_align, prot), alloc),
        call_ensures(SimplePlan::place, (&plan, iova, size), r),
    ensures
        alloc.start == start,
        alloc.end == end,
        alloc.min_align == min_align,
        alloc.prot == prot,
        r.gpu_ptr - iova == plan.offset,
        r.offset == plan.offset,
        r.size == size,
{
}

/// A size is rounded up to as few pages as hold it.
pub proof fn law_whole_pages(size: u64, r: u64)
    requires
        size + UAT_PGSZ <= u64::MAX,
        call_ensures(page_align, (size,), r),
    ensures
        r as int % 0x4000 == 0,
        size <= r < size + 0x4000,
{
    lemma_round_up_bounds(size as int, UAT_PGSZ as int);
}

/// A new heap is empty, starts to grow from its first address, and never grows by less than
/// its alignment. An alignment that is no power of two is refused.
pub proof fn law_new_heap<O>(
    start: u64,
    end: u64,
    min_align: u64,
    prot: u32,
    block_size: u64,
    cpu_maps: bool,
    r: Result<HeapAllocator<O>>,
    size: u64,
)
    requires
        start <= end,
        call_ensures(
            HeapAllocator::<O>::new,
            (start, end, min_align, prot, block_size, cpu_maps),
            r,
        ),
        r matches Ok(heap) ==> call_ensures(HeapAllocator::<O>::mm_size, (&heap,), size),
    ensures
        r is Ok <==> power_of_two(min_align as int),
        r matches Err(e) ==> e == Error::EINVAL,
        r matches Ok(heap) ==> {
            &&& heap@.start == start && heap@.end == end && heap@.top == start
            &&& heap@.min_align == min_align && heap@.prot == prot && heap@.cpu_maps == cpu_maps
            &&& heap@.block_size >= block_size && heap@.block_size >= min_align
            &&& heap@.block_size == block_size || heap@.block_size == min_align
            &&& heap@.blocks.len() == 0 && heap@.guards.len() == 0
            &&& start + size == end + 1
        },
{
}

/// A request is for whole units of the larger of the two alignments, no more of them than
/// needed, anywhere, as tightly as possible. An alignment that is no power of two is
/// refused.
pub proof fn law_heap_requests<O>(
    heap: HeapAllocator<O>,
    size: u64,
    align: u64,
    r: Result<InsertRequest>,
)
    requires
        heap@.wf(),
        align == 0 || power_of_two(align as int) ==> size + heap.align(align as int) <= u64::MAX,
        call_ensures(HeapAllocator::<O>::alloc_request, (&heap, size, align), r),
    ensures
        r is Ok <==> align == 0 || power_of_two(align as int),
        r matches Err(e) ==> e == Error::EINVAL,
        r matches Ok(q) ==> {
            &&& q.alignment >= align && q.alignment >= heap@.min_align
            &&& q.alignment == align || q.alignment == heap@.min_align
            &&& q.size as int % q.alignment as int == 0
            &&& size <= q.size < size + q.alignment
            &&& q.start == 0 && q.end == u64::MAX && q.color == 0 && q.mode is Best
        },
{
    lemma_power_of_two_pos(heap@.min_align as int);
    if align == 0 || power_of_two(align as int) {
        lemma_round_up_bounds(size as int, heap.align(align as int));
    }
}

/// A heap grows only for an object that reaches above its top, and then by a block that
/// covers the object and is no smaller than its blocks are.
pub proof fn law_heap_grows_as_needed<O>(
    heap: HeapAllocator<O>,
    start: u64,
    size: u64,
    r: Option<u64>,
)
    requires
        start + size <= u64::MAX,
        call_ensures(HeapAllocator::<O>::needs_block, (&heap, start, size), r),
    ensures
        r is Some <==> start + size > heap@.top,
        r matches Some(need) ==> {
            &&& need >= heap@.block_size
            &&& heap@.top + need >= start + size
            &&& need == heap@.block_size || heap@.top + need == start + size
        },
{
}

/// A block goes to the top of the heap, in whole pages, with the heap's protection. Behind a
/// block that the CPU maps a guard follows at once, at least a page long.
pub proof fn law_blocks_go_to_the_top<O>(
    heap: HeapAllocator<O>,
    size: u64,
    plan: BlockPlan,
    guard: Option<GuardRange>,
)
    requires
        heap@.wf(),
        size + UAT_PGSZ <= u64::MAX,
        heap@.top + round_up(size as int, UAT_PGSZ as int) <= u64::MAX,
        call_ensures(HeapAllocator::<O>::plan_block, (&heap, size), plan),
        call_ensures(HeapAllocator::<O>::plan_guard, (&heap, size), guard),
    ensures
        plan.gpu_ptr == heap@.top,
        plan.prot == heap@.prot,
        plan.size as int % 0x4000 == 0,
        size <= plan.size < size + 0x4000,
        plan.exhausted <==> heap@.top + plan.size >= heap@.end,
        guard is Some <==> heap@.cpu_maps,
        guard matches Some(g) ==> {
            &&& g.start == plan.gpu_ptr + plan.size
            &&& g.size >= 0x4000 && g.size >= heap@.min_align
            &&& g.size == 0x4000 || g.size == heap@.min_align
        },
{
    lemma_round_up_bounds(size as int, UAT_PGSZ as int);
}

/// Adding a block puts it and its guard, if there is one, where they were planned, moves
/// the top behind them, and keeps all that was there; a failure changes nothing.
pub proof fn law_block_is_added_as_planned<O>(
    heap: &mut HeapAllocator<O>,
    size: u64,
    object: O,
    mapped: Result<()>,
    guarded: Result<()>,
    r: Result<()>,
)
    requires
        old(heap)@.wf(),
        size >= 1,
        size + UAT_PGSZ <= u64::MAX,
        old(heap)@.top + round_up(size as int, UAT_PGSZ as int) + old(heap)@.guard_size()
            <= u64::MAX,
        call_ensures(HeapAllocator::<O>::add_block, (heap, size, object, mapped, guarded), r),
    ensures
        r is Ok <==> mapped is Ok && (guarded is Ok || !old(heap)@.cpu_maps),
        mapped is Err ==> r->Err_0 == mapped->Err_0,
        mapped is Ok && r is Err ==> r->Err_0 == Error::EIO,
        r is Err ==> final(heap)@ == old(heap)@,
        r is Ok ==> {
            let block = final(heap)@.blocks.last();
            &&& final(heap)@.blocks.drop_last() =~= old(heap)@.blocks
            &&& block.object == object
            &&& block.start == old(heap)@.top
            &&& size <= block.size < size + 0x4000
            &&& block.size as int % 0x4000 == 0
            &&& !old(heap)@.cpu_maps ==> final(heap)@.top == block.start + block.size
                && final(heap)@.guards == old(heap)@.guards
            &&& old(heap)@.cpu_maps ==> {
                let guard = final(heap)@.guards.last();
                &&& final(heap)@.guards.drop_last() =~= old(heap)@.guards
                &&& guard.start == block.start + block.size
                &&& final(heap)@.top == guard.start + guard.size
                &&& guard.size >= 0x4000
            }
        },
        final(heap)@.start == old(heap)@.start && final(heap)@.end == old(heap)@.end,
        final(heap)@.prot == old(heap)@.prot && final(heap)@.cpu_maps == old(heap)@.cpu_maps,
        final(heap)@.min_align == old(heap)@.min_align,
        final(heap)@.block_size == old(heap)@.block_size,
{
    lemma_round_up_bounds(size as int, UAT_PGSZ as int);
}

/// The block of an address is the one that spans it, and an allocation is found by the CPU
/// at the same distance from the start of its block as by the GPU.
pub proof fn law_blocks_are_found<O>(
    heap: HeapAllocator<O>,
    addr: u64,
    found: Result<usize>,
    size: u64,
    new_object: bool,
    r: Result<HeapAllocation>,
    i: int,
)
    requires
        heap@.wf(),
        new_object ==> heap@.blocks.len() > 0,
        heap@.blocks.len() <= usize::MAX,
        heap@.cpu_maps ==> (heap@.backing(addr as int, new_object) matches Some(i) ==> {
            &&& heap@.blocks[i].start <= addr
            &&& addr + size <= heap@.blocks[i].end()
        }),
        call_ensures(HeapAllocator::<O>::find_obj, (&heap, addr), found),
        call_ensures(HeapAllocator::<O>::allocate, (&heap, addr, size, new_object), r),
    ensures
        found matches Ok(k) ==> k < heap@.blocks.len() && heap@.blocks[k as int].start <= addr
            < heap@.blocks[k as int].start + heap@.blocks[k as int].size,
        found matches Err(e) ==> e == Error::ENOENT,
        found is Err && 0 <= i < heap@.blocks.len() ==> !(heap@.blocks[i].start <= addr
            < heap@.blocks[i].start + heap@.blocks[i].size),
        r matches Err(e) ==> e == Error::EIO && heap@.cpu_maps && !new_object && found is Err,
        r matches Ok(a) ==> {
            &&& a.gpu_ptr == addr
            &&& a.size == size
            &&& a.cpu is Some <==> heap@.cpu_maps
            &&& a.cpu matches Some(cpu) ==> {
                &&& new_object ==> cpu.block + 1 == heap@.blocks.len()
                &&& !new_object ==> found == Ok::<usize, Error>(cpu.block)
                &&& heap@.blocks[cpu.block as int].start + cpu.offset == addr
            }
        },
{
    if found is Err && 0 <= i < heap@.blocks.len() && heap@.blocks[i].holds(addr as int) {
        lemma_block_at(heap@, addr as int, i);
    }
}

/// An array takes as much room as its items.
pub proof fn law_array_room<T>(count: usize, r: (usize, usize))
    requires
        vstd::layout::size_of::<T>() * count <= usize::MAX,
        call_ensures(array_layout::<T>, (count,), r),
    ensures
        r.0 == count * vstd::layout::size_of::<T>(),
        r.1 == vstd::layout::align_of::<T>(),
{
    assert(vstd::layout::size_of::<T>() * count == count * vstd::layout::size_of::<T>())
        by (nonlinear_arith);
}

/// What an allocation does, step by step: it asks for a range, makes, maps and guards a
/// block if the heap has to grow, lets the CPU map it if it does, and gives the range back
/// if anything fails.
pub proof fn law_allocation_steps<O>(
    heap: &mut HeapAllocator<O>,
    step: AllocStep<O>,
    event: AllocEvent<O>,
    r: AllocStep<O>,
)
    requires
        old(heap)@.wf(),
        event.answers(step),
        call_ensures(HeapAllocator::<O>::alloc_next, (heap, step, event), r),
    ensures
        (step matches AllocStep::Insert { request } && event matches AllocEvent::Placed {
            start,
        } && start + request.size > old(heap)@.top) ==> r is MakeObject && r->MakeObject_range
            == (Range { start: event->start, size: step->request.size })
            && r->MakeObject_plan.gpu_ptr == old(heap)@.top,
        step is Insert && event is Failure ==> r is Done,
        step is MakeObject && event is Made ==> r is MapBlock && r->MapBlock_object
            == event->object,
        step is MapBlock && event is Success && old(heap)@.cpu_maps ==> r is ReserveGuard,
        step is MapBlock && event is Success && !old(heap)@.cpu_maps ==> (
        r matches AllocStep::Done { result: Ok(_) }),
        step is ReserveGuard && event is Success && old(heap)@.cpu_maps ==> r is MapForCpu,
        step is ReserveGuard && event is Failure ==> (r matches AllocStep::Release { error, .. }
            && error == Error::EIO),
        step is MapForCpu && event is Success ==> (r matches AllocStep::Done { result: Ok(a) }
            && a == step->allocation),
        (step is MakeObject || step is MapBlock || step is MapForCpu) && event is Failure ==> (
        r matches AllocStep::Release { error, .. } && error == event->error),
        step is Release ==> (r matches AllocStep::Done { result: Err(e) } && e
            == step->Release_error),
        final(heap)@.blocks.len() == old(heap)@.blocks.len() || event is Success && (
        step is MapBlock || step is ReserveGuard) && final(heap)@.blocks.len()
            == old(heap)@.blocks.len() + 1,
{
}

/// An allocation starts with a request for a range, or ends at once with an error if its
/// alignment is no power of two.
pub proof fn law_allocation_begins<O>(
    heap: HeapAllocator<O>,
    size: u64,
    align: u64,
    request: Result<InsertRequest>,
    r: AllocStep<O>,
)
    requires
        heap@.wf(),
        align == 0 || power_of_two(align as int) ==> size + heap.align(align as int) <= u64::MAX,
        call_ensures(HeapAllocator::<O>::alloc_request, (&heap, size, align), request),
        call_ensures(HeapAllocator::<O>::alloc_begin, (&heap, size, align), r),
    ensures
        request matches Ok(q) ==> r == (AllocStep::<O>::Insert { request: q }),
        request matches Err(e) ==> (r matches AllocStep::Done { result: Err(f) } && e == f),
{
}

} // verus!
