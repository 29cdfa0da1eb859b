//! GPU address translation.
//!
//! Every address space ([`Vm`]) has a page table. The GPU knows up to 64 of them at a
//! time, by context slots; slot 0 is the kernel's, the others go to the address spaces
//! that are in use. The firmware shares the slot table with the driver and both take a
//! lock, the [`Handoff`], before they touch it.
use crate::drm::gem::shmem::SGTable;
use crate::drm::mm::{InsertMode, InsertRequest};
use crate::error::{to_result, Error, Result};
use crate::io_pgtable::prot::{CACHE, MMIO, NOEXEC, PRIV, READ, WRITE};
use crate::io_pgtable::{Config, FlushOps};
use crate::sharing::{
    law_sharing_history, law_sharing_is_kept, law_slot_is_kept_while_active, lemma_slots_differ,
    lemma_times_after_get, lemma_times_after_put, ShareEvent, Sharer, Sharing,
};
use crate::slotalloc::{Guard, SlotAllocator, SlotItem, SlotToken, Slots};
use vstd::prelude::*;

verus! {

/// What both sides write into the handoff area to say that they are there.
pub const PPL_MAGIC: u64 = 0x4b1d000000000002;

/// The number of context slots.
pub const UAT_NUM_CTX: usize = 64;

/// The first slot that is not the kernel's.
pub const UAT_USER_CTX_START: u32 = 1;

/// The number of slots that are not the kernel's.
pub const UAT_USER_CTX: u32 = 63;

pub const UAT_PGBIT: u64 = 14;

/// The page size of the GPU.
pub const UAT_PGSZ: u64 = 0x4000;

pub const UAT_PGMSK: u64 = 0x3fff;

/// The number of entries of a page table page.
pub const UAT_NPTE: usize = 0x800;

/// The address width of user address spaces.
pub const UAT_IAS: usize = 39;

/// The address width of the kernel's address space.
pub const UAT_IAS_KERN: usize = 36;

/// The physical address width.
pub const UAT_OAS: usize = 36;

pub const IOVA_USER_BASE: u64 = UAT_PGSZ;

pub const IOVA_USER_TOP: u64 = 0x7f_ffff_ffff;

pub const IOVA_TTBR1_BASE: u64 = 0xffff_ff80_0000_0000;

pub const IOVA_KERN_BASE: u64 = 0xffff_ffa0_0000_0000;

pub const IOVA_KERN_TOP: u64 = 0xffff_ffaf_ffff_ffff;

pub const TTBR_VALID: u64 = 0x1;

pub const TTBR_ASID_SHIFT: u64 = 48;

/// Where in the firmware's top page table the kernel's entry goes.
pub const KERNEL_PTE_INDEX: usize = 2;

/// A page table entry that points to another table.
pub const PTE_TABLE: u64 = 0x3;

/// The sizes of the memory regions that the driver shares with the firmware.
pub const HANDOFF_SIZE: u64 = 0x648;

pub const SLOTS_SIZE: u64 = 0x400;

pub const PAGETABLES_SIZE: u64 = UAT_PGSZ;

// `CACHE` stands for cache coherency, which the firmware side only has for uncached
// mappings. Without it a mapping is cached and not coherent.
pub const PROT_FW_MMIO_RW: u32 = PRIV | READ | WRITE | CACHE | MMIO;

pub const PROT_FW_MMIO_RO: u32 = PRIV | READ | CACHE | MMIO;

pub const PROT_FW_SHARED_RW: u32 = PRIV | READ | WRITE | CACHE;

pub const PROT_FW_SHARED_RO: u32 = PRIV | READ | CACHE;

pub const PROT_FW_PRIV_RW: u32 = PRIV | READ | WRITE;

pub const PROT_FW_PRIV_RO: u32 = PRIV | READ;

pub const PROT_GPU_FW_SHARED_RW: u32 = READ | WRITE | CACHE;

pub const PROT_GPU_FW_PRIV_RW: u32 = READ | WRITE;

pub const PROT_GPU_SHARED_RW: u32 = READ | WRITE | CACHE | NOEXEC;

pub const PROT_GPU_SHARED_RO: u32 = READ | CACHE | NOEXEC;

pub const PROT_GPU_PRIV_RW: u32 = READ | WRITE | NOEXEC;

pub const PROT_GPU_PRIV_RO: u32 = READ | NOEXEC;

/// The address lies on a page boundary.
pub open spec fn page_aligned(x: u64) -> bool {
    x % UAT_PGSZ == 0
}

fn all_page_aligned(a: u64, b: u64, c: u64) -> (r: bool)
    ensures
        r == (page_aligned(a) && page_aligned(b) && page_aligned(c)),
{
    assert((a | b | c) & 0x3fff == 0 <==> (a % 0x4000 == 0 && b % 0x4000 == 0 && c % 0x4000 == 0))
        by (bit_vector);
    (a | b | c) & UAT_PGMSK == 0
}

fn page_count(len: u64) -> (r: u64)
    ensures
        r == len / UAT_PGSZ,
{
    assert(len >> 14 == len / 0x4000) by (bit_vector);
    len >> UAT_PGBIT
}

/// The slot table entry of a page table under an address space id.
pub open spec fn ttb_entry(ttb: u64, asid: u64) -> u64 {
    ttb | 1 | (asid << 48)
}

/// Page tables lie on even addresses of at most 48 bits.
pub open spec fn is_ttb(ttb: u64) -> bool {
    ttb % 2 == 0 && ttb < 0x1_0000_0000_0000
}

fn make_ttb_entry(ttb: u64, asid: u32) -> (r: u64)
    requires
        asid < UAT_NUM_CTX,
    ensures
        r == ttb_entry(ttb, asid as u64),
{
    ttb | TTBR_VALID | ((asid as u64) << TTBR_ASID_SHIFT)
}

/// An entry tells both the page table and the id, and is never the empty entry.
pub proof fn law_ttb_entry_is_injective(ttb1: u64, asid1: u64, ttb2: u64, asid2: u64)
    requires
        is_ttb(ttb1),
        is_ttb(ttb2),
        asid1 < UAT_NUM_CTX,
        asid2 < UAT_NUM_CTX,
    ensures
        ttb_entry(ttb1, asid1) == ttb_entry(ttb2, asid2) <==> ttb1 == ttb2 && asid1 == asid2,
        ttb_entry(ttb1, asid1) != 0,
{
    assert(((ttb1 | 1 | (asid1 << 48) == ttb2 | 1 | (asid2 << 48)) <==> (ttb1 == ttb2 && asid1
        == asid2)) && ttb1 | 1 | (asid1 << 48) != 0) by (bit_vector)
        requires
            ttb1 % 2 == 0,
            ttb2 % 2 == 0,
            ttb1 < 0x1_0000_0000_0000,
            ttb2 < 0x1_0000_0000_0000,
            asid1 < 64,
            asid2 < 64,
    ;
}

/// What a context slot holds: nothing that anybody has to look at.
#[derive(Copy, Clone, Debug, PartialEq, Eq, Structural)]
pub struct SlotInner;

impl SlotItem for SlotInner {
    type Owner = ();
}

/// An address space.
pub struct Vm {
    pub id: u64,
    pub is_kernel: bool,
    pub min_va: u64,
    pub max_va: u64,
    /// Where the page table lies.
    pub ttb: u64,
    /// How many users rely on the binding.
    pub active_users: usize,
    /// The context slot, while there are users.
    pub binding: Option<Guard<SlotInner>>,
    /// The token of the last context slot.
    pub bind_token: Option<SlotToken>,
}

/// The lowest and highest address of an address space.
pub open spec fn va_base(is_kernel: bool) -> u64 {
    if is_kernel {
        IOVA_KERN_BASE
    } else {
        IOVA_USER_BASE
    }
}

pub open spec fn va_top(is_kernel: bool) -> u64 {
    if is_kernel {
        IOVA_KERN_TOP
    } else {
        IOVA_USER_TOP
    }
}

/// The pages of an address space that the page table code is asked to map next.
#[derive(Copy, Clone, Debug, PartialEq, Eq, Structural)]
pub struct PageRequest {
    /// The address as the page table knows it.
    pub iova: u64,
    pub paddr: u64,
    pub pgsize: u64,
    pub pgcount: u64,
    pub prot: u32,
}

/// A range of pages on its way into or out of a page table. The page table code may
/// take several requests for it.
#[derive(Copy, Clone, Debug, PartialEq, Eq, Structural)]
pub struct PageRun {
    pub iova: u64,
    pub paddr: u64,
    pub pgsize: u64,
    /// The pages that are left.
    pub left: u64,
    pub prot: u32,
}

impl PageRun {
    /// The range ends within the address range of the machine.
    pub open spec fn wf(self) -> bool {
        &&& self.pgsize > 0
        &&& self.iova + self.pgsize * self.left <= u64::MAX
        &&& self.paddr + self.pgsize * self.left <= u64::MAX
    }

    /// The run after the page table code dealt with `done` bytes.
    pub open spec fn after(self, done: u64) -> PageRun {
        PageRun {
            iova: (self.iova + done) as u64,
            paddr: (self.paddr + done) as u64,
            left: (self.left - done / self.pgsize) as u64,
            ..self
        }
    }

    /// Takes note that the page table code dealt with `done` bytes.
    pub fn advance(&mut self, done: u64)
        requires
            old(self).wf(),
            done <= old(self).pgsize * old(self).left,
        ensures
            *final(self) == old(self).after(done),
            done as int % old(self).pgsize as int == 0 ==> final(self).wf(),
            done / old(self).pgsize <= old(self).left,
    {
        proof {
            let (p, l, d) = (self.pgsize as int, self.left as int, done as int);
            vstd::arithmetic::div_mod::lemma_fundamental_div_mod(d, p);
            vstd::arithmetic::div_mod::lemma_mod_bound(d, p);
            let q = d / p;
            assert(q <= l) by (nonlinear_arith)
                requires
                    d == p * q + d % p,
                    0 <= d % p,
                    d <= p * l,
                    p > 0,
            ;
            if d % p == 0 {
                assert(p * (l - q) == p * l - d) by (nonlinear_arith)
                    requires
                        d == p * q,
                ;
            }
        }
        self.left = self.left - done / self.pgsize;
        self.paddr = self.paddr + done;
        self.iova = self.iova + done;
    }
}

/// However the page table code splits a range up, the requests cover it from start to
/// end, page by page, and keep every page at the same distance from its memory.
pub proof fn law_page_run_covers_the_range(run: PageRun, done: u64)
    requires
        run.wf(),
        done <= run.pgsize * run.left,
        done as int % run.pgsize as int == 0,
    ensures
        run.after(done).wf(),
        run.after(done).iova == run.iova + done,
        run.after(done).iova + run.pgsize * run.after(done).left == run.iova + run.pgsize
            * run.left,
        run.after(done).iova - run.after(done).paddr == run.iova - run.paddr,
        run.after(done).left == 0 <==> done == run.pgsize * run.left,
{
    let (p, l, d) = (run.pgsize as int, run.left as int, done as int);
    vstd::arithmetic::div_mod::lemma_fundamental_div_mod(d, p);
    let q = d / p;
    assert(d == p * q);
    assert(q <= l) by (nonlinear_arith)
        requires
            d == p * q,
            d <= p * l,
            p > 0,
    ;
    assert(p * (l - q) == p * l - d) by (nonlinear_arith)
        requires
            d == p * q,
    ;
    assert(0 <= q) by (nonlinear_arith)
        requires
            d == p * q,
            d >= 0,
            p > 0,
    ;
    assert((l - q == 0) == (d == p * l)) by (nonlinear_arith)
        requires
            d == p * q,
            p > 0,
    ;
}

impl Vm {
    /// A bound address space has users and holds the slot that its token names.
    pub open spec fn wf(self) -> bool {
        &&& self.min_va == va_base(self.is_kernel)
        &&& self.max_va == va_top(self.is_kernel)
        &&& self.binding is Some <==> self.active_users > 0
        &&& self.binding is Some ==> self.bind_token == Some(self.binding->0.token)
        &&& self.bind_token is Some ==> self.bind_token->0.slot < UAT_USER_CTX
    }

    /// The page table that an address space needs.
    pub fn config(is_kernel: bool) -> (r: Config)
        ensures
            r == (Config {
                quirks: 0,
                pgsize_bitmap: 0x4000,
                ias: if is_kernel {
                    UAT_IAS_KERN
                } else {
                    UAT_IAS
                },
                oas: UAT_OAS,
                coherent_walk: true,
            }),
    {
        Config {
            pgsize_bitmap: UAT_PGSZ as usize,
            ias: if is_kernel {
                UAT_IAS_KERN
            } else {
                UAT_IAS
            },
            oas: UAT_OAS,
            coherent_walk: true,
            quirks: 0,
        }
    }

    /// An address space with its page table at `ttb`.
    pub fn new(is_kernel: bool, id: u64, ttb: u64) -> (r: Vm)
        ensures
            r.wf(),
            r == fresh_vm(is_kernel, id, ttb),
    {
        Vm {
            id,
            is_kernel,
            min_va: if is_kernel {
                IOVA_KERN_BASE
            } else {
                IOVA_USER_BASE
            },
            max_va: if is_kernel {
                IOVA_KERN_TOP
            } else {
                IOVA_USER_TOP
            },
            ttb,
            active_users: 0,
            binding: None,
            bind_token: None,
        }
    }

    pub fn id(&self) -> (r: u64)
        ensures
            r == self.id,
    {
        self.id
    }

    pub fn ttb(&self) -> (r: u64)
        ensures
            r == self.ttb,
    {
        self.ttb
    }

    /// The size of the range that the range allocator of the address space manages.
    pub fn mm_size(&self) -> (r: u64)
        requires
            self.wf(),
        ensures
            r == self.max_va - self.min_va + 1,
    {
        self.max_va - self.min_va + 1
    }

    /// The context slot that stale translations would be under: the kernel's, or the
    /// last one that the address space had, even if it has lost it since.
    pub open spec fn spec_slot(self) -> Option<u32> {
        if self.is_kernel {
            Some(0)
        } else {
            match self.bind_token {
                Some(token) => Some((token.slot + UAT_USER_CTX_START) as u32),
                None => None,
            }
        }
    }

    pub fn slot(&self) -> (r: Option<u32>)
        requires
            self.wf(),
        ensures
            r == self.spec_slot(),
    {
        if self.is_kernel {
            Some(0)
        } else {
            match self.bind_token {
                Some(token) => Some(token.last_slot() + UAT_USER_CTX_START),
                None => None,
            }
        }
    }

    /// The range lies in the address space.
    pub open spec fn contains(self, iova: int, size: int) -> bool {
        self.min_va <= iova && iova + size - 1 <= self.max_va
    }

    /// The address as the page table knows it.
    pub open spec fn table_address(self, iova: u64) -> u64 {
        if self.is_kernel {
            (iova - self.min_va) as u64
        } else {
            iova
        }
    }

    /// The address of a range as the page table knows it, if the range lies in the
    /// address space.
    pub fn map_iova(&self, iova: u64, size: u64) -> (r: Result<u64>)
        requires
            self.wf(),
            iova >= self.min_va ==> iova + size <= u64::MAX,
        ensures
            r == if self.contains(iova as int, size as int) {
                Ok(self.table_address(iova))
            } else {
                Err(Error::EINVAL)
            },
    {
        if iova < self.min_va || (iova + size - 1) > self.max_va {
            Err(Error::EINVAL)
        } else if self.is_kernel {
            Ok(iova - self.min_va)
        } else {
            Ok(iova)
        }
    }

    /// What to ask the page table code for next while a range is being mapped or
    /// unmapped. `None` means that the range is done. Every request spans all that is
    /// left of the range; a range that leaves the address space is refused.
    pub fn next_pages(&self, run: &PageRun) -> (r: Option<Result<PageRequest>>)
        requires
            self.wf(),
            run.wf(),
        ensures
            r == if run.left == 0 {
                None
            } else if !self.contains(run.iova as int, run.pgsize * run.left) {
                Some(Err(Error::EINVAL))
            } else {
                Some(
                    Ok(
                        PageRequest {
                            iova: self.table_address(run.iova),
                            paddr: run.paddr,
                            pgsize: run.pgsize,
                            pgcount: run.left,
                            prot: run.prot,
                        },
                    ),
                )
            },
    {
        if run.left == 0 {
            return None;
        }
        match self.map_iova(run.iova, run.pgsize * run.left) {
            Ok(iova) => Some(
                Ok(
                    PageRequest {
                        iova,
                        paddr: run.paddr,
                        pgsize: run.pgsize,
                        pgcount: run.left,
                        prot: run.prot,
                    },
                ),
            ),
            Err(e) => Some(Err(e)),
        }
    }
}

/// The length of the first `n` entries of a table.
pub open spec fn table_len(sgt: SGTable, n: int) -> int
    decreases n,
{
    if n <= 0 {
        0
    } else {
        table_len(sgt, n - 1) + sgt.entries@[n - 1].dma_len
    }
}

proof fn lemma_table_len_ascends(sgt: SGTable, m: int, n: int)
    requires
        0 <= m <= n <= sgt.entries@.len(),
    ensures
        0 <= table_len(sgt, m) <= table_len(sgt, n),
    decreases n,
{
    if m < n {
        lemma_table_len_ascends(sgt, m, n - 1);
    } else if n > 0 {
        lemma_table_len_ascends(sgt, n - 1, n - 1);
    }
}

/// The run for entry `i` of a table that is mapped from `start`.
pub open spec fn entry_run(start: u64, sgt: SGTable, prot: u32, i: int) -> PageRun {
    PageRun {
        iova: (start + table_len(sgt, i)) as u64,
        paddr: sgt.entries@[i].dma_address,
        pgsize: UAT_PGSZ,
        left: sgt.entries@[i].dma_len / UAT_PGSZ,
        prot,
    }
}

pub open spec fn entry_aligned(start: u64, sgt: SGTable, i: int) -> bool {
    &&& page_aligned(sgt.entries@[i].dma_address)
    &&& page_aligned(sgt.entries@[i].dma_len)
    &&& page_aligned((start + table_len(sgt, i)) as u64)
}

pub open spec fn all_aligned(start: u64, sgt: SGTable) -> bool {
    forall|i: int| 0 <= i < sgt.entries@.len() ==> #[trigger] entry_aligned(start, sgt, i)
}

/// What mapping an object takes: these runs, in this order, and whether that is all of
/// the object. An object that is not page-aligned is refused at the first entry that
/// shows it; what comes before has been mapped by then.
pub struct NodePlan {
    pub runs: Vec<PageRun>,
    pub result: Result<()>,
}

/// Plans the mapping of an object's memory from `start`. An object without memory is
/// refused.
pub fn map_node(start: u64, sgt: Option<&SGTable>, prot: u32) -> (r: NodePlan)
    requires
        sgt matches Some(sgt) ==> {
            &&& start + table_len(*sgt, sgt.entries@.len() as int) <= u64::MAX
            &&& forall|i: int|
                0 <= i < sgt.entries@.len() ==> (#[trigger] sgt.entries@[i]).dma_address
                    + sgt.entries@[i].dma_len <= u64::MAX
        },
    ensures
        r.result is Ok <==> sgt is Some && all_aligned(start, *sgt->0),
        r.result matches Err(e) ==> e == Error::EINVAL,
        sgt is None ==> r.runs@.len() == 0,
        sgt matches Some(sgt) ==> {
            &&& r.runs@.len() <= sgt.entries@.len()
            &&& r.result is Ok ==> r.runs@.len() == sgt.entries@.len()
            &&& r.result is Err ==> r.runs@.len() < sgt.entries@.len() && !entry_aligned(
                start,
                *sgt,
                r.runs@.len() as int,
            )
            &&& forall|i: int|
                0 <= i < r.runs@.len() ==> {
                    &&& #[trigger] r.runs@[i] == entry_run(start, *sgt, prot, i)
                    &&& r.runs@[i].wf()
                    &&& entry_aligned(start, *sgt, i)
                }
        },
{
    let mut runs: Vec<PageRun> = Vec::new();
    let table = match sgt {
        None => {
            return NodePlan { runs, result: Err(Error::EINVAL) };
        },
        Some(table) => table,
    };
    let mut iova: u64 = start;
    let mut i: usize = 0;
    while i < table.entries.len()
        invariant
            sgt == Some(table),
            i <= table.entries@.len(),
            start + table_len(*table, table.entries@.len() as int) <= u64::MAX,
            forall|k: int|
                0 <= k < table.entries@.len() ==> (#[trigger] table.entries@[k]).dma_address
                    + table.entries@[k].dma_len <= u64::MAX,
            iova == start + table_len(*table, i as int),
            runs@.len() == i,
            forall|k: int|
                0 <= k < i ==> {
                    &&& #[trigger] runs@[k] == entry_run(start, *table, prot, k)
                    &&& runs@[k].wf()
                    &&& entry_aligned(start, *table, k)
                },
        decreases table.entries@.len() - i,
    {
        let range = table.entries[i];
        let addr: u64 = range.dma_address();
        let len: u64 = range.dma_len();
        proof {
            lemma_table_len_ascends(*table, i + 1, table.entries@.len() as int);
            lemma_table_len_ascends(*table, i as int, i + 1);
            assert(table.entries@[i as int] == range);
        }
        if !all_page_aligned(addr, len, iova) {
            assert(!entry_aligned(start, *table, i as int));
            return NodePlan { runs, result: Err(Error::EINVAL) };
        }
        let run = PageRun { iova, paddr: addr, pgsize: UAT_PGSZ, left: page_count(len), prot };
        assert(run == entry_run(start, *table, prot, i as int));
        assert(UAT_PGSZ * (len / UAT_PGSZ) == len);
        assert(entry_aligned(start, *table, i as int));
        runs.push(run);
        iova = iova + len;
        i = i + 1;
    }
    assert(all_aligned(start, *table)) by {
        assert forall|k: int| 0 <= k < table.entries@.len() implies #[trigger] entry_aligned(
            start,
            *table,
            k,
        ) by {
            assert(runs@[k] == entry_run(start, *table, prot, k));
        }
    }
    NodePlan { runs, result: Ok(()) }
}

/// The runs of a mapped object follow each other without gaps and end where the object
/// ends.
pub proof fn law_mapped_object_is_contiguous(start: u64, sgt: SGTable, prot: u32, i: int)
    requires
        start + table_len(sgt, sgt.entries@.len() as int) <= u64::MAX,
        0 <= i < sgt.entries@.len(),
        all_aligned(start, sgt),
    ensures
        entry_run(start, sgt, prot, 0).iova == start,
        entry_run(start, sgt, prot, i).iova + UAT_PGSZ * entry_run(start, sgt, prot, i).left
            == start + table_len(sgt, i + 1),
        i + 1 < sgt.entries@.len() ==> entry_run(start, sgt, prot, i + 1).iova == entry_run(
            start,
            sgt,
            prot,
            i,
        ).iova + UAT_PGSZ * entry_run(start, sgt, prot, i).left,
{
    lemma_table_len_ascends(sgt, i + 1, sgt.entries@.len() as int);
    lemma_table_len_ascends(sgt, i, i + 1);
    assert(entry_aligned(start, sgt, i));
    let len = sgt.entries@[i].dma_len;
    assert(UAT_PGSZ * (len / UAT_PGSZ) == len);
}

/// A mapped range with the guard page that follows it.
#[derive(Copy, Clone, Debug, PartialEq, Eq, Structural)]
pub struct Mapping {
    /// Where the range starts.
    pub start: u64,
    /// The size with the guard page.
    pub node_size: u64,
    pub prot: u32,
}

/// A cache flush that the firmware is asked for.
#[derive(Copy, Clone, Debug, PartialEq, Eq, Structural)]
pub struct FwCtlMsg {
    pub addr: u64,
    pub unk_8: u32,
    pub slot: u32,
    pub unk_10: u16,
    pub unk_12: u16,
}

/// Translations to invalidate: those of a range under an address space id.
#[derive(Copy, Clone, Debug, PartialEq, Eq, Structural)]
pub struct TlbRange {
    pub asid: u8,
    pub start: u64,
    pub size: u64,
}

/// Whether the flag that makes a mapping uncached is missing.
pub open spec fn is_cached(prot: u32) -> bool {
    prot & CACHE == 0
}

impl Mapping {
    pub open spec fn wf(self) -> bool {
        &&& self.node_size >= UAT_PGSZ
        &&& self.start + self.node_size <= u64::MAX
    }

    pub open spec fn len(self) -> int {
        self.node_size - UAT_PGSZ
    }

    pub fn iova(&self) -> (r: u64)
        ensures
            r == self.start,
    {
        self.start
    }

    /// The size without the guard page.
    pub fn size(&self) -> (r: u64)
        requires
            self.wf(),
        ensures
            r == self.len(),
    {
        self.node_size - UAT_PGSZ
    }

    /// The run that takes the mapping out of the page table; the guard page is not in
    /// it.
    pub fn unmap_run(&self) -> (r: PageRun)
        requires
            self.wf(),
        ensures
            r == (PageRun {
                iova: self.start,
                paddr: 0,
                pgsize: UAT_PGSZ,
                left: (self.len() / UAT_PGSZ as int) as u64,
                prot: 0,
            }),
            r.wf(),
    {
        let size: u64 = self.size();
        PageRun {
            iova: self.start,
            paddr: 0,
            pgsize: UAT_PGSZ,
            left: page_count(size),
            prot: 0,
        }
    }

    /// Whether the mapping is cached: then it has to be mapped again uncached, with the
    /// protection given, and flushed before it is unmapped.
    pub fn remap_prot(&self) -> (r: Option<u32>)
        ensures
            r == if is_cached(self.prot) {
                Some(self.prot | CACHE)
            } else {
                None
            },
            r is Some ==> !is_cached(r->0),
    {
        let p: u32 = self.prot;
        assert((p | 4) & 4 != 0) by (bit_vector);
        if self.prot & CACHE == 0 {
            Some(self.prot | CACHE)
        } else {
            None
        }
    }

    /// After a mapping has been made uncached: the flush slot to flush it through, if
    /// any. The kernel's mappings always need it. Others do if the firmware is using
    /// their slot (`cur_slot`), provided that the slot is still theirs by its table
    /// entry (`ttb_cur`).
    pub fn flush_slot(vm: &Vm, cur_slot: Option<u32>, ttb_cur: u64) -> (r: Option<u32>)
        requires
            vm.wf(),
        ensures
            r == flush_slot_of(*vm, Inspection { cur_slot, ttb_cur }),
            r is Some ==> r->0 <= UAT_NUM_CTX,
    {
        let slot: u32 = match vm.slot() {
            None => {
                return None;
            },
            Some(slot) => slot,
        };
        if vm.is_kernel {
            return Some(UAT_NUM_CTX as u32);
        }
        let ttb: u64 = make_ttb_entry(vm.ttb, slot);
        let current = match cur_slot {
            Some(cur) => cur == slot,
            None => false,
        };
        if current && ttb_cur == ttb {
            Some(slot)
        } else {
            None
        }
    }

    /// The message that asks the firmware to flush the mapping.
    pub fn flush_msg(&self, flush_slot: u32) -> (r: FwCtlMsg)
        ensures
            r == (FwCtlMsg { addr: self.start, unk_8: 0, slot: flush_slot, unk_10: 1, unk_12: 2 }),
    {
        FwCtlMsg { addr: self.start, unk_8: 0, slot: flush_slot, unk_10: 1, unk_12: 2 }
    }

    /// The translations of the mapping: those of its range under the id of its address
    /// space, if that has one.
    pub open spec fn stale(self, vm: Vm) -> Option<TlbRange> {
        match vm.spec_slot() {
            Some(slot) => Some(
                TlbRange { asid: slot as u8, start: self.start, size: self.len() as u64 },
            ),
            None => None,
        }
    }

    /// The translations to invalidate once the page table has changed.
    pub fn stale_range(&self, vm: &Vm) -> (r: Option<TlbRange>)
        requires
            self.wf(),
            vm.wf(),
        ensures
            r == self.stale(*vm),
    {
        match vm.slot() {
            Some(asid) => Some(
                TlbRange { asid: asid as u8, start: self.start, size: self.size() },
            ),
            None => None,
        }
    }
}

/// What has to be done next to take a mapping away. The driver does it and asks again.
#[derive(Copy, Clone, Debug, PartialEq, Eq, Structural)]
pub enum UnmapStep {
    /// Take the cached mapping out of the page table; it is mapped again next.
    UnmapCached,
    /// Map it again, uncached.
    MapUncached { prot: u32 },
    /// Invalidate the translations of the range, which still say that it is cached.
    InvalidateRemapped { range: TlbRange },
    /// Look, under the handoff lock, at the slot that the firmware uses and at the table
    /// entry of this one.
    Inspect { slot: u32 },
    /// Write the range into this flush slot.
    BeginFlush { slot: u32 },
    /// Ask the firmware to flush and wait until it has.
    SendFlush { slot: u32 },
    /// Free the flush slot.
    EndFlush { slot: u32 },
    /// Take the mapping out of the page table.
    Unmap,
    /// Invalidate the translations of the range.
    Invalidate { range: TlbRange },
    /// Nothing is left to do.
    Done,
}

/// What an inspection found.
#[derive(Copy, Clone, Debug, PartialEq, Eq, Structural)]
pub struct Inspection {
    pub cur_slot: Option<u32>,
    pub ttb_cur: u64,
}

/// The flush slot that a mapping of an address space is flushed through, if any.
pub open spec fn flush_slot_of(vm: Vm, seen: Inspection) -> Option<u32> {
    if vm.is_kernel {
        Some(UAT_NUM_CTX as u32)
    } else if vm.bind_token is Some && seen.cur_slot == vm.spec_slot() && seen.ttb_cur
        == ttb_entry(vm.ttb, vm.spec_slot()->0 as u64) {
        vm.spec_slot()
    } else {
        None
    }
}

impl UnmapStep {
    /// How far along a step is.
    pub open spec fn order(self) -> int {
        match self {
            UnmapStep::UnmapCached => 0,
            UnmapStep::MapUncached { .. } => 1,
            UnmapStep::InvalidateRemapped { .. } => 2,
            UnmapStep::Inspect { .. } => 3,
            UnmapStep::BeginFlush { .. } => 4,
            UnmapStep::SendFlush { .. } => 5,
            UnmapStep::EndFlush { .. } => 6,
            UnmapStep::Unmap => 7,
            UnmapStep::Invalidate { .. } => 8,
            UnmapStep::Done => 9,
        }
    }
}

impl Mapping {
    pub open spec fn first_step(self) -> UnmapStep {
        if is_cached(self.prot) {
            UnmapStep::UnmapCached
        } else {
            UnmapStep::Unmap
        }
    }

    /// What follows a step. What was seen only matters after an inspection.
    pub open spec fn step_after(self, vm: Vm, step: UnmapStep, seen: Inspection) -> UnmapStep {
        match step {
            UnmapStep::UnmapCached => UnmapStep::MapUncached { prot: self.prot | CACHE },
            UnmapStep::MapUncached { .. } => match self.stale(vm) {
                Some(range) => UnmapStep::InvalidateRemapped { range },
                None => UnmapStep::Unmap,
            },
            UnmapStep::InvalidateRemapped { .. } => if vm.is_kernel {
                UnmapStep::BeginFlush { slot: UAT_NUM_CTX as u32 }
            } else {
                match vm.spec_slot() {
                    Some(slot) => UnmapStep::Inspect { slot },
                    None => UnmapStep::Unmap,
                }
            },
            UnmapStep::Inspect { .. } => match flush_slot_of(vm, seen) {
                Some(slot) => UnmapStep::BeginFlush { slot },
                None => UnmapStep::Unmap,
            },
            UnmapStep::BeginFlush { slot } => UnmapStep::SendFlush { slot },
            UnmapStep::SendFlush { slot } => UnmapStep::EndFlush { slot },
            UnmapStep::EndFlush { .. } => UnmapStep::Unmap,
            UnmapStep::Unmap => match self.stale(vm) {
                Some(range) => UnmapStep::Invalidate { range },
                None => UnmapStep::Done,
            },
            UnmapStep::Invalidate { .. } | UnmapStep::Done => UnmapStep::Done,
        }
    }

    /// Where taking the mapping away starts.
    pub fn drop_begin(&self) -> (r: UnmapStep)
        ensures
            r == self.first_step(),
    {
        match self.remap_prot() {
            Some(_) => UnmapStep::UnmapCached,
            None => UnmapStep::Unmap,
        }
    }

    /// What to do after `step` is done. A step that failed is complained about and
    /// counts as done.
    pub fn drop_next(&self, vm: &Vm, step: UnmapStep, seen: Inspection) -> (r: UnmapStep)
        requires
            self.wf(),
            vm.wf(),
        ensures
            r == self.step_after(*vm, step, seen),
    {
        match step {
            UnmapStep::UnmapCached => UnmapStep::MapUncached { prot: self.prot | CACHE },
            UnmapStep::MapUncached { .. } => match self.stale_range(vm) {
                Some(range) => UnmapStep::InvalidateRemapped { range },
                None => UnmapStep::Unmap,
            },
            UnmapStep::InvalidateRemapped { .. } => match vm.slot() {
                None => UnmapStep::Unmap,
                Some(slot) => if vm.is_kernel {
                    UnmapStep::BeginFlush { slot: UAT_NUM_CTX as u32 }
                } else {
                    UnmapStep::Inspect { slot }
                },
            },
            UnmapStep::Inspect { .. } => match Self::flush_slot(vm, seen.cur_slot, seen.ttb_cur) {
                Some(slot) => UnmapStep::BeginFlush { slot },
                None => UnmapStep::Unmap,
            },
            UnmapStep::BeginFlush { slot } => UnmapStep::SendFlush { slot },
            UnmapStep::SendFlush { slot } => UnmapStep::EndFlush { slot },
            UnmapStep::EndFlush { .. } => UnmapStep::Unmap,
            UnmapStep::Unmap => match self.stale_range(vm) {
                Some(range) => UnmapStep::Invalidate { range },
                None => UnmapStep::Done,
            },
            UnmapStep::Invalidate { .. } | UnmapStep::Done => UnmapStep::Done,
        }
    }
}

/// A cached mapping is flushed before it is unmapped for good: it is made uncached first,
/// and the unmapping then follows the end of a flush, unless no firmware translation can
/// be cached. For the kernel's mappings it always follows a flush.
pub proof fn law_cached_mapping_is_flushed_first(
    mapping: Mapping,
    vm: Vm,
    step: UnmapStep,
    seen: Inspection,
)
    requires
        mapping.wf(),
        vm.wf(),
    ensures
        is_cached(mapping.prot) ==> mapping.first_step() is UnmapCached,
        mapping.step_after(vm, UnmapStep::UnmapCached, seen) matches UnmapStep::MapUncached { prot }
            && !is_cached(prot),
        mapping.step_after(vm, step, seen) is Unmap ==> {
            ||| step is EndFlush
            ||| (step is MapUncached || step is InvalidateRemapped) && !vm.is_kernel
                && vm.spec_slot() is None
            ||| step is Inspect && flush_slot_of(vm, seen) is None
        },
        vm.is_kernel && mapping.step_after(vm, step, seen) is Unmap ==> step is EndFlush,
{
    let p: u32 = mapping.prot;
    assert((p | 4) & 4 != 0) by (bit_vector);
}

/// The order in which a mapping is taken away. A cached mapping of an address space that
/// has an id is mapped again uncached, and its translations are invalidated, before
/// anybody looks whether to flush it or flushes it. Every mapping is unmapped, and its
/// translations are then invalidated, again if need be.
pub proof fn law_translations_are_invalidated_twice(
    mapping: Mapping,
    vm: Vm,
    step: UnmapStep,
    seen: Inspection,
)
    requires
        mapping.wf(),
        vm.wf(),
        vm.spec_slot() is Some,
    ensures
        step is MapUncached ==> mapping.step_after(vm, step, seen) == (
        UnmapStep::InvalidateRemapped { range: mapping.stale(vm)->0 }),
        mapping.step_after(vm, step, seen) is InvalidateRemapped ==> step is MapUncached,
        mapping.step_after(vm, step, seen) is Inspect ==> step is InvalidateRemapped,
        mapping.step_after(vm, step, seen) is BeginFlush ==> step is InvalidateRemapped || step
            is Inspect,
        step is InvalidateRemapped && vm.is_kernel ==> mapping.step_after(vm, step, seen) == (
        UnmapStep::BeginFlush { slot: UAT_NUM_CTX as u32 }),
        step is InvalidateRemapped && !vm.is_kernel ==> mapping.step_after(vm, step, seen) == (
        UnmapStep::Inspect { slot: vm.spec_slot()->0 }),
        step is Unmap ==> mapping.step_after(vm, step, seen) == (UnmapStep::Invalidate {
            range: mapping.stale(vm)->0,
        }),
        !is_cached(mapping.prot) ==> mapping.first_step() is Unmap,
{
}

/// Every step leads on, until nothing is left to do; the last invalidation comes only
/// after the mapping has been unmapped.
pub proof fn law_unmapping_ends(mapping: Mapping, vm: Vm, step: UnmapStep, seen: Inspection)
    requires
        mapping.wf(),
        vm.wf(),
    ensures
        step !is Done ==> mapping.step_after(vm, step, seen).order() > step.order(),
        step is Done ==> mapping.step_after(vm, step, seen) is Done,
        mapping.step_after(vm, step, seen) is Invalidate ==> step is Unmap,
        mapping.step_after(vm, step, seen) is Done && step !is Done ==> step is Invalidate || step
            is Unmap,
{
}

/// A user mapping is flushed only through the slot that it is bound to, and only while
/// the slot table says that the slot is its own.
pub proof fn law_flush_goes_to_the_owner(vm: Vm, other: Vm, seen: Inspection)
    requires
        vm.wf(),
        other.wf(),
        !vm.is_kernel,
        !other.is_kernel,
        is_ttb(vm.ttb),
        is_ttb(other.ttb),
        vm.ttb != other.ttb,
        flush_slot_of(vm, seen) is Some,
    ensures
        flush_slot_of(vm, seen) == vm.spec_slot(),
        flush_slot_of(other, seen) is None,
{
    if other.bind_token is Some {
        law_ttb_entry_is_injective(
            vm.ttb,
            vm.spec_slot()->0 as u64,
            other.ttb,
            other.spec_slot()->0 as u64,
        );
    }
}

/// The request for a range for `size` bytes and a guard page, anywhere.
pub fn map_request(size: u64) -> (r: InsertRequest)
    requires
        size + UAT_PGSZ <= u64::MAX,
    ensures
        r == (InsertRequest {
            size: (size + UAT_PGSZ) as u64,
            alignment: 0,
            color: 0,
            start: 0,
            end: u64::MAX,
            mode: InsertMode::Best,
        }),
{
    crate::drm::mm::Allocator::<(), ()>::insert_node(size + UAT_PGSZ)
}

/// The protection of a mapping whose place nobody asked for: the driver and the firmware
/// share it.
pub fn map_prot() -> (r: u32)
    ensures
        r == PROT_FW_SHARED_RW,
{
    PROT_FW_SHARED_RW
}

/// The request for a range for `size` bytes and a guard page, within `start..end`.
pub fn map_in_range_request(size: u64, alignment: u64, start: u64, end: u64) -> (r: InsertRequest)
    requires
        size + UAT_PGSZ <= u64::MAX,
    ensures
        r == (InsertRequest {
            size: (size + UAT_PGSZ) as u64,
            alignment,
            color: 0,
            start,
            end,
            mode: InsertMode::Best,
        }),
{
    InsertRequest {
        size: size + UAT_PGSZ,
        alignment,
        color: 0,
        start,
        end,
        mode: InsertMode::Best,
    }
}

/// The protection of a mapping of device registers.
pub fn io_prot(rw: bool) -> (r: u32)
    ensures
        r == if rw {
            PROT_FW_MMIO_RW
        } else {
            PROT_FW_MMIO_RO
        },
{
    if rw {
        PROT_FW_MMIO_RW
    } else {
        PROT_FW_MMIO_RO
    }
}

/// The run that maps device registers at `phys` to `iova`, if all is page-aligned.
pub fn map_io(phys: u64, size: u64, iova: u64, rw: bool) -> (r: Result<PageRun>)
    requires
        iova + size <= u64::MAX,
        phys + size <= u64::MAX,
    ensures
        r == if page_aligned(phys) && page_aligned(size) && page_aligned(iova) {
            Ok(
                PageRun {
                    iova,
                    paddr: phys,
                    pgsize: UAT_PGSZ,
                    left: size / UAT_PGSZ,
                    prot: if rw {
                        PROT_FW_MMIO_RW
                    } else {
                        PROT_FW_MMIO_RO
                    },
                },
            )
        } else {
            Err(Error::EINVAL)
        },
        r matches Ok(run) ==> run.wf(),
{
    if !all_page_aligned(phys, size, iova) {
        return Err(Error::EINVAL);
    }
    Ok(
        PageRun {
            iova,
            paddr: phys,
            pgsize: UAT_PGSZ,
            left: page_count(size),
            prot: io_prot(rw),
        },
    )
}

/// A flush request in the handoff area.
#[derive(Copy, Clone, Debug, PartialEq, Eq, Structural)]
pub struct FlushInfo {
    pub state: u64,
    pub addr: u64,
    pub size: u64,
}

impl FlushInfo {
    /// Writes a range to flush. `false` means that the slot was not free, which is worth
    /// a complaint.
    pub fn begin_flush(&mut self, start: u64, size: u64) -> (r: bool)
        ensures
            r == (old(self).state == 0),
            *final(self) == (FlushInfo { state: 1, addr: start, size }),
    {
        let expected = self.state == 0;
        self.addr = start;
        self.size = size;
        self.state = 1;
        expected
    }

    /// Frees the slot. `false` means that the firmware had not marked the flush as done,
    /// which is worth a complaint.
    pub fn end_flush(&mut self) -> (r: bool)
        ensures
            r == (old(self).state == 2),
            *final(self) == (FlushInfo { state: 0, ..*old(self) }),
    {
        let expected = self.state == 2;
        self.state = 0;
        expected
    }
}

/// The memory that the driver and the firmware hand the slot table over with.
pub struct Handoff {
    pub magic_ap: u64,
    pub magic_fw: u64,
    /// The driver wants or has the lock.
    pub lock_ap: u8,
    /// The firmware wants or has the lock.
    pub lock_fw: u8,
    /// Who steps back if both want the lock: the driver unless it is zero.
    pub turn: u32,
    /// The slot that the firmware is using.
    pub cur_slot: u32,
    /// One entry for each context slot, and one for the kernel's mappings.
    pub flush: Vec<FlushInfo>,
    pub unk3: u64,
}

/// How far the driver has come in taking the lock.
#[derive(Copy, Clone, Debug, PartialEq, Eq, Structural)]
pub enum LockState {
    /// It has not shown its flag.
    Idle,
    /// It has shown its flag and looks for the firmware's.
    Wanting,
    /// The firmware's flag is up too: it looks whose turn it is.
    Contending,
    /// It has taken its flag down and waits for its turn.
    Yielding,
    /// It has the lock.
    Locked,
}

/// The handoff area as far as the lock is concerned.
#[derive(Copy, Clone, Debug, PartialEq, Eq, Structural)]
pub struct LockWords {
    pub lock_ap: u8,
    pub lock_fw: u8,
    pub turn: u32,
}

impl LockState {
    /// The next state, given what the driver reads in this one.
    pub open spec fn next(self, words: LockWords) -> LockState {
        match self {
            LockState::Idle => LockState::Wanting,
            LockState::Wanting => if words.lock_fw != 0 {
                LockState::Contending
            } else {
                LockState::Locked
            },
            LockState::Contending => if words.turn != 0 {
                LockState::Yielding
            } else {
                LockState::Wanting
            },
            LockState::Yielding => if words.turn != 0 {
                LockState::Yielding
            } else {
                LockState::Wanting
            },
            LockState::Locked => LockState::Locked,
        }
    }

    /// The driver's flag is up in all states but these two.
    pub open spec fn flag(self) -> u8 {
        match self {
            LockState::Idle | LockState::Yielding => 0,
            _ => 1,
        }
    }
}

impl Handoff {
    pub open spec fn wf(self) -> bool {
        self.flush@.len() == UAT_NUM_CTX + 1
    }

    pub open spec fn words(self) -> LockWords {
        LockWords { lock_ap: self.lock_ap, lock_fw: self.lock_fw, turn: self.turn }
    }

    /// One step towards the lock. The driver's flag follows the state.
    pub fn lock_step(&mut self, state: LockState) -> (r: LockState)
        requires
            old(self).lock_ap == state.flag(),
        ensures
            r == state.next(old(self).words()),
            *final(self) == (Handoff { lock_ap: r.flag(), ..*old(self) }),
    {
        match state {
            LockState::Idle => {
                self.lock_ap = 1;
                LockState::Wanting
            },
            LockState::Wanting => if self.lock_fw != 0 {
                LockState::Contending
            } else {
                LockState::Locked
            },
            LockState::Contending => if self.turn != 0 {
                self.lock_ap = 0;
                LockState::Yielding
            } else {
                LockState::Wanting
            },
            LockState::Yielding => if self.turn != 0 {
                LockState::Yielding
            } else {
                self.lock_ap = 1;
                LockState::Wanting
            },
            LockState::Locked => LockState::Locked,
        }
    }

    /// Gives the lock up and the next turn to the firmware.
    pub fn unlock(&mut self)
        ensures
            *final(self) == (Handoff { turn: 1, lock_ap: 0, ..*old(self) }),
    {
        self.turn = 1;
        self.lock_ap = 0;
    }

    /// The slot that the firmware is using, if it is a user's.
    pub fn current_slot(&self) -> (r: Option<u32>)
        ensures
            r == if self.cur_slot == 0 || self.cur_slot == u32::MAX {
                None
            } else {
                Some(self.cur_slot)
            },
    {
        let slot: u32 = self.cur_slot;
        if slot == 0 || slot == u32::MAX {
            None
        } else {
            Some(slot)
        }
    }

    /// Shows the driver's presence. What follows is done under the lock.
    pub fn init_begin(&mut self)
        ensures
            *final(self) == (Handoff { magic_ap: PPL_MAGIC, cur_slot: 0, unk3: 0, ..*old(self) }),
    {
        self.magic_ap = PPL_MAGIC;
        self.cur_slot = 0;
        self.unk3 = 0;
    }

    /// Whether the firmware has shown its presence; until then the driver keeps the lock
    /// and waits.
    pub fn fw_ready(&self) -> (r: bool)
        ensures
            r == (self.magic_fw == PPL_MAGIC),
    {
        self.magic_fw == PPL_MAGIC
    }

    /// Clears all flush slots, after the lock has been given up.
    pub fn init_end(&mut self)
        requires
            old(self).wf(),
        ensures
            final(self).wf(),
            forall|i: int|
                0 <= i <= UAT_NUM_CTX ==> #[trigger] final(self).flush@[i] == (FlushInfo {
                    state: 0,
                    addr: 0,
                    size: 0,
                }),
            *final(self) == (Handoff { flush: final(self).flush, ..*old(self) }),
    {
        let mut i: usize = 0;
        while i <= UAT_NUM_CTX
            invariant
                i <= UAT_NUM_CTX + 1,
                self.wf(),
                *self == (Handoff { flush: self.flush, ..*old(self) }),
                forall|k: int|
                    0 <= k < i ==> #[trigger] self.flush@[k] == (FlushInfo {
                        state: 0,
                        addr: 0,
                        size: 0,
                    }),
            decreases UAT_NUM_CTX + 1 - i,
        {
            self.flush.set(i, FlushInfo { state: 0, addr: 0, size: 0 });
            i = i + 1;
        }
    }
}

/// The lock excludes: a firmware that keeps its flag up while it has the lock, and that
/// takes the lock only while the driver's flag is down, never has it together with the
/// driver, whatever step the driver makes.
pub proof fn law_handoff_lock_excludes(
    state: LockState,
    words: LockWords,
    fw_holds: bool,
    fw_takes: bool,
)
    requires
        words.lock_ap == state.flag(),
        fw_holds ==> words.lock_fw != 0,
        fw_takes ==> words.lock_ap == 0,
        !(state is Locked && fw_holds),
    ensures
        !(state.next(words) is Locked && fw_holds),
        !(state is Locked && fw_takes),
        state.next(words) is Locked ==> state.next(words).flag() == 1,
{
}

/// A driver that wants the lock gets it as soon as it sees the firmware's flag down, and
/// steps back only while it is the firmware's turn.
pub proof fn law_handoff_lock_yields_only_to_the_turn(state: LockState, words: LockWords)
    ensures
        state is Wanting && words.lock_fw == 0 ==> state.next(words) is Locked,
        state.next(words) is Yielding ==> words.turn != 0,
        state is Yielding && words.turn == 0 ==> state.next(words) is Wanting,
        state is Contending && words.turn == 0 ==> state.next(words).flag() == 1,
{
}

/// An entry of the slot table.
#[derive(Copy, Clone, Debug, PartialEq, Eq, Structural)]
pub struct SlotTTBS {
    pub ttb0: u64,
    pub ttb1: u64,
}

/// What has to change in the slot table, and which translations to invalidate then.
#[derive(Copy, Clone, Debug, PartialEq, Eq, Structural)]
pub struct TtbUpdate {
    pub index: u32,
    pub entry: SlotTTBS,
    /// All translations under this id are stale.
    pub asid: u8,
}

/// A reliance on the binding of an address space.
#[derive(Copy, Clone, Debug, PartialEq, Eq, Structural)]
pub struct VmBind {
    pub vm_id: u64,
    pub slot: u32,
}

impl VmBind {
    pub fn slot(&self) -> (r: u32)
        ensures
            r == self.slot,
    {
        self.slot
    }
}

/// What a successful binding gives.
#[derive(Copy, Clone, Debug, PartialEq, Eq, Structural)]
pub struct Bound {
    pub bind: VmBind,
    /// What to write if the slot is new to the address space.
    pub update: Option<TtbUpdate>,
}

/// What is known of a new user of an address space: after it has bound the slot that
/// `guard` holds, or relied on the slot that was bound already.
pub open spec fn bind_gives(
    vm: Vm,
    slots: Slots<SlotInner>,
    r: Option<Bound>,
    vm_after: Vm,
    slots_after: Slots<SlotInner>,
) -> bool {
    if vm.binding is Some {
        &&& slots_after == slots
        &&& vm_after == (Vm { active_users: (vm.active_users + 1) as usize, ..vm })
        &&& r == Some(
            Bound {
                bind: VmBind {
                    vm_id: vm.id,
                    slot: (vm.binding->0.token.slot + UAT_USER_CTX_START) as u32,
                },
                update: None,
            },
        )
    } else {
        &&& slots.get_gives(vm.bind_token, vm_after.binding, slots_after)
        &&& r is Some <==> vm_after.binding is Some
        &&& r is None ==> vm_after == vm
        &&& r matches Some(bound) ==> {
            let guard = vm_after.binding->0;
            let index = (guard.token.slot + UAT_USER_CTX_START) as u32;
            &&& vm_after == (Vm {
                active_users: 1,
                binding: Some(guard),
                bind_token: Some(guard.token),
                ..vm
            })
            &&& bound.bind == (VmBind { vm_id: vm.id, slot: index })
            &&& bound.update == if guard.changed {
                Some(
                    TtbUpdate {
                        index,
                        entry: SlotTTBS { ttb0: ttb_entry(vm.ttb, index as u64), ttb1: 0 },
                        asid: index as u8,
                    },
                )
            } else {
                None
            }
        }
    }
}

/// Where the tables lie that the whole GPU shares.
#[derive(Copy, Clone, Debug, PartialEq, Eq, Structural)]
pub struct UatBase {
    /// The slot table.
    pub ttbs: u64,
    /// The firmware's top page table.
    pub pagetables: u64,
    /// The page tables of the kernel's two halves.
    pub lower_ttb: u64,
    pub kernel_ttb: u64,
}

/// The id of the kernel's address space.
pub const KERNEL_VM_ID: u64 = 0;

/// The id of the address space that fills the lower half of the kernel's context.
pub const KERNEL_LOWER_VM_ID: u64 = 1;

/// The context slots of the users, and the kernel's address spaces.
pub struct Uat {
    slots: SlotAllocator<SlotInner>,
    base: UatBase,
    kernel_vm: Vm,
    kernel_lower_vm: Vm,
}

/// A new address space.
pub open spec fn fresh_vm(is_kernel: bool, id: u64, ttb: u64) -> Vm {
    Vm {
        id,
        is_kernel,
        min_va: va_base(is_kernel),
        max_va: va_top(is_kernel),
        ttb,
        active_users: 0,
        binding: None,
        bind_token: None,
    }
}

impl View for Uat {
    type V = Slots<SlotInner>;

    closed spec fn view(&self) -> Slots<SlotInner> {
        self.slots@
    }
}

impl FlushOps for Uat {
    type Data = ();

    // The driver flushes by itself after each change of a page table.
    fn tlb_flush_all(_data: &()) {
    }

    fn tlb_flush_walk(_data: &(), _iova: usize, _size: usize, _granule: usize) {
    }

    fn tlb_add_page(_data: &(), _iova: usize, _granule: usize) {
    }
}

impl Uat {
    /// Where the shared tables lie.
    pub closed spec fn base(&self) -> UatBase {
        self.base
    }

    /// The kernel's address spaces are in place.
    pub closed spec fn kernel_ready(&self) -> bool {
        &&& self.kernel_vm == fresh_vm(true, KERNEL_VM_ID, self.base.kernel_ttb)
        &&& self.kernel_lower_vm == fresh_vm(false, KERNEL_LOWER_VM_ID, self.base.lower_ttb)
    }

    /// All user slots free, and the kernel's address spaces in place.
    pub fn new(base: UatBase) -> (r: Uat)
        ensures
            r.base() == base,
            r.kernel_ready(),
            r@.fresh(),
            r@.slots.len() == UAT_USER_CTX,
    {
        let constructor = |_owner: &(), _slot: u32| -> (r: SlotInner) { SlotInner };
        let slots = SlotAllocator::new(UAT_USER_CTX, (), constructor);
        Uat {
            slots,
            base,
            kernel_vm: Vm::new(true, KERNEL_VM_ID, base.kernel_ttb),
            kernel_lower_vm: Vm::new(false, KERNEL_LOWER_VM_ID, base.lower_ttb),
        }
    }

    /// The kernel's address space.
    pub fn kernel_vm(&self) -> (r: &Vm)
        requires
            self.kernel_ready(),
        ensures
            r.wf(),
            *r == fresh_vm(true, KERNEL_VM_ID, self.base().kernel_ttb),
    {
        &self.kernel_vm
    }

    /// Where the slot table lies.
    pub fn context_table_base(&self) -> (r: u64)
        ensures
            r == self.base().ttbs,
    {
        self.base.ttbs
    }

    /// A user address space with its page table at `ttb`.
    pub fn new_vm(&self, id: u64, ttb: u64) -> (r: Vm)
        ensures
            r.wf(),
            r == fresh_vm(false, id, ttb),
    {
        Vm::new(false, id, ttb)
    }

    /// Binds an address space to a context slot, preferably to its last one, or adds a
    /// user to a binding. `None` means that no slot is free: the user waits until one is.
    pub fn bind(&mut self, vm: &mut Vm) -> (r: Option<Bound>)
        requires
            old(self)@.wf(),
            old(self)@.slots.len() == UAT_USER_CTX,
            old(vm).wf(),
            old(vm).binding is None ==> old(self)@.can_get(old(vm).bind_token),
            old(vm).active_users < usize::MAX,
        ensures
            final(self)@.wf(),
            final(self)@.slots.len() == UAT_USER_CTX,
            final(vm).wf(),
            bind_gives(*old(vm), old(self)@, r, *final(vm), final(self)@),
            final(self).base() == old(self).base(),
            final(self).kernel_ready() == old(self).kernel_ready(),
    {
        let mut update: Option<TtbUpdate> = None;
        if vm.binding.is_none() {
            let guard = match self.slots.get(vm.bind_token) {
                None => {
                    return None;
                },
                Some(guard) => guard,
            };
            proof {
                if guard.changed {
                    assert(old(self)@.idle(guard.token.slot as int));
                }
            }
            if guard.changed() {
                let index: u32 = guard.slot() + UAT_USER_CTX_START;
                update = Some(
                    TtbUpdate {
                        index,
                        entry: SlotTTBS { ttb0: make_ttb_entry(vm.ttb, index), ttb1: 0 },
                        asid: index as u8,
                    },
                );
            }
            vm.bind_token = Some(guard.token());
            vm.binding = Some(guard);
        }
        vm.active_users = vm.active_users + 1;
        let slot: u32 = vm.binding.as_ref().unwrap().slot() + UAT_USER_CTX_START;
        Some(Bound { bind: VmBind { vm_id: vm.id, slot }, update })
    }

    /// Another user of a binding.
    pub fn clone_bind(vm: &mut Vm, bind: &VmBind) -> (r: VmBind)
        requires
            old(vm).wf(),
            old(vm).binding is Some,
            old(vm).active_users < usize::MAX,
        ensures
            final(vm).wf(),
            *final(vm) == (Vm { active_users: (old(vm).active_users + 1) as usize, ..*old(vm) }),
            r == *bind,
    {
        vm.active_users = vm.active_users + 1;
        VmBind { vm_id: bind.vm_id, slot: bind.slot }
    }

    /// One user less. The last one gives the slot back. `true` means that a waiting user
    /// can try again.
    pub fn unbind(&mut self, vm: &mut Vm) -> (r: bool)
        requires
            old(self)@.wf(),
            old(vm).wf(),
            old(vm).active_users > 0,
            old(vm).active_users == 1 ==> {
                &&& old(self)@.issued(old(vm).binding->0.token)
                &&& old(self)@.can_put(old(vm).binding->0.token)
            },
        ensures
            final(self)@.wf(),
            final(vm).wf(),
            final(self)@.slots.len() == old(self)@.slots.len(),
            final(self).base() == old(self).base(),
            final(self).kernel_ready() == old(self).kernel_ready(),
            if old(vm).active_users > 1 {
                &&& !r
                &&& final(self)@ == old(self)@
                &&& *final(vm) == (Vm {
                    active_users: (old(vm).active_users - 1) as usize,
                    ..*old(vm)
                })
            } else {
                &&& r == !old(self)@.idle(old(vm).binding->0.token.slot as int)
                &&& *final(vm) == (Vm { active_users: 0, binding: None, ..*old(vm) })
                &&& final(self)@ == if r {
                    old(self)@.returned(old(vm).binding->0.token, old(vm).binding->0.item)
                } else {
                    old(self)@
                }
            },
    {
        vm.active_users = vm.active_users - 1;
        if vm.active_users == 0 {
            match vm.binding.take() {
                Some(guard) => self.slots.put(guard),
                None => false,
            }
        } else {
            false
        }
    }

    /// What the slot table starts out as: in slot 0 the kernel's lower half and the
    /// firmware's top page table, and no others.
    pub fn init_ttbs(&self) -> (r: Vec<SlotTTBS>)
        requires
            self.kernel_ready(),
        ensures
            r@ == Seq::new(
                UAT_NUM_CTX as nat,
                |i: int|
                    if i == 0 {
                        SlotTTBS {
                            ttb0: self.base().lower_ttb | TTBR_VALID,
                            ttb1: self.base().pagetables | TTBR_VALID,
                        }
                    } else {
                        SlotTTBS { ttb0: 0, ttb1: 0 }
                    },
            ),
    {
        let ttb0: u64 = self.kernel_lower_vm.ttb();
        let pagetables_base: u64 = self.base.pagetables;
        let mut ttbs: Vec<SlotTTBS> = Vec::new();
        ttbs.push(SlotTTBS { ttb0: ttb0 | TTBR_VALID, ttb1: pagetables_base | TTBR_VALID });
        while ttbs.len() < UAT_NUM_CTX
            invariant
                1 <= ttbs@.len() <= UAT_NUM_CTX,
                forall|i: int|
                    0 <= i < ttbs@.len() ==> #[trigger] ttbs@[i] == if i == 0 {
                        SlotTTBS { ttb0: ttb0 | TTBR_VALID, ttb1: pagetables_base | TTBR_VALID }
                    } else {
                        SlotTTBS { ttb0: 0, ttb1: 0 }
                    },
            decreases UAT_NUM_CTX - ttbs@.len(),
        {
            ttbs.push(SlotTTBS { ttb0: 0, ttb1: 0 });
        }
        ttbs
    }

    /// The entry of the firmware's top page table that leads to the kernel's; it goes to
    /// `KERNEL_PTE_INDEX`.
    pub fn kernel_pte(&self) -> (r: u64)
        requires
            self.kernel_ready(),
        ensures
            r == self.base().kernel_ttb | PTE_TABLE,
    {
        self.kernel_vm.ttb() | PTE_TABLE
    }
}

/// The kernel's entry in the firmware's top page table covers exactly the kernel's
/// addresses: those whose index into that table is the entry's, with all higher bits set.
pub proof fn law_kernel_entry_covers_the_kernel(addr: u64)
    ensures
        IOVA_KERN_BASE <= addr <= IOVA_KERN_TOP <==> (addr >> 36) & 7 == KERNEL_PTE_INDEX && addr
            >> 39 == 0x1ff_ffff,
{
    assert((0xffff_ffa0_0000_0000 <= addr && addr <= 0xffff_ffaf_ffff_ffff) <==> ((addr >> 36) & 7
        == 2 && addr >> 39 == 0x1ff_ffff)) by (bit_vector);
}

/// What to do about the slot table when an address space goes away.
#[derive(Copy, Clone, Debug, PartialEq, Eq, Structural)]
pub struct VmDrop {
    pub index: u32,
    /// The slot is still the address space's: clear its entry and invalidate all
    /// translations under its id.
    pub clear: bool,
    /// The firmware is using the slot, which is worth a complaint.
    pub in_use: bool,
}

impl Vm {
    /// The slot whose table entry has to be looked at when the address space goes away:
    /// none if it never had one.
    pub fn drop_index(&self) -> (r: Option<u32>)
        requires
            self.wf(),
        ensures
            r == match self.bind_token {
                Some(token) => Some((token.slot + UAT_USER_CTX_START) as u32),
                None => None,
            },
            r is Some ==> r->0 < UAT_NUM_CTX,
    {
        match self.bind_token {
            Some(token) => Some(token.last_slot() + UAT_USER_CTX_START),
            None => None,
        }
    }

    /// Decides about the slot, given its table entry and the slot that the firmware uses.
    pub fn drop_vm(self, handoff_cur: Option<u32>, ttb_cur: u64) -> (r: Option<VmDrop>)
        requires
            self.wf(),
            self.active_users == 0,
        ensures
            r == match self.bind_token {
                Some(token) => {
                    let index = (token.slot + UAT_USER_CTX_START) as u32;
                    let clear = ttb_cur == ttb_entry(self.ttb, index as u64);
                    Some(VmDrop { index, clear, in_use: clear && handoff_cur == Some(index) })
                },
                None => None,
            },
    {
        let index: u32 = match self.drop_index() {
            None => {
                return None;
            },
            Some(index) => index,
        };
        let clear = ttb_cur == make_ttb_entry(self.ttb, index);
        let current = match handoff_cur {
            Some(cur) => cur == index,
            None => false,
        };
        Some(VmDrop { index, clear, in_use: clear && current })
    }
}

/// The slot table entry that a bound address space relies on.
pub open spec fn entry_is_own(vm: Vm, ttbs: Seq<SlotTTBS>) -> bool {
    ttbs[vm.spec_slot()->0 as int].ttb0 == ttb_entry(vm.ttb, vm.spec_slot()->0 as u64)
}

/// The slot table is right for an address space: while it is bound, and also while its
/// token would still get the slot back unchanged, the slot's entry is its own.
pub open spec fn table_right(vm: Vm, slots: Slots<SlotInner>, ttbs: Seq<SlotTTBS>) -> bool {
    &&& vm.binding is Some ==> !slots.idle(vm.binding->0.token.slot as int) && entry_is_own(
        vm,
        ttbs,
    )
    &&& vm.bind_token is Some && slots.matches(vm.bind_token->0) ==> entry_is_own(vm, ttbs)
    &&& vm.bind_token is Some ==> slots.issued(vm.bind_token->0)
}

/// The slot table after an update.
pub open spec fn updated(ttbs: Seq<SlotTTBS>, update: Option<TtbUpdate>) -> Seq<SlotTTBS> {
    match update {
        Some(u) => ttbs.update(u.index as int, u.entry),
        None => ttbs,
    }
}

/// Binding makes the slot table right for the address space that is bound: the GPU
/// finds its page table under its slot.
pub proof fn law_bound_slot_has_the_page_table(
    vm: Vm,
    slots: Slots<SlotInner>,
    ttbs: Seq<SlotTTBS>,
    bound: Bound,
    vm_after: Vm,
    slots_after: Slots<SlotInner>,
)
    requires
        vm.wf(),
        !vm.is_kernel,
        slots.wf(),
        vm.binding is None ==> slots.can_get(vm.bind_token),
        slots.slots.len() == UAT_USER_CTX,
        ttbs.len() == UAT_NUM_CTX,
        table_right(vm, slots, ttbs),
        bind_gives(vm, slots, Some(bound), vm_after, slots_after),
    ensures
        table_right(vm_after, slots_after, updated(ttbs, bound.update)),
        entry_is_own(vm_after, updated(ttbs, bound.update)),
        vm_after.spec_slot() == Some(bound.bind.slot),
{
    if vm.binding is None {
        let guard = vm_after.binding->0;
        assert(slots.idle(guard.token.slot as int));
        assert(!slots_after.idle(guard.token.slot as int));
    }
}

/// Binding one address space leaves the slot table right for every other.
pub proof fn law_binding_does_not_disturb_others(
    vm: Vm,
    other: Vm,
    slots: Slots<SlotInner>,
    ttbs: Seq<SlotTTBS>,
    bound: Bound,
    vm_after: Vm,
    slots_after: Slots<SlotInner>,
)
    requires
        vm.wf(),
        other.wf(),
        !vm.is_kernel,
        !other.is_kernel,
        slots.wf(),
        vm.binding is None ==> slots.can_get(vm.bind_token),
        slots.slots.len() == UAT_USER_CTX,
        ttbs.len() == UAT_NUM_CTX,
        table_right(vm, slots, ttbs),
        table_right(other, slots, ttbs),
        vm.bind_token is Some && other.bind_token is Some ==> vm.bind_token->0
            != other.bind_token->0,
        bind_gives(vm, slots, Some(bound), vm_after, slots_after),
    ensures
        table_right(other, slots_after, updated(ttbs, bound.update)),
{
    if vm.binding is None {
        let guard = vm_after.binding->0;
        assert(slots.idle(guard.token.slot as int));
        assert(!slots_after.idle(guard.token.slot as int));
        if other.bind_token is Some {
            let s = other.bind_token->0.slot as int;
            if s != guard.token.slot {
                assert(slots_after.slots[s] == slots.slots[s]);
                assert(slots_after.idle(s) == slots.idle(s));
            }
        }
    }
}

/// Giving a slot back keeps the slot table right, for the address space that had it and
/// for every other.
pub proof fn law_unbinding_keeps_the_table_right(
    vm: Vm,
    other: Vm,
    slots: Slots<SlotInner>,
    ttbs: Seq<SlotTTBS>,
)
    requires
        vm.wf(),
        other.wf(),
        vm.active_users == 1,
        slots.wf(),
        slots.drop_count < u64::MAX - 1,
        table_right(vm, slots, ttbs),
        table_right(other, slots, ttbs),
        other.bind_token is Some ==> other.bind_token->0 != vm.bind_token->0,
        other.binding is Some ==> other.binding->0.token.slot != vm.binding->0.token.slot,
    ensures
        ({
            let vm_after = Vm { active_users: 0, binding: None, ..vm };
            let slots_after = slots.returned(vm.binding->0.token, vm.binding->0.item);
            &&& table_right(vm_after, slots_after, ttbs)
            &&& table_right(other, slots_after, ttbs)
        }),
{
    let slots_after = slots.returned(vm.binding->0.token, vm.binding->0.item);
    if other.bind_token is Some {
        let s = other.bind_token->0.slot as int;
        if s != vm.binding->0.token.slot {
            assert(slots_after.slots[s] == slots.slots[s]);
            assert(slots_after.idle(s) == slots.idle(s));
        }
    }
    if other.binding is Some {
        let s = other.binding->0.token.slot as int;
        assert(slots_after.slots[s] == slots.slots[s]);
        assert(slots_after.idle(s) == slots.idle(s));
    }
}

impl Vm {
    /// The address space as a sharer of the context slots.
    pub open spec fn sharer(self) -> Sharer<SlotInner> {
        Sharer {
            users: self.active_users as nat,
            guard: self.binding,
            token: self.bind_token,
        }
    }
}

/// What a new user of an address space makes necessary in the slot table: a new slot's
/// entry has to be written.
pub open spec fn table_update(
    sharer: Sharer<SlotInner>,
    ttb: u64,
    guard: Guard<SlotInner>,
) -> Option<TtbUpdate> {
    let index = (guard.token.slot + UAT_USER_CTX_START) as u32;
    if sharer.guard is None && guard.changed {
        Some(
            TtbUpdate {
                index,
                entry: SlotTTBS { ttb0: ttb_entry(ttb, index as u64), ttb1: 0 },
                asid: index as u8,
            },
        )
    } else {
        None
    }
}

/// Binding is what `Sharer::open_gives` says of a new user.
pub proof fn law_bind_opens(
    vm: Vm,
    slots: Slots<SlotInner>,
    r: Option<Bound>,
    vm_after: Vm,
    slots_after: Slots<SlotInner>,
)
    requires
        vm.wf(),
        vm.active_users < usize::MAX,
        bind_gives(vm, slots, r, vm_after, slots_after),
    ensures
        r is None ==> vm.sharer().open_gives(slots, None, slots_after) && vm_after == vm,
        r matches Some(bound) ==> {
            let guard = vm_after.binding->0;
            &&& vm.sharer().open_gives(slots, Some(guard), slots_after)
            &&& vm_after.sharer() == vm.sharer().opened(guard)
            &&& bound.bind == (VmBind {
                vm_id: vm.id,
                slot: (guard.token.slot + UAT_USER_CTX_START) as u32,
            })
            &&& bound.update == table_update(vm.sharer(), vm.ttb, guard)
        },
{
}

/// The address spaces of the users, where their page tables are, and the slot table.
#[verifier::ext_equal]
pub struct Contexts {
    pub sharing: Sharing<SlotInner>,
    pub page_tables: Map<u64, u64>,
    pub ttbs: Seq<SlotTTBS>,
}

/// What happens to an address space.
pub enum ContextEvent {
    NewVm { id: u64, ttb: u64 },
    Bind { id: u64, guard: Option<Guard<SlotInner>>, after: Slots<SlotInner> },
    Unbind { id: u64 },
    DropVm { id: u64 },
}

impl ContextEvent {
    pub open spec fn shared(self) -> ShareEvent<SlotInner> {
        match self {
            ContextEvent::NewVm { id, .. } => ShareEvent::Join { id },
            ContextEvent::Bind { id, guard, after } => ShareEvent::Open { id, guard, after },
            ContextEvent::Unbind { id } => ShareEvent::Close { id },
            ContextEvent::DropVm { id } => ShareEvent::Leave { id },
        }
    }
}

pub open spec fn all_shared(events: Seq<ContextEvent>) -> Seq<ShareEvent<SlotInner>> {
    events.map_values(|event: ContextEvent| event.shared())
}

impl Contexts {
    pub open spec fn fresh(self) -> bool {
        &&& self.sharing.fresh()
        &&& self.sharing.ledger.slots.slots.len() == UAT_USER_CTX
        &&& self.page_tables == Map::<u64, u64>::empty()
        &&& self.ttbs.len() == UAT_NUM_CTX
    }

    /// The context slot of a bound address space.
    pub open spec fn slot(self, id: u64) -> int {
        self.sharing.slot(id) + UAT_USER_CTX_START
    }

    /// The entry of a slot is that of the address space.
    pub open spec fn entry_is_of(self, id: u64, index: int) -> bool {
        self.ttbs[index].ttb0 == ttb_entry(self.page_tables[id], index as u64)
    }

    /// Nobody else has had the slot of the token since.
    pub open spec fn claims(self, id: u64) -> bool {
        self.sharing.sharers[id].token matches Some(token) && token.time
            == self.sharing.ledger.time(token.slot as int)
    }

    pub open spec fn wf(self) -> bool {
        &&& self.sharing.wf()
        &&& self.sharing.ledger.slots.slots.len() == UAT_USER_CTX
        &&& self.ttbs.len() == UAT_NUM_CTX
        &&& forall|id: u64| #[trigger]
            self.sharing.sharers.contains_key(id) ==> {
                &&& self.page_tables.contains_key(id)
                &&& is_ttb(self.page_tables[id])
                &&& self.claims(id) ==> self.entry_is_of(
                    id,
                    self.sharing.sharers[id].token->0.slot + UAT_USER_CTX_START,
                )
            }
        &&& forall|a: u64, b: u64|
            #![trigger self.sharing.sharers.contains_key(a), self.sharing.sharers.contains_key(b)]
            a != b && self.sharing.sharers.contains_key(a) && self.sharing.sharers.contains_key(b)
                ==> self.page_tables[a] != self.page_tables[b]
    }

    /// The event can happen. No two address spaces have one page table.
    pub open spec fn allows(self, event: ContextEvent) -> bool {
        &&& self.sharing.allows(event.shared())
        &&& event matches ContextEvent::NewVm { ttb, .. } ==> {
            &&& is_ttb(ttb)
            &&& forall|other: u64| #[trigger]
                self.sharing.sharers.contains_key(other) ==> self.page_tables[other] != ttb
        }
    }

    pub open spec fn step(self, event: ContextEvent) -> Contexts {
        let sharing = self.sharing.step(event.shared());
        match event {
            ContextEvent::NewVm { id, ttb } => Contexts {
                sharing,
                page_tables: self.page_tables.insert(id, ttb),
                ..self
            },
            ContextEvent::Bind { id, guard: Some(guard), .. } => Contexts {
                sharing,
                ttbs: updated(
                    self.ttbs,
                    table_update(self.sharing.sharers[id], self.page_tables[id], guard),
                ),
                ..self
            },
            ContextEvent::DropVm { id } => Contexts {
                sharing,
                ttbs: match self.sharing.sharers[id].token {
                    Some(token) => {
                        let index = token.slot + UAT_USER_CTX_START;
                        if self.entry_is_of(id, index) {
                            self.ttbs.update(index, SlotTTBS { ttb0: 0, ..self.ttbs[index] })
                        } else {
                            self.ttbs
                        }
                    },
                    None => self.ttbs,
                },
                ..self
            },
            _ => Contexts { sharing, ..self },
        }
    }

    /// After the first `n` events.
    pub open spec fn after(self, events: Seq<ContextEvent>, n: int) -> Contexts
        decreases n,
    {
        if n <= 0 {
            self
        } else {
            self.after(events, n - 1).step(events[n - 1])
        }
    }

    /// The events can happen one after the other.
    pub open spec fn allows_all(self, events: Seq<ContextEvent>) -> bool {
        forall|k: int| 0 <= k < events.len() ==> #[trigger] self.after(events, k).allows(events[k])
    }
}

/// What becomes of the claim of an address space to its last slot.
proof fn lemma_claims_after(contexts: Contexts, event: ContextEvent, id: u64)
    requires
        contexts.wf(),
        contexts.allows(event),
        contexts.sharing.sharers.contains_key(id),
        contexts.step(event).sharing.sharers.contains_key(id),
        contexts.step(event).claims(id),
    ensures
        contexts.step(event).entry_is_of(
            id,
            contexts.step(event).sharing.sharers[id].token->0.slot + UAT_USER_CTX_START,
        ),
{
    let next = contexts.step(event);
    let sharing = contexts.sharing;
    assert(sharing.sharer_wf(id));
    law_sharing_is_kept(sharing, event.shared());
    assert(next.sharing.sharer_wf(id));
    let token = next.sharing.sharers[id].token->0;
    match event {
        ContextEvent::Bind { id: other, guard: Some(guard), after } => {
            assert(sharing.sharer_wf(other));
            if sharing.sharers[other].guard is None {
                lemma_times_after_get(sharing.ledger, sharing.sharers[other].token, guard, after);
                if other != id {
                    assert(next.sharing.sharers[other].token == Some(guard.token));
                    assert(sharing.sharers.contains_key(other));
                    assert(next.sharing.sharers.contains_key(other));
                    assert(next.sharing.sharers[other].token != next.sharing.sharers[id].token);
                    assert(token.slot != guard.token.slot);
                }
            }
        },
        ContextEvent::Unbind { id: other } => {
            assert(sharing.sharer_wf(other));
            if sharing.sharers[other].users == 1 {
                let guard = sharing.sharers[other].guard->0;
                lemma_times_after_put(sharing.ledger, guard.token, guard.item);
            }
        },
        ContextEvent::DropVm { id: other } => {
            assert(sharing.sharers.contains_key(other));
            assert(sharing.sharer_wf(other));
            if sharing.sharers[other].token is Some {
                let index = sharing.sharers[other].token->0.slot + UAT_USER_CTX_START;
                if contexts.entry_is_of(other, index) && index == token.slot + UAT_USER_CTX_START {
                    law_ttb_entry_is_injective(
                        contexts.page_tables[other],
                        index as u64,
                        contexts.page_tables[id],
                        index as u64,
                    );
                }
            }
        },
        _ => {},
    }
}

proof fn lemma_contexts_kept(contexts: Contexts, event: ContextEvent)
    requires
        contexts.wf(),
        contexts.allows(event),
    ensures
        contexts.step(event).wf(),
{
    let next = contexts.step(event);
    law_sharing_is_kept(contexts.sharing, event.shared());
    assert forall|id: u64| #[trigger] next.sharing.sharers.contains_key(id) implies {
        &&& next.page_tables.contains_key(id)
        &&& is_ttb(next.page_tables[id])
        &&& next.claims(id) ==> next.entry_is_of(
            id,
            next.sharing.sharers[id].token->0.slot + UAT_USER_CTX_START,
        )
    } by {
        if contexts.sharing.sharers.contains_key(id) {
            if next.claims(id) {
                lemma_claims_after(contexts, event, id);
            }
        }
    }
    assert forall|a: u64, b: u64|
        #![trigger next.sharing.sharers.contains_key(a), next.sharing.sharers.contains_key(b)]
        a != b && next.sharing.sharers.contains_key(a) && next.sharing.sharers.contains_key(b)
            implies next.page_tables[a] != next.page_tables[b] by {
        assert(contexts.sharing.sharers.contains_key(a) || contexts.sharing.sharers.contains_key(b));
    }
}

proof fn lemma_contexts_history(start: Contexts, events: Seq<ContextEvent>, n: int)
    requires
        start.fresh(),
        start.allows_all(events),
        0 <= n <= events.len(),
    ensures
        start.after(events, n).wf(),
        start.after(events, n).sharing == start.sharing.after(all_shared(events), n),
    decreases n,
{
    if n == 0 {
        law_sharing_history(start.sharing, Seq::empty(), 0);
    } else {
        lemma_contexts_history(start, events, n - 1);
        assert(start.after(events, n - 1).allows(events[n - 1]));
        lemma_contexts_kept(start.after(events, n - 1), events[n - 1]);
    }
}

proof fn lemma_shared_history(start: Contexts, events: Seq<ContextEvent>)
    requires
        start.fresh(),
        start.allows_all(events),
    ensures
        start.sharing.allows_all(all_shared(events)),
{
    let shared = all_shared(events);
    assert forall|k: int| 0 <= k < shared.len() implies #[trigger] start.sharing.after(
        shared,
        k,
    ).allows(shared[k]) by {
        lemma_contexts_history(start, events, k);
        assert(start.after(events, k).allows(events[k]));
    }
}

/// Whatever address spaces are made, bound, unbound and dropped: a bound one has a slot
/// from 1 to 63 to itself, and that slot's entry in the slot table leads to its page table.
pub proof fn law_bound_slots_lead_to_their_page_tables(
    start: Contexts,
    events: Seq<ContextEvent>,
    n: int,
    id: u64,
)
    requires
        start.fresh(),
        start.allows_all(events),
        0 <= n <= events.len(),
        start.after(events, n).sharing.active(id),
    ensures
        1 <= start.after(events, n).slot(id) <= 63,
        start.after(events, n).entry_is_of(id, start.after(events, n).slot(id)),
        forall|other: u64|
            other != id && #[trigger] start.after(events, n).sharing.active(other)
                ==> start.after(events, n).slot(other) != start.after(events, n).slot(id),
{
    lemma_contexts_history(start, events, n);
    let now = start.after(events, n);
    assert(now.sharing.sharer_wf(id));
    assert(!now.sharing.ledger.slots.idle(now.sharing.slot(id) as int));
    assert(now.claims(id));
    assert forall|other: u64| other != id && #[trigger] now.sharing.active(other) implies now.slot(
        other,
    ) != now.slot(id) by {
        lemma_slots_differ(now.sharing, id, other);
    }
}

/// What a bind does, whatever happened before. If the address space is bound, it keeps its
/// slot and nothing is written. If not, it gets a slot, and its entry is written, and
/// nothing else, unless the slot was its last one and nobody had it in between.
pub proof fn law_bind_writes_only_a_new_slot(start: Contexts, events: Seq<ContextEvent>, k: int)
    requires
        start.fresh(),
        start.allows_all(events),
        0 <= k < events.len(),
    ensures
        events[k] matches ContextEvent::Bind { id, guard: Some(guard), .. } ==> {
            let before = start.after(events, k);
            let after = start.after(events, k + 1);
            &&& after.sharing.active(id) && after.slot(id) == guard.token.slot + UAT_USER_CTX_START
            &&& before.sharing.active(id) ==> after.slot(id) == before.slot(id) && after.ttbs
                == before.ttbs
            &&& !before.sharing.active(id) && guard.changed ==> after.ttbs == before.ttbs.update(
                after.slot(id),
                (SlotTTBS {
                    ttb0: ttb_entry(before.page_tables[id], after.slot(id) as u64),
                    ttb1: 0,
                }),
            )
            &&& !guard.changed ==> after.ttbs == before.ttbs
            &&& !before.sharing.active(id) ==> (guard.changed <==> !before.claims(id))
        },
        events[k] matches ContextEvent::Bind { guard: None, .. } ==> start.after(events, k + 1)
            == start.after(events, k),
{
    lemma_contexts_history(start, events, k);
    lemma_contexts_history(start, events, k + 1);
    let before = start.after(events, k);
    let after = start.after(events, k + 1);
    assert(before.allows(events[k]));
    assert(after == before.step(events[k]));
    if let ContextEvent::Bind { id, guard: Some(guard), after: slots } = events[k] {
        assert(before.sharing.sharer_wf(id));
        if before.sharing.sharers[id].guard is None {
            let token = before.sharing.sharers[id].token;
            lemma_times_after_get(before.sharing.ledger, token, guard, slots);
            if token is Some {
                let s = token->0.slot as int;
                if before.claims(id) && !before.sharing.ledger.slots.idle(s) {
                    assert(before.sharing.ledger.held.contains_key(s));
                    let holder = choose|h: u64| #[trigger]
                        before.sharing.active(h) && before.sharing.slot(h) == s;
                    assert(before.sharing.sharers.contains_key(holder));
                    assert(before.sharing.sharer_wf(holder));
                    assert(before.sharing.sharers[holder].token
                        == before.sharing.sharers[id].token);
                }
                assert(before.sharing.ledger.slots.matches(token->0) <==> before.claims(id));
            }
        }
    }
}

/// Two binds of an address space that stays bound in between give the same slot, and the
/// second writes nothing.
pub proof fn law_bind_keeps_the_slot(
    start: Contexts,
    events: Seq<ContextEvent>,
    id: u64,
    i: int,
    k: int,
)
    requires
        start.fresh(),
        start.allows_all(events),
        0 <= i < k < events.len(),
        events[i] matches ContextEvent::Bind { id: one, guard: Some(_), .. } && one == id,
        events[k] matches ContextEvent::Bind { id: two, .. } && two == id,
        forall|j: int| i < j <= k ==> #[trigger] start.after(events, j).sharing.active(id),
    ensures
        events[k]->guard == Some(start.after(events, k).sharing.sharers[id].guard->0),
        events[k]->guard->0.token.slot == events[i]->guard->0.token.slot,
        start.after(events, k + 1).ttbs == start.after(events, k).ttbs,
{
    lemma_shared_history(start, events);
    let shared = all_shared(events);
    assert forall|j: int| i + 1 <= j <= k implies #[trigger] start.sharing.after(shared, j).active(
        id,
    ) by {
        lemma_contexts_history(start, events, j);
        assert(start.after(events, j).sharing.active(id));
    }
    law_slot_is_kept_while_active(start.sharing, shared, id, i + 1, k);
    lemma_contexts_history(start, events, i);
    lemma_contexts_history(start, events, i + 1);
    lemma_contexts_history(start, events, k);
    lemma_contexts_history(start, events, k + 1);
    assert(start.after(events, i + 1) == start.after(events, i).step(events[i]));
    assert(start.after(events, k + 1) == start.after(events, k).step(events[k]));
    assert(start.after(events, k).allows(events[k]));
    assert(start.after(events, k).sharing.active(id));
}

/// What the device tree says of a memory region.
#[derive(Copy, Clone, Debug)]
pub struct RegionInfo {
    /// Where the region's name stands in the list of names, or an error code.
    pub index: i32,
    /// The list of regions has an entry there.
    pub present: bool,
    /// The code with which the entry's address was looked up.
    pub code: i32,
    pub start: u64,
    pub size: u64,
}

/// A memory region to map for the CPU.
#[derive(Copy, Clone, Debug, PartialEq, Eq, Structural)]
pub struct RemapRequest {
    pub start: u64,
    pub size: u64,
    pub cached: bool,
}

/// A memory region that the CPU has mapped.
#[derive(Copy, Clone, Debug, PartialEq, Eq, Structural)]
pub struct UatRegion {
    pub base: u64,
    pub size: u64,
    pub map: u64,
}

/// Decides whether a region of at least `size` bytes can be mapped. All of the region is
/// mapped then.
pub fn map_region(info: &RegionInfo, size: u64, cached: bool) -> (r: Result<RemapRequest>)
    ensures
        match r {
            Ok(request) => {
                &&& info.index >= 0 && info.present && info.code >= 0 && size <= info.size
                &&& request == (RemapRequest { start: info.start, size: info.size, cached })
            },
            Err(e) => {
                &&& e.wf()
                &&& info.index < 0 || !info.present || info.code < 0 || size > info.size
                &&& e.errno() == if info.index < 0 {
                    info.index as int
                } else if !info.present {
                    Error::EINVAL.errno()
                } else if info.code < 0 {
                    info.code as int
                } else {
                    Error::ENOMEM.errno()
                }
            },
        },
{
    if let Err(e) = to_result(info.index) {
        return Err(e);
    }
    if !info.present {
        return Err(Error::EINVAL);
    }
    if let Err(e) = to_result(info.code) {
        return Err(e);
    }
    if size > info.size {
        return Err(Error::ENOMEM);
    }
    Ok(RemapRequest { start: info.start, size: info.size, cached })
}

/// The region, if the CPU mapping was made.
pub fn mapped_region(request: &RemapRequest, map: Option<u64>) -> (r: Result<UatRegion>)
    ensures
        r == match map {
            Some(map) => Ok(UatRegion { base: request.start, size: request.size, map }),
            None => Err(Error::ENOMEM),
        },
{
    match map {
        Some(map) => Ok(UatRegion { base: request.start, size: request.size, map }),
        None => Err(Error::ENOMEM),
    }
}

/// An entry of the slot table gives the page table and the id back: the entry is valid, the
/// id stands in its upper 16 bits, and the rest is the address.
pub proof fn law_ttb_entry_reads_back(ttb: u64, asid: u64)
    requires
        is_ttb(ttb),
        asid < UAT_NUM_CTX,
    ensures
        ttb_entry(ttb, asid) == ttb + 1 + asid * 0x1_0000_0000_0000,
{
    assert(ttb | 1 | (asid << 48) == ttb + 1 + asid * 0x1_0000_0000_0000) by (bit_vector)
        requires
            ttb % 2 == 0,
            ttb < 0x1_0000_0000_0000,
            asid < 64,
    ;
}

/// The protections are made of distinct flags: the firmware's mappings are privileged, the
/// shared ones uncached, the GPU's own ones not executable, and only those that say so can
/// be written or are registers.
pub proof fn law_protections()
    ensures
        PROT_FW_MMIO_RW == PRIV + READ + WRITE + CACHE + MMIO,
        PROT_FW_MMIO_RO == PRIV + READ + CACHE + MMIO,
        PROT_FW_SHARED_RW == PRIV + READ + WRITE + CACHE,
        PROT_FW_SHARED_RO == PRIV + READ + CACHE,
        PROT_FW_PRIV_RW == PRIV + READ + WRITE,
        PROT_FW_PRIV_RO == PRIV + READ,
        PROT_GPU_FW_SHARED_RW == READ + WRITE + CACHE,
        PROT_GPU_FW_PRIV_RW == READ + WRITE,
        PROT_GPU_SHARED_RW == READ + WRITE + CACHE + NOEXEC,
        PROT_GPU_SHARED_RO == READ + CACHE + NOEXEC,
        PROT_GPU_PRIV_RW == READ + WRITE + NOEXEC,
        PROT_GPU_PRIV_RO == READ + NOEXEC,
        READ == 1,
        WRITE == 2,
        CACHE == 4,
        NOEXEC == 8,
        MMIO == 16,
        PRIV == 32,
{
    assert(32u32 | 1 | 2 | 4 | 16 == 55 && 32u32 | 1 | 4 | 16 == 53 && 32u32 | 1 | 2 | 4 == 39
        && 32u32 | 1 | 4 == 37 && 32u32 | 1 | 2 == 35 && 32u32 | 1 == 33 && 1u32 | 2 | 4 == 7
        && 1u32 | 2 == 3 && 1u32 | 2 | 4 | 8 == 15 && 1u32 | 4 | 8 == 13 && 1u32 | 2 | 8 == 11
        && 1u32 | 8 == 9) by (bit_vector);
}

/// The sizes and ranges of the address spaces fit each other.
pub proof fn law_address_ranges_fit()
    ensures
        UAT_PGSZ == vstd::arithmetic::power2::pow2(UAT_PGBIT as nat),
        UAT_PGMSK + 1 == UAT_PGSZ,
        8 * UAT_NPTE == UAT_PGSZ,
        UAT_NUM_CTX == UAT_USER_CTX_START + UAT_USER_CTX,
        IOVA_USER_BASE == UAT_PGSZ,
        IOVA_USER_TOP + 1 == vstd::arithmetic::power2::pow2(UAT_IAS as nat),
        IOVA_KERN_TOP - IOVA_KERN_BASE + 1 == vstd::arithmetic::power2::pow2(UAT_IAS_KERN as nat),
        IOVA_KERN_BASE == IOVA_TTBR1_BASE + KERNEL_PTE_INDEX * vstd::arithmetic::power2::pow2(
            UAT_IAS_KERN as nat,
        ),
        SLOTS_SIZE == 0x10 * UAT_NUM_CTX,
        PAGETABLES_SIZE == UAT_PGSZ,
        HANDOFF_SIZE == 0x30 + 0x18 * (UAT_NUM_CTX + 1),
        PPL_MAGIC == 0x4b1d_0000_0000_0002,
{
    vstd::arithmetic::power2::lemma2_to64();
    vstd::arithmetic::power2::lemma_pow2_adds(32, 4);
    vstd::arithmetic::power2::lemma_pow2_adds(32, 7);
    assert(vstd::arithmetic::power2::pow2(36) == 0x10_0000_0000);
    assert(vstd::arithmetic::power2::pow2(39) == 0x80_0000_0000);
    assert(KERNEL_PTE_INDEX * vstd::arithmetic::power2::pow2(36) == 0x20_0000_0000);
}

/// A new address space has the addresses of its kind, all of which its range allocator
/// manages, its page table is as wide as they need, and nobody uses it.
pub proof fn law_new_address_space(
    is_kernel: bool,
    id: u64,
    ttb: u64,
    vm: Vm,
    config: Config,
    size: u64,
)
    requires
        call_ensures(Vm::new, (is_kernel, id, ttb), vm),
        call_ensures(Vm::config, (is_kernel,), config),
        call_ensures(Vm::mm_size, (&vm,), size),
    ensures
        vm.id == id && vm.ttb == ttb && vm.is_kernel == is_kernel,
        is_kernel ==> vm.min_va == 0xffff_ffa0_0000_0000 && vm.max_va == 0xffff_ffaf_ffff_ffff,
        !is_kernel ==> vm.min_va == 0x4000 && vm.max_va == 0x7f_ffff_ffff,
        vm.min_va + size == vm.max_va + 1,
        vm.active_users == 0 && vm.binding is None && vm.bind_token is None,
        is_kernel ==> config.ias == 36,
        !is_kernel ==> config.ias == 39,
        config.oas == 36,
        config.pgsize_bitmap == 0x4000,
        config.quirks == 0,
        config.coherent_walk,
{
}

/// A range is refused exactly if an address of it lies outside of the address space. The
/// kernel's page table counts from the kernel's lowest address, the others from zero.
pub proof fn law_addresses_are_translated(vm: Vm, iova: u64, size: u64, r: Result<u64>)
    requires
        vm.wf(),
        size >= 1,
        iova + size <= u64::MAX,
        call_ensures(Vm::map_iova, (&vm, iova, size), r),
    ensures
        r is Ok <==> vm.min_va <= iova && iova + size <= vm.max_va + 1,
        r is Err ==> r == Err::<u64, Error>(Error::EINVAL),
        r matches Ok(at) ==> {
            &&& vm.is_kernel ==> at + 0xffff_ffa0_0000_0000 == iova
            &&& !vm.is_kernel ==> at == iova
        },
{
}

/// A request for pages spans all that is left of a run, and a run that is done asks for
/// nothing.
pub proof fn law_requests_span_the_rest(vm: Vm, run: PageRun, r: Option<Result<PageRequest>>)
    requires
        vm.wf(),
        run.wf(),
        call_ensures(Vm::next_pages, (&vm, &run), r),
    ensures
        r is None <==> run.left == 0,
        r matches Some(Ok(q)) ==> {
            &&& q.pgsize == run.pgsize
            &&& q.pgcount == run.left
            &&& q.paddr == run.paddr
            &&& q.prot == run.prot
            &&& q.iova == run.iova - if vm.is_kernel {
                vm.min_va as int
            } else {
                0
            }
            &&& vm.min_va <= run.iova && run.iova + run.pgsize * run.left <= vm.max_va + 1
        },
        r matches Some(Err(e)) ==> e == Error::EINVAL && (run.iova < vm.min_va || run.iova
            + run.pgsize * run.left > vm.max_va + 1),
{
}

/// Advancing a run moves both addresses by what was done and leaves the rest.
pub proof fn law_run_advances(run: &mut PageRun, done: u64)
    requires
        old(run).wf(),
        done <= old(run).pgsize * old(run).left,
        done as int % old(run).pgsize as int == 0,
        call_ensures(PageRun::advance, (run, done), ()),
    ensures
        final(run).iova == old(run).iova + done,
        final(run).paddr == old(run).paddr + done,
        old(run).pgsize * final(run).left + done == old(run).pgsize * old(run).left,
        final(run).pgsize == old(run).pgsize,
        final(run).prot == old(run).prot,
{
    law_page_run_covers_the_range(*old(run), done);
}

/// The runs of an object map each of its pieces of memory, in order, as long as they are
/// page-aligned; the object is mapped as a whole or refused.
pub proof fn law_object_is_mapped_piece_by_piece(
    start: u64,
    sgt: SGTable,
    prot: u32,
    r: NodePlan,
    none: NodePlan,
    i: int,
)
    requires
        start + table_len(sgt, sgt.entries@.len() as int) <= u64::MAX,
        call_ensures(map_node, (start, Some(&sgt), prot), r),
        call_ensures(map_node, (start, None::<&SGTable>, prot), none),
    ensures
        0 <= i < r.runs@.len() ==> {
            &&& r.runs@[i].paddr == sgt.entries@[i].dma_address
            &&& r.runs@[i].pgsize * r.runs@[i].left == sgt.entries@[i].dma_len
            &&& r.runs@[i].pgsize == 0x4000
            &&& r.runs@[i].prot == prot
            &&& r.runs@[i].iova as int % 0x4000 == 0
            &&& r.runs@[i].paddr as int % 0x4000 == 0
        },
        r.runs@.len() > 0 ==> r.runs@[0].iova == start,
        0 < i < r.runs@.len() ==> r.runs@[i].iova == r.runs@[i - 1].iova + 0x4000 * r.runs@[i
            - 1].left,
        r.result is Ok <==> r.runs@.len() == sgt.entries@.len(),
        r.result is Err ==> r.result == Err::<(), Error>(Error::EINVAL),
        none.result == Err::<(), Error>(Error::EINVAL) && none.runs@.len() == 0,
{
    if 0 <= i < r.runs@.len() {
        lemma_table_len_ascends(sgt, i, sgt.entries@.len() as int);
        assert(r.runs@[i] == entry_run(start, sgt, prot, i));
        assert(entry_aligned(start, sgt, i));
        let len = sgt.entries@[i].dma_len;
        assert(0x4000 * (len / 0x4000) == len);
        if i > 0 {
            lemma_table_len_ascends(sgt, i - 1, i);
            assert(r.runs@[i - 1] == entry_run(start, sgt, prot, i - 1));
            assert(entry_aligned(start, sgt, i - 1));
            let before = sgt.entries@[i - 1].dma_len;
            assert(0x4000 * (before / 0x4000) == before);
        }
    }
    if r.runs@.len() > 0 {
        assert(r.runs@[0] == entry_run(start, sgt, prot, 0));
    }
}

/// A mapping knows its range without the guard page, and its pages are taken out from where
/// it starts.
pub proof fn law_mapping_knows_its_range(m: Mapping, iova: u64, size: u64, run: PageRun)
    requires
        m.wf(),
        call_ensures(Mapping::iova, (&m,), iova),
        call_ensures(Mapping::size, (&m,), size),
        call_ensures(Mapping::unmap_run, (&m,), run),
    ensures
        iova == m.start,
        size + 0x4000 == m.node_size,
        run.iova == m.start,
        run.pgsize == 0x4000,
        0x4000 * run.left <= size < 0x4000 * run.left + 0x4000,
        run.paddr == 0 && run.prot == 0,
{
}

/// A flush and an invalidation are about the mapping's own range, and go to the slot of its
/// own address space.
pub proof fn law_flush_and_invalidation_name_the_mapping(
    m: Mapping,
    vm: Vm,
    slot: u32,
    msg: FwCtlMsg,
    stale: Option<TlbRange>,
)
    requires
        m.wf(),
        vm.wf(),
        call_ensures(Mapping::flush_msg, (&m, slot), msg),
        call_ensures(Mapping::stale_range, (&m, &vm), stale),
    ensures
        msg.addr == m.start,
        msg.slot == slot,
        msg.unk_8 == 0 && msg.unk_10 == 1 && msg.unk_12 == 2,
        stale is None <==> !vm.is_kernel && vm.bind_token is None,
        stale matches Some(range) ==> {
            &&& range.start == m.start
            &&& range.size + 0x4000 == m.node_size
            &&& vm.is_kernel ==> range.asid == 0
            &&& !vm.is_kernel ==> range.asid == vm.bind_token->0.slot + 1
        },
{
}

/// The kernel's mappings are flushed through the last flush slot, a user's through the slot
/// that the firmware uses if it is still the user's, and no others.
pub proof fn law_flush_slots(vm: Vm, cur_slot: Option<u32>, ttb_cur: u64, r: Option<u32>)
    requires
        vm.wf(),
        call_ensures(Mapping::flush_slot, (&vm, cur_slot, ttb_cur), r),
    ensures
        vm.is_kernel ==> r == Some(64u32),
        !vm.is_kernel && vm.bind_token is None ==> r is None,
        !vm.is_kernel && vm.bind_token is Some ==> {
            let own = vm.bind_token->0.slot + 1;
            &&& r is Some <==> cur_slot == Some(own as u32) && ttb_cur == ttb_entry(
                vm.ttb,
                own as u64,
            )
            &&& r is Some ==> r->0 == own
        },
{
}

/// The steps that take a mapping away come in this order; those about the cache only for a
/// mapping that is cached.
pub proof fn law_unmap_steps(
    m: Mapping,
    vm: Vm,
    step: UnmapStep,
    seen: Inspection,
    first: UnmapStep,
    r: UnmapStep,
    again: Option<u32>,
)
    requires
        m.wf(),
        vm.wf(),
        call_ensures(Mapping::drop_begin, (&m,), first),
        call_ensures(Mapping::drop_next, (&m, &vm, step, seen), r),
        call_ensures(Mapping::remap_prot, (&m,), again),
    ensures
        first is UnmapCached <==> m.prot & CACHE == 0,
        first is Unmap <==> m.prot & CACHE != 0,
        again is Some <==> first is UnmapCached,
        again is Some ==> again->0 == m.prot | CACHE,
        step is UnmapCached ==> (r matches UnmapStep::MapUncached { prot } && prot == m.prot
            | CACHE),
        step is MapUncached ==> (r matches UnmapStep::InvalidateRemapped { range } && range.start
            == m.start) || r is Unmap,
        step is MapUncached && (vm.is_kernel || vm.bind_token is Some) ==> r is InvalidateRemapped,
        step is InvalidateRemapped && vm.is_kernel ==> (r matches UnmapStep::BeginFlush { slot }
            && slot == 64),
        step is InvalidateRemapped && !vm.is_kernel && vm.bind_token is Some ==> (
        r matches UnmapStep::Inspect { slot } && slot == vm.bind_token->0.slot + 1),
        step is Inspect ==> r is BeginFlush || r is Unmap,
        step matches UnmapStep::BeginFlush { slot } ==> r == (UnmapStep::SendFlush { slot }),
        step matches UnmapStep::SendFlush { slot } ==> r == (UnmapStep::EndFlush { slot }),
        step is EndFlush ==> r is Unmap,
        step is Unmap ==> (r matches UnmapStep::Invalidate { range } && range.start == m.start)
            || r is Done,
        step is Unmap && (vm.is_kernel || vm.bind_token is Some) ==> r is Invalidate,
        step is Invalidate || step is Done ==> r is Done,
{
}

/// A mapping is placed with room for its guard page, anywhere or within the range asked
/// for, as tightly as possible.
pub proof fn law_placement_requests(
    size: u64,
    alignment: u64,
    start: u64,
    end: u64,
    anywhere: InsertRequest,
    within: InsertRequest,
    prot: u32,
)
    requires
        size + UAT_PGSZ <= u64::MAX,
        call_ensures(map_request, (size,), anywhere),
        call_ensures(map_in_range_request, (size, alignment, start, end), within),
        call_ensures(map_prot, (), prot),
    ensures
        anywhere.size == within.size == size + 0x4000,
        anywhere.start == 0 && anywhere.end == u64::MAX,
        anywhere.alignment == 0,
        within.start == start && within.end == end && within.alignment == alignment,
        anywhere.color == 0 && within.color == 0,
        anywhere.mode is Best && within.mode is Best,
        prot == PROT_FW_SHARED_RW,
{
}

/// Registers are mapped page by page where they are asked for; writable only if wanted.
pub proof fn law_registers_map_in_pages(
    phys: u64,
    size: u64,
    iova: u64,
    rw: bool,
    r: Result<PageRun>,
    prot: u32,
)
    requires
        iova + size <= u64::MAX,
        phys + size <= u64::MAX,
        call_ensures(map_io, (phys, size, iova, rw), r),
        call_ensures(io_prot, (rw,), prot),
    ensures
        r is Ok <==> phys as int % 0x4000 == 0 && size as int % 0x4000 == 0 && iova as int % 0x4000
            == 0,
        r is Err ==> r == Err::<PageRun, Error>(Error::EINVAL),
        r matches Ok(run) ==> {
            &&& run.iova == iova
            &&& run.paddr == phys
            &&& run.pgsize * run.left == size
            &&& run.pgsize == 0x4000
            &&& run.prot == prot
        },
        rw ==> prot == PROT_FW_MMIO_RW,
        !rw ==> prot == PROT_FW_MMIO_RO,
{
}

/// A flush slot goes from free to asked for, with the range, and back to free; whatever
/// else it was is complained about.
pub proof fn law_flush_slot_states(
    a: &mut FlushInfo,
    start: u64,
    size: u64,
    free: bool,
    b: &mut FlushInfo,
    done: bool,
)
    requires
        call_ensures(FlushInfo::begin_flush, (a, start, size), free),
        call_ensures(FlushInfo::end_flush, (b,), done),
    ensures
        free <==> old(a).state == 0,
        final(a).state == 1 && final(a).addr == start && final(a).size == size,
        done <==> old(b).state == 2,
        final(b).state == 0 && final(b).addr == old(b).addr && final(b).size == old(b).size,
{
}

/// The driver shows its flag exactly while it wants or has the lock, gets the lock only
/// when the firmware's flag is down, and steps back only when it is the firmware's turn.
pub proof fn law_lock_steps(h: &mut Handoff, state: LockState, r: LockState)
    requires
        old(h).lock_ap == state.flag(),
        call_ensures(Handoff::lock_step, (h, state), r),
    ensures
        state is Idle ==> r is Wanting,
        state is Wanting && old(h).lock_fw == 0 ==> r is Locked,
        state is Wanting && old(h).lock_fw != 0 ==> r is Contending,
        (state is Contending || state is Yielding) && old(h).turn == 0 ==> r is Wanting,
        (state is Contending || state is Yielding) && old(h).turn != 0 ==> r is Yielding,
        state is Locked ==> r is Locked,
        final(h).lock_ap == 0 <==> r is Idle || r is Yielding,
        final(h).lock_ap <= 1,
        final(h).lock_fw == old(h).lock_fw,
        final(h).turn == old(h).turn,
        final(h).cur_slot == old(h).cur_slot,
        final(h).flush@ == old(h).flush@,
{
}

/// Giving the lock up takes the flag down and passes the turn on; the firmware's words stay.
pub proof fn law_unlock_passes_the_turn(h: &mut Handoff)
    requires
        call_ensures(Handoff::unlock, (h,), ()),
    ensures
        final(h).lock_ap == 0,
        final(h).turn == 1,
        final(h).lock_fw == old(h).lock_fw,
        final(h).cur_slot == old(h).cur_slot,
        final(h).magic_ap == old(h).magic_ap,
        final(h).magic_fw == old(h).magic_fw,
        final(h).flush@ == old(h).flush@,
{
}

/// The firmware uses a user's slot if it names one; neither none nor the kernel's counts.
/// Both sides show their presence by the same number.
pub proof fn law_presence(
    h: Handoff,
    slot: Option<u32>,
    ready: bool,
    shown: &mut Handoff,
)
    requires
        call_ensures(Handoff::current_slot, (&h,), slot),
        call_ensures(Handoff::fw_ready, (&h,), ready),
        call_ensures(Handoff::init_begin, (shown,), ()),
    ensures
        slot is Some <==> 0 < h.cur_slot < u32::MAX,
        slot is Some ==> slot->0 == h.cur_slot,
        ready <==> h.magic_fw == 0x4b1d_0000_0000_0002,
        final(shown).magic_ap == 0x4b1d_0000_0000_0002,
        final(shown).cur_slot == 0,
        final(shown).unk3 == 0,
        final(shown).magic_fw == old(shown).magic_fw,
        final(shown).lock_ap == old(shown).lock_ap,
        final(shown).lock_fw == old(shown).lock_fw,
        final(shown).turn == old(shown).turn,
        final(shown).flush@ == old(shown).flush@,
{
}

/// At the start all flush slots are free.
pub proof fn law_flush_slots_start_free(h: &mut Handoff, i: int)
    requires
        old(h).wf(),
        call_ensures(Handoff::init_end, (h,), ()),
    ensures
        final(h).flush@.len() == 65,
        0 <= i <= 64 ==> final(h).flush@[i].state == 0 && final(h).flush@[i].addr == 0
            && final(h).flush@[i].size == 0,
        final(h).lock_ap == old(h).lock_ap,
        final(h).turn == old(h).turn,
        final(h).cur_slot == old(h).cur_slot,
{
}

/// The slot table starts with the kernel's two page tables in the first entry, valid, and
/// nothing in the others; the kernel's own page table hangs in the firmware's.
pub proof fn law_slot_table_starts_with_the_kernel(
    uat: Uat,
    r: Vec<SlotTTBS>,
    pte: u64,
    table: u64,
    i: int,
)
    requires
        uat.kernel_ready(),
        call_ensures(Uat::init_ttbs, (&uat,), r),
        call_ensures(Uat::kernel_pte, (&uat,), pte),
        call_ensures(Uat::context_table_base, (&uat,), table),
    ensures
        r@.len() == 64,
        r@[0].ttb0 == uat.base().lower_ttb | 1,
        r@[0].ttb1 == uat.base().pagetables | 1,
        1 <= i < 64 ==> r@[i].ttb0 == 0 && r@[i].ttb1 == 0,
        pte == uat.base().kernel_ttb | 3,
        table == uat.base().ttbs,
{
}

/// A binding names the address space and the slot that it got, counted from the first that
/// is not the kernel's; a slot that is new to the address space gets its page table, under
/// its own id.
pub proof fn law_binding_names_the_slot(uat: &mut Uat, vm: &mut Vm, r: Option<Bound>)
    requires
        old(vm).wf(),
        old(vm).active_users < usize::MAX,
        call_ensures(Uat::bind, (uat, vm), r),
    ensures
        r is None ==> *final(vm) == *old(vm) && old(vm).binding is None,
        r matches Some(bound) ==> {
            &&& final(vm).active_users == old(vm).active_users + 1
            &&& final(vm).binding is Some
            &&& bound.bind.vm_id == old(vm).id
            &&& bound.bind.slot == final(vm).binding->0.token.slot + 1
            &&& final(vm).bind_token == Some(final(vm).binding->0.token)
            &&& bound.update matches Some(u) ==> {
                &&& u.index == bound.bind.slot
                &&& u.asid == bound.bind.slot
                &&& u.entry.ttb0 == ttb_entry(old(vm).ttb, bound.bind.slot as u64)
                &&& u.entry.ttb1 == 0
                &&& old(vm).active_users == 0
            }
            &&& old(vm).binding is None ==> (bound.update is Some
                <==> final(vm).binding->0.changed)
        },
        final(vm).ttb == old(vm).ttb && final(vm).id == old(vm).id,
{
}

/// One user less, or more, of a binding; the last one gives the slot up but remembers it.
pub proof fn law_users_of_a_binding(
    uat: &mut Uat,
    vm: &mut Vm,
    r: bool,
    shared: &mut Vm,
    bind: VmBind,
    copy: VmBind,
)
    requires
        old(vm).wf(),
        old(vm).active_users > 0,
        old(shared).wf(),
        old(shared).binding is Some,
        old(shared).active_users < usize::MAX,
        call_ensures(Uat::unbind, (uat, vm), r),
        call_ensures(Uat::clone_bind, (shared, &bind), copy),
    ensures
        final(vm).active_users + 1 == old(vm).active_users,
        final(vm).binding is Some <==> final(vm).active_users > 0,
        final(vm).active_users > 0 ==> final(vm).binding == old(vm).binding && !r,
        final(vm).bind_token == old(vm).bind_token,
        final(vm).ttb == old(vm).ttb && final(vm).id == old(vm).id,
        final(shared).active_users == old(shared).active_users + 1,
        final(shared).binding == old(shared).binding,
        copy.vm_id == bind.vm_id && copy.slot == bind.slot,
{
}

/// An address space that goes away clears its last slot if the entry there is still its
/// own, and complains if the firmware is using it then.
pub proof fn law_address_space_goes_away(
    vm: Vm,
    handoff_cur: Option<u32>,
    ttb_cur: u64,
    index: Option<u32>,
    r: Option<VmDrop>,
)
    requires
        vm.wf(),
        vm.active_users == 0,
        call_ensures(Vm::drop_index, (&vm,), index),
        call_ensures(Vm::drop_vm, (vm, handoff_cur, ttb_cur), r),
    ensures
        index is Some <==> vm.bind_token is Some,
        r is Some <==> index is Some,
        index is Some ==> index->0 == vm.bind_token->0.slot + 1,
        r matches Some(d) ==> {
            &&& d.index == index->0
            &&& d.clear <==> ttb_cur == ttb_entry(vm.ttb, d.index as u64)
            &&& d.in_use <==> d.clear && handoff_cur == Some(d.index)
        },
{
}

/// A region is mapped whole if it is there and large enough; otherwise the first thing that
/// is wrong with it gives the error.
pub proof fn law_regions(
    info: RegionInfo,
    size: u64,
    cached: bool,
    r: Result<RemapRequest>,
    request: RemapRequest,
    map: Option<u64>,
    region: Result<UatRegion>,
)
    requires
        call_ensures(map_region, (&info, size, cached), r),
        call_ensures(mapped_region, (&request, map), region),
    ensures
        r is Ok <==> info.index >= 0 && info.present && info.code >= 0 && info.size >= size,
        r matches Ok(q) ==> q.start == info.start && q.size == info.size && q.cached == cached,
        r matches Err(e) ==> {
            &&& info.index < 0 ==> e.errno() == info.index
            &&& info.index >= 0 && !info.present ==> e.errno() == -22
            &&& info.index >= 0 && info.present && info.code < 0 ==> e.errno() == info.code
            &&& info.index >= 0 && info.present && info.code >= 0 ==> e.errno() == -12
        },
        region is Ok <==> map is Some,
        region matches Ok(u) ==> u.base == request.start && u.size == request.size && u.map
            == map->0,
        region is Err ==> region == Err::<UatRegion, Error>(Error::ENOMEM),
{
}

/// What an address space and a binding say of themselves is what they were made with.
pub proof fn law_address_space_names_itself(
    vm: Vm,
    id: u64,
    ttb: u64,
    slot: Option<u32>,
    bind: VmBind,
    bound: u32,
)
    requires
        vm.wf(),
        call_ensures(Vm::id, (&vm,), id),
        call_ensures(Vm::ttb, (&vm,), ttb),
        call_ensures(Vm::slot, (&vm,), slot),
        call_ensures(VmBind::slot, (&bind,), bound),
    ensures
        id == vm.id,
        ttb == vm.ttb,
        vm.is_kernel ==> slot == Some(0u32),
        !vm.is_kernel && vm.bind_token is None ==> slot is None,
        !vm.is_kernel && vm.bind_token is Some ==> slot is Some && slot->0
            == vm.bind_token->0.slot + 1,
        bound == bind.slot,
{
}

/// The kernel's address space is there from the start, with its own page table and number,
/// and a user's gets its own.
pub proof fn law_kernel_address_space(
    base: UatBase,
    uat: Uat,
    kernel: &Vm,
    id: u64,
    ttb: u64,
    vm: Vm,
    i: int,
)
    requires
        call_ensures(Uat::new, (base,), uat),
        call_ensures(Uat::kernel_vm, (&uat,), kernel),
        call_ensures(Uat::new_vm, (&uat, id, ttb), vm),
    ensures
        uat.kernel_ready(),
        uat.base() == base,
        kernel.is_kernel && kernel.id == 0 && kernel.ttb == base.kernel_ttb,
        kernel.active_users == 0 && kernel.binding is None && kernel.bind_token is None,
        uat@.slots.len() == 63,
        0 <= i < 63 ==> uat@.idle(i),
        vm.id == id && vm.ttb == ttb && !vm.is_kernel,
        vm.active_users == 0 && vm.binding is None && vm.bind_token is None,
        vm.max_va < kernel.min_va,
{
}

} // verus!
