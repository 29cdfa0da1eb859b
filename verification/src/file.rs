//! Open files: the address ranges that a file's objects get, and the answers to its
//! requests.
use crate::allocator::SimpleAllocator;
use crate::buffer::PAGE_SIZE;
use crate::error::{Error, Result};
use crate::gem::{iova_in, map_after, map_result};
use crate::mmu::{Mapping, PROT_GPU_FW_SHARED_RW, PROT_GPU_SHARED_RW, UAT_PGSZ};
use vstd::prelude::*;

verus! {

/// Where the range of the pipelines starts.
pub const PIPELINE_BASE: u64 = 0x11_0000_0000;

/// Where the range of the other objects starts.
pub const OBJECT_BASE: u64 = 0x20_0000_0000;

/// Where the range starts that objects get when their address is first asked for.
pub const LATE_OBJECT_BASE: u64 = 0x20_8000_0000;

/// How many files have ranges of their own; further ones share them.
pub const FILE_RANGES: u64 = 32;

/// Where to place an object: a range of addresses with its last one, an alignment and a
/// protection.
#[derive(Copy, Clone, Debug, PartialEq, Eq, Structural)]
pub struct BoPlace {
    pub start: u64,
    pub end: u64,
    pub alignment: u64,
    pub prot: u32,
}

pub open spec fn pipeline_place(file_id: u64) -> BoPlace {
    let start = (PIPELINE_BASE + (file_id % FILE_RANGES) * 0x800_0000) as u64;
    BoPlace {
        start,
        end: (start + 0x7ff_ffff) as u64,
        alignment: UAT_PGSZ,
        prot: PROT_GPU_SHARED_RW,
    }
}

pub open spec fn object_place(base: u64, file_id: u64) -> BoPlace {
    let start = (base + (file_id % FILE_RANGES) * 0x1_0000_0000) as u64;
    BoPlace {
        start,
        end: (start + 0xffff_ffff) as u64,
        alignment: UAT_PGSZ,
        prot: PROT_GPU_SHARED_RW,
    }
}

/// Where an object goes: a pipeline has a range of its own and is named by its offset
/// from the start of it.
pub open spec fn place_of(file_id: u64, pipeline: bool) -> BoPlace {
    if pipeline {
        pipeline_place(file_id)
    } else {
        object_place(OBJECT_BASE, file_id)
    }
}

/// What the caller of an object request sees.
#[derive(Copy, Clone, Debug, PartialEq, Eq, Structural)]
pub struct BoReply {
    pub offset: u64,
    pub handle: u32,
}

/// The driver's allocators of a file.
#[derive(Copy, Clone, Debug)]
pub struct FileAllocators {
    pub ualloc: SimpleAllocator,
    pub ualloc_priv: SimpleAllocator,
    pub ualloc_extra: SimpleAllocator,
}

/// The allocators for what the driver puts into a file's address space.
pub fn open() -> (r: FileAllocators)
    ensures
        r.ualloc == (SimpleAllocator {
            start: 0x60_0000_0000,
            end: 0x60_ffff_ffff,
            prot: PROT_GPU_SHARED_RW,
            min_align: PAGE_SIZE,
        }),
        r.ualloc_priv == (SimpleAllocator {
            start: 0x61_0000_0000,
            end: 0x61_ffff_ffff,
            prot: PROT_GPU_FW_SHARED_RW,
            min_align: PAGE_SIZE,
        }),
        r.ualloc_extra == (SimpleAllocator {
            start: 0x6f_ffff_8000,
            end: 0x70_0000_0000,
            prot: PROT_GPU_SHARED_RW,
            min_align: 0x4000,
        }),
{
    FileAllocators {
        ualloc: SimpleAllocator::new(
            0x60_0000_0000,
            0x60_ffff_ffff,
            PAGE_SIZE,
            PROT_GPU_SHARED_RW,
        ),
        ualloc_priv: SimpleAllocator::new(
            0x61_0000_0000,
            0x61_ffff_ffff,
            PAGE_SIZE,
            PROT_GPU_FW_SHARED_RW,
        ),
        ualloc_extra: SimpleAllocator::new(
            0x6f_ffff_8000,
            0x70_0000_0000,
            0x4000,
            PROT_GPU_SHARED_RW,
        ),
    }
}

proof fn lemma_file_range(file_id: u64)
    ensures
        (file_id & 0x1f) << 27 == (file_id % 32) * 0x800_0000,
        (file_id & 0x1f) << 32 == (file_id % 32) * 0x1_0000_0000,
{
    assert((file_id & 0x1f) << 27 == (file_id % 32) * 0x800_0000 && (file_id & 0x1f) << 32 == (
    file_id % 32) * 0x1_0000_0000) by (bit_vector);
}

/// Where a new object of a file goes.
pub fn create_bo_place(file_id: u64, pipeline: bool) -> (r: BoPlace)
    ensures
        r == place_of(file_id, pipeline),
{
    proof {
        lemma_file_range(file_id);
    }
    if pipeline {
        let start: u64 = PIPELINE_BASE + ((file_id & 0x1f) << 27);
        BoPlace {
            start,
            end: start + 0x7ff_ffff,
            alignment: UAT_PGSZ,
            prot: PROT_GPU_SHARED_RW,
        }
    } else {
        let start: u64 = OBJECT_BASE + ((file_id & 0x1f) << 32);
        BoPlace {
            start,
            end: start + 0xffff_ffff,
            alignment: UAT_PGSZ,
            prot: PROT_GPU_SHARED_RW,
        }
    }
}

/// Answers a request for a new object, once it has been mapped and a handle made, or
/// not. The offset is set as soon as the object has been mapped.
pub fn create_bo(
    pipeline: bool,
    reply: &mut BoReply,
    iova: Result<u64>,
    handle: Result<u32>,
) -> (r: Result<u32>)
    requires
        pipeline && iova is Ok ==> iova->Ok_0 >= PIPELINE_BASE,
    ensures
        match (iova, handle) {
            (Err(e), _) => r == Err::<u32, Error>(e) && *final(reply) == *old(reply),
            (Ok(iova), handle) => {
                &&& final(reply).offset == if pipeline {
                    iova - PIPELINE_BASE
                } else {
                    iova as int
                }
                &&& r == match handle {
                    Ok(_) => Ok::<u32, Error>(0),
                    Err(e) => Err(e),
                }
                &&& final(reply).handle == match handle {
                    Ok(handle) => handle,
                    Err(_) => old(reply).handle,
                }
            },
        },
{
    let iova: u64 = match iova {
        Ok(iova) => iova,
        Err(e) => {
            return Err(e);
        },
    };
    if pipeline {
        reply.offset = iova - PIPELINE_BASE;
    } else {
        reply.offset = iova;
    }
    match handle {
        Ok(handle) => {
            reply.handle = handle;
            Ok(0)
        },
        Err(e) => Err(e),
    }
}

/// Where an object goes whose address is asked for before it has one.
pub fn get_bo_offset_place(file_id: u64) -> (r: BoPlace)
    ensures
        r == object_place(LATE_OBJECT_BASE, file_id),
{
    proof {
        lemma_file_range(file_id);
    }
    let start: u64 = LATE_OBJECT_BASE + ((file_id & 0x1f) << 32);
    BoPlace { start, end: start + 0xffff_ffff, alignment: UAT_PGSZ, prot: PROT_GPU_SHARED_RW }
}

/// What a request for the address of an object is answered with.
pub open spec fn offset_result(mapped: Result<u64>, found: Option<u64>) -> Result<u32> {
    match (found, mapped) {
        (Some(_), _) => Ok(0),
        (None, Err(e)) => Err(e),
        (None, Ok(_)) => Err(Error::EIO),
    }
}

/// Answers a request for the address of an object. `mapped` is what came of mapping it
/// now, `found` where it is after that: if it is anywhere, whoever mapped it, that is the
/// answer.
pub fn get_bo_offset(offset: &mut u64, mapped: Result<u64>, found: Option<u64>) -> (r: Result<u32>)
    ensures
        r == offset_result(mapped, found),
        *final(offset) == match found {
            Some(iova) => iova,
            None => *old(offset),
        },
{
    if let Some(iova) = found {
        *offset = iova;
        return Ok(0);
    }
    match mapped {
        Err(e) => Err(e),
        Ok(_) => Err(Error::EIO),
    }
}

/// Answers a request for the offset by which an object can be mapped in user space.
pub fn mmap_bo(offset: &mut u64, created: Result<u64>) -> (r: Result<u32>)
    ensures
        match created {
            Ok(o) => r == Ok::<u32, Error>(0) && *final(offset) == o,
            Err(e) => r == Err::<u32, Error>(e) && *final(offset) == *old(offset),
        },
{
    match created {
        Ok(o) => {
            *offset = o;
            Ok(0)
        },
        Err(e) => Err(e),
    }
}

/// Answers a submission with what came of rendering it.
pub fn submit(rendered: Result<()>) -> (r: Result<u32>)
    ensures
        r == match rendered {
            Ok(()) => Ok::<u32, Error>(0),
            Err(e) => Err(e),
        },
{
    match rendered {
        Ok(()) => Ok(0),
        Err(e) => Err(e),
    }
}

/// Answers a request to wait for an object; objects are never busy.
pub fn wait_bo() -> (r: Result<u32>)
    ensures
        r == Ok::<u32, Error>(0),
{
    Ok(0)
}

/// Answers a request for a parameter; there are none.
pub fn get_param() -> (r: Result<u32>)
    ensures
        r == Ok::<u32, Error>(0),
{
    Ok(0)
}

/// An address is found exactly if the object had one or could be mapped now, and an
/// object that had one keeps it. The mapping is not lost in between.
pub proof fn law_offset_is_where_the_object_is(
    mappings: Map<u64, Mapping>,
    vm_id: u64,
    made: Result<Mapping>,
)
    ensures
        ({
            let mapped = map_result(mappings, vm_id, made);
            let found = iova_in(map_after(mappings, vm_id, made), vm_id);
            &&& offset_result(mapped, found) == match (iova_in(mappings, vm_id), made) {
                (None, Err(e)) => Err::<u32, Error>(e),
                _ => Ok::<u32, Error>(0),
            }
            &&& iova_in(mappings, vm_id) is Some ==> found == iova_in(mappings, vm_id)
        }),
{
}

/// Files whose ids differ in the last five bits put their objects at different
/// addresses, pipelines and other objects never meet, and all lie in user space.
pub proof fn law_files_have_their_own_ranges(a: u64, b: u64, a_pipeline: bool, b_pipeline: bool)
    ensures
        a % FILE_RANGES != b % FILE_RANGES ==> place_of(a, a_pipeline).end < place_of(b, b_pipeline).start
            || place_of(b, b_pipeline).end < place_of(a, a_pipeline).start,
        a_pipeline && !b_pipeline ==> place_of(a, a_pipeline).end < place_of(
            b,
            b_pipeline,
        ).start,
        crate::mmu::IOVA_USER_BASE <= place_of(a, a_pipeline).start <= place_of(a, a_pipeline).end
            <= crate::mmu::IOVA_USER_TOP,
{
}

/// A pipeline's offset tells its address: it is below the size of the pipelines' range.
pub proof fn law_pipeline_offsets_fit(file_id: u64, iova: u64)
    requires
        pipeline_place(file_id).start <= iova <= pipeline_place(file_id).end,
    ensures
        0 <= iova - PIPELINE_BASE < 0x1_0000_0000,
{
}

/// Each file has its own stretch of addresses for pipelines, of 128 MiB, and for other
/// objects, of 4 GiB, one behind the other by the file's number; objects that get their
/// address late start in the middle of the stretch of the others.
pub proof fn law_places_of_a_file(file_id: u64, p: BoPlace, o: BoPlace, late: BoPlace)
    requires
        call_ensures(create_bo_place, (file_id, true), p),
        call_ensures(create_bo_place, (file_id, false), o),
        call_ensures(get_bo_offset_place, (file_id,), late),
    ensures
        p.start == 0x11_0000_0000 + 0x800_0000 * (file_id as int % 32),
        p.end + 1 == p.start + 0x800_0000,
        o.start == 0x20_0000_0000 + 0x1_0000_0000 * (file_id as int % 32),
        o.end + 1 == o.start + 0x1_0000_0000,
        late.start == o.start + 0x8000_0000,
        late.end + 1 == late.start + 0x1_0000_0000,
        p.alignment == o.alignment == late.alignment == 0x4000,
        p.prot == o.prot == late.prot == PROT_GPU_SHARED_RW,
{
}

/// The driver's own allocations in a file's address space lie above all of the file's
/// objects, apart from each other, and only those that the firmware uses too are for it.
pub proof fn law_allocators_of_a_file(r: FileAllocators, file_id: u64, late: BoPlace)
    requires
        call_ensures(open, (), r),
        call_ensures(get_bo_offset_place, (file_id,), late),
    ensures
        late.end < r.ualloc.start < r.ualloc.end < r.ualloc_priv.start < r.ualloc_priv.end
            < r.ualloc_extra.start < r.ualloc_extra.end <= crate::mmu::IOVA_USER_TOP,
        r.ualloc.start == 0x60_0000_0000 && r.ualloc.end + 1 == r.ualloc.start + 0x1_0000_0000,
        r.ualloc_priv.start == 0x61_0000_0000 && r.ualloc_priv.end + 1 == r.ualloc_priv.start
            + 0x1_0000_0000,
        r.ualloc_extra.start == 0x6f_ffff_8000 && r.ualloc_extra.end == r.ualloc_extra.start
            + 0x8000,
        r.ualloc.prot == r.ualloc_extra.prot == PROT_GPU_SHARED_RW,
        r.ualloc_priv.prot == PROT_GPU_FW_SHARED_RW,
        r.ualloc.min_align == r.ualloc_priv.min_align == 0x8000,
        r.ualloc_extra.min_align == 0x4000,
{
}

/// A new object is answered with its address, a pipeline with its distance from the start
/// of all pipelines, and with its handle; the first thing that failed is the error.
pub proof fn law_new_object_is_answered(
    pipeline: bool,
    reply: &mut BoReply,
    iova: Result<u64>,
    handle: Result<u32>,
    r: Result<u32>,
)
    requires
        pipeline && iova is Ok ==> iova->Ok_0 >= PIPELINE_BASE,
        call_ensures(create_bo, (pipeline, reply, iova, handle), r),
    ensures
        r is Ok <==> iova is Ok && handle is Ok,
        r is Ok ==> r->Ok_0 == 0 && final(reply).handle == handle->Ok_0,
        iova is Err ==> r->Err_0 == iova->Err_0 && *final(reply) == *old(reply),
        iova is Ok && handle is Err ==> r->Err_0 == handle->Err_0 && final(reply).handle
            == old(reply).handle,
        iova is Ok && pipeline ==> final(reply).offset + 0x11_0000_0000 == iova->Ok_0,
        iova is Ok && !pipeline ==> final(reply).offset == iova->Ok_0,
{
}

/// An object that has an address is answered with it; one that has none, with the error of
/// mapping it, or as an error of its own.
pub proof fn law_address_is_answered(
    offset: &mut u64,
    mapped: Result<u64>,
    found: Option<u64>,
    r: Result<u32>,
)
    requires
        call_ensures(get_bo_offset, (offset, mapped, found), r),
    ensures
        r is Ok <==> found is Some,
        r is Ok ==> r->Ok_0 == 0 && *final(offset) == found->0,
        r is Err ==> *final(offset) == *old(offset),
        r is Err && mapped is Err ==> r->Err_0 == mapped->Err_0,
        r is Err && mapped is Ok ==> r->Err_0 == Error::EIO,
{
}

/// The other requests are answered with zero or with what failed.
pub proof fn law_requests_are_answered(
    offset: &mut u64,
    created: Result<u64>,
    mmap: Result<u32>,
    rendered: Result<()>,
    submitted: Result<u32>,
    waited: Result<u32>,
    param: Result<u32>,
)
    requires
        call_ensures(mmap_bo, (offset, created), mmap),
        call_ensures(submit, (rendered,), submitted),
        call_ensures(wait_bo, (), waited),
        call_ensures(get_param, (), param),
    ensures
        mmap is Ok <==> created is Ok,
        mmap is Ok ==> mmap->Ok_0 == 0 && *final(offset) == created->Ok_0,
        mmap is Err ==> mmap->Err_0 == created->Err_0 && *final(offset) == *old(offset),
        submitted is Ok <==> rendered is Ok,
        submitted is Ok ==> submitted->Ok_0 == 0,
        submitted is Err ==> submitted->Err_0 == rendered->Err_0,
        waited is Ok && waited->Ok_0 == 0,
        param is Ok && param->Ok_0 == 0,
{
}

} // verus!
