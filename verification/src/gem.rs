//! The driver's part of a memory object: which address spaces map it, and where.
use crate::drm::mm::{InsertMode, InsertRequest};
use crate::error::{Error, Result};
use crate::mmu::{map_in_range_request, map_request, Mapping, UAT_PGSZ};
use vstd::prelude::*;

verus! {

/// A mapping of an object into the address space with an id.
#[derive(Copy, Clone, Debug, PartialEq, Eq, Structural)]
pub struct VmMapping {
    pub vm_id: u64,
    pub mapping: Mapping,
}

/// The mappings by the address spaces they are in.
pub open spec fn by_vm(entries: Seq<VmMapping>) -> Map<u64, Mapping> {
    Map::new(
        |id: u64| has_vm(entries, id),
        |id: u64| entries[index_of_vm(entries, id)].mapping,
    )
}

pub open spec fn has_vm(entries: Seq<VmMapping>, id: u64) -> bool {
    exists|i: int| 0 <= i < entries.len() && (#[trigger] entries[i]).vm_id == id
}

pub open spec fn index_of_vm(entries: Seq<VmMapping>, id: u64) -> int {
    choose|i: int| 0 <= i < entries.len() && (#[trigger] entries[i]).vm_id == id
}

/// No address space maps the object twice.
pub open spec fn distinct(entries: Seq<VmMapping>) -> bool {
    forall|i: int, j: int|
        0 <= i < j < entries.len() ==> (#[trigger] entries[i]).vm_id != (#[trigger] entries[j]).vm_id
}

proof fn lemma_entry(entries: Seq<VmMapping>, i: int)
    requires
        distinct(entries),
        0 <= i < entries.len(),
    ensures
        by_vm(entries).contains_key(entries[i].vm_id),
        by_vm(entries)[entries[i].vm_id] == entries[i].mapping,
{
    let k = index_of_vm(entries, entries[i].vm_id);
    assert(entries[k].vm_id == entries[i].vm_id);
}

/// Where an address space has an object.
pub open spec fn iova_in(mappings: Map<u64, Mapping>, vm_id: u64) -> Option<u64> {
    if mappings.contains_key(vm_id) {
        Some(mappings[vm_id].start)
    } else {
        None
    }
}

/// What comes of mapping an object, if `made` is what came of making the mapping.
pub open spec fn map_result(
    mappings: Map<u64, Mapping>,
    vm_id: u64,
    made: Result<Mapping>,
) -> Result<u64> {
    if mappings.contains_key(vm_id) {
        Err(Error::EBUSY)
    } else {
        match made {
            Ok(mapping) => Ok(mapping.start),
            Err(e) => Err(e),
        }
    }
}

/// The mappings after that.
pub open spec fn map_after(
    mappings: Map<u64, Mapping>,
    vm_id: u64,
    made: Result<Mapping>,
) -> Map<u64, Mapping> {
    if map_result(mappings, vm_id, made) is Ok {
        mappings.insert(vm_id, made->Ok_0)
    } else {
        mappings
    }
}

/// A memory object.
pub struct DriverObject {
    /// The object is the driver's own, not a user's.
    pub kernel: bool,
    pub flags: u32,
    pub mappings: Vec<VmMapping>,
}

impl View for DriverObject {
    type V = Map<u64, Mapping>;

    /// Where each address space has the object.
    open spec fn view(&self) -> Map<u64, Mapping> {
        by_vm(self.mappings@)
    }
}

impl DriverObject {
    pub open spec fn wf(&self) -> bool {
        distinct(self.mappings@)
    }

    /// An object of a user, mapped nowhere.
    pub fn new_object(flags: u32) -> (r: DriverObject)
        ensures
            r.wf(),
            !r.kernel,
            r.flags == flags,
            r@ == Map::<u64, Mapping>::empty(),
    {
        let r = DriverObject { kernel: false, flags, mappings: Vec::new() };
        assert(r@ =~= Map::<u64, Mapping>::empty());
        r
    }

    /// An object of the driver, mapped nowhere.
    pub fn new_kernel_object() -> (r: DriverObject)
        ensures
            r.wf(),
            r.kernel,
            r.flags == 0,
            r@ == Map::<u64, Mapping>::empty(),
    {
        let r = DriverObject { kernel: true, flags: 0, mappings: Vec::new() };
        assert(r@ =~= Map::<u64, Mapping>::empty());
        r
    }

    fn find(&self, vm_id: u64) -> (r: Option<usize>)
        requires
            self.wf(),
        ensures
            match r {
                Some(i) => {
                    &&& i < self.mappings@.len()
                    &&& self.mappings@[i as int].vm_id == vm_id
                    &&& self@.contains_key(vm_id)
                    &&& self@[vm_id] == self.mappings@[i as int].mapping
                },
                None => {
                    &&& !self@.contains_key(vm_id)
                    &&& forall|i: int|
                        0 <= i < self.mappings@.len() ==> (#[trigger] self.mappings@[i]).vm_id
                            != vm_id
                },
            },
    {
        let mut i: usize = 0;
        while i < self.mappings.len()
            invariant
                self.wf(),
                i <= self.mappings@.len(),
                forall|k: int|
                    0 <= k < i ==> (#[trigger] self.mappings@[k]).vm_id != vm_id,
            decreases self.mappings@.len() - i,
        {
            if self.mappings[i].vm_id == vm_id {
                proof {
                    lemma_entry(self.mappings@, i as int);
                }
                return Some(i);
            }
            i = i + 1;
        }
        None
    }

    /// Where an address space has the object.
    pub fn iova(&self, vm_id: u64) -> (r: Option<u64>)
        requires
            self.wf(),
        ensures
            r == iova_in(self@, vm_id),
    {
        match self.find(vm_id) {
            Some(i) => Some(self.mappings[i].mapping.iova()),
            None => None,
        }
    }

    /// The request for a place of the object, of `size` bytes, in an address space that
    /// does not have it yet.
    pub fn map_into_request(&self, vm_id: u64, size: u64) -> (r: Result<InsertRequest>)
        requires
            self.wf(),
            size + UAT_PGSZ <= u64::MAX,
        ensures
            r == if self@.contains_key(vm_id) {
                Err(Error::EBUSY)
            } else {
                Ok(
                    InsertRequest {
                        size: (size + UAT_PGSZ) as u64,
                        alignment: 0,
                        color: 0,
                        start: 0,
                        end: u64::MAX,
                        mode: InsertMode::Best,
                    },
                )
            },
    {
        if self.find(vm_id).is_some() {
            return Err(Error::EBUSY);
        }
        Ok(map_request(size))
    }

    /// The same within `start..end` and with an alignment.
    pub fn map_into_range_request(
        &self,
        vm_id: u64,
        size: u64,
        start: u64,
        end: u64,
        alignment: u64,
    ) -> (r: Result<InsertRequest>)
        requires
            self.wf(),
            size + UAT_PGSZ <= u64::MAX,
        ensures
            r == if self@.contains_key(vm_id) {
                Err(Error::EBUSY)
            } else {
                Ok(
                    InsertRequest {
                        size: (size + UAT_PGSZ) as u64,
                        alignment,
                        color: 0,
                        start,
                        end,
                        mode: InsertMode::Best,
                    },
                )
            },
    {
        if self.find(vm_id).is_some() {
            return Err(Error::EBUSY);
        }
        Ok(map_in_range_request(size, alignment, start, end))
    }

    /// Takes note of a mapping into an address space that does not have the object yet,
    /// and says where it is. If the mapping could not be made, nothing changes.
    pub fn map_into(&mut self, vm_id: u64, made: Result<Mapping>) -> (r: Result<u64>)
        requires
            old(self).wf(),
        ensures
            final(self).wf(),
            final(self).kernel == old(self).kernel,
            final(self).flags == old(self).flags,
            r == map_result(old(self)@, vm_id, made),
            final(self)@ == map_after(old(self)@, vm_id, made),
    {
        if self.find(vm_id).is_some() {
            return Err(Error::EBUSY);
        }
        let mapping = match made {
            Ok(mapping) => mapping,
            Err(e) => {
                return Err(e);
            },
        };
        let iova: u64 = mapping.iova();
        self.mappings.push(VmMapping { vm_id, mapping });
        proof {
            let before = old(self).mappings@;
            let after = self.mappings@;
            assert(distinct(after));
            lemma_entry(after, after.len() - 1);
            assert forall|id: u64| #[trigger]
                by_vm(after).contains_key(id) == by_vm(before).insert(
                    vm_id,
                    mapping,
                ).contains_key(id) by {
                if has_vm(before, id) {
                    let k = index_of_vm(before, id);
                    assert(after[k].vm_id == id);
                }
                if has_vm(after, id) && id != vm_id {
                    let k = index_of_vm(after, id);
                    assert(before[k].vm_id == id);
                }
            }
            assert forall|id: u64| #[trigger] by_vm(after).contains_key(id) implies by_vm(after)[id]
                == by_vm(before).insert(vm_id, mapping)[id] by {
                if id != vm_id {
                    let k = index_of_vm(after, id);
                    assert(before[k].vm_id == id);
                    lemma_entry(before, k);
                    lemma_entry(after, k);
                }
            }
            assert(by_vm(after) =~= by_vm(before).insert(vm_id, mapping));
        }
        Ok(iova)
    }

    /// Forgets the mapping into an address space and hands it out, to be taken down.
    pub fn drop_mappings(&mut self, vm_id: u64) -> (r: Option<Mapping>)
        requires
            old(self).wf(),
        ensures
            final(self).wf(),
            final(self).kernel == old(self).kernel,
            final(self).flags == old(self).flags,
            r == if old(self)@.contains_key(vm_id) {
                Some(old(self)@[vm_id])
            } else {
                None
            },
            final(self)@ == old(self)@.remove(vm_id),
    {
        match self.find(vm_id) {
            Some(index) => {
                let entry = self.mappings.swap_remove(index);
                proof {
                    let before = old(self).mappings@;
                    let after = self.mappings@;
                    let n = before.len() - 1;
                    assert forall|k: int| 0 <= k < after.len() implies #[trigger] after[k]
                        == before[if k == index { n } else { k }] by {}
                    assert(distinct(after));
                    assert forall|id: u64| #[trigger]
                        by_vm(after).contains_key(id) == by_vm(before).remove(vm_id).contains_key(
                            id,
                        ) by {
                        if has_vm(before, id) && id != vm_id {
                            let k = index_of_vm(before, id);
                            assert(before[k].vm_id == id);
                            assert(after[if k == n { index as int } else { k }].vm_id == id);
                        }
                        if has_vm(after, id) {
                            let k = index_of_vm(after, id);
                            assert(after[k].vm_id == id);
                            assert(before[if k == index { n } else { k }].vm_id == id);
                        }
                    }
                    assert forall|id: u64| #[trigger] by_vm(after).contains_key(id) implies by_vm(
                        after,
                    )[id] == by_vm(before).remove(vm_id)[id] by {
                        let k = index_of_vm(after, id);
                        assert(after[k].vm_id == id);
                        lemma_entry(after, k);
                        lemma_entry(before, if k == index { n } else { k });
                    }
                    assert(by_vm(after) =~= by_vm(before).remove(vm_id));
                }
                Some(entry.mapping)
            },
            None => {
                assert(self@ =~= old(self)@.remove(vm_id));
                None
            },
        }
    }
}

/// An object is mapped at most once into an address space, stays where it was mapped
/// until it is dropped there, and what one address space does leaves the others alone.
pub proof fn law_mappings_are_per_address_space(
    mappings: Map<u64, Mapping>,
    vm_id: u64,
    other: u64,
    made: Result<Mapping>,
)
    requires
        vm_id != other,
    ensures
        iova_in(mappings, vm_id) is Some ==> {
            &&& map_result(mappings, vm_id, made) == Err::<u64, Error>(Error::EBUSY)
            &&& map_after(mappings, vm_id, made) == mappings
        },
        iova_in(mappings, vm_id) is None && made is Ok ==> {
            &&& iova_in(map_after(mappings, vm_id, made), vm_id) == Some(made->Ok_0.start)
            &&& map_after(mappings, vm_id, made).remove(vm_id) == mappings
        },
        iova_in(map_after(mappings, vm_id, made), other) == iova_in(mappings, other),
        iova_in(mappings.remove(vm_id), vm_id) is None,
        iova_in(mappings.remove(vm_id), other) == iova_in(mappings, other),
{
    if iova_in(mappings, vm_id) is None && made is Ok {
        assert(map_after(mappings, vm_id, made).remove(vm_id) =~= mappings);
    }
}

/// An object is asked to be placed only where it is not yet, with room for a guard page.
pub proof fn law_object_is_placed_once(
    object: DriverObject,
    vm_id: u64,
    size: u64,
    start: u64,
    end: u64,
    alignment: u64,
    anywhere: Result<InsertRequest>,
    within: Result<InsertRequest>,
    at: Option<u64>,
)
    requires
        object.wf(),
        size + UAT_PGSZ <= u64::MAX,
        call_ensures(DriverObject::map_into_request, (&object, vm_id, size), anywhere),
        call_ensures(
            DriverObject::map_into_range_request,
            (&object, vm_id, size, start, end, alignment),
            within,
        ),
        call_ensures(DriverObject::iova, (&object, vm_id), at),
    ensures
        at is Some <==> object@.contains_key(vm_id),
        at is Some ==> at->0 == object@[vm_id].start,
        anywhere is Err <==> at is Some,
        within is Err <==> at is Some,
        anywhere is Err ==> anywhere->Err_0 == Error::EBUSY && within->Err_0 == Error::EBUSY,
        anywhere matches Ok(q) ==> q.size == size + 0x4000 && q.start == 0 && q.end == u64::MAX
            && q.alignment == 0 && q.color == 0 && q.mode is Best,
        within matches Ok(q) ==> q.size == size + 0x4000 && q.start == start && q.end == end
            && q.alignment == alignment && q.color == 0 && q.mode is Best,
{
}

/// What is mapped is found where it was mapped until it is dropped, and dropping it hands
/// the very mapping out; other address spaces notice nothing of either.
pub proof fn law_mapping_is_found_until_dropped(
    a: &mut DriverObject,
    vm_id: u64,
    made: Result<Mapping>,
    r: Result<u64>,
    b: &mut DriverObject,
    dropped: Option<Mapping>,
    other: u64,
)
    requires
        old(a).wf(),
        old(b).wf(),
        other != vm_id,
        call_ensures(DriverObject::map_into, (a, vm_id, made), r),
        call_ensures(DriverObject::drop_mappings, (b, vm_id), dropped),
    ensures
        old(a)@.contains_key(vm_id) ==> r == Err::<u64, Error>(Error::EBUSY) && final(a)@
            == old(a)@,
        !old(a)@.contains_key(vm_id) && made is Err ==> r == Err::<u64, Error>(made->Err_0)
            && final(a)@ == old(a)@,
        !old(a)@.contains_key(vm_id) && made is Ok ==> {
            &&& r == Ok::<u64, Error>(made->Ok_0.start)
            &&& final(a)@.contains_key(vm_id) && final(a)@[vm_id] == made->Ok_0
        },
        final(a)@.contains_key(other) <==> old(a)@.contains_key(other),
        old(a)@.contains_key(other) ==> final(a)@[other] == old(a)@[other],
        dropped is Some <==> old(b)@.contains_key(vm_id),
        dropped is Some ==> dropped->0 == old(b)@[vm_id],
        !final(b)@.contains_key(vm_id),
        final(b)@.contains_key(other) <==> old(b)@.contains_key(other),
        old(b)@.contains_key(other) ==> final(b)@[other] == old(b)@[other],
        final(a).flags == old(a).flags && final(b).flags == old(b).flags,
        final(a).kernel == old(a).kernel && final(b).kernel == old(b).kernel,
{
}

/// New objects are mapped nowhere, and know whose they are.
pub proof fn law_new_objects(flags: u32, user: DriverObject, kernel: DriverObject, id: u64)
    requires
        call_ensures(DriverObject::new_object, (flags,), user),
        call_ensures(DriverObject::new_kernel_object, (), kernel),
    ensures
        !user@.contains_key(id) && !kernel@.contains_key(id),
        !user.kernel && kernel.kernel,
        user.flags == flags && kernel.flags == 0,
{
}

} // verus!
