//! Objects in ordinary memory, and the pages behind them.
use crate::drm::gem::{BaseDriverObject, Object};
use crate::error::{Error, Result};
use vstd::prelude::*;

verus! {

/// Makes an object that the subsystem asked for: first the driver's part, then the
/// memory for both, which `alloc_zeroed` may not have.
pub fn gem_create_object<T: BaseDriverObject, F: FnOnce() -> bool>(
    dev: &T::Device,
    size: usize,
    alloc_zeroed: F,
) -> (r: Result<Object<T>>)
    requires
        call_requires(T::new, (dev, size)),
        call_requires(alloc_zeroed, ()),
    ensures
        exists|made: Result<T>| #[trigger]
            call_ensures(T::new, (dev, size), made) && match made {
                Err(e) => r == Err::<Object<T>, Error>(e),
                Ok(inner) => exists|allocated: bool| #[trigger]
                    call_ensures(alloc_zeroed, (), allocated) && r == if allocated {
                        Ok::<Object<T>, Error>(Object { size, inner })
                    } else {
                        Err(Error::ENOMEM)
                    },
            },
{
    let inner = match T::new(dev, size) {
        Err(e) => {
            return Err(e);
        },
        Ok(inner) => inner,
    };
    if !alloc_zeroed() {
        return Err(Error::ENOMEM);
    }
    Ok(Object { size, inner })
}

/// A run of memory that is contiguous for the device.
#[derive(Copy, Clone, Debug, PartialEq, Eq, Structural)]
pub struct SGEntry {
    pub dma_address: u64,
    pub dma_len: u64,
}

impl SGEntry {
    pub fn dma_address(&self) -> (r: u64)
        ensures
            r == self.dma_address,
    {
        self.dma_address
    }

    pub fn dma_len(&self) -> (r: u64)
        ensures
            r == self.dma_len,
    {
        self.dma_len
    }
}

/// All the memory of an object, in order.
#[derive(Debug)]
pub struct SGTable {
    pub entries: Vec<SGEntry>,
}

/// Walks a table.
pub struct SGTableIter<'a> {
    pub table: &'a SGTable,
    pub left: usize,
}

impl SGTable {
    pub fn iter(&self) -> (r: SGTableIter<'_>)
        ensures
            r.table == self,
            r.left == self.entries@.len(),
    {
        SGTableIter { table: self, left: self.entries.len() }
    }
}

impl<'a> SGTableIter<'a> {
    pub open spec fn wf(self) -> bool {
        self.left <= self.table.entries@.len()
    }

    /// The next entry, in the table's order.
    pub fn next(&mut self) -> (r: Option<SGEntry>)
        requires
            old(self).wf(),
        ensures
            final(self).wf(),
            final(self).table == old(self).table,
            if old(self).left == 0 {
                &&& r is None
                &&& final(self).left == 0
            } else {
                &&& r == Some(
                    old(self).table.entries@[old(self).table.entries@.len() - old(self).left],
                )
                &&& final(self).left == old(self).left - 1
            },
    {
        if self.left == 0 {
            None
        } else {
            let at: usize = self.table.entries.len() - self.left;
            self.left = self.left - 1;
            Some(self.table.entries[at])
        }
    }
}

/// A walk through a table gives its entries from the first to the last, one at a time, and
/// then nothing.
pub proof fn law_walk_gives_every_entry(
    table: SGTable,
    started: SGTableIter<'_>,
    iter: &mut SGTableIter<'_>,
    r: Option<SGEntry>,
)
    requires
        call_ensures(SGTable::iter, (&table,), started),
        old(iter).wf(),
        old(iter).table == &table,
        call_ensures(SGTableIter::next, (iter,), r),
    ensures
        started.table == &table,
        started.left == table.entries@.len(),
        r is None <==> old(iter).left == 0,
        r matches Some(entry) ==> {
            &&& final(iter).left + 1 == old(iter).left
            &&& old(iter).left == table.entries@.len() ==> entry == table.entries@[0]
            &&& final(iter).left == 0 ==> entry == table.entries@.last()
            &&& entry == table.entries@[table.entries@.len() - old(iter).left]
        },
        final(iter).table == &table,
{
}

/// An entry tells where its memory is and how much.
pub proof fn law_entries_tell_their_memory(entry: SGEntry, address: u64, len: u64)
    requires
        call_ensures(SGEntry::dma_address, (&entry,), address),
        call_ensures(SGEntry::dma_len, (&entry,), len),
    ensures
        entry == (SGEntry { dma_address: address, dma_len: len }),
{
}

/// An object that the subsystem asked for is there if the driver made its part and there
/// was memory for it.
pub proof fn law_created_object<T: BaseDriverObject, F: FnOnce() -> bool>(
    dev: T::Device,
    size: usize,
    alloc_zeroed: F,
    r: Result<Object<T>>,
)
    requires
        call_ensures(gem_create_object::<T, F>, (&dev, size, alloc_zeroed), r),
    ensures
        r matches Ok(object) ==> {
            &&& object.size == size
            &&& call_ensures(T::new, (&dev, size), Ok(object.inner))
            &&& call_ensures(alloc_zeroed, (), true)
        },
        r matches Err(e) ==> {
            ||| call_ensures(T::new, (&dev, size), Err(e))
            ||| e == Error::ENOMEM && call_ensures(alloc_zeroed, (), false)
        },
{
}

} // verus!
