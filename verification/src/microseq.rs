//! Builds microsequences.
use crate::fw::microseq::{bytes_of, push_fields, Field, Operation};
use vstd::prelude::*;

verus! {

/// A microsequence in the making.
pub struct Builder {
    pub ops: Vec<u8>,
}

/// The bytes after an operation of these fields has been added.
pub open spec fn appended(ops: Seq<u8>, fields: Seq<Field>) -> Seq<u8> {
    ops + bytes_of(fields)
}

/// The bytes after several operations have been added.
pub open spec fn appended_all(ops: Seq<u8>, added: Seq<Seq<Field>>) -> Seq<u8>
    decreases added.len(),
{
    if added.len() == 0 {
        ops
    } else {
        appended(appended_all(ops, added.drop_last()), added.last())
    }
}

/// The size of several operations.
pub open spec fn total_size(added: Seq<Seq<Field>>) -> nat
    decreases added.len(),
{
    if added.len() == 0 {
        0
    } else {
        total_size(added.drop_last()) + bytes_of(added.last()).len()
    }
}

/// How far it is from the end of a microsequence to a place in it.
pub open spec fn distance(ops: Seq<u8>, target: int) -> int {
    target - ops.len()
}

impl Builder {
    pub fn new() -> (r: Builder)
        ensures
            r.ops@ == Seq::<u8>::empty(),
    {
        Builder { ops: Vec::new() }
    }

    /// How far it is from the operation that comes next to one at `target`.
    pub fn offset_to(&self, target: i32) -> (r: i32)
        requires
            self.ops@.len() <= i32::MAX,
            target - self.ops@.len() >= i32::MIN,
        ensures
            r == distance(self.ops@, target as int),
    {
        target - self.ops.len() as i32
    }

    /// Appends an operation and says where it starts.
    pub fn add<T: Operation>(&mut self, op: &T) -> (r: i32)
        requires
            old(self).ops@.len() <= i32::MAX,
        ensures
            r == old(self).ops@.len(),
            distance(old(self).ops@, r as int) == 0,
            final(self).ops@ == appended(old(self).ops@, op.fields()),
    {
        let off: i32 = self.ops.len() as i32;
        let fields = op.to_fields();
        push_fields(&mut self.ops, &fields);
        off
    }

    /// The finished microsequence.
    pub fn build(self) -> (r: Vec<u8>)
        ensures
            r@ == self.ops@,
    {
        self.ops
    }
}

proof fn lemma_appended_len(ops: Seq<u8>, added: Seq<Seq<Field>>)
    ensures
        appended_all(ops, added).len() == ops.len() + total_size(added),
    decreases added.len(),
{
    if added.len() > 0 {
        lemma_appended_len(ops, added.drop_last());
    }
}

/// The offset back to an operation is the size of what has been added since, itself
/// included: an operation that starts at the end of `before`, and then `later` ones.
pub proof fn law_offset_counts_back(before: Seq<u8>, op: Seq<Field>, later: Seq<Seq<Field>>)
    ensures
        distance(before, before.len() as int) == 0,
        distance(appended_all(appended(before, op), later), before.len() as int) == -(
        bytes_of(op).len() + total_size(later)),
{
    lemma_appended_len(appended(before, op), later);
}

/// An operation is put behind what is there, unchanged, and found again where it was said to
/// start; the way back to it from the end is as long as what came after.
pub proof fn law_operations_are_appended<T: Operation>(
    builder: &mut Builder,
    op: T,
    at: i32,
    later: Builder,
    back: i32,
    built: Vec<u8>,
)
    requires
        old(builder).ops@.len() <= i32::MAX,
        call_ensures(Builder::add::<T>, (builder, &op), at),
        later.ops@.len() <= i32::MAX,
        call_ensures(Builder::offset_to, (&later, at), back),
        call_ensures(Builder::build, (later,), built),
    ensures
        at == old(builder).ops@.len(),
        final(builder).ops@.take(at as int) =~= old(builder).ops@,
        final(builder).ops@.skip(at as int) =~= bytes_of(op.fields()),
        later.ops@.len() + back == at,
        built@ == later.ops@,
{
}

/// A new microsequence is empty.
pub proof fn law_new_microsequence(r: Builder)
    requires
        call_ensures(Builder::new, (), r),
    ensures
        r.ops@.len() == 0,
{
}

} // verus!
