//! Nodes of the range allocator.
//!
//! The range allocator itself finds the place for a node; what it answers is an
//! argument here. A node that it accepted is valid until it is removed, and the owner of
//! the allocator is told about every removal of a valid node.
use crate::error::{to_result, Result};
use core::marker::PhantomData;
use vstd::prelude::*;

verus! {

/// The owner of a range allocator.
pub trait AllocInner<T>: Sized {
    /// Called before the range of a valid node is given back.
    fn drop_object(&mut self, _start: u64, _size: u64, _color: usize, _object: &mut T)
        default_ensures
            *final(self) == *old(self),
            *final(_object) == *old(_object),
    {
    }
}

impl<T> AllocInner<T> for () {

}

/// Where the range allocator looks for room.
#[derive(Copy, Clone, Debug, PartialEq, Eq, Structural)]
pub enum InsertMode {
    Best,
    Low,
    High,
    Evict,
}

impl InsertMode {
    pub open spec fn number(self) -> u32 {
        match self {
            InsertMode::Best => 0,
            InsertMode::Low => 1,
            InsertMode::High => 2,
            InsertMode::Evict => 3,
        }
    }

    /// The number by which the range allocator knows the mode.
    pub fn to_u32(&self) -> (r: u32)
        ensures
            r == self.number(),
    {
        match *self {
            InsertMode::Best => 0,
            InsertMode::Low => 1,
            InsertMode::High => 2,
            InsertMode::Evict => 3,
        }
    }
}

/// What the range allocator is asked for: a range of `size` within `start..end`.
#[derive(Copy, Clone, Debug, PartialEq, Eq, Structural)]
pub struct InsertRequest {
    pub size: u64,
    pub alignment: u64,
    pub color: usize,
    pub start: u64,
    pub end: u64,
    pub mode: InsertMode,
}

/// What the range allocator answers: a return code, and where the range starts if the
/// code is no error.
#[derive(Copy, Clone, Debug)]
pub struct Placement {
    pub code: i32,
    pub start: u64,
}

/// A range with the object it belongs to.
pub struct NodeData<T> {
    pub start: u64,
    pub size: u64,
    pub color: usize,
    pub valid: bool,
    pub inner: T,
}

pub type Node<T> = Box<NodeData<T>>;

impl<T> NodeData<T> {
    pub fn color(&self) -> (r: usize)
        ensures
            r == self.color,
    {
        self.color
    }

    pub fn start(&self) -> (r: u64)
        ensures
            r == self.start,
    {
        self.start
    }

    pub fn size(&self) -> (r: u64)
        ensures
            r == self.size,
    {
        self.size
    }

    /// Runs `cb` on the owner of the allocator that the node belongs to.
    pub fn with_inner<A: AllocInner<T>, R, F: FnOnce(&mut A) -> R>(
        &self,
        mm: &mut Allocator<A, T>,
        cb: F,
    ) -> (r: R)
        requires
            forall|o: &mut A| *o == old(mm).inner ==> call_requires(cb, (o,)),
        ensures
            final(mm).start == old(mm).start,
            final(mm).size == old(mm).size,
            exists|o: &mut A|
                *o == old(mm).inner && *final(o) == final(mm).inner && call_ensures(cb, (o,), r),
    {
        mm.with_inner(cb)
    }
}

/// A range allocator over `size` addresses from `start`.
pub struct Allocator<A: AllocInner<T>, T> {
    pub start: u64,
    pub size: u64,
    pub inner: A,
    pub _p: PhantomData<T>,
}

impl<A: AllocInner<T>, T> Allocator<A, T> {
    pub fn new(start: u64, size: u64, inner: A) -> (r: Allocator<A, T>)
        ensures
            r.start == start,
            r.size == size,
            r.inner == inner,
    {
        Allocator { start, size, inner, _p: PhantomData }
    }

    /// The request for a range anywhere, without alignment.
    pub fn insert_node(size: u64) -> (r: InsertRequest)
        ensures
            r == (InsertRequest {
                size,
                alignment: 0,
                color: 0,
                start: 0,
                end: u64::MAX,
                mode: InsertMode::Best,
            }),
    {
        Self::insert_node_generic(size, 0, 0, InsertMode::Best)
    }

    /// The request for a range anywhere.
    pub fn insert_node_generic(size: u64, alignment: u64, color: usize, mode: InsertMode) -> (r:
        InsertRequest)
        ensures
            r == (InsertRequest { size, alignment, color, start: 0, end: u64::MAX, mode }),
    {
        InsertRequest { size, alignment, color, start: 0, end: u64::MAX, mode }
    }

    /// Makes the node that was asked for, if the range allocator found a place.
    pub fn insert_node_in_range(node: T, request: InsertRequest, placed: Placement) -> (r: Result<
        Node<T>,
    >)
        ensures
            placed.code >= 0 <==> r is Ok,
            r matches Ok(n) ==> *n == (NodeData {
                start: placed.start,
                size: request.size,
                color: request.color,
                valid: true,
                inner: node,
            }),
            r matches Err(e) ==> e.wf() && e.errno() == placed.code,
    {
        match to_result(placed.code) {
            Ok(()) => Ok(
                Box::new(
                    NodeData {
                        start: placed.start,
                        size: request.size,
                        color: request.color,
                        valid: true,
                        inner: node,
                    },
                ),
            ),
            Err(e) => Err(e),
        }
    }

    /// Makes a node at a given place, if the range allocator's return code says that the
    /// place was free.
    pub fn reserve_node(node: T, start: u64, size: u64, color: usize, code: i32) -> (r: Result<
        Node<T>,
    >)
        ensures
            code >= 0 <==> r is Ok,
            r matches Ok(n) ==> *n == (NodeData { start, size, color, valid: true, inner: node }),
            r matches Err(e) ==> e.wf() && e.errno() == code,
    {
        match to_result(code) {
            Ok(()) => Ok(Box::new(NodeData { start, size, color, valid: true, inner: node })),
            Err(e) => Err(e),
        }
    }

    /// Runs `cb` on the owner of the allocator.
    pub fn with_inner<R, F: FnOnce(&mut A) -> R>(&mut self, cb: F) -> (r: R)
        requires
            forall|o: &mut A| *o == old(self).inner ==> call_requires(cb, (o,)),
        ensures
            final(self).start == old(self).start,
            final(self).size == old(self).size,
            exists|o: &mut A|
                *o == old(self).inner && *final(o) == final(self).inner && call_ensures(
                    cb,
                    (o,),
                    r,
                ),
    {
        cb(&mut self.inner)
    }

    /// Removes a node. A valid one is shown to the owner, and the result says that its
    /// range has to be given back.
    pub fn remove_node(&mut self, node: NodeData<T>) -> (r: bool)
        ensures
            r == node.valid,
            final(self).start == old(self).start,
            final(self).size == old(self).size,
            !r ==> final(self).inner == old(self).inner,
            r ==> exists|o: &mut A, object: &mut T|
                {
                    &&& *o == old(self).inner
                    &&& *final(o) == final(self).inner
                    &&& *object == node.inner
                    &&& #[trigger] call_ensures(
                        A::drop_object,
                        (o, node.start, node.size, node.color, object),
                        (),
                    )
                },
    {
        if node.valid {
            let mut object = node.inner;
            self.inner.drop_object(node.start, node.size, node.color, &mut object);
            true
        } else {
            false
        }
    }
}

/// A request for a range anywhere asks for the whole of the address range, with what else
/// it was given.
pub proof fn law_requests_anywhere<A: AllocInner<T>, T>(
    size: u64,
    alignment: u64,
    color: usize,
    mode: InsertMode,
    plain: InsertRequest,
    generic: InsertRequest,
)
    requires
        call_ensures(Allocator::<A, T>::insert_node, (size,), plain),
        call_ensures(
            Allocator::<A, T>::insert_node_generic,
            (size, alignment, color, mode),
            generic,
        ),
    ensures
        plain.size == generic.size == size,
        plain.start == generic.start == 0,
        plain.end == generic.end == u64::MAX,
        plain.alignment == 0 && plain.color == 0 && plain.mode is Best,
        generic.alignment == alignment && generic.color == color && generic.mode == mode,
{
}

/// A node is made exactly if the range allocator found, or had, its place: then it lies
/// there, with the size and color that were asked for. Otherwise the code is the error.
pub proof fn law_nodes_lie_where_they_were_placed<A: AllocInner<T>, T>(
    node: T,
    request: InsertRequest,
    placed: Placement,
    inserted: Result<Node<T>>,
    start: u64,
    size: u64,
    color: usize,
    code: i32,
    reserved: Result<Node<T>>,
)
    requires
        call_ensures(
            Allocator::<A, T>::insert_node_in_range,
            (node, request, placed),
            inserted,
        ),
        call_ensures(
            Allocator::<A, T>::reserve_node,
            (node, start, size, color, code),
            reserved,
        ),
    ensures
        inserted is Ok <==> placed.code >= 0,
        inserted matches Ok(n) ==> {
            &&& n.start == placed.start
            &&& n.size == request.size
            &&& n.color == request.color
            &&& n.valid
            &&& n.inner == node
        },
        inserted matches Err(e) ==> e.errno() == placed.code,
        reserved is Ok <==> code >= 0,
        reserved matches Ok(n) ==> {
            &&& n.start == start
            &&& n.size == size
            &&& n.color == color
            &&& n.valid
            &&& n.inner == node
        },
        reserved matches Err(e) ==> e.errno() == code,
{
}

/// A node tells what it was made with, and the modes are told apart by their numbers.
pub proof fn law_nodes_tell_their_range<T>(
    node: NodeData<T>,
    start: u64,
    size: u64,
    color: usize,
    mode: InsertMode,
    number: u32,
)
    requires
        call_ensures(NodeData::<T>::start, (&node,), start),
        call_ensures(NodeData::<T>::size, (&node,), size),
        call_ensures(NodeData::<T>::color, (&node,), color),
        call_ensures(InsertMode::to_u32, (&mode,), number),
    ensures
        start == node.start,
        size == node.size,
        color == node.color,
        number == 0 <==> mode is Best,
        number == 1 <==> mode is Low,
        number == 2 <==> mode is High,
        number == 3 <==> mode is Evict,
{
}

/// Only a valid node's range is given back; a node that was never valid leaves the owner
/// as it was.
pub proof fn law_only_valid_nodes_are_given_back<A: AllocInner<T>, T>(
    mm: &mut Allocator<A, T>,
    node: NodeData<T>,
    r: bool,
)
    requires
        call_ensures(Allocator::<A, T>::remove_node, (mm, node), r),
    ensures
        r <==> node.valid,
        !node.valid ==> final(mm).inner == old(mm).inner,
        final(mm).start == old(mm).start && final(mm).size == old(mm).size,
{
}

/// A new range allocator manages the addresses that it was given, for its owner.
pub proof fn law_new_range_allocator<A: AllocInner<T>, T>(
    start: u64,
    size: u64,
    inner: A,
    r: Allocator<A, T>,
)
    requires
        call_ensures(Allocator::<A, T>::new, (start, size, inner), r),
    ensures
        r.start == start,
        r.size == size,
        r.inner == inner,
{
}

} // verus!
