//! Device tree nodes and properties.
use crate::error::{Error, Result};
use vstd::prelude::*;

verus! {

/// The longest compatible string, with its terminator.
pub const MAX_COMPATIBLE: usize = 128;

/// How a driver names the devices it is for.
#[derive(Clone, Copy, Debug)]
pub enum DeviceId {
    /// By their compatible string.
    Compatible(&'static [u8]),
}

/// A device id as the bus code compares it.
pub struct RawDeviceId {
    pub name: [u8; 32],
    pub type_: [u8; 32],
    pub compatible: [u8; 128],
    pub data: isize,
}

impl DeviceId {
    pub open spec fn compatible(self) -> Seq<u8> {
        let DeviceId::Compatible(s) = self;
        s@
    }

    /// The id as the bus code takes it: the string, zero-filled, and `offset` as the
    /// entry's data.
    pub fn to_rawid(&self, offset: isize) -> (r: RawDeviceId)
        requires
            self.compatible().len() < MAX_COMPATIBLE,
        ensures
            forall|i: int| 0 <= i < 32 ==> #[trigger] r.name@[i] == 0,
            forall|i: int| 0 <= i < 32 ==> #[trigger] r.type_@[i] == 0,
            forall|i: int|
                0 <= i < 128 ==> #[trigger] r.compatible@[i] == if i < self.compatible().len() {
                    self.compatible()[i]
                } else {
                    0
                },
            r.data == offset,
    {
        let DeviceId::Compatible(compatible) = self;
        let mut id = RawDeviceId {
            name: [0;32],
            type_: [0;32],
            compatible: [0;128],
            data: offset,
        };
        let mut i: usize = 0;
        while i < compatible.len()
            invariant
                compatible@ == self.compatible(),
                i <= compatible@.len() < MAX_COMPATIBLE,
                forall|k: int| 0 <= k < 32 ==> #[trigger] id.name@[k] == 0,
                forall|k: int| 0 <= k < 32 ==> #[trigger] id.type_@[k] == 0,
                forall|k: int|
                    0 <= k < 128 ==> #[trigger] id.compatible@[k] == if k < i {
                        compatible@[k]
                    } else {
                        0
                    },
                id.data == offset,
            decreases compatible@.len() - i,
        {
            id.compatible[i] = compatible[i];
            i = i + 1;
        }
        id.compatible[i] = 0;
        id
    }
}

pub type PHandle = u32;

/// A property of a node.
#[derive(Debug)]
pub struct Property {
    pub name: Vec<u8>,
    pub value: Vec<u8>,
}

impl Property {
    pub fn name(&self) -> (r: &Vec<u8>)
        ensures
            *r == self.name,
    {
        &self.name
    }

    pub fn value(&self) -> (r: &Vec<u8>)
        ensures
            *r == self.value,
    {
        &self.value
    }

    pub fn len(&self) -> (r: usize)
        ensures
            r == self.value@.len(),
    {
        self.value.len()
    }

    pub fn is_empty(&self) -> (r: bool)
        ensures
            r == (self.value@.len() == 0),
    {
        self.len() == 0
    }
}

/// The number that bytes stand for, the most significant first.
pub open spec fn big_endian(bytes: Seq<u8>) -> nat
    decreases bytes.len(),
{
    if bytes.len() == 0 {
        0
    } else {
        0x100 * big_endian(bytes.drop_last()) + bytes.last() as nat
    }
}

/// The number that bytes stand for in two's complement.
pub open spec fn big_endian_signed(bytes: Seq<u8>) -> int {
    let range = range_of(bytes.len());
    if 2 * big_endian(bytes) < range {
        big_endian(bytes) as int
    } else {
        big_endian(bytes) - range
    }
}

/// How many numbers `n` bytes can tell apart.
pub open spec fn range_of(n: nat) -> nat
    decreases n,
{
    if n == 0 {
        1
    } else {
        0x100 * range_of((n - 1) as nat)
    }
}

pub proof fn lemma_big_endian_bound(bytes: Seq<u8>)
    ensures
        big_endian(bytes) < range_of(bytes.len()),
    decreases bytes.len(),
{
    if bytes.len() > 0 {
        lemma_big_endian_bound(bytes.drop_last());
    }
}

proof fn lemma_ranges()
    ensures
        range_of(1) == 0x100,
        range_of(2) == 0x1_0000,
        range_of(4) == 0x1_0000_0000,
        range_of(8) == 0x1_0000_0000_0000_0000,
{
    reveal_with_fuel(range_of, 9);
}

proof fn lemma_ranges_ascend(m: nat, n: nat)
    requires
        m <= n,
    ensures
        range_of(m) <= range_of(n),
        range_of(m) > 0,
    decreases n,
{
    if m < n {
        lemma_ranges_ascend(m, (n - 1) as nat);
    } else if m > 0 {
        lemma_ranges_ascend((m - 1) as nat, (m - 1) as nat);
    }
}

fn read_big_endian(bytes: &Vec<u8>) -> (r: u64)
    requires
        bytes@.len() <= 8,
    ensures
        r == big_endian(bytes@),
{
    let mut value: u64 = 0;
    let mut i: usize = 0;
    while i < bytes.len()
        invariant
            i <= bytes@.len() <= 8,
            value == big_endian(bytes@.take(i as int)),
        decreases bytes@.len() - i,
    {
        proof {
            let next = bytes@.take(i + 1);
            assert(next.drop_last() =~= bytes@.take(i as int));
            lemma_big_endian_bound(next);
            lemma_ranges_ascend((i + 1) as nat, 8);
            lemma_ranges();
        }
        value = 0x100 * value + bytes[i] as u64;
        i = i + 1;
    }
    assert(bytes@.take(i as int) =~= bytes@);
    value
}

/// What a property's value can be read as.
pub trait FromProperty: Sized {
    /// What a value of these bytes means.
    spec fn meaning(value: Seq<u8>) -> Result<Self>;

    fn from_property(p: &Property) -> (r: Result<Self>)
        ensures
            r == Self::meaning(p.value@),
    ;
}

impl FromProperty for u8 {
    open spec fn meaning(value: Seq<u8>) -> Result<Self> {
        if value.len() == 1 {
            Ok(big_endian(value) as u8)
        } else {
            Err(Error::EINVAL)
        }
    }

    fn from_property(p: &Property) -> (r: Result<Self>) {
        if p.len() == 1 {
            proof {
                lemma_big_endian_bound(p.value@);
                lemma_ranges();
            }
            Ok(read_big_endian(&p.value) as u8)
        } else {
            Err(Error::EINVAL)
        }
    }
}

impl FromProperty for u16 {
    open spec fn meaning(value: Seq<u8>) -> Result<Self> {
        if value.len() == 2 {
            Ok(big_endian(value) as u16)
        } else {
            Err(Error::EINVAL)
        }
    }

    fn from_property(p: &Property) -> (r: Result<Self>) {
        if p.len() == 2 {
            proof {
                lemma_big_endian_bound(p.value@);
                lemma_ranges();
            }
            Ok(read_big_endian(&p.value) as u16)
        } else {
            Err(Error::EINVAL)
        }
    }
}

impl FromProperty for u32 {
    open spec fn meaning(value: Seq<u8>) -> Result<Self> {
        if value.len() == 4 {
            Ok(big_endian(value) as u32)
        } else {
            Err(Error::EINVAL)
        }
    }

    fn from_property(p: &Property) -> (r: Result<Self>) {
        if p.len() == 4 {
            proof {
                lemma_big_endian_bound(p.value@);
                lemma_ranges();
            }
            Ok(read_big_endian(&p.value) as u32)
        } else {
            Err(Error::EINVAL)
        }
    }
}

impl FromProperty for u64 {
    open spec fn meaning(value: Seq<u8>) -> Result<Self> {
        if value.len() == 8 {
            Ok(big_endian(value) as u64)
        } else {
            Err(Error::EINVAL)
        }
    }

    fn from_property(p: &Property) -> (r: Result<Self>) {
        if p.len() == 8 {
            Ok(read_big_endian(&p.value))
        } else {
            Err(Error::EINVAL)
        }
    }
}

impl FromProperty for i8 {
    open spec fn meaning(value: Seq<u8>) -> Result<Self> {
        if value.len() == 1 {
            Ok(big_endian_signed(value) as i8)
        } else {
            Err(Error::EINVAL)
        }
    }

    fn from_property(p: &Property) -> (r: Result<Self>) {
        if p.len() == 1 {
            proof {
                lemma_big_endian_bound(p.value@);
                lemma_ranges();
            }
            let value: i64 = read_big_endian(&p.value) as i64;
            if value < 0x80 {
                Ok(value as i8)
            } else {
                Ok((value - 0x100) as i8)
            }
        } else {
            Err(Error::EINVAL)
        }
    }
}

impl FromProperty for i16 {
    open spec fn meaning(value: Seq<u8>) -> Result<Self> {
        if value.len() == 2 {
            Ok(big_endian_signed(value) as i16)
        } else {
            Err(Error::EINVAL)
        }
    }

    fn from_property(p: &Property) -> (r: Result<Self>) {
        if p.len() == 2 {
            proof {
                lemma_big_endian_bound(p.value@);
                lemma_ranges();
            }
            let value: i64 = read_big_endian(&p.value) as i64;
            if value < 0x8000 {
                Ok(value as i16)
            } else {
                Ok((value - 0x1_0000) as i16)
            }
        } else {
            Err(Error::EINVAL)
        }
    }
}

impl FromProperty for i32 {
    open spec fn meaning(value: Seq<u8>) -> Result<Self> {
        if value.len() == 4 {
            Ok(big_endian_signed(value) as i32)
        } else {
            Err(Error::EINVAL)
        }
    }

    fn from_property(p: &Property) -> (r: Result<Self>) {
        if p.len() == 4 {
            proof {
                lemma_big_endian_bound(p.value@);
                lemma_ranges();
            }
            let value: i64 = read_big_endian(&p.value) as i64;
            if value < 0x8000_0000 {
                Ok(value as i32)
            } else {
                Ok((value - 0x1_0000_0000) as i32)
            }
        } else {
            Err(Error::EINVAL)
        }
    }
}

impl FromProperty for i64 {
    open spec fn meaning(value: Seq<u8>) -> Result<Self> {
        if value.len() == 8 {
            Ok(big_endian_signed(value) as i64)
        } else {
            Err(Error::EINVAL)
        }
    }

    fn from_property(p: &Property) -> (r: Result<Self>) {
        if p.len() == 8 {
            proof {
                lemma_big_endian_bound(p.value@);
                lemma_ranges();
            }
            let value: u64 = read_big_endian(&p.value);
            if value < 0x8000_0000_0000_0000 {
                Ok(value as i64)
            } else {
                Ok(-((u64::MAX - value) as i64) - 1)
            }
        } else {
            Err(Error::EINVAL)
        }
    }
}

fn same_bytes(a: &Vec<u8>, b: &Vec<u8>) -> (r: bool)
    ensures
        r == (a@ == b@),
{
    if a.len() != b.len() {
        return false;
    }
    let mut i: usize = 0;
    while i < a.len()
        invariant
            i <= a@.len() == b@.len(),
            forall|k: int| 0 <= k < i ==> a@[k] == b@[k],
        decreases a@.len() - i,
    {
        if a[i] != b[i] {
            assert(a@[i as int] != b@[i as int]);
            return false;
        }
        i = i + 1;
    }
    assert(a@ =~= b@);
    true
}

/// A node of the device tree.
#[derive(Debug)]
pub struct Node {
    pub name: Vec<u8>,
    pub full_name: Vec<u8>,
    pub phandle: PHandle,
    pub properties: Vec<Property>,
}

/// The first of the properties that has a name.
pub open spec fn find(properties: Seq<Property>, name: Seq<u8>) -> Option<Property>
    decreases properties.len(),
{
    if properties.len() == 0 {
        None
    } else if properties[0].name@ == name {
        Some(properties[0])
    } else {
        find(properties.skip(1), name)
    }
}

impl Node {
    pub open spec fn property(self, name: Seq<u8>) -> Option<Property> {
        find(self.properties@, name)
    }

    pub fn name(&self) -> (r: &Vec<u8>)
        ensures
            *r == self.name,
    {
        &self.name
    }

    pub fn phandle(&self) -> (r: PHandle)
        ensures
            r == self.phandle,
    {
        self.phandle
    }

    pub fn full_name(&self) -> (r: &Vec<u8>)
        ensures
            *r == self.full_name,
    {
        &self.full_name
    }

    /// The index of a phandle list entry as the device tree code takes it, if it can be.
    pub fn phandle_index(index: usize) -> (r: Option<i32>)
        ensures
            r == if index <= i32::MAX {
                Some(index as i32)
            } else {
                None
            },
    {
        if index <= i32::MAX as usize {
            Some(index as i32)
        } else {
            None
        }
    }

    /// The property of a name.
    pub fn find_property(&self, propname: &Vec<u8>) -> (r: Option<&Property>)
        ensures
            match r {
                Some(p) => self.property(propname@) == Some(*p),
                None => self.property(propname@) is None,
            },
    {
        let mut i: usize = 0;
        assert(self.properties@.skip(0) =~= self.properties@);
        while i < self.properties.len()
            invariant
                i <= self.properties@.len(),
                find(self.properties@.skip(i as int), propname@) == self.property(propname@),
            decreases self.properties@.len() - i,
        {
            assert(self.properties@.skip(i as int)[0] == self.properties@[i as int]);
            if same_bytes(&self.properties[i].name, propname) {
                return Some(&self.properties[i]);
            }
            assert(self.properties@.skip(i as int).skip(1) =~= self.properties@.skip(i + 1));
            i = i + 1;
        }
        None
    }

    /// A property that has to be there, read as a `T`.
    pub fn get_property<T: FromProperty>(&self, propname: &Vec<u8>) -> (r: Result<T>)
        ensures
            r == match self.property(propname@) {
                Some(p) => T::meaning(p.value@),
                None => Err(Error::ENOENT),
            },
    {
        match self.find_property(propname) {
            Some(p) => T::from_property(p),
            None => Err(Error::ENOENT),
        }
    }

    /// A property that need not be there, read as a `T`.
    pub fn get_opt_property<T: FromProperty>(&self, propname: &Vec<u8>) -> (r: Result<Option<T>>)
        ensures
            r == match self.property(propname@) {
                Some(p) => match T::meaning(p.value@) {
                    Ok(value) => Ok(Some(value)),
                    Err(e) => Err(e),
                },
                None => Ok(None),
            },
    {
        match self.find_property(propname) {
            Some(p) => match T::from_property(p) {
                Ok(value) => Ok(Some(value)),
                Err(e) => Err(e),
            },
            None => Ok(None),
        }
    }
}

/// A property that is there reads the same either way; one that is not is an error only
/// where it has to be there.
pub proof fn law_optional_property_agrees<T: FromProperty>(node: Node, name: Seq<u8>)
    ensures
        ({
            let required: Result<T> = match node.property(name) {
                Some(p) => T::meaning(p.value@),
                None => Err(Error::ENOENT),
            };
            let optional: Result<Option<T>> = match node.property(name) {
                Some(p) => match T::meaning(p.value@) {
                    Ok(value) => Ok(Some(value)),
                    Err(e) => Err(e),
                },
                None => Ok(None),
            };
            &&& node.property(name) is Some ==> (required is Ok <==> optional is Ok)
            &&& (optional matches Ok(Some(value)) ==> required == Ok::<T, Error>(value))
            &&& (optional matches Err(e) ==> required == Err::<T, Error>(e))
        }),
{
}

/// Walks a list of nodes, given as a function from a node, or none, to the next one.
#[verifier::reject_recursive_types(N)]
pub struct NodeIterator<N: Copy, T: Fn(Option<N>) -> Option<N>> {
    pub cur: Option<N>,
    pub done: bool,
    pub fn_next: T,
}

impl<N: Copy, T: Fn(Option<N>) -> Option<N>> NodeIterator<N, T> {
    pub fn new(next: T) -> (r: NodeIterator<N, T>)
        ensures
            r.cur is None,
            !r.done,
            r.fn_next == next,
    {
        NodeIterator { cur: None, done: false, fn_next: next }
    }

    /// What one step gives: the node that the function gives for the last one, or nothing
    /// once it has given none. The function is not asked then.
    pub open spec fn next_gives(self, r: Option<N>, after: NodeIterator<N, T>) -> bool {
        if self.done {
            &&& r is None
            &&& after == self
        } else {
            &&& call_ensures(self.fn_next, (self.cur,), r)
            &&& after == (NodeIterator { cur: r, done: r is None, ..self })
        }
    }

    /// The next node. After the last one there is none, and the function is not asked
    /// again.
    pub fn next(&mut self) -> (r: Option<N>)
        requires
            !old(self).done ==> call_requires(old(self).fn_next, (old(self).cur,)),
        ensures
            old(self).next_gives(r, *final(self)),
    {
        if self.done {
            None
        } else {
            self.cur = (self.fn_next)(self.cur);
            self.done = self.cur.is_none();
            self.cur
        }
    }
}

/// The nodes that a function leads through: first from none, then from one to the next.
pub open spec fn node_at<N>(next: spec_fn(Option<N>) -> Option<N>, k: nat) -> Option<N>
    decreases k,
{
    if k == 0 {
        next(None)
    } else {
        next(node_at(next, (k - 1) as nat))
    }
}

/// No node is missing up to the `k`-th.
pub open spec fn all_nodes<N>(next: spec_fn(Option<N>) -> Option<N>, k: int) -> bool {
    forall|j: int| 0 <= j <= k ==> #[trigger] node_at(next, j as nat) is Some
}

/// An iterator that is asked again and again: the `k`-th call asks the function once, for
/// the node after the one that the call before gave, as long as no call has given nothing.
/// Every later call gives nothing, leaves the iterator as it is, and asks nobody.
pub proof fn law_iteration_follows_the_function<N: Copy, T: Fn(Option<N>) -> Option<N>>(
    iters: Seq<NodeIterator<N, T>>,
    given: Seq<Option<N>>,
    k: int,
)
    requires
        iters.len() == given.len() + 1,
        iters[0].cur is None,
        !iters[0].done,
        forall|j: int| 0 <= j < given.len() ==> #[trigger] iters[j].next_gives(given[j], iters[j + 1]),
        0 <= k < given.len(),
    ensures
        iters[k].fn_next == iters[0].fn_next,
        iters[k].done <==> (exists|j: int| 0 <= j < k && #[trigger] given[j] is None),
        !iters[k].done ==> call_ensures(
            iters[0].fn_next,
            (if k == 0 {
                None
            } else {
                given[k - 1]
            },),
            given[k],
        ),
        iters[k].done ==> given[k] is None && iters[k + 1] == iters[k],
    decreases k,
{
    assert(iters[k].next_gives(given[k], iters[k + 1]));
    if k > 0 {
        law_iteration_follows_the_function(iters, given, k - 1);
        assert(iters[k - 1].next_gives(given[k - 1], iters[k - 1 + 1]));
        if iters[k].done && !iters[k - 1].done {
            assert(given[k - 1] is None);
        }
    }
}

/// The `k`-th call gives the `k`-th node, if the function gives one there and before. From
/// the first node on that it does not give, no call gives any.
pub proof fn law_iteration_gives_the_nodes<N: Copy, T: Fn(Option<N>) -> Option<N>>(
    iters: Seq<NodeIterator<N, T>>,
    given: Seq<Option<N>>,
    next: spec_fn(Option<N>) -> Option<N>,
    k: int,
)
    requires
        iters.len() == given.len() + 1,
        iters[0].cur is None,
        !iters[0].done,
        forall|j: int| 0 <= j < given.len() ==> #[trigger] iters[j].next_gives(given[j], iters[j + 1]),
        forall|node: Option<N>, r: Option<N>| #[trigger]
            call_ensures(iters[0].fn_next, (node,), r) ==> r == next(node),
        0 <= k < given.len(),
    ensures
        all_nodes(next, k) ==> given[k] == node_at(next, k as nat),
        !all_nodes(next, k) ==> given[k] is None,
        iters[k].done <==> k > 0 && !all_nodes(next, k - 1),
    decreases k,
{
    law_iteration_follows_the_function(iters, given, k);
    if k > 0 {
        law_iteration_gives_the_nodes(iters, given, next, k - 1);
        law_iteration_follows_the_function(iters, given, k - 1);
        assert(iters[k - 1].next_gives(given[k - 1], iters[k - 1 + 1]));
        if all_nodes(next, k) {
            assert(all_nodes(next, k - 1));
            assert(node_at(next, (k - 1) as nat) is Some);
        }
        if all_nodes(next, k - 1) {
            assert(node_at(next, (k - 1) as nat) is Some);
            assert(given[k - 1] is Some);
            assert(!iters[k].done);
            assert(given[k] == next(given[k - 1]));
            assert(node_at(next, k as nat) == given[k]);
            assert(all_nodes(next, k) <==> given[k] is Some) by {
                if given[k] is Some {
                    assert forall|j: int| 0 <= j <= k implies #[trigger] node_at(
                        next,
                        j as nat,
                    ) is Some by {}
                } else {
                    assert(node_at(next, k as nat) is None);
                }
            }
        }
    } else {
        assert(node_at(next, 0) == next(None));
        assert(given[0] == next(None));
        if given[0] is Some {
            assert(all_nodes(next, 0));
        }
    }
}

/// Numbers of up to four bytes stand in a property with the most significant byte first, and
/// negative ones in two's complement; a value of any other length is refused.
pub proof fn law_small_numbers_are_read(v: Seq<u8>)
    ensures
        ({
            let n1 = v[0] as int;
            let n2 = v[0] * 0x100 + v[1];
            let n4 = v[0] * 0x100_0000 + v[1] * 0x1_0000 + v[2] * 0x100 + v[3];
            &&& v.len() == 1 ==> (<u8 as FromProperty>::meaning(v) matches Ok(x) && x == n1)
            &&& v.len() == 1 ==> (<i8 as FromProperty>::meaning(v) matches Ok(x) && (x as int)
                % 0x100 == n1)
            &&& v.len() == 2 ==> (<u16 as FromProperty>::meaning(v) matches Ok(x) && x == n2)
            &&& v.len() == 2 ==> (<i16 as FromProperty>::meaning(v) matches Ok(x) && (x as int)
                % 0x1_0000 == n2)
            &&& v.len() == 4 ==> (<u32 as FromProperty>::meaning(v) matches Ok(x) && x == n4)
            &&& v.len() == 4 ==> (<i32 as FromProperty>::meaning(v) matches Ok(x) && (x as int)
                % 0x1_0000_0000 == n4)
            &&& v.len() != 1 ==> <u8 as FromProperty>::meaning(v) == Err::<u8, Error>(
                Error::EINVAL,
            )
            &&& v.len() != 1 ==> <i8 as FromProperty>::meaning(v) == Err::<i8, Error>(
                Error::EINVAL,
            )
            &&& v.len() != 2 ==> <u16 as FromProperty>::meaning(v) == Err::<u16, Error>(
                Error::EINVAL,
            )
            &&& v.len() != 2 ==> <i16 as FromProperty>::meaning(v) == Err::<i16, Error>(
                Error::EINVAL,
            )
            &&& v.len() != 4 ==> <u32 as FromProperty>::meaning(v) == Err::<u32, Error>(
                Error::EINVAL,
            )
            &&& v.len() != 4 ==> <i32 as FromProperty>::meaning(v) == Err::<i32, Error>(
                Error::EINVAL,
            )
        }),
{
    lemma_ranges();
    lemma_big_endian_bound(v);
    if v.len() == 1 {
        lemma_bytes_1(v);
    } else if v.len() == 2 {
        lemma_bytes_2(v);
    } else if v.len() == 4 {
        lemma_bytes_4(v);
    }
}

proof fn lemma_bytes_1(v: Seq<u8>)
    requires
        v.len() == 1,
    ensures
        big_endian(v) == v[0],
{
    reveal_with_fuel(big_endian, 2);
}

proof fn lemma_bytes_2(v: Seq<u8>)
    requires
        v.len() == 2,
    ensures
        big_endian(v) == v[0] * 0x100 + v[1],
{
    lemma_bytes_1(v.drop_last());
}

proof fn lemma_bytes_4(v: Seq<u8>)
    requires
        v.len() == 4,
    ensures
        big_endian(v) == v[0] * 0x100_0000 + v[1] * 0x1_0000 + v[2] * 0x100 + v[3],
{
    lemma_bytes_2(v.drop_last().drop_last());
    assert(big_endian(v.drop_last()) == 0x100 * big_endian(v.drop_last().drop_last()) + v[2]);
}

/// Numbers of eight bytes are two of four, the more significant one first.
pub proof fn law_large_numbers_are_read(v: Seq<u8>)
    ensures
        v.len() == 8 ==> {
            let high = v[0] * 0x100_0000 + v[1] * 0x1_0000 + v[2] * 0x100 + v[3];
            let low = v[4] * 0x100_0000 + v[5] * 0x1_0000 + v[6] * 0x100 + v[7];
            &&& <u64 as FromProperty>::meaning(v) matches Ok(x) && x == high * 0x1_0000_0000 + low
            &&& <i64 as FromProperty>::meaning(v) matches Ok(x) && (x as int)
                % 0x1_0000_0000_0000_0000 == high * 0x1_0000_0000 + low
        },
        v.len() != 8 ==> <u64 as FromProperty>::meaning(v) == Err::<u64, Error>(Error::EINVAL),
        v.len() != 8 ==> <i64 as FromProperty>::meaning(v) == Err::<i64, Error>(Error::EINVAL),
{
    lemma_ranges();
    lemma_big_endian_bound(v);
    if v.len() == 8 {
        let a = v.drop_last();
        let b = a.drop_last();
        let c = b.drop_last();
        let d = c.drop_last();
        lemma_bytes_4(d);
        assert(big_endian(c) == 0x100 * big_endian(d) + v[4]);
        assert(big_endian(b) == 0x100 * big_endian(c) + v[5]);
        assert(big_endian(a) == 0x100 * big_endian(b) + v[6]);
        assert(big_endian(v) == 0x100 * big_endian(a) + v[7]);
    }
}

/// The property of a name is the first one that has it; there is none only if none has it.
pub proof fn law_first_property_of_a_name(properties: Seq<Property>, name: Seq<u8>)
    ensures
        find(properties, name) is None <==> (forall|i: int|
            0 <= i < properties.len() ==> (#[trigger] properties[i]).name@ != name),
        find(properties, name) matches Some(p) ==> p.name@ == name && exists|i: int|
            0 <= i < properties.len() && #[trigger] properties[i] == p && (forall|j: int|
                0 <= j < i ==> (#[trigger] properties[j]).name@ != name),
    decreases properties.len(),
{
    if properties.len() > 0 {
        if properties[0].name@ == name {
            assert(properties[0] == find(properties, name)->0);
        } else {
            let rest = properties.skip(1);
            law_first_property_of_a_name(rest, name);
            if find(properties, name) is None {
                assert forall|i: int| 0 <= i < properties.len() implies (
                #[trigger] properties[i]).name@ != name by {
                    if i > 0 {
                        assert(rest[i - 1] == properties[i]);
                    }
                }
            } else {
                let p = find(rest, name)->0;
                let i = choose|i: int|
                    0 <= i < rest.len() && #[trigger] rest[i] == p && (forall|j: int|
                        0 <= j < i ==> (#[trigger] rest[j]).name@ != name);
                assert(properties[i + 1] == p);
                assert forall|j: int| 0 <= j < i + 1 implies (#[trigger] properties[j]).name@
                    != name by {
                    if j > 0 {
                        assert(rest[j - 1] == properties[j]);
                    }
                }
            }
        }
    }
}

/// A property that has to be there is an error if it is not; one that need not be is none.
/// Either is read from the first property of its name.
pub proof fn law_properties_are_read<T: FromProperty>(
    node: Node,
    name: Vec<u8>,
    required: Result<T>,
    optional: Result<Option<T>>,
    i: int,
)
    requires
        call_ensures(Node::get_property::<T>, (&node, &name), required),
        call_ensures(Node::get_opt_property::<T>, (&node, &name), optional),
    ensures
        (forall|j: int|
            0 <= j < node.properties@.len() ==> (#[trigger] node.properties@[j]).name@ != name@)
            ==> required == Err::<T, Error>(Error::ENOENT) && optional == Ok::<
            Option<T>,
            Error,
        >(None),
        0 <= i < node.properties@.len() && node.properties@[i].name@ == name@ && (forall|j: int|
            0 <= j < i ==> (#[trigger] node.properties@[j]).name@ != name@) ==> {
            let meaning = T::meaning(node.properties@[i].value@);
            &&& required == meaning
            &&& meaning matches Ok(v) ==> optional == Ok::<Option<T>, Error>(Some(v))
            &&& meaning matches Err(e) ==> optional == Err::<Option<T>, Error>(e)
        },
{
    law_first_property_of_a_name(node.properties@, name@);
    if 0 <= i < node.properties@.len() && node.properties@[i].name@ == name@ && (forall|j: int|
        0 <= j < i ==> (#[trigger] node.properties@[j]).name@ != name@) {
        let p = find(node.properties@, name@)->0;
        let k = choose|k: int|
            0 <= k < node.properties@.len() && #[trigger] node.properties@[k] == p && (forall|
                j: int,
            |
                0 <= j < k ==> (#[trigger] node.properties@[j]).name@ != name@);
        if k < i {
            assert(node.properties@[k].name@ != name@);
        }
        if i < k {
            assert(node.properties@[i].name@ != name@);
        }
    }
}

/// A device id carries its string, ended by zeroes, and its data; nothing else is set.
pub proof fn law_raw_device_id(id: DeviceId, offset: isize, r: RawDeviceId, i: int)
    requires
        id.compatible().len() < 128,
        call_ensures(DeviceId::to_rawid, (&id, offset), r),
    ensures
        r.data == offset,
        0 <= i < id.compatible().len() ==> r.compatible@[i] == id.compatible()[i],
        id.compatible().len() <= i < 128 ==> r.compatible@[i] == 0,
        0 <= i < 32 ==> r.name@[i] == 0 && r.type_@[i] == 0,
{
    if 0 <= i < 128 {
        let b = r.compatible@[i];
    }
}

/// What a property or a node says of itself is what it holds, and an index is passed on if
/// it fits.
pub proof fn law_nodes_tell_what_they_hold(
    p: Property,
    len: usize,
    empty: bool,
    node: Node,
    phandle: PHandle,
    index: usize,
    passed: Option<i32>,
)
    requires
        call_ensures(Property::len, (&p,), len),
        call_ensures(Property::is_empty, (&p,), empty),
        call_ensures(Node::phandle, (&node,), phandle),
        call_ensures(Node::phandle_index, (index,), passed),
    ensures
        len == p.value@.len(),
        empty <==> len == 0,
        phandle == node.phandle,
        passed is Some <==> index <= 0x7fff_ffff,
        passed matches Some(i) ==> i == index,
{
}

/// A property is found by its name, the first of that name, and not found only if there is
/// none.
pub proof fn law_properties_are_found(node: Node, name: Vec<u8>, r: Option<&Property>, i: int)
    requires
        call_ensures(Node::find_property, (&node, &name), r),
        0 <= i < node.properties@.len(),
    ensures
        r matches Some(p) ==> p.name@ == name@,
        r is None ==> node.properties@[i].name@ != name@,
        node.properties@[i].name@ == name@ && (forall|j: int|
            0 <= j < i ==> (#[trigger] node.properties@[j]).name@ != name@) ==> r is Some && *r->0
            == node.properties@[i],
{
    law_first_property_of_a_name(node.properties@, name@);
    if r is Some && node.properties@[i].name@ == name@ && (forall|j: int|
        0 <= j < i ==> (#[trigger] node.properties@[j]).name@ != name@) {
        let p = find(node.properties@, name@)->0;
        let k = choose|k: int|
            0 <= k < node.properties@.len() && #[trigger] node.properties@[k] == p && (forall|
                j: int,
            |
                0 <= j < k ==> (#[trigger] node.properties@[j]).name@ != name@);
        if k < i {
            assert(node.properties@[k].name@ != name@);
        }
        if i < k {
            assert(node.properties@[i].name@ != name@);
        }
    }
}

/// The names and values of properties and nodes are their own.
pub proof fn law_names_and_values(
    p: Property,
    p_name: &Vec<u8>,
    p_value: &Vec<u8>,
    node: Node,
    n_name: &Vec<u8>,
    n_full: &Vec<u8>,
)
    requires
        call_ensures(Property::name, (&p,), p_name),
        call_ensures(Property::value, (&p,), p_value),
        call_ensures(Node::name, (&node,), n_name),
        call_ensures(Node::full_name, (&node,), n_full),
    ensures
        p_name@ == p.name@,
        p_value@ == p.value@,
        n_name@ == node.name@,
        n_full@ == node.full_name@,
{
}

/// An iteration starts before the first node; each step asks for the node after the last,
/// until there is none.
pub proof fn law_iteration_steps<N: Copy, T: Fn(Option<N>) -> Option<N>>(
    next: T,
    made: NodeIterator<N, T>,
    iter: &mut NodeIterator<N, T>,
    r: Option<N>,
)
    requires
        call_ensures(NodeIterator::<N, T>::new, (next,), made),
        call_ensures(NodeIterator::<N, T>::next, (iter,), r),
    ensures
        made.cur is None && !made.done && made.fn_next == next,
        old(iter).done ==> r is None && final(iter).done,
        !old(iter).done ==> call_ensures(old(iter).fn_next, (old(iter).cur,), r),
        !old(iter).done ==> final(iter).cur == r,
        final(iter).done <==> r is None,
        final(iter).fn_next == old(iter).fn_next,
{
}

} // verus!
