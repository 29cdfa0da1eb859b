//! Event stamps: 32-bit counters that the GPU advances when work completes.
use crate::slotalloc::{Guard, SlotAllocator, SlotItem, SlotToken, Slots};
use core::cmp::Ordering;
use vstd::prelude::*;
use vstd::std_specs::cmp::PartialOrdSpecImpl;

verus! {

/// The number of event slots.
pub const NUM_EVENTS: u32 = 128;

pub type Token = SlotToken;

pub type Event = Guard<EventInner>;

/// The value of a stamp. It counts in steps of 0x100 and wraps around.
#[derive(Eq, PartialEq, Copy, Clone, Debug, Structural)]
pub struct EventValue(pub u32);

/// `x` reduced to the range of a signed 32-bit number.
pub open spec fn wrap_i32(x: int) -> int {
    (x + 0x8000_0000) % 0x1_0000_0000 - 0x8000_0000
}

impl EventValue {
    /// How far `self` lies ahead of `other`, the shorter way around.
    pub open spec fn ahead(self, other: EventValue) -> int {
        wrap_i32(self.0 - other.0)
    }

    /// The value `n` steps later.
    pub open spec fn plus(self, n: int) -> EventValue {
        EventValue(((self.0 + 0x100 * n) % 0x1_0000_0000) as u32)
    }

    /// `self` comes before `other` or is it.
    pub open spec fn le(self, other: EventValue) -> bool {
        self.ahead(other) <= 0
    }

    pub fn stamp(&self) -> (r: u32)
        ensures
            r == self.0,
    {
        self.0
    }

    pub fn counter(&self) -> (r: u32)
        ensures
            r == self.0 / 0x100,
    {
        let x: u32 = self.0;
        assert(x >> 8 == x / 0x100) by (bit_vector);
        self.0 >> 8
    }

    pub fn next(&self) -> (r: EventValue)
        ensures
            r == self.plus(1),
    {
        EventValue(self.0.wrapping_add(0x100))
    }

    pub fn increment(&mut self)
        ensures
            *final(self) == old(self).plus(1),
    {
        self.0 = self.0.wrapping_add(0x100);
    }

    pub fn delta(&self, other: &EventValue) -> (r: i32)
        ensures
            r == self.ahead(*other),
    {
        let d: u32 = self.0.wrapping_sub(other.0);
        proof {
            assert((d as i32) as int == if d < 0x8000_0000 {
                d as int
            } else {
                d - 0x1_0000_0000
            }) by (bit_vector);
        }
        d as i32
    }

    /// The order of two values: whichever is less than half the range behind the
    /// other comes first.
    pub fn cmp(&self, other: &EventValue) -> (r: Ordering)
        ensures
            r == order_of(self.ahead(*other)),
    {
        let delta = self.delta(other);
        if delta < 0 {
            Ordering::Less
        } else if delta == 0 {
            Ordering::Equal
        } else {
            Ordering::Greater
        }
    }
}

/// The order that the sign of a difference stands for.
pub open spec fn order_of(delta: int) -> Ordering {
    if delta < 0 {
        Ordering::Less
    } else if delta == 0 {
        Ordering::Equal
    } else {
        Ordering::Greater
    }
}

impl PartialOrd for EventValue {
    fn partial_cmp(&self, other: &Self) -> (r: Option<Ordering>) {
        Some(self.cmp(other))
    }
}

impl PartialOrdSpecImpl for EventValue {
    open spec fn obeys_partial_cmp_spec() -> bool {
        true
    }

    open spec fn partial_cmp_spec(&self, other: &Self) -> Option<Ordering> {
        Some(order_of(self.ahead(*other)))
    }
}

/// The next value comes after this one, also across the wrap-around.
pub proof fn law_next_is_later(v: EventValue)
    ensures
        v.plus(1).ahead(v) == 0x100,
        v.ahead(v.plus(1)) == -0x100,
{
}

/// A value reached by fewer than 2^23 increments comes after the value it started from
/// and lies exactly that many steps ahead.
pub proof fn law_steps_are_ordered(v: EventValue, n: int)
    requires
        0 <= n < 0x80_0000,
    ensures
        v.plus(n).ahead(v) == 0x100 * n,
        v.le(v.plus(n)),
        n > 0 ==> !v.plus(n).le(v),
{
}

/// Increments add up.
pub proof fn law_steps_add_up(v: EventValue, m: int, n: int)
    ensures
        v.plus(m).plus(n) == v.plus(m + n),
        v.plus(0) == v,
{
}

/// Going back from a value that lies ahead of `cur` brings it nearer, step by step.
pub proof fn law_steps_back(last: EventValue, cur: EventValue, n: int)
    requires
        0 <= n < 0x40_0000,
        0 <= last.ahead(cur) < 0x4000_0000,
    ensures
        last.plus(-n).ahead(cur) == last.ahead(cur) - 0x100 * n,
{
}

/// Two different values are ordered one way only, unless they lie exactly half the
/// range apart.
pub proof fn law_order_is_antisymmetric(a: EventValue, b: EventValue)
    requires
        a.ahead(b) != -0x8000_0000,
    ensures
        a.ahead(b) == -b.ahead(a),
        a.le(b) && b.le(a) ==> a == b,
        a.le(b) || b.le(a),
{
}

/// Values that follow each other within half the range are ordered transitively.
pub proof fn law_order_is_transitive(a: EventValue, b: EventValue, c: EventValue)
    requires
        a.le(b),
        b.le(c),
        -0x8000_0000 < a.ahead(b) + b.ahead(c),
    ensures
        a.le(c),
        a.ahead(c) == a.ahead(b) + b.ahead(c),
{
}

/// An array in GPU memory: where it starts, and how many items of which size it has.
#[derive(Copy, Clone, Debug)]
pub struct GpuArray {
    pub base: u64,
    pub item_size: u64,
    pub count: u64,
}

impl GpuArray {
    /// The array ends within the address space.
    pub open spec fn wf(self) -> bool {
        self.base + self.item_size * self.count <= u64::MAX
    }

    pub open spec fn item(self, i: int) -> int {
        self.base + self.item_size * i
    }

    /// The address of item `i`.
    pub fn weak_item_pointer(&self, i: u64) -> (r: u64)
        requires
            self.wf(),
            i < self.count,
        ensures
            r == self.item(i as int),
    {
        assert(self.item_size * i <= self.item_size * self.count) by (nonlinear_arith)
            requires
                i < self.count,
        ;
        self.base + self.item_size * i
    }
}

/// An event slot: where its stamps lie, and the queue that owns it.
#[derive(Copy, Clone, Debug)]
pub struct EventInner {
    pub gpu_stamp: u64,
    pub gpu_fw_stamp: u64,
    /// The id of the work queue that owns the event.
    pub owner: Option<u64>,
}

impl EventInner {
    pub fn stamp_pointer(&self) -> (r: u64)
        ensures
            r == self.gpu_stamp,
    {
        self.gpu_stamp
    }

    pub fn fw_stamp_pointer(&self) -> (r: u64)
        ensures
            r == self.gpu_fw_stamp,
    {
        self.gpu_fw_stamp
    }
}

impl SlotItem for EventInner {
    type Owner = EventManagerInner;

    /// An event that is given up has no owner.
    fn release(&mut self)
        ensures
            *final(self) == (EventInner { owner: None, ..*old(self) }),
    {
        self.owner = None;
    }
}

/// The stamp arrays, one item per event slot.
#[derive(Copy, Clone, Debug)]
pub struct EventManagerInner {
    pub stamps: GpuArray,
    pub fw_stamps: GpuArray,
}

impl EventManagerInner {
    pub open spec fn wf(self) -> bool {
        &&& self.stamps.wf()
        &&& self.fw_stamps.wf()
        &&& self.stamps.count == NUM_EVENTS
        &&& self.fw_stamps.count == NUM_EVENTS
    }

    /// The event of slot `i`, unowned.
    pub open spec fn event(self, i: int) -> EventInner {
        EventInner {
            gpu_stamp: self.stamps.item(i) as u64,
            gpu_fw_stamp: self.fw_stamps.item(i) as u64,
            owner: None,
        }
    }
}

/// Hands the event slots out to work queues.
pub struct EventManager(SlotAllocator<EventInner>);

impl View for EventManager {
    type V = Slots<EventInner>;

    closed spec fn view(&self) -> Slots<EventInner> {
        self.0@
    }
}

impl EventManager {
    pub fn new(inner: EventManagerInner) -> (r: EventManager)
        requires
            inner.wf(),
        ensures
            r@.fresh(),
            r@.slots.len() == NUM_EVENTS,
            forall|i: u32|
                i < NUM_EVENTS ==> (#[trigger] r@.slots[i as int])->0.item == inner.event(i as int),
    {
        let constructor = |inner: &EventManagerInner, slot: u32| -> (r: EventInner)
            requires
                inner.wf(),
                slot < NUM_EVENTS,
            ensures
                r == inner.event(slot as int),
            {
                EventInner {
                    gpu_stamp: inner.stamps.weak_item_pointer(slot as u64),
                    gpu_fw_stamp: inner.fw_stamps.weak_item_pointer(slot as u64),
                    owner: None,
                }
            };
        EventManager(SlotAllocator::new(NUM_EVENTS, inner, constructor))
    }

    /// One attempt to get an event, preferably the one of `token`. `None` means that
    /// all are in use.
    pub fn get(&mut self, token: Option<Token>) -> (r: Option<Event>)
        requires
            old(self)@.wf(),
            old(self)@.can_get(token),
            token is Some ==> token->0.slot < old(self)@.slots.len(),
        ensures
            final(self)@.wf(),
            old(self)@.get_gives(token, r, final(self)@),
    {
        self.0.get(token)
    }

    /// Gives an event back; see `SlotAllocator::put`.
    pub fn put(&mut self, event: Event) -> (r: bool)
        requires
            old(self)@.wf(),
            old(self)@.issued(event.token),
            old(self)@.can_put(event.token),
        ensures
            final(self)@.wf(),
            r == !old(self)@.idle(event.token.slot as int),
            final(self)@ == if r {
                old(self)@.returned(event.token, event.item)
            } else {
                old(self)@
            },
    {
        self.0.put(event)
    }
}

/// Stamps go up by 0x100 and start again from the beginning; what is above the lowest eight
/// bits counts them. How far one lies ahead of another is counted the shorter way around.
pub proof fn law_stamps(
    v: EventValue,
    other: EventValue,
    stamp: u32,
    counter: u32,
    next: EventValue,
    moved: &mut EventValue,
    delta: i32,
)
    requires
        call_ensures(EventValue::stamp, (&v,), stamp),
        call_ensures(EventValue::counter, (&v,), counter),
        call_ensures(EventValue::next, (&v,), next),
        call_ensures(EventValue::increment, (moved,), ()),
        call_ensures(EventValue::delta, (&v, &other), delta),
    ensures
        stamp == v.0,
        0x100 * counter <= v.0 < 0x100 * counter + 0x100,
        next.0 == v.0 + 0x100 || next.0 + 0x1_0000_0000 == v.0 + 0x100,
        final(moved).0 == old(moved).0 + 0x100 || final(moved).0 + 0x1_0000_0000 == old(moved).0
            + 0x100,
        (other.0 + delta - v.0) % 0x1_0000_0000 == 0,
{
}

/// A value comes before another if it lies less than half the range behind it, or half of it
/// exactly.
pub proof fn law_order_of_values(a: EventValue, b: EventValue, r: Ordering)
    requires
        call_ensures(EventValue::cmp, (&a, &b), r),
    ensures
        r == Ordering::Equal <==> a.0 == b.0,
        r == Ordering::Less <==> (a.0 - b.0) % 0x1_0000_0000 >= 0x8000_0000,
        r == Ordering::Greater <==> 0 < (a.0 - b.0) % 0x1_0000_0000 < 0x8000_0000,
        r == Ordering::Less || r == Ordering::Equal <==> a.le(b),
{
}

/// The items of an array follow each other from its start; an event finds both of its
/// stamps under its own number.
pub proof fn law_stamps_of_an_event(
    array: GpuArray,
    i: u64,
    at: u64,
    inner: EventManagerInner,
    mgr: EventManager,
    slot: u32,
)
    requires
        array.wf(),
        i < array.count,
        inner.wf(),
        slot < 128,
        call_ensures(GpuArray::weak_item_pointer, (&array, i), at),
        call_ensures(EventManager::new, (inner,), mgr),
    ensures
        at - array.base == array.item_size * i,
        mgr@.slots.len() == 128,
        mgr@.slots[slot as int] is Some,
        mgr@.slots[slot as int]->0.item.gpu_stamp == inner.stamps.base + inner.stamps.item_size
            * slot,
        mgr@.slots[slot as int]->0.item.gpu_fw_stamp == inner.fw_stamps.base
            + inner.fw_stamps.item_size * slot,
        mgr@.slots[slot as int]->0.item.owner is None,
{
    assert(inner.stamps.item_size * slot <= inner.stamps.item_size * inner.stamps.count)
        by (nonlinear_arith)
        requires
            slot <= inner.stamps.count,
    ;
    assert(inner.fw_stamps.item_size * slot <= inner.fw_stamps.item_size * inner.fw_stamps.count)
        by (nonlinear_arith)
        requires
            slot <= inner.fw_stamps.count,
    ;
    assert(inner.stamps.item_size * slot >= 0) by (nonlinear_arith);
    assert(inner.fw_stamps.item_size * slot >= 0) by (nonlinear_arith);
    assert(mgr@.idle(slot as int));
}

/// An event names its two stamps, and loses only its owner when it is given up.
pub proof fn law_events_name_their_stamps(
    event: EventInner,
    stamp: u64,
    fw_stamp: u64,
    released: &mut EventInner,
)
    requires
        call_ensures(EventInner::stamp_pointer, (&event,), stamp),
        call_ensures(EventInner::fw_stamp_pointer, (&event,), fw_stamp),
        call_ensures(EventInner::release, (released,), ()),
    ensures
        stamp == event.gpu_stamp,
        fw_stamp == event.gpu_fw_stamp,
        final(released).owner is None,
        final(released).gpu_stamp == old(released).gpu_stamp,
        final(released).gpu_fw_stamp == old(released).gpu_fw_stamp,
{
}

/// Events are handed out and taken back like the slots that they are in.
pub proof fn law_events_are_slots(
    a: &mut EventManager,
    token: Option<Token>,
    got: Option<Event>,
    b: &mut EventManager,
    event: Event,
    put: bool,
)
    requires
        old(a)@.wf(),
        old(b)@.wf(),
        call_ensures(EventManager::get, (a, token), got),
        call_ensures(EventManager::put, (b, event), put),
    ensures
        got is None ==> final(a)@ == old(a)@ && forall|i: int| !#[trigger] old(a)@.idle(i),
        got matches Some(e) ==> {
            &&& old(a)@.idle(e.token.slot as int)
            &&& !final(a)@.idle(e.token.slot as int)
            &&& e.item == old(a)@.slots[e.token.slot as int]->0.item
            &&& !e.changed ==> token == Some(e.token)
        },
        put <==> !old(b)@.idle(event.token.slot as int),
        put && event.token.slot < old(b)@.slots.len() ==> final(b)@.idle(event.token.slot as int)
            && final(b)@.slots[event.token.slot as int]->0.item == event.item,
        !put ==> final(b)@ == old(b)@,
{
}

} // verus!
