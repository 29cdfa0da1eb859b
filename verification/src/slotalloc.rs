//! Generic slot allocator.
//!
//! A fixed number of slots, each holding an item, is shared between more users
//! than there are slots. A user that comes back with the token of its last slot
//! gets the same slot again, unchanged, as long as nobody else had it in between.
//! Otherwise it gets the slot that has been idle the longest.
use crate::error::{Error, Result};
use vstd::prelude::*;

verus! {

/// What a slot holds.
pub trait SlotItem {
    /// State shared by all the items of one allocator.
    type Owner;

    /// Called by users that give an item up for good.
    fn release(&mut self) {
    }
}

/// Remembers which slot a user had, and when it got it.
#[derive(Copy, Clone, Debug)]
pub struct SlotToken {
    /// The allocator's count of hand-outs when the slot was handed out.
    pub time: u64,
    /// The slot that was handed out.
    pub slot: u32,
}

impl SlotToken {
    pub fn last_slot(&self) -> (r: u32)
        ensures
            r == self.slot,
    {
        self.slot
    }
}

/// A slot that is in use, with the item it holds.
pub struct Guard<T> {
    pub item: T,
    /// Whether another user may have had the slot since this user last did.
    pub changed: bool,
    pub token: SlotToken,
}

impl<T> Guard<T> {
    pub fn slot(&self) -> (r: u32)
        ensures
            r == self.token.slot,
    {
        self.token.slot
    }

    pub fn changed(&self) -> (r: bool)
        ensures
            r == self.changed,
    {
        self.changed
    }

    pub fn token(&self) -> (r: SlotToken)
        ensures
            r == self.token,
    {
        self.token
    }
}

/// An idle slot: its item, when it was last handed out, and when it came back.
pub struct Entry<T> {
    pub item: T,
    pub get_time: u64,
    pub drop_time: u64,
}

/// The slots of an allocator, an idle one as `Some`, and its two counters.
#[verifier::ext_equal]
pub struct Slots<T> {
    pub slots: Seq<Option<Entry<T>>>,
    pub get_count: u64,
    pub drop_count: u64,
}

impl<T> Slots<T> {
    /// No recorded time lies ahead of its counter.
    pub open spec fn wf(self) -> bool {
        &&& self.slots.len() <= u32::MAX
        &&& self.drop_count < u64::MAX
        &&& forall|i: int|
            #![trigger self.slots[i]]
            0 <= i < self.slots.len() && self.slots[i] is Some ==> {
                &&& self.slots[i]->0.get_time <= self.get_count
                &&& self.slots[i]->0.drop_time <= self.drop_count
            }
    }

    pub open spec fn idle(self, i: int) -> bool {
        0 <= i < self.slots.len() && self.slots[i] is Some
    }

    /// The token names a slot of this allocator and a hand-out that has happened.
    pub open spec fn issued(self, token: SlotToken) -> bool {
        &&& token.slot < self.slots.len()
        &&& 1 <= token.time <= self.get_count
    }

    /// The token's slot is idle and nobody had it since the token was issued.
    pub open spec fn matches(self, token: SlotToken) -> bool {
        &&& self.idle(token.slot as int)
        &&& self.slots[token.slot as int]->0.get_time == token.time
    }

    /// `i` is idle and came back before every other idle slot; of slots that came
    /// back at the same time it is the first.
    pub open spec fn oldest(self, i: int) -> bool {
        &&& self.idle(i)
        &&& forall|j: int| #[trigger]
            self.idle(j) ==> {
                ||| self.slots[i]->0.drop_time < self.slots[j]->0.drop_time
                ||| self.slots[i]->0.drop_time == self.slots[j]->0.drop_time && i <= j
            }
    }

    /// The state after slot `i` has been handed out again to the holder of its token.
    pub open spec fn reused(self, i: int) -> Slots<T> {
        Slots { slots: self.slots.update(i, None), ..self }
    }

    /// The state after slot `i` has been handed out afresh.
    pub open spec fn claimed(self, i: int) -> Slots<T> {
        Slots {
            slots: self.slots.update(i, None),
            get_count: (self.get_count + 1) as u64,
            ..self
        }
    }

    /// The state after `item` came back into the slot of `token`.
    pub open spec fn returned(self, token: SlotToken, item: T) -> Slots<T> {
        let time = (self.drop_count + 1) as u64;
        Slots {
            slots: self.slots.update(
                token.slot as int,
                Some(Entry { item, get_time: token.time, drop_time: time }),
            ),
            drop_count: time,
            ..self
        }
    }

    /// The count of hand-outs leaves room for an attempt. It goes up only if an idle slot
    /// is handed out afresh.
    pub open spec fn can_get(self, token: Option<SlotToken>) -> bool {
        ||| self.get_count < u64::MAX
        ||| token is Some && self.matches(token->0)
        ||| forall|i: int| !#[trigger] self.idle(i)
    }

    /// The count of returns leaves room for one. It goes up only if the slot is in use.
    pub open spec fn can_put(self, token: SlotToken) -> bool {
        !self.idle(token.slot as int) ==> self.drop_count < u64::MAX - 1
    }

    /// What one attempt to get a slot gives: `guard` and the state `after`.
    pub open spec fn get_gives(
        self,
        token: Option<SlotToken>,
        guard: Option<Guard<T>>,
        after: Slots<T>,
    ) -> bool {
        if token is Some && self.matches(token->0) {
            &&& guard is Some
            &&& guard->0.token == token->0
            &&& !guard->0.changed
            &&& guard->0.item == self.slots[token->0.slot as int]->0.item
            &&& after == self.reused(token->0.slot as int)
        } else if exists|i: int| self.idle(i) {
            &&& guard is Some
            &&& self.oldest(guard->0.token.slot as int)
            &&& guard->0.token.time == self.get_count + 1
            &&& guard->0.changed
            &&& guard->0.item == self.slots[guard->0.token.slot as int]->0.item
            &&& after == self.claimed(guard->0.token.slot as int)
        } else {
            &&& guard is None
            &&& after == self
        }
    }
}

impl<T> Slots<T> {
    /// All slots are idle, and nobody has had one.
    pub open spec fn fresh(self) -> bool {
        &&& self.wf()
        &&& self.get_count == 0
        &&& self.drop_count == 0
        &&& forall|i: int|
            0 <= i < self.slots.len() ==> {
                &&& #[trigger] self.idle(i)
                &&& self.slots[i]->0.get_time == 0
                &&& self.slots[i]->0.drop_time == 0
            }
    }

    /// The guard is for the slot that an attempt gets, whatever has become of its item.
    pub open spec fn hands_out(
        self,
        token: Option<SlotToken>,
        guard: Guard<T>,
        after: Slots<T>,
    ) -> bool {
        exists|item: T|
            #[trigger] self.get_gives(
                token,
                Some(Guard { item, changed: guard.changed, token: guard.token }),
                after,
            )
    }
}

pub struct SlotAllocator<T: SlotItem> {
    owner: T::Owner,
    slots: Vec<Option<Entry<T>>>,
    get_count: u64,
    drop_count: u64,
}

impl<T: SlotItem> View for SlotAllocator<T> {
    type V = Slots<T>;

    closed spec fn view(&self) -> Slots<T> {
        Slots { slots: self.slots@, get_count: self.get_count, drop_count: self.drop_count }
    }
}

impl<T: SlotItem> SlotAllocator<T> {
    pub closed spec fn spec_owner(&self) -> T::Owner {
        self.owner
    }

    /// An allocator of `num_slots` idle slots; `constructor` makes their items.
    pub fn new<F: Fn(&T::Owner, u32) -> T>(
        num_slots: u32,
        owner: T::Owner,
        constructor: F,
    ) -> (r: SlotAllocator<T>)
        requires
            forall|i: u32| i < num_slots ==> #[trigger] call_requires(constructor, (&owner, i)),
        ensures
            r@.fresh(),
            r.spec_owner() == owner,
            r@.slots.len() == num_slots,
            forall|i: u32|
                i < num_slots ==> {
                    &&& #[trigger] r@.slots[i as int] is Some
                    &&& r@.slots[i as int]->0.get_time == 0
                    &&& r@.slots[i as int]->0.drop_time == 0
                    &&& call_ensures(constructor, (&owner, i), r@.slots[i as int]->0.item)
                },
    {
        let mut slots: Vec<Option<Entry<T>>> = Vec::new();
        let mut i: u32 = 0;
        while i < num_slots
            invariant
                i <= num_slots,
                slots@.len() == i,
                forall|i: u32| i < num_slots ==> #[trigger] call_requires(constructor, (&owner, i)),
                forall|k: u32|
                    k < i ==> {
                        &&& #[trigger] slots@[k as int] is Some
                        &&& slots@[k as int]->0.get_time == 0
                        &&& slots@[k as int]->0.drop_time == 0
                        &&& call_ensures(constructor, (&owner, k), slots@[k as int]->0.item)
                    },
            decreases num_slots - i,
        {
            let item = constructor(&owner, i);
            slots.push(Some(Entry { item, get_time: 0, drop_time: 0 }));
            i = i + 1;
        }
        proof {
            assert forall|k: int| 0 <= k < slots@.len() implies #[trigger] slots@[k] is Some
                && slots@[k]->0.get_time == 0 && slots@[k]->0.drop_time == 0 by {
                assert(slots@[(k as u32) as int] is Some);
            }
        }
        SlotAllocator { owner, slots, get_count: 0, drop_count: 0 }
    }

    /// Runs `cb` on the state shared by the items.
    pub fn with_inner<R, F: FnOnce(&mut T::Owner) -> R>(&mut self, cb: F) -> (r: R)
        requires
            forall|o: &mut T::Owner| *o == old(self).spec_owner() ==> call_requires(cb, (o,)),
        ensures
            final(self)@ == old(self)@,
            exists|o: &mut T::Owner|
                *o == old(self).spec_owner() && *final(o) == final(self).spec_owner()
                    && call_ensures(cb, (o,), r),
    {
        cb(&mut self.owner)
    }

    /// One attempt to get a slot. `None` means that every slot is in use: the user
    /// waits until one comes back and tries again.
    pub fn get(&mut self, token: Option<SlotToken>) -> (r: Option<Guard<T>>)
        requires
            old(self)@.wf(),
            old(self)@.can_get(token),
            token is Some ==> token->0.slot < old(self)@.slots.len(),
        ensures
            final(self)@.wf(),
            old(self)@.get_gives(token, r, final(self)@),
            final(self).spec_owner() == old(self).spec_owner(),
    {
        if let Some(token) = token {
            let i: usize = token.slot as usize;
            let current = match &self.slots[i] {
                Some(entry) => entry.get_time == token.time,
                None => false,
            };
            if current {
                let entry = self.slots[i].take().unwrap();
                assert(self@.slots =~= old(self)@.slots.update(i as int, None));
                return Some(Guard { item: entry.item, changed: false, token });
            }
        }
        let mut oldest_time: u64 = u64::MAX;
        let mut oldest_slot: usize = 0;
        let mut i: usize = 0;
        while i < self.slots.len()
            invariant
                i <= self.slots@.len(),
                self@ == old(self)@,
                self@.wf(),
                self.spec_owner() == old(self).spec_owner(),
                oldest_time == u64::MAX ==> forall|j: int| 0 <= j < i ==> !#[trigger] self@.idle(j),
                oldest_time != u64::MAX ==> {
                    &&& oldest_slot < i
                    &&& self@.idle(oldest_slot as int)
                    &&& oldest_time == self@.slots[oldest_slot as int]->0.drop_time
                    &&& forall|j: int|
                        0 <= j < i && #[trigger] self@.idle(j) ==> {
                            ||| oldest_time < self@.slots[j]->0.drop_time
                            ||| oldest_time == self@.slots[j]->0.drop_time && oldest_slot <= j
                        }
                },
            decreases self.slots@.len() - i,
        {
            if let Some(entry) = &self.slots[i] {
                assert(self@.slots[i as int] is Some);
                if entry.drop_time < oldest_time {
                    oldest_slot = i;
                    oldest_time = entry.drop_time;
                }
            }
            i = i + 1;
        }
        if oldest_time == u64::MAX {
            return None;
        }
        assert(self@.oldest(oldest_slot as int));
        assert(self@.idle(oldest_slot as int));
        let entry = self.slots[oldest_slot].take().unwrap();
        self.get_count = self.get_count + 1;
        let token = SlotToken { time: self.get_count, slot: oldest_slot as u32 };
        assert(self@ =~= old(self)@.claimed(oldest_slot as int));
        Some(Guard { item: entry.item, changed: true, token })
    }

    /// `get`, and runs `cb` on the state shared by the items and on the guard before
    /// handing the guard out. `cb` does not fail. It may change the item, but not which
    /// slot the guard is for.
    pub fn get_inner<F: FnOnce(&mut T::Owner, &mut Guard<T>) -> Result<()>>(
        &mut self,
        token: Option<SlotToken>,
        cb: F,
    ) -> (r: Option<Guard<T>>)
        requires
            old(self)@.wf(),
            old(self)@.can_get(token),
            token is Some ==> token->0.slot < old(self)@.slots.len(),
            forall|o: &mut T::Owner, g: &mut Guard<T>|
                *o == old(self).spec_owner() ==> #[trigger] call_requires(cb, (o, g)),
            forall|o: &mut T::Owner, g: &mut Guard<T>, result: Result<()>| #[trigger]
                call_ensures(cb, (o, g), result) ==> {
                    &&& result is Ok
                    &&& final(g).token == g.token
                    &&& final(g).changed == g.changed
                },
        ensures
            final(self)@.wf(),
            r is None ==> old(self)@.get_gives(token, None, final(self)@),
            r is None ==> final(self).spec_owner() == old(self).spec_owner(),
            r is Some ==> old(self)@.hands_out(token, r->0, final(self)@),
            r is Some ==> exists|o: &mut T::Owner, g: &mut Guard<T>|
                #![trigger call_ensures(cb, (o, g), Ok(()))]
                {
                    &&& old(self)@.get_gives(token, Some(*g), final(self)@)
                    &&& *o == old(self).spec_owner()
                    &&& *final(o) == final(self).spec_owner()
                    &&& r == Some(*final(g))
                    &&& r->0.token == g.token
                    &&& r->0.changed == g.changed
                    &&& call_ensures(cb, (o, g), Ok(()))
                },
    {
        let mut guard = match self.get(token) {
            None => {
                return None;
            },
            Some(guard) => guard,
        };
        let ghost got = guard;
        let result = cb(&mut self.owner, &mut guard);
        assert(result is Ok);
        assert(result->Ok_0 == ());
        assert(old(self)@.hands_out(token, guard, self@)) by {
            assert(old(self)@.get_gives(
                token,
                Some(Guard { item: got.item, changed: guard.changed, token: guard.token }),
                self@,
            ));
        }
        Some(guard)
    }

    /// Gives a slot back. `true` means that a waiting user can try again; `false`
    /// that the slot was not in use, in which case nothing changes and the item is
    /// dropped.
    pub fn put(&mut self, guard: Guard<T>) -> (r: bool)
        requires
            old(self)@.wf(),
            old(self)@.issued(guard.token),
            old(self)@.can_put(guard.token),
        ensures
            final(self)@.wf(),
            r == !old(self)@.idle(guard.token.slot as int),
            final(self)@ == if r {
                old(self)@.returned(guard.token, guard.item)
            } else {
                old(self)@
            },
            final(self).spec_owner() == old(self).spec_owner(),
    {
        let i: usize = guard.token.slot as usize;
        if self.slots[i].is_some() {
            false
        } else {
            self.drop_count = self.drop_count + 1;
            let entry = Entry {
                item: guard.item,
                get_time: guard.token.time,
                drop_time: self.drop_count,
            };
            self.slots[i] = Some(entry);
            assert(self@ =~= old(self)@.returned(guard.token, guard.item));
            true
        }
    }
}

/// What a wait for a slot comes to: a signal to the waiting process ends it, and otherwise
/// the user tries again.
pub fn after_wait(interrupted: bool) -> (r: Result<()>)
    ensures
        r == if interrupted {
            Err(Error::ERESTARTSYS)
        } else {
            Ok(())
        },
{
    if interrupted {
        Err(Error::ERESTARTSYS)
    } else {
        Ok(())
    }
}

/// The slots of an allocator together with what their users hold: for each slot in
/// use, the time on its holder's token.
#[verifier::ext_equal]
pub struct Ledger<T> {
    pub slots: Slots<T>,
    pub held: Map<int, u64>,
}

impl<T> Ledger<T> {
    /// When slot `i` was last handed out; 0 if it never was.
    pub open spec fn time(self, i: int) -> u64 {
        if self.slots.idle(i) {
            self.slots.slots[i]->0.get_time
        } else {
            self.held[i]
        }
    }

    /// A slot is held exactly if it is not idle, and no two slots were last handed
    /// out at the same time.
    pub open spec fn wf(self) -> bool {
        &&& self.slots.wf()
        &&& forall|i: int|
            #![trigger self.held.contains_key(i)]
            #![trigger self.slots.idle(i)]
            self.held.contains_key(i) <==> (0 <= i < self.slots.slots.len() && !self.slots.idle(i))
        &&& forall|i: int| #[trigger]
            self.held.contains_key(i) ==> 1 <= self.held[i] <= self.slots.get_count
        &&& forall|i: int, j: int|
            0 <= i < j < self.slots.slots.len() && #[trigger] self.time(i) == #[trigger] self.time(
                j,
            ) ==> self.time(i) == 0
    }

    /// The token's holder no longer has a claim: the slot was handed out later than
    /// the token says.
    pub open spec fn lost(self, token: SlotToken) -> bool {
        &&& token.slot < self.slots.slots.len()
        &&& token.time < self.time(token.slot as int)
    }

    pub open spec fn after_get(self, guard: Guard<T>, after: Slots<T>) -> Ledger<T> {
        Ledger { slots: after, held: self.held.insert(guard.token.slot as int, guard.token.time) }
    }

    pub open spec fn after_put(self, token: SlotToken, item: T) -> Ledger<T> {
        Ledger {
            slots: self.slots.returned(token, item),
            held: self.held.remove(token.slot as int),
        }
    }
}

/// A slot is never handed out while somebody holds it, and the tokens of the holders
/// stay distinct.
pub proof fn law_get_is_exclusive<T>(
    ledger: Ledger<T>,
    token: Option<SlotToken>,
    guard: Guard<T>,
    after: Slots<T>,
)
    requires
        ledger.wf(),
        ledger.slots.can_get(token),
        token is Some ==> ledger.slots.issued(token->0),
        ledger.slots.get_gives(token, Some(guard), after),
    ensures
        !ledger.held.contains_key(guard.token.slot as int),
        ledger.after_get(guard, after).wf(),
{
    let next = ledger.after_get(guard, after);
    let s = guard.token.slot as int;
    assert(ledger.slots.idle(s));
    assert forall|i: int| 0 <= i < next.slots.slots.len() && i != s implies #[trigger] next.time(i)
        == ledger.time(i) by {
        assert(next.slots.slots[i] == ledger.slots.slots[i]);
        assert(next.slots.idle(i) == ledger.slots.idle(i));
    }
    assert(!next.slots.idle(s));
    assert(next.time(s) == guard.token.time);
    assert forall|i: int|
        #![trigger next.held.contains_key(i)]
        #![trigger next.slots.idle(i)]
        next.held.contains_key(i) <==> (0 <= i < next.slots.slots.len() && !next.slots.idle(i)) by {
        if i != s {
            assert(ledger.slots.idle(i) == next.slots.idle(i));
            assert(ledger.held.contains_key(i) == next.held.contains_key(i));
        }
    }
    assert forall|i: int, j: int|
        0 <= i < j < next.slots.slots.len() && #[trigger] next.time(i) == #[trigger] next.time(
            j,
        ) implies next.time(i) == 0 by {
        if guard.changed {
            assert(ledger.time(i) <= ledger.slots.get_count) by {
                assert(ledger.slots.idle(i) || ledger.held.contains_key(i));
            }
            assert(ledger.time(j) <= ledger.slots.get_count) by {
                assert(ledger.slots.idle(j) || ledger.held.contains_key(j));
            }
        }
        assert(ledger.time(i) == ledger.time(j) ==> ledger.time(i) == 0);
    }
    assert forall|i: int| #[trigger] next.held.contains_key(i) implies 1 <= next.held[i]
        <= next.slots.get_count by {
        if i != s {
            assert(ledger.held.contains_key(i));
        }
    }
}

/// A holder that gives its slot back leaves the others as they were.
pub proof fn law_put_ends_the_hold<T>(ledger: Ledger<T>, token: SlotToken, item: T)
    requires
        ledger.wf(),
        ledger.slots.drop_count < u64::MAX - 1,
        ledger.held.contains_key(token.slot as int),
        ledger.held[token.slot as int] == token.time,
    ensures
        ledger.after_put(token, item).wf(),
        ledger.after_put(token, item).slots.idle(token.slot as int),
        forall|i: int| i != token.slot ==> ledger.after_put(token, item).slots.idle(i)
            == ledger.slots.idle(i),
{
    let next = ledger.after_put(token, item);
    let s = token.slot as int;
    assert forall|i: int| 0 <= i < next.slots.slots.len() implies #[trigger] next.time(i)
        == ledger.time(i) by {
        if i != s {
            assert(next.slots.slots[i] == ledger.slots.slots[i]);
            assert(next.slots.idle(i) == ledger.slots.idle(i));
        } else {
            assert(next.slots.idle(s));
            assert(!ledger.slots.idle(s));
        }
    }
    assert forall|i: int| #![trigger next.slots.slots[i]]
        0 <= i < next.slots.slots.len() && next.slots.slots[i] is Some implies {
            &&& next.slots.slots[i]->0.get_time <= next.slots.get_count
            &&& next.slots.slots[i]->0.drop_time <= next.slots.drop_count
        } by {
        if i != s {
            assert(next.slots.slots[i] == ledger.slots.slots[i]);
        }
    }
    assert forall|i: int|
        #![trigger next.held.contains_key(i)]
        #![trigger next.slots.idle(i)]
        next.held.contains_key(i) <==> (0 <= i < next.slots.slots.len() && !next.slots.idle(i)) by {
        if i != s {
            assert(ledger.slots.idle(i) == next.slots.idle(i));
            assert(ledger.held.contains_key(i) == next.held.contains_key(i));
        }
    }
    assert forall|i: int, j: int|
        0 <= i < j < next.slots.slots.len() && #[trigger] next.time(i) == #[trigger] next.time(
            j,
        ) implies next.time(i) == 0 by {
        assert(ledger.time(i) == ledger.time(j));
    }
}

/// A user that gives its slot back and asks for it again, before anybody else had it,
/// gets the same slot with the item it left there, reported as unchanged.
pub proof fn law_idle_slot_is_kept_for_its_last_user<T>(
    ledger: Ledger<T>,
    token: SlotToken,
    item: T,
    guard: Option<Guard<T>>,
    after: Slots<T>,
)
    requires
        ledger.wf(),
        ledger.held.contains_key(token.slot as int),
        ledger.held[token.slot as int] == token.time,
        ledger.after_put(token, item).slots.get_gives(Some(token), guard, after),
    ensures
        guard == Some(Guard { item, changed: false, token }),
{
    assert(!ledger.slots.idle(token.slot as int));
    assert(ledger.after_put(token, item).slots.matches(token));
}

/// A slot that is handed out afresh is lost to everybody who had it before.
pub proof fn law_fresh_hand_out_ends_old_claims<T>(
    ledger: Ledger<T>,
    asked: Option<SlotToken>,
    guard: Guard<T>,
    after: Slots<T>,
    token: SlotToken,
)
    requires
        ledger.wf(),
        ledger.slots.can_get(asked),
        ledger.slots.get_gives(asked, Some(guard), after),
        guard.changed,
        ledger.slots.issued(token),
        token.slot == guard.token.slot,
    ensures
        ledger.after_get(guard, after).lost(token),
{
    assert(!ledger.after_get(guard, after).slots.idle(token.slot as int));
}

/// A lost slot stays lost: its former user never gets it back as unchanged, whatever
/// is handed out or given back meanwhile.
pub proof fn law_lost_slot_stays_lost<T>(ledger: Ledger<T>, token: SlotToken)
    requires
        ledger.wf(),
        ledger.lost(token),
    ensures
        !ledger.slots.matches(token),
        forall|asked: Option<SlotToken>, guard: Guard<T>, after: Slots<T>|
            (asked is Some ==> asked->0.time <= ledger.slots.get_count) && ledger.slots.can_get(asked)
                && #[trigger] ledger.slots.get_gives(asked, Some(guard), after) ==> ledger.after_get(guard, after).lost(token),
        forall|returned: SlotToken, item: T|
            ledger.held.contains_key(returned.slot as int) && ledger.held[returned.slot as int]
                == returned.time ==> #[trigger] ledger.after_put(returned, item).lost(token),
{
    let s = token.slot as int;
    assert forall|asked: Option<SlotToken>, guard: Guard<T>, after: Slots<T>|
        (asked is Some ==> asked->0.time <= ledger.slots.get_count) && ledger.slots.can_get(asked)
            && #[trigger] ledger.slots.get_gives(
            asked,
            Some(guard),
            after,
        ) implies ledger.after_get(guard, after).lost(token) by {
        let next = ledger.after_get(guard, after);
        if guard.token.slot == s {
            assert(!next.slots.idle(s));
            assert(ledger.slots.idle(s));
        } else {
            assert(next.slots.slots[s] == ledger.slots.slots[s]);
            assert(next.slots.idle(s) == ledger.slots.idle(s));
        }
    }
    assert forall|returned: SlotToken, item: T|
        ledger.held.contains_key(returned.slot as int) && ledger.held[returned.slot as int]
            == returned.time implies #[trigger] ledger.after_put(returned, item).lost(token) by {
        let next = ledger.after_put(returned, item);
        if returned.slot == s {
            assert(next.slots.idle(s));
            assert(!ledger.slots.idle(s));
        } else {
            assert(next.slots.slots[s] == ledger.slots.slots[s]);
            assert(next.slots.idle(s) == ledger.slots.idle(s));
        }
    }
}

/// What happens to an allocator.
pub enum SlotEvent<T> {
    /// Somebody tried to get a slot, and got a guard or not.
    Get { asked: Option<SlotToken>, guard: Option<Guard<T>>, after: Slots<T> },
    /// Somebody gave a guard back.
    Put { held: Guard<T> },
}

impl<T> Ledger<T> {
    /// A new allocator, whose slots nobody holds.
    pub open spec fn fresh(self) -> bool {
        &&& self.slots.fresh()
        &&& self.held == Map::<int, u64>::empty()
    }

    /// The event can happen: users ask with tokens of this allocator and give back what
    /// they hold.
    pub open spec fn allows(self, event: SlotEvent<T>) -> bool {
        match event {
            SlotEvent::Get { asked, guard: Some(guard), after } => {
                &&& self.slots.can_get(asked)
                &&& asked is Some ==> self.slots.issued(asked->0)
                &&& self.slots.hands_out(asked, guard, after)
            },
            SlotEvent::Get { asked, guard: None, after } => {
                self.slots.get_gives(asked, None, after)
            },
            SlotEvent::Put { held } => {
                &&& self.slots.drop_count < u64::MAX - 1
                &&& self.held.contains_key(held.token.slot as int)
                &&& self.held[held.token.slot as int] == held.token.time
            },
        }
    }

    pub open spec fn step(self, event: SlotEvent<T>) -> Ledger<T> {
        match event {
            SlotEvent::Get { guard: Some(guard), after, .. } => self.after_get(guard, after),
            SlotEvent::Get { guard: None, after, .. } => Ledger { slots: after, ..self },
            SlotEvent::Put { held } => self.after_put(held.token, held.item),
        }
    }

    /// After the first `n` events.
    pub open spec fn after(self, events: Seq<SlotEvent<T>>, n: int) -> Ledger<T>
        decreases n,
    {
        if n <= 0 {
            self
        } else {
            self.after(events, n - 1).step(events[n - 1])
        }
    }

    /// The events can happen one after the other.
    pub open spec fn allows_all(self, events: Seq<SlotEvent<T>>) -> bool {
        forall|k: int| 0 <= k < events.len() ==> #[trigger] self.after(events, k).allows(events[k])
    }
}

proof fn lemma_history<T>(start: Ledger<T>, events: Seq<SlotEvent<T>>, n: int)
    requires
        start.fresh(),
        start.allows_all(events),
        0 <= n <= events.len(),
    ensures
        start.after(events, n).wf(),
        start.after(events, n).slots.slots.len() == start.slots.slots.len(),
    decreases n,
{
    if n == 0 {
        assert forall|i: int, j: int|
            0 <= i < j < start.slots.slots.len() && #[trigger] start.time(i)
                == #[trigger] start.time(j) implies start.time(i) == 0 by {
            assert(start.slots.idle(i));
        }
    } else {
        lemma_history(start, events, n - 1);
        let before = start.after(events, n - 1);
        let event = events[n - 1];
        assert(before.allows(event));
        match event {
            SlotEvent::Get { asked, guard: Some(guard), after } => {
                let item = choose|item: T| #[trigger]
                    before.slots.get_gives(
                        asked,
                        Some(Guard { item, changed: guard.changed, token: guard.token }),
                        after,
                    );
                let got = Guard { item, changed: guard.changed, token: guard.token };
                law_get_is_exclusive(before, asked, got, after);
                assert(before.after_get(guard, after) == before.after_get(got, after));
            },
            SlotEvent::Get { guard: None, .. } => {
                assert(before.step(event) == before);
            },
            SlotEvent::Put { held } => {
                law_put_ends_the_hold(before, held.token, held.item);
            },
        }
    }
}

/// Whatever slots are got and given back, from a new allocator on: every guard is for a
/// slot of the allocator that nobody else holds at that time, no more guards are held than
/// there are slots, and an attempt comes away empty only while all slots are held.
pub proof fn law_holders_never_share_a_slot<T>(
    start: Ledger<T>,
    events: Seq<SlotEvent<T>>,
    k: int,
)
    requires
        start.fresh(),
        start.allows_all(events),
        0 <= k < events.len(),
    ensures
        start.after(events, k).held.dom().finite(),
        start.after(events, k).held.dom().len() <= start.slots.slots.len(),
        events[k] matches SlotEvent::Get { guard: Some(guard), .. } ==> {
            &&& guard.token.slot < start.slots.slots.len()
            &&& !start.after(events, k).held.contains_key(guard.token.slot as int)
        },
        events[k] matches SlotEvent::Get { guard: None, .. } ==> {
            &&& start.after(events, k).held.dom().len() == start.slots.slots.len()
            &&& start.after(events, k + 1) == start.after(events, k)
        },
{
    lemma_history(start, events, k);
    let ledger = start.after(events, k);
    let n = start.slots.slots.len() as int;
    let all = vstd::set_lib::set_int_range(0, n);
    vstd::set_lib::lemma_int_range(0, n);
    assert(ledger.held.dom().subset_of(all)) by {
        assert forall|i: int| ledger.held.dom().contains(i) implies all.contains(i) by {
            assert(ledger.held.contains_key(i));
        }
    }
    vstd::set_lib::lemma_len_subset(ledger.held.dom(), all);
    assert(ledger.allows(events[k]));
    match events[k] {
        SlotEvent::Get { asked, guard: Some(guard), after } => {
            let item = choose|item: T| #[trigger]
                ledger.slots.get_gives(
                    asked,
                    Some(Guard { item, changed: guard.changed, token: guard.token }),
                    after,
                );
            let got = Guard { item, changed: guard.changed, token: guard.token };
            law_get_is_exclusive(ledger, asked, got, after);
            assert(ledger.slots.idle(guard.token.slot as int));
        },
        SlotEvent::Get { guard: None, .. } => {
            assert(ledger.held.dom() =~= all) by {
                assert forall|i: int| all.contains(i) implies ledger.held.dom().contains(i) by {
                    assert(!ledger.slots.idle(i));
                    assert(ledger.held.contains_key(i));
                }
            }
        },
        SlotEvent::Put { .. } => {},
    }
}

/// The guard that the event hands out.
pub open spec fn handed_out<T>(event: SlotEvent<T>) -> Option<Guard<T>> {
    match event {
        SlotEvent::Get { guard, .. } => guard,
        SlotEvent::Put { .. } => None,
    }
}

/// The event gives back a guard for the slot.
pub open spec fn gives_back<T>(event: SlotEvent<T>, slot: u32) -> bool {
    event matches SlotEvent::Put { held } && held.token.slot == slot
}

proof fn lemma_still_held<T>(start: Ledger<T>, events: Seq<SlotEvent<T>>, i: int, k: int)
    requires
        start.fresh(),
        start.allows_all(events),
        0 <= i < k <= events.len(),
        handed_out(events[i]) is Some,
        forall|j: int|
            i < j < k ==> !gives_back(#[trigger] events[j], handed_out(events[i])->0.token.slot),
    ensures
        start.after(events, k).held.contains_key(handed_out(events[i])->0.token.slot as int),
    decreases k,
{
    assert(start.after(events, k) == start.after(events, k - 1).step(events[k - 1]));
    if i < k - 1 {
        lemma_still_held(start, events, i, k - 1);
        assert(!gives_back(events[k - 1], handed_out(events[i])->0.token.slot));
    }
}

/// Two guards that are held at the same time are for different slots: of two guards, one
/// handed out after the other, that are for the same slot, the first was given back in
/// between.
pub proof fn law_guards_differ_while_held<T>(
    start: Ledger<T>,
    events: Seq<SlotEvent<T>>,
    i: int,
    k: int,
)
    requires
        start.fresh(),
        start.allows_all(events),
        0 <= i < k < events.len(),
        handed_out(events[i]) is Some,
        handed_out(events[k]) is Some,
        forall|j: int|
            i < j < k ==> !gives_back(#[trigger] events[j], handed_out(events[i])->0.token.slot),
    ensures
        handed_out(events[i])->0.token.slot != handed_out(events[k])->0.token.slot,
{
    lemma_still_held(start, events, i, k);
    law_holders_never_share_a_slot(start, events, k);
}

/// One attempt to get a slot: a user whose last slot nobody had since gets it back
/// unchanged; others get, as changed, the idle slot that came back first. There is none
/// only if no slot is idle. No other slot is touched.
pub proof fn law_get_prefers_the_last_slot_and_then_the_oldest<T: SlotItem>(
    a: &mut SlotAllocator<T>,
    token: Option<SlotToken>,
    r: Option<Guard<T>>,
    j: int,
)
    requires
        old(a)@.wf(),
        call_ensures(SlotAllocator::<T>::get, (a, token), r),
    ensures
        r is None ==> !old(a)@.idle(j) && final(a)@ == old(a)@,
        r matches Some(guard) ==> {
            let slot = guard.token.slot as int;
            &&& 0 <= slot < old(a)@.slots.len()
            &&& old(a)@.slots[slot] matches Some(entry) && guard.item == entry.item
            &&& final(a)@.slots =~= old(a)@.slots.update(slot, None)
            &&& final(a)@.drop_count == old(a)@.drop_count
            &&& !guard.changed <==> (token matches Some(t) && old(a)@.idle(t.slot as int)
                && old(a)@.slots[t.slot as int]->0.get_time == t.time)
            &&& !guard.changed ==> guard.token == token->0 && final(a)@.get_count
                == old(a)@.get_count
            &&& guard.changed ==> guard.token.time == old(a)@.get_count + 1
            &&& guard.changed && old(a)@.get_count < u64::MAX ==> final(a)@.get_count
                == old(a)@.get_count + 1
            &&& guard.changed && old(a)@.idle(j) ==> old(a)@.slots[slot]->0.drop_time
                <= old(a)@.slots[j]->0.drop_time
            &&& guard.changed && old(a)@.idle(j) && old(a)@.slots[slot]->0.drop_time
                == old(a)@.slots[j]->0.drop_time ==> slot <= j
        },
{
    if token is Some && old(a)@.matches(token->0) {
        assert(old(a)@.idle(token->0.slot as int));
    } else if old(a)@.idle(j) {
        assert(exists|i: int| old(a)@.idle(i));
    }
}

/// A slot that is given back is idle again, with its item, and the last of all to be handed
/// to somebody else. One that was idle already changes nothing.
pub proof fn law_put_makes_the_youngest<T: SlotItem>(
    a: &mut SlotAllocator<T>,
    guard: Guard<T>,
    r: bool,
    j: int,
)
    requires
        old(a)@.wf(),
        old(a)@.issued(guard.token),
        old(a)@.can_put(guard.token),
        call_ensures(SlotAllocator::<T>::put, (a, guard), r),
    ensures
        r <==> !old(a)@.idle(guard.token.slot as int),
        !r ==> final(a)@ == old(a)@,
        r ==> {
            let slot = guard.token.slot as int;
            &&& final(a)@.slots[slot] matches Some(entry) && entry.item == guard.item
                && entry.get_time == guard.token.time
            &&& final(a)@.get_count == old(a)@.get_count
            &&& final(a)@.drop_count == old(a)@.drop_count + 1
            &&& j != slot && 0 <= j < old(a)@.slots.len() ==> final(a)@.slots[j]
                == old(a)@.slots[j]
            &&& j != slot && final(a)@.idle(j) ==> final(a)@.slots[j]->0.drop_time
                < final(a)@.slots[slot]->0.drop_time
        },
{
}

/// A wait that is interrupted ends; any other leads to another attempt.
pub proof fn law_interrupted_waits_end(interrupted: bool, r: Result<()>)
    requires
        call_ensures(after_wait, (interrupted,), r),
    ensures
        r is Err <==> interrupted,
        r is Err ==> r->Err_0 == Error::ERESTARTSYS,
{
}

/// A guard and its token name the slot that they are for.
pub proof fn law_guards_name_their_slot<T>(
    guard: Guard<T>,
    slot: u32,
    changed: bool,
    token: SlotToken,
    last: u32,
)
    requires
        call_ensures(Guard::<T>::slot, (&guard,), slot),
        call_ensures(Guard::<T>::changed, (&guard,), changed),
        call_ensures(Guard::<T>::token, (&guard,), token),
        call_ensures(SlotToken::last_slot, (&token,), last),
    ensures
        slot == last == guard.token.slot,
        changed == guard.changed,
        token == guard.token,
{
}

/// A new allocator has all of its slots idle, each with the item that was made for it.
pub proof fn law_new_slots<T: SlotItem, F: Fn(&T::Owner, u32) -> T>(
    num_slots: u32,
    owner: T::Owner,
    constructor: F,
    r: SlotAllocator<T>,
    i: u32,
)
    requires
        i < num_slots,
        call_ensures(SlotAllocator::<T>::new::<F>, (num_slots, owner, constructor), r),
    ensures
        r@.slots.len() == num_slots,
        r@.idle(i as int),
        call_ensures(constructor, (&owner, i), r@.slots[i as int]->0.item),
        r@.get_count == 0 && r@.drop_count == 0,
        r.spec_owner() == owner,
{
}

/// A slot that is handed out through a callback is one that was idle, or the one asked for;
/// without a slot, neither the slots nor their owner change.
pub proof fn law_callback_sees_the_slot<
    T: SlotItem,
    F: FnOnce(&mut T::Owner, &mut Guard<T>) -> Result<()>,
>(slots: &mut SlotAllocator<T>, token: Option<SlotToken>, cb: F, r: Option<Guard<T>>)
    requires
        old(slots)@.wf(),
        call_ensures(SlotAllocator::<T>::get_inner::<F>, (slots, token, cb), r),
    ensures
        r is None ==> final(slots)@ == old(slots)@ && final(slots).spec_owner() == old(
            slots,
        ).spec_owner(),
        r is None ==> forall|i: int| !#[trigger] old(slots)@.idle(i),
        r matches Some(g) ==> {
            &&& old(slots)@.idle(g.token.slot as int)
            &&& !final(slots)@.idle(g.token.slot as int)
            &&& !g.changed ==> token == Some(g.token)
        },
{
}

} // verus!
