//! Sharers of slots.
//!
//! An address space shares the context slots with the others, and a tiler buffer the
//! buffer slots. Either takes a slot with its first user, keeps it while it has users, and
//! gives it back with the last one. What follows from that is the same for both, and
//! stands here.
use crate::slotalloc::{
    law_get_is_exclusive, law_put_ends_the_hold, Guard, Ledger, SlotToken, Slots,
};
use vstd::prelude::*;

verus! {

/// What a sharer knows of its slot.
pub struct Sharer<T> {
    pub users: nat,
    /// The slot, while there are users.
    pub guard: Option<Guard<T>>,
    /// The token of the last slot.
    pub token: Option<SlotToken>,
}

impl<T> Sharer<T> {
    /// A sharer that never had a slot.
    pub open spec fn new() -> Sharer<T> {
        Sharer { users: 0, guard: None, token: None }
    }

    /// What one attempt of a new user to get the sharer's slot gives: the slot that the
    /// sharer has, or else one of the idle ones.
    pub open spec fn open_gives(
        self,
        slots: Slots<T>,
        guard: Option<Guard<T>>,
        after: Slots<T>,
    ) -> bool {
        if self.guard is Some {
            &&& guard == self.guard
            &&& after == slots
        } else {
            slots.get_gives(self.token, guard, after)
        }
    }

    pub open spec fn opened(self, guard: Guard<T>) -> Sharer<T> {
        Sharer { users: self.users + 1, guard: Some(guard), token: Some(guard.token) }
    }

    pub open spec fn closed(self) -> Sharer<T> {
        if self.users > 1 {
            Sharer { users: (self.users - 1) as nat, ..self }
        } else {
            Sharer { users: 0, guard: None, ..self }
        }
    }
}

/// The slots of an allocator and everybody who shares them.
#[verifier::ext_equal]
pub struct Sharing<T> {
    pub ledger: Ledger<T>,
    pub sharers: Map<u64, Sharer<T>>,
}

/// What happens to a sharer.
pub enum ShareEvent<T> {
    Join { id: u64 },
    /// A new user tried to get the sharer's slot.
    Open { id: u64, guard: Option<Guard<T>>, after: Slots<T> },
    /// A user is gone.
    Close { id: u64 },
    Leave { id: u64 },
}

impl<T> ShareEvent<T> {
    pub open spec fn id(self) -> u64 {
        match self {
            ShareEvent::Join { id } => id,
            ShareEvent::Open { id, .. } => id,
            ShareEvent::Close { id } => id,
            ShareEvent::Leave { id } => id,
        }
    }

    /// A user of another sharer than `id` gets the slot.
    pub open spec fn others_get(self, id: u64, slot: u32) -> bool {
        self matches ShareEvent::Open { id: other, guard: Some(guard), .. } && other != id
            && guard.token.slot == slot
    }
}

impl<T> Sharing<T> {
    /// A new allocator that nobody shares yet.
    pub open spec fn fresh(self) -> bool {
        &&& self.ledger.fresh()
        &&& self.sharers == Map::<u64, Sharer<T>>::empty()
    }

    pub open spec fn active(self, id: u64) -> bool {
        self.sharers.contains_key(id) && self.sharers[id].guard is Some
    }

    /// The slot of an active sharer.
    pub open spec fn slot(self, id: u64) -> u32 {
        self.sharers[id].guard->0.token.slot
    }

    /// What is known of each sharer: it has a slot exactly while it has users, it is the
    /// holder of that slot, and its token is from a hand-out that has happened.
    pub open spec fn sharer_wf(self, id: u64) -> bool {
        let sharer = self.sharers[id];
        &&& sharer.users > 0 <==> sharer.guard is Some
        &&& sharer.guard matches Some(guard) ==> {
            &&& sharer.token == Some(guard.token)
            &&& self.ledger.held.contains_key(guard.token.slot as int)
            &&& self.ledger.held[guard.token.slot as int] == guard.token.time
        }
        &&& sharer.token matches Some(token) ==> {
            &&& self.ledger.slots.issued(token)
            &&& token.time <= self.ledger.time(token.slot as int)
        }
    }

    /// Some sharer holds the slot.
    pub open spec fn held_by_some(self, slot: int) -> bool {
        exists|id: u64| #[trigger] self.active(id) && self.slot(id) == slot
    }

    pub open spec fn wf(self) -> bool {
        &&& self.ledger.wf()
        &&& forall|id: u64| #[trigger] self.sharers.contains_key(id) ==> self.sharer_wf(id)
        &&& forall|a: u64, b: u64|
            #![trigger self.sharers.contains_key(a), self.sharers.contains_key(b)]
            a != b && self.sharers.contains_key(a) && self.sharers.contains_key(b)
                && self.sharers[a].token is Some ==> self.sharers[a].token != self.sharers[b].token
        &&& forall|s: int| #[trigger] self.ledger.held.contains_key(s) ==> self.held_by_some(s)
    }

    /// The event can happen.
    pub open spec fn allows(self, event: ShareEvent<T>) -> bool {
        match event {
            ShareEvent::Join { id } => !self.sharers.contains_key(id),
            ShareEvent::Open { id, guard, after } => {
                &&& self.sharers.contains_key(id)
                &&& self.sharers[id].guard is None ==> self.ledger.slots.can_get(
                    self.sharers[id].token,
                )
                &&& self.sharers[id].open_gives(self.ledger.slots, guard, after)
            },
            ShareEvent::Close { id } => {
                &&& self.sharers.contains_key(id)
                &&& self.sharers[id].users > 0
                &&& self.ledger.slots.drop_count < u64::MAX - 1
            },
            ShareEvent::Leave { id } => {
                &&& self.sharers.contains_key(id)
                &&& self.sharers[id].users == 0
            },
        }
    }

    pub open spec fn step(self, event: ShareEvent<T>) -> Sharing<T> {
        match event {
            ShareEvent::Join { id } => Sharing {
                sharers: self.sharers.insert(id, Sharer::new()),
                ..self
            },
            ShareEvent::Open { id, guard: Some(guard), after } => Sharing {
                ledger: if self.sharers[id].guard is Some {
                    self.ledger
                } else {
                    self.ledger.after_get(guard, after)
                },
                sharers: self.sharers.insert(id, self.sharers[id].opened(guard)),
            },
            ShareEvent::Open { guard: None, .. } => self,
            ShareEvent::Close { id } => Sharing {
                ledger: if self.sharers[id].users > 1 {
                    self.ledger
                } else {
                    self.ledger.after_put(
                        self.sharers[id].guard->0.token,
                        self.sharers[id].guard->0.item,
                    )
                },
                sharers: self.sharers.insert(id, self.sharers[id].closed()),
            },
            ShareEvent::Leave { id } => Sharing { sharers: self.sharers.remove(id), ..self },
        }
    }

    /// After the first `n` events.
    pub open spec fn after(self, events: Seq<ShareEvent<T>>, n: int) -> Sharing<T>
        decreases n,
    {
        if n <= 0 {
            self
        } else {
            self.after(events, n - 1).step(events[n - 1])
        }
    }

    /// The events can happen one after the other.
    pub open spec fn allows_all(self, events: Seq<ShareEvent<T>>) -> bool {
        forall|k: int| 0 <= k < events.len() ==> #[trigger] self.after(events, k).allows(events[k])
    }
}

/// Handing a slot out leaves the times of all slots as they are, but for that of a slot
/// that is handed out afresh, which goes up.
pub proof fn lemma_times_after_get<T>(
    ledger: Ledger<T>,
    token: Option<SlotToken>,
    guard: Guard<T>,
    after: Slots<T>,
)
    requires
        ledger.wf(),
        ledger.slots.can_get(token),
        token is Some ==> ledger.slots.issued(token->0),
        ledger.slots.get_gives(token, Some(guard), after),
    ensures
        after.slots.len() == ledger.slots.slots.len(),
        after.get_count >= ledger.slots.get_count,
        0 <= guard.token.slot < after.slots.len(),
        ledger.after_get(guard, after).time(guard.token.slot as int) == guard.token.time,
        guard.changed ==> guard.token.time == ledger.slots.get_count + 1 && guard.token.time
            > ledger.time(guard.token.slot as int) && after.get_count == guard.token.time,
        !guard.changed ==> token == Some(guard.token) && guard.token.time == ledger.time(
            guard.token.slot as int,
        ),
        forall|i: int|
            0 <= i < after.slots.len() && i != guard.token.slot ==> #[trigger] ledger.after_get(
                guard,
                after,
            ).time(i) == ledger.time(i),
        forall|i: int| 0 <= i < after.slots.len() ==> #[trigger] ledger.time(i)
            <= ledger.slots.get_count,
{
    let next = ledger.after_get(guard, after);
    let s = guard.token.slot as int;
    assert(ledger.slots.idle(s));
    assert(!next.slots.idle(s));
    assert forall|i: int| 0 <= i < after.slots.len() && i != s implies #[trigger] next.time(i)
        == ledger.time(i) by {
        assert(next.slots.slots[i] == ledger.slots.slots[i]);
        assert(next.slots.idle(i) == ledger.slots.idle(i));
    }
    assert forall|i: int| 0 <= i < after.slots.len() implies #[trigger] ledger.time(i)
        <= ledger.slots.get_count by {
        assert(ledger.slots.idle(i) || ledger.held.contains_key(i));
        if ledger.slots.idle(i) {
            assert(ledger.slots.slots[i] is Some);
        }
    }
    assert(ledger.time(s) <= ledger.slots.get_count);
}

/// Giving a slot back leaves the times of all slots as they are.
pub proof fn lemma_times_after_put<T>(ledger: Ledger<T>, token: SlotToken, item: T)
    requires
        ledger.wf(),
        ledger.held.contains_key(token.slot as int),
        ledger.held[token.slot as int] == token.time,
    ensures
        ledger.after_put(token, item).slots.slots.len() == ledger.slots.slots.len(),
        forall|i: int|
            0 <= i < ledger.slots.slots.len() ==> #[trigger] ledger.after_put(token, item).time(i)
                == ledger.time(i),
{
    let next = ledger.after_put(token, item);
    let s = token.slot as int;
    assert(!ledger.slots.idle(s));
    assert forall|i: int| 0 <= i < ledger.slots.slots.len() implies #[trigger] next.time(i)
        == ledger.time(i) by {
        if i != s {
            assert(next.slots.slots[i] == ledger.slots.slots[i]);
            assert(next.slots.idle(i) == ledger.slots.idle(i));
        } else {
            assert(next.slots.idle(s));
        }
    }
}

/// Two active sharers have different slots.
pub proof fn lemma_slots_differ<T>(sharing: Sharing<T>, a: u64, b: u64)
    requires
        sharing.wf(),
        sharing.active(a),
        sharing.active(b),
        a != b,
    ensures
        sharing.slot(a) != sharing.slot(b),
{
    assert(sharing.sharer_wf(a));
    assert(sharing.sharer_wf(b));
    if sharing.slot(a) == sharing.slot(b) {
        assert(sharing.sharers[a].guard->0.token == sharing.sharers[b].guard->0.token);
    }
}

proof fn lemma_open_keeps<T>(
    sharing: Sharing<T>,
    id: u64,
    guard: Guard<T>,
    after: Slots<T>,
)
    requires
        sharing.wf(),
        sharing.allows((ShareEvent::Open { id, guard: Some(guard), after })),
    ensures
        sharing.step((ShareEvent::Open { id, guard: Some(guard), after })).wf(),
{
    let next = sharing.step(ShareEvent::Open { id, guard: Some(guard), after });
    let ledger = sharing.ledger;
    let sharer = sharing.sharers[id];
    assert(sharing.sharer_wf(id));
    if sharer.guard is Some {
        assert forall|other: u64| #[trigger] next.sharers.contains_key(other) implies next.sharer_wf(
            other,
        ) by {
            assert(sharing.sharers.contains_key(other));
        }
        assert forall|a: u64, b: u64|
            #![trigger next.sharers.contains_key(a), next.sharers.contains_key(b)]
            a != b && next.sharers.contains_key(a) && next.sharers.contains_key(b)
                && next.sharers[a].token is Some implies next.sharers[a].token
            != next.sharers[b].token by {
            assert(sharing.sharers.contains_key(a) && sharing.sharers.contains_key(b));
        }
        assert forall|s: int| #[trigger] next.ledger.held.contains_key(s) implies next.held_by_some(
            s,
        ) by {
            let holder = choose|h: u64| #[trigger] sharing.active(h) && sharing.slot(h) == s;
            assert(next.active(holder) && next.slot(holder) == s);
        }
    } else {
        law_get_is_exclusive(ledger, sharer.token, guard, after);
        lemma_times_after_get(ledger, sharer.token, guard, after);
        let s = guard.token.slot as int;
        assert forall|other: u64| #[trigger] next.sharers.contains_key(other) implies next.sharer_wf(
            other,
        ) by {
            if other != id {
                assert(sharing.sharers.contains_key(other));
                assert(sharing.sharer_wf(other));
                if sharing.sharers[other].token is Some {
                    let token = sharing.sharers[other].token->0;
                    assert(next.ledger.time(token.slot as int) >= ledger.time(token.slot as int));
                }
            }
        }
        assert forall|a: u64, b: u64|
            #![trigger next.sharers.contains_key(a), next.sharers.contains_key(b)]
            a != b && next.sharers.contains_key(a) && next.sharers.contains_key(b)
                && next.sharers[a].token is Some implies next.sharers[a].token
            != next.sharers[b].token by {
            assert(sharing.sharers.contains_key(a) && sharing.sharers.contains_key(b));
            assert(sharing.sharer_wf(a) && sharing.sharer_wf(b));
        }
        assert forall|t: int| #[trigger] next.ledger.held.contains_key(t) implies next.held_by_some(
            t,
        ) by {
            if t == s {
                assert(next.active(id) && next.slot(id) == t);
            } else {
                assert(ledger.held.contains_key(t));
                let holder = choose|h: u64| #[trigger] sharing.active(h) && sharing.slot(h) == t;
                assert(next.active(holder) && next.slot(holder) == t);
            }
        }
    }
}

proof fn lemma_close_keeps<T>(sharing: Sharing<T>, id: u64)
    requires
        sharing.wf(),
        sharing.allows((ShareEvent::<T>::Close { id })),
    ensures
        sharing.step((ShareEvent::<T>::Close { id })).wf(),
{
    let next = sharing.step(ShareEvent::<T>::Close { id });
    let ledger = sharing.ledger;
    let sharer = sharing.sharers[id];
    assert(sharing.sharer_wf(id));
    assert(sharing.active(id));
    let guard = sharer.guard->0;
    if sharer.users == 1 {
        law_put_ends_the_hold(ledger, guard.token, guard.item);
        lemma_times_after_put(ledger, guard.token, guard.item);
    }
    assert forall|other: u64| #[trigger] next.sharers.contains_key(other) implies next.sharer_wf(
        other,
    ) by {
        assert(sharing.sharers.contains_key(other));
        assert(sharing.sharer_wf(other));
        if other != id && sharing.active(other) {
            lemma_slots_differ(sharing, id, other);
        }
    }
    assert forall|a: u64, b: u64|
        #![trigger next.sharers.contains_key(a), next.sharers.contains_key(b)]
        a != b && next.sharers.contains_key(a) && next.sharers.contains_key(b)
            && next.sharers[a].token is Some implies next.sharers[a].token
        != next.sharers[b].token by {
        assert(sharing.sharers.contains_key(a) && sharing.sharers.contains_key(b));
    }
    assert forall|s: int| #[trigger] next.ledger.held.contains_key(s) implies next.held_by_some(
        s,
    ) by {
        assert(ledger.held.contains_key(s));
        let holder = choose|h: u64| #[trigger] sharing.active(h) && sharing.slot(h) == s;
        assert(next.active(holder) && next.slot(holder) == s);
    }
}

/// Whatever happens, what is known of the sharers stays so.
pub proof fn law_sharing_is_kept<T>(sharing: Sharing<T>, event: ShareEvent<T>)
    requires
        sharing.wf(),
        sharing.allows(event),
    ensures
        sharing.step(event).wf(),
        sharing.step(event).ledger.slots.slots.len() == sharing.ledger.slots.slots.len(),
        forall|i: int|
            0 <= i < sharing.ledger.slots.slots.len() ==> #[trigger] sharing.step(event).ledger.time(
                i,
            ) >= sharing.ledger.time(i),
{
    let next = sharing.step(event);
    match event {
        ShareEvent::Open { id, guard: Some(guard), after } => {
            lemma_open_keeps(sharing, id, guard, after);
            assert(sharing.sharer_wf(id));
            if sharing.sharers[id].guard is None {
                lemma_times_after_get(sharing.ledger, sharing.sharers[id].token, guard, after);
                assert forall|i: int|
                    0 <= i < sharing.ledger.slots.slots.len() implies #[trigger] next.ledger.time(i)
                    >= sharing.ledger.time(i) by {}
            }
        },
        ShareEvent::Open { guard: None, .. } => {},
        ShareEvent::Close { id } => {
            lemma_close_keeps(sharing, id);
            assert(sharing.sharer_wf(id));
            if sharing.sharers[id].users == 1 {
                let guard = sharing.sharers[id].guard->0;
                lemma_times_after_put(sharing.ledger, guard.token, guard.item);
            }
        },
        ShareEvent::Join { id } => {
            lemma_membership_keeps(sharing, event);
        },
        ShareEvent::Leave { id } => {
            lemma_membership_keeps(sharing, event);
        },
    }
}

proof fn lemma_membership_keeps<T>(sharing: Sharing<T>, event: ShareEvent<T>)
    requires
        sharing.wf(),
        sharing.allows(event),
        event is Join || event is Leave,
    ensures
        sharing.step(event).wf(),
{
    let next = sharing.step(event);
    assert forall|other: u64| #[trigger] next.sharers.contains_key(other) implies next.sharer_wf(
        other,
    ) by {
        if other != event.id() {
            assert(sharing.sharers.contains_key(other));
            assert(sharing.sharer_wf(other));
        }
    }
    assert forall|a: u64, b: u64|
        #![trigger next.sharers.contains_key(a), next.sharers.contains_key(b)]
        a != b && next.sharers.contains_key(a) && next.sharers.contains_key(b)
            && next.sharers[a].token is Some implies next.sharers[a].token
        != next.sharers[b].token by {
        if a != event.id() && b != event.id() {
            assert(sharing.sharers.contains_key(a) && sharing.sharers.contains_key(b));
        }
    }
    assert forall|s: int| #[trigger] next.ledger.held.contains_key(s) implies next.held_by_some(
        s,
    ) by {
        let holder = choose|h: u64| #[trigger] sharing.active(h) && sharing.slot(h) == s;
        assert(sharing.sharer_wf(holder));
        assert(holder != event.id());
        assert(next.active(holder) && next.slot(holder) == s);
    }
}

/// What is known of the sharers holds from a new allocator on, whatever happens.
pub proof fn law_sharing_history<T>(start: Sharing<T>, events: Seq<ShareEvent<T>>, n: int)
    requires
        start.fresh(),
        start.allows_all(events),
        0 <= n <= events.len(),
    ensures
        start.after(events, n).wf(),
        start.after(events, n).ledger.slots.slots.len() == start.ledger.slots.slots.len(),
    decreases n,
{
    if n == 0 {
        assert forall|i: int, j: int|
            0 <= i < j < start.ledger.slots.slots.len() && #[trigger] start.ledger.time(i)
                == #[trigger] start.ledger.time(j) implies start.ledger.time(i) == 0 by {
            assert(start.ledger.slots.idle(i));
        }
    } else {
        law_sharing_history(start, events, n - 1);
        assert(start.after(events, n - 1).allows(events[n - 1]));
        law_sharing_is_kept(start.after(events, n - 1), events[n - 1]);
    }
}

/// From a new allocator on, whatever happens: a user gets a slot of the allocator that no
/// other sharer has. A user of a sharer that has a slot gets that one, and no slot changes
/// hands. A user gets none only while every slot belongs to an active sharer, and nothing
/// changes then.
pub proof fn law_sharers_have_slots_of_their_own<T>(
    start: Sharing<T>,
    events: Seq<ShareEvent<T>>,
    k: int,
)
    requires
        start.fresh(),
        start.allows_all(events),
        0 <= k < events.len(),
    ensures
        events[k] matches ShareEvent::Open { id, guard: Some(guard), .. } ==> {
            let before = start.after(events, k);
            let after = start.after(events, k + 1);
            &&& guard.token.slot < start.ledger.slots.slots.len()
            &&& after.active(id) && after.slot(id) == guard.token.slot
            &&& before.active(id) ==> before.slot(id) == guard.token.slot && after.ledger
                == before.ledger
            &&& forall|other: u64|
                other != id && #[trigger] after.active(other) ==> after.slot(other)
                    != guard.token.slot
        },
        events[k] matches ShareEvent::Open { guard: None, .. } ==> {
            let before = start.after(events, k);
            &&& start.after(events, k + 1) == before
            &&& forall|s: int|
                0 <= s < start.ledger.slots.slots.len() ==> #[trigger] before.held_by_some(s)
        },
{
    law_sharing_history(start, events, k);
    law_sharing_history(start, events, k + 1);
    let before = start.after(events, k);
    let after = start.after(events, k + 1);
    assert(before.allows(events[k]));
    assert(after == before.step(events[k]));
    match events[k] {
        ShareEvent::Open { id, guard: Some(guard), .. } => {
            assert(after.active(id));
            assert(after.sharer_wf(id));
            assert forall|other: u64| other != id && #[trigger] after.active(other) implies
                after.slot(other) != guard.token.slot by {
                lemma_slots_differ(after, id, other);
            }
        },
        ShareEvent::Open { guard: None, .. } => {
            assert forall|s: int|
                0 <= s < start.ledger.slots.slots.len() implies #[trigger] before.held_by_some(
                s,
            ) by {
                assert(!before.ledger.slots.idle(s));
                assert(before.ledger.held.contains_key(s));
            }
        },
        _ => {},
    }
}

/// A sharer keeps its slot while it has users.
pub proof fn law_slot_is_kept_while_active<T>(
    start: Sharing<T>,
    events: Seq<ShareEvent<T>>,
    id: u64,
    i: int,
    k: int,
)
    requires
        start.fresh(),
        start.allows_all(events),
        0 <= i <= k <= events.len(),
        forall|j: int| i <= j <= k ==> #[trigger] start.after(events, j).active(id),
    ensures
        start.after(events, k).sharers[id].guard == start.after(events, i).sharers[id].guard,
        start.after(events, k).slot(id) == start.after(events, i).slot(id),
    decreases k,
{
    if i < k {
        law_slot_is_kept_while_active(start, events, id, i, k - 1);
        law_sharing_history(start, events, k - 1);
        let before = start.after(events, k - 1);
        assert(before.allows(events[k - 1]));
        assert(before.active(id));
        assert(before.sharer_wf(id));
        assert(start.after(events, k) == before.step(events[k - 1]));
        assert(start.after(events, k).active(id));
    }
}

/// How the time of a sharer's last slot goes on while the sharer keeps its token: it stays
/// that of the token exactly as long as no other sharer gets the slot.
proof fn lemma_claim<T>(
    start: Sharing<T>,
    events: Seq<ShareEvent<T>>,
    id: u64,
    token: SlotToken,
    i: int,
    k: int,
)
    requires
        start.fresh(),
        start.allows_all(events),
        0 <= i <= k <= events.len(),
        start.after(events, i).active(id),
        forall|j: int|
            i <= j <= k ==> #[trigger] start.after(events, j).sharers.contains_key(id)
                && start.after(events, j).sharers[id].token == Some(token),
    ensures
        start.after(events, k).ledger.time(token.slot as int) == token.time <==> (forall|j: int|
            i <= j < k ==> !(#[trigger] events[j]).others_get(id, token.slot)),
    decreases k,
{
    law_sharing_history(start, events, k);
    assert(start.after(events, k).sharers.contains_key(id));
    assert(start.after(events, k).sharer_wf(id));
    let s = token.slot as int;
    if i == k {
        assert(start.after(events, i).sharers[id].guard->0.token == token);
        assert(!start.after(events, i).ledger.slots.idle(s));
    } else {
        lemma_claim(start, events, id, token, i, k - 1);
        law_sharing_history(start, events, k - 1);
        let before = start.after(events, k - 1);
        let after = start.after(events, k);
        let event = events[k - 1];
        assert(before.allows(event));
        assert(before.sharers.contains_key(id));
        assert(before.sharer_wf(id));
        assert(before.sharers[id].token == Some(token));
        assert(after == before.step(event));
        assert(after.sharers[id].token == Some(token));
        law_sharing_is_kept(before, event);
        assert(after.ledger.time(s) >= before.ledger.time(s));
        match event {
            ShareEvent::Open { id: other, guard: Some(guard), after: slots } => {
                assert(before.sharers.contains_key(other));
                assert(before.sharer_wf(other));
                if before.sharers[other].guard is None {
                    lemma_times_after_get(
                        before.ledger,
                        before.sharers[other].token,
                        guard,
                        slots,
                    );
                    if other != id && guard.token.slot == token.slot {
                        assert(before.sharers[other].token != before.sharers[id].token);
                        assert(after.ledger.time(s) != token.time);
                    }
                } else if other != id && guard.token.slot == token.slot {
                    assert(before.active(other));
                    assert(!before.ledger.slots.idle(s));
                    assert(before.ledger.time(s) == guard.token.time);
                    assert(before.sharers[other].token != before.sharers[id].token);
                    assert(after.ledger.time(s) != token.time);
                }
                assert(event.others_get(id, token.slot) ==> after.ledger.time(s) != token.time);
                assert(!event.others_get(id, token.slot) ==> after.ledger.time(s)
                    == before.ledger.time(s));
            },
            ShareEvent::Close { id: other } => {
                assert(before.sharers.contains_key(other));
                assert(before.sharer_wf(other));
                if before.sharers[other].users == 1 {
                    let guard = before.sharers[other].guard->0;
                    lemma_times_after_put(before.ledger, guard.token, guard.item);
                }
                assert(after.ledger.time(s) == before.ledger.time(s));
            },
            _ => {
                assert(after.ledger.time(s) == before.ledger.time(s));
            },
        }
        if forall|j: int| i <= j < k ==> !(#[trigger] events[j]).others_get(id, token.slot) {
            assert(!event.others_get(id, token.slot));
        }
        if (forall|j: int| i <= j < k - 1 ==> !(#[trigger] events[j]).others_get(id, token.slot))
            && !event.others_get(id, token.slot) {
            assert forall|j: int| i <= j < k implies !(#[trigger] events[j]).others_get(
                id,
                token.slot,
            ) by {}
        }
    }
}

/// The first slot of a sharer always counts as changed.
pub proof fn law_first_slot_is_new<T>(start: Sharing<T>, events: Seq<ShareEvent<T>>, k: int)
    requires
        start.fresh(),
        start.allows_all(events),
        0 <= k < events.len(),
    ensures
        events[k] matches ShareEvent::Open { id, guard: Some(guard), .. } ==> (start.after(
            events,
            k,
        ).sharers[id].token is None ==> guard.changed),
{
    law_sharing_history(start, events, k);
    let now = start.after(events, k);
    assert(now.allows(events[k]));
    if let ShareEvent::Open { id, .. } = events[k] {
        assert(now.sharer_wf(id));
    }
}

/// A sharer that gets a slot again finds it unchanged exactly if it is its last slot and no
/// other sharer had that in between: no other got it since the sharer was last active, at
/// `i`.
pub proof fn law_slot_is_unchanged_if_nobody_had_it<T>(
    start: Sharing<T>,
    events: Seq<ShareEvent<T>>,
    id: u64,
    token: SlotToken,
    i: int,
    k: int,
)
    requires
        start.fresh(),
        start.allows_all(events),
        0 <= i <= k < events.len(),
        start.after(events, i).active(id),
        forall|j: int|
            i <= j <= k ==> #[trigger] start.after(events, j).sharers.contains_key(id)
                && start.after(events, j).sharers[id].token == Some(token),
        !start.after(events, k).active(id),
        events[k] matches ShareEvent::Open { id: opener, guard: Some(_), .. } && opener == id,
    ensures
        !events[k]->guard->0.changed <==> (forall|j: int|
            i <= j < k ==> !(#[trigger] events[j]).others_get(id, token.slot)),
        !events[k]->guard->0.changed ==> events[k]->guard->0.token == token,
{
    law_sharing_history(start, events, k);
    let now = start.after(events, k);
    assert(now.allows(events[k]));
    assert(now.sharers.contains_key(id));
    assert(now.sharer_wf(id));
    assert(now.sharers[id].token == Some(token));
    let s = token.slot as int;
    lemma_claim(start, events, id, token, i, k);
    if now.ledger.time(s) == token.time && !now.ledger.slots.idle(s) {
        assert(now.ledger.held.contains_key(s));
        let holder = choose|h: u64| #[trigger] now.active(h) && now.slot(h) == s;
        assert(now.sharers.contains_key(holder));
        assert(now.sharer_wf(holder));
        assert(now.sharers[holder].token == now.sharers[id].token);
    }
    assert(now.ledger.slots.matches(token) <==> now.ledger.time(s) == token.time);
}

/// A user that has to wait has lost its last slot for good: when it tries again, it makes
/// no difference whether it shows its token.
pub proof fn law_waiting_ends_the_claim<T>(start: Sharing<T>, events: Seq<ShareEvent<T>>, k: int)
    requires
        start.fresh(),
        start.allows_all(events),
        0 <= k < events.len(),
    ensures
        events[k] matches ShareEvent::Open { id, guard: None, .. } ==> {
            let now = start.after(events, k);
            &&& !now.active(id)
            &&& now.sharers[id].token matches Some(token) ==> now.ledger.lost(token)
        },
{
    law_sharing_history(start, events, k);
    let now = start.after(events, k);
    assert(now.allows(events[k]));
    if let ShareEvent::Open { id, guard: None, .. } = events[k] {
        assert(now.sharer_wf(id));
        if now.sharers[id].token is Some {
            let token = now.sharers[id].token->0;
            let s = token.slot as int;
            assert(!now.ledger.slots.idle(s));
            assert(now.ledger.held.contains_key(s));
            let holder = choose|h: u64| #[trigger] now.active(h) && now.slot(h) == s;
            assert(now.sharers.contains_key(holder));
            assert(now.sharer_wf(holder));
            if now.ledger.time(s) == token.time {
                assert(now.sharers[holder].token == now.sharers[id].token);
            }
        }
    }
}

} // verus!
