//! Ring buffer channels between the driver and the firmware.
//!
//! A ring lies in shared memory with a read and a write pointer. The reader owns the
//! read pointer, the writer the write pointer; each learns the other's from memory.
//! The ring is empty if both are equal, so that it holds one message less than it has
//! entries.
use crate::error::{Error, Result};
use vstd::prelude::*;

verus! {

/// How many sub-channels a receive channel can have.
pub const MAX_SUB_CHANNELS: usize = 6;

pub const DEVICE_CONTROL_RING_SIZE: u32 = 0x100;

pub const PIPE_RING_SIZE: u32 = 0x100;

pub const FWCTL_RING_SIZE: u32 = 0x100;

pub const EVENT_RING_SIZE: u32 = 0x100;

pub const KTRACE_RING_SIZE: u32 = 0x200;

pub const STATS_RING_SIZE: u32 = 0x100;

pub const FWLOG_RING_SIZE: u32 = 0x100;

/// The number of payload entries of each log sub-channel.
pub const FWLOG_BUF_SIZE: usize = 0x100;

pub const FWLOG_SUB_CHANNELS: usize = 6;

/// How long the driver waits for a command on the device control or firmware control
/// channel.
pub const COMMAND_TIMEOUT_MS: u64 = 100;

/// The messages between the pointers of a ring of `count` entries that starts at `off`,
/// oldest first.
pub open spec fn queued<U>(ring: Seq<U>, off: int, rptr: int, wptr: int, count: int) -> Seq<U> {
    Seq::new(((wptr - rptr) % count) as nat, |i: int| ring[off + (rptr + i) % count])
}

/// The receiving end of a channel.
#[derive(Copy, Clone, Debug)]
pub struct RxChannel {
    pub rptr: [u32; 6],
    pub count: u32,
}

impl RxChannel {
    pub open spec fn wf(self) -> bool {
        &&& self.count > 0
        &&& forall|i: int| 0 <= i < MAX_SUB_CHANNELS ==> #[trigger] self.rptr@[i] < self.count
    }

    /// The ring memory is large enough for `index`.
    pub open spec fn fits(self, index: int, len: int) -> bool {
        0 <= index < MAX_SUB_CHANNELS && (index + 1) * self.count <= len
    }

    /// The messages waiting on sub-channel `index`, given the writer's pointer.
    pub open spec fn queued<U>(self, ring: Seq<U>, index: int, wptr: int) -> Seq<U> {
        queued(ring, index * self.count, self.rptr@[index] as int, wptr, self.count as int)
    }

    /// A channel whose sub-channels have `count` entries each.
    pub fn new(count: u32) -> (r: RxChannel)
        requires
            count > 0,
        ensures
            r.wf(),
            r.count == count,
            forall|i: int| 0 <= i < MAX_SUB_CHANNELS ==> #[trigger] r.rptr@[i] == 0,
    {
        RxChannel { rptr: [0, 0, 0, 0, 0, 0], count }
    }

    /// Takes the next message of sub-channel `index` out of the ring, if the writer's
    /// pointer says that there is one. The sub-channel's read pointer then has to be
    /// published.
    pub fn get<U: Copy>(&mut self, ring: &Vec<U>, wptr: u32, index: usize) -> (r: Option<U>)
        requires
            old(self).wf(),
            old(self).fits(index as int, ring@.len() as int),
        ensures
            final(self).wf(),
            final(self).count == old(self).count,
            wptr == old(self).rptr@[index as int] ==> {
                &&& r is None
                &&& *final(self) == *old(self)
            },
            wptr != old(self).rptr@[index as int] ==> {
                &&& r == Some(
                    ring@[index * old(self).count + old(self).rptr@[index as int]],
                )
                &&& final(self).rptr@ == old(self).rptr@.update(
                    index as int,
                    ((old(self).rptr@[index as int] + 1) % old(self).count as int) as u32,
                )
            },
    {
        let rptr: u32 = self.rptr[index];
        if wptr == rptr {
            None
        } else {
            assert(ring.len() <= usize::MAX);
            assert(index * self.count <= (index + 1) * self.count - self.count) by (nonlinear_arith);
            let off: usize = index * self.count as usize;
            let msg = ring[off + rptr as usize];
            self.rptr[index] = (rptr + 1) % self.count;
            Some(msg)
        }
    }
}

/// The sending end of a channel.
#[derive(Copy, Clone, Debug)]
pub struct TxChannel {
    pub wptr: u32,
    pub count: u32,
}

impl TxChannel {
    pub open spec fn wf(self) -> bool {
        self.wptr < self.count
    }

    pub open spec fn next_wptr(self) -> u32 {
        ((self.wptr + 1) % self.count as int) as u32
    }

    /// The messages in the ring, given the reader's pointer.
    pub open spec fn queued<U>(self, ring: Seq<U>, rptr: int) -> Seq<U> {
        queued(ring, 0, rptr, self.wptr as int, self.count as int)
    }

    pub fn new(count: u32) -> (r: TxChannel)
        requires
            count > 0,
        ensures
            r.wf(),
            r == (TxChannel { wptr: 0, count }),
    {
        TxChannel { wptr: 0, count }
    }

    /// Puts a message into the ring. The result is the new write pointer, which has to
    /// be published. `None` means that the ring is full: the sender waits until the
    /// reader's pointer has moved.
    pub fn put<U: Copy>(&mut self, ring: &mut Vec<U>, msg: &U, rptr: u32) -> (r: Option<u32>)
        requires
            old(self).wf(),
            old(ring)@.len() == old(self).count,
        ensures
            final(self).wf(),
            final(self).count == old(self).count,
            if rptr == old(self).next_wptr() {
                &&& r is None
                &&& *final(self) == *old(self)
                &&& final(ring)@ == old(ring)@
            } else {
                &&& r == Some(old(self).next_wptr())
                &&& final(self).wptr == old(self).next_wptr()
                &&& final(ring)@ == old(ring)@.update(old(self).wptr as int, *msg)
            },
    {
        let next_wptr: u32 = (self.wptr + 1) % self.count;
        if next_wptr == rptr {
            return None;
        }
        let at: usize = self.wptr as usize;
        ring.set(at, *msg);
        self.wptr = next_wptr;
        Some(next_wptr)
    }

    /// One look at the reader's pointer while waiting for it to reach `wptr`. `None`
    /// means to look again. After the deadline the pointer is not looked at any more.
    pub fn wait_for(wptr: u32, rptr: u32, now: u64, deadline: u64) -> (r: Option<Result<()>>)
        ensures
            r == if now >= deadline {
                Some(Err::<(), Error>(Error::ETIMEDOUT))
            } else if rptr == wptr {
                Some(Ok::<(), Error>(()))
            } else {
                None
            },
    {
        if now >= deadline {
            Some(Err(Error::ETIMEDOUT))
        } else if rptr == wptr {
            Some(Ok(()))
        } else {
            None
        }
    }
}

proof fn lemma_next_pointer(p: int, q: int, count: int)
    requires
        0 <= p < count,
        0 <= q < count,
    ensures
        p == q <==> (q - p) % count == 0,
        p != q ==> (q - (p + 1) % count) % count == (q - p) % count - 1,
        (p + 1) % count != q ==> ((p + 1) % count - q) % count == (p - q) % count + 1,
{
    lemma_mod_range(q - p, count);
    lemma_mod_range(p - q, count);
    if p + 1 < count {
        vstd::arithmetic::div_mod::lemma_small_mod((p + 1) as nat, count as nat);
    } else {
        vstd::arithmetic::div_mod::lemma_mod_self_0(count);
    }
    lemma_mod_range(q - (p + 1) % count, count);
    lemma_mod_range((p + 1) % count - q, count);
}

/// A number less than a modulus away from zero reduces by at most one addition.
proof fn lemma_mod_range(x: int, count: int)
    requires
        -count < x < count,
    ensures
        x >= 0 ==> x % count == x,
        x < 0 ==> x % count == x + count,
{
    if x >= 0 {
        vstd::arithmetic::div_mod::lemma_small_mod(x as nat, count as nat);
    } else {
        vstd::arithmetic::div_mod::lemma_mod_add_multiples_vanish(x, count);
        vstd::arithmetic::div_mod::lemma_small_mod((x + count) as nat, count as nat);
    }
}

proof fn lemma_ring_index(rptr: int, i: int, count: int)
    requires
        0 <= rptr < count,
        0 <= i,
    ensures
        0 <= (rptr + i) % count < count,
        ((rptr + 1) % count + i) % count == (rptr + (i + 1)) % count,
{
    vstd::arithmetic::div_mod::lemma_mod_bound(rptr + i, count);
    vstd::arithmetic::div_mod::lemma_add_mod_noop(rptr + 1, i, count);
    vstd::arithmetic::div_mod::lemma_add_mod_noop((rptr + 1) % count, i, count);
    vstd::arithmetic::div_mod::lemma_mod_twice(rptr + 1, count);
}

/// Receiving takes the oldest message and leaves the others in order. There is none
/// exactly if the pointers are equal.
pub proof fn law_get_takes_the_oldest<U>(
    ring: Seq<U>,
    off: int,
    rptr: int,
    wptr: int,
    count: int,
)
    requires
        0 <= rptr < count,
        0 <= wptr < count,
    ensures
        queued(ring, off, rptr, wptr, count).len() == 0 <==> rptr == wptr,
        rptr != wptr ==> {
            &&& queued(ring, off, rptr, wptr, count)[0] == ring[off + rptr]
            &&& queued(ring, off, (rptr + 1) % count, wptr, count) == queued(
                ring,
                off,
                rptr,
                wptr,
                count,
            ).drop_first()
        },
{
    lemma_next_pointer(rptr, wptr, count);
    if rptr != wptr {
        let before = queued(ring, off, rptr, wptr, count);
        let after = queued(ring, off, (rptr + 1) % count, wptr, count);
        vstd::arithmetic::div_mod::lemma_mod_bound(wptr - rptr, count);
        assert(before.len() > 0);
        vstd::arithmetic::div_mod::lemma_small_mod(rptr as nat, count as nat);
        assert forall|i: int| 0 <= i < after.len() implies after[i] == before.drop_first()[i] by {
            lemma_ring_index(rptr, i, count);
        }
        assert(after =~= before.drop_first());
    }
}

/// Sending appends the message and changes none that has not been read. The ring
/// counts as full with one entry to spare.
pub proof fn law_put_appends<U>(ring: Seq<U>, rptr: int, wptr: int, count: int, msg: U)
    requires
        0 <= rptr < count,
        0 <= wptr < count,
        ring.len() == count,
    ensures
        queued(ring, 0, rptr, wptr, count).len() == count - 1 <==> (wptr + 1) % count == rptr,
        (wptr + 1) % count != rptr ==> queued(
            ring.update(wptr, msg),
            0,
            rptr,
            (wptr + 1) % count,
            count,
        ) == queued(ring, 0, rptr, wptr, count).push(msg),
{
    lemma_next_pointer(wptr, rptr, count);
    lemma_mod_range(wptr - rptr, count);
    lemma_mod_range(rptr - wptr, count);
    vstd::arithmetic::div_mod::lemma_mod_bound(wptr + 1, count);
    if wptr + 1 < count {
        vstd::arithmetic::div_mod::lemma_small_mod((wptr + 1) as nat, count as nat);
    } else {
        vstd::arithmetic::div_mod::lemma_mod_self_0(count);
    }
    if (wptr + 1) % count != rptr {
        let before = queued(ring, 0, rptr, wptr, count);
        let after = queued(ring.update(wptr, msg), 0, rptr, (wptr + 1) % count, count);
        let n = (wptr - rptr) % count;
        assert(after.len() == n + 1);
        assert forall|i: int| 0 <= i <= n implies after[i] == before.push(msg)[i] by {
            lemma_ring_index(rptr, i, count);
            if rptr + i < count {
                vstd::arithmetic::div_mod::lemma_small_mod((rptr + i) as nat, count as nat);
            } else {
                vstd::arithmetic::div_mod::lemma_mod_add_multiples_vanish(rptr + i - count, count);
                vstd::arithmetic::div_mod::lemma_small_mod((rptr + i - count) as nat, count as nat);
            }
        }
        assert(after =~= before.push(msg));
    }
}

/// A message of the firmware on the event channel.
#[derive(Debug)]
pub enum EventMsg {
    /// The GPU faulted.
    Fault,
    /// A command took too long.
    Timeout { counter: u32, event_slot: u32 },
    /// Events whose stamps have advanced, one bit each.
    Flag { firing: Vec<u32> },
    /// A message that the driver knows of and does not expect.
    Other,
}

/// What the driver does about a message.
#[derive(Debug)]
pub enum EventAction {
    HandleFault,
    HandleTimeout { counter: u32, event_slot: u32 },
    /// Signal these events, in this order.
    Signal { slots: Vec<u32> },
    /// Nobody is there to handle it: complain.
    NoManager,
    /// The message is known, but was not to be expected: complain loudly.
    Unexpected,
    /// The message is not known: warn about it.
    Unknown,
}

/// Whether the bit of event `slot` is set.
pub open spec fn is_firing(firing: Seq<u32>, slot: int) -> bool {
    &&& 0 <= slot < 32 * firing.len()
    &&& (firing[slot / 32] & (1u32 << ((slot % 32) as u32))) != 0
}

/// The events whose bit is set, in ascending order.
pub fn fired(firing: &Vec<u32>) -> (r: Vec<u32>)
    requires
        firing@.len() <= 0x400_0000,
    ensures
        forall|k: int| 0 <= k < r@.len() ==> is_firing(firing@, #[trigger] r@[k] as int),
        forall|slot: u32| is_firing(firing@, slot as int) ==> #[trigger] r@.contains(slot),
        forall|k: int, l: int| 0 <= k < l < r@.len() ==> #[trigger] r@[k] < #[trigger] r@[l],
{
    let mut slots: Vec<u32> = Vec::new();
    let mut slot: u32 = 0;
    let total: u32 = 32 * firing.len() as u32;
    while slot < total
        invariant
            firing@.len() <= 0x400_0000,
            total == 32 * firing@.len(),
            slot <= total,
            forall|k: int| 0 <= k < slots@.len() ==> is_firing(firing@, #[trigger] slots@[k] as int),
            forall|k: int| 0 <= k < slots@.len() ==> #[trigger] slots@[k] < slot,
            forall|s: u32|
                s < slot && is_firing(firing@, s as int) ==> #[trigger] slots@.contains(s),
            forall|k: int, l: int|
                0 <= k < l < slots@.len() ==> #[trigger] slots@[k] < #[trigger] slots@[l],
        decreases total - slot,
    {
        let flags: u32 = firing[(slot / 32) as usize];
        if flags & (1u32 << (slot % 32)) != 0 {
            let ghost before = slots@;
            slots.push(slot);
            proof {
                assert(slots@.last() == slot);
                assert forall|s: u32| s < slot + 1 && is_firing(firing@, s as int) implies
                    #[trigger] slots@.contains(s) by {
                    if s < slot {
                        assert(before.contains(s));
                        let k = choose|k: int| 0 <= k < before.len() && before[k] == s;
                        assert(slots@[k] == s);
                    } else {
                        assert(slots@[slots@.len() - 1] == s);
                    }
                }
            }
        }
        slot = slot + 1;
    }
    slots
}

/// Decides about a message of the event channel. `None` stands for one whose tag is out
/// of range.
pub fn handle_event(msg: Option<EventMsg>, has_manager: bool) -> (r: EventAction)
    requires
        msg matches Some(EventMsg::Flag { firing }) ==> firing@.len() <= 0x400_0000,
    ensures
        match msg {
            Some(EventMsg::Fault) => r == if has_manager {
                EventAction::HandleFault
            } else {
                EventAction::NoManager
            },
            Some(EventMsg::Timeout { counter, event_slot }) => r == if has_manager {
                EventAction::HandleTimeout { counter, event_slot }
            } else {
                EventAction::NoManager
            },
            Some(EventMsg::Flag { firing }) => {
                &&& r is Signal
                &&& forall|k: int|
                    0 <= k < r->slots@.len() ==> is_firing(
                        firing@,
                        #[trigger] r->slots@[k] as int,
                    )
                &&& forall|slot: u32|
                    is_firing(firing@, slot as int) ==> #[trigger] r->slots@.contains(slot)
                &&& forall|k: int, l: int|
                    0 <= k < l < r->slots@.len() ==> #[trigger] r->slots@[k]
                        < #[trigger] r->slots@[l]
            },
            Some(EventMsg::Other) => r == EventAction::Unexpected,
            None => r == EventAction::Unknown,
        },
{
    match msg {
        Some(EventMsg::Fault) => if has_manager {
            EventAction::HandleFault
        } else {
            EventAction::NoManager
        },
        Some(EventMsg::Timeout { counter, event_slot }) => if has_manager {
            EventAction::HandleTimeout { counter, event_slot }
        } else {
            EventAction::NoManager
        },
        Some(EventMsg::Flag { firing }) => EventAction::Signal { slots: fired(&firing) },
        Some(EventMsg::Other) => EventAction::Unexpected,
        None => EventAction::Unknown,
    }
}

/// A log message: it says which payload entry holds the text.
#[derive(Copy, Clone, Debug)]
pub struct FwLogMsg {
    pub msg_type: u32,
    pub msg_index: u64,
}

/// A payload entry of the log.
#[derive(Debug)]
pub struct FwLogPayload {
    pub msg_type: u32,
    pub msg: Vec<u8>,
}

/// The severity that each log sub-channel stands for.
#[derive(Copy, Clone, Debug, PartialEq, Eq, Structural)]
pub enum LogLevel {
    Debug,
    Info,
    Notice,
    Warn,
    Error,
    Critical,
}

/// What to do with a log message.
#[derive(Debug)]
pub enum LogEntry {
    UnknownMessage,
    IndexOutOfBounds,
    UnknownPayload,
    NotTerminated,
    /// Log the text, which holds no NUL.
    Text { level: LogLevel, text: Vec<u8> },
}

pub open spec fn log_level(channel: int) -> LogLevel {
    if channel == 0 {
        LogLevel::Debug
    } else if channel == 1 {
        LogLevel::Info
    } else if channel == 2 {
        LogLevel::Notice
    } else if channel == 3 {
        LogLevel::Warn
    } else if channel == 4 {
        LogLevel::Error
    } else {
        LogLevel::Critical
    }
}

/// Where the first NUL is.
pub fn first_nul(bytes: &Vec<u8>) -> (r: Option<usize>)
    ensures
        match r {
            Some(end) => {
                &&& end < bytes@.len()
                &&& bytes@[end as int] == 0
                &&& forall|i: int| 0 <= i < end ==> #[trigger] bytes@[i] != 0
            },
            None => !bytes@.contains(0),
        },
{
    let mut i: usize = 0;
    while i < bytes.len()
        invariant
            i <= bytes@.len(),
            forall|k: int| 0 <= k < i ==> #[trigger] bytes@[k] != 0,
        decreases bytes@.len() - i,
    {
        if bytes[i] == 0 {
            return Some(i);
        }
        i = i + 1;
    }
    None
}

/// Reads a message of log sub-channel `channel`. The checks are made in the order in
/// which the outcomes are listed.
pub fn read_log(channel: usize, msg: &FwLogMsg, payload_buf: &Vec<FwLogPayload>) -> (r: LogEntry)
    requires
        channel < FWLOG_SUB_CHANNELS,
        payload_buf@.len() == FWLOG_BUF_SIZE * FWLOG_SUB_CHANNELS,
    ensures
        if msg.msg_type != 2 {
            r == LogEntry::UnknownMessage
        } else if msg.msg_index >= FWLOG_BUF_SIZE {
            r == LogEntry::IndexOutOfBounds
        } else {
            let payload = payload_buf@[FWLOG_BUF_SIZE * channel + msg.msg_index];
            if payload.msg_type != 3 {
                r == LogEntry::UnknownPayload
            } else if !payload.msg@.contains(0) {
                r == LogEntry::NotTerminated
            } else {
                &&& r is Text
                &&& r->level == log_level(channel as int)
                &&& !r->text@.contains(0)
                &&& r->text@.len() < payload.msg@.len()
                &&& payload.msg@[r->text@.len() as int] == 0
                &&& r->text@ == payload.msg@.take(r->text@.len() as int)
            }
        },
{
    if msg.msg_type != 2 {
        return LogEntry::UnknownMessage;
    }
    if msg.msg_index >= FWLOG_BUF_SIZE as u64 {
        return LogEntry::IndexOutOfBounds;
    }
    let index: usize = FWLOG_BUF_SIZE * channel + msg.msg_index as usize;
    let payload = &payload_buf[index];
    if payload.msg_type != 3 {
        return LogEntry::UnknownPayload;
    }
    match first_nul(&payload.msg) {
        None => LogEntry::NotTerminated,
        Some(end) => {
            assert(payload.msg@.contains(0)) by {
                assert(payload.msg@[end as int] == 0);
            }
            let mut text: Vec<u8> = Vec::new();
            let mut i: usize = 0;
            while i < end
                invariant
                    i <= end < payload.msg@.len(),
                    text@ =~= payload.msg@.take(i as int),
                decreases end - i,
            {
                text.push(payload.msg[i]);
                i = i + 1;
            }
            assert(!text@.contains(0));
            let level = if channel == 0 {
                LogLevel::Debug
            } else if channel == 1 {
                LogLevel::Info
            } else if channel == 2 {
                LogLevel::Notice
            } else if channel == 3 {
                LogLevel::Warn
            } else if channel == 4 {
                LogLevel::Error
            } else {
                LogLevel::Critical
            };
            LogEntry::Text { level, text }
        },
    }
}

/// The bit of an event is the one that its number says: 32 events to a word, the lowest bit
/// first.
pub proof fn law_event_bits(firing: Seq<u32>, slot: int)
    ensures
        is_firing(firing, slot) <==> 0 <= slot < 32 * firing.len() && (firing[slot / 32]
            / vstd::arithmetic::power2::pow2((slot % 32) as nat) as u32) % 2 == 1,
{
    if 0 <= slot < 32 * firing.len() {
        let f = firing[slot / 32];
        let k = (slot % 32) as u32;
        assert((f & (1u32 << k) != 0) == ((f >> k) % 2 == 1)) by (bit_vector)
            requires
                k < 32,
        ;
        vstd::bits::lemma_u32_shr_is_div(f, k);
        vstd::bits::lemma_u32_pow2_no_overflow(k as nat);
    }
}

/// Receiving from a channel hands out the oldest message that waits and leaves the others
/// waiting in order; it moves the pointer of that sub-channel alone.
pub proof fn law_receive_in_order<U: Copy>(
    ch: &mut RxChannel,
    ring: Vec<U>,
    wptr: u32,
    index: usize,
    r: Option<U>,
)
    requires
        old(ch).wf(),
        old(ch).fits(index as int, ring@.len() as int),
        wptr < old(ch).count,
        call_ensures(RxChannel::get::<U>, (ch, &ring, wptr, index), r),
    ensures
        r is None <==> old(ch).queued(ring@, index as int, wptr as int).len() == 0,
        r matches Some(msg) ==> {
            &&& msg == old(ch).queued(ring@, index as int, wptr as int)[0]
            &&& final(ch).queued(ring@, index as int, wptr as int) == old(ch).queued(
                ring@,
                index as int,
                wptr as int,
            ).drop_first()
        },
        r is None ==> final(ch).rptr@ == old(ch).rptr@,
        forall|i: int|
            0 <= i < 6 && i != index ==> #[trigger] final(ch).rptr@[i] == old(ch).rptr@[i],
        final(ch).count == old(ch).count,
{
    law_get_takes_the_oldest(
        ring@,
        index * old(ch).count,
        old(ch).rptr@[index as int] as int,
        wptr as int,
        old(ch).count as int,
    );
}

/// Sending to a channel appends the message, unless the ring is full, which it is with one
/// entry to spare; the pointer to publish is the channel's own.
pub proof fn law_send_in_order<U: Copy>(
    ch: &mut TxChannel,
    ring: &mut Vec<U>,
    msg: U,
    rptr: u32,
    r: Option<u32>,
)
    requires
        old(ch).wf(),
        old(ring)@.len() == old(ch).count,
        rptr < old(ch).count,
        call_ensures(TxChannel::put::<U>, (ch, ring, &msg, rptr), r),
    ensures
        r is None <==> old(ch).queued(old(ring)@, rptr as int).len() == old(ch).count - 1,
        r is None ==> *final(ch) == *old(ch) && final(ring)@ == old(ring)@,
        r matches Some(wptr) ==> {
            &&& wptr == final(ch).wptr
            &&& final(ch).queued(final(ring)@, rptr as int) == old(ch).queued(
                old(ring)@,
                rptr as int,
            ).push(msg)
        },
        final(ch).count == old(ch).count,
{
    law_put_appends(
        old(ring)@,
        rptr as int,
        old(ch).wptr as int,
        old(ch).count as int,
        msg,
    );
}

/// New channels are empty.
pub proof fn law_new_channels_are_empty<U>(
    count: u32,
    rx: RxChannel,
    tx: TxChannel,
    ring: Seq<U>,
    i: int,
)
    requires
        count > 0,
        call_ensures(RxChannel::new, (count,), rx),
        call_ensures(TxChannel::new, (count,), tx),
    ensures
        rx.count == count && tx.count == count,
        tx.wptr == 0,
        0 <= i < 6 ==> rx.rptr@[i] == 0 && rx.queued(ring, i, 0).len() == 0,
        tx.queued(ring, 0).len() == 0,
{
    vstd::arithmetic::div_mod::lemma_small_mod(0, count as nat);
    if 0 <= i < 6 {
        assert(rx.rptr@[i] == 0);
    }
}

/// A wait ends well when the reader has come as far as the message, badly when the deadline
/// has come, and goes on otherwise.
pub proof fn law_wait_ends(
    wptr: u32,
    rptr: u32,
    now: u64,
    deadline: u64,
    r: Option<Result<()>>,
)
    requires
        call_ensures(TxChannel::wait_for, (wptr, rptr, now, deadline), r),
    ensures
        r == Some(Err::<(), Error>(Error::ETIMEDOUT)) <==> deadline <= now,
        r == Some(Ok::<(), Error>(())) <==> now < deadline && rptr == wptr,
        r is None <==> now < deadline && rptr != wptr,
{
}

/// Every event that fires is signalled, once, and no other; faults and timeouts go to the
/// manager if there is one.
pub proof fn law_messages_are_acted_on(msg: Option<EventMsg>, has_manager: bool, r: EventAction)
    requires
        call_ensures(handle_event, (msg, has_manager), r),
    ensures
        msg is None <==> r is Unknown,
        msg matches Some(EventMsg::Other) ==> r is Unexpected,
        msg matches Some(EventMsg::Fault) ==> (if has_manager {
            r is HandleFault
        } else {
            r is NoManager
        }),
        msg matches Some(EventMsg::Timeout { counter: c, event_slot: s }) ==> (if has_manager {
            r matches EventAction::HandleTimeout { counter, event_slot } && counter == c
                && event_slot == s
        } else {
            r is NoManager
        }),
        msg matches Some(EventMsg::Flag { firing }) ==> r is Signal && forall|slot: u32|
            r->slots@.contains(slot) <==> #[trigger] is_firing(firing@, slot as int),
{
    if let Some(EventMsg::Flag { firing }) = msg {
        assert forall|slot: u32|
            r->slots@.contains(slot) implies #[trigger] is_firing(firing@, slot as int) by {
            let k = choose|k: int| 0 <= k < r->slots@.len() && r->slots@[k] == slot;
            assert(is_firing(firing@, r->slots@[k] as int));
        }
        assert forall|slot: u32| #[trigger]
            is_firing(firing@, slot as int) implies r->slots@.contains(slot) by {}
    }
}

/// The events that fire are listed once each, in ascending order.
pub proof fn law_fired_events_ascend(firing: Vec<u32>, r: Vec<u32>, k: int, l: int)
    requires
        call_ensures(fired, (&firing,), r),
        0 <= k < l < r@.len(),
    ensures
        r@[k] < r@[l],
        is_firing(firing@, r@[k] as int),
        r@.no_duplicates(),
{
}

/// A log message is told with the severity of its sub-channel, and its text is that of the
/// sub-channel's own payload entry, up to the first NUL.
pub proof fn law_log_messages_are_read(
    channel: usize,
    msg: FwLogMsg,
    payload_buf: Vec<FwLogPayload>,
    r: LogEntry,
)
    requires
        channel < 6,
        payload_buf@.len() == 0x600,
        call_ensures(read_log, (channel, &msg, &payload_buf), r),
    ensures
        r is UnknownMessage <==> msg.msg_type != 2,
        r is IndexOutOfBounds <==> msg.msg_type == 2 && msg.msg_index >= 0x100,
        msg.msg_type == 2 && msg.msg_index < 0x100 ==> ({
            let payload = payload_buf@[0x100 * channel + msg.msg_index];
            &&& r is UnknownPayload <==> payload.msg_type != 3
            &&& r is NotTerminated <==> payload.msg_type == 3 && !payload.msg@.contains(0u8)
            &&& r matches LogEntry::Text { level, text } ==> {
                &&& payload.msg_type == 3
                &&& text@.len() < payload.msg@.len()
                &&& payload.msg@[text@.len() as int] == 0
                &&& forall|i: int|
                    0 <= i < text@.len() ==> #[trigger] text@[i] == payload.msg@[i] && text@[i]
                        != 0
                &&& level is Debug <==> channel == 0
                &&& level is Info <==> channel == 1
                &&& level is Notice <==> channel == 2
                &&& level is Warn <==> channel == 3
                &&& level is Error <==> channel == 4
                &&& level is Critical <==> channel == 5
            }
        }),
{
    if let LogEntry::Text { level, text } = r {
        assert forall|i: int| 0 <= i < text@.len() implies #[trigger] text@[i] != 0 by {
            if text@[i] == 0 {
                assert(text@.contains(0u8));
            }
        }
    }
}

/// The first NUL is a NUL before which there is none.
pub proof fn law_first_nul(bytes: Vec<u8>, r: Option<usize>)
    requires
        call_ensures(first_nul, (&bytes,), r),
    ensures
        r is None <==> !bytes@.contains(0u8),
        r matches Some(end) ==> end < bytes@.len() && bytes@[end as int] == 0 && !bytes@.take(
            end as int,
        ).contains(0u8),
{
    if let Some(end) = r {
        assert(bytes@[end as int] == 0u8);
        if bytes@.take(end as int).contains(0u8) {
            let i = choose|i: int| 0 <= i < end && bytes@.take(end as int)[i] == 0u8;
            assert(bytes@[i] == 0);
        }
    }
}

} // verus!
