//! Work queues: rings of commands for one pipe of the GPU, committed in batches.
//!
//! A queue is worked on through a [`WorkQueueBatch`], which holds the queue while it is
//! open. Commands are added to the batch, `commit` makes them a unit that completes
//! with one event value, and `submit` tells the GPU to run the queue. Commands that
//! were added but not committed when the batch ends are taken back.
use crate::error::{Error, Result};
use crate::event::{Event, EventManager, EventValue, Token};
use crate::util::{low32, low_half};
use vstd::prelude::*;

verus! {

/// The number of entries of a command ring.
pub const WQ_SIZE: u32 = 0x500;

/// The size in bytes of the buffer that the firmware keeps for each queue.
pub const WQ_GPU_BUF_SIZE: u64 = 0x2c18;

/// The kind of work a queue takes.
#[derive(Copy, Clone, Debug, PartialEq, Eq, Structural)]
pub enum PipeType {
    Vertex,
    Fragment,
    Compute,
}

/// Tells the firmware to run a queue.
#[derive(Copy, Clone, Debug, PartialEq, Eq, Structural)]
pub struct RunWorkQueueMsg {
    pub pipe_type: PipeType,
    pub work_queue: u64,
    pub wptr: u32,
    pub event_slot: u32,
    pub is_new: bool,
}

/// The queue descriptor in GPU memory. The fields that start out as zero are left out.
#[derive(Copy, Clone, Debug, PartialEq, Eq, Structural)]
pub struct QueueInfo {
    pub state: u64,
    pub ring: u64,
    pub notifier_list: u64,
    pub gpu_buf: u64,
    pub event_id: i32,
    pub unk_4c: i32,
    pub uuid: u32,
    pub unk_54: i32,
    pub gpu_context: u64,
}

impl QueueInfo {
    /// The descriptor of queue `id`; its `uuid` is the low half of the id.
    pub fn new(
        state: u64,
        ring: u64,
        notifier_list: u64,
        gpu_buf: u64,
        gpu_context: u64,
        id: u64,
    ) -> (r: QueueInfo)
        ensures
            r == (QueueInfo {
                state,
                ring,
                notifier_list,
                gpu_buf,
                event_id: -1i32,
                unk_4c: -1i32,
                uuid: low32(id),
                unk_54: -1i32,
                gpu_context,
            }),
    {
        QueueInfo {
            state,
            ring,
            notifier_list,
            gpu_buf,
            event_id: -1,
            unk_4c: -1,
            uuid: low_half(id),
            unk_54: -1,
            gpu_context,
        }
    }
}

/// Commands that complete together, and the event value that says so.
#[derive(Copy, Clone, Debug)]
pub struct Batch {
    pub value: EventValue,
    pub commands: usize,
}

impl Batch {
    pub fn value(&self) -> (r: EventValue)
        ensures
            r == self.value,
    {
        self.value
    }
}

/// The number of commands in some batches.
pub open spec fn total(batches: Seq<Batch>) -> nat
    decreases batches.len(),
{
    if batches.len() == 0 {
        0
    } else {
        (total(batches.drop_last()) + batches.last().commands) as nat
    }
}

proof fn lemma_total_split(batches: Seq<Batch>, n: int)
    requires
        0 <= n <= batches.len(),
    ensures
        total(batches) == total(batches.take(n)) + total(batches.skip(n)),
    decreases batches.len(),
{
    if n == batches.len() {
        assert(batches.take(n) =~= batches);
        assert(batches.skip(n) =~= Seq::<Batch>::empty());
    } else {
        lemma_total_split(batches.drop_last(), n);
        assert(batches.drop_last().take(n) =~= batches.take(n));
        assert(batches.skip(n).drop_last() =~= batches.drop_last().skip(n));
        assert(batches.skip(n).last() == batches.last());
    }
}

proof fn lemma_total_take_step(batches: Seq<Batch>, n: int)
    requires
        0 <= n < batches.len(),
    ensures
        total(batches.take(n + 1)) == total(batches.take(n)) + batches[n].commands,
        total(batches.take(n + 1)) <= total(batches),
{
    assert(batches.take(n + 1).drop_last() =~= batches.take(n));
    lemma_total_split(batches, n + 1);
}

/// The event of a queue, and the value that its last batch completes with.
pub struct QueueEvent {
    pub event: Event,
    pub value: EventValue,
}

/// What a queue holds.
#[verifier::ext_equal]
pub struct Queue<C> {
    pub info: u64,
    pub is_new: bool,
    pub pipe_type: PipeType,
    /// Where the next committed command goes.
    pub wptr: u32,
    /// The addresses in the ring.
    pub ring: Seq<u64>,
    /// The commands that have not completed, oldest first.
    pub pending: Seq<C>,
    /// The batches that have not completed, oldest first.
    pub batches: Seq<Batch>,
    pub last_token: Option<Token>,
    pub event: Option<QueueEvent>,
}

impl<C> Queue<C> {
    /// `open` commands have been added and not committed; all others belong to a batch.
    /// The batches have consecutive event values, the last one that of the event.
    pub open spec fn wf(self, open: int) -> bool {
        &&& self.ring.len() == WQ_SIZE
        &&& self.wptr < WQ_SIZE
        &&& open >= 0
        &&& self.pending.len() == total(self.batches) + open
        &&& self.batches.len() > 0 ==> self.event is Some
        &&& forall|i: int|
            0 <= i < self.batches.len() ==> {
                &&& (#[trigger] self.batches[i]).commands > 0
                &&& self.batches[i].value == self.event->0.value.plus(i + 1 - self.batches.len())
            }
    }

    /// How many of the oldest batches the event value `cur` completes: those up to the
    /// first whose value it has not reached.
    pub open spec fn done(self, cur: EventValue) -> nat {
        done_count(self.batches, cur)
    }

    /// The state after `cur` has been seen.
    pub open spec fn signalled(self, cur: EventValue) -> Queue<C> {
        let n = self.done(cur) as int;
        Queue {
            batches: self.batches.skip(n),
            pending: self.pending.skip(total(self.batches.take(n)) as int),
            event: if n == self.batches.len() {
                None
            } else {
                self.event
            },
            ..self
        }
    }
}

pub open spec fn done_count(batches: Seq<Batch>, cur: EventValue) -> nat
    decreases batches.len(),
{
    if batches.len() == 0 || !batches[0].value.le(cur) {
        0
    } else {
        1 + done_count(batches.skip(1), cur)
    }
}

/// `done_count` is where the first batch stands whose value has not been reached.
pub proof fn lemma_done_count(batches: Seq<Batch>, cur: EventValue, n: int)
    requires
        0 <= n <= batches.len(),
        forall|i: int| 0 <= i < n ==> (#[trigger] batches[i]).value.le(cur),
        n < batches.len() ==> !batches[n].value.le(cur),
    ensures
        done_count(batches, cur) == n,
    decreases batches.len(),
{
    if n > 0 {
        assert forall|i: int| 0 <= i < n - 1 implies (#[trigger] batches.skip(1)[i]).value.le(
            cur,
        ) by {
            assert(batches.skip(1)[i] == batches[i + 1]);
        }
        assert(batches[0].value.le(cur));
        lemma_done_count(batches.skip(1), cur, n - 1);
    }
}

proof fn lemma_done_count_bounds(batches: Seq<Batch>, cur: EventValue)
    ensures
        done_count(batches, cur) <= batches.len(),
        forall|i: int|
            0 <= i < done_count(batches, cur) ==> (#[trigger] batches[i]).value.le(cur),
        done_count(batches, cur) < batches.len() ==> !batches[done_count(
            batches,
            cur,
        ) as int].value.le(cur),
    decreases batches.len(),
{
    if batches.len() > 0 && batches[0].value.le(cur) {
        let rest = batches.skip(1);
        lemma_done_count_bounds(rest, cur);
        assert forall|i: int| 0 <= i < done_count(batches, cur) implies (
        #[trigger] batches[i]).value.le(cur) by {
            if i > 0 {
                assert(rest[i - 1] == batches[i]);
            }
        }
        let k = done_count(rest, cur) as int;
        if k < rest.len() {
            assert(rest[k] == batches[k + 1]);
        }
    }
}

/// A queue of commands, each an object `C` that has to live until it completes.
pub struct WorkQueue<C> {
    info: u64,
    is_new: bool,
    pipe_type: PipeType,
    size: u32,
    wptr: u32,
    ring: Vec<u64>,
    pending: Vec<C>,
    batches: Vec<Batch>,
    last_token: Option<Token>,
    event: Option<QueueEvent>,
}

impl<C> View for WorkQueue<C> {
    type V = Queue<C>;

    closed spec fn view(&self) -> Queue<C> {
        Queue {
            info: self.info,
            is_new: self.is_new,
            pipe_type: self.pipe_type,
            wptr: self.wptr,
            ring: self.ring@,
            pending: self.pending@,
            batches: self.batches@,
            last_token: self.last_token,
            event: self.event,
        }
    }
}

/// What `signal` found.
pub struct Signalled {
    /// Nothing is left in the queue.
    pub empty: bool,
    /// The batches that completed, oldest first. Whoever waits for them can go on.
    pub completed: Vec<Batch>,
    /// The event, if the queue no longer needs it.
    pub released: Option<Event>,
}

impl<C> WorkQueue<C> {
    pub closed spec fn wf(&self) -> bool {
        &&& self.size == WQ_SIZE
        &&& self@.wf(0)
    }

    /// What `wf` says of the contents.
    pub proof fn lemma_wf(&self)
        requires
            self.wf(),
        ensures
            self@.wf(0),
    {
    }

    /// An empty queue whose descriptor lies at `info`.
    pub fn new(info: u64, pipe_type: PipeType) -> (r: WorkQueue<C>)
        ensures
            r.wf(),
            r@ == (Queue::<C> {
                info,
                is_new: true,
                pipe_type,
                wptr: 0,
                ring: Seq::new(WQ_SIZE as nat, |i: int| 0u64),
                pending: Seq::empty(),
                batches: Seq::empty(),
                last_token: None,
                event: None,
            }),
    {
        let mut ring: Vec<u64> = Vec::new();
        let mut i: u32 = 0;
        while i < WQ_SIZE
            invariant
                i <= WQ_SIZE,
                ring@ =~= Seq::new(i as nat, |i: int| 0u64),
            decreases WQ_SIZE - i,
        {
            ring.push(0);
            i = i + 1;
        }
        WorkQueue {
            info,
            is_new: true,
            pipe_type,
            size: WQ_SIZE,
            wptr: 0,
            ring,
            pending: Vec::new(),
            batches: Vec::new(),
            last_token: None,
            event: None,
        }
    }

    pub fn info_pointer(&self) -> (r: u64)
        ensures
            r == self@.info,
    {
        self.info
    }

    pub fn pipe_type(&self) -> (r: PipeType)
        ensures
            r == self@.pipe_type,
    {
        self.pipe_type
    }

    /// Where the GPU stops: the value of the ring's write pointer.
    pub fn wptr(&self) -> (r: u32)
        ensures
            r == self@.wptr,
    {
        self.wptr
    }

    /// Whether a batch needs an event before it can begin.
    pub fn needs_event(&self) -> (r: bool)
        ensures
            r == (self@.event is None),
    {
        self.event.is_none()
    }

    /// One attempt to get an event for the queue, preferably the one it had last.
    pub fn get_event(&self, events: &mut EventManager) -> (r: Option<Event>)
        requires
            old(events)@.wf(),
            old(events)@.can_get(self@.last_token),
            self@.last_token is Some ==> self@.last_token->0.slot < old(events)@.slots.len(),
        ensures
            final(events)@.wf(),
            old(events)@.get_gives(self@.last_token, r, final(events)@),
    {
        events.get(self.last_token)
    }

    /// Opens a batch. A queue without an event is given one, with its current value;
    /// one that has an event keeps it.
    pub fn begin_batch(self, event: Option<QueueEvent>) -> (r: WorkQueueBatch<C>)
        requires
            self.wf(),
            self@.event is None ==> event is Some,
        ensures
            r.wf(),
            r@.commands == 0,
            r@.wptr == self@.wptr,
            r@.queue == if self@.event is None {
                Queue {
                    event,
                    last_token: Some(event->0.event.token),
                    ..self@
                }
            } else {
                self@
            },
    {
        let mut inner = self;
        if inner.event.is_none() {
            if let Some(event) = event {
                inner.last_token = Some(event.event.token());
                inner.event = Some(event);
            }
        }
        let wptr: u32 = inner.wptr;
        WorkQueueBatch { inner, commands: 0, wptr }
    }

    /// Takes note of the value of the queue's event. The oldest batches that it
    /// completes leave the queue with their commands, and an empty queue gives its
    /// event up. Without an event there is nothing to do.
    pub fn signal(&mut self, cur_value: EventValue) -> (r: Signalled)
        requires
            old(self).wf(),
        ensures
            final(self).wf(),
            r.empty == (final(self)@.batches.len() == 0),
            old(self)@.event is None ==> {
                &&& final(self)@ == old(self)@
                &&& r.completed@ == Seq::<Batch>::empty()
                &&& r.released is None
            },
            old(self)@.event is Some ==> {
                &&& final(self)@ == old(self)@.signalled(cur_value)
                &&& r.completed@ == old(self)@.batches.take(old(self)@.done(cur_value) as int)
                &&& r.released == if r.empty {
                    Some(old(self)@.event->0.event)
                } else {
                    None
                }
            },
    {
        if self.event.is_none() {
            return Signalled { empty: true, completed: Vec::new(), released: None };
        }
        let mut completed_commands: usize = 0;
        let mut batches: usize = 0;
        while batches < self.batches.len() && self.batches[batches].value <= cur_value
            invariant
                *self == *old(self),
                self.wf(),
                batches <= self.batches@.len(),
                completed_commands == total(self.batches@.take(batches as int)),
                completed_commands <= self.pending@.len(),
                forall|i: int| 0 <= i < batches ==> (#[trigger] self.batches@[i]).value.le(cur_value),
            ensures
                batches < self.batches@.len() ==> !self.batches@[batches as int].value.le(cur_value),
            decreases self.batches@.len() - batches,
        {
            proof {
                lemma_total_take_step(self.batches@, batches as int);
                assert(self.pending.len() <= usize::MAX);
            }
            completed_commands = completed_commands + self.batches[batches].commands;
            batches = batches + 1;
        }
        let ghost n = batches as int;
        proof {
            lemma_done_count(self.batches@, cur_value, n);
            lemma_total_split(self.batches@, n);
        }
        let mut completed: Vec<Batch> = self.batches.split_off(batches);
        core::mem::swap(&mut completed, &mut self.batches);
        let mut pending: Vec<C> = self.pending.split_off(completed_commands);
        core::mem::swap(&mut pending, &mut self.pending);
        let empty = self.batches.len() == 0;
        let mut released: Option<Event> = None;
        if empty {
            if let Some(event) = self.event.take() {
                released = Some(event.event);
            }
        }
        proof {
            assert(completed@ =~= old(self)@.batches.take(n));
            assert(self@ =~= old(self)@.signalled(cur_value));
            assert forall|i: int| 0 <= i < self@.batches.len() implies {
                &&& (#[trigger] self@.batches[i]).commands > 0
                &&& self@.batches[i].value == self@.event->0.value.plus(i + 1 - self@.batches.len())
            } by {
                assert(self@.batches[i] == old(self)@.batches[i + n]);
            }
        }
        Signalled { empty, completed, released }
    }
}

/// What an open batch holds: its queue, and how far it has come.
#[verifier::ext_equal]
pub struct OpenBatch<C> {
    pub queue: Queue<C>,
    /// The commands added since the last commit.
    pub commands: nat,
    /// Where the next command goes.
    pub wptr: u32,
}

impl<C> OpenBatch<C> {
    pub open spec fn wf(self) -> bool {
        &&& self.queue.wf(self.commands as int)
        &&& self.wptr < WQ_SIZE
        &&& self.queue.event is Some
        &&& self.commands == 0 ==> self.wptr == self.queue.wptr
    }

    pub open spec fn next_wptr(self) -> u32 {
        ((self.wptr + 1) % WQ_SIZE as int) as u32
    }

    /// The state after a command has been added.
    pub open spec fn added(self, gpu_va: u64, command: C) -> OpenBatch<C> {
        OpenBatch {
            queue: Queue {
                ring: self.queue.ring.update(self.wptr as int, gpu_va),
                pending: self.queue.pending.push(command),
                ..self.queue
            },
            commands: self.commands + 1,
            wptr: self.next_wptr(),
        }
    }

    /// The batch that a commit makes.
    pub open spec fn batch(self) -> Batch {
        Batch { value: self.queue.event->0.value.plus(1), commands: self.commands as usize }
    }

    /// The state after a commit.
    pub open spec fn committed(self) -> OpenBatch<C> {
        OpenBatch {
            queue: Queue {
                event: Some(
                    QueueEvent {
                        event: self.queue.event->0.event,
                        value: self.queue.event->0.value.plus(1),
                    },
                ),
                wptr: self.wptr,
                batches: self.queue.batches.push(self.batch()),
                ..self.queue
            },
            commands: 0,
            ..self
        }
    }

    /// The queue after the batch has ended: what was not committed is taken back.
    pub open spec fn ended(self) -> Queue<C> {
        Queue {
            pending: self.queue.pending.take(self.queue.pending.len() - self.commands),
            ..self.queue
        }
    }
}

/// A queue that commands are being added to.
pub struct WorkQueueBatch<C> {
    inner: WorkQueue<C>,
    commands: usize,
    wptr: u32,
}

impl<C> View for WorkQueueBatch<C> {
    type V = OpenBatch<C>;

    closed spec fn view(&self) -> OpenBatch<C> {
        OpenBatch { queue: self.inner@, commands: self.commands as nat, wptr: self.wptr }
    }
}

impl<C> WorkQueueBatch<C> {
    pub closed spec fn wf(&self) -> bool {
        &&& self.inner.size == WQ_SIZE
        &&& self@.wf()
    }

    /// What `wf` says of the contents.
    pub proof fn lemma_wf(&self)
        requires
            self.wf(),
        ensures
            self@.wf(),
    {
    }

    /// Adds a command, an object at `gpu_va`. `doneptr` is how far the GPU has come in
    /// the ring. If the ring is full nothing changes and the command is handed back: it
    /// can be added once the GPU has come further.
    pub fn add(&mut self, gpu_va: u64, command: C, doneptr: u32) -> (r: Option<C>)
        requires
            old(self).wf(),
        ensures
            final(self).wf(),
            if doneptr == old(self)@.next_wptr() {
                &&& r == Some(command)
                &&& final(self)@ == old(self)@
            } else {
                &&& r is None
                &&& final(self)@ == old(self)@.added(gpu_va, command)
            },
    {
        let next_wptr: u32 = (self.wptr + 1) % self.inner.size;
        if doneptr == next_wptr {
            return Some(command);
        }
        let at: usize = self.wptr as usize;
        self.inner.ring.set(at, gpu_va);
        self.wptr = next_wptr;
        self.inner.pending.push(command);
        let len: usize = self.inner.pending.len();
        assert(self.commands < len);
        self.commands = self.commands + 1;
        assert(self@ =~= old(self)@.added(gpu_va, command));
        None
    }

    /// Makes a unit of the commands added so far. The GPU may run up to the queue's new
    /// write pointer. Without commands there is nothing to commit.
    pub fn commit(&mut self) -> (r: Result<Batch>)
        requires
            old(self).wf(),
        ensures
            final(self).wf(),
            if old(self)@.commands == 0 {
                &&& r == Err::<Batch, Error>(Error::EINVAL)
                &&& final(self)@ == old(self)@
            } else {
                &&& r == Ok::<Batch, Error>(old(self)@.batch())
                &&& final(self)@ == old(self)@.committed()
            },
    {
        if self.commands == 0 {
            return Err(Error::EINVAL);
        }
        let mut event_value = self.event_value();
        event_value.increment();
        if let Some(event) = self.inner.event.take() {
            self.inner.event = Some(QueueEvent { event: event.event, value: event_value });
        }
        self.inner.wptr = self.wptr;
        let batch = Batch { value: event_value, commands: self.commands };
        self.inner.batches.push(batch);
        self.commands = 0;
        proof {
            let before = old(self)@.queue;
            let after = self@.queue;
            assert(self@ =~= old(self)@.committed());
            assert(after.batches.drop_last() =~= before.batches);
            assert forall|i: int| 0 <= i < after.batches.len() implies {
                &&& (#[trigger] after.batches[i]).commands > 0
                &&& after.batches[i].value == after.event->0.value.plus(i + 1 - after.batches.len())
            } by {
                crate::event::law_steps_add_up(before.event->0.value, 1, i + 1 - after.batches.len());
                crate::event::law_steps_add_up(event_value, 0, 0);
                if i < before.batches.len() {
                    assert(after.batches[i] == before.batches[i]);
                }
            }
        }
        Ok(batch)
    }

    /// Ends the batch and says what to send so that the GPU runs the queue. With
    /// commands that were not committed it fails, and they are taken back.
    pub fn submit(self) -> (r: (WorkQueue<C>, Result<RunWorkQueueMsg>))
        requires
            self.wf(),
        ensures
            r.0.wf(),
            if self@.commands != 0 {
                &&& r.1 == Err::<RunWorkQueueMsg, Error>(Error::EINVAL)
                &&& r.0@ == self@.ended()
            } else {
                &&& r.1 == Ok::<RunWorkQueueMsg, Error>(
                    (RunWorkQueueMsg {
                        pipe_type: self@.queue.pipe_type,
                        work_queue: self@.queue.info,
                        wptr: self@.queue.wptr,
                        event_slot: self@.queue.event->0.event.token.slot,
                        is_new: self@.queue.is_new,
                    }),
                )
                &&& r.0@ == (Queue { is_new: false, ..self@.queue })
            },
    {
        if self.commands != 0 {
            return (self.end(), Err(Error::EINVAL));
        }
        let event_slot: u32 = self.event().slot();
        let mut inner = self.inner;
        let msg = RunWorkQueueMsg {
            pipe_type: inner.pipe_type,
            work_queue: inner.info,
            wptr: inner.wptr,
            event_slot,
            is_new: inner.is_new,
        };
        inner.is_new = false;
        (inner, Ok(msg))
    }

    /// Ends the batch. Commands that were not committed are taken back.
    pub fn end(self) -> (r: WorkQueue<C>)
        requires
            self.wf(),
        ensures
            r.wf(),
            r@ == self@.ended(),
    {
        let mut inner = self.inner;
        if self.commands != 0 {
            let new_len: usize = inner.pending.len() - self.commands;
            inner.pending.truncate(new_len);
        }
        assert(inner@ =~= self@.ended());
        inner
    }

    pub fn info_pointer(&self) -> (r: u64)
        ensures
            r == self@.queue.info,
    {
        self.inner.info
    }

    /// Where in the ring the next command goes.
    pub fn wptr(&self) -> (r: u32)
        ensures
            r == self@.wptr,
    {
        self.wptr
    }

    pub fn event(&self) -> (r: &Event)
        requires
            self.wf(),
        ensures
            *r == self@.queue.event->0.event,
    {
        &self.inner.event.as_ref().unwrap().event
    }

    pub fn event_value(&self) -> (r: EventValue)
        requires
            self.wf(),
        ensures
            r == self@.queue.event->0.value,
    {
        self.inner.event.as_ref().unwrap().value
    }

    pub fn pipe_type(&self) -> (r: PipeType)
        ensures
            r == self@.queue.pipe_type,
    {
        self.inner.pipe_type
    }
}

/// How many ring entries lie from `from` up to `to`, going around.
pub open spec fn ring_distance(from: int, to: int) -> int {
    (to - from) % WQ_SIZE as int
}

/// A command never goes over one that the GPU has not finished: if the GPU has come to
/// `doneptr` and the ring is not full, the entries from there to the write pointer stay
/// as they are, and one entry is added behind them.
pub proof fn law_add_spares_unfinished_entries<C>(
    open: OpenBatch<C>,
    gpu_va: u64,
    command: C,
    doneptr: u32,
)
    requires
        open.wf(),
        doneptr < WQ_SIZE,
        doneptr != open.next_wptr(),
    ensures
        forall|i: int|
            0 <= i < WQ_SIZE && ring_distance(doneptr as int, i) < ring_distance(
                doneptr as int,
                open.wptr as int,
            ) ==> #[trigger] open.added(gpu_va, command).queue.ring[i] == open.queue.ring[i],
        open.added(gpu_va, command).queue.ring[open.wptr as int] == gpu_va,
        ring_distance(doneptr as int, open.added(gpu_va, command).wptr as int) == ring_distance(
            doneptr as int,
            open.wptr as int,
        ) + 1,
{
}

/// Ending a batch undoes every command that was added and not committed: the queue is
/// as it was when the batch began, but for ring entries that the GPU does not look at.
pub proof fn law_end_takes_back_what_was_added<C>(open: OpenBatch<C>, gpu_va: u64, command: C)
    requires
        open.wf(),
    ensures
        open.added(gpu_va, command).ended().pending == open.ended().pending,
        open.added(gpu_va, command).ended() == (Queue {
            ring: open.added(gpu_va, command).queue.ring,
            ..open.ended()
        }),
        forall|i: int|
            0 <= i < WQ_SIZE && i != open.wptr ==> #[trigger] open.added(
                gpu_va,
                command,
            ).queue.ring[i] == open.queue.ring[i],
        open.commands == 0 ==> open.ended() == open.queue,
{
    let pending = open.queue.pending;
    assert(open.added(gpu_va, command).ended().pending =~= open.ended().pending);
    if open.commands == 0 {
        assert(open.ended().pending =~= pending);
    }
}

/// Commands are only ever lost by ending a batch or by completing: a commit keeps them
/// all, in order, and counts each in exactly one batch.
pub proof fn law_commit_keeps_the_commands<C>(open: OpenBatch<C>)
    requires
        open.wf(),
        0 < open.commands <= usize::MAX,
    ensures
        open.committed().wf(),
        open.committed().ended() == open.committed().queue,
        open.committed().queue.pending == open.queue.pending,
        total(open.committed().queue.batches) == total(open.queue.batches) + open.commands,
        open.committed().queue.batches.last().value.ahead(open.queue.event->0.value) == 0x100,
{
    let before = open.queue;
    let after = open.committed().queue;
    assert(after.batches.drop_last() =~= before.batches);
    assert forall|i: int| 0 <= i < after.batches.len() implies {
        &&& (#[trigger] after.batches[i]).commands > 0
        &&& after.batches[i].value == after.event->0.value.plus(i + 1 - after.batches.len())
    } by {
        crate::event::law_steps_add_up(before.event->0.value, 1, i + 1 - after.batches.len());
        crate::event::law_steps_add_up(after.event->0.value, 0, 0);
        if i < before.batches.len() {
            assert(after.batches[i] == before.batches[i]);
        }
    }
    assert(open.committed().ended().pending =~= after.pending);
    crate::event::law_next_is_later(before.event->0.value);
}

/// Completion is in order and complete: with fewer than 2^22 batches outstanding, and
/// the event at a value not further back, exactly the batches whose value has been
/// reached leave the queue. Their commands leave with them, and no others.
pub proof fn law_signal_completes_what_was_reached<C>(queue: Queue<C>, cur: EventValue)
    requires
        queue.wf(0),
        queue.event is Some,
        queue.batches.len() < 0x40_0000,
        0 <= queue.event->0.value.ahead(cur) < 0x4000_0000,
    ensures
        forall|i: int|
            0 <= i < queue.batches.len() ==> ((#[trigger] queue.batches[i]).value.le(cur) <==> i
                < queue.done(cur)),
        queue.signalled(cur).wf(0),
        queue.signalled(cur).pending.len() == queue.pending.len() - total(
            queue.batches.take(queue.done(cur) as int),
        ),
{
    let n = queue.done(cur) as int;
    let last = queue.event->0.value;
    let len = queue.batches.len() as int;
    lemma_done_count_bounds(queue.batches, cur);
    lemma_total_split(queue.batches, n);
    assert forall|i: int| 0 <= i < queue.batches.len() implies ((
    #[trigger] queue.batches[i]).value.le(cur) <==> i < n) by {
        if i >= n {
            assert(queue.batches[n].value == last.plus(-(len - 1 - n)));
            assert(queue.batches[i].value == last.plus(-(len - 1 - i)));
            crate::event::law_steps_back(last, cur, len - 1 - n);
            crate::event::law_steps_back(last, cur, len - 1 - i);
        }
    }
    let after = queue.signalled(cur);
    assert forall|i: int| 0 <= i < after.batches.len() implies {
        &&& (#[trigger] after.batches[i]).commands > 0
        &&& after.batches[i].value == after.event->0.value.plus(i + 1 - after.batches.len())
    } by {
        assert(after.batches[i] == queue.batches[i + n]);
    }
}

/// Once the event has reached the value of the last batch, the queue is empty and gives
/// its event up.
pub proof fn law_last_value_empties_the_queue<C>(queue: Queue<C>)
    requires
        queue.wf(0),
        queue.event is Some,
        queue.batches.len() < 0x40_0000,
    ensures
        queue.signalled(queue.event->0.value).batches.len() == 0,
        queue.signalled(queue.event->0.value).pending.len() == 0,
        queue.signalled(queue.event->0.value).event is None,
{
    let cur = queue.event->0.value;
    assert(cur.ahead(cur) == 0);
    law_signal_completes_what_was_reached(queue, cur);
    let n = queue.done(cur) as int;
    let len = queue.batches.len() as int;
    lemma_done_count_bounds(queue.batches, cur);
    if n < len {
        let b = queue.batches[n];
        assert(b.value == cur.plus(n + 1 - len));
        crate::event::law_steps_add_up(cur, n + 1 - len, len - 1 - n);
        crate::event::law_steps_are_ordered(b.value, len - 1 - n);
    }
    assert(queue.batches.take(n) =~= queue.batches);
}

/// The descriptor of a queue names its parts where they are, knows no event yet, and is
/// told apart by the low half of the queue's id.
pub proof fn law_queue_descriptor(
    state: u64,
    ring: u64,
    notifier_list: u64,
    gpu_buf: u64,
    gpu_context: u64,
    id: u64,
    r: QueueInfo,
)
    requires
        call_ensures(QueueInfo::new, (state, ring, notifier_list, gpu_buf, gpu_context, id), r),
    ensures
        r.state == state,
        r.ring == ring,
        r.notifier_list == notifier_list,
        r.gpu_buf == gpu_buf,
        r.gpu_context == gpu_context,
        r.uuid == id % 0x1_0000_0000,
        r.event_id == r.unk_4c == r.unk_54 == -1,
{
}

/// A new queue is empty, new to the firmware, and has a ring of zeroes.
pub proof fn law_new_queue<C>(info: u64, pipe_type: PipeType, r: WorkQueue<C>, i: int)
    requires
        call_ensures(WorkQueue::<C>::new, (info, pipe_type), r),
    ensures
        r@.info == info,
        r@.pipe_type == pipe_type,
        r@.is_new,
        r@.wptr == 0,
        r@.ring.len() == 0x500,
        0 <= i < 0x500 ==> r@.ring[i] == 0,
        r@.pending.len() == 0 && r@.batches.len() == 0,
        r@.event is None && r@.last_token is None,
{
}

/// A batch begins where the queue stands. A queue that has an event keeps it; one without
/// takes the one that it is given, and remembers it.
pub proof fn law_batch_begins<C>(
    queue: WorkQueue<C>,
    event: Option<QueueEvent>,
    r: WorkQueueBatch<C>,
)
    requires
        queue.wf(),
        queue@.event is None ==> event is Some,
        call_ensures(WorkQueue::<C>::begin_batch, (queue, event), r),
    ensures
        r@.commands == 0,
        r@.wptr == r@.queue.wptr == queue@.wptr,
        queue@.event is Some ==> r@.queue.event == queue@.event && r@.queue.last_token
            == queue@.last_token,
        queue@.event is None ==> r@.queue.event == event && r@.queue.last_token == Some(
            event->0.event.token,
        ),
        r@.queue.pending == queue@.pending,
        r@.queue.batches == queue@.batches,
        r@.queue.ring == queue@.ring,
        r@.queue.info == queue@.info,
        r@.queue.pipe_type == queue@.pipe_type,
        r@.queue.is_new == queue@.is_new,
{
}

/// A command goes into the next entry of the ring and behind the commands before it,
/// unless the ring is full; what the GPU may run does not change before a commit.
pub proof fn law_commands_are_added<C>(
    batch: &mut WorkQueueBatch<C>,
    gpu_va: u64,
    command: C,
    doneptr: u32,
    r: Option<C>,
)
    requires
        old(batch).wf(),
        call_ensures(WorkQueueBatch::<C>::add, (batch, gpu_va, command, doneptr), r),
    ensures
        r is Some <==> doneptr as int == (old(batch)@.wptr + 1) % 0x500,
        r is Some ==> r == Some(command) && final(batch)@ == old(batch)@,
        r is None ==> {
            &&& final(batch)@.wptr as int == (old(batch)@.wptr + 1) % 0x500
            &&& final(batch)@.commands == old(batch)@.commands + 1
            &&& final(batch)@.queue.pending.len() == old(batch)@.queue.pending.len() + 1
            &&& final(batch)@.queue.pending.last() == command
            &&& final(batch)@.queue.pending.drop_last() =~= old(batch)@.queue.pending
            &&& final(batch)@.queue.ring =~= old(batch)@.queue.ring.update(
                old(batch)@.wptr as int,
                gpu_va,
            )
        },
        final(batch)@.queue.wptr == old(batch)@.queue.wptr,
        final(batch)@.queue.batches == old(batch)@.queue.batches,
        final(batch)@.queue.event == old(batch)@.queue.event,
        final(batch)@.queue.info == old(batch)@.queue.info,
        final(batch)@.queue.pipe_type == old(batch)@.queue.pipe_type,
        final(batch)@.queue.is_new == old(batch)@.queue.is_new,
{
    old(batch).lemma_wf();
}

/// A commit makes one batch of all that was added, to complete with the next value of the
/// event, and lets the GPU run up to where the batch stands. An empty one is refused.
pub proof fn law_commit_makes_a_batch<C>(batch: &mut WorkQueueBatch<C>, r: Result<Batch>)
    requires
        old(batch).wf(),
        call_ensures(WorkQueueBatch::<C>::commit, (batch,), r),
    ensures
        r is Err <==> old(batch)@.commands == 0,
        r is Err ==> r == Err::<Batch, Error>(Error::EINVAL) && final(batch)@ == old(batch)@,
        r matches Ok(made) ==> {
            &&& made.value.0 == (old(batch)@.queue.event->0.value.0 + 0x100) % 0x1_0000_0000
            &&& old(batch)@.commands <= usize::MAX ==> made.commands == old(batch)@.commands
            &&& final(batch)@.commands == 0
            &&& final(batch)@.queue.wptr == old(batch)@.wptr
            &&& final(batch)@.wptr == old(batch)@.wptr
            &&& final(batch)@.queue.batches =~= old(batch)@.queue.batches.push(made)
            &&& final(batch)@.queue.event is Some
            &&& final(batch)@.queue.event->0.value == made.value
            &&& final(batch)@.queue.event->0.event == old(batch)@.queue.event->0.event
        },
        final(batch)@.queue.pending == old(batch)@.queue.pending,
        final(batch)@.queue.ring == old(batch)@.queue.ring,
{
}

/// Ending a batch keeps the committed commands and drops the others. Submitting does so
/// too, but fails if there are others; otherwise it tells of the queue as it stands, which
/// the firmware knows from then on.
pub proof fn law_batch_ends<C>(
    batch: WorkQueueBatch<C>,
    ended: WorkQueue<C>,
    r: (WorkQueue<C>, Result<RunWorkQueueMsg>),
)
    requires
        batch.wf(),
        call_ensures(WorkQueueBatch::<C>::end, (batch,), ended),
        call_ensures(WorkQueueBatch::<C>::submit, (batch,), r),
    ensures
        ended@.pending.len() + batch@.commands == batch@.queue.pending.len(),
        ended@.pending =~= batch@.queue.pending.take(ended@.pending.len() as int),
        ended@.batches == batch@.queue.batches,
        ended@.wptr == batch@.queue.wptr,
        ended@.event == batch@.queue.event,
        ended@.is_new == batch@.queue.is_new,
        r.1 is Err <==> batch@.commands != 0,
        r.1 is Err ==> r.1 == Err::<RunWorkQueueMsg, Error>(Error::EINVAL) && r.0@ == ended@,
        r.1 matches Ok(msg) ==> {
            &&& msg.pipe_type == batch@.queue.pipe_type
            &&& msg.work_queue == batch@.queue.info
            &&& msg.wptr == batch@.queue.wptr
            &&& msg.event_slot == batch@.queue.event->0.event.token.slot
            &&& msg.is_new == batch@.queue.is_new
            &&& !r.0@.is_new
            &&& r.0@.pending == batch@.queue.pending
            &&& r.0@.batches == batch@.queue.batches
            &&& r.0@.event == batch@.queue.event
            &&& r.0@.wptr == batch@.queue.wptr
        },
{
    batch.lemma_wf();
}

/// A signal completes the oldest batches, in order, as far as their values have been
/// reached; with the last one the queue gives its event up.
pub proof fn law_signal_in_order<C>(
    queue: &mut WorkQueue<C>,
    cur: EventValue,
    r: Signalled,
    i: int,
)
    requires
        old(queue).wf(),
        call_ensures(WorkQueue::<C>::signal, (queue, cur), r),
    ensures
        r.completed@ + final(queue)@.batches =~= old(queue)@.batches,
        0 <= i < r.completed@.len() ==> r.completed@[i].value.le(cur),
        old(queue)@.event is Some && final(queue)@.batches.len() > 0
            ==> !final(queue)@.batches[0].value.le(cur),
        r.empty <==> final(queue)@.batches.len() == 0,
        old(queue)@.event is Some && r.empty ==> r.released is Some && r.released->0
            == old(queue)@.event->0.event && final(queue)@.event is None,
        !r.empty ==> r.released is None && final(queue)@.event == old(queue)@.event,
        old(queue)@.event is None ==> r.released is None,
        final(queue)@.pending.len() + total(r.completed@) == old(queue)@.pending.len(),
        final(queue)@.pending =~= old(queue)@.pending.skip(total(r.completed@) as int),
        final(queue)@.wptr == old(queue)@.wptr,
        final(queue)@.last_token == old(queue)@.last_token,
{
    old(queue).lemma_wf();
    lemma_done_count_bounds(old(queue)@.batches, cur);
    lemma_total_split(old(queue)@.batches, old(queue)@.done(cur) as int);
}

/// What a queue or a batch says of itself is what it holds.
pub proof fn law_queues_tell_what_they_hold<C>(
    queue: WorkQueue<C>,
    info: u64,
    pipe_type: PipeType,
    wptr: u32,
    needs: bool,
    batch: WorkQueueBatch<C>,
    batch_info: u64,
    batch_wptr: u32,
    batch_pipe: PipeType,
    value: EventValue,
    made: Batch,
    made_value: EventValue,
)
    requires
        batch.wf(),
        call_ensures(WorkQueue::<C>::info_pointer, (&queue,), info),
        call_ensures(WorkQueue::<C>::pipe_type, (&queue,), pipe_type),
        call_ensures(WorkQueue::<C>::wptr, (&queue,), wptr),
        call_ensures(WorkQueue::<C>::needs_event, (&queue,), needs),
        call_ensures(WorkQueueBatch::<C>::info_pointer, (&batch,), batch_info),
        call_ensures(WorkQueueBatch::<C>::wptr, (&batch,), batch_wptr),
        call_ensures(WorkQueueBatch::<C>::pipe_type, (&batch,), batch_pipe),
        call_ensures(WorkQueueBatch::<C>::event_value, (&batch,), value),
        call_ensures(Batch::value, (&made,), made_value),
    ensures
        info == queue@.info,
        pipe_type == queue@.pipe_type,
        wptr == queue@.wptr,
        needs <==> queue@.event is None,
        batch_info == batch@.queue.info,
        batch_wptr == batch@.wptr,
        batch_pipe == batch@.queue.pipe_type,
        value == batch@.queue.event->0.value,
        made_value == made.value,
{
}

/// The commands of batches are counted one batch at a time.
pub proof fn law_commands_add_up(batches: Seq<Batch>, last: Batch)
    ensures
        total(Seq::<Batch>::empty()) == 0,
        total(batches.push(last)) == total(batches) + last.commands,
{
    assert(batches.push(last).drop_last() =~= batches);
}

/// A queue asks for the event that it had last, and a batch names the event of its queue.
pub proof fn law_queue_asks_for_its_last_event<C>(
    queue: WorkQueue<C>,
    events: &mut EventManager,
    r: Option<Event>,
    batch: WorkQueueBatch<C>,
    event: &Event,
)
    requires
        old(events)@.wf(),
        batch.wf(),
        call_ensures(WorkQueue::<C>::get_event, (&queue, events), r),
        call_ensures(WorkQueueBatch::<C>::event, (&batch,), event),
    ensures
        r matches Some(e) ==> {
            &&& old(events)@.idle(e.token.slot as int)
            &&& !e.changed ==> queue@.last_token == Some(e.token)
        },
        (queue@.last_token matches Some(t) && old(events)@.matches(t)) ==> r is Some
            && !r->0.changed && r->0.token.slot == queue@.last_token->0.slot,
        r is None ==> final(events)@ == old(events)@,
        *event == batch@.queue.event->0.event,
{
}

} // verus!
