//! The GPU as a whole: messages to and from its firmware, and what to do when it hangs.
use crate::channel::FWLOG_SUB_CHANNELS;
use crate::error::{Error, Result};
use crate::hw::IOMapping;
use crate::mmu::{
    bind_gives, fresh_vm, Bound, Uat, UatBase, Vm, KERNEL_LOWER_VM_ID, KERNEL_VM_ID,
    PROT_FW_PRIV_RW, PROT_FW_SHARED_RW, PROT_GPU_FW_SHARED_RW, UAT_PGMSK, UAT_PGSZ, UAT_USER_CTX,
};
use crate::regs::{fault_info_of, get_fault_info, FaultInfo};
use crate::util::{
    law_round_up, lemma_align_mask, lemma_mask_down, lemma_powers_of_two, low32, low_half, round_up,
};
use crate::workqueue::{PipeType, RunWorkQueueMsg, WorkQueue, WorkQueueBatch};
use vstd::prelude::*;

verus! {

/// The firmware endpoint that initialization goes to.
pub const EP_FIRMWARE: u8 = 0x20;

/// The firmware endpoint that doorbells go to.
pub const EP_DOORBELL: u8 = 0x21;

pub const MSG_INIT: u64 = 0x81_0000_0000_0000;

/// The part of a message that holds the address of the initialization data.
pub const INIT_DATA_MASK: u64 = 0xfff_ffff_ffff;

pub const MSG_TX_DOORBELL: u64 = 0x83_0000_0000_0000;

pub const MSG_FWCTL: u64 = 0x84_0000_0000_0000;

pub const MSG_HALT: u64 = 0x85_0000_0000_0000;

pub const MSG_RX_DOORBELL: u64 = 0x42_0000_0000_0000;

pub const DOORBELL_KICKFW: u64 = 0x10;

pub const DOORBELL_DEVCTRL: u64 = 0x11;

/// The number of channels for each kind of work.
pub const NUM_PIPES: usize = 4;

/// The least alignment of what the driver allocates for the firmware.
pub const KERNEL_MIN_ALIGN: u64 = 0x20;

/// The power state that means that the GPU is off.
pub const PWR_STATUS_OFF: u32 = 4;

/// The time in milliseconds after which an idle GPU powers off.
pub const IDLE_TIMEOUT_MS: u32 = 2;

/// The same while the GPU is to be kept on, for debugging.
pub const KEEP_POWERED_TIMEOUT_MS: u32 = 5000;

/// The alignment and protection of an allocator's objects.
#[derive(Copy, Clone, Debug, PartialEq, Eq, Structural)]
pub struct AllocatorParams {
    pub min_align: u64,
    pub prot: u32,
}

/// The allocators for what the driver shares with the firmware and the GPU.
#[derive(Copy, Clone, Debug, PartialEq, Eq, Structural)]
pub struct KernelAllocators {
    pub private: AllocatorParams,
    pub shared: AllocatorParams,
    pub gpu: AllocatorParams,
}

pub open spec fn kernel_allocators_spec() -> KernelAllocators {
    KernelAllocators {
        private: AllocatorParams { min_align: 0x20, prot: PROT_FW_PRIV_RW },
        shared: AllocatorParams { min_align: 0x20, prot: PROT_FW_SHARED_RW },
        gpu: AllocatorParams { min_align: 0x20, prot: PROT_GPU_FW_SHARED_RW },
    }
}

pub fn kernel_allocators() -> (r: KernelAllocators)
    ensures
        r == kernel_allocators_spec(),
{
    KernelAllocators {
        private: AllocatorParams { min_align: KERNEL_MIN_ALIGN, prot: PROT_FW_PRIV_RW },
        shared: AllocatorParams { min_align: KERNEL_MIN_ALIGN, prot: PROT_FW_SHARED_RW },
        gpu: AllocatorParams { min_align: KERNEL_MIN_ALIGN, prot: PROT_GPU_FW_SHARED_RW },
    }
}

/// A source of numbers that do not repeat until the counter wraps around.
#[derive(Copy, Clone, Debug, PartialEq, Eq, Structural)]
pub struct ID(pub u64);

impl ID {
    pub fn new(val: u64) -> (r: ID)
        ensures
            r == ID(val),
    {
        ID(val)
    }

    pub fn next(&mut self) -> (r: u64)
        ensures
            r == old(self).0,
            final(self).0 == nth_id(old(self).0, 1),
    {
        let val: u64 = self.0;
        self.0 = val.wrapping_add(1);
        val
    }
}

impl Default for ID {
    fn default() -> (r: ID)
        ensures
            r == ID(2),
    {
        ID(2)
    }
}

/// The counters of everything that is numbered. The numbers 0 and 1 are the kernel's
/// own address spaces.
#[derive(Copy, Clone, Debug, PartialEq, Eq, Structural)]
pub struct SequenceIDs {
    pub file: ID,
    pub vm: ID,
    pub buf: ID,
    pub submission: ID,
    pub renderer: ID,
}

/// Where the counters start.
pub open spec fn first_ids() -> SequenceIDs {
    SequenceIDs { file: ID(2), vm: ID(2), buf: ID(2), submission: ID(2), renderer: ID(2) }
}

impl Default for SequenceIDs {
    fn default() -> (r: SequenceIDs)
        ensures
            r == first_ids(),
    {
        SequenceIDs {
            file: ID(2),
            vm: ID(2),
            buf: ID(2),
            submission: ID(2),
            renderer: ID(2),
        }
    }
}

/// The number that a counter gives after `n` others.
pub open spec fn nth_id(first: u64, n: nat) -> int {
    (first + n) % 0x1_0000_0000_0000_0000
}

/// Fewer than 2^64 numbers from one counter are all different, and each is what the
/// counter gives next after those before it.
pub proof fn law_ids_are_unique(first: u64, m: nat, n: nat)
    requires
        m < n < m + 0x1_0000_0000_0000_0000,
    ensures
        nth_id(first, 0) == first,
        nth_id(nth_id(first, m) as u64, 1) == nth_id(first, m + 1),
        nth_id(first, m) != nth_id(first, n),
{
}

/// A message to an endpoint of the firmware.
#[derive(Copy, Clone, Debug, PartialEq, Eq, Structural)]
pub struct Message {
    pub endpoint: u8,
    pub msg: u64,
}

/// The GPU's address spaces, allocators and counters.
pub struct GpuManager {
    pub uat: Uat,
    pub allocators: KernelAllocators,
    pub ids: SequenceIDs,
}

impl GpuManager {
    pub open spec fn wf(&self) -> bool {
        &&& self.uat.kernel_ready()
        &&& self.uat@.wf()
        &&& self.uat@.slots.len() == UAT_USER_CTX
    }

    /// Nothing but the kernel's address spaces, and all counters at their start.
    pub fn new(base: UatBase) -> (r: GpuManager)
        ensures
            r.wf(),
            r.uat.base() == base,
            forall|i: int| 0 <= i < UAT_USER_CTX ==> #[trigger] r.uat@.idle(i),
            r.uat@.get_count == 0,
            r.uat@.drop_count == 0,
            r.allocators == kernel_allocators_spec(),
            r.ids == first_ids(),
    {
        GpuManager {
            uat: Uat::new(base),
            allocators: kernel_allocators(),
            ids: SequenceIDs::default(),
        }
    }

    /// A new address space with its page table at `ttb`.
    pub fn new_vm(&mut self, ttb: u64) -> (r: Vm)
        requires
            old(self).wf(),
        ensures
            r.wf(),
            r == fresh_vm(false, old(self).ids.vm.0, ttb),
            final(self).uat == old(self).uat,
            final(self).allocators == old(self).allocators,
            final(self).ids == (SequenceIDs {
                vm: ID(nth_id(old(self).ids.vm.0, 1) as u64),
                ..old(self).ids
            }),
    {
        let id: u64 = self.ids.vm.next();
        self.uat.new_vm(id, ttb)
    }

    /// Binds an address space to a context slot; see `Uat::bind`.
    pub fn bind_vm(&mut self, vm: &mut Vm) -> (r: Option<Bound>)
        requires
            old(self).wf(),
            old(vm).wf(),
            old(vm).binding is None ==> old(self).uat@.can_get(old(vm).bind_token),
            old(vm).active_users < usize::MAX,
        ensures
            final(self).wf(),
            final(vm).wf(),
            bind_gives(*old(vm), old(self).uat@, r, *final(vm), final(self).uat@),
            final(self).uat.base() == old(self).uat.base(),
            final(self).allocators == old(self).allocators,
            final(self).ids == old(self).ids,
    {
        self.uat.bind(vm)
    }

    /// The number of a new renderer.
    pub fn new_renderer(&mut self) -> (r: u64)
        ensures
            r == old(self).ids.renderer.0,
            final(self).uat == old(self).uat,
            final(self).allocators == old(self).allocators,
            final(self).ids == (SequenceIDs {
                renderer: ID(nth_id(old(self).ids.renderer.0, 1) as u64),
                ..old(self).ids
            }),
    {
        self.ids.renderer.next()
    }
}

/// The address spaces that a manager makes, but for the last two of 2^64, are told apart
/// by their ids, from each other and from those of the kernel.
pub proof fn law_address_spaces_are_told_apart(m: nat, n: nat)
    requires
        m < n < 0xffff_ffff_ffff_fffe,
    ensures
        nth_id(first_ids().vm.0, m) != nth_id(first_ids().vm.0, n),
        nth_id(first_ids().vm.0, n) != KERNEL_VM_ID,
        nth_id(first_ids().vm.0, n) != KERNEL_LOWER_VM_ID,
{
}

/// The message that tells the firmware where its initialization data is.
pub fn init_message(initdata: u64) -> (r: Message)
    ensures
        r.endpoint == EP_FIRMWARE,
        r.msg == MSG_INIT + initdata % 0x1000_0000_0000,
{
    assert(0x81_0000_0000_0000u64 | (initdata & 0xfff_ffff_ffff) == 0x81_0000_0000_0000u64
        + initdata % 0x1000_0000_0000) by (bit_vector);
    Message { endpoint: EP_FIRMWARE, msg: MSG_INIT | (initdata & INIT_DATA_MASK) }
}

/// The message that tells the firmware to look at a channel.
pub open spec fn doorbell(number: int) -> Message {
    Message { endpoint: EP_DOORBELL, msg: (MSG_TX_DOORBELL + number) as u64 }
}

proof fn lemma_doorbell_words()
    ensures
        MSG_TX_DOORBELL | DOORBELL_DEVCTRL == MSG_TX_DOORBELL + DOORBELL_DEVCTRL,
        MSG_TX_DOORBELL | DOORBELL_KICKFW == MSG_TX_DOORBELL + DOORBELL_KICKFW,
{
    assert(0x83_0000_0000_0000u64 | 0x11 == 0x83_0000_0000_0000u64 + 0x11 && 0x83_0000_0000_0000u64
        | 0x10 == 0x83_0000_0000_0000u64 + 0x10) by (bit_vector);
}

/// The message that tells the firmware to look at the device control channel.
pub fn device_control_doorbell() -> (r: Message)
    ensures
        r == doorbell(DOORBELL_DEVCTRL as int),
{
    proof {
        lemma_doorbell_words();
    }
    Message { endpoint: EP_DOORBELL, msg: MSG_TX_DOORBELL | DOORBELL_DEVCTRL }
}

/// The message that wakes the firmware up.
pub fn kick_firmware() -> (r: Message)
    ensures
        r == doorbell(DOORBELL_KICKFW as int),
{
    proof {
        lemma_doorbell_words();
    }
    Message { endpoint: EP_DOORBELL, msg: MSG_TX_DOORBELL | DOORBELL_KICKFW }
}

/// The message that tells the firmware to look at the firmware control channel.
pub fn fwctl_doorbell() -> (r: Message)
    ensures
        r == (Message { endpoint: EP_DOORBELL, msg: MSG_FWCTL }),
{
    Message { endpoint: EP_DOORBELL, msg: MSG_FWCTL }
}

/// What has to be done to start the firmware.
#[derive(Copy, Clone, Debug, PartialEq, Eq, Structural)]
pub enum InitAction {
    /// Put an initialization message into the device control channel.
    Initialize,
    /// Boot the coprocessor.
    Boot,
    /// Start an endpoint.
    StartEndpoint(u8),
    /// Send a message.
    Send(Message),
}

/// The actions that start the firmware, in their order; `None` after the last one. The
/// first that fails ends the start.
pub open spec fn init_action(initdata: u64, i: int) -> Option<InitAction> {
    if i == 0 {
        Some(InitAction::Initialize)
    } else if i == 1 {
        Some(InitAction::Boot)
    } else if i == 2 {
        Some(InitAction::StartEndpoint(EP_FIRMWARE))
    } else if i == 3 {
        Some(InitAction::StartEndpoint(EP_DOORBELL))
    } else if i == 4 {
        Some(
            InitAction::Send(
                Message {
                    endpoint: EP_FIRMWARE,
                    msg: (MSG_INIT + initdata % 0x1000_0000_0000) as u64,
                },
            ),
        )
    } else if i == 5 {
        Some(InitAction::Send(doorbell(DOORBELL_DEVCTRL as int)))
    } else {
        None
    }
}

/// What to do to start the firmware after `done` actions have succeeded. The data that
/// it starts with lies at `initdata`.
pub fn init(initdata: u64, done: usize) -> (r: Option<InitAction>)
    ensures
        r == init_action(initdata, done as int),
{
    match done {
        0 => Some(InitAction::Initialize),
        1 => Some(InitAction::Boot),
        2 => Some(InitAction::StartEndpoint(EP_FIRMWARE)),
        3 => Some(InitAction::StartEndpoint(EP_DOORBELL)),
        4 => Some(InitAction::Send(init_message(initdata))),
        5 => Some(InitAction::Send(device_control_doorbell())),
        _ => None,
    }
}

/// No message is sent before the coprocessor has been booted and the endpoint of the
/// message has been started.
pub proof fn law_endpoints_start_before_messages(initdata: u64, i: int)
    requires
        init_action(initdata, i) is Some,
        init_action(initdata, i)->0 is Send,
    ensures
        exists|b: int|
            0 <= b < i && #[trigger] init_action(initdata, b) == Some(InitAction::Boot),
        exists|s: int|
            0 <= s < i && #[trigger] init_action(initdata, s) == Some(
                InitAction::StartEndpoint(init_action(initdata, i)->0->Send_0.endpoint),
            ),
{
    assert(init_action(initdata, 1) == Some(InitAction::Boot));
    assert(init_action(initdata, 2) == Some(InitAction::StartEndpoint(EP_FIRMWARE)));
    assert(init_action(initdata, 3) == Some(InitAction::StartEndpoint(EP_DOORBELL)));
}

pub open spec fn pipe_number(pipe: PipeType) -> int {
    match pipe {
        PipeType::Vertex => 0,
        PipeType::Fragment => 1,
        PipeType::Compute => 2,
    }
}

/// The message that tells the firmware to look at a pipe's channel.
pub fn pipe_doorbell(pipe: PipeType, index: u64) -> (r: Message)
    requires
        index < NUM_PIPES,
    ensures
        r == doorbell(pipe_number(pipe) + 4 * index),
{
    let number: u64 = match pipe {
        PipeType::Vertex => 0,
        PipeType::Fragment => 1,
        PipeType::Compute => 2,
    };
    assert(0x83_0000_0000_0000u64 | number | (index << 2) == 0x83_0000_0000_0000u64 + number + 4
        * index) by (bit_vector)
        requires
            number < 3,
            index < 4,
    ;
    Message { endpoint: EP_DOORBELL, msg: MSG_TX_DOORBELL | number | (index << 2) }
}

/// Doorbells for different channels differ, and none is that of the device control
/// channel or wakes the firmware up.
pub proof fn law_doorbells_are_distinct(p: PipeType, i: int, q: PipeType, j: int)
    requires
        0 <= i < NUM_PIPES,
        0 <= j < NUM_PIPES,
    ensures
        doorbell(pipe_number(p) + 4 * i) == doorbell(pipe_number(q) + 4 * j) <==> p == q && i == j,
        doorbell(pipe_number(p) + 4 * i) != doorbell(DOORBELL_KICKFW as int),
        doorbell(pipe_number(p) + 4 * i) != doorbell(DOORBELL_DEVCTRL as int),
        doorbell(DOORBELL_KICKFW as int) != doorbell(DOORBELL_DEVCTRL as int),
{
}

/// What to do about a submitted batch: the message for the channel of its kind of work,
/// the index of the channel, and the doorbell to ring then.
#[derive(Copy, Clone, Debug, PartialEq, Eq, Structural)]
pub struct Submission {
    pub pipe_type: PipeType,
    pub index: usize,
    pub msg: RunWorkQueueMsg,
    pub doorbell: Message,
}

/// Ends a batch and works out how to submit it. Work always goes through the first
/// channel of its kind. A batch with commands that were not committed fails.
pub fn submit_batch<C>(batch: WorkQueueBatch<C>) -> (r: (WorkQueue<C>, Result<Submission>))
    requires
        batch.wf(),
    ensures
        r.0.wf(),
        if batch@.commands != 0 {
            &&& r.1 == Err::<Submission, Error>(Error::EINVAL)
            &&& r.0@ == batch@.ended()
        } else {
            &&& r.0@ == (crate::workqueue::Queue { is_new: false, ..batch@.queue })
            &&& r.1 == Ok::<Submission, Error>(
                (Submission {
                    pipe_type: batch@.queue.pipe_type,
                    index: 0,
                    msg: RunWorkQueueMsg {
                        pipe_type: batch@.queue.pipe_type,
                        work_queue: batch@.queue.info,
                        wptr: batch@.queue.wptr,
                        event_slot: batch@.queue.event->0.event.token.slot,
                        is_new: batch@.queue.is_new,
                    },
                    doorbell: doorbell(pipe_number(batch@.queue.pipe_type)),
                }),
            )
        },
{
    let pipe_type = batch.pipe_type();
    let index: usize = 0;
    let (queue, result) = batch.submit();
    match result {
        Ok(msg) => {
            let bell = pipe_doorbell(pipe_type, index as u64);
            (queue, Ok(Submission { pipe_type, index, msg, doorbell: bell }))
        },
        Err(e) => (queue, Err(e)),
    }
}

/// A channel that the firmware writes.
#[derive(Copy, Clone, Debug, PartialEq, Eq, Structural)]
pub enum RxSource {
    /// A sub-channel of the log.
    FwLog { index: usize },
    KTrace,
    Stats,
    Event,
}

/// The channels to look at after a message of the firmware, each until it is empty: after
/// the doorbell the sub-channels of the log, then traces, statistics and events, and after
/// any other message none.
pub fn rx_sources(ep: u8, msg: u64) -> (r: Vec<RxSource>)
    ensures
        r@ == if ep == EP_FIRMWARE && msg == MSG_RX_DOORBELL {
            seq![
                RxSource::FwLog { index: 0 },
                RxSource::FwLog { index: 1 },
                RxSource::FwLog { index: 2 },
                RxSource::FwLog { index: 3 },
                RxSource::FwLog { index: 4 },
                RxSource::FwLog { index: 5 },
                RxSource::KTrace,
                RxSource::Stats,
                RxSource::Event,
            ]
        } else {
            Seq::empty()
        },
{
    let mut sources: Vec<RxSource> = Vec::new();
    if recv_message(ep, msg) {
        let mut index: usize = 0;
        while index < FWLOG_SUB_CHANNELS
            invariant
                index <= FWLOG_SUB_CHANNELS,
                sources@ =~= Seq::new(index as nat, |i: int| RxSource::FwLog { index: i as usize }),
            decreases FWLOG_SUB_CHANNELS - index,
        {
            sources.push(RxSource::FwLog { index });
            index = index + 1;
        }
        sources.push(RxSource::KTrace);
        sources.push(RxSource::Stats);
        sources.push(RxSource::Event);
    }
    sources
}

/// Whether a message of the firmware is the doorbell. There is no other message.
pub fn recv_message(ep: u8, msg: u64) -> (r: bool)
    ensures
        r == (ep == EP_FIRMWARE && msg == MSG_RX_DOORBELL),
{
    !(ep != EP_FIRMWARE || msg != MSG_RX_DOORBELL)
}

/// Device registers to map, page by page.
#[derive(Copy, Clone, Debug, PartialEq, Eq, Structural)]
pub struct IoMapPlan {
    pub base: u64,
    pub size: u64,
    pub writable: bool,
    /// Where in the mapping the registers start.
    pub offset: u64,
}

/// What the firmware is told about mapped registers.
#[derive(Copy, Clone, Debug, PartialEq, Eq, Structural)]
pub struct RawIOMapping {
    pub phys_addr: u64,
    pub virt_addr: u64,
    pub size: u32,
    pub range_size: u32,
    pub readwrite: u64,
}

/// The registers that can be mapped.
pub open spec fn mappable(map: IOMapping) -> bool {
    map.base + map.size + UAT_PGMSK <= u64::MAX
}

/// The pages that device registers lie in.
pub open spec fn io_plan(map: IOMapping) -> IoMapPlan {
    let base = map.base - map.base % UAT_PGSZ;
    IoMapPlan {
        base: base as u64,
        size: (round_up(map.base + map.size, UAT_PGSZ as int) - base) as u64,
        writable: map.writable,
        offset: map.base % UAT_PGSZ,
    }
}

/// The pages that device registers lie in.
pub fn iomap(map: &IOMapping) -> (r: IoMapPlan)
    requires
        mappable(*map),
    ensures
        r == io_plan(*map),
{
    proof {
        lemma_powers_of_two();
        lemma_mask_down(map.base, UAT_PGSZ);
        lemma_align_mask((map.base + map.size) as u64, UAT_PGSZ);
        law_round_up(map.base + map.size, UAT_PGSZ as int);
    }
    let off: u64 = map.base & UAT_PGMSK;
    let base: u64 = map.base - off;
    let end: u64 = (map.base + map.size + UAT_PGMSK) & !UAT_PGMSK;
    IoMapPlan { base, size: end - base, writable: map.writable, offset: off }
}

/// What the firmware is told about registers whose pages have been mapped at `iova`.
pub fn io_mapping(map: &IOMapping, plan: &IoMapPlan, iova: u64) -> (r: RawIOMapping)
    requires
        iova + plan.offset <= u64::MAX,
    ensures
        r == (RawIOMapping {
            phys_addr: map.base,
            virt_addr: (iova + plan.offset) as u64,
            size: low32(map.size),
            range_size: low32(map.range_size),
            readwrite: if map.writable {
                1
            } else {
                0
            },
        }),
{
    RawIOMapping {
        phys_addr: map.base,
        virt_addr: iova + plan.offset,
        size: low_half(map.size),
        range_size: low_half(map.range_size),
        readwrite: if map.writable {
            1
        } else {
            0
        },
    }
}

/// The first entry of a chip's list, from one on, that has registers to map.
pub open spec fn next_io(maps: Seq<Option<IOMapping>>, from: int) -> Option<int>
    decreases maps.len() - from,
{
    if from >= maps.len() {
        None
    } else if maps[from] is Some {
        Some(from)
    } else {
        next_io(maps, from + 1)
    }
}

/// The next registers to map, from an entry of a chip's list on: their place in the list,
/// which is also that in the list of the firmware, and the pages that they lie in.
pub fn next_iomap(maps: &Vec<Option<IOMapping>>, from: usize) -> (r: Option<(usize, IoMapPlan)>)
    requires
        forall|i: int|
            0 <= i < maps@.len() && maps@[i] is Some ==> mappable(#[trigger] maps@[i]->0),
    ensures
        match r {
            None => next_io(maps@, from as int) is None,
            Some((i, plan)) => {
                &&& next_io(maps@, from as int) == Some(i as int)
                &&& from <= i < maps@.len()
                &&& maps@[i as int] is Some
                &&& plan == io_plan(maps@[i as int]->0)
            },
        },
{
    let mut i: usize = from;
    while i < maps.len()
        invariant
            from <= i,
            next_io(maps@, from as int) == next_io(maps@, i as int),
            forall|i: int|
                0 <= i < maps@.len() && maps@[i] is Some ==> mappable(#[trigger] maps@[i]->0),
        decreases maps@.len() - i,
    {
        if let Some(map) = &maps[i] {
            return Some((i, iomap(map)));
        }
        i = i + 1;
    }
    None
}

/// All of the registers lie in the pages that are mapped for them, at the same offset
/// from a page boundary on both sides, and no page more than needed is mapped.
pub proof fn law_io_mapping_covers_the_registers(map: IOMapping, iova: u64)
    requires
        mappable(map),
        iova as int % UAT_PGSZ as int == 0,
    ensures
        io_plan(map).base as int % UAT_PGSZ as int == 0,
        io_plan(map).size as int % UAT_PGSZ as int == 0,
        io_plan(map).base <= map.base < io_plan(map).base + UAT_PGSZ,
        map.base + map.size <= io_plan(map).base + io_plan(map).size < map.base + map.size
            + UAT_PGSZ,
        (iova + io_plan(map).offset) % UAT_PGSZ as int == map.base as int % UAT_PGSZ as int,
{
    law_round_up(map.base + map.size, UAT_PGSZ as int);
}

/// A stamp that the firmware waits for.
#[derive(Copy, Clone, Debug, PartialEq, Eq, Structural)]
pub struct PendingStamp {
    pub info: u32,
    pub wait_value: u32,
}

/// The same in readable form.
#[derive(Copy, Clone, Debug, PartialEq, Eq, Structural)]
pub struct PendingEvent {
    pub slot: u32,
    pub flags: u32,
    pub wait_value: u32,
}

pub open spec fn pending_event(stamp: PendingStamp) -> PendingEvent {
    PendingEvent { slot: stamp.info / 8, flags: stamp.info % 8, wait_value: stamp.wait_value }
}

/// The pending events of some stamps.
pub open spec fn pending_events(stamps: Seq<PendingStamp>) -> Seq<PendingEvent>
    decreases stamps.len(),
{
    if stamps.len() == 0 {
        Seq::empty()
    } else if stamps.last().info == 0 {
        pending_events(stamps.drop_last())
    } else {
        pending_events(stamps.drop_last()).push(pending_event(stamps.last()))
    }
}

/// A stamp that has been told of.
pub open spec fn cleared_stamp(stamp: PendingStamp) -> PendingStamp {
    if stamp.info != 0 {
        PendingStamp { info: 0, wait_value: 0 }
    } else {
        stamp
    }
}

/// Stamps that have been told of.
pub open spec fn cleared(stamps: Seq<PendingStamp>) -> Seq<PendingStamp> {
    Seq::new(stamps.len(), |i: int| cleared_stamp(stamps[i]))
}

/// Lists the stamps that the firmware waits for, and clears them.
pub fn take_pending_events(stamps: &mut Vec<PendingStamp>) -> (r: Vec<PendingEvent>)
    ensures
        r@ == pending_events(old(stamps)@),
        final(stamps)@ == cleared(old(stamps)@),
{
    let mut events: Vec<PendingEvent> = Vec::new();
    let mut i: usize = 0;
    assert(old(stamps)@.take(0) =~= Seq::<PendingStamp>::empty());
    while i < stamps.len()
        invariant
            i <= stamps@.len() == old(stamps)@.len(),
            events@ == pending_events(old(stamps)@.take(i as int)),
            forall|k: int| 0 <= k < i ==> #[trigger] stamps@[k] == cleared_stamp(old(stamps)@[k]),
            forall|k: int| i <= k < stamps@.len() ==> #[trigger] stamps@[k] == old(stamps)@[k],
        decreases stamps@.len() - i,
    {
        let info: u32 = stamps[i].info;
        let wait_value: u32 = stamps[i].wait_value;
        proof {
            assert(old(stamps)@.take(i + 1).drop_last() =~= old(stamps)@.take(i as int));
            assert(info >> 3 == info / 8 && info & 0x7 == info % 8) by (bit_vector);
        }
        if info != 0 {
            events.push(PendingEvent { slot: info >> 3, flags: info & 0x7, wait_value });
            stamps.set(i, PendingStamp { info: 0, wait_value: 0 });
        }
        i = i + 1;
    }
    assert(old(stamps)@.take(i as int) =~= old(stamps)@);
    assert(stamps@ =~= cleared(old(stamps)@));
    events
}

/// The firmware's flags about a halt.
#[derive(Copy, Clone, Debug, PartialEq, Eq, Structural)]
pub struct HaltFlags {
    pub halt_count: u32,
    pub halted: u32,
    pub resume: u32,
}

/// What comes of a hang.
#[derive(Copy, Clone, Debug, PartialEq, Eq, Structural)]
pub enum Recovery {
    /// Recovery is switched off.
    Disabled,
    /// The firmware has been told to resume.
    Attempted,
    /// The firmware has not halted, so it cannot resume.
    Impossible,
}

/// What can be done about a hang.
pub open spec fn recovery_of(flags: HaltFlags, no_gpu_recovery: bool) -> Recovery {
    if no_gpu_recovery {
        Recovery::Disabled
    } else if flags.halted != 0 {
        Recovery::Attempted
    } else {
        Recovery::Impossible
    }
}

/// The flags after an attempt to recover.
pub open spec fn recovered(flags: HaltFlags, no_gpu_recovery: bool) -> HaltFlags {
    if recovery_of(flags, no_gpu_recovery) is Attempted {
        HaltFlags { halted: 0, resume: 1, ..flags }
    } else {
        flags
    }
}

/// Tries to recover from a hang.
pub fn recover(flags: &mut HaltFlags, no_gpu_recovery: bool) -> (r: Recovery)
    ensures
        r == recovery_of(*old(flags), no_gpu_recovery),
        *final(flags) == recovered(*old(flags), no_gpu_recovery),
{
    if no_gpu_recovery {
        Recovery::Disabled
    } else if flags.halted != 0 {
        flags.halted = 0;
        flags.resume = 1;
        Recovery::Attempted
    } else {
        Recovery::Impossible
    }
}

/// What the fault register told after a hang.
#[derive(Copy, Clone, Debug, PartialEq, Eq, Structural)]
pub enum FaultReport {
    /// The registers could not be read.
    NoResources,
    /// There was no fault.
    NoFault,
    Fault(FaultInfo),
}

/// What a value of the fault register tells; `None` stands for registers that are gone.
pub open spec fn fault_report(fault_info: Option<u64>) -> FaultReport {
    match fault_info {
        None => FaultReport::NoResources,
        Some(value) => match fault_info_of(value) {
            None => FaultReport::NoFault,
            Some(info) => FaultReport::Fault(info),
        },
    }
}

/// Reads the fault register, if it can be read.
pub fn show_fault_info(fault_info: Option<u64>) -> (r: FaultReport)
    ensures
        r == fault_report(fault_info),
{
    match fault_info {
        None => FaultReport::NoResources,
        Some(value) => match get_fault_info(value) {
            None => FaultReport::NoFault,
            Some(info) => FaultReport::Fault(info),
        },
    }
}

/// What is to be told of a hang.
#[derive(Debug)]
pub struct HangReport {
    pub pending: Vec<PendingEvent>,
    pub fault: FaultReport,
    pub recovery: Recovery,
}

/// Handles a fault that the firmware has told of: lists what the firmware waits for and
/// what the fault was, and then tries to recover.
pub fn handle_fault(
    stamps: &mut Vec<PendingStamp>,
    fault_info: Option<u64>,
    flags: &mut HaltFlags,
    no_gpu_recovery: bool,
) -> (r: HangReport)
    ensures
        r.pending@ == pending_events(old(stamps)@),
        final(stamps)@ == cleared(old(stamps)@),
        r.fault == fault_report(fault_info),
        r.recovery == recovery_of(*old(flags), no_gpu_recovery),
        *final(flags) == recovered(*old(flags), no_gpu_recovery),
{
    let pending = take_pending_events(stamps);
    let fault = show_fault_info(fault_info);
    let recovery = recover(flags, no_gpu_recovery);
    HangReport { pending, fault, recovery }
}

/// Handles a timeout that the firmware has told of, in the same way as a fault. The
/// report also tells how many there have been, and of which event slot this one is.
pub fn handle_timeout(
    counter: u32,
    event_slot: u32,
    stamps: &mut Vec<PendingStamp>,
    fault_info: Option<u64>,
    flags: &mut HaltFlags,
    no_gpu_recovery: bool,
) -> (r: (u32, u32, HangReport))
    ensures
        r.0 == event_slot,
        r.1 == counter,
        r.2.pending@ == pending_events(old(stamps)@),
        final(stamps)@ == cleared(old(stamps)@),
        r.2.fault == fault_report(fault_info),
        r.2.recovery == recovery_of(*old(flags), no_gpu_recovery),
        *final(flags) == recovered(*old(flags), no_gpu_recovery),
{
    (event_slot, counter, handle_fault(stamps, fault_info, flags, no_gpu_recovery))
}

/// What was pending is told once: after a hang has been handled nothing is pending.
pub proof fn law_pending_events_are_told_once(stamps: Seq<PendingStamp>)
    ensures
        pending_events(cleared(stamps)) == Seq::<PendingEvent>::empty(),
        cleared(cleared(stamps)) == cleared(stamps),
    decreases stamps.len(),
{
    assert(cleared(cleared(stamps)) =~= cleared(stamps));
    if stamps.len() > 0 {
        law_pending_events_are_told_once(stamps.drop_last());
        assert(cleared(stamps).drop_last() =~= cleared(stamps.drop_last()));
    }
}

/// A hang that the firmware has been told to resume from is over: a second attempt finds
/// nothing to do.
pub proof fn law_recovery_happens_once(flags: HaltFlags)
    requires
        flags.halted != 0,
    ensures
        recovery_of(flags, false) == Recovery::Attempted,
        recovered(flags, false).resume == 1,
        recovered(flags, false).halt_count == flags.halt_count,
        recovery_of(recovered(flags, false), false) == Recovery::Impossible,
        recovered(recovered(flags, false), false) == recovered(flags, false),
{
}

/// The time in milliseconds after which the GPU powers off when idle. Waiting for that
/// beats keeping it on.
pub fn idle_timeout(wait_for_power_off: bool, keep_gpu_powered: bool) -> (r: u32)
    ensures
        r == if wait_for_power_off {
            0
        } else if keep_gpu_powered {
            KEEP_POWERED_TIMEOUT_MS
        } else {
            IDLE_TIMEOUT_MS
        },
{
    if wait_for_power_off {
        0
    } else if keep_gpu_powered {
        KEEP_POWERED_TIMEOUT_MS
    } else {
        IDLE_TIMEOUT_MS
    }
}

/// What one look at the power state means for the wait.
pub open spec fn poweroff_look(looks: int, timeout: int, pwr_status: u32) -> Option<Result<()>> {
    if looks >= timeout {
        Some(Err(Error::ETIMEDOUT))
    } else if pwr_status == PWR_STATUS_OFF {
        Some(Ok(()))
    } else {
        None
    }
}

/// One look at the power state, a millisecond after the last, while waiting for the GPU
/// to power off; `looks` is how many there have been. `None` means to look again.
pub fn wait_for_poweroff(looks: usize, timeout: usize, pwr_status: u32) -> (r: Option<Result<()>>)
    ensures
        r == poweroff_look(looks as int, timeout as int, pwr_status),
{
    if looks >= timeout {
        Some(Err(Error::ETIMEDOUT))
    } else if pwr_status == PWR_STATUS_OFF {
        Some(Ok(()))
    } else {
        None
    }
}

/// What comes of waiting for the GPU to power off, from one look on; `status` tells what
/// each look sees.
pub open spec fn poweroff_wait(
    looks: int,
    timeout: int,
    status: spec_fn(int) -> u32,
) -> Result<()>
    decreases timeout - looks,
{
    match poweroff_look(looks, timeout, status(looks)) {
        Some(r) => r,
        None => if looks >= timeout {
            Err(Error::ETIMEDOUT)
        } else {
            poweroff_wait(looks + 1, timeout, status)
        },
    }
}

/// A wait ends well exactly if one of its looks, of which there are no more than the
/// timeout has milliseconds, sees the GPU powered off.
pub proof fn law_poweroff_is_seen_in_time(looks: int, timeout: int, status: spec_fn(int) -> u32)
    ensures
        poweroff_wait(looks, timeout, status) == if exists|i: int|
            looks <= i < timeout && #[trigger] status(i) == PWR_STATUS_OFF {
            Ok::<(), Error>(())
        } else {
            Err::<(), Error>(Error::ETIMEDOUT)
        },
    decreases timeout - looks,
{
    if looks < timeout && status(looks) != PWR_STATUS_OFF {
        law_poweroff_is_seen_in_time(looks + 1, timeout, status);
    }
}

/// What the firmware keeps of a client.
#[derive(Copy, Clone, Debug, PartialEq, Eq, Structural)]
pub struct GpuContextData {
    pub unk_0: u8,
    pub unk_1: u8,
    pub unk_4: u32,
    pub unk_23: u32,
}

/// Tells the firmware to forget a client. The fields that are zero are left out.
#[derive(Copy, Clone, Debug, PartialEq, Eq, Structural)]
pub struct DestroyContext {
    pub ctx_23: u32,
    pub ctx_0: u8,
    pub ctx_1: u8,
    pub ctx_4: u32,
    pub gpu_context: u64,
}

/// The message that makes the firmware forget a client whose data lies at an address.
pub fn invalidate_context(context: &GpuContextData, address: u64) -> (r: DestroyContext)
    ensures
        r == (DestroyContext {
            ctx_23: context.unk_23,
            ctx_0: context.unk_0,
            ctx_1: context.unk_1,
            ctx_4: context.unk_4,
            gpu_context: address,
        }),
{
    DestroyContext {
        ctx_23: context.unk_23,
        ctx_0: context.unk_0,
        ctx_1: context.unk_1,
        ctx_4: context.unk_4,
        gpu_context: address,
    }
}

/// What a message is about can be read from its upper bits and what it carries from its
/// lower ones: the address of the initialization data, or the number of a channel. Each
/// goes to its own endpoint.
pub proof fn law_messages_read_back(
    initdata: u64,
    start: Message,
    devctrl: Message,
    kick: Message,
    fwctl: Message,
    pipe: PipeType,
    index: u64,
    bell: Message,
)
    requires
        index < 4,
        call_ensures(init_message, (initdata,), start),
        call_ensures(device_control_doorbell, (), devctrl),
        call_ensures(kick_firmware, (), kick),
        call_ensures(fwctl_doorbell, (), fwctl),
        call_ensures(pipe_doorbell, (pipe, index), bell),
    ensures
        start.endpoint == 0x20,
        start.msg / 0x1_0000_0000_0000 == 0x81,
        start.msg % 0x1_0000_0000_0000 == initdata % 0x1000_0000_0000,
        devctrl.endpoint == kick.endpoint == fwctl.endpoint == bell.endpoint == 0x21,
        devctrl.msg / 0x1_0000_0000_0000 == kick.msg / 0x1_0000_0000_0000 == bell.msg
            / 0x1_0000_0000_0000 == 0x83,
        devctrl.msg % 0x1_0000_0000_0000 == 0x11,
        kick.msg % 0x1_0000_0000_0000 == 0x10,
        fwctl.msg == 0x84 * 0x1_0000_0000_0000,
        (bell.msg % 0x1_0000_0000_0000) / 4 == index,
        bell.msg % 4 == 0 <==> pipe is Vertex,
        bell.msg % 4 == 1 <==> pipe is Fragment,
        bell.msg % 4 == 2 <==> pipe is Compute,
{
}

/// The firmware's own message is told from all others.
pub proof fn law_only_the_doorbell_is_heard(ep: u8, msg: u64, heard: bool, r: Vec<RxSource>)
    requires
        call_ensures(recv_message, (ep, msg), heard),
        call_ensures(rx_sources, (ep, msg), r),
    ensures
        heard <==> ep == 0x20 && msg == 0x42 * 0x1_0000_0000_0000,
        !heard ==> r@.len() == 0,
        heard ==> {
            &&& r@.len() == FWLOG_SUB_CHANNELS + 3
            &&& forall|i: int|
                0 <= i < FWLOG_SUB_CHANNELS ==> (#[trigger] r@[i] matches RxSource::FwLog { index }
                    && index == i)
            &&& r@[6] is KTrace
            &&& r@[7] is Stats
            &&& r@[8] is Event
        },
{
}

/// The firmware is started in this order: its channel gets the first message, the
/// coprocessor is booted, both endpoints are started, and then the data is announced before
/// the channel is.
pub proof fn law_start_in_order(
    initdata: u64,
    done: usize,
    r: Option<InitAction>,
    start: Message,
    devctrl: Message,
)
    requires
        call_ensures(init, (initdata, done), r),
        call_ensures(init_message, (initdata,), start),
        call_ensures(device_control_doorbell, (), devctrl),
    ensures
        done == 0 ==> r == Some(InitAction::Initialize),
        done == 1 ==> r == Some(InitAction::Boot),
        done == 2 ==> r == Some(InitAction::StartEndpoint(start.endpoint)),
        done == 3 ==> r == Some(InitAction::StartEndpoint(devctrl.endpoint)),
        done == 4 ==> r == Some(InitAction::Send(start)),
        done == 5 ==> r == Some(InitAction::Send(devctrl)),
        r is None <==> done >= 6,
{
}

/// What the firmware alone uses, what it shares with the driver, and what both share with
/// the GPU are allocated with different protections, aligned alike.
pub proof fn law_allocators_protect_differently(r: KernelAllocators)
    requires
        call_ensures(kernel_allocators, (), r),
    ensures
        r.private.min_align == r.shared.min_align == r.gpu.min_align == 0x20,
        r.private.prot == PROT_FW_PRIV_RW,
        r.shared.prot == PROT_FW_SHARED_RW,
        r.gpu.prot == PROT_GPU_FW_SHARED_RW,
{
}

/// A counter gives its numbers one after the other.
pub proof fn law_numbers_follow_each_other(id: &mut ID, r: u64, val: u64, made: ID)
    requires
        call_ensures(ID::next, (id,), r),
        call_ensures(ID::new, (val,), made),
    ensures
        r == old(id).0,
        old(id).0 < u64::MAX ==> final(id).0 == r + 1,
        old(id).0 == u64::MAX ==> final(id).0 == 0,
        made.0 == val,
{
}

/// A new address space takes the next number of the address spaces, and a new renderer the
/// next of the renderers; the other counters stay.
pub proof fn law_counters_are_separate(
    a: &mut GpuManager,
    ttb: u64,
    vm: Vm,
    b: &mut GpuManager,
    renderer: u64,
)
    requires
        old(a).wf(),
        call_ensures(GpuManager::new_vm, (a, ttb), vm),
        call_ensures(GpuManager::new_renderer, (b,), renderer),
    ensures
        vm.id == old(a).ids.vm.0,
        vm.ttb == ttb,
        !vm.is_kernel,
        old(a).ids.vm.0 < u64::MAX ==> final(a).ids.vm.0 == vm.id + 1,
        final(a).ids.renderer == old(a).ids.renderer,
        final(a).ids.file == old(a).ids.file,
        final(a).ids.buf == old(a).ids.buf,
        final(a).ids.submission == old(a).ids.submission,
        renderer == old(b).ids.renderer.0,
        old(b).ids.renderer.0 < u64::MAX ==> final(b).ids.renderer.0 == renderer + 1,
        final(b).ids.vm == old(b).ids.vm,
        final(b).ids.file == old(b).ids.file,
        final(b).ids.buf == old(b).ids.buf,
        final(b).ids.submission == old(b).ids.submission,
{
}

/// A batch is submitted through the first channel of its own kind of work, whose doorbell
/// is rung: the firmware is told the queue, how far it is filled, the event, and whether it
/// knows the queue. A batch that is not committed is refused.
pub proof fn law_submission_names_the_batch<C>(
    batch: WorkQueueBatch<C>,
    r: (WorkQueue<C>, Result<Submission>),
    bell: Message,
)
    requires
        batch.wf(),
        call_ensures(submit_batch::<C>, (batch,), r),
        call_ensures(pipe_doorbell, (batch@.queue.pipe_type, 0u64), bell),
    ensures
        r.1 is Ok <==> batch@.commands == 0,
        r.1 is Err ==> r.1 == Err::<Submission, Error>(Error::EINVAL),
        r.1 matches Ok(s) ==> {
            &&& s.pipe_type == s.msg.pipe_type
            &&& s.pipe_type == batch@.queue.pipe_type
            &&& s.index == 0
            &&& s.doorbell == bell
            &&& s.msg.work_queue == batch@.queue.info
            &&& s.msg.wptr == batch@.queue.wptr
            &&& s.msg.event_slot == batch@.queue.event->0.event.token.slot
            &&& s.msg.is_new == batch@.queue.is_new
            &&& !r.0@.is_new
        },
{
}

/// Registers are mapped from the page that they begin in to the page that they end in, and
/// the firmware is told where they begin on both sides, how long they are, and whether they
/// may be written.
pub proof fn law_registers_are_mapped(
    map: IOMapping,
    plan: IoMapPlan,
    iova: u64,
    raw: RawIOMapping,
)
    requires
        mappable(map),
        iova + plan.offset <= u64::MAX,
        call_ensures(iomap, (&map,), plan),
        call_ensures(io_mapping, (&map, &plan, iova), raw),
    ensures
        plan.base as int % 0x4000 == 0 && plan.size as int % 0x4000 == 0,
        plan.base + plan.offset == map.base,
        plan.offset < 0x4000,
        map.base + map.size <= plan.base + plan.size < map.base + map.size + 0x4000,
        plan.writable == map.writable,
        raw.phys_addr == map.base,
        raw.virt_addr - iova == map.base - plan.base,
        map.size <= u32::MAX ==> raw.size == map.size,
        map.range_size <= u32::MAX ==> raw.range_size == map.range_size,
        raw.readwrite == 1 <==> map.writable,
        raw.readwrite <= 1,
{
    law_round_up(map.base + map.size, UAT_PGSZ as int);
}

proof fn lemma_next_io(maps: Seq<Option<IOMapping>>, from: int)
    requires
        0 <= from,
    ensures
        next_io(maps, from) matches Some(i) ==> from <= i < maps.len() && maps[i] is Some && forall|
            j: int,
        |
            from <= j < i ==> #[trigger] maps[j] is None,
        next_io(maps, from) is None ==> forall|j: int|
            from <= j < maps.len() ==> #[trigger] maps[j] is None,
    decreases maps.len() - from,
{
    if from < maps.len() && maps[from] is None {
        lemma_next_io(maps, from + 1);
    }
}

/// No registers of a chip are passed over.
pub proof fn law_no_registers_are_passed_over(
    maps: Vec<Option<IOMapping>>,
    from: usize,
    r: Option<(usize, IoMapPlan)>,
)
    requires
        call_ensures(next_iomap, (&maps, from), r),
    ensures
        r matches Some((i, plan)) ==> {
            &&& from <= i < maps@.len()
            &&& maps@[i as int] is Some
            &&& plan.base + plan.offset == maps@[i as int]->0.base
            &&& plan.writable == maps@[i as int]->0.writable
            &&& forall|j: int| from <= j < i ==> #[trigger] maps@[j] is None
        },
        r is None ==> forall|j: int| from <= j < maps@.len() ==> #[trigger] maps@[j] is None,
{
    lemma_next_io(maps@, from as int);
}

/// Each stamp that the firmware waits for is told with its slot, flags and value, in order;
/// the others are not told.
pub proof fn law_each_pending_stamp_is_told(stamps: Seq<PendingStamp>, last: PendingStamp)
    ensures
        pending_events(Seq::empty()).len() == 0,
        last.info == 0 ==> pending_events(stamps.push(last)) == pending_events(stamps),
        last.info != 0 ==> {
            let told = pending_events(stamps.push(last));
            &&& told.len() == pending_events(stamps).len() + 1
            &&& told.drop_last() =~= pending_events(stamps)
            &&& told.last().slot * 8 + told.last().flags == last.info
            &&& told.last().flags < 8
            &&& told.last().wait_value == last.wait_value
        },
{
    assert(stamps.push(last).drop_last() =~= stamps);
}

/// Handling a hang tells of what was pending and clears it, tells of the fault that the
/// register shows, and lets the firmware resume if it has halted and may.
pub proof fn law_hang_is_handled(
    stamps: &mut Vec<PendingStamp>,
    fault_info: Option<u64>,
    flags: &mut HaltFlags,
    no_gpu_recovery: bool,
    r: HangReport,
    i: int,
)
    requires
        call_ensures(handle_fault, (stamps, fault_info, flags, no_gpu_recovery), r),
    ensures
        r.pending@ == pending_events(old(stamps)@),
        final(stamps)@.len() == old(stamps)@.len(),
        0 <= i < old(stamps)@.len() ==> final(stamps)@[i].info == 0,
        0 <= i < old(stamps)@.len() && old(stamps)@[i].info != 0 ==> final(stamps)@[i].wait_value
            == 0,
        fault_info is None <==> r.fault is NoResources,
        no_gpu_recovery <==> r.recovery is Disabled,
        !no_gpu_recovery ==> (r.recovery is Attempted <==> old(flags).halted != 0),
        r.recovery is Attempted ==> final(flags).halted == 0 && final(flags).resume == 1,
        r.recovery !is Attempted ==> *final(flags) == *old(flags),
        final(flags).halt_count == old(flags).halt_count,
{
}

/// A timeout is told with its event slot and its number, and handled like a fault.
pub proof fn law_timeout_is_handled(
    counter: u32,
    event_slot: u32,
    stamps: &mut Vec<PendingStamp>,
    fault_info: Option<u64>,
    flags: &mut HaltFlags,
    no_gpu_recovery: bool,
    r: (u32, u32, HangReport),
    i: int,
)
    requires
        call_ensures(
            handle_timeout,
            (counter, event_slot, stamps, fault_info, flags, no_gpu_recovery),
            r,
        ),
    ensures
        r.0 == event_slot,
        r.1 == counter,
        r.2.pending@ == pending_events(old(stamps)@),
        final(stamps)@.len() == old(stamps)@.len(),
        0 <= i < old(stamps)@.len() ==> final(stamps)@[i].info == 0,
        fault_info is None <==> r.2.fault is NoResources,
        no_gpu_recovery <==> r.2.recovery is Disabled,
        r.2.recovery is Attempted <==> !no_gpu_recovery && old(flags).halted != 0,
        r.2.recovery is Attempted ==> final(flags).halted == 0 && final(flags).resume == 1,
        r.2.recovery !is Attempted ==> *final(flags) == *old(flags),
{
}

/// The GPU powers off at once while that is waited for, late while it is to be kept on, and
/// soon otherwise.
pub proof fn law_idle_timeouts(wait_for_power_off: bool, keep_gpu_powered: bool, r: u32)
    requires
        call_ensures(idle_timeout, (wait_for_power_off, keep_gpu_powered), r),
    ensures
        wait_for_power_off <==> r == 0,
        !wait_for_power_off && keep_gpu_powered ==> r == 5000,
        !wait_for_power_off && !keep_gpu_powered ==> r == 2,
{
}

/// A look at the power state ends the wait with success if the GPU is off, with a timeout
/// if there have been too many looks, and not otherwise.
pub proof fn law_looks_at_the_power_state(
    looks: usize,
    timeout: usize,
    pwr_status: u32,
    r: Option<Result<()>>,
)
    requires
        call_ensures(wait_for_poweroff, (looks, timeout, pwr_status), r),
    ensures
        r is None <==> looks < timeout && pwr_status != 4,
        r == Some(Ok::<(), Error>(())) <==> looks < timeout && pwr_status == 4,
        r == Some(Err::<(), Error>(Error::ETIMEDOUT)) <==> looks >= timeout,
{
}

/// The firmware is told to forget the client whose data it is shown: each field comes from
/// the field of its own name.
pub proof fn law_the_right_client_is_forgotten(
    context: GpuContextData,
    address: u64,
    r: DestroyContext,
)
    requires
        call_ensures(invalidate_context, (&context, address), r),
    ensures
        r.gpu_context == address,
        context == (GpuContextData {
            unk_0: r.ctx_0,
            unk_1: r.ctx_1,
            unk_4: r.ctx_4,
            unk_23: r.ctx_23,
        }),
{
}

/// A new manager has the kernel's address spaces and nothing else; its counters start after
/// the two numbers that the kernel's address spaces have.
pub proof fn law_new_manager(base: UatBase, r: GpuManager, id: ID, ids: SequenceIDs, i: int)
    requires
        call_ensures(GpuManager::new, (base,), r),
        call_ensures(ID::default, (), id),
        call_ensures(SequenceIDs::default, (), ids),
    ensures
        r.uat.base() == base,
        0 <= i < 63 ==> r.uat@.idle(i),
        r.uat@.get_count == 0 && r.uat@.drop_count == 0,
        id.0 == 2,
        ids.file.0 == ids.vm.0 == ids.buf.0 == ids.submission.0 == ids.renderer.0 == 2,
        r.ids == ids,
        id.0 > KERNEL_VM_ID && id.0 > KERNEL_LOWER_VM_ID,
{
}

/// Binding an address space through the manager names its slot and leaves the counters.
pub proof fn law_manager_binds(m: &mut GpuManager, vm: &mut Vm, r: Option<Bound>)
    requires
        old(vm).wf(),
        old(vm).active_users < usize::MAX,
        call_ensures(GpuManager::bind_vm, (m, vm), r),
    ensures
        r is None ==> *final(vm) == *old(vm),
        r matches Some(bound) ==> {
            &&& bound.bind.vm_id == old(vm).id
            &&& final(vm).binding is Some
            &&& bound.bind.slot == final(vm).binding->0.token.slot + 1
            &&& final(vm).active_users == old(vm).active_users + 1
        },
        final(m).ids == old(m).ids,
        final(m).allocators == old(m).allocators,
{
}

/// The parts of handling a hang: what is pending is taken out, the fault is read, and the
/// firmware may resume.
pub proof fn law_parts_of_a_hang(
    stamps: &mut Vec<PendingStamp>,
    pending: Vec<PendingEvent>,
    fault_info: Option<u64>,
    fault: FaultReport,
    flags: &mut HaltFlags,
    no_gpu_recovery: bool,
    recovery: Recovery,
    i: int,
)
    requires
        call_ensures(take_pending_events, (stamps,), pending),
        call_ensures(show_fault_info, (fault_info,), fault),
        call_ensures(recover, (flags, no_gpu_recovery), recovery),
    ensures
        pending@ == pending_events(old(stamps)@),
        final(stamps)@.len() == old(stamps)@.len(),
        0 <= i < old(stamps)@.len() ==> final(stamps)@[i].info == 0,
        0 <= i < old(stamps)@.len() && old(stamps)@[i].info == 0 ==> final(stamps)@[i]
            == old(stamps)@[i],
        fault is NoResources <==> fault_info is None,
        fault is NoFault <==> fault_info is Some && fault_info->0 % 2 == 0,
        fault matches FaultReport::Fault(info) ==> info.address == fault_info->0 / 0x100_0000,
        recovery is Disabled <==> no_gpu_recovery,
        recovery is Attempted <==> !no_gpu_recovery && old(flags).halted != 0,
        recovery is Attempted ==> final(flags).halted == 0 && final(flags).resume == 1
            && final(flags).halt_count == old(flags).halt_count,
        recovery !is Attempted ==> *final(flags) == *old(flags),
{
}

} // verus!
