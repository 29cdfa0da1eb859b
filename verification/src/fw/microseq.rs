//! The operations of a microsequence: small programs that the firmware runs for a job.
//!
//! An operation is a header word followed by its arguments, little-endian and without
//! padding.
use vstd::prelude::*;

verus! {

/// A piece of an operation in memory.
#[derive(Copy, Clone, Debug, PartialEq, Eq, Structural)]
pub enum Field {
    U16(u16),
    U32(u32),
    U64(u64),
    I32(i32),
    /// So many bytes of zero.
    Zero(usize),
}

/// `n` bytes of a number, the least significant first.
pub open spec fn little_endian(x: int, n: nat) -> Seq<u8>
    decreases n,
{
    if n == 0 {
        Seq::empty()
    } else {
        seq![(x % 0x100) as u8] + little_endian(x / 0x100, (n - 1) as nat)
    }
}

/// The number that bytes stand for, the least significant first.
pub open spec fn little_endian_value(bytes: Seq<u8>) -> int
    decreases bytes.len(),
{
    if bytes.len() == 0 {
        0
    } else {
        bytes[0] + 0x100 * little_endian_value(bytes.skip(1))
    }
}

impl Field {
    pub open spec fn size(self) -> nat {
        match self {
            Field::U16(_) => 2,
            Field::U32(_) => 4,
            Field::U64(_) => 8,
            Field::I32(_) => 4,
            Field::Zero(n) => n as nat,
        }
    }

    /// The bytes of the piece. A negative number is written in two's complement.
    pub open spec fn bytes(self) -> Seq<u8> {
        match self {
            Field::U16(x) => little_endian(x as int, 2),
            Field::U32(x) => little_endian(x as int, 4),
            Field::U64(x) => little_endian(x as int, 8),
            Field::I32(x) => little_endian(
                if x >= 0 {
                    x as int
                } else {
                    x + 0x1_0000_0000
                },
                4,
            ),
            Field::Zero(n) => Seq::new(n as nat, |i: int| 0u8),
        }
    }
}

/// The size of the first `n` pieces.
pub open spec fn size_upto(fields: Seq<Field>, n: int) -> nat
    decreases n,
{
    if n <= 0 {
        0
    } else {
        size_upto(fields, n - 1) + fields[n - 1].size()
    }
}

/// The bytes of the first `n` pieces.
pub open spec fn bytes_upto(fields: Seq<Field>, n: int) -> Seq<u8>
    decreases n,
{
    if n <= 0 {
        Seq::empty()
    } else {
        bytes_upto(fields, n - 1) + fields[n - 1].bytes()
    }
}

/// The size of some pieces.
pub open spec fn size_of_fields(fields: Seq<Field>) -> nat {
    size_upto(fields, fields.len() as int)
}

/// The bytes of some pieces.
pub open spec fn bytes_of(fields: Seq<Field>) -> Seq<u8> {
    bytes_upto(fields, fields.len() as int)
}

proof fn lemma_size_of_prefix(a: Seq<Field>, b: Seq<Field>, n: int)
    requires
        0 <= n <= a.len(),
        n <= b.len(),
        forall|i: int| 0 <= i < n ==> a[i] == b[i],
    ensures
        size_upto(a, n) == size_upto(b, n),
    decreases n,
{
    if n > 0 {
        lemma_size_of_prefix(a, b, n - 1);
    }
}

/// Pieces that follow each other add up.
pub proof fn lemma_size_concat(a: Seq<Field>, b: Seq<Field>)
    ensures
        size_of_fields(a + b) == size_of_fields(a) + size_of_fields(b),
{
    lemma_size_concat_upto(a, b, b.len() as int);
}

proof fn lemma_size_concat_upto(a: Seq<Field>, b: Seq<Field>, n: int)
    requires
        0 <= n <= b.len(),
    ensures
        size_upto(a + b, a.len() + n) == size_of_fields(a) + size_upto(b, n),
    decreases n,
{
    if n == 0 {
        lemma_size_of_prefix(a + b, a, a.len() as int);
    } else {
        lemma_size_concat_upto(a, b, n - 1);
        assert((a + b)[a.len() + n - 1] == b[n - 1]);
    }
}

/// A number survives being written and read back.
pub proof fn law_little_endian_reads_back(x: int, n: nat)
    requires
        0 <= x < crate::of::range_of(n),
    ensures
        little_endian(x, n).len() == n,
        little_endian_value(little_endian(x, n)) == x,
    decreases n,
{
    if n > 0 {
        law_little_endian_reads_back(x / 0x100, (n - 1) as nat);
        assert(little_endian(x, n).skip(1) =~= little_endian(x / 0x100, (n - 1) as nat));
    }
}

proof fn lemma_little_endian_len(x: int, n: nat)
    ensures
        little_endian(x, n).len() == n,
    decreases n,
{
    if n > 0 {
        lemma_little_endian_len(x / 0x100, (n - 1) as nat);
    }
}

/// The bytes of pieces are as many as their sizes say.
pub proof fn lemma_bytes_len(fields: Seq<Field>, n: int)
    requires
        0 <= n <= fields.len(),
    ensures
        bytes_upto(fields, n).len() == size_upto(fields, n),
    decreases n,
{
    if n > 0 {
        lemma_bytes_len(fields, n - 1);
        match fields[n - 1] {
            Field::U16(x) => lemma_little_endian_len(x as int, 2),
            Field::U32(x) => lemma_little_endian_len(x as int, 4),
            Field::U64(x) => lemma_little_endian_len(x as int, 8),
            Field::I32(x) => lemma_little_endian_len(
                if x >= 0 {
                    x as int
                } else {
                    x + 0x1_0000_0000
                },
                4,
            ),
            Field::Zero(n) => {},
        }
    }
}

fn push_number(out: &mut Vec<u8>, x: u64, n: usize)
    requires
        n <= 8,
    ensures
        final(out)@ == old(out)@ + little_endian(x as int, n as nat),
{
    let mut rest: u64 = x;
    let mut i: usize = 0;
    assert(out@ + little_endian(x as int, n as nat) =~= old(out)@ + little_endian(
        x as int,
        n as nat,
    ));
    while i < n
        invariant
            i <= n,
            out@ + little_endian(rest as int, (n - i) as nat) == old(out)@ + little_endian(
                x as int,
                n as nat,
            ),
        decreases n - i,
    {
        let ghost before = out@;
        out.push((rest % 0x100) as u8);
        proof {
            let tail = little_endian(rest as int / 0x100, (n - i - 1) as nat);
            assert(little_endian(rest as int, (n - i) as nat) == seq![
                (rest as int % 0x100) as u8,
            ] + tail);
            assert(out@ + tail =~= before + (seq![(rest as int % 0x100) as u8] + tail));
        }
        rest = rest / 0x100;
        i = i + 1;
    }
    assert(out@ + little_endian(rest as int, 0) =~= out@);
}

fn push_field(out: &mut Vec<u8>, field: &Field)
    ensures
        final(out)@ == old(out)@ + field.bytes(),
{
    match *field {
        Field::U16(x) => push_number(out, x as u64, 2),
        Field::U32(x) => push_number(out, x as u64, 4),
        Field::U64(x) => push_number(out, x, 8),
        Field::I32(x) => if x >= 0 {
            push_number(out, x as u64, 4)
        } else {
            push_number(out, (x as i64 + 0x1_0000_0000) as u64, 4)
        },
        Field::Zero(n) => {
            let mut i: usize = 0;
            while i < n
                invariant
                    i <= n,
                    out@ =~= old(out)@ + Seq::new(i as nat, |i: int| 0u8),
                decreases n - i,
            {
                out.push(0);
                i = i + 1;
            }
        },
    }
}

/// Appends pieces to what is there.
pub fn push_fields(out: &mut Vec<u8>, fields: &Vec<Field>)
    ensures
        final(out)@ == old(out)@ + bytes_of(fields@),
{
    let mut i: usize = 0;
    assert(out@ + bytes_upto(fields@, 0) =~= out@);
    while i < fields.len()
        invariant
            i <= fields@.len(),
            out@ == old(out)@ + bytes_upto(fields@, i as int),
        decreases fields@.len() - i,
    {
        push_field(out, &fields[i]);
        assert(old(out)@ + bytes_upto(fields@, i as int) + fields@[i as int].bytes() =~= old(out)@
            + (bytes_upto(fields@, i as int) + fields@[i as int].bytes()));
        i = i + 1;
    }
}

#[derive(Copy, Clone, Debug, PartialEq, Eq, Structural)]
pub enum OpCode {
    WaitForIdle,
    RetireStamp,
    Timestamp,
    StartVertex,
    FinalizeVertex,
    StartFragment,
    FinalizeFragment,
    StartCompute,
    FinalizeCompute,
}

impl OpCode {
    pub open spec fn number(self) -> u32 {
        match self {
            OpCode::WaitForIdle => 0x01,
            OpCode::RetireStamp => 0x18,
            OpCode::Timestamp => 0x19,
            OpCode::StartVertex => 0x22,
            OpCode::FinalizeVertex => 0x23,
            OpCode::StartFragment => 0x24,
            OpCode::FinalizeFragment => 0x25,
            OpCode::StartCompute => 0x29,
            OpCode::FinalizeCompute => 0x2a,
        }
    }

    pub fn to_u32(&self) -> (r: u32)
        ensures
            r == self.number(),
    {
        match *self {
            OpCode::WaitForIdle => 0x01,
            OpCode::RetireStamp => 0x18,
            OpCode::Timestamp => 0x19,
            OpCode::StartVertex => 0x22,
            OpCode::FinalizeVertex => 0x23,
            OpCode::StartFragment => 0x24,
            OpCode::FinalizeFragment => 0x25,
            OpCode::StartCompute => 0x29,
            OpCode::FinalizeCompute => 0x2a,
        }
    }
}

/// A part of the GPU that work runs on.
#[derive(Copy, Clone, Debug, PartialEq, Eq, Structural)]
pub enum Pipe {
    Vertex,
    Fragment,
    Compute,
}

impl Pipe {
    pub open spec fn number(self) -> u32 {
        match self {
            Pipe::Vertex => 0x1,
            Pipe::Fragment => 0x100,
            Pipe::Compute => 0x8000,
        }
    }

    pub fn to_u32(&self) -> (r: u32)
        ensures
            r == self.number(),
    {
        match *self {
            Pipe::Vertex => 0x1,
            Pipe::Fragment => 0x100,
            Pipe::Compute => 0x8000,
        }
    }
}

/// The first word of an operation: what it is, and flags in the upper bits.
#[derive(Copy, Clone, Debug, PartialEq, Eq, Structural)]
pub struct OpHeader(pub u32);

impl OpHeader {
    pub fn new(opcode: OpCode) -> (r: OpHeader)
        ensures
            r == OpHeader(opcode.number()),
    {
        OpHeader(opcode.to_u32())
    }

    pub fn with_args(opcode: OpCode, args: u32) -> (r: OpHeader)
        ensures
            r == OpHeader(opcode.number() | args),
    {
        OpHeader(opcode.to_u32() | args)
    }

    /// Marks the job's stamp as reached.
    pub fn retire_stamp() -> (r: OpHeader)
        ensures
            r == OpHeader(0x4000_0018),
    {
        assert(0x18u32 | 0x4000_0000u32 == 0x4000_0018u32) by (bit_vector);
        OpHeader::with_args(OpCode::RetireStamp, 0x40000000)
    }

    /// Waits until a pipe is idle.
    pub fn wait_for_idle(pipe: Pipe) -> (r: OpHeader)
        ensures
            r.0 == 1 + 0x100 * pipe.number(),
    {
        let p: u32 = pipe.to_u32();
        assert(1 | (p << 8) == 1 + 0x100 * p) by (bit_vector)
            requires
                p <= 0x8000,
        ;
        OpHeader::with_args(OpCode::WaitForIdle, p << 8)
    }

    /// Takes a time stamp.
    pub fn timestamp(flag: bool) -> (r: OpHeader)
        ensures
            r == OpHeader(
                if flag {
                    0x8000_0019
                } else {
                    0x19
                },
            ),
    {
        assert(0x19u32 | (1u32 << 31) == 0x8000_0019u32 && 0x19u32 | (0u32 << 31) == 0x19u32)
            by (bit_vector);
        OpHeader::with_args(
            OpCode::Timestamp,
            (if flag {
                1u32
            } else {
                0u32
            }) << 31,
        )
    }
}

/// An operation that a microsequence can hold.
pub trait Operation {
    /// The pieces that the operation is made of.
    spec fn fields(&self) -> Seq<Field>;

    fn to_fields(&self) -> (r: Vec<Field>)
        ensures
            r@ == self.fields(),
    ;
}

/// Waits until a pipe is idle.
#[derive(Copy, Clone, Debug, PartialEq, Eq, Structural)]
pub struct WaitForIdle {
    pub pipe: Pipe,
}

impl Operation for WaitForIdle {
    open spec fn fields(&self) -> Seq<Field> {
        seq![Field::U32((1 + 0x100 * self.pipe.number()) as u32)]
    }

    fn to_fields(&self) -> (r: Vec<Field>) {
        let mut v: Vec<Field> = Vec::new();
        v.push(Field::U32(OpHeader::wait_for_idle(self.pipe).0));
        v
    }
}

/// Marks the job's stamp as reached.
#[derive(Copy, Clone, Debug, PartialEq, Eq, Structural)]
pub struct RetireStamp;

impl Operation for RetireStamp {
    open spec fn fields(&self) -> Seq<Field> {
        seq![Field::U32(0x4000_0018)]
    }

    fn to_fields(&self) -> (r: Vec<Field>) {
        let mut v: Vec<Field> = Vec::new();
        v.push(Field::U32(OpHeader::retire_stamp().0));
        v
    }
}

/// Starts a vertex job. What is always the same is left out here.
#[derive(Copy, Clone, Debug, PartialEq, Eq, Structural)]
pub struct StartVertex {
    pub tiling_params: u64,
    pub job_params1: u64,
    pub buffer: u64,
    pub scene: u64,
    pub stats: u64,
    pub work_queue: u64,
    pub vm_slot: u32,
    pub event_generation: u32,
    pub buffer_slot: u32,
    pub prev_stamp_value: u64,
    pub unk_pointer: u64,
    pub unk_job_buf: u64,
    pub uuid: u32,
    /// Only newer firmware takes this.
    pub notifier_buf: Option<u64>,
}

impl Operation for StartVertex {
    open spec fn fields(&self) -> Seq<Field> {
        let common = seq![
            Field::U32(0x22),
            Field::U64(self.tiling_params),
            Field::U64(self.job_params1),
            Field::U64(self.buffer),
            Field::U64(self.scene),
            Field::U64(self.stats),
            Field::U64(self.work_queue),
            Field::U32(self.vm_slot),
            Field::U32(1),
            Field::U32(self.event_generation),
            Field::U32(self.buffer_slot),
            Field::Zero(4),
            Field::U64(self.prev_stamp_value),
            Field::Zero(4),
            Field::U64(self.unk_pointer),
            Field::U64(self.unk_job_buf),
            Field::Zero(8),
            Field::U32(self.uuid),
            Field::Zero(0x10c),
        ];
        match self.notifier_buf {
            Some(buf) => common.push(Field::Zero(4)).push(Field::U64(buf)).push(Field::Zero(4)),
            None => common,
        }
    }

    fn to_fields(&self) -> (r: Vec<Field>) {
        let mut v: Vec<Field> = Vec::new();
        v.push(Field::U32(OpHeader::new(OpCode::StartVertex).0));
        v.push(Field::U64(self.tiling_params));
        v.push(Field::U64(self.job_params1));
        v.push(Field::U64(self.buffer));
        v.push(Field::U64(self.scene));
        v.push(Field::U64(self.stats));
        v.push(Field::U64(self.work_queue));
        v.push(Field::U32(self.vm_slot));
        v.push(Field::U32(1));
        v.push(Field::U32(self.event_generation));
        v.push(Field::U32(self.buffer_slot));
        v.push(Field::Zero(4));
        v.push(Field::U64(self.prev_stamp_value));
        v.push(Field::Zero(4));
        v.push(Field::U64(self.unk_pointer));
        v.push(Field::U64(self.unk_job_buf));
        v.push(Field::Zero(8));
        v.push(Field::U32(self.uuid));
        v.push(Field::Zero(0x10c));
        if let Some(buf) = self.notifier_buf {
            v.push(Field::Zero(4));
            v.push(Field::U64(buf));
            v.push(Field::Zero(4));
        }
        v
    }
}

/// Finishes a vertex job, or goes back to its start if it has to run again.
#[derive(Copy, Clone, Debug, PartialEq, Eq, Structural)]
pub struct FinalizeVertex {
    pub scene: u64,
    pub buffer: u64,
    pub stats: u64,
    pub work_queue: u64,
    pub vm_slot: u32,
    pub unk_pointer: u64,
    pub uuid: u32,
    pub fw_stamp: u64,
    pub stamp_value: u32,
    /// From here to the start of the job.
    pub restart_branch_offset: i32,
    /// The firmware is a newer one, whose operation is longer.
    pub ventura: bool,
}

impl Operation for FinalizeVertex {
    open spec fn fields(&self) -> Seq<Field> {
        let common = seq![
            Field::U32(0x23),
            Field::U64(self.scene),
            Field::U64(self.buffer),
            Field::U64(self.stats),
            Field::U64(self.work_queue),
            Field::U32(self.vm_slot),
            Field::Zero(4),
            Field::U64(self.unk_pointer),
            Field::Zero(4),
            Field::U32(self.uuid),
            Field::U64(self.fw_stamp),
            Field::U32(self.stamp_value),
            Field::Zero(0x24),
            Field::I32(self.restart_branch_offset),
            Field::Zero(4),
        ];
        if self.ventura {
            common.push(Field::Zero(0x10))
        } else {
            common
        }
    }

    fn to_fields(&self) -> (r: Vec<Field>) {
        let mut v: Vec<Field> = Vec::new();
        v.push(Field::U32(OpHeader::new(OpCode::FinalizeVertex).0));
        v.push(Field::U64(self.scene));
        v.push(Field::U64(self.buffer));
        v.push(Field::U64(self.stats));
        v.push(Field::U64(self.work_queue));
        v.push(Field::U32(self.vm_slot));
        v.push(Field::Zero(4));
        v.push(Field::U64(self.unk_pointer));
        v.push(Field::Zero(4));
        v.push(Field::U32(self.uuid));
        v.push(Field::U64(self.fw_stamp));
        v.push(Field::U32(self.stamp_value));
        v.push(Field::Zero(0x24));
        v.push(Field::I32(self.restart_branch_offset));
        v.push(Field::Zero(4));
        if self.ventura {
            v.push(Field::Zero(0x10));
        }
        v
    }
}

/// An image that a fragment job writes.
#[derive(Copy, Clone, Debug, PartialEq, Eq, Structural)]
pub struct Attachment {
    pub address: u64,
    /// In cache lines.
    pub size: u32,
    pub unk_c: u16,
    pub unk_e: u16,
}

/// How many attachments an operation has room for.
pub const MAX_ATTACHMENTS: usize = 16;

/// The pieces of the first `n` attachments.
pub open spec fn attachment_fields(attachments: Seq<Attachment>, n: int) -> Seq<Field>
    decreases n,
{
    if n <= 0 {
        Seq::empty()
    } else {
        attachment_fields(attachments, n - 1) + seq![
            Field::U64(attachments[n - 1].address),
            Field::U32(attachments[n - 1].size),
            Field::U16(attachments[n - 1].unk_c),
            Field::U16(attachments[n - 1].unk_e),
        ]
    }
}

proof fn lemma_attachments_size(attachments: Seq<Attachment>, n: int)
    requires
        0 <= n,
    ensures
        size_of_fields(attachment_fields(attachments, n)) == 0x10 * n,
        attachment_fields(attachments, n).len() == 4 * n,
    decreases n,
{
    if n > 0 {
        lemma_attachments_size(attachments, n - 1);
        reveal_with_fuel(size_upto, 5);
        lemma_size_concat(
            attachment_fields(attachments, n - 1),
            seq![
                Field::U64(attachments[n - 1].address),
                Field::U32(attachments[n - 1].size),
                Field::U16(attachments[n - 1].unk_c),
                Field::U16(attachments[n - 1].unk_e),
            ],
        );
    }
}

/// Starts a fragment job. What is always the same is left out here.
#[derive(Debug)]
pub struct StartFragment {
    pub job_params2: u64,
    pub job_params1: u64,
    pub scene: u64,
    pub stats: u64,
    pub busy_flag: u64,
    pub tvb_overflow_count: u64,
    pub unk_pointer: u64,
    pub work_queue: u64,
    pub work_item: u64,
    pub vm_slot: u32,
    pub event_generation: u32,
    pub buffer_slot: u32,
    pub prev_stamp_value: u64,
    pub unk_758_flag: u64,
    pub unk_job_buf: u64,
    pub uuid: u32,
    /// At most 16 are written.
    pub attachments: Vec<Attachment>,
    /// Only newer firmware takes this.
    pub notifier_buf: Option<u64>,
}

impl StartFragment {
    pub open spec fn count(&self) -> int {
        if self.attachments@.len() < MAX_ATTACHMENTS {
            self.attachments@.len() as int
        } else {
            MAX_ATTACHMENTS as int
        }
    }

    pub open spec fn head(&self) -> Seq<Field> {
        seq![
            Field::U32(0x24),
            Field::U64(self.job_params2),
            Field::U64(self.job_params1),
            Field::U64(self.scene),
            Field::U64(self.stats),
            Field::U64(self.busy_flag),
            Field::U64(self.tvb_overflow_count),
            Field::U64(self.unk_pointer),
            Field::U64(self.work_queue),
            Field::U64(self.work_item),
            Field::U32(self.vm_slot),
            Field::U32(1),
            Field::U32(self.event_generation),
            Field::U32(self.buffer_slot),
            Field::Zero(4),
            Field::U64(self.prev_stamp_value),
            Field::Zero(4),
            Field::U64(self.unk_758_flag),
            Field::U64(self.unk_job_buf),
            Field::Zero(0xc),
            Field::U32(self.uuid),
        ]
    }

    pub open spec fn tail(&self) -> Seq<Field> {
        let common = seq![
            Field::Zero((0x10 * (MAX_ATTACHMENTS - self.count())) as usize),
            Field::U32(self.count() as u32),
            Field::Zero(4),
        ];
        match self.notifier_buf {
            Some(buf) => common.push(Field::Zero(8)).push(Field::U64(buf)),
            None => common,
        }
    }
}

impl Operation for StartFragment {
    open spec fn fields(&self) -> Seq<Field> {
        self.head() + attachment_fields(self.attachments@, self.count()) + self.tail()
    }

    fn to_fields(&self) -> (r: Vec<Field>) {
        let mut v: Vec<Field> = Vec::new();
        v.push(Field::U32(OpHeader::new(OpCode::StartFragment).0));
        v.push(Field::U64(self.job_params2));
        v.push(Field::U64(self.job_params1));
        v.push(Field::U64(self.scene));
        v.push(Field::U64(self.stats));
        v.push(Field::U64(self.busy_flag));
        v.push(Field::U64(self.tvb_overflow_count));
        v.push(Field::U64(self.unk_pointer));
        v.push(Field::U64(self.work_queue));
        v.push(Field::U64(self.work_item));
        v.push(Field::U32(self.vm_slot));
        v.push(Field::U32(1));
        v.push(Field::U32(self.event_generation));
        v.push(Field::U32(self.buffer_slot));
        v.push(Field::Zero(4));
        v.push(Field::U64(self.prev_stamp_value));
        v.push(Field::Zero(4));
        v.push(Field::U64(self.unk_758_flag));
        v.push(Field::U64(self.unk_job_buf));
        v.push(Field::Zero(0xc));
        v.push(Field::U32(self.uuid));
        assert(v@ =~= self.head());
        let count: usize = if self.attachments.len() < MAX_ATTACHMENTS {
            self.attachments.len()
        } else {
            MAX_ATTACHMENTS
        };
        let mut i: usize = 0;
        while i < count
            invariant
                i <= count == self.count(),
                count <= self.attachments@.len(),
                v@ =~= self.head() + attachment_fields(self.attachments@, i as int),
            decreases count - i,
        {
            let a = self.attachments[i];
            v.push(Field::U64(a.address));
            v.push(Field::U32(a.size));
            v.push(Field::U16(a.unk_c));
            v.push(Field::U16(a.unk_e));
            i = i + 1;
        }
        v.push(Field::Zero(0x10 * (MAX_ATTACHMENTS - count)));
        v.push(Field::U32(count as u32));
        v.push(Field::Zero(4));
        if let Some(buf) = self.notifier_buf {
            v.push(Field::Zero(8));
            v.push(Field::U64(buf));
        }
        assert(v@ =~= self.fields());
        v
    }
}

/// Finishes a fragment job, or goes back to its start if it has to run again.
#[derive(Copy, Clone, Debug, PartialEq, Eq, Structural)]
pub struct FinalizeFragment {
    pub uuid: u32,
    pub fw_stamp: u64,
    pub stamp_value: u32,
    pub scene: u64,
    pub buffer: u64,
    pub stats: u64,
    pub unk_pointer: u64,
    pub busy_flag: u64,
    pub work_queue: u64,
    pub work_item: u64,
    pub vm_slot: u32,
    pub unk_758_flag: u64,
    /// From here to the start of the job.
    pub restart_branch_offset: i32,
    /// The firmware is a newer one, whose operation is longer.
    pub ventura: bool,
}

impl Operation for FinalizeFragment {
    open spec fn fields(&self) -> Seq<Field> {
        let common = seq![
            Field::U32(0x25),
            Field::U32(self.uuid),
            Field::Zero(4),
            Field::U64(self.fw_stamp),
            Field::U32(self.stamp_value),
            Field::Zero(4),
            Field::U64(self.scene),
            Field::U64(self.buffer),
            Field::U64(1),
            Field::U64(self.stats),
            Field::U64(self.unk_pointer),
            Field::U64(self.busy_flag),
            Field::U64(self.work_queue),
            Field::U64(self.work_item),
            Field::U32(self.vm_slot),
            Field::Zero(4),
            Field::U64(self.unk_758_flag),
            Field::Zero(0x28),
            Field::I32(self.restart_branch_offset),
            Field::Zero(4),
        ];
        if self.ventura {
            common.push(Field::Zero(0x10))
        } else {
            common
        }
    }

    fn to_fields(&self) -> (r: Vec<Field>) {
        let mut v: Vec<Field> = Vec::new();
        v.push(Field::U32(OpHeader::new(OpCode::FinalizeFragment).0));
        v.push(Field::U32(self.uuid));
        v.push(Field::Zero(4));
        v.push(Field::U64(self.fw_stamp));
        v.push(Field::U32(self.stamp_value));
        v.push(Field::Zero(4));
        v.push(Field::U64(self.scene));
        v.push(Field::U64(self.buffer));
        v.push(Field::U64(1));
        v.push(Field::U64(self.stats));
        v.push(Field::U64(self.unk_pointer));
        v.push(Field::U64(self.busy_flag));
        v.push(Field::U64(self.work_queue));
        v.push(Field::U64(self.work_item));
        v.push(Field::U32(self.vm_slot));
        v.push(Field::Zero(4));
        v.push(Field::U64(self.unk_758_flag));
        v.push(Field::Zero(0x28));
        v.push(Field::I32(self.restart_branch_offset));
        v.push(Field::Zero(4));
        if self.ventura {
            v.push(Field::Zero(0x10));
        }
        v
    }
}

/// How long the operations without arguments are.
pub proof fn law_plain_operation_sizes(wait: WaitForIdle, retire: RetireStamp)
    ensures
        size_of_fields(wait.fields()) == 4,
        size_of_fields(retire.fields()) == 4,
{
    reveal_with_fuel(size_upto, 2);
}

/// How long the operation is, by the firmware that it is for.
pub proof fn law_start_vertex_size(op: StartVertex)
    ensures
        size_of_fields(op.fields()) == if op.notifier_buf is Some {
            0x18cint
        } else {
            0x17cint
        },
{
    reveal_with_fuel(size_upto, 23);
}

/// How long the operation is, by the firmware that it is for.
pub proof fn law_finalize_vertex_size(op: FinalizeVertex)
    ensures
        size_of_fields(op.fields()) == if op.ventura {
            0x84int
        } else {
            0x74int
        },
{
    reveal_with_fuel(size_upto, 17);
}

/// How long the operation is, by the firmware that it is for; the number of attachments
/// does not matter.
pub proof fn law_start_fragment_size(op: StartFragment)
    ensures
        size_of_fields(op.fields()) == if op.notifier_buf is Some {
            0x1a4int
        } else {
            0x194int
        },
{
    let n = op.count();
    let attachments = attachment_fields(op.attachments@, n);
    lemma_attachments_size(op.attachments@, n);
    assert(size_of_fields(op.head()) == 0x8c) by {
        reveal_with_fuel(size_upto, 22);
    }
    assert(size_of_fields(op.tail()) == 0x10 * (16 - n) + 8 + if op.notifier_buf is Some {
        0x10int
    } else {
        0
    }) by {
        reveal_with_fuel(size_upto, 6);
    }
    lemma_size_concat(op.head(), attachments);
    lemma_size_concat(op.head() + attachments, op.tail());
}

/// How long the operation is, by the firmware that it is for.
pub proof fn law_finalize_fragment_size(op: FinalizeFragment)
    ensures
        size_of_fields(op.fields()) == if op.ventura {
            0xacint
        } else {
            0x9cint
        },
{
    reveal_with_fuel(size_upto, 22);
}

/// The number that `n` bytes at some place stand for.
pub open spec fn read_at(bytes: Seq<u8>, at: int, n: int) -> int {
    little_endian_value(bytes.subrange(at, at + n))
}

/// The number that a piece holds. A negative one counts down from the end of the range.
pub open spec fn number_in(field: Field) -> int {
    match field {
        Field::U16(x) => x as int,
        Field::U32(x) => x as int,
        Field::U64(x) => x as int,
        Field::I32(x) => (x as int) % 0x1_0000_0000,
        Field::Zero(_) => 0,
    }
}

/// A byte of a number is the digit that its place says, in base 256.
pub proof fn law_bytes_ascend_in_significance(x: int, n: nat, i: nat)
    requires
        0 <= x,
        i < n,
    ensures
        little_endian(x, n).len() == n,
        little_endian(x, n)[i as int] == (x / crate::of::range_of(i) as int) % 0x100,
    decreases n,
{
    lemma_little_endian_len(x, n);
    lemma_little_endian_len(x / 0x100, (n - 1) as nat);
    if i == 0 {
        assert(crate::of::range_of(0) == 1);
    } else {
        let j = (i - 1) as nat;
        law_bytes_ascend_in_significance(x / 0x100, (n - 1) as nat, j);
        lemma_range_positive(j);
        vstd::arithmetic::div_mod::lemma_div_denominator(
            x,
            0x100,
            crate::of::range_of(j) as int,
        );
    }
}

proof fn lemma_range_positive(n: nat)
    ensures
        crate::of::range_of(n) > 0,
    decreases n,
{
    if n > 0 {
        lemma_range_positive((n - 1) as nat);
    }
}

proof fn lemma_piece_found(fields: Seq<Field>, k: int, n: int)
    requires
        0 <= k < n <= fields.len(),
    ensures
        size_upto(fields, k) + fields[k].size() <= bytes_upto(fields, n).len(),
        bytes_upto(fields, n).subrange(
            size_upto(fields, k) as int,
            (size_upto(fields, k) + fields[k].size()) as int,
        ) == fields[k].bytes(),
    decreases n,
{
    lemma_bytes_len(fields, n);
    lemma_bytes_len(fields, n - 1);
    lemma_bytes_len(fields, k);
    let at = size_upto(fields, k) as int;
    let end = at + fields[k].size();
    if n == k + 1 {
        assert(bytes_upto(fields, n).subrange(at, end) =~= fields[k].bytes());
    } else {
        lemma_piece_found(fields, k, n - 1);
        assert(bytes_upto(fields, n).subrange(at, end) =~= bytes_upto(fields, n - 1).subrange(
            at,
            end,
        ));
    }
}

proof fn lemma_zeroes_are_zero(n: nat)
    ensures
        little_endian_value(Seq::new(n, |i: int| 0u8)) == 0,
    decreases n,
{
    if n > 0 {
        lemma_zeroes_are_zero((n - 1) as nat);
        assert(Seq::new(n, |i: int| 0u8).skip(1) =~= Seq::new((n - 1) as nat, |i: int| 0u8));
    }
}

/// Each piece can be read back where the sizes of those before it put it.
pub proof fn law_pieces_read_back(fields: Seq<Field>, k: int)
    requires
        0 <= k < fields.len(),
    ensures
        size_upto(fields, k) + fields[k].size() <= bytes_of(fields).len(),
        bytes_of(fields).len() == size_of_fields(fields),
        read_at(bytes_of(fields), size_upto(fields, k) as int, fields[k].size() as int)
            == number_in(fields[k]),
        fields[k] is Zero ==> forall|i: int|
            size_upto(fields, k) <= i < size_upto(fields, k) + fields[k].size() ==> (
            #[trigger] bytes_of(fields)[i]) == 0,
{
    lemma_piece_found(fields, k, fields.len() as int);
    lemma_bytes_len(fields, fields.len() as int);
    reveal_with_fuel(crate::of::range_of, 9);
    let at = size_upto(fields, k) as int;
    let found = bytes_of(fields).subrange(at, at + fields[k].size());
    match fields[k] {
        Field::U16(x) => law_little_endian_reads_back(x as int, 2),
        Field::U32(x) => law_little_endian_reads_back(x as int, 4),
        Field::U64(x) => law_little_endian_reads_back(x as int, 8),
        Field::I32(x) => if x >= 0 {
            law_little_endian_reads_back(x as int, 4)
        } else {
            law_little_endian_reads_back(x + 0x1_0000_0000, 4)
        },
        Field::Zero(n) => {
            lemma_zeroes_are_zero(n as nat);
            assert forall|i: int| at <= i < at + n implies (#[trigger] bytes_of(fields)[i])
                == 0 by {
                assert(found[i - at] == bytes_of(fields)[i]);
            }
        },
    }
}

/// The operation names the pipe that it waits for, above its own number.
#[verifier::spinoff_prover]
#[verifier::rlimit(60)]
pub proof fn law_wait_for_idle_layout(op: WaitForIdle)
    ensures
        ({
            let b = bytes_of(op.fields());
            &&& read_at(b, 0x0, 4) == 1 + 0x100 * op.pipe.number()
            &&& b.len() == 0x4
        }),
{
    let f = op.fields();
    reveal_with_fuel(size_upto, 2);
    assert(size_upto(f, 0) == 0x0);
    law_pieces_read_back(f, 0);
}

/// The operation is a single word, with its flag set.
#[verifier::spinoff_prover]
#[verifier::rlimit(60)]
pub proof fn law_retire_stamp_layout(op: RetireStamp)
    ensures
        ({
            let b = bytes_of(op.fields());
            &&& read_at(b, 0x0, 4) == 0x18 + 0x4000_0000
            &&& b.len() == 0x4
        }),
{
    let f = op.fields();
    reveal_with_fuel(size_upto, 2);
    assert(size_upto(f, 0) == 0x0);
    law_pieces_read_back(f, 0);
}

/// Each argument of the operation can be read back at its own place, and what is between
/// them is zero.
#[verifier::spinoff_prover]
#[verifier::rlimit(60)]
pub proof fn law_start_vertex_layout(op: StartVertex)
    ensures
        ({
            let b = bytes_of(op.fields());
            &&& read_at(b, 0x0, 4) == 0x22
            &&& read_at(b, 0x4, 8) == op.tiling_params
            &&& read_at(b, 0xc, 8) == op.job_params1
            &&& read_at(b, 0x14, 8) == op.buffer
            &&& read_at(b, 0x1c, 8) == op.scene
            &&& read_at(b, 0x24, 8) == op.stats
            &&& read_at(b, 0x2c, 8) == op.work_queue
            &&& read_at(b, 0x34, 4) == op.vm_slot
            &&& read_at(b, 0x38, 4) == 1
            &&& read_at(b, 0x3c, 4) == op.event_generation
            &&& read_at(b, 0x40, 4) == op.buffer_slot
            &&& forall|i: int| 0x44 <= i < 0x48 ==> #[trigger] b[i] == 0
            &&& read_at(b, 0x48, 8) == op.prev_stamp_value
            &&& forall|i: int| 0x50 <= i < 0x54 ==> #[trigger] b[i] == 0
            &&& read_at(b, 0x54, 8) == op.unk_pointer
            &&& read_at(b, 0x5c, 8) == op.unk_job_buf
            &&& forall|i: int| 0x64 <= i < 0x6c ==> #[trigger] b[i] == 0
            &&& read_at(b, 0x6c, 4) == op.uuid
            &&& forall|i: int| 0x70 <= i < 0x17c ==> #[trigger] b[i] == 0
            &&& op.notifier_buf is Some ==> {
                &&& forall|i: int| 0x17c <= i < 0x180 ==> #[trigger] b[i] == 0
                &&& read_at(b, 0x180, 8) == op.notifier_buf->0
                &&& forall|i: int| 0x188 <= i < 0x18c ==> #[trigger] b[i] == 0
            }
            &&& b.len() == if op.notifier_buf is Some {
                0x18cint
            } else {
                0x17cint
            }
        }),
{
    let f = op.fields();
    reveal_with_fuel(size_upto, 24);
    assert(size_upto(f, 0) == 0x0);
    law_pieces_read_back(f, 0);
    assert(size_upto(f, 1) == 0x4);
    law_pieces_read_back(f, 1);
    assert(size_upto(f, 2) == 0xc);
    law_pieces_read_back(f, 2);
    assert(size_upto(f, 3) == 0x14);
    law_pieces_read_back(f, 3);
    assert(size_upto(f, 4) == 0x1c);
    law_pieces_read_back(f, 4);
    assert(size_upto(f, 5) == 0x24);
    law_pieces_read_back(f, 5);
    assert(size_upto(f, 6) == 0x2c);
    law_pieces_read_back(f, 6);
    assert(size_upto(f, 7) == 0x34);
    law_pieces_read_back(f, 7);
    assert(size_upto(f, 8) == 0x38);
    law_pieces_read_back(f, 8);
    assert(size_upto(f, 9) == 0x3c);
    law_pieces_read_back(f, 9);
    assert(size_upto(f, 10) == 0x40);
    law_pieces_read_back(f, 10);
    assert(size_upto(f, 11) == 0x44);
    law_pieces_read_back(f, 11);
    assert(size_upto(f, 12) == 0x48);
    law_pieces_read_back(f, 12);
    assert(size_upto(f, 13) == 0x50);
    law_pieces_read_back(f, 13);
    assert(size_upto(f, 14) == 0x54);
    law_pieces_read_back(f, 14);
    assert(size_upto(f, 15) == 0x5c);
    law_pieces_read_back(f, 15);
    assert(size_upto(f, 16) == 0x64);
    law_pieces_read_back(f, 16);
    assert(size_upto(f, 17) == 0x6c);
    law_pieces_read_back(f, 17);
    assert(size_upto(f, 18) == 0x70);
    law_pieces_read_back(f, 18);
    if op.notifier_buf is Some {
        assert(size_upto(f, 19) == 0x17c);
        law_pieces_read_back(f, 19);
        assert(size_upto(f, 20) == 0x180);
        law_pieces_read_back(f, 20);
        assert(size_upto(f, 21) == 0x188);
        law_pieces_read_back(f, 21);
    }
}

/// Each argument of the operation can be read back at its own place, and what is between
/// them is zero.
#[verifier::spinoff_prover]
#[verifier::rlimit(60)]
pub proof fn law_finalize_vertex_layout(op: FinalizeVertex)
    ensures
        ({
            let b = bytes_of(op.fields());
            &&& read_at(b, 0x0, 4) == 0x23
            &&& read_at(b, 0x4, 8) == op.scene
            &&& read_at(b, 0xc, 8) == op.buffer
            &&& read_at(b, 0x14, 8) == op.stats
            &&& read_at(b, 0x1c, 8) == op.work_queue
            &&& read_at(b, 0x24, 4) == op.vm_slot
            &&& forall|i: int| 0x28 <= i < 0x2c ==> #[trigger] b[i] == 0
            &&& read_at(b, 0x2c, 8) == op.unk_pointer
            &&& forall|i: int| 0x34 <= i < 0x38 ==> #[trigger] b[i] == 0
            &&& read_at(b, 0x38, 4) == op.uuid
            &&& read_at(b, 0x3c, 8) == op.fw_stamp
            &&& read_at(b, 0x44, 4) == op.stamp_value
            &&& forall|i: int| 0x48 <= i < 0x6c ==> #[trigger] b[i] == 0
            &&& read_at(b, 0x6c, 4) == (op.restart_branch_offset as int) % 0x1_0000_0000
            &&& forall|i: int| 0x70 <= i < 0x74 ==> #[trigger] b[i] == 0
            &&& op.ventura ==> {
                &&& forall|i: int| 0x74 <= i < 0x84 ==> #[trigger] b[i] == 0
            }
            &&& b.len() == if op.ventura {
                0x84int
            } else {
                0x74int
            }
        }),
{
    let f = op.fields();
    reveal_with_fuel(size_upto, 18);
    assert(size_upto(f, 0) == 0x0);
    law_pieces_read_back(f, 0);
    assert(size_upto(f, 1) == 0x4);
    law_pieces_read_back(f, 1);
    assert(size_upto(f, 2) == 0xc);
    law_pieces_read_back(f, 2);
    assert(size_upto(f, 3) == 0x14);
    law_pieces_read_back(f, 3);
    assert(size_upto(f, 4) == 0x1c);
    law_pieces_read_back(f, 4);
    assert(size_upto(f, 5) == 0x24);
    law_pieces_read_back(f, 5);
    assert(size_upto(f, 6) == 0x28);
    law_pieces_read_back(f, 6);
    assert(size_upto(f, 7) == 0x2c);
    law_pieces_read_back(f, 7);
    assert(size_upto(f, 8) == 0x34);
    law_pieces_read_back(f, 8);
    assert(size_upto(f, 9) == 0x38);
    law_pieces_read_back(f, 9);
    assert(size_upto(f, 10) == 0x3c);
    law_pieces_read_back(f, 10);
    assert(size_upto(f, 11) == 0x44);
    law_pieces_read_back(f, 11);
    assert(size_upto(f, 12) == 0x48);
    law_pieces_read_back(f, 12);
    assert(size_upto(f, 13) == 0x6c);
    law_pieces_read_back(f, 13);
    assert(size_upto(f, 14) == 0x70);
    law_pieces_read_back(f, 14);
    if op.ventura {
        assert(size_upto(f, 15) == 0x74);
        law_pieces_read_back(f, 15);
    }
}

/// Each argument of the operation can be read back at its own place, and what is between
/// them is zero.
#[verifier::spinoff_prover]
#[verifier::rlimit(60)]
pub proof fn law_finalize_fragment_layout(op: FinalizeFragment)
    ensures
        ({
            let b = bytes_of(op.fields());
            &&& read_at(b, 0x0, 4) == 0x25
            &&& read_at(b, 0x4, 4) == op.uuid
            &&& forall|i: int| 0x8 <= i < 0xc ==> #[trigger] b[i] == 0
            &&& read_at(b, 0xc, 8) == op.fw_stamp
            &&& read_at(b, 0x14, 4) == op.stamp_value
            &&& forall|i: int| 0x18 <= i < 0x1c ==> #[trigger] b[i] == 0
            &&& read_at(b, 0x1c, 8) == op.scene
            &&& read_at(b, 0x24, 8) == op.buffer
            &&& read_at(b, 0x2c, 8) == 1
            &&& read_at(b, 0x34, 8) == op.stats
            &&& read_at(b, 0x3c, 8) == op.unk_pointer
            &&& read_at(b, 0x44, 8) == op.busy_flag
            &&& read_at(b, 0x4c, 8) == op.work_queue
            &&& read_at(b, 0x54, 8) == op.work_item
            &&& read_at(b, 0x5c, 4) == op.vm_slot
            &&& forall|i: int| 0x60 <= i < 0x64 ==> #[trigger] b[i] == 0
            &&& read_at(b, 0x64, 8) == op.unk_758_flag
            &&& forall|i: int| 0x6c <= i < 0x94 ==> #[trigger] b[i] == 0
            &&& read_at(b, 0x94, 4) == (op.restart_branch_offset as int) % 0x1_0000_0000
            &&& forall|i: int| 0x98 <= i < 0x9c ==> #[trigger] b[i] == 0
            &&& op.ventura ==> {
                &&& forall|i: int| 0x9c <= i < 0xac ==> #[trigger] b[i] == 0
            }
            &&& b.len() == if op.ventura {
                0xacint
            } else {
                0x9cint
            }
        }),
{
    let f = op.fields();
    reveal_with_fuel(size_upto, 24);
    assert(size_upto(f, 0) == 0x0);
    law_pieces_read_back(f, 0);
    assert(size_upto(f, 1) == 0x4);
    law_pieces_read_back(f, 1);
    assert(size_upto(f, 2) == 0x8);
    law_pieces_read_back(f, 2);
    assert(size_upto(f, 3) == 0xc);
    law_pieces_read_back(f, 3);
    assert(size_upto(f, 4) == 0x14);
    law_pieces_read_back(f, 4);
    assert(size_upto(f, 5) == 0x18);
    law_pieces_read_back(f, 5);
    assert(size_upto(f, 6) == 0x1c);
    law_pieces_read_back(f, 6);
    assert(size_upto(f, 7) == 0x24);
    law_pieces_read_back(f, 7);
    assert(size_upto(f, 8) == 0x2c);
    law_pieces_read_back(f, 8);
    assert(size_upto(f, 9) == 0x34);
    law_pieces_read_back(f, 9);
    assert(size_upto(f, 10) == 0x3c);
    law_pieces_read_back(f, 10);
    assert(size_upto(f, 11) == 0x44);
    law_pieces_read_back(f, 11);
    assert(size_upto(f, 12) == 0x4c);
    law_pieces_read_back(f, 12);
    assert(size_upto(f, 13) == 0x54);
    law_pieces_read_back(f, 13);
    assert(size_upto(f, 14) == 0x5c);
    law_pieces_read_back(f, 14);
    assert(size_upto(f, 15) == 0x60);
    law_pieces_read_back(f, 15);
    assert(size_upto(f, 16) == 0x64);
    law_pieces_read_back(f, 16);
    assert(size_upto(f, 17) == 0x6c);
    law_pieces_read_back(f, 17);
    assert(size_upto(f, 18) == 0x94);
    law_pieces_read_back(f, 18);
    assert(size_upto(f, 19) == 0x98);
    law_pieces_read_back(f, 19);
    if op.ventura {
        assert(size_upto(f, 20) == 0x9c);
        law_pieces_read_back(f, 20);
    }
}

proof fn lemma_attachment_piece(attachments: Seq<Attachment>, i: int, n: int)
    requires
        0 <= i < n,
    ensures
        attachment_fields(attachments, n).len() == 4 * n,
        attachment_fields(attachments, n)[4 * i] == Field::U64(attachments[i].address),
        attachment_fields(attachments, n)[4 * i + 1] == Field::U32(attachments[i].size),
        attachment_fields(attachments, n)[4 * i + 2] == Field::U16(attachments[i].unk_c),
        attachment_fields(attachments, n)[4 * i + 3] == Field::U16(attachments[i].unk_e),
        forall|j: int|
            0 <= j < 4 * i ==> (#[trigger] attachment_fields(attachments, n)[j])
                == attachment_fields(attachments, i)[j],
    decreases n,
{
    lemma_attachments_size(attachments, n - 1);
    lemma_attachments_size(attachments, n);
    if i < n - 1 {
        lemma_attachment_piece(attachments, i, n - 1);
    }
}

/// Each argument of the operation that comes before the attachments can be read back at
/// its own place, and what is between them is zero.
#[verifier::spinoff_prover]
#[verifier::rlimit(60)]
pub proof fn law_start_fragment_layout(op: StartFragment)
    ensures
        ({
            let b = bytes_of(op.fields());
            &&& read_at(b, 0x0, 4) == 0x24
            &&& read_at(b, 0x4, 8) == op.job_params2
            &&& read_at(b, 0xc, 8) == op.job_params1
            &&& read_at(b, 0x14, 8) == op.scene
            &&& read_at(b, 0x1c, 8) == op.stats
            &&& read_at(b, 0x24, 8) == op.busy_flag
            &&& read_at(b, 0x2c, 8) == op.tvb_overflow_count
            &&& read_at(b, 0x34, 8) == op.unk_pointer
            &&& read_at(b, 0x3c, 8) == op.work_queue
            &&& read_at(b, 0x44, 8) == op.work_item
            &&& read_at(b, 0x4c, 4) == op.vm_slot
            &&& read_at(b, 0x50, 4) == 1
            &&& read_at(b, 0x54, 4) == op.event_generation
            &&& read_at(b, 0x58, 4) == op.buffer_slot
            &&& forall|i: int| 0x5c <= i < 0x60 ==> #[trigger] b[i] == 0
            &&& read_at(b, 0x60, 8) == op.prev_stamp_value
            &&& forall|i: int| 0x68 <= i < 0x6c ==> #[trigger] b[i] == 0
            &&& read_at(b, 0x6c, 8) == op.unk_758_flag
            &&& read_at(b, 0x74, 8) == op.unk_job_buf
            &&& forall|i: int| 0x7c <= i < 0x88 ==> #[trigger] b[i] == 0
            &&& read_at(b, 0x88, 4) == op.uuid
        }),
{
    let h = op.head();
    let f = op.fields();
    reveal_with_fuel(size_upto, 22);
    assert(size_upto(h, 0) == 0x0 && f[0] == h[0]);
    lemma_size_of_prefix(f, h, 0);
    law_pieces_read_back(f, 0);
    assert(size_upto(h, 1) == 0x4 && f[1] == h[1]);
    lemma_size_of_prefix(f, h, 1);
    law_pieces_read_back(f, 1);
    assert(size_upto(h, 2) == 0xc && f[2] == h[2]);
    lemma_size_of_prefix(f, h, 2);
    law_pieces_read_back(f, 2);
    assert(size_upto(h, 3) == 0x14 && f[3] == h[3]);
    lemma_size_of_prefix(f, h, 3);
    law_pieces_read_back(f, 3);
    assert(size_upto(h, 4) == 0x1c && f[4] == h[4]);
    lemma_size_of_prefix(f, h, 4);
    law_pieces_read_back(f, 4);
    assert(size_upto(h, 5) == 0x24 && f[5] == h[5]);
    lemma_size_of_prefix(f, h, 5);
    law_pieces_read_back(f, 5);
    assert(size_upto(h, 6) == 0x2c && f[6] == h[6]);
    lemma_size_of_prefix(f, h, 6);
    law_pieces_read_back(f, 6);
    assert(size_upto(h, 7) == 0x34 && f[7] == h[7]);
    lemma_size_of_prefix(f, h, 7);
    law_pieces_read_back(f, 7);
    assert(size_upto(h, 8) == 0x3c && f[8] == h[8]);
    lemma_size_of_prefix(f, h, 8);
    law_pieces_read_back(f, 8);
    assert(size_upto(h, 9) == 0x44 && f[9] == h[9]);
    lemma_size_of_prefix(f, h, 9);
    law_pieces_read_back(f, 9);
    assert(size_upto(h, 10) == 0x4c && f[10] == h[10]);
    lemma_size_of_prefix(f, h, 10);
    law_pieces_read_back(f, 10);
    assert(size_upto(h, 11) == 0x50 && f[11] == h[11]);
    lemma_size_of_prefix(f, h, 11);
    law_pieces_read_back(f, 11);
    assert(size_upto(h, 12) == 0x54 && f[12] == h[12]);
    lemma_size_of_prefix(f, h, 12);
    law_pieces_read_back(f, 12);
    assert(size_upto(h, 13) == 0x58 && f[13] == h[13]);
    lemma_size_of_prefix(f, h, 13);
    law_pieces_read_back(f, 13);
    assert(size_upto(h, 14) == 0x5c && f[14] == h[14]);
    lemma_size_of_prefix(f, h, 14);
    law_pieces_read_back(f, 14);
    assert(size_upto(h, 15) == 0x60 && f[15] == h[15]);
    lemma_size_of_prefix(f, h, 15);
    law_pieces_read_back(f, 15);
    assert(size_upto(h, 16) == 0x68 && f[16] == h[16]);
    lemma_size_of_prefix(f, h, 16);
    law_pieces_read_back(f, 16);
    assert(size_upto(h, 17) == 0x6c && f[17] == h[17]);
    lemma_size_of_prefix(f, h, 17);
    law_pieces_read_back(f, 17);
    assert(size_upto(h, 18) == 0x74 && f[18] == h[18]);
    lemma_size_of_prefix(f, h, 18);
    law_pieces_read_back(f, 18);
    assert(size_upto(h, 19) == 0x7c && f[19] == h[19]);
    lemma_size_of_prefix(f, h, 19);
    law_pieces_read_back(f, 19);
    assert(size_upto(h, 20) == 0x88 && f[20] == h[20]);
    lemma_size_of_prefix(f, h, 20);
    law_pieces_read_back(f, 20);
}

/// Where an attachment is in the operation.
pub open spec fn attachment_offset(i: int) -> int {
    0x8c + 0x10 * i
}

/// Each attachment, of which the operation takes as many as it has room for, can be read
/// back at its own place.
#[verifier::spinoff_prover]
pub proof fn law_attachments_read_back(op: StartFragment, i: int)
    requires
        0 <= i < op.attachments@.len(),
        i < 16,
    ensures
        ({
            let b = bytes_of(op.fields());
            let at = attachment_offset(i);
            &&& read_at(b, at, 8) == op.attachments@[i].address
            &&& read_at(b, at + 8, 4) == op.attachments@[i].size
            &&& read_at(b, at + 0xc, 2) == op.attachments@[i].unk_c
            &&& read_at(b, at + 0xe, 2) == op.attachments@[i].unk_e
        }),
{
    let n = op.count();
    let h = op.head();
    let f = op.fields();
    let before = h + attachment_fields(op.attachments@, i);
    lemma_attachment_piece(op.attachments@, i, n);
    lemma_attachments_size(op.attachments@, i);
    assert(size_of_fields(h) == 0x8c) by {
        reveal_with_fuel(size_upto, 22);
    }
    lemma_size_concat(h, attachment_fields(op.attachments@, i));
    let k = 21 + 4 * i;
    assert(before.len() == k);
    assert forall|j: int| 0 <= j < k implies f[j] == before[j] by {
        if j >= 21 {
            assert(f[j] == attachment_fields(op.attachments@, n)[j - 21]);
        }
    }
    lemma_size_of_prefix(f, before, k);
    assert(f[k] == attachment_fields(op.attachments@, n)[4 * i]);
    assert(f[k + 1] == attachment_fields(op.attachments@, n)[4 * i + 1]);
    assert(f[k + 2] == attachment_fields(op.attachments@, n)[4 * i + 2]);
    assert(f[k + 3] == attachment_fields(op.attachments@, n)[4 * i + 3]);
    assert(size_upto(f, k) == attachment_offset(i));
    assert(size_upto(f, k + 1) == attachment_offset(i) + 8);
    assert(size_upto(f, k + 2) == attachment_offset(i) + 0xc);
    assert(size_upto(f, k + 3) == attachment_offset(i) + 0xe);
    law_pieces_read_back(f, k);
    law_pieces_read_back(f, k + 1);
    law_pieces_read_back(f, k + 2);
    law_pieces_read_back(f, k + 3);
}

/// Behind the room for the attachments the operation says how many of them there are; the
/// room that is not used is zero. Newer firmware also finds its notifier's buffer.
#[verifier::spinoff_prover]
pub proof fn law_attachments_are_counted(op: StartFragment)
    ensures
        ({
            let b = bytes_of(op.fields());
            &&& op.attachments@.len() <= 16 ==> read_at(b, 0x18c, 4) == op.attachments@.len()
            &&& op.attachments@.len() > 16 ==> read_at(b, 0x18c, 4) == 16
            &&& forall|i: int|
                attachment_offset(op.attachments@.len() as int) <= i < 0x18c ==> #[trigger] b[i]
                    == 0
            &&& forall|i: int| 0x190 <= i < 0x194 ==> #[trigger] b[i] == 0
            &&& op.notifier_buf matches Some(buf) ==> {
                &&& forall|i: int| 0x194 <= i < 0x19c ==> #[trigger] b[i] == 0
                &&& read_at(b, 0x19c, 8) == buf
            }
        }),
{
    let n = op.count();
    let h = op.head();
    let f = op.fields();
    let t = op.tail();
    let before = h + attachment_fields(op.attachments@, n);
    lemma_attachments_size(op.attachments@, n);
    assert(size_of_fields(h) == 0x8c) by {
        reveal_with_fuel(size_upto, 22);
    }
    lemma_size_concat(h, attachment_fields(op.attachments@, n));
    let k = 21 + 4 * n;
    assert(before.len() == k);
    lemma_size_of_prefix(f, before, k);
    assert(size_upto(f, k) == attachment_offset(n));
    assert(f[k] == t[0] && f[k + 1] == t[1] && f[k + 2] == t[2]);
    assert(size_upto(f, k + 1) == 0x18c);
    assert(size_upto(f, k + 2) == 0x190);
    assert(size_upto(f, k + 3) == 0x194);
    law_pieces_read_back(f, k);
    law_pieces_read_back(f, k + 1);
    law_pieces_read_back(f, k + 2);
    if op.notifier_buf is Some {
        assert(f[k + 3] == t[3] && f[k + 4] == t[4]);
        assert(size_upto(f, k + 4) == 0x19c);
        law_pieces_read_back(f, k + 3);
        law_pieces_read_back(f, k + 4);
    }
}

/// The operations are told apart by their numbers, as are the pipes.
pub proof fn law_numbers_tell_apart(a: OpCode, b: OpCode, p: Pipe, q: Pipe)
    ensures
        a.number() == b.number() ==> a == b,
        p.number() == q.number() ==> p == q,
        a.number() < 0x100,
        OpCode::WaitForIdle.number() == 1,
        OpCode::RetireStamp.number() == 0x18,
        OpCode::Timestamp.number() == OpCode::RetireStamp.number() + 1,
        OpCode::StartVertex.number() == 0x22,
        OpCode::FinalizeVertex.number() == OpCode::StartVertex.number() + 1,
        OpCode::StartFragment.number() == OpCode::StartVertex.number() + 2,
        OpCode::FinalizeFragment.number() == OpCode::StartFragment.number() + 1,
        OpCode::StartCompute.number() == 0x29,
        OpCode::FinalizeCompute.number() == OpCode::StartCompute.number() + 1,
        Pipe::Vertex.number() == 1,
        Pipe::Fragment.number() == 0x100 * Pipe::Vertex.number(),
        Pipe::Compute.number() == 0x80 * Pipe::Fragment.number(),
{
}

/// A header without flags is the number alone, and the flags of the others leave the
/// number readable.
pub proof fn law_headers_keep_the_number(
    opcode: OpCode,
    plain: OpHeader,
    pipe: Pipe,
    wait: OpHeader,
    flag: bool,
    time: OpHeader,
    retire: OpHeader,
)
    requires
        call_ensures(OpHeader::new, (opcode,), plain),
        call_ensures(OpHeader::wait_for_idle, (pipe,), wait),
        call_ensures(OpHeader::timestamp, (flag,), time),
        call_ensures(OpHeader::retire_stamp, (), retire),
    ensures
        plain.0 == opcode.number(),
        wait.0 % 0x100 == OpCode::WaitForIdle.number(),
        wait.0 / 0x100 == pipe.number(),
        time.0 % 0x100 == OpCode::Timestamp.number(),
        time.0 >= 0x8000_0000 <==> flag,
        !flag ==> time.0 < 0x100,
        flag ==> time.0 < 0x8000_0100,
        retire.0 % 0x100 == OpCode::RetireStamp.number(),
        0x4000_0000 <= retire.0 < 0x4000_0100,
{
}

/// Pieces are written one behind the other, behind what is there.
pub proof fn law_pieces_are_written_in_order(out: &mut Vec<u8>, fields: Vec<Field>, k: int)
    requires
        0 <= k < fields@.len(),
        call_ensures(push_fields, (out, &fields), ()),
    ensures
        final(out)@.take(old(out)@.len() as int) =~= old(out)@,
        final(out)@.len() == old(out)@.len() + size_of_fields(fields@),
        read_at(
            final(out)@,
            (old(out)@.len() + size_upto(fields@, k)) as int,
            fields@[k].size() as int,
        ) == number_in(fields@[k]),
{
    law_pieces_read_back(fields@, k);
    let at = size_upto(fields@, k) as int;
    let n = old(out)@.len() as int;
    assert(final(out)@.subrange(n + at, n + at + fields@[k].size()) =~= bytes_of(
        fields@,
    ).subrange(at, at + fields@[k].size()));
}

/// An operation and a pipe are known by their numbers, and a header is its operation's
/// number with the flags added.
pub proof fn law_numbers_are_given(
    opcode: OpCode,
    number: u32,
    pipe: Pipe,
    pipe_number: u32,
    args: u32,
    header: OpHeader,
)
    requires
        call_ensures(OpCode::to_u32, (&opcode,), number),
        call_ensures(Pipe::to_u32, (&pipe,), pipe_number),
        call_ensures(OpHeader::with_args, (opcode, args), header),
    ensures
        number == opcode.number(),
        pipe_number == pipe.number(),
        header.0 == number | args,
{
}

/// The operations are made of the pieces that their places are read from.
pub proof fn law_operations_are_made_of_their_pieces(
    a: StartVertex,
    fa: Vec<Field>,
    b: FinalizeVertex,
    fb: Vec<Field>,
    c: StartFragment,
    fc: Vec<Field>,
    d: FinalizeFragment,
    fd: Vec<Field>,
    e: WaitForIdle,
    fe: Vec<Field>,
    f: RetireStamp,
    ff: Vec<Field>,
)
    requires
        call_ensures(StartVertex::to_fields, (&a,), fa),
        call_ensures(FinalizeVertex::to_fields, (&b,), fb),
        call_ensures(StartFragment::to_fields, (&c,), fc),
        call_ensures(FinalizeFragment::to_fields, (&d,), fd),
        call_ensures(WaitForIdle::to_fields, (&e,), fe),
        call_ensures(RetireStamp::to_fields, (&f,), ff),
    ensures
        read_at(bytes_of(fa@), 0x34, 4) == a.vm_slot,
        read_at(bytes_of(fa@), 0x40, 4) == a.buffer_slot,
        read_at(bytes_of(fa@), 0x6c, 4) == a.uuid,
        read_at(bytes_of(fb@), 0x24, 4) == b.vm_slot,
        read_at(bytes_of(fb@), 0x44, 4) == b.stamp_value,
        read_at(bytes_of(fc@), 0x4c, 4) == c.vm_slot,
        read_at(bytes_of(fc@), 0x58, 4) == c.buffer_slot,
        read_at(bytes_of(fd@), 0x5c, 4) == d.vm_slot,
        read_at(bytes_of(fd@), 0x14, 4) == d.stamp_value,
        read_at(bytes_of(fe@), 0, 4) == 1 + 0x100 * e.pipe.number(),
        read_at(bytes_of(ff@), 0, 4) == 0x4000_0018,
{
    law_start_vertex_layout(a);
    law_finalize_vertex_layout(b);
    law_start_fragment_layout(c);
    law_finalize_fragment_layout(d);
    law_wait_for_idle_layout(e);
    law_retire_stamp_layout(f);
}

} // verus!
