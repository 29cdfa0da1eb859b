//! What vertex and fragment jobs have in common.
use crate::event::EventValue;
use vstd::prelude::*;

verus! {

/// The queue that a job goes to, and its event.
#[derive(Copy, Clone, Debug, PartialEq, Eq, Structural)]
pub struct QueueRef {
    /// Where the queue descriptor is.
    pub info: u64,
    pub stamp: u64,
    pub fw_stamp: u64,
    /// The slot of the event.
    pub slot: u32,
    /// The value of the event's last batch.
    pub value: EventValue,
}

/// Which stamp a job advances, and to what. The fields that are zero are left out.
#[derive(Copy, Clone, Debug, PartialEq, Eq, Structural)]
pub struct JobMeta {
    pub stamp: u64,
    pub fw_stamp: u64,
    pub stamp_value: EventValue,
    pub stamp_slot: u32,
    pub uuid: u32,
    pub prev_stamp_value: u32,
}

impl JobMeta {
    /// The job's batch completes with the value after the queue's last one.
    pub fn new(queue: &QueueRef, uuid: u32) -> (r: JobMeta)
        ensures
            r == (JobMeta {
                stamp: queue.stamp,
                fw_stamp: queue.fw_stamp,
                stamp_value: queue.value.plus(1),
                stamp_slot: queue.slot,
                uuid,
                prev_stamp_value: queue.value.0 / 0x100,
            }),
    {
        JobMeta {
            stamp: queue.stamp,
            fw_stamp: queue.fw_stamp,
            stamp_value: queue.value.next(),
            stamp_slot: queue.slot,
            uuid,
            prev_stamp_value: queue.value.counter(),
        }
    }
}

/// The encoder that a job comes from. The fields that are zero are left out.
#[derive(Copy, Clone, Debug, PartialEq, Eq, Structural)]
pub struct EncoderParams {
    pub unk_8: u32,
    pub encoder_id: u32,
    pub unk_1c: u32,
    pub seq_buffer: u64,
}

impl EncoderParams {
    pub fn new(unk_8: u32, encoder_id: u32, seq_buffer: u64) -> (r: EncoderParams)
        ensures
            r == (EncoderParams {
                unk_8,
                encoder_id,
                unk_1c: 0xffff_ffff,
                seq_buffer,
            }),
    {
        EncoderParams {
            unk_8,
            encoder_id,
            unk_1c: 0xffff_ffff,
            seq_buffer,
        }
    }
}

/// A program in GPU memory.
#[derive(Copy, Clone, Debug, PartialEq, Eq, Structural)]
pub struct MicroSeqRef {
    pub address: u64,
    pub size: u32,
}

/// A job advances the stamp of its queue by one step from the queue's last value, and its
/// encoder is named by its id and its sequence buffer.
pub proof fn law_jobs_advance_their_queue(
    queue: QueueRef,
    uuid: u32,
    meta: JobMeta,
    unk_8: u32,
    encoder_id: u32,
    seq_buffer: u64,
    encoder: EncoderParams,
)
    requires
        call_ensures(JobMeta::new, (&queue, uuid), meta),
        call_ensures(EncoderParams::new, (unk_8, encoder_id, seq_buffer), encoder),
    ensures
        meta.stamp == queue.stamp,
        meta.fw_stamp == queue.fw_stamp,
        meta.stamp_slot == queue.slot,
        meta.uuid == uuid,
        meta.stamp_value.0 == (queue.value.0 + 0x100) % 0x1_0000_0000,
        0x100 * meta.prev_stamp_value <= queue.value.0 < 0x100 * meta.prev_stamp_value + 0x100,
        encoder.unk_8 == unk_8,
        encoder.encoder_id == encoder_id,
        encoder.seq_buffer == seq_buffer,
        encoder.unk_1c == u32::MAX,
{
}

} // verus!
