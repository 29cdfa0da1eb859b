//! The smaller commands of a work queue.
use crate::buffer::Scene;
use crate::event::EventValue;
use crate::fw::job::QueueRef;
use vstd::prelude::*;

verus! {

/// What a command is.
#[derive(Copy, Clone, Debug, PartialEq, Eq, Structural)]
pub enum CommandType {
    RunVertex,
    RunFragment,
    InitBuffer,
    Barrier,
}

/// Makes a queue wait for the event of another.
#[derive(Copy, Clone, Debug, PartialEq, Eq, Structural)]
pub struct Barrier {
    pub tag: CommandType,
    pub wait_stamp: u64,
    pub wait_value: EventValue,
    pub wait_slot: u32,
    pub stamp_self: EventValue,
    pub uuid: u32,
}

impl Barrier {
    /// Makes the fragment job wait for the vertex job of the same frame.
    pub fn new(vtx: &QueueRef, frag: &QueueRef, uuid: u32) -> (r: Barrier)
        ensures
            r == (Barrier {
                tag: CommandType::Barrier,
                wait_stamp: vtx.fw_stamp,
                wait_value: vtx.value.plus(1),
                wait_slot: vtx.slot,
                stamp_self: frag.value.plus(1),
                uuid,
            }),
    {
        Barrier {
            tag: CommandType::Barrier,
            wait_stamp: vtx.fw_stamp,
            wait_value: vtx.value.next(),
            wait_slot: vtx.slot,
            stamp_self: frag.value.next(),
            uuid,
        }
    }
}

/// Tells the GPU about a buffer in a slot that it does not know it by.
#[derive(Copy, Clone, Debug, PartialEq, Eq, Structural)]
pub struct InitBuffer {
    pub tag: CommandType,
    pub vm_slot: u32,
    pub buffer_slot: u32,
    pub block_count: u32,
    pub buffer: u64,
    pub stamp_value: EventValue,
}

impl InitBuffer {
    pub fn new(scene: &Scene, vm_slot: u32, block_count: u32, vtx: &QueueRef) -> (r: InitBuffer)
        ensures
            r == (InitBuffer {
                tag: CommandType::InitBuffer,
                vm_slot,
                buffer_slot: scene.slot.slot,
                block_count,
                buffer: scene.buffers.buffer_info,
                stamp_value: vtx.value.plus(1),
            }),
    {
        InitBuffer {
            tag: CommandType::InitBuffer,
            vm_slot,
            buffer_slot: scene.slot(),
            block_count,
            buffer: scene.buffer_pointer(),
            stamp_value: vtx.value.next(),
        }
    }
}

} // verus!
