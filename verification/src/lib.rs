//! The logic of a driver for the Apple AGX GPU family: slot, event and buffer
//! bookkeeping, address space layout, command rings, work queues and the
//! contents of the structures handed to the GPU firmware.
//!
//! Everything here works on plain values. What only the machine can answer (a
//! register, a shared counter, the place that the range allocator chose) is an
//! argument, and what the machine has to do next is a result.
#![allow(non_snake_case)]
#![allow(non_camel_case_types)]

pub mod allocator;
pub mod buffer;
pub mod channel;
pub mod driver;
pub mod drm;
pub mod error;
pub mod event;
pub mod file;
pub mod fw;
pub mod gem;
pub mod gpu;
pub mod hw;
pub mod initdata;
pub mod io_pgtable;
pub mod ioctl;
pub mod microseq;
pub mod mmu;
pub mod of;
pub mod regs;
pub mod render;
pub mod rtkit;
pub mod sharing;
pub mod slotalloc;
pub mod util;
pub mod workqueue;
