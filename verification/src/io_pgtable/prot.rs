//! Protection flags of a mapping.
use vstd::prelude::*;

verus! {

pub const READ: u32 = 1;

pub const WRITE: u32 = 2;

pub const CACHE: u32 = 4;

pub const NOEXEC: u32 = 8;

pub const MMIO: u32 = 16;

pub const PRIV: u32 = 32;

} // verus!
