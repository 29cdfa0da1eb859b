//! ioctl numbers and tables of a rendering driver.
use crate::error::{Error, Result};
use crate::ioctl::{ioc, _IO, _IOC_NR, _IOC_SIZE, _IOR, _IOW, _IOWR};
use vstd::prelude::*;

verus! {

/// The ioctl type of the subsystem: the letter `d`.
pub const BASE: u32 = 0x64;

/// The number of a driver's first own ioctl.
pub const DRM_COMMAND_BASE: u32 = 0x40;

pub const AUTH: u32 = 0x1;

pub const MASTER: u32 = 0x2;

pub const ROOT_ONLY: u32 = 0x4;

pub const UNLOCKED: u32 = 0x10;

pub const RENDER_ALLOW: u32 = 0x20;

pub fn IO(nr: u32) -> (r: u32)
    requires
        nr <= 0xff,
    ensures
        r == ioc(0, 0x64, nr as int, 0),
{
    _IO(BASE, nr)
}

pub fn IOR<T>(nr: u32) -> (r: u32)
    requires
        nr <= 0xff,
        vstd::layout::size_of::<T>() <= 0x3fff,
    ensures
        r == ioc(2, 0x64, nr as int, vstd::layout::size_of::<T>() as int),
{
    _IOR::<T>(BASE, nr)
}

pub fn IOW<T>(nr: u32) -> (r: u32)
    requires
        nr <= 0xff,
        vstd::layout::size_of::<T>() <= 0x3fff,
    ensures
        r == ioc(1, 0x64, nr as int, vstd::layout::size_of::<T>() as int),
{
    _IOW::<T>(BASE, nr)
}

pub fn IOWR<T>(nr: u32) -> (r: u32)
    requires
        nr <= 0xff,
        vstd::layout::size_of::<T>() <= 0x3fff,
    ensures
        r == ioc(3, 0x64, nr as int, vstd::layout::size_of::<T>() as int),
{
    _IOWR::<T>(BASE, nr)
}

/// An entry of a driver's ioctl table: the ioctl number, the size of the argument that
/// its handler takes, and flags.
#[derive(Copy, Clone, Debug)]
pub struct DRMIOCTLDescriptor {
    pub cmd: u32,
    pub size: usize,
    pub flags: u32,
}

/// The entries follow each other without gaps from the first driver ioctl, and each
/// number holds the size that the handler expects.
pub open spec fn table_ok(table: Seq<DRMIOCTLDescriptor>) -> bool {
    forall|i: int|
        0 <= i < table.len() ==> {
            &&& (#[trigger] table[i]).cmd % 0x100 == DRM_COMMAND_BASE + i
            &&& table[i].cmd / 0x1_0000 % 0x4000 == table[i].size
        }
}

/// Checks an ioctl table.
pub fn check_table(table: &Vec<DRMIOCTLDescriptor>) -> (r: bool)
    ensures
        r == table_ok(table@),
{
    let mut i: usize = 0;
    while i < table.len()
        invariant
            i <= table@.len(),
            i <= 0x100,
            table_ok(table@.take(i as int)),
        decreases table@.len() - i,
    {
        let cmd: u32 = table[i].cmd;
        if _IOC_NR(cmd) as usize != DRM_COMMAND_BASE as usize + i || _IOC_SIZE(cmd)
            != table[i].size {
            assert(!table_ok(table@)) by {
                if table_ok(table@) {
                    assert(table@[i as int].cmd % 0x100 == DRM_COMMAND_BASE + i);
                }
            }
            return false;
        }
        proof {
            assert forall|k: int| 0 <= k < i + 1 implies {
                &&& (#[trigger] table@.take(i + 1)[k]).cmd % 0x100 == DRM_COMMAND_BASE + k
                &&& table@.take(i + 1)[k].cmd / 0x1_0000 % 0x4000 == table@.take(i + 1)[k].size
            } by {
                if k < i {
                    assert(table@.take(i as int)[k] == table@[k]);
                }
            }
        }
        i = i + 1;
    }
    assert(table@.take(i as int) =~= table@);
    true
}

/// What a handler's result becomes for the caller of the ioctl: an error's code, or the
/// number itself unless it is too large for one.
pub fn ioctl_return(result: Result<u32>) -> (r: i32)
    ensures
        r == match result {
            Err(e) => e.errno(),
            Ok(i) => if i <= i32::MAX {
                i as int
            } else {
                Error::ERANGE.errno()
            },
        },
{
    match result {
        Err(e) => e.to_kernel_errno(),
        Ok(i) => if i <= i32::MAX as u32 {
            i as i32
        } else {
            Error::ERANGE.to_kernel_errno()
        },
    }
}

/// An ioctl's caller can tell errors from numbers.
pub proof fn law_errors_are_negative(result: Result<u32>)
    requires
        result matches Err(e) ==> e.wf(),
    ensures
        ({
            let r = match result {
                Err(e) => e.errno(),
                Ok(i) => if i <= i32::MAX {
                    i as int
                } else {
                    Error::ERANGE.errno()
                },
            };
            r >= 0 <==> (result matches Ok(i) && i <= i32::MAX)
        }),
{
}

/// The numbers of the driver's ioctls give back their direction, the subsystem's letter,
/// their own number and the size of their argument.
pub proof fn law_numbers_unpack<T>(nr: u32, none: u32, read: u32, write: u32, both: u32)
    requires
        nr <= 0xff,
        vstd::layout::size_of::<T>() <= 0x3fff,
        call_ensures(IO, (nr,), none),
        call_ensures(IOR::<T>, (nr,), read),
        call_ensures(IOW::<T>, (nr,), write),
        call_ensures(IOWR::<T>, (nr,), both),
    ensures
        none % 0x100 == read % 0x100 == write % 0x100 == both % 0x100 == nr,
        none / 0x100 % 0x100 == read / 0x100 % 0x100 == write / 0x100 % 0x100 == both / 0x100
            % 0x100 == 0x64,
        none / 0x1_0000 == 0,
        read / 0x1_0000 % 0x4000 == write / 0x1_0000 % 0x4000 == both / 0x1_0000 % 0x4000
            == vstd::layout::size_of::<T>(),
        write / 0x4000_0000 == 1,
        read / 0x4000_0000 == 2,
        both / 0x4000_0000 == 3,
{
    let size = vstd::layout::size_of::<T>() as int;
    crate::ioctl::law_unpack_undoes_pack(0, 0x64, nr as int, 0);
    crate::ioctl::law_unpack_undoes_pack(1, 0x64, nr as int, size);
    crate::ioctl::law_unpack_undoes_pack(2, 0x64, nr as int, size);
    crate::ioctl::law_unpack_undoes_pack(3, 0x64, nr as int, size);
}

/// A table is accepted exactly if its entries are numbered from the first driver ioctl on
/// and each number holds the size that its handler takes.
pub proof fn law_accepted_tables(table: Vec<DRMIOCTLDescriptor>, r: bool)
    requires
        call_ensures(check_table, (&table,), r),
    ensures
        r <==> forall|i: int|
            0 <= i < table@.len() ==> (#[trigger] table@[i]).cmd % 0x100 == 0x40 + i && (
            table@[i].cmd / 0x1_0000) % 0x4000 == table@[i].size,
{
}

/// The caller gets the handler's number or error; a number that is too large becomes an
/// error.
pub proof fn law_handler_results(result: Result<u32>, r: i32)
    requires
        call_ensures(ioctl_return, (result,), r),
    ensures
        result matches Err(e) ==> r == e.errno(),
        result matches Ok(i) ==> i <= 0x7fff_ffff ==> r == i,
        result matches Ok(i) ==> i > 0x7fff_ffff ==> r == -34,
{
}

} // verus!
