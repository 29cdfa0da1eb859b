//! ioctl numbers: a direction, the size of the argument, a type and a number, packed
//! into 32 bits.
use vstd::prelude::*;

verus! {

pub const _IOC_NRSHIFT: u32 = 0;

pub const _IOC_TYPESHIFT: u32 = 8;

pub const _IOC_SIZESHIFT: u32 = 16;

pub const _IOC_DIRSHIFT: u32 = 30;

pub const _IOC_NRMASK: u32 = 0xff;

pub const _IOC_TYPEMASK: u32 = 0xff;

pub const _IOC_SIZEMASK: u32 = 0x3fff;

pub const _IOC_DIRMASK: u32 = 3;

pub const _IOC_NONE: u32 = 0;

pub const _IOC_WRITE: u32 = 1;

pub const _IOC_READ: u32 = 2;

/// The packed number.
pub open spec fn ioc(dir: int, ty: int, nr: int, size: int) -> int {
    dir * 0x4000_0000 + size * 0x1_0000 + ty * 0x100 + nr
}

pub fn _IOC(dir: u32, ty: u32, nr: u32, size: usize) -> (r: u32)
    requires
        dir <= _IOC_DIRMASK,
        ty <= _IOC_TYPEMASK,
        nr <= _IOC_NRMASK,
        size <= _IOC_SIZEMASK,
    ensures
        r == ioc(dir as int, ty as int, nr as int, size as int),
{
    let len: u32 = size as u32;
    assert((dir << 30) | (ty << 8) | (nr << 0) | (len << 16) == dir * 0x4000_0000 + len * 0x1_0000
        + ty * 0x100 + nr) by (bit_vector)
        requires
            dir <= 3,
            ty <= 0xff,
            nr <= 0xff,
            len <= 0x3fff,
    ;
    (dir << _IOC_DIRSHIFT) | (ty << _IOC_TYPESHIFT) | (nr << _IOC_NRSHIFT) | (len
        << _IOC_SIZESHIFT)
}

/// An ioctl without an argument.
pub fn _IO(ty: u32, nr: u32) -> (r: u32)
    requires
        ty <= _IOC_TYPEMASK,
        nr <= _IOC_NRMASK,
    ensures
        r == ioc(0, ty as int, nr as int, 0),
{
    _IOC(_IOC_NONE, ty, nr, 0)
}

/// An ioctl that hands a `T` out.
pub fn _IOR<T>(ty: u32, nr: u32) -> (r: u32)
    requires
        ty <= _IOC_TYPEMASK,
        nr <= _IOC_NRMASK,
        vstd::layout::size_of::<T>() <= _IOC_SIZEMASK,
    ensures
        r == ioc(2, ty as int, nr as int, vstd::layout::size_of::<T>() as int),
{
    _IOC(_IOC_READ, ty, nr, core::mem::size_of::<T>())
}

/// An ioctl that takes a `T`.
pub fn _IOW<T>(ty: u32, nr: u32) -> (r: u32)
    requires
        ty <= _IOC_TYPEMASK,
        nr <= _IOC_NRMASK,
        vstd::layout::size_of::<T>() <= _IOC_SIZEMASK,
    ensures
        r == ioc(1, ty as int, nr as int, vstd::layout::size_of::<T>() as int),
{
    _IOC(_IOC_WRITE, ty, nr, core::mem::size_of::<T>())
}

/// An ioctl that takes a `T` and hands it back.
pub fn _IOWR<T>(ty: u32, nr: u32) -> (r: u32)
    requires
        ty <= _IOC_TYPEMASK,
        nr <= _IOC_NRMASK,
        vstd::layout::size_of::<T>() <= _IOC_SIZEMASK,
    ensures
        r == ioc(3, ty as int, nr as int, vstd::layout::size_of::<T>() as int),
{
    assert(2u32 | 1u32 == 3u32) by (bit_vector);
    _IOC(_IOC_READ | _IOC_WRITE, ty, nr, core::mem::size_of::<T>())
}

pub fn _IOC_DIR(nr: u32) -> (r: u32)
    ensures
        r == nr / 0x4000_0000,
{
    assert((nr >> 30) & 3 == nr / 0x4000_0000) by (bit_vector);
    (nr >> _IOC_DIRSHIFT) & _IOC_DIRMASK
}

pub fn _IOC_TYPE(nr: u32) -> (r: u32)
    ensures
        r == nr / 0x100 % 0x100,
{
    assert((nr >> 8) & 0xff == nr / 0x100 % 0x100) by (bit_vector);
    (nr >> _IOC_TYPESHIFT) & _IOC_TYPEMASK
}

pub fn _IOC_NR(nr: u32) -> (r: u32)
    ensures
        r == nr % 0x100,
{
    assert((nr >> 0) & 0xff == nr % 0x100) by (bit_vector);
    (nr >> _IOC_NRSHIFT) & _IOC_NRMASK
}

pub fn _IOC_SIZE(nr: u32) -> (r: usize)
    ensures
        r == nr / 0x1_0000 % 0x4000,
{
    assert((nr >> 16) & 0x3fff == nr / 0x1_0000 % 0x4000) by (bit_vector);
    ((nr >> _IOC_SIZESHIFT) & _IOC_SIZEMASK) as usize
}

/// Unpacking gives back what was packed.
pub proof fn law_unpack_undoes_pack(dir: int, ty: int, nr: int, size: int)
    requires
        0 <= dir <= 3,
        0 <= ty <= 0xff,
        0 <= nr <= 0xff,
        0 <= size <= 0x3fff,
    ensures
        0 <= ioc(dir, ty, nr, size) <= u32::MAX,
        ioc(dir, ty, nr, size) / 0x4000_0000 == dir,
        ioc(dir, ty, nr, size) / 0x100 % 0x100 == ty,
        ioc(dir, ty, nr, size) % 0x100 == nr,
        ioc(dir, ty, nr, size) / 0x1_0000 % 0x4000 == size,
{
}

/// Packing what was unpacked gives the number back.
pub proof fn law_pack_undoes_unpack(n: u32)
    ensures
        ioc(
            (n / 0x4000_0000) as int,
            (n / 0x100 % 0x100) as int,
            (n % 0x100) as int,
            (n / 0x1_0000 % 0x4000) as int,
        ) == n,
{
}

/// What is packed into a number can be unpacked from it again, field by field, and the
/// shorthands pack the direction that their names say.
pub proof fn law_fields_survive_packing<T>(
    dir: u32,
    ty: u32,
    nr: u32,
    size: usize,
    packed: u32,
    d: u32,
    t: u32,
    n: u32,
    s: usize,
    none: u32,
    read: u32,
    write: u32,
    both: u32,
)
    requires
        dir <= 3,
        ty <= 0xff,
        nr <= 0xff,
        size <= 0x3fff,
        vstd::layout::size_of::<T>() <= 0x3fff,
        call_ensures(_IOC, (dir, ty, nr, size), packed),
        call_ensures(_IOC_DIR, (packed,), d),
        call_ensures(_IOC_TYPE, (packed,), t),
        call_ensures(_IOC_NR, (packed,), n),
        call_ensures(_IOC_SIZE, (packed,), s),
        call_ensures(_IO, (ty, nr), none),
        call_ensures(_IOR::<T>, (ty, nr), read),
        call_ensures(_IOW::<T>, (ty, nr), write),
        call_ensures(_IOWR::<T>, (ty, nr), both),
    ensures
        d == dir && t == ty && n == nr && s == size,
        packed / 0x4000_0000 == dir,
        packed / 0x1_0000 % 0x4000 == size,
        packed / 0x100 % 0x100 == ty,
        packed % 0x100 == nr,
        dir == 0 && size == 0 ==> packed == none,
        size == vstd::layout::size_of::<T>() && dir == 1 ==> packed == write,
        size == vstd::layout::size_of::<T>() && dir == 2 ==> packed == read,
        size == vstd::layout::size_of::<T>() && dir == 3 ==> packed == both,
{
    law_unpack_undoes_pack(dir as int, ty as int, nr as int, size as int);
}

} // verus!
