//! Kernel error codes.
use vstd::prelude::*;

verus! {

/// The error codes that the driver gives. `Other` carries, as a negative number, a code
/// that another part of the kernel gave and that the driver only passes on.
#[derive(Copy, Clone, Debug, PartialEq, Eq, Structural)]
pub enum Error {
    ENOENT,
    EIO,
    ENXIO,
    ENOMEM,
    EBUSY,
    ENODEV,
    EINVAL,
    ENOSPC,
    ERANGE,
    ETIMEDOUT,
    ERESTARTSYS,
    Other(i32),
}

pub type Result<T> = core::result::Result<T, Error>;

impl Error {
    /// A carried code is negative and is none of those that have a variant of their own.
    pub open spec fn wf(self) -> bool {
        self matches Error::Other(code) ==> code < 0 && Self::named(code as int) is None
    }

    pub open spec fn errno(self) -> int {
        match self {
            Error::ENOENT => -2,
            Error::EIO => -5,
            Error::ENXIO => -6,
            Error::ENOMEM => -12,
            Error::EBUSY => -16,
            Error::ENODEV => -19,
            Error::EINVAL => -22,
            Error::ENOSPC => -28,
            Error::ERANGE => -34,
            Error::ETIMEDOUT => -110,
            Error::ERESTARTSYS => -512,
            Error::Other(code) => code as int,
        }
    }

    pub open spec fn named(code: int) -> Option<Error> {
        if code == -2 {
            Some(Error::ENOENT)
        } else if code == -5 {
            Some(Error::EIO)
        } else if code == -6 {
            Some(Error::ENXIO)
        } else if code == -12 {
            Some(Error::ENOMEM)
        } else if code == -16 {
            Some(Error::EBUSY)
        } else if code == -19 {
            Some(Error::ENODEV)
        } else if code == -22 {
            Some(Error::EINVAL)
        } else if code == -28 {
            Some(Error::ENOSPC)
        } else if code == -34 {
            Some(Error::ERANGE)
        } else if code == -110 {
            Some(Error::ETIMEDOUT)
        } else if code == -512 {
            Some(Error::ERESTARTSYS)
        } else {
            None
        }
    }

    /// The code as the kernel passes it around: a negative number.
    pub fn to_kernel_errno(&self) -> (r: i32)
        ensures
            r == self.errno(),
    {
        match *self {
            Error::ENOENT => -2,
            Error::EIO => -5,
            Error::ENXIO => -6,
            Error::ENOMEM => -12,
            Error::EBUSY => -16,
            Error::ENODEV => -19,
            Error::EINVAL => -22,
            Error::ENOSPC => -28,
            Error::ERANGE => -34,
            Error::ETIMEDOUT => -110,
            Error::ERESTARTSYS => -512,
            Error::Other(code) => code,
        }
    }

    /// The error that a negative number stands for.
    pub fn from_kernel_errno(code: i32) -> (r: Error)
        requires
            code < 0,
        ensures
            r.wf(),
            r.errno() == code,
    {
        if code == -2 {
            Error::ENOENT
        } else if code == -5 {
            Error::EIO
        } else if code == -6 {
            Error::ENXIO
        } else if code == -12 {
            Error::ENOMEM
        } else if code == -16 {
            Error::EBUSY
        } else if code == -19 {
            Error::ENODEV
        } else if code == -22 {
            Error::EINVAL
        } else if code == -28 {
            Error::ENOSPC
        } else if code == -34 {
            Error::ERANGE
        } else if code == -110 {
            Error::ETIMEDOUT
        } else if code == -512 {
            Error::ERESTARTSYS
        } else {
            Error::Other(code)
        }
    }
}

/// What a kernel function's return code means: a negative one is an error, any other
/// is success.
pub fn to_result(code: i32) -> (r: Result<()>)
    ensures
        code >= 0 <==> r is Ok,
        r matches Err(e) ==> e.wf() && e.errno() == code,
{
    if code < 0 {
        Err(Error::from_kernel_errno(code))
    } else {
        Ok(())
    }
}

/// Two errors with the same code are the same error.
pub proof fn law_errno_names_the_error(a: Error, b: Error)
    requires
        a.wf(),
        b.wf(),
        a.errno() == b.errno(),
    ensures
        a == b,
{
}

/// A code survives becoming an error and a code again; the named errors have the kernel's
/// numbers.
pub proof fn law_codes_survive(code: i32, e: Error, back: i32, r: Result<()>)
    requires
        code < 0,
        call_ensures(Error::from_kernel_errno, (code,), e),
        call_ensures(Error::to_kernel_errno, (&e,), back),
        call_ensures(to_result, (code,), r),
    ensures
        back == code,
        r == Err::<(), Error>(e),
        e == Error::ENOENT <==> code == -2,
        e == Error::EIO <==> code == -5,
        e == Error::ENXIO <==> code == -6,
        e == Error::ENOMEM <==> code == -12,
        e == Error::EBUSY <==> code == -16,
        e == Error::ENODEV <==> code == -19,
        e == Error::EINVAL <==> code == -22,
        e == Error::ENOSPC <==> code == -28,
        e == Error::ERANGE <==> code == -34,
        e == Error::ETIMEDOUT <==> code == -110,
        e == Error::ERESTARTSYS <==> code == -512,
{
    if let Err(f) = r {
        law_errno_names_the_error(e, f);
    }
}

/// Only negative codes are errors.
pub proof fn law_success_codes(code: i32, r: Result<()>)
    requires
        code >= 0,
        call_ensures(to_result, (code,), r),
    ensures
        r is Ok,
{
}

} // verus!
