//! Shared memory buffers of a coprocessor.
use crate::error::{Error, Result};
use vstd::prelude::*;

verus! {

/// What a driver does for its coprocessor. Every part is optional.
pub trait Operations: Sized {
    type Data;

    type Buffer;

    fn crashed(_data: &Self::Data) {
    }

    fn recv_message(_data: &Self::Data, _endpoint: u8, _message: u64) {
    }

    fn recv_message_early(_data: &Self::Data, _endpoint: u8, _message: u64) -> (r: bool)
        default_ensures
            !r,
    {
        false
    }

    fn shmem_alloc(_data: &Self::Data, _size: usize) -> (r: Result<Self::Buffer>)
        default_ensures
            r == Err::<Self::Buffer, Error>(Error::EINVAL),
    {
        Err(Error::EINVAL)
    }

    fn shmem_map(_data: &Self::Data, _iova: u64, _size: usize) -> (r: Result<Self::Buffer>)
        default_ensures
            r == Err::<Self::Buffer, Error>(Error::EINVAL),
    {
        Err(Error::EINVAL)
    }
}

/// A buffer that the coprocessor asks for or gives back.
#[derive(Copy, Clone, Debug, PartialEq, Eq, Structural)]
pub struct ShMem {
    /// Where the coprocessor sees the buffer; zero while it does not.
    pub iova: u64,
    pub size: usize,
    /// The coprocessor brought the buffer.
    pub is_mapped: bool,
    /// Where the CPU sees the buffer.
    pub buffer: u64,
    /// The driver's buffer object, if there is one.
    pub private: Option<u64>,
}

/// What the driver has to do about a buffer.
#[derive(Copy, Clone, Debug, PartialEq, Eq, Structural)]
pub enum ShMemRequest {
    MapAt { iova: u64, size: usize },
    Alloc { size: usize },
}

/// What the driver found: where its buffer object lies, and what the object says of its
/// device address and of its memory.
#[derive(Copy, Clone, Debug)]
pub struct FoundBuffer {
    pub object: u64,
    pub iova: Option<u64>,
    pub buf: Option<FoundMemory>,
}

#[derive(Copy, Clone, Debug)]
pub struct FoundMemory {
    pub ptr: u64,
    pub len: usize,
}

impl ShMem {
    /// A buffer with an address is the coprocessor's and only gets mapped; one without
    /// is allocated.
    pub fn request(&mut self) -> (r: ShMemRequest)
        ensures
            *final(self) == (ShMem { is_mapped: old(self).iova != 0, ..*old(self) }),
            r == if old(self).iova != 0 {
                ShMemRequest::MapAt { iova: old(self).iova, size: old(self).size }
            } else {
                ShMemRequest::Alloc { size: old(self).size }
            },
    {
        if self.iova != 0 {
            self.is_mapped = true;
            ShMemRequest::MapAt { iova: self.iova, size: self.size }
        } else {
            self.is_mapped = false;
            ShMemRequest::Alloc { size: self.size }
        }
    }

    /// The code that a found buffer is answered with.
    pub open spec fn setup_code(self, found: Result<FoundBuffer>) -> int {
        match found {
            Err(e) => e.errno(),
            Ok(found) => if found.iova is None {
                Error::EIO.errno()
            } else if found.buf is None || found.buf->0.len < self.size {
                Error::ENOMEM.errno()
            } else {
                0
            },
        }
    }

    /// Takes the driver's buffer over, if it is mapped on both sides and large enough.
    /// The result goes to the coprocessor: zero or an error code.
    pub fn setup(&mut self, found: Result<FoundBuffer>) -> (r: i32)
        requires
            found matches Err(e) ==> e.wf(),
        ensures
            r == old(self).setup_code(found),
            r != 0 ==> *final(self) == *old(self),
            r == 0 ==> *final(self) == (ShMem {
                iova: found->Ok_0.iova->0,
                buffer: found->Ok_0.buf->0.ptr,
                private: Some(found->Ok_0.object),
                ..*old(self)
            }),
    {
        let found = match found {
            Err(e) => {
                return e.to_kernel_errno();
            },
            Ok(found) => found,
        };
        let iova: u64 = match found.iova {
            None => {
                return Error::EIO.to_kernel_errno();
            },
            Some(iova) => iova,
        };
        let buf = match found.buf {
            None => {
                return Error::ENOMEM.to_kernel_errno();
            },
            Some(buf) => buf,
        };
        if buf.len < self.size {
            return Error::ENOMEM.to_kernel_errno();
        }
        self.iova = iova;
        self.buffer = buf.ptr;
        self.private = Some(found.object);
        0
    }

    /// Gives the driver's buffer object back, so that it can be freed. It is handed out
    /// once.
    pub fn destroy(&mut self) -> (r: Option<u64>)
        ensures
            r == old(self).private,
            *final(self) == (ShMem { private: None, ..*old(self) }),
    {
        let object = self.private;
        self.private = None;
        object
    }
}

/// A buffer that was set up lets go of exactly the object that it was given.
pub proof fn law_destroy_undoes_setup(before: ShMem, found: FoundBuffer, after: ShMem)
    requires
        before.setup_code(Ok(found)) == 0,
        after == (ShMem {
            iova: found.iova->0,
            buffer: found.buf->0.ptr,
            private: Some(found.object),
            ..before
        }),
    ensures
        after.private == Some(found.object),
        after.size <= found.buf->0.len,
{
}

/// A buffer that has an address is mapped there and was the coprocessor's own; one without
/// is allocated.
pub proof fn law_buffer_requests(mem: &mut ShMem, r: ShMemRequest)
    requires
        call_ensures(ShMem::request, (mem,), r),
    ensures
        r matches ShMemRequest::MapAt { iova, size } ==> iova == old(mem).iova && size
            == old(mem).size && iova != 0,
        r matches ShMemRequest::Alloc { size } ==> size == old(mem).size && old(mem).iova == 0,
        final(mem).is_mapped <==> r is MapAt,
        final(mem).iova == old(mem).iova,
        final(mem).size == old(mem).size,
        final(mem).buffer == old(mem).buffer,
        final(mem).private == old(mem).private,
{
}

/// A buffer is taken over only if it is known on both sides and large enough; the
/// coprocessor then sees it where the driver has it. A failure changes nothing.
pub proof fn law_buffers_are_set_up(mem: &mut ShMem, found: Result<FoundBuffer>, r: i32)
    requires
        found matches Err(e) ==> e.wf(),
        call_ensures(ShMem::setup, (mem, found), r),
    ensures
        r == 0 <==> (found matches Ok(b) && b.iova is Some && b.buf is Some && b.buf->0.len
            >= old(mem).size),
        found matches Err(e) ==> r == e.errno(),
        found matches Ok(b) ==> {
            &&& b.iova is None ==> r == -5
            &&& b.iova is Some && r != 0 ==> r == -12
            &&& r == 0 ==> final(mem).iova == b.iova->0 && final(mem).buffer == b.buf->0.ptr
                && final(mem).private == Some(b.object)
        },
        r != 0 ==> *final(mem) == *old(mem),
        final(mem).size == old(mem).size && final(mem).is_mapped == old(mem).is_mapped,
{
}

/// A buffer object is handed out once.
pub proof fn law_buffer_is_given_back_once(mem: &mut ShMem, r: Option<u64>)
    requires
        call_ensures(ShMem::destroy, (mem,), r),
    ensures
        r == old(mem).private,
        final(mem).private is None,
        final(mem).iova == old(mem).iova && final(mem).buffer == old(mem).buffer,
        final(mem).size == old(mem).size && final(mem).is_mapped == old(mem).is_mapped,
{
}

} // verus!
