//! Memory objects: what the answers of the object code mean.
use crate::error::{to_result, Error, Result};
use vstd::prelude::*;

pub mod shmem;

verus! {

/// What a driver keeps with each of its objects.
pub trait BaseDriverObject: Sized {
    type Device;

    fn new(dev: &Self::Device, size: usize) -> Result<Self>;
}

/// An object of `size` bytes with what the driver keeps of it.
#[derive(Debug)]
pub struct Object<T> {
    pub size: usize,
    pub inner: T,
}

/// The only reference to an object: it can be changed through it.
#[derive(Debug)]
pub struct UniqueObjectRef<O> {
    pub object: O,
}

/// One of the references to an object.
#[derive(Debug)]
pub struct ObjectRef<O> {
    pub object: O,
}

impl<O> UniqueObjectRef<O> {
    /// Gives up being the only one.
    pub fn into_ref(self) -> (r: ObjectRef<O>)
        ensures
            r.object == self.object,
    {
        ObjectRef { object: self.object }
    }
}

impl<T: BaseDriverObject> Object<T> {
    /// Makes an object: first the driver's part, then `init` sets the object up for
    /// `size` bytes and says with a return code whether that went well.
    pub fn new<F: FnOnce(usize) -> i32>(dev: &T::Device, size: usize, init: F) -> (r: Result<
        UniqueObjectRef<Object<T>>,
    >)
        requires
            call_requires(T::new, (dev, size)),
            call_requires(init, (size,)),
        ensures
            exists|made: Result<T>| #[trigger]
                call_ensures(T::new, (dev, size), made) && match made {
                    Err(e) => r == Err::<UniqueObjectRef<Object<T>>, Error>(e),
                    Ok(inner) => exists|code: i32| #[trigger]
                        call_ensures(init, (size,), code) && match r {
                            Ok(new) => code >= 0 && new.object == (Object { size, inner }),
                            Err(e) => code < 0 && e.wf() && e.errno() == code,
                        },
                },
    {
        let inner = match T::new(dev, size) {
            Err(e) => {
                return Err(e);
            },
            Ok(inner) => inner,
        };
        match to_result(init(size)) {
            Err(e) => Err(e),
            Ok(()) => Ok(UniqueObjectRef { object: Object { size, inner } }),
        }
    }

    pub fn size(&self) -> (r: usize)
        ensures
            r == self.size,
    {
        self.size
    }
}

/// A new handle for an object, unless the return code is an error.
pub fn create_handle(code: i32, handle: u32) -> (r: Result<u32>)
    ensures
        match r {
            Ok(h) => code >= 0 && h == handle,
            Err(e) => code < 0 && e.wf() && e.errno() == code,
        },
{
    match to_result(code) {
        Ok(()) => Ok(handle),
        Err(e) => Err(e),
    }
}

/// The object of a handle, if there is one.
pub fn lookup_handle<O>(found: Option<O>) -> (r: Result<O>)
    ensures
        r == match found {
            Some(object) => Ok(object),
            None => Err(Error::ENOENT),
        },
{
    match found {
        Some(object) => Ok(object),
        None => Err(Error::ENOENT),
    }
}

/// Where an object can be mapped from user space, unless the return code is an error.
pub fn create_mmap_offset(code: i32, offset: u64) -> (r: Result<u64>)
    ensures
        match r {
            Ok(o) => code >= 0 && o == offset,
            Err(e) => code < 0 && e.wf() && e.errno() == code,
        },
{
    match to_result(code) {
        Ok(()) => Ok(offset),
        Err(e) => Err(e),
    }
}

/// A code that is no error lets what came with it through; an error's code is told.
pub proof fn law_codes_decide(
    code: i32,
    handle: u32,
    handled: Result<u32>,
    offset: u64,
    mapped: Result<u64>,
)
    requires
        call_ensures(create_handle, (code, handle), handled),
        call_ensures(create_mmap_offset, (code, offset), mapped),
    ensures
        handled is Ok <==> code >= 0,
        mapped is Ok <==> code >= 0,
        handled is Ok ==> handled->Ok_0 == handle,
        mapped is Ok ==> mapped->Ok_0 == offset,
        handled is Err ==> handled->Err_0.errno() == code,
        mapped is Err ==> mapped->Err_0.errno() == code,
{
}

/// A handle leads to its object, and one without an object is told so.
pub proof fn law_handles_lead_to_objects<O>(found: Option<O>, r: Result<O>)
    requires
        call_ensures(lookup_handle::<O>, (found,), r),
    ensures
        found matches Some(object) ==> r == Ok::<O, Error>(object),
        found is None ==> r == Err::<O, Error>(Error::ENOENT),
{
}

/// An object keeps its size, and a reference its object.
pub proof fn law_references_keep_the_object<T: BaseDriverObject, O>(
    object: Object<T>,
    size: usize,
    unique: UniqueObjectRef<O>,
    shared: ObjectRef<O>,
)
    requires
        call_ensures(Object::<T>::size, (&object,), size),
        call_ensures(UniqueObjectRef::<O>::into_ref, (unique,), shared),
    ensures
        size == object.size,
        shared.object == unique.object,
{
}

/// An object that was made has the size that it was asked for with, and the driver's part
/// that was made for it; otherwise the first failure is the error.
pub proof fn law_new_object<T: BaseDriverObject, F: FnOnce(usize) -> i32>(
    dev: T::Device,
    size: usize,
    init: F,
    r: Result<UniqueObjectRef<Object<T>>>,
)
    requires
        call_ensures(Object::<T>::new::<F>, (&dev, size, init), r),
    ensures
        r matches Ok(new) ==> {
            &&& new.object.size == size
            &&& call_ensures(T::new, (&dev, size), Ok(new.object.inner))
            &&& exists|code: i32| code >= 0 && #[trigger] call_ensures(init, (size,), code)
        },
        r matches Err(e) ==> {
            ||| call_ensures(T::new, (&dev, size), Err(e))
            ||| exists|code: i32|
                code < 0 && e.errno() == code && #[trigger] call_ensures(init, (size,), code)
        },
{
}

} // verus!
