//! Open files of a rendering driver.
use crate::error::Result;
use vstd::prelude::*;

verus! {

/// A driver's state of one open file.
pub trait DriverFile: Sized {
    type Device;

    fn open(device: &Self::Device) -> Result<Box<Self>>;
}

/// An open file, with the driver's state once there is one.
pub struct File<T: DriverFile> {
    pub driver_priv: Option<Box<T>>,
}

/// Opens a file: zero with the driver's state in place, or the driver's error code.
pub fn open_callback<T: DriverFile>(device: &T::Device, file: &mut File<T>) -> (r: i32)
    requires
        call_requires(T::open, (device,)),
    ensures
        exists|opened: Result<Box<T>>| #[trigger]
            call_ensures(T::open, (device,), opened) && match opened {
                Ok(state) => r == 0 && final(file).driver_priv == Some(state),
                Err(e) => r == e.errno() && final(file).driver_priv == old(file).driver_priv,
            },
{
    match T::open(device) {
        Err(e) => e.to_kernel_errno(),
        Ok(state) => {
            file.driver_priv = Some(state);
            0
        },
    }
}

/// Closes a file: the driver's state is handed back, to be dropped.
pub fn postclose_callback<T: DriverFile>(file: File<T>) -> (r: Option<Box<T>>)
    ensures
        r == file.driver_priv,
{
    file.driver_priv
}

/// Closing a file hands back the state that opening it put there.
pub proof fn law_close_gives_the_state_back<T: DriverFile>(file: File<T>, r: Option<Box<T>>)
    requires
        call_ensures(postclose_callback::<T>, (file,), r),
    ensures
        r == file.driver_priv,
{
}

/// A file that the driver opened has its state; one that it did not keeps what it had, and
/// the caller gets the error's code.
pub proof fn law_open_keeps_the_state<T: DriverFile>(
    device: T::Device,
    file: &mut File<T>,
    r: i32,
)
    requires
        call_ensures(open_callback::<T>, (&device, file), r),
        forall|e: crate::error::Error|
            call_ensures(T::open, (&device,), Err(e)) ==> (#[trigger] e.errno()) < 0,
    ensures
        r == 0 ==> final(file).driver_priv is Some && call_ensures(
            T::open,
            (&device,),
            Ok(final(file).driver_priv->0),
        ),
        r != 0 ==> r < 0 && final(file).driver_priv == old(file).driver_priv,
{
    let opened = choose|opened: Result<Box<T>>| #[trigger]
        call_ensures(T::open, (&device,), opened) && match opened {
            Ok(state) => r == 0 && final(file).driver_priv == Some(state),
            Err(e) => r == e.errno() && final(file).driver_priv == old(file).driver_priv,
        };
    if let Err(e) = opened {
        assert(e.errno() < 0);
    }
}

} // verus!
