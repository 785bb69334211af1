//! Choosing a MIDI output device among those the system lists.
use vstd::prelude::*;

verus! {

/// Why no output device could be chosen.
#[derive(Clone, Copy, Debug, PartialEq, Eq)]
pub enum DeviceError {
    /// The system lists no output device.
    NoDevice,
    /// The requested index is past the listed devices.
    NotFound { requested: usize, available: usize },
}

/// The device to open: `index` itself when the system lists that many
/// devices, else why not.
pub fn select_device(index: usize, available: usize) -> (r: Result<usize, DeviceError>)
    ensures
        available == 0 ==> r == Err::<usize, DeviceError>(DeviceError::NoDevice),
        0 < available <= index ==> r == Err::<usize, DeviceError>(DeviceError::NotFound { requested: index, available }),
        index < available ==> r == Ok::<usize, DeviceError>(index),
{
    if available == 0 {
        Err(DeviceError::NoDevice)
    } else if index >= available {
        Err(DeviceError::NotFound { requested: index, available })
    } else {
        Ok(index)
    }
}

} // verus!
