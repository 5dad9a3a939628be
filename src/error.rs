//! The ways an operation on the probe link can fail.
use vstd::prelude::*;

verus! {

#[derive(Clone, Copy, Debug, PartialEq, Eq, Structural)]
pub enum LinkError {
    /// The USB device vanished, timed out, or moved fewer bytes than asked.
    Transport,
    /// The probe answered with a status this host does not expect.
    Protocol,
    /// A chunked transfer failed partway, or its pieces do not fit together.
    Marshal,
    /// The command ring has no free slot.
    QueueFull,
    /// An address or a size is not a multiple of the required alignment.
    Alignment,
    /// A single memory command asked for more than the probe moves at once.
    TooLarge,
    /// An address range runs past the end of the 32-bit address space.
    OutOfRange,
    /// Bytes read from the target do not hold a valid record.
    Layout,
}

} // verus!
