//! The ways in which a request to the driver can fail.

use vstd::prelude::*;

verus! {

/// Why a probe or a transfer did not succeed.
#[derive(Clone, Copy, Debug, PartialEq, Eq, Structural)]
pub enum IdeError {
    /// Nothing answers at this position: the bus floats or the status is zero.
    NoDevice,
    /// The request names no buffer or no sectors.
    BadRequest,
    /// The drive reports a device fault.
    DeviceFault,
    /// The drive reports an error; the error register holds the detail.
    DriveError,
    /// The drive did not ask for data when it had to.
    ProtocolError,
    /// The bus master reports an error.
    DmaError,
    /// The descriptor table or a scratch buffer could not be had.
    OutOfMemory,
    /// The buffer needs more descriptors than the table holds.
    TooLarge,
}

} // verus!
