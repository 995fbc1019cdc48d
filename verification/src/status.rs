//! Reading the status register: busy, and what a finished poll found.

use vstd::prelude::*;
use crate::error::IdeError;
use crate::regs::{ATA_SR_BSY, ATA_SR_DF, ATA_SR_DRQ, ATA_SR_ERR, STS_ACT, STS_ERR, STS_INT};

verus! {

/// The drive is busy while the top bit of its status is set.
pub open spec fn spec_busy(status: u8) -> bool {
    status & ATA_SR_BSY != 0
}

/// What a poll reports once the drive is no longer busy: 0 when all is
/// well or nothing was to be checked, 2 for an error, 1 for a device fault,
/// 3 when the drive does not ask for data. An error hides a fault, and both
/// hide a missing data request.
pub open spec fn spec_classify(status: u8, check_error: bool) -> u8 {
    if !check_error {
        0u8
    } else if status & ATA_SR_ERR != 0 {
        2u8
    } else if status & ATA_SR_DF != 0 {
        1u8
    } else if status & ATA_SR_DRQ == 0 {
        3u8
    } else {
        0u8
    }
}

/// The error that stands for a poll's code; none for 0.
pub open spec fn spec_poll_error(code: u8) -> Option<IdeError> {
    if code == 1 {
        Some(IdeError::DeviceFault)
    } else if code == 2 {
        Some(IdeError::DriveError)
    } else if code == 3 {
        Some(IdeError::ProtocolError)
    } else {
        None
    }
}

/// A bus-master transfer is over when the controller raised its interrupt,
/// reported an error, or is no longer active.
pub open spec fn spec_dma_finished(status: u8) -> bool {
    status & STS_INT != 0 || status & STS_ERR != 0 || status & STS_ACT == 0
}

/// Whether the bus-master status reports an error.
pub open spec fn spec_dma_failed(status: u8) -> bool {
    status & STS_ERR != 0
}

/// Whether any bit of `mask` is set in `value`.
pub fn flag_set(value: u8, mask: u8) -> (r: bool)
    ensures
        r == (value & mask != 0),
{
    value & mask != 0
}

/// The value that a register holds after the bits of `mask` were set or
/// cleared in `value`.
pub fn with_flag(value: u8, mask: u8, set: bool) -> (r: u8)
    ensures
        r == (if set { value | mask } else { value & !mask }),
{
    if set {
        value | mask
    } else {
        value & !mask
    }
}

/// Whether the drive is still busy.
pub fn is_busy(status: u8) -> (r: bool)
    ensures
        r == spec_busy(status),
{
    status & ATA_SR_BSY != 0
}

/// Classifies the status that was read after the drive stopped being busy.
pub fn classify(status: u8, check_error: bool) -> (code: u8)
    ensures
        code == spec_classify(status, check_error),
        code <= 3,
{
    if !check_error {
        0
    } else if status & ATA_SR_ERR != 0 {
        2
    } else if status & ATA_SR_DF != 0 {
        1
    } else if status & ATA_SR_DRQ == 0 {
        3
    } else {
        0
    }
}

/// Turns a poll's code into the error it stands for.
pub fn poll_error(code: u8) -> (r: Option<IdeError>)
    ensures
        r == spec_poll_error(code),
{
    if code == 1 {
        Some(IdeError::DeviceFault)
    } else if code == 2 {
        Some(IdeError::DriveError)
    } else if code == 3 {
        Some(IdeError::ProtocolError)
    } else {
        None
    }
}

/// Whether the bus master is done with the descriptor table.
pub fn dma_finished(status: u8) -> (r: bool)
    ensures
        r == spec_dma_finished(status),
{
    status & STS_INT != 0 || status & STS_ERR != 0 || status & STS_ACT == 0
}

/// Whether the bus master reports an error.
pub fn dma_failed(status: u8) -> (r: bool)
    ensures
        r == spec_dma_failed(status),
{
    status & STS_ERR != 0
}

/// A status with the busy bit clear and checks asked for is classified by
/// its error, fault and data-request bits alone: the other bits play no part.
pub proof fn classify_ignores_other_bits(a: u8, b: u8)
    requires
        a & 0x29 == b & 0x29,
    ensures
        spec_classify(a, true) == spec_classify(b, true),
{
    assert(a & 0x01 == b & 0x01 && a & 0x20 == b & 0x20 && a & 0x08 == b & 0x08) by (bit_vector)
        requires
            a & 0x29 == b & 0x29,
    ;
}

} // verus!
