//! Extents over a disk's logical block address space.

use vstd::prelude::*;

verus! {

/// A run of bytes on disk: the block it starts at and its length in bytes.
#[derive(Clone, Copy, Debug, PartialEq, Eq, Structural)]
pub struct Extent {
    pub block: u64,
    pub length: u64,
}

impl Extent {
    /// An extent with a zero field is a sentinel: it names no data and never
    /// starts a transfer.
    pub open spec fn is_sentinel(&self) -> bool {
        self.block == 0 || self.length == 0
    }

    /// Number of 512-byte sectors that hold the extent, the last one possibly
    /// only in part.
    pub open spec fn spec_sectors(&self) -> nat {
        ((self.length + 511) / 512) as nat
    }

    /// Whether the extent is a sentinel.
    pub fn empty(&self) -> (r: bool)
        ensures
            r == self.is_sentinel(),
    {
        self.block == 0 || self.length == 0
    }

    /// Sectors to read in order to have every byte of the extent.
    pub fn sectors(&self) -> (n: u64)
        ensures
            n == self.spec_sectors(),
            n * 512 >= self.length,
            n * 512 < self.length + 512,
    {
        let whole: u64 = self.length / 512;
        if self.length % 512 == 0 {
            whole
        } else {
            whole + 1
        }
    }
}

} // verus!
