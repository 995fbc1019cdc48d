//! What a drive says of itself in answer to IDENTIFY.

use vstd::prelude::*;

verus! {

/// The fields of an identify block that the driver reads.
#[derive(Clone, Debug, PartialEq, Eq)]
pub struct IdentifyInfo {
    /// Serial number, without blanks.
    pub serial: Vec<u8>,
    /// Firmware revision, without blanks.
    pub firmware: Vec<u8>,
    /// Model, without blanks.
    pub model: Vec<u8>,
    /// Number of sectors of the drive.
    pub sectors: u64,
}

/// A character of an identify string counts unless it is a blank or NUL.
pub open spec fn spec_shown(b: u8) -> Seq<u8> {
    if b != 0x20 && b != 0 {
        seq![b]
    } else {
        Seq::empty()
    }
}

/// The text that a run of words holds: of each word first the high byte,
/// then the low byte, blanks and NULs left out.
pub open spec fn spec_text(words: Seq<u16>) -> Seq<u8>
    decreases words.len(),
{
    if words.len() == 0 {
        Seq::empty()
    } else {
        spec_text(words.drop_last()) + spec_shown((words.last() >> 8) as u8) + spec_shown(
            words.last() as u8,
        )
    }
}

/// Sector count for 48-bit addressing: words 100 to 103, lowest first.
pub open spec fn spec_sectors48(words: Seq<u16>) -> nat {
    (words[100] + 0x1_0000 * words[101] + 0x1_0000_0000 * words[102] + 0x1_0000_0000_0000
        * words[103]) as nat
}

/// Sector count for 28-bit addressing: words 60 and 61, lowest first.
pub open spec fn spec_sectors28(words: Seq<u16>) -> nat {
    (words[60] + 0x1_0000 * words[61]) as nat
}

/// The drive's sector count: the 48-bit count unless it is zero, else the
/// 28-bit count.
pub open spec fn spec_sectors(words: Seq<u16>) -> nat {
    if spec_sectors48(words) != 0 {
        spec_sectors48(words)
    } else {
        spec_sectors28(words)
    }
}

/// The text held by the words from `from` up to, not including, `to`.
pub fn text(words: &[u16; 256], from: usize, to: usize) -> (out: Vec<u8>)
    requires
        from <= to <= 256,
    ensures
        out@ == spec_text(words@.subrange(from as int, to as int)),
{
    let mut out: Vec<u8> = Vec::new();
    let mut i: usize = from;
    while i < to
        invariant
            from <= i <= to <= 256,
            out@ == spec_text(words@.subrange(from as int, i as int)),
        decreases to - i,
    {
        let d: u16 = words[i];
        let a: u8 = (d >> 8) as u8;
        if a != 0x20 && a != 0 {
            out.push(a);
        }
        let b: u8 = d as u8;
        if b != 0x20 && b != 0 {
            out.push(b);
        }
        proof {
            let next = words@.subrange(from as int, i + 1);
            assert(next.drop_last() =~= words@.subrange(from as int, i as int));
            assert(next.last() == d);
            assert(out@ =~= spec_text(next));
        }
        i = i + 1;
    }
    out
}

impl IdentifyInfo {
    /// Reads the serial number (words 10 to 19), the firmware revision (23
    /// to 26), the model (27 to 46) and the sector count out of an identify
    /// block.
    pub fn parse(words: &[u16; 256]) -> (info: IdentifyInfo)
        ensures
            info.serial@ == spec_text(words@.subrange(10, 20)),
            info.firmware@ == spec_text(words@.subrange(23, 27)),
            info.model@ == spec_text(words@.subrange(27, 47)),
            info.sectors == spec_sectors(words@),
    {
        let w0: u64 = words[100] as u64;
        let w1: u64 = words[101] as u64;
        let w2: u64 = words[102] as u64;
        let w3: u64 = words[103] as u64;
        let mut sectors: u64 = w0 + 0x1_0000 * w1 + 0x1_0000_0000 * w2 + 0x1_0000_0000_0000 * w3;
        if sectors == 0 {
            let l0: u64 = words[60] as u64;
            let l1: u64 = words[61] as u64;
            sectors = l0 + 0x1_0000 * l1;
        }
        IdentifyInfo {
            serial: text(words, 10, 20),
            firmware: text(words, 23, 27),
            model: text(words, 27, 47),
            sectors,
        }
    }

    /// The drive's capacity in MiB, rounded down.
    pub fn megabytes(&self) -> (mb: u64)
        ensures
            mb == self.sectors / 2048,
    {
        self.sectors / 2048
    }
}

} // verus!
