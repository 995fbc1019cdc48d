//! Physical region descriptors: the scatter-gather table that the bus master
//! walks during a DMA transfer.

use vstd::prelude::*;
use crate::error::IdeError;

verus! {

/// Flag bit that marks the last descriptor of a table.
pub const PRD_EOT: u8 = 0x80;

/// Most bytes that one descriptor covers.
pub const PRD_SPAN: u64 = 65536;

/// Descriptors that a table holds at most.
pub const PRDT_CAPACITY: u64 = 8192;

/// Most bytes that a full table covers.
pub const PRDT_SPAN: u64 = 536870912;

/// One descriptor: where a piece of the buffer lies and how long it is.
/// A size of 0 stands for 65 536 bytes.
#[derive(Clone, Copy, Debug, PartialEq, Eq, Structural)]
pub struct Prd {
    pub addr: u32,
    pub size: u16,
    pub rsv: u8,
    pub eot: u8,
}

/// Bytes that a transfer of `sectors` sectors moves; a count of 0 stands for
/// 65 536 sectors.
pub open spec fn spec_transfer_bytes(sectors: u16) -> nat {
    if sectors == 0 {
        33554432
    } else {
        (sectors * 512) as nat
    }
}

/// Descriptors needed for `bytes` bytes: one for each 64 KiB begun.
pub open spec fn spec_entry_count(bytes: nat) -> nat {
    (bytes + 65535) / 65536
}

/// Descriptor `i` of the table for `bytes` bytes at `buf`: it starts 64 KiB
/// after its predecessor, covers what is left up to 64 KiB, and carries the
/// end-of-table flag exactly when it is the last.
pub open spec fn spec_entry(buf: u32, bytes: nat, i: nat) -> Prd {
    let left = bytes - 65536 * i;
    Prd {
        addr: (buf + 65536 * i) as u32,
        size: if left >= 65536 { 0u16 } else { left as u16 },
        rsv: 0,
        eot: if i + 1 == spec_entry_count(bytes) { PRD_EOT } else { 0u8 },
    }
}

/// The whole table for `bytes` bytes at `buf`.
pub open spec fn spec_table(buf: u32, bytes: nat) -> Seq<Prd> {
    Seq::new(spec_entry_count(bytes), |i: int| spec_entry(buf, bytes, i as nat))
}

/// The eight bytes of a descriptor as the controller reads them: the address
/// and the size in little-endian order, the reserved byte, the flags.
pub open spec fn spec_encode(p: Prd) -> Seq<u8> {
    seq![
        p.addr as u8,
        (p.addr >> 8) as u8,
        (p.addr >> 16) as u8,
        (p.addr >> 24) as u8,
        p.size as u8,
        (p.size >> 8) as u8,
        p.rsv,
        p.eot,
    ]
}

impl Prd {
    /// Bytes that the descriptor covers.
    pub open spec fn spec_len(&self) -> nat {
        if self.size == 0 {
            65536
        } else {
            self.size as nat
        }
    }

    /// Whether the descriptor ends its table.
    pub open spec fn spec_is_last(&self) -> bool {
        self.eot & PRD_EOT != 0
    }

    /// Bytes that the descriptor covers.
    pub fn len(&self) -> (n: u32)
        ensures
            n == self.spec_len(),
    {
        if self.size == 0 {
            65536
        } else {
            self.size as u32
        }
    }

    /// Whether the descriptor ends its table.
    pub fn is_last(&self) -> (r: bool)
        ensures
            r == self.spec_is_last(),
    {
        self.eot & PRD_EOT != 0
    }

    /// The descriptor as it lies in memory.
    pub fn encode(&self) -> (out: Vec<u8>)
        ensures
            out@ == spec_encode(*self),
    {
        let mut out: Vec<u8> = Vec::new();
        out.push(self.addr as u8);
        out.push((self.addr >> 8) as u8);
        out.push((self.addr >> 16) as u8);
        out.push((self.addr >> 24) as u8);
        out.push(self.size as u8);
        out.push((self.size >> 8) as u8);
        out.push(self.rsv);
        out.push(self.eot);
        assert(out@ =~= spec_encode(*self));
        out
    }
}

/// Bytes that a transfer of `sectors` sectors moves.
pub fn transfer_bytes(sectors: u16) -> (n: u64)
    ensures
        n == spec_transfer_bytes(sectors),
        0 < n <= 33554432,
        n % 512 == 0,
{
    if sectors == 0 {
        33554432
    } else {
        let s: u64 = sectors as u64;
        s * 512
    }
}

/// Builds the descriptor table for `bytes` bytes that start at the physical
/// address `buf`. An empty buffer is refused, and so is one that the table
/// cannot hold.
pub fn build_table(buf: u32, bytes: u64) -> (r: Result<Vec<Prd>, IdeError>)
    requires
        buf + bytes <= 0x1_0000_0000,
    ensures
        match r {
            Ok(table) => 0 < bytes <= PRDT_SPAN && table@ == spec_table(buf, bytes as nat),
            Err(e) => (bytes == 0 && e == IdeError::BadRequest) || (bytes > PRDT_SPAN && e
                == IdeError::TooLarge),
        },
{
    if bytes == 0 {
        return Err(IdeError::BadRequest);
    }
    if bytes > PRDT_SPAN {
        return Err(IdeError::TooLarge);
    }
    let count: u64 = (bytes + 65535) / 65536;
    let mut table: Vec<Prd> = Vec::new();
    let mut i: u64 = 0;
    while i < count
        invariant
            0 < bytes <= PRDT_SPAN,
            buf + bytes <= 0x1_0000_0000,
            count == spec_entry_count(bytes as nat),
            i <= count,
            table@.len() == i,
            forall|j: int| 0 <= j < i ==> table@[j] == spec_entry(buf, bytes as nat, j as nat),
        decreases count - i,
    {
        let left: u64 = bytes - 65536 * i;
        let entry = Prd {
            addr: buf + (65536 * i) as u32,
            size: if left >= 65536 { 0 } else { left as u16 },
            rsv: 0,
            eot: if i + 1 == count { PRD_EOT } else { 0 },
        };
        table.push(entry);
        i = i + 1;
    }
    assert(table@ =~= spec_table(buf, bytes as nat));
    Ok(table)
}

/// Builds the descriptor table for one hardware transfer of `sectors`
/// sectors, where a count of 0 stands for 65 536 sectors.
pub fn sector_table(buf: u32, sectors: u16) -> (table: Vec<Prd>)
    requires
        buf + spec_transfer_bytes(sectors) <= 0x1_0000_0000,
    ensures
        table@ == spec_table(buf, spec_transfer_bytes(sectors)),
{
    match build_table(buf, transfer_bytes(sectors)) {
        Ok(table) => table,
        Err(_) => Vec::new(),
    }
}

/// The table for a transfer of `n` sectors has one descriptor for each 128
/// sectors begun. Each of the first `n / 128` covers a full 64 KiB, written
/// as size 0, 64 KiB after its predecessor; if sectors are left over, one more
/// descriptor covers them. The last descriptor, and no other, carries the
/// end-of-table flag.
pub proof fn table_shape(buf: u32, n: nat)
    requires
        0 < n <= 65536,
    ensures
        spec_table(buf, n * 512).len() == (n + 127) / 128,
        forall|i: int|
            0 <= i < n / 128 ==> (#[trigger] spec_table(buf, n * 512)[i]).size == 0
                && spec_table(buf, n * 512)[i].spec_len() == 65536,
        n % 128 != 0 ==> spec_table(buf, n * 512)[(n / 128) as int].size == (n % 128) * 512,
        forall|i: int|
            0 <= i < spec_table(buf, n * 512).len() ==> ((#[trigger] spec_table(
                buf,
                n * 512,
            )[i]).spec_is_last() <==> i + 1 == spec_table(buf, n * 512).len()),
        forall|i: int|
            0 <= i < spec_table(buf, n * 512).len() ==> (#[trigger] spec_table(
                buf,
                n * 512,
            )[i]).addr == ((buf + 65536 * i) as u32),
{
    assert(0x80u8 & 0x80u8 != 0 && 0u8 & 0x80u8 == 0) by (bit_vector);
}

/// The table of a buffer that starts on a 64 KiB boundary has every
/// descriptor start on one, so that none crosses one.
pub proof fn aligned_table_crosses_no_boundary(buf: u32, bytes: nat)
    requires
        buf % 65536 == 0,
        buf + bytes <= 0x1_0000_0000,
    ensures
        forall|i: int|
            0 <= i < spec_table(buf, bytes).len() ==> (#[trigger] spec_table(buf, bytes)[i]).addr
                % 65536 == 0 && spec_table(buf, bytes)[i].addr % 65536 + spec_table(
                buf,
                bytes,
            )[i].spec_len() <= 65536,
{
    assert forall|i: int| 0 <= i < spec_table(buf, bytes).len() implies (#[trigger] spec_table(
        buf,
        bytes,
    )[i]).addr % 65536 == 0 by {
        assert(65536 * i < bytes);
        assert(spec_table(buf, bytes)[i].addr == buf + 65536 * i);
    }
}

/// The descriptors of a table cover the buffer exactly: the sizes of the
/// first `k` add up to `65536 * k`, and the last one covers the rest.
pub proof fn table_covers(buf: u32, bytes: nat)
    requires
        0 < bytes,
    ensures
        forall|i: int|
            0 <= i < spec_table(buf, bytes).len() - 1 ==> (#[trigger] spec_table(
                buf,
                bytes,
            )[i]).spec_len() == 65536,
        spec_table(buf, bytes).last().spec_len() + 65536 * (spec_table(buf, bytes).len() - 1)
            == bytes,
{
}

} // verus!
