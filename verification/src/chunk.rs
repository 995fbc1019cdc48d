//! Cutting a logical transfer into the pieces that the hardware is asked for.

use vstd::prelude::*;

verus! {

/// One hardware transfer: where it starts on disk, how many sectors it
/// moves, and where in memory they lie.
#[derive(Clone, Copy, Debug, PartialEq, Eq, Structural)]
pub struct Chunk {
    pub lba: u64,
    pub sectors: u16,
    pub addr: usize,
}

/// Hardware transfers needed for `sectors` sectors: one for each 255 begun.
pub open spec fn spec_chunk_count(sectors: nat) -> nat {
    (sectors + 254) / 255
}

/// Transfer `i` of a request for `sectors` sectors at `block`, with its
/// buffer at `buf`: it starts 255 sectors after its predecessor, on disk and
/// in memory, and moves what is left up to 255 sectors.
pub open spec fn spec_chunk(block: u64, sectors: nat, buf: usize, i: nat) -> Chunk {
    let left = sectors - 255 * i;
    Chunk {
        lba: (block + 255 * i) as u64,
        sectors: if left >= 255 { 255u16 } else { left as u16 },
        addr: (buf + 512 * (255 * i)) as usize,
    }
}

/// All transfers of a request, in the order in which they are made.
pub open spec fn spec_split(block: u64, sectors: nat, buf: usize) -> Seq<Chunk> {
    Seq::new(spec_chunk_count(sectors), |i: int| spec_chunk(block, sectors, buf, i as nat))
}

/// Whether a request stays inside the disk's address space and the
/// machine's memory.
pub open spec fn spec_fits(block: u64, sectors: nat, buf: usize) -> bool {
    block + sectors <= u64::MAX && buf + sectors * 512 <= usize::MAX
}

/// Whether the bus master, which addresses memory with 32 bits, reaches
/// every byte of a buffer of `sectors` sectors at `buf`.
pub open spec fn spec_reachable(sectors: nat, buf: usize) -> bool {
    buf + sectors * 512 <= 0x1_0000_0000
}

/// Whether a request stays inside the disk's address space and the
/// machine's memory.
pub fn fits(block: u64, sectors: usize, buf: usize) -> (r: bool)
    ensures
        r == spec_fits(block, sectors as nat, buf),
{
    if sectors as u64 > u64::MAX - block {
        return false;
    }
    if sectors > usize::MAX / 512 {
        return false;
    }
    buf <= usize::MAX - sectors * 512
}

/// Whether the bus master reaches every byte of the buffer.
pub fn reachable(sectors: usize, buf: usize) -> (r: bool)
    ensures
        r == spec_reachable(sectors as nat, buf),
{
    if sectors > 0x80_0000 {
        return false;
    }
    let bytes: u64 = sectors as u64 * 512;
    buf as u64 <= 0x1_0000_0000 - bytes
}

/// The transfer that begins after `done` sectors of the request have been
/// moved: it starts where they end, on disk and in memory, and moves what is
/// left up to 255 sectors.
pub fn chunk_after(block: u64, sectors: usize, buf: usize, done: usize) -> (c: Chunk)
    requires
        spec_fits(block, sectors as nat, buf),
        done < sectors,
    ensures
        c.lba == block + done,
        c.addr == buf + done * 512,
        c.sectors == (if sectors - done >= 255 {
            255
        } else {
            sectors - done
        }),
        done % 255 == 0 ==> c == spec_chunk(block, sectors as nat, buf, (done / 255) as nat),
{
    let left: usize = sectors - done;
    Chunk {
        lba: block + done as u64,
        sectors: if left >= 255 { 255 } else { left as u16 },
        addr: buf + done * 512,
    }
}

/// Cuts a request into its hardware transfers.
pub fn split(block: u64, sectors: usize, buf: usize) -> (chunks: Vec<Chunk>)
    requires
        spec_fits(block, sectors as nat, buf),
    ensures
        chunks@ == spec_split(block, sectors as nat, buf),
{
    let count: usize = if sectors == 0 { 0 } else { (sectors - 1) / 255 + 1 };
    let mut chunks: Vec<Chunk> = Vec::new();
    let mut i: usize = 0;
    while i < count
        invariant
            spec_fits(block, sectors as nat, buf),
            count == spec_chunk_count(sectors as nat),
            i <= count,
            chunks@.len() == i,
            forall|j: int|
                0 <= j < i ==> chunks@[j] == spec_chunk(block, sectors as nat, buf, j as nat),
        decreases count - i,
    {
        let c = chunk_after(block, sectors, buf, i * 255);
        chunks.push(c);
        i = i + 1;
    }
    assert(chunks@ =~= spec_split(block, sectors as nat, buf));
    chunks
}

/// The transfers of a request follow one another without gap or overlap,
/// each but the last moves 255 sectors, and together they move every sector
/// of the request.
pub proof fn split_is_contiguous(block: u64, sectors: nat, buf: usize)
    requires
        spec_fits(block, sectors, buf),
    ensures
        forall|i: int|
            0 <= i < spec_split(block, sectors, buf).len() - 1 ==> (#[trigger] spec_split(
                block,
                sectors,
                buf,
            )[i]).sectors == 255,
        forall|i: int|
            0 <= i < spec_split(block, sectors, buf).len() ==> {
                let c = #[trigger] spec_split(block, sectors, buf)[i];
                &&& c.lba == block + 255 * i
                &&& c.addr == buf + 512 * (255 * i)
                &&& 0 < c.sectors <= 255
            },
        sectors > 0 ==> 255 * (spec_split(block, sectors, buf).len() - 1) + spec_split(
            block,
            sectors,
            buf,
        ).last().sectors == sectors,
        sectors == 0 ==> spec_split(block, sectors, buf).len() == 0,
{
    let chunks = spec_split(block, sectors, buf);
    assert forall|i: int| 0 <= i < chunks.len() implies {
        let c = #[trigger] chunks[i];
        &&& c.lba == block + 255 * i
        &&& c.addr == buf + 512 * (255 * i)
        &&& 0 < c.sectors <= 255
    } by {
        assert(chunks[i] == spec_chunk(block, sectors, buf, i as nat));
        assert(255 * i < sectors);
    }
}

} // verus!
