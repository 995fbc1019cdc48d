//! An ideal drive: what the disk and the memory hold after a transfer
//! through the data port, if the drive hands out and takes the sectors of
//! each command in ascending order of their blocks.

use vstd::prelude::*;
use crate::run::{
    spec_after, spec_before_command, spec_fresh, spec_issues, spec_moved, spec_sector_moved,
};
use crate::session::{Kind, Session, Step};

verus! {

/// What the disk and the memory hold, and where the drive stands.
pub struct World {
    /// The 512 bytes of each block.
    pub disk: Map<int, Seq<u8>>,
    /// The byte at each address.
    pub mem: Map<int, u8>,
    /// The block that the next sector through the data port belongs to.
    pub cursor: int,
}

/// The 512 bytes that memory holds from `addr` on.
pub open spec fn spec_load(mem: Map<int, u8>, addr: int) -> Seq<u8> {
    Seq::new(512, |i: int| mem[addr + i])
}

/// Memory after 512 bytes were stored from `addr` on.
pub open spec fn spec_store(mem: Map<int, u8>, addr: int, data: Seq<u8>) -> Map<int, u8> {
    Map::total(
        |a: int|
            if addr <= a < addr + 512 {
                data[a - addr]
            } else {
                mem[a]
            },
    )
}

/// The world after a step of a session: a command sets the drive to the
/// first block that it names; a sector that is read comes from the block at
/// which the drive stands and goes to memory, one that is written comes from
/// memory and goes to that block, and either moves the drive on by a block;
/// nothing else changes the disk or the memory.
pub open spec fn spec_world_step(w: World, s: Session, input: u8) -> World {
    match spec_issues(s, input) {
        Some(c) => World { cursor: c.lba as int, ..w },
        None => match s.spec_step(input).1 {
            Step::ReadSector { addr, .. } => World {
                mem: spec_store(w.mem, addr as int, w.disk[w.cursor]),
                cursor: w.cursor + 1,
                ..w
            },
            Step::WriteSector { addr, .. } => World {
                disk: w.disk.insert(w.cursor, spec_load(w.mem, addr as int)),
                cursor: w.cursor + 1,
                ..w
            },
            _ => w,
        },
    }
}

/// The world after a run of a session.
pub open spec fn spec_world_after(w: World, s: Session, inputs: Seq<u8>) -> World
    decreases inputs.len(),
{
    if inputs.len() == 0 {
        w
    } else {
        spec_world_step(
            spec_world_after(w, s, inputs.drop_last()),
            spec_after(s, inputs.drop_last()),
            inputs.last(),
        )
    }
}

/// The byte that a read of the blocks from `block` on puts `offset` bytes
/// into its buffer.
pub open spec fn spec_disk_byte(disk: Map<int, Seq<u8>>, block: int, offset: int) -> u8 {
    disk[block + offset / 512][offset % 512]
}

/// How a session, the sectors it has moved and the world go together.
spec fn world_fits(s0: Session, w0: World, t: Session, moved: Seq<usize>, w: World) -> bool {
    let m = moved.len() as int;
    &&& t.wf()
    &&& t.kind == Kind::Pio
    &&& t.write == s0.write
    &&& t.block == s0.block
    &&& t.sectors == s0.sectors
    &&& t.buf == s0.buf
    &&& m <= s0.sectors
    &&& t.done == t.sectors ==> m == s0.sectors
    &&& !t.spec_finished() ==> m == t.done + t.sector + (if spec_sector_moved(t.phase) {
        1int
    } else {
        0int
    })
    &&& !t.spec_finished() && spec_before_command(t.phase) ==> t.sector == 0
    &&& !t.spec_finished() && !spec_before_command(t.phase) ==> w.cursor == s0.block + m
    &&& s0.write ==> {
        &&& w.mem == w0.mem
        &&& forall|b: int|
            #[trigger] w.disk[b] == (if s0.block <= b < s0.block + m {
                spec_load(w0.mem, s0.buf + 512 * (b - s0.block))
            } else {
                w0.disk[b]
            })
    }
    &&& !s0.write ==> {
        &&& w.disk == w0.disk
        &&& forall|a: int|
            #[trigger] w.mem[a] == (if s0.buf <= a < s0.buf + 512 * m {
                spec_disk_byte(w0.disk, s0.block as int, a - s0.buf)
            } else {
                w0.mem[a]
            })
    }
}

proof fn world_fits_step(
    s0: Session,
    w0: World,
    t: Session,
    moved: Seq<usize>,
    w: World,
    input: u8,
)
    requires
        world_fits(s0, w0, t, moved, w),
        s0.kind == Kind::Pio,
        !t.spec_finished(),
    ensures
        world_fits(
            s0,
            w0,
            t.spec_step(input).0,
            match t.spec_step(input).1 {
                Step::ReadSector { addr, .. } => moved.push(addr),
                Step::WriteSector { addr, .. } => moved.push(addr),
                _ => moved,
            },
            spec_world_step(w, t, input),
        ),
{
    let next = t.spec_step(input).0;
    let step = t.spec_step(input).1;
    let after = spec_world_step(w, t, input);
    let m = moved.len() as int;
    let c = t.spec_current();
    assert(255 * (t.done / 255) == t.done);
    assert(c.addr == t.buf + 512 * t.done);
    assert(c.lba == t.block + t.done);
    assert(t.done + c.sectors <= t.sectors);
    if spec_issues(t, input).is_some() {
        assert(after.cursor == s0.block + m);
        assert(after.disk == w.disk && after.mem == w.mem);
    } else {
        match step {
            Step::ReadSector { addr, .. } => {
                assert(addr == s0.buf + 512 * m);
                assert(!s0.write);
                assert forall|a: int| #[trigger]
                    after.mem[a] == (if s0.buf <= a < s0.buf + 512 * (m + 1) {
                        spec_disk_byte(w0.disk, s0.block as int, a - s0.buf)
                    } else {
                        w0.mem[a]
                    }) by {
                    if addr <= a < addr + 512 {
                        assert((a - s0.buf) / 512 == m);
                        assert((a - s0.buf) % 512 == a - addr);
                    }
                }
            },
            Step::WriteSector { addr, .. } => {
                assert(addr == s0.buf + 512 * m);
                assert(s0.write);
                assert forall|b: int| #[trigger]
                    after.disk[b] == (if s0.block <= b < s0.block + (m + 1) {
                        spec_load(w0.mem, s0.buf + 512 * (b - s0.block))
                    } else {
                        w0.disk[b]
                    }) by {
                    if b == w.cursor {
                        assert(b - s0.block == m);
                    }
                }
            },
            _ => {
                assert(after == w);
            },
        }
    }
}

proof fn world_fits_after(s0: Session, w0: World, inputs: Seq<u8>)
    requires
        spec_fresh(s0),
        s0.kind == Kind::Pio,
    ensures
        world_fits(
            s0,
            w0,
            spec_after(s0, inputs),
            spec_moved(s0, inputs),
            spec_world_after(w0, s0, inputs),
        ),
    decreases inputs.len(),
{
    if inputs.len() > 0 {
        world_fits_after(s0, w0, inputs.drop_last());
        let t = spec_after(s0, inputs.drop_last());
        if t.spec_finished() {
            assert(t.spec_step(inputs.last()).0 == t);
        } else {
            world_fits_step(
                s0,
                w0,
                t,
                spec_moved(s0, inputs.drop_last()),
                spec_world_after(w0, s0, inputs.drop_last()),
                inputs.last(),
            );
        }
    }
}

/// Whatever the drive's status says during the run, a write leaves memory
/// as it was and changes no block but those that it was asked to write; and
/// once every sector is done, each of those blocks holds the 512 bytes of the
/// buffer that belong to it.
pub proof fn write_reaches_the_disk(s0: Session, w0: World, inputs: Seq<u8>)
    requires
        spec_fresh(s0),
        s0.kind == Kind::Pio,
        s0.write,
    ensures
        spec_world_after(w0, s0, inputs).mem == w0.mem,
        forall|b: int|
            !(s0.block <= b < s0.block + s0.sectors) ==> #[trigger] spec_world_after(
                w0,
                s0,
                inputs,
            ).disk[b] == w0.disk[b],
        spec_after(s0, inputs).done == s0.sectors ==> forall|k: int|
            0 <= k < s0.sectors ==> #[trigger] spec_world_after(w0, s0, inputs).disk[s0.block + k]
                == spec_load(w0.mem, s0.buf + 512 * k),
{
    world_fits_after(s0, w0, inputs);
}

/// Whatever the drive's status says during the run, a read leaves the disk
/// as it was and changes no byte of memory outside its buffer; and once
/// every sector is done, the buffer holds the blocks that were asked for, one
/// after the other.
pub proof fn read_reaches_memory(s0: Session, w0: World, inputs: Seq<u8>)
    requires
        spec_fresh(s0),
        s0.kind == Kind::Pio,
        !s0.write,
        forall|b: int| s0.block <= b < s0.block + s0.sectors ==> (#[trigger] w0.disk[b]).len() == 512,
    ensures
        spec_world_after(w0, s0, inputs).disk == w0.disk,
        forall|a: int|
            !(s0.buf <= a < s0.buf + 512 * s0.sectors) ==> #[trigger] spec_world_after(
                w0,
                s0,
                inputs,
            ).mem[a] == w0.mem[a],
        spec_after(s0, inputs).done == s0.sectors ==> forall|k: int|
            0 <= k < s0.sectors ==> #[trigger] spec_load(
                spec_world_after(w0, s0, inputs).mem,
                s0.buf + 512 * k,
            ) == w0.disk[s0.block + k],
{
    world_fits_after(s0, w0, inputs);
    let w = spec_world_after(w0, s0, inputs);
    if spec_after(s0, inputs).done == s0.sectors {
        assert forall|k: int| 0 <= k < s0.sectors implies #[trigger] spec_load(
            w.mem,
            s0.buf + 512 * k,
        ) == w0.disk[s0.block + k] by {
            let got = spec_load(w.mem, s0.buf + 512 * k);
            let want = w0.disk[s0.block + k];
            assert forall|j: int| 0 <= j < 512 implies got[j] == want[j] by {
                let a = s0.buf + 512 * k + j;
                assert((a - s0.buf) / 512 == k);
                assert((a - s0.buf) % 512 == j);
                assert(w.mem[a] == spec_disk_byte(w0.disk, s0.block as int, a - s0.buf));
            }
            assert(got =~= want);
        }
    }
}

/// Writing a buffer to the disk and reading the same blocks back gives the
/// buffer's bytes again: if both runs get every sector done, then, whatever
/// the drive's status said on the way, the buffer that was read into holds
/// what the buffer that was written from held.
pub proof fn write_then_read_round_trip(
    write: Session,
    read: Session,
    w0: World,
    first: Seq<u8>,
    second: Seq<u8>,
)
    requires
        spec_fresh(write),
        spec_fresh(read),
        write.kind == Kind::Pio,
        read.kind == Kind::Pio,
        write.write,
        !read.write,
        write.block == read.block,
        write.sectors == read.sectors,
        spec_after(write, first).done == write.sectors,
        spec_after(read, second).done == read.sectors,
    ensures
        forall|k: int|
            0 <= k < write.sectors ==> #[trigger] spec_load(
                spec_world_after(spec_world_after(w0, write, first), read, second).mem,
                read.buf + 512 * k,
            ) == spec_load(w0.mem, write.buf + 512 * k),
{
    let w1 = spec_world_after(w0, write, first);
    write_reaches_the_disk(write, w0, first);
    assert forall|b: int| read.block <= b < read.block + read.sectors implies (#[trigger] w1.disk[b]).len()
        == 512 by {
        let k = b - write.block;
        assert(w1.disk[write.block + k] == spec_load(w0.mem, write.buf + 512 * k));
    }
    read_reaches_memory(read, w1, second);
    let w2 = spec_world_after(w1, read, second);
    assert forall|k: int| 0 <= k < write.sectors implies #[trigger] spec_load(
        w2.mem,
        read.buf + 512 * k,
    ) == spec_load(w0.mem, write.buf + 512 * k) by {
        assert(w1.disk[write.block + k] == spec_load(w0.mem, write.buf + 512 * k));
    }
}

} // verus!
