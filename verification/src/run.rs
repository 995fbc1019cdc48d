//! Whole runs of a transfer: what holds of the commands that are issued and
//! of the sectors that are moved, whatever the hardware answers.

use vstd::prelude::*;
use crate::chunk::{spec_chunk, spec_chunk_count, spec_split, Chunk};
use crate::session::{Kind, Phase, Session, Step};
use crate::status::spec_busy;

verus! {

/// The session after it has taken these bytes, one with each step.
pub open spec fn spec_after(s: Session, inputs: Seq<u8>) -> Session
    decreases inputs.len(),
{
    if inputs.len() == 0 {
        s
    } else {
        spec_after(s, inputs.drop_last()).spec_step(inputs.last()).0
    }
}

/// The hardware transfer that a step asks the drive for, if it asks for one:
/// a transfer's session does so when it stands before its command and finds
/// the drive no longer busy.
pub open spec fn spec_issues(s: Session, input: u8) -> Option<Chunk> {
    if s.kind != Kind::Identify && s.phase == Phase::Settle && !spec_busy(input) {
        Some(s.spec_current())
    } else {
        None
    }
}

/// The place in memory of the sector that a step moves through the data
/// port, if it moves one.
pub open spec fn spec_moves(s: Session, input: u8) -> Option<usize> {
    match s.spec_step(input).1 {
        Step::ReadSector { addr, .. } => Some(addr),
        Step::WriteSector { addr, .. } => Some(addr),
        _ => None,
    }
}

/// The hardware transfers that a run asks for, in order.
pub open spec fn spec_issued(s: Session, inputs: Seq<u8>) -> Seq<Chunk>
    decreases inputs.len(),
{
    if inputs.len() == 0 {
        Seq::empty()
    } else {
        let before = spec_issued(s, inputs.drop_last());
        match spec_issues(spec_after(s, inputs.drop_last()), inputs.last()) {
            Some(c) => before.push(c),
            None => before,
        }
    }
}

/// The places in memory of the sectors that a run moves through the data
/// port, in order.
pub open spec fn spec_moved(s: Session, inputs: Seq<u8>) -> Seq<usize>
    decreases inputs.len(),
{
    if inputs.len() == 0 {
        Seq::empty()
    } else {
        let before = spec_moved(s, inputs.drop_last());
        match spec_moves(spec_after(s, inputs.drop_last()), inputs.last()) {
            Some(addr) => before.push(addr),
            None => before,
        }
    }
}

/// Whether the session is a transfer that has not taken a step yet.
pub open spec fn spec_fresh(s: Session) -> bool {
    &&& s.wf()
    &&& s.kind != Kind::Identify
    &&& s == s.disk.spec_session(s.kind, s.block, s.sectors, s.buf, s.write)
}

/// Whether the session waits to issue the command of its hardware transfer.
pub open spec fn spec_before_command(phase: Phase) -> bool {
    phase == Phase::Begin || phase == Phase::Settle || phase == Phase::DmaReset || phase
        == Phase::DmaAck || phase == Phase::DmaLoaded
}

/// Whether the sector that the session counts next has already gone through
/// the data port.
pub open spec fn spec_sector_moved(phase: Phase) -> bool {
    phase == Phase::Moved || phase == Phase::Wrote || phase == Phase::Flushing || phase
        == Phase::FlushBusy
}

/// How a session and the commands issued so far go together.
spec fn issued_fits(s0: Session, t: Session, issued: Seq<Chunk>) -> bool {
    &&& t.wf()
    &&& t.disk == s0.disk
    &&& t.kind == s0.kind
    &&& t.write == s0.write
    &&& t.block == s0.block
    &&& t.sectors == s0.sectors
    &&& t.buf == s0.buf
    &&& issued.len() <= spec_chunk_count(s0.sectors as nat)
    &&& forall|k: int|
        0 <= k < issued.len() ==> issued[k] == spec_chunk(
            s0.block,
            s0.sectors as nat,
            s0.buf,
            k as nat,
        )
    &&& t.done == t.sectors ==> issued.len() == spec_chunk_count(s0.sectors as nat)
    &&& !t.spec_finished() ==> issued.len() == t.done / 255 + (if spec_before_command(t.phase) {
        0int
    } else {
        1int
    })
}

/// How a session and the sectors moved so far go together.
spec fn moved_fits(s0: Session, t: Session, moved: Seq<usize>) -> bool {
    &&& t.wf()
    &&& t.disk == s0.disk
    &&& t.kind == s0.kind
    &&& t.write == s0.write
    &&& t.block == s0.block
    &&& t.sectors == s0.sectors
    &&& t.buf == s0.buf
    &&& moved.len() <= s0.sectors
    &&& forall|k: int| 0 <= k < moved.len() ==> moved[k] == s0.buf + 512 * k
    &&& t.done == t.sectors ==> moved.len() == s0.sectors
    &&& !t.spec_finished() ==> moved.len() == t.done + t.sector + (if spec_sector_moved(t.phase) {
        1int
    } else {
        0int
    })
}

proof fn chunk_arithmetic(done: int, sectors: int)
    requires
        0 <= done < sectors,
        done % 255 == 0,
    ensures
        255 * (done / 255) == done,
        done / 255 < (sectors + 254) / 255,
        sectors - done <= 255 ==> (sectors + 254) / 255 == done / 255 + 1,
        (done + 255) / 255 == done / 255 + 1,
        (done + 255) % 255 == 0,
{
}

proof fn issued_fits_step(s0: Session, t: Session, issued: Seq<Chunk>, input: u8)
    requires
        issued_fits(s0, t, issued),
        s0.kind != Kind::Identify,
        !t.spec_finished(),
    ensures
        issued_fits(
            s0,
            t.spec_step(input).0,
            match spec_issues(t, input) {
                Some(c) => issued.push(c),
                None => issued,
            },
        ),
{
    let next = t.spec_step(input).0;
    chunk_arithmetic(t.done as int, t.sectors as int);
    step_keeps_wf(t, input);
    let ends_chunk = (t.phase == Phase::DmaCleared && !t.failed) || ((t.phase == Phase::Moved || (
    t.phase == Phase::FlushBusy && !spec_busy(input))) && t.sector + 1
        >= t.spec_current().sectors);
    if spec_issues(t, input).is_some() {
        let c = t.spec_current();
        let after = issued.push(c);
        assert(next.done == t.done);
        assert(!spec_before_command(next.phase));
        assert forall|k: int| 0 <= k < after.len() implies after[k] == spec_chunk(
            s0.block,
            s0.sectors as nat,
            s0.buf,
            k as nat,
        ) by {
            if k < issued.len() {
                assert(after[k] == issued[k]);
            }
        }
    } else if ends_chunk {
        assert(next.done == t.done + t.spec_current().sectors);
        assert(!spec_before_command(t.phase));
        if next.done < t.sectors {
            assert(t.spec_current().sectors == 255);
            assert(spec_before_command(next.phase));
        } else {
            assert(next.done == t.sectors);
            assert(next.spec_finished());
        }
    } else {
        assert(next.done == t.done);
        assert(next.spec_finished() || spec_before_command(next.phase) == spec_before_command(
            t.phase,
        ));
    }
}

proof fn issued_fits_after(s0: Session, inputs: Seq<u8>)
    requires
        spec_fresh(s0),
    ensures
        issued_fits(s0, spec_after(s0, inputs), spec_issued(s0, inputs)),
    decreases inputs.len(),
{
    if inputs.len() > 0 {
        issued_fits_after(s0, inputs.drop_last());
        let t = spec_after(s0, inputs.drop_last());
        if t.spec_finished() {
            assert(t.spec_step(inputs.last()).0 == t);
        } else {
            issued_fits_step(s0, t, spec_issued(s0, inputs.drop_last()), inputs.last());
        }
    }
}

proof fn moved_fits_step(s0: Session, t: Session, moved: Seq<usize>, input: u8)
    requires
        moved_fits(s0, t, moved),
        s0.kind == Kind::Pio,
        !t.spec_finished(),
    ensures
        moved_fits(
            s0,
            t.spec_step(input).0,
            match spec_moves(t, input) {
                Some(addr) => moved.push(addr),
                None => moved,
            },
        ),
{
    let next = t.spec_step(input).0;
    let c = t.spec_current();
    chunk_arithmetic(t.done as int, t.sectors as int);
    step_keeps_wf(t, input);
    assert(c.addr == t.buf + 512 * t.done);
    assert(t.done + c.sectors <= t.sectors);
    let ends_sector = t.phase == Phase::Moved || (t.phase == Phase::FlushBusy && !spec_busy(input));
    match spec_moves(t, input) {
        Some(addr) => {
            let after = moved.push(addr);
            assert(t.phase == Phase::PollCheck);
            assert(addr == t.buf + 512 * (t.done + t.sector));
            assert(next.done == t.done && next.sector == t.sector);
            assert(spec_sector_moved(next.phase));
            assert forall|k: int| 0 <= k < after.len() implies after[k] == s0.buf + 512 * k by {
                if k < moved.len() {
                    assert(after[k] == moved[k]);
                }
            }
        },
        None => {
            if ends_sector {
                if t.sector + 1 < c.sectors {
                    assert(next.done == t.done && next.sector == t.sector + 1);
                    assert(next.phase == Phase::PollBusy);
                } else {
                    assert(next.done == t.done + c.sectors && next.sector == 0);
                    assert(next.spec_finished() || next.phase == Phase::Settle);
                }
            } else {
                assert(next.done == t.done && next.sector == t.sector);
                assert(next.spec_finished() || spec_sector_moved(next.phase) == spec_sector_moved(
                    t.phase,
                ));
            }
        },
    }
}

proof fn moved_fits_after(s0: Session, inputs: Seq<u8>)
    requires
        spec_fresh(s0),
        s0.kind == Kind::Pio,
    ensures
        moved_fits(s0, spec_after(s0, inputs), spec_moved(s0, inputs)),
    decreases inputs.len(),
{
    if inputs.len() > 0 {
        moved_fits_after(s0, inputs.drop_last());
        let t = spec_after(s0, inputs.drop_last());
        if t.spec_finished() {
            assert(t.spec_step(inputs.last()).0 == t);
        } else {
            moved_fits_step(s0, t, spec_moved(s0, inputs.drop_last()), inputs.last());
        }
    }
}

/// A step leaves a session as sound as it found it.
pub proof fn step_keeps_wf(s: Session, input: u8)
    requires
        s.wf(),
    ensures
        s.spec_step(input).0.wf(),
{
}

/// Whatever the hardware answers, a transfer asks the drive for its
/// hardware transfers in order, each once and none left out: what a run has
/// asked for is always the beginning of the request's hardware transfers, and
/// once every sector is done it is all of them.
pub proof fn transfers_issue_in_order(s0: Session, inputs: Seq<u8>)
    requires
        spec_fresh(s0),
    ensures
        spec_issued(s0, inputs).len() <= spec_split(s0.block, s0.sectors as nat, s0.buf).len(),
        spec_issued(s0, inputs) == spec_split(s0.block, s0.sectors as nat, s0.buf).subrange(
            0,
            spec_issued(s0, inputs).len() as int,
        ),
        spec_after(s0, inputs).done == s0.sectors ==> spec_issued(s0, inputs) == spec_split(
            s0.block,
            s0.sectors as nat,
            s0.buf,
        ),
{
    issued_fits_after(s0, inputs);
    let all = spec_split(s0.block, s0.sectors as nat, s0.buf);
    let issued = spec_issued(s0, inputs);
    assert(issued =~= all.subrange(0, issued.len() as int));
    if spec_after(s0, inputs).done == s0.sectors {
        assert(issued =~= all);
    }
}

/// Whatever the hardware answers, a transfer through the data port moves
/// the sectors of its buffer in order, each once and none left out: the k-th
/// sector that a run moves lies 512 bytes times k into the buffer, no run
/// moves more sectors than were asked for, and once every sector is done the
/// run has moved them all.
pub proof fn sectors_move_in_order(s0: Session, inputs: Seq<u8>)
    requires
        spec_fresh(s0),
        s0.kind == Kind::Pio,
    ensures
        spec_moved(s0, inputs).len() <= s0.sectors,
        forall|k: int|
            0 <= k < spec_moved(s0, inputs).len() ==> (#[trigger] spec_moved(s0, inputs)[k])
                == s0.buf + 512 * k,
        spec_after(s0, inputs).done == s0.sectors ==> spec_moved(s0, inputs).len() == s0.sectors,
{
    moved_fits_after(s0, inputs);
}

/// A run reports success only at its end and only once every sector is
/// done: if the last step of a run reports bytes, they are the bytes of the
/// whole request, every hardware transfer was asked for, and, through the
/// data port, every sector was moved.
pub proof fn success_means_all(s0: Session, inputs: Seq<u8>)
    requires
        spec_fresh(s0),
        inputs.len() > 0,
        spec_after(s0, inputs.drop_last()).spec_step(inputs.last()).1 is Done,
    ensures
        spec_after(s0, inputs.drop_last()).spec_step(inputs.last()).1->Done_0 == s0.sectors * 512,
        spec_issued(s0, inputs) == spec_split(s0.block, s0.sectors as nat, s0.buf),
        s0.kind == Kind::Pio ==> spec_moved(s0, inputs).len() == s0.sectors,
{
    issued_fits_after(s0, inputs.drop_last());
    transfers_issue_in_order(s0, inputs);
    if s0.kind == Kind::Pio {
        moved_fits_after(s0, inputs.drop_last());
        moved_fits_after(s0, inputs);
    }
}

} // verus!
