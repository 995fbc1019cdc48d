//! A probe or a transfer as a sequence of steps. The driver never touches a
//! port itself: each step names the access to make next, and the byte that a
//! read brought back goes into the step after it.

use vstd::prelude::*;
use crate::chunk::{chunk_after, fits, reachable, spec_chunk, spec_fits, spec_reachable, Chunk};
use crate::disk::{IdeDisk, Op, Reg};
use crate::error::IdeError;
use crate::prd::{sector_table, spec_table, spec_transfer_bytes, table_covers, Prd};
use crate::regs::{
    ATA_CMD_CACHE_FLUSH_EXT, ATA_CMD_IDENTIFY, ATA_CMD_READ_DMA_EXT, ATA_CMD_READ_PIO_EXT,
    ATA_CMD_WRITE_DMA_EXT, ATA_CMD_WRITE_PIO_EXT, CMD_ACT, CMD_DIR,
};
use crate::status::{
    classify, dma_failed, dma_finished, is_busy, poll_error, spec_busy, spec_classify,
    spec_dma_failed, spec_dma_finished, spec_poll_error,
};

verus! {

/// What a session is for.
#[derive(Clone, Copy, Debug, PartialEq, Eq, Structural)]
pub enum Kind {
    /// Find out whether a drive is there.
    Identify,
    /// Move sectors word by word through the data port.
    Pio,
    /// Let the bus master move the sectors.
    Dma,
}

/// Where a session stands: what it asked for last.
#[derive(Clone, Copy, Debug, PartialEq, Eq, Structural)]
pub enum Phase {
    /// Nothing was asked for yet.
    Begin,
    /// The alternate status was read to see whether the bus floats.
    Floating,
    /// The alternate status was read before a command is issued.
    Settle,
    /// The command was issued.
    Issued,
    /// The alternate status was read to see whether the drive answered.
    Presence,
    /// The alternate status was read while polling.
    PollBusy,
    /// The status was read to classify the poll.
    PollCheck,
    /// A sector was moved from the drive to memory.
    Moved,
    /// A sector was moved from memory to the drive.
    Wrote,
    /// The cache flush was issued.
    Flushing,
    /// The alternate status was read while the flush runs.
    FlushBusy,
    /// The bus master was stopped before the transfer is set up.
    DmaReset,
    /// The bus-master status was read to acknowledge it.
    DmaAck,
    /// The descriptor table was loaded.
    DmaLoaded,
    /// The bus master was started.
    DmaRunning,
    /// The bus-master status was read while the transfer runs.
    DmaWait,
    /// The bus master was stopped after the transfer.
    DmaStopped,
    /// The bus-master status was read after the transfer.
    DmaFinal,
    /// The bus-master status was acknowledged after the transfer.
    DmaCleared,
    /// The session is over.
    Finished,
}

/// What the caller is to do next.
#[derive(Clone, Debug, PartialEq, Eq)]
pub enum Action {
    /// Make these accesses in order, then step with any byte.
    Run(Vec<Op>),
    /// Read a byte from the port and step with it.
    Read { port: u16 },
    /// Read 256 words from the port into memory at `addr`, then step with
    /// any byte.
    ReadSector { port: u16, addr: usize },
    /// Write the 256 words at `addr` in memory to the port, then step with
    /// any byte.
    WriteSector { port: u16, addr: usize },
    /// A drive is there: read the 256 words of its identify block from the
    /// port. The session is over.
    ReadIdentify { port: u16 },
    /// The transfer moved this many bytes. The session is over.
    Done(usize),
    /// The session failed and is over.
    Failed(IdeError),
}

/// An action as a value of the model: the accesses as a sequence.
pub enum Step {
    Run(Seq<Op>),
    Read { port: u16 },
    ReadSector { port: u16, addr: usize },
    WriteSector { port: u16, addr: usize },
    ReadIdentify { port: u16 },
    Done(usize),
    Failed(IdeError),
}

impl View for Action {
    type V = Step;

    open spec fn view(&self) -> Step {
        match *self {
            Action::Run(ops) => Step::Run(ops@),
            Action::Read { port } => Step::Read { port },
            Action::ReadSector { port, addr } => Step::ReadSector { port, addr },
            Action::WriteSector { port, addr } => Step::WriteSector { port, addr },
            Action::ReadIdentify { port } => Step::ReadIdentify { port },
            Action::Done(n) => Step::Done(n),
            Action::Failed(e) => Step::Failed(e),
        }
    }
}

/// A probe or a transfer under way.
#[derive(Clone, Copy, Debug, PartialEq, Eq, Structural)]
pub struct Session {
    pub disk: IdeDisk,
    pub kind: Kind,
    /// Whether data goes to the drive.
    pub write: bool,
    /// First block of the request.
    pub block: u64,
    /// Sectors of the request.
    pub sectors: usize,
    /// Physical address of the request's buffer.
    pub buf: usize,
    /// Sectors moved by the hardware transfers that are over.
    pub done: usize,
    /// Sectors moved by the hardware transfer under way.
    pub sector: u16,
    /// Whether the bus master reported an error.
    pub failed: bool,
    pub phase: Phase,
}

/// The accesses that stop the bus master and take the descriptor table away
/// from it.
pub open spec fn spec_stop_ops(disk: IdeDisk) -> Seq<Op> {
    seq![
        Op::Flag8 { port: disk.spec_port(Reg::BusCommand) as u16, mask: CMD_ACT, set: false },
        Op::Out32 { port: disk.spec_port(Reg::PrdtAddress) as u16, value: 0 },
    ]
}

/// The stores that put a descriptor table into the table's memory, first
/// entry first.
pub open spec fn spec_store_ops(table: Seq<Prd>) -> Seq<Op> {
    Seq::new(table.len(), |i: int| Op::Store { index: i as usize, entry: table[i] })
}

/// The accesses that set a transfer up: acknowledge the bus-master status by
/// writing it back, store the descriptor table, hand its address to the bus
/// master, and set the direction, which is towards memory for a read.
pub open spec fn spec_load_ops(disk: IdeDisk, status: u8, table: Seq<Prd>, write: bool) -> Seq<
    Op,
> {
    seq![Op::Out8 { port: disk.spec_port(Reg::BusStatus) as u16, value: status }] + spec_store_ops(
        table,
    ) + seq![
        Op::Out32 { port: disk.spec_port(Reg::PrdtAddress) as u16, value: disk.table },
        Op::Flag8 { port: disk.spec_port(Reg::BusCommand) as u16, mask: CMD_DIR, set: !write },
    ]
}

/// The access that starts the bus master.
pub open spec fn spec_start_op(disk: IdeDisk) -> Op {
    Op::Flag8 { port: disk.spec_port(Reg::BusCommand) as u16, mask: CMD_ACT, set: true }
}

/// Whether a session of this kind and direction ever stands at this phase.
pub open spec fn spec_phase_fits(kind: Kind, write: bool, phase: Phase) -> bool {
    match phase {
        Phase::Begin | Phase::Settle | Phase::Finished => true,
        Phase::Floating | Phase::Presence => kind == Kind::Identify,
        Phase::Issued | Phase::PollBusy | Phase::PollCheck => kind != Kind::Dma,
        Phase::Moved => kind == Kind::Pio && !write,
        Phase::Wrote | Phase::Flushing | Phase::FlushBusy => kind == Kind::Pio && write,
        Phase::DmaReset
        | Phase::DmaAck
        | Phase::DmaLoaded
        | Phase::DmaRunning
        | Phase::DmaWait
        | Phase::DmaStopped
        | Phase::DmaFinal
        | Phase::DmaCleared => kind == Kind::Dma,
    }
}

fn phase_fits(kind: Kind, write: bool, phase: Phase) -> (r: bool)
    ensures
        r == spec_phase_fits(kind, write, phase),
{
    let identify = match kind {
        Kind::Identify => true,
        _ => false,
    };
    let pio = match kind {
        Kind::Pio => true,
        _ => false,
    };
    let dma = match kind {
        Kind::Dma => true,
        _ => false,
    };
    match phase {
        Phase::Begin | Phase::Settle | Phase::Finished => true,
        Phase::Floating | Phase::Presence => identify,
        Phase::Issued | Phase::PollBusy | Phase::PollCheck => !dma,
        Phase::Moved => pio && !write,
        Phase::Wrote | Phase::Flushing | Phase::FlushBusy => pio && write,
        Phase::DmaReset
        | Phase::DmaAck
        | Phase::DmaLoaded
        | Phase::DmaRunning
        | Phase::DmaWait
        | Phase::DmaStopped
        | Phase::DmaFinal
        | Phase::DmaCleared => dma,
    }
}

fn stop_ops(disk: &IdeDisk) -> (ops: Vec<Op>)
    requires
        disk.wf(),
    ensures
        ops@ == spec_stop_ops(*disk),
{
    let mut ops: Vec<Op> = Vec::new();
    ops.push(Op::Flag8 { port: disk.port(Reg::BusCommand), mask: CMD_ACT, set: false });
    ops.push(Op::Out32 { port: disk.port(Reg::PrdtAddress), value: 0 });
    assert(ops@ =~= spec_stop_ops(*disk));
    ops
}

fn load_ops(disk: &IdeDisk, status: u8, table: &Vec<Prd>, write: bool) -> (ops: Vec<Op>)
    requires
        disk.wf(),
    ensures
        ops@ == spec_load_ops(*disk, status, table@, write),
{
    let mut ops: Vec<Op> = Vec::new();
    ops.push(Op::Out8 { port: disk.port(Reg::BusStatus), value: status });
    let mut i: usize = 0;
    while i < table.len()
        invariant
            i <= table.len(),
            ops@.len() == i + 1,
            ops@[0] == (Op::Out8 { port: disk.spec_port(Reg::BusStatus) as u16, value: status }),
            forall|j: int|
                0 <= j < i ==> ops@[j + 1] == (Op::Store { index: j as usize, entry: table@[j] }),
        decreases table.len() - i,
    {
        ops.push(Op::Store { index: i, entry: table[i] });
        i = i + 1;
    }
    ops.push(Op::Out32 { port: disk.port(Reg::PrdtAddress), value: disk.table });
    ops.push(Op::Flag8 { port: disk.port(Reg::BusCommand), mask: CMD_DIR, set: !write });
    assert(ops@ =~= spec_load_ops(*disk, status, table@, write));
    ops
}

impl IdeDisk {
    /// The session that a transfer starts as: nothing asked for yet.
    pub open spec fn spec_session(
        &self,
        kind: Kind,
        block: u64,
        sectors: usize,
        buf: usize,
        write: bool,
    ) -> Session {
        Session {
            disk: *self,
            kind,
            write,
            block,
            sectors,
            buf,
            done: 0,
            sector: 0,
            failed: false,
            phase: Phase::Begin,
        }
    }

    /// What a request for a transfer gives: a session, unless the request
    /// has no buffer or no sectors.
    pub open spec fn spec_transfer(
        &self,
        kind: Kind,
        block: u64,
        sectors: usize,
        buf: usize,
        write: bool,
    ) -> Result<Session, IdeError> {
        if buf > 0 && sectors > 0 {
            Ok(self.spec_session(kind, block, sectors, buf, write))
        } else {
            Err(IdeError::BadRequest)
        }
    }

    fn transfer(&self, kind: Kind, block: u64, sectors: usize, buf: usize, write: bool) -> (r:
        Result<Session, IdeError>)
        requires
            self.wf(),
            kind != Kind::Identify,
            spec_fits(block, sectors as nat, buf),
            kind == Kind::Dma ==> spec_reachable(sectors as nat, buf),
        ensures
            r == self.spec_transfer(kind, block, sectors, buf, write),
            r is Ok ==> r->Ok_0.wf(),
    {
        if buf > 0 && sectors > 0 {
            Ok(
                Session {
                    disk: *self,
                    kind,
                    write,
                    block,
                    sectors,
                    buf,
                    done: 0,
                    sector: 0,
                    failed: false,
                    phase: Phase::Begin,
                },
            )
        } else {
            Err(IdeError::BadRequest)
        }
    }

    /// A probe of the drive, nothing asked for yet.
    pub fn identify(&self) -> (s: Session)
        requires
            self.wf(),
        ensures
            s == self.spec_session(Kind::Identify, 0, 0, 0, false),
            s.wf(),
    {
        Session {
            disk: *self,
            kind: Kind::Identify,
            write: false,
            block: 0,
            sectors: 0,
            buf: 0,
            done: 0,
            sector: 0,
            failed: false,
            phase: Phase::Begin,
        }
    }

    /// A transfer through the data port of `sectors` sectors between the
    /// disk at `block` and the memory at `buf`, nothing asked for yet. A
    /// request without a buffer or without sectors is refused.
    pub fn ata_pio(&self, block: u64, sectors: usize, buf: usize, write: bool) -> (r: Result<
        Session,
        IdeError,
    >)
        requires
            self.wf(),
            spec_fits(block, sectors as nat, buf),
        ensures
            r == self.spec_transfer(Kind::Pio, block, sectors, buf, write),
            r is Ok ==> r->Ok_0.wf(),
    {
        self.transfer(Kind::Pio, block, sectors, buf, write)
    }

    /// A transfer by the bus master of `sectors` sectors between the disk at
    /// `block` and the memory at `buf`, nothing asked for yet. A request
    /// without a buffer or without sectors is refused.
    pub fn ata_dma(&self, block: u64, sectors: usize, buf: usize, write: bool) -> (r: Result<
        Session,
        IdeError,
    >)
        requires
            self.wf(),
            spec_fits(block, sectors as nat, buf),
            spec_reachable(sectors as nat, buf),
        ensures
            r == self.spec_transfer(Kind::Dma, block, sectors, buf, write),
            r is Ok ==> r->Ok_0.wf(),
    {
        self.transfer(Kind::Dma, block, sectors, buf, write)
    }

    /// Reads the whole sectors that fit into the `len` bytes at `buf` from
    /// the disk at `block`.
    pub fn read(&self, block: u64, buf: usize, len: usize) -> (r: Result<Session, IdeError>)
        requires
            self.wf(),
            spec_fits(block, (len / 512) as nat, buf),
        ensures
            r == self.spec_transfer(Kind::Pio, block, (len / 512) as usize, buf, false),
            r is Ok ==> r->Ok_0.wf(),
    {
        self.transfer(Kind::Pio, block, len / 512, buf, false)
    }

    /// Writes the whole sectors that the `len` bytes at `buf` hold to the
    /// disk at `block`.
    pub fn write(&self, block: u64, buf: usize, len: usize) -> (r: Result<Session, IdeError>)
        requires
            self.wf(),
            spec_fits(block, (len / 512) as nat, buf),
        ensures
            r == self.spec_transfer(Kind::Pio, block, (len / 512) as usize, buf, true),
            r is Ok ==> r->Ok_0.wf(),
    {
        self.transfer(Kind::Pio, block, len / 512, buf, true)
    }
}

impl Session {
    /// The hardware transfer under way.
    pub open spec fn spec_current(&self) -> Chunk {
        spec_chunk(self.block, self.sectors as nat, self.buf, (self.done / 255) as nat)
    }

    /// The command byte that the session issues.
    pub open spec fn spec_command(&self) -> u8 {
        match self.kind {
            Kind::Identify => ATA_CMD_IDENTIFY,
            Kind::Pio => if self.write {
                ATA_CMD_WRITE_PIO_EXT
            } else {
                ATA_CMD_READ_PIO_EXT
            },
            Kind::Dma => if self.write {
                ATA_CMD_WRITE_DMA_EXT
            } else {
                ATA_CMD_READ_DMA_EXT
            },
        }
    }

    /// The accesses that issue the session's command: for a probe IDENTIFY
    /// with everything else zero, for a transfer the command for the
    /// hardware transfer under way, followed for DMA by the start of the bus
    /// master.
    pub open spec fn spec_issue_ops(&self) -> Seq<Op> {
        match self.kind {
            Kind::Identify => self.disk.spec_ata(ATA_CMD_IDENTIFY, 0, 0),
            Kind::Pio => self.disk.spec_ata(
                self.spec_command(),
                self.spec_current().lba,
                self.spec_current().sectors,
            ),
            Kind::Dma => self.disk.spec_ata(
                self.spec_command(),
                self.spec_current().lba,
                self.spec_current().sectors,
            ).push(spec_start_op(self.disk)),
        }
    }

    /// Whether the session is over.
    pub open spec fn spec_finished(&self) -> bool {
        self.phase == Phase::Finished
    }

    /// The session's drive has its ports and its phase is one that its kind
    /// goes through. A transfer has a buffer and
    /// sectors to move, stays inside the address spaces, has moved whole
    /// hardware transfers only, and, while it runs, has sectors left; the
    /// bus master reaches every byte of a DMA buffer with 32 bits.
    pub open spec fn wf(&self) -> bool {
        &&& self.disk.wf()
        &&& spec_phase_fits(self.kind, self.write, self.phase)
        &&& self.kind != Kind::Identify ==> {
            &&& self.buf > 0
            &&& self.sectors > 0
            &&& spec_fits(self.block, self.sectors as nat, self.buf)
            &&& self.done % 255 == 0 || self.done == self.sectors
            &&& self.done <= self.sectors
            &&& !self.spec_finished() ==> self.done < self.sectors && self.sector
                < self.spec_current().sectors
            &&& self.kind == Kind::Dma ==> spec_reachable(self.sectors as nat, self.buf)
        }
    }

    /// The session with its phase changed.
    pub open spec fn at(&self, phase: Phase) -> Session {
        Session { phase, ..*self }
    }

    /// The first step of a probe or of a hardware transfer: a probe and a
    /// PIO transfer look at the alternate status, a DMA transfer stops the
    /// bus master.
    pub open spec fn spec_begin(&self) -> (Session, Step) {
        let alt = self.disk.spec_port(Reg::AltStatus) as u16;
        match self.kind {
            Kind::Identify => (self.at(Phase::Floating), Step::Read { port: alt }),
            Kind::Pio => (self.at(Phase::Settle), Step::Read { port: alt }),
            Kind::Dma => (self.at(Phase::DmaReset), Step::Run(spec_stop_ops(self.disk))),
        }
    }

    /// The step after a hardware transfer is over: the next one begins where
    /// this one ended, or, if no sector is left, the session reports the
    /// bytes of the whole request.
    pub open spec fn spec_next_chunk(&self) -> (Session, Step) {
        let done = (self.done + self.spec_current().sectors) as usize;
        let next = Session { done, sector: 0, ..*self };
        if done < self.sectors {
            next.spec_begin()
        } else {
            (next.at(Phase::Finished), Step::Done((self.sectors * 512) as usize))
        }
    }

    /// The step after a sector went through the data port: poll for the next
    /// sector of the hardware transfer, or go on to the next transfer.
    pub open spec fn spec_next_sector(&self) -> (Session, Step) {
        if self.sector + 1 < self.spec_current().sectors {
            (
                Session { sector: (self.sector + 1) as u16, phase: Phase::PollBusy, ..*self },
                Step::Read { port: self.disk.spec_port(Reg::AltStatus) as u16 },
            )
        } else {
            self.spec_next_chunk()
        }
    }

    /// What the session does next, given the byte that the last read brought
    /// back.
    pub open spec fn spec_step(&self, input: u8) -> (Session, Step) {
        let alt = self.disk.spec_port(Reg::AltStatus) as u16;
        let data = self.disk.spec_port(Reg::Data) as u16;
        let bus_status = self.disk.spec_port(Reg::BusStatus) as u16;
        let again = (*self, Step::Read { port: alt });
        match self.phase {
            Phase::Begin => self.spec_begin(),
            Phase::Floating => if input == 0xFF {
                (self.at(Phase::Finished), Step::Failed(IdeError::NoDevice))
            } else {
                (self.at(Phase::Settle), Step::Read { port: alt })
            },
            Phase::Settle => if spec_busy(input) {
                again
            } else {
                (
                    self.at(
                        if self.kind == Kind::Dma {
                            Phase::DmaRunning
                        } else {
                            Phase::Issued
                        },
                    ),
                    Step::Run(self.spec_issue_ops()),
                )
            },
            Phase::Issued => (
                self.at(
                    if self.kind == Kind::Identify {
                        Phase::Presence
                    } else {
                        Phase::PollBusy
                    },
                ),
                Step::Read { port: alt },
            ),
            Phase::Presence => if input == 0 {
                (self.at(Phase::Finished), Step::Failed(IdeError::NoDevice))
            } else {
                (self.at(Phase::PollBusy), Step::Read { port: alt })
            },
            Phase::PollBusy => if spec_busy(input) {
                again
            } else {
                (
                    self.at(Phase::PollCheck),
                    Step::Read { port: self.disk.spec_port(Reg::Status) as u16 },
                )
            },
            Phase::PollCheck => match spec_poll_error(spec_classify(input, true)) {
                Some(e) => (self.at(Phase::Finished), Step::Failed(e)),
                None => if self.kind == Kind::Identify {
                    (self.at(Phase::Finished), Step::ReadIdentify { port: data })
                } else {
                    let addr = (self.spec_current().addr + self.sector * 512) as usize;
                    if self.write {
                        (self.at(Phase::Wrote), Step::WriteSector { port: data, addr })
                    } else {
                        (self.at(Phase::Moved), Step::ReadSector { port: data, addr })
                    }
                },
            },
            Phase::Moved => self.spec_next_sector(),
            Phase::Wrote => (
                self.at(Phase::Flushing),
                Step::Run(
                    seq![
                        Op::Out8 {
                            port: self.disk.spec_port(Reg::Command) as u16,
                            value: ATA_CMD_CACHE_FLUSH_EXT,
                        },
                    ],
                ),
            ),
            Phase::Flushing => (self.at(Phase::FlushBusy), Step::Read { port: alt }),
            Phase::FlushBusy => if spec_busy(input) {
                again
            } else {
                self.spec_next_sector()
            },
            Phase::DmaReset => (self.at(Phase::DmaAck), Step::Read { port: bus_status }),
            Phase::DmaAck => (
                self.at(Phase::DmaLoaded),
                Step::Run(
                    spec_load_ops(
                        self.disk,
                        input,
                        spec_table(
                            self.spec_current().addr as u32,
                            spec_transfer_bytes(self.spec_current().sectors),
                        ),
                        self.write,
                    ),
                ),
            ),
            Phase::DmaLoaded => (self.at(Phase::Settle), Step::Read { port: alt }),
            Phase::DmaRunning => (self.at(Phase::DmaWait), Step::Read { port: bus_status }),
            Phase::DmaWait => if spec_dma_finished(input) {
                (self.at(Phase::DmaStopped), Step::Run(spec_stop_ops(self.disk)))
            } else {
                (*self, Step::Read { port: bus_status })
            },
            Phase::DmaStopped => (self.at(Phase::DmaFinal), Step::Read { port: bus_status }),
            Phase::DmaFinal => (
                Session { failed: spec_dma_failed(input), phase: Phase::DmaCleared, ..*self },
                Step::Run(seq![Op::Out8 { port: bus_status, value: input }]),
            ),
            Phase::DmaCleared => if self.failed {
                (self.at(Phase::Finished), Step::Failed(IdeError::DmaError))
            } else {
                self.spec_next_chunk()
            },
            Phase::Finished => (*self, Step::Failed(IdeError::BadRequest)),
        }
    }

    /// Whether the session is sound: see `wf`.
    pub fn is_valid(&self) -> (r: bool)
        ensures
            r == self.wf(),
    {
        if !self.disk.is_valid() || !phase_fits(self.kind, self.write, self.phase) {
            return false;
        }
        match self.kind {
            Kind::Identify => true,
            _ => {
                if self.buf == 0 || self.sectors == 0 || !fits(self.block, self.sectors, self.buf)
                    || self.done > self.sectors {
                    return false;
                }
                if self.done % 255 != 0 && self.done != self.sectors {
                    return false;
                }
                match self.kind {
                    Kind::Dma => {
                        if !reachable(self.sectors, self.buf) {
                            return false;
                        }
                    },
                    _ => {},
                }
                if self.finished() {
                    return true;
                }
                if self.done >= self.sectors {
                    return false;
                }
                let c = chunk_after(self.block, self.sectors, self.buf, self.done);
                self.sector < c.sectors
            },
        }
    }

    /// Whether the session is over.
    pub fn finished(&self) -> (r: bool)
        ensures
            r == self.spec_finished(),
    {
        match self.phase {
            Phase::Finished => true,
            _ => false,
        }
    }

    /// The hardware transfer under way.
    pub fn current(&self) -> (c: Chunk)
        requires
            self.wf(),
            self.kind != Kind::Identify,
            !self.spec_finished(),
        ensures
            c == self.spec_current(),
            c.lba == self.block + self.done,
            c.addr == self.buf + self.done * 512,
            0 < c.sectors <= 255,
            self.done + c.sectors <= self.sectors,
    {
        chunk_after(self.block, self.sectors, self.buf, self.done)
    }

    fn command(&self) -> (c: u8)
        ensures
            c == self.spec_command(),
    {
        match self.kind {
            Kind::Identify => ATA_CMD_IDENTIFY,
            Kind::Pio => if self.write {
                ATA_CMD_WRITE_PIO_EXT
            } else {
                ATA_CMD_READ_PIO_EXT
            },
            Kind::Dma => if self.write {
                ATA_CMD_WRITE_DMA_EXT
            } else {
                ATA_CMD_READ_DMA_EXT
            },
        }
    }

    fn issue_ops(&self) -> (ops: Vec<Op>)
        requires
            self.wf(),
            !self.spec_finished(),
        ensures
            ops@ == self.spec_issue_ops(),
    {
        match self.kind {
            Kind::Identify => self.disk.ata(ATA_CMD_IDENTIFY, 0, 0),
            Kind::Pio => {
                let c = self.current();
                self.disk.ata(self.command(), c.lba, c.sectors)
            },
            Kind::Dma => {
                let c = self.current();
                let mut ops = self.disk.ata(self.command(), c.lba, c.sectors);
                ops.push(Op::Flag8 { port: self.disk.port(Reg::BusCommand), mask: CMD_ACT, set: true });
                ops
            },
        }
    }

    fn begin(&mut self) -> (action: Action)
        requires
            old(self).wf(),
            !old(self).spec_finished(),
        ensures
            (*final(self), action@) == old(self).spec_begin(),
            final(self).wf(),
    {
        match self.kind {
            Kind::Identify => {
                self.phase = Phase::Floating;
                Action::Read { port: self.disk.port(Reg::AltStatus) }
            },
            Kind::Pio => {
                self.phase = Phase::Settle;
                Action::Read { port: self.disk.port(Reg::AltStatus) }
            },
            Kind::Dma => {
                self.phase = Phase::DmaReset;
                Action::Run(stop_ops(&self.disk))
            },
        }
    }

    fn next_chunk(&mut self) -> (action: Action)
        requires
            old(self).wf(),
            old(self).kind != Kind::Identify,
            !old(self).spec_finished(),
        ensures
            (*final(self), action@) == old(self).spec_next_chunk(),
            final(self).wf(),
    {
        let c = self.current();
        self.done = self.done + c.sectors as usize;
        self.sector = 0;
        if self.done < self.sectors {
            proof {
                let n = spec_chunk(
                    self.block,
                    self.sectors as nat,
                    self.buf,
                    (self.done / 255) as nat,
                );
                assert(c.sectors == 255);
                assert(n.sectors > 0);
            }
            self.begin()
        } else {
            self.phase = Phase::Finished;
            Action::Done(self.sectors * 512)
        }
    }

    fn next_sector(&mut self) -> (action: Action)
        requires
            old(self).wf(),
            old(self).kind == Kind::Pio,
            !old(self).spec_finished(),
        ensures
            (*final(self), action@) == old(self).spec_next_sector(),
            final(self).wf(),
    {
        let c = self.current();
        if self.sector + 1 < c.sectors {
            self.sector = self.sector + 1;
            self.phase = Phase::PollBusy;
            Action::Read { port: self.disk.port(Reg::AltStatus) }
        } else {
            self.next_chunk()
        }
    }

    /// Takes the byte that the last read brought back (any byte if the last
    /// action was no read) and says what to do next. A session that is over
    /// stays as it is and answers with a bad request.
    pub fn step(&mut self, input: u8) -> (action: Action)
        requires
            old(self).wf(),
        ensures
            (*final(self), action@) == old(self).spec_step(input),
            final(self).wf(),
    {
        let alt = self.disk.port(Reg::AltStatus);
        let data = self.disk.port(Reg::Data);
        let bus_status = self.disk.port(Reg::BusStatus);
        match self.phase {
            Phase::Begin => self.begin(),
            Phase::Floating => {
                if input == 0xFF {
                    self.phase = Phase::Finished;
                    Action::Failed(IdeError::NoDevice)
                } else {
                    self.phase = Phase::Settle;
                    Action::Read { port: alt }
                }
            },
            Phase::Settle => {
                if is_busy(input) {
                    Action::Read { port: alt }
                } else {
                    let ops = self.issue_ops();
                    self.phase = match self.kind {
                        Kind::Dma => Phase::DmaRunning,
                        _ => Phase::Issued,
                    };
                    Action::Run(ops)
                }
            },
            Phase::Issued => {
                self.phase = match self.kind {
                    Kind::Identify => Phase::Presence,
                    _ => Phase::PollBusy,
                };
                Action::Read { port: alt }
            },
            Phase::Presence => {
                if input == 0 {
                    self.phase = Phase::Finished;
                    Action::Failed(IdeError::NoDevice)
                } else {
                    self.phase = Phase::PollBusy;
                    Action::Read { port: alt }
                }
            },
            Phase::PollBusy => {
                if is_busy(input) {
                    Action::Read { port: alt }
                } else {
                    self.phase = Phase::PollCheck;
                    Action::Read { port: self.disk.port(Reg::Status) }
                }
            },
            Phase::PollCheck => {
                match poll_error(classify(input, true)) {
                    Some(e) => {
                        self.phase = Phase::Finished;
                        Action::Failed(e)
                    },
                    None => {
                        match self.kind {
                            Kind::Identify => {
                                self.phase = Phase::Finished;
                                Action::ReadIdentify { port: data }
                            },
                            _ => {
                                let c = self.current();
                                let addr: usize = c.addr + self.sector as usize * 512;
                                if self.write {
                                    self.phase = Phase::Wrote;
                                    Action::WriteSector { port: data, addr }
                                } else {
                                    self.phase = Phase::Moved;
                                    Action::ReadSector { port: data, addr }
                                }
                            },
                        }
                    },
                }
            },
            Phase::Moved => self.next_sector(),
            Phase::Wrote => {
                let mut ops: Vec<Op> = Vec::new();
                ops.push(
                    Op::Out8 { port: self.disk.port(Reg::Command), value: ATA_CMD_CACHE_FLUSH_EXT },
                );
                assert(ops@ =~= seq![
                    Op::Out8 {
                        port: self.disk.spec_port(Reg::Command) as u16,
                        value: ATA_CMD_CACHE_FLUSH_EXT,
                    },
                ]);
                self.phase = Phase::Flushing;
                Action::Run(ops)
            },
            Phase::Flushing => {
                self.phase = Phase::FlushBusy;
                Action::Read { port: alt }
            },
            Phase::FlushBusy => {
                if is_busy(input) {
                    Action::Read { port: alt }
                } else {
                    self.next_sector()
                }
            },
            Phase::DmaReset => {
                self.phase = Phase::DmaAck;
                Action::Read { port: bus_status }
            },
            Phase::DmaAck => {
                let c = self.current();
                let table = sector_table(c.addr as u32, c.sectors);
                let ops = load_ops(&self.disk, input, &table, self.write);
                self.phase = Phase::DmaLoaded;
                Action::Run(ops)
            },
            Phase::DmaLoaded => {
                self.phase = Phase::Settle;
                Action::Read { port: alt }
            },
            Phase::DmaRunning => {
                self.phase = Phase::DmaWait;
                Action::Read { port: bus_status }
            },
            Phase::DmaWait => {
                if dma_finished(input) {
                    self.phase = Phase::DmaStopped;
                    Action::Run(stop_ops(&self.disk))
                } else {
                    Action::Read { port: bus_status }
                }
            },
            Phase::DmaStopped => {
                self.phase = Phase::DmaFinal;
                Action::Read { port: bus_status }
            },
            Phase::DmaFinal => {
                let mut ops: Vec<Op> = Vec::new();
                ops.push(Op::Out8 { port: bus_status, value: input });
                assert(ops@ =~= seq![Op::Out8 { port: bus_status, value: input }]);
                self.failed = dma_failed(input);
                self.phase = Phase::DmaCleared;
                Action::Run(ops)
            },
            Phase::DmaCleared => {
                if self.failed {
                    self.phase = Phase::Finished;
                    Action::Failed(IdeError::DmaError)
                } else {
                    self.next_chunk()
                }
            },
            Phase::Finished => Action::Failed(IdeError::BadRequest),
        }
    }
}

/// A step changes nothing of what was asked for: the drive, the kind, the
/// direction and the request stay, and the sectors counted as moved never
/// become fewer.
pub proof fn step_keeps_request(s: Session, input: u8)
    requires
        s.wf(),
    ensures
        ({
            let next = s.spec_step(input).0;
            &&& next.disk == s.disk
            &&& next.kind == s.kind
            &&& next.write == s.write
            &&& next.block == s.block
            &&& next.sectors == s.sectors
            &&& next.buf == s.buf
            &&& next.done >= s.done
            &&& next.done == s.done ==> next.sector >= s.sector
        }),
{
}

/// A session is over exactly when a step reports an outcome: the bytes
/// moved, a failure, or the request to fetch the identify block.
pub proof fn outcome_ends_session(s: Session, input: u8)
    requires
        s.wf(),
        !s.spec_finished(),
    ensures
        s.spec_step(input).0.spec_finished() <==> (s.spec_step(input).1 is Done || s.spec_step(
            input,
        ).1 is Failed || s.spec_step(input).1 is ReadIdentify),
{
}

/// A transfer reports success only when every sector of the request was
/// moved, and then it reports 512 bytes for each of them. A probe never
/// reports bytes.
pub proof fn done_moves_everything(s: Session, input: u8)
    requires
        s.wf(),
        !s.spec_finished(),
        s.spec_step(input).1 is Done,
    ensures
        s.kind != Kind::Identify,
        s.spec_step(input).1->Done_0 == s.sectors * 512,
        s.spec_step(input).0.done == s.sectors,
{
}

/// Each failure has its place: a missing drive shows only in a probe, a
/// bus-master error only in a DMA transfer, and what a poll finds never in
/// a DMA transfer. No step of a session that runs fails in another way.
pub proof fn failures_have_their_place(s: Session, input: u8)
    requires
        s.wf(),
        !s.spec_finished(),
        s.spec_step(input).1 is Failed,
    ensures
        ({
            let e = s.spec_step(input).1->Failed_0;
            &&& e == IdeError::NoDevice ==> s.kind == Kind::Identify
            &&& e == IdeError::DmaError ==> s.kind == Kind::Dma
            &&& (e == IdeError::DeviceFault || e == IdeError::DriveError || e
                == IdeError::ProtocolError) ==> s.kind != Kind::Dma
            &&& e != IdeError::BadRequest && e != IdeError::OutOfMemory && e != IdeError::TooLarge
        }),
{
}

/// A sector goes through the data port only after a poll that found the
/// drive ready with data requested, and it goes to or comes from the place
/// in the buffer that belongs to it: 512 bytes for each sector before it.
pub proof fn sector_has_its_place(s: Session, input: u8)
    requires
        s.wf(),
        !s.spec_finished(),
        s.spec_step(input).1 is ReadSector || s.spec_step(input).1 is WriteSector,
    ensures
        s.kind == Kind::Pio,
        s.phase == Phase::PollCheck,
        spec_classify(input, true) == 0,
        s.spec_step(input).1 is WriteSector <==> s.write,
        s.spec_step(input).1 is ReadSector ==> s.spec_step(input).1->ReadSector_addr == s.buf + (
        s.done + s.sector) * 512 && s.spec_step(input).1->ReadSector_port == s.disk.base,
        s.spec_step(input).1 is WriteSector ==> s.spec_step(input).1->WriteSector_addr == s.buf
            + (s.done + s.sector) * 512 && s.spec_step(input).1->WriteSector_port == s.disk.base,
{
}

/// A probe begins with a look at the alternate status, and if the bus
/// floats there it ends at once: no command is issued.
pub proof fn floating_bus_ends_probe(disk: IdeDisk, any: u8)
    requires
        disk.wf(),
    ensures
        ({
            let probe = disk.spec_session(Kind::Identify, 0, 0, 0, false);
            let first = probe.spec_step(any);
            let second = first.0.spec_step(0xFF);
            &&& first.1 == Step::Read { port: (disk.ctrl + 2) as u16 }
            &&& second.1 == Step::Failed(IdeError::NoDevice)
            &&& second.0.spec_finished()
        }),
{
}

/// The command of a hardware transfer names the sectors that no earlier
/// transfer of the request moved: it starts at the request's block plus the
/// sectors done, and asks for what is left up to 255 sectors.
pub proof fn command_names_what_is_left(s: Session, input: u8)
    requires
        s.wf(),
        s.kind != Kind::Identify,
        s.phase == Phase::Settle,
        !spec_busy(input),
    ensures
        s.spec_current().lba == s.block + s.done,
        s.spec_current().sectors == (if s.sectors - s.done >= 255 {
            255
        } else {
            s.sectors - s.done
        }),
        s.spec_step(input).1 is Run,
        s.spec_step(input).1->Run_0.subrange(0, 14) == s.disk.spec_ata(
            s.spec_command(),
            s.spec_current().lba,
            s.spec_current().sectors,
        ),
{
    let ops = s.spec_step(input).1->Run_0;
    let ata = s.disk.spec_ata(s.spec_command(), s.spec_current().lba, s.spec_current().sectors);
    assert(ata.len() == 14);
    assert(ops.subrange(0, 14) =~= ata);
}

/// How far a phase is from the end of its round, in steps at most.
pub open spec fn spec_phase_rank(phase: Phase) -> nat {
    match phase {
        Phase::Begin => 15,
        Phase::DmaReset => 14,
        Phase::DmaAck => 13,
        Phase::Floating | Phase::DmaLoaded => 12,
        Phase::Settle => 11,
        Phase::Issued | Phase::DmaRunning => 10,
        Phase::Presence | Phase::DmaWait => 9,
        Phase::PollBusy | Phase::DmaStopped => 8,
        Phase::PollCheck | Phase::DmaFinal => 7,
        Phase::Wrote | Phase::DmaCleared => 6,
        Phase::Flushing => 5,
        Phase::FlushBusy | Phase::Moved => 4,
        Phase::Finished => 0,
    }
}

/// Whether the session waits for the hardware: the byte that came back
/// shows the drive busy, or the bus master still at work.
pub open spec fn spec_waits(s: Session, input: u8) -> bool {
    match s.phase {
        Phase::Settle | Phase::PollBusy | Phase::FlushBusy => spec_busy(input),
        Phase::DmaWait => !spec_dma_finished(input),
        _ => false,
    }
}

/// A bound on the steps that a session still takes while the hardware does
/// not make it wait: the rank of its phase, and for a transfer sixteen more
/// for each sector that is still to move.
pub open spec fn spec_steps_left(s: Session) -> nat {
    if s.spec_finished() {
        0
    } else if s.kind == Kind::Identify {
        spec_phase_rank(s.phase)
    } else {
        (16 * (s.sectors - s.done - s.sector) + spec_phase_rank(s.phase)) as nat
    }
}

/// The driver loops only to wait for the hardware. While it waits it reads
/// the same register again and changes nothing; every other step brings the
/// session nearer to its end. So a session ends after at most sixteen steps
/// for each sector, and fifteen more, not counting the waiting.
pub proof fn session_makes_progress(s: Session, input: u8)
    requires
        s.wf(),
        !s.spec_finished(),
    ensures
        spec_waits(s, input) ==> s.spec_step(input).0 == s && s.spec_step(input).1 is Read,
        !spec_waits(s, input) ==> spec_steps_left(s.spec_step(input).0) < spec_steps_left(s),
{
}

/// Whether a step touches only what the driver may touch: its accesses are
/// allowed ones, a byte is read from the alternate status, the status or the
/// bus-master status, and sectors and the identify block go through the data
/// port.
pub open spec fn spec_step_allowed(disk: IdeDisk, step: Step) -> bool {
    match step {
        Step::Run(ops) => forall|i: int| 0 <= i < ops.len() ==> disk.spec_allows(#[trigger] ops[i]),
        Step::Read { port } => port == disk.spec_port(Reg::AltStatus) || port == disk.spec_port(
            Reg::Status,
        ) || port == disk.spec_port(Reg::BusStatus),
        Step::ReadSector { port, .. } => port == disk.spec_port(Reg::Data),
        Step::WriteSector { port, .. } => port == disk.spec_port(Reg::Data),
        Step::ReadIdentify { port } => port == disk.spec_port(Reg::Data),
        Step::Done(_) => true,
        Step::Failed(_) => true,
    }
}

/// No step of a session touches a register in a way that the driver may
/// not: nothing is written to a register that is only read, nothing is read
/// from one that is only written, and nothing is stored outside the
/// descriptor table.
pub proof fn session_respects_registers(s: Session, input: u8)
    requires
        s.wf(),
    ensures
        spec_step_allowed(s.disk, s.spec_step(input).1),
{
    let step = s.spec_step(input).1;
    if let Step::Run(ops) = step {
        assert forall|i: int| 0 <= i < ops.len() implies s.disk.spec_allows(#[trigger] ops[i]) by {
            if s.phase == Phase::Settle {
                let ata = if s.kind == Kind::Identify {
                    s.disk.spec_ata(ATA_CMD_IDENTIFY, 0, 0)
                } else {
                    s.disk.spec_ata(
                        s.spec_command(),
                        s.spec_current().lba,
                        s.spec_current().sectors,
                    )
                };
                assert(ata.len() == 14);
                if i < 14 {
                    assert(ops[i] == ata[i]);
                }
            } else if s.phase == Phase::DmaAck {
                let table = spec_table(
                    s.spec_current().addr as u32,
                    spec_transfer_bytes(s.spec_current().sectors),
                );
                assert(table.len() <= 2);
                let stores = spec_store_ops(table);
                if 1 <= i && i < 1 + stores.len() {
                    assert(ops[i] == stores[i - 1]);
                }
            }
        }
    }
}

/// Before each hardware transfer by the bus master, the descriptors stored
/// are those of the part of the buffer that the transfer moves: the table
/// starts where the sectors done so far end in the buffer, its descriptors
/// follow one another 64 KiB apart, together they cover 512 bytes for each
/// sector of the transfer, and the last of them, and no other, ends the
/// table.
pub proof fn table_describes_transfer(s: Session, input: u8)
    requires
        s.wf(),
        s.phase == Phase::DmaAck,
    ensures
        ({
            let c = s.spec_current();
            let table = spec_table((s.buf + 512 * s.done) as u32, (512 * c.sectors) as nat);
            let ops = s.spec_step(input).1->Run_0;
            &&& s.spec_step(input).1 is Run
            &&& ops.len() == table.len() + 3
            &&& 1 <= table.len() <= 2
            &&& forall|i: int|
                0 <= i < table.len() ==> #[trigger] ops[i + 1] == (Op::Store {
                    index: i as usize,
                    entry: table[i],
                })
            &&& forall|i: int|
                0 <= i < table.len() ==> (#[trigger] table[i]).addr == s.buf + 512 * s.done + 65536
                    * i && (table[i].spec_is_last() <==> i + 1 == table.len())
            &&& table.last().spec_len() + 65536 * (table.len() - 1) == 512 * c.sectors
            &&& ops[table.len() as int + 1] == (Op::Out32 {
                port: (s.disk.busmaster + 4) as u16,
                value: s.disk.table,
            })
        }),
{
    let c = s.spec_current();
    let table = spec_table((s.buf + 512 * s.done) as u32, (512 * c.sectors) as nat);
    let ops = s.spec_step(input).1->Run_0;
    let stores = spec_store_ops(table);
    assert(255 * (s.done / 255) == s.done);
    assert(c.addr == s.buf + 512 * s.done);
    assert(spec_transfer_bytes(c.sectors) == 512 * c.sectors);
    table_covers((s.buf + 512 * s.done) as u32, (512 * c.sectors) as nat);
    assert(0x80u8 & 0x80u8 != 0 && 0u8 & 0x80u8 == 0) by (bit_vector);
    assert forall|i: int| 0 <= i < table.len() implies #[trigger] ops[i + 1] == (Op::Store {
        index: i as usize,
        entry: table[i],
    }) by {
        assert(ops[i + 1] == stores[i]);
    }
}

} // verus!
