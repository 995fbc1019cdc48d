//! Serving requests one after another on a channel, driven by the bus
//! master's interrupt. At most one hardware transfer is under way; requests
//! that arrive meanwhile wait in a queue and are served in the order in which
//! they came.

use std::collections::VecDeque;
use vstd::prelude::*;
use crate::disk::{IdeDisk, Op, Reg};
use crate::error::IdeError;
use crate::extent::Extent;
use crate::prd::{build_table, spec_table, Prd, PRDT_SPAN};
use crate::regs::{ATA_CMD_READ_DMA_EXT, ATA_CMD_WRITE_DMA_EXT, CMD_ACT, CMD_DIR, STS_ERR, STS_INT};
use crate::session::{spec_start_op, spec_stop_ops, spec_store_ops};

verus! {

/// A logical transfer between the disk and a buffer in memory.
#[derive(Clone, Copy, Debug, PartialEq, Eq, Structural)]
pub struct Request {
    /// Names the completion signal that the submitter watches.
    pub id: u64,
    /// Whether the request is for the master drive of the channel.
    pub master: bool,
    /// Where the data lies on disk, and how many bytes it has.
    pub extent: Extent,
    /// Physical address of the buffer.
    pub buf: u32,
    /// Whether data goes to the drive.
    pub write: bool,
}

/// One hardware transfer of a request: where it starts on disk, how many
/// sectors it moves, up to 128 and described by one descriptor, and whether
/// they go to the drive.
#[derive(Clone, Copy, Debug, PartialEq, Eq, Structural)]
pub struct DmaChunk {
    pub lba: u64,
    pub sectors: u16,
    pub write: bool,
}

/// What the caller is to do for the dispatcher, in the order given.
#[derive(Clone, Copy, Debug, PartialEq, Eq, Structural)]
pub enum Effect {
    /// Make this access.
    Port(Op),
    /// Wait until the alternate status no longer shows the drive busy.
    Settle,
    /// Signal that the request is complete.
    Complete { id: u64 },
    /// Signal that the request failed.
    Fail { id: u64, error: IdeError },
}

/// The state of a channel's dispatcher as a value of the model.
pub struct DispatcherView {
    pub channel: IdeDisk,
    pub current: Option<Request>,
    pub queue: Seq<Request>,
    pub current_chunk: Option<DmaChunk>,
    pub chunk_queue: Seq<DmaChunk>,
}

/// The dispatcher of a channel.
#[derive(Debug)]
pub struct Dispatcher {
    /// The channel's ports and descriptor table. Which of the channel's two
    /// drives a request is for, the request says.
    pub channel: IdeDisk,
    /// The request being served.
    pub current: Option<Request>,
    /// The requests that wait, first come first.
    pub queue: VecDeque<Request>,
    /// The hardware transfer under way.
    pub current_chunk: Option<DmaChunk>,
    /// The hardware transfers of the current request that are still to come.
    pub chunk_queue: VecDeque<DmaChunk>,
}

/// Hardware transfers needed for `sectors` sectors: one for each 128 begun.
pub open spec fn spec_dma_chunk_count(sectors: nat) -> nat {
    (sectors + 127) / 128
}

/// Hardware transfer `i` of a request: it starts 128 sectors after its
/// predecessor, moves what is left up to 128 sectors, and has the request's
/// direction.
pub open spec fn spec_dma_chunk(block: u64, sectors: nat, write: bool, i: nat) -> DmaChunk {
    let left = sectors - 128 * i;
    DmaChunk {
        lba: (block + 128 * i) as u64,
        sectors: if left >= 128 { 128u16 } else { left as u16 },
        write,
    }
}

/// The hardware transfers of a request, in ascending order of their blocks.
pub open spec fn spec_dma_chunks(block: u64, sectors: nat, write: bool) -> Seq<DmaChunk> {
    Seq::new(
        spec_dma_chunk_count(sectors),
        |i: int| spec_dma_chunk(block, sectors, write, i as nat),
    )
}

/// The accesses as effects.
pub open spec fn spec_ports(ops: Seq<Op>) -> Seq<Effect> {
    Seq::new(ops.len(), |i: int| Effect::Port(ops[i]))
}

impl DmaChunk {
    /// The command byte of the hardware transfer.
    pub open spec fn spec_command(&self) -> u8 {
        if self.write {
            ATA_CMD_WRITE_DMA_EXT
        } else {
            ATA_CMD_READ_DMA_EXT
        }
    }
}

impl Request {
    /// Sectors that the request moves.
    pub open spec fn spec_sectors(&self) -> nat {
        self.extent.spec_sectors()
    }

    /// Why the request cannot be served, if it cannot: it is bad if its
    /// extent is a sentinel or it has no buffer, too large if its sectors
    /// need more descriptors than the table holds, and bad again if its
    /// buffer ends beyond what 32 bits address or its sectors end beyond
    /// what 48 bits address.
    pub open spec fn spec_check(&self) -> Option<IdeError> {
        if self.extent.is_sentinel() || self.buf == 0 {
            Some(IdeError::BadRequest)
        } else if self.spec_sectors() * 512 > PRDT_SPAN {
            Some(IdeError::TooLarge)
        } else if self.buf + self.spec_sectors() * 512 > 0x1_0000_0000 || self.extent.block
            + self.spec_sectors() > 0x1_0000_0000_0000 {
            Some(IdeError::BadRequest)
        } else {
            None
        }
    }

    /// The request's hardware transfers.
    pub open spec fn spec_chunks(&self) -> Seq<DmaChunk> {
        spec_dma_chunks(self.extent.block, self.spec_sectors(), self.write)
    }

    /// The request's descriptor table: it covers the whole buffer.
    pub open spec fn spec_request_table(&self) -> Seq<Prd> {
        spec_table(self.buf, self.spec_sectors() * 512)
    }

    /// The drive that the request is for.
    pub open spec fn spec_drive(&self, channel: IdeDisk) -> IdeDisk {
        IdeDisk { master: self.master, ..channel }
    }

    /// The effects that hand the request's buffer to the bus master: store
    /// the descriptor table, load its address, set the direction.
    pub open spec fn spec_setup(&self, channel: IdeDisk) -> Seq<Effect> {
        spec_ports(
            spec_store_ops(self.spec_request_table()) + seq![
                Op::Out32 { port: channel.spec_port(Reg::PrdtAddress) as u16, value: channel.table },
                Op::Flag8 {
                    port: channel.spec_port(Reg::BusCommand) as u16,
                    mask: CMD_DIR,
                    set: !self.write,
                },
            ],
        )
    }

    /// The effects that start a hardware transfer of the request: wait for
    /// the drive, issue the command, start the bus master.
    pub open spec fn spec_start(&self, channel: IdeDisk, chunk: DmaChunk) -> Seq<Effect> {
        seq![Effect::Settle] + spec_ports(
            self.spec_drive(channel).spec_ata(chunk.spec_command(), chunk.lba, chunk.sectors).push(
                spec_start_op(channel),
            ),
        )
    }

    /// Why the request cannot be served, if it cannot.
    pub fn check(&self) -> (r: Option<IdeError>)
        ensures
            r == self.spec_check(),
    {
        if self.extent.empty() || self.buf == 0 {
            return Some(IdeError::BadRequest);
        }
        let sectors: u64 = self.extent.sectors();
        if sectors > 1048576 {
            return Some(IdeError::TooLarge);
        }
        if self.buf as u64 + sectors * 512 > 0x1_0000_0000 || self.extent.block
            > 0x1_0000_0000_0000 - sectors {
            return Some(IdeError::BadRequest);
        }
        None
    }

    /// The request's hardware transfers, first to last.
    pub fn chunks(&self) -> (chunks: VecDeque<DmaChunk>)
        requires
            self.spec_check().is_none(),
        ensures
            chunks@ == self.spec_chunks(),
            chunks@.len() > 0,
    {
        let sectors: u64 = self.extent.sectors();
        let count: u64 = (sectors + 127) / 128;
        let mut chunks: VecDeque<DmaChunk> = VecDeque::new();
        let mut i: u64 = 0;
        while i < count
            invariant
                self.spec_check().is_none(),
                sectors == self.spec_sectors(),
                count == spec_dma_chunk_count(sectors as nat),
                i <= count,
                chunks@.len() == i,
                forall|j: int|
                    0 <= j < i ==> chunks@[j] == spec_dma_chunk(
                        self.extent.block,
                        sectors as nat,
                        self.write,
                        j as nat,
                    ),
            decreases count - i,
        {
            let left: u64 = sectors - 128 * i;
            chunks.push_back(
                DmaChunk {
                    lba: self.extent.block + 128 * i,
                    sectors: if left >= 128 { 128 } else { left as u16 },
                    write: self.write,
                },
            );
            i = i + 1;
        }
        assert(chunks@ =~= self.spec_chunks());
        chunks
    }
}

/// Adds accesses to a list of effects.
fn push_ports(effects: &mut Vec<Effect>, ops: &Vec<Op>)
    ensures
        final(effects)@ == old(effects)@ + spec_ports(ops@),
{
    let mut i: usize = 0;
    while i < ops.len()
        invariant
            i <= ops.len(),
            effects@.len() == old(effects)@.len() + i,
            forall|j: int| 0 <= j < old(effects)@.len() ==> effects@[j] == old(effects)@[j],
            forall|j: int| 0 <= j < i ==> effects@[old(effects)@.len() + j] == Effect::Port(ops@[j]),
        decreases ops.len() - i,
    {
        effects.push(Effect::Port(ops[i]));
        i = i + 1;
    }
    assert(effects@ =~= old(effects)@ + spec_ports(ops@));
}

impl DispatcherView {
    /// The request in service, if any, followed by those that wait.
    pub open spec fn pending(&self) -> Seq<Request> {
        match self.current {
            Some(r) => seq![r] + self.queue,
            None => self.queue,
        }
    }

    /// The channel has its ports. Without a request in service nothing waits
    /// and no hardware transfer is planned or under way. With one, the
    /// request can be served, one of its hardware transfers is under way, and
    /// the ones planned are exactly those that follow it.
    pub open spec fn wf(&self) -> bool {
        &&& self.channel.wf()
        &&& match self.current {
            None => self.queue.len() == 0 && self.chunk_queue.len() == 0 && self.current_chunk
                == None::<DmaChunk>,
            Some(r) => {
                let chunks = r.spec_chunks();
                let k = chunks.len() - 1 - self.chunk_queue.len();
                &&& r.spec_check().is_none()
                &&& 0 <= k
                &&& self.current_chunk == Some(chunks[k])
                &&& self.chunk_queue == chunks.subrange(k + 1, chunks.len() as int)
            },
        }
    }

    /// Nothing in service and nothing waiting.
    pub open spec fn idle(channel: IdeDisk) -> DispatcherView {
        DispatcherView {
            channel,
            current: None,
            queue: Seq::empty(),
            current_chunk: None,
            chunk_queue: Seq::empty(),
        }
    }

    /// Taking up the first of the waiting requests that can be served: each
    /// one before it fails with the reason why it cannot; the one taken up
    /// has its buffer handed to the bus master and its first hardware
    /// transfer started. If none can be served the dispatcher is idle.
    pub open spec fn spec_start_next(channel: IdeDisk, queue: Seq<Request>) -> (
        DispatcherView,
        Seq<Effect>,
    )
        decreases queue.len(),
    {
        if queue.len() == 0 {
            (Self::idle(channel), Seq::empty())
        } else {
            let r = queue[0];
            match r.spec_check() {
                Some(error) => {
                    let rest = Self::spec_start_next(channel, queue.drop_first());
                    (rest.0, seq![Effect::Fail { id: r.id, error }] + rest.1)
                },
                None => (
                    DispatcherView {
                        channel,
                        current: Some(r),
                        queue: queue.drop_first(),
                        current_chunk: Some(r.spec_chunks()[0]),
                        chunk_queue: r.spec_chunks().drop_first(),
                    },
                    r.spec_setup(channel) + r.spec_start(channel, r.spec_chunks()[0]),
                ),
            }
        }
    }

    /// The signal for the request that was in service, if there was one.
    pub open spec fn spec_settle(current: Option<Request>, error: Option<IdeError>) -> Seq<
        Effect,
    > {
        match current {
            None => Seq::empty(),
            Some(r) => match error {
                None => seq![Effect::Complete { id: r.id }],
                Some(error) => seq![Effect::Fail { id: r.id, error }],
            },
        }
    }

    /// Going on to the next request: stop the bus master, signal the request
    /// that was in service, then take up the next one.
    pub open spec fn spec_advance_request(&self, error: Option<IdeError>) -> (
        DispatcherView,
        Seq<Effect>,
    ) {
        let next = Self::spec_start_next(self.channel, self.queue);
        (
            next.0,
            spec_ports(spec_stop_ops(self.channel)) + Self::spec_settle(self.current, error)
                + next.1,
        )
    }

    /// Going on to the next hardware transfer of the request in service, or,
    /// if none is left, to the next request.
    pub open spec fn spec_advance_chunk(&self) -> (DispatcherView, Seq<Effect>) {
        if self.current.is_some() && self.chunk_queue.len() > 0 {
            let chunk = self.chunk_queue[0];
            (
                DispatcherView {
                    current_chunk: Some(chunk),
                    chunk_queue: self.chunk_queue.drop_first(),
                    ..*self
                },
                self.current.unwrap().spec_start(self.channel, chunk),
            )
        } else {
            self.spec_advance_request(None)
        }
    }

    /// Taking a request in: it waits behind the others, and if nothing is in
    /// service the dispatcher goes on to it at once.
    pub open spec fn spec_submit(&self, request: Request) -> (DispatcherView, Seq<Effect>) {
        let queued = DispatcherView { queue: self.queue.push(request), ..*self };
        if self.current.is_none() {
            queued.spec_advance_request(None)
        } else {
            (queued, Seq::empty())
        }
    }

    /// Answering an interrupt, given the bus master's status and command
    /// registers. Unless the status shows an interrupt or an error nothing
    /// is done. Else the status is acknowledged by writing it back; then an
    /// error fails the request in service and the next one is taken up, and
    /// without an error the next hardware transfer begins if the bus master
    /// was started.
    pub open spec fn spec_on_interrupt(&self, status: u8, command: u8) -> (
        DispatcherView,
        Seq<Effect>,
    ) {
        if status & STS_INT != 0 || status & STS_ERR != 0 {
            let ack = seq![
                Effect::Port(
                    Op::Out8 { port: self.channel.spec_port(Reg::BusStatus) as u16, value: status },
                ),
            ];
            if status & STS_ERR != 0 && self.current.is_some() {
                let next = self.spec_advance_request(Some(IdeError::DmaError));
                (next.0, ack + next.1)
            } else if command & CMD_ACT != 0 {
                let next = self.spec_advance_chunk();
                (next.0, ack + next.1)
            } else {
                (*self, ack)
            }
        } else {
            (*self, Seq::empty())
        }
    }
}

impl View for Dispatcher {
    type V = DispatcherView;

    open spec fn view(&self) -> DispatcherView {
        DispatcherView {
            channel: self.channel,
            current: self.current,
            queue: self.queue@,
            current_chunk: self.current_chunk,
            chunk_queue: self.chunk_queue@,
        }
    }
}

impl Dispatcher {
    /// A dispatcher with nothing in service and nothing waiting.
    pub fn new(channel: IdeDisk) -> (d: Dispatcher)
        requires
            channel.wf(),
        ensures
            d@ == DispatcherView::idle(channel),
            d@.wf(),
    {
        Dispatcher {
            channel,
            current: None,
            queue: VecDeque::new(),
            current_chunk: None,
            chunk_queue: VecDeque::new(),
        }
    }

    /// Whether nothing is in service.
    pub fn is_idle(&self) -> (r: bool)
        ensures
            r == self@.current.is_none(),
    {
        self.current.is_none()
    }

    fn start_chunk(&self, request: &Request, chunk: DmaChunk, effects: &mut Vec<Effect>)
        requires
            self.channel.wf(),
        ensures
            final(effects)@ == old(effects)@ + request.spec_start(self.channel, chunk),
    {
        effects.push(Effect::Settle);
        let drive = IdeDisk { master: request.master, ..self.channel };
        let mut ops = drive.ata(
            if chunk.write { ATA_CMD_WRITE_DMA_EXT } else { ATA_CMD_READ_DMA_EXT },
            chunk.lba,
            chunk.sectors,
        );
        ops.push(Op::Flag8 { port: self.channel.port(Reg::BusCommand), mask: CMD_ACT, set: true });
        push_ports(effects, &ops);
        assert(effects@ =~= old(effects)@ + request.spec_start(self.channel, chunk));
    }

    fn setup(&self, request: &Request, effects: &mut Vec<Effect>)
        requires
            self.channel.wf(),
            request.spec_check().is_none(),
        ensures
            final(effects)@ == old(effects)@ + request.spec_setup(self.channel),
    {
        let sectors: u64 = request.extent.sectors();
        let mut ops: Vec<Op> = Vec::new();
        match build_table(request.buf, sectors * 512) {
            Ok(table) => {
                let mut i: usize = 0;
                while i < table.len()
                    invariant
                        i <= table.len(),
                        ops@.len() == i,
                        forall|j: int|
                            0 <= j < i ==> ops@[j] == (Op::Store {
                                index: j as usize,
                                entry: table@[j],
                            }),
                    decreases table.len() - i,
                {
                    ops.push(Op::Store { index: i, entry: table[i] });
                    i = i + 1;
                }
                assert(ops@ =~= spec_store_ops(request.spec_request_table()));
            },
            Err(_) => {},
        }
        ops.push(Op::Out32 { port: self.channel.port(Reg::PrdtAddress), value: self.channel.table });
        ops.push(
            Op::Flag8 { port: self.channel.port(Reg::BusCommand), mask: CMD_DIR, set: !request.write },
        );
        push_ports(effects, &ops);
        assert(effects@ =~= old(effects)@ + request.spec_setup(self.channel));
    }

    fn start_next(&mut self, effects: &mut Vec<Effect>)
        requires
            old(self).channel.wf(),
        ensures
            final(self)@ == DispatcherView::spec_start_next(old(self).channel, old(self).queue@).0,
            final(effects)@ == old(effects)@ + DispatcherView::spec_start_next(
                old(self).channel,
                old(self).queue@,
            ).1,
            final(self)@.wf(),
        decreases old(self).queue@.len(),
    {
        match self.queue.pop_front() {
            None => {
                self.current = None;
                self.current_chunk = None;
                self.chunk_queue = VecDeque::new();
                assert(self.queue@ =~= Seq::<Request>::empty());
                assert(self.chunk_queue@ =~= Seq::<DmaChunk>::empty());
                assert(effects@ =~= old(effects)@ + Seq::<Effect>::empty());
            },
            Some(r) => {
                assert(self.queue@ =~= old(self).queue@.drop_first());
                match r.check() {
                    Some(error) => {
                        effects.push(Effect::Fail { id: r.id, error });
                        self.start_next(effects);
                        proof {
                            let rest = DispatcherView::spec_start_next(
                                old(self).channel,
                                old(self).queue@.drop_first(),
                            );
                            assert(effects@ =~= old(effects)@ + (seq![
                                Effect::Fail { id: r.id, error },
                            ] + rest.1));
                        }
                    },
                    None => {
                        let mut chunks = r.chunks();
                        let first = chunks.pop_front();
                        self.setup(&r, effects);
                        match first {
                            Some(c) => {
                                self.start_chunk(&r, c, effects);
                                self.current_chunk = Some(c);
                            },
                            None => {},
                        }
                        self.current = Some(r);
                        self.chunk_queue = chunks;
                        proof {
                            assert(self.chunk_queue@ =~= r.spec_chunks().drop_first());
                            assert(self.chunk_queue@ =~= r.spec_chunks().subrange(
                                1,
                                r.spec_chunks().len() as int,
                            ));
                            assert(effects@ =~= old(effects)@ + (r.spec_setup(self.channel)
                                + r.spec_start(self.channel, r.spec_chunks()[0])));
                        }
                    },
                }
            },
        }
    }

    fn finish_and_next(&mut self, error: Option<IdeError>) -> (effects: Vec<Effect>)
        requires
            old(self).channel.wf(),
        ensures
            (final(self)@, effects@) == old(self)@.spec_advance_request(error),
            final(self)@.wf(),
    {
        let mut effects: Vec<Effect> = Vec::new();
        let mut stop: Vec<Op> = Vec::new();
        stop.push(Op::Flag8 { port: self.channel.port(Reg::BusCommand), mask: CMD_ACT, set: false });
        stop.push(Op::Out32 { port: self.channel.port(Reg::PrdtAddress), value: 0 });
        assert(stop@ =~= spec_stop_ops(self.channel));
        push_ports(&mut effects, &stop);
        match self.current {
            None => {},
            Some(r) => match error {
                None => effects.push(Effect::Complete { id: r.id }),
                Some(error) => effects.push(Effect::Fail { id: r.id, error }),
            },
        }
        let ghost before = effects@;
        assert(before =~= spec_ports(spec_stop_ops(self.channel)) + DispatcherView::spec_settle(
            self.current,
            error,
        ));
        self.start_next(&mut effects);
        assert(effects@ =~= old(self)@.spec_advance_request(error).1);
        effects
    }

    /// Goes on to the next request: stops the bus master, signals the
    /// request that was in service as complete, and takes up the first
    /// waiting request that can be served.
    pub fn advance_request(&mut self) -> (effects: Vec<Effect>)
        requires
            old(self)@.wf(),
        ensures
            (final(self)@, effects@) == old(self)@.spec_advance_request(None),
            final(self)@.wf(),
    {
        self.finish_and_next(None)
    }

    /// Goes on to the next hardware transfer of the request in service, or,
    /// if none is left, to the next request.
    pub fn advance_chunk(&mut self) -> (effects: Vec<Effect>)
        requires
            old(self)@.wf(),
        ensures
            (final(self)@, effects@) == old(self)@.spec_advance_chunk(),
            final(self)@.wf(),
    {
        match self.current {
            Some(r) => {
                if self.chunk_queue.len() > 0 {
                    let mut effects: Vec<Effect> = Vec::new();
                    match self.chunk_queue.pop_front() {
                        Some(c) => {
                            self.start_chunk(&r, c, &mut effects);
                            self.current_chunk = Some(c);
                            proof {
                                assert(self.chunk_queue@ =~= old(self).chunk_queue@.drop_first());
                                assert(effects@ =~= r.spec_start(self.channel, c));
                                let chunks = r.spec_chunks();
                                let k = chunks.len() - 1 - self.chunk_queue@.len();
                                assert(old(self).chunk_queue@[0] == chunks[k]);
                                assert(self.chunk_queue@ =~= chunks.subrange(
                                    k + 1,
                                    chunks.len() as int,
                                ));
                            }
                        },
                        None => {},
                    }
                    effects
                } else {
                    self.finish_and_next(None)
                }
            },
            None => self.finish_and_next(None),
        }
    }

    /// Takes a request in. It is served at once if nothing is in service,
    /// and waits its turn otherwise.
    pub fn submit(&mut self, request: Request) -> (effects: Vec<Effect>)
        requires
            old(self)@.wf(),
        ensures
            (final(self)@, effects@) == old(self)@.spec_submit(request),
            final(self)@.wf(),
    {
        self.queue.push_back(request);
        if self.current.is_none() {
            self.finish_and_next(None)
        } else {
            Vec::new()
        }
    }

    /// Answers the channel's interrupt, given what the bus master's status
    /// and command registers hold.
    pub fn on_interrupt(&mut self, status: u8, command: u8) -> (effects: Vec<Effect>)
        requires
            old(self)@.wf(),
        ensures
            (final(self)@, effects@) == old(self)@.spec_on_interrupt(status, command),
            final(self)@.wf(),
    {
        let mut effects: Vec<Effect> = Vec::new();
        if status & STS_INT != 0 || status & STS_ERR != 0 {
            effects.push(
                Effect::Port(Op::Out8 { port: self.channel.port(Reg::BusStatus), value: status }),
            );
            let ghost ack = effects@;
            if status & STS_ERR != 0 && self.current.is_some() {
                let mut more = self.finish_and_next(Some(IdeError::DmaError));
                effects.append(&mut more);
                assert(effects@ =~= ack + old(self)@.spec_advance_request(
                    Some(IdeError::DmaError),
                ).1);
            } else if command & CMD_ACT != 0 {
                let mut more = self.advance_chunk();
                effects.append(&mut more);
                assert(effects@ =~= ack + old(self)@.spec_advance_chunk().1);
            }
        }
        effects
    }
}

/// The requests that a list of effects signals as complete or failed, by
/// their ids and in the order of the signals.
pub open spec fn spec_signalled(effects: Seq<Effect>) -> Seq<u64>
    decreases effects.len(),
{
    if effects.len() == 0 {
        Seq::empty()
    } else {
        let before = spec_signalled(effects.drop_last());
        match effects.last() {
            Effect::Complete { id } => before.push(id),
            Effect::Fail { id, .. } => before.push(id),
            _ => before,
        }
    }
}

/// The ids of a run of requests.
pub open spec fn spec_ids(requests: Seq<Request>) -> Seq<u64> {
    Seq::new(requests.len(), |i: int| requests[i].id)
}

proof fn signalled_of_concat(a: Seq<Effect>, b: Seq<Effect>)
    ensures
        spec_signalled(a + b) == spec_signalled(a) + spec_signalled(b),
    decreases b.len(),
{
    if b.len() == 0 {
        assert(a + b =~= a);
        assert(spec_signalled(a) + spec_signalled(b) =~= spec_signalled(a));
    } else {
        assert((a + b).drop_last() =~= a + b.drop_last());
        assert((a + b).last() == b.last());
        signalled_of_concat(a, b.drop_last());
        assert(spec_signalled(a + b) =~= spec_signalled(a) + spec_signalled(b));
    }
}

proof fn signalled_of_ports(ops: Seq<Op>)
    ensures
        spec_signalled(spec_ports(ops)) == Seq::<u64>::empty(),
    decreases ops.len(),
{
    if ops.len() > 0 {
        assert(spec_ports(ops).drop_last() =~= spec_ports(ops.drop_last()));
        signalled_of_ports(ops.drop_last());
    }
}

proof fn signalled_of_one(e: Effect)
    ensures
        spec_signalled(seq![e]) == (match e {
            Effect::Complete { id } => seq![id],
            Effect::Fail { id, .. } => seq![id],
            _ => Seq::<u64>::empty(),
        }),
{
    assert(seq![e].drop_last() =~= Seq::<Effect>::empty());
    assert(spec_signalled(seq![e].drop_last()) =~= Seq::<u64>::empty());
    assert(seq![e].last() == e);
    match e {
        Effect::Complete { id } => {
            assert(Seq::<u64>::empty().push(id) =~= seq![id]);
        },
        Effect::Fail { id, .. } => {
            assert(Seq::<u64>::empty().push(id) =~= seq![id]);
        },
        _ => {},
    }
}

proof fn signalled_of_start(channel: IdeDisk, r: Request)
    ensures
        spec_signalled(r.spec_setup(channel) + r.spec_start(channel, r.spec_chunks()[0]))
            == Seq::<u64>::empty(),
        forall|c: DmaChunk| spec_signalled(#[trigger] r.spec_start(channel, c)) == Seq::<u64>::empty(),
{
    assert forall|c: DmaChunk| spec_signalled(#[trigger] r.spec_start(channel, c)) == Seq::<
        u64,
    >::empty() by {
        let ops = r.spec_drive(channel).spec_ata(c.spec_command(), c.lba, c.sectors).push(
            spec_start_op(channel),
        );
        signalled_of_one(Effect::Settle);
        signalled_of_ports(ops);
        signalled_of_concat(seq![Effect::Settle], spec_ports(ops));
        assert(spec_signalled(r.spec_start(channel, c)) =~= Seq::<u64>::empty());
    }
    let setup_ops = spec_store_ops(r.spec_request_table()) + seq![
        Op::Out32 { port: channel.spec_port(Reg::PrdtAddress) as u16, value: channel.table },
        Op::Flag8 { port: channel.spec_port(Reg::BusCommand) as u16, mask: CMD_DIR, set: !r.write },
    ];
    signalled_of_ports(setup_ops);
    signalled_of_concat(r.spec_setup(channel), r.spec_start(channel, r.spec_chunks()[0]));
    assert(spec_signalled(r.spec_setup(channel) + r.spec_start(channel, r.spec_chunks()[0]))
        =~= Seq::<u64>::empty());
}

proof fn start_next_in_order(channel: IdeDisk, queue: Seq<Request>)
    ensures
        ({
            let next = DispatcherView::spec_start_next(channel, queue);
            spec_signalled(next.1) + spec_ids(next.0.pending()) == spec_ids(queue)
        }),
    decreases queue.len(),
{
    let next = DispatcherView::spec_start_next(channel, queue);
    if queue.len() == 0 {
        assert(spec_signalled(next.1) + spec_ids(next.0.pending()) =~= spec_ids(queue));
    } else {
        let r = queue[0];
        match r.spec_check() {
            Some(error) => {
                let rest = DispatcherView::spec_start_next(channel, queue.drop_first());
                start_next_in_order(channel, queue.drop_first());
                let fail = Effect::Fail { id: r.id, error };
                signalled_of_one(fail);
                signalled_of_concat(seq![fail], rest.1);
                assert(spec_ids(queue) =~= seq![r.id] + spec_ids(queue.drop_first()));
                assert(spec_signalled(next.1) + spec_ids(next.0.pending()) =~= seq![r.id] + (
                spec_signalled(rest.1) + spec_ids(rest.0.pending())));
            },
            None => {
                signalled_of_start(channel, r);
                assert(next.0.pending() =~= queue);
                assert(spec_signalled(next.1) + spec_ids(next.0.pending()) =~= spec_ids(queue));
            },
        }
    }
}

/// Going on to the next request signals requests in the order in which they
/// came and loses none: the requests signalled, followed by those still in
/// service or waiting, are those that were in service or waiting before.
pub proof fn advance_request_in_order(d: DispatcherView, error: Option<IdeError>)
    ensures
        ({
            let next = d.spec_advance_request(error);
            spec_signalled(next.1) + spec_ids(next.0.pending()) == spec_ids(d.pending())
        }),
{
    let next = d.spec_advance_request(error);
    let started = DispatcherView::spec_start_next(d.channel, d.queue);
    let stop = spec_ports(spec_stop_ops(d.channel));
    let settle = DispatcherView::spec_settle(d.current, error);
    start_next_in_order(d.channel, d.queue);
    signalled_of_ports(spec_stop_ops(d.channel));
    signalled_of_concat(stop, settle);
    signalled_of_concat(stop + settle, started.1);
    match d.current {
        None => {
            assert(spec_signalled(settle) =~= Seq::<u64>::empty());
            assert(spec_signalled(next.1) + spec_ids(next.0.pending()) =~= spec_ids(
                d.pending(),
            ));
        },
        Some(r) => {
            match error {
                None => signalled_of_one(Effect::Complete { id: r.id }),
                Some(e) => signalled_of_one(Effect::Fail { id: r.id, error: e }),
            }
            assert(spec_ids(d.pending()) =~= seq![r.id] + spec_ids(d.queue));
            assert(spec_signalled(next.1) + spec_ids(next.0.pending()) =~= seq![r.id] + (
            spec_signalled(started.1) + spec_ids(started.0.pending())));
        },
    }
}

/// Going on to the next hardware transfer signals requests in the order in
/// which they came and loses none.
pub proof fn advance_chunk_in_order(d: DispatcherView)
    ensures
        ({
            let next = d.spec_advance_chunk();
            spec_signalled(next.1) + spec_ids(next.0.pending()) == spec_ids(d.pending())
        }),
{
    let next = d.spec_advance_chunk();
    if d.current.is_some() && d.chunk_queue.len() > 0 {
        signalled_of_start(d.channel, d.current.unwrap());
        assert(spec_signalled(next.1) + spec_ids(next.0.pending()) =~= spec_ids(d.pending()));
    } else {
        advance_request_in_order(d, None);
    }
}

/// A request that is taken in is never dropped, and requests are signalled
/// in the order in which they came: the requests that a submission signals,
/// followed by those then in service or waiting, are those that were in
/// service or waiting before, followed by the new one.
pub proof fn submit_in_order(d: DispatcherView, request: Request)
    ensures
        ({
            let next = d.spec_submit(request);
            spec_signalled(next.1) + spec_ids(next.0.pending()) == spec_ids(d.pending()).push(
                request.id,
            )
        }),
{
    let next = d.spec_submit(request);
    let queued = DispatcherView { queue: d.queue.push(request), ..d };
    assert(spec_ids(queued.pending()) =~= spec_ids(d.pending()).push(request.id));
    if d.current.is_none() {
        advance_request_in_order(queued, None);
    } else {
        assert(spec_signalled(next.1) + spec_ids(next.0.pending()) =~= spec_ids(
            queued.pending(),
        ));
    }
}

/// Answering an interrupt signals requests in the order in which they came
/// and loses none.
pub proof fn interrupt_in_order(d: DispatcherView, status: u8, command: u8)
    ensures
        ({
            let next = d.spec_on_interrupt(status, command);
            spec_signalled(next.1) + spec_ids(next.0.pending()) == spec_ids(d.pending())
        }),
{
    let next = d.spec_on_interrupt(status, command);
    if status & STS_INT != 0 || status & STS_ERR != 0 {
        let ack = seq![
            Effect::Port(
                Op::Out8 { port: d.channel.spec_port(Reg::BusStatus) as u16, value: status },
            ),
        ];
        signalled_of_one(ack[0]);
        if status & STS_ERR != 0 && d.current.is_some() {
            let inner = d.spec_advance_request(Some(IdeError::DmaError));
            advance_request_in_order(d, Some(IdeError::DmaError));
            signalled_of_concat(ack, inner.1);
            assert(spec_signalled(next.1) =~= spec_signalled(inner.1));
        } else if command & CMD_ACT != 0 {
            let inner = d.spec_advance_chunk();
            advance_chunk_in_order(d);
            signalled_of_concat(ack, inner.1);
            assert(spec_signalled(next.1) =~= spec_signalled(inner.1));
        } else {
            assert(spec_signalled(next.1) + spec_ids(next.0.pending()) =~= spec_ids(
                d.pending(),
            ));
        }
    } else {
        assert(spec_signalled(next.1) + spec_ids(next.0.pending()) =~= spec_ids(d.pending()));
    }
}

/// The hardware transfers of a request that can be served follow one another
/// without gap in ascending order, each but the last moves 128 sectors, none
/// is empty, and together they move every sector of the request.
pub proof fn chunks_cover_request(r: Request)
    requires
        r.spec_check().is_none(),
    ensures
        r.spec_chunks().len() > 0,
        forall|i: int|
            0 <= i < r.spec_chunks().len() ==> {
                let c = #[trigger] r.spec_chunks()[i];
                &&& c.lba == r.extent.block + 128 * i
                &&& c.write == r.write
                &&& 0 < c.sectors <= 128
                &&& i + 1 < r.spec_chunks().len() ==> c.sectors == 128
            },
        128 * (r.spec_chunks().len() - 1) + r.spec_chunks().last().sectors == r.spec_sectors(),
        r.spec_request_table().len() == r.spec_chunks().len(),
{
}

/// While a request has hardware transfers left, going on starts the one
/// that follows the transfer under way, 128 sectors further on the disk, and
/// signals nothing: a request is signalled only when all its transfers are
/// over.
pub proof fn chunks_follow_one_another(d: DispatcherView)
    requires
        d.wf(),
        d.current.is_some(),
        d.chunk_queue.len() > 0,
    ensures
        ({
            let next = d.spec_advance_chunk();
            &&& next.0.wf()
            &&& next.0.current == d.current
            &&& next.0.queue == d.queue
            &&& next.0.current_chunk.is_some()
            &&& next.0.current_chunk.unwrap().lba == d.current_chunk.unwrap().lba + 128
            &&& next.0.chunk_queue.len() == d.chunk_queue.len() - 1
            &&& spec_signalled(next.1) == Seq::<u64>::empty()
        }),
{
    let r = d.current.unwrap();
    let next = d.spec_advance_chunk();
    let chunks = r.spec_chunks();
    let k = chunks.len() - 1 - d.chunk_queue.len();
    chunks_cover_request(r);
    signalled_of_start(d.channel, r);
    assert(d.chunk_queue[0] == chunks[k + 1]);
    assert(next.0.chunk_queue =~= chunks.subrange(k + 2, chunks.len() as int));
}

/// Whether every access among the effects is one that the driver may make
/// on the channel.
pub open spec fn spec_effects_allowed(channel: IdeDisk, effects: Seq<Effect>) -> bool {
    forall|i: int|
        0 <= i < effects.len() ==> match #[trigger] effects[i] {
            Effect::Port(op) => channel.spec_allows(op),
            _ => true,
        }
}

proof fn start_allowed(channel: IdeDisk, r: Request, c: DmaChunk)
    requires
        channel.wf(),
    ensures
        spec_effects_allowed(channel, r.spec_start(channel, c)),
{
    let ata = r.spec_drive(channel).spec_ata(c.spec_command(), c.lba, c.sectors);
    let effects = r.spec_start(channel, c);
    assert(ata.len() == 14);
    assert forall|i: int| 0 <= i < effects.len() implies match #[trigger] effects[i] {
        Effect::Port(op) => channel.spec_allows(op),
        _ => true,
    } by {
        if 1 <= i && i < 15 {
            assert(effects[i] == Effect::Port(ata[i - 1]));
        }
    }
}

proof fn setup_allowed(channel: IdeDisk, r: Request)
    requires
        channel.wf(),
        r.spec_check().is_none(),
    ensures
        spec_effects_allowed(channel, r.spec_setup(channel)),
{
    let table = r.spec_request_table();
    let stores = spec_store_ops(table);
    let effects = r.spec_setup(channel);
    assert(table.len() <= 8192);
    assert forall|i: int| 0 <= i < effects.len() implies match #[trigger] effects[i] {
        Effect::Port(op) => channel.spec_allows(op),
        _ => true,
    } by {
        if i < stores.len() {
            assert(effects[i] == Effect::Port(stores[i]));
        }
    }
}

proof fn start_next_allowed(channel: IdeDisk, queue: Seq<Request>)
    requires
        channel.wf(),
    ensures
        spec_effects_allowed(channel, DispatcherView::spec_start_next(channel, queue).1),
    decreases queue.len(),
{
    if queue.len() > 0 {
        let r = queue[0];
        match r.spec_check() {
            Some(error) => {
                start_next_allowed(channel, queue.drop_first());
            },
            None => {
                setup_allowed(channel, r);
                start_allowed(channel, r, r.spec_chunks()[0]);
            },
        }
    }
}

/// Whatever the dispatcher asks for, it touches only registers of its
/// channel that the driver may touch, each in the way it may, and stores
/// descriptors only inside the table.
pub proof fn dispatcher_respects_registers(
    d: DispatcherView,
    request: Request,
    status: u8,
    command: u8,
)
    requires
        d.wf(),
    ensures
        spec_effects_allowed(d.channel, d.spec_submit(request).1),
        spec_effects_allowed(d.channel, d.spec_advance_request(None).1),
        spec_effects_allowed(d.channel, d.spec_advance_chunk().1),
        spec_effects_allowed(d.channel, d.spec_on_interrupt(status, command).1),
{
    start_next_allowed(d.channel, d.queue);
    start_next_allowed(d.channel, d.queue.push(request));
    if d.current.is_some() && d.chunk_queue.len() > 0 {
        start_allowed(d.channel, d.current.unwrap(), d.chunk_queue[0]);
    }
}

} // verus!
