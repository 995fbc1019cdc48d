use ide_disk::disk::{Ide, IdeDisk, Op, Reg};
use ide_disk::dispatch::{Dispatcher, DmaChunk, Effect, Request};
use ide_disk::error::IdeError;
use ide_disk::extent::Extent;
use ide_disk::identify::IdentifyInfo;
use ide_disk::prd::Prd;
use ide_disk::session::{Action, Kind, Phase, Session};
use ide_disk::status::{flag_set, is_busy, with_flag};

const MEM_BASE: usize = 0x0010_0000;
const TABLE: u32 = 0x0008_0000;

/// A drive and its controller, as far as the driver can tell them from real
/// ones.
struct Sim {
    ports: IdeDisk,
    present: bool,
    floating: bool,
    blocks: Vec<[u8; 512]>,
    mem: Vec<u8>,
    table: Vec<Prd>,
    count: [u8; 2],
    lba: [[u8; 2]; 3],
    status: u8,
    busy_reads: u32,
    busy_after_command: u32,
    forced_status: Option<u8>,
    pio_lba: u64,
    pio_left: u32,
    dma: Option<(u64, u32, bool)>,
    dma_error: bool,
    bm_command: u8,
    bm_status: u8,
    prdt_reg: u32,
    cursor: usize,
    prdt_loads: Vec<u32>,
    commands: Vec<(u8, u8, u64, u32)>,
    trace: Vec<String>,
    identify: [u16; 256],
}

impl Sim {
    fn new(ports: IdeDisk, blocks: usize, mem: usize) -> Sim {
        let mut content = vec![[0u8; 512]; blocks];
        for (n, block) in content.iter_mut().enumerate() {
            for (i, b) in block.iter_mut().enumerate() {
                *b = (n * 31 + i * 7 + 3) as u8;
            }
        }
        let mut identify = [0u16; 256];
        identify[60] = blocks as u16;
        identify[61] = (blocks >> 16) as u16;
        Sim {
            ports,
            present: true,
            floating: false,
            blocks: content,
            mem: vec![0u8; mem],
            table: vec![Prd { addr: 0, size: 0, rsv: 0, eot: 0 }; 8192],
            count: [0; 2],
            lba: [[0; 2]; 3],
            status: 0x40,
            busy_reads: 0,
            busy_after_command: 0,
            forced_status: None,
            pio_lba: 0,
            pio_left: 0,
            dma: None,
            dma_error: false,
            bm_command: 0,
            bm_status: 0,
            prdt_reg: 0,
            cursor: 0,
            prdt_loads: Vec::new(),
            commands: Vec::new(),
            trace: Vec::new(),
            identify,
        }
    }

    fn latched(&self) -> (u64, u32) {
        let lba = (self.lba[0][0] as u64)
            | (self.lba[1][0] as u64) << 8
            | (self.lba[2][0] as u64) << 16
            | (self.lba[0][1] as u64) << 24
            | (self.lba[1][1] as u64) << 32
            | (self.lba[2][1] as u64) << 40;
        let count = (self.count[0] as u32) | (self.count[1] as u32) << 8;
        (lba, if count == 0 { 65536 } else { count })
    }

    fn in8(&mut self, port: u16) -> u8 {
        if port == self.ports.port(Reg::AltStatus) || port == self.ports.port(Reg::Status) {
            if self.floating {
                return 0xFF;
            }
            if !self.present {
                return 0;
            }
            if self.busy_reads > 0 {
                self.busy_reads -= 1;
                return 0x80;
            }
            if let Some(s) = self.forced_status {
                return s;
            }
            self.status
        } else if port == self.ports.port(Reg::BusStatus) {
            self.bm_status
        } else if port == self.ports.port(Reg::BusCommand) {
            self.bm_command
        } else {
            0
        }
    }

    fn out8(&mut self, port: u16, value: u8) {
        if port == self.ports.port(Reg::SectorCount) {
            self.count = [value, self.count[0]];
        } else if port == self.ports.port(Reg::Lba0) {
            self.lba[0] = [value, self.lba[0][0]];
        } else if port == self.ports.port(Reg::Lba1) {
            self.lba[1] = [value, self.lba[1][0]];
        } else if port == self.ports.port(Reg::Lba2) {
            self.lba[2] = [value, self.lba[2][0]];
        } else if port == self.ports.port(Reg::DeviceSelect) {
            self.trace.push(format!("select {:02X}", value));
        } else if port == self.ports.port(Reg::Command) {
            self.command(value);
        } else if port == self.ports.port(Reg::BusStatus) {
            self.trace.push(format!("ack {:02X}", value));
            self.bm_status &= !(value & 0x06);
        } else if port == self.ports.port(Reg::BusCommand) {
            self.set_bus_command(value);
        }
    }

    fn command(&mut self, value: u8) {
        let (lba, count) = self.latched();
        self.busy_reads = self.busy_after_command;
        match value {
            0xEA => {
                self.trace.push("flush".to_string());
            }
            0xEC => {
                self.trace.push("identify".to_string());
                self.status = 0x48;
            }
            0x24 | 0x34 => {
                self.commands.push((value, 0, lba, count));
                self.trace.push(format!("pio {:02X} {} {}", value, lba, count));
                self.pio_lba = lba;
                self.pio_left = count;
                self.status = 0x48;
            }
            0x25 | 0x35 => {
                self.commands.push((value, 0, lba, count));
                self.trace.push(format!("dma {:02X} {} {}", value, lba, count));
                self.dma = Some((lba, count, value == 0x35));
                self.transfer();
            }
            other => panic!("command {:02X} is not one the driver knows", other),
        }
    }

    fn set_bus_command(&mut self, value: u8) {
        let started = value & 0x01 != 0 && self.bm_command & 0x01 == 0;
        self.bm_command = value;
        if started {
            self.trace.push("start".to_string());
            self.cursor = 0;
            assert!(self.dma.is_some(), "bus master started without a command");
        }
        self.transfer();
    }

    /// Moves the data of a pending command if the bus master runs: it goes
    /// on in the table where the last command of this run stopped.
    fn transfer(&mut self) {
        if self.bm_command & 0x01 == 0 || self.dma.is_none() {
            return;
        }
        let (lba, count, write) = self.dma.take().unwrap();
        assert_eq!(self.prdt_reg, TABLE, "bus master runs without its table");
        assert_eq!(self.bm_command & 0x08 != 0, !write, "direction does not match the command");
        if self.dma_error {
            self.dma_error = false;
            self.bm_status = 0x02;
            return;
        }
        let mut left = count as usize * 512;
        let mut at = lba as usize * 512;
        while left > 0 {
            let entry = self.table[self.cursor];
            let len = entry.len() as usize;
            assert!(len <= left, "a descriptor reaches beyond the transfer");
            let mem = entry.addr as usize - MEM_BASE;
            for i in 0..len {
                let (block, offset) = ((at + i) / 512, (at + i) % 512);
                if write {
                    self.blocks[block][offset] = self.mem[mem + i];
                } else {
                    self.mem[mem + i] = self.blocks[block][offset];
                }
            }
            left -= len;
            at += len;
            self.cursor += 1;
            if entry.is_last() {
                break;
            }
        }
        assert_eq!(left, 0, "the table is shorter than the transfer");
        self.bm_status = 0x04;
    }

    fn run(&mut self, op: Op) {
        match op {
            Op::Out8 { port, value } => self.out8(port, value),
            Op::Out32 { port, value } => {
                assert_eq!(port, self.ports.port(Reg::PrdtAddress));
                self.prdt_reg = value;
                self.prdt_loads.push(value);
            }
            Op::In8 { port } => {
                assert_eq!(port, self.ports.port(Reg::AltStatus));
                self.trace.push("settle".to_string());
            }
            Op::Flag8 { port, mask, set } => {
                let old = self.in8(port);
                self.out8(port, with_flag(old, mask, set));
            }
            Op::Store { index, entry } => self.table[index] = entry,
        }
    }

    fn move_sector(&mut self, addr: usize, write: bool) {
        assert!(self.pio_left > 0, "no sector is due");
        let mem = addr - MEM_BASE;
        let block = self.pio_lba as usize;
        if write {
            self.blocks[block].copy_from_slice(&self.mem[mem..mem + 512]);
        } else {
            self.mem[mem..mem + 512].copy_from_slice(&self.blocks[block]);
        }
        self.trace.push(format!("sector {}", block));
        self.pio_lba += 1;
        self.pio_left -= 1;
        self.status = if self.pio_left > 0 { 0x48 } else { 0x40 };
    }

    /// Carries a session out and says how it ended.
    fn drive(&mut self, mut session: Session) -> Action {
        let mut input = 0u8;
        for _ in 0..10_000_000 {
            assert!(!session.finished());
            match session.step(input) {
                Action::Run(ops) => {
                    for op in ops {
                        self.run(op);
                    }
                }
                Action::Read { port } => input = self.in8(port),
                Action::ReadSector { port, addr } => {
                    assert_eq!(port, self.ports.port(Reg::Data));
                    self.move_sector(addr, false);
                }
                Action::WriteSector { port, addr } => {
                    assert_eq!(port, self.ports.port(Reg::Data));
                    self.move_sector(addr, true);
                }
                end => {
                    assert!(session.finished());
                    return end;
                }
            }
        }
        panic!("the session does not end");
    }

    /// Carries out what a dispatcher asks for and notes the signals.
    fn apply(&mut self, effects: Vec<Effect>, signals: &mut Vec<(u64, Option<IdeError>)>) {
        for effect in effects {
            match effect {
                Effect::Port(op) => self.run(op),
                Effect::Settle => {
                    let alt = self.ports.port(Reg::AltStatus);
                    while is_busy(self.in8(alt)) {}
                }
                Effect::Complete { id } => {
                    self.trace.push(format!("complete {}", id));
                    signals.push((id, None));
                }
                Effect::Fail { id, error } => {
                    self.trace.push(format!("fail {}", id));
                    signals.push((id, Some(error)));
                }
            }
        }
    }

    /// Answers interrupts until the bus master has none pending.
    fn serve(&mut self, d: &mut Dispatcher, signals: &mut Vec<(u64, Option<IdeError>)>) {
        for _ in 0..100_000 {
            let status = self.bm_status;
            if status & 0x06 == 0 {
                return;
            }
            let command = self.bm_command;
            let effects = d.on_interrupt(status, command);
            self.apply(effects, signals);
        }
        panic!("interrupts never stop");
    }
}

fn primary_master() -> IdeDisk {
    IdeDisk::new(0xC000, 0x1F0, 0x3F4, TABLE, 0x0E, true)
}

fn pattern(len: usize, seed: u8) -> Vec<u8> {
    (0..len).map(|i| (i as u8).wrapping_mul(13).wrapping_add(seed)).collect()
}

#[test]
fn read_one_sector_at_block_zero() {
    let disk = primary_master();
    let mut sim = Sim::new(disk, 16, 4096);
    let end = sim.drive(disk.read(0, MEM_BASE, 512).unwrap());
    assert_eq!(end, Action::Done(512));
    assert_eq!(&sim.mem[..512], &sim.blocks[0][..]);
    assert_eq!(sim.commands, vec![(0x24, 0, 0, 1)]);
    assert_eq!(
        sim.trace,
        vec!["select E0", "settle", "settle", "settle", "settle", "pio 24 0 1", "sector 0"]
    );
}

#[test]
fn read_steps_are_the_expected_accesses() {
    let disk = primary_master();
    let mut s = disk.ata_pio(7, 1, MEM_BASE, false).unwrap();
    assert_eq!(s.step(0), Action::Read { port: 0x3F6 });
    assert_eq!(s.step(0x80), Action::Read { port: 0x3F6 });
    assert_eq!(s.step(0x40), Action::Run(disk.ata(0x24, 7, 1)));
    assert_eq!(s.step(0), Action::Read { port: 0x3F6 });
    assert_eq!(s.step(0x80), Action::Read { port: 0x3F6 });
    assert_eq!(s.step(0x48), Action::Read { port: 0x1F7 });
    assert_eq!(s.step(0x48), Action::ReadSector { port: 0x1F0, addr: MEM_BASE });
    assert_eq!(s.step(0), Action::Done(512));
    assert!(s.finished());
    assert_eq!(s.step(0), Action::Failed(IdeError::BadRequest));
    assert!(s.finished());
}

#[test]
fn write_then_read_gives_the_data_back() {
    let disk = primary_master();
    let mut sim = Sim::new(disk, 64, 64 * 512);
    let data = pattern(5 * 512, 9);
    sim.mem[..5 * 512].copy_from_slice(&data);
    assert_eq!(sim.drive(disk.write(20, MEM_BASE, 5 * 512).unwrap()), Action::Done(5 * 512));
    for b in sim.mem.iter_mut() {
        *b = 0;
    }
    assert_eq!(sim.drive(disk.read(20, MEM_BASE + 512, 5 * 512).unwrap()), Action::Done(5 * 512));
    assert_eq!(&sim.mem[512..6 * 512], &data[..]);
}

#[test]
fn write_leaves_other_blocks_alone() {
    let disk = primary_master();
    let mut sim = Sim::new(disk, 64, 64 * 512);
    let before = sim.blocks.clone();
    let data = pattern(3 * 512, 77);
    sim.mem[..3 * 512].copy_from_slice(&data);
    assert_eq!(sim.drive(disk.write(10, MEM_BASE, 3 * 512).unwrap()), Action::Done(3 * 512));
    for n in 0..64 {
        if (10..13).contains(&n) {
            assert_eq!(&sim.blocks[n][..], &data[(n - 10) * 512..(n - 9) * 512]);
        } else {
            assert_eq!(sim.blocks[n], before[n]);
        }
    }
}

#[test]
fn transfer_of_1024_sectors_is_cut_in_five() {
    let disk = primary_master();
    let mut sim = Sim::new(disk, 2048, 1024 * 512);
    let b = 300u64;
    assert_eq!(sim.drive(disk.read(b, MEM_BASE, 1024 * 512).unwrap()), Action::Done(1024 * 512));
    assert_eq!(
        sim.commands,
        vec![
            (0x24, 0, b, 255),
            (0x24, 0, b + 255, 255),
            (0x24, 0, b + 510, 255),
            (0x24, 0, b + 765, 255),
            (0x24, 0, b + 1020, 4),
        ]
    );
    for n in 0..1024 {
        assert_eq!(&sim.mem[n * 512..(n + 1) * 512], &sim.blocks[b as usize + n][..]);
    }
}

#[test]
fn write_of_300_sectors_flushes_after_each_sector() {
    let disk = primary_master();
    let mut sim = Sim::new(disk, 512, 300 * 512);
    sim.busy_after_command = 2;
    let data = pattern(300 * 512, 1);
    sim.mem.copy_from_slice(&data);
    assert_eq!(sim.drive(disk.write(100, MEM_BASE, 300 * 512).unwrap()), Action::Done(300 * 512));
    assert_eq!(sim.commands, vec![(0x34, 0, 100, 255), (0x34, 0, 355, 45)]);
    let moved: Vec<&String> = sim.trace.iter().filter(|t| t.starts_with("sector")).collect();
    assert_eq!(moved.len(), 300);
    for (i, t) in sim.trace.iter().enumerate() {
        if t.starts_with("sector") {
            assert_eq!(sim.trace[i + 1], "flush");
        }
    }
    assert_eq!(sim.trace.iter().filter(|t| *t == "flush").count(), 300);
    for n in 0..300 {
        assert_eq!(&sim.blocks[100 + n][..], &data[n * 512..(n + 1) * 512]);
    }
}

#[test]
fn request_without_buffer_or_sectors_is_bad() {
    let disk = primary_master();
    assert_eq!(disk.ata_pio(0, 1, 0, false), Err(IdeError::BadRequest));
    assert_eq!(disk.ata_pio(0, 0, MEM_BASE, true), Err(IdeError::BadRequest));
    assert_eq!(disk.ata_dma(0, 0, MEM_BASE, false), Err(IdeError::BadRequest));
    assert_eq!(disk.ata_dma(0, 1, 0, true), Err(IdeError::BadRequest));
    assert_eq!(disk.read(0, MEM_BASE, 511), Err(IdeError::BadRequest));
    assert_eq!(disk.write(0, 0, 512), Err(IdeError::BadRequest));
    assert!(disk.read(0, MEM_BASE, 512).is_ok());
}

#[test]
fn new_session_has_moved_nothing() {
    let disk = primary_master();
    assert_eq!(
        disk.ata_dma(5, 9, MEM_BASE, true),
        Ok(Session {
            disk,
            kind: Kind::Dma,
            write: true,
            block: 5,
            sectors: 9,
            buf: MEM_BASE,
            done: 0,
            sector: 0,
            failed: false,
            phase: Phase::Begin,
        })
    );
    let s = disk.read(5, MEM_BASE, 1025).unwrap();
    assert_eq!((s.kind, s.write, s.sectors), (Kind::Pio, false, 2));
    assert_eq!(s.current().sectors, 2);
    assert_eq!(disk.identify().kind, Kind::Identify);
}

#[test]
fn poll_errors_end_the_transfer() {
    let disk = primary_master();
    for (status, error) in [
        (0x41u8, IdeError::DriveError),
        (0x60, IdeError::DeviceFault),
        (0x40, IdeError::ProtocolError),
        (0x61, IdeError::DriveError),
    ] {
        let mut sim = Sim::new(disk, 16, 4096);
        sim.forced_status = Some(status);
        let end = sim.drive(disk.read(3, MEM_BASE, 1024).unwrap());
        assert_eq!(end, Action::Failed(error));
        assert!(sim.trace.iter().all(|t| !t.starts_with("sector")));
    }
}

#[test]
fn busy_then_ready_is_fine() {
    let disk = primary_master();
    let mut sim = Sim::new(disk, 16, 4096);
    sim.busy_reads = 5;
    sim.busy_after_command = 3;
    assert_eq!(sim.drive(disk.read(3, MEM_BASE, 1024).unwrap()), Action::Done(1024));
    assert_eq!(&sim.mem[..512], &sim.blocks[3][..]);
    assert_eq!(&sim.mem[512..1024], &sim.blocks[4][..]);
}

#[test]
fn probe_finds_a_drive() {
    let disk = primary_master();
    let mut sim = Sim::new(disk, 16, 0);
    sim.identify[60] = 0x0000;
    sim.identify[61] = 0x0008;
    assert_eq!(sim.drive(disk.identify()), Action::ReadIdentify { port: 0x1F0 });
    assert_eq!(
        sim.trace,
        vec!["select E0", "settle", "settle", "settle", "settle", "identify"]
    );
    let info = IdentifyInfo::parse(&sim.identify);
    assert_eq!(info.sectors, 0x80000);
    assert_eq!(info.megabytes(), 256);
}

#[test]
fn probe_zeroes_count_and_address() {
    let disk = primary_master();
    let mut s = disk.identify();
    s.step(0);
    s.step(0x50);
    match s.step(0x50) {
        Action::Run(ops) => {
            assert_eq!(ops, disk.ata(0xEC, 0, 0));
            assert_eq!(ops[9], Op::Out8 { port: 0x1F2, value: 0 });
            assert_eq!(ops[10], Op::Out8 { port: 0x1F3, value: 0 });
            assert_eq!(ops[11], Op::Out8 { port: 0x1F4, value: 0 });
            assert_eq!(ops[12], Op::Out8 { port: 0x1F5, value: 0 });
        }
        other => panic!("expected the command, got {:?}", other),
    }
}

#[test]
fn floating_bus_is_no_device() {
    let disk = primary_master();
    let mut sim = Sim::new(disk, 16, 0);
    sim.floating = true;
    assert_eq!(sim.drive(disk.identify()), Action::Failed(IdeError::NoDevice));
    assert!(sim.trace.is_empty());
    assert!(sim.commands.is_empty());
}

#[test]
fn zero_status_after_identify_is_no_device() {
    let disk = primary_master();
    let mut s = disk.identify();
    assert_eq!(s.step(0), Action::Read { port: 0x3F6 });
    assert_eq!(s.step(0x00), Action::Read { port: 0x3F6 });
    assert_eq!(s.step(0x00), Action::Run(disk.ata(0xEC, 0, 0)));
    assert_eq!(s.step(0), Action::Read { port: 0x3F6 });
    assert_eq!(s.step(0x00), Action::Failed(IdeError::NoDevice));
    assert!(s.finished());
}

#[test]
fn probe_that_polls_an_error_fails() {
    let disk = primary_master();
    let mut sim = Sim::new(disk, 16, 0);
    sim.forced_status = Some(0x41);
    assert_eq!(sim.drive(disk.identify()), Action::Failed(IdeError::DriveError));
}

#[test]
fn enumerate_with_only_the_primary_master() {
    let candidates = Ide::candidates(0xC000, TABLE, TABLE + 0x10000);
    assert_eq!(candidates.len(), 4);
    let mut found = [false; 4];
    let mut probes = 0;
    for (i, disk) in candidates.iter().enumerate() {
        let mut sim = Sim::new(*disk, 16, 0);
        sim.floating = i != 0;
        found[i] = matches!(sim.drive(disk.identify()), Action::ReadIdentify { .. });
        probes += 1;
    }
    assert_eq!(probes, 4);
    assert_eq!(found, [true, false, false, false]);
    let disks = Ide::disks(0xC000, TABLE, TABLE + 0x10000, found);
    assert_eq!(disks.len(), 1);
    assert_eq!(disks[0].name(), "IDE Primary Master");
}

#[test]
fn dma_read_of_200_sectors() {
    let disk = primary_master();
    let mut sim = Sim::new(disk, 256, 200 * 512);
    let end = sim.drive(disk.ata_dma(10, 200, MEM_BASE, false).unwrap());
    assert_eq!(end, Action::Done(102_400));
    assert_eq!(sim.table[0], Prd { addr: MEM_BASE as u32, size: 0, rsv: 0, eot: 0 });
    assert_eq!(
        sim.table[1],
        Prd { addr: MEM_BASE as u32 + 65536, size: 36_864, rsv: 0, eot: 0x80 }
    );
    assert_eq!(sim.prdt_loads, vec![0, TABLE, 0]);
    assert_eq!(sim.commands, vec![(0x25, 0, 10, 200)]);
    for n in 0..200 {
        assert_eq!(&sim.mem[n * 512..(n + 1) * 512], &sim.blocks[10 + n][..]);
    }
    assert!(!flag_set(sim.bm_command, 0x01));
    assert_eq!(sim.bm_status & 0x06, 0);
}

#[test]
fn dma_write_then_read_gives_the_data_back() {
    let disk = primary_master();
    let mut sim = Sim::new(disk, 1024, 700 * 512);
    let data = pattern(700 * 512, 5);
    sim.mem.copy_from_slice(&data);
    assert_eq!(
        sim.drive(disk.ata_dma(50, 700, MEM_BASE, true).unwrap()),
        Action::Done(700 * 512)
    );
    assert_eq!(sim.commands, vec![(0x35, 0, 50, 255), (0x35, 0, 305, 255), (0x35, 0, 560, 190)]);
    for b in sim.mem.iter_mut() {
        *b = 0;
    }
    assert_eq!(
        sim.drive(disk.ata_dma(50, 700, MEM_BASE, false).unwrap()),
        Action::Done(700 * 512)
    );
    assert_eq!(sim.mem, data);
}

#[test]
fn dma_error_fails_the_transfer() {
    let disk = primary_master();
    let mut sim = Sim::new(disk, 64, 8 * 512);
    sim.dma_error = true;
    let end = sim.drive(disk.ata_dma(1, 8, MEM_BASE, false).unwrap());
    assert_eq!(end, Action::Failed(IdeError::DmaError));
    assert!(!flag_set(sim.bm_command, 0x01));
    assert_eq!(sim.bm_status & 0x06, 0);
    assert_eq!(sim.trace.last().unwrap(), "ack 02");
    assert_eq!(sim.drive(disk.ata_dma(1, 8, MEM_BASE, false).unwrap()), Action::Done(4096));
}

#[test]
fn dma_steps_are_the_expected_accesses() {
    let disk = primary_master();
    let mut s = disk.ata_dma(9, 2, MEM_BASE, false).unwrap();
    let stop = vec![
        Op::Flag8 { port: 0xC000, mask: 0x01, set: false },
        Op::Out32 { port: 0xC004, value: 0 },
    ];
    assert_eq!(s.step(0), Action::Run(stop.clone()));
    assert_eq!(s.step(0), Action::Read { port: 0xC002 });
    assert_eq!(
        s.step(0x06),
        Action::Run(vec![
            Op::Out8 { port: 0xC002, value: 0x06 },
            Op::Store { index: 0, entry: Prd { addr: MEM_BASE as u32, size: 1024, rsv: 0, eot: 0x80 } },
            Op::Out32 { port: 0xC004, value: TABLE },
            Op::Flag8 { port: 0xC000, mask: 0x08, set: true },
        ])
    );
    assert_eq!(s.step(0), Action::Read { port: 0x3F6 });
    let mut issue = disk.ata(0x25, 9, 2);
    issue.push(Op::Flag8 { port: 0xC000, mask: 0x01, set: true });
    assert_eq!(s.step(0x40), Action::Run(issue));
    assert_eq!(s.step(0), Action::Read { port: 0xC002 });
    assert_eq!(s.step(0x01), Action::Read { port: 0xC002 });
    assert_eq!(s.step(0x04), Action::Run(stop));
    assert_eq!(s.step(0), Action::Read { port: 0xC002 });
    assert_eq!(s.step(0x04), Action::Run(vec![Op::Out8 { port: 0xC002, value: 0x04 }]));
    assert_eq!(s.step(0), Action::Done(1024));
}

fn request(id: u64, block: u64, sectors: u64, buf: usize, write: bool) -> Request {
    Request {
        id,
        master: true,
        extent: Extent { block, length: sectors * 512 },
        buf: buf as u32,
        write,
    }
}

#[test]
fn dispatcher_serves_requests_in_order() {
    let disk = primary_master();
    let mut sim = Sim::new(disk, 2048, 256 * 512);
    let mut d = Dispatcher::new(disk);
    let mut signals = Vec::new();
    assert!(d.is_idle());
    let first = d.submit(request(1, 8, 128, MEM_BASE, false));
    assert_eq!(d.current.map(|r| r.id), Some(1));
    assert_eq!(d.current_chunk, Some(DmaChunk { lba: 8, sectors: 128, write: false }));
    let second = d.submit(request(2, 1000, 128, MEM_BASE + 128 * 512, false));
    assert_eq!(second, vec![]);
    assert_eq!(d.queue.len(), 1);
    sim.apply(first, &mut signals);
    assert_eq!(sim.commands, vec![(0x25, 0, 8, 128)]);
    assert!(signals.is_empty());
    sim.serve(&mut d, &mut signals);
    assert_eq!(signals, vec![(1, None), (2, None)]);
    assert!(d.is_idle());
    assert_eq!(sim.commands, vec![(0x25, 0, 8, 128), (0x25, 0, 1000, 128)]);
    let done = sim.trace.iter().position(|t| t == "complete 1").unwrap();
    let next = sim.trace.iter().position(|t| t == "dma 25 1000 128").unwrap();
    assert!(done < next);
    for n in 0..128 {
        assert_eq!(&sim.mem[n * 512..(n + 1) * 512], &sim.blocks[8 + n][..]);
        assert_eq!(&sim.mem[(128 + n) * 512..(129 + n) * 512], &sim.blocks[1000 + n][..]);
    }
}

#[test]
fn dispatcher_cuts_a_request_into_chunks_of_128() {
    let disk = primary_master();
    let r = request(7, 40, 300, MEM_BASE, true);
    assert_eq!(r.check(), None);
    assert_eq!(
        r.chunks(),
        vec![
            DmaChunk { lba: 40, sectors: 128, write: true },
            DmaChunk { lba: 168, sectors: 128, write: true },
            DmaChunk { lba: 296, sectors: 44, write: true },
        ]
    );
    let mut d = Dispatcher::new(disk);
    let effects = d.submit(r);
    let stores: Vec<Prd> = effects
        .iter()
        .filter_map(|e| match e {
            Effect::Port(Op::Store { entry, .. }) => Some(*entry),
            _ => None,
        })
        .collect();
    assert_eq!(
        stores,
        vec![
            Prd { addr: MEM_BASE as u32, size: 0, rsv: 0, eot: 0 },
            Prd { addr: MEM_BASE as u32 + 0x10000, size: 0, rsv: 0, eot: 0 },
            Prd { addr: MEM_BASE as u32 + 0x20000, size: 44 * 512, rsv: 0, eot: 0x80 },
        ]
    );
    assert_eq!(effects[0], Effect::Port(Op::Flag8 { port: 0xC000, mask: 0x01, set: false }));
    assert_eq!(effects[1], Effect::Port(Op::Out32 { port: 0xC004, value: 0 }));
    assert_eq!(effects[5], Effect::Port(Op::Out32 { port: 0xC004, value: TABLE }));
    assert_eq!(effects[6], Effect::Port(Op::Flag8 { port: 0xC000, mask: 0x08, set: false }));
    assert_eq!(effects[7], Effect::Settle);
    assert_eq!(effects[8], Effect::Port(Op::Out8 { port: 0x1F6, value: 0xE0 }));
    assert_eq!(effects[21], Effect::Port(Op::Out8 { port: 0x1F7, value: 0x35 }));
    assert_eq!(
        effects.last(),
        Some(&Effect::Port(Op::Flag8 { port: 0xC000, mask: 0x01, set: true }))
    );
    assert_eq!(d.chunk_queue.len(), 2);
    let next = d.advance_chunk();
    assert_eq!(d.current_chunk, Some(DmaChunk { lba: 168, sectors: 128, write: true }));
    assert_eq!(next[0], Effect::Settle);
    assert_eq!(next.len(), 16);
    d.advance_chunk();
    assert_eq!(d.current_chunk, Some(DmaChunk { lba: 296, sectors: 44, write: true }));
    let last = d.advance_chunk();
    assert!(d.is_idle());
    assert!(last.contains(&Effect::Complete { id: 7 }));
}

#[test]
fn dispatcher_moves_the_data_of_a_large_request() {
    let disk = primary_master();
    let mut sim = Sim::new(disk, 1024, 300 * 512);
    let data = pattern(300 * 512, 3);
    sim.mem.copy_from_slice(&data);
    let mut d = Dispatcher::new(disk);
    let mut signals = Vec::new();
    let effects = d.submit(request(4, 40, 300, MEM_BASE, true));
    sim.apply(effects, &mut signals);
    assert_eq!(signals, vec![]);
    assert_eq!(sim.commands, vec![(0x35, 0, 40, 128)]);
    assert!(!d.is_idle());
    sim.serve(&mut d, &mut signals);
    assert_eq!(signals, vec![(4, None)]);
    assert_eq!(sim.commands, vec![(0x35, 0, 40, 128), (0x35, 0, 168, 128), (0x35, 0, 296, 44)]);
    assert!(d.is_idle());
    for n in 0..300 {
        assert_eq!(&sim.blocks[40 + n][..], &data[n * 512..(n + 1) * 512]);
    }
    assert_eq!(sim.blocks[39][0], (39 * 31 + 3) as u8);
    assert_eq!(sim.blocks[340][0], (340 * 31 + 3) as u8);
}

#[test]
fn dispatcher_refuses_what_it_cannot_serve() {
    let disk = primary_master();
    let mut d = Dispatcher::new(disk);
    assert_eq!(request(1, 0, 8, MEM_BASE, false).check(), Some(IdeError::BadRequest));
    assert_eq!(request(1, 8, 0, MEM_BASE, false).check(), Some(IdeError::BadRequest));
    assert_eq!(request(1, 8, 8, 0, false).check(), Some(IdeError::BadRequest));
    assert_eq!(request(1, 8, 1048577, MEM_BASE, false).check(), Some(IdeError::TooLarge));
    assert_eq!(request(1, 8, 1048576, MEM_BASE, false).check(), None);
    assert_eq!(request(1, 8, 8, 0xFFFF_F001, false).check(), Some(IdeError::BadRequest));
    assert_eq!(request(1, 8, 8, 0xFFFF_F000, false).check(), None);
    assert_eq!(request(1, 0x0000_FFFF_FFFF_FFF9, 8, MEM_BASE, false).check(), Some(IdeError::BadRequest));
    assert_eq!(request(1, 0x0000_FFFF_FFFF_FFF8, 8, MEM_BASE, false).check(), None);
    let effects = d.submit(request(9, 8, 0, MEM_BASE, false));
    assert_eq!(
        effects,
        vec![
            Effect::Port(Op::Flag8 { port: 0xC000, mask: 0x01, set: false }),
            Effect::Port(Op::Out32 { port: 0xC004, value: 0 }),
            Effect::Fail { id: 9, error: IdeError::BadRequest },
        ]
    );
    assert!(d.is_idle());
}

#[test]
fn dispatcher_goes_on_after_a_dma_error() {
    let disk = primary_master();
    let mut sim = Sim::new(disk, 2048, 64 * 512);
    sim.dma_error = true;
    let mut d = Dispatcher::new(disk);
    let mut signals = Vec::new();
    let first = d.submit(request(1, 8, 16, MEM_BASE, false));
    assert_eq!(d.submit(request(2, 100, 16, MEM_BASE + 16 * 512, false)), vec![]);
    sim.apply(first, &mut signals);
    assert_eq!(sim.bm_status, 0x02);
    sim.serve(&mut d, &mut signals);
    assert_eq!(signals, vec![(1, Some(IdeError::DmaError)), (2, None)]);
    assert!(d.is_idle());
    assert!(sim.trace.contains(&"ack 02".to_string()));
    for n in 0..16 {
        assert_eq!(&sim.mem[(16 + n) * 512..(17 + n) * 512], &sim.blocks[100 + n][..]);
    }
}

#[test]
fn interrupt_without_cause_changes_nothing() {
    let disk = primary_master();
    let mut d = Dispatcher::new(disk);
    d.submit(request(1, 8, 200, MEM_BASE, false));
    assert_eq!(d.on_interrupt(0x01, 0x09), vec![]);
    assert_eq!(d.current_chunk, Some(DmaChunk { lba: 8, sectors: 128, write: false }));
    assert_eq!(
        d.on_interrupt(0x04, 0x08),
        vec![Effect::Port(Op::Out8 { port: 0xC002, value: 0x04 })]
    );
    assert_eq!(d.current_chunk, Some(DmaChunk { lba: 8, sectors: 128, write: false }));
    let next = d.on_interrupt(0x05, 0x09);
    assert_eq!(next[0], Effect::Port(Op::Out8 { port: 0xC002, value: 0x05 }));
    assert_eq!(d.current_chunk, Some(DmaChunk { lba: 136, sectors: 72, write: false }));
}

#[test]
fn slave_requests_select_the_slave() {
    let disk = primary_master();
    let mut d = Dispatcher::new(disk);
    let mut r = request(1, 8, 1, MEM_BASE, false);
    r.master = false;
    let effects = d.submit(r);
    assert!(effects.contains(&Effect::Port(Op::Out8 { port: 0x1F6, value: 0xF0 })));
    assert!(!effects.contains(&Effect::Port(Op::Out8 { port: 0x1F6, value: 0xE0 })));
}

#[test]
fn sessions_stay_sound() {
    let disk = primary_master();
    let mut sim = Sim::new(disk, 1024, 600 * 512);
    let mut session = disk.ata_pio(3, 600, MEM_BASE, true).unwrap();
    let mut input = 0u8;
    let mut steps = 0;
    while !session.finished() {
        assert!(session.is_valid());
        match session.step(input) {
            Action::Run(ops) => ops.into_iter().for_each(|op| sim.run(op)),
            Action::Read { port } => input = sim.in8(port),
            Action::WriteSector { addr, .. } => sim.move_sector(addr, true),
            Action::Done(bytes) => assert_eq!(bytes, 600 * 512),
            other => panic!("unexpected {:?}", other),
        }
        steps += 1;
    }
    assert!(session.is_valid());
    assert!(steps <= 16 * 600 + 15);
    assert_eq!(session.done, 600);
}

#[test]
fn made_up_sessions_are_not_sound() {
    let disk = primary_master();
    let good = disk.ata_pio(3, 600, MEM_BASE, false).unwrap();
    assert!(good.is_valid());
    assert!(!Session { done: 601, ..good }.is_valid());
    assert!(!Session { done: 7, ..good }.is_valid());
    assert!(!Session { done: 510, sector: 90, ..good }.is_valid());
    assert!(Session { done: 510, sector: 89, ..good }.is_valid());
    assert!(!Session { phase: Phase::DmaWait, ..good }.is_valid());
    assert!(!Session { phase: Phase::Wrote, ..good }.is_valid());
    assert!(!Session { buf: 0, ..good }.is_valid());
    assert!(!Session { kind: Kind::Dma, buf: usize::MAX - 600 * 512, ..good }.is_valid());
    assert!(Session { done: 600, phase: Phase::Finished, ..good }.is_valid());
    assert!(!Session { done: 600, ..good }.is_valid());
}

fn allowed(disk: &IdeDisk, op: &Op) -> bool {
    match *op {
        Op::Out8 { port, .. } => [
            Reg::SectorCount,
            Reg::Lba0,
            Reg::Lba1,
            Reg::Lba2,
            Reg::DeviceSelect,
            Reg::Command,
            Reg::BusStatus,
        ]
        .iter()
        .any(|r| disk.port(*r) == port),
        Op::Out32 { port, .. } => port == disk.port(Reg::PrdtAddress),
        Op::In8 { port } => port == disk.port(Reg::AltStatus),
        Op::Flag8 { port, mask, .. } => {
            port == disk.port(Reg::BusCommand) && (mask == 0x01 || mask == 0x08)
        }
        Op::Store { index, .. } => index < 8192,
    }
}

#[test]
fn sessions_touch_only_their_registers() {
    let disk = IdeDisk::new(0xD008, 0x170, 0x374, TABLE, 0x0F, false);
    for (kind, write) in [(Kind::Pio, false), (Kind::Pio, true), (Kind::Dma, false), (Kind::Dma, true)] {
        let mut sim = Sim::new(disk, 1024, 300 * 512);
        let mut session = match kind {
            Kind::Dma => disk.ata_dma(5, 300, MEM_BASE, write).unwrap(),
            _ => disk.ata_pio(5, 300, MEM_BASE, write).unwrap(),
        };
        let mut input = 0u8;
        while !session.finished() {
            match session.step(input) {
                Action::Run(ops) => {
                    for op in ops {
                        assert!(allowed(&disk, &op), "{:?}", op);
                        sim.run(op);
                    }
                }
                Action::Read { port } => {
                    assert!([Reg::AltStatus, Reg::Status, Reg::BusStatus]
                        .iter()
                        .any(|r| disk.port(*r) == port));
                    input = sim.in8(port);
                }
                Action::ReadSector { port, addr } => {
                    assert_eq!(port, 0x170);
                    sim.move_sector(addr, false);
                }
                Action::WriteSector { port, addr } => {
                    assert_eq!(port, 0x170);
                    sim.move_sector(addr, true);
                }
                Action::Done(bytes) => assert_eq!(bytes, 300 * 512),
                other => panic!("unexpected {:?}", other),
            }
        }
        assert!(sim.trace.contains(&"select F0".to_string()));
        assert!(!sim.trace.contains(&"select E0".to_string()));
    }
}

#[test]
fn sectors_go_through_the_port_in_order() {
    let disk = primary_master();
    let mut sim = Sim::new(disk, 1024, 600 * 512);
    let mut session = disk.ata_pio(30, 600, MEM_BASE, false).unwrap();
    let mut input = 0u8;
    let mut places = Vec::new();
    while !session.finished() {
        match session.step(input) {
            Action::Run(ops) => ops.into_iter().for_each(|op| sim.run(op)),
            Action::Read { port } => input = sim.in8(port),
            Action::ReadSector { addr, .. } => {
                places.push(addr);
                sim.move_sector(addr, false);
            }
            Action::Done(bytes) => assert_eq!(bytes, 600 * 512),
            other => panic!("unexpected {:?}", other),
        }
    }
    let expected: Vec<usize> = (0..600).map(|k| MEM_BASE + 512 * k).collect();
    assert_eq!(places, expected);
    let blocks: Vec<String> = (30..630).map(|b| format!("sector {}", b)).collect();
    let moved: Vec<String> =
        sim.trace.iter().filter(|t| t.starts_with("sector")).cloned().collect();
    assert_eq!(moved, blocks);
}

#[test]
fn dispatcher_touches_only_its_registers() {
    let disk = primary_master();
    let mut d = Dispatcher::new(disk);
    let mut all = d.submit(request(1, 8, 300, MEM_BASE, false));
    all.extend(d.submit(request(2, 8, 0, MEM_BASE, false)));
    all.extend(d.on_interrupt(0x05, 0x09));
    all.extend(d.on_interrupt(0x05, 0x09));
    all.extend(d.on_interrupt(0x05, 0x09));
    all.extend(d.advance_request());
    assert!(d.is_idle());
    let mut signals = Vec::new();
    for effect in all {
        match effect {
            Effect::Port(op) => assert!(allowed(&disk, &op), "{:?}", op),
            Effect::Complete { id } => signals.push((id, None)),
            Effect::Fail { id, error } => signals.push((id, Some(error))),
            Effect::Settle => {}
        }
    }
    assert_eq!(signals, vec![(1, None), (2, Some(IdeError::BadRequest))]);
}
