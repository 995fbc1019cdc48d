//! A drive on an IDE channel: where its registers lie, what it is called,
//! and the register accesses that issue a command to it.

use vstd::prelude::*;
use crate::prd::{Prd, PRDT_CAPACITY};
use crate::regs::{CMD_ACT, CMD_DIR, IRQ_PRIMARY, IRQ_SECONDARY, SELECT_MASTER, SELECT_SLAVE};

verus! {

/// The registers of a channel that the driver touches.
#[derive(Clone, Copy, Debug, PartialEq, Eq, Structural)]
pub enum Reg {
    Data,
    Error,
    SectorCount,
    Lba0,
    Lba1,
    Lba2,
    DeviceSelect,
    Status,
    Command,
    AltStatus,
    BusCommand,
    BusStatus,
    PrdtAddress,
}

/// One access that the caller carries out for the driver and whose outcome
/// the driver does not wait for.
#[allow(inconsistent_fields)]
#[derive(Clone, Copy, Debug, PartialEq, Eq, Structural)]
pub enum Op {
    /// Write a byte to a port.
    Out8 { port: u16, value: u8 },
    /// Write a double word to a port.
    Out32 { port: u16, value: u32 },
    /// Read a byte from a port and drop it.
    In8 { port: u16 },
    /// Read a byte from a port, set or clear the bits of `mask` in it, and
    /// write it back.
    Flag8 { port: u16, mask: u8, set: bool },
    /// Store a descriptor at `index` of the descriptor table.
    Store { index: usize, entry: Prd },
}

/// A drive, addressed by the base ports of its channel, the physical address
/// of the channel's descriptor table, its interrupt line and its place on the
/// cable.
#[derive(Clone, Copy, Debug, PartialEq, Eq, Structural)]
pub struct IdeDisk {
    pub busmaster: u16,
    pub base: u16,
    pub ctrl: u16,
    pub table: u32,
    pub irq: u8,
    pub master: bool,
}

/// The channel factory.
pub struct Ide;

/// A descriptor table can lie at this physical address: a full table has
/// 64 KiB and must not cross a 64 KiB boundary, so it starts on one.
pub open spec fn spec_table_fits(table: u32) -> bool {
    table % 65536 == 0
}

impl IdeDisk {
    /// Every register of the drive has a port number, and the descriptor
    /// table starts on a 64 KiB boundary.
    pub open spec fn wf(&self) -> bool {
        &&& self.busmaster <= 0xFFFF - 4
        &&& self.base <= 0xFFFF - 7
        &&& self.ctrl <= 0xFFFF - 2
        &&& spec_table_fits(self.table)
    }

    /// The port of a register: the task file lies at offsets 0 to 7 of the
    /// command base, the alternate status at offset 2 of the control base,
    /// the bus-master registers at offsets 0, 2 and 4 of the bus-master base.
    pub open spec fn spec_port(&self, reg: Reg) -> int {
        match reg {
            Reg::Data => self.base + 0,
            Reg::Error => self.base + 1,
            Reg::SectorCount => self.base + 2,
            Reg::Lba0 => self.base + 3,
            Reg::Lba1 => self.base + 4,
            Reg::Lba2 => self.base + 5,
            Reg::DeviceSelect => self.base + 6,
            Reg::Status => self.base + 7,
            Reg::Command => self.base + 7,
            Reg::AltStatus => self.ctrl + 2,
            Reg::BusCommand => self.busmaster + 0,
            Reg::BusStatus => self.busmaster + 2,
            Reg::PrdtAddress => self.busmaster + 4,
        }
    }

    /// Whether the access is one that the driver may make: a byte is written
    /// only to the sector count, the three address registers, the device
    /// select, the command and the bus-master status; a double word only to
    /// the descriptor table's address register; a byte is read and dropped
    /// only from the alternate status; only the start and direction bits of
    /// the bus-master command are set or cleared; and a descriptor is stored
    /// only inside the table.
    pub open spec fn spec_allows(&self, op: Op) -> bool {
        match op {
            Op::Out8 { port, .. } => port == self.spec_port(Reg::SectorCount) || port
                == self.spec_port(Reg::Lba0) || port == self.spec_port(Reg::Lba1) || port
                == self.spec_port(Reg::Lba2) || port == self.spec_port(Reg::DeviceSelect) || port
                == self.spec_port(Reg::Command) || port == self.spec_port(Reg::BusStatus),
            Op::Out32 { port, .. } => port == self.spec_port(Reg::PrdtAddress),
            Op::In8 { port } => port == self.spec_port(Reg::AltStatus),
            Op::Flag8 { port, mask, .. } => port == self.spec_port(Reg::BusCommand) && (mask
                == CMD_ACT || mask == CMD_DIR),
            Op::Store { index, .. } => index < PRDT_CAPACITY,
        }
    }

    /// The access that takes the descriptor table away from the bus master.
    pub open spec fn spec_clear_table(&self) -> Op {
        Op::Out32 { port: self.spec_port(Reg::PrdtAddress) as u16, value: 0 }
    }

    /// The value that selects the drive in LBA mode.
    pub open spec fn spec_select(&self) -> u8 {
        if self.master {
            SELECT_MASTER
        } else {
            SELECT_SLAVE
        }
    }

    /// The accesses that issue `cmd` for `len` sectors at `block`, once the
    /// drive is no longer busy: select the drive, read the alternate status
    /// four times to let it settle, write the high bytes of the sector count
    /// and of the address, then the low bytes, then the command.
    pub open spec fn spec_ata(&self, cmd: u8, block: u64, len: u16) -> Seq<Op> {
        let alt = self.spec_port(Reg::AltStatus) as u16;
        let count = self.spec_port(Reg::SectorCount) as u16;
        let lba0 = self.spec_port(Reg::Lba0) as u16;
        let lba1 = self.spec_port(Reg::Lba1) as u16;
        let lba2 = self.spec_port(Reg::Lba2) as u16;
        seq![
            Op::Out8 { port: self.spec_port(Reg::DeviceSelect) as u16, value: self.spec_select() },
            Op::In8 { port: alt },
            Op::In8 { port: alt },
            Op::In8 { port: alt },
            Op::In8 { port: alt },
            Op::Out8 { port: count, value: (len >> 8) as u8 },
            Op::Out8 { port: lba0, value: (block >> 24) as u8 },
            Op::Out8 { port: lba1, value: (block >> 32) as u8 },
            Op::Out8 { port: lba2, value: (block >> 40) as u8 },
            Op::Out8 { port: count, value: len as u8 },
            Op::Out8 { port: lba0, value: block as u8 },
            Op::Out8 { port: lba1, value: (block >> 8) as u8 },
            Op::Out8 { port: lba2, value: (block >> 16) as u8 },
            Op::Out8 { port: self.spec_port(Reg::Command) as u16, value: cmd },
        ]
    }

    /// What the drive is called.
    pub open spec fn spec_name(&self) -> Seq<char> {
        if self.irq == IRQ_PRIMARY {
            if self.master {
                "IDE Primary Master"@
            } else {
                "IDE Primary Slave"@
            }
        } else {
            if self.master {
                "IDE Secondary Master"@
            } else {
                "IDE Secondary Slave"@
            }
        }
    }

    /// Describes the drive whose channel has the given base ports.
    pub fn new(busmaster: u16, base: u16, ctrl: u16, table: u32, irq: u8, master: bool) -> (disk:
        Self)
        ensures
            disk == (IdeDisk { busmaster, base, ctrl, table, irq, master }),
    {
        IdeDisk { busmaster, base, ctrl, table, irq, master }
    }

    /// Whether every register has a port number and the descriptor table lies
    /// where the controller can walk it.
    pub fn is_valid(&self) -> (r: bool)
        ensures
            r == self.wf(),
    {
        self.busmaster <= 0xFFFF - 4 && self.base <= 0xFFFF - 7 && self.ctrl <= 0xFFFF - 2
            && self.table % 65536 == 0
    }

    /// The port of a register.
    pub fn port(&self, reg: Reg) -> (p: u16)
        requires
            self.wf(),
        ensures
            p == self.spec_port(reg),
    {
        match reg {
            Reg::Data => self.base,
            Reg::Error => self.base + 1,
            Reg::SectorCount => self.base + 2,
            Reg::Lba0 => self.base + 3,
            Reg::Lba1 => self.base + 4,
            Reg::Lba2 => self.base + 5,
            Reg::DeviceSelect => self.base + 6,
            Reg::Status => self.base + 7,
            Reg::Command => self.base + 7,
            Reg::AltStatus => self.ctrl + 2,
            Reg::BusCommand => self.busmaster,
            Reg::BusStatus => self.busmaster + 2,
            Reg::PrdtAddress => self.busmaster + 4,
        }
    }

    /// The accesses that issue `cmd` for `len` sectors at `block`. They are
    /// made once the drive is no longer busy. A count of 0 asks for 65 536
    /// sectors.
    pub fn ata(&self, cmd: u8, block: u64, len: u16) -> (ops: Vec<Op>)
        requires
            self.wf(),
        ensures
            ops@ == self.spec_ata(cmd, block, len),
    {
        let alt = self.port(Reg::AltStatus);
        let count = self.port(Reg::SectorCount);
        let lba0 = self.port(Reg::Lba0);
        let lba1 = self.port(Reg::Lba1);
        let lba2 = self.port(Reg::Lba2);
        let mut ops: Vec<Op> = Vec::new();
        ops.push(
            Op::Out8 {
                port: self.port(Reg::DeviceSelect),
                value: if self.master { SELECT_MASTER } else { SELECT_SLAVE },
            },
        );
        ops.push(Op::In8 { port: alt });
        ops.push(Op::In8 { port: alt });
        ops.push(Op::In8 { port: alt });
        ops.push(Op::In8 { port: alt });
        ops.push(Op::Out8 { port: count, value: (len >> 8) as u8 });
        ops.push(Op::Out8 { port: lba0, value: (block >> 24) as u8 });
        ops.push(Op::Out8 { port: lba1, value: (block >> 32) as u8 });
        ops.push(Op::Out8 { port: lba2, value: (block >> 40) as u8 });
        ops.push(Op::Out8 { port: count, value: len as u8 });
        ops.push(Op::Out8 { port: lba0, value: block as u8 });
        ops.push(Op::Out8 { port: lba1, value: (block >> 8) as u8 });
        ops.push(Op::Out8 { port: lba2, value: (block >> 16) as u8 });
        ops.push(Op::Out8 { port: self.port(Reg::Command), value: cmd });
        assert(ops@ =~= self.spec_ata(cmd, block, len));
        ops
    }

    /// The access that takes the descriptor table away from the bus master.
    /// It is made when a drive is taken into service and when it is given up.
    pub fn clear_table(&self) -> (op: Op)
        requires
            self.wf(),
        ensures
            op == self.spec_clear_table(),
    {
        Op::Out32 { port: self.port(Reg::PrdtAddress), value: 0 }
    }

    /// The drive's name: its channel, then its place on the cable.
    pub fn name(&self) -> (s: String)
        ensures
            s@ == self.spec_name(),
    {
        if self.irq == IRQ_PRIMARY {
            if self.master {
                "IDE Primary Master".to_owned()
            } else {
                "IDE Primary Slave".to_owned()
            }
        } else {
            if self.master {
                "IDE Secondary Master".to_owned()
            } else {
                "IDE Secondary Slave".to_owned()
            }
        }
    }
}

/// Issuing a command touches only registers that the driver may touch, each
/// in the way it may.
pub proof fn ata_respects_registers(disk: IdeDisk, cmd: u8, block: u64, len: u16)
    requires
        disk.wf(),
    ensures
        forall|i: int|
            0 <= i < disk.spec_ata(cmd, block, len).len() ==> disk.spec_allows(
                #[trigger] disk.spec_ata(cmd, block, len)[i],
            ),
{
}

/// The six address bytes that a command writes hold the block number, and
/// the two count bytes hold the sector count: nothing of a 48-bit address is
/// lost on its way to the task file.
pub proof fn task_file_holds_request(block: u64, len: u16)
    by (bit_vector)
    requires
        block < 0x1_0000_0000_0000,
    ensures
        (block as u8) as u64 | (((block >> 8) as u8) as u64) << 8 | (((block >> 16) as u8) as u64)
            << 16 | (((block >> 24) as u8) as u64) << 24 | (((block >> 32) as u8) as u64) << 32 | (((
        block >> 40) as u8) as u64) << 40 == block,
        (len as u8) as u16 | (((len >> 8) as u8) as u16) << 8 == len,
{
}

impl Ide {
    /// The bus-master base port that the controller's fifth base address
    /// register names.
    pub open spec fn spec_busmaster(bar: u32) -> u16 {
        (bar as u16) & 0xFFF0
    }

    /// The four places where a drive can be, in the order in which they are
    /// probed: primary master and slave, secondary master and slave. The
    /// secondary channel's bus-master registers lie 8 ports after the
    /// primary's.
    pub open spec fn spec_candidates(bar: u32, primary_table: u32, secondary_table: u32) -> Seq<
        IdeDisk,
    > {
        let bm = Self::spec_busmaster(bar);
        seq![
            IdeDisk {
                busmaster: bm,
                base: 0x1F0,
                ctrl: 0x3F4,
                table: primary_table,
                irq: IRQ_PRIMARY,
                master: true,
            },
            IdeDisk {
                busmaster: bm,
                base: 0x1F0,
                ctrl: 0x3F4,
                table: primary_table,
                irq: IRQ_PRIMARY,
                master: false,
            },
            IdeDisk {
                busmaster: (bm + 8) as u16,
                base: 0x170,
                ctrl: 0x374,
                table: secondary_table,
                irq: IRQ_SECONDARY,
                master: true,
            },
            IdeDisk {
                busmaster: (bm + 8) as u16,
                base: 0x170,
                ctrl: 0x374,
                table: secondary_table,
                irq: IRQ_SECONDARY,
                master: false,
            },
        ]
    }

    /// The candidate alone if a probe found a drive there, else nothing.
    pub open spec fn spec_keep(disk: IdeDisk, found: bool) -> Seq<IdeDisk> {
        if found {
            seq![disk]
        } else {
            Seq::empty()
        }
    }

    /// The candidates at which a probe found a drive, in probing order.
    pub open spec fn spec_disks(
        bar: u32,
        primary_table: u32,
        secondary_table: u32,
        found: [bool; 4],
    ) -> Seq<IdeDisk> {
        let c = Self::spec_candidates(bar, primary_table, secondary_table);
        Self::spec_keep(c[0], found[0]) + Self::spec_keep(c[1], found[1]) + Self::spec_keep(
            c[2],
            found[2],
        ) + Self::spec_keep(c[3], found[3])
    }

    /// The bus-master base port for a base address register's value.
    pub fn busmaster(bar: u32) -> (port: u16)
        ensures
            port == Self::spec_busmaster(bar),
            port <= 0xFFF0,
            port % 16 == 0,
    {
        let port: u16 = (bar as u16) & 0xFFF0;
        assert(((bar as u16) & 0xFFF0) <= 0xFFF0 && ((bar as u16) & 0xFFF0) % 16 == 0)
            by (bit_vector);
        port
    }

    /// The four places to probe, given the controller's fifth base address
    /// register and the descriptor tables of the two channels.
    pub fn candidates(bar: u32, primary_table: u32, secondary_table: u32) -> (disks: Vec<IdeDisk>)
        ensures
            disks@ == Self::spec_candidates(bar, primary_table, secondary_table),
            disks@.len() == 4,
            spec_table_fits(primary_table) && spec_table_fits(secondary_table) ==> forall|i: int|
                0 <= i < 4 ==> (#[trigger] disks@[i]).wf(),
    {
        let bm = Self::busmaster(bar);
        let mut disks: Vec<IdeDisk> = Vec::new();
        disks.push(IdeDisk::new(bm, 0x1F0, 0x3F4, primary_table, IRQ_PRIMARY, true));
        disks.push(IdeDisk::new(bm, 0x1F0, 0x3F4, primary_table, IRQ_PRIMARY, false));
        disks.push(IdeDisk::new(bm + 8, 0x170, 0x374, secondary_table, IRQ_SECONDARY, true));
        disks.push(IdeDisk::new(bm + 8, 0x170, 0x374, secondary_table, IRQ_SECONDARY, false));
        assert(disks@ =~= Self::spec_candidates(bar, primary_table, secondary_table));
        disks
    }

    /// The drives of a controller: of the four candidates, those at which the
    /// probe found a drive, in probing order.
    pub fn disks(bar: u32, primary_table: u32, secondary_table: u32, found: [bool; 4]) -> (disks:
        Vec<IdeDisk>)
        ensures
            disks@ == Self::spec_disks(bar, primary_table, secondary_table, found),
    {
        let all = Self::candidates(bar, primary_table, secondary_table);
        let mut disks: Vec<IdeDisk> = Vec::new();
        if found[0] {
            disks.push(all[0]);
        }
        if found[1] {
            disks.push(all[1]);
        }
        if found[2] {
            disks.push(all[2]);
        }
        if found[3] {
            disks.push(all[3]);
        }
        assert(disks@ =~= Self::spec_disks(bar, primary_table, secondary_table, found));
        disks
    }
}

} // verus!
