//! Register bits, command bytes and the layout of a channel's ports.

use vstd::prelude::*;

verus! {

/// Bus-master command: direction, set when the controller writes to memory.
pub const CMD_DIR: u8 = 0x08;

/// Bus-master command: process the descriptor table.
pub const CMD_ACT: u8 = 0x01;

/// Bus-master status: an interrupt was raised.
pub const STS_INT: u8 = 0x04;

/// Bus-master status: an error occurred.
pub const STS_ERR: u8 = 0x02;

/// Bus-master status: the descriptor table is being processed.
pub const STS_ACT: u8 = 0x01;

/// Status register: busy.
pub const ATA_SR_BSY: u8 = 0x80;

/// Status register: drive ready.
pub const ATA_SR_DRDY: u8 = 0x40;

/// Status register: device fault.
pub const ATA_SR_DF: u8 = 0x20;

/// Status register: data request.
pub const ATA_SR_DRQ: u8 = 0x08;

/// Status register: error.
pub const ATA_SR_ERR: u8 = 0x01;

pub const ATA_CMD_READ_PIO_EXT: u8 = 0x24;

pub const ATA_CMD_WRITE_PIO_EXT: u8 = 0x34;

pub const ATA_CMD_READ_DMA_EXT: u8 = 0x25;

pub const ATA_CMD_WRITE_DMA_EXT: u8 = 0x35;

pub const ATA_CMD_CACHE_FLUSH_EXT: u8 = 0xEA;

pub const ATA_CMD_IDENTIFY: u8 = 0xEC;

/// Device-select value for the master drive, LBA mode.
pub const SELECT_MASTER: u8 = 0xE0;

/// Device-select value for the slave drive, LBA mode.
pub const SELECT_SLAVE: u8 = 0xF0;

/// Bytes in a sector.
pub const SECTOR_BYTES: usize = 512;

/// 16-bit words in a sector.
pub const SECTOR_WORDS: usize = 256;

/// Most sectors that one hardware transfer is asked for.
pub const MAX_TRANSFER_SECTORS: usize = 255;

/// Offset of the command register in a PCI function's configuration space.
pub const PCI_COMMAND: u8 = 0x04;

/// PCI command register: the function may act as bus master.
pub const PCI_COMMAND_MASTER: u32 = 0x04;

/// Offset of the base address register that names the bus-master ports.
pub const PCI_BUSMASTER_BAR: u8 = 0x20;

/// Interrupt line of the primary channel.
pub const IRQ_PRIMARY: u8 = 0x0E;

/// Interrupt line of the secondary channel.
pub const IRQ_SECONDARY: u8 = 0x0F;

} // verus!
