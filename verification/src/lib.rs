//! Core of an IDE/ATA block-device driver, written without any port access of
//! its own: the library decides which registers are touched, in which order
//! and with which values, and the caller carries the accesses out.

pub mod extent;

pub mod error;

pub mod regs;

pub mod status;

pub mod prd;

pub mod chunk;

pub mod disk;

pub mod identify;

pub mod session;

pub mod run;

pub mod model;

pub mod dispatch;

pub mod fs;

pub mod redoxfs;
