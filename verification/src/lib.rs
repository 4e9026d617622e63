//! Verified core of an A/B firmware bootloader for RP2040-class microcontrollers.
//!
//! The crate holds the decisions of the bootloader, of the firmware it starts
//! and of the host tool that talks to it, as functions on plain values:
//!
//! - `protocol`: the flash layout, the persistent boot record and its bytes,
//!   and the messages between host and bootloader;
//! - `boot_fsm` and `boot`: validation of the banks, the selection of the bank
//!   to boot with its rollback policy, and the plan of a normal boot;
//! - `update`: the firmware update protocol engine;
//! - `flash`: the flash service, stated over a memory model of the NOR flash;
//! - `crc32`: the CRC-32 engine;
//! - `cobs`, `bounded` and `usb_transport`: framing of the byte stream;
//! - `firmware`: what running firmware does to the boot record and the banks;
//! - `commands` and `cli`: the host's side of the protocol;
//! - `session`: whole exchanges, and what an upload comes to.
//!
//! Hardware access (ROM flash routines, USB, resets) is left to the caller,
//! which performs the operations that the engines return.

pub mod protocol;
pub mod session;
pub mod boot_fsm;
pub mod crc32;
pub mod flash;
pub mod update;
pub mod usb_transport;
pub mod boot;
pub mod bounded;
pub mod cli;
pub mod cobs;
pub mod commands;
pub mod firmware;

// Re-export commonly used types
pub use protocol::{AckStatus, BootData, BootState, Command, Response};
pub use protocol::{BOOT_DATA_ADDR, BOOT_DATA_MAGIC, FLASH_BASE, FW_A_ADDR, FW_B_ADDR};
pub use protocol::{FLASH_PAGE_SIZE, FLASH_SECTOR_SIZE, FW_BANK_SIZE, MAX_DATA_BLOCK_SIZE};
