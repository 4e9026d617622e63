//! Flash layout constants, the persistent boot record and the messages that
//! bootloader and host exchange.

use vstd::prelude::*;
use vstd::bytes::*;
use vstd::slice::*;

verus! {

// --- Flash layout constants ---

/// Start of the memory-mapped (XIP) flash window.
pub const FLASH_BASE: u32 = 0x1000_0000;

/// Base address of firmware bank A.
pub const FW_A_ADDR: u32 = 0x1001_0000;

/// Base address of firmware bank B.
pub const FW_B_ADDR: u32 = 0x100D_0000;

/// Address of the sector that holds the boot record.
pub const BOOT_DATA_ADDR: u32 = 0x1019_0000;

/// Size of one firmware bank: 768 KiB.
pub const FW_BANK_SIZE: u32 = 768 * 1024;

/// RAM word through which the firmware asks for update mode.
pub const RAM_UPDATE_FLAG_ADDR: u32 = 0x2003_BFF0;

/// Value of the RAM word that requests update mode.
pub const RAM_UPDATE_MAGIC: u32 = 0x0FDA_7E00;

/// Erase granularity of the flash.
pub const FLASH_SECTOR_SIZE: u32 = 4096;

/// Program granularity of the flash.
pub const FLASH_PAGE_SIZE: u32 = 256;

/// Marks a boot record as initialised.
pub const BOOT_DATA_MAGIC: u32 = 0xB007_DA7A;

/// Number of bytes a boot record occupies in flash.
pub const BOOT_DATA_SIZE: usize = 32;

/// Maximum data block size for firmware uploads.
pub const MAX_DATA_BLOCK_SIZE: usize = 1024;

/// Base address of `bank`; any non-zero number means bank B.
pub open spec fn bank_base(bank: u8) -> u32 {
    if bank == 0 {
        FW_A_ADDR
    } else {
        FW_B_ADDR
    }
}

// --- BootData ---

/// The persistent boot record: 32 bytes, little-endian, packed in field order.
#[derive(Clone, Copy, Debug, PartialEq, Eq, Structural)]
pub struct BootData {
    /// `BOOT_DATA_MAGIC` once the record has been written.
    pub magic: u32,
    /// 0 = bank A, 1 = bank B.
    pub active_bank: u8,
    /// 1 once the firmware has confirmed that it started.
    pub confirmed: u8,
    /// Boot attempts since the last confirmation.
    pub boot_attempts: u8,
    pub _reserved0: u8,
    /// Firmware version in bank A.
    pub version_a: u32,
    /// Firmware version in bank B.
    pub version_b: u32,
    /// CRC-32 of the firmware in bank A.
    pub crc_a: u32,
    /// CRC-32 of the firmware in bank B.
    pub crc_b: u32,
    /// Size of the firmware in bank A; 0 means empty.
    pub size_a: u32,
    /// Size of the firmware in bank B; 0 means empty.
    pub size_b: u32,
}

impl BootData {
    /// The record of a device that holds no firmware.
    pub open spec fn default_spec() -> BootData {
        BootData {
            magic: BOOT_DATA_MAGIC,
            active_bank: 0,
            confirmed: 0,
            boot_attempts: 0,
            _reserved0: 0,
            version_a: 0,
            version_b: 0,
            crc_a: 0,
            crc_b: 0,
            size_a: 0,
            size_b: 0,
        }
    }

    /// The invariants of a record that the bootloader wrote.
    pub open spec fn wf(self) -> bool {
        &&& self.active_bank <= 1
        &&& self.confirmed <= 1
        &&& self.size_a <= FW_BANK_SIZE
        &&& self.size_b <= FW_BANK_SIZE
    }

    /// The 32 bytes of the record as they lie in flash.
    pub open spec fn layout(self) -> Seq<u8> {
        spec_u32_to_le_bytes(self.magic)
            + seq![self.active_bank, self.confirmed, self.boot_attempts, self._reserved0]
            + spec_u32_to_le_bytes(self.version_a)
            + spec_u32_to_le_bytes(self.version_b)
            + spec_u32_to_le_bytes(self.crc_a)
            + spec_u32_to_le_bytes(self.crc_b)
            + spec_u32_to_le_bytes(self.size_a)
            + spec_u32_to_le_bytes(self.size_b)
    }

    /// The record that the first 32 bytes of `bytes` hold.
    pub open spec fn parse(bytes: Seq<u8>) -> BootData {
        BootData {
            magic: spec_u32_from_le_bytes(bytes.subrange(0, 4)),
            active_bank: bytes[4],
            confirmed: bytes[5],
            boot_attempts: bytes[6],
            _reserved0: bytes[7],
            version_a: spec_u32_from_le_bytes(bytes.subrange(8, 12)),
            version_b: spec_u32_from_le_bytes(bytes.subrange(12, 16)),
            crc_a: spec_u32_from_le_bytes(bytes.subrange(16, 20)),
            crc_b: spec_u32_from_le_bytes(bytes.subrange(20, 24)),
            size_a: spec_u32_from_le_bytes(bytes.subrange(24, 28)),
            size_b: spec_u32_from_le_bytes(bytes.subrange(28, 32)),
        }
    }

    /// The record that the bootloader works with: this one if it carries the
    /// magic number, a fresh one otherwise.
    pub open spec fn or_default_spec(self) -> BootData {
        if self.magic == BOOT_DATA_MAGIC {
            self
        } else {
            Self::default_spec()
        }
    }

    /// The record that the bootloader works with: this one if it carries the
    /// magic number, a fresh one otherwise.
    pub fn or_default(self) -> (bd: BootData)
        ensures
            bd == self.or_default_spec(),
    {
        if self.is_valid() {
            self
        } else {
            Self::default_new()
        }
    }

    /// Whether the record keeps the invariants of a record that the
    /// bootloader wrote.
    pub fn is_well_formed(&self) -> (ok: bool)
        ensures
            ok == self.wf(),
    {
        self.active_bank <= 1 && self.confirmed <= 1 && self.size_a <= FW_BANK_SIZE && self.size_b
            <= FW_BANK_SIZE
    }

    /// A fresh record: magic set, bank A active, both banks empty.
    pub fn default_new() -> (bd: Self)
        ensures
            bd == Self::default_spec(),
            bd.wf(),
    {
        Self {
            magic: BOOT_DATA_MAGIC,
            active_bank: 0,
            confirmed: 0,
            boot_attempts: 0,
            _reserved0: 0,
            version_a: 0,
            version_b: 0,
            crc_a: 0,
            crc_b: 0,
            size_a: 0,
            size_b: 0,
        }
    }

    /// Whether the record carries the magic number.
    pub open spec fn is_valid_spec(&self) -> bool {
        self.magic == BOOT_DATA_MAGIC
    }

    /// Whether the record carries the magic number.
    #[verifier::when_used_as_spec(is_valid_spec)]
    pub fn is_valid(&self) -> (valid: bool)
        ensures
            valid == self.is_valid_spec(),
    {
        self.magic == BOOT_DATA_MAGIC
    }

    /// Base address of the active bank; any non-zero bank number means bank B.
    pub fn bank_addr(&self) -> (addr: u32)
        ensures
            addr == bank_base(self.active_bank),
    {
        if self.active_bank == 0 {
            FW_A_ADDR
        } else {
            FW_B_ADDR
        }
    }

    /// Reads a record from the first 32 bytes of `bytes`, whatever they hold.
    pub fn read_from(bytes: &[u8]) -> (bd: Self)
        requires
            bytes@.len() >= BOOT_DATA_SIZE,
        ensures
            bd == Self::parse(bytes@),
    {
        let bd = Self {
            magic: u32_from_le_bytes(slice_subrange(bytes, 0, 4)),
            active_bank: bytes[4],
            confirmed: bytes[5],
            boot_attempts: bytes[6],
            _reserved0: bytes[7],
            version_a: u32_from_le_bytes(slice_subrange(bytes, 8, 12)),
            version_b: u32_from_le_bytes(slice_subrange(bytes, 12, 16)),
            crc_a: u32_from_le_bytes(slice_subrange(bytes, 16, 20)),
            crc_b: u32_from_le_bytes(slice_subrange(bytes, 20, 24)),
            size_a: u32_from_le_bytes(slice_subrange(bytes, 24, 28)),
            size_b: u32_from_le_bytes(slice_subrange(bytes, 28, 32)),
        };
        bd
    }

    /// The record as the 32 bytes that are programmed into flash.
    pub fn as_bytes(&self) -> (bytes: Vec<u8>)
        ensures
            bytes@ == self.layout(),
            bytes@.len() == BOOT_DATA_SIZE,
    {
        proof {
            lemma_auto_spec_u32_to_from_le_bytes();
        }
        let mut bytes: Vec<u8> = u32_to_le_bytes(self.magic);
        bytes.push(self.active_bank);
        bytes.push(self.confirmed);
        bytes.push(self.boot_attempts);
        bytes.push(self._reserved0);
        let mut word: Vec<u8> = u32_to_le_bytes(self.version_a);
        bytes.append(&mut word);
        word = u32_to_le_bytes(self.version_b);
        bytes.append(&mut word);
        word = u32_to_le_bytes(self.crc_a);
        bytes.append(&mut word);
        word = u32_to_le_bytes(self.crc_b);
        bytes.append(&mut word);
        word = u32_to_le_bytes(self.size_a);
        bytes.append(&mut word);
        word = u32_to_le_bytes(self.size_b);
        bytes.append(&mut word);
        assert(bytes@ =~= self.layout());
        bytes
    }

    /// A record read back from its own bytes is the record that was written,
    /// whatever follows the 32 bytes.
    pub proof fn lemma_parse_layout(self, rest: Seq<u8>)
        ensures
            self.layout().len() == BOOT_DATA_SIZE,
            Self::parse(self.layout() + rest) == self,
    {
        lemma_auto_spec_u32_to_from_le_bytes();
        let b = self.layout() + rest;
        assert(b.subrange(0, 4) =~= spec_u32_to_le_bytes(self.magic));
        assert(b.subrange(8, 12) =~= spec_u32_to_le_bytes(self.version_a));
        assert(b.subrange(12, 16) =~= spec_u32_to_le_bytes(self.version_b));
        assert(b.subrange(16, 20) =~= spec_u32_to_le_bytes(self.crc_a));
        assert(b.subrange(20, 24) =~= spec_u32_to_le_bytes(self.crc_b));
        assert(b.subrange(24, 28) =~= spec_u32_to_le_bytes(self.size_a));
        assert(b.subrange(28, 32) =~= spec_u32_to_le_bytes(self.size_b));
    }
}

// --- Command / Response protocol ---

/// A request from the host.
#[derive(Debug, PartialEq, Eq)]
pub enum Command {
    GetStatus,
    StartUpdate { bank: u8, size: u32, crc32: u32, version: u32 },
    DataBlock { offset: u32, data: Vec<u8> },
    FinishUpdate,
    Reboot,
    /// Set the active bank for the next boot (without uploading firmware).
    SetActiveBank { bank: u8 },
    /// Reset the boot record, which marks both banks as empty.
    WipeAll,
}

/// The bootloader's answer to a command.
#[derive(Debug, Clone, Copy, PartialEq, Eq, Structural)]
pub enum Response {
    Ack(AckStatus),
    Status { active_bank: u8, version_a: u32, version_b: u32, state: BootState },
}

/// Outcome of a command, in wire order.
#[derive(Debug, Clone, Copy, PartialEq, Eq, Structural)]
pub enum AckStatus {
    /// The command was carried out.
    Okay,
    CrcError,
    FlashError,
    BadCommand,
    BadState,
    BankInvalid,
}

/// What the bootloader reports of itself, in wire order.
#[derive(Debug, Clone, Copy, PartialEq, Eq, Structural)]
pub enum BootState {
    Idle,
    UpdateMode,
    Receiving,
}

impl AckStatus {
    /// The name of the status as the protocol prints it.
    pub open spec fn name_spec(self) -> Seq<char> {
        match self {
            AckStatus::Okay => "Ok"@,
            AckStatus::CrcError => "CrcError"@,
            AckStatus::FlashError => "FlashError"@,
            AckStatus::BadCommand => "BadCommand"@,
            AckStatus::BadState => "BadState"@,
            AckStatus::BankInvalid => "BankInvalid"@,
        }
    }

    /// The name of the status as the protocol prints it.
    pub fn name(&self) -> (name: &'static str)
        ensures
            name@ == self.name_spec(),
    {
        match self {
            AckStatus::Okay => "Ok",
            AckStatus::CrcError => "CrcError",
            AckStatus::FlashError => "FlashError",
            AckStatus::BadCommand => "BadCommand",
            AckStatus::BadState => "BadState",
            AckStatus::BankInvalid => "BankInvalid",
        }
    }
}

} // verus!
