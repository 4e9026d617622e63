//! What running firmware does to the flash: confirm that it booted, choose
//! the bank for the next boot, and update itself.
//!
//! Each decision is a function on the boot record. The functions on `Flash`
//! put them together with the reads and writes, on the memory model; on the
//! device the caller does the reads and writes itself.

use vstd::prelude::*;
use crate::crc32::{crc32, Crc32};
use crate::flash::{
    boot_data_write_ops, erased, execute, flash_erase, flash_program, flash_read, in_flash,
    lemma_boot_data_ops, programmed, region, with_boot_data, Flash,
};
use crate::protocol::{
    bank_base, BootData, BOOT_DATA_ADDR, BOOT_DATA_SIZE, FLASH_BASE, FLASH_PAGE_SIZE,
    FLASH_SECTOR_SIZE, FW_A_ADDR, FW_BANK_SIZE, FW_B_ADDR,
};

verus! {

// --- Model ---

/// The boot record exactly as the flash holds it, magic or no magic.
pub open spec fn raw_boot_data(mem: Seq<u8>) -> BootData {
    BootData::parse(region(mem, BOOT_DATA_ADDR as int, BOOT_DATA_SIZE as int))
}

/// The record to start from when the firmware rewrites it: the one in flash
/// if it is valid, a fresh one otherwise.
pub open spec fn base_record(bd: BootData) -> BootData {
    bd.or_default_spec()
}

/// Whether a confirmation changes the record: it is valid and not yet
/// confirmed.
pub open spec fn confirmation_due(bd: BootData) -> bool {
    bd.is_valid_spec() && bd.confirmed != 1
}

/// The record after the firmware confirmed its boot.
pub open spec fn confirmed_record(bd: BootData) -> BootData {
    BootData { confirmed: 1, boot_attempts: 0, ..bd }
}

/// The record after the firmware chose `bank` for the next boot.
pub open spec fn activated_record(bd: BootData, bank: u8) -> BootData {
    BootData { active_bank: bank, confirmed: 0, boot_attempts: 0, ..base_record(bd) }
}

/// The record after the firmware wrote an image to `bank`.
pub open spec fn described_record(bd: BootData, bank: u8, size: u32, crc: u32, version: u32) -> BootData {
    if bank == 0 {
        BootData { size_a: size, crc_a: crc, version_a: version, ..base_record(bd) }
    } else {
        BootData { size_b: size, crc_b: crc, version_b: version, ..base_record(bd) }
    }
}

// --- Decisions on the record ---

/// Confirms the boot on the record `bd`: whether the boot counts as
/// confirmed, and the record to write if it has to change. An invalid record
/// cannot be confirmed; a confirmed one is left alone.
pub fn confirm_record(bd: &BootData) -> (result: (bool, Option<BootData>))
    ensures
        result.0 == bd.is_valid_spec(),
        result.1 == if confirmation_due(*bd) {
            Some(confirmed_record(*bd))
        } else {
            None
        },
{
    if !bd.is_valid() {
        return (false, None);
    }
    if bd.confirmed == 1 {
        return (true, None);  // Already confirmed
    }
    let mut bd: BootData = *bd;
    bd.confirmed = 1;
    bd.boot_attempts = 0;
    (true, Some(bd))
}

/// The record to write so that `bank` is booted next: unconfirmed, no
/// attempts counted. There is none for a bank other than 0 and 1.
pub fn activate_record(bd: &BootData, bank: u8) -> (record: Option<BootData>)
    ensures
        record == if bank > 1 {
            None
        } else {
            Some(activated_record(*bd, bank))
        },
{
    if bank > 1 {
        return None;
    }
    let mut bd: BootData = bd.or_default();
    bd.active_bank = bank;
    bd.confirmed = 0;
    bd.boot_attempts = 0;
    Some(bd)
}

/// The record to write after an image of `size` bytes with checksum `crc`
/// and version `version` was written to `bank`.
pub fn describe_record(bd: &BootData, bank: u8, size: u32, crc: u32, version: u32) -> (record:
    BootData)
    ensures
        record == described_record(*bd, bank, size, crc, version),
{
    let mut bd: BootData = bd.or_default();
    if bank == 0 {
        bd.size_a = size;
        bd.crc_a = crc;
        bd.version_a = version;
    } else {
        bd.size_b = size;
        bd.crc_b = crc;
        bd.version_b = version;
    }
    bd
}

/// The bank that is not active in `bd`: bank 1 if the record is valid and
/// bank 0 is active, bank 0 otherwise.
pub fn inactive_bank_of(bd: &BootData) -> (bank: u8)
    ensures
        bank == if bd.is_valid_spec() && bd.active_bank == 0 {
            1u8
        } else {
            0u8
        },
{
    if bd.is_valid() && bd.active_bank == 0 {
        1
    } else {
        0
    }
}

/// Get the flash address for a bank.
pub fn bank_address(bank: u8) -> (addr: u32)
    ensures
        addr == bank_base(bank),
{
    if bank == 0 {
        FW_A_ADDR
    } else {
        FW_B_ADDR
    }
}

// --- On the flash ---

/// Read BootData from flash, as it is.
pub fn read_boot_data(flash: &Flash) -> (bd: BootData)
    requires
        flash.wf(),
    ensures
        bd == raw_boot_data(flash@),
{
    BootData::read_from(flash_read(flash, BOOT_DATA_ADDR, BOOT_DATA_SIZE))
}

/// Write BootData to flash: its sector is erased, its page programmed.
pub fn write_boot_data(flash: &mut Flash, bd: &BootData)
    requires
        old(flash).wf(),
    ensures
        final(flash).wf(),
        final(flash)@ == with_boot_data(old(flash)@, *bd),
{
    let ops = boot_data_write_ops(bd);
    proof {
        lemma_boot_data_ops(flash@, *bd, ops@);
    }
    execute(flash, &ops);
}

/// Confirm the current boot to the bootloader.
/// Sets confirmed=1 and boot_attempts=0 in BootData.
///
/// Returns true if confirmation was successful, false if BootData is invalid.
pub fn confirm_boot(flash: &mut Flash) -> (confirmed: bool)
    requires
        old(flash).wf(),
    ensures
        final(flash).wf(),
        confirmed == raw_boot_data(old(flash)@).is_valid_spec(),
        final(flash)@ == if confirmation_due(raw_boot_data(old(flash)@)) {
            with_boot_data(old(flash)@, confirmed_record(raw_boot_data(old(flash)@)))
        } else {
            old(flash)@
        },
{
    let bd = read_boot_data(flash);
    let (confirmed, record) = confirm_record(&bd);
    if let Some(record) = record {
        write_boot_data(flash, &record);
    }
    confirmed
}

/// Set the active bank for next boot.
///
/// Returns false if bank is invalid; the flash is then left as it is.
pub fn set_active_bank(flash: &mut Flash, bank: u8) -> (done: bool)
    requires
        old(flash).wf(),
    ensures
        final(flash).wf(),
        done == (bank <= 1),
        final(flash)@ == if bank <= 1 {
            with_boot_data(old(flash)@, activated_record(raw_boot_data(old(flash)@), bank))
        } else {
            old(flash)@
        },
{
    let bd = read_boot_data(flash);
    match activate_record(&bd, bank) {
        Some(record) => {
            write_boot_data(flash, &record);
            true
        },
        None => false,
    }
}

/// Get the inactive bank (opposite of current active bank).
pub fn inactive_bank(flash: &Flash) -> (bank: u8)
    requires
        flash.wf(),
    ensures
        bank == if raw_boot_data(flash@).is_valid_spec() && raw_boot_data(flash@).active_bank == 0 {
            1u8
        } else {
            0u8
        },
{
    let bd = read_boot_data(flash);
    inactive_bank_of(&bd)
}

/// Erase a firmware bank, sector by sector.
pub fn erase_bank(flash: &mut Flash, bank: u8)
    requires
        old(flash).wf(),
    ensures
        final(flash).wf(),
        final(flash)@ == erased(
            old(flash)@,
            bank_base(bank) - FLASH_BASE,
            FW_BANK_SIZE as int,
        ),
{
    let addr: u32 = bank_address(bank);
    let offset: u32 = addr - FLASH_BASE;

    // Erase entire bank (768KB = 192 sectors of 4KB)
    let num_sectors: u32 = FW_BANK_SIZE / FLASH_SECTOR_SIZE;

    let mut i: u32 = 0;
    while i < num_sectors
        invariant
            i <= num_sectors,
            num_sectors == FW_BANK_SIZE / FLASH_SECTOR_SIZE,
            offset == bank_base(bank) - FLASH_BASE,
            flash.wf(),
            flash@ == erased(old(flash)@, offset as int, i * FLASH_SECTOR_SIZE),
        decreases num_sectors - i,
    {
        let sector_offset: u32 = offset + i * FLASH_SECTOR_SIZE;
        let ghost before = flash@;
        flash_erase(flash, sector_offset, FLASH_SECTOR_SIZE);
        i += 1;
        assert(flash@ =~= erased(old(flash)@, offset as int, i * FLASH_SECTOR_SIZE));
    }
}

/// Write data to a firmware bank at the specified offset.
///
/// `data` must be whole pages and must not pass the end of the bank. The bank
/// has to be erased before: programming clears bits and sets none.
pub fn write_to_bank(flash: &mut Flash, bank: u8, offset: u32, data: &[u8])
    requires
        old(flash).wf(),
        data@.len() % (FLASH_PAGE_SIZE as nat) == 0,
        offset + data@.len() <= FW_BANK_SIZE,
    ensures
        final(flash).wf(),
        final(flash)@ == programmed(
            old(flash)@,
            bank_base(bank) - FLASH_BASE + offset,
            data@,
        ),
{
    let bank_addr: u32 = bank_address(bank);
    let flash_offset: u32 = (bank_addr - FLASH_BASE) + offset;
    flash_program(flash, flash_offset, data);
}

/// Update firmware metadata in BootData after writing firmware to a bank.
pub fn update_bank_metadata(flash: &mut Flash, bank: u8, size: u32, crc: u32, version: u32)
    requires
        old(flash).wf(),
    ensures
        final(flash).wf(),
        final(flash)@ == with_boot_data(
            old(flash)@,
            described_record(raw_boot_data(old(flash)@), bank, size, crc, version),
        ),
{
    let bd = read_boot_data(flash);
    let record = describe_record(&bd, bank, size, crc, version);
    write_boot_data(flash, &record);
}

/// Compute CRC32 of data in flash, bit by bit.
pub fn compute_crc32(flash: &Flash, addr: u32, size: u32) -> (sum: u32)
    requires
        flash.wf(),
        in_flash(addr as int, size as int),
    ensures
        sum == crc32(region(flash@, addr as int, size as int)),
{
    let mut engine = Crc32::new();
    engine.update(flash_read(flash, addr, size as usize));
    engine.finalize()
}

} // verus!
