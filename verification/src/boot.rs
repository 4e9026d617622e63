//! Boot management: memory layout, firmware validation, bank selection and
//! the plan of a normal boot.
//!
//! Validation reads the flash; selection and planning do not. They take the
//! validation results of the two banks as plain values, so that the whole
//! selection pass, rollback included, is a function that can be stated.

use vstd::prelude::*;
use vstd::bytes::{spec_u32_from_le_bytes, u32_from_le_bytes};
use vstd::slice::slice_subrange;
use crate::boot_fsm::{
    bank_metadata, boots_primary, fsm_decision, metadata_of, needs_rollback, rollback_due,
    rolled_back_pair, toggle_bank, toggled, BankPair, BankValidation,
};
use crate::crc32::crc32;
use crate::flash::{
    compute_crc32, flash_read, in_flash, read_boot_data, region, stored_boot_data, with_boot_data,
    write_boot_data, Flash,
};
use crate::protocol::{BootData, FW_BANK_SIZE, RAM_UPDATE_MAGIC};

verus! {

/// Number of bytes of an image that hold its initial stack pointer and its
/// reset vector.
pub const VECTOR_TABLE_SIZE: usize = 8;

/// Where things live: the two banks, the RAM that firmware is copied to and
/// runs from, and the boot record.
#[derive(Clone, Copy, Debug)]
pub struct MemoryLayout {
    /// Base address of bank A.
    pub fw_a: u32,
    /// Base address of bank B.
    pub fw_b: u32,
    /// RAM address that firmware is copied to.
    pub ram_base: u32,
    /// Number of bytes that are copied.
    pub copy_size: u32,
    /// Address of the boot record.
    pub boot_data: u32,
    /// First address of the RAM that firmware runs from.
    pub ram_start: u32,
    /// Last address of the RAM that firmware runs from.
    pub ram_end: u32,
}

impl MemoryLayout {
    /// The layout that the linker script defines, from the addresses of its
    /// symbols.
    pub fn from_linker(
        fw_a_entry: u32,
        fw_b_entry: u32,
        fw_ram_base: u32,
        fw_copy_size: u32,
        boot_data_addr: u32,
        fw_ram_start: u32,
        fw_ram_end: u32,
    ) -> (layout: Self)
        ensures
            layout == (MemoryLayout {
                fw_a: fw_a_entry,
                fw_b: fw_b_entry,
                ram_base: fw_ram_base,
                copy_size: fw_copy_size,
                boot_data: boot_data_addr,
                ram_start: fw_ram_start,
                ram_end: fw_ram_end,
            }),
    {
        Self {
            fw_a: fw_a_entry,
            fw_b: fw_b_entry,
            ram_base: fw_ram_base,
            copy_size: fw_copy_size,
            boot_data: boot_data_addr,
            ram_start: fw_ram_start,
            ram_end: fw_ram_end,
        }
    }

    /// Both banks lie in the mapped flash.
    pub open spec fn banks_in_flash(self) -> bool {
        &&& in_flash(self.fw_a as int, FW_BANK_SIZE as int)
        &&& in_flash(self.fw_b as int, FW_BANK_SIZE as int)
    }

    /// Whether `addr` lies in the RAM that firmware runs from.
    pub open spec fn holds(self, addr: u32) -> bool {
        self.ram_start <= addr <= self.ram_end
    }

    /// Base address of `bank`; any non-zero number means bank B.
    pub open spec fn bank(self, bank: u8) -> u32 {
        if bank == 0 {
            self.fw_a
        } else {
            self.fw_b
        }
    }

    /// Base address of `bank`; any non-zero number means bank B.
    pub fn bank_address(&self, bank: u8) -> (addr: u32)
        ensures
            addr == self.bank(bank),
    {
        if bank == 0 {
            self.fw_a
        } else {
            self.fw_b
        }
    }
}

/// The first two words of an image.
#[derive(Clone, Copy, Debug, PartialEq, Eq, Structural)]
pub struct VectorTable {
    pub initial_sp: u32,
    pub reset_vector: u32,
}

impl VectorTable {
    /// The vector table that the first 8 bytes of `bytes` hold: two
    /// little-endian words.
    pub open spec fn parse(bytes: Seq<u8>) -> VectorTable {
        VectorTable {
            initial_sp: spec_u32_from_le_bytes(bytes.subrange(0, 4)),
            reset_vector: spec_u32_from_le_bytes(bytes.subrange(4, 8)),
        }
    }

    /// An image can run from RAM if its stack and its entry point lie there.
    pub open spec fn plausible(self, layout: MemoryLayout) -> bool {
        layout.holds(self.initial_sp) && layout.holds(self.reset_vector)
    }

    /// Reads the vector table from the first 8 bytes of an image.
    pub fn read_from(bytes: &[u8]) -> (vt: Self)
        requires
            bytes@.len() >= VECTOR_TABLE_SIZE,
        ensures
            vt == Self::parse(bytes@),
    {
        Self {
            initial_sp: u32_from_le_bytes(slice_subrange(bytes, 0, 4)),
            reset_vector: u32_from_le_bytes(slice_subrange(bytes, 4, 8)),
        }
    }

    /// Whether stack pointer and reset vector both point into the RAM that
    /// firmware runs from.
    pub fn is_valid_for_ram_execution(&self, layout: &MemoryLayout) -> (valid: bool)
        ensures
            valid == self.plausible(*layout),
    {
        is_in_ram(self.initial_sp, layout) && is_in_ram(self.reset_vector, layout)
    }
}

/// Whether `addr` lies in the RAM that firmware runs from, bounds included.
pub fn is_in_ram(addr: u32, layout: &MemoryLayout) -> (inside: bool)
    ensures
        inside == layout.holds(addr),
{
    layout.ram_start <= addr && addr <= layout.ram_end
}

/// Check if update mode is requested via GP2 pin (LOW) or RAM magic flag.
///
/// `ram_flag` is the word at the flag address. It is cleared, so that the
/// request it may hold is served once.
pub fn check_update_trigger(gp2_is_low: bool, ram_flag: &mut u32) -> (requested: bool)
    ensures
        requested == (gp2_is_low || *old(ram_flag) == RAM_UPDATE_MAGIC),
        *final(ram_flag) == 0,
{
    let flag: u32 = *ram_flag;
    *ram_flag = 0;
    gp2_is_low || flag == RAM_UPDATE_MAGIC
}

// --- Validation ---

/// Whether an image is the one that was recorded: it is not empty, its
/// vector table `vt` is plausible, and the CRC-32 `actual_crc` of its `size`
/// bytes is the recorded `crc`.
pub open spec fn image_valid(
    vt: VectorTable,
    layout: MemoryLayout,
    size: u32,
    actual_crc: u32,
    crc: u32,
) -> bool {
    size != 0 && vt.plausible(layout) && actual_crc == crc
}

/// Whether the image at `addr` is plausible: its vector table points into RAM.
pub open spec fn basic_valid(mem: Seq<u8>, layout: MemoryLayout, addr: u32) -> bool {
    VectorTable::parse(region(mem, addr as int, VECTOR_TABLE_SIZE as int)).plausible(layout)
}

/// Whether the image at `addr` is the one that was recorded: it is not
/// empty, it is plausible, and the CRC-32 of its `size` bytes is `crc`.
pub open spec fn crc_valid(mem: Seq<u8>, layout: MemoryLayout, addr: u32, crc: u32, size: u32) -> bool {
    image_valid(
        VectorTable::parse(region(mem, addr as int, VECTOR_TABLE_SIZE as int)),
        layout,
        size,
        crc32(region(mem, addr as int, size as int)),
        crc,
    )
}

/// The validation results of `bank` against what `bd` records of it.
pub open spec fn validation_of(mem: Seq<u8>, layout: MemoryLayout, bd: BootData, bank: u8) -> BankValidation {
    BankValidation {
        crc_valid: crc_valid(
            mem,
            layout,
            layout.bank(bank),
            metadata_of(bd, bank).0,
            metadata_of(bd, bank).1,
        ),
        basic_valid: basic_valid(mem, layout, layout.bank(bank)),
    }
}

/// Whether the CRC-32 of an image has to be computed to validate it: not for
/// an image that is recorded as empty, and not for one whose vector table `vt`
/// is not plausible.
pub fn needs_crc_check(vt: &VectorTable, layout: &MemoryLayout, size: u32) -> (due: bool)
    ensures
        due == (size != 0 && vt.plausible(*layout)),
{
    size != 0 && vt.is_valid_for_ram_execution(layout)
}

/// Validates an image with full CRC check, from what was read of it: its
/// vector table `vt` and the CRC-32 `actual_crc` of its `size` bytes. Where
/// `needs_crc_check` says that no CRC is due, `actual_crc` is not looked at.
pub fn validate_image(
    vt: &VectorTable,
    layout: &MemoryLayout,
    size: u32,
    actual_crc: u32,
    crc: u32,
) -> (valid: bool)
    ensures
        valid == image_valid(*vt, *layout, size, actual_crc, crc),
{
    if size == 0 {
        return false;
    }
    if !vt.is_valid_for_ram_execution(layout) {
        return false;
    }
    actual_crc == crc
}

/// Simple validation without CRC, from the vector table of an image: stack
/// pointer and reset vector of a plausible image, and nothing for another.
pub fn entry_vectors(vt: &VectorTable, layout: &MemoryLayout) -> (vectors: Option<(u32, u32)>)
    ensures
        vectors == if vt.plausible(*layout) {
            Some((vt.initial_sp, vt.reset_vector))
        } else {
            None
        },
{
    if vt.is_valid_for_ram_execution(layout) {
        Some((vt.initial_sp, vt.reset_vector))
    } else {
        None
    }
}

/// The validation results of an image, from what was read of it.
pub fn validation(
    vt: &VectorTable,
    layout: &MemoryLayout,
    size: u32,
    actual_crc: u32,
    crc: u32,
) -> (result: BankValidation)
    ensures
        result == (BankValidation {
            crc_valid: image_valid(*vt, *layout, size, actual_crc, crc),
            basic_valid: vt.plausible(*layout),
        }),
{
    BankValidation {
        crc_valid: validate_image(vt, layout, size, actual_crc, crc),
        basic_valid: entry_vectors(vt, layout).is_some(),
    }
}

/// Validate a firmware bank with full CRC check.
/// Returns false if size == 0 (no firmware metadata); nothing is read then.
pub fn validate_bank_with_crc(flash: &Flash, layout: &MemoryLayout, addr: u32, crc: u32, size: u32) -> (valid:
    bool)
    requires
        flash.wf(),
        size != 0 ==> in_flash(addr as int, VECTOR_TABLE_SIZE as int),
        size != 0 ==> in_flash(addr as int, size as int),
    ensures
        valid == crc_valid(flash@, *layout, addr, crc, size),
{
    if size == 0 {
        return false;
    }
    let vt = VectorTable::read_from(flash_read(flash, addr, VECTOR_TABLE_SIZE));
    let actual_crc: u32 = if needs_crc_check(&vt, layout, size) {
        compute_crc32(flash, addr, size)
    } else {
        0
    };
    validate_image(&vt, layout, size, actual_crc, crc)
}

/// Simple vector table validation without CRC (fallback mode): stack pointer
/// and reset vector of a plausible image, and nothing for another.
pub fn validate_bank(flash: &Flash, layout: &MemoryLayout, flash_addr: u32) -> (vectors: Option<
    (u32, u32),
>)
    requires
        flash.wf(),
        in_flash(flash_addr as int, VECTOR_TABLE_SIZE as int),
    ensures
        vectors is Some <==> basic_valid(flash@, *layout, flash_addr),
        vectors matches Some((sp, reset)) ==> (VectorTable { initial_sp: sp, reset_vector: reset })
            == VectorTable::parse(region(flash@, flash_addr as int, VECTOR_TABLE_SIZE as int)),
{
    let vt = VectorTable::read_from(flash_read(flash, flash_addr, VECTOR_TABLE_SIZE));
    entry_vectors(&vt, layout)
}

/// Validates `bank` against what `bd` records of it.
pub fn validate(flash: &Flash, layout: &MemoryLayout, bd: &BootData, bank: u8) -> (validation:
    BankValidation)
    requires
        flash.wf(),
        layout.banks_in_flash(),
        bd.wf(),
    ensures
        validation == validation_of(flash@, *layout, *bd, bank),
{
    let addr: u32 = layout.bank_address(bank);
    let (crc, size) = bank_metadata(bd, bank);
    BankValidation {
        crc_valid: validate_bank_with_crc(flash, layout, addr, crc, size),
        basic_valid: validate_bank(flash, layout, addr).is_some(),
    }
}

// --- Selection ---

/// The record as the strategies see it: after three unconfirmed attempts the
/// other bank is the active one and the counters start afresh.
pub open spec fn rolled_back(bd: BootData) -> BootData {
    if rollback_due(bd) {
        BootData { active_bank: toggled(bd.active_bank), boot_attempts: 0, confirmed: 0, ..bd }
    } else {
        bd
    }
}

/// The validation results as primary and fallback of the bank `active`.
pub open spec fn ordered(active: u8, bank_a: BankValidation, bank_b: BankValidation) -> (
    BankValidation,
    BankValidation,
) {
    if active == 0 {
        (bank_a, bank_b)
    } else {
        (bank_b, bank_a)
    }
}

/// Whether the selection pass ends on the primary bank of the rolled-back
/// record.
pub open spec fn stays_on_primary(bd: BootData, bank_a: BankValidation, bank_b: BankValidation) -> bool {
    let (primary, fallback) = ordered(rolled_back(bd).active_bank, bank_a, bank_b);
    primary.crc_valid || (!fallback.crc_valid && (primary.basic_valid || !fallback.basic_valid))
}

/// One selection pass: the address to boot from and the record to persist.
///
/// After the rollback step, the first of these applies: the primary bank
/// validates with CRC and is booted with one more attempt counted; the
/// fallback validates with CRC and becomes the active bank, unconfirmed, at
/// its first attempt; the primary is plausible and is booted with one more
/// attempt counted; the fallback is plausible and becomes the active bank at
/// its first attempt. If none applies, the primary is returned with one more
/// attempt counted.
pub open spec fn selection(
    bd: BootData,
    layout: MemoryLayout,
    bank_a: BankValidation,
    bank_b: BankValidation,
) -> (u32, BootData) {
    let view = rolled_back(bd);
    let (primary, fallback) = ordered(view.active_bank, bank_a, bank_b);
    let other = toggled(view.active_bank);
    if primary.crc_valid {
        (
            layout.bank(view.active_bank),
            BootData { boot_attempts: (view.boot_attempts + 1) as u8, ..view },
        )
    } else if fallback.crc_valid {
        (layout.bank(other), BootData { active_bank: other, boot_attempts: 1, confirmed: 0, ..view })
    } else if primary.basic_valid {
        (
            layout.bank(view.active_bank),
            BootData { boot_attempts: (view.boot_attempts + 1) as u8, ..view },
        )
    } else if fallback.basic_valid {
        (layout.bank(other), BootData { active_bank: other, boot_attempts: 1, ..view })
    } else {
        (
            layout.bank(view.active_bank),
            BootData { boot_attempts: (view.boot_attempts + 1) as u8, ..view },
        )
    }
}

/// Whether the attempt counter has room for the selection pass: a pass that
/// stays on the primary bank counts one more attempt.
pub fn counter_has_room(bd: &BootData, bank_a: BankValidation, bank_b: BankValidation) -> (room:
    bool)
    ensures
        room == (stays_on_primary(*bd, bank_a, bank_b) ==> rolled_back(*bd).boot_attempts
            < u8::MAX),
{
    if needs_rollback(bd) {
        return true;
    }
    let (primary, fallback) = if bd.active_bank == 0 {
        (bank_a, bank_b)
    } else {
        (bank_b, bank_a)
    };
    let stays: bool = primary.crc_valid || (!fallback.crc_valid && (primary.basic_valid
        || !fallback.basic_valid));
    !stays || bd.boot_attempts < u8::MAX
}

/// Primary and fallback address of the active bank.
pub fn bank_addresses(bd: &BootData, layout: &MemoryLayout) -> (addrs: (u32, u32))
    ensures
        addrs == (layout.bank(bd.active_bank), layout.bank(toggled(bd.active_bank))),
{
    if bd.active_bank == 0 {
        (layout.fw_a, layout.fw_b)
    } else {
        (layout.fw_b, layout.fw_a)
    }
}

/// Select which bank to boot from, with automatic rollback on failure.
///
/// `bank_a` and `bank_b` are the validation results of the two banks against
/// what `bd` records of them. A pass that stays on the primary bank counts one
/// more attempt, so the counter must have room for it.
pub fn select_boot_bank(
    bd: &BootData,
    layout: &MemoryLayout,
    bank_a: BankValidation,
    bank_b: BankValidation,
) -> (selected: (u32, BootData))
    requires
        stays_on_primary(*bd, bank_a, bank_b) ==> rolled_back(*bd).boot_attempts < u8::MAX,
    ensures
        selected == selection(*bd, *layout, bank_a, bank_b),
{
    let mut bd: BootData = *bd;

    if needs_rollback(&bd) {
        bd.active_bank = toggle_bank(bd.active_bank);
        bd.boot_attempts = 0;
        bd.confirmed = 0;
    }
    let (primary_addr, fallback_addr) = bank_addresses(&bd, layout);
    let (primary, fallback) = if bd.active_bank == 0 {
        (bank_a, bank_b)
    } else {
        (bank_b, bank_a)
    };

    if primary.crc_valid {
        bd.boot_attempts += 1;
        return (primary_addr, bd);
    }
    if fallback.crc_valid {
        bd.active_bank = toggle_bank(bd.active_bank);
        bd.boot_attempts = 1;
        bd.confirmed = 0;
        return (fallback_addr, bd);
    }
    if primary.basic_valid {
        bd.boot_attempts += 1;
        return (primary_addr, bd);
    }
    if fallback.basic_valid {
        bd.active_bank = toggle_bank(bd.active_bank);
        bd.boot_attempts = 1;
        return (fallback_addr, bd);
    }
    bd.boot_attempts += 1;
    (primary_addr, bd)
}

// --- Normal boot ---

/// What a normal boot comes to.
#[derive(Clone, Copy, Debug, PartialEq, Eq, Structural)]
pub enum BootPlan {
    /// No firmware was ever uploaded: enter update mode, the flash untouched.
    NoFirmware,
    /// Persist `boot_data`, then enter update mode: the bank that was selected
    /// does not hold a plausible image.
    NoValidBank { boot_data: BootData },
    /// Persist `boot_data`, then copy the image at `flash_addr` to RAM and
    /// jump to it.
    Boot { flash_addr: u32, boot_data: BootData },
}

/// Whether the record says that no firmware was ever uploaded: it is valid
/// and names both banks as empty.
pub open spec fn no_firmware(bd: BootData) -> bool {
    bd.is_valid_spec() && bd.size_a == 0 && bd.size_b == 0
}

/// Whether the attempt counter has room for a normal boot: a boot that runs a
/// selection pass which stays on the primary bank counts one more attempt.
pub open spec fn boot_has_room(bd: BootData, bank_a: BankValidation, bank_b: BankValidation) -> bool {
    !no_firmware(bd) && stays_on_primary(bd, bank_a, bank_b) ==> rolled_back(bd).boot_attempts
        < u8::MAX
}

/// Whether the attempt counter has room for a normal boot.
pub fn counter_has_room_for_boot(bd: &BootData, bank_a: BankValidation, bank_b: BankValidation) -> (room:
    bool)
    ensures
        room == boot_has_room(*bd, bank_a, bank_b),
{
    if bd.is_valid() && bd.size_a == 0 && bd.size_b == 0 {
        return true;
    }
    counter_has_room(bd, bank_a, bank_b)
}

/// The plan of a normal boot: update mode if both banks are recorded as
/// empty; else one selection pass, whose record is persisted, and a jump if
/// the bank it selected is plausible.
pub open spec fn boot_plan(
    bd: BootData,
    layout: MemoryLayout,
    bank_a: BankValidation,
    bank_b: BankValidation,
) -> BootPlan {
    if no_firmware(bd) {
        BootPlan::NoFirmware
    } else {
        let (flash_addr, boot_data) = selection(bd, layout, bank_a, bank_b);
        let selected = if boot_data.active_bank == 0 {
            bank_a
        } else {
            bank_b
        };
        if selected.basic_valid {
            BootPlan::Boot { flash_addr, boot_data }
        } else {
            BootPlan::NoValidBank { boot_data }
        }
    }
}

/// Plans a normal boot from the boot record and the validation results of
/// the two banks.
pub fn plan_normal_boot(
    bd: &BootData,
    layout: &MemoryLayout,
    bank_a: BankValidation,
    bank_b: BankValidation,
) -> (plan: BootPlan)
    requires
        boot_has_room(*bd, bank_a, bank_b),
    ensures
        plan == boot_plan(*bd, *layout, bank_a, bank_b),
{
    // If BootData is valid but no firmware uploaded (both sizes 0), enter update mode
    if bd.is_valid() && bd.size_a == 0 && bd.size_b == 0 {
        return BootPlan::NoFirmware;
    }
    let (flash_addr, updated_bd) = select_boot_bank(bd, layout, bank_a, bank_b);
    let selected = if updated_bd.active_bank == 0 {
        bank_a
    } else {
        bank_b
    };
    if selected.basic_valid {
        BootPlan::Boot { flash_addr, boot_data: updated_bd }
    } else {
        BootPlan::NoValidBank { boot_data: updated_bd }
    }
}

/// The flash after a normal boot: the record of the plan is persisted, unless
/// no firmware was ever uploaded.
pub open spec fn flash_after_boot(mem: Seq<u8>, plan: BootPlan) -> Seq<u8> {
    match plan {
        BootPlan::NoFirmware => mem,
        BootPlan::NoValidBank { boot_data } => with_boot_data(mem, boot_data),
        BootPlan::Boot { boot_data, .. } => with_boot_data(mem, boot_data),
    }
}

/// Run the normal boot sequence on the memory model of the flash: read the
/// boot record, validate both banks, plan, and persist the record of the plan.
/// What is left to the caller is to enter update mode or to jump.
pub fn run_normal_boot(flash: &mut Flash, layout: &MemoryLayout) -> (plan: BootPlan)
    requires
        old(flash).wf(),
        layout.banks_in_flash(),
        stored_boot_data(old(flash)@).wf(),
        boot_has_room(
            stored_boot_data(old(flash)@),
            validation_of(old(flash)@, *layout, stored_boot_data(old(flash)@), 0),
            validation_of(old(flash)@, *layout, stored_boot_data(old(flash)@), 1),
        ),
    ensures
        final(flash).wf(),
        plan == boot_plan(
            stored_boot_data(old(flash)@),
            *layout,
            validation_of(old(flash)@, *layout, stored_boot_data(old(flash)@), 0),
            validation_of(old(flash)@, *layout, stored_boot_data(old(flash)@), 1),
        ),
        final(flash)@ == flash_after_boot(old(flash)@, plan),
{
    let bd = read_boot_data(flash);
    let bank_a = validate(flash, layout, &bd, 0);
    let bank_b = validate(flash, layout, &bd, 1);
    let plan = plan_normal_boot(&bd, layout, bank_a, bank_b);
    match plan {
        BootPlan::NoFirmware => {},
        BootPlan::NoValidBank { boot_data } => {
            write_boot_data(flash, &boot_data);
        },
        BootPlan::Boot { boot_data, .. } => {
            write_boot_data(flash, &boot_data);
        },
    }
    plan
}

// --- Handoff ---

/// NVIC register that clears pending interrupts.
pub const NVIC_ICPR: u32 = 0xE000_E280;

/// NVIC register that disables interrupts.
pub const NVIC_ICER: u32 = 0xE000_E180;

/// Vector table offset register of the system control block.
pub const SCB_VTOR: u32 = 0xE000_ED08;

/// One step of handing the machine over to firmware.
#[derive(Clone, Copy, Debug, PartialEq, Eq, Structural)]
pub enum HandoffStep {
    /// Copy `words` 32-bit words from `src` to `dst`.
    CopyWords { src: u32, dst: u32, words: u32 },
    /// Mask all maskable interrupts.
    DisableInterrupts,
    /// Write `value` to the register at `addr`.
    WriteRegister { addr: u32, value: u32 },
    /// Data and instruction synchronisation barriers.
    Barriers,
    /// Load the main stack pointer from the word at `vector_table` and the
    /// reset vector from the word after it, unmask interrupts, and branch to
    /// the reset vector. Control does not come back.
    Jump { vector_table: u32 },
}

/// The steps that start the image at `flash_addr`: copy it to RAM; with
/// interrupts masked, clear and disable every interrupt in the NVIC; point the
/// vector table at RAM, behind barriers; jump through the vector table in RAM.
/// The clocks are left as they are.
pub open spec fn handoff(flash_addr: u32, layout: MemoryLayout) -> Seq<HandoffStep> {
    seq![
        HandoffStep::CopyWords { src: flash_addr, dst: layout.ram_base, words: layout.copy_size / 4 },
        HandoffStep::DisableInterrupts,
        HandoffStep::WriteRegister { addr: NVIC_ICPR, value: 0xFFFF_FFFF },
        HandoffStep::WriteRegister { addr: NVIC_ICER, value: 0xFFFF_FFFF },
        HandoffStep::DisableInterrupts,
        HandoffStep::WriteRegister { addr: SCB_VTOR, value: layout.ram_base },
        HandoffStep::Barriers,
        HandoffStep::Jump { vector_table: layout.ram_base },
    ]
}

/// The steps that copy the image at `flash_addr` to RAM and jump to it, in
/// the order in which the caller takes them.
pub fn load_and_jump(flash_addr: u32, layout: &MemoryLayout) -> (steps: Vec<HandoffStep>)
    ensures
        steps@ == handoff(flash_addr, *layout),
{
    let mut steps: Vec<HandoffStep> = Vec::new();
    // copy the firmware to RAM
    steps.push(
        HandoffStep::CopyWords {
            src: flash_addr,
            dst: layout.ram_base,
            words: layout.copy_size / 4,
        },
    );
    // no stale interrupt may fire before the firmware has set up its vectors
    steps.push(HandoffStep::DisableInterrupts);
    steps.push(HandoffStep::WriteRegister { addr: NVIC_ICPR, value: 0xFFFF_FFFF });
    steps.push(HandoffStep::WriteRegister { addr: NVIC_ICER, value: 0xFFFF_FFFF });
    // relocate the vector table
    steps.push(HandoffStep::DisableInterrupts);
    steps.push(HandoffStep::WriteRegister { addr: SCB_VTOR, value: layout.ram_base });
    steps.push(HandoffStep::Barriers);
    steps.push(HandoffStep::Jump { vector_table: layout.ram_base });
    assert(steps@ =~= handoff(flash_addr, *layout));
    steps
}

// --- Laws ---

/// A device whose record is valid and names both banks as empty is not
/// booted: whatever the banks hold, the plan is update mode with the flash
/// untouched.
pub proof fn lemma_no_firmware_enters_update_mode(
    bd: BootData,
    layout: MemoryLayout,
    bank_a: BankValidation,
    bank_b: BankValidation,
    mem: Seq<u8>,
)
    requires
        no_firmware(bd),
    ensures
        boot_has_room(bd, bank_a, bank_b),
        boot_plan(bd, layout, bank_a, bank_b) == BootPlan::NoFirmware,
        flash_after_boot(mem, boot_plan(bd, layout, bank_a, bank_b)) == mem,
{
}

/// The selection pass and the bank-selection state machine agree: for a
/// record that names bank 0 or 1, the pass returns the address that the state
/// machine decides on and the record that its decision makes of the old one,
/// whether the state machine's pair was built on the recorded active bank or,
/// with a rollback due, on its complement.
pub proof fn lemma_selection_matches_fsm(
    bd: BootData,
    layout: MemoryLayout,
    bank_a: BankValidation,
    bank_b: BankValidation,
)
    requires
        bd.active_bank <= 1,
    ensures
        ({
            let banks = BankPair::validated(
                bd.active_bank,
                layout.fw_a,
                layout.fw_b,
                bd,
                bank_a,
                bank_b,
            );
            let decision = fsm_decision(bd, banks);
            &&& boots_primary(rolled_back_pair(bd, banks)) == stays_on_primary(bd, bank_a, bank_b)
            &&& selection(bd, layout, bank_a, bank_b) == (decision.flash_addr, decision.applied(bd))
            &&& rollback_due(bd) ==> fsm_decision(
                bd,
                BankPair::validated(
                    toggled(bd.active_bank),
                    layout.fw_a,
                    layout.fw_b,
                    bd,
                    bank_a,
                    bank_b,
                ),
            ) == decision
        }),
{
}

/// A confirmed image is never rolled back, however many attempts were
/// counted: the pass runs on the record as it is, and where it stays on the
/// primary bank it boots the recorded active bank and leaves the record
/// confirmed, with nothing changed but the counter. While the counter has
/// room it is advanced by one.
pub proof fn lemma_confirmed_never_rolls_back(
    bd: BootData,
    layout: MemoryLayout,
    bank_a: BankValidation,
    bank_b: BankValidation,
)
    requires
        bd.confirmed == 1,
    ensures
        rolled_back(bd) == bd,
        stays_on_primary(bd, bank_a, bank_b) ==> {
            &&& selection(bd, layout, bank_a, bank_b).0 == layout.bank(bd.active_bank)
            &&& selection(bd, layout, bank_a, bank_b).1.active_bank == bd.active_bank
            &&& selection(bd, layout, bank_a, bank_b).1.confirmed == 1
            &&& selection(bd, layout, bank_a, bank_b).1 == (BootData {
                boot_attempts: selection(bd, layout, bank_a, bank_b).1.boot_attempts,
                ..bd
            })
            &&& bd.boot_attempts < u8::MAX ==> selection(bd, layout, bank_a, bank_b).1.boot_attempts
                == bd.boot_attempts + 1
        },
{
}

/// After three unconfirmed attempts one selection pass starts afresh on the
/// other bank: the record it returns counts the first attempt and is
/// unconfirmed, its active bank is the complement of the recorded one exactly
/// if the pass stays on the bank it rolled back to, and the address is that
/// of the active bank it returns.
pub proof fn lemma_rollback_selects_other_bank(
    bd: BootData,
    layout: MemoryLayout,
    bank_a: BankValidation,
    bank_b: BankValidation,
)
    requires
        bd.active_bank <= 1,
        rollback_due(bd),
    ensures
        ({
            let (flash_addr, updated) = selection(bd, layout, bank_a, bank_b);
            &&& updated.boot_attempts == 1
            &&& updated.confirmed == 0
            &&& stays_on_primary(bd, bank_a, bank_b) <==> updated.active_bank == toggled(
                bd.active_bank,
            )
            &&& !stays_on_primary(bd, bank_a, bank_b) <==> updated.active_bank == bd.active_bank
            &&& flash_addr == layout.bank(updated.active_bank)
        }),
{
}

} // verus!
