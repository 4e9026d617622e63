//! The firmware update protocol engine.
//!
//! The engine is a state machine with two states, `Idle` and `Receiving`. It
//! decides; it performs nothing. For each command it is handed what the flash
//! holds that the decision depends on: the boot record, and for the two
//! commands that verify an image the CRC-32 of the range that `crc_range`
//! names. It answers with a `Reaction`: the next state, the flash operations to
//! carry out, the response to send after them, and whether to reset.
//! `run_command` is the engine driven against the memory model of the flash.

use vstd::prelude::*;
use crate::crc32::crc32;
use crate::flash::{
    apply_ops, boot_data_ops, boot_data_write_ops, compute_crc32, erased, execute, in_flash,
    lemma_boot_data_ops, lemma_boot_data_round_trip, lemma_program_erased, ops_valid, programmed,
    read_boot_data, region, stored_boot_data, with_boot_data, Flash, FlashOp, BOOT_DATA_OFFSET,
    ERASED_BYTE, FLASH_SIZE,
};
use crate::protocol::{
    bank_base, AckStatus, BootData, BootState, Command, Response, BOOT_DATA_ADDR, BOOT_DATA_SIZE,
    FLASH_BASE, FLASH_PAGE_SIZE, FLASH_SECTOR_SIZE, FW_A_ADDR, FW_BANK_SIZE, FW_B_ADDR,
    MAX_DATA_BLOCK_SIZE,
};

verus! {

/// Cycles that the device waits between the acknowledgement of `Reboot` and
/// the reset, so that the acknowledgement can drain: about one second at 12 MHz.
pub const REBOOT_DELAY_CYCLES: u32 = 12_000_000;

/// Update state machine states.
#[derive(Clone, Copy, Debug, PartialEq, Eq, Structural)]
pub enum UpdateState {
    /// Waiting for a new update to start.
    Idle,
    /// Actively receiving firmware data.
    Receiving {
        bank: u8,
        bank_addr: u32,
        expected_size: u32,
        expected_crc: u32,
        version: u32,
        bytes_received: u32,
    },
}

/// What the engine asks of its driver, in this order: carry out `ops`, send
/// `response`, and if `reset` is set, wait `REBOOT_DELAY_CYCLES` for the
/// response to drain and reset the CPU.
#[derive(Debug)]
pub struct Reaction {
    pub state: UpdateState,
    pub ops: Vec<FlashOp>,
    pub response: Response,
    pub reset: bool,
}

// --- Model ---

/// What a command does to the flash.
pub enum FlashWrite {
    /// The flash is left as it is.
    Nothing,
    /// `size` bytes at the flash-relative `offset` are erased.
    Erase { offset: u32, size: u32 },
    /// `data` is programmed at the flash-relative `offset`.
    Program { offset: u32, data: Seq<u8> },
    /// The boot record is replaced.
    BootRecord(BootData),
}

/// What the engine decides for one command.
pub struct Decision {
    pub state: UpdateState,
    pub write: FlashWrite,
    pub response: Response,
    pub reset: bool,
}

/// `len` rounded up to a multiple of `unit`.
pub open spec fn round_up(len: int, unit: int) -> int {
    ((len + unit - 1) / unit) * unit
}

/// `data` padded with erased bytes to a whole number of pages.
pub open spec fn page_padded(data: Seq<u8>) -> Seq<u8> {
    data + Seq::new(
        (round_up(data.len() as int, FLASH_PAGE_SIZE as int) - data.len()) as nat,
        |i: int| ERASED_BYTE,
    )
}

/// The boot record after an upload to `bank` was committed.
pub open spec fn committed(bd: BootData, bank: u8, size: u32, crc: u32, version: u32) -> BootData {
    if bank == 0 {
        BootData {
            active_bank: bank,
            confirmed: 0,
            boot_attempts: 0,
            version_a: version,
            crc_a: crc,
            size_a: size,
            ..bd
        }
    } else {
        BootData {
            active_bank: bank,
            confirmed: 0,
            boot_attempts: 0,
            version_b: version,
            crc_b: crc,
            size_b: size,
            ..bd
        }
    }
}

/// The boot record after `bank` was made the active bank.
pub open spec fn activated(bd: BootData, bank: u8) -> BootData {
    BootData { active_bank: bank, confirmed: 0, boot_attempts: 0, ..bd }
}

/// Size that the record holds for `bank`.
pub open spec fn recorded_size(bd: BootData, bank: u8) -> u32 {
    if bank == 0 {
        bd.size_a
    } else {
        bd.size_b
    }
}

/// CRC that the record holds for `bank`.
pub open spec fn recorded_crc(bd: BootData, bank: u8) -> u32 {
    if bank == 0 {
        bd.crc_a
    } else {
        bd.crc_b
    }
}

impl UpdateState {
    /// A session targets one of the two banks at its base address, expects an
    /// image that fits the bank, and has received no more than it expects.
    pub open spec fn wf(self) -> bool {
        match self {
            UpdateState::Idle => true,
            UpdateState::Receiving { bank, bank_addr, expected_size, bytes_received, .. } => {
                &&& bank <= 1
                &&& bank_addr == bank_base(bank)
                &&& 0 < expected_size <= FW_BANK_SIZE
                &&& bytes_received <= expected_size
            },
        }
    }

    /// Whether the state is a session that `StartUpdate` could have opened
    /// and data blocks advanced, or no session at all.
    pub fn is_well_formed(&self) -> (ok: bool)
        ensures
            ok == self.wf(),
    {
        match self {
            UpdateState::Idle => true,
            UpdateState::Receiving { bank, bank_addr, expected_size, bytes_received, .. } => {
                *bank <= 1 && *bank_addr == (if *bank == 0 {
                    FW_A_ADDR
                } else {
                    FW_B_ADDR
                }) && 0 < *expected_size && *expected_size <= FW_BANK_SIZE && *bytes_received
                    <= *expected_size
            },
        }
    }

    /// What `GetStatus` reports of this state.
    pub open spec fn reported(self) -> BootState {
        match self {
            UpdateState::Idle => BootState::UpdateMode,
            UpdateState::Receiving { .. } => BootState::Receiving,
        }
    }
}

impl FlashWrite {
    /// Whether the flash service accepts the write.
    pub open spec fn valid(self) -> bool {
        match self {
            FlashWrite::Nothing => true,
            FlashWrite::Erase { offset, size } => (FlashOp::Erase { offset, size }).valid(),
            FlashWrite::Program { offset, data } => {
                &&& data.len() % (FLASH_PAGE_SIZE as nat) == 0
                &&& offset + data.len() <= FLASH_SIZE
            },
            FlashWrite::BootRecord(_) => true,
        }
    }

    /// The flash after the write.
    pub open spec fn apply(self, mem: Seq<u8>) -> Seq<u8> {
        match self {
            FlashWrite::Nothing => mem,
            FlashWrite::Erase { offset, size } => erased(mem, offset as int, size as int),
            FlashWrite::Program { offset, data } => programmed(mem, offset as int, data),
            FlashWrite::BootRecord(bd) => with_boot_data(mem, bd),
        }
    }

    /// Whether `ops` are the flash operations that make up the write.
    pub open spec fn realized_by(self, ops: Seq<FlashOp>) -> bool {
        match self {
            FlashWrite::Nothing => ops.len() == 0,
            FlashWrite::Erase { offset, size } => {
                &&& ops.len() == 1
                &&& ops[0] == (FlashOp::Erase { offset, size })
            },
            FlashWrite::Program { offset, data } => {
                &&& ops.len() == 1
                &&& ops[0] matches FlashOp::Program { offset: at, data: bytes }
                &&& at == offset
                &&& bytes@ == data
            },
            FlashWrite::BootRecord(bd) => boot_data_ops(bd, ops),
        }
    }

    /// The operations that make up a write do to the flash what the write
    /// says, and the flash service accepts them if it accepts the write.
    pub proof fn lemma_realized(self, ops: Seq<FlashOp>, mem: Seq<u8>)
        requires
            self.realized_by(ops),
            mem.len() == FLASH_SIZE,
        ensures
            apply_ops(mem, ops) == self.apply(mem),
            self.valid() ==> ops_valid(ops),
    {
        match self {
            FlashWrite::Nothing => {},
            FlashWrite::Erase { offset, size } => {
                assert(ops.drop_last() =~= Seq::<FlashOp>::empty());
                assert(apply_ops(mem, ops.drop_last()) == mem);
            },
            FlashWrite::Program { offset, data } => {
                assert(ops.drop_last() =~= Seq::<FlashOp>::empty());
                assert(apply_ops(mem, ops.drop_last()) == mem);
            },
            FlashWrite::BootRecord(bd) => {
                lemma_boot_data_ops(mem, bd, ops);
                bd.lemma_parse_layout(Seq::empty());
            },
        }
    }
}

impl Decision {
    /// A command that is turned down: nothing changes but the response.
    pub open spec fn rejected(state: UpdateState, status: AckStatus) -> Decision {
        Decision { state, write: FlashWrite::Nothing, response: Response::Ack(status), reset: false }
    }
}

impl Reaction {
    /// Whether this reaction is what `decision` asks for.
    pub open spec fn realizes(self, decision: Decision) -> bool {
        &&& self.state == decision.state
        &&& self.response == decision.response
        &&& self.reset == decision.reset
        &&& decision.write.realized_by(self.ops@)
    }
}

/// `GetStatus`: reports the boot record and the state; changes nothing.
pub open spec fn get_status_decision(state: UpdateState, bd: BootData) -> Decision {
    Decision {
        state,
        write: FlashWrite::Nothing,
        response: Response::Status {
            active_bank: bd.active_bank,
            version_a: bd.version_a,
            version_b: bd.version_b,
            state: state.reported(),
        },
        reset: false,
    }
}

/// `StartUpdate`: from `Idle`, for a bank 0 or 1 and a size that fits the
/// bank, erases the sectors that the image will occupy and starts receiving.
pub open spec fn start_update_decision(
    state: UpdateState,
    bank: u8,
    size: u32,
    crc32: u32,
    version: u32,
) -> Decision {
    if !(state is Idle) {
        Decision::rejected(state, AckStatus::BadState)
    } else if bank > 1 || size == 0 || size > FW_BANK_SIZE {
        Decision::rejected(state, AckStatus::BankInvalid)
    } else {
        Decision {
            state: UpdateState::Receiving {
                bank,
                bank_addr: bank_base(bank),
                expected_size: size,
                expected_crc: crc32,
                version,
                bytes_received: 0,
            },
            write: FlashWrite::Erase {
                offset: (bank_base(bank) - FLASH_BASE) as u32,
                size: round_up(size as int, FLASH_SECTOR_SIZE as int) as u32,
            },
            response: Response::Ack(AckStatus::Okay),
            reset: false,
        }
    }
}

/// Whether a data block continues the session in `state`: it starts where the
/// last one ended, does not pass the expected size, and is no longer than a
/// block may be.
pub open spec fn block_accepted(state: UpdateState, offset: u32, data: Seq<u8>) -> bool {
    &&& state matches UpdateState::Receiving { expected_size, bytes_received, .. }
    &&& offset == bytes_received
    &&& bytes_received + data.len() <= expected_size
    &&& data.len() <= MAX_DATA_BLOCK_SIZE
}

/// `DataBlock`: a block that continues the session is programmed, padded to
/// whole pages, where the last one ended, and counted.
pub open spec fn data_block_decision(state: UpdateState, offset: u32, data: Seq<u8>) -> Decision {
    match state {
        UpdateState::Idle => Decision::rejected(state, AckStatus::BadState),
        UpdateState::Receiving {
            bank,
            bank_addr,
            expected_size,
            expected_crc,
            version,
            bytes_received,
        } => {
            if !block_accepted(state, offset, data) {
                Decision::rejected(state, AckStatus::BadCommand)
            } else {
                Decision {
                    state: UpdateState::Receiving {
                        bank,
                        bank_addr,
                        expected_size,
                        expected_crc,
                        version,
                        bytes_received: (bytes_received + data.len()) as u32,
                    },
                    write: FlashWrite::Program {
                        offset: (bank_addr - FLASH_BASE + bytes_received) as u32,
                        data: page_padded(data),
                    },
                    response: Response::Ack(AckStatus::Okay),
                    reset: false,
                }
            }
        },
    }
}

/// `FinishUpdate`: once everything was received, the image is committed if
/// `actual_crc`, the CRC-32 of what the bank holds, is the one announced. A
/// wrong CRC ends the session; missing data does not.
pub open spec fn finish_update_decision(state: UpdateState, bd: BootData, actual_crc: u32) -> Decision {
    match state {
        UpdateState::Idle => Decision::rejected(state, AckStatus::BadState),
        UpdateState::Receiving { bank, expected_size, expected_crc, version, bytes_received, .. } => {
            if bytes_received != expected_size {
                Decision::rejected(state, AckStatus::BadCommand)
            } else if actual_crc != expected_crc {
                Decision::rejected(UpdateState::Idle, AckStatus::CrcError)
            } else {
                Decision {
                    state: UpdateState::Idle,
                    write: FlashWrite::BootRecord(
                        committed(bd, bank, expected_size, expected_crc, version),
                    ),
                    response: Response::Ack(AckStatus::Okay),
                    reset: false,
                }
            }
        },
    }
}

/// `Reboot`: acknowledges, then resets.
pub open spec fn reboot_decision(state: UpdateState) -> Decision {
    Decision {
        state,
        write: FlashWrite::Nothing,
        response: Response::Ack(AckStatus::Okay),
        reset: true,
    }
}

/// `SetActiveBank`: from `Idle`, a bank 0 or 1 that holds an image whose
/// recorded CRC is `actual_crc`, the CRC-32 of what the bank holds, becomes the
/// active bank.
pub open spec fn set_active_bank_decision(
    state: UpdateState,
    bank: u8,
    bd: BootData,
    actual_crc: u32,
) -> Decision {
    if !(state is Idle) {
        Decision::rejected(state, AckStatus::BadState)
    } else if bank > 1 || recorded_size(bd, bank) == 0 {
        Decision::rejected(state, AckStatus::BankInvalid)
    } else if actual_crc != recorded_crc(bd, bank) {
        Decision::rejected(state, AckStatus::CrcError)
    } else {
        Decision {
            state,
            write: FlashWrite::BootRecord(activated(bd, bank)),
            response: Response::Ack(AckStatus::Okay),
            reset: false,
        }
    }
}

/// `WipeAll`: from `Idle`, replaces the boot record with a fresh one.
pub open spec fn wipe_all_decision(state: UpdateState) -> Decision {
    if !(state is Idle) {
        Decision::rejected(state, AckStatus::BadState)
    } else {
        Decision {
            state,
            write: FlashWrite::BootRecord(BootData::default_spec()),
            response: Response::Ack(AckStatus::Okay),
            reset: false,
        }
    }
}

/// The flash range whose CRC-32 the decision on `cmd` depends on, as address
/// and size: the received image for a complete `FinishUpdate`, the recorded
/// image for a `SetActiveBank` that names a bank in use.
pub open spec fn crc_range_of(state: UpdateState, cmd: Command, bd: BootData) -> Option<(u32, u32)> {
    match cmd {
        Command::FinishUpdate => match state {
            UpdateState::Receiving { bank_addr, expected_size, bytes_received, .. } => {
                if bytes_received == expected_size {
                    Some((bank_addr, expected_size))
                } else {
                    None
                }
            },
            UpdateState::Idle => None,
        },
        Command::SetActiveBank { bank } => {
            if state is Idle && bank <= 1 && recorded_size(bd, bank) != 0 {
                Some((bank_base(bank), recorded_size(bd, bank)))
            } else {
                None
            }
        },
        _ => None,
    }
}

/// What the engine decides for `cmd` in `state`, given the boot record `bd`
/// and the CRC-32 `actual_crc` of the range that `crc_range_of` names.
pub open spec fn decide(state: UpdateState, cmd: Command, bd: BootData, actual_crc: u32) -> Decision {
    match cmd {
        Command::GetStatus => get_status_decision(state, bd),
        Command::StartUpdate { bank, size, crc32, version } => start_update_decision(
            state,
            bank,
            size,
            crc32,
            version,
        ),
        Command::DataBlock { offset, data } => data_block_decision(state, offset, data@),
        Command::FinishUpdate => finish_update_decision(state, bd, actual_crc),
        Command::Reboot => reboot_decision(state),
        Command::SetActiveBank { bank } => set_active_bank_decision(state, bank, bd, actual_crc),
        Command::WipeAll => wipe_all_decision(state),
    }
}

/// A device at rest: the flash model is whole, the boot record that it holds
/// is well formed, and so is the session.
pub open spec fn device_wf(mem: Seq<u8>, state: UpdateState) -> bool {
    &&& mem.len() == FLASH_SIZE
    &&& stored_boot_data(mem).wf()
    &&& state.wf()
}

/// The CRC-32 that the flash `mem` yields for the range that the decision on
/// `cmd` depends on; 0 where it depends on none.
pub open spec fn crc_in(mem: Seq<u8>, state: UpdateState, cmd: Command) -> u32 {
    match crc_range_of(state, cmd, stored_boot_data(mem)) {
        Some((addr, size)) => crc32(region(mem, addr as int, size as int)),
        None => 0,
    }
}

/// What the engine decides for `cmd` on a device whose flash holds `mem`.
pub open spec fn decision_on(mem: Seq<u8>, state: UpdateState, cmd: Command) -> Decision {
    decide(state, cmd, stored_boot_data(mem), crc_in(mem, state, cmd))
}

// --- Engine ---

fn reject(state: UpdateState, status: AckStatus) -> (reaction: Reaction)
    ensures
        reaction.realizes(Decision::rejected(state, status)),
{
    Reaction { state, ops: Vec::new(), response: Response::Ack(status), reset: false }
}

fn accept(state: UpdateState, ops: Vec<FlashOp>) -> (reaction: Reaction)
    ensures
        reaction.state == state,
        reaction.ops == ops,
        reaction.response == Response::Ack(AckStatus::Okay),
        !reaction.reset,
{
    Reaction { state, ops, response: Response::Ack(AckStatus::Okay), reset: false }
}

fn bank_address(bank: u8) -> (addr: u32)
    ensures
        addr == bank_base(bank),
{
    if bank == 0 {
        FW_A_ADDR
    } else {
        FW_B_ADDR
    }
}

/// Handle GetStatus command: return current bootloader status.
pub fn handle_get_status(state: UpdateState, bd: &BootData) -> (reaction: Reaction)
    ensures
        reaction.realizes(get_status_decision(state, *bd)),
{
    let boot_state = match state {
        UpdateState::Idle => BootState::UpdateMode,
        UpdateState::Receiving { .. } => BootState::Receiving,
    };
    Reaction {
        state,
        ops: Vec::new(),
        response: Response::Status {
            active_bank: bd.active_bank,
            version_a: bd.version_a,
            version_b: bd.version_b,
            state: boot_state,
        },
        reset: false,
    }
}

/// Handle StartUpdate command: validate parameters, erase bank, begin receiving.
pub fn handle_start_update(
    state: UpdateState,
    bank: u8,
    size: u32,
    crc32: u32,
    version: u32,
) -> (reaction: Reaction)
    ensures
        reaction.realizes(start_update_decision(state, bank, size, crc32, version)),
{
    // Must be in Idle state
    match state {
        UpdateState::Idle => {},
        UpdateState::Receiving { .. } => {
            return reject(state, AckStatus::BadState);
        },
    }

    // Validate bank number
    if bank > 1 {
        return reject(state, AckStatus::BankInvalid);
    }
    // Validate size

    if size == 0 || size > FW_BANK_SIZE {
        return reject(state, AckStatus::BankInvalid);
    }
    let bank_addr: u32 = bank_address(bank);

    // Erase the sectors that the image will occupy
    let erase_size: u32 = (size + (FLASH_SECTOR_SIZE - 1)) / FLASH_SECTOR_SIZE * FLASH_SECTOR_SIZE;
    let offset: u32 = bank_addr - FLASH_BASE;
    let mut ops: Vec<FlashOp> = Vec::new();
    ops.push(FlashOp::Erase { offset, size: erase_size });

    accept(
        UpdateState::Receiving {
            bank,
            bank_addr,
            expected_size: size,
            expected_crc: crc32,
            version,
            bytes_received: 0,
        },
        ops,
    )
}

/// Handle DataBlock command: validate offset, program flash.
pub fn handle_data_block(state: UpdateState, offset: u32, data: Vec<u8>) -> (reaction: Reaction)
    requires
        state.wf(),
    ensures
        reaction.realizes(data_block_decision(state, offset, data@)),
{
    let (bank, bank_addr, expected_size, expected_crc, version, bytes_received) = match state {
        UpdateState::Idle => {
            return reject(state, AckStatus::BadState);
        },
        UpdateState::Receiving {
            bank,
            bank_addr,
            expected_size,
            expected_crc,
            version,
            bytes_received,
        } => (bank, bank_addr, expected_size, expected_crc, version, bytes_received),
    };

    // Validate sequential offset
    if offset != bytes_received {
        return reject(state, AckStatus::BadCommand);
    }
    // Validate data doesn't exceed the block size or the expected size

    let actual_len: usize = data.len();
    if actual_len > MAX_DATA_BLOCK_SIZE {
        return reject(state, AckStatus::BadCommand);
    }
    let data_len: u32 = actual_len as u32;
    if bytes_received + data_len > expected_size {
        return reject(state, AckStatus::BadCommand);
    }
    // Pad data to 256-byte page boundary for flash programming

    let padded_len: usize = (actual_len + (FLASH_PAGE_SIZE as usize - 1)) / (FLASH_PAGE_SIZE as usize)
        * (FLASH_PAGE_SIZE as usize);
    let mut page_buf: Vec<u8> = data;
    while page_buf.len() < padded_len
        invariant
            actual_len <= page_buf@.len() <= padded_len,
            page_buf@ == data@ + Seq::new(
                (page_buf@.len() - actual_len) as nat,
                |i: int| ERASED_BYTE,
            ),
        decreases padded_len - page_buf@.len(),
    {
        page_buf.push(ERASED_BYTE);
        assert(page_buf@ =~= data@ + Seq::new(
            (page_buf@.len() - actual_len) as nat,
            |i: int| ERASED_BYTE,
        ));
    }

    let flash_offset: u32 = bank_addr - FLASH_BASE + bytes_received;
    let mut ops: Vec<FlashOp> = Vec::new();
    ops.push(FlashOp::Program { offset: flash_offset, data: page_buf });

    accept(
        UpdateState::Receiving {
            bank,
            bank_addr,
            expected_size,
            expected_crc,
            version,
            bytes_received: bytes_received + data_len,
        },
        ops,
    )
}

/// Handle FinishUpdate command: verify CRC, update BootData.
pub fn handle_finish_update(state: UpdateState, bd: &BootData, actual_crc: u32) -> (reaction:
    Reaction)
    ensures
        reaction.realizes(finish_update_decision(state, *bd, actual_crc)),
{
    let (bank, expected_size, expected_crc, version, bytes_received) = match state {
        UpdateState::Idle => {
            return reject(state, AckStatus::BadState);
        },
        UpdateState::Receiving {
            bank,
            expected_size,
            expected_crc,
            version,
            bytes_received,
            ..
        } => (bank, expected_size, expected_crc, version, bytes_received),
    };

    // Verify all data was received
    if bytes_received != expected_size {
        return reject(state, AckStatus::BadCommand);
    }
    // Verify CRC

    if actual_crc != expected_crc {
        return reject(UpdateState::Idle, AckStatus::CrcError);
    }
    // Update BootData

    let mut bd: BootData = *bd;
    bd.active_bank = bank;
    bd.confirmed = 0;  // unconfirmed until firmware confirms
    bd.boot_attempts = 0;

    if bank == 0 {
        bd.version_a = version;
        bd.crc_a = expected_crc;
        bd.size_a = expected_size;
    } else {
        bd.version_b = version;
        bd.crc_b = expected_crc;
        bd.size_b = expected_size;
    }

    accept(UpdateState::Idle, boot_data_write_ops(&bd))
}

/// Handle Reboot command: acknowledge, then reset the system.
pub fn handle_reboot(state: UpdateState) -> (reaction: Reaction)
    ensures
        reaction.realizes(reboot_decision(state)),
{
    Reaction { state, ops: Vec::new(), response: Response::Ack(AckStatus::Okay), reset: true }
}

/// Handle SetActiveBank command: change the active bank for next boot.
pub fn handle_set_active_bank(state: UpdateState, bank: u8, bd: &BootData, actual_crc: u32) -> (reaction:
    Reaction)
    ensures
        reaction.realizes(set_active_bank_decision(state, bank, *bd, actual_crc)),
{
    // Must be in Idle state
    match state {
        UpdateState::Idle => {},
        UpdateState::Receiving { .. } => {
            return reject(state, AckStatus::BadState);
        },
    }

    // Validate bank number
    if bank > 1 {
        return reject(state, AckStatus::BankInvalid);
    }
    // Check that the target bank has valid firmware

    let (size, crc) = if bank == 0 {
        (bd.size_a, bd.crc_a)
    } else {
        (bd.size_b, bd.crc_b)
    };

    if size == 0 {
        return reject(state, AckStatus::BankInvalid);
    }
    // Verify CRC of the target bank

    if actual_crc != crc {
        return reject(state, AckStatus::CrcError);
    }
    // Update BootData

    let mut bd: BootData = *bd;
    bd.active_bank = bank;
    bd.confirmed = 0;  // unconfirmed until firmware confirms
    bd.boot_attempts = 0;

    accept(state, boot_data_write_ops(&bd))
}

/// Handle WipeAll command: reset the boot record.
pub fn handle_wipe_all(state: UpdateState) -> (reaction: Reaction)
    ensures
        reaction.realizes(wipe_all_decision(state)),
{
    match state {
        UpdateState::Idle => {},
        UpdateState::Receiving { .. } => {
            return reject(state, AckStatus::BadState);
        },
    }
    accept(state, boot_data_write_ops(&BootData::default_new()))
}

/// The flash range that has to be check-summed before `cmd` can be handled,
/// as address and size; `None` if the decision depends on no CRC.
pub fn crc_range(state: UpdateState, cmd: &Command, bd: &BootData) -> (range: Option<(u32, u32)>)
    ensures
        range == crc_range_of(state, *cmd, *bd),
{
    match cmd {
        Command::FinishUpdate => match state {
            UpdateState::Receiving { bank_addr, expected_size, bytes_received, .. } => {
                if bytes_received == expected_size {
                    Some((bank_addr, expected_size))
                } else {
                    None
                }
            },
            UpdateState::Idle => None,
        },
        Command::SetActiveBank { bank } => {
            let size: u32 = if *bank == 0 {
                bd.size_a
            } else {
                bd.size_b
            };
            match state {
                UpdateState::Idle => {
                    if *bank <= 1 && size != 0 {
                        Some((bank_address(*bank), size))
                    } else {
                        None
                    }
                },
                UpdateState::Receiving { .. } => None,
            }
        },
        _ => None,
    }
}

/// Dispatch a command to its handler.
///
/// `bd` is the boot record as the flash holds it. `actual_crc` is the CRC-32
/// of the flash range that `crc_range` names for this command; where it names
/// none, the value is not looked at.
pub fn handle_command(state: UpdateState, cmd: Command, bd: &BootData, actual_crc: u32) -> (reaction:
    Reaction)
    requires
        state.wf(),
    ensures
        reaction.realizes(decide(state, cmd, *bd, actual_crc)),
        decide(state, cmd, *bd, actual_crc).write.valid(),
        decide(state, cmd, *bd, actual_crc).state.wf(),
        ops_valid(reaction.ops@),
{
    let reaction = match cmd {
        Command::GetStatus => handle_get_status(state, bd),
        Command::StartUpdate { bank, size, crc32, version } => handle_start_update(
            state,
            bank,
            size,
            crc32,
            version,
        ),
        Command::DataBlock { offset, data } => handle_data_block(state, offset, data),
        Command::FinishUpdate => handle_finish_update(state, bd, actual_crc),
        Command::Reboot => handle_reboot(state),
        Command::SetActiveBank { bank } => handle_set_active_bank(state, bank, bd, actual_crc),
        Command::WipeAll => handle_wipe_all(state),
    };
    proof {
        let decision = decide(state, cmd, *bd, actual_crc);
        lemma_decision_keeps_session(state, cmd, *bd, actual_crc);
        decision.write.lemma_realized(reaction.ops@, Seq::new(FLASH_SIZE as nat, |i: int| 0u8));
    }
    reaction
}

/// Whatever the engine decides in a well-formed state, the flash service
/// accepts the write and the next state is well formed.
pub proof fn lemma_decision_keeps_session(
    state: UpdateState,
    cmd: Command,
    bd: BootData,
    actual_crc: u32,
)
    requires
        state.wf(),
    ensures
        decide(state, cmd, bd, actual_crc).write.valid(),
        decide(state, cmd, bd, actual_crc).state.wf(),
{
}

/// What `run_command` hands back: the next state, the response that was
/// due, and whether the device resets after sending it.
#[derive(Clone, Copy, Debug, PartialEq, Eq, Structural)]
pub struct Served {
    pub state: UpdateState,
    pub response: Response,
    pub reset: bool,
}

/// Serves one command on the memory model of the flash: reads the boot
/// record, checksums the range that the command depends on, lets the engine
/// decide and carries out what it asks for.
pub fn run_command(flash: &mut Flash, state: UpdateState, cmd: Command) -> (served: Served)
    requires
        device_wf(old(flash)@, state),
    ensures
        final(flash)@ == decision_on(old(flash)@, state, cmd).write.apply(old(flash)@),
        served.state == decision_on(old(flash)@, state, cmd).state,
        served.response == decision_on(old(flash)@, state, cmd).response,
        served.reset == decision_on(old(flash)@, state, cmd).reset,
        device_wf(final(flash)@, served.state),
{
    let bd = read_boot_data(flash);
    let actual_crc: u32 = match crc_range(state, &cmd, &bd) {
        Some((addr, size)) => compute_crc32(flash, addr, size),
        None => 0,
    };
    proof {
        lemma_decision_keeps_device(flash@, state, cmd);
    }
    let ghost decision = decide(state, cmd, bd, actual_crc);
    let reaction = handle_command(state, cmd, &bd, actual_crc);
    proof {
        decision.write.lemma_realized(reaction.ops@, flash@);
    }
    execute(flash, &reaction.ops);
    Served { state: reaction.state, response: reaction.response, reset: reaction.reset }
}

// --- Laws ---

/// A flash that agrees with `mem` on the 32 bytes of the boot record holds
/// the same record.
proof fn lemma_same_record(mem: Seq<u8>, after: Seq<u8>)
    requires
        mem.len() == FLASH_SIZE,
        after.len() == FLASH_SIZE,
        forall|i: int|
            BOOT_DATA_OFFSET <= i < BOOT_DATA_OFFSET + BOOT_DATA_SIZE ==> after[i] == mem[i],
    ensures
        stored_boot_data(after) == stored_boot_data(mem),
{
    assert(region(after, BOOT_DATA_ADDR as int, BOOT_DATA_SIZE as int) =~= region(
        mem,
        BOOT_DATA_ADDR as int,
        BOOT_DATA_SIZE as int,
    ));
}

/// Whatever the engine decides on a device at rest, the CRC range it asks for
/// lies in the flash, the flash service accepts the write, and the device is
/// at rest again afterwards: no command but a commit, a change of the active
/// bank or a wipe touches the boot record, and those store a well-formed one.
pub proof fn lemma_decision_keeps_device(mem: Seq<u8>, state: UpdateState, cmd: Command)
    requires
        device_wf(mem, state),
    ensures
        crc_range_of(state, cmd, stored_boot_data(mem)) matches Some((addr, size)) ==> in_flash(
            addr as int,
            size as int,
        ),
        decision_on(mem, state, cmd).write.valid(),
        device_wf(decision_on(mem, state, cmd).write.apply(mem), decision_on(mem, state, cmd).state),
        !(decision_on(mem, state, cmd).write is BootRecord) ==> stored_boot_data(
            decision_on(mem, state, cmd).write.apply(mem),
        ) == stored_boot_data(mem),
{
    let bd = stored_boot_data(mem);
    let decision = decision_on(mem, state, cmd);
    let after = decision.write.apply(mem);
    match decision.write {
        FlashWrite::Nothing => {},
        FlashWrite::Erase { offset, size } => {
            assert(cmd is StartUpdate);
            lemma_same_record(mem, after);
        },
        FlashWrite::Program { offset, data } => {
            assert(cmd is DataBlock);
            let payload = cmd->DataBlock_data@;
            assert(data == page_padded(payload));
            assert forall|i: int|
                BOOT_DATA_OFFSET <= i < BOOT_DATA_OFFSET + BOOT_DATA_SIZE implies after[i]
                == mem[i] by {
                if offset <= i < offset + data.len() {
                    assert(data[i - offset] == ERASED_BYTE);
                    lemma_program_erased(mem[i]);
                }
            }
            lemma_same_record(mem, after);
        },
        FlashWrite::BootRecord(record) => {
            lemma_boot_data_round_trip(mem, record);
        },
    }
}

/// A command that is not acknowledged with `Okay` leaves the flash as it is.
/// It leaves the session as it is too, with one exception: a `FinishUpdate`
/// whose CRC check fails ends the session.
pub proof fn lemma_rejection_changes_nothing(
    state: UpdateState,
    cmd: Command,
    bd: BootData,
    actual_crc: u32,
)
    ensures
        ({
            let decision = decide(state, cmd, bd, actual_crc);
            decision.response != Response::Ack(AckStatus::Okay) && decision.response is Ack ==> {
                &&& decision.write is Nothing
                &&& !decision.reset
                &&& if cmd is FinishUpdate && decision.response == Response::Ack(
                    AckStatus::CrcError,
                ) {
                    decision.state is Idle
                } else {
                    decision.state == state
                }
            }
        }),
{
}

/// Every data block that is accepted starts where the last one ended, and
/// advances the count of received bytes by its length.
pub proof fn lemma_accepted_block_is_sequential(state: UpdateState, offset: u32, data: Seq<u8>)
    requires
        data_block_decision(state, offset, data).response == Response::Ack(AckStatus::Okay),
    ensures
        state matches UpdateState::Receiving { bytes_received: before, .. } && offset == before
            && (data_block_decision(state, offset, data).state matches UpdateState::Receiving {
            bytes_received: after,
            ..
        } && after == before + data.len()),
{
}

/// After a `FinishUpdate` that was acknowledged, the flash holds the record
/// of the commit: a `GetStatus` in any later state reports the session's bank
/// as active with the session's version, and the CRC-32 of the image in that
/// bank is the one that was announced.
pub proof fn lemma_committed_update_is_reported(mem: Seq<u8>, state: UpdateState, later: UpdateState)
    requires
        device_wf(mem, state),
        decision_on(mem, state, Command::FinishUpdate).response == Response::Ack(AckStatus::Okay),
    ensures
        ({
            let after = decision_on(mem, state, Command::FinishUpdate).write.apply(mem);
            &&& state matches UpdateState::Receiving {
                bank,
                bank_addr,
                expected_size,
                expected_crc,
                version,
                ..
            }
            &&& decision_on(mem, state, Command::FinishUpdate).state is Idle
            &&& stored_boot_data(after) == committed(
                stored_boot_data(mem),
                bank,
                expected_size,
                expected_crc,
                version,
            )
            &&& decision_on(after, later, Command::GetStatus).response matches Response::Status {
                active_bank,
                version_a,
                version_b,
                state: reported,
            }
            &&& active_bank == bank
            &&& (if bank == 0 {
                version_a
            } else {
                version_b
            }) == version
            &&& reported == later.reported()
            &&& crc32(region(after, bank_base(bank) as int, expected_size as int)) == expected_crc
        }),
{
    let bd = stored_boot_data(mem);
    let decision = decision_on(mem, state, Command::FinishUpdate);
    let after = decision.write.apply(mem);
    assert(state is Receiving);
    let bank = state->bank;
    let size = state->expected_size;
    let record = committed(bd, bank, size, state->expected_crc, state->version);
    assert(decision.write == FlashWrite::BootRecord(record));
    lemma_boot_data_round_trip(mem, record);
    assert(in_flash(bank_base(bank) as int, size as int) && bank_base(bank) + size
        <= BOOT_DATA_ADDR);
    assert(region(after, bank_base(bank) as int, size as int) == region(
        mem,
        bank_base(bank) as int,
        size as int,
    ));
}

} // verus!
