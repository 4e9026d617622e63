//! The host's side of the protocol: the commands that an upload consists of,
//! and what the host makes of the bootloader's answers.

use vstd::prelude::*;
use vstd::slice::{slice_subrange, slice_to_vec};
use crate::crc32::{checksum, crc32};
use crate::protocol::{AckStatus, Command, Response, MAX_DATA_BLOCK_SIZE};

verus! {

/// Number of firmware bytes that one data block carries.
pub const CHUNK_SIZE: usize = MAX_DATA_BLOCK_SIZE;

/// Time, in milliseconds, that the host waits for an answer.
pub const DEFAULT_TIMEOUT_MS: u64 = 5000;

/// Time, in milliseconds, that the host waits for the answer to
/// `StartUpdate`, which erases the bank before it answers.
pub const ERASE_TIMEOUT_MS: u64 = 60_000;

/// Why the host gives up on a command.
#[derive(Clone, Copy, Debug, PartialEq, Eq, Structural)]
pub enum CommandError {
    /// `StartUpdate` was turned down.
    StartRejected { status: AckStatus },
    /// The data block at `offset` was turned down.
    BlockRejected { offset: u32, status: AckStatus },
    /// The image that arrived does not have the CRC that was announced.
    CrcFailed,
    /// `FinishUpdate` was turned down for another reason.
    FinishRejected { status: AckStatus },
    /// `SetActiveBank` named a bank that is not 0 or 1, or one that is empty.
    InvalidBank,
    /// `SetActiveBank` named a bank whose image fails its CRC check.
    NoValidFirmware { bank: u8 },
    /// `SetActiveBank` was turned down for another reason.
    SetBankRejected { status: AckStatus },
    /// `WipeAll` arrived while an upload was in progress.
    NotIdle,
    /// `WipeAll` was turned down for another reason.
    WipeRejected { status: AckStatus },
    /// `Reboot` was turned down.
    RebootRejected { status: AckStatus },
    /// A status report arrived where the acknowledgement of the data block at
    /// `offset` was due.
    UnexpectedBlockResponse { offset: u32, response: Response },
    /// A status report arrived where an acknowledgement was due.
    UnexpectedResponse { response: Response },
}

// --- Model ---

/// Number of data blocks that carry `len` bytes.
pub open spec fn block_count(len: int) -> int {
    (len + CHUNK_SIZE - 1) / (CHUNK_SIZE as int)
}

/// The part of `firmware` that the data block number `k` carries.
pub open spec fn block_data(firmware: Seq<u8>, k: int) -> Seq<u8> {
    firmware.subrange(
        k * CHUNK_SIZE,
        if (k + 1) * CHUNK_SIZE <= firmware.len() {
            (k + 1) * CHUNK_SIZE
        } else {
            firmware.len() as int
        },
    )
}

/// Whether `cmd` is the data block number `k` of `firmware`.
pub open spec fn is_block(cmd: Command, firmware: Seq<u8>, k: int) -> bool {
    &&& cmd matches Command::DataBlock { offset, data }
    &&& offset == k * CHUNK_SIZE
    &&& data@ == block_data(firmware, k)
}

/// Whether `blocks` are the data blocks of `firmware`, in order.
pub open spec fn are_blocks(blocks: Seq<Command>, firmware: Seq<u8>) -> bool {
    &&& blocks.len() == block_count(firmware.len() as int)
    &&& forall|k: int| 0 <= k < blocks.len() ==> is_block(#[trigger] blocks[k], firmware, k)
}

/// Whether `cmds` is the upload of `firmware` to `bank` as `version`: the
/// announcement with size and CRC-32, the data blocks, and the request to
/// commit.
pub open spec fn is_upload(cmds: Seq<Command>, firmware: Seq<u8>, bank: u8, version: u32) -> bool {
    &&& cmds.len() == block_count(firmware.len() as int) + 2
    &&& cmds[0] == (Command::StartUpdate {
        bank,
        size: firmware.len() as u32,
        crc32: crc32(firmware),
        version,
    })
    &&& are_blocks(cmds.subrange(1, cmds.len() - 1), firmware)
    &&& cmds.last() == Command::FinishUpdate
}

/// What the host makes of `response` to `cmd`.
pub open spec fn verdict(cmd: Command, response: Response) -> Result<(), CommandError> {
    match cmd {
        Command::GetStatus => Ok(()),
        _ => match response {
            Response::Status { .. } => Err(
                match cmd {
                    Command::DataBlock { offset, .. } => CommandError::UnexpectedBlockResponse {
                        offset,
                        response,
                    },
                    _ => CommandError::UnexpectedResponse { response },
                },
            ),
            Response::Ack(AckStatus::Okay) => Ok(()),
            Response::Ack(status) => Err(
                match cmd {
                    Command::StartUpdate { .. } => CommandError::StartRejected { status },
                    Command::DataBlock { offset, .. } => CommandError::BlockRejected { offset, status },
                    Command::FinishUpdate => if status == AckStatus::CrcError {
                        CommandError::CrcFailed
                    } else {
                        CommandError::FinishRejected { status }
                    },
                    Command::SetActiveBank { bank } => if status == AckStatus::BankInvalid {
                        CommandError::InvalidBank
                    } else if status == AckStatus::CrcError {
                        CommandError::NoValidFirmware { bank }
                    } else {
                        CommandError::SetBankRejected { status }
                    },
                    Command::WipeAll => if status == AckStatus::BadState {
                        CommandError::NotIdle
                    } else {
                        CommandError::WipeRejected { status }
                    },
                    _ => CommandError::RebootRejected { status },
                },
            ),
        },
    }
}

// --- Commands ---

/// The data blocks that carry `firmware`: blocks of 1024 bytes, the last one
/// shorter if need be, each at the offset where the one before it ended.
pub fn data_blocks(firmware: &[u8]) -> (blocks: Vec<Command>)
    requires
        firmware@.len() <= u32::MAX,
    ensures
        are_blocks(blocks@, firmware@),
{
    let mut blocks: Vec<Command> = Vec::new();
    let mut offset: usize = 0;
    while offset < firmware.len()
        invariant
            offset <= firmware@.len() <= u32::MAX,
            offset % CHUNK_SIZE == 0 || offset == firmware@.len(),
            blocks@.len() == block_count(offset as int),
            forall|k: int| 0 <= k < blocks@.len() ==> is_block(#[trigger] blocks@[k], firmware@, k),
        decreases firmware@.len() - offset,
    {
        let end: usize = if firmware.len() - offset > CHUNK_SIZE {
            offset + CHUNK_SIZE
        } else {
            firmware.len()
        };
        let data: Vec<u8> = slice_to_vec(slice_subrange(firmware, offset, end));
        let ghost k: int = blocks@.len() as int;
        assert(offset == k * CHUNK_SIZE);
        blocks.push(Command::DataBlock { offset: offset as u32, data });
        assert(is_block(blocks@[k], firmware@, k));
        offset = end;
    }
    blocks
}

/// The commands that upload `firmware` to `bank` as `version`, in the order
/// in which they are sent. Each one is sent when the one before it was
/// acknowledged.
pub fn upload(firmware: &[u8], bank: u8, version: u32) -> (cmds: Vec<Command>)
    requires
        firmware@.len() <= u32::MAX,
    ensures
        is_upload(cmds@, firmware@, bank, version),
{
    let size: u32 = firmware.len() as u32;
    let crc32: u32 = checksum(firmware);

    let mut cmds: Vec<Command> = Vec::new();
    cmds.push(Command::StartUpdate { bank, size, crc32, version });
    let mut blocks: Vec<Command> = data_blocks(firmware);
    let ghost sent = blocks@;
    cmds.append(&mut blocks);
    cmds.push(Command::FinishUpdate);
    assert(cmds@.subrange(1, cmds@.len() - 1) =~= sent);
    cmds
}

/// How long the host waits for the answer to `cmd`, in milliseconds.
pub fn response_timeout_ms(cmd: &Command) -> (timeout: u64)
    ensures
        timeout == if cmd is StartUpdate {
            ERASE_TIMEOUT_MS
        } else {
            DEFAULT_TIMEOUT_MS
        },
{
    match cmd {
        Command::StartUpdate { .. } => ERASE_TIMEOUT_MS,
        _ => DEFAULT_TIMEOUT_MS,
    }
}

/// Whether `response` lets the host go on after `cmd`, and why not.
///
/// Any answer to `GetStatus` is taken. Every other command wants an
/// acknowledgement with status `Okay`.
pub fn check_response(cmd: &Command, response: &Response) -> (result: Result<(), CommandError>)
    ensures
        result == verdict(*cmd, *response),
{
    if let Command::GetStatus = cmd {
        return Ok(());
    }
    let status: AckStatus = match response {
        Response::Status { .. } => {
            return Err(
                match cmd {
                    Command::DataBlock { offset, .. } => CommandError::UnexpectedBlockResponse {
                        offset: *offset,
                        response: *response,
                    },
                    _ => CommandError::UnexpectedResponse { response: *response },
                },
            );
        },
        Response::Ack(status) => *status,
    };
    if status == AckStatus::Okay {
        return Ok(());
    }
    Err(
        match cmd {
            Command::StartUpdate { .. } => CommandError::StartRejected { status },
            Command::DataBlock { offset, .. } => CommandError::BlockRejected {
                offset: *offset,
                status,
            },
            Command::FinishUpdate => if status == AckStatus::CrcError {
                CommandError::CrcFailed
            } else {
                CommandError::FinishRejected { status }
            },
            Command::SetActiveBank { bank } => if status == AckStatus::BankInvalid {
                CommandError::InvalidBank
            } else if status == AckStatus::CrcError {
                CommandError::NoValidFirmware { bank: *bank }
            } else {
                CommandError::SetBankRejected { status }
            },
            Command::WipeAll => if status == AckStatus::BadState {
                CommandError::NotIdle
            } else {
                CommandError::WipeRejected { status }
            },
            _ => CommandError::RebootRejected { status },
        },
    )
}

} // verus!
