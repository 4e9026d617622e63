//! Whole exchanges between host and bootloader: a sequence of commands served
//! in order, and what an upload comes to.

use vstd::prelude::*;
use crate::commands::{block_count, block_data, is_block, is_upload, CHUNK_SIZE};
use crate::crc32::crc32;
use crate::flash::{
    lemma_boot_data_round_trip, lemma_program_erased, region, stored_boot_data, Flash, ERASED_BYTE,
};
use crate::protocol::{
    bank_base, AckStatus, Command, Response, FLASH_BASE, FLASH_SECTOR_SIZE, FW_BANK_SIZE,
};
use crate::update::{
    committed, decision_on, device_wf, lemma_decision_keeps_device, page_padded, round_up,
    run_command, FlashWrite, UpdateState,
};

verus! {

/// A device between two commands: what its flash holds, the state of the
/// update engine, and the responses it has sent so far.
pub struct Device {
    pub mem: Seq<u8>,
    pub state: UpdateState,
    pub responses: Seq<Response>,
}

/// The device after one more command.
pub open spec fn after_command(before: Device, cmd: Command) -> Device {
    let decision = decision_on(before.mem, before.state, cmd);
    Device {
        mem: decision.write.apply(before.mem),
        state: decision.state,
        responses: before.responses.push(decision.response),
    }
}

/// The device after `cmds` were served in order, starting with the flash
/// `mem` and the engine in `state`.
pub open spec fn served(mem: Seq<u8>, state: UpdateState, cmds: Seq<Command>) -> Device
    decreases cmds.len(),
{
    if cmds.len() == 0 {
        Device { mem, state, responses: Seq::empty() }
    } else {
        after_command(served(mem, state, cmds.drop_last()), cmds.last())
    }
}

/// Serves `cmds` in order on the memory model of the flash, and returns the
/// state that the engine ends in with the responses in the order of the
/// commands. A `Reboot` among the commands is acknowledged like any other
/// command; the reset is the caller's to perform.
pub fn run_commands(flash: &mut Flash, state: UpdateState, cmds: Vec<Command>) -> (result: (
    UpdateState,
    Vec<Response>,
))
    requires
        device_wf(old(flash)@, state),
    ensures
        final(flash)@ == served(old(flash)@, state, cmds@).mem,
        result.0 == served(old(flash)@, state, cmds@).state,
        result.1@ == served(old(flash)@, state, cmds@).responses,
        device_wf(final(flash)@, result.0),
{
    let mut state: UpdateState = state;
    let mut responses: Vec<Response> = Vec::new();
    let ghost all: Seq<Command> = cmds@;
    let ghost start_state: UpdateState = state;
    for cmd in it: cmds
        invariant
            it.seq() == all,
            device_wf(flash@, state),
            flash@ == served(old(flash)@, start_state, all.take(it.index() as int)).mem,
            state == served(old(flash)@, start_state, all.take(it.index() as int)).state,
            responses@ == served(old(flash)@, start_state, all.take(it.index() as int)).responses,
    {
        proof {
            let n = it.index() as int;
            assert(all.take(n + 1).drop_last() =~= all.take(n));
            assert(all.take(n + 1).last() == cmd);
        }
        let result = run_command(flash, state, cmd);
        state = result.state;
        responses.push(result.response);
    }
    proof {
        assert(all.take(all.len() as int) =~= all);
    }
    (state, responses)
}

// --- Laws ---

/// What holds while an upload of `firmware` to `bank` is under way and
/// `received` bytes have arrived: the session says so, every command was
/// acknowledged, the boot record is untouched, the bank holds the bytes that
/// arrived, and what follows them in the erased sectors is still erased.
pub open spec fn upload_under_way(
    device: Device,
    mem: Seq<u8>,
    firmware: Seq<u8>,
    bank: u8,
    version: u32,
    received: int,
) -> bool {
    let base = bank_base(bank) - FLASH_BASE;
    &&& device_wf(device.mem, device.state)
    &&& device.state == (UpdateState::Receiving {
        bank,
        bank_addr: bank_base(bank),
        expected_size: firmware.len() as u32,
        expected_crc: crc32(firmware),
        version,
        bytes_received: received as u32,
    })
    &&& 0 <= received <= firmware.len()
    &&& forall|i: int| 0 <= i < device.responses.len() ==> device.responses[i] == Response::Ack(
        AckStatus::Okay,
    )
    &&& stored_boot_data(device.mem) == stored_boot_data(mem)
    &&& forall|j: int| base <= j < base + received ==> #[trigger] device.mem[j] == firmware[j - base]
    &&& forall|j: int|
        base + received <= j < base + round_up(firmware.len() as int, FLASH_SECTOR_SIZE as int)
            ==> #[trigger] device.mem[j] == ERASED_BYTE
}

/// Number of bytes that the first `k` data blocks of an upload carry.
pub open spec fn carried(firmware: Seq<u8>, k: int) -> int {
    if k * CHUNK_SIZE <= firmware.len() {
        k * CHUNK_SIZE
    } else {
        firmware.len() as int
    }
}

/// The announcement of an upload erases the sectors of the image and leaves
/// the upload under way with nothing received.
proof fn lemma_upload_starts(mem: Seq<u8>, firmware: Seq<u8>, bank: u8, version: u32)
    requires
        device_wf(mem, UpdateState::Idle),
        bank <= 1,
        0 < firmware.len() <= FW_BANK_SIZE,
    ensures
        upload_under_way(
            after_command(
                Device { mem, state: UpdateState::Idle, responses: Seq::empty() },
                Command::StartUpdate {
                    bank,
                    size: firmware.len() as u32,
                    crc32: crc32(firmware),
                    version,
                },
            ),
            mem,
            firmware,
            bank,
            version,
            0,
        ),
{
    let cmd = Command::StartUpdate {
        bank,
        size: firmware.len() as u32,
        crc32: crc32(firmware),
        version,
    };
    lemma_decision_keeps_device(mem, UpdateState::Idle, cmd);
}

/// The data block number `k` of an upload that has received the blocks
/// before it is acknowledged and leaves the upload under way with its bytes
/// received as well.
proof fn lemma_block_arrives(
    before: Device,
    mem: Seq<u8>,
    firmware: Seq<u8>,
    bank: u8,
    version: u32,
    k: int,
    cmd: Command,
)
    requires
        bank <= 1,
        0 < firmware.len() <= FW_BANK_SIZE,
        0 <= k < block_count(firmware.len() as int),
        upload_under_way(before, mem, firmware, bank, version, carried(firmware, k)),
        is_block(cmd, firmware, k),
    ensures
        upload_under_way(
            after_command(before, cmd),
            mem,
            firmware,
            bank,
            version,
            carried(firmware, k + 1),
        ),
{
    let base = bank_base(bank) - FLASH_BASE;
    let received = carried(firmware, k);
    let data = block_data(firmware, k);
    assert(CHUNK_SIZE == 1024);
    assert(block_count(firmware.len() as int) == (firmware.len() + 1023) / 1024);
    assert(k * 1024 < firmware.len());
    assert(received == k * CHUNK_SIZE);
    assert(data.len() == carried(firmware, k + 1) - received);
    lemma_decision_keeps_device(before.mem, before.state, cmd);
    let decision = decision_on(before.mem, before.state, cmd);
    let padded = page_padded(data);
    assert(decision.write == FlashWrite::Program { offset: (base + received) as u32, data: padded });
    let device = after_command(before, cmd);
    assert forall|j: int| base <= j < base + carried(firmware, k + 1) implies #[trigger] device.mem[j]
        == firmware[j - base] by {
        let i = j - base;
        if i >= received {
            assert(padded[i - received] == data[i - received]);
            assert(data[i - received] == firmware[i]);
            lemma_program_erased(firmware[i]);
        }
    }
    assert forall|j: int|
        base + carried(firmware, k + 1) <= j < base + round_up(
            firmware.len() as int,
            FLASH_SECTOR_SIZE as int,
        ) implies #[trigger] device.mem[j] == ERASED_BYTE by {
        let i = j - base;
        if i < received + padded.len() {
            assert(padded[i - received] == ERASED_BYTE);
        }
        lemma_program_erased(ERASED_BYTE);
    }
}

/// The announcement and the first `k` data blocks of an upload leave the
/// upload under way with the bytes of those blocks received.
proof fn lemma_upload_prefix(
    mem: Seq<u8>,
    firmware: Seq<u8>,
    bank: u8,
    version: u32,
    cmds: Seq<Command>,
    k: int,
)
    requires
        device_wf(mem, UpdateState::Idle),
        bank <= 1,
        0 < firmware.len() <= FW_BANK_SIZE,
        is_upload(cmds, firmware, bank, version),
        0 <= k <= block_count(firmware.len() as int),
    ensures
        upload_under_way(
            served(mem, UpdateState::Idle, cmds.take(k + 1)),
            mem,
            firmware,
            bank,
            version,
            carried(firmware, k),
        ),
        served(mem, UpdateState::Idle, cmds.take(k + 1)).responses.len() == k + 1,
    decreases k,
{
    let sent = cmds.take(k + 1);
    assert(sent.last() == cmds[k]);
    let before = served(mem, UpdateState::Idle, sent.drop_last());
    assert(served(mem, UpdateState::Idle, sent) == after_command(before, cmds[k]));
    if k == 0 {
        assert(sent.drop_last() =~= Seq::<Command>::empty());
        assert(before == Device { mem, state: UpdateState::Idle, responses: Seq::empty() });
        lemma_upload_starts(mem, firmware, bank, version);
    } else {
        lemma_upload_prefix(mem, firmware, bank, version, cmds, k - 1);
        assert(sent.drop_last() =~= cmds.take(k));
        let blocks = cmds.subrange(1, cmds.len() - 1);
        assert(blocks[k - 1] == cmds[k]);
        lemma_block_arrives(before, mem, firmware, bank, version, k - 1, cmds[k]);
    }
}

/// An upload to a device at rest is committed: every command of it is
/// acknowledged, the engine is idle again, the bank holds the firmware, and
/// the boot record names the bank as active with the firmware's size, CRC-32
/// and version.
pub proof fn lemma_upload_is_committed(
    mem: Seq<u8>,
    firmware: Seq<u8>,
    bank: u8,
    version: u32,
    cmds: Seq<Command>,
)
    requires
        device_wf(mem, UpdateState::Idle),
        bank <= 1,
        0 < firmware.len() <= FW_BANK_SIZE,
        is_upload(cmds, firmware, bank, version),
    ensures
        ({
            let device = served(mem, UpdateState::Idle, cmds);
            &&& device.state is Idle
            &&& device.responses.len() == cmds.len()
            &&& forall|i: int|
                0 <= i < device.responses.len() ==> device.responses[i] == Response::Ack(
                    AckStatus::Okay,
                )
            &&& region(device.mem, bank_base(bank) as int, firmware.len() as int) == firmware
            &&& stored_boot_data(device.mem) == committed(
                stored_boot_data(mem),
                bank,
                firmware.len() as u32,
                crc32(firmware),
                version,
            )
            &&& device_wf(device.mem, device.state)
        }),
{
    let blocks = block_count(firmware.len() as int);
    let base = bank_base(bank) - FLASH_BASE;
    lemma_upload_prefix(mem, firmware, bank, version, cmds, blocks);
    assert(cmds.drop_last() =~= cmds.take(blocks + 1));
    let before = served(mem, UpdateState::Idle, cmds.drop_last());
    assert(carried(firmware, blocks) == firmware.len());
    let image = region(before.mem, bank_base(bank) as int, firmware.len() as int);
    assert(image =~= firmware);
    lemma_decision_keeps_device(before.mem, before.state, Command::FinishUpdate);
    let decision = decision_on(before.mem, before.state, Command::FinishUpdate);
    let record = committed(
        stored_boot_data(mem),
        bank,
        firmware.len() as u32,
        crc32(firmware),
        version,
    );
    assert(decision.write == FlashWrite::BootRecord(record));
    lemma_boot_data_round_trip(before.mem, record);
    let device = served(mem, UpdateState::Idle, cmds);
    assert(region(device.mem, bank_base(bank) as int, firmware.len() as int) == image);
}

} // verus!
