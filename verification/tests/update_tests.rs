//! The update protocol engine, driven against the memory model of the flash.

use crispy_bootloader::crc32::checksum;
use crispy_bootloader::flash::{
    compute_crc32, flash_read, read_boot_data, write_boot_data, Flash, FlashOp,
};
use crispy_bootloader::protocol::{
    AckStatus, BootData, BootState, Command, Response, FW_A_ADDR, FW_BANK_SIZE, FW_B_ADDR,
};
use crispy_bootloader::update::{
    crc_range, handle_command, handle_data_block, handle_finish_update, handle_get_status,
    handle_reboot, handle_set_active_bank, handle_start_update, handle_wipe_all, run_command, Served,
    UpdateState,
};

fn firmware(len: usize) -> Vec<u8> {
    (0..len).map(|i| (i * 31 + 7) as u8).collect()
}

fn ack(status: AckStatus) -> Response {
    Response::Ack(status)
}

fn receiving(bank: u8, size: u32, crc: u32, version: u32, received: u32) -> UpdateState {
    UpdateState::Receiving {
        bank,
        bank_addr: if bank == 0 { FW_A_ADDR } else { FW_B_ADDR },
        expected_size: size,
        expected_crc: crc,
        version,
        bytes_received: received,
    }
}

/// Sends `cmd` and returns the next state with the response.
fn send(flash: &mut Flash, state: UpdateState, cmd: Command) -> (UpdateState, Response) {
    let served = run_command(flash, state, cmd);
    assert!(!served.reset);
    (served.state, served.response)
}

/// Uploads `image` to `bank` and expects every step to be acknowledged.
fn upload_ok(flash: &mut Flash, bank: u8, image: &[u8], version: u32) {
    let crc = checksum(image);
    let (mut state, resp) = send(
        flash,
        UpdateState::Idle,
        Command::StartUpdate { bank, size: image.len() as u32, crc32: crc, version },
    );
    assert_eq!(resp, ack(AckStatus::Okay));
    let mut offset = 0u32;
    for chunk in image.chunks(1024) {
        let (next, resp) =
            send(flash, state, Command::DataBlock { offset, data: chunk.to_vec() });
        assert_eq!(resp, ack(AckStatus::Okay));
        state = next;
        offset += chunk.len() as u32;
    }
    let (state, resp) = send(flash, state, Command::FinishUpdate);
    assert_eq!(resp, ack(AckStatus::Okay));
    assert_eq!(state, UpdateState::Idle);
}

// --- Scenarios ---

#[test]
fn test_happy_upload() {
    let mut flash = Flash::new();
    let image = firmware(2048);
    let crc = checksum(&image);

    let (state, resp) = send(
        &mut flash,
        UpdateState::Idle,
        Command::StartUpdate { bank: 0, size: 2048, crc32: crc, version: 1 },
    );
    assert_eq!(resp, ack(AckStatus::Okay));
    assert_eq!(state, receiving(0, 2048, crc, 1, 0));

    let (state, resp) =
        send(&mut flash, state, Command::DataBlock { offset: 0, data: image[..1024].to_vec() });
    assert_eq!(resp, ack(AckStatus::Okay));
    assert_eq!(state, receiving(0, 2048, crc, 1, 1024));

    let (state, resp) =
        send(&mut flash, state, Command::DataBlock { offset: 1024, data: image[1024..].to_vec() });
    assert_eq!(resp, ack(AckStatus::Okay));
    assert_eq!(state, receiving(0, 2048, crc, 1, 2048));

    let (state, resp) = send(&mut flash, state, Command::FinishUpdate);
    assert_eq!(resp, ack(AckStatus::Okay));
    assert_eq!(state, UpdateState::Idle);

    let (state, resp) = send(&mut flash, state, Command::GetStatus);
    assert_eq!(state, UpdateState::Idle);
    assert_eq!(
        resp,
        Response::Status { active_bank: 0, version_a: 1, version_b: 0, state: BootState::UpdateMode }
    );

    // the flash holds the image and the record of the commit
    assert_eq!(flash_read(&flash, FW_A_ADDR, 2048), &image[..]);
    assert_eq!(compute_crc32(&flash, FW_A_ADDR, 2048), crc);
    let bd = read_boot_data(&flash);
    assert_eq!(
        bd,
        BootData {
            active_bank: 0,
            confirmed: 0,
            boot_attempts: 0,
            version_a: 1,
            crc_a: crc,
            size_a: 2048,
            ..BootData::default_new()
        }
    );
}

#[test]
fn test_crc_mismatch() {
    let mut flash = Flash::new();
    let image = firmware(2048);
    let crc = checksum(&image);
    let mut corrupted = image.clone();
    corrupted[2047] ^= 0x01;

    let (state, resp) = send(
        &mut flash,
        UpdateState::Idle,
        Command::StartUpdate { bank: 0, size: 2048, crc32: crc, version: 1 },
    );
    assert_eq!(resp, ack(AckStatus::Okay));
    let (state, resp) =
        send(&mut flash, state, Command::DataBlock { offset: 0, data: corrupted[..1024].to_vec() });
    assert_eq!(resp, ack(AckStatus::Okay));
    let (state, resp) = send(
        &mut flash,
        state,
        Command::DataBlock { offset: 1024, data: corrupted[1024..].to_vec() },
    );
    assert_eq!(resp, ack(AckStatus::Okay));

    let (state, resp) = send(&mut flash, state, Command::FinishUpdate);
    assert_eq!(resp, ack(AckStatus::CrcError));
    assert_eq!(state, UpdateState::Idle);

    // nothing was committed: the bank still counts as empty
    let bd = read_boot_data(&flash);
    assert_eq!(bd, BootData::default_new());
    assert_eq!(bd.size_a, 0);
    let (_, resp) = send(&mut flash, state, Command::GetStatus);
    assert_eq!(
        resp,
        Response::Status { active_bank: 0, version_a: 0, version_b: 0, state: BootState::UpdateMode }
    );
}

#[test]
fn test_crc_mismatch_keeps_earlier_record() {
    let mut flash = Flash::new();
    upload_ok(&mut flash, 1, &firmware(3000), 5);
    let before = read_boot_data(&flash);
    assert_eq!(before.size_b, 3000);

    let image = firmware(1000);
    let (state, resp) = send(
        &mut flash,
        UpdateState::Idle,
        Command::StartUpdate { bank: 1, size: 1000, crc32: checksum(&image) ^ 1, version: 6 },
    );
    assert_eq!(resp, ack(AckStatus::Okay));
    let (state, resp) = send(&mut flash, state, Command::DataBlock { offset: 0, data: image });
    assert_eq!(resp, ack(AckStatus::Okay));
    let (state, resp) = send(&mut flash, state, Command::FinishUpdate);
    assert_eq!(resp, ack(AckStatus::CrcError));
    assert_eq!(state, UpdateState::Idle);
    assert_eq!(read_boot_data(&flash), before);
}

#[test]
fn test_out_of_order_block() {
    let mut flash = Flash::new();
    let image = firmware(2048);
    let crc = checksum(&image);
    let (state, resp) = send(
        &mut flash,
        UpdateState::Idle,
        Command::StartUpdate { bank: 0, size: 2048, crc32: crc, version: 1 },
    );
    assert_eq!(resp, ack(AckStatus::Okay));

    let (state, resp) =
        send(&mut flash, state, Command::DataBlock { offset: 1024, data: image[1024..].to_vec() });
    assert_eq!(resp, ack(AckStatus::BadCommand));
    assert_eq!(state, receiving(0, 2048, crc, 1, 0));
    // nothing was programmed
    assert!(flash_read(&flash, FW_A_ADDR, 2048).iter().all(|&b| b == 0xFF));

    let (_, resp) = send(&mut flash, state, Command::GetStatus);
    assert_eq!(
        resp,
        Response::Status { active_bank: 0, version_a: 0, version_b: 0, state: BootState::Receiving }
    );
}

#[test]
fn test_no_banks_reports_update_mode() {
    let mut flash = Flash::new();
    write_boot_data(&mut flash, &BootData::default_new());
    let (state, resp) = send(&mut flash, UpdateState::Idle, Command::GetStatus);
    assert_eq!(state, UpdateState::Idle);
    assert_eq!(
        resp,
        Response::Status { active_bank: 0, version_a: 0, version_b: 0, state: BootState::UpdateMode }
    );
}

#[test]
fn test_set_active_bank_with_empty_target() {
    let mut flash = Flash::new();
    upload_ok(&mut flash, 0, &firmware(2048), 1);
    let before = read_boot_data(&flash);
    assert_eq!(before.size_b, 0);

    let (state, resp) = send(&mut flash, UpdateState::Idle, Command::SetActiveBank { bank: 1 });
    assert_eq!(resp, ack(AckStatus::BankInvalid));
    assert_eq!(state, UpdateState::Idle);
    assert_eq!(read_boot_data(&flash), before);
}

// --- StartUpdate ---

#[test]
fn test_start_update_rejections() {
    let busy = receiving(0, 100, 1, 1, 0);
    let r = handle_start_update(busy, 0, 100, 1, 1);
    assert_eq!(r.response, ack(AckStatus::BadState));
    assert_eq!(r.state, busy);
    assert!(r.ops.is_empty());

    for (bank, size) in [(2u8, 100u32), (255, 100), (0, 0), (1, FW_BANK_SIZE + 1), (0, u32::MAX)] {
        let r = handle_start_update(UpdateState::Idle, bank, size, 1, 1);
        assert_eq!(r.response, ack(AckStatus::BankInvalid));
        assert_eq!(r.state, UpdateState::Idle);
        assert!(r.ops.is_empty());
        assert!(!r.reset);
    }
}

#[test]
fn test_start_update_erases_whole_sectors() {
    let r = handle_start_update(UpdateState::Idle, 0, 1, 9, 3);
    assert_eq!(r.ops, vec![FlashOp::Erase { offset: 0x0001_0000, size: 4096 }]);
    assert_eq!(r.state, receiving(0, 1, 9, 3, 0));

    let r = handle_start_update(UpdateState::Idle, 1, 4096, 9, 3);
    assert_eq!(r.ops, vec![FlashOp::Erase { offset: 0x000D_0000, size: 4096 }]);

    let r = handle_start_update(UpdateState::Idle, 1, 4097, 9, 3);
    assert_eq!(r.ops, vec![FlashOp::Erase { offset: 0x000D_0000, size: 8192 }]);

    let r = handle_start_update(UpdateState::Idle, 0, FW_BANK_SIZE, 9, 3);
    assert_eq!(r.ops, vec![FlashOp::Erase { offset: 0x0001_0000, size: FW_BANK_SIZE }]);
    assert_eq!(r.response, ack(AckStatus::Okay));
}

#[test]
fn test_start_update_erases_earlier_image() {
    let mut flash = Flash::new();
    upload_ok(&mut flash, 0, &firmware(5000), 1);
    let (_, resp) = send(
        &mut flash,
        UpdateState::Idle,
        Command::StartUpdate { bank: 0, size: 100, crc32: 0, version: 2 },
    );
    assert_eq!(resp, ack(AckStatus::Okay));
    // the first sector is erased, the second still holds the old image
    assert!(flash_read(&flash, FW_A_ADDR, 4096).iter().all(|&b| b == 0xFF));
    assert_eq!(flash_read(&flash, FW_A_ADDR + 4096, 904), &firmware(5000)[4096..]);
}

// --- DataBlock ---

#[test]
fn test_data_block_in_idle_is_bad_state() {
    let r = handle_data_block(UpdateState::Idle, 0, vec![1, 2, 3]);
    assert_eq!(r.response, ack(AckStatus::BadState));
    assert_eq!(r.state, UpdateState::Idle);
    assert!(r.ops.is_empty());
}

#[test]
fn test_data_block_is_padded_to_pages() {
    let state = receiving(1, 5000, 0, 1, 1024);
    let r = handle_data_block(state, 1024, vec![0x55; 300]);
    assert_eq!(r.response, ack(AckStatus::Okay));
    assert_eq!(r.state, receiving(1, 5000, 0, 1, 1324));
    let mut padded = vec![0x55; 300];
    padded.extend_from_slice(&[0xFF; 212]);
    assert_eq!(r.ops, vec![FlashOp::Program { offset: 0x000D_0000 + 1024, data: padded }]);

    // whole pages are not padded
    let r = handle_data_block(state, 1024, vec![0x55; 512]);
    assert_eq!(r.ops, vec![FlashOp::Program { offset: 0x000D_0400, data: vec![0x55; 512] }]);
}

#[test]
fn test_data_block_advances_by_its_length() {
    let state = receiving(0, 5000, 0, 1, 700);
    for len in [0usize, 1, 255, 256, 1024] {
        let r = handle_data_block(state, 700, vec![1; len]);
        assert_eq!(r.response, ack(AckStatus::Okay));
        assert_eq!(r.state, receiving(0, 5000, 0, 1, 700 + len as u32));
    }
}

#[test]
fn test_data_block_rejections_keep_session() {
    let state = receiving(0, 2048, 0, 1, 1024);
    // wrong offset
    for offset in [0u32, 1023, 1025, 2048] {
        let r = handle_data_block(state, offset, vec![1; 16]);
        assert_eq!(r.response, ack(AckStatus::BadCommand));
        assert_eq!(r.state, state);
        assert!(r.ops.is_empty());
    }
    // more than was announced
    let r = handle_data_block(state, 1024, vec![1; 1025]);
    assert_eq!(r.response, ack(AckStatus::BadCommand));
    assert_eq!(r.state, state);
    let r = handle_data_block(receiving(0, 2048, 0, 1, 2000), 2000, vec![1; 49]);
    assert_eq!(r.response, ack(AckStatus::BadCommand));
    // exactly what was announced
    let r = handle_data_block(receiving(0, 2048, 0, 1, 2000), 2000, vec![1; 48]);
    assert_eq!(r.response, ack(AckStatus::Okay));
    // a block longer than a block may be
    let r = handle_data_block(receiving(0, 5000, 0, 1, 0), 0, vec![1; 1025]);
    assert_eq!(r.response, ack(AckStatus::BadCommand));
    assert!(r.ops.is_empty());
}

#[test]
fn test_unaligned_blocks_arrive_intact() {
    let mut flash = Flash::new();
    let image = firmware(1000);
    let crc = checksum(&image);
    let (mut state, resp) = send(
        &mut flash,
        UpdateState::Idle,
        Command::StartUpdate { bank: 1, size: 1000, crc32: crc, version: 4 },
    );
    assert_eq!(resp, ack(AckStatus::Okay));
    let mut offset = 0u32;
    for chunk in image.chunks(100) {
        let (next, resp) =
            send(&mut flash, state, Command::DataBlock { offset, data: chunk.to_vec() });
        assert_eq!(resp, ack(AckStatus::Okay));
        state = next;
        offset += 100;
    }
    let (_, resp) = send(&mut flash, state, Command::FinishUpdate);
    assert_eq!(resp, ack(AckStatus::Okay));
    assert_eq!(flash_read(&flash, FW_B_ADDR, 1000), &image[..]);
}

#[test]
fn test_padding_at_end_of_bank_b_spares_boot_record() {
    let mut flash = Flash::new();
    upload_ok(&mut flash, 0, &firmware(300), 3);
    let record = read_boot_data(&flash);
    // the last block of a full bank B is padded into the boot record's sector
    let state = receiving(1, FW_BANK_SIZE, 0, 1, FW_BANK_SIZE - 100);
    let served = run_command(
        &mut flash,
        state,
        Command::DataBlock { offset: FW_BANK_SIZE - 100, data: vec![0x00; 100] },
    );
    assert_eq!(served.response, ack(AckStatus::Okay));
    assert_eq!(read_boot_data(&flash), record);
    assert_eq!(flash_read(&flash, FW_B_ADDR + FW_BANK_SIZE - 100, 100), &[0u8; 100][..]);
}

// --- FinishUpdate ---

#[test]
fn test_finish_update_in_idle_is_bad_state() {
    let r = handle_finish_update(UpdateState::Idle, &BootData::default_new(), 0);
    assert_eq!(r.response, ack(AckStatus::BadState));
    assert_eq!(r.state, UpdateState::Idle);
    assert!(r.ops.is_empty());
}

#[test]
fn test_finish_update_incomplete_stays_receiving() {
    let state = receiving(0, 2048, 0x1234, 1, 1024);
    // even a matching CRC does not commit an incomplete image
    let r = handle_finish_update(state, &BootData::default_new(), 0x1234);
    assert_eq!(r.response, ack(AckStatus::BadCommand));
    assert_eq!(r.state, state);
    assert!(r.ops.is_empty());

    // the host can send the missing tail and finish
    let mut flash = Flash::new();
    let image = firmware(2048);
    let crc = checksum(&image);
    let (state, _) = send(
        &mut flash,
        UpdateState::Idle,
        Command::StartUpdate { bank: 0, size: 2048, crc32: crc, version: 1 },
    );
    let (state, _) =
        send(&mut flash, state, Command::DataBlock { offset: 0, data: image[..1024].to_vec() });
    let (state, resp) = send(&mut flash, state, Command::FinishUpdate);
    assert_eq!(resp, ack(AckStatus::BadCommand));
    let (state, resp) =
        send(&mut flash, state, Command::DataBlock { offset: 1024, data: image[1024..].to_vec() });
    assert_eq!(resp, ack(AckStatus::Okay));
    let (_, resp) = send(&mut flash, state, Command::FinishUpdate);
    assert_eq!(resp, ack(AckStatus::Okay));
}

#[test]
fn test_finish_update_commits_record() {
    let bd = BootData {
        active_bank: 0,
        confirmed: 1,
        boot_attempts: 2,
        version_a: 10,
        crc_a: 0xAAAA,
        size_a: 4000,
        ..BootData::default_new()
    };
    let r = handle_finish_update(receiving(1, 2048, 0xBEEF, 11, 2048), &bd, 0xBEEF);
    assert_eq!(r.response, ack(AckStatus::Okay));
    assert_eq!(r.state, UpdateState::Idle);
    let expected = BootData {
        active_bank: 1,
        confirmed: 0,
        boot_attempts: 0,
        version_b: 11,
        crc_b: 0xBEEF,
        size_b: 2048,
        ..bd
    };
    let mut page = expected.as_bytes();
    page.resize(256, 0xFF);
    assert_eq!(
        r.ops,
        vec![
            FlashOp::Erase { offset: 0x0019_0000, size: 4096 },
            FlashOp::Program { offset: 0x0019_0000, data: page },
        ]
    );

    let r = handle_finish_update(receiving(1, 2048, 0xBEEF, 11, 2048), &bd, 0xBEEE);
    assert_eq!(r.response, ack(AckStatus::CrcError));
    assert_eq!(r.state, UpdateState::Idle);
    assert!(r.ops.is_empty());
}

#[test]
fn test_committed_update_is_reported_in_any_state() {
    let mut flash = Flash::new();
    upload_ok(&mut flash, 0, &firmware(700), 1);
    let image = firmware(5000);
    upload_ok(&mut flash, 1, &image, 42);
    assert_eq!(compute_crc32(&flash, FW_B_ADDR, 5000), checksum(&image));
    for state in [UpdateState::Idle, receiving(0, 10, 0, 0, 0)] {
        let served = run_command(&mut flash, state, Command::GetStatus);
        let reported =
            if state == UpdateState::Idle { BootState::UpdateMode } else { BootState::Receiving };
        assert_eq!(
            served,
            Served {
                state,
                response: Response::Status {
                    active_bank: 1,
                    version_a: 1,
                    version_b: 42,
                    state: reported
                },
                reset: false,
            }
        );
    }
}

// --- SetActiveBank, WipeAll, Reboot, GetStatus ---

#[test]
fn test_set_active_bank() {
    let mut flash = Flash::new();
    upload_ok(&mut flash, 0, &firmware(2048), 1);
    upload_ok(&mut flash, 1, &firmware(999), 2);
    assert_eq!(read_boot_data(&flash).active_bank, 1);

    let (state, resp) = send(&mut flash, UpdateState::Idle, Command::SetActiveBank { bank: 0 });
    assert_eq!(resp, ack(AckStatus::Okay));
    assert_eq!(state, UpdateState::Idle);
    let bd = read_boot_data(&flash);
    assert_eq!(bd.active_bank, 0);
    assert_eq!(bd.confirmed, 0);
    assert_eq!(bd.boot_attempts, 0);
    assert_eq!((bd.size_a, bd.version_a, bd.size_b, bd.version_b), (2048, 1, 999, 2));
}

#[test]
fn test_set_active_bank_rejections() {
    let bd = BootData { size_a: 100, crc_a: 0x1111, ..BootData::default_new() };
    let busy = receiving(0, 100, 1, 1, 0);
    let r = handle_set_active_bank(busy, 0, &bd, 0x1111);
    assert_eq!(r.response, ack(AckStatus::BadState));
    assert_eq!(r.state, busy);
    let r = handle_set_active_bank(UpdateState::Idle, 2, &bd, 0x1111);
    assert_eq!(r.response, ack(AckStatus::BankInvalid));
    let r = handle_set_active_bank(UpdateState::Idle, 1, &bd, 0);
    assert_eq!(r.response, ack(AckStatus::BankInvalid));
    let r = handle_set_active_bank(UpdateState::Idle, 0, &bd, 0x1112);
    assert_eq!(r.response, ack(AckStatus::CrcError));
    assert!(r.ops.is_empty());
    let r = handle_set_active_bank(UpdateState::Idle, 0, &bd, 0x1111);
    assert_eq!(r.response, ack(AckStatus::Okay));
    assert_eq!(r.ops.len(), 2);
}

#[test]
fn test_set_active_bank_detects_corrupted_image() {
    let mut flash = Flash::new();
    upload_ok(&mut flash, 0, &firmware(2048), 1);
    upload_ok(&mut flash, 1, &firmware(2048), 2);
    // a new session erases bank 0 and is abandoned
    let (_, resp) = send(
        &mut flash,
        UpdateState::Idle,
        Command::StartUpdate { bank: 0, size: 10, crc32: 0, version: 3 },
    );
    assert_eq!(resp, ack(AckStatus::Okay));
    let before = read_boot_data(&flash);
    let (_, resp) = send(&mut flash, UpdateState::Idle, Command::SetActiveBank { bank: 0 });
    assert_eq!(resp, ack(AckStatus::CrcError));
    assert_eq!(read_boot_data(&flash), before);
}

#[test]
fn test_wipe_all() {
    let mut flash = Flash::new();
    upload_ok(&mut flash, 1, &firmware(2048), 7);
    let busy = receiving(0, 100, 1, 1, 0);
    let (state, resp) = send(&mut flash, busy, Command::WipeAll);
    assert_eq!(resp, ack(AckStatus::BadState));
    assert_eq!(state, busy);
    assert_eq!(read_boot_data(&flash).size_b, 2048);

    let (state, resp) = send(&mut flash, UpdateState::Idle, Command::WipeAll);
    assert_eq!(resp, ack(AckStatus::Okay));
    assert_eq!(state, UpdateState::Idle);
    assert_eq!(read_boot_data(&flash), BootData::default_new());
    // the image itself is left in the bank
    assert_eq!(flash_read(&flash, FW_B_ADDR, 2048), &firmware(2048)[..]);

    let r = handle_wipe_all(UpdateState::Idle);
    let mut page = BootData::default_new().as_bytes();
    page.resize(256, 0xFF);
    assert_eq!(
        r.ops,
        vec![
            FlashOp::Erase { offset: 0x0019_0000, size: 4096 },
            FlashOp::Program { offset: 0x0019_0000, data: page },
        ]
    );
}

#[test]
fn test_reboot_acknowledges_then_resets() {
    for state in [UpdateState::Idle, receiving(1, 100, 1, 1, 50)] {
        let r = handle_reboot(state);
        assert_eq!(r.response, ack(AckStatus::Okay));
        assert!(r.reset);
        assert!(r.ops.is_empty());
        assert_eq!(r.state, state);
    }
    let mut flash = Flash::new();
    let served = run_command(&mut flash, UpdateState::Idle, Command::Reboot);
    assert_eq!(
        served,
        Served { state: UpdateState::Idle, response: ack(AckStatus::Okay), reset: true }
    );
}

#[test]
fn test_get_status_reports_record_and_state() {
    let bd = BootData { active_bank: 1, version_a: 3, version_b: 4, ..BootData::default_new() };
    let r = handle_get_status(UpdateState::Idle, &bd);
    assert_eq!(
        r.response,
        Response::Status { active_bank: 1, version_a: 3, version_b: 4, state: BootState::UpdateMode }
    );
    assert!(r.ops.is_empty());
    assert!(!r.reset);
    let busy = receiving(0, 100, 1, 1, 0);
    let r = handle_get_status(busy, &bd);
    assert_eq!(
        r.response,
        Response::Status { active_bank: 1, version_a: 3, version_b: 4, state: BootState::Receiving }
    );
    assert_eq!(r.state, busy);
}

// --- The engine without the model ---

#[test]
fn test_crc_range() {
    let bd = BootData { size_a: 100, size_b: 0, ..BootData::default_new() };
    let complete = receiving(1, 2048, 0, 1, 2048);
    let partial = receiving(1, 2048, 0, 1, 2047);
    assert_eq!(crc_range(complete, &Command::FinishUpdate, &bd), Some((FW_B_ADDR, 2048)));
    assert_eq!(crc_range(partial, &Command::FinishUpdate, &bd), None);
    assert_eq!(crc_range(UpdateState::Idle, &Command::FinishUpdate, &bd), None);
    assert_eq!(
        crc_range(UpdateState::Idle, &Command::SetActiveBank { bank: 0 }, &bd),
        Some((FW_A_ADDR, 100))
    );
    assert_eq!(crc_range(UpdateState::Idle, &Command::SetActiveBank { bank: 1 }, &bd), None);
    assert_eq!(crc_range(UpdateState::Idle, &Command::SetActiveBank { bank: 2 }, &bd), None);
    assert_eq!(crc_range(complete, &Command::SetActiveBank { bank: 0 }, &bd), None);
    assert_eq!(crc_range(complete, &Command::GetStatus, &bd), None);
    assert_eq!(crc_range(UpdateState::Idle, &Command::WipeAll, &bd), None);
    assert_eq!(crc_range(UpdateState::Idle, &Command::Reboot, &bd), None);
    assert_eq!(
        crc_range(
            UpdateState::Idle,
            &Command::StartUpdate { bank: 0, size: 1, crc32: 0, version: 0 },
            &bd
        ),
        None
    );
    assert_eq!(
        crc_range(complete, &Command::DataBlock { offset: 0, data: vec![] }, &bd),
        None
    );
}

#[test]
fn test_handle_command_dispatch() {
    let bd = BootData { size_a: 100, crc_a: 0x77, ..BootData::default_new() };
    let r = handle_command(UpdateState::Idle, Command::FinishUpdate, &bd, 0);
    assert_eq!(r.response, ack(AckStatus::BadState));
    let r = handle_command(UpdateState::Idle, Command::DataBlock { offset: 0, data: vec![1] }, &bd, 0);
    assert_eq!(r.response, ack(AckStatus::BadState));
    let r = handle_command(UpdateState::Idle, Command::SetActiveBank { bank: 0 }, &bd, 0x77);
    assert_eq!(r.response, ack(AckStatus::Okay));
    let r = handle_command(UpdateState::Idle, Command::SetActiveBank { bank: 0 }, &bd, 0x78);
    assert_eq!(r.response, ack(AckStatus::CrcError));
    let r = handle_command(
        UpdateState::Idle,
        Command::StartUpdate { bank: 1, size: 10, crc32: 5, version: 6 },
        &bd,
        0,
    );
    assert_eq!(r.state, receiving(1, 10, 5, 6, 0));
    let r = handle_command(UpdateState::Idle, Command::Reboot, &bd, 0);
    assert!(r.reset);
    let r = handle_command(UpdateState::Idle, Command::WipeAll, &bd, 0);
    assert_eq!(r.ops.len(), 2);
    let r = handle_command(UpdateState::Idle, Command::GetStatus, &bd, 0);
    assert_eq!(
        r.response,
        Response::Status { active_bank: 0, version_a: 0, version_b: 0, state: BootState::UpdateMode }
    );
}
