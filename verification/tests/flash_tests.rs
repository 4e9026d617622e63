//! The memory model of the flash, and the CRC-32 engines.

use crispy_bootloader::crc32::{checksum, Crc32};
use crispy_bootloader::firmware;
use crispy_bootloader::flash::{
    addr_to_offset, boot_data_write_ops, compute_crc32, execute, flash_erase, flash_program,
    flash_read, read_boot_data, rom_sequence, rom_table_code, rom_tag, write_boot_data, Flash,
    FlashOp, RomCall, BOOT_DATA_OFFSET, FLASH_SIZE,
};
use crispy_bootloader::protocol::{
    BootData, BOOT_DATA_ADDR, BOOT_DATA_MAGIC, FLASH_BASE, FW_A_ADDR, FW_BANK_SIZE, FW_B_ADDR,
};

fn bitwise(data: &[u8]) -> u32 {
    let mut engine = Crc32::new();
    engine.update(data);
    engine.finalize()
}

// --- CRC-32 ---

#[test]
fn test_crc32_check_value() {
    assert_eq!(checksum(b"123456789"), 0xCBF4_3926);
    assert_eq!(bitwise(b"123456789"), 0xCBF4_3926);
}

#[test]
fn test_crc32_of_nothing() {
    assert_eq!(checksum(&[]), 0);
    assert_eq!(bitwise(&[]), 0);
}

#[test]
fn test_crc32_known_values() {
    assert_eq!(checksum(&[0x00]), 0xD202_EF8D);
    assert_eq!(checksum(&[0xFF]), 0xFF00_0000);
    assert_eq!(checksum(b"a"), 0xE8B7_BE43);
    assert_eq!(checksum(b"The quick brown fox jumps over the lazy dog"), 0x414F_A339);
    assert_eq!(bitwise(b"The quick brown fox jumps over the lazy dog"), 0x414F_A339);
}

#[test]
fn test_crc32_engines_agree() {
    for len in [0usize, 1, 2, 15, 16, 17, 255, 256, 257, 1000, 4096] {
        let data: Vec<u8> = (0..len).map(|i| (i * 13 + len) as u8).collect();
        assert_eq!(bitwise(&data), checksum(&data));
    }
}

#[test]
fn test_crc32_in_pieces() {
    let data: Vec<u8> = (0..1000usize).map(|i| (i * 3) as u8).collect();
    let mut engine = Crc32::new();
    for chunk in data.chunks(256) {
        engine.update(chunk);
    }
    assert_eq!(engine.finalize(), checksum(&data));
}

#[test]
fn test_crc32_detects_a_flipped_bit() {
    let data = vec![0x5A; 2048];
    let mut flipped = data.clone();
    flipped[2047] ^= 0x01;
    assert_ne!(checksum(&data), checksum(&flipped));
}

// --- Flash service ---

#[test]
fn test_new_flash_is_erased() {
    let flash = Flash::new();
    let all = flash_read(&flash, FLASH_BASE, FLASH_SIZE as usize);
    assert_eq!(all.len(), 0x0019_1000);
    assert!(all.iter().all(|&b| b == 0xFF));
}

#[test]
fn test_addr_to_offset() {
    assert_eq!(addr_to_offset(FLASH_BASE), 0);
    assert_eq!(addr_to_offset(FW_A_ADDR), 0x0001_0000);
    assert_eq!(addr_to_offset(FW_B_ADDR), 0x000D_0000);
    assert_eq!(addr_to_offset(BOOT_DATA_ADDR), BOOT_DATA_OFFSET);
    assert_eq!(BOOT_DATA_OFFSET, 0x0019_0000);
}

#[test]
fn test_program_then_read() {
    let mut flash = Flash::new();
    let page: Vec<u8> = (0..256usize).map(|i| i as u8).collect();
    flash_program(&mut flash, 0x0001_0100, &page);
    assert_eq!(flash_read(&flash, FW_A_ADDR + 0x100, 256), &page[..]);
    // the neighbours are untouched
    assert!(flash_read(&flash, FW_A_ADDR, 256).iter().all(|&b| b == 0xFF));
    assert!(flash_read(&flash, FW_A_ADDR + 0x200, 256).iter().all(|&b| b == 0xFF));
    assert_eq!(flash_read(&flash, FW_A_ADDR + 0x1FE, 4), &[0xFE, 0xFF, 0xFF, 0xFF]);
}

#[test]
fn test_program_clears_bits_only() {
    let mut flash = Flash::new();
    flash_program(&mut flash, 0, &[0xF0; 256]);
    flash_program(&mut flash, 0, &[0x3C; 256]);
    assert!(flash_read(&flash, FLASH_BASE, 256).iter().all(|&b| b == 0x30));
    // programming erased bytes changes nothing
    flash_program(&mut flash, 0, &[0xFF; 256]);
    assert!(flash_read(&flash, FLASH_BASE, 256).iter().all(|&b| b == 0x30));
}

#[test]
fn test_erase_restores_sector() {
    let mut flash = Flash::new();
    flash_program(&mut flash, 0x1000 - 256, &[0x11; 512]);
    flash_program(&mut flash, 0x2000 - 256, &[0x22; 512]);
    flash_erase(&mut flash, 0x1000, 0x1000);
    assert!(flash_read(&flash, FLASH_BASE + 0x1000, 0x1000).iter().all(|&b| b == 0xFF));
    // the sectors on either side keep their bytes
    assert!(flash_read(&flash, FLASH_BASE + 0x0F00, 256).iter().all(|&b| b == 0x11));
    assert!(flash_read(&flash, FLASH_BASE + 0x2000, 256).iter().all(|&b| b == 0x22));
    // nothing to erase
    flash_erase(&mut flash, 0x2000, 0);
    assert!(flash_read(&flash, FLASH_BASE + 0x2000, 256).iter().all(|&b| b == 0x22));
}

#[test]
fn test_execute_runs_ops_in_order() {
    let mut flash = Flash::new();
    let ops = vec![
        FlashOp::Program { offset: 0x1000, data: vec![0x00; 256] },
        FlashOp::Erase { offset: 0x1000, size: 0x1000 },
        FlashOp::Program { offset: 0x1000, data: vec![0xA5; 256] },
    ];
    execute(&mut flash, &ops);
    assert!(flash_read(&flash, FLASH_BASE + 0x1000, 256).iter().all(|&b| b == 0xA5));
    execute(&mut flash, &Vec::new());
    assert!(flash_read(&flash, FLASH_BASE + 0x1000, 256).iter().all(|&b| b == 0xA5));
}

#[test]
fn test_compute_crc32_over_flash() {
    let mut flash = Flash::new();
    let data: Vec<u8> = (0..512usize).map(|i| (i * 7) as u8).collect();
    flash_program(&mut flash, 0x000D_0000, &data);
    assert_eq!(compute_crc32(&flash, FW_B_ADDR, 512), checksum(&data));
    assert_eq!(compute_crc32(&flash, FW_B_ADDR, 300), checksum(&data[..300]));
    assert_eq!(compute_crc32(&flash, FW_B_ADDR, 0), 0);
    assert_eq!(compute_crc32(&flash, FW_A_ADDR, 4), checksum(&[0xFF; 4]));
    // the bitwise engine of the firmware side agrees
    assert_eq!(firmware::compute_crc32(&flash, FW_B_ADDR, 512), checksum(&data));
    assert_eq!(firmware::compute_crc32(&flash, FW_B_ADDR, 300), checksum(&data[..300]));
    // a whole bank
    assert_eq!(
        compute_crc32(&flash, FW_A_ADDR, FW_BANK_SIZE),
        checksum(&vec![0xFF; FW_BANK_SIZE as usize])
    );
}

// --- Boot record ---

#[test]
fn test_read_boot_data_defaults_without_magic() {
    let flash = Flash::new();
    assert_eq!(read_boot_data(&flash), BootData::default_new());
    // the firmware side reads the record as it is
    assert_eq!(firmware::read_boot_data(&flash).magic, 0xFFFF_FFFF);
}

#[test]
fn test_boot_data_write_ops() {
    let bd = BootData { active_bank: 1, version_b: 9, ..BootData::default_new() };
    let ops = boot_data_write_ops(&bd);
    let mut page = bd.as_bytes();
    page.extend_from_slice(&[0xFF; 224]);
    assert_eq!(page.len(), 256);
    assert_eq!(
        ops,
        vec![
            FlashOp::Erase { offset: 0x0019_0000, size: 4096 },
            FlashOp::Program { offset: 0x0019_0000, data: page },
        ]
    );
}

#[test]
fn test_write_then_read_boot_data() {
    let mut flash = Flash::new();
    flash_program(&mut flash, 0x000D_0000 + FW_BANK_SIZE - 256, &[0x42; 256]);
    let first = BootData {
        active_bank: 1,
        confirmed: 1,
        boot_attempts: 2,
        version_a: 3,
        version_b: 4,
        crc_a: 5,
        crc_b: 6,
        size_a: 7,
        size_b: 8,
        ..BootData::default_new()
    };
    write_boot_data(&mut flash, &first);
    assert_eq!(read_boot_data(&flash), first);
    assert_eq!(flash_read(&flash, BOOT_DATA_ADDR, 32), &first.as_bytes()[..]);
    assert!(flash_read(&flash, BOOT_DATA_ADDR + 32, 4096 - 32).iter().all(|&b| b == 0xFF));
    // a second write replaces the first, bits that were cleared included
    let second = BootData { version_a: 0xFFFF_FFFF, ..BootData::default_new() };
    write_boot_data(&mut flash, &second);
    assert_eq!(read_boot_data(&flash), second);
    // the end of bank B is as it was
    assert!(flash_read(&flash, BOOT_DATA_ADDR - 256, 256).iter().all(|&b| b == 0x42));
}

#[test]
fn test_record_without_magic_reads_as_default() {
    let mut flash = Flash::new();
    let bd = BootData { magic: BOOT_DATA_MAGIC ^ 1, size_a: 100, ..BootData::default_new() };
    write_boot_data(&mut flash, &bd);
    assert_eq!(read_boot_data(&flash), BootData::default_new());
    assert_eq!(firmware::read_boot_data(&flash), bd);
}

// --- ROM routines ---

#[test]
fn test_rom_sequence_of_erase() {
    assert_eq!(
        rom_sequence(FlashOp::Erase { offset: 0x0019_0000, size: 4096 }),
        vec![
            RomCall::DisableInterrupts,
            RomCall::ConnectInternalFlash,
            RomCall::FlashExitXip,
            RomCall::FlashRangeErase {
                offset: 0x0019_0000,
                count: 4096,
                block_size: 4096,
                block_cmd: 0x20
            },
            RomCall::FlashFlushCache,
            RomCall::FlashEnterCmdXip,
            RomCall::EnableInterrupts,
        ]
    );
}

#[test]
fn test_rom_sequence_of_program() {
    assert_eq!(
        rom_sequence(FlashOp::Program { offset: 0x0001_0400, data: vec![7; 256] }),
        vec![
            RomCall::DisableInterrupts,
            RomCall::ConnectInternalFlash,
            RomCall::FlashExitXip,
            RomCall::FlashRangeProgram { offset: 0x0001_0400, data: vec![7; 256] },
            RomCall::FlashFlushCache,
            RomCall::FlashEnterCmdXip,
            RomCall::EnableInterrupts,
        ]
    );
}

#[test]
fn test_rom_tags() {
    let tag = |call: RomCall| rom_tag(&call).map(|(a, b)| [a, b]);
    assert_eq!(tag(RomCall::ConnectInternalFlash), Some(*b"IF"));
    assert_eq!(tag(RomCall::FlashExitXip), Some(*b"EX"));
    assert_eq!(
        tag(RomCall::FlashRangeErase { offset: 0, count: 0, block_size: 0, block_cmd: 0 }),
        Some(*b"RE")
    );
    assert_eq!(tag(RomCall::FlashRangeProgram { offset: 0, data: vec![] }), Some(*b"RP"));
    assert_eq!(tag(RomCall::FlashFlushCache), Some(*b"FC"));
    assert_eq!(tag(RomCall::FlashEnterCmdXip), Some(*b"CX"));
    assert_eq!(tag(RomCall::DisableInterrupts), None);
    assert_eq!(tag(RomCall::EnableInterrupts), None);
}

#[test]
fn test_rom_table_code() {
    assert_eq!(rom_table_code((b'I', b'F')), u16::from_le_bytes(*b"IF") as u32);
    assert_eq!(rom_table_code((b'I', b'F')), 0x4649);
    assert_eq!(rom_table_code((0xFF, 0xFF)), 0xFFFF);
    assert_eq!(rom_table_code((0, 0)), 0);
}
