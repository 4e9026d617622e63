//! The flash service: erase, program, read and checksum, stated over a memory
//! model of the NOR flash.
//!
//! The bootloader's engines never touch the flash themselves. They return
//! `FlashOp`s, which the caller carries out: on the device through the ROM
//! routines, and on a `Flash` value, the model kept here, through `execute`.
//! The model is what the contracts of the engines speak of.

use vstd::prelude::*;
use vstd::slice::slice_subrange;
use crate::crc32::{crc32, crc32_checksum};
use crate::protocol::{
    BootData, BOOT_DATA_ADDR, BOOT_DATA_MAGIC, BOOT_DATA_SIZE, FLASH_BASE, FLASH_PAGE_SIZE,
    FLASH_SECTOR_SIZE,
};

verus! {

/// Bytes of flash that the layout maps: from the bootloader image to the end
/// of the boot record's sector.
pub const FLASH_SIZE: u32 = 0x0019_1000;

/// Flash-relative offset of the boot record's sector.
pub const BOOT_DATA_OFFSET: u32 = 0x0019_0000;

/// What an erased byte reads as.
pub const ERASED_BYTE: u8 = 0xFF;

// --- Model ---

/// `mem` after the bytes `offset .. offset + size` were erased.
pub open spec fn erased(mem: Seq<u8>, offset: int, size: int) -> Seq<u8> {
    Seq::new(
        mem.len(),
        |i: int|
            if offset <= i < offset + size {
                ERASED_BYTE
            } else {
                mem[i]
            },
    )
}

/// `mem` after `data` was programmed at `offset`: programming clears bits and
/// sets none, so each byte becomes the conjunction of what was there and what
/// was written.
pub open spec fn programmed(mem: Seq<u8>, offset: int, data: Seq<u8>) -> Seq<u8> {
    Seq::new(
        mem.len(),
        |i: int|
            if offset <= i < offset + data.len() {
                mem[i] & data[i - offset]
            } else {
                mem[i]
            },
    )
}

/// The `size` bytes that the flash holds at the absolute address `abs_addr`.
pub open spec fn region(mem: Seq<u8>, abs_addr: int, size: int) -> Seq<u8> {
    mem.subrange(abs_addr - FLASH_BASE, abs_addr - FLASH_BASE + size)
}

/// Whether the `size` bytes at `abs_addr` lie in the mapped flash.
pub open spec fn in_flash(abs_addr: int, size: int) -> bool {
    FLASH_BASE <= abs_addr && 0 <= size && abs_addr - FLASH_BASE + size <= FLASH_SIZE
}

/// One operation of the flash service, at a flash-relative offset.
#[derive(Debug, PartialEq, Eq)]
pub enum FlashOp {
    /// Erase `size` bytes at `offset`.
    Erase { offset: u32, size: u32 },
    /// Program `data` at `offset`.
    Program { offset: u32, data: Vec<u8> },
}

impl FlashOp {
    /// What the flash service accepts: an erase of whole sectors, or a program
    /// of whole pages, inside the mapped flash.
    pub open spec fn valid(self) -> bool {
        match self {
            FlashOp::Erase { offset, size } => {
                &&& offset % FLASH_SECTOR_SIZE == 0
                &&& size % FLASH_SECTOR_SIZE == 0
                &&& offset + size <= FLASH_SIZE
            },
            FlashOp::Program { offset, data } => {
                &&& data@.len() % (FLASH_PAGE_SIZE as nat) == 0
                &&& offset + data@.len() <= FLASH_SIZE
            },
        }
    }

    /// The memory after this operation.
    pub open spec fn apply(self, mem: Seq<u8>) -> Seq<u8> {
        match self {
            FlashOp::Erase { offset, size } => erased(mem, offset as int, size as int),
            FlashOp::Program { offset, data } => programmed(mem, offset as int, data@),
        }
    }
}

/// The memory after `ops`, carried out in order.
pub open spec fn apply_ops(mem: Seq<u8>, ops: Seq<FlashOp>) -> Seq<u8>
    decreases ops.len(),
{
    if ops.len() == 0 {
        mem
    } else {
        ops.last().apply(apply_ops(mem, ops.drop_last()))
    }
}

/// Whether the flash service accepts every one of `ops`.
pub open spec fn ops_valid(ops: Seq<FlashOp>) -> bool {
    forall|i: int| 0 <= i < ops.len() ==> (#[trigger] ops[i]).valid()
}

/// The page that holds a boot record: its 32 bytes, then erased bytes.
pub open spec fn boot_data_page(bd: BootData) -> Seq<u8> {
    bd.layout() + Seq::new((FLASH_PAGE_SIZE - BOOT_DATA_SIZE) as nat, |i: int| ERASED_BYTE)
}

/// The operations that write a boot record: erase its sector, program its page.
pub open spec fn boot_data_ops(bd: BootData, ops: Seq<FlashOp>) -> bool {
    &&& ops.len() == 2
    &&& ops[0] == (FlashOp::Erase { offset: BOOT_DATA_OFFSET, size: FLASH_SECTOR_SIZE })
    &&& ops[1] matches FlashOp::Program { offset, data }
    &&& offset == BOOT_DATA_OFFSET
    &&& data@ == boot_data_page(bd)
}

/// The memory after a boot record was written: its sector holds the record's
/// page and erased bytes, the rest is untouched.
pub open spec fn with_boot_data(mem: Seq<u8>, bd: BootData) -> Seq<u8> {
    Seq::new(
        mem.len(),
        |i: int|
            if BOOT_DATA_OFFSET <= i < BOOT_DATA_OFFSET + FLASH_PAGE_SIZE {
                boot_data_page(bd)[i - BOOT_DATA_OFFSET]
            } else if BOOT_DATA_OFFSET <= i < BOOT_DATA_OFFSET + FLASH_SECTOR_SIZE {
                ERASED_BYTE
            } else {
                mem[i]
            },
    )
}

/// The boot record that the bootloader reads: what the sector holds if it
/// carries the magic number, a fresh record otherwise.
pub open spec fn stored_boot_data(mem: Seq<u8>) -> BootData {
    BootData::parse(region(mem, BOOT_DATA_ADDR as int, BOOT_DATA_SIZE as int)).or_default_spec()
}

/// A memory model of the mapped flash.
pub struct Flash {
    mem: Vec<u8>,
}

impl View for Flash {
    type V = Seq<u8>;

    closed spec fn view(&self) -> Seq<u8> {
        self.mem@
    }
}

impl Flash {
    /// The model covers the mapped flash, no more and no less.
    pub open spec fn wf(&self) -> bool {
        self@.len() == FLASH_SIZE
    }

    /// A flash in which every byte is erased.
    pub fn new() -> (flash: Self)
        ensures
            flash.wf(),
            forall|i: int| 0 <= i < FLASH_SIZE ==> flash@[i] == ERASED_BYTE,
    {
        let mem: Vec<u8> = vec![ERASED_BYTE; FLASH_SIZE as usize];
        Flash { mem }
    }
}

// --- ROM routines ---

/// Command byte of the flash chip for a sector erase.
pub const SECTOR_ERASE_CMD: u8 = 0x20;

/// One call of a flash routine of the boot ROM, or a change of the interrupt
/// mask around such calls.
#[derive(Debug, PartialEq, Eq)]
pub enum RomCall {
    /// Mask interrupts.
    DisableInterrupts,
    /// `connect_internal_flash`, tag `IF`.
    ConnectInternalFlash,
    /// `flash_exit_xip`, tag `EX`.
    FlashExitXip,
    /// `flash_range_erase`, tag `RE`: erase `count` bytes at `offset`, in
    /// blocks of `block_size` bytes where `block_cmd` can erase one.
    FlashRangeErase { offset: u32, count: u32, block_size: u32, block_cmd: u8 },
    /// `flash_range_program`, tag `RP`: program `data` at `offset`.
    FlashRangeProgram { offset: u32, data: Vec<u8> },
    /// `flash_flush_cache`, tag `FC`.
    FlashFlushCache,
    /// `flash_enter_cmd_xip`, tag `CX`.
    FlashEnterCmdXip,
    /// Unmask interrupts.
    EnableInterrupts,
}

/// The two characters by which the ROM's table names the routine of `call`.
pub open spec fn rom_tag_of(call: RomCall) -> Option<(u8, u8)> {
    match call {
        RomCall::ConnectInternalFlash => Some((0x49u8, 0x46u8)),
        RomCall::FlashExitXip => Some((0x45u8, 0x58u8)),
        RomCall::FlashRangeErase { .. } => Some((0x52u8, 0x45u8)),
        RomCall::FlashRangeProgram { .. } => Some((0x52u8, 0x50u8)),
        RomCall::FlashFlushCache => Some((0x46u8, 0x43u8)),
        RomCall::FlashEnterCmdXip => Some((0x43u8, 0x58u8)),
        _ => None,
    }
}

/// Whether `calls` is the sequence that carries out `op`: with interrupts
/// masked, connect the flash and leave XIP, erase or program, flush the cache
/// and enter XIP again.
pub open spec fn is_rom_sequence(calls: Seq<RomCall>, op: FlashOp) -> bool {
    &&& calls.len() == 7
    &&& calls[0] == RomCall::DisableInterrupts
    &&& calls[1] == RomCall::ConnectInternalFlash
    &&& calls[2] == RomCall::FlashExitXip
    &&& match op {
        FlashOp::Erase { offset, size } => calls[3] == (RomCall::FlashRangeErase {
            offset,
            count: size,
            block_size: FLASH_SECTOR_SIZE,
            block_cmd: SECTOR_ERASE_CMD,
        }),
        FlashOp::Program { offset, data } => {
            &&& calls[3] matches RomCall::FlashRangeProgram { offset: at, data: bytes }
            &&& at == offset
            &&& bytes@ == data@
        },
    }
    &&& calls[4] == RomCall::FlashFlushCache
    &&& calls[5] == RomCall::FlashEnterCmdXip
    &&& calls[6] == RomCall::EnableInterrupts
}

/// The two-character tag by which the ROM's table names the routine of
/// `call`; none for a change of the interrupt mask.
pub fn rom_tag(call: &RomCall) -> (tag: Option<(u8, u8)>)
    ensures
        tag == rom_tag_of(*call),
{
    match call {
        RomCall::ConnectInternalFlash => Some((0x49, 0x46)),
        RomCall::FlashExitXip => Some((0x45, 0x58)),
        RomCall::FlashRangeErase { .. } => Some((0x52, 0x45)),
        RomCall::FlashRangeProgram { .. } => Some((0x52, 0x50)),
        RomCall::FlashFlushCache => Some((0x46, 0x43)),
        RomCall::FlashEnterCmdXip => Some((0x43, 0x58)),
        _ => None,
    }
}

/// The code under which the ROM's table lists the routine with the tag
/// `tag`: the two characters as a little-endian halfword.
pub fn rom_table_code(tag: (u8, u8)) -> (code: u32)
    ensures
        code == tag.0 + 256 * tag.1,
{
    tag.0 as u32 + 256 * (tag.1 as u32)
}

/// The ROM calls that carry out `op`, in order. All of them have to run from
/// RAM: between leaving XIP and entering it again the flash serves no
/// instruction fetch.
pub fn rom_sequence(op: FlashOp) -> (calls: Vec<RomCall>)
    ensures
        is_rom_sequence(calls@, op),
{
    let mut calls: Vec<RomCall> = Vec::new();
    calls.push(RomCall::DisableInterrupts);
    calls.push(RomCall::ConnectInternalFlash);
    calls.push(RomCall::FlashExitXip);
    match op {
        FlashOp::Erase { offset, size } => {
            calls.push(
                RomCall::FlashRangeErase {
                    offset,
                    count: size,
                    block_size: FLASH_SECTOR_SIZE,
                    block_cmd: SECTOR_ERASE_CMD,
                },
            );
        },
        FlashOp::Program { offset, data } => {
            calls.push(RomCall::FlashRangeProgram { offset, data });
        },
    }
    calls.push(RomCall::FlashFlushCache);
    calls.push(RomCall::FlashEnterCmdXip);
    calls.push(RomCall::EnableInterrupts);
    calls
}

// --- Service ---

/// Convert an absolute XIP flash address to a flash-relative offset.
pub fn addr_to_offset(abs_addr: u32) -> (offset: u32)
    requires
        abs_addr >= FLASH_BASE,
    ensures
        offset == abs_addr - FLASH_BASE,
{
    abs_addr - FLASH_BASE
}

/// Erase flash at the given flash-relative offset.
pub fn flash_erase(flash: &mut Flash, offset: u32, size: u32)
    requires
        old(flash).wf(),
        (FlashOp::Erase { offset, size }).valid(),
    ensures
        final(flash).wf(),
        final(flash)@ == erased(old(flash)@, offset as int, size as int),
{
    let mut i: usize = 0;
    while i < size as usize
        invariant
            i <= size,
            offset + size <= FLASH_SIZE,
            flash.mem@.len() == FLASH_SIZE,
            flash.mem@ == erased(old(flash)@, offset as int, i as int),
        decreases size - i,
    {
        flash.mem.set(offset as usize + i, ERASED_BYTE);
        i += 1;
        assert(flash.mem@ =~= erased(old(flash)@, offset as int, i as int));
    }
}

/// Program flash at the given flash-relative offset.
pub fn flash_program(flash: &mut Flash, offset: u32, data: &[u8])
    requires
        old(flash).wf(),
        data@.len() % (FLASH_PAGE_SIZE as nat) == 0,
        offset + data@.len() <= FLASH_SIZE,
    ensures
        final(flash).wf(),
        final(flash)@ == programmed(old(flash)@, offset as int, data@),
{
    let mut i: usize = 0;
    while i < data.len()
        invariant
            i <= data@.len(),
            offset + data@.len() <= FLASH_SIZE,
            flash.mem@.len() == FLASH_SIZE,
            flash.mem@ == programmed(old(flash)@, offset as int, data@.take(i as int)),
        decreases data@.len() - i,
    {
        let at: usize = offset as usize + i;
        let byte: u8 = flash.mem[at] & data[i];
        flash.mem.set(at, byte);
        i += 1;
        assert(flash.mem@ =~= programmed(old(flash)@, offset as int, data@.take(i as int)));
    }
    assert(data@.take(i as int) =~= data@);
}

/// Read `len` bytes at an absolute XIP flash address.
pub fn flash_read(flash: &Flash, abs_addr: u32, len: usize) -> (bytes: &[u8])
    requires
        flash.wf(),
        in_flash(abs_addr as int, len as int),
    ensures
        bytes@ == region(flash@, abs_addr as int, len as int),
{
    let start: usize = (abs_addr - FLASH_BASE) as usize;
    slice_subrange(flash.mem.as_slice(), start, start + len)
}

/// Compute CRC-32 (ISO HDLC) over flash data at the given absolute address.
pub fn compute_crc32(flash: &Flash, abs_addr: u32, size: u32) -> (sum: u32)
    requires
        flash.wf(),
        in_flash(abs_addr as int, size as int),
    ensures
        sum == crc32(region(flash@, abs_addr as int, size as int)),
{
    crc32_checksum(flash_read(flash, abs_addr, size as usize))
}

/// Read BootData from flash. Returns default if magic is invalid.
pub fn read_boot_data(flash: &Flash) -> (bd: BootData)
    requires
        flash.wf(),
    ensures
        bd == stored_boot_data(flash@),
{
    BootData::read_from(flash_read(flash, BOOT_DATA_ADDR, BOOT_DATA_SIZE)).or_default()
}

/// The operations that write BootData to flash: erase the sector, then
/// program the record padded to a full 256-byte page.
pub fn boot_data_write_ops(bd: &BootData) -> (ops: Vec<FlashOp>)
    ensures
        boot_data_ops(*bd, ops@),
        ops_valid(ops@),
{
    let mut page: Vec<u8> = bd.as_bytes();
    let mut i: usize = BOOT_DATA_SIZE;
    while i < FLASH_PAGE_SIZE as usize
        invariant
            BOOT_DATA_SIZE <= i <= FLASH_PAGE_SIZE,
            page@.len() == i,
            page@ == bd.layout() + Seq::new((i - BOOT_DATA_SIZE) as nat, |k: int| ERASED_BYTE),
        decreases FLASH_PAGE_SIZE - i,
    {
        page.push(ERASED_BYTE);
        i += 1;
        assert(page@ =~= bd.layout() + Seq::new((i - BOOT_DATA_SIZE) as nat, |k: int| ERASED_BYTE));
    }
    let mut ops: Vec<FlashOp> = Vec::new();
    ops.push(FlashOp::Erase { offset: BOOT_DATA_OFFSET, size: FLASH_SECTOR_SIZE });
    ops.push(FlashOp::Program { offset: BOOT_DATA_OFFSET, data: page });
    ops
}

/// Carries out `ops` on the model, in order.
pub fn execute(flash: &mut Flash, ops: &Vec<FlashOp>)
    requires
        old(flash).wf(),
        ops_valid(ops@),
    ensures
        final(flash).wf(),
        final(flash)@ == apply_ops(old(flash)@, ops@),
{
    let mut i: usize = 0;
    while i < ops.len()
        invariant
            i <= ops@.len(),
            ops_valid(ops@),
            flash.wf(),
            flash@ == apply_ops(old(flash)@, ops@.take(i as int)),
        decreases ops@.len() - i,
    {
        assert(ops@[i as int].valid());
        match &ops[i] {
            FlashOp::Erase { offset, size } => {
                flash_erase(flash, *offset, *size);
            },
            FlashOp::Program { offset, data } => {
                flash_program(flash, *offset, data.as_slice());
            },
        }
        proof {
            assert(ops@.take(i as int + 1).drop_last() =~= ops@.take(i as int));
            assert(ops@.take(i as int + 1).last() == ops@[i as int]);
        }
        i += 1;
    }
    assert(ops@.take(i as int) =~= ops@);
}

/// Write BootData to flash (erase sector, then program padded to 256B page).
pub fn write_boot_data(flash: &mut Flash, bd: &BootData)
    requires
        old(flash).wf(),
    ensures
        final(flash).wf(),
        final(flash)@ == with_boot_data(old(flash)@, *bd),
{
    let ops = boot_data_write_ops(bd);
    proof {
        lemma_boot_data_ops(flash@, *bd, ops@);
    }
    execute(flash, &ops);
}

// --- Laws ---

/// Programming a byte over an erased byte stores the byte, and programming
/// an erased byte over a byte leaves the byte as it was.
pub proof fn lemma_program_erased(byte: u8)
    ensures
        ERASED_BYTE & byte == byte,
        byte & ERASED_BYTE == byte,
{
    assert(0xFFu8 & byte == byte) by (bit_vector);
    assert(byte & 0xFFu8 == byte) by (bit_vector);
}

/// Carrying out the operations that write a boot record leaves the record's
/// page in its sector and touches nothing else.
pub proof fn lemma_boot_data_ops(mem: Seq<u8>, bd: BootData, ops: Seq<FlashOp>)
    requires
        mem.len() == FLASH_SIZE,
        boot_data_ops(bd, ops),
    ensures
        apply_ops(mem, ops) == with_boot_data(mem, bd),
{
    bd.lemma_parse_layout(Seq::empty());
    let page = boot_data_page(bd);
    let after_erase = erased(mem, BOOT_DATA_OFFSET as int, FLASH_SECTOR_SIZE as int);
    assert(ops.drop_last().drop_last() =~= Seq::<FlashOp>::empty());
    assert(apply_ops(mem, ops.drop_last().drop_last()) == mem);
    assert(ops.drop_last().last() == ops[0]);
    assert(apply_ops(mem, ops.drop_last()) == after_erase);
    assert(ops.last() == ops[1]);
    let after = programmed(after_erase, BOOT_DATA_OFFSET as int, page);
    assert(apply_ops(mem, ops) == after);
    assert forall|i: int| 0 <= i < mem.len() implies after[i] == with_boot_data(mem, bd)[i] by {
        if BOOT_DATA_OFFSET <= i < BOOT_DATA_OFFSET + FLASH_PAGE_SIZE {
            lemma_program_erased(page[i - BOOT_DATA_OFFSET]);
        }
    }
    assert(after =~= with_boot_data(mem, bd));
}

/// A valid boot record that was written is the record that is read, and the
/// flash outside the record's sector is as it was.
pub proof fn lemma_boot_data_round_trip(mem: Seq<u8>, bd: BootData)
    requires
        mem.len() == FLASH_SIZE,
    ensures
        with_boot_data(mem, bd).len() == FLASH_SIZE,
        bd.magic == BOOT_DATA_MAGIC ==> stored_boot_data(with_boot_data(mem, bd)) == bd,
        bd.magic != BOOT_DATA_MAGIC ==> stored_boot_data(with_boot_data(mem, bd))
            == BootData::default_spec(),
        forall|abs_addr: int, size: int|
            in_flash(abs_addr, size) && abs_addr + size <= BOOT_DATA_ADDR ==> #[trigger] region(
                with_boot_data(mem, bd),
                abs_addr,
                size,
            ) == region(mem, abs_addr, size),
{
    let after = with_boot_data(mem, bd);
    bd.lemma_parse_layout(Seq::empty());
    assert(bd.layout() + Seq::<u8>::empty() =~= bd.layout());
    assert(region(after, BOOT_DATA_ADDR as int, BOOT_DATA_SIZE as int) =~= bd.layout());
    assert forall|abs_addr: int, size: int|
        in_flash(abs_addr, size) && abs_addr + size <= BOOT_DATA_ADDR implies #[trigger] region(
        after,
        abs_addr,
        size,
    ) == region(mem, abs_addr, size) by {
        assert(region(after, abs_addr, size) =~= region(mem, abs_addr, size));
    }
}

} // verus!
