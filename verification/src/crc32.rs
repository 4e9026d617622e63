//! CRC-32/ISO-HDLC: reflected polynomial `0xEDB88320`, initial register
//! `0xFFFFFFFF`, final complement.
//!
//! The checksum is defined here bit by bit. The executable engines, the
//! bitwise one of this crate and the table-driven one of the `crc` crate, are
//! stated against that definition.

use vstd::prelude::*;

verus! {

/// The reflected generator polynomial.
pub const CRC32_POLY: u32 = 0xEDB8_8320;

/// The register before the first byte.
pub const CRC32_INIT: u32 = 0xFFFF_FFFF;

/// One bit through the register: shift right, and subtract the polynomial if
/// a one fell out.
pub open spec fn crc32_shift(reg: u32) -> u32 {
    if reg & 1 != 0 {
        (reg >> 1) ^ CRC32_POLY
    } else {
        reg >> 1
    }
}

/// `n` bits through the register.
pub open spec fn crc32_shifts(reg: u32, n: nat) -> u32
    decreases n,
{
    if n == 0 {
        reg
    } else {
        crc32_shift(crc32_shifts(reg, (n - 1) as nat))
    }
}

/// One byte through the register, low bit first.
pub open spec fn crc32_feed(reg: u32, byte: u8) -> u32 {
    crc32_shifts(reg ^ (byte as u32), 8)
}

/// The register after `data`, starting from `reg`.
pub open spec fn crc32_update(reg: u32, data: Seq<u8>) -> u32
    decreases data.len(),
{
    if data.len() == 0 {
        reg
    } else {
        crc32_feed(crc32_update(reg, data.drop_last()), data.last())
    }
}

/// The CRC-32/ISO-HDLC checksum of `data`.
pub open spec fn crc32(data: Seq<u8>) -> u32 {
    !crc32_update(CRC32_INIT, data)
}

/// Feeding `a + b` is feeding `a`, then `b`.
pub proof fn lemma_crc32_update_concat(reg: u32, a: Seq<u8>, b: Seq<u8>)
    ensures
        crc32_update(reg, a + b) == crc32_update(crc32_update(reg, a), b),
    decreases b.len(),
{
    if b.len() == 0 {
        assert(a + b =~= a);
    } else {
        lemma_crc32_update_concat(reg, a, b.drop_last());
        assert((a + b).drop_last() =~= a + b.drop_last());
        assert((a + b).last() == b.last());
    }
}

/// The `crc` crate's `Crc::<u32>::checksum` for its catalogue entry
/// `CRC_32_ISO_HDLC` (width 32, poly `0x04c11db7` reflected, init and xorout
/// `0xffffffff`). The contract claims that the crate's table-driven
/// computation yields the checksum that `crc32` defines bit by bit; Verus does
/// not read the crate.
#[verifier::external_body]
pub(crate) fn crc32_checksum(bytes: &[u8]) -> (sum: u32)
    ensures
        sum == crc32(bytes@),
{
    crc::Crc::<u32>::new(&crc::CRC_32_ISO_HDLC).checksum(bytes)
}

/// The checksum of `data`, computed by the `crc` crate.
pub fn checksum(data: &[u8]) -> (sum: u32)
    ensures
        sum == crc32(data@),
{
    crc32_checksum(data)
}

/// A running CRC-32 register, for data that arrives in pieces.
#[derive(Clone, Copy, Debug)]
pub struct Crc32 {
    reg: u32,
}

impl Crc32 {
    /// The register as it stands.
    pub closed spec fn register(self) -> u32 {
        self.reg
    }

    /// A register that has seen no data.
    pub fn new() -> (engine: Self)
        ensures
            engine.register() == CRC32_INIT,
    {
        Crc32 { reg: CRC32_INIT }
    }

    /// Feeds `data` through the register, bit by bit.
    pub fn update(&mut self, data: &[u8])
        ensures
            final(self).register() == crc32_update(old(self).register(), data@),
    {
        let mut crc: u32 = self.reg;
        let mut i: usize = 0;
        while i < data.len()
            invariant
                i <= data.len(),
                crc == crc32_update(old(self).reg, data@.take(i as int)),
            decreases data.len() - i,
        {
            let byte: u8 = data[i];
            crc = crc ^ (byte as u32);
            let ghost start: u32 = crc;
            let mut bit: u8 = 0;
            while bit < 8
                invariant
                    bit <= 8,
                    crc == crc32_shifts(start, bit as nat),
                decreases 8 - bit,
            {
                if crc & 1 != 0 {
                    crc = (crc >> 1) ^ CRC32_POLY;
                } else {
                    crc = crc >> 1;
                }
                bit += 1;
            }
            proof {
                assert(data@.take(i as int + 1).drop_last() =~= data@.take(i as int));
                assert(data@.take(i as int + 1).last() == byte);
            }
            i += 1;
        }
        assert(data@.take(i as int) =~= data@);
        self.reg = crc;
    }

    /// The checksum of everything fed so far.
    pub fn finalize(self) -> (sum: u32)
        ensures
            sum == !self.register(),
    {
        !self.reg
    }
}

} // verus!
