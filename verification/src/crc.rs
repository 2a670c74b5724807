//! The 16-bit checksum of the format: the cyclic redundancy check with the
//! reflected polynomial `0xA001`, started at zero.

use vstd::prelude::*;
use crate::error::{Error, ErrorKind};

verus! {

/// The polynomial of the checksum, with its bits reflected.
pub const CRC_POLYNOMIAL: u16 = 0xA001;

/// One bit of polynomial division: the register moves one place to the right,
/// and the polynomial is folded in if a one fell out.
pub open spec fn crc_shift(crc: u16) -> u16 {
    if crc & 1 == 1 {
        (crc >> 1) ^ CRC_POLYNOMIAL
    } else {
        crc >> 1
    }
}

/// Four bits of polynomial division.
pub open spec fn crc_shift4(crc: u16) -> u16 {
    crc_shift(crc_shift(crc_shift(crc_shift(crc))))
}

/// The checksum after one more byte: the byte is folded into the low half of
/// the register, then eight bits are divided out.
pub open spec fn crc_byte(crc: u16, byte: u8) -> u16 {
    crc_shift4(crc_shift4(crc ^ (byte as u16)))
}

/// The checksum after `bytes`, starting from `crc`.
pub open spec fn crc_from(crc: u16, bytes: Seq<u8>) -> u16
    decreases bytes.len(),
{
    if bytes.len() == 0 {
        crc
    } else {
        crc_byte(crc_from(crc, bytes.drop_last()), bytes.last())
    }
}

/// The checksum of `bytes`.
pub open spec fn crc16(bytes: Seq<u8>) -> u16 {
    crc_from(0, bytes)
}

/// The table that divides four bits out at once: entry `i` is what four
/// shifts make of `i`.
pub open spec fn crc_table(index: u16) -> u16 {
    if index == 0 {
        0x0000
    } else if index == 1 {
        0xCC01
    } else if index == 2 {
        0xD801
    } else if index == 3 {
        0x1400
    } else if index == 4 {
        0xF001
    } else if index == 5 {
        0x3C00
    } else if index == 6 {
        0x2800
    } else if index == 7 {
        0xE401
    } else if index == 8 {
        0xA001
    } else if index == 9 {
        0x6C00
    } else if index == 10 {
        0x7800
    } else if index == 11 {
        0xB401
    } else if index == 12 {
        0x5000
    } else if index == 13 {
        0x9C01
    } else if index == 14 {
        0x8801
    } else {
        0x4400
    }
}

/// The checksum after half a byte, by two table lookups.
pub open spec fn crc_nibble(crc: u16, nibble: u16) -> u16 {
    ((crc >> 4) & 0x0FFF) ^ crc_table(crc & 0xF) ^ crc_table(nibble & 0xF)
}

/// Every entry of the table is four shifts of its index.
pub proof fn lemma_table_entries(index: u16)
    requires
        index < 16,
    ensures
        crc_table(index) == crc_shift4(index),
{
    assert(index < 16 ==> crc_table(index) == crc_shift4(index)) by (bit_vector);
}

/// Two table steps, low half first, divide a whole byte out.
pub proof fn lemma_nibbles_make_byte(crc: u16, byte: u8)
    ensures
        crc_nibble(crc_nibble(crc, byte as u16), (byte >> 4) as u16) == crc_byte(crc, byte),
{
    assert(crc_nibble(crc_nibble(crc, byte as u16), (byte >> 4) as u16) == crc_byte(crc, byte))
        by (bit_vector);
}

/// A checksum can be taken in pieces: going on from the checksum of `first`
/// over `second` gives the checksum of the two joined.
pub proof fn lemma_crc_concat(crc: u16, first: Seq<u8>, second: Seq<u8>)
    ensures
        crc_from(crc_from(crc, first), second) == crc_from(crc, first + second),
    decreases second.len(),
{
    if second.len() == 0 {
        assert(first + second =~= first);
    } else {
        lemma_crc_concat(crc, first, second.drop_last());
        assert((first + second).drop_last() =~= first + second.drop_last());
    }
}

/// The checksum after one byte alone.
pub proof fn lemma_crc_single(crc: u16, byte: u8)
    ensures
        crc_from(crc, seq![byte]) == crc_byte(crc, byte),
{
    reveal_with_fuel(crc_from, 2);
    assert(seq![byte].drop_last() =~= Seq::<u8>::empty());
}

/// Looks one entry of the table up.
fn table_entry(index: u16) -> (entry: u16)
    requires
        index < 16,
    ensures
        entry == crc_table(index),
{
    let table: [u16; 16] = [
        0x0000, 0xCC01, 0xD801, 0x1400, 0xF001, 0x3C00, 0x2800, 0xE401,
        0xA001, 0x6C00, 0x7800, 0xB401, 0x5000, 0x9C01, 0x8801, 0x4400,
    ];
    table[index as usize]
}

/// Divides half a byte out of the register.
fn update_nibble(crc: u16, nibble: u16) -> (next: u16)
    ensures
        next == crc_nibble(crc, nibble),
{
    let low: u16 = crc & 0xF;
    let half: u16 = nibble & 0xF;
    assert(low < 16) by (bit_vector)
        requires
            low == crc & 0xF,
    ;
    assert(half < 16) by (bit_vector)
        requires
            half == nibble & 0xF,
    ;
    ((crc >> 4) & 0x0FFF) ^ table_entry(low) ^ table_entry(half)
}

/// The running checksum of a stream of bytes.
#[derive(Clone, Copy, Debug, PartialEq, Eq, Structural)]
pub struct CrcValidator {
    value: u16,
}

impl CrcValidator {
    /// The checksum so far.
    pub closed spec fn checksum(&self) -> u16 {
        self.value
    }

    /// A checksum over no bytes yet.
    pub fn new() -> (crc: Self)
        ensures
            crc.checksum() == 0,
            crc.checksum() == crc16(Seq::<u8>::empty()),
    {
        CrcValidator { value: 0 }
    }

    /// The checksum so far.
    pub fn value(&self) -> (value: u16)
        ensures
            value == self.checksum(),
    {
        self.value
    }

    /// Takes one more byte in.
    pub fn update(&mut self, byte: u8)
        ensures
            final(self).checksum() == crc_byte(old(self).checksum(), byte),
            final(self).checksum() == crc_from(old(self).checksum(), seq![byte]),
    {
        let low = update_nibble(self.value, byte as u16);
        let both = update_nibble(low, (byte >> 4) as u16);
        proof {
            lemma_nibbles_make_byte(self.value, byte);
            lemma_crc_single(self.value, byte);
        }
        self.value = both;
    }

    /// Takes a run of bytes in, in order.
    pub fn update_all(&mut self, bytes: &[u8])
        ensures
            final(self).checksum() == crc_from(old(self).checksum(), bytes@),
    {
        let mut i: usize = 0;
        while i < bytes.len()
            invariant
                i <= bytes@.len(),
                self.checksum() == crc_from(old(self).checksum(), bytes@.take(i as int)),
            decreases bytes@.len() - i,
        {
            self.update(bytes[i]);
            proof {
                assert(bytes@.take(i + 1).drop_last() =~= bytes@.take(i as int));
            }
            i = i + 1;
        }
        assert(bytes@.take(i as int) =~= bytes@);
    }

    /// Compares the checksum so far with the one that the input stores at
    /// `offset`. The two differ exactly when this fails.
    pub fn validate(&self, stored: u16, offset: usize) -> (outcome: Result<(), Error>)
        ensures
            outcome == crc_outcome(self.checksum(), stored, offset),
    {
        if self.value == stored {
            Ok(())
        } else {
            Err(Error {
                kind: ErrorKind::CrcMismatch,
                offset,
                expected: self.value as u64,
                actual: stored as u64,
            })
        }
    }
}

/// What comparing a computed checksum with a stored one gives.
pub open spec fn crc_outcome(computed: u16, stored: u16, offset: usize) -> Result<(), Error> {
    if computed == stored {
        Ok(())
    } else {
        Err(
            Error {
                kind: ErrorKind::CrcMismatch,
                offset,
                expected: computed as u64,
                actual: stored as u64,
            },
        )
    }
}

} // verus!
