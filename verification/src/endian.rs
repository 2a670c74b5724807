//! Integers of one to eight bytes, in either byte order.

use vstd::prelude::*;
use byteorder::ByteOrder;

verus! {

/// The order in which the bytes of a number are stored.
#[derive(Clone, Copy, Debug, PartialEq, Eq, Structural)]
pub enum Endianness {
    /// The least significant byte comes first.
    Little,
    /// The most significant byte comes first.
    Big,
}

/// The number of values that `width` bytes can hold: 256 to the power `width`.
pub open spec fn span(width: nat) -> nat
    decreases width,
{
    if width == 0 {
        1
    } else {
        256 * span((width - 1) as nat)
    }
}

/// The number that `bytes` spell with the least significant byte first.
pub open spec fn le_value(bytes: Seq<u8>) -> nat
    decreases bytes.len(),
{
    if bytes.len() == 0 {
        0
    } else {
        bytes[0] as nat + 256 * le_value(bytes.skip(1))
    }
}

/// The number that `bytes` spell with the most significant byte first.
pub open spec fn be_value(bytes: Seq<u8>) -> nat
    decreases bytes.len(),
{
    if bytes.len() == 0 {
        0
    } else {
        256 * be_value(bytes.drop_last()) + bytes.last() as nat
    }
}

/// The number that `bytes` spell in the given byte order.
pub open spec fn unsigned_value(bytes: Seq<u8>, endianness: Endianness) -> nat {
    match endianness {
        Endianness::Little => le_value(bytes),
        Endianness::Big => be_value(bytes),
    }
}

/// The two's-complement reading of `value`, a number of `width` bytes:
/// the upper half of the range stands for the negative numbers.
pub open spec fn twos_complement(value: nat, width: nat) -> int {
    if 2 * value >= span(width) {
        value - span(width)
    } else {
        value as int
    }
}

/// The signed number that `bytes` spell in the given byte order.
pub open spec fn signed_value(bytes: Seq<u8>, endianness: Endianness) -> int {
    twos_complement(unsigned_value(bytes, endianness), bytes.len())
}

/// The spans of the widths that fit a 64-bit number.
pub proof fn lemma_span_values()
    ensures
        span(0) == 1,
        span(1) == 0x100,
        span(2) == 0x1_0000,
        span(3) == 0x100_0000,
        span(4) == 0x1_0000_0000,
        span(5) == 0x100_0000_0000,
        span(6) == 0x1_0000_0000_0000,
        span(7) == 0x100_0000_0000_0000,
        span(8) == 0x1_0000_0000_0000_0000,
{
    reveal_with_fuel(span, 10);
}

/// A number of `n` bytes is less than `span(n)`, in either byte order.
pub proof fn lemma_value_bound(bytes: Seq<u8>, endianness: Endianness)
    ensures
        unsigned_value(bytes, endianness) < span(bytes.len()),
    decreases bytes.len(),
{
    if bytes.len() > 0 {
        match endianness {
            Endianness::Little => {
                lemma_value_bound(bytes.skip(1), endianness);
            },
            Endianness::Big => {
                lemma_value_bound(bytes.drop_last(), endianness);
            },
        }
    }
}

/// Two bytes: the first is the low byte in little-endian order and the high
/// byte in big-endian order.
pub proof fn lemma_value_of_two(bytes: Seq<u8>)
    requires
        bytes.len() == 2,
    ensures
        le_value(bytes) == bytes[0] + 256 * bytes[1],
        be_value(bytes) == 256 * bytes[0] + bytes[1],
{
    reveal_with_fuel(le_value, 3);
    reveal_with_fuel(be_value, 3);
}

/// Four bytes in little-endian order.
pub proof fn lemma_le_value_of_four(bytes: Seq<u8>)
    requires
        bytes.len() == 4,
    ensures
        le_value(bytes) == bytes[0] + 0x100 * bytes[1] + 0x1_0000 * bytes[2] + 0x100_0000
            * bytes[3],
{
    reveal_with_fuel(le_value, 5);
}

/// `byteorder::LittleEndian::read_uint`: the first `nbytes` bytes of `buf`,
/// read as one unsigned number with the least significant byte first. The
/// outside function panics unless `1 <= nbytes <= 8` and `buf` holds that many
/// bytes.
#[verifier::external_body]
fn le_read_uint(buf: &[u8], nbytes: usize) -> (value: u64)
    requires
        1 <= nbytes <= 8,
        nbytes <= buf@.len(),
    ensures
        value == le_value(buf@.take(nbytes as int)),
{
    byteorder::LittleEndian::read_uint(buf, nbytes)
}

/// `byteorder::BigEndian::read_uint`: the first `nbytes` bytes of `buf`, read
/// as one unsigned number with the most significant byte first. The outside
/// function panics unless `1 <= nbytes <= 8` and `buf` holds that many bytes.
#[verifier::external_body]
fn be_read_uint(buf: &[u8], nbytes: usize) -> (value: u64)
    requires
        1 <= nbytes <= 8,
        nbytes <= buf@.len(),
    ensures
        value == be_value(buf@.take(nbytes as int)),
{
    byteorder::BigEndian::read_uint(buf, nbytes)
}

/// `byteorder::LittleEndian::read_int`: as `read_uint`, with the result
/// sign-extended from `nbytes` bytes to 64 bits.
#[verifier::external_body]
fn le_read_int(buf: &[u8], nbytes: usize) -> (value: i64)
    requires
        1 <= nbytes <= 8,
        nbytes <= buf@.len(),
    ensures
        value == twos_complement(le_value(buf@.take(nbytes as int)), nbytes as nat),
{
    byteorder::LittleEndian::read_int(buf, nbytes)
}

/// `byteorder::BigEndian::read_int`: as `read_uint`, with the result
/// sign-extended from `nbytes` bytes to 64 bits.
#[verifier::external_body]
fn be_read_int(buf: &[u8], nbytes: usize) -> (value: i64)
    requires
        1 <= nbytes <= 8,
        nbytes <= buf@.len(),
    ensures
        value == twos_complement(be_value(buf@.take(nbytes as int)), nbytes as nat),
{
    byteorder::BigEndian::read_int(buf, nbytes)
}

/// Reads all of `bytes` as one unsigned number.
pub fn read_unsigned(bytes: &[u8], endianness: Endianness) -> (value: u64)
    requires
        1 <= bytes@.len() <= 8,
    ensures
        value == unsigned_value(bytes@, endianness),
{
    assert(bytes@.take(bytes@.len() as int) =~= bytes@);
    match endianness {
        Endianness::Little => le_read_uint(bytes, bytes.len()),
        Endianness::Big => be_read_uint(bytes, bytes.len()),
    }
}

/// Reads all of `bytes` as one signed number in two's complement.
pub fn read_signed(bytes: &[u8], endianness: Endianness) -> (value: i64)
    requires
        1 <= bytes@.len() <= 8,
    ensures
        value == signed_value(bytes@, endianness),
{
    assert(bytes@.take(bytes@.len() as int) =~= bytes@);
    match endianness {
        Endianness::Little => le_read_int(bytes, bytes.len()),
        Endianness::Big => be_read_int(bytes, bytes.len()),
    }
}

} // verus!
