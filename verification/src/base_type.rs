//! The base types of field values, and how a field's bytes become a value.

use vstd::prelude::*;
use vstd::slice::slice_to_vec;
use crate::endian::{
    lemma_span_values, lemma_value_bound, read_signed, read_unsigned, signed_value,
    unsigned_value, Endianness,
};

verus! {

/// The bits of a base type tag that number the base type. The bits above
/// them say nothing about how a value is read.
pub const BASE_TYPE_NUMBER_BITS: u8 = 0x1F;

/// What the number of a base type says about its values.
#[derive(Clone, Copy, Debug, PartialEq, Eq, Structural)]
pub enum BaseType {
    /// An unsigned integer of `width` bytes.
    Unsigned { width: u8 },
    /// A signed integer of `width` bytes, in two's complement.
    Signed { width: u8 },
    /// A floating-point number of `width` bytes, 4 or 8.
    Float { width: u8 },
    /// A string that a zero byte ends.
    Text,
    /// A number that stands for no base type.
    Reserved,
}

/// The base type that a tag names. Its number is in the tag's low five bits:
/// 0 enum, 1 sint8, 2 uint8, 3 sint16, 4 uint16, 5 sint32, 6 uint32,
/// 7 string, 8 float32, 9 float64, 10 uint8z, 11 uint16z, 12 uint32z,
/// 13 byte, 14 sint64, 15 uint64, 16 uint64z. The rest are reserved.
pub open spec fn base_type_of(tag: u8) -> BaseType {
    let number = tag % 32;
    if number == 0 || number == 2 || number == 10 || number == 13 {
        BaseType::Unsigned { width: 1 }
    } else if number == 4 || number == 11 {
        BaseType::Unsigned { width: 2 }
    } else if number == 6 || number == 12 {
        BaseType::Unsigned { width: 4 }
    } else if number == 15 || number == 16 {
        BaseType::Unsigned { width: 8 }
    } else if number == 1 {
        BaseType::Signed { width: 1 }
    } else if number == 3 {
        BaseType::Signed { width: 2 }
    } else if number == 5 {
        BaseType::Signed { width: 4 }
    } else if number == 14 {
        BaseType::Signed { width: 8 }
    } else if number == 8 {
        BaseType::Float { width: 4 }
    } else if number == 9 {
        BaseType::Float { width: 8 }
    } else if number == 7 {
        BaseType::Text
    } else {
        BaseType::Reserved
    }
}

impl BaseType {
    /// The base type that a tag names.
    pub fn from_tag(tag: u8) -> (base_type: BaseType)
        ensures
            base_type == base_type_of(tag),
    {
        let number: u8 = tag & BASE_TYPE_NUMBER_BITS;
        assert(number == tag % 32) by (bit_vector)
            requires
                number == tag & 0x1Fu8,
        ;
        match number {
            0 | 2 | 10 | 13 => BaseType::Unsigned { width: 1 },
            4 | 11 => BaseType::Unsigned { width: 2 },
            6 | 12 => BaseType::Unsigned { width: 4 },
            15 | 16 => BaseType::Unsigned { width: 8 },
            1 => BaseType::Signed { width: 1 },
            3 => BaseType::Signed { width: 2 },
            5 => BaseType::Signed { width: 4 },
            14 => BaseType::Signed { width: 8 },
            8 => BaseType::Float { width: 4 },
            9 => BaseType::Float { width: 8 },
            7 => BaseType::Text,
            _ => BaseType::Reserved,
        }
    }
}

/// The value of one field.
#[derive(Clone, Debug, PartialEq, Eq)]
pub enum DecodedValue {
    Signed(i64),
    Unsigned(u64),
    /// A 32-bit floating-point number, as its IEEE 754 bit pattern.
    Float32(u32),
    /// A 64-bit floating-point number, as its IEEE 754 bit pattern.
    Float64(u64),
    /// The bytes of a string, without the zero byte that ends it and
    /// whatever follows that.
    Text(Vec<u8>),
    /// The bytes of a field as they are: its base type is reserved, or its
    /// size is not the width of its base type.
    Raw(Vec<u8>),
}

/// The value of one field, as a mathematical value.
pub enum Value {
    Signed(i64),
    Unsigned(u64),
    Float32(u32),
    Float64(u64),
    Text(Seq<u8>),
    Raw(Seq<u8>),
}

impl View for DecodedValue {
    type V = Value;

    open spec fn view(&self) -> Value {
        match self {
            DecodedValue::Signed(v) => Value::Signed(*v),
            DecodedValue::Unsigned(v) => Value::Unsigned(*v),
            DecodedValue::Float32(bits) => Value::Float32(*bits),
            DecodedValue::Float64(bits) => Value::Float64(*bits),
            DecodedValue::Text(bytes) => Value::Text(bytes@),
            DecodedValue::Raw(bytes) => Value::Raw(bytes@),
        }
    }
}

/// The number of bytes before the first zero byte, or the number of all of
/// them if none is zero.
pub open spec fn text_length(bytes: Seq<u8>) -> nat
    decreases bytes.len(),
{
    if bytes.len() == 0 || bytes[0] == 0 {
        0
    } else {
        1 + text_length(bytes.skip(1))
    }
}

/// The bytes before the first zero byte.
pub open spec fn text_of(bytes: Seq<u8>) -> Seq<u8> {
    bytes.take(text_length(bytes) as int)
}

/// The value that a field's bytes spell. A number is read only from a field
/// as long as its base type is wide; every other field keeps its bytes.
pub open spec fn value_of(tag: u8, bytes: Seq<u8>, endianness: Endianness) -> Value {
    match base_type_of(tag) {
        BaseType::Unsigned { width } => if bytes.len() == width {
            Value::Unsigned(unsigned_value(bytes, endianness) as u64)
        } else {
            Value::Raw(bytes)
        },
        BaseType::Signed { width } => if bytes.len() == width {
            Value::Signed(signed_value(bytes, endianness) as i64)
        } else {
            Value::Raw(bytes)
        },
        BaseType::Float { width } => if bytes.len() == width {
            if width == 4 {
                Value::Float32(unsigned_value(bytes, endianness) as u32)
            } else {
                Value::Float64(unsigned_value(bytes, endianness) as u64)
            }
        } else {
            Value::Raw(bytes)
        },
        BaseType::Text => Value::Text(text_of(bytes)),
        BaseType::Reserved => Value::Raw(bytes),
    }
}

/// What `text_length` finds: no byte before it is zero, and it stops at a
/// zero byte or at the end.
pub proof fn lemma_text_length(bytes: Seq<u8>)
    ensures
        text_length(bytes) <= bytes.len(),
        forall|k: int| 0 <= k < text_length(bytes) ==> bytes[k] != 0,
        text_length(bytes) < bytes.len() ==> bytes[text_length(bytes) as int] == 0,
    decreases bytes.len(),
{
    if bytes.len() != 0 && bytes[0] != 0 {
        let rest = bytes.skip(1);
        lemma_text_length(rest);
        assert forall|k: int| 0 <= k < text_length(bytes) implies bytes[k] != 0 by {
            if k > 0 {
                assert(bytes[k] == rest[k - 1]);
            }
        }
        if text_length(bytes) < bytes.len() {
            assert(bytes[text_length(bytes) as int] == rest[text_length(rest) as int]);
        }
    }
}

/// The place where a string stops is `text_length`, and no other.
pub proof fn lemma_text_length_is(bytes: Seq<u8>, stop: nat)
    requires
        stop <= bytes.len(),
        forall|k: int| 0 <= k < stop ==> bytes[k] != 0,
        stop < bytes.len() ==> bytes[stop as int] == 0,
    ensures
        text_length(bytes) == stop,
    decreases stop,
{
    if stop > 0 {
        let rest = bytes.skip(1);
        assert forall|k: int| 0 <= k < stop - 1 implies rest[k] != 0 by {
            assert(rest[k] == bytes[k + 1]);
        }
        if stop - 1 < rest.len() {
            assert(rest[stop - 1] == bytes[stop as int]);
        }
        lemma_text_length_is(rest, (stop - 1) as nat);
    }
}

/// Reads the bytes of a string up to its first zero byte.
fn read_text(bytes: &[u8]) -> (text: Vec<u8>)
    ensures
        text@ == text_of(bytes@),
{
    let mut stop: usize = 0;
    while stop < bytes.len() && bytes[stop] != 0
        invariant
            stop <= bytes@.len(),
            forall|k: int| 0 <= k < stop ==> bytes@[k] != 0,
        decreases bytes@.len() - stop,
    {
        stop = stop + 1;
    }
    proof {
        lemma_text_length_is(bytes@, stop as nat);
    }
    let text = slice_to_vec(&bytes[0..stop]);
    assert(text@ =~= text_of(bytes@));
    text
}

impl DecodedValue {
    /// Reads the value of a field from its bytes, by the tag of its base
    /// type and in the byte order of its definition. Nothing is rejected: what
    /// cannot be read as its base type is kept as raw bytes.
    pub fn decode(tag: u8, bytes: &[u8], endianness: Endianness) -> (value: DecodedValue)
        ensures
            value@ == value_of(tag, bytes@, endianness),
    {
        proof {
            lemma_span_values();
            lemma_value_bound(bytes@, endianness);
        }
        match BaseType::from_tag(tag) {
            BaseType::Unsigned { width } => if bytes.len() == width as usize {
                DecodedValue::Unsigned(read_unsigned(bytes, endianness))
            } else {
                DecodedValue::Raw(slice_to_vec(bytes))
            },
            BaseType::Signed { width } => if bytes.len() == width as usize {
                DecodedValue::Signed(read_signed(bytes, endianness))
            } else {
                DecodedValue::Raw(slice_to_vec(bytes))
            },
            BaseType::Float { width } => if bytes.len() == width as usize {
                let bits = read_unsigned(bytes, endianness);
                if width == 4 {
                    DecodedValue::Float32(bits as u32)
                } else {
                    DecodedValue::Float64(bits)
                }
            } else {
                DecodedValue::Raw(slice_to_vec(bytes))
            },
            BaseType::Text => DecodedValue::Text(read_text(bytes)),
            BaseType::Reserved => DecodedValue::Raw(slice_to_vec(bytes)),
        }
    }
}

} // verus!
