//! The one byte that opens every record.

use vstd::prelude::*;
use vstd::arithmetic::power2::{lemma2_to64, pow2};
use vstd::bits::lemma_u8_shr_is_div;
use crate::error::Error;

verus! {

/// The bit that marks a compressed-timestamp header; it is clear in a normal one.
pub const NORMAL_BIT: u8 = 7;

/// In a normal header, the bit that marks a definition record.
pub const DEFINITION_MESSAGE_BIT: u8 = 6;

/// In a normal header, the bit that announces developer fields.
pub const DEVELOPER_DATA_BIT: u8 = 5;

/// In a normal header, the bits of the local message type.
pub const MESSAGE_TYPE_BITS: u8 = 0x0F;

/// In a compressed-timestamp header, where the local message type starts.
pub const COMPRESSED_TYPE_SHIFT: u8 = 5;

/// In a compressed-timestamp header, the bits of the local message type
/// once shifted down.
pub const COMPRESSED_TYPE_BITS: u8 = 0x03;

/// In a compressed-timestamp header, the bits of the time offset.
pub const TIME_OFFSET_BITS: u8 = 0x1F;

/// Whether a record lays fields out or carries their values.
#[derive(Clone, Copy, Debug, PartialEq, Eq, Structural)]
pub enum MessageCategory {
    Definition,
    Data,
}

/// The two forms of a record header.
#[derive(Clone, Copy, Debug, PartialEq, Eq, Structural)]
pub enum HeaderVariant {
    /// A definition or data record for one of sixteen local message types.
    /// `developer_data` says that a definition goes on with developer fields.
    Normal { category: MessageCategory, local_message_type: u8, developer_data: bool },
    /// A data record for one of four local message types, stamped with the
    /// low five bits of its time.
    CompressedTimestamp { local_message_type: u8, time_offset: u8 },
}

/// A decoded record header, with the byte it came from.
#[derive(Clone, Copy, Debug, PartialEq, Eq, Structural)]
pub struct RecordHeader {
    pub header_byte: u8,
    pub variant: HeaderVariant,
}

/// Bit number `bit` of `byte`, counted from the least significant.
pub open spec fn bit_is_set(byte: u8, bit: u8) -> bool {
    (byte as nat / pow2(bit as nat)) % 2 == 1
}

/// What a header byte means. Every byte means something.
pub open spec fn header_variant(byte: u8) -> HeaderVariant {
    if byte >= 128 {
        HeaderVariant::CompressedTimestamp {
            local_message_type: (byte / 32) % 4,
            time_offset: byte % 32,
        }
    } else {
        HeaderVariant::Normal {
            category: if byte >= 64 {
                MessageCategory::Definition
            } else {
                MessageCategory::Data
            },
            local_message_type: byte % 16,
            developer_data: (byte / 32) % 2 == 1,
        }
    }
}

/// Tests one bit of a byte.
pub fn is_bit_set(byte: u8, bit: u8) -> (set: bool)
    requires
        bit < 8,
    ensures
        set == bit_is_set(byte, bit),
{
    let shifted: u8 = byte >> bit;
    proof {
        lemma_u8_shr_is_div(byte, bit);
        assert((shifted & 1 == 1) == (shifted % 2 == 1)) by (bit_vector);
    }
    shifted & 1 == 1
}

impl HeaderVariant {
    /// The local message type that the record is for.
    pub open spec fn slot(self) -> u8 {
        match self {
            HeaderVariant::Normal { local_message_type, .. } => local_message_type,
            HeaderVariant::CompressedTimestamp { local_message_type, .. } => local_message_type,
        }
    }

    /// Whether the record is a definition record.
    pub open spec fn defines(self) -> bool {
        self matches HeaderVariant::Normal { category: MessageCategory::Definition, .. }
    }
}

impl RecordHeader {
    /// Decodes a header byte. This never fails.
    pub fn new(byte: u8) -> (header: Result<RecordHeader, Error>)
        ensures
            header == Ok::<RecordHeader, Error>(
                RecordHeader { header_byte: byte, variant: header_variant(byte) },
            ),
    {
        proof {
            lemma2_to64();
        }
        let variant = if is_bit_set(byte, NORMAL_BIT) {
            let local_message_type: u8 = (byte >> COMPRESSED_TYPE_SHIFT) & COMPRESSED_TYPE_BITS;
            let time_offset: u8 = byte & TIME_OFFSET_BITS;
            assert(local_message_type == (byte / 32) % 4) by (bit_vector)
                requires
                    local_message_type == (byte >> 5u8) & 0x03u8,
            ;
            assert(time_offset == byte % 32) by (bit_vector)
                requires
                    time_offset == byte & 0x1Fu8,
            ;
            HeaderVariant::CompressedTimestamp { local_message_type, time_offset }
        } else {
            let local_message_type: u8 = byte & MESSAGE_TYPE_BITS;
            assert(local_message_type == byte % 16) by (bit_vector)
                requires
                    local_message_type == byte & 0x0Fu8,
            ;
            let category = if is_bit_set(byte, DEFINITION_MESSAGE_BIT) {
                MessageCategory::Definition
            } else {
                MessageCategory::Data
            };
            HeaderVariant::Normal {
                category,
                local_message_type,
                developer_data: is_bit_set(byte, DEVELOPER_DATA_BIT),
            }
        };
        Ok(RecordHeader { header_byte: byte, variant })
    }

    /// The local message type that the record is for: below 16, and below 4
    /// in a compressed-timestamp header.
    pub fn local_message_type(&self) -> (slot: u8)
        ensures
            slot == self.variant.slot(),
    {
        match self.variant {
            HeaderVariant::Normal { local_message_type, .. } => local_message_type,
            HeaderVariant::CompressedTimestamp { local_message_type, .. } => local_message_type,
        }
    }

    /// Whether the record is a definition record. A compressed-timestamp
    /// header always opens a data record.
    pub fn is_definition(&self) -> (defines: bool)
        ensures
            defines == self.variant.defines(),
    {
        match self.variant {
            HeaderVariant::Normal { category: MessageCategory::Definition, .. } => true,
            _ => false,
        }
    }
}

/// The local message type of a header is a valid slot: below 16, and below 4
/// under a compressed timestamp, whose time offset is below 32.
pub proof fn lemma_header_ranges(byte: u8)
    ensures
        header_variant(byte).slot() < 16,
        header_variant(byte) matches HeaderVariant::CompressedTimestamp {
            local_message_type,
            time_offset,
        } ==> local_message_type < 4 && time_offset < 32,
{
}

} // verus!
