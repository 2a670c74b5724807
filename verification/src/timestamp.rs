//! The running timestamp: set by timestamp fields, and advanced by the
//! five-bit time offsets of compressed-timestamp headers.

use vstd::prelude::*;
use crate::base_type::{DecodedValue, Value};
use crate::data::{DataField, DataMessage, DataMessageView, FieldValue};
use crate::record_header::HeaderVariant;

verus! {

/// The number of the timestamp field, in every message.
pub const TIMESTAMP_FIELD_NUMBER: u8 = 253;

/// The bits of a timestamp that a time offset replaces.
pub const TIME_OFFSET_MASK: u32 = 0x1F;

/// The seconds that the time offset counts before it starts over.
pub const TIME_OFFSET_SPAN: u64 = 32;

/// The time that `time_offset` stands for after `base`, before it is cut to
/// 32 bits: the low five bits of `base` are replaced by the offset, and if
/// that would go back in time, 32 seconds are added.
pub open spec fn unwrapped_timestamp(base: u32, time_offset: u8) -> int {
    let low = base % 32;
    let offset = time_offset % 32;
    if offset >= low {
        base - low + offset
    } else {
        base - low + offset + 32
    }
}

/// The time that `time_offset` stands for after `base`. Timestamps are
/// 32-bit numbers: the sum is taken modulo 2 to the power 32.
pub open spec fn compressed_timestamp(base: u32, time_offset: u8) -> u32 {
    (unwrapped_timestamp(base, time_offset) % 0x1_0000_0000) as u32
}

/// The timestamp that a field sets, if it is a timestamp field: field 253
/// with an unsigned value of at most 32 bits.
pub open spec fn field_timestamp(field: FieldValue) -> Option<u32> {
    match field.value {
        Value::Unsigned(v) => if field.field_number == TIMESTAMP_FIELD_NUMBER && v <= u32::MAX {
            Some(v as u32)
        } else {
            None
        },
        _ => None,
    }
}

/// The running timestamp after the fields of a record: that of the last
/// timestamp field among them, and `base` if there is none.
pub open spec fn timestamp_after(fields: Seq<FieldValue>, base: u32) -> u32
    decreases fields.len(),
{
    if fields.len() == 0 {
        base
    } else {
        match field_timestamp(fields.last()) {
            Some(timestamp) => timestamp,
            None => timestamp_after(fields.drop_last(), base),
        }
    }
}

/// A data record with its time, and the running timestamp after it. Under a
/// compressed-timestamp header the record's time is worked out from the
/// running timestamp and becomes the running timestamp; under a normal header
/// the record has no time of its own. Either way a timestamp field in the
/// record then sets the running timestamp.
pub open spec fn stamped(message: DataMessageView, variant: HeaderVariant, base: u32) -> (
    DataMessageView,
    u32,
) {
    match variant {
        HeaderVariant::CompressedTimestamp { time_offset, .. } => {
            let timestamp = compressed_timestamp(base, time_offset);
            (
                DataMessageView { timestamp: Some(timestamp), ..message },
                timestamp_after(message.fields, timestamp),
            )
        },
        HeaderVariant::Normal { .. } => (message, timestamp_after(message.fields, base)),
    }
}

/// As long as the sum fits 32 bits, a compressed timestamp never goes back:
/// it lies less than 32 seconds after the base and ends in the time offset.
/// Where the offset is below the low five bits of the base, the bits above
/// them go up by one.
pub proof fn lemma_compressed_timestamp_forward(base: u32, time_offset: u8)
    requires
        time_offset < 32,
        unwrapped_timestamp(base, time_offset) <= u32::MAX,
    ensures
        base <= compressed_timestamp(base, time_offset) < base + 32,
        compressed_timestamp(base, time_offset) % 32 == time_offset,
        time_offset >= base % 32 ==> compressed_timestamp(base, time_offset) / 32 == base / 32,
        time_offset < base % 32 ==> compressed_timestamp(base, time_offset) / 32 == base / 32 + 1,
        time_offset < base % 32 ==> compressed_timestamp(base, time_offset) == base + 32 - (base
            % 32 - time_offset),
{
}

/// Works out the time of a record from the running timestamp and the time
/// offset in the record's header.
pub fn resolve_compressed_timestamp(base: u32, time_offset: u8) -> (timestamp: u32)
    ensures
        timestamp == compressed_timestamp(base, time_offset),
{
    let low: u32 = base & TIME_OFFSET_MASK;
    let offset: u8 = time_offset & 0x1F;
    assert(low == base % 32) by (bit_vector)
        requires
            low == base & 0x1Fu32,
    ;
    assert(offset == time_offset % 32) by (bit_vector)
        requires
            offset == time_offset & 0x1Fu8,
    ;
    let mut sum: u64 = (base - low) as u64 + offset as u64;
    if (offset as u32) < low {
        sum = sum + TIME_OFFSET_SPAN;
    }
    (sum % 0x1_0000_0000) as u32
}

impl DataField {
    /// The timestamp that this field sets, if it is a timestamp field.
    pub fn timestamp(&self) -> (timestamp: Option<u32>)
        ensures
            timestamp == field_timestamp(self@),
    {
        match &self.value {
            DecodedValue::Unsigned(v) => if self.field_number == TIMESTAMP_FIELD_NUMBER && *v
                <= u32::MAX as u64 {
                Some(*v as u32)
            } else {
                None
            },
            _ => None,
        }
    }
}

impl DataMessage {
    /// The running timestamp after this record, if it was `base` before it.
    pub fn timestamp_after(&self, base: u32) -> (timestamp: u32)
        ensures
            timestamp == timestamp_after(self@.fields, base),
    {
        let mut timestamp: u32 = base;
        let mut i: usize = 0;
        while i < self.fields.len()
            invariant
                i <= self.fields@.len(),
                timestamp == timestamp_after(self@.fields.take(i as int), base),
            decreases self.fields@.len() - i,
        {
            proof {
                let upto = self@.fields.take(i + 1);
                assert(upto.drop_last() =~= self@.fields.take(i as int));
                assert(upto.last() == self.fields@[i as int]@);
            }
            match self.fields[i].timestamp() {
                Some(t) => {
                    timestamp = t;
                },
                None => {},
            }
            i = i + 1;
        }
        assert(self@.fields.take(i as int) =~= self@.fields);
        timestamp
    }

    /// Gives the record its time and says what the running timestamp is
    /// after it.
    pub fn stamp(self, variant: HeaderVariant, base: u32) -> (outcome: (DataMessage, u32))
        ensures
            (outcome.0@, outcome.1) == stamped(self@, variant, base),
    {
        match variant {
            HeaderVariant::CompressedTimestamp { time_offset, .. } => {
                let timestamp = resolve_compressed_timestamp(base, time_offset);
                let after = self.timestamp_after(timestamp);
                let message = DataMessage {
                    global_message_number: self.global_message_number,
                    fields: self.fields,
                    developer_fields: self.developer_fields,
                    timestamp: Some(timestamp),
                };
                (message, after)
            },
            HeaderVariant::Normal { .. } => {
                let after = self.timestamp_after(base);
                (self, after)
            },
        }
    }
}

} // verus!
