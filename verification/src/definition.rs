//! Definition records: the layout of the data records that follow them.

use vstd::prelude::*;
use crate::endian::{
    lemma_span_values, lemma_value_bound, read_unsigned, unsigned_value, Endianness,
};
use crate::error::{incomplete, Error, ErrorKind};

verus! {

/// The length of a definition record before its field entries: the reserved
/// byte, the architecture byte, the global message number and the field count.
pub const DEFINITION_FIXED_SIZE: usize = 5;

/// The length of one field entry, and of one developer field entry.
pub const FIELD_ENTRY_SIZE: usize = 3;

/// The bit of the architecture byte that selects big-endian order.
pub const ARCHITECTURE_BIG_ENDIAN: u8 = 0x01;

/// One field of a message: which field it is, how many bytes it takes in a
/// data record, and the tag of its base type.
#[derive(Clone, Copy, Debug, PartialEq, Eq, Structural)]
pub struct FieldDefinition {
    pub field_number: u8,
    pub size: u8,
    pub base_type: u8,
}

/// One developer field of a message: which field it is, how many bytes it
/// takes in a data record, and which developer it belongs to.
#[derive(Clone, Copy, Debug, PartialEq, Eq, Structural)]
pub struct DeveloperFieldDefinition {
    pub field_number: u8,
    pub size: u8,
    pub developer_data_index: u8,
}

/// A definition record. It holds for one local message type until the next
/// definition record for that type.
#[derive(Clone, Debug, PartialEq, Eq)]
pub struct DefinitionMessage {
    pub reserved: u8,
    /// The byte order of the global message number and of every field value
    /// in the data records laid out by this definition.
    pub endianness: Endianness,
    pub global_message_number: u16,
    pub fields: Vec<FieldDefinition>,
    /// The developer fields; empty where the record header announced none.
    pub developer_fields: Vec<DeveloperFieldDefinition>,
}

/// A definition record as a mathematical value.
pub struct DefinitionView {
    pub reserved: u8,
    pub endianness: Endianness,
    pub global_message_number: u16,
    pub fields: Seq<FieldDefinition>,
    pub developer_fields: Seq<DeveloperFieldDefinition>,
}

impl DefinitionView {
    /// The definition has no more fields than a definition record can count:
    /// 255 fields and 255 developer fields.
    pub open spec fn wf(self) -> bool {
        self.fields.len() <= 255 && self.developer_fields.len() <= 255
    }
}

impl View for DefinitionMessage {
    type V = DefinitionView;

    open spec fn view(&self) -> DefinitionView {
        DefinitionView {
            reserved: self.reserved,
            endianness: self.endianness,
            global_message_number: self.global_message_number,
            fields: self.fields@,
            developer_fields: self.developer_fields@,
        }
    }
}

/// The byte order that an architecture byte selects: its lowest bit is 0 for
/// little-endian and 1 for big-endian order.
pub open spec fn endianness_of(architecture: u8) -> Endianness {
    if architecture % 2 == 1 {
        Endianness::Big
    } else {
        Endianness::Little
    }
}

/// The field entry that starts at `at`.
pub open spec fn field_entry(block: Seq<u8>, at: int) -> FieldDefinition {
    FieldDefinition { field_number: block[at], size: block[at + 1], base_type: block[at + 2] }
}

/// The developer field entry that starts at `at`.
pub open spec fn developer_entry(block: Seq<u8>, at: int) -> DeveloperFieldDefinition {
    DeveloperFieldDefinition {
        field_number: block[at],
        size: block[at + 1],
        developer_data_index: block[at + 2],
    }
}

/// `count` field entries in a row, the first at `start`.
pub open spec fn field_entries(block: Seq<u8>, start: int, count: nat) -> Seq<FieldDefinition> {
    Seq::new(count, |i: int| field_entry(block, start + 3 * i))
}

/// `count` developer field entries in a row, the first at `start`.
pub open spec fn developer_entries(block: Seq<u8>, start: int, count: nat) -> Seq<
    DeveloperFieldDefinition,
> {
    Seq::new(count, |i: int| developer_entry(block, start + 3 * i))
}

/// Where the field entries of the definition at the start of `block` end.
pub open spec fn fields_end(block: Seq<u8>) -> nat {
    5 + 3 * (block[4] as nat)
}

/// The length of the definition record at the start of `block`.
pub open spec fn definition_length(block: Seq<u8>, developer: bool) -> nat {
    if developer {
        fields_end(block) + 1 + 3 * (block[fields_end(block) as int] as nat)
    } else {
        fields_end(block)
    }
}

/// Whether `block`, found at `offset` in the input, starts with a whole
/// definition record, and if not, which part of it is cut short: the fixed
/// part, the field entries, the developer field count or the developer field
/// entries.
pub open spec fn definition_check(block: Seq<u8>, offset: nat, developer: bool) -> Result<
    (),
    Error,
> {
    if block.len() < 5 {
        Err(incomplete(offset, 5, block.len()))
    } else if block.len() < fields_end(block) {
        Err(incomplete(offset + 5, 3 * (block[4] as nat), (block.len() - 5) as nat))
    } else if !developer {
        Ok(())
    } else if block.len() < fields_end(block) + 1 {
        Err(incomplete(offset + fields_end(block), 1, 0))
    } else if block.len() < definition_length(block, developer) {
        Err(
            incomplete(
                offset + fields_end(block) + 1,
                3 * (block[fields_end(block) as int] as nat),
                (block.len() - fields_end(block) - 1) as nat,
            ),
        )
    } else {
        Ok(())
    }
}

/// The definition record that `block` starts with.
pub open spec fn definition_view(block: Seq<u8>, developer: bool) -> DefinitionView {
    DefinitionView {
        reserved: block[0],
        endianness: endianness_of(block[1]),
        global_message_number: unsigned_value(block.subrange(2, 4), endianness_of(block[1])) as u16,
        fields: field_entries(block, 5, block[4] as nat),
        developer_fields: if developer {
            developer_entries(
                block,
                (fields_end(block) + 1) as int,
                block[fields_end(block) as int] as nat,
            )
        } else {
            Seq::empty()
        },
    }
}

/// Reads `count` field entries, the first at `start`.
fn read_field_entries(block: &[u8], start: usize, count: u8) -> (fields: Vec<FieldDefinition>)
    requires
        start + 3 * count <= block@.len(),
    ensures
        fields@ == field_entries(block@, start as int, count as nat),
{
    let mut fields: Vec<FieldDefinition> = Vec::new();
    let available: usize = block.len();
    let mut i: usize = 0;
    while i < count as usize
        invariant
            i <= count,
            start + 3 * count <= block@.len(),
            block@.len() == available,
            fields@ == field_entries(block@, start as int, i as nat),
        decreases count - i,
    {
        let at: usize = start + FIELD_ENTRY_SIZE * i;
        fields.push(
            FieldDefinition {
                field_number: block[at],
                size: block[at + 1],
                base_type: block[at + 2],
            },
        );
        i = i + 1;
        assert(fields@ =~= field_entries(block@, start as int, i as nat));
    }
    fields
}

/// Reads `count` developer field entries, the first at `start`.
fn read_developer_entries(block: &[u8], start: usize, count: u8) -> (fields: Vec<
    DeveloperFieldDefinition,
>)
    requires
        start + 3 * count <= block@.len(),
    ensures
        fields@ == developer_entries(block@, start as int, count as nat),
{
    let mut fields: Vec<DeveloperFieldDefinition> = Vec::new();
    let available: usize = block.len();
    let mut i: usize = 0;
    while i < count as usize
        invariant
            i <= count,
            start + 3 * count <= block@.len(),
            block@.len() == available,
            fields@ == developer_entries(block@, start as int, i as nat),
        decreases count - i,
    {
        let at: usize = start + FIELD_ENTRY_SIZE * i;
        fields.push(
            DeveloperFieldDefinition {
                field_number: block[at],
                size: block[at + 1],
                developer_data_index: block[at + 2],
            },
        );
        i = i + 1;
        assert(fields@ =~= developer_entries(block@, start as int, i as nat));
    }
    fields
}

/// Reads the byte order out of an architecture byte.
pub fn endianness_from(architecture: u8) -> (endianness: Endianness)
    ensures
        endianness == endianness_of(architecture),
{
    let low: u8 = architecture & ARCHITECTURE_BIG_ENDIAN;
    assert(low == architecture % 2) by (bit_vector)
        requires
            low == architecture & 0x01u8,
    ;
    if low == ARCHITECTURE_BIG_ENDIAN {
        Endianness::Big
    } else {
        Endianness::Little
    }
}

impl DefinitionMessage {
    /// Reads the definition record that `block` starts with, and says how
    /// long it is. `block` starts behind the record's header byte, at
    /// `offset` in the input; `developer` says whether that header announced
    /// developer fields. The only failure is a record that is cut short.
    pub fn parse(block: &[u8], offset: usize, developer: bool) -> (outcome: Result<
        (DefinitionMessage, usize),
        Error,
    >)
        requires
            offset + block@.len() <= usize::MAX,
        ensures
            match outcome {
                Ok((definition, length)) => {
                    &&& definition_check(block@, offset as nat, developer) is Ok
                    &&& definition@ == definition_view(block@, developer)
                    &&& definition@.wf()
                    &&& length == definition_length(block@, developer)
                    &&& length <= block@.len()
                },
                Err(e) => definition_check(block@, offset as nat, developer) == Err::<(), Error>(e),
            },
    {
        let available: usize = block.len();
        if available < DEFINITION_FIXED_SIZE {
            return Err(
                Error {
                    kind: ErrorKind::IncompleteData,
                    offset,
                    expected: DEFINITION_FIXED_SIZE as u64,
                    actual: available as u64,
                },
            );
        }
        let endianness = endianness_from(block[1]);
        let global = read_unsigned(&block[2..4], endianness);
        proof {
            lemma_span_values();
            lemma_value_bound(block@.subrange(2, 4), endianness);
        }
        let count: u8 = block[4];
        let fields_end: usize = DEFINITION_FIXED_SIZE + FIELD_ENTRY_SIZE * (count as usize);
        if available < fields_end {
            return Err(
                Error {
                    kind: ErrorKind::IncompleteData,
                    offset: offset + DEFINITION_FIXED_SIZE,
                    expected: (FIELD_ENTRY_SIZE * (count as usize)) as u64,
                    actual: (available - DEFINITION_FIXED_SIZE) as u64,
                },
            );
        }
        let fields = read_field_entries(block, DEFINITION_FIXED_SIZE, count);
        if !developer {
            return Ok(
                (
                    DefinitionMessage {
                        reserved: block[0],
                        endianness,
                        global_message_number: global as u16,
                        fields,
                        developer_fields: Vec::new(),
                    },
                    fields_end,
                ),
            );
        }
        if available < fields_end + 1 {
            return Err(
                Error {
                    kind: ErrorKind::IncompleteData,
                    offset: offset + fields_end,
                    expected: 1,
                    actual: 0,
                },
            );
        }
        let developer_count: u8 = block[fields_end];
        let end: usize = fields_end + 1 + FIELD_ENTRY_SIZE * (developer_count as usize);
        if available < end {
            return Err(
                Error {
                    kind: ErrorKind::IncompleteData,
                    offset: offset + fields_end + 1,
                    expected: (FIELD_ENTRY_SIZE * (developer_count as usize)) as u64,
                    actual: (available - fields_end - 1) as u64,
                },
            );
        }
        let developer_fields = read_developer_entries(block, fields_end + 1, developer_count);
        Ok(
            (
                DefinitionMessage {
                    reserved: block[0],
                    endianness,
                    global_message_number: global as u16,
                    fields,
                    developer_fields,
                },
                end,
            ),
        )
    }
}

/// Where field number `index` starts in a data record: the sizes of the
/// fields before it, added up.
pub open spec fn field_offset(fields: Seq<FieldDefinition>, index: nat) -> nat
    decreases index,
{
    if index == 0 {
        0
    } else {
        field_offset(fields, (index - 1) as nat) + fields[index - 1].size as nat
    }
}

/// Where developer field number `index` starts among the developer fields
/// of a data record.
pub open spec fn developer_offset(fields: Seq<DeveloperFieldDefinition>, index: nat) -> nat
    decreases index,
{
    if index == 0 {
        0
    } else {
        developer_offset(fields, (index - 1) as nat) + fields[index - 1].size as nat
    }
}

/// The length of the fields of a data record.
pub open spec fn fields_length(definition: DefinitionView) -> nat {
    field_offset(definition.fields, definition.fields.len())
}

/// The length of a data record: the sizes of all its fields and developer
/// fields, added up.
pub open spec fn record_length(definition: DefinitionView) -> nat {
    fields_length(definition) + developer_offset(
        definition.developer_fields,
        definition.developer_fields.len(),
    )
}

/// Fields start in the order of their definitions, and no field takes more
/// than 255 bytes.
pub proof fn lemma_field_offset_grows(fields: Seq<FieldDefinition>, from: nat, to: nat)
    requires
        from <= to,
    ensures
        field_offset(fields, from) <= field_offset(fields, to),
        field_offset(fields, to) <= field_offset(fields, from) + 255 * (to - from),
    decreases to,
{
    if from < to {
        lemma_field_offset_grows(fields, from, (to - 1) as nat);
    }
}

/// Developer fields start in the order of their definitions, and none takes
/// more than 255 bytes.
pub proof fn lemma_developer_offset_grows(
    fields: Seq<DeveloperFieldDefinition>,
    from: nat,
    to: nat,
)
    requires
        from <= to,
    ensures
        developer_offset(fields, from) <= developer_offset(fields, to),
        developer_offset(fields, to) <= developer_offset(fields, from) + 255 * (to - from),
    decreases to,
{
    if from < to {
        lemma_developer_offset_grows(fields, from, (to - 1) as nat);
    }
}

impl DefinitionMessage {
    /// The length of the data records that this definition lays out.
    pub fn record_length(&self) -> (length: usize)
        requires
            self@.wf(),
        ensures
            length == record_length(self@),
            length <= 2 * 255 * 255,
    {
        let mut length: usize = 0;
        let mut i: usize = 0;
        while i < self.fields.len()
            invariant
                i <= self.fields@.len() <= 255,
                length == field_offset(self.fields@, i as nat),
                length <= 255 * i,
            decreases self.fields@.len() - i,
        {
            length = length + self.fields[i].size as usize;
            i = i + 1;
        }
        let mut j: usize = 0;
        while j < self.developer_fields.len()
            invariant
                j <= self.developer_fields@.len() <= 255,
                self.fields@.len() <= 255,
                length == fields_length(self@) + developer_offset(self.developer_fields@, j as nat),
                length <= 255 * self.fields@.len() + 255 * j,
            decreases self.developer_fields@.len() - j,
        {
            length = length + self.developer_fields[j].size as usize;
            j = j + 1;
        }
        length
    }
}

} // verus!
