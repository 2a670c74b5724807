//! Data records: the values of the fields that a definition lays out.

use vstd::prelude::*;
use vstd::slice::slice_to_vec;
use crate::base_type::{value_of, DecodedValue, Value};
use crate::definition::{
    developer_offset, field_offset, fields_length, lemma_developer_offset_grows,
    lemma_field_offset_grows, record_length, DefinitionMessage, DefinitionView,
};
use crate::error::{incomplete, Error, ErrorKind};
use crate::registry::{registered, LocalMessageTypeRegistry};

verus! {

/// One field of a data record.
#[derive(Clone, Debug, PartialEq, Eq)]
pub struct DataField {
    pub field_number: u8,
    pub value: DecodedValue,
}

/// One field of a data record, as a mathematical value.
pub struct FieldValue {
    pub field_number: u8,
    pub value: Value,
}

impl View for DataField {
    type V = FieldValue;

    open spec fn view(&self) -> FieldValue {
        FieldValue { field_number: self.field_number, value: self.value@ }
    }
}

/// One developer field of a data record. What its bytes mean is laid down
/// elsewhere in the file, so they are kept as they are.
#[derive(Clone, Debug, PartialEq, Eq)]
pub struct DeveloperField {
    pub field_number: u8,
    pub developer_data_index: u8,
    pub data: Vec<u8>,
}

/// One developer field of a data record, as a mathematical value.
pub struct DeveloperFieldView {
    pub field_number: u8,
    pub developer_data_index: u8,
    pub data: Seq<u8>,
}

impl View for DeveloperField {
    type V = DeveloperFieldView;

    open spec fn view(&self) -> DeveloperFieldView {
        DeveloperFieldView {
            field_number: self.field_number,
            developer_data_index: self.developer_data_index,
            data: self.data@,
        }
    }
}

/// A decoded data record.
#[derive(Clone, Debug, PartialEq, Eq)]
pub struct DataMessage {
    /// The global message number of the definition that laid the record out.
    pub global_message_number: u16,
    /// The fields, in the order of their definitions.
    pub fields: Vec<DataField>,
    /// The developer fields, in the order of their definitions.
    pub developer_fields: Vec<DeveloperField>,
    /// The time of the record, where its header was a compressed-timestamp
    /// header.
    pub timestamp: Option<u32>,
}

/// A decoded data record, as a mathematical value.
pub struct DataMessageView {
    pub global_message_number: u16,
    pub fields: Seq<FieldValue>,
    pub developer_fields: Seq<DeveloperFieldView>,
    pub timestamp: Option<u32>,
}

impl View for DataMessage {
    type V = DataMessageView;

    open spec fn view(&self) -> DataMessageView {
        DataMessageView {
            global_message_number: self.global_message_number,
            fields: Seq::new(self.fields@.len(), |i: int| self.fields@[i]@),
            developer_fields: Seq::new(
                self.developer_fields@.len(),
                |i: int| self.developer_fields@[i]@,
            ),
            timestamp: self.timestamp,
        }
    }
}

/// The bytes of field number `index` in the data record `block`.
pub open spec fn field_bytes(definition: DefinitionView, block: Seq<u8>, index: int) -> Seq<u8> {
    let start = field_offset(definition.fields, index as nat);
    block.subrange(start as int, start + definition.fields[index].size)
}

/// Field number `index` of the data record `block`.
pub open spec fn field_value(definition: DefinitionView, block: Seq<u8>, index: int) -> FieldValue {
    FieldValue {
        field_number: definition.fields[index].field_number,
        value: value_of(
            definition.fields[index].base_type,
            field_bytes(definition, block, index),
            definition.endianness,
        ),
    }
}

/// Developer field number `index` of the data record `block`. The developer
/// fields follow the fields.
pub open spec fn developer_value(
    definition: DefinitionView,
    block: Seq<u8>,
    index: int,
) -> DeveloperFieldView {
    let start = fields_length(definition) + developer_offset(
        definition.developer_fields,
        index as nat,
    );
    DeveloperFieldView {
        field_number: definition.developer_fields[index].field_number,
        developer_data_index: definition.developer_fields[index].developer_data_index,
        data: block.subrange(start as int, start + definition.developer_fields[index].size),
    }
}

/// The data record that `block` starts with, read by `definition`.
pub open spec fn record_view(definition: DefinitionView, block: Seq<u8>) -> DataMessageView {
    DataMessageView {
        global_message_number: definition.global_message_number,
        fields: Seq::new(definition.fields.len(), |i: int| field_value(definition, block, i)),
        developer_fields: Seq::new(
            definition.developer_fields.len(),
            |i: int| developer_value(definition, block, i),
        ),
        timestamp: None,
    }
}

/// The data record that `block`, found at `offset` in the input, starts
/// with, and its length; or the failure, if `block` is shorter than the
/// record that `definition` lays out.
pub open spec fn record_outcome(definition: DefinitionView, block: Seq<u8>, offset: nat) -> Result<
    (DataMessageView, nat),
    Error,
> {
    if block.len() < record_length(definition) {
        Err(incomplete(offset, record_length(definition), block.len()))
    } else {
        Ok((record_view(definition, block), record_length(definition)))
    }
}

/// The failure of a data record for a local message type without a definition.
pub open spec fn undefined_local_type(offset: nat, local_message_type: u8) -> Error {
    Error {
        kind: ErrorKind::UndefinedLocalType,
        offset: offset as usize,
        expected: 0,
        actual: local_message_type as u64,
    }
}

/// The data record for `local_message_type` that `block` starts with, read
/// by the definition that `registry` holds for that type.
pub open spec fn data_outcome(
    registry: Seq<Option<DefinitionView>>,
    local_message_type: u8,
    block: Seq<u8>,
    offset: nat,
) -> Result<(DataMessageView, nat), Error> {
    match registered(registry, local_message_type) {
        None => Err(undefined_local_type(offset, local_message_type)),
        Some(definition) => record_outcome(definition, block, offset),
    }
}

/// A data record for a local message type that has no definition is
/// rejected, whatever its bytes are.
pub proof fn lemma_undefined_type_rejected(
    registry: Seq<Option<DefinitionView>>,
    local_message_type: u8,
    block: Seq<u8>,
    offset: nat,
)
    requires
        registered(registry, local_message_type) is None,
    ensures
        data_outcome(registry, local_message_type, block, offset) is Err,
        data_outcome(registry, local_message_type, block, offset)->Err_0.kind
            == ErrorKind::UndefinedLocalType,
{
}

/// Once a local message type is defined anew, its data records are read by
/// the new definition alone: the old one has no part in the outcome.
pub proof fn lemma_redefinition_supersedes(
    registry: Seq<Option<DefinitionView>>,
    local_message_type: u8,
    first: DefinitionView,
    second: DefinitionView,
    block: Seq<u8>,
    offset: nat,
)
    requires
        local_message_type < registry.len(),
    ensures
        data_outcome(
            registry.update(local_message_type as int, Some(first)).update(
                local_message_type as int,
                Some(second),
            ),
            local_message_type,
            block,
            offset,
        ) == record_outcome(second, block, offset),
{
}

impl DataMessage {
    /// Reads the data record that `block` starts with, as `definition` lays
    /// it out, and says how long it is. `block` starts behind the record's
    /// header byte, at `offset` in the input. The only failure is a record
    /// that is cut short.
    pub fn decode_with(definition: &DefinitionMessage, block: &[u8], offset: usize) -> (outcome:
        Result<(DataMessage, usize), Error>)
        requires
            definition@.wf(),
        ensures
            match outcome {
                Ok((message, length)) => record_outcome(definition@, block@, offset as nat) == Ok::<
                    (DataMessageView, nat),
                    Error,
                >((message@, length as nat)),
                Err(e) => record_outcome(definition@, block@, offset as nat) == Err::<
                    (DataMessageView, nat),
                    Error,
                >(e),
            },
    {
        let length = definition.record_length();
        let available = block.len();
        if available < length {
            return Err(
                Error {
                    kind: ErrorKind::IncompleteData,
                    offset,
                    expected: length as u64,
                    actual: available as u64,
                },
            );
        }
        let mut fields: Vec<DataField> = Vec::new();
        let mut at: usize = 0;
        let mut i: usize = 0;
        while i < definition.fields.len()
            invariant
                i <= definition.fields@.len(),
                at == field_offset(definition.fields@, i as nat),
                record_length(definition@) == length,
                length <= available,
                available == block@.len(),
                fields@.len() == i,
                forall|k: int| 0 <= k < i ==> (#[trigger] fields@[k])@ == field_value(definition@, block@, k),
            decreases definition.fields@.len() - i,
        {
            let field = definition.fields[i];
            let size: usize = field.size as usize;
            proof {
                lemma_field_offset_grows(
                    definition.fields@,
                    (i + 1) as nat,
                    definition.fields@.len(),
                );
            }
            let bytes = &block[at..at + size];
            let value = DecodedValue::decode(field.base_type, bytes, definition.endianness);
            fields.push(DataField { field_number: field.field_number, value });
            at = at + size;
            i = i + 1;
        }
        let mut developer_fields: Vec<DeveloperField> = Vec::new();
        let mut j: usize = 0;
        while j < definition.developer_fields.len()
            invariant
                j <= definition.developer_fields@.len(),
                at == fields_length(definition@) + developer_offset(
                    definition.developer_fields@,
                    j as nat,
                ),
                record_length(definition@) == length,
                length <= available,
                available == block@.len(),
                developer_fields@.len() == j,
                forall|k: int|
                    0 <= k < j ==> (#[trigger] developer_fields@[k])@ == developer_value(
                        definition@,
                        block@,
                        k,
                    ),
            decreases definition.developer_fields@.len() - j,
        {
            let field = definition.developer_fields[j];
            let size: usize = field.size as usize;
            proof {
                lemma_developer_offset_grows(
                    definition.developer_fields@,
                    (j + 1) as nat,
                    definition.developer_fields@.len(),
                );
            }
            let data = slice_to_vec(&block[at..at + size]);
            developer_fields.push(
                DeveloperField {
                    field_number: field.field_number,
                    developer_data_index: field.developer_data_index,
                    data,
                },
            );
            at = at + size;
            j = j + 1;
        }
        let message = DataMessage {
            global_message_number: definition.global_message_number,
            fields,
            developer_fields,
            timestamp: None,
        };
        proof {
            assert(message@.fields =~= record_view(definition@, block@).fields);
            assert(message@.developer_fields =~= record_view(definition@, block@).developer_fields);
        }
        Ok((message, length))
    }

    /// Reads the data record for `local_message_type` that `block` starts
    /// with, by the definition in force for that type, and says how long it
    /// is. It fails if no definition is in force for the type, or if the
    /// record is cut short.
    pub fn decode(
        registry: &LocalMessageTypeRegistry,
        local_message_type: u8,
        block: &[u8],
        offset: usize,
    ) -> (outcome: Result<(DataMessage, usize), Error>)
        requires
            registry.wf(),
        ensures
            match outcome {
                Ok((message, length)) => data_outcome(
                    registry@,
                    local_message_type,
                    block@,
                    offset as nat,
                ) == Ok::<(DataMessageView, nat), Error>((message@, length as nat)),
                Err(e) => data_outcome(registry@, local_message_type, block@, offset as nat)
                    == Err::<(DataMessageView, nat), Error>(e),
            },
    {
        match registry.lookup(local_message_type) {
            None => Err(
                Error {
                    kind: ErrorKind::UndefinedLocalType,
                    offset,
                    expected: 0,
                    actual: local_message_type as u64,
                },
            ),
            Some(definition) => DataMessage::decode_with(definition, block, offset),
        }
    }
}

} // verus!
