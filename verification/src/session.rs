//! A decoding session as a mathematical object: a state machine whose steps
//! walk a file from its header to its trailer, and what the steps add up to.

use vstd::prelude::*;
use crate::crc::{crc16, crc_from, crc_outcome, lemma_crc_concat};
use crate::data::{data_outcome, record_view, DataMessageView};
use crate::definition::{
    definition_check, definition_length, definition_view, record_length, DefinitionView,
};
use crate::endian::le_value;
use crate::error::{incomplete, Error, ErrorKind};
use crate::file_header::{has_signature, header_fields, parse_header, FileHeader};
use crate::record_header::{header_variant, HeaderVariant, RecordHeader};
use crate::registry::{empty_registry, registered, registry_wf};
use crate::timestamp::stamped;

verus! {

/// Where a decoding session stands.
#[derive(Clone, Copy, Debug, PartialEq, Eq, Structural)]
pub enum DecoderState {
    /// At the start of the file.
    ReadingHeader,
    /// Between two records.
    ReadingRecordHeader,
    /// Behind the header byte of a definition record.
    ReadingDefinition,
    /// Behind the header byte of a data record.
    ReadingData,
    /// Behind the last record.
    Trailer,
    /// At the end: behind the trailer, or where a failure stopped the session.
    Done,
}

/// A decoding session as a mathematical value.
pub struct DecoderView {
    /// The whole input.
    pub source: Seq<u8>,
    /// How much of it has been consumed.
    pub position: nat,
    pub state: DecoderState,
    /// The file header, once it has been read.
    pub header: Option<FileHeader>,
    /// The header of the record that is being read.
    pub pending: Option<RecordHeader>,
    /// The definitions in force.
    pub registry: Seq<Option<DefinitionView>>,
    /// The checksum of what has been consumed.
    pub crc: u16,
    /// The running timestamp: zero until a timestamp field or a
    /// compressed-timestamp header sets it.
    pub base_timestamp: u32,
    /// What the trailer check found, if it found the checksums to differ.
    pub crc_mismatch: Option<Error>,
}

/// What one step of a session gives: a data record, nothing yet, or the
/// failure that ends the session.
pub type StepOutcome = Result<Option<DataMessageView>, Error>;

impl DecoderView {
    /// The input that has not been consumed yet.
    pub open spec fn rest(self) -> Seq<u8> {
        self.source.skip(self.position as int)
    }

    /// Where the records end: behind the header and as many bytes as the
    /// header declares.
    pub open spec fn records_end(self) -> nat {
        match self.header {
            Some(header) => header.header_size as nat + header.data_size as nat,
            None => 0,
        }
    }

    /// The session after `length` more bytes have been consumed and taken
    /// into the checksum.
    pub open spec fn advanced(self, length: nat) -> DecoderView {
        DecoderView {
            position: self.position + length,
            crc: crc_from(self.crc, self.rest().take(length as int)),
            ..self
        }
    }

    /// The session stopped where it stands.
    pub open spec fn stopped(self) -> DecoderView {
        DecoderView { state: DecoderState::Done, pending: None, ..self }
    }

    /// What holds of a session at every step: it is inside its input, its
    /// definitions are well formed, its checksum is that of the bytes
    /// consumed, and behind a record's header byte it knows that header.
    pub open spec fn inv(self) -> bool {
        &&& self.position <= self.source.len() <= usize::MAX
        &&& registry_wf(self.registry)
        &&& self.state !is Done ==> self.crc == crc16(self.source.take(self.position as int))
        &&& self.state is ReadingDefinition ==> (self.pending matches Some(header)
            && header.variant == header_variant(header.header_byte) && header.variant.defines())
        &&& self.state is ReadingData ==> (self.pending matches Some(header) && header.variant
            == header_variant(header.header_byte) && !header.variant.defines())
    }

    /// A number that every step makes smaller, until the session is done.
    pub open spec fn measure(self) -> nat {
        let rank: nat = match self.state {
            DecoderState::ReadingHeader => 5,
            DecoderState::ReadingDefinition => 4,
            DecoderState::ReadingData => 4,
            DecoderState::ReadingRecordHeader => 3,
            DecoderState::Trailer => 2,
            DecoderState::Done => 0,
        };
        if self.position <= self.source.len() {
            (6 * (self.source.len() - self.position) + rank) as nat
        } else {
            rank
        }
    }
}

/// A session at the start of `source`.
pub open spec fn start(source: Seq<u8>) -> DecoderView {
    DecoderView {
        source,
        position: 0,
        state: DecoderState::ReadingHeader,
        header: None,
        pending: None,
        registry: empty_registry(),
        crc: 0,
        base_timestamp: 0,
        crc_mismatch: None,
    }
}

/// The step at the start of the file: the header is read.
pub open spec fn header_step(d: DecoderView) -> (DecoderView, StepOutcome) {
    match parse_header(d.rest(), d.position) {
        Err(e) => (d.stopped(), Err(e)),
        Ok(header) => (
            DecoderView {
                header: Some(header),
                state: DecoderState::ReadingRecordHeader,
                ..d.advanced(header.header_size as nat)
            },
            Ok(None),
        ),
    }
}

/// The step between two records: behind the last record the session turns
/// to the trailer, else the next record's header byte is read.
pub open spec fn record_header_step(d: DecoderView) -> (DecoderView, StepOutcome) {
    if d.position >= d.records_end() {
        (DecoderView { state: DecoderState::Trailer, ..d }, Ok(None))
    } else if d.rest().len() == 0 {
        (d.stopped(), Err(incomplete(d.position, 1, 0)))
    } else {
        let header = RecordHeader {
            header_byte: d.rest()[0],
            variant: header_variant(d.rest()[0]),
        };
        (
            DecoderView {
                pending: Some(header),
                state: if header.variant.defines() {
                    DecoderState::ReadingDefinition
                } else {
                    DecoderState::ReadingData
                },
                ..d.advanced(1)
            },
            Ok(None),
        )
    }
}

/// The step behind the header byte of a definition record: the definition
/// is read and put in force for its local message type.
pub open spec fn definition_step(d: DecoderView) -> (DecoderView, StepOutcome) {
    match d.pending {
        Some(
            RecordHeader {
                variant: HeaderVariant::Normal { local_message_type, developer_data, .. },
                ..
            },
        ) => match definition_check(d.rest(), d.position, developer_data) {
            Err(e) => (d.stopped(), Err(e)),
            Ok(_) => (
                DecoderView {
                    registry: d.registry.update(
                        local_message_type as int,
                        Some(definition_view(d.rest(), developer_data)),
                    ),
                    pending: None,
                    state: DecoderState::ReadingRecordHeader,
                    ..d.advanced(definition_length(d.rest(), developer_data))
                },
                Ok(None),
            ),
        },
        _ => (d.stopped(), Ok(None)),
    }
}

/// The step behind the header byte of a data record: the record is read by
/// the definition in force, given its time, and handed out.
pub open spec fn data_step(d: DecoderView) -> (DecoderView, StepOutcome) {
    match d.pending {
        Some(header) => match data_outcome(
            d.registry,
            header.variant.slot(),
            d.rest(),
            d.position,
        ) {
            Err(e) => (d.stopped(), Err(e)),
            Ok((message, length)) => {
                let (message, base_timestamp) = stamped(message, header.variant, d.base_timestamp);
                (
                    DecoderView {
                        base_timestamp,
                        pending: None,
                        state: DecoderState::ReadingRecordHeader,
                        ..d.advanced(length)
                    },
                    Ok(Some(message)),
                )
            },
        },
        None => (d.stopped(), Ok(None)),
    }
}

/// The checksum that the trailer at the start of `rest` stores.
pub open spec fn stored_crc(rest: Seq<u8>) -> u16 {
    le_value(rest.take(2)) as u16
}

/// The step at the trailer: the stored checksum is compared with the one
/// computed. A difference is noted and is no failure.
pub open spec fn trailer_step(d: DecoderView) -> (DecoderView, StepOutcome) {
    if d.rest().len() < 2 {
        (d.stopped(), Err(incomplete(d.position, 2, d.rest().len())))
    } else {
        (
            DecoderView {
                position: d.position + 2,
                crc_mismatch: match crc_outcome(d.crc, stored_crc(d.rest()), d.position as usize) {
                    Err(e) => Some(e),
                    Ok(_) => None,
                },
                state: DecoderState::Done,
                ..d
            },
            Ok(None),
        )
    }
}

/// One step of a session: the session after it, and what it gives.
pub open spec fn step(d: DecoderView) -> (DecoderView, StepOutcome) {
    match d.state {
        DecoderState::ReadingHeader => header_step(d),
        DecoderState::ReadingRecordHeader => record_header_step(d),
        DecoderState::ReadingDefinition => definition_step(d),
        DecoderState::ReadingData => data_step(d),
        DecoderState::Trailer => trailer_step(d),
        DecoderState::Done => (d, Ok(None)),
    }
}

/// Consuming bytes keeps the checksum that of the bytes consumed.
pub proof fn lemma_advanced_crc(d: DecoderView, length: nat)
    requires
        d.position + length <= d.source.len(),
        d.crc == crc16(d.source.take(d.position as int)),
    ensures
        d.advanced(length).crc == crc16(d.source.take((d.position + length) as int)),
{
    let before = d.source.take(d.position as int);
    let taken = d.rest().take(length as int);
    lemma_crc_concat(0, before, taken);
    assert(before + taken =~= d.source.take((d.position + length) as int));
}

/// Every step keeps what holds of a session, and brings a session that is
/// not done closer to its end.
pub proof fn lemma_step_progress(d: DecoderView)
    requires
        d.inv(),
    ensures
        step(d).0.inv(),
        step(d).0.source == d.source,
        step(d).0.position >= d.position,
        d.state !is Done ==> step(d).0.measure() < d.measure(),
        step(d).1 is Err ==> step(d).0.state is Done,
{
    match d.state {
        DecoderState::ReadingHeader => {
            if let Ok(header) = parse_header(d.rest(), d.position) {
                lemma_advanced_crc(d, header.header_size as nat);
            }
        },
        DecoderState::ReadingRecordHeader => {
            if d.position < d.records_end() && d.rest().len() != 0 {
                lemma_advanced_crc(d, 1);
            }
        },
        DecoderState::ReadingDefinition => {
            let header = d.pending->0;
            if let HeaderVariant::Normal { local_message_type, developer_data, .. } =
                header.variant {
                if definition_check(d.rest(), d.position, developer_data) is Ok {
                    lemma_advanced_crc(d, definition_length(d.rest(), developer_data));
                    let next = step(d).0;
                    assert(local_message_type == header.header_byte % 16);
                    assert(registry_wf(next.registry));
                }
            }
        },
        DecoderState::ReadingData => {
            let header = d.pending->0;
            if let Ok((message, length)) = data_outcome(
                d.registry,
                header.variant.slot(),
                d.rest(),
                d.position,
            ) {
                lemma_advanced_crc(d, length);
            }
        },
        DecoderState::Trailer => {},
        DecoderState::Done => {},
    }
}

/// What a session gives from where it stands to its end.
pub struct Trace {
    /// The data records, in the order of the file.
    pub messages: Seq<DataMessageView>,
    /// The failure that stopped the session, if one did.
    pub error: Option<Error>,
    /// The session at its end.
    pub last: DecoderView,
}

/// The rest of a session: its steps are taken one after the other until it
/// is done or fails, and the data records they give are collected.
pub open spec fn run(d: DecoderView) -> Trace
    decreases d.measure(),
    when d.inv()
    via run_decreases
{
    if d.state is Done {
        Trace { messages: Seq::empty(), error: None, last: d }
    } else {
        let next = step(d);
        match next.1 {
            Err(e) => Trace { messages: Seq::empty(), error: Some(e), last: next.0 },
            Ok(None) => run(next.0),
            Ok(Some(message)) => {
                let after = run(next.0);
                Trace { messages: seq![message] + after.messages, ..after }
            },
        }
    }
}

#[via_fn]
proof fn run_decreases(d: DecoderView) {
    lemma_step_progress(d);
}

/// A session comes to its end: whatever the input, running it ends in a
/// session that is done, over the same input, and not before the place where
/// the run began.
pub proof fn lemma_run_ends(d: DecoderView)
    requires
        d.inv(),
    ensures
        run(d).last.inv(),
        run(d).last.state is Done,
        run(d).last.source == d.source,
        run(d).last.position >= d.position,
    decreases d.measure(),
{
    if d.state !is Done {
        lemma_step_progress(d);
        if step(d).1 is Ok {
            lemma_run_ends(step(d).0);
        }
    }
}

/// Each part of a session is changed by one kind of step and by no other:
/// the file header by the step at the start of the file, the definitions in
/// force by the step that reads a definition record, the running timestamp by
/// the step that reads a data record, and the note of a checksum mismatch by
/// the step at the trailer. The input is never changed.
pub proof fn lemma_step_touches(d: DecoderView)
    ensures
        step(d).0.source == d.source,
        d.state !is ReadingHeader ==> step(d).0.header == d.header,
        d.state !is ReadingDefinition ==> step(d).0.registry == d.registry,
        d.state !is ReadingData ==> step(d).0.base_timestamp == d.base_timestamp,
        d.state !is Trailer ==> step(d).0.crc_mismatch == d.crc_mismatch,
{
}

/// A data record is only ever handed out behind the header byte of a data
/// record whose local message type has a definition in force, and it bears
/// the global message number of that definition.
pub proof fn lemma_message_needs_definition(d: DecoderView, message: DataMessageView)
    requires
        d.inv(),
        step(d).1 == Ok::<Option<DataMessageView>, Error>(Some(message)),
    ensures
        d.state is ReadingData,
        d.pending is Some,
        registered(d.registry, d.pending->0.variant.slot()) is Some,
        message.global_message_number == registered(
            d.registry,
            d.pending->0.variant.slot(),
        )->0.global_message_number,
{
}

/// A file of one record pair: a 14-byte header, one definition record, one
/// data record for the local message type just defined, and a trailer,
/// where the header declares the length of the two records.
pub open spec fn is_record_pair(source: Seq<u8>) -> bool {
    &&& 16 <= source.len() <= usize::MAX
    &&& source[0] == 14
    &&& has_signature(source)
    &&& header_variant(source[14]).defines()
    &&& definition_check(source.skip(15), 15, pair_developer(source)) is Ok
    &&& source.len() > pair_data_start(source)
    &&& !header_variant(source[pair_data_start(source) as int]).defines()
    &&& header_variant(source[pair_data_start(source) as int]).slot() == header_variant(
        source[14],
    ).slot()
    &&& source.len() >= pair_end(source) + 2
    &&& header_fields(source).data_size == pair_end(source) - 14
}

/// The session after `count` steps from the start of `source`.
pub open spec fn after_steps(source: Seq<u8>, count: nat) -> DecoderView
    decreases count,
{
    if count == 0 {
        start(source)
    } else {
        step(after_steps(source, (count - 1) as nat)).0
    }
}

/// What a step that hands nothing out and does not fail leaves of a run.
proof fn lemma_run_skips(source: Seq<u8>, count: nat)
    requires
        after_steps(source, count).inv(),
        after_steps(source, count).state !is Done,
        step(after_steps(source, count)).1 == Ok::<Option<DataMessageView>, Error>(None),
    ensures
        run(after_steps(source, count)) == run(after_steps(source, count + 1)),
{
    let d = after_steps(source, count);
    lemma_step_progress(d);
    assert(after_steps(source, count + 1) == step(d).0);
    assert(run(d) == run(step(d).0));
}

proof fn lemma_pair_header(source: Seq<u8>)
    requires
        is_record_pair(source),
    ensures
        start(source).inv(),
        step(start(source)).1 == Ok::<Option<DataMessageView>, Error>(None),
        ({
            let d = after_steps(source, 1);
            &&& d.inv()
            &&& d.source == source
            &&& d.position == 14
            &&& d.state is ReadingRecordHeader
            &&& d.records_end() == pair_end(source)
            &&& d.registry == empty_registry()
            &&& d.base_timestamp == 0
        }),
{
    let d = start(source);
    assert(after_steps(source, 1) == step(d).0) by {
        reveal_with_fuel(after_steps, 2);
    }
    assert(source.take(0) =~= Seq::<u8>::empty());
    assert(d.rest() =~= source);
    lemma_step_progress(d);
}

proof fn lemma_pair_definition_header(source: Seq<u8>)
    requires
        is_record_pair(source),
    ensures
        step(after_steps(source, 1)).1 == Ok::<Option<DataMessageView>, Error>(None),
        ({
            let d = after_steps(source, 2);
            &&& d.inv()
            &&& d.source == source
            &&& d.position == 15
            &&& d.state is ReadingDefinition
            &&& d.pending == Some(
                RecordHeader { header_byte: source[14], variant: header_variant(source[14]) },
            )
            &&& d.records_end() == pair_end(source)
            &&& d.registry == empty_registry()
            &&& d.base_timestamp == 0
        }),
{
    lemma_pair_header(source);
    let d = after_steps(source, 1);
    lemma_step_progress(d);
    assert(d.rest()[0] == source[14]);
}

proof fn lemma_pair_definition(source: Seq<u8>)
    requires
        is_record_pair(source),
    ensures
        step(after_steps(source, 2)).1 == Ok::<Option<DataMessageView>, Error>(None),
        ({
            let d = after_steps(source, 3);
            &&& d.inv()
            &&& d.source == source
            &&& d.position == pair_data_start(source)
            &&& d.state is ReadingRecordHeader
            &&& d.records_end() == pair_end(source)
            &&& registered(d.registry, header_variant(source[14]).slot()) == Some(
                pair_definition(source),
            )
            &&& d.base_timestamp == 0
        }),
{
    lemma_pair_definition_header(source);
    let d = after_steps(source, 2);
    lemma_step_progress(d);
    assert(d.rest() =~= source.skip(15));
}

proof fn lemma_pair_data_header(source: Seq<u8>)
    requires
        is_record_pair(source),
    ensures
        step(after_steps(source, 3)).1 == Ok::<Option<DataMessageView>, Error>(None),
        ({
            let d = after_steps(source, 4);
            &&& d.inv()
            &&& d.source == source
            &&& d.position == pair_data_start(source) + 1
            &&& d.state is ReadingData
            &&& d.pending == Some(
                RecordHeader {
                    header_byte: source[pair_data_start(source) as int],
                    variant: header_variant(source[pair_data_start(source) as int]),
                },
            )
            &&& d.records_end() == pair_end(source)
            &&& registered(d.registry, header_variant(source[14]).slot()) == Some(
                pair_definition(source),
            )
            &&& d.base_timestamp == 0
        }),
{
    lemma_pair_definition(source);
    let d = after_steps(source, 3);
    lemma_step_progress(d);
    assert(d.rest()[0] == source[pair_data_start(source) as int]);
}

proof fn lemma_pair_data(source: Seq<u8>)
    requires
        is_record_pair(source),
    ensures
        step(after_steps(source, 4)).1 == Ok::<Option<DataMessageView>, Error>(
            Some(pair_message(source)),
        ),
        ({
            let d = after_steps(source, 5);
            &&& d.inv()
            &&& d.source == source
            &&& d.position == pair_end(source)
            &&& d.state is ReadingRecordHeader
            &&& d.records_end() == pair_end(source)
        }),
{
    lemma_pair_data_header(source);
    let d = after_steps(source, 4);
    lemma_step_progress(d);
    assert(d.rest() =~= source.skip((pair_data_start(source) + 1) as int));
}

proof fn lemma_pair_trailer(source: Seq<u8>)
    requires
        is_record_pair(source),
    ensures
        step(after_steps(source, 5)).1 == Ok::<Option<DataMessageView>, Error>(None),
        ({
            let d = after_steps(source, 6);
            &&& d.inv()
            &&& d.source == source
            &&& d.position == pair_end(source)
            &&& d.state is Trailer
        }),
{
    lemma_pair_data(source);
    lemma_step_progress(after_steps(source, 5));
}

/// A file of one record pair, from end to end. Decoding it fails nowhere and
/// gives exactly one data record: the bytes of the data record, read by the
/// definition. The trailer decides nothing but whether a checksum mismatch
/// is noted.
pub proof fn lemma_one_definition_one_record(source: Seq<u8>)
    requires
        is_record_pair(source),
    ensures
        decode_trace(source).error is None,
        decode_trace(source).messages == seq![pair_message(source)],
        decode_trace(source).last.position == pair_end(source) + 2,
        decode_trace(source).last.crc_mismatch is None <==> stored_crc(
            source.skip(pair_end(source) as int),
        ) == crc16(source.take(pair_end(source) as int)),
{
    lemma_pair_header(source);
    lemma_pair_definition_header(source);
    lemma_pair_definition(source);
    lemma_pair_data_header(source);
    lemma_pair_data(source);
    lemma_pair_trailer(source);
    let last = after_steps(source, 6);
    lemma_trailer_mismatch_is_noted(last);
    assert(last.rest() =~= source.skip(pair_end(source) as int));
    lemma_run_skips(source, 5);
    let at_data = after_steps(source, 4);
    assert(run(at_data).messages =~= seq![pair_message(source)]) by {
        assert(run(at_data).messages == seq![pair_message(source)] + run(
            after_steps(source, 5),
        ).messages);
    }
    assert(run(at_data).error is None);
    assert(run(at_data).last == run(last).last);
    lemma_run_skips(source, 3);
    lemma_run_skips(source, 2);
    lemma_run_skips(source, 1);
    lemma_run_skips(source, 0);
}

/// In a file of one record pair: whether the definition record has
/// developer fields.
pub open spec fn pair_developer(source: Seq<u8>) -> bool {
    header_variant(source[14]) matches HeaderVariant::Normal { developer_data: true, .. }
}

/// In a file of one record pair: the definition.
pub open spec fn pair_definition(source: Seq<u8>) -> DefinitionView {
    definition_view(source.skip(15), pair_developer(source))
}

/// In a file of one record pair: where the header byte of the data record
/// stands.
pub open spec fn pair_data_start(source: Seq<u8>) -> nat {
    15 + definition_length(source.skip(15), pair_developer(source))
}

/// In a file of one record pair: where the data record ends and the trailer
/// starts.
pub open spec fn pair_end(source: Seq<u8>) -> nat {
    pair_data_start(source) + 1 + record_length(pair_definition(source))
}

/// In a file of one record pair: the data record, with the time that its
/// header gives it.
pub open spec fn pair_message(source: Seq<u8>) -> DataMessageView {
    stamped(
        record_view(
            pair_definition(source),
            source.skip((pair_data_start(source) + 1) as int),
        ),
        header_variant(source[pair_data_start(source) as int]),
        0,
    ).0
}

/// What decoding `source` from its first byte gives.
pub open spec fn decode_trace(source: Seq<u8>) -> Trace {
    run(start(source))
}

/// A trailer that stores another checksum than the one computed is no
/// failure: the step notes the difference, gives no record, takes none back,
/// and ends the session.
pub proof fn lemma_trailer_mismatch_is_noted(d: DecoderView)
    requires
        d.inv(),
        d.state is Trailer,
        d.rest().len() >= 2,
    ensures
        step(d).1 == Ok::<Option<DataMessageView>, Error>(None),
        step(d).0.state is Done,
        step(d).0.crc_mismatch is Some <==> stored_crc(d.rest()) != crc16(
            d.source.take(d.position as int),
        ),
        step(d).0.crc_mismatch matches Some(e) ==> e.kind == ErrorKind::CrcMismatch,
        run(d).error is None,
        run(d).messages.len() == 0,
        run(d).last == step(d).0,
{
    lemma_step_progress(d);
    assert(run(step(d).0).last == step(d).0);
}

} // verus!
