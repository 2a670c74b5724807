//! The decoding session that runs: it holds the input, the definitions in
//! force, the checksum and the running timestamp, and takes the steps.

use vstd::prelude::*;
use crate::crc::CrcValidator;
use crate::cursor::ByteCursor;
use crate::data::{DataMessage, DataMessageView};
use crate::definition::DefinitionMessage;
use crate::endian::{lemma_span_values, lemma_value_bound, read_unsigned, Endianness};
use crate::error::{Error, ErrorKind};
use crate::file_header::FileHeader;
use crate::record_header::{HeaderVariant, RecordHeader};
use crate::registry::{registered, LocalMessageTypeRegistry};
use crate::session::{
    data_step, decode_trace, definition_step, header_step, lemma_advanced_crc,
    lemma_step_progress, record_header_step, run, start, step, trailer_step, DecoderState,
    DecoderView, StepOutcome,
};

verus! {

/// The length of the trailer: the checksum of all the bytes before it.
pub const TRAILER_SIZE: usize = 2;

/// A decoding session over borrowed bytes. It reads forward only, holds one
/// record at a time, and is driven by its caller: nothing is read until a
/// step or a record is asked for.
pub struct FitStreamDecoder<'a> {
    cursor: ByteCursor<'a>,
    state: DecoderState,
    header: Option<FileHeader>,
    pending: Option<RecordHeader>,
    registry: LocalMessageTypeRegistry,
    crc: CrcValidator,
    base_timestamp: u32,
    crc_mismatch: Option<Error>,
}

impl<'a> View for FitStreamDecoder<'a> {
    type V = DecoderView;

    closed spec fn view(&self) -> DecoderView {
        DecoderView {
            source: self.cursor.source(),
            position: self.cursor.consumed(),
            state: self.state,
            header: self.header,
            pending: self.pending,
            registry: self.registry@,
            crc: self.crc.checksum(),
            base_timestamp: self.base_timestamp,
            crc_mismatch: self.crc_mismatch,
        }
    }
}

/// What a step gave, as a mathematical value.
pub open spec fn outcome_view(outcome: Result<Option<DataMessage>, Error>) -> StepOutcome {
    match outcome {
        Ok(Some(message)) => Ok(Some(message@)),
        Ok(None) => Ok(None),
        Err(e) => Err(e),
    }
}

/// Data records as mathematical values.
pub open spec fn message_views(messages: Seq<DataMessage>) -> Seq<DataMessageView> {
    Seq::new(messages.len(), |i: int| messages[i]@)
}

/// All that decoding a file gave.
#[derive(Clone, Debug, PartialEq, Eq)]
pub struct DecodeReport {
    /// The file header, if it could be read.
    pub header: Option<FileHeader>,
    /// The data records that were read before the end or a failure.
    pub messages: Vec<DataMessage>,
    /// The failure that stopped the decoding, if one did.
    pub error: Option<Error>,
    /// What the trailer check found, if it found the checksums to differ.
    /// This is no failure: the records stand.
    pub crc_mismatch: Option<Error>,
}

impl<'a> FitStreamDecoder<'a> {
    /// The session is in a state that its steps can go on from.
    pub open spec fn wf(&self) -> bool {
        self@.inv()
    }

    /// A session at the start of `bytes`.
    pub fn new(bytes: &'a [u8]) -> (decoder: Self)
        ensures
            decoder.wf(),
            decoder@ == start(bytes@),
    {
        let cursor = ByteCursor::new(bytes);
        let decoder = FitStreamDecoder {
            cursor,
            state: DecoderState::ReadingHeader,
            header: None,
            pending: None,
            registry: LocalMessageTypeRegistry::new(),
            crc: CrcValidator::new(),
            base_timestamp: 0,
            crc_mismatch: None,
        };
        assert(bytes@.take(0) =~= Seq::<u8>::empty());
        decoder
    }

    /// Where the session stands.
    pub fn state(&self) -> (state: DecoderState)
        ensures
            state == self@.state,
    {
        self.state
    }

    /// The file header, once it has been read.
    pub fn header(&self) -> (header: Option<FileHeader>)
        ensures
            header == self@.header,
    {
        self.header
    }

    /// The header of the record that is being read: there is one behind a
    /// record's header byte, and none between two records.
    pub fn pending_header(&self) -> (pending: Option<RecordHeader>)
        ensures
            pending == self@.pending,
    {
        self.pending
    }

    /// The definition in force for `local_message_type`, if there is one.
    pub fn definition(&self, local_message_type: u8) -> (found: Option<&DefinitionMessage>)
        requires
            self.wf(),
        ensures
            found == None::<&DefinitionMessage> <==> registered(self@.registry, local_message_type)
                is None,
            found matches Some(definition) ==> registered(self@.registry, local_message_type)
                == Some(definition@),
    {
        self.registry.lookup(local_message_type)
    }

    /// How many bytes of the input have been consumed.
    pub fn position(&self) -> (position: usize)
        ensures
            position == self@.position,
    {
        self.cursor.position()
    }

    /// The running timestamp.
    pub fn base_timestamp(&self) -> (timestamp: u32)
        ensures
            timestamp == self@.base_timestamp,
    {
        self.base_timestamp
    }

    /// What the trailer check found, if it found the checksums to differ.
    pub fn crc_mismatch(&self) -> (mismatch: Option<Error>)
        ensures
            mismatch == self@.crc_mismatch,
    {
        self.crc_mismatch
    }

    /// Stops the session where it stands.
    fn stop(&mut self)
        ensures
            final(self)@ == old(self)@.stopped(),
    {
        self.state = DecoderState::Done;
        self.pending = None;
    }

    /// Consumes `length` bytes and takes them into the checksum.
    fn consume(&mut self, length: usize)
        requires
            old(self).wf(),
            old(self)@.state !is Done,
            length <= old(self)@.rest().len(),
        ensures
            final(self).wf(),
            final(self)@ == old(self)@.advanced(length as nat),
    {
        proof {
            lemma_advanced_crc(self@, length as nat);
        }
        match self.cursor.take(length) {
            Ok(bytes) => {
                self.crc.update_all(bytes);
            },
            Err(_) => {},
        }
    }

    /// The step at the start of the file.
    fn step_header(&mut self) -> (output: Result<Option<DataMessage>, Error>)
        requires
            old(self).wf(),
            old(self)@.state is ReadingHeader,
        ensures
            final(self)@ == header_step(old(self)@).0,
            outcome_view(output) == header_step(old(self)@).1,
    {
        let block = self.cursor.remainder();
        let offset = self.cursor.position();
        match FileHeader::new(block, offset) {
            Err(e) => {
                self.stop();
                Err(e)
            },
            Ok(header) => {
                self.consume(header.header_size as usize);
                self.header = Some(header);
                self.state = DecoderState::ReadingRecordHeader;
                Ok(None)
            },
        }
    }

    /// The step between two records.
    fn step_record_header(&mut self) -> (output: Result<Option<DataMessage>, Error>)
        requires
            old(self).wf(),
            old(self)@.state is ReadingRecordHeader,
        ensures
            final(self)@ == record_header_step(old(self)@).0,
            outcome_view(output) == record_header_step(old(self)@).1,
    {
        let records_end: u64 = match self.header {
            Some(header) => header.header_size as u64 + header.data_size as u64,
            None => 0,
        };
        let offset = self.cursor.position();
        if offset as u64 >= records_end {
            self.state = DecoderState::Trailer;
            return Ok(None);
        }
        match self.cursor.peek(1) {
            None => {
                self.stop();
                Err(Error { kind: ErrorKind::IncompleteData, offset, expected: 1, actual: 0 })
            },
            Some(block) => {
                match RecordHeader::new(block[0]) {
                    Err(e) => {
                        self.stop();
                        Err(e)
                    },
                    Ok(header) => {
                        self.consume(1);
                        self.pending = Some(header);
                        self.state = if header.is_definition() {
                            DecoderState::ReadingDefinition
                        } else {
                            DecoderState::ReadingData
                        };
                        Ok(None)
                    },
                }
            },
        }
    }

    /// The step behind the header byte of a definition record.
    fn step_definition(&mut self) -> (output: Result<Option<DataMessage>, Error>)
        requires
            old(self).wf(),
            old(self)@.state is ReadingDefinition,
        ensures
            final(self)@ == definition_step(old(self)@).0,
            outcome_view(output) == definition_step(old(self)@).1,
    {
        match self.pending {
            Some(
                RecordHeader {
                    variant: HeaderVariant::Normal { local_message_type, developer_data, .. },
                    ..
                },
            ) => {
                let block = self.cursor.remainder();
                let offset = self.cursor.position();
                match DefinitionMessage::parse(block, offset, developer_data) {
                    Err(e) => {
                        self.stop();
                        Err(e)
                    },
                    Ok((definition, length)) => {
                        self.consume(length);
                        self.registry.register(local_message_type, definition);
                        self.pending = None;
                        self.state = DecoderState::ReadingRecordHeader;
                        Ok(None)
                    },
                }
            },
            _ => {
                self.stop();
                Ok(None)
            },
        }
    }

    /// The step behind the header byte of a data record.
    fn step_data(&mut self) -> (output: Result<Option<DataMessage>, Error>)
        requires
            old(self).wf(),
            old(self)@.state is ReadingData,
        ensures
            final(self)@ == data_step(old(self)@).0,
            outcome_view(output) == data_step(old(self)@).1,
    {
        match self.pending {
            Some(header) => {
                let block = self.cursor.remainder();
                let offset = self.cursor.position();
                match DataMessage::decode(
                    &self.registry,
                    header.local_message_type(),
                    block,
                    offset,
                ) {
                    Err(e) => {
                        self.stop();
                        Err(e)
                    },
                    Ok((message, length)) => {
                        let (message, base_timestamp) = message.stamp(
                            header.variant,
                            self.base_timestamp,
                        );
                        self.consume(length);
                        self.base_timestamp = base_timestamp;
                        self.pending = None;
                        self.state = DecoderState::ReadingRecordHeader;
                        Ok(Some(message))
                    },
                }
            },
            None => {
                self.stop();
                Ok(None)
            },
        }
    }

    /// The step at the trailer.
    fn step_trailer(&mut self) -> (output: Result<Option<DataMessage>, Error>)
        requires
            old(self).wf(),
            old(self)@.state is Trailer,
        ensures
            final(self)@ == trailer_step(old(self)@).0,
            outcome_view(output) == trailer_step(old(self)@).1,
    {
        let offset = self.cursor.position();
        let left = self.cursor.remaining();
        match self.cursor.take(TRAILER_SIZE) {
            Err(e) => {
                self.stop();
                Err(e)
            },
            Ok(block) => {
                let stored = read_unsigned(block, Endianness::Little);
                proof {
                    lemma_span_values();
                    lemma_value_bound(block@, Endianness::Little);
                }
                self.crc_mismatch = match self.crc.validate(stored as u16, offset) {
                    Err(e) => Some(e),
                    Ok(_) => None,
                };
                self.state = DecoderState::Done;
                Ok(None)
            },
        }
    }

    /// Takes one step: reads the file header, a record's header byte, a
    /// definition record, a data record or the trailer, as the state says. A
    /// data record is handed out; a failure ends the session; in a session
    /// that is done nothing happens.
    pub fn step(&mut self) -> (output: Result<Option<DataMessage>, Error>)
        requires
            old(self).wf(),
        ensures
            final(self).wf(),
            final(self)@ == step(old(self)@).0,
            outcome_view(output) == step(old(self)@).1,
    {
        proof {
            lemma_step_progress(self@);
        }
        match self.state {
            DecoderState::ReadingHeader => self.step_header(),
            DecoderState::ReadingRecordHeader => self.step_record_header(),
            DecoderState::ReadingDefinition => self.step_definition(),
            DecoderState::ReadingData => self.step_data(),
            DecoderState::Trailer => self.step_trailer(),
            DecoderState::Done => Ok(None),
        }
    }

    /// Goes on to the next data record and hands it out. `Ok(None)` says
    /// that the session is done: the trailer has been checked, and
    /// `crc_mismatch` tells what the check found. A failure ends the session;
    /// the records handed out before it stand.
    pub fn next_message(&mut self) -> (output: Result<Option<DataMessage>, Error>)
        requires
            old(self).wf(),
        ensures
            final(self).wf(),
            final(self)@.source == old(self)@.source,
            match output {
                Ok(Some(message)) => {
                    &&& run(old(self)@).messages == seq![message@] + run(final(self)@).messages
                    &&& run(old(self)@).error == run(final(self)@).error
                    &&& run(old(self)@).last == run(final(self)@).last
                    &&& final(self)@.measure() < old(self)@.measure()
                },
                Ok(None) => {
                    &&& final(self)@.state is Done
                    &&& run(old(self)@).messages == Seq::<DataMessageView>::empty()
                    &&& run(old(self)@).error is None
                    &&& run(old(self)@).last == final(self)@
                },
                Err(e) => {
                    &&& final(self)@.state is Done
                    &&& run(old(self)@).messages == Seq::<DataMessageView>::empty()
                    &&& run(old(self)@).error == Some(e)
                    &&& run(old(self)@).last == final(self)@
                },
            },
    {
        loop
            invariant
                self.wf(),
                self@.source == old(self)@.source,
                run(self@) == run(old(self)@),
                self@.measure() <= old(self)@.measure(),
            decreases self@.measure(),
        {
            if self.state == DecoderState::Done {
                return Ok(None);
            }
            let ghost before = self@;
            proof {
                lemma_step_progress(before);
            }
            match self.step() {
                Err(e) => {
                    return Err(e);
                },
                Ok(Some(message)) => {
                    return Ok(Some(message));
                },
                Ok(None) => {},
            }
        }
    }
}

/// Decodes a whole file that is in memory: all its data records, and what
/// stopped the decoding or what the trailer check found. A checksum that
/// differs is reported beside the records and takes none of them back.
pub fn decode(bytes: &[u8]) -> (report: DecodeReport)
    ensures
        message_views(report.messages@) == decode_trace(bytes@).messages,
        report.error == decode_trace(bytes@).error,
        report.crc_mismatch == decode_trace(bytes@).last.crc_mismatch,
        report.header == decode_trace(bytes@).last.header,
{
    let mut decoder = FitStreamDecoder::new(bytes);
    let mut messages: Vec<DataMessage> = Vec::new();
    let mut error: Option<Error> = None;
    let ghost trace = decode_trace(bytes@);
    assert(trace.messages =~= message_views(messages@) + run(decoder@).messages);
    loop
        invariant_except_break
            decoder.wf(),
            error is None,
            trace.messages == message_views(messages@) + run(decoder@).messages,
            trace.error == run(decoder@).error,
            trace.last == run(decoder@).last,
        ensures
            trace.messages == message_views(messages@),
            trace.error == error,
            trace.last == decoder@,
        decreases decoder@.measure(),
    {
        let ghost collected = message_views(messages@);
        let ghost before = run(decoder@);
        match decoder.next_message() {
            Ok(Some(message)) => {
                messages.push(message);
                assert(message_views(messages@) =~= collected + seq![message@]);
                assert(collected + before.messages =~= message_views(messages@) + run(
                    decoder@,
                ).messages);
            },
            Ok(None) => {
                assert(collected + before.messages =~= collected);
                break ;
            },
            Err(e) => {
                error = Some(e);
                assert(collected + before.messages =~= collected);
                break ;
            },
        }
    }
    DecodeReport {
        header: decoder.header(),
        messages,
        error,
        crc_mismatch: decoder.crc_mismatch(),
    }
}

} // verus!
