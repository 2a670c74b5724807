//! The header that opens a file.

use vstd::prelude::*;
use crate::cursor::ByteCursor;
use crate::endian::{
    le_value, lemma_le_value_of_four, lemma_span_values, lemma_value_bound, read_unsigned,
    Endianness,
};
use crate::error::{incomplete, Error, ErrorKind, FIT_SIGNATURE};

verus! {

/// The size of a header without a checksum of its own.
pub const SHORT_HEADER_SIZE: u8 = 12;

/// The size of a header that ends in its own checksum.
pub const LONG_HEADER_SIZE: u8 = 14;

/// Where the signature starts in a header.
pub const SIGNATURE_OFFSET: usize = 8;

/// The header of a file.
#[derive(Clone, Copy, Debug, PartialEq, Eq)]
pub struct FileHeader {
    /// The length of the header itself, 12 or 14.
    pub header_size: u8,
    pub protocol_version: u8,
    pub profile_version: u16,
    /// The length of the records, without the header and the trailer.
    pub data_size: u32,
    /// Whether bytes 8 to 11 spell `.FIT`. A 14-byte header is only accepted
    /// with the signature; a 12-byte one may lack it.
    pub signature_present: bool,
    /// The header's own checksum, which only a 14-byte header has.
    pub header_crc: Option<u16>,
}

/// Bytes 8 to 11 of `block` spell `.FIT`.
pub open spec fn has_signature(block: Seq<u8>) -> bool {
    block.len() >= 12 && le_value(block.subrange(8, 12)) == FIT_SIGNATURE
}

/// Whether `block`, found at `offset` in the input, starts with a header that
/// can be accepted, and if not, why. It is tried in this order: there is
/// a size byte; it is 12 or 14; that many bytes are there; a 14-byte header
/// has the signature.
pub open spec fn header_check(block: Seq<u8>, offset: nat) -> Result<(), Error> {
    if block.len() == 0 {
        Err(incomplete(offset, 1, 0))
    } else if block[0] != SHORT_HEADER_SIZE && block[0] != LONG_HEADER_SIZE {
        Err(
            Error {
                kind: ErrorKind::Format,
                offset: offset as usize,
                expected: LONG_HEADER_SIZE as u64,
                actual: block[0] as u64,
            },
        )
    } else if block.len() < block[0] {
        Err(incomplete(offset, block[0] as nat, block.len()))
    } else if block[0] == LONG_HEADER_SIZE && !has_signature(block) {
        Err(
            Error {
                kind: ErrorKind::Format,
                offset: (offset + SIGNATURE_OFFSET) as usize,
                expected: FIT_SIGNATURE,
                actual: le_value(block.subrange(8, 12)) as u64,
            },
        )
    } else {
        Ok(())
    }
}

/// The header that an accepted `block` starts with.
pub open spec fn header_fields(block: Seq<u8>) -> FileHeader {
    FileHeader {
        header_size: block[0],
        protocol_version: block[1],
        profile_version: le_value(block.subrange(2, 4)) as u16,
        data_size: le_value(block.subrange(4, 8)) as u32,
        signature_present: has_signature(block),
        header_crc: if block[0] == LONG_HEADER_SIZE {
            Some(le_value(block.subrange(12, 14)) as u16)
        } else {
            None
        },
    }
}

/// The header that `block` starts with, or why it has none.
pub open spec fn parse_header(block: Seq<u8>, offset: nat) -> Result<FileHeader, Error> {
    match header_check(block, offset) {
        Err(e) => Err(e),
        Ok(_) => Ok(header_fields(block)),
    }
}

/// The signature is there exactly when the four bytes are `.`, `F`, `I`, `T`.
pub proof fn lemma_signature_bytes(block: Seq<u8>)
    requires
        block.len() >= 12,
    ensures
        has_signature(block) <==> (block[8] == 0x2E && block[9] == 0x46 && block[10] == 0x49
            && block[11] == 0x54),
{
    lemma_le_value_of_four(block.subrange(8, 12));
}

/// A 14-byte header with the signature is always accepted, and its data size
/// is the little-endian number in bytes 4 to 7.
pub proof fn lemma_long_header_accepted(block: Seq<u8>, offset: nat)
    requires
        block.len() >= 14,
        block[0] == LONG_HEADER_SIZE,
        has_signature(block),
    ensures
        parse_header(block, offset) is Ok,
        parse_header(block, offset)->Ok_0.header_size == 14,
        parse_header(block, offset)->Ok_0.data_size == block[4] + 0x100 * block[5] + 0x1_0000
            * block[6] + 0x100_0000 * block[7],
{
    lemma_le_value_of_four(block.subrange(4, 8));
}

/// A size byte other than 12 and 14 is a format error, whatever follows it.
pub proof fn lemma_bad_size_rejected(block: Seq<u8>, offset: nat)
    requires
        block.len() >= 1,
        block[0] != SHORT_HEADER_SIZE,
        block[0] != LONG_HEADER_SIZE,
    ensures
        parse_header(block, offset) is Err,
        parse_header(block, offset)->Err_0.kind == ErrorKind::Format,
{
}

impl FileHeader {
    /// Tests whether `block` starts with an acceptable header. `offset` says
    /// where `block` starts in the input, for the failure's report.
    pub fn check_header(block: &[u8], offset: usize) -> (outcome: Result<(), Error>)
        requires
            offset + block@.len() <= usize::MAX,
        ensures
            outcome == header_check(block@, offset as nat),
    {
        if block.len() == 0 {
            return Err(
                Error { kind: ErrorKind::IncompleteData, offset, expected: 1, actual: 0 },
            );
        }
        let header_size: u8 = block[0];
        if header_size != SHORT_HEADER_SIZE && header_size != LONG_HEADER_SIZE {
            return Err(
                Error {
                    kind: ErrorKind::Format,
                    offset,
                    expected: LONG_HEADER_SIZE as u64,
                    actual: header_size as u64,
                },
            );
        }
        if block.len() < header_size as usize {
            return Err(
                Error {
                    kind: ErrorKind::IncompleteData,
                    offset,
                    expected: header_size as u64,
                    actual: block.len() as u64,
                },
            );
        }
        if header_size == LONG_HEADER_SIZE {
            let label = read_unsigned(&block[8..12], Endianness::Little);
            if label != FIT_SIGNATURE {
                return Err(
                    Error {
                        kind: ErrorKind::Format,
                        offset: offset + SIGNATURE_OFFSET,
                        expected: FIT_SIGNATURE,
                        actual: label,
                    },
                );
            }
        }
        Ok(())
    }

    /// Reads the header that `block` starts with, after checking it.
    pub fn new(block: &[u8], offset: usize) -> (header: Result<FileHeader, Error>)
        requires
            offset + block@.len() <= usize::MAX,
        ensures
            header == parse_header(block@, offset as nat),
    {
        match FileHeader::check_header(block, offset) {
            Err(e) => Err(e),
            Ok(_) => {
                let header_size: u8 = block[0];
                let profile_version = read_unsigned(&block[2..4], Endianness::Little);
                let data_size = read_unsigned(&block[4..8], Endianness::Little);
                let label = read_unsigned(&block[8..12], Endianness::Little);
                proof {
                    lemma_span_values();
                    lemma_value_bound(block@.subrange(2, 4), Endianness::Little);
                    lemma_value_bound(block@.subrange(4, 8), Endianness::Little);
                }
                let header_crc = if header_size == LONG_HEADER_SIZE {
                    let crc = read_unsigned(&block[12..14], Endianness::Little);
                    proof {
                        lemma_value_bound(block@.subrange(12, 14), Endianness::Little);
                    }
                    Some(crc as u16)
                } else {
                    None
                };
                Ok(
                    FileHeader {
                        header_size,
                        protocol_version: block[1],
                        profile_version: profile_version as u16,
                        data_size: data_size as u32,
                        signature_present: label == FIT_SIGNATURE,
                        header_crc,
                    },
                )
            },
        }
    }

    /// Reads the header at the cursor and moves the cursor past it: by 12 or
    /// 14 bytes, as the header's first byte says. On failure the cursor stays.
    pub fn read(cursor: &mut ByteCursor) -> (header: Result<FileHeader, Error>)
        requires
            old(cursor).wf(),
        ensures
            final(cursor).wf(),
            final(cursor).source() == old(cursor).source(),
            header == parse_header(old(cursor).rest(), old(cursor).consumed()),
            match header {
                Ok(h) => final(cursor).consumed() == old(cursor).consumed() + h.header_size,
                Err(_) => final(cursor).consumed() == old(cursor).consumed(),
            },
            (old(cursor).rest().len() >= 14 && old(cursor).rest()[0] == LONG_HEADER_SIZE
                && has_signature(old(cursor).rest())) ==> {
                &&& header is Ok
                &&& final(cursor).consumed() == old(cursor).consumed() + 14
                &&& header->Ok_0.data_size == le_value(old(cursor).rest().subrange(4, 8))
            },
    {
        proof {
            lemma_span_values();
            lemma_value_bound(old(cursor).rest().subrange(4, 8), Endianness::Little);
        }
        let block = cursor.remainder();
        let offset = cursor.position();
        match FileHeader::new(block, offset) {
            Err(e) => Err(e),
            Ok(header) => {
                let taken = cursor.take(header.header_size as usize);
                assert(taken is Ok);
                Ok(header)
            },
        }
    }
}

} // verus!
