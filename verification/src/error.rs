//! What can go wrong while decoding, and where.

use vstd::prelude::*;

verus! {

/// The bytes `.FIT`, read as a little-endian 32-bit number.
pub const FIT_SIGNATURE: u64 = 0x5449_462E;

/// The kinds of failure.
#[derive(Clone, Copy, Debug, PartialEq, Eq, Structural)]
pub enum ErrorKind {
    /// The file header has a size other than 12 or 14, or a 14-byte header
    /// lacks the `.FIT` signature.
    Format,
    /// The input ended inside a header, a record or the trailer.
    IncompleteData,
    /// A data record names a local message type that no definition record
    /// has laid out yet.
    UndefinedLocalType,
    /// The checksum in the trailer is not the checksum of the bytes before it.
    CrcMismatch,
}

/// A failure, with the place in the input where it was found.
///
/// What `expected` and `actual` hold depends on the kind:
///
/// | kind | `offset` | `expected` | `actual` |
/// |---|---|---|---|
/// | `Format`, bad size | of the size byte | 14 | the size byte |
/// | `Format`, no signature | of the signature | [`FIT_SIGNATURE`] | the four bytes there, little-endian |
/// | `IncompleteData` | of the block that is cut short | the block's length | the bytes that are left |
/// | `UndefinedLocalType` | of the first byte behind the record's header | 0 | the local message type |
/// | `CrcMismatch` | of the trailer | the checksum computed | the checksum stored |
#[derive(Clone, Copy, Debug, PartialEq, Eq, Structural)]
pub struct Error {
    pub kind: ErrorKind,
    pub offset: usize,
    pub expected: u64,
    pub actual: u64,
}

impl Error {
    /// The text that describes this failure.
    pub open spec fn message_text(self) -> Seq<char> {
        match self.kind {
            ErrorKind::Format => if self.expected == FIT_SIGNATURE {
                "invalid fit header missing .FIT label"@
            } else {
                "invalid fit header."@
            },
            ErrorKind::IncompleteData => "incomplete data."@,
            ErrorKind::UndefinedLocalType => "data record for an undefined local message type."@,
            ErrorKind::CrcMismatch => "checksum mismatch."@,
        }
    }

    /// A short description of the failure, without the numbers.
    pub fn message(&self) -> (text: String)
        ensures
            text@ == self.message_text(),
    {
        match self.kind {
            ErrorKind::Format => if self.expected == FIT_SIGNATURE {
                "invalid fit header missing .FIT label".to_string()
            } else {
                "invalid fit header.".to_string()
            },
            ErrorKind::IncompleteData => "incomplete data.".to_string(),
            ErrorKind::UndefinedLocalType => "data record for an undefined local message type.".to_string(),
            ErrorKind::CrcMismatch => "checksum mismatch.".to_string(),
        }
    }
}

/// The failure of a read of `needed` bytes at `offset` where only `left` remain.
pub open spec fn incomplete(offset: nat, needed: nat, left: nat) -> Error {
    Error {
        kind: ErrorKind::IncompleteData,
        offset: offset as usize,
        expected: needed as u64,
        actual: left as u64,
    }
}

} // verus!
