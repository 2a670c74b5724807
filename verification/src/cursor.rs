//! A forward-only cursor over borrowed bytes.

use vstd::prelude::*;
use crate::error::{incomplete, Error, ErrorKind};

verus! {

/// A position in a borrowed byte slice. It only moves forward, and never
/// past the end.
pub struct ByteCursor<'a> {
    bytes: &'a [u8],
    position: usize,
}

impl<'a> ByteCursor<'a> {
    /// All the bytes the cursor runs over, consumed or not.
    pub closed spec fn source(&self) -> Seq<u8> {
        self.bytes@
    }

    /// How many bytes have been consumed.
    pub closed spec fn consumed(&self) -> nat {
        self.position as nat
    }

    /// The cursor is inside its source.
    pub open spec fn wf(&self) -> bool {
        self.consumed() <= self.source().len()
    }

    /// The bytes that have not been consumed yet.
    pub open spec fn rest(&self) -> Seq<u8> {
        self.source().skip(self.consumed() as int)
    }

    /// A cursor at the start of `bytes`.
    pub fn new(bytes: &'a [u8]) -> (cursor: Self)
        ensures
            cursor.wf(),
            cursor.source() == bytes@,
            cursor.source().len() <= usize::MAX,
            cursor.consumed() == 0,
    {
        proof {
            assert(bytes.len() == bytes@.len());
        }
        ByteCursor { bytes, position: 0 }
    }

    /// The number of bytes consumed so far.
    pub fn position(&self) -> (p: usize)
        ensures
            p == self.consumed(),
    {
        self.position
    }

    /// The number of bytes left.
    pub fn remaining(&self) -> (n: usize)
        requires
            self.wf(),
        ensures
            n == self.source().len() - self.consumed(),
            n == self.rest().len(),
            self.source().len() <= usize::MAX,
    {
        self.bytes.len() - self.position
    }

    /// All the bytes that are left, without consuming them.
    pub fn remainder(&self) -> (block: &'a [u8])
        requires
            self.wf(),
        ensures
            block@ == self.rest(),
            self.consumed() + block@.len() == self.source().len(),
            self.source().len() <= usize::MAX,
    {
        let source: &'a [u8] = self.bytes;
        let block = &source[self.position..source.len()];
        assert(block@ =~= self.rest());
        block
    }

    /// The next `n` bytes, without consuming them; `None` if fewer are left.
    pub fn peek(&self, n: usize) -> (block: Option<&'a [u8]>)
        requires
            self.wf(),
        ensures
            block is Some <==> n <= self.rest().len(),
            block matches Some(b) ==> b@ == self.rest().take(n as int),
    {
        if n <= self.bytes.len() - self.position {
            let source: &'a [u8] = self.bytes;
            let block = &source[self.position..self.position + n];
            assert(block@ =~= self.rest().take(n as int));
            Some(block)
        } else {
            None
        }
    }

    /// Consumes the next `n` bytes and returns them. If fewer are left the
    /// cursor stays where it is and the failure says how many were missing.
    pub fn take(&mut self, n: usize) -> (block: Result<&'a [u8], Error>)
        requires
            old(self).wf(),
        ensures
            final(self).wf(),
            final(self).source() == old(self).source(),
            match block {
                Ok(b) => {
                    &&& n <= old(self).rest().len()
                    &&& b@ == old(self).rest().take(n as int)
                    &&& final(self).consumed() == old(self).consumed() + n
                },
                Err(e) => {
                    &&& n > old(self).rest().len()
                    &&& e == incomplete(old(self).consumed(), n as nat, old(self).rest().len())
                    &&& final(self).consumed() == old(self).consumed()
                },
            },
    {
        let left = self.bytes.len() - self.position;
        if n <= left {
            let source: &'a [u8] = self.bytes;
            let block = &source[self.position..self.position + n];
            assert(block@ =~= self.rest().take(n as int));
            self.position = self.position + n;
            Ok(block)
        } else {
            Err(Error {
                kind: ErrorKind::IncompleteData,
                offset: self.position,
                expected: n as u64,
                actual: left as u64,
            })
        }
    }
}

} // verus!
