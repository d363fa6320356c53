//! A cursor over source bytes that knows its line and column.
//!
//! Every parser of this crate takes a [`Span`] and, on success, hands back
//! the span that follows what it consumed. A span never copies the input: it
//! is the whole byte string with an offset into it, so the line and the
//! column of any position can be recovered at any time.

use vstd::prelude::*;

verus! {

/// The line-feed byte, which ends a source line.
pub const NEWLINE: u8 = 10;

/// Number of line feeds among the first `upto` bytes of `s`.
pub open spec fn newlines_before(s: Seq<u8>, upto: int) -> nat
    decreases upto,
{
    if upto <= 0 {
        0
    } else {
        newlines_before(s, upto - 1) + if s[upto - 1] == NEWLINE {
            1nat
        } else {
            0nat
        }
    }
}

/// Offset of the first byte of the line that holds position `pos`: just
/// behind the last line feed before `pos`, or 0 where there is none.
pub open spec fn line_start(s: Seq<u8>, pos: int) -> int
    decreases pos,
{
    if pos <= 0 {
        0
    } else if s[pos - 1] == NEWLINE {
        pos
    } else {
        line_start(s, pos - 1)
    }
}

/// Line number of position `pos`, counted from 1.
pub open spec fn line_at(s: Seq<u8>, pos: int) -> int {
    1 + newlines_before(s, pos) as int
}

/// Column of position `pos`, counted from 1, one byte per column.
pub open spec fn column_at(s: Seq<u8>, pos: int) -> int {
    pos - line_start(s, pos) + 1
}

/// Where a parser gave up.
#[derive(Clone, Copy, Debug, PartialEq, Eq, Structural)]
pub struct ParseError {
    /// Offset into the input of the byte that could not be accepted.
    pub offset: usize,
    /// Line of that byte, counted from 1.
    pub line: u32,
    /// Column of that byte, counted from 1.
    pub col: u32,
}

/// The error that reports position `at` of input `s`.
pub open spec fn error_at(s: Seq<u8>, at: nat) -> ParseError {
    ParseError { offset: at as usize, line: line_at(s, at as int) as u32, col: column_at(s, at as int) as u32 }
}

/// A position within a byte string: the whole input and an offset into it.
///
/// The input is shorter than `u32::MAX` bytes, so that every line and column
/// number fits the 32-bit fields that carry them.
#[derive(Clone, Copy, Debug, PartialEq, Eq)]
pub struct Span<'a> {
    data: &'a [u8],
    offset: usize,
}

impl<'a> Span<'a> {
    #[verifier::type_invariant]
    spec fn inv(self) -> bool {
        self.offset <= self.data@.len() < u32::MAX
    }

    /// The whole input the span was made from.
    pub closed spec fn bytes(self) -> Seq<u8> {
        self.data@
    }

    /// How many bytes of the input lie before the span.
    pub closed spec fn pos(self) -> nat {
        self.offset as nat
    }

    /// A span at the start of `data`.
    pub fn new(data: &'a [u8]) -> (s: Self)
        requires
            data@.len() < u32::MAX,
        ensures
            s.bytes() == data@,
            s.pos() == 0,
    {
        Span { data, offset: 0 }
    }

    /// Offset of the span into its input.
    pub fn location_offset(&self) -> (r: usize)
        ensures
            r == self.pos(),
            r <= self.bytes().len() < u32::MAX,
    {
        proof {
            use_type_invariant(self);
        }
        self.offset
    }

    /// Number of bytes from the span to the end of the input.
    pub fn remaining(&self) -> (r: usize)
        ensures
            r == self.bytes().len() - self.pos(),
            self.pos() <= self.bytes().len() < u32::MAX,
    {
        proof {
            use_type_invariant(self);
        }
        self.data.len() - self.offset
    }

    /// The byte `ahead` places after the span's position, if the input
    /// reaches that far.
    pub fn peek_at(&self, ahead: usize) -> (r: Option<u8>)
        ensures
            self.pos() <= self.bytes().len() < u32::MAX,
            r == if self.pos() + ahead < self.bytes().len() {
                Some(self.bytes()[self.pos() + ahead])
            } else {
                None::<u8>
            },
    {
        proof {
            use_type_invariant(self);
        }
        if ahead < self.data.len() - self.offset {
            Some(self.data[self.offset + ahead])
        } else {
            None
        }
    }

    /// The byte at the span's position, if any is left.
    pub fn peek(&self) -> (r: Option<u8>)
        ensures
            self.pos() <= self.bytes().len() < u32::MAX,
            r == if self.pos() < self.bytes().len() {
                Some(self.bytes()[self.pos() as int])
            } else {
                None::<u8>
            },
    {
        self.peek_at(0)
    }

    /// The span `count` bytes further on in the same input.
    pub fn advance(&self, count: usize) -> (r: Self)
        requires
            self.pos() + count <= self.bytes().len(),
        ensures
            r.bytes() == self.bytes(),
            r.pos() == self.pos() + count,
    {
        proof {
            use_type_invariant(self);
        }
        Span { data: self.data, offset: self.offset + count }
    }

    /// Line of the span's position, counted from 1.
    pub fn location_line(&self) -> (line: u32)
        ensures
            line == line_at(self.bytes(), self.pos() as int),
    {
        proof {
            use_type_invariant(self);
        }
        let mut count: u32 = 0;
        let mut k: usize = 0;
        while k < self.offset
            invariant
                k <= self.offset <= self.data@.len() < u32::MAX,
                count == newlines_before(self.data@, k as int),
                count <= k,
            decreases self.offset - k,
        {
            if self.data[k] == NEWLINE {
                count = count + 1;
            }
            k = k + 1;
        }
        count + 1
    }

    /// Column of the span's position, counted from 1, one byte per column.
    pub fn get_column(&self) -> (col: usize)
        ensures
            col == column_at(self.bytes(), self.pos() as int),
            1 <= col <= self.pos() + 1,
    {
        proof {
            use_type_invariant(self);
        }
        let mut k: usize = self.offset;
        while k > 0 && self.data[k - 1] != NEWLINE
            invariant
                k <= self.offset <= self.data@.len(),
                line_start(self.data@, self.offset as int) == line_start(self.data@, k as int),
            decreases k,
        {
            k = k - 1;
        }
        self.offset - k + 1
    }

    /// The error that reports the span's position.
    pub fn error(&self) -> (e: ParseError)
        ensures
            e == error_at(self.bytes(), self.pos()),
    {
        proof {
            use_type_invariant(self);
        }
        let col: usize = self.get_column();
        ParseError { offset: self.offset, line: self.location_line(), col: col as u32 }
    }
}

} // verus!
