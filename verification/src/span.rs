//! Spans: the identifiers that tie a glyph of the document to the node of
//! the source that it shows.

use vstd::prelude::*;

verus! {

/// One more than the greatest number that a span can hold: the number fills
/// the low forty-eight bits, and the bits above them hold the identifier of
/// the file.
pub const NUMBER_LIMIT: u64 = 0x1_0000_0000_0000;

/// An identifier of a syntax node, packed into 64 bits: the identifier of
/// the file it is in, and its number within that file.
///
/// The identifier of the file is zero for a span that is in no file.
#[derive(Debug, Clone, Copy, PartialEq, Eq, Structural)]
pub struct Span {
    /// The packed span: sixteen bits of file, forty-eight bits of number.
    pub raw: u64,
}

/// The distance between two span numbers.
pub open spec fn spec_distance(a: u64, b: u64) -> u64 {
    if a >= b {
        (a - b) as u64
    } else {
        (b - a) as u64
    }
}

/// The distance between two span numbers.
pub fn distance(a: u64, b: u64) -> (d: u64)
    ensures
        d == spec_distance(a, b),
{
    if a >= b {
        a - b
    } else {
        b - a
    }
}

/// Unpacks a span. A packed span is never zero: for zero there is no span.
pub fn span_id_from_u64(id: u64) -> (span: Option<Span>)
    ensures
        span == (if id == 0 {
            None
        } else {
            Some(Span { raw: id })
        }),
{
    if id == 0 {
        None
    } else {
        Some(Span { raw: id })
    }
}

impl Span {
    /// The identifier of the span's file: the bits above the number.
    pub open spec fn spec_file(&self) -> u16 {
        (self.raw / NUMBER_LIMIT) as u16
    }

    /// The identifier of the span's file; zero where it is in none.
    #[verifier::when_used_as_spec(spec_file)]
    pub fn file(&self) -> (file: u16)
        ensures
            file == self.spec_file(),
    {
        let high: u64 = self.raw / NUMBER_LIMIT;
        assert(high <= 0xffff) by {
            assert(self.raw <= u64::MAX);
        }
        high as u16
    }

    /// The number of the span within its file: the low bits.
    pub open spec fn spec_number(&self) -> u64 {
        self.raw % NUMBER_LIMIT
    }

    /// The number of the span within its file.
    #[verifier::when_used_as_spec(spec_number)]
    pub fn number(&self) -> (number: u64)
        ensures
            number == self.spec_number(),
    {
        self.raw % NUMBER_LIMIT
    }

    /// Packs the span.
    pub fn to_u64(&self) -> (id: u64)
        ensures
            id == self.raw,
    {
        self.raw
    }

    /// Whether the two spans are in the same file, or both in none.
    pub fn same_file(&self, other: &Span) -> (same: bool)
        ensures
            same == (self.file() == other.file()),
    {
        self.file() == other.file()
    }

    /// Whether the two spans are the same.
    pub fn same(&self, other: &Span) -> (same: bool)
        ensures
            same == (*self == *other),
    {
        self.raw == other.raw
    }
}

} // verus!
