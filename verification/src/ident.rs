//! The identifier-space member type: a plain value carrying the ordinal
//! position assigned by the taxonomy compiler. The ordinal, not the name, is
//! what downstream consumers persist, so it must stay stable across
//! regenerations from an unchanged taxonomy.

use vstd::prelude::*;

verus! {

/// One member of the flat identifier space. Its `ordinal` is its position in
/// the taxonomy traversal order: a category, then its subcategories, then the
/// next category, and so on.
#[derive(Clone, Copy, PartialEq, Eq, Structural, Debug)]
pub struct GenreId {
    pub ordinal: usize,
}

/// The number of bytes of the fixed-width binary encoding of a `GenreId`.
pub const ENCODED_LEN: usize = 1;

impl GenreId {
    /// Builds the member at the given ordinal position.
    pub fn from_ordinal(ordinal: usize) -> (r: GenreId)
        ensures
            r.ordinal == ordinal,
    {
        GenreId { ordinal }
    }

    /// The ordinal position of this member.
    pub fn ordinal(self) -> (r: usize)
        ensures
            r == self.ordinal,
    {
        self.ordinal
    }

    /// Compact fixed-width binary encoding: the ordinal as a single byte.
    /// Only identifier spaces of at most 256 members can be encoded this way.
    pub fn encode(self) -> (r: u8)
        requires
            self.ordinal < 256,
        ensures
            r as usize == self.ordinal,
    {
        self.ordinal as u8
    }

    /// Decodes a single encoded byte back into the identifier-space member.
    pub fn decode(b: u8) -> (r: GenreId)
        ensures
            r.ordinal == b as usize,
    {
        GenreId { ordinal: b as usize }
    }

    /// The total order of the identifier space: ordinal position.
    pub fn le(self, other: GenreId) -> (r: bool)
        ensures
            r == (self.ordinal <= other.ordinal),
    {
        self.ordinal <= other.ordinal
    }
}

} // verus!
