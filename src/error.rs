use vstd::prelude::*;

verus! {

/// The structural kind of a wire value, as seen by a decoder.
#[derive(Clone, Copy, Debug, PartialEq, Eq, Structural)]
pub enum Kind {
    Text,
    Number,
    Optional,
    List,
}

/// Every failure of a conversion or of a (de)serialization, returned to the caller.
#[derive(Clone, Copy, Debug, PartialEq, Eq, Structural)]
pub enum HexError {
    /// The text has odd length or a character outside `[0-9a-fA-F]`.
    Decode,
    /// The bytes stand for a number above `u64::MAX`.
    Overflow,
    /// A pair was read from a list that has no element at `missing`.
    Length { missing: usize },
    /// The wire value does not have the structure that the shape expects.
    ShapeMismatch { expected: Kind, found: Kind },
}

} // verus!
