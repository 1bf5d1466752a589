//! The ways in which parsing fails.

use vstd::prelude::*;

verus! {

/// Why a chunk could not be parsed.
#[derive(Clone, Copy, Debug, PartialEq, Eq, Structural)]
pub enum ParseError {
    /// A tag or a constant that the format prescribes is not where it has to
    /// be.
    MalformedHeader,
    /// The version field of the stream header is not 1, 2 or 3.
    UnknownVersion,
    /// The buffer ends before the chunk does.
    UnexpectedEof,
    /// The buffer holds no occurrence of the tag that was looked for.
    TagNotFound,
}

} // verus!
