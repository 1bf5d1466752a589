//! Reading from the front of a byte buffer.
//!
//! The readers of the first half of this file call the `nom` parser
//! combinators. Their contracts are trusted: they state what the combinators
//! do on byte slices. The readers of the second half are verified. They read
//! at a position of a buffer, return the position after what they have read,
//! and report a failure as a [`ParseError`].

use crate::error::ParseError;
use vstd::prelude::*;
use vstd::slice::slice_subrange;

verus! {

/// `nom::Err`, the failure of a `nom` parser. Nothing is known of what a
/// value of it holds: the readers below only tell a failure from a success.
#[verifier::external_type_specification]
#[verifier::external_body]
#[verifier::reject_recursive_types(E)]
pub struct ExNomErr<E>(nom::Err<E>);

/// `nom::error::Error`, the error that a `nom` parser reports by default.
/// Nothing is known of what a value of it holds.
#[verifier::external_type_specification]
#[verifier::external_body]
#[verifier::reject_recursive_types(I)]
pub struct ExNomError<I>(nom::error::Error<I>);

/// The value of the four bytes from `at` on, read as a big-endian integer.
pub open spec fn be_u32_at(bytes: Seq<u8>, at: int) -> int {
    bytes[at] * 0x100_0000 + bytes[at + 1] * 0x1_0000 + bytes[at + 2] * 0x100 + bytes[at + 3]
}

/// The value of the two bytes from `at` on, read as a little-endian integer.
pub open spec fn le_u16_at(bytes: Seq<u8>, at: int) -> int {
    bytes[at] + bytes[at + 1] * 0x100
}

/// The value of the four bytes from `at` on, read as a little-endian integer.
pub open spec fn le_u32_at(bytes: Seq<u8>, at: int) -> int {
    bytes[at] + bytes[at + 1] * 0x100 + bytes[at + 2] * 0x1_0000 + bytes[at + 3] * 0x100_0000
}

/// `pattern` stands in `buffer` at the position `at`.
pub open spec fn occurs_at(buffer: Seq<u8>, pattern: Seq<u8>, at: int) -> bool {
    &&& 0 <= at
    &&& at + pattern.len() <= buffer.len()
    &&& buffer.subrange(at, at + pattern.len()) == pattern
}

/// `pattern` stands somewhere in `buffer`.
pub open spec fn occurs(buffer: Seq<u8>, pattern: Seq<u8>) -> bool {
    exists|at: int| occurs_at(buffer, pattern, at)
}

/// `at` is the first position at which `pattern` stands in `buffer`.
pub open spec fn is_first_occurrence(buffer: Seq<u8>, pattern: Seq<u8>, at: int) -> bool {
    &&& occurs_at(buffer, pattern, at)
    &&& forall|earlier: int| 0 <= earlier < at ==> !occurs_at(buffer, pattern, earlier)
}

/// Calls `nom::bytes::complete::tag`. Trusted: it succeeds exactly where the
/// buffer starts with the pattern, and then returns the rest of the buffer
/// after the pattern, and the part that matched.
#[verifier::external_body]
pub(crate) fn tag<'a>(pattern: &[u8], input: &'a [u8]) -> (r: Result<
    (&'a [u8], &'a [u8]),
    nom::Err<nom::error::Error<&'a [u8]>>,
>)
    ensures
        r is Ok <==> pattern@.is_prefix_of(input@),
        r matches Ok((rest, matched)) ==> rest@ == input@.skip(pattern@.len() as int) && matched@
            == pattern@,
{
    nom::bytes::complete::tag(pattern)(input)
}

/// Calls `nom::bytes::complete::take`. Trusted: it succeeds exactly where the
/// buffer holds at least `count` bytes, and then returns the rest of the
/// buffer after `count` bytes, and those bytes.
#[verifier::external_body]
pub(crate) fn take<'a>(count: u32, input: &'a [u8]) -> (r: Result<
    (&'a [u8], &'a [u8]),
    nom::Err<nom::error::Error<&'a [u8]>>,
>)
    ensures
        r is Ok <==> input@.len() >= count,
        r matches Ok((rest, taken)) ==> rest@ == input@.skip(count as int) && taken@
            == input@.take(count as int),
{
    nom::bytes::complete::take(count)(input)
}

/// Calls `nom::bytes::complete::take_until`. Trusted: it succeeds exactly
/// where the pattern stands somewhere in the buffer, and then returns the
/// buffer from the first such position on, and the bytes before it.
#[verifier::external_body]
pub(crate) fn take_until<'a>(pattern: &[u8], input: &'a [u8]) -> (r: Result<
    (&'a [u8], &'a [u8]),
    nom::Err<nom::error::Error<&'a [u8]>>,
>)
    ensures
        r is Ok <==> occurs(input@, pattern@),
        r matches Ok((rest, skipped)) ==> is_first_occurrence(
            input@,
            pattern@,
            skipped@.len() as int,
        ) && skipped@ == input@.take(skipped@.len() as int) && rest@ == input@.skip(
            skipped@.len() as int,
        ),
{
    nom::bytes::complete::take_until(pattern)(input)
}

/// Calls `nom::number::complete::be_u32`. Trusted: it succeeds exactly where
/// the buffer holds at least four bytes, and then returns the rest of the
/// buffer after four bytes, and those bytes as a big-endian integer.
#[verifier::external_body]
pub(crate) fn be_u32<'a>(input: &'a [u8]) -> (r: Result<
    (&'a [u8], u32),
    nom::Err<nom::error::Error<&'a [u8]>>,
>)
    ensures
        r is Ok <==> input@.len() >= 4,
        r matches Ok((rest, value)) ==> rest@ == input@.skip(4) && value == be_u32_at(input@, 0),
{
    nom::number::complete::be_u32(input)
}

/// Calls `nom::number::complete::le_u8`. Trusted: it succeeds exactly where
/// the buffer is not empty, and then returns the rest of the buffer after one
/// byte, and that byte.
#[verifier::external_body]
pub(crate) fn le_u8<'a>(input: &'a [u8]) -> (r: Result<
    (&'a [u8], u8),
    nom::Err<nom::error::Error<&'a [u8]>>,
>)
    ensures
        r is Ok <==> input@.len() >= 1,
        r matches Ok((rest, value)) ==> rest@ == input@.skip(1) && value == input@[0],
{
    nom::number::complete::le_u8(input)
}

/// Calls `nom::number::complete::le_u16`. Trusted: it succeeds exactly where
/// the buffer holds at least two bytes, and then returns the rest of the
/// buffer after two bytes, and those bytes as a little-endian integer.
#[verifier::external_body]
pub(crate) fn le_u16<'a>(input: &'a [u8]) -> (r: Result<
    (&'a [u8], u16),
    nom::Err<nom::error::Error<&'a [u8]>>,
>)
    ensures
        r is Ok <==> input@.len() >= 2,
        r matches Ok((rest, value)) ==> rest@ == input@.skip(2) && value == le_u16_at(input@, 0),
{
    nom::number::complete::le_u16(input)
}

/// Calls `nom::number::complete::le_u32`. Trusted: it succeeds exactly where
/// the buffer holds at least four bytes, and then returns the rest of the
/// buffer after four bytes, and those bytes as a little-endian integer.
#[verifier::external_body]
pub(crate) fn le_u32<'a>(input: &'a [u8]) -> (r: Result<
    (&'a [u8], u32),
    nom::Err<nom::error::Error<&'a [u8]>>,
>)
    ensures
        r is Ok <==> input@.len() >= 4,
        r matches Ok((rest, value)) ==> rest@ == input@.skip(4) && value == le_u32_at(input@, 0),
{
    nom::number::complete::le_u32(input)
}

/// The buffer from the position `at` on.
pub(crate) fn tail<'a>(input: &'a [u8], at: usize) -> (rest: &'a [u8])
    requires
        at <= input@.len(),
    ensures
        rest@ == input@.skip(at as int),
        at + rest@.len() == input@.len() <= usize::MAX,
{
    slice_subrange(input, at, input.len())
}

/// Skips a literal that the format prescribes, and returns the position after
/// it. Fails with `MalformedHeader` where the literal does not stand at `at`.
pub(crate) fn literal_at(input: &[u8], at: usize, pattern: &[u8]) -> (r: Result<usize, ParseError>)
    requires
        at <= input@.len(),
    ensures
        r is Ok <==> pattern@.is_prefix_of(input@.skip(at as int)),
        r matches Ok(next) ==> next == at + pattern@.len(),
        r matches Err(e) ==> e == ParseError::MalformedHeader,
{
    match tag(pattern, tail(input, at)) {
        Ok(_) => Ok(at + pattern.len()),
        Err(_) => Err(ParseError::MalformedHeader),
    }
}

/// Reads a big-endian `u32` at `at`, and returns the position after it. Fails
/// with `UnexpectedEof` where fewer than four bytes are left.
pub(crate) fn u32_be_at(input: &[u8], at: usize) -> (r: Result<(usize, u32), ParseError>)
    requires
        at <= input@.len(),
    ensures
        r is Ok <==> at + 4 <= input@.len(),
        r matches Ok((next, value)) ==> next == at + 4 && value == be_u32_at(input@, at as int),
        r matches Err(e) ==> e == ParseError::UnexpectedEof,
{
    match be_u32(tail(input, at)) {
        Ok((_, value)) => Ok((at + 4, value)),
        Err(_) => Err(ParseError::UnexpectedEof),
    }
}

/// Reads the byte at `at`, and returns the position after it. Fails with
/// `UnexpectedEof` where no byte is left.
pub(crate) fn byte_at(input: &[u8], at: usize) -> (r: Result<(usize, u8), ParseError>)
    requires
        at <= input@.len(),
    ensures
        r is Ok <==> at + 1 <= input@.len(),
        r matches Ok((next, value)) ==> next == at + 1 && value == input@[at as int],
        r matches Err(e) ==> e == ParseError::UnexpectedEof,
{
    match le_u8(tail(input, at)) {
        Ok((_, value)) => Ok((at + 1, value)),
        Err(_) => Err(ParseError::UnexpectedEof),
    }
}

/// Reads a little-endian `u16` at `at`, and returns the position after it.
/// Fails with `UnexpectedEof` where fewer than two bytes are left.
pub(crate) fn u16_le_at(input: &[u8], at: usize) -> (r: Result<(usize, u16), ParseError>)
    requires
        at <= input@.len(),
    ensures
        r is Ok <==> at + 2 <= input@.len(),
        r matches Ok((next, value)) ==> next == at + 2 && value == le_u16_at(input@, at as int),
        r matches Err(e) ==> e == ParseError::UnexpectedEof,
{
    match le_u16(tail(input, at)) {
        Ok((_, value)) => Ok((at + 2, value)),
        Err(_) => Err(ParseError::UnexpectedEof),
    }
}

/// Reads a little-endian `u32` at `at`, and returns the position after it.
/// Fails with `UnexpectedEof` where fewer than four bytes are left.
pub(crate) fn u32_le_at(input: &[u8], at: usize) -> (r: Result<(usize, u32), ParseError>)
    requires
        at <= input@.len(),
    ensures
        r is Ok <==> at + 4 <= input@.len(),
        r matches Ok((next, value)) ==> next == at + 4 && value == le_u32_at(input@, at as int),
        r matches Err(e) ==> e == ParseError::UnexpectedEof,
{
    match le_u32(tail(input, at)) {
        Ok((_, value)) => Ok((at + 4, value)),
        Err(_) => Err(ParseError::UnexpectedEof),
    }
}

/// Takes the `count` bytes from `at` on, and returns the position after
/// them. Fails with `UnexpectedEof` where fewer than `count` bytes are left.
pub(crate) fn payload_at<'a>(input: &'a [u8], at: usize, count: u32) -> (r: Result<
    (usize, &'a [u8]),
    ParseError,
>)
    requires
        at <= input@.len(),
    ensures
        r is Ok <==> at + count <= input@.len(),
        r matches Ok((next, taken)) ==> next == at + count && taken@ == input@.subrange(
            at as int,
            at + count,
        ),
        r matches Err(e) ==> e == ParseError::UnexpectedEof,
{
    match take(count, tail(input, at)) {
        Ok((_, taken)) => Ok((at + count as usize, taken)),
        Err(_) => Err(ParseError::UnexpectedEof),
    }
}

/// Looks for the first place from `at` on at which the pattern stands:
/// returns its position, if there is one.
pub(crate) fn find_from(input: &[u8], at: usize, pattern: &[u8]) -> (r: Option<usize>)
    requires
        at <= input@.len(),
    ensures
        r is Some <==> occurs(input@.skip(at as int), pattern@),
        r matches Some(found) ==> at <= found <= input@.len() && is_first_occurrence(
            input@.skip(at as int),
            pattern@,
            found - at,
        ),
{
    match take_until(pattern, tail(input, at)) {
        Ok((_, skipped)) => Some(at + skipped.len()),
        Err(_) => None,
    }
}

} // verus!
