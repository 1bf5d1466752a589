//! Finding chunks in a buffer that has no index of them.
//!
//! Chunks of different kinds follow each other in a container, and nothing
//! says where the next chunk of a kind starts. The only way to reach it is to
//! look for its tag, byte by byte.

use crate::error::ParseError;
use crate::input::{find_from, is_first_occurrence, occurs, occurs_at, tail};
use crate::parser::{chunk_end, chunk_failure, chunk_of, parse_tagged_chunk, Chunk, ChunkView};
use vstd::prelude::*;
use vstd::slice::slice_subrange;

verus! {

/// The first position at which `pattern` stands in `buffer`, where it stands
/// in it at all.
pub open spec fn first_occurrence(buffer: Seq<u8>, pattern: Seq<u8>) -> int {
    choose|at: int| is_first_occurrence(buffer, pattern, at)
}

/// A pattern that stands at `at` has a first occurrence, at `at` or before.
proof fn least_occurrence(buffer: Seq<u8>, pattern: Seq<u8>, at: int)
    requires
        occurs_at(buffer, pattern, at),
    ensures
        exists|first: int| 0 <= first <= at && is_first_occurrence(buffer, pattern, first),
    decreases at,
{
    if exists|earlier: int| 0 <= earlier < at && occurs_at(buffer, pattern, earlier) {
        let earlier = choose|earlier: int| 0 <= earlier < at && occurs_at(buffer, pattern, earlier);
        least_occurrence(buffer, pattern, earlier);
    } else {
        assert(is_first_occurrence(buffer, pattern, at));
    }
}

/// A pattern that stands somewhere in a buffer has a first occurrence, and
/// only one.
pub proof fn first_occurrence_is_first(buffer: Seq<u8>, pattern: Seq<u8>)
    requires
        occurs(buffer, pattern),
    ensures
        is_first_occurrence(buffer, pattern, first_occurrence(buffer, pattern)),
        forall|at: int|
            is_first_occurrence(buffer, pattern, at) ==> at == first_occurrence(buffer, pattern),
{
    let some = choose|at: int| occurs_at(buffer, pattern, at);
    least_occurrence(buffer, pattern, some);
    let first = first_occurrence(buffer, pattern);
    assert forall|at: int| is_first_occurrence(buffer, pattern, at) implies at == first by {
        if at < first {
            assert(!occurs_at(buffer, pattern, at));
        } else if first < at {
            assert(!occurs_at(buffer, pattern, first));
        }
    }
}

/// Why looking for `tag` in `input` fails, if it does.
pub open spec fn scan_failure(input: Seq<u8>, tag: Seq<u8>) -> Option<ParseError> {
    if input.len() == 0 {
        Some(ParseError::UnexpectedEof)
    } else if !occurs(input, tag) {
        Some(ParseError::TagNotFound)
    } else {
        None
    }
}

/// Goes forward to the first occurrence of `tag`: returns the buffer from the
/// tag on, and the bytes that were skipped. Fails with `TagNotFound` where
/// the buffer does not hold the tag.
pub fn scan_to_next<'a>(input: &'a [u8], tag: &[u8; 4]) -> (r: Result<
    (&'a [u8], &'a [u8]),
    ParseError,
>)
    ensures
        match r {
            Ok((rest, skipped)) => {
                &&& scan_failure(input@, tag@) is None
                &&& skipped@.len() == first_occurrence(input@, tag@)
                &&& skipped@ == input@.take(skipped@.len() as int)
                &&& rest@ == input@.skip(skipped@.len() as int)
                &&& tag@.is_prefix_of(rest@)
            },
            Err(e) => scan_failure(input@, tag@) == Some(e),
        },
{
    if input.len() == 0 {
        return Err(ParseError::UnexpectedEof);
    }
    assert(input@.skip(0) =~= input@);
    match find_from(input, 0, tag.as_slice()) {
        Some(found) => {
            proof {
                first_occurrence_is_first(input@, tag@);
            }
            Ok((tail(input, found), slice_subrange(input, 0, found)))
        },
        None => Err(ParseError::TagNotFound),
    }
}

/// The chunks with the given tag that `input` holds: the chunk at the first
/// occurrence of the tag, then those of the buffer after that chunk. The
/// sequence ends where the tag does not occur again, and where a chunk is cut
/// off by the end of the buffer.
pub open spec fn all_chunks(input: Seq<u8>, tag: Seq<u8>) -> Seq<ChunkView>
    decreases input.len(),
    via all_chunks_decreases
{
    if !occurs(input, tag) {
        Seq::empty()
    } else {
        let found = input.skip(first_occurrence(input, tag));
        if chunk_failure(found, tag) is Some {
            Seq::empty()
        } else {
            seq![chunk_of(found, tag)] + all_chunks(found.skip(chunk_end(found)), tag)
        }
    }
}

#[via_fn]
proof fn all_chunks_decreases(input: Seq<u8>, tag: Seq<u8>) {
    if occurs(input, tag) {
        first_occurrence_is_first(input, tag);
    }
}

/// Parses every chunk with the given tag that `input` holds, in the order of
/// the buffer. That the tag does not occur, or not again, is no error: the
/// sequence ends there.
pub fn parse_all<'a>(input: &'a [u8], tag: &[u8; 4]) -> (chunks: Vec<Chunk<'a>>)
    ensures
        chunks@.map_values(|chunk: Chunk<'a>| chunk@) == all_chunks(input@, tag@),
        !occurs(input@, tag@) ==> chunks@.len() == 0,
        forall|k: int|
            0 <= k < chunks@.len() ==> (#[trigger] chunks@[k]).tag@ == tag@
                && chunks@[k].data@.len() == chunks@[k].size,
{
    let mut chunks: Vec<Chunk<'a>> = Vec::new();
    let mut at: usize = 0;
    let ghost view = |chunk: Chunk<'a>| chunk@;
    assert(input@.skip(0) =~= input@);
    assert(chunks@.map_values(view) =~= Seq::<ChunkView>::empty());
    loop
        invariant
            at <= input@.len(),
            view == |chunk: Chunk<'a>| chunk@,
            chunks@.map_values(view) + all_chunks(input@.skip(at as int), tag@) == all_chunks(
                input@,
                tag@,
            ),
            !occurs(input@, tag@) ==> chunks@.len() == 0,
            forall|k: int|
                0 <= k < chunks@.len() ==> (#[trigger] chunks@[k]).tag@ == tag@
                    && chunks@[k].data@.len() == chunks@[k].size,
        ensures
            chunks@.map_values(view) == all_chunks(input@, tag@),
            !occurs(input@, tag@) ==> chunks@.len() == 0,
            forall|k: int|
                0 <= k < chunks@.len() ==> (#[trigger] chunks@[k]).tag@ == tag@
                    && chunks@[k].data@.len() == chunks@[k].size,
        decreases input@.len() - at,
    {
        let ghost here = input@.skip(at as int);
        let found = match find_from(input, at, tag.as_slice()) {
            Some(found) => found,
            None => {
                break ;
            },
        };
        proof {
            first_occurrence_is_first(here, tag@);
            assert(here.skip(found - at) =~= input@.skip(found as int));
            assert(occurs_at(input@, tag@, found as int)) by {
                assert(here.subrange(found - at, found - at + tag@.len()) =~= input@.subrange(
                    found as int,
                    found + tag@.len(),
                ));
            }
        }
        let (_, chunk) = match parse_tagged_chunk(tail(input, found), tag) {
            Ok(parsed) => parsed,
            Err(_) => {
                break ;
            },
        };
        proof {
            let start = input@.skip(found as int);
            assert(start.skip(chunk_end(start)) =~= input@.skip(found + chunk_end(start)));
            assert(chunks@.push(chunk).map_values(view) =~= chunks@.map_values(view) + seq![
                chunk_of(start, tag@),
            ]);
        }
        at = found + 8 + chunk.size as usize;
        chunks.push(chunk);
    }
    chunks
}

/// A buffer in which the tag does not occur holds no chunk with that tag.
pub proof fn no_tag_no_chunks(input: Seq<u8>, tag: Seq<u8>)
    requires
        !occurs(input, tag),
    ensures
        all_chunks(input, tag).len() == 0,
{
}

} // verus!
