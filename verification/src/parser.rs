//! Structures and functions for parsing the VQA (Vector Quantized Animation)
//! format.
//!
//! A container is a sequence of chunks. A chunk is a tag of four bytes, a
//! big-endian size of four bytes, and a payload of that many bytes. Every
//! parser takes a buffer and returns the rest of the buffer after what it has
//! read, together with what it has read. A payload is borrowed from the
//! buffer, not copied.
//!
//! No parser returns part of a chunk. On an empty buffer every parser fails
//! with `UnexpectedEof`.

use crate::error::ParseError;
use crate::input::{
    be_u32_at, byte_at, le_u16_at, le_u32_at, literal_at, payload_at, tail, u16_le_at, u32_be_at,
    u32_le_at,
};
use vstd::prelude::*;

pub mod laws;

verus! {

/// The tag of the chunk that opens a container.
pub const FORM: [u8; 4] = [0x46, 0x4f, 0x52, 0x4d];

/// The tag of the stream header.
pub const VQHD: [u8; 4] = [0x56, 0x51, 0x48, 0x44];

/// The size field of the stream header: its record always has 42 bytes.
pub const VQHD_SIZE: [u8; 4] = [0x00, 0x00, 0x00, 0x2a];

/// The tag of the chunk that holds the offsets of the frames.
pub const FINF: [u8; 4] = [0x46, 0x49, 0x4e, 0x46];

/// The tag of an audio chunk.
pub const SND2: [u8; 4] = [0x53, 0x4e, 0x44, 0x32];

/// The tag of a video frame.
pub const VQFR: [u8; 4] = [0x56, 0x51, 0x46, 0x52];

/// The first three bytes of the tag of a codebook chunk.
pub const CBF: [u8; 3] = [0x43, 0x42, 0x46];

/// The fourth byte of the tag of a compressed codebook: `Z`.
pub const CBF_COMPRESSED: [u8; 1] = [0x5a];

/// The fourth byte of the tag of a codebook that is not compressed: `0`.
pub const CBF_RAW: [u8; 1] = [0x30];

/// The bit of the flags that says that the stream has audio.
pub const HAS_SOUND: u16 = 1;

/// Why reading a tag and a size from the front of `input` fails, if it does.
pub open spec fn header_failure(input: Seq<u8>, tag: Seq<u8>) -> Option<ParseError> {
    if input.len() == 0 {
        Some(ParseError::UnexpectedEof)
    } else if !tag.is_prefix_of(input) {
        Some(ParseError::MalformedHeader)
    } else if input.len() < tag.len() + 4 {
        Some(ParseError::UnexpectedEof)
    } else {
        None
    }
}

/// The size that a chunk declares: the big-endian integer after its tag of
/// four bytes.
pub open spec fn declared_size(input: Seq<u8>) -> int {
    be_u32_at(input, 4)
}

/// Why reading a chunk with the given tag from the front of `input` fails, if
/// it does.
pub open spec fn chunk_failure(input: Seq<u8>, tag: Seq<u8>) -> Option<ParseError> {
    if header_failure(input, tag) is Some {
        header_failure(input, tag)
    } else if input.len() - 8 < declared_size(input) {
        Some(ParseError::UnexpectedEof)
    } else {
        None
    }
}

/// The position at which the chunk at the front of `input` ends.
pub open spec fn chunk_end(input: Seq<u8>) -> int {
    8 + declared_size(input)
}

/// The payload of the chunk at the front of `input`.
pub open spec fn chunk_payload(input: Seq<u8>) -> Seq<u8> {
    input.subrange(8, chunk_end(input))
}

/// Reads a tag and the size after it: returns the position after the two,
/// and the size.
fn chunk_header(input: &[u8], tag: &[u8; 4]) -> (r: Result<(usize, u32), ParseError>)
    ensures
        match r {
            Ok((next, size)) => {
                &&& header_failure(input@, tag@) is None
                &&& next == 8
                &&& size == declared_size(input@)
            },
            Err(e) => header_failure(input@, tag@) == Some(e),
        },
{
    if input.len() == 0 {
        return Err(ParseError::UnexpectedEof);
    }
    assert(input@.skip(0) =~= input@);
    let next = literal_at(input, 0, tag.as_slice())?;
    u32_be_at(input, next)
}

/// The chunk that opens a container.
#[derive(Debug)]
pub struct FormChunk {
    /// The size that the chunk declares. Nothing holds it to the length of
    /// the buffer.
    pub size: u32,
}

/// Parses the `FORM` chunk at the front of `input`: the tag and the size. The
/// rest starts right after these eight bytes.
pub fn form_chunk(input: &[u8]) -> (r: Result<(&[u8], FormChunk), ParseError>)
    ensures
        match r {
            Ok((rest, chunk)) => {
                &&& header_failure(input@, FORM@) is None
                &&& rest@ == input@.skip(8)
                &&& chunk.size == declared_size(input@)
            },
            Err(e) => header_failure(input@, FORM@) == Some(e),
        },
{
    let (next, size) = chunk_header(input, &FORM)?;
    Ok((tail(input, next), FormChunk { size }))
}

/// The version of the format that a stream follows.
#[derive(Clone, Copy, Debug, PartialEq, Eq, Structural)]
pub enum VQAVersion {
    One,
    Two,
    Three,
}

/// The version that the number `n` stands for, if it stands for one.
pub open spec fn version_of(n: int) -> Option<VQAVersion> {
    if n == 1 {
        Some(VQAVersion::One)
    } else if n == 2 {
        Some(VQAVersion::Two)
    } else if n == 3 {
        Some(VQAVersion::Three)
    } else {
        None
    }
}

/// Why reading a version at the position `at` of `input` fails, if it does.
pub open spec fn version_failure(input: Seq<u8>, at: int) -> Option<ParseError> {
    if input.len() < at + 2 {
        Some(ParseError::UnexpectedEof)
    } else if version_of(le_u16_at(input, at)) is None {
        Some(ParseError::UnknownVersion)
    } else {
        None
    }
}

/// Reads a version at `at`: returns the position after it, and the version.
fn version_at(input: &[u8], at: usize) -> (r: Result<(usize, VQAVersion), ParseError>)
    requires
        at <= input@.len(),
    ensures
        match r {
            Ok((next, version)) => {
                &&& version_failure(input@, at as int) is None
                &&& next == at + 2
                &&& version_of(le_u16_at(input@, at as int)) == Some(version)
            },
            Err(e) => version_failure(input@, at as int) == Some(e),
        },
{
    let (next, n) = u16_le_at(input, at)?;
    match n {
        1 => Ok((next, VQAVersion::One)),
        2 => Ok((next, VQAVersion::Two)),
        3 => Ok((next, VQAVersion::Three)),
        _ => Err(ParseError::UnknownVersion),
    }
}

/// Parses a version: a little-endian integer of two bytes that is 1, 2 or 3.
/// Any other value fails with `UnknownVersion`.
pub fn vqa_version(input: &[u8]) -> (r: Result<(&[u8], VQAVersion), ParseError>)
    ensures
        match r {
            Ok((rest, version)) => {
                &&& version_failure(input@, 0) is None
                &&& rest@ == input@.skip(2)
                &&& version_of(le_u16_at(input@, 0)) == Some(version)
            },
            Err(e) => version_failure(input@, 0) == Some(e),
        },
{
    let (next, version) = version_at(input, 0)?;
    Ok((tail(input, next), version))
}

/// The flags of a stream header.
#[derive(Clone, Copy, Debug, PartialEq, Eq, Structural)]
pub struct VQAFlags {
    /// The bits of the flags that are set.
    pub bits: u16,
}

impl VQAFlags {
    /// The flags among `bits` that are defined.
    pub open spec fn truncated(bits: u16) -> VQAFlags {
        VQAFlags { bits: bits % 2 }
    }

    /// Only defined bits are set.
    pub open spec fn well_formed(self) -> bool {
        self.bits <= HAS_SOUND
    }

    /// Makes flags from bits, dropping the bits that stand for no flag.
    pub fn from_bits_truncate(bits: u16) -> (flags: VQAFlags)
        ensures
            flags == Self::truncated(bits),
            flags.well_formed(),
    {
        assert(bits & 1 == bits % 2) by (bit_vector);
        VQAFlags { bits: bits & HAS_SOUND }
    }

    /// The bits of the flags that are set.
    pub fn bits(&self) -> (bits: u16)
        ensures
            bits == self.bits,
    {
        self.bits
    }

    /// The stream has audio.
    pub fn has_sound(&self) -> (set: bool)
        ensures
            set == (self.bits % 2 == 1),
    {
        let bits: u16 = self.bits;
        assert(bits & 1 == bits % 2) by (bit_vector);
        bits & HAS_SOUND != 0
    }
}

/// The stream header.
#[derive(Clone, Copy, Debug, PartialEq, Eq, Structural)]
pub struct VQAHeader {
    /// VQA version number
    pub version: VQAVersion,
    /// VQA flags
    pub flags: VQAFlags,
    /// Number of frames
    pub num_frames: u16,
    /// Movie width (pixels)
    pub width: u16,
    /// Movie height (pixels)
    pub height: u16,
    /// Width of each image block (pixels)
    pub block_width: u8,
    /// Height of each image block (pixels)
    pub block_height: u8,
    /// Frame rate of the VQA
    pub frame_rate: u8,
    /// How many images use the same lookup table
    pub cbparts: u8,
    /// Max number of colors used in VQA
    pub colors: u16,
    /// Max number of image blocks
    pub maxblocks: u16,
    /// Always 0?
    pub unk1: u32,
    /// Some kind of size?
    pub unk2: u16,
    /// Sound sampling frequency
    pub freq: u16,
    /// Number of sound channels
    pub channels: u8,
    /// Sound resolution
    pub bits: u8,
    /// Always 0?
    pub unk3: u32,
    /// 0 in old VQAs, 4 in HiColor VQAs?
    pub unk4: u16,
    /// 0 in old VQAs, CBFZ size in HiColor
    pub max_cbfz_size: u32,
    /// Always 0?
    pub unk5: u32,
}

/// The length of the record of a stream header.
pub const HEADER_LEN: usize = 42;

/// The header that a record of 42 bytes with a known version stands for.
/// Every field but the single bytes is little-endian.
pub open spec fn header_of(record: Seq<u8>) -> VQAHeader {
    VQAHeader {
        version: version_of(le_u16_at(record, 0)).unwrap(),
        flags: VQAFlags::truncated(le_u16_at(record, 2) as u16),
        num_frames: le_u16_at(record, 4) as u16,
        width: le_u16_at(record, 6) as u16,
        height: le_u16_at(record, 8) as u16,
        block_width: record[10],
        block_height: record[11],
        frame_rate: record[12],
        cbparts: record[13],
        colors: le_u16_at(record, 14) as u16,
        maxblocks: le_u16_at(record, 16) as u16,
        unk1: le_u32_at(record, 18) as u32,
        unk2: le_u16_at(record, 22) as u16,
        freq: le_u16_at(record, 24) as u16,
        channels: record[26],
        bits: record[27],
        unk3: le_u32_at(record, 28) as u32,
        unk4: le_u16_at(record, 32) as u16,
        max_cbfz_size: le_u32_at(record, 34) as u32,
        unk5: le_u32_at(record, 38) as u32,
    }
}

/// Why reading a stream header from the front of `input` fails, if it does.
pub open spec fn stream_header_failure(input: Seq<u8>) -> Option<ParseError> {
    if input.len() == 0 {
        Some(ParseError::UnexpectedEof)
    } else if !VQHD@.is_prefix_of(input) {
        Some(ParseError::MalformedHeader)
    } else if !VQHD_SIZE@.is_prefix_of(input.skip(4)) {
        Some(ParseError::MalformedHeader)
    } else if version_failure(input, 8) is Some {
        version_failure(input, 8)
    } else if input.len() < 8 + HEADER_LEN {
        Some(ParseError::UnexpectedEof)
    } else {
        None
    }
}

/// Parses the `VQHD` chunk at the front of `input`: the tag, the size 42, and
/// the record of the stream header.
pub fn vqa_header2(input: &[u8]) -> (r: Result<(&[u8], VQAHeader), ParseError>)
    ensures
        match r {
            Ok((rest, header)) => {
                &&& stream_header_failure(input@) is None
                &&& rest@ == input@.skip(8 + HEADER_LEN as int)
                &&& header == header_of(input@.skip(8))
            },
            Err(e) => stream_header_failure(input@) == Some(e),
        },
{
    if input.len() == 0 {
        return Err(ParseError::UnexpectedEof);
    }
    assert(input@.skip(0) =~= input@);
    let at = literal_at(input, 0, VQHD.as_slice())?;
    let at = literal_at(input, at, VQHD_SIZE.as_slice())?;
    let (at, version) = version_at(input, at)?;
    let (at, flags) = u16_le_at(input, at)?;
    let (at, num_frames) = u16_le_at(input, at)?;
    let (at, width) = u16_le_at(input, at)?;
    let (at, height) = u16_le_at(input, at)?;
    let (at, block_width) = byte_at(input, at)?;
    let (at, block_height) = byte_at(input, at)?;
    let (at, frame_rate) = byte_at(input, at)?;
    let (at, cbparts) = byte_at(input, at)?;
    let (at, colors) = u16_le_at(input, at)?;
    let (at, maxblocks) = u16_le_at(input, at)?;
    let (at, unk1) = u32_le_at(input, at)?;
    let (at, unk2) = u16_le_at(input, at)?;
    let (at, freq) = u16_le_at(input, at)?;
    let (at, channels) = byte_at(input, at)?;
    let (at, bits) = byte_at(input, at)?;
    let (at, unk3) = u32_le_at(input, at)?;
    let (at, unk4) = u16_le_at(input, at)?;
    let (at, max_cbfz_size) = u32_le_at(input, at)?;
    let (at, unk5) = u32_le_at(input, at)?;
    Ok(
        (
            tail(input, at),
            VQAHeader {
                version,
                flags: VQAFlags::from_bits_truncate(flags),
                num_frames,
                width,
                height,
                block_width,
                block_height,
                frame_rate,
                cbparts,
                colors,
                maxblocks,
                unk1,
                unk2,
                freq,
                channels,
                bits,
                unk3,
                unk4,
                max_cbfz_size,
                unk5,
            },
        ),
    )
}

/// A chunk: a tag, the size that it declares, and its payload.
#[derive(Debug)]
pub struct Chunk<'a> {
    /// The tag of the chunk.
    pub tag: [u8; 4],
    /// The size that the chunk declares: the length of the payload.
    pub size: u32,
    /// The payload, borrowed from the buffer.
    pub data: &'a [u8],
}

/// A chunk as a mathematical value.
pub struct ChunkView {
    /// The tag of the chunk.
    pub tag: Seq<u8>,
    /// The size that the chunk declares.
    pub size: int,
    /// The payload.
    pub data: Seq<u8>,
}

impl<'a> View for Chunk<'a> {
    type V = ChunkView;

    open spec fn view(&self) -> ChunkView {
        ChunkView { tag: self.tag@, size: self.size as int, data: self.data@ }
    }
}

/// The chunk with the given tag at the front of `input`.
pub open spec fn chunk_of(input: Seq<u8>, tag: Seq<u8>) -> ChunkView {
    ChunkView { tag, size: declared_size(input), data: chunk_payload(input) }
}

/// Parses the chunk with the given tag at the front of `input`: the tag, a
/// big-endian size, and exactly that many bytes of payload. A buffer that
/// ends before the payload does fails with `UnexpectedEof`.
pub fn parse_tagged_chunk<'a>(input: &'a [u8], tag: &[u8; 4]) -> (r: Result<
    (&'a [u8], Chunk<'a>),
    ParseError,
>)
    ensures
        match r {
            Ok((rest, chunk)) => {
                &&& chunk_failure(input@, tag@) is None
                &&& rest@ == input@.skip(chunk_end(input@))
                &&& chunk@ == chunk_of(input@, tag@)
                &&& chunk.data@.len() == chunk.size
            },
            Err(e) => chunk_failure(input@, tag@) == Some(e),
        },
{
    let (at, size) = chunk_header(input, tag)?;
    let (at, data) = payload_at(input, at, size)?;
    Ok((tail(input, at), Chunk { tag: *tag, size, data }))
}

/// The chunk that holds the offsets of the frames.
#[derive(Debug)]
pub struct FINFChunk {
    /// The size that the chunk declares.
    pub size: u32,
    /// The offsets: one for every four bytes of the payload.
    pub offsets: Vec<u32>,
}

/// The offsets that a payload holds: one little-endian integer for every four
/// bytes. Up to three bytes at the end that make no offset are passed over.
pub open spec fn offsets_of(payload: Seq<u8>) -> Seq<u32> {
    Seq::new((payload.len() / 4) as nat, |k: int| le_u32_at(payload, 4 * k) as u32)
}

/// Parses the `FINF` chunk at the front of `input`.
pub fn finf_chunk(input: &[u8]) -> (r: Result<(&[u8], FINFChunk), ParseError>)
    ensures
        match r {
            Ok((rest, chunk)) => {
                &&& chunk_failure(input@, FINF@) is None
                &&& rest@ == input@.skip(chunk_end(input@))
                &&& chunk.size == declared_size(input@)
                &&& chunk.offsets@ == offsets_of(chunk_payload(input@))
            },
            Err(e) => chunk_failure(input@, FINF@) == Some(e),
        },
{
    let (rest, chunk) = parse_tagged_chunk(input, &FINF)?;
    let count: usize = chunk.data.len() / 4;
    let mut offsets: Vec<u32> = Vec::with_capacity(count);
    let mut at: usize = 0;
    for k in 0..count
        invariant
            count == chunk.data@.len() / 4,
            at == 4 * k,
            offsets@.len() == k,
            forall|j: int| 0 <= j < k ==> offsets@[j] == le_u32_at(chunk.data@, 4 * j) as u32,
    {
        let (next, offset) = u32_le_at(chunk.data, at)?;
        offsets.push(offset);
        at = next;
    }
    assert(offsets@ =~= offsets_of(chunk.data@));
    Ok((rest, FINFChunk { size: chunk.size, offsets }))
}

/// An audio chunk.
#[derive(Debug)]
pub struct SND2Chunk<'a> {
    /// The size that the chunk declares: the length of the payload.
    pub size: u32,
    /// The codes of the two channels: the first half of the payload for one
    /// channel, the second half for the other.
    pub data: &'a [u8],
}

/// Parses the `SND2` chunk at the front of `input`.
pub fn snd2_chunk(input: &[u8]) -> (r: Result<(&[u8], SND2Chunk<'_>), ParseError>)
    ensures
        match r {
            Ok((rest, chunk)) => {
                &&& chunk_failure(input@, SND2@) is None
                &&& rest@ == input@.skip(chunk_end(input@))
                &&& chunk.size == declared_size(input@)
                &&& chunk.data@ == chunk_payload(input@)
                &&& chunk.data@.len() == chunk.size
            },
            Err(e) => chunk_failure(input@, SND2@) == Some(e),
        },
{
    let (rest, chunk) = parse_tagged_chunk(input, &SND2)?;
    Ok((rest, SND2Chunk { size: chunk.size, data: chunk.data }))
}

/// A video frame. Its payload is not decoded.
#[derive(Debug)]
pub struct VQFRChunk<'a> {
    /// The size that the chunk declares: the length of the payload.
    pub size: u32,
    /// The payload.
    pub data: &'a [u8],
}

/// Parses the `VQFR` chunk at the front of `input`.
pub fn vqfr_chunk(input: &[u8]) -> (r: Result<(&[u8], VQFRChunk<'_>), ParseError>)
    ensures
        match r {
            Ok((rest, chunk)) => {
                &&& chunk_failure(input@, VQFR@) is None
                &&& rest@ == input@.skip(chunk_end(input@))
                &&& chunk.size == declared_size(input@)
                &&& chunk.data@ == chunk_payload(input@)
                &&& chunk.data@.len() == chunk.size
            },
            Err(e) => chunk_failure(input@, VQFR@) == Some(e),
        },
{
    let (rest, chunk) = parse_tagged_chunk(input, &VQFR)?;
    Ok((rest, VQFRChunk { size: chunk.size, data: chunk.data }))
}

/// A codebook. Its payload is not decoded.
#[derive(Debug)]
pub struct CBFChunk<'a> {
    /// The size that the chunk declares: the length of the payload.
    pub size: u32,
    /// The tag ends in `Z`: the payload is compressed.
    pub compressed: bool,
    /// The payload.
    pub data: &'a [u8],
}

/// Why reading a codebook chunk from the front of `input` fails, if it does.
pub open spec fn codebook_failure(input: Seq<u8>) -> Option<ParseError> {
    if input.len() == 0 {
        Some(ParseError::UnexpectedEof)
    } else if !CBF@.is_prefix_of(input) {
        Some(ParseError::MalformedHeader)
    } else if !CBF_COMPRESSED@.is_prefix_of(input.skip(3)) && !CBF_RAW@.is_prefix_of(
        input.skip(3),
    ) {
        Some(ParseError::MalformedHeader)
    } else if input.len() < 8 {
        Some(ParseError::UnexpectedEof)
    } else if input.len() - 8 < declared_size(input) {
        Some(ParseError::UnexpectedEof)
    } else {
        None
    }
}

/// Parses the codebook chunk at the front of `input`: the bytes `CBF`, then
/// `Z` for a compressed codebook or `0` for one that is not, a big-endian
/// size, and that many bytes of payload.
pub fn cbf_chunk(input: &[u8]) -> (r: Result<(&[u8], CBFChunk<'_>), ParseError>)
    ensures
        match r {
            Ok((rest, chunk)) => {
                &&& codebook_failure(input@) is None
                &&& rest@ == input@.skip(chunk_end(input@))
                &&& chunk.size == declared_size(input@)
                &&& chunk.compressed == (input@[3] == CBF_COMPRESSED[0])
                &&& chunk.data@ == chunk_payload(input@)
                &&& chunk.data@.len() == chunk.size
            },
            Err(e) => codebook_failure(input@) == Some(e),
        },
{
    if input.len() == 0 {
        return Err(ParseError::UnexpectedEof);
    }
    assert(input@.skip(0) =~= input@);
    let at = literal_at(input, 0, CBF.as_slice())?;
    let (at, compressed) = match literal_at(input, at, CBF_COMPRESSED.as_slice()) {
        Ok(next) => (next, true),
        Err(_) => (literal_at(input, at, CBF_RAW.as_slice())?, false),
    };
    let (at, size) = u32_be_at(input, at)?;
    let (at, data) = payload_at(input, at, size)?;
    Ok((tail(input, at), CBFChunk { size, compressed, data }))
}

} // verus!
