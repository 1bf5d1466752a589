//! What holds of the parsers on every input.

use crate::error::ParseError;
use crate::input::le_u16_at;
use crate::parser::{
    declared_size, header_failure, header_of, stream_header_failure, version_failure, VQAHeader,
    VQAVersion, FORM, VQHD, VQHD_SIZE,
};
use vstd::prelude::*;

verus! {

/// The least significant byte of `value`.
pub open spec fn byte0(value: int) -> u8 {
    (value % 0x100) as u8
}

/// The second byte of `value`, counted from the least significant one.
pub open spec fn byte1(value: int) -> u8 {
    (value / 0x100 % 0x100) as u8
}

/// The third byte of `value`, counted from the least significant one.
pub open spec fn byte2(value: int) -> u8 {
    (value / 0x1_0000 % 0x100) as u8
}

/// The fourth byte of `value`, counted from the least significant one.
pub open spec fn byte3(value: int) -> u8 {
    (value / 0x100_0000 % 0x100) as u8
}

/// The number that stands for a version.
pub open spec fn version_number(version: VQAVersion) -> int {
    match version {
        VQAVersion::One => 1,
        VQAVersion::Two => 2,
        VQAVersion::Three => 3,
    }
}

/// The record of 42 bytes that stands for a stream header.
pub open spec fn record_of(header: VQAHeader) -> Seq<u8> {
    seq![
        byte0(version_number(header.version)),
        byte1(version_number(header.version)),
        byte0(header.flags.bits as int),
        byte1(header.flags.bits as int),
        byte0(header.num_frames as int),
        byte1(header.num_frames as int),
        byte0(header.width as int),
        byte1(header.width as int),
        byte0(header.height as int),
        byte1(header.height as int),
        header.block_width,
        header.block_height,
        header.frame_rate,
        header.cbparts,
        byte0(header.colors as int),
        byte1(header.colors as int),
        byte0(header.maxblocks as int),
        byte1(header.maxblocks as int),
        byte0(header.unk1 as int),
        byte1(header.unk1 as int),
        byte2(header.unk1 as int),
        byte3(header.unk1 as int),
        byte0(header.unk2 as int),
        byte1(header.unk2 as int),
        byte0(header.freq as int),
        byte1(header.freq as int),
        header.channels,
        header.bits,
        byte0(header.unk3 as int),
        byte1(header.unk3 as int),
        byte2(header.unk3 as int),
        byte3(header.unk3 as int),
        byte0(header.unk4 as int),
        byte1(header.unk4 as int),
        byte0(header.max_cbfz_size as int),
        byte1(header.max_cbfz_size as int),
        byte2(header.max_cbfz_size as int),
        byte3(header.max_cbfz_size as int),
        byte0(header.unk5 as int),
        byte1(header.unk5 as int),
        byte2(header.unk5 as int),
        byte3(header.unk5 as int),
    ]
}

/// Two bytes of a number below 65536, read as a little-endian integer, are
/// the number.
proof fn two_bytes_make_the_value(value: int)
    requires
        0 <= value < 0x1_0000,
    ensures
        byte0(value) + byte1(value) * 0x100 == value,
{
}

/// Four bytes of a number below 2 to the 32, read as a little-endian integer,
/// are the number.
proof fn four_bytes_make_the_value(value: int)
    requires
        0 <= value < 0x1_0000_0000,
    ensures
        byte0(value) + byte1(value) * 0x100 + byte2(value) * 0x1_0000 + byte3(value) * 0x100_0000
            == value,
{
}

/// The record of a header stands for that header.
proof fn record_stands_for_header(header: VQAHeader)
    requires
        header.flags.well_formed(),
    ensures
        record_of(header).len() == 42,
        header_of(record_of(header)) == header,
{
    let record = record_of(header);
    let decoded = header_of(record);
    two_bytes_make_the_value(version_number(header.version));
    assert(decoded.version == header.version);
    two_bytes_make_the_value(header.flags.bits as int);
    assert(decoded.flags == header.flags);
    two_bytes_make_the_value(header.num_frames as int);
    assert(decoded.num_frames == header.num_frames);
    two_bytes_make_the_value(header.width as int);
    assert(decoded.width == header.width);
    two_bytes_make_the_value(header.height as int);
    assert(decoded.height == header.height);
    assert(decoded.block_width == header.block_width);
    assert(decoded.block_height == header.block_height);
    assert(decoded.frame_rate == header.frame_rate);
    assert(decoded.cbparts == header.cbparts);
    two_bytes_make_the_value(header.colors as int);
    assert(decoded.colors == header.colors);
    two_bytes_make_the_value(header.maxblocks as int);
    assert(decoded.maxblocks == header.maxblocks);
    four_bytes_make_the_value(header.unk1 as int);
    assert(decoded.unk1 == header.unk1);
    two_bytes_make_the_value(header.unk2 as int);
    assert(decoded.unk2 == header.unk2);
    two_bytes_make_the_value(header.freq as int);
    assert(decoded.freq == header.freq);
    assert(decoded.channels == header.channels);
    assert(decoded.bits == header.bits);
    four_bytes_make_the_value(header.unk3 as int);
    assert(decoded.unk3 == header.unk3);
    two_bytes_make_the_value(header.unk4 as int);
    assert(decoded.unk4 == header.unk4);
    four_bytes_make_the_value(header.max_cbfz_size as int);
    assert(decoded.max_cbfz_size == header.max_cbfz_size);
    four_bytes_make_the_value(header.unk5 as int);
    assert(decoded.unk5 == header.unk5);
}

/// A header is read from the first 42 bytes of a buffer alone.
proof fn header_is_read_from_record(record: Seq<u8>, buffer: Seq<u8>)
    requires
        record.len() == 42,
        record.is_prefix_of(buffer),
    ensures
        header_of(buffer) == header_of(record),
{
    assert forall|k: int| 0 <= k < 42 implies buffer[k] == record[k] by {
        assert(buffer.subrange(0, 42)[k] == buffer[k]);
    }
}

/// A stream header that is written out as a `VQHD` chunk and parsed again is
/// the same header, and the rest of the buffer is what follows the chunk.
/// This holds of headers whose flags have no undefined bit set: parsing drops
/// such bits.
pub proof fn stream_header_round_trip(header: VQAHeader, trailing: Seq<u8>)
    requires
        header.flags.well_formed(),
    ensures
        ({
            let input = VQHD@ + VQHD_SIZE@ + record_of(header) + trailing;
            &&& stream_header_failure(input) is None
            &&& header_of(input.skip(8)) == header
            &&& input.skip(50) == trailing
        }),
{
    let record = record_of(header);
    let input = VQHD@ + VQHD_SIZE@ + record + trailing;
    record_stands_for_header(header);
    assert(VQHD@ =~= input.subrange(0, 4));
    assert(VQHD_SIZE@ =~= input.skip(4).subrange(0, 4));
    assert(record =~= input.skip(8).subrange(0, 42));
    assert(input.skip(50) =~= trailing);
    header_is_read_from_record(record, input.skip(8));
    assert(version_failure(input, 8) is None) by {
        assert(input[8] == record[0] && input[9] == record[1]);
        assert(le_u16_at(input, 8) == le_u16_at(record, 0));
    }
}

/// A `FORM` header that is written out and parsed again gives the size that
/// was written, and the rest of the buffer is what follows the eight bytes of
/// the header.
pub proof fn form_header_round_trip(size: u32, trailing: Seq<u8>)
    ensures
        ({
            let input = FORM@ + seq![
                byte3(size as int),
                byte2(size as int),
                byte1(size as int),
                byte0(size as int),
            ] + trailing;
            &&& header_failure(input, FORM@) is None
            &&& declared_size(input) == size
            &&& input.skip(8) == trailing
        }),
{
    let field = seq![byte3(size as int), byte2(size as int), byte1(size as int), byte0(size as int)];
    let input = FORM@ + field + trailing;
    assert(FORM@ =~= input.subrange(0, 4));
    assert(input.skip(8) =~= trailing);
    assert(input[4] == field[0] && input[5] == field[1] && input[6] == field[2] && input[7]
        == field[3]);
}

/// A version field that holds any number but 1, 2 and 3 is rejected with
/// `UnknownVersion`.
pub proof fn other_versions_are_rejected(input: Seq<u8>)
    requires
        input.len() >= 2,
        le_u16_at(input, 0) != 1,
        le_u16_at(input, 0) != 2,
        le_u16_at(input, 0) != 3,
    ensures
        version_failure(input, 0) == Some(ParseError::UnknownVersion),
{
}

} // verus!
