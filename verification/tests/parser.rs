use vqa_parser::parser::{
    cbf_chunk, finf_chunk, form_chunk, parse_tagged_chunk, snd2_chunk, vqa_header2, vqa_version,
    vqfr_chunk, FormChunk, VQAFlags, VQAVersion, HAS_SOUND,
};
use vqa_parser::ParseError;

/// A chunk with the given tag, a size field that holds `size`, and the given
/// bytes after it.
fn chunk_bytes(tag: &[u8], size: u32, after: &[u8]) -> Vec<u8> {
    let mut bytes: Vec<u8> = Vec::new();
    bytes.extend_from_slice(tag);
    bytes.extend_from_slice(&size.to_be_bytes());
    bytes.extend_from_slice(after);
    bytes
}

/// A `VQHD` chunk whose fields hold distinct values.
fn header_bytes(version: u16, flags: u16) -> Vec<u8> {
    let mut bytes: Vec<u8> = Vec::new();
    bytes.extend_from_slice(b"VQHD");
    bytes.extend_from_slice(&[0x00, 0x00, 0x00, 0x2a]);
    bytes.extend_from_slice(&version.to_le_bytes());
    bytes.extend_from_slice(&flags.to_le_bytes());
    bytes.extend_from_slice(&0x0123u16.to_le_bytes()); // num_frames
    bytes.extend_from_slice(&320u16.to_le_bytes()); // width
    bytes.extend_from_slice(&200u16.to_le_bytes()); // height
    bytes.push(4); // block_width
    bytes.push(2); // block_height
    bytes.push(15); // frame_rate
    bytes.push(8); // cbparts
    bytes.extend_from_slice(&256u16.to_le_bytes()); // colors
    bytes.extend_from_slice(&0x0fa0u16.to_le_bytes()); // maxblocks
    bytes.extend_from_slice(&0xdead_beefu32.to_le_bytes()); // unk1
    bytes.extend_from_slice(&0x1122u16.to_le_bytes()); // unk2
    bytes.extend_from_slice(&22050u16.to_le_bytes()); // freq
    bytes.push(2); // channels
    bytes.push(16); // bits
    bytes.extend_from_slice(&0x0102_0304u32.to_le_bytes()); // unk3
    bytes.extend_from_slice(&0x3344u16.to_le_bytes()); // unk4
    bytes.extend_from_slice(&0x0a0b_0c0du32.to_le_bytes()); // max_cbfz_size
    bytes.extend_from_slice(&0xffff_fffeu32.to_le_bytes()); // unk5
    bytes
}

#[test]
fn successfully_parses_form_chunk() {
    let input = b"FORM\x00\x00\x00\x10trailing";
    let res = form_chunk(input);

    assert!(matches!(res, Ok((b"trailing", FormChunk { size: 16 }))));
}

#[test]
fn successfully_parses_vqa_version() {
    assert!(matches!(
        vqa_version(b"\x01\x00trailing"),
        Ok((b"trailing", VQAVersion::One))
    ));

    assert!(matches!(
        vqa_version(b"\x02\x00trailing"),
        Ok((b"trailing", VQAVersion::Two))
    ));

    assert!(matches!(
        vqa_version(b"\x03\x00trailing"),
        Ok((b"trailing", VQAVersion::Three))
    ));

    assert!(matches!(vqa_version(b"\x04\x00trailing"), Err(_)));
}

#[test]
fn form_chunk_reads_the_size_big_endian() {
    let input = chunk_bytes(b"FORM", 0x0102_0304, b"xy");
    let (rest, chunk) = form_chunk(&input).unwrap();
    assert_eq!(chunk.size, 0x0102_0304);
    assert_eq!(rest, b"xy");
}

#[test]
fn form_chunk_does_not_hold_the_size_to_the_buffer() {
    let input = chunk_bytes(b"FORM", 0xffff_ffff, b"");
    let (rest, chunk) = form_chunk(&input).unwrap();
    assert_eq!(chunk.size, 0xffff_ffff);
    assert!(rest.is_empty());
}

#[test]
fn form_chunk_fails_on_an_empty_buffer() {
    assert_eq!(form_chunk(b"").err(), Some(ParseError::UnexpectedEof));
}

#[test]
fn form_chunk_fails_on_another_tag() {
    assert_eq!(
        form_chunk(b"FROM\x00\x00\x00\x10").err(),
        Some(ParseError::MalformedHeader)
    );
    assert_eq!(form_chunk(b"FO").err(), Some(ParseError::MalformedHeader));
}

#[test]
fn form_chunk_fails_on_a_size_that_is_cut_off() {
    assert_eq!(
        form_chunk(b"FORM\x00\x00\x00").err(),
        Some(ParseError::UnexpectedEof)
    );
    assert_eq!(form_chunk(b"FORM").err(), Some(ParseError::UnexpectedEof));
}

#[test]
fn vqa_version_rejects_every_other_number() {
    for n in 0..=u16::MAX {
        let bytes: [u8; 2] = n.to_le_bytes();
        let res = vqa_version(&bytes);
        if n == 1 || n == 2 || n == 3 {
            assert!(res.is_ok());
        } else {
            assert_eq!(res.err(), Some(ParseError::UnknownVersion));
        }
    }
}

#[test]
fn vqa_version_is_little_endian() {
    assert_eq!(
        vqa_version(b"\x00\x01").err(),
        Some(ParseError::UnknownVersion)
    );
}

#[test]
fn vqa_version_fails_on_a_field_that_is_cut_off() {
    assert_eq!(vqa_version(b"").err(), Some(ParseError::UnexpectedEof));
    assert_eq!(vqa_version(b"\x01").err(), Some(ParseError::UnexpectedEof));
}

#[test]
fn flags_keep_only_the_defined_bit() {
    assert_eq!(VQAFlags::from_bits_truncate(0x0001).bits(), 1);
    assert_eq!(VQAFlags::from_bits_truncate(0xffff).bits(), 1);
    assert_eq!(VQAFlags::from_bits_truncate(0xfffe).bits(), 0);
    assert_eq!(VQAFlags::from_bits_truncate(0).bits(), 0);
    assert_eq!(HAS_SOUND, 1);
    assert!(VQAFlags::from_bits_truncate(0x0001).has_sound());
    assert!(!VQAFlags::from_bits_truncate(0x0002).has_sound());
}

#[test]
fn header_fields_equal_what_was_written() {
    let mut input = header_bytes(2, 0x0001);
    input.extend_from_slice(b"rest");
    let (rest, header) = vqa_header2(&input).unwrap();
    assert_eq!(rest, b"rest");
    assert_eq!(header.version, VQAVersion::Two);
    assert_eq!(header.flags.bits(), 1);
    assert!(header.flags.has_sound());
    assert_eq!(header.num_frames, 0x0123);
    assert_eq!(header.width, 320);
    assert_eq!(header.height, 200);
    assert_eq!(header.block_width, 4);
    assert_eq!(header.block_height, 2);
    assert_eq!(header.frame_rate, 15);
    assert_eq!(header.cbparts, 8);
    assert_eq!(header.colors, 256);
    assert_eq!(header.maxblocks, 0x0fa0);
    assert_eq!(header.unk1, 0xdead_beef);
    assert_eq!(header.unk2, 0x1122);
    assert_eq!(header.freq, 22050);
    assert_eq!(header.channels, 2);
    assert_eq!(header.bits, 16);
    assert_eq!(header.unk3, 0x0102_0304);
    assert_eq!(header.unk4, 0x3344);
    assert_eq!(header.max_cbfz_size, 0x0a0b_0c0d);
    assert_eq!(header.unk5, 0xffff_fffe);
}

#[test]
fn header_without_the_audio_flag() {
    let input = header_bytes(1, 0x0000);
    let (rest, header) = vqa_header2(&input).unwrap();
    assert!(rest.is_empty());
    assert_eq!(header.version, VQAVersion::One);
    assert!(!header.flags.has_sound());
}

#[test]
fn header_drops_undefined_flag_bits() {
    let input = header_bytes(3, 0xfff3);
    let (_, header) = vqa_header2(&input).unwrap();
    assert_eq!(header.version, VQAVersion::Three);
    assert_eq!(header.flags, VQAFlags { bits: 1 });
}

#[test]
fn header_fails_on_an_empty_buffer() {
    assert_eq!(vqa_header2(b"").err(), Some(ParseError::UnexpectedEof));
}

#[test]
fn header_fails_on_another_tag() {
    let mut input = header_bytes(2, 1);
    input[3] = b'X';
    assert_eq!(vqa_header2(&input).err(), Some(ParseError::MalformedHeader));
}

#[test]
fn header_fails_on_another_size() {
    let mut input = header_bytes(2, 1);
    input[7] = 0x2b;
    assert_eq!(vqa_header2(&input).err(), Some(ParseError::MalformedHeader));
    assert_eq!(
        vqa_header2(b"VQHD\x00\x00").err(),
        Some(ParseError::MalformedHeader)
    );
}

#[test]
fn header_fails_on_an_unknown_version() {
    let input = header_bytes(4, 1);
    assert_eq!(vqa_header2(&input).err(), Some(ParseError::UnknownVersion));
    let input = header_bytes(0, 1);
    assert_eq!(vqa_header2(&input).err(), Some(ParseError::UnknownVersion));
    assert_eq!(
        vqa_header2(&input[..10]).err(),
        Some(ParseError::UnknownVersion)
    );
}

#[test]
fn header_fails_on_a_record_that_is_cut_off() {
    let input = header_bytes(2, 1);
    assert_eq!(input.len(), 50);
    for len in 8..50 {
        assert_eq!(
            vqa_header2(&input[..len]).err(),
            Some(ParseError::UnexpectedEof)
        );
    }
}

#[test]
fn tagged_chunk_takes_the_declared_bytes() {
    let input = chunk_bytes(b"SND2", 3, b"abcdef");
    let (rest, chunk) = parse_tagged_chunk(&input, b"SND2").unwrap();
    assert_eq!(chunk.tag, *b"SND2");
    assert_eq!(chunk.size, 3);
    assert_eq!(chunk.data, b"abc");
    assert_eq!(rest, b"def");
}

#[test]
fn tagged_chunk_borrows_its_payload() {
    let input = chunk_bytes(b"VQFR", 2, b"xyz");
    let (rest, chunk) = parse_tagged_chunk(&input, b"VQFR").unwrap();
    assert!(std::ptr::eq(chunk.data.as_ptr(), input[8..].as_ptr()));
    assert!(std::ptr::eq(rest.as_ptr(), input[10..].as_ptr()));
}

#[test]
fn tagged_chunk_with_an_empty_payload() {
    let input = chunk_bytes(b"SND2", 0, b"");
    let (rest, chunk) = parse_tagged_chunk(&input, b"SND2").unwrap();
    assert_eq!(chunk.size, 0);
    assert!(chunk.data.is_empty());
    assert!(rest.is_empty());
}

#[test]
fn tagged_chunk_fails_where_the_payload_is_cut_off() {
    let input = chunk_bytes(b"SND2", 4, b"abc");
    assert_eq!(
        parse_tagged_chunk(&input, b"SND2").err(),
        Some(ParseError::UnexpectedEof)
    );
}

#[test]
fn tagged_chunk_fails_on_every_kind_of_bad_header() {
    assert_eq!(
        parse_tagged_chunk(b"", b"SND2").err(),
        Some(ParseError::UnexpectedEof)
    );
    assert_eq!(
        parse_tagged_chunk(b"SND3\x00\x00\x00\x00", b"SND2").err(),
        Some(ParseError::MalformedHeader)
    );
    assert_eq!(
        parse_tagged_chunk(b"SND2\x00\x00", b"SND2").err(),
        Some(ParseError::UnexpectedEof)
    );
}

#[test]
fn finf_chunk_reads_little_endian_offsets() {
    let mut payload: Vec<u8> = Vec::new();
    payload.extend_from_slice(&0x0000_0010u32.to_le_bytes());
    payload.extend_from_slice(&0x1234_5678u32.to_le_bytes());
    payload.extend_from_slice(&0xffff_ffffu32.to_le_bytes());
    let mut input = chunk_bytes(b"FINF", 12, &payload);
    input.extend_from_slice(b"tail");
    let (rest, chunk) = finf_chunk(&input).unwrap();
    assert_eq!(chunk.size, 12);
    assert_eq!(chunk.offsets, vec![0x10, 0x1234_5678, 0xffff_ffff]);
    assert_eq!(rest, b"tail");
}

#[test]
fn finf_chunk_passes_over_bytes_that_make_no_offset() {
    let input = chunk_bytes(b"FINF", 6, b"\x01\x00\x00\x00\xaa\xbbtail");
    let (rest, chunk) = finf_chunk(&input).unwrap();
    assert_eq!(chunk.size, 6);
    assert_eq!(chunk.offsets, vec![1]);
    assert_eq!(rest, b"tail");
}

#[test]
fn finf_chunk_without_offsets() {
    let input = chunk_bytes(b"FINF", 0, b"");
    let (rest, chunk) = finf_chunk(&input).unwrap();
    assert!(chunk.offsets.is_empty());
    assert!(rest.is_empty());
}

#[test]
fn finf_chunk_fails() {
    assert_eq!(finf_chunk(b"").err(), Some(ParseError::UnexpectedEof));
    assert_eq!(
        finf_chunk(b"FINE\x00\x00\x00\x00").err(),
        Some(ParseError::MalformedHeader)
    );
    let input = chunk_bytes(b"FINF", 8, b"\x01\x00\x00\x00\x02\x00\x00");
    assert_eq!(finf_chunk(&input).err(), Some(ParseError::UnexpectedEof));
}

#[test]
fn snd2_chunk_takes_its_payload() {
    let input = chunk_bytes(b"SND2", 4, b"\x01\x02\x03\x04VQFR");
    let (rest, chunk) = snd2_chunk(&input).unwrap();
    assert_eq!(chunk.size, 4);
    assert_eq!(chunk.data, [1, 2, 3, 4]);
    assert_eq!(rest, b"VQFR");
}

#[test]
fn snd2_chunk_fails() {
    assert_eq!(snd2_chunk(b"").err(), Some(ParseError::UnexpectedEof));
    assert_eq!(
        snd2_chunk(b"VQFR\x00\x00\x00\x00").err(),
        Some(ParseError::MalformedHeader)
    );
    let input = chunk_bytes(b"SND2", 0x0100, b"\x01\x02");
    assert_eq!(snd2_chunk(&input).err(), Some(ParseError::UnexpectedEof));
}

#[test]
fn vqfr_chunk_takes_its_payload() {
    let input = chunk_bytes(b"VQFR", 1, b"\x09\x08");
    let (rest, chunk) = vqfr_chunk(&input).unwrap();
    assert_eq!(chunk.size, 1);
    assert_eq!(chunk.data, [9]);
    assert_eq!(rest, [8]);
}

#[test]
fn vqfr_chunk_fails() {
    assert_eq!(vqfr_chunk(b"").err(), Some(ParseError::UnexpectedEof));
    assert_eq!(
        vqfr_chunk(b"SND2\x00\x00\x00\x00").err(),
        Some(ParseError::MalformedHeader)
    );
    let input = chunk_bytes(b"VQFR", 2, b"\x01");
    assert_eq!(vqfr_chunk(&input).err(), Some(ParseError::UnexpectedEof));
}

#[test]
fn cbf_chunk_tells_compressed_from_raw() {
    let input = chunk_bytes(b"CBFZ", 2, b"\x01\x02\x03");
    let (rest, chunk) = cbf_chunk(&input).unwrap();
    assert!(chunk.compressed);
    assert_eq!(chunk.size, 2);
    assert_eq!(chunk.data, [1, 2]);
    assert_eq!(rest, [3]);

    let input = chunk_bytes(b"CBF0", 1, b"\x07");
    let (rest, chunk) = cbf_chunk(&input).unwrap();
    assert!(!chunk.compressed);
    assert_eq!(chunk.size, 1);
    assert_eq!(chunk.data, [7]);
    assert!(rest.is_empty());
}

#[test]
fn cbf_chunk_fails() {
    assert_eq!(cbf_chunk(b"").err(), Some(ParseError::UnexpectedEof));
    assert_eq!(
        cbf_chunk(b"CBX0\x00\x00\x00\x00").err(),
        Some(ParseError::MalformedHeader)
    );
    assert_eq!(
        cbf_chunk(b"CBFP\x00\x00\x00\x00").err(),
        Some(ParseError::MalformedHeader)
    );
    assert_eq!(cbf_chunk(b"CBF").err(), Some(ParseError::MalformedHeader));
    assert_eq!(
        cbf_chunk(b"CBFZ\x00\x00").err(),
        Some(ParseError::UnexpectedEof)
    );
    let input = chunk_bytes(b"CBF0", 3, b"\x01\x02");
    assert_eq!(cbf_chunk(&input).err(), Some(ParseError::UnexpectedEof));
}
