use std::cell::Cell;

use webp_demux::container::{
    chunk_size, read_le_u32, tagged_chunk, webp_body, webp_file, ImageData, Span, WebpError,
    TAG_VP8, TAG_VP8L,
};
use webp_demux::decoder::{ColorType, WebpDecoder};
use webp_demux::frame::Frame;

fn le(v: u32) -> Vec<u8> {
    v.to_le_bytes().to_vec()
}

fn chunk(tag: &[u8; 4], body: &[u8]) -> Vec<u8> {
    let mut out = tag.to_vec();
    out.extend(le(body.len() as u32));
    out.extend_from_slice(body);
    if body.len() % 2 == 1 {
        out.push(0);
    }
    out
}

fn container(form: &[u8]) -> Vec<u8> {
    let mut out = b"RIFF".to_vec();
    out.extend(le(form.len() as u32 + 4));
    out.extend_from_slice(b"WEBP");
    out.extend_from_slice(form);
    out
}

fn concat(parts: &[Vec<u8>]) -> Vec<u8> {
    parts.iter().flatten().copied().collect()
}

fn bytes_of(data: &[u8], s: Span) -> &[u8] {
    &data[s.start..s.end]
}

/// A stand-in bitstream decoder: a 3x2 frame whose pixels are 1..=6.
fn three_by_two(_: Vec<u8>) -> Result<Frame, WebpError> {
    Ok(Frame::new(3, 2, vec![1, 2, 3, 4, 5, 6]).unwrap())
}

#[test]
fn le_u32_reads_little_endian() {
    assert_eq!(read_le_u32(&[0x78, 0x56, 0x34, 0x12, 0xff], 0), 0x1234_5678);
    assert_eq!(read_le_u32(&[0, 0xff, 0xff, 0xff, 0xff], 1), 0xffff_ffff);
    assert_eq!(read_le_u32(b"VP8 ", 0), TAG_VP8);
    assert_eq!(read_le_u32(b"VP8L", 0), TAG_VP8L);
}

#[test]
fn even_chunk_consumes_no_padding() {
    let mut data = le(4);
    data.extend_from_slice(&[9, 8, 7, 6, 0xAA]);
    let (body, next) = chunk_size(&data, 0, data.len()).unwrap();
    assert_eq!(body, Span { start: 4, end: 8 });
    assert_eq!(next, 8);
    assert_eq!(bytes_of(&data, body), &[9, 8, 7, 6]);
}

#[test]
fn odd_chunk_consumes_one_padding_byte() {
    let mut data = le(3);
    data.extend_from_slice(&[9, 8, 7, 0xEE, 0xAA]);
    let (body, next) = chunk_size(&data, 0, data.len()).unwrap();
    assert_eq!(body, Span { start: 4, end: 7 });
    assert_eq!(next, 8);
    assert_eq!(bytes_of(&data, body), &[9, 8, 7]);
}

#[test]
fn odd_chunk_without_padding_byte_is_truncated() {
    let mut data = le(3);
    data.extend_from_slice(&[9, 8, 7]);
    assert_eq!(chunk_size(&data, 0, data.len()), Err(WebpError::Truncated));
}

#[test]
fn short_length_field_is_truncated() {
    assert_eq!(chunk_size(&[1, 0, 0], 0, 3), Err(WebpError::Truncated));
}

#[test]
fn tag_mismatch_consumes_nothing() {
    let data = chunk(b"VP8L", &[1, 2]);
    assert_eq!(tagged_chunk(&data, 0, data.len(), TAG_VP8), Err(WebpError::TagMismatch));
    assert_eq!(
        tagged_chunk(&data, 0, data.len(), TAG_VP8L),
        Ok((Span { start: 8, end: 10 }, 10))
    );
}

#[test]
fn simple_lossy_round_trips() {
    let payload = [10u8, 20, 30, 40, 50, 60];
    let data = container(&chunk(b"VP8 ", &payload));
    match webp_file(&data) {
        Ok(ImageData::Lossy(s)) => {
            assert_eq!(s, Span { start: 20, end: 26 });
            assert_eq!(bytes_of(&data, s), &payload);
        }
        other => panic!("unexpected {:?}", other),
    }
}

#[test]
fn simple_lossless_is_recognised() {
    let data = container(&chunk(b"VP8L", &[1, 2, 3]));
    match webp_file(&data) {
        Ok(ImageData::Lossless(s)) => assert_eq!(bytes_of(&data, s), &[1, 2, 3]),
        other => panic!("unexpected {:?}", other),
    }
}

#[test]
fn alpha_and_color_come_in_order() {
    let alpha = [7u8, 7, 7];
    let color = [1u8, 2, 3, 4];
    let form = concat(&[chunk(b"VP8X", &[0; 10]), chunk(b"ALPH", &alpha), chunk(b"VP8 ", &color)]);
    let data = container(&form);
    match webp_file(&data) {
        Ok(ImageData::LossyWithAlpha(c, a)) => {
            assert_eq!(bytes_of(&data, c), &color);
            assert_eq!(bytes_of(&data, a), &alpha);
        }
        other => panic!("unexpected {:?}", other),
    }
}

#[test]
fn extended_with_all_optional_chunks() {
    let form = concat(&[
        chunk(b"VP8X", &[0; 10]),
        chunk(b"ICCP", &[1, 2, 3]),
        chunk(b"VP8 ", &[5, 6]),
        chunk(b"EXIF", &[8]),
        chunk(b"XMP ", &[9, 9]),
    ]);
    let data = container(&form);
    match webp_file(&data) {
        Ok(ImageData::Lossy(s)) => assert_eq!(bytes_of(&data, s), &[5, 6]),
        other => panic!("unexpected {:?}", other),
    }
}

#[test]
fn extended_with_only_xmp_after_payload() {
    let form = concat(&[chunk(b"VP8X", &[0; 10]), chunk(b"VP8 ", &[5, 6]), chunk(b"XMP ", &[1])]);
    let data = container(&form);
    assert!(matches!(webp_file(&data), Ok(ImageData::Lossy(_))));
}

#[test]
fn extended_lossless_is_unsupported_for_pixels() {
    let form = concat(&[chunk(b"VP8X", &[0; 10]), chunk(b"VP8L", &[1, 2, 3, 4])]);
    let data = container(&form);
    match webp_file(&data) {
        Ok(ImageData::Lossless(s)) => assert_eq!(bytes_of(&data, s), &[1, 2, 3, 4]),
        other => panic!("unexpected {:?}", other),
    }
    let mut dec = WebpDecoder::new(data, three_by_two);
    assert_eq!(dec.read_image(), Err(WebpError::UnsupportedFeature));
    let mut row = Vec::new();
    assert_eq!(dec.read_scanline(&mut row), Err(WebpError::UnsupportedFeature));
    assert_eq!(dec.dimensions(), Err(WebpError::UnsupportedFeature));
}

#[test]
fn chunk_one_byte_short_is_truncated() {
    let mut form = b"VP8 ".to_vec();
    form.extend(le(6));
    form.extend_from_slice(&[1, 2, 3, 4, 5]);
    assert_eq!(webp_file(&container(&form)), Err(WebpError::Truncated));
}

#[test]
fn file_cut_short_is_truncated() {
    let data = container(&chunk(b"VP8 ", &[1, 2, 3, 4]));
    assert_eq!(webp_file(&data[..data.len() - 1]), Err(WebpError::Truncated));
}

#[test]
fn scanlines_in_order_then_end_of_image() {
    let data = container(&chunk(b"VP8 ", &[0, 0]));
    let mut dec = WebpDecoder::new(data, three_by_two);
    let mut row = Vec::new();
    assert_eq!(dec.read_scanline(&mut row), Ok(1));
    assert_eq!(row, vec![1, 2, 3]);
    assert_eq!(dec.read_scanline(&mut row), Ok(2));
    assert_eq!(row, vec![4, 5, 6]);
    assert_eq!(dec.read_scanline(&mut row), Err(WebpError::EndOfImage));
    assert_eq!(row, vec![4, 5, 6]);
}

#[test]
fn exif_after_xmp_is_unrecognised() {
    let form = concat(&[
        chunk(b"VP8X", &[0; 10]),
        chunk(b"VP8 ", &[5, 6]),
        chunk(b"XMP ", &[1]),
        chunk(b"EXIF", &[2]),
    ]);
    assert_eq!(webp_file(&container(&form)), Err(WebpError::UnrecognizedContainer));
}

#[test]
fn missing_riff_is_a_format_error() {
    let mut data = container(&chunk(b"VP8 ", &[1, 2]));
    data[0] = b'X';
    assert_eq!(webp_file(&data), Err(WebpError::FormatError));
    assert_eq!(webp_file(b"RIF"), Err(WebpError::Truncated));
    assert_eq!(webp_file(b""), Err(WebpError::Truncated));
}

#[test]
fn form_not_webp_is_a_format_error() {
    let mut data = container(&chunk(b"VP8 ", &[1, 2]));
    data[8..12].copy_from_slice(b"AVIF");
    assert_eq!(webp_file(&data), Err(WebpError::FormatError));
}

#[test]
fn form_length_beyond_input_is_truncated() {
    let mut data = container(&chunk(b"VP8 ", &[1, 2]));
    data[4] = data[4] + 1;
    assert_eq!(webp_file(&data), Err(WebpError::Truncated));
}

#[test]
fn bytes_after_the_form_are_ignored() {
    let mut data = container(&concat(&[chunk(b"VP8X", &[0; 10]), chunk(b"VP8 ", &[5, 6])]));
    data.extend_from_slice(b"EXIF garbage");
    match webp_file(&data) {
        Ok(ImageData::Lossy(s)) => assert_eq!(bytes_of(&data, s), &[5, 6]),
        other => panic!("unexpected {:?}", other),
    }
}

#[test]
fn unknown_first_chunk_is_unrecognised() {
    let data = container(&chunk(b"ANIM", &[0; 6]));
    assert_eq!(webp_file(&data), Err(WebpError::UnrecognizedContainer));
}

#[test]
fn extended_without_payload_is_missing_payload() {
    let form = concat(&[chunk(b"VP8X", &[0; 10]), chunk(b"ANMF", &[0; 4])]);
    assert_eq!(webp_file(&container(&form)), Err(WebpError::MissingPayload));
}

#[test]
fn alph_without_vp8_is_missing_payload() {
    let form = concat(&[chunk(b"VP8X", &[0; 10]), chunk(b"ALPH", &[1]), chunk(b"VP8L", &[2])]);
    assert_eq!(webp_file(&container(&form)), Err(WebpError::MissingPayload));
}

#[test]
fn form_body_too_short_for_a_tag_is_truncated() {
    let data = container(&[b'V', b'P']);
    assert_eq!(webp_file(&data), Err(WebpError::Truncated));
    assert_eq!(webp_body(&data, 12, data.len()), Err(WebpError::Truncated));
}

#[test]
fn decoder_sees_color_bytes_and_parses_once() {
    let calls = Cell::new(0u32);
    let seen = Cell::new(Vec::new());
    let form = concat(&[chunk(b"VP8X", &[0; 10]), chunk(b"ALPH", &[7, 7]), chunk(b"VP8 ", &[1, 2, 3])]);
    let mut dec = WebpDecoder::new(container(&form), |v: Vec<u8>| {
        calls.set(calls.get() + 1);
        seen.set(v);
        Frame::new(2, 1, vec![40, 41]).ok_or(WebpError::DecodeFailed)
    });
    assert_eq!(dec.dimensions(), Ok((2, 1)));
    assert_eq!(dec.row_len(), Ok(2));
    assert_eq!(dec.colortype(), Ok(ColorType::Gray(8)));
    assert_eq!(dec.read_image(), Ok(vec![40, 41]));
    let mut row = Vec::new();
    assert_eq!(dec.read_scanline(&mut row), Ok(1));
    assert_eq!(row, vec![40, 41]);
    assert_eq!(dec.read_image(), Ok(vec![40, 41]));
    assert_eq!(calls.get(), 1);
    assert_eq!(seen.take(), vec![1, 2, 3]);
}

#[test]
fn decoder_error_is_returned_as_is() {
    let data = container(&chunk(b"VP8 ", &[1, 2]));
    let mut dec = WebpDecoder::new(data, |_: Vec<u8>| Err(WebpError::DecodeFailed));
    assert_eq!(dec.dimensions(), Err(WebpError::DecodeFailed));
    assert_eq!(dec.read_image(), Err(WebpError::DecodeFailed));
}

#[test]
fn container_error_reaches_every_accessor() {
    let mut dec = WebpDecoder::new(b"RIFX0000".to_vec(), three_by_two);
    assert_eq!(dec.row_len(), Err(WebpError::FormatError));
    assert_eq!(dec.colortype(), Err(WebpError::FormatError));
}

#[test]
fn frame_size_must_match_buffer() {
    assert!(Frame::new(2, 2, vec![0; 3]).is_none());
    assert!(Frame::new(0, 5, vec![]).is_some());
    let f = Frame::new(2, 2, vec![1, 2, 3, 4]).unwrap();
    assert_eq!((f.width(), f.height()), (2, 2));
    assert_eq!(f.row(1), vec![3, 4]);
    assert_eq!(f.pixels(), &vec![1, 2, 3, 4]);
    let e = Frame::empty();
    assert_eq!((e.width(), e.height(), e.pixels().len()), (0, 0, 0));
}
