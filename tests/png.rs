use imetadata::chunk::{push_be32, read_be32, read_chunk, write_chunk};
use imetadata::png::{
    build_png, correct_pixel_data, decompress_idat_chunks, fixup_png, parse_ios_png,
    unpremultiply_alpha, PngError,
};
use std::io::Write;

const SIGNATURE: [u8; 8] = [0x89, 0x50, 0x4e, 0x47, 0x0d, 0x0a, 0x1a, 0x0a];

fn crc_of(tag: &[u8], data: &[u8]) -> u32 {
    let crc = crc::Crc::<u32>::new(&crc::CRC_32_ISO_HDLC);
    let mut all = tag.to_vec();
    all.extend_from_slice(data);
    crc.checksum(&all)
}

fn chunk(tag: &[u8; 4], data: &[u8]) -> Vec<u8> {
    let mut out = (data.len() as u32).to_be_bytes().to_vec();
    out.extend_from_slice(tag);
    out.extend_from_slice(data);
    out.extend_from_slice(&crc_of(tag, data).to_be_bytes());
    out
}

fn zlib(data: &[u8]) -> Vec<u8> {
    let mut e = flate2::write::ZlibEncoder::new(Vec::new(), flate2::Compression::default());
    e.write_all(data).unwrap();
    e.finish().unwrap()
}

fn unzlib(data: &[u8]) -> Vec<u8> {
    inflate::inflate_bytes_zlib(data).unwrap()
}

fn header_data(w: u32, h: u32) -> Vec<u8> {
    let mut d = w.to_be_bytes().to_vec();
    d.extend_from_slice(&h.to_be_bytes());
    d
}

/// Signature, header with `header`, marker, the given IDAT chunks, terminal chunk.
fn cgbi_file(header: &[u8], idats: &[Vec<u8>]) -> Vec<u8> {
    let mut s = SIGNATURE.to_vec();
    s.extend(chunk(b"IHDR", header));
    s.extend(chunk(b"CgBI", &[]));
    for d in idats {
        s.extend(chunk(b"IDAT", d));
    }
    s.extend(chunk(b"IEND", &[]));
    s
}

struct Rec {
    tag: [u8; 4],
    data: Vec<u8>,
    crc: u32,
}

fn records(out: &[u8]) -> Vec<Rec> {
    assert_eq!(&out[..8], &SIGNATURE);
    let mut pos = 8;
    let mut v = Vec::new();
    while pos < out.len() {
        let len = u32::from_be_bytes(out[pos..pos + 4].try_into().unwrap()) as usize;
        let tag: [u8; 4] = out[pos + 4..pos + 8].try_into().unwrap();
        let data = out[pos + 8..pos + 8 + len].to_vec();
        let crc = u32::from_be_bytes(out[pos + 8 + len..pos + 12 + len].try_into().unwrap());
        v.push(Rec { tag, data, crc });
        pos += 12 + len;
    }
    assert_eq!(pos, out.len());
    v
}

fn pattern_pixels() -> Vec<u8> {
    let mut p = Vec::new();
    for _ in 0..8 {
        p.extend_from_slice(&[0xFF, 0x00, 0x00, 0xFF]);
    }
    p
}

#[test]
fn scenario_four_by_two() {
    let pixels = pattern_pixels();
    assert_eq!(pixels.len(), 32);
    let input = cgbi_file(&header_data(4, 2), &[zlib(&pixels)]);
    let out = fixup_png(&input).unwrap();
    let recs = records(&out);
    assert_eq!(recs.len(), 3);
    assert_eq!(&recs[0].tag, b"IHDR");
    assert_eq!(recs[0].data, vec![0, 0, 0, 4, 0, 0, 0, 2, 8, 6, 0, 0, 0]);
    assert_eq!(&recs[1].tag, b"IDAT");
    assert_eq!(unzlib(&recs[1].data), pixels);
    assert_eq!(&recs[2].tag, b"IEND");
    assert!(recs[2].data.is_empty());
}

#[test]
fn output_is_framed() {
    let input = cgbi_file(&header_data(1, 1), &[zlib(&[1, 2, 3, 4])]);
    let out = fixup_png(&input).unwrap();
    assert_eq!(&out[..8], &SIGNATURE);
    assert_eq!(&out[out.len() - 12..], &[0, 0, 0, 0, 0x49, 0x45, 0x4e, 0x44, 0xae, 0x42, 0x60, 0x82]);
}

#[test]
fn missing_marker_is_refused() {
    let mut s = SIGNATURE.to_vec();
    s.extend(chunk(b"IHDR", &header_data(1, 1)));
    s.extend(chunk(b"IDAT", &zlib(&[0, 0, 0, 0])));
    s.extend(chunk(b"IEND", &[]));
    assert!(matches!(fixup_png(&s), Err(PngError::NotCgBI)));
}

#[test]
fn marker_after_terminal_is_not_seen() {
    let mut s = SIGNATURE.to_vec();
    s.extend(chunk(b"IHDR", &header_data(1, 1)));
    s.extend(chunk(b"IEND", &[]));
    s.extend(chunk(b"CgBI", &[]));
    assert!(matches!(fixup_png(&s), Err(PngError::NotCgBI)));
}

#[test]
fn bad_signature_is_refused() {
    let mut s = cgbi_file(&header_data(1, 1), &[zlib(&[0, 0, 0, 0])]);
    s[1] = b'Q';
    assert!(matches!(fixup_png(&s), Err(PngError::NotPng)));
    assert!(matches!(fixup_png(&[0x89, 0x50, 0x4e]), Err(PngError::NotPng)));
    assert!(matches!(fixup_png(&[]), Err(PngError::NotPng)));
}

#[test]
fn round_trip_over_split_payload() {
    let pixels: Vec<u8> = (0..3 * 5 * 4).map(|i| (i * 7 % 256) as u8).collect();
    let z = zlib(&pixels);
    let (a, b) = z.split_at(z.len() / 2);
    let input = cgbi_file(&header_data(3, 5), &[a.to_vec(), b.to_vec()]);
    let out = fixup_png(&input).unwrap();
    let recs = records(&out);
    let idats: Vec<&Rec> = recs.iter().filter(|r| &r.tag == b"IDAT").collect();
    assert_eq!(idats.len(), 1);
    assert_eq!(unzlib(&idats[0].data), pixels);
    assert_eq!(recs[0].data, vec![0, 0, 0, 3, 0, 0, 0, 5, 8, 6, 0, 0, 0]);
}

#[test]
fn ancillary_chunks_are_dropped() {
    let mut s = SIGNATURE.to_vec();
    s.extend(chunk(b"IHDR", &header_data(2, 1)));
    s.extend(chunk(b"CgBI", &[0x50, 0x00, 0x20, 0x06]));
    s.extend(chunk(b"tEXt", b"hello"));
    s.extend(chunk(b"IDAT", &zlib(&[9; 8])));
    s.extend(chunk(b"IEND", &[]));
    let recs = records(&fixup_png(&s).unwrap());
    let tags: Vec<[u8; 4]> = recs.iter().map(|r| r.tag).collect();
    assert_eq!(tags, vec![*b"IHDR", *b"IDAT", *b"IEND"]);
}

#[test]
fn checksums_are_fresh_and_detect_corruption() {
    let mut input = cgbi_file(&header_data(4, 2), &[zlib(&pattern_pixels())]);
    // A wrong checksum in the input is not copied.
    let n = input.len();
    input[n - 1] ^= 0xff;
    let out = fixup_png(&input).unwrap();
    for r in records(&out) {
        assert_eq!(r.crc, crc_of(&r.tag, &r.data));
        if !r.data.is_empty() {
            let mut bad = r.data.clone();
            bad[0] ^= 0x01;
            assert_ne!(r.crc, crc_of(&r.tag, &bad));
        }
    }
}

#[test]
fn truncated_chunk_data_fails() {
    let input = cgbi_file(&header_data(4, 2), &[zlib(&pattern_pixels())]);
    // Header data ends at 8 + 8 + 8; cut one byte short of it.
    assert!(matches!(fixup_png(&input[..23]), Err(PngError::Truncated)));
    // Cut inside the IDAT chunk's data.
    let idat_start = 8 + 20 + 12;
    let idat_len = u32::from_be_bytes(input[idat_start..idat_start + 4].try_into().unwrap()) as usize;
    let cut = idat_start + 8 + idat_len - 1;
    assert!(matches!(fixup_png(&input[..cut]), Err(PngError::Truncated)));
    // Missing checksum bytes.
    assert!(matches!(fixup_png(&input[..input.len() - 2]), Err(PngError::Truncated)));
}

#[test]
fn length_field_past_end_fails() {
    let mut s = SIGNATURE.to_vec();
    s.extend(chunk(b"CgBI", &[]));
    s.extend_from_slice(&[0xff, 0xff, 0xff, 0xff, b'I', b'D', b'A', b'T', 1, 2, 3]);
    assert!(matches!(fixup_png(&s), Err(PngError::Truncated)));
}

#[test]
fn short_header_fails() {
    let input = cgbi_file(&[0, 0, 0, 4], &[zlib(&[0; 4])]);
    assert!(matches!(fixup_png(&input), Err(PngError::Truncated)));
}

#[test]
fn stream_may_end_without_terminal() {
    let mut s = SIGNATURE.to_vec();
    s.extend(chunk(b"IHDR", &header_data(1, 1)));
    s.extend(chunk(b"CgBI", &[]));
    s.extend(chunk(b"IDAT", &zlib(&[5, 6, 7, 8])));
    let recs = records(&fixup_png(&s).unwrap());
    assert_eq!(unzlib(&recs[1].data), vec![5, 6, 7, 8]);
}

#[test]
fn bad_payload_is_a_decoding_error() {
    let input = cgbi_file(&header_data(1, 1), &[vec![1, 2, 3, 4, 5]]);
    assert!(matches!(fixup_png(&input), Err(PngError::PngDecodingError(_))));
}

#[test]
fn parse_returns_geometry_and_pixels() {
    let pixels = pattern_pixels();
    let input = cgbi_file(&header_data(4, 2), &[zlib(&pixels)]);
    let ((w, h), px) = parse_ios_png(&input).unwrap();
    assert_eq!((w, h), (4, 2));
    assert_eq!(px, pixels);
}

#[test]
fn decompress_known_stream() {
    let encoded = [120, 156, 243, 72, 205, 201, 201, 215, 81, 168, 202, 201, 76, 82, 4, 0, 27, 101, 4, 19];
    assert_eq!(decompress_idat_chunks(&encoded).unwrap(), b"Hello, zlib!".to_vec());
}

#[test]
fn build_png_compresses_pixels() {
    let pixels = vec![7u8; 64];
    let out = build_png((2, 8), &pixels).unwrap();
    let recs = records(&out);
    assert_ne!(recs[1].data, pixels);
    assert_eq!(unzlib(&recs[1].data), pixels);
    assert_eq!(recs[0].data, vec![0, 0, 0, 2, 0, 0, 0, 8, 8, 6, 0, 0, 0]);
}

#[test]
fn terminal_chunk_bytes() {
    let mut out = vec![1u8];
    write_chunk(&mut out, b"IEND", &[]).unwrap();
    assert_eq!(out, vec![1, 0, 0, 0, 0, 0x49, 0x45, 0x4e, 0x44, 0xae, 0x42, 0x60, 0x82]);
}

#[test]
fn big_endian_helpers() {
    let mut v = Vec::new();
    push_be32(&mut v, 0x0102_0304);
    assert_eq!(v, vec![1, 2, 3, 4]);
    assert_eq!(read_be32(&[9, 0xde, 0xad, 0xbe, 0xef], 1), 0xdead_beef);
}

#[test]
fn read_chunk_reports_truncation() {
    let c = chunk(b"tEXt", b"abc");
    let (ch, next) = read_chunk(&c, 0).unwrap();
    assert_eq!(ch.length, 3);
    assert_eq!(&ch.chunk_type, b"tEXt");
    assert_eq!(ch.data, b"abc".to_vec());
    assert_eq!(next, c.len());
    assert!(matches!(read_chunk(&c[..c.len() - 1], 0), Err(PngError::Truncated)));
    assert!(matches!(read_chunk(&c[..5], 0), Err(PngError::Truncated)));
}

#[test]
fn unpremultiply_values() {
    let mut d = vec![100, 50, 0, 128, 200, 10, 3, 100, 9, 8, 7, 0, 1, 2];
    unpremultiply_alpha(&mut d);
    assert_eq!(d, vec![199, 99, 0, 128, 255, 25, 7, 100, 9, 8, 7, 0, 1, 2]);
}

#[test]
fn pixel_correction_keeps_pixels() {
    let p = pattern_pixels();
    assert_eq!(correct_pixel_data(p.clone(), 4, 2), p);
}
