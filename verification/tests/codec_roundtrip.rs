//! Tests of the image codec: checksums, the round trip through this
//! crate's own decoder, and decodability by an independent PNG reader.

use cathedral_forge::canvas::Canvas;
use cathedral_forge::checksum::{adler32, crc32};
use cathedral_forge::codec::{decode, encode};
use cathedral_forge::errors::EncodingError;
use cathedral_forge::facade::{make_merkaba, make_sigil, make_stone};

fn sample_canvas(w: u32, h: u32, ch: u32) -> Canvas {
    let mut c = Canvas::create(w, h, ch).unwrap();
    for i in 0..c.data.len() {
        c.data[i] = (i * 37 + 11) as u8;
    }
    c
}

#[test]
fn crc32_agrees_with_independent_implementation() {
    for sample in [&b""[..], &b"IEND"[..], &b"The dragon dreams the egg"[..]] {
        let v = sample.to_vec();
        let mut h = crc32fast::Hasher::new();
        h.update(sample);
        assert_eq!(crc32(&v), h.finalize());
    }
}

#[test]
fn adler32_matches_known_vector() {
    // The classical check value of the string "Wikipedia".
    let v = b"Wikipedia".to_vec();
    assert_eq!(adler32(&v), 0x11E60398);
}

#[test]
fn encode_rejects_bad_canvases() {
    let c = Canvas { width: 0, height: 4, channels: 4, data: Vec::new() };
    assert_eq!(encode(&c).err(), Some(EncodingError::ZeroDimension));
    let c2 = Canvas { width: 2, height: 2, channels: 3, data: vec![0; 12] };
    assert_eq!(encode(&c2).err(), Some(EncodingError::UnsupportedChannels));
}

#[test]
fn round_trip_preserves_every_pixel() {
    for (w, h, ch) in [(3u32, 2u32, 4u32), (1, 1, 1), (7, 5, 1), (16, 16, 4)] {
        let c = sample_canvas(w, h, ch);
        let img = encode(&c).unwrap();
        let back = decode(&img.bytes).expect("own stream must decode");
        assert_eq!(back.width, w);
        assert_eq!(back.height, h);
        assert_eq!(back.channels, ch);
        assert_eq!(back.data, c.data);
    }
}

#[test]
fn corrupt_streams_are_rejected() {
    let c = sample_canvas(4, 4, 4);
    let img = encode(&c).unwrap();
    // A flipped pixel byte breaks a checksum.
    let mut bad = img.bytes.clone();
    let mid = bad.len() / 2;
    bad[mid] ^= 0xFF;
    assert!(decode(&bad).is_none());
    // A truncated stream is rejected.
    let mut short = img.bytes.clone();
    short.pop();
    assert!(decode(&short).is_none());
    // A wrong signature is rejected.
    let mut sig = img.bytes.clone();
    sig[0] = 0;
    assert!(decode(&sig).is_none());
}

#[test]
fn external_reader_decodes_rgba_output() {
    let img = make_sigil("The dragon dreams the egg", "Leonora Carrington").unwrap();
    let decoder = png::Decoder::new(&img.bytes[..]);
    let mut reader = decoder.read_info().expect("conformant PNG");
    let mut buf = vec![0u8; reader.output_buffer_size()];
    let info = reader.next_frame(&mut buf).expect("frame decodes");
    assert_eq!(info.width, 512);
    assert_eq!(info.height, 512);
    assert_eq!(info.color_type, png::ColorType::Rgba);
    assert_eq!(info.bit_depth, png::BitDepth::Eight);
    // Lossless: the reader returns the exact source pixels.
    let own = decode(&img.bytes).unwrap();
    assert_eq!(&buf[..info.buffer_size()], &own.data[..]);
}

#[test]
fn external_reader_decodes_grayscale_output() {
    let img = make_stone(48, 5).unwrap();
    let decoder = png::Decoder::new(&img.bytes[..]);
    let mut reader = decoder.read_info().expect("conformant PNG");
    let mut buf = vec![0u8; reader.output_buffer_size()];
    let info = reader.next_frame(&mut buf).expect("frame decodes");
    assert_eq!(info.width, 96);
    assert_eq!(info.height, 96);
    assert_eq!(info.color_type, png::ColorType::Grayscale);
    let own = decode(&img.bytes).unwrap();
    assert_eq!(&buf[..info.buffer_size()], &own.data[..]);
}

#[test]
fn external_reader_decodes_merkaba_output() {
    let img = make_merkaba(40, 12).unwrap();
    let decoder = png::Decoder::new(&img.bytes[..]);
    let mut reader = decoder.read_info().expect("conformant PNG");
    let mut buf = vec![0u8; reader.output_buffer_size()];
    let info = reader.next_frame(&mut buf).expect("frame decodes");
    assert_eq!(info.width, 80);
    assert_eq!(info.height, 80);
}

#[test]
fn large_streams_split_into_multiple_stored_blocks() {
    // 512 x 512 RGBA filtered data is over a megabyte: several stored
    // blocks, still decodable by both readers.
    let img = make_sigil("abc", "x").unwrap();
    assert!(img.bytes.len() > 1_000_000);
    let own = decode(&img.bytes).unwrap();
    assert_eq!(own.width, 512);
    let decoder = png::Decoder::new(&img.bytes[..]);
    let mut reader = decoder.read_info().expect("conformant PNG");
    let mut buf = vec![0u8; reader.output_buffer_size()];
    let info = reader.next_frame(&mut buf).expect("frame decodes");
    assert_eq!(info.width, 512);
    assert_eq!(&buf[..info.buffer_size()], &own.data[..]);
}
