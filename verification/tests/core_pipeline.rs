//! End-to-end tests of the generation core: digests, canvases, the four
//! generators and the asset pipeline.

use cathedral_forge::canvas::Canvas;
use cathedral_forge::canvas::Rgba;
use cathedral_forge::codec::decode;
use cathedral_forge::digest::{sha256, SeedDigest};
use cathedral_forge::errors::{AssetError, ValidationError};
use cathedral_forge::facade::{make_gold, make_merkaba, make_sigil, make_stone};
use cathedral_forge::gold::generate_gold;
use cathedral_forge::sigil::sigil_circles;
use cathedral_forge::stone::generate_stone;

#[test]
fn sha256_matches_known_vector() {
    let d = sha256("abc");
    let expect: [u8; 32] = [
        0xba, 0x78, 0x16, 0xbf, 0x8f, 0x01, 0xcf, 0xea, 0x41, 0x41, 0x40, 0xde, 0x5d, 0xae, 0x22,
        0x23, 0xb0, 0x03, 0x61, 0xa3, 0x96, 0x17, 0x7a, 0x9c, 0xb4, 0x10, 0xff, 0x61, 0xf2, 0x00,
        0x15, 0xad,
    ];
    assert_eq!(d.as_slice(), &expect);
}

#[test]
fn digest_is_64_bytes_and_concatenates_parts() {
    let a = SeedDigest::of_text("abcx");
    assert_eq!(a.bytes.len(), 64);
    let b = SeedDigest::of_parts(&vec!["abc".to_string(), "x".to_string()]);
    assert_eq!(a.bytes, b.bytes);
    let c = SeedDigest::of_text("abcy");
    assert_ne!(a.bytes, c.bytes);
}

#[test]
fn create_rejects_degenerate_canvases() {
    assert_eq!(
        Canvas::create(0, 64, 4).err(),
        Some(ValidationError::ZeroDimension)
    );
    assert_eq!(
        Canvas::create(64, 0, 1).err(),
        Some(ValidationError::ZeroDimension)
    );
    assert_eq!(
        Canvas::create(64, 64, 3).err(),
        Some(ValidationError::UnsupportedChannels)
    );
    assert_eq!(
        Canvas::create(9000, 64, 4).err(),
        Some(ValidationError::OversizedCanvas)
    );
    assert!(Canvas::create(64, 64, 4).is_ok());
}

#[test]
fn set_pixel_out_of_bounds_is_a_no_op() {
    let mut c = Canvas::create(4, 4, 4).unwrap();
    let before = c.data.clone();
    c.set_pixel(4, 0, Rgba { r: 9, g: 9, b: 9, a: 9 });
    c.set_pixel(0, 17, Rgba { r: 9, g: 9, b: 9, a: 9 });
    assert_eq!(c.data, before);
    c.set_pixel(1, 2, Rgba { r: 1, g: 2, b: 3, a: 4 });
    let idx = ((2 * 4 + 1) * 4) as usize;
    assert_eq!(&c.data[idx..idx + 4], &[1, 2, 3, 4]);
}

#[test]
fn draw_circle_fills_exactly_the_disc() {
    let mut c = Canvas::create(9, 9, 4).unwrap();
    c.draw_circle(4, 4, 2, Rgba { r: 255, g: 0, b: 0, a: 255 });
    for y in 0i64..9 {
        for x in 0i64..9 {
            let idx = ((y * 9 + x) * 4) as usize;
            let inside = (x - 4) * (x - 4) + (y - 4) * (y - 4) <= 4;
            assert_eq!(c.data[idx] == 255, inside, "pixel ({x},{y})");
        }
    }
}

#[test]
fn sigil_scenario_draws_22_circles_and_decodes_to_512_rgba() {
    let digest = SeedDigest::of_text("abcx");
    let circles = sigil_circles(&digest, 512, 512);
    assert_eq!(circles.len(), 22);
    for c in circles.iter() {
        assert!(20 <= c.x && c.x <= 512 - 20);
        assert!(20 <= c.y && c.y <= 512 - 20);
        assert!(5 <= c.r && c.r <= 25);
    }

    let img = make_sigil("abc", "x").unwrap();
    let back = decode(&img.bytes).expect("the encoded sigil must decode");
    assert_eq!(back.width, 512);
    assert_eq!(back.height, 512);
    assert_eq!(back.channels, 4);

    // Re-running with the same inputs yields byte-identical output.
    let again = make_sigil("abc", "x").unwrap();
    assert_eq!(img.bytes, again.bytes);
}

#[test]
fn sigil_requires_text_and_archetype() {
    assert_eq!(
        make_sigil("", "x").err(),
        Some(AssetError::Validation(ValidationError::MissingParameter))
    );
    assert_eq!(
        make_sigil("abc", "").err(),
        Some(AssetError::Validation(ValidationError::MissingParameter))
    );
}

#[test]
fn gold_scenario_single_seed_point() {
    let mut c = Canvas::create(10, 10, 4).unwrap();
    let pts = vec![(5u32, 5u32)];
    generate_gold(&mut c, &pts).unwrap();
    let at = |x: usize, y: usize| c.data[(y * 10 + x) * 4] as u32;
    // The seed point itself has the maximum intensity.
    assert_eq!(at(5, 5), 255);
    // Intensity is non-increasing as the distance from (5, 5) grows.
    assert!(at(5, 5) >= at(6, 5));
    assert!(at(6, 5) >= at(7, 5));
    assert!(at(7, 5) >= at(8, 5));
    assert!(at(8, 5) >= at(9, 5));
    assert!(at(5, 5) >= at(5, 8));
    assert!(at(6, 6) >= at(8, 8));
    // The gold tint: green carries 91% and blue 30% of the intensity.
    let idx = (5 * 10 + 5) * 4;
    assert_eq!(c.data[idx + 1], (255 * 91 / 100) as u8);
    assert_eq!(c.data[idx + 2], (255 * 30 / 100) as u8);
    assert_eq!(c.data[idx + 3], 255);
}

#[test]
fn gold_rejects_empty_point_lists() {
    let mut c = Canvas::create(10, 10, 4).unwrap();
    let empty: Vec<(u32, u32)> = Vec::new();
    assert_eq!(generate_gold(&mut c, &empty).err(), Some(ValidationError::NoSeedPoints));
}

#[test]
fn gold_facade_is_deterministic() {
    let a = make_gold("fool", 64).unwrap();
    let b = make_gold("fool", 64).unwrap();
    assert_eq!(a.bytes, b.bytes);
    assert_eq!(a.width, 64);
    let other = make_gold("magus", 64).unwrap();
    assert_ne!(a.bytes, other.bytes);
}

#[test]
fn gold_rejects_degenerate_sizes() {
    assert_eq!(
        make_gold("fool", 0).err(),
        Some(AssetError::Validation(ValidationError::ZeroDimension))
    );
    assert_eq!(
        make_gold("fool", 9000).err(),
        Some(AssetError::Validation(ValidationError::OversizedCanvas))
    );
}

#[test]
fn merkaba_scenario_zero_frequency_is_rejected() {
    assert_eq!(
        make_merkaba(64, 0).err(),
        Some(AssetError::Validation(ValidationError::ZeroFrequency))
    );
    assert_eq!(
        make_merkaba(0, 16).err(),
        Some(AssetError::Validation(ValidationError::ZeroDimension))
    );
}

#[test]
fn merkaba_generates_and_is_deterministic() {
    let a = make_merkaba(32, 16).unwrap();
    let b = make_merkaba(32, 16).unwrap();
    assert_eq!(a.bytes, b.bytes);
    assert_eq!(a.width, 64);
    let back = decode(&a.bytes).unwrap();
    assert_eq!(back.width, 64);
    assert_eq!(back.channels, 4);
    // The center pixel lies on-pattern (angle zero): tinted, not background.
    let idx = ((32 * 64 + 32) * 4) as usize;
    let px = &back.data[idx..idx + 4];
    assert_ne!(px, &[13, 11, 18, 255]);
    assert_eq!(px[3], 255);
}

#[test]
fn stone_scenario_ring_at_80_of_100() {
    let mut c = Canvas::create(200, 200, 1).unwrap();
    generate_stone(&mut c, 100, 1).unwrap();
    let at = |x: usize, y: usize| c.data[y * 200 + x];
    // The pixel at offset (80, 0) from the center sits exactly on the
    // stone's ring: height zero.
    assert_eq!(at(180, 100), 0);
    // Height increases moving away from the ring.
    assert!(at(185, 100) > at(180, 100));
    assert!(at(190, 100) > at(185, 100));
    assert!(at(170, 100) > at(175, 100));
}

#[test]
fn stone_rejects_zero_stones() {
    let mut c = Canvas::create(64, 64, 1).unwrap();
    assert_eq!(generate_stone(&mut c, 32, 0).err(), Some(ValidationError::ZeroStones));
    assert_eq!(
        make_stone(32, 0).err(),
        Some(AssetError::Validation(ValidationError::ZeroStones))
    );
    assert_eq!(
        make_stone(0, 7).err(),
        Some(AssetError::Validation(ValidationError::ZeroDimension))
    );
}

#[test]
fn stone_facade_is_deterministic() {
    let a = make_stone(32, 7).unwrap();
    let b = make_stone(32, 7).unwrap();
    assert_eq!(a.bytes, b.bytes);
    assert_eq!(a.width, 64);
}
