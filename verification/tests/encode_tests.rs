//! End-to-end tests of the encoder: header and footer framing, the five
//! decision rules and their boundaries, and the error conditions.

use qoi_encoder::encoder::{encode, pixel_at, QoiError};
use qoi_encoder::pixel::Pixel;

const HEADER_LEN: usize = 14;
const FOOTER: [u8; 8] = [0, 0, 0, 0, 0, 0, 0, 1];

fn header(width: u32, height: u32) -> Vec<u8> {
    let mut h = b"qoif".to_vec();
    h.extend_from_slice(&width.to_be_bytes());
    h.extend_from_slice(&height.to_be_bytes());
    h.push(3);
    h.push(0);
    h
}

fn encode_ok(pixels: &[u8], width: u32, height: u32) -> Vec<u8> {
    encode(&pixels.to_vec(), width, height).expect("well-formed input must encode")
}

fn chunks_of(out: &[u8]) -> &[u8] {
    &out[HEADER_LEN..out.len() - 8]
}

#[test]
fn header_exact_on_any_encode() {
    let out = encode_ok(&[10, 20, 30], 1, 1);
    assert_eq!(&out[..HEADER_LEN], &header(1, 1)[..]);

    let out = encode_ok(&[0; 18], 3, 2);
    assert_eq!(&out[..HEADER_LEN], &header(3, 2)[..]);
}

#[test]
fn footer_exact_on_any_encode() {
    let out = encode_ok(&[10, 20, 30], 1, 1);
    assert_eq!(&out[out.len() - 8..], &FOOTER);

    let out = encode_ok(&[7; 30], 5, 2);
    assert_eq!(&out[out.len() - 8..], &FOOTER);
}

#[test]
fn empty_image_is_header_and_footer_only() {
    let out = encode_ok(&[], 0, 0);
    assert_eq!(out.len(), 22);
    assert_eq!(&out[..HEADER_LEN], &header(0, 0)[..]);
    assert_eq!(&out[HEADER_LEN..], &FOOTER);
}

#[test]
fn single_black_pixel_is_a_run() {
    // The previous-pixel register starts black, so a black first pixel
    // already matches it and the run rule fires.
    let out = encode_ok(&[0, 0, 0], 1, 1);
    assert_eq!(chunks_of(&out), &[0xC0]);
}

#[test]
fn run_of_n_black_pixels_is_one_chunk() {
    for n in [1usize, 2, 5, 62] {
        let out = encode_ok(&vec![0u8; 3 * n], n as u32, 1);
        assert_eq!(chunks_of(&out), &[0xC0 | (n as u8 - 1)], "n = {}", n);
    }
}

#[test]
fn run_of_65_black_pixels_splits_62_then_3() {
    let out = encode_ok(&vec![0u8; 3 * 65], 65, 1);
    assert_eq!(chunks_of(&out), &[0xC0 | 61, 0xC0 | 2]);
}

#[test]
fn run_after_rgb_chunk() {
    // (10,20,30) three times, then (200,100,50): raw RGB, a run of two,
    // raw RGB again.
    let mut pixels = Vec::new();
    pixels.extend_from_slice(&[10, 20, 30]);
    pixels.extend_from_slice(&[10, 20, 30]);
    pixels.extend_from_slice(&[10, 20, 30]);
    pixels.extend_from_slice(&[200, 100, 50]);
    let out = encode_ok(&pixels, 4, 1);
    assert_eq!(
        chunks_of(&out),
        &[0xFE, 10, 20, 30, 0xC0 | 1, 0xFE, 200, 100, 50]
    );
}

#[test]
fn two_identical_pixels_scenario() {
    // 2×1 image of (10,20,30) twice: header, one RGB chunk, one Run
    // chunk of length 1, footer — 27 bytes in all.
    let out = encode_ok(&[10, 20, 30, 10, 20, 30], 2, 1);
    assert_eq!(out.len(), 27);
    assert_eq!(&out[..HEADER_LEN], &header(2, 1)[..]);
    assert_eq!(&out[14..18], &[0xFE, 10, 20, 30]);
    assert_eq!(out[18], 0b1100_0000);
    assert_eq!(&out[19..], &FOOTER);
}

#[test]
fn cache_hit_emits_index_not_diff() {
    // (10,20,30), (11,21,31), (10,20,30): the third pixel is at delta
    // (-1,-1,-1) from its predecessor, so a Diff chunk would be
    // representable — but its cache slot (9) already holds it, so the
    // engine must emit an Index chunk.
    let pixels = [10, 20, 30, 11, 21, 31, 10, 20, 30];
    let out = encode_ok(&pixels, 3, 1);
    assert_eq!(
        chunks_of(&out),
        &[0xFE, 10, 20, 30, 0xFE, 11, 21, 31, 9]
    );
}

#[test]
fn cold_cache_emits_rgb_even_when_diff_fits() {
    // (10,20,30) then (11,21,31): the second pixel is one step up on
    // every channel, but its cache slot is still empty, so the
    // cache-empty rule wins and both pixels go out raw.
    let out = encode_ok(&[10, 20, 30, 11, 21, 31], 2, 1);
    assert_eq!(chunks_of(&out), &[0xFE, 10, 20, 30, 0xFE, 11, 21, 31]);
}

#[test]
fn diff_upper_boundary_plus_one() {
    // (51,115,51) shares cache slot 50 with (51,51,51). After it and
    // (50,50,50) are emitted raw, (51,51,51) collides in slot 50 and its
    // delta (+1,+1,+1) takes the Diff rule: biased (3,3,3).
    let pixels = [51, 115, 51, 50, 50, 50, 51, 51, 51];
    let out = encode_ok(&pixels, 3, 1);
    assert_eq!(
        chunks_of(&out),
        &[0xFE, 51, 115, 51, 0xFE, 50, 50, 50, 0x7F]
    );
}

#[test]
fn diff_lower_boundary_minus_two() {
    // (48,112,48) fills slot 5; (48,48,48) then collides there with
    // delta (-2,-2,-2) from (50,50,50): biased (0,0,0).
    let pixels = [48, 112, 48, 50, 50, 50, 48, 48, 48];
    let out = encode_ok(&pixels, 3, 1);
    assert_eq!(
        chunks_of(&out),
        &[0xFE, 48, 112, 48, 0xFE, 50, 50, 50, 0x40]
    );
}

#[test]
fn delta_plus_two_falls_through_to_luma() {
    // (52,114,50) fills slot 41; (52,50,50) then collides there with
    // delta (+2,0,0): too wide for Diff, taken by Luma with dg = 0,
    // dr−dg = +2, db−dg = 0.
    let pixels = [52, 114, 50, 50, 50, 50, 52, 50, 50];
    let out = encode_ok(&pixels, 3, 1);
    assert_eq!(
        chunks_of(&out),
        &[0xFE, 52, 114, 50, 0xFE, 50, 50, 50, 0x80 | 32, (10 << 4) | 8]
    );
}

#[test]
fn luma_upper_boundary_green_plus_31() {
    // (81,145,81) fills slot 52; (81,81,81) collides there with delta
    // (+31,+31,+31) from (50,50,50): dg = +31, secondary deltas 0.
    let pixels = [81, 145, 81, 50, 50, 50, 81, 81, 81];
    let out = encode_ok(&pixels, 3, 1);
    assert_eq!(
        chunks_of(&out),
        &[0xFE, 81, 145, 81, 0xFE, 50, 50, 50, 0x80 | 63, 0x88]
    );
}

#[test]
fn luma_lower_boundary_green_minus_32() {
    // (18,82,18) fills slot 3; (18,18,18) collides there with delta
    // (-32,-32,-32) from (50,50,50): dg = -32, secondary deltas 0.
    let pixels = [18, 82, 18, 50, 50, 50, 18, 18, 18];
    let out = encode_ok(&pixels, 3, 1);
    assert_eq!(
        chunks_of(&out),
        &[0xFE, 18, 82, 18, 0xFE, 50, 50, 50, 0x80, 0x88]
    );
}

#[test]
fn green_plus_32_forces_rgb() {
    // (50,146,50) fills slot 3; (50,82,50) collides there with delta
    // (0,+32,0): outside both Diff and Luma, so it goes out raw.
    let pixels = [50, 146, 50, 50, 50, 50, 50, 82, 50];
    let out = encode_ok(&pixels, 3, 1);
    assert_eq!(
        chunks_of(&out),
        &[0xFE, 50, 146, 50, 0xFE, 50, 50, 50, 0xFE, 50, 82, 50]
    );
}

#[test]
fn encoding_is_deterministic() {
    let pixels: Vec<u8> = (0u16..255).map(|x| (x * 7 % 256) as u8).take(60).collect();
    let a = encode(&pixels, 10, 2).unwrap();
    let b = encode(&pixels, 10, 2).unwrap();
    assert_eq!(a, b);
}

#[test]
fn length_not_a_multiple_of_three_is_malformed() {
    assert_eq!(encode(&vec![1, 2, 3, 4], 1, 1), Err(QoiError::MalformedInput));
    assert_eq!(encode(&vec![1], 1, 1), Err(QoiError::MalformedInput));
}

#[test]
fn dimension_mismatch_is_malformed() {
    assert_eq!(encode(&vec![1, 2, 3], 2, 1), Err(QoiError::MalformedInput));
    assert_eq!(encode(&vec![1, 2, 3, 4, 5, 6], 0, 5), Err(QoiError::MalformedInput));
    assert_eq!(encode(&vec![], 1, 1), Err(QoiError::MalformedInput));
}

#[test]
fn pixel_at_reads_row_major_triples() {
    let pixels = vec![1, 2, 3, 4, 5, 6];
    assert_eq!(pixel_at(&pixels, 0), Pixel { r: 1, g: 2, b: 3 });
    assert_eq!(pixel_at(&pixels, 1), Pixel { r: 4, g: 5, b: 6 });
}
