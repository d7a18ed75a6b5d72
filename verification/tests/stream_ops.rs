//! Byte-level tests of the chunk encoders, the header writer and the
//! color-cache hash.

use qoi_encoder::pixel::pos_hash;
use qoi_encoder::stream::{
    qoi_op_diff, qoi_op_index, qoi_op_luma, qoi_op_rgb, qoi_op_rgba, qoi_op_run, write_qoi_header,
};

#[test]
fn rgb_chunk_bytes() {
    let mut out: Vec<u8> = vec![0xAB];
    qoi_op_rgb(&mut out, 1, 2, 3);
    assert_eq!(out, vec![0xAB, 0xFE, 1, 2, 3]);
}

#[test]
fn rgba_chunk_bytes() {
    let mut out: Vec<u8> = Vec::new();
    qoi_op_rgba(&mut out, 9, 8, 7, 6);
    assert_eq!(out, vec![0xFF, 9, 8, 7, 6]);
}

#[test]
fn index_chunk_bytes() {
    let mut out: Vec<u8> = Vec::new();
    qoi_op_index(&mut out, 0);
    qoi_op_index(&mut out, 63);
    assert_eq!(out, vec![0x00, 0x3F]);
}

#[test]
fn run_chunk_bytes() {
    let mut out: Vec<u8> = Vec::new();
    qoi_op_run(&mut out, 1);
    qoi_op_run(&mut out, 62);
    assert_eq!(out, vec![0xC0, 0xFD]);
}

#[test]
fn diff_chunk_bytes() {
    let mut out: Vec<u8> = Vec::new();
    qoi_op_diff(&mut out, 0, 0, 0);
    qoi_op_diff(&mut out, 3, 3, 3);
    qoi_op_diff(&mut out, 1, 2, 3);
    assert_eq!(out, vec![0x40, 0x7F, 0x40 | (1 << 4) | (2 << 2) | 3]);
}

#[test]
fn luma_chunk_bytes() {
    let mut out: Vec<u8> = Vec::new();
    qoi_op_luma(&mut out, 0, 8, 8);
    qoi_op_luma(&mut out, 63, 15, 0);
    assert_eq!(out, vec![0x80, 0x88, 0x80 | 63, 0xF0]);
}

#[test]
fn header_bytes_exact() {
    let mut out: Vec<u8> = Vec::new();
    write_qoi_header(&mut out, 0xAABBCCDD, 0x01020304, 3, 0);
    assert_eq!(
        out,
        vec![b'q', b'o', b'i', b'f', 0xAA, 0xBB, 0xCC, 0xDD, 0x01, 0x02, 0x03, 0x04, 3, 0]
    );
}

#[test]
fn header_bytes_small_dims() {
    let mut out: Vec<u8> = Vec::new();
    write_qoi_header(&mut out, 2, 1, 3, 0);
    assert_eq!(out, vec![b'q', b'o', b'i', b'f', 0, 0, 0, 2, 0, 0, 0, 1, 3, 0]);
}

#[test]
fn hash_exact_values() {
    // (3·R + 5·G + 7·B + 11·A) mod 64
    assert_eq!(pos_hash(10, 20, 30, 255), 9);
    assert_eq!(pos_hash(0, 0, 0, 255), 53);
    assert_eq!(pos_hash(255, 255, 255, 255), 38);
    assert_eq!(pos_hash(0, 0, 0, 0), 0);
}

#[test]
fn hash_collision_under_green_shift() {
    // 5 · 64 ≡ 0 (mod 64): shifting green by 64 keeps the slot.
    assert_eq!(pos_hash(51, 115, 51, 255), pos_hash(51, 51, 51, 255));
    assert_eq!(pos_hash(48, 112, 48, 255), pos_hash(48, 48, 48, 255));
}
