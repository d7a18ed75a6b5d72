//! Byte layouts of the container: header, the five chunk kinds, end marker.
//!
//! Each spec function gives the exact bytes of one stream element; each exec
//! function appends exactly those bytes to the output stream.

use vstd::prelude::*;

verus! {

/// A `u32` as four big-endian bytes.
pub open spec fn be_bytes(x: u32) -> Seq<u8> {
    seq![
        (x / 0x1000000) as u8,
        ((x / 0x10000) % 256) as u8,
        ((x / 256) % 256) as u8,
        (x % 256) as u8,
    ]
}

/// The 14-byte header: magic `"qoif"`, width and height big-endian,
/// then the channel count and color-space tag.
pub open spec fn header_bytes(width: u32, height: u32, channels: u8, color: u8) -> Seq<u8> {
    seq![0x71u8, 0x6fu8, 0x69u8, 0x66u8] + be_bytes(width) + be_bytes(height)
        + seq![channels, color]
}

/// The 8-byte end marker: seven zero bytes, then `0x01`.
pub open spec fn footer_bytes() -> Seq<u8> {
    seq![0u8, 0u8, 0u8, 0u8, 0u8, 0u8, 0u8, 1u8]
}

/// An RGB chunk: tag `0xFE`, then the three raw channel bytes.
pub open spec fn rgb_chunk(red: u8, green: u8, blue: u8) -> Seq<u8> {
    seq![0xfeu8, red, green, blue]
}

/// An RGBA chunk: tag `0xFF`, then the four raw channel bytes.
pub open spec fn rgba_chunk(red: u8, green: u8, blue: u8, alpha: u8) -> Seq<u8> {
    seq![0xffu8, red, green, blue, alpha]
}

/// An Index chunk: tag bits `00`, cache slot in the low six bits.
/// Meaningful for `index < 64`.
pub open spec fn index_chunk(index: u8) -> Seq<u8> {
    seq![index]
}

/// A Run chunk: tag bits `11`, `run − 1` in the low six bits.
/// Meaningful for `1 <= run <= 62`.
pub open spec fn run_chunk(run: int) -> Seq<u8> {
    seq![(0xc0 + (run - 1)) as u8]
}

/// A Diff chunk: tag bits `01`, then the three biased per-channel deltas,
/// two bits apiece. Meaningful for biased deltas in `[0, 3]`.
pub open spec fn diff_chunk(dr: u8, dg: u8, db: u8) -> Seq<u8> {
    seq![(0x40 + 16 * dr + 4 * dg + db) as u8]
}

/// A Luma chunk: tag bits `10` with the biased green delta in the first
/// byte's low six bits; the two biased secondary deltas packed four bits
/// apiece in the second byte. Meaningful for `dg < 64` and secondary
/// deltas in `[0, 15]`.
pub open spec fn luma_chunk(dg: u8, dr_dg: u8, db_dg: u8) -> Seq<u8> {
    seq![(0x80 + dg) as u8, (16 * dr_dg + db_dg) as u8]
}

/// Appends an RGB chunk: `0xFE` then the raw channel bytes.
pub fn qoi_op_rgb(data_stream: &mut Vec<u8>, red: u8, green: u8, blue: u8)
    ensures
        final(data_stream)@ == old(data_stream)@ + rgb_chunk(red, green, blue),
{
    data_stream.push(0xfe);
    data_stream.push(red);
    data_stream.push(green);
    data_stream.push(blue);
    assert(data_stream@ =~= old(data_stream)@ + rgb_chunk(red, green, blue));
}

/// Appends an RGBA chunk: `0xFF` then the raw channel bytes. The format
/// defines this chunk, but the 3-channel encoder never emits it.
pub fn qoi_op_rgba(data_stream: &mut Vec<u8>, red: u8, green: u8, blue: u8, alpha: u8)
    ensures
        final(data_stream)@ == old(data_stream)@ + rgba_chunk(red, green, blue, alpha),
{
    data_stream.push(0xff);
    data_stream.push(red);
    data_stream.push(green);
    data_stream.push(blue);
    data_stream.push(alpha);
    assert(data_stream@ =~= old(data_stream)@ + rgba_chunk(red, green, blue, alpha));
}

/// Appends an Index chunk carrying the cache slot of an already-cached color.
pub fn qoi_op_index(data_stream: &mut Vec<u8>, index: u8)
    requires
        index < 64,
    ensures
        final(data_stream)@ == old(data_stream)@ + index_chunk(index),
{
    data_stream.push(index);
    assert(data_stream@ =~= old(data_stream)@ + index_chunk(index));
}

/// Appends a Run chunk for a run of `run` identical pixels.
pub fn qoi_op_run(data_stream: &mut Vec<u8>, run: u8)
    requires
        1 <= run <= 62,
    ensures
        final(data_stream)@ == old(data_stream)@ + run_chunk(run as int),
{
    data_stream.push(0xc0 + (run - 1));
    assert(data_stream@ =~= old(data_stream)@ + run_chunk(run as int));
}

/// Appends a Diff chunk from the three biased per-channel deltas.
pub fn qoi_op_diff(data_stream: &mut Vec<u8>, dr: u8, dg: u8, db: u8)
    requires
        dr <= 3,
        dg <= 3,
        db <= 3,
    ensures
        final(data_stream)@ == old(data_stream)@ + diff_chunk(dr, dg, db),
{
    let byte: u8 = 0x40 + 16 * dr + 4 * dg + db;
    data_stream.push(byte);
    assert(data_stream@ =~= old(data_stream)@ + diff_chunk(dr, dg, db));
}

/// Appends a Luma chunk from the biased green delta and the two biased
/// secondary deltas.
pub fn qoi_op_luma(data_stream: &mut Vec<u8>, dg: u8, dr_dg: u8, db_dg: u8)
    requires
        dg < 64,
        dr_dg <= 15,
        db_dg <= 15,
    ensures
        final(data_stream)@ == old(data_stream)@ + luma_chunk(dg, dr_dg, db_dg),
{
    data_stream.push(0x80 + dg);
    data_stream.push(16 * dr_dg + db_dg);
    assert(data_stream@ =~= old(data_stream)@ + luma_chunk(dg, dr_dg, db_dg));
}

/// Appends the 14-byte header: magic `"qoif"`, width and height as
/// big-endian 32-bit integers, channel count, color-space tag.
pub fn write_qoi_header(data_stream: &mut Vec<u8>, width: u32, height: u32, channels: u8, color: u8)
    ensures
        final(data_stream)@ == old(data_stream)@ + header_bytes(width, height, channels, color),
{
    // ASCII "qoif"
    data_stream.push(0x71);
    data_stream.push(0x6f);
    data_stream.push(0x69);
    data_stream.push(0x66);
    data_stream.push((width / 0x1000000) as u8);
    data_stream.push(((width / 0x10000) % 256) as u8);
    data_stream.push(((width / 256) % 256) as u8);
    data_stream.push((width % 256) as u8);
    data_stream.push((height / 0x1000000) as u8);
    data_stream.push(((height / 0x10000) % 256) as u8);
    data_stream.push(((height / 256) % 256) as u8);
    data_stream.push((height % 256) as u8);
    data_stream.push(channels);
    data_stream.push(color);
    assert(data_stream@ =~= old(data_stream)@ + header_bytes(width, height, channels, color));
}

} // verus!
