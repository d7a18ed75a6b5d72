//! Stream-level laws of the encoder, stated and proved once and for all
//! pixel buffers.

use vstd::prelude::*;

use crate::encoder::{
    diff_fits, empty_cache, luma_fits, spec_chunks, spec_encode, spec_run_len,
};
use crate::pixel::{black, pixel_hash, signed, wadd, wsub, Pixel};
use crate::stream::{footer_bytes, header_bytes, index_chunk, run_chunk};

verus! {

/// Header exactness: for any pixel sequence and any dimensions, the
/// encoded stream is at least 22 bytes and its first 14 bytes are the
/// magic `"qoif"`, the width and height as big-endian 32-bit integers,
/// and the constant channel count 3 and color-space tag 0.
pub proof fn lemma_header_exactness(px: Seq<Pixel>, width: u32, height: u32)
    ensures
        spec_encode(px, width, height).len() >= 22,
        spec_encode(px, width, height).take(14) == header_bytes(width, height, 3, 0),
{
    assert(header_bytes(width, height, 3, 0).len() == 14);
    assert(footer_bytes().len() == 8);
    assert(spec_encode(px, width, height).take(14) =~= header_bytes(width, height, 3, 0));
}

/// Footer exactness: the last 8 bytes of any encoded stream are seven
/// zero bytes followed by `0x01`.
pub proof fn lemma_footer_exactness(px: Seq<Pixel>, width: u32, height: u32)
    ensures
        spec_encode(px, width, height).len() >= 22,
        spec_encode(px, width, height).skip(spec_encode(px, width, height).len() - 8)
            == footer_bytes(),
{
    assert(header_bytes(width, height, 3, 0).len() == 14);
    assert(footer_bytes().len() == 8);
    assert(spec_encode(px, width, height).skip(spec_encode(px, width, height).len() - 8)
        =~= footer_bytes());
}

/// A sequence of `n` copies of one pixel.
pub open spec fn const_px(n: int, p: Pixel) -> Seq<Pixel> {
    Seq::new(n as nat, |j: int| p)
}

/// Over a buffer of identical pixels, a run takes either its full cap or
/// whatever remains of the buffer, whichever is smaller.
pub proof fn lemma_run_len_const(px: Seq<Pixel>, i: int, p: Pixel, cap: int)
    requires
        0 <= i <= px.len(),
        0 <= cap,
        forall|j: int| 0 <= j < px.len() ==> #[trigger] px[j] == p,
    ensures
        spec_run_len(px, i, p, cap) == if cap <= px.len() - i {
            cap
        } else {
            px.len() - i
        },
    decreases cap,
{
    if !(cap <= 0 || i >= px.len() || px[i] != p) {
        lemma_run_len_const(px, i + 1, p, cap - 1);
    }
}

/// Run correctness, single chunk: a streak of `n ≤ 62` pixels equal to
/// the previous pixel becomes exactly one Run chunk carrying `n − 1` in
/// its low six bits, whatever the cache holds.
pub proof fn lemma_run_single(p: Pixel, n: int, cache: Seq<Option<Pixel>>)
    requires
        1 <= n <= 62,
    ensures
        spec_chunks(const_px(n, p), 0, p, cache) == run_chunk(n),
{
    let px = const_px(n, p);
    lemma_run_len_const(px, 0, p, 62);
    assert(spec_run_len(px, 0, p, 62) == n);
    assert(spec_chunks(px, n, p, cache) =~= Seq::<u8>::empty());
    assert(spec_chunks(px, 0, p, cache) =~= run_chunk(n));
}

/// Run correctness, capped: a streak longer than one run's cap of 62 is
/// split; for `62 < n ≤ 124` the stream is a full Run chunk of 62
/// followed by a Run chunk of the remaining `n − 62` pixels.
pub proof fn lemma_run_split(p: Pixel, n: int, cache: Seq<Option<Pixel>>)
    requires
        62 < n <= 124,
    ensures
        spec_chunks(const_px(n, p), 0, p, cache) == run_chunk(62) + run_chunk(n - 62),
{
    let px = const_px(n, p);
    lemma_run_len_const(px, 0, p, 62);
    assert(spec_run_len(px, 0, p, 62) == 62);
    lemma_run_len_const(px, 62, p, 62);
    assert(spec_run_len(px, 62, p, 62) == n - 62);
    assert(spec_chunks(px, n, p, cache) =~= Seq::<u8>::empty());
    assert(spec_chunks(px, 62, p, cache) =~= run_chunk(n - 62));
    assert(spec_chunks(px, 0, p, cache) =~= run_chunk(62) + run_chunk(n - 62));
}

/// Run correctness at the stream level: the previous-pixel register
/// starts black, so a whole buffer of `n ≤ 62` black pixels encodes to
/// the header, exactly one Run chunk carrying `n − 1`, and the footer.
pub proof fn lemma_black_buffer_single_run(n: int, width: u32, height: u32)
    requires
        1 <= n <= 62,
    ensures
        spec_encode(const_px(n, black()), width, height) == header_bytes(
            width,
            height,
            3,
            0,
        ) + run_chunk(n) + footer_bytes(),
{
    lemma_run_single(black(), n, empty_cache());
}

/// Run correctness at the stream level, capped: a buffer of
/// `62 < n ≤ 124` black pixels encodes to the header, a full Run chunk of
/// 62 followed by a Run chunk of the remaining pixels, and the footer.
pub proof fn lemma_black_buffer_split_run(n: int, width: u32, height: u32)
    requires
        62 < n <= 124,
    ensures
        spec_encode(const_px(n, black()), width, height) == header_bytes(
            width,
            height,
            3,
            0,
        ) + (run_chunk(62) + run_chunk(n - 62)) + footer_bytes(),
{
    lemma_run_split(black(), n, empty_cache());
}

/// Index priority: when a pixel differs from its predecessor but its
/// cache slot already holds exactly that color, the engine emits an Index
/// chunk — never an RGB, Diff or Luma chunk — even when a Diff or Luma
/// encoding would also have been representable.
pub proof fn lemma_index_priority(px: Seq<Pixel>, i: int, prev: Pixel, cache: Seq<Option<Pixel>>)
    requires
        0 <= i < px.len(),
        px[i] != prev,
        cache[pixel_hash(px[i])] == Some(px[i]),
    ensures
        spec_chunks(px, i, prev, cache) == index_chunk(pixel_hash(px[i]) as u8) + spec_chunks(
            px,
            i + 1,
            px[i],
            cache,
        ),
{
}

/// A biased delta byte fits under `2·bias` exactly when the delta it
/// encodes, read as a signed 8-bit value, lies in `[-bias, bias - 1]`.
pub proof fn lemma_biased_range(d: u8, bias: u8)
    requires
        1 <= bias <= 64,
    ensures
        wadd(d, bias) < 2 * bias <==> -(bias as int) <= signed(d) < bias as int,
{
}

/// Small-delta boundary: the Diff rule accepts exactly the pixels whose
/// three per-channel deltas, read as signed 8-bit values, all lie in
/// `[-2, 1]`; a delta of `+2` or `-3` on any channel falls outside it.
pub proof fn lemma_diff_boundary(cur: Pixel, prev: Pixel)
    ensures
        diff_fits(cur, prev) <==> {
            &&& -2 <= signed(wsub(cur.r, prev.r)) <= 1
            &&& -2 <= signed(wsub(cur.g, prev.g)) <= 1
            &&& -2 <= signed(wsub(cur.b, prev.b)) <= 1
        },
{
    lemma_biased_range(wsub(cur.r, prev.r), 2);
    lemma_biased_range(wsub(cur.g, prev.g), 2);
    lemma_biased_range(wsub(cur.b, prev.b), 2);
}

/// Luma boundary: the Luma rule accepts exactly the pixels whose green
/// delta, read signed, lies in `[-32, 31]` and whose red and blue deltas
/// relative to the green delta lie in `[-8, 7]`; a green delta of `+32`
/// falls outside it.
pub proof fn lemma_luma_boundary(cur: Pixel, prev: Pixel)
    ensures
        luma_fits(cur, prev) <==> {
            &&& -32 <= signed(wsub(cur.g, prev.g)) <= 31
            &&& -8 <= signed(wsub(wsub(cur.r, prev.r), wsub(cur.g, prev.g))) <= 7
            &&& -8 <= signed(wsub(wsub(cur.b, prev.b), wsub(cur.g, prev.g))) <= 7
        },
{
    lemma_biased_range(wsub(cur.g, prev.g), 32);
    lemma_biased_range(wsub(wsub(cur.r, prev.r), wsub(cur.g, prev.g)), 8);
    lemma_biased_range(wsub(wsub(cur.b, prev.b), wsub(cur.g, prev.g)), 8);
}

/// Determinism: the encoded stream is a function of the pixel buffer and
/// dimensions alone, so two encodings of the same input are
/// byte-identical.
pub proof fn lemma_determinism(
    out1: Seq<u8>,
    out2: Seq<u8>,
    px: Seq<Pixel>,
    width: u32,
    height: u32,
)
    requires
        out1 == spec_encode(px, width, height),
        out2 == spec_encode(px, width, height),
    ensures
        out1 == out2,
{
}

} // verus!
