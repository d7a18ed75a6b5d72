//! The pixel scanner / decision engine and the full-stream encoder.
//!
//! [`spec_chunks`] is the mathematical model of the decision engine: it
//! gives, for any pixel sequence and encoder state, the exact chunk bytes
//! the engine emits. [`encode`] is the executable single-pass encoder,
//! proved to produce [`spec_encode`] of its input.

use vstd::prelude::*;

use crate::pixel::{black, pixel_hash, pos_hash, spec_pixels, wadd, wsub, Pixel};
use crate::stream::{
    diff_chunk, footer_bytes, header_bytes, index_chunk, luma_chunk, qoi_op_diff, qoi_op_index,
    qoi_op_luma, qoi_op_rgb, qoi_op_run, rgb_chunk, run_chunk, write_qoi_header,
};

verus! {

/// The failure of the encoder: a pixel buffer whose byte length is not a
/// whole number of 3-byte pixels, or does not match the declared
/// width × height.
#[derive(Clone, Copy, PartialEq, Eq, Structural, Debug)]
pub enum QoiError {
    MalformedInput,
}

/// The color cache at stream start: 64 slots, all empty.
pub open spec fn empty_cache() -> Seq<Option<Pixel>> {
    Seq::new(64, |i: int| None)
}

/// True when every per-channel delta of `cur` against `prev`, biased by
/// `+2`, fits in two bits — the acceptance test of the Diff chunk
/// (signed deltas in `[-2, 1]`).
pub open spec fn diff_fits(cur: Pixel, prev: Pixel) -> bool {
    &&& wadd(wsub(cur.r, prev.r), 2) <= 3
    &&& wadd(wsub(cur.g, prev.g), 2) <= 3
    &&& wadd(wsub(cur.b, prev.b), 2) <= 3
}

/// True when the green delta, biased by `+32`, fits in six bits and the
/// red and blue deltas taken relative to the green delta, biased by `+8`,
/// fit in four bits each — the acceptance test of the Luma chunk (green
/// delta in `[-32, 31]`, secondary deltas in `[-8, 7]`).
pub open spec fn luma_fits(cur: Pixel, prev: Pixel) -> bool {
    let dg = wsub(cur.g, prev.g);
    &&& wadd(dg, 32) <= 63
    &&& wadd(wsub(wsub(cur.r, prev.r), dg), 8) <= 15
    &&& wadd(wsub(wsub(cur.b, prev.b), dg), 8) <= 15
}

/// Length of the run at `i`: how many consecutive pixels starting there
/// equal `p`, capped at `cap`.
pub open spec fn spec_run_len(px: Seq<Pixel>, i: int, p: Pixel, cap: int) -> int
    decreases cap,
{
    if cap <= 0 || i < 0 || i >= px.len() || px[i] != p {
        0
    } else {
        1 + spec_run_len(px, i + 1, p, cap - 1)
    }
}

/// A run is never longer than its cap, never runs past the end of the
/// buffer, covers only pixels equal to `p`, and is non-empty whenever the
/// pixel at its start matches.
pub proof fn lemma_run_len_bounds(px: Seq<Pixel>, i: int, p: Pixel, cap: int)
    requires
        0 <= i <= px.len(),
        0 <= cap,
    ensures
        0 <= spec_run_len(px, i, p, cap) <= cap,
        i + spec_run_len(px, i, p, cap) <= px.len(),
        forall|j: int| i <= j < i + spec_run_len(px, i, p, cap) ==> #[trigger] px[j] == p,
        (cap > 0 && i < px.len() && px[i] == p) ==> spec_run_len(px, i, p, cap) >= 1,
    decreases cap,
{
    if !(cap <= 0 || i >= px.len() || px[i] != p) {
        lemma_run_len_bounds(px, i + 1, p, cap - 1);
    }
}

/// The chunk bytes the decision engine emits for the pixels from `i`
/// onward, starting from previous pixel `prev` and color cache `cache`.
///
/// Rule order (the first match wins — a bitstream-compatibility
/// requirement): run of identical pixels; raw RGB into a cold cache slot;
/// cache hit as Index; small per-channel delta as Diff; green-relative
/// delta as Luma; raw RGB as fallback. A run does not touch the cache;
/// every other rule leaves the current pixel in its slot.
pub open spec fn spec_chunks(
    px: Seq<Pixel>,
    i: int,
    prev: Pixel,
    cache: Seq<Option<Pixel>>,
) -> Seq<u8>
    decreases px.len() - i,
{
    if i < 0 || i >= px.len() {
        Seq::empty()
    } else {
        let cur = px[i];
        let h = pixel_hash(cur);
        if cur == prev {
            let n = spec_run_len(px, i, cur, 62);
            proof {
                lemma_run_len_bounds(px, i, cur, 62);
            }
            run_chunk(n) + spec_chunks(px, i + n, cur, cache)
        } else if cache[h] is None {
            rgb_chunk(cur.r, cur.g, cur.b) + spec_chunks(px, i + 1, cur, cache.update(h, Some(cur)))
        } else if cache[h] == Some(cur) {
            index_chunk(h as u8) + spec_chunks(px, i + 1, cur, cache)
        } else if diff_fits(cur, prev) {
            diff_chunk(
                wadd(wsub(cur.r, prev.r), 2),
                wadd(wsub(cur.g, prev.g), 2),
                wadd(wsub(cur.b, prev.b), 2),
            ) + spec_chunks(px, i + 1, cur, cache.update(h, Some(cur)))
        } else if luma_fits(cur, prev) {
            luma_chunk(
                wadd(wsub(cur.g, prev.g), 32),
                wadd(wsub(wsub(cur.r, prev.r), wsub(cur.g, prev.g)), 8),
                wadd(wsub(wsub(cur.b, prev.b), wsub(cur.g, prev.g)), 8),
            ) + spec_chunks(px, i + 1, cur, cache.update(h, Some(cur)))
        } else {
            rgb_chunk(cur.r, cur.g, cur.b) + spec_chunks(px, i + 1, cur, cache.update(h, Some(cur)))
        }
    }
}

/// The complete encoded stream of a pixel sequence: header, chunk stream
/// from the initial state (black previous pixel, empty cache), end marker.
pub open spec fn spec_encode(px: Seq<Pixel>, width: u32, height: u32) -> Seq<u8> {
    header_bytes(width, height, 3, 0) + spec_chunks(px, 0, black(), empty_cache()) + footer_bytes()
}

/// Reads pixel `i` of a raw byte buffer (three bytes per pixel, row-major).
pub fn pixel_at(pixels: &Vec<u8>, i: usize) -> (p: Pixel)
    requires
        3 * i + 2 < pixels@.len(),
    ensures
        i < spec_pixels(pixels@).len(),
        p == spec_pixels(pixels@)[i as int],
{
    let len = pixels.len();
    proof {
        assert(3 * i + 2 < len);
        assert(i < pixels@.len() / 3) by {
            assert(pixels@.len() >= 3 * i + 3);
        };
    }
    Pixel { r: pixels[3 * i], g: pixels[3 * i + 1], b: pixels[3 * i + 2] }
}

/// Encodes a raw RGB pixel buffer of the given dimensions into a complete
/// byte stream: header, chunk stream, end marker.
///
/// Succeeds exactly when the buffer holds `width × height` pixels of three
/// bytes each; any other length is malformed input. On success the output
/// is byte-for-byte [`spec_encode`] of the buffer's pixel sequence.
pub fn encode(pixels: &Vec<u8>, width: u32, height: u32) -> (result: Result<Vec<u8>, QoiError>)
    ensures
        result is Ok <==> pixels@.len() == 3 * width * height,
        result matches Ok(out) ==> out@ == spec_encode(spec_pixels(pixels@), width, height),
        result is Err ==> result == Err::<Vec<u8>, QoiError>(QoiError::MalformedInput),
{
    let len = pixels.len();
    proof {
        assert((width as int) * (height as int) <= 0xffff_ffff * 0xffff_ffff) by (nonlinear_arith)
            requires
                width <= 0xffff_ffffu32,
                height <= 0xffff_ffffu32,
        ;
    }
    let expected: u64 = (width as u64) * (height as u64);
    proof {
        assert(3 * (width as int) * (height as int) == 3 * ((width as int) * (height as int)))
            by (nonlinear_arith);
        assert(len as int == 3 * (len as int / 3) + (len as int % 3));
    }
    if len % 3 != 0 || (len / 3) as u64 != expected {
        return Err(QoiError::MalformedInput);
    }
    let n = len / 3;
    let ghost px = spec_pixels(pixels@);
    assert(px.len() == n);

    let mut out: Vec<u8> = Vec::new();
    write_qoi_header(&mut out, width, height, 3, 0);

    let mut cache: Vec<Option<Pixel>> = Vec::new();
    let mut k: usize = 0;
    while k < 64
        invariant
            k <= 64,
            cache@.len() == k,
            forall|j: int| 0 <= j < k ==> cache@[j] is None,
        decreases 64 - k,
    {
        cache.push(None);
        k = k + 1;
    }
    assert(cache@ =~= empty_cache());

    let mut prev = Pixel { r: 0, g: 0, b: 0 };
    let mut i: usize = 0;
    let ghost mut emitted: Seq<u8> = Seq::empty();
    assert(out@ =~= header_bytes(width, height, 3, 0) + emitted);

    while i < n
        invariant
            i <= n,
            n == pixels@.len() / 3,
            pixels@.len() % 3 == 0,
            px == spec_pixels(pixels@),
            px.len() == n,
            cache@.len() == 64,
            out@ == header_bytes(width, height, 3, 0) + emitted,
            spec_chunks(px, 0, black(), empty_cache()) == emitted + spec_chunks(
                px,
                i as int,
                prev,
                cache@,
            ),
        decreases n - i,
    {
        let cur = pixel_at(pixels, i);
        let h = pos_hash(cur.r, cur.g, cur.b, 255);
        if cur == prev {
            // Run rule: consume the streak of identical pixels, up to 62.
            let ghost i0 = i as int;
            let mut run: u8 = 0;
            while i < n && run < 62 && pixel_at(pixels, i) == cur
                invariant
                    i0 <= i <= n,
                    run == i - i0,
                    run <= 62,
                    n == pixels@.len() / 3,
                    pixels@.len() % 3 == 0,
                    px == spec_pixels(pixels@),
                    px.len() == n,
                    spec_run_len(px, i0, cur, 62) == run + spec_run_len(
                        px,
                        i as int,
                        cur,
                        62 - run,
                    ),
                decreases n - i,
            {
                run = run + 1;
                i = i + 1;
            }
            proof {
                assert(spec_run_len(px, i as int, cur, (62 - run) as int) == 0);
                lemma_run_len_bounds(px, i0, cur, 62);
            }
            qoi_op_run(&mut out, run);
            prev = cur;
            proof {
                assert(spec_chunks(px, i0, prev, cache@) == run_chunk(run as int) + spec_chunks(
                    px,
                    i as int,
                    cur,
                    cache@,
                ));
                let e0 = emitted;
                emitted = emitted + run_chunk(run as int);
                assert(out@ =~= header_bytes(width, height, 3, 0) + emitted);
                assert((e0 + spec_chunks(px, i0, prev, cache@)) =~= emitted + spec_chunks(
                    px,
                    i as int,
                    cur,
                    cache@,
                ));
            }
        } else {
            let slot = cache[h];
            match slot {
                None => {
                    // Cache-empty rule: cache the color, emit it raw.
                    cache.set(h, Some(cur));
                    qoi_op_rgb(&mut out, cur.r, cur.g, cur.b);
                    proof {
                        emitted = emitted + rgb_chunk(cur.r, cur.g, cur.b);
                    }
                },
                Some(c) => {
                    if c == cur {
                        // Cache-hit rule: the slot already holds this color.
                        qoi_op_index(&mut out, h as u8);
                        proof {
                            emitted = emitted + index_chunk(h as u8);
                        }
                    } else {
                        let dr = cur.r.wrapping_sub(prev.r);
                        let dg = cur.g.wrapping_sub(prev.g);
                        let db = cur.b.wrapping_sub(prev.b);
                        if dr.wrapping_add(2) <= 3 && dg.wrapping_add(2) <= 3 && db.wrapping_add(2)
                            <= 3 {
                            // Small-delta rule: all three deltas in [-2, 1].
                            qoi_op_diff(
                                &mut out,
                                dr.wrapping_add(2),
                                dg.wrapping_add(2),
                                db.wrapping_add(2),
                            );
                            cache.set(h, Some(cur));
                            proof {
                                emitted = emitted + diff_chunk(
                                    wadd(wsub(cur.r, prev.r), 2),
                                    wadd(wsub(cur.g, prev.g), 2),
                                    wadd(wsub(cur.b, prev.b), 2),
                                );
                            }
                        } else {
                            let dr_dg = dr.wrapping_sub(dg);
                            let db_dg = db.wrapping_sub(dg);
                            if dg.wrapping_add(32) <= 63 && dr_dg.wrapping_add(8) <= 15
                                && db_dg.wrapping_add(8) <= 15 {
                                // Luma rule: green delta in [-32, 31], secondary
                                // deltas in [-8, 7].
                                qoi_op_luma(
                                    &mut out,
                                    dg.wrapping_add(32),
                                    dr_dg.wrapping_add(8),
                                    db_dg.wrapping_add(8),
                                );
                                cache.set(h, Some(cur));
                                proof {
                                    emitted = emitted + luma_chunk(
                                        wadd(wsub(cur.g, prev.g), 32),
                                        wadd(wsub(wsub(cur.r, prev.r), wsub(cur.g, prev.g)), 8),
                                        wadd(wsub(wsub(cur.b, prev.b), wsub(cur.g, prev.g)), 8),
                                    );
                                }
                            } else {
                                // Fallback rule: raw RGB.
                                qoi_op_rgb(&mut out, cur.r, cur.g, cur.b);
                                cache.set(h, Some(cur));
                                proof {
                                    emitted = emitted + rgb_chunk(cur.r, cur.g, cur.b);
                                }
                            }
                        }
                    }
                },
            }
            prev = cur;
            i = i + 1;
            proof {
                assert(out@ =~= header_bytes(width, height, 3, 0) + emitted);
                assert(spec_chunks(px, 0, black(), empty_cache()) =~= emitted + spec_chunks(
                    px,
                    i as int,
                    prev,
                    cache@,
                ));
            }
        }
    }
    assert(spec_chunks(px, i as int, prev, cache@) =~= Seq::<u8>::empty());
    assert(spec_chunks(px, 0, black(), empty_cache()) =~= emitted);

    let mut j: usize = 0;
    while j < 7
        invariant
            j <= 7,
            out@.len() == header_bytes(width, height, 3, 0).len() + emitted.len() + j,
            out@ == header_bytes(width, height, 3, 0) + emitted + footer_bytes().take(j as int),
        decreases 7 - j,
    {
        out.push(0x00);
        j = j + 1;
        assert(out@ =~= header_bytes(width, height, 3, 0) + emitted + footer_bytes().take(
            j as int,
        ));
    }
    out.push(0x01);
    assert(out@ =~= spec_encode(px, width, height));
    Ok(out)
}

} // verus!
