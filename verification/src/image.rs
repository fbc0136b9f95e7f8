//! Pixel-buffer resampling.
//!
//! A rendered frame is an ordered, row-major sequence of RGB byte triples.
//! `downscale` maps a source buffer of one size onto a destination buffer of
//! another by nearest-neighbor sampling: destination cell `(i, j)` takes the
//! source pixel at column `i * src_width / dest_width` and row
//! `j * src_height / dest_height`.

use vstd::prelude::*;
use vstd::arithmetic::div_mod::lemma_div_pos_is_pos;
use vstd::arithmetic::div_mod::lemma_fundamental_div_mod_converse;
use vstd::arithmetic::div_mod::lemma_multiply_divide_lt;

verus! {

/// The source position sampled for destination position `k` (row-major) when
/// resampling a `sw x sh` buffer to `dw x dh`.
pub open spec fn spec_source_index(k: int, sw: int, sh: int, dw: int, dh: int) -> int
    recommends
        dw > 0,
        dh > 0,
{
    ((k / dw) * sh / dh) * sw + (k % dw) * sw / dw
}

/// The whole resampled buffer: destination cell `k` holds the source pixel
/// at `spec_source_index(k)`.
pub open spec fn spec_downscale(
    pixels: Seq<(u8, u8, u8)>,
    sw: int,
    sh: int,
    dw: int,
    dh: int,
) -> Seq<(u8, u8, u8)> {
    Seq::new((dw * dh) as nat, |k: int| pixels[spec_source_index(k, sw, sh, dw, dh)])
}

/// The sampled source position stays inside the source buffer.
proof fn lemma_source_index_in_bounds(k: int, sw: int, sh: int, dw: int, dh: int)
    requires
        0 < sw,
        0 < sh,
        0 < dw,
        0 < dh,
        0 <= k < dw * dh,
    ensures
        0 <= spec_source_index(k, sw, sh, dw, dh) < sw * sh,
        0 <= (k % dw) * sw / dw < sw,
        0 <= (k / dw) * sh / dh < sh,
{
    let i = k % dw;
    let j = k / dw;
    assert(0 <= i < dw);
    assert(0 <= j < dh) by {
        lemma_div_pos_is_pos(k, dw);
        lemma_multiply_divide_lt(k, dw, dh);
    }
    let sx = i * sw / dw;
    let sy = j * sh / dh;
    assert(0 <= sx < sw) by {
        assert(i * sw < dw * sw) by (nonlinear_arith)
            requires 0 <= i < dw && 0 < sw;
        lemma_div_pos_is_pos(i * sw, dw);
        lemma_multiply_divide_lt(i * sw, dw, sw);
    }
    assert(0 <= sy < sh) by {
        assert(j * sh < dh * sh) by (nonlinear_arith)
            requires 0 <= j < dh && 0 < sh;
        lemma_div_pos_is_pos(j * sh, dh);
        lemma_multiply_divide_lt(j * sh, dh, sh);
    }
    assert(sy * sw + sx < sw * sh) by (nonlinear_arith)
        requires 0 <= sx < sw && 0 <= sy < sh;
}

/// Nearest-neighbor resampling of a row-major `src_width x src_height` RGB
/// buffer to `dest_width x dest_height`: destination cell `(i, j)` copies the
/// source pixel at `(i * src_width / dest_width, j * src_height / dest_height)`.
pub fn downscale(
    pixels: Vec<(u8, u8, u8)>,
    src_width: usize,
    src_height: usize,
    dest_width: usize,
    dest_height: usize,
) -> (r: Vec<(u8, u8, u8)>)
    requires
        pixels@.len() == src_width * src_height,
        dest_width > 0 && dest_height > 0 ==> src_width > 0 && src_height > 0,
        dest_width * dest_height <= usize::MAX,
        dest_width * src_width <= usize::MAX,
        dest_height * src_height <= usize::MAX,
    ensures
        r@ == spec_downscale(
            pixels@,
            src_width as int,
            src_height as int,
            dest_width as int,
            dest_height as int,
        ),
        r@.len() == dest_width * dest_height,
        forall|i: int, j: int| 0 <= i < dest_width && 0 <= j < dest_height ==>
            #[trigger] r@[j * dest_width + i] == pixels@[
                (j * (src_height as int) / (dest_height as int)) * (src_width as int)
                    + i * (src_width as int) / (dest_width as int)
            ],
{
    let ghost sw = src_width as int;
    let ghost sh = src_height as int;
    let ghost dw = dest_width as int;
    let ghost dh = dest_height as int;
    let ghost model = spec_downscale(pixels@, sw, sh, dw, dh);
    let src_len = pixels.len();
    proof {
        assert(src_len == sw * sh);
        assert(sw * sh <= usize::MAX);
    }
    let mut out: Vec<(u8, u8, u8)> = Vec::new();
    let mut j: usize = 0;
    while j < dest_height
        invariant
            pixels@.len() == sw * sh,
            dw > 0 && dh > 0 ==> sw > 0 && sh > 0,
            dw * dh <= usize::MAX,
            dw * sw <= usize::MAX,
            dh * sh <= usize::MAX,
            sw * sh <= usize::MAX,
            sw == src_width && sh == src_height && dw == dest_width && dh == dest_height,
            model == spec_downscale(pixels@, sw, sh, dw, dh),
            0 <= j <= dest_height,
            out@.len() == j * dw,
            out@ == model.take(j * dw),
        decreases dest_height - j,
    {
        let mut i: usize = 0;
        proof {
            assert(j * dw + dw <= dw * dh) by (nonlinear_arith)
                requires 0 <= j < dh && dw >= 0;
            assert((j + 1) * dw == j * dw + dw) by (nonlinear_arith);
        }
        while i < dest_width
            invariant
                pixels@.len() == sw * sh,
                dw > 0 && dh > 0 ==> sw > 0 && sh > 0,
                dw * dh <= usize::MAX,
                dw * sw <= usize::MAX,
                dh * sh <= usize::MAX,
                sw * sh <= usize::MAX,
                sw == src_width && sh == src_height && dw == dest_width && dh == dest_height,
                model == spec_downscale(pixels@, sw, sh, dw, dh),
                0 <= j < dest_height,
                0 <= i <= dest_width,
                j * dw + dw <= dw * dh,
                out@.len() == j * dw + i,
                out@ == model.take(j * dw + i),
            decreases dest_width - i,
        {
            let ghost k = j * dw + i;
            proof {
                assert(0 <= k < dw * dh);
                lemma_source_index_in_bounds(k, sw, sh, dw, dh);
                lemma_fundamental_div_mod_converse(k, dw, j as int, i as int);
                assert(i * sw <= dw * sw) by (nonlinear_arith)
                    requires 0 <= i < dw && sw >= 0;
                assert(j * sh <= dh * sh) by (nonlinear_arith)
                    requires 0 <= j < dh && sh >= 0;
            }
            let src_x = i * src_width / dest_width;
            let src_y = j * src_height / dest_height;
            proof {
                assert(src_y * sw + src_x == spec_source_index(k, sw, sh, dw, dh));
            }
            let p = pixels[src_y * src_width + src_x];
            out.push(p);
            proof {
                assert(out@ =~= model.take(k + 1));
            }
            i = i + 1;
        }
        j = j + 1;
    }
    proof {
        assert(dh * dw == dw * dh) by (nonlinear_arith);
        assert(out@ =~= model);
        assert forall|i: int, jj: int| 0 <= i < dw && 0 <= jj < dh implies
            #[trigger] out@[jj * dw + i] == pixels@[(jj * sh / dh) * sw + i * sw / dw]
        by {
            assert(0 <= jj * dw + i < dw * dh) by (nonlinear_arith)
                requires 0 <= i < dw && 0 <= jj < dh;
            let k = jj * dw + i;
            lemma_fundamental_div_mod_converse(k, dw, jj, i);
        }
    }
    out
}

} // verus!
