//! Plain-text image serialization.
//!
//! A rendered buffer is written out in the textual PPM form: a `P3` magic
//! line, the image width and height, the maximum channel value, and then one
//! `r g b` line per pixel in row-major order.  The serializer is specified
//! byte for byte, down to the decimal rendering of each number.

use vstd::prelude::*;

verus! {

/// Newline byte.
pub const LF: u8 = 10;

/// Space byte.
pub const SPACE: u8 = 32;

/// The ASCII decimal digits of `n`, most significant first, no sign and no
/// leading zeros (a single `0` for zero).
pub open spec fn spec_decimal(n: nat) -> Seq<u8>
    decreases n,
{
    if n < 10 {
        seq![(48 + n) as u8]
    } else {
        spec_decimal(n / 10).push((48 + n % 10) as u8)
    }
}

/// Appends the decimal digits of `n` to `out`.
pub fn push_decimal(out: &mut Vec<u8>, n: u32)
    ensures
        final(out)@ == old(out)@ + spec_decimal(n as nat),
{
    let mut rev: Vec<u8> = Vec::new();
    let mut m: u32 = n;
    loop
        invariant_except_break
            rev@.len() == 0 ==> m == n,
            rev@.len() > 0 ==> m > 0
                && spec_decimal(n as nat) == spec_decimal(m as nat) + rev@.reverse(),
        ensures
            spec_decimal(n as nat) == rev@.reverse(),
        decreases m,
    {
        let ghost m0 = m as nat;
        let ghost rev0 = rev@;
        let d: u8 = (m % 10) as u8 + 48;
        rev.push(d);
        m = m / 10;
        proof {
            assert(rev@.reverse() =~= seq![d] + rev0.reverse());
            if m0 < 10 {
                assert(spec_decimal(m0) =~= seq![d]);
                if rev0.len() > 0 {
                    assert(spec_decimal(n as nat) =~= seq![d] + rev0.reverse());
                }
            } else {
                assert(spec_decimal(m0) == spec_decimal(m0 / 10).push((48 + m0 % 10) as u8));
                assert(spec_decimal(m0) =~= spec_decimal(m as nat) + seq![d]);
                if rev0.len() > 0 {
                    assert((spec_decimal(m as nat) + seq![d]) + rev0.reverse()
                        =~= spec_decimal(m as nat) + (seq![d] + rev0.reverse()));
                }
            }
        }
        if m == 0 {
            break;
        }
    }
    let ghost out0 = out@;
    let mut i: usize = rev.len();
    while i > 0
        invariant
            0 <= i <= rev@.len(),
            spec_decimal(n as nat) == rev@.reverse(),
            out@ == out0 + rev@.reverse().take(rev@.len() - i),
        decreases i,
    {
        i = i - 1;
        out.push(rev[i]);
        proof {
            assert(rev@.reverse()[rev@.len() - 1 - i] == rev@[i as int]);
            assert(out@ =~= out0 + rev@.reverse().take(rev@.len() - i));
        }
    }
    proof {
        assert(rev@.reverse().take(rev@.len() as int) =~= rev@.reverse());
    }
}

/// One `r g b` pixel line of the body.
pub open spec fn spec_pixel_line(p: (u8, u8, u8)) -> Seq<u8> {
    spec_decimal(p.0 as nat) + seq![SPACE] + spec_decimal(p.1 as nat) + seq![SPACE]
        + spec_decimal(p.2 as nat) + seq![LF]
}

/// The body: one line per pixel, in buffer order.
pub open spec fn spec_pixel_lines(pixels: Seq<(u8, u8, u8)>) -> Seq<u8>
    decreases pixels.len(),
{
    if pixels.len() == 0 {
        Seq::empty()
    } else {
        spec_pixel_line(pixels[0]) + spec_pixel_lines(pixels.drop_first())
    }
}

/// The header: `P3`, then `width height`, then the maximum channel value,
/// each on its own line.
pub open spec fn spec_ppm_header(width: u32, height: u32, max_value: u32) -> Seq<u8> {
    seq![80u8, 51u8, LF] + spec_decimal(width as nat) + seq![SPACE]
        + spec_decimal(height as nat) + seq![LF] + spec_decimal(max_value as nat) + seq![LF]
}

/// The whole serialized image: header, then one line per pixel.
pub open spec fn spec_ppm(
    width: u32,
    height: u32,
    max_value: u32,
    pixels: Seq<(u8, u8, u8)>,
) -> Seq<u8> {
    spec_ppm_header(width, height, max_value) + spec_pixel_lines(pixels)
}

/// Appending a pixel to the buffer appends exactly its line to the body.
proof fn lemma_pixel_lines_push(s: Seq<(u8, u8, u8)>, p: (u8, u8, u8))
    ensures
        spec_pixel_lines(s.push(p)) == spec_pixel_lines(s) + spec_pixel_line(p),
    decreases s.len(),
{
    if s.len() == 0 {
        assert(s.push(p)[0] == p);
        assert(s.push(p).drop_first() =~= Seq::<(u8, u8, u8)>::empty());
        assert(spec_pixel_lines(s.push(p))
            == spec_pixel_line(p) + spec_pixel_lines(Seq::<(u8, u8, u8)>::empty()));
        assert(spec_pixel_lines(Seq::<(u8, u8, u8)>::empty()) =~= Seq::<u8>::empty());
        assert(spec_pixel_lines(s.push(p)) =~= spec_pixel_lines(s) + spec_pixel_line(p));
    } else {
        assert(s.push(p).drop_first() =~= s.drop_first().push(p));
        lemma_pixel_lines_push(s.drop_first(), p);
        assert(spec_pixel_line(s[0]) + (spec_pixel_lines(s.drop_first()) + spec_pixel_line(p))
            =~= (spec_pixel_line(s[0]) + spec_pixel_lines(s.drop_first())) + spec_pixel_line(p));
    }
}

/// Serializes a `width x height` row-major RGB buffer as a textual PPM
/// image with the given maximum channel value.
pub fn ppm_bytes(
    width: u32,
    height: u32,
    max_value: u32,
    pixels: &Vec<(u8, u8, u8)>,
) -> (r: Vec<u8>)
    ensures
        r@ == spec_ppm(width, height, max_value, pixels@),
{
    let mut out: Vec<u8> = Vec::new();
    out.push(80);
    out.push(51);
    out.push(LF);
    push_decimal(&mut out, width);
    out.push(SPACE);
    push_decimal(&mut out, height);
    out.push(LF);
    push_decimal(&mut out, max_value);
    out.push(LF);
    proof {
        assert(out@ =~= spec_ppm_header(width, height, max_value));
    }
    let ghost header = out@;
    let n = pixels.len();
    let mut i: usize = 0;
    while i < n
        invariant
            n == pixels@.len(),
            0 <= i <= n,
            header == spec_ppm_header(width, height, max_value),
            out@ == header + spec_pixel_lines(pixels@.take(i as int)),
        decreases n - i,
    {
        let p = pixels[i];
        push_decimal(&mut out, p.0 as u32);
        out.push(SPACE);
        push_decimal(&mut out, p.1 as u32);
        out.push(SPACE);
        push_decimal(&mut out, p.2 as u32);
        out.push(LF);
        proof {
            lemma_pixel_lines_push(pixels@.take(i as int), p);
            assert(pixels@.take(i + 1) =~= pixels@.take(i as int).push(p));
            assert(out@ =~= header + spec_pixel_lines(pixels@.take(i + 1)));
        }
        i = i + 1;
    }
    proof {
        assert(pixels@.take(n as int) =~= pixels@);
    }
    out
}

} // verus!
