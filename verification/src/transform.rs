//! The frame transform engine: the per-pixel gray formula and the row-by-row
//! rewriting of a packed color frame into a gray or packed-gray frame.

use vstd::arithmetic::div_mod::lemma_fundamental_div_mod_converse;
use vstd::arithmetic::mul::lemma_mul_inequality;
use vstd::arithmetic::mul::lemma_mul_is_distributive_add_other_way;
use vstd::arithmetic::mul::lemma_mul_nonnegative;
use vstd::prelude::*;

verus! {

/// The BT.601 luma of one packed pixel, in 16.16 fixed point: the blue,
/// green and red bytes weighted by 7471, 38470 and 19595 (0.114, 0.587 and
/// 0.299 times 65536), summed and divided by 65536.
pub open spec fn luma(b: u8, g: u8, r: u8) -> int {
    (b * 7471 + g * 38470 + r * 19595) / 65536
}

/// The luma of any pixel is itself a byte value. The three weights sum to
/// exactly 65536, so all-white maps to 255.
pub proof fn lemma_luma_bounds(b: u8, g: u8, r: u8)
    ensures
        0 <= luma(b, g, r) <= 255,
{
    assert(b * 7471 + g * 38470 + r * 19595 <= 255 * 65536);
}

/// The gray byte written for one input pixel under the current settings:
/// the luma, shifted with wraparound (not saturation), then optionally
/// inverted.
pub open spec fn gray_value(b: u8, g: u8, r: u8, shift: u8, invert: bool) -> u8 {
    let shifted = (luma(b, g, r) + shift) % 256;
    if invert {
        (255 - shifted) as u8
    } else {
        shifted as u8
    }
}

/// Compute the gray byte for one pixel given as its blue, green and red
/// channel bytes.
pub fn bgrx_to_gray(b: u8, g: u8, r: u8, shift: u8, invert: bool) -> (gray: u8)
    ensures
        gray == gray_value(b, g, r, shift, invert),
{
    let sum: u32 = (b as u32) * 7471 + (g as u32) * 38470 + (r as u32) * 19595;
    proof {
        lemma_luma_bounds(b, g, r);
    }
    let l: u8 = (sum / 65536) as u8;
    let shifted = l.wrapping_add(shift);
    proof {
        assert(shifted == (l + shift) % 256) by {
            if l + shift > 255 {
                assert((l + shift) % 256 == l + shift - 256) by {
                    lemma_fundamental_div_mod_converse(
                        l + shift,
                        256,
                        1,
                        l + shift - 256,
                    );
                };
            } else {
                assert((l + shift) % 256 == l + shift) by {
                    lemma_fundamental_div_mod_converse(l + shift, 256, 0, l + shift);
                };
            }
        };
    }
    if invert {
        255 - shifted
    } else {
        shifted
    }
}

/// The byte at offset `i` of a gray output frame: inside a row's first `w`
/// bytes, the gray value of the input pixel at the same row and column;
/// inside a row's stride padding, the byte that was already there.
pub open spec fn gray8_out_byte(
    inp: Seq<u8>,
    old_out: Seq<u8>,
    w: int,
    in_stride: int,
    out_stride: int,
    shift: u8,
    invert: bool,
    i: int,
) -> u8 {
    let row = i / out_stride;
    let col = i % out_stride;
    if col < w {
        gray_value(
            inp[row * in_stride + 4 * col],
            inp[row * in_stride + 4 * col + 1],
            inp[row * in_stride + 4 * col + 2],
            shift,
            invert,
        )
    } else {
        old_out[i]
    }
}

/// Rewrite a packed color frame as a single-byte gray frame: `h` rows of `w`
/// pixels, each side under its own stride; the padding bytes of every output
/// row are left untouched.
pub fn transform_frame_gray8(
    inp: &Vec<u8>,
    out: &mut Vec<u8>,
    w: usize,
    h: usize,
    in_stride: usize,
    out_stride: usize,
    shift: u8,
    invert: bool,
)
    requires
        4 * w <= in_stride,
        w <= out_stride,
        inp@.len() == in_stride * h,
        old(out)@.len() == out_stride * h,
    ensures
        final(out)@.len() == old(out)@.len(),
        forall|i: int|
            0 <= i < final(out)@.len() ==> final(out)@[i] == gray8_out_byte(
                inp@,
                old(out)@,
                w as int,
                in_stride as int,
                out_stride as int,
                shift,
                invert,
                i,
            ),
{
    let ghost orig = old(out)@;
    let in_len: usize = inp.len();
    let out_len: usize = out.len();
    let mut row: usize = 0;
    proof {
        lemma_mul_nonnegative(out_stride as int, h as int);
        lemma_mul_nonnegative(in_stride as int, h as int);
    }
    while row < h
        invariant
            0 <= row <= h,
            4 * w <= in_stride,
            w <= out_stride,
            inp@.len() == in_stride * h,
            out@.len() == out_stride * h,
            in_len == inp@.len(),
            out_len == out@.len(),
            orig.len() == out@.len(),
            forall|i: int|
                0 <= i < row * out_stride ==> out@[i] == gray8_out_byte(
                    inp@,
                    orig,
                    w as int,
                    in_stride as int,
                    out_stride as int,
                    shift,
                    invert,
                    i,
                ),
            forall|i: int| row * out_stride <= i < out@.len() ==> out@[i] == orig[i],
        decreases h - row,
    {
        proof {
            lemma_mul_inequality(row as int + 1, h as int, out_stride as int);
            lemma_mul_is_distributive_add_other_way(out_stride as int, row as int, 1);
            lemma_mul_inequality(row as int + 1, h as int, in_stride as int);
            lemma_mul_is_distributive_add_other_way(in_stride as int, row as int, 1);
            lemma_mul_nonnegative(row as int, out_stride as int);
            lemma_mul_nonnegative(row as int, in_stride as int);
            assert(out_stride * row == row * out_stride) by (nonlinear_arith);
            assert(in_stride * row == row * in_stride) by (nonlinear_arith);
            assert(out_stride * h == h * out_stride) by (nonlinear_arith);
            assert(in_stride * h == h * in_stride) by (nonlinear_arith);
        }
        let out_base: usize = row * out_stride;
        let in_base: usize = row * in_stride;
        let mut col: usize = 0;
        while col < w
            invariant
                0 <= col <= w,
                0 <= row < h,
                4 * w <= in_stride,
                w <= out_stride,
                inp@.len() == in_stride * h,
                out@.len() == out_stride * h,
                in_len == inp@.len(),
                out_len == out@.len(),
                orig.len() == out@.len(),
                out_base == row * out_stride,
                in_base == row * in_stride,
                out_base + out_stride <= out@.len(),
                in_base + in_stride <= inp@.len(),
                forall|i: int|
                    0 <= i < out_base + col ==> out@[i] == gray8_out_byte(
                        inp@,
                        orig,
                        w as int,
                        in_stride as int,
                        out_stride as int,
                        shift,
                        invert,
                        i,
                    ),
                forall|i: int| out_base + col <= i < out@.len() ==> out@[i] == orig[i],
            decreases w - col,
        {
            let b = inp[in_base + 4 * col];
            let g = inp[in_base + 4 * col + 1];
            let r = inp[in_base + 4 * col + 2];
            let gray = bgrx_to_gray(b, g, r, shift, invert);
            out[out_base + col] = gray;
            proof {
                let idx = out_base + col as int;
                lemma_fundamental_div_mod_converse(
                    idx,
                    out_stride as int,
                    row as int,
                    col as int,
                );
                assert(out@[idx] == gray8_out_byte(
                    inp@,
                    orig,
                    w as int,
                    in_stride as int,
                    out_stride as int,
                    shift,
                    invert,
                    idx,
                ));
            }
            col = col + 1;
        }
        proof {
            assert forall|i: int|
                out_base + w <= i < out_base + out_stride implies out@[i] == gray8_out_byte(
                inp@,
                orig,
                w as int,
                in_stride as int,
                out_stride as int,
                shift,
                invert,
                i,
            ) by {
                lemma_fundamental_div_mod_converse(
                    i,
                    out_stride as int,
                    row as int,
                    i - out_base,
                );
            };
            lemma_mul_is_distributive_add_other_way(out_stride as int, row as int, 1);
        }
        row = row + 1;
    }
    proof {
        assert(h * out_stride == out_stride * h) by (nonlinear_arith);
    }
}

/// The byte at offset `i` of a packed color output frame: inside a row's
/// first `4 * w` bytes, the gray value of the pixel at the same row and
/// column for the three color-channel positions, and the byte that was
/// already there for every fourth (X) position; inside a row's stride
/// padding, the byte that was already there.
pub open spec fn bgrx_out_byte(
    inp: Seq<u8>,
    old_out: Seq<u8>,
    w: int,
    in_stride: int,
    out_stride: int,
    shift: u8,
    invert: bool,
    i: int,
) -> u8 {
    let row = i / out_stride;
    let col = i % out_stride;
    if col < 4 * w && col % 4 != 3 {
        gray_value(
            inp[row * in_stride + 4 * (col / 4)],
            inp[row * in_stride + 4 * (col / 4) + 1],
            inp[row * in_stride + 4 * (col / 4) + 2],
            shift,
            invert,
        )
    } else {
        old_out[i]
    }
}

/// Rewrite a packed color frame as a packed gray frame: the gray value is
/// written into the three color-channel bytes of each output pixel, the
/// fourth byte and the padding bytes of every output row are left untouched.
pub fn transform_frame_bgrx(
    inp: &Vec<u8>,
    out: &mut Vec<u8>,
    w: usize,
    h: usize,
    in_stride: usize,
    out_stride: usize,
    shift: u8,
    invert: bool,
)
    requires
        4 * w <= in_stride,
        4 * w <= out_stride,
        inp@.len() == in_stride * h,
        old(out)@.len() == out_stride * h,
    ensures
        final(out)@.len() == old(out)@.len(),
        forall|i: int|
            0 <= i < final(out)@.len() ==> final(out)@[i] == bgrx_out_byte(
                inp@,
                old(out)@,
                w as int,
                in_stride as int,
                out_stride as int,
                shift,
                invert,
                i,
            ),
{
    let ghost orig = old(out)@;
    let in_len: usize = inp.len();
    let out_len: usize = out.len();
    let mut row: usize = 0;
    proof {
        lemma_mul_nonnegative(out_stride as int, h as int);
        lemma_mul_nonnegative(in_stride as int, h as int);
    }
    while row < h
        invariant
            0 <= row <= h,
            4 * w <= in_stride,
            4 * w <= out_stride,
            inp@.len() == in_stride * h,
            out@.len() == out_stride * h,
            in_len == inp@.len(),
            out_len == out@.len(),
            orig.len() == out@.len(),
            forall|i: int|
                0 <= i < row * out_stride ==> out@[i] == bgrx_out_byte(
                    inp@,
                    orig,
                    w as int,
                    in_stride as int,
                    out_stride as int,
                    shift,
                    invert,
                    i,
                ),
            forall|i: int| row * out_stride <= i < out@.len() ==> out@[i] == orig[i],
        decreases h - row,
    {
        proof {
            lemma_mul_inequality(row as int + 1, h as int, out_stride as int);
            lemma_mul_is_distributive_add_other_way(out_stride as int, row as int, 1);
            lemma_mul_inequality(row as int + 1, h as int, in_stride as int);
            lemma_mul_is_distributive_add_other_way(in_stride as int, row as int, 1);
            lemma_mul_nonnegative(row as int, out_stride as int);
            lemma_mul_nonnegative(row as int, in_stride as int);
            assert(out_stride * row == row * out_stride) by (nonlinear_arith);
            assert(in_stride * row == row * in_stride) by (nonlinear_arith);
            assert(out_stride * h == h * out_stride) by (nonlinear_arith);
            assert(in_stride * h == h * in_stride) by (nonlinear_arith);
        }
        let out_base: usize = row * out_stride;
        let in_base: usize = row * in_stride;
        let mut col: usize = 0;
        while col < w
            invariant
                0 <= col <= w,
                0 <= row < h,
                4 * w <= in_stride,
                4 * w <= out_stride,
                inp@.len() == in_stride * h,
                out@.len() == out_stride * h,
                in_len == inp@.len(),
                out_len == out@.len(),
                orig.len() == out@.len(),
                out_base == row * out_stride,
                in_base == row * in_stride,
                out_base + out_stride <= out@.len(),
                in_base + in_stride <= inp@.len(),
                forall|i: int|
                    0 <= i < out_base + 4 * col ==> out@[i] == bgrx_out_byte(
                        inp@,
                        orig,
                        w as int,
                        in_stride as int,
                        out_stride as int,
                        shift,
                        invert,
                        i,
                    ),
                forall|i: int| out_base + 4 * col <= i < out@.len() ==> out@[i] == orig[i],
            decreases w - col,
        {
            let b = inp[in_base + 4 * col];
            let g = inp[in_base + 4 * col + 1];
            let r = inp[in_base + 4 * col + 2];
            let gray = bgrx_to_gray(b, g, r, shift, invert);
            out[out_base + 4 * col] = gray;
            out[out_base + 4 * col + 1] = gray;
            out[out_base + 4 * col + 2] = gray;
            proof {
                assert forall|i: int|
                    out_base + 4 * col <= i < out_base + 4 * (col + 1) implies out@[i]
                    == bgrx_out_byte(
                    inp@,
                    orig,
                    w as int,
                    in_stride as int,
                    out_stride as int,
                    shift,
                    invert,
                    i,
                ) by {
                    let c = i - out_base;
                    lemma_fundamental_div_mod_converse(i, out_stride as int, row as int, c);
                    lemma_fundamental_div_mod_converse(c, 4, col as int, c - 4 * col);
                };
            }
            col = col + 1;
        }
        proof {
            assert forall|i: int|
                out_base + 4 * w <= i < out_base + out_stride implies out@[i] == bgrx_out_byte(
                inp@,
                orig,
                w as int,
                in_stride as int,
                out_stride as int,
                shift,
                invert,
                i,
            ) by {
                lemma_fundamental_div_mod_converse(
                    i,
                    out_stride as int,
                    row as int,
                    i - out_base,
                );
            };
            lemma_mul_is_distributive_add_other_way(out_stride as int, row as int, 1);
        }
        row = row + 1;
    }
    proof {
        assert(h * out_stride == out_stride * h) by (nonlinear_arith);
    }
}

} // verus!
