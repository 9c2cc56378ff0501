//! Error-diffusion dithering from RGB888 to RGB555.
use crate::fixed::{abs, div_trunc, i64_div_trunc};
use vstd::arithmetic::div_mod::{lemma_fundamental_div_mod, lemma_fundamental_div_mod_converse};
use vstd::prelude::*;

verus! {

/// Width of the device's screen in pixels.
pub const IMG_WIDTH: u16 = 320;

/// Height of the device's screen in pixels.
pub const IMG_HEIGHT: u16 = 240;

/// The "minimized average error" kernel, in 48ths: row `k` below the scan
/// line, column `n` from two left of the scan point to two right of it.
///
/// ```text
/// [ _ _ # 7 5 ]
/// [ 3 5 7 5 3 ]
/// [ 1 3 5 3 1 ]
/// ```
pub open spec fn kernel(k: int, n: int) -> int {
    if k == 0 {
        if n == 3 {
            7
        } else if n == 4 {
            5
        } else {
            0
        }
    } else if k == 1 {
        if n == 0 || n == 4 {
            3
        } else if n == 1 || n == 3 {
            5
        } else {
            7
        }
    } else {
        if n == 0 || n == 4 {
            1
        } else if n == 1 || n == 3 {
            3
        } else {
            5
        }
    }
}

/// An 8-bit level plus its diffused error, scaled to 5 bits and clamped.
pub open spec fn quantize(v: int) -> int {
    let q = div_trunc(v * 31, 255);
    if q < 0 {
        0
    } else if q > 31 {
        31
    } else {
        q
    }
}

/// What quantizing `color` to `q` added: `q` back at 8 bits minus `color`.
pub open spec fn residual(q: int, color: int) -> int {
    q * 255 / 31 - color
}

/// Which of the kernel's cells pixel `q` is for the scan point `p`, in a row
/// of `w` pixels: `5 * row + column`.
pub open spec fn cell(w: int, p: int, q: int) -> int {
    (q / w - p / w) * 5 + (q % w - p % w + 2)
}

/// Whether pixel `q` lies under one of the kernel's weighted cells when the
/// scan point is `p`; cells off the image have no pixel.
pub open spec fn receives(w: int, p: int, q: int) -> bool {
    let k = q / w - p / w;
    let n = q % w - p % w + 2;
    &&& 0 <= k <= 2
    &&& 0 <= n <= 4
    &&& (k > 0 || n >= 3)
}

/// The error buffer after the first `m` kernel cells have taken their share
/// of `err`, subtracted, from the scan point `p`.
pub open spec fn diffuse_upto(e: Seq<int>, w: int, p: int, err: int, m: int) -> Seq<int> {
    Seq::new(
        e.len(),
        |q: int|
            if receives(w, p, q) && cell(w, p, q) < m {
                e[q] - div_trunc(err * kernel(q / w - p / w, q % w - p % w + 2), 48)
            } else {
                e[q]
            },
    )
}

/// The error buffer of channel `c` when the scan reaches pixel `p`.
pub open spec fn err_state(inp: Seq<u8>, w: int, h: int, c: int, p: nat) -> Seq<int>
    decreases p,
{
    if p == 0 {
        Seq::new((w * h) as nat, |q: int| 0)
    } else {
        let q = p - 1;
        let prev = err_state(inp, w, h, c, (p - 1) as nat);
        let color = inp[3 * q + c] as int;
        let conv = quantize(color + prev[q]);
        diffuse_upto(prev, w, q, residual(conv, color), 15)
    }
}

/// The 5-bit level of channel `c` at pixel `p`.
pub open spec fn channel_out(inp: Seq<u8>, w: int, h: int, c: int, p: int) -> int {
    quantize(inp[3 * p + c] + err_state(inp, w, h, c, p as nat)[p])
}

/// Where channel `c` goes in RGB555: red at bit 10, green at 5, blue at 0.
pub open spec fn channel_shift(c: int) -> int {
    if c == 0 {
        1024
    } else if c == 1 {
        32
    } else {
        1
    }
}

/// The first `c` channels of pixel `p`, packed.
pub open spec fn packed_upto(inp: Seq<u8>, w: int, h: int, p: int, c: nat) -> int
    decreases c,
{
    if c == 0 {
        0
    } else {
        packed_upto(inp, w, h, p, (c - 1) as nat) + channel_out(inp, w, h, c - 1, p) * channel_shift(
            c - 1,
        )
    }
}

/// The RGB555 value of pixel `p`.
pub open spec fn dithered(inp: Seq<u8>, w: int, h: int, p: int) -> u16 {
    packed_upto(inp, w, h, p, 3) as u16
}

fn kernel_weight(k: usize, n: usize) -> (r: i64)
    requires
        k < 3,
        n < 5,
    ensures
        r == kernel(k as int, n as int),
        0 <= r <= 7,
{
    if k == 0 {
        if n == 3 {
            7
        } else if n == 4 {
            5
        } else {
            0
        }
    } else if k == 1 {
        if n == 0 || n == 4 {
            3
        } else if n == 1 || n == 3 {
            5
        } else {
            7
        }
    } else {
        if n == 0 || n == 4 {
            1
        } else if n == 1 || n == 3 {
            3
        } else {
            5
        }
    }
}

/// The values of `s` as integers.
pub open spec fn ints(s: Seq<i64>) -> Seq<int> {
    s.map_values(|v: i64| v as int)
}

/// Whether cell `m` of the kernel (row `m / 5`, column `m % 5`) is weighted and
/// lies on the `w` by `h` image for the scan point `p`.
pub open spec fn cell_valid(w: int, h: int, p: int, m: int) -> bool {
    &&& !(m / 5 == 0 && m % 5 < 3)
    &&& p / w + m / 5 < h
    &&& 0 <= p % w + m % 5 - 2 < w
}

/// The pixel under cell `m` of the kernel for the scan point `p`.
pub open spec fn cell_target(w: int, p: int, m: int) -> int {
    (p / w + m / 5) * w + (p % w + m % 5 - 2)
}

proof fn lemma_cell_target(w: int, h: int, p: int, m: int, q: int)
    requires
        w > 0,
        0 <= p < w * h,
        0 <= q < w * h,
        0 <= m < 15,
    ensures
        (receives(w, p, q) && cell(w, p, q) == m) <==> (cell_valid(w, h, p, m) && q == cell_target(w, p, m)),
        (receives(w, p, q) && cell(w, p, q) == m) ==> (q / w - p / w == m / 5 && q % w - p % w + 2 == m % 5),
        p / w < h,
{
    let i = p / w;
    let j = p % w;
    let k = m / 5;
    let n = m % 5;
    lemma_fundamental_div_mod(q, w);
    lemma_fundamental_div_mod(p, w);
    lemma_fundamental_div_mod(m, 5);
    assert(0 <= q / w < h) by (nonlinear_arith)
        requires
            q == w * (q / w) + q % w,
            0 <= q % w < w,
            0 <= q < w * h,
            w > 0,
    ;
    assert(0 <= i < h) by (nonlinear_arith)
        requires
            p == w * i + j,
            0 <= j < w,
            0 <= p < w * h,
            w > 0,
    ;
    if receives(w, p, q) && cell(w, p, q) == m {
        let kk = q / w - i;
        let nn = q % w - j + 2;
        lemma_fundamental_div_mod_converse(m, 5, kk, nn);
        assert(q == w * (i + kk) + (j + nn - 2));
        assert(q == cell_target(w, p, m)) by (nonlinear_arith)
            requires
                q == w * (i + kk) + (j + nn - 2),
                kk == m / 5,
                nn == m % 5,
                i == p / w,
                j == p % w,
        ;
    }
    if cell_valid(w, h, p, m) && q == cell_target(w, p, m) {
        assert(q == w * (i + k) + (j + n - 2)) by (nonlinear_arith)
            requires
                q == (i + k) * w + (j + n - 2),
        ;
        lemma_fundamental_div_mod_converse(q, w, i + k, j + n - 2);
    }
}

/// A level plus its error, quantized: the 5-bit level and the residual.
fn quantize_level(color: u8, e: i64) -> (r: (i64, i64))
    requires
        -0x0100_0000_0000_0000 <= e <= 0x0100_0000_0000_0000,
    ensures
        r.0 == quantize(color + e),
        r.1 == residual(r.0 as int, color as int),
        0 <= r.0 <= 31,
        -255 <= r.1 <= 255,
{
    let q0 = i64_div_trunc((color as i64 + e) * 31, 255);
    let q: i64 = if q0 < 0 {
        0
    } else if q0 > 31 {
        31
    } else {
        q0
    };
    let err = q * 255 / 31 - color as i64;
    (q, err)
}

/// Bound on the error buffer after `p` scan points: each adds at most 37 to a
/// pixel's error, in magnitude.
pub open spec fn err_bound(p: int) -> int {
    37 * p
}

/// Subtracts each weighted kernel cell's share of `err` at the scan point `p`.
fn diffuse(e: &mut Vec<i64>, w: usize, h: usize, p: usize, err: i64)
    requires
        old(e)@.len() == w * h,
        p < w * h,
        w <= 0xffff,
        h <= 0xffff,
        -255 <= err <= 255,
        forall|q: int| 0 <= q < w * h ==> abs(#[trigger] old(e)@[q] as int) <= err_bound(p as int),
    ensures
        final(e)@.len() == w * h,
        ints(final(e)@) == diffuse_upto(ints(old(e)@), w as int, p as int, err as int, 15),
        forall|q: int| 0 <= q < w * h ==> abs(#[trigger] final(e)@[q] as int) <= err_bound(p + 1),
{
    let ghost start = ints(e@);
    let len = e.len();
    let i = p / w;
    let j = p % w;
    proof {
        lemma_cell_target(w as int, h as int, p as int, 0, p as int);
    }
    let mut m: usize = 0;
    assert(ints(e@) =~= diffuse_upto(start, w as int, p as int, err as int, 0));
    while m < 15
        invariant
            0 <= m <= 15,
            e@.len() == w * h,
            start.len() == w * h,
            p < w * h,
            w <= 0xffff,
            h <= 0xffff,
            i == p / w,
            j == p % w,
            i < h,
            j < w,
            len == w * h,
            -255 <= err <= 255,
            forall|q: int| 0 <= q < w * h ==> abs(#[trigger] start[q]) <= err_bound(p as int),
            ints(e@) == diffuse_upto(start, w as int, p as int, err as int, m as int),
        decreases 15 - m,
    {
        let k = m / 5;
        let n = m % 5;
        let ghost before = ints(e@);
        if !(k == 0 && n < 3) && i + k < h && j + n >= 2 && j + n - 2 < w {
            proof {
                assert(cell_valid(w as int, h as int, p as int, m as int));
                assert((i + k) * w + w <= w * h) by (nonlinear_arith)
                    requires i + k < h, w > 0;
            }
            let t = (i + k) * w + (j + n - 2);
            assert(t == cell_target(w as int, p as int, m as int));
            let weight = kernel_weight(k, n);
            let delta = i64_div_trunc(err * weight, 48);
            assert(abs(delta as int) <= 37) by (nonlinear_arith)
                requires
                    delta == div_trunc(err * weight, 48),
                    -255 <= err <= 255,
                    0 <= weight <= 7,
            ;
            let cur = e[t];
            let ghost old_e = e@;
            proof {
                lemma_cell_target(w as int, h as int, p as int, m as int, t as int);
                assert(ints(old_e)[t as int] == old_e[t as int] as int);
                assert(diffuse_upto(start, w as int, p as int, err as int, m as int)[t as int] == start[t as int]);
                assert(cur == start[t as int]);
                assert(abs(cur as int) <= err_bound(p as int));
                assert(err_bound(p as int) <= 37 * 0xffff * 0xffff) by (nonlinear_arith)
                    requires p < w * h, w <= 0xffff, h <= 0xffff;
            }
            e.set(t, cur - delta);
            proof {
                assert forall|q: int| 0 <= q < w * h implies #[trigger] ints(e@)[q] == diffuse_upto(
                    start,
                    w as int,
                    p as int,
                    err as int,
                    m + 1,
                )[q] by {
                    lemma_cell_target(w as int, h as int, p as int, m as int, q);
                    assert(ints(e@)[q] == e@[q] as int);
                    if q == t {
                        assert(e@[q] == cur - delta);
                    } else {
                        assert(e@[q] == old_e[q]);
                        assert(ints(old_e)[q] == old_e[q] as int);
                    }
                }
                assert(ints(e@) =~= diffuse_upto(start, w as int, p as int, err as int, m + 1));
            }
        } else {
            proof {
                assert(!cell_valid(w as int, h as int, p as int, m as int));
                assert forall|q: int| 0 <= q < w * h implies #[trigger] ints(e@)[q] == diffuse_upto(
                    start,
                    w as int,
                    p as int,
                    err as int,
                    m + 1,
                )[q] by {
                    lemma_cell_target(w as int, h as int, p as int, m as int, q);
                    assert(ints(e@)[q] == diffuse_upto(start, w as int, p as int, err as int, m as int)[q]);
                }
                assert(ints(e@) =~= diffuse_upto(start, w as int, p as int, err as int, m + 1));
            }
        }
        m = m + 1;
    }
    proof {
        assert forall|q: int| 0 <= q < w * h implies abs(#[trigger] e@[q] as int) <= err_bound(p + 1) by {
            assert(ints(e@)[q] == e@[q] as int);
            let kk = q / (w as int) - (p as int) / (w as int);
            let nn = q % (w as int) - (p as int) % (w as int) + 2;
            if receives(w as int, p as int, q) {
                assert(0 <= kernel(kk, nn) <= 7);
                assert(abs(div_trunc(err * kernel(kk, nn), 48)) <= 37) by (nonlinear_arith)
                    requires
                        -255 <= err <= 255,
                        0 <= kernel(kk, nn) <= 7,
                ;
            }
        }
    }
}

proof fn lemma_packed_bounds(inp: Seq<u8>, w: int, h: int, p: int)
    ensures
        0 <= packed_upto(inp, w, h, p, 0) == 0,
        0 <= packed_upto(inp, w, h, p, 1) <= 31744,
        0 <= packed_upto(inp, w, h, p, 2) <= 32736,
        0 <= packed_upto(inp, w, h, p, 3) <= 32767,
{
    reveal_with_fuel(packed_upto, 4);
    let r = channel_out(inp, w, h, 0, p);
    let g = channel_out(inp, w, h, 1, p);
    let b = channel_out(inp, w, h, 2, p);
    assert(0 <= r <= 31 && 0 <= g <= 31 && 0 <= b <= 31);
}

/// Dithers `in_img`, RGB888 of `width` by `height` pixels, into `out_img` as
/// RGB555, one channel at a time in raster order. Each level plus the error
/// diffused to it is quantized to 5 bits, and the residual is spread over the
/// pixels not yet visited under the kernel, skipping those off the image.
pub fn dither_image(in_img: &[u8], out_img: &mut Vec<u16>, width: u16, height: u16)
    requires
        in_img@.len() == width * height * 3,
        old(out_img)@.len() == width * height,
    ensures
        final(out_img)@.len() == width * height,
        forall|p: int|
            0 <= p < width * height ==> #[trigger] final(out_img)@[p] == dithered(
                in_img@,
                width as int,
                height as int,
                p,
            ),
{
    let w = width as usize;
    let h = height as usize;
    let n = out_img.len();
    let in_len = in_img.len();
    let ghost inp = in_img@;
    let ghost wi = width as int;
    let ghost hi = height as int;
    let mut p: usize = 0;
    while p < n
        invariant
            p <= n,
            out_img@.len() == n,
            forall|q: int| 0 <= q < p ==> #[trigger] out_img@[q] == 0,
        decreases n - p,
    {
        out_img.set(p, 0);
        p = p + 1;
    }
    let mut c: usize = 0;
    while c < 3
        invariant
            c <= 3,
            n == w * h,
            w == width,
            h == height,
            inp == in_img@,
            wi == w,
            hi == h,
            in_img@.len() == w * h * 3,
            in_len == in_img@.len(),
            out_img@.len() == n,
            forall|q: int| 0 <= q < n ==> #[trigger] out_img@[q] as int == packed_upto(inp, wi, hi, q, c as nat),
        decreases 3 - c,
    {
        let mut e: Vec<i64> = Vec::new();
        while e.len() < n
            invariant
                e@.len() <= n,
                forall|q: int| 0 <= q < e@.len() ==> #[trigger] e@[q] == 0,
            decreases n - e@.len(),
        {
            e.push(0);
        }
        assert(ints(e@) =~= err_state(inp, wi, hi, c as int, 0));
        let shift: u16 = if c == 0 {
            1024
        } else if c == 1 {
            32
        } else {
            1
        };
        let mut p: usize = 0;
        while p < n
            invariant
                c < 3,
                p <= n,
                n == w * h,
                w == width,
                h == height,
                inp == in_img@,
                wi == w,
                hi == h,
                in_img@.len() == w * h * 3,
                in_len == in_img@.len(),
                shift == channel_shift(c as int),
                e@.len() == n,
                out_img@.len() == n,
                ints(e@) == err_state(inp, wi, hi, c as int, p as nat),
                forall|q: int| 0 <= q < n ==> abs(#[trigger] e@[q] as int) <= err_bound(p as int),
                forall|q: int|
                    0 <= q < p ==> #[trigger] out_img@[q] as int == packed_upto(inp, wi, hi, q, (c + 1) as nat),
                forall|q: int|
                    p <= q < n ==> #[trigger] out_img@[q] as int == packed_upto(inp, wi, hi, q, c as nat),
            decreases n - p,
        {
            proof {
                assert(3 * p + c < 3 * n) by (nonlinear_arith)
                    requires p < n, c < 3;
                assert(err_bound(p as int) <= 37 * 0xffff * 0xffff) by (nonlinear_arith)
                    requires p < w * h, w <= 0xffff, h <= 0xffff;
                assert(ints(e@)[p as int] == e@[p as int] as int);
            }
            let color = in_img[3 * p + c];
            let (conv, err) = quantize_level(color, e[p]);
            assert(conv == channel_out(inp, wi, hi, c as int, p as int));
            proof {
                lemma_packed_bounds(inp, wi, hi, p as int);
                assert(packed_upto(inp, wi, hi, p as int, (c + 1) as nat) == packed_upto(inp, wi, hi, p as int, c as nat)
                    + conv * channel_shift(c as int));
            }
            let cur = out_img[p];
            out_img.set(p, cur + (conv as u16) * shift);
            diffuse(&mut e, w, h, p, err);
            p = p + 1;
        }
        c = c + 1;
    }
    proof {
        assert forall|p: int| 0 <= p < width * height implies #[trigger] out_img@[p] == dithered(
            in_img@,
            width as int,
            height as int,
            p,
        ) by {
            lemma_packed_bounds(inp, wi, hi, p);
        }
    }
}

/// Dithers a full frame of the device's screen.
pub fn dither(in_img: &[u8], out_img: &mut Vec<u16>)
    requires
        in_img@.len() == IMG_WIDTH * IMG_HEIGHT * 3,
        old(out_img)@.len() == IMG_WIDTH * IMG_HEIGHT,
    ensures
        final(out_img)@.len() == IMG_WIDTH * IMG_HEIGHT,
        forall|p: int|
            0 <= p < IMG_WIDTH * IMG_HEIGHT ==> #[trigger] final(out_img)@[p] == dithered(
                in_img@,
                IMG_WIDTH as int,
                IMG_HEIGHT as int,
                p,
            ),
{
    dither_image(in_img, out_img, IMG_WIDTH, IMG_HEIGHT)
}

/// Levels that 5 bits hold exactly, 0 and 255, leave no error behind: while
/// every level of the input is one of them, the error buffer of each channel
/// stays zero at every step, and each channel comes out as its level divided by 8.
pub proof fn lemma_exact_levels_diffuse_nothing(inp: Seq<u8>, w: int, h: int, c: int, p: nat)
    requires
        w >= 1,
        h >= 1,
        0 <= c < 3,
        inp.len() == w * h * 3,
        p <= w * h,
        forall|i: int| 0 <= i < inp.len() ==> #[trigger] inp[i] == 0 || inp[i] == 255,
    ensures
        err_state(inp, w, h, c, p).len() == w * h,
        forall|q: int| 0 <= q < w * h ==> #[trigger] err_state(inp, w, h, c, p)[q] == 0,
        p < w * h ==> channel_out(inp, w, h, c, p as int) == inp[3 * p + c] / 8,
    decreases p,
{
    assert(w * h >= 0) by (nonlinear_arith)
        requires w >= 1, h >= 1;
    if p > 0 {
        let q = p - 1;
        lemma_exact_levels_diffuse_nothing(inp, w, h, c, (p - 1) as nat);
        let prev = err_state(inp, w, h, c, (p - 1) as nat);
        assert(3 * q + c < inp.len()) by (nonlinear_arith)
            requires q < w * h, c < 3, inp.len() == w * h * 3;
        let color = inp[3 * q + c] as int;
        assert(prev[q] == 0);
        assert(div_trunc(0int * 31, 255) == 0);
        assert(div_trunc(255int * 31, 255) == 31);
        assert(residual(quantize(color + prev[q]), color) == 0);
        let next = err_state(inp, w, h, c, p);
        assert forall|t: int| 0 <= t < w * h implies #[trigger] next[t] == 0 by {
            assert(prev[t] == 0);
            assert(div_trunc(0 * kernel(t / w - q / w, t % w - q % w + 2), 48) == 0);
        }
    }
    if p < w * h {
        assert(3 * p + c < inp.len()) by (nonlinear_arith)
            requires p < w * h, c < 3, inp.len() == w * h * 3;
        assert(err_state(inp, w, h, c, p)[p as int] == 0);
        let color = inp[3 * p + c] as int;
        assert(div_trunc(0int * 31, 255) == 0);
        assert(div_trunc(255int * 31, 255) == 31);
        assert(quantize(color) == color / 8);
    }
}

/// Where every level of the input is 0 or 255, each pixel comes out as its
/// three levels divided by 8, packed.
pub proof fn lemma_exact_levels_dither(inp: Seq<u8>, w: int, h: int, p: int)
    requires
        w >= 1,
        h >= 1,
        inp.len() == w * h * 3,
        0 <= p < w * h,
        forall|i: int| 0 <= i < inp.len() ==> #[trigger] inp[i] == 0 || inp[i] == 255,
    ensures
        dithered(inp, w, h, p) == (inp[3 * p] / 8) * 1024 + (inp[3 * p + 1] / 8) * 32 + inp[3 * p + 2] / 8,
{
    reveal_with_fuel(packed_upto, 4);
    lemma_exact_levels_diffuse_nothing(inp, w, h, 0, p as nat);
    lemma_exact_levels_diffuse_nothing(inp, w, h, 1, p as nat);
    lemma_exact_levels_diffuse_nothing(inp, w, h, 2, p as nat);
    lemma_packed_bounds(inp, w, h, p);
}

} // verus!
