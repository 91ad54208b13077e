//! The raster effect library: pure numeric transforms over the sampled
//! pixels of a `PixelBuffer`.

use vstd::prelude::*;

verus! {

use vstd::arithmetic::div_mod::{lemma_fundamental_div_mod, lemma_fundamental_div_mod_converse,
    lemma_mod_bound, lemma_multiply_divide_lt};
use crate::error::EngineError;
use crate::pixel::{grid_pos, PixelBuffer};

/// Per-channel inversion: `255 - value` on R, G and B; alpha untouched.
pub open spec fn inverted(d: Seq<u8>) -> Seq<u8> {
    Seq::new(d.len(), |i: int| if i % 4 == 3 { d[i] } else { (255 - d[i]) as u8 })
}

/// The luma-weighted average with equal one-third weights per channel,
/// matching the vector filter's color-matrix coefficients.
pub open spec fn gray_of(r: u8, g: u8, b: u8) -> u8 {
    ((r + g + b) / 3) as u8
}

/// Grayscale: every pixel's R, G and B replaced by their equal-weight
/// average; alpha untouched.
pub open spec fn grayed(d: Seq<u8>) -> Seq<u8> {
    Seq::new(
        d.len(),
        |i: int|
            if i % 4 == 3 {
                d[i]
            } else {
                gray_of(d[4 * (i / 4)], d[4 * (i / 4) + 1], d[4 * (i / 4) + 2])
            },
    )
}

/// One brightened sample: `value + amount`, saturating to [0, 255].
pub open spec fn bright_of(v: u8, amount: int) -> u8 {
    if v + amount < 0 {
        0
    } else if v + amount > 255 {
        255
    } else {
        (v + amount) as u8
    }
}

/// Brighten: saturating add on R, G and B; alpha untouched.
pub open spec fn brightened(d: Seq<u8>, amount: int) -> Seq<u8> {
    Seq::new(d.len(), |i: int| if i % 4 == 3 { d[i] } else { bright_of(d[i], amount) })
}

/// Transparency: every pixel's alpha replaced by the fixed value; R, G and
/// B untouched.
pub open spec fn alpha_set(d: Seq<u8>, a: u8) -> Seq<u8> {
    Seq::new(d.len(), |i: int| if i % 4 == 3 { a } else { d[i] })
}

/// The flat samples of the rectangle at (`x`, `y`) with dimensions
/// `w` x `h` cut out of a grid of flat samples `d` that is `sw` pixels
/// wide.
pub open spec fn crop_seq(d: Seq<u8>, sw: int, x: int, y: int, w: int, h: int) -> Seq<u8> {
    Seq::new((4 * w * h) as nat, |j: int| d[grid_pos(y + (j / 4) / w, x + (j / 4) % w, j % 4, sw)])
}

/// Cuts the rectangle at (`x`, `y`) with dimensions `w` x `h` out of the
/// buffer.  A rectangle that exceeds the source dimensions is rejected,
/// never clamped.
pub fn crop(buf: &PixelBuffer, x: u32, y: u32, w: u32, h: u32) -> (r: Result<
    PixelBuffer,
    EngineError,
>)
    requires
        buf.wf(),
    ensures
        r is Ok <==> x + w <= buf.width && y + h <= buf.height,
        r matches Err(e) ==> e == EngineError::OutOfBounds,
        r matches Ok(c) ==> c.data@ == crop_seq(buf.data@, buf.width as int, x as int, y as int, w as int, h as int),
        r matches Ok(c) ==> c.width == w && c.height == h && c.wf() && forall|
            px: int,
            py: int,
            ch: int,
        |
            0 <= px < w && 0 <= py < h && 0 <= ch < 4 ==> c.chan(px, py, ch) == buf.chan(
                x + px,
                y + py,
                ch,
            ),
{
    if (x as u64) + (w as u64) > (buf.width as u64) || (y as u64) + (h as u64) > (buf.height
        as u64) {
        return Err(EngineError::OutOfBounds);
    }
    let ghost bw = buf.width as int;
    let ghost bh = buf.height as int;
    let mut data: Vec<u8> = Vec::new();
    proof {
        assert(4 * (w as int) * 0 == 0) by (nonlinear_arith);
    }
    for py in 0..h
        invariant
            buf.wf(),
            x + w <= buf.width,
            y + h <= buf.height,
            bw == buf.width as int,
            bh == buf.height as int,
            data@.len() == 4 * (w as int) * (py as int),
            forall|py2: int, px2: int, ch2: int|
                0 <= py2 < py && 0 <= px2 < w && 0 <= ch2 < 4 ==> {
                    let p = #[trigger] grid_pos(py2, px2, ch2, w as int);
                    0 <= p < data@.len() && data@[p] == buf.chan(x + px2, y + py2, ch2)
                },
    {
        for px in 0..w
            invariant
                buf.wf(),
                x + w <= buf.width,
                y + h <= buf.height,
                py < h,
                bw == buf.width as int,
                bh == buf.height as int,
                data@.len() == 4 * (w as int) * (py as int) + 4 * (px as int),
                forall|py2: int, px2: int, ch2: int|
                    (0 <= py2 < py && 0 <= px2 < w && 0 <= ch2 < 4) || (py2 == py && 0 <= px2 < px
                        && 0 <= ch2 < 4) ==> {
                        let p = #[trigger] grid_pos(py2, px2, ch2, w as int);
                        0 <= p < data@.len() && data@[p] == buf.chan(x + px2, y + py2, ch2)
                    },
        {
            let sx = x + px;
            let sy = y + py;
            let n_src = buf.data.len();
            proof {
                assert(0 <= (sy as int) * bw && (sy as int) * bw + (sx as int) < bw * bh)
                    by (nonlinear_arith)
                    requires
                        0 <= sx < bw,
                        0 <= sy < bh,
                ;
                assert(4 * (bw * bh) == 4 * bw * bh) by (nonlinear_arith);
                assert(4 * ((sy as int) * bw + (sx as int)) + 4 <= n_src);
            }
            let base: u64 = 4 * ((sy as u64) * (buf.width as u64) + (sx as u64));
            for ch in 0..4u32
                invariant
                    buf.wf(),
                    x + w <= buf.width,
                    y + h <= buf.height,
                    px < w,
                    py < h,
                    sx == x + px,
                    sy == y + py,
                    bw == buf.width as int,
                    bh == buf.height as int,
                    base == 4 * ((sy as int) * bw + (sx as int)),
                    base + 4 <= buf.data@.len(),
                    base + 4 <= usize::MAX,
                    data@.len() == 4 * (w as int) * (py as int) + 4 * (px as int) + ch,
                    forall|py2: int, px2: int, ch2: int|
                        (0 <= py2 < py && 0 <= px2 < w && 0 <= ch2 < 4) || (py2 == py && 0 <= px2
                            < px && 0 <= ch2 < 4) || (py2 == py && px2 == px && 0 <= ch2 < ch)
                            ==> {
                            let p = #[trigger] grid_pos(py2, px2, ch2, w as int);
                            0 <= p < data@.len() && data@[p] == buf.chan(x + px2, y + py2, ch2)
                        },
            {
                proof {
                    assert(4 * ((py as int) * (w as int) + (px as int)) + (ch as int) == 4 * (w
                        as int) * (py as int) + 4 * (px as int) + (ch as int))
                        by (nonlinear_arith);
                    assert(grid_pos(py as int, px as int, ch as int, w as int) == data@.len());
                }
                let idx = (base + ch as u64) as usize;
                proof {
                    assert(idx == base + ch);
                    assert(buf.chan(x + px as int, y + py as int, ch as int) == buf.data@[idx
                        as int]);
                }
                let v = buf.data[idx];
                data.push(v);
                proof {
                    assert(data@[grid_pos(py as int, px as int, ch as int, w as int)] == buf.chan(
                        x + px as int,
                        y + py as int,
                        ch as int,
                    ));
                }
            }
        }
        proof {
            assert(4 * (w as int) * (py as int) + 4 * (w as int) == 4 * (w as int) * ((py as int)
                + 1)) by (nonlinear_arith);
        }
    }
    proof {
        assert(4 * (w as int) * (h as int) == 4 * ((w as int) * (h as int))) by (nonlinear_arith);
        let wi = w as int;
        let hi = h as int;
        let cs = crop_seq(buf.data@, bw, x as int, y as int, wi, hi);
        assert forall|j: int| 0 <= j < data@.len() implies data@[j] == cs[j] by {
            assert(wi > 0 && hi > 0) by (nonlinear_arith)
                requires
                    0 <= j < 4 * wi * hi,
                    wi >= 0,
                    hi >= 0,
            ;
            let p = j / 4;
            let ch = j % 4;
            let px = p % wi;
            let py = p / wi;
            lemma_fundamental_div_mod(j, 4);
            lemma_mod_bound(j, 4);
            lemma_fundamental_div_mod(p, wi);
            lemma_mod_bound(p, wi);
            assert(j < 4 * (wi * hi)) by (nonlinear_arith)
                requires
                    j < 4 * wi * hi,
            ;
            assert(p < wi * hi);
            lemma_multiply_divide_lt(p, wi, hi);
            assert(4 * (py * wi + px) + ch == j) by (nonlinear_arith)
                requires
                    j == 4 * p + ch,
                    p == wi * py + px,
            ;
            assert(grid_pos(py, px, ch, wi) == j);
            assert(data@[grid_pos(py, px, ch, wi)] == buf.chan(x + px, y + py, ch));
        }
        assert(data@ =~= cs);
    }
    Ok(PixelBuffer { width: w, height: h, data })
}

/// Inverts R, G and B of every pixel in place.
pub fn invert(buf: PixelBuffer) -> (r: PixelBuffer)
    ensures
        r.width == buf.width,
        r.height == buf.height,
        r.data@ == inverted(buf.data@),
        buf.wf() ==> r.wf(),
{
    let mut data = buf.data;
    let ghost orig = data@;
    let n = data.len();
    for i in 0..n
        invariant
            n == data@.len(),
            n == orig.len(),
            forall|j: int| 0 <= j < i ==> data@[j] == inverted(orig)[j],
            forall|j: int| i <= j < n ==> data@[j] == orig[j],
    {
        if i % 4 != 3 {
            let v = data[i];
            data.set(i, 255 - v);
        }
    }
    proof {
        assert(data@ =~= inverted(orig));
    }
    PixelBuffer { width: buf.width, height: buf.height, data }
}

/// Replaces every pixel's R, G and B by their equal-weight average.
pub fn grayscale(buf: PixelBuffer) -> (r: PixelBuffer)
    requires
        buf.wf(),
    ensures
        r.width == buf.width,
        r.height == buf.height,
        r.data@ == grayed(buf.data@),
        r.wf(),
{
    let mut data = buf.data;
    let ghost orig = data@;
    let n = data.len();
    let pixels = n / 4;
    proof {
        let k = (buf.width as int) * (buf.height as int);
        assert(4 * (buf.width as int) * (buf.height as int) == 4 * k) by (nonlinear_arith)
            requires
                k == (buf.width as int) * (buf.height as int),
        ;
        assert(n % 4 == 0) by (nonlinear_arith)
            requires
                n == 4 * k,
                k >= 0,
        ;
        assert(n == 4 * (n as int / 4));
    }
    for p in 0..pixels
        invariant
            n == data@.len(),
            n == orig.len(),
            n == 4 * pixels,
            forall|j: int| 0 <= j < 4 * p ==> data@[j] == grayed(orig)[j],
            forall|j: int| 4 * p <= j < n ==> data@[j] == orig[j],
    {
        let base = 4 * p;
        let sum = data[base] as u32 + data[base + 1] as u32 + data[base + 2] as u32;
        let g = (sum / 3) as u8;
        proof {
            assert(base / 4 == p as int && (base + 1) / 4 == p as int && (base + 2) / 4 == p
                as int);
            assert(g == gray_of(orig[4 * (p as int)], orig[4 * (p as int) + 1], orig[4 * (p
                as int) + 2]));
        }
        data.set(base, g);
        data.set(base + 1, g);
        data.set(base + 2, g);
    }
    proof {
        assert(data@ =~= grayed(orig));
    }
    PixelBuffer { width: buf.width, height: buf.height, data }
}

/// Adds `amount` to every pixel's R, G and B, saturating to [0, 255].
pub fn brighten(buf: PixelBuffer, amount: i32) -> (r: PixelBuffer)
    ensures
        r.width == buf.width,
        r.height == buf.height,
        r.data@ == brightened(buf.data@, amount as int),
        buf.wf() ==> r.wf(),
{
    let mut data = buf.data;
    let ghost orig = data@;
    let n = data.len();
    for i in 0..n
        invariant
            n == data@.len(),
            n == orig.len(),
            forall|j: int| 0 <= j < i ==> data@[j] == brightened(orig, amount as int)[j],
            forall|j: int| i <= j < n ==> data@[j] == orig[j],
    {
        if i % 4 != 3 {
            let s = data[i] as i64 + amount as i64;
            let v: u8 = if s < 0 {
                0
            } else if s > 255 {
                255
            } else {
                s as u8
            };
            data.set(i, v);
        }
    }
    proof {
        assert(data@ =~= brightened(orig, amount as int));
    }
    PixelBuffer { width: buf.width, height: buf.height, data }
}

/// Sets every pixel's alpha channel to the fixed value `alpha`.
pub fn transparency(buf: PixelBuffer, alpha: u8) -> (r: PixelBuffer)
    ensures
        r.width == buf.width,
        r.height == buf.height,
        r.data@ == alpha_set(buf.data@, alpha),
        buf.wf() ==> r.wf(),
{
    let mut data = buf.data;
    let ghost orig = data@;
    let n = data.len();
    for i in 0..n
        invariant
            n == data@.len(),
            n == orig.len(),
            forall|j: int| 0 <= j < i ==> data@[j] == alpha_set(orig, alpha)[j],
            forall|j: int| i <= j < n ==> data@[j] == orig[j],
    {
        if i % 4 == 3 {
            data.set(i, alpha);
        }
    }
    proof {
        assert(data@ =~= alpha_set(orig, alpha));
    }
    PixelBuffer { width: buf.width, height: buf.height, data }
}

/// Inversion is an exact involution on 8-bit samples: applied twice to any
/// flat sample sequence it yields the original values exactly, R, G, B and
/// alpha alike.
pub proof fn lemma_invert_involution(d: Seq<u8>)
    ensures
        inverted(inverted(d)) == d,
{
    assert(inverted(inverted(d)) =~= d);
}

/// The raster grayscale uses the very weights the vector color matrix
/// declares: its value is the integer truncation of the exact equal-weight
/// channel mean, so the two differ by less than one intensity step.
pub proof fn lemma_grayscale_weights(r: u8, g: u8, b: u8)
    ensures
        3 * gray_of(r, g, b) <= r + g + b,
        r + g + b < 3 * gray_of(r, g, b) + 3,
{
}

proof fn lemma_grid_pos_decompose(y: int, x: int, c: int, w: int)
    requires
        0 <= x < w,
        0 <= y,
        0 <= c < 4,
    ensures
        grid_pos(y, x, c, w) / 4 == y * w + x,
        grid_pos(y, x, c, w) % 4 == c,
        (grid_pos(y, x, c, w) / 4) % w == x,
        (grid_pos(y, x, c, w) / 4) / w == y,
{
    let q = y * w + x;
    assert(q >= 0) by (nonlinear_arith)
        requires
            q == y * w + x,
            y >= 0,
            w > 0,
            x >= 0,
    ;
    lemma_fundamental_div_mod_converse(grid_pos(y, x, c, w), 4, q, c);
    lemma_fundamental_div_mod_converse(q, w, y, x);
}

/// Horizontal flip: every row reversed.
pub open spec fn flip_h_seq(d: Seq<u8>, w: int, h: int) -> Seq<u8> {
    Seq::new((4 * w * h) as nat, |j: int| d[grid_pos((j / 4) / w, w - 1 - (j / 4) % w, j % 4, w)])
}

/// Vertical flip: the rows in reverse order.
pub open spec fn flip_v_seq(d: Seq<u8>, w: int, h: int) -> Seq<u8> {
    Seq::new((4 * w * h) as nat, |j: int| d[grid_pos(h - 1 - (j / 4) / w, (j / 4) % w, j % 4, w)])
}

/// Transposition: rows become columns; the grid that was `w` wide is `h`
/// wide afterwards.
pub open spec fn transpose_seq(d: Seq<u8>, w: int, h: int) -> Seq<u8> {
    Seq::new((4 * h * w) as nat, |j: int| d[grid_pos((j / 4) % h, (j / 4) / h, j % 4, w)])
}

/// Mirrors the image left to right.  Lossless and dimension-preserving.
pub fn flip_horizontal(buf: PixelBuffer) -> (r: PixelBuffer)
    requires
        buf.wf(),
    ensures
        r.width == buf.width,
        r.height == buf.height,
        r.wf(),
        r.data@ == flip_h_seq(buf.data@, buf.width as int, buf.height as int),
        forall|x: int, y: int, c: int|
            0 <= x < buf.width && 0 <= y < buf.height && 0 <= c < 4 ==> r.chan(x, y, c)
                == buf.chan(buf.width - 1 - x, y, c),
{
    let w = buf.width;
    let h = buf.height;
    let ghost wi = w as int;
    let ghost hi = h as int;
    let ghost fs = flip_h_seq(buf.data@, wi, hi);
    let total = buf.data.len();
    proof {
        assert(4 * wi * hi == 4 * (wi * hi)) by (nonlinear_arith);
    }
    let mut data: Vec<u8> = Vec::new();
    for j in 0..total
        invariant
            buf.wf(),
            w == buf.width,
            h == buf.height,
            wi == w as int,
            hi == h as int,
            total == buf.data@.len(),
            total == 4 * (wi * hi),
            fs == flip_h_seq(buf.data@, wi, hi),
            fs.len() == total,
            data@ == fs.take(j as int),
    {
        let p = j / 4;
        let c = j % 4;
        let x = p % (w as usize);
        let y = p / (w as usize);
        proof {
            lemma_multiply_divide_lt(j as int, 4, wi * hi);
            lemma_mod_bound(p as int, wi);
            lemma_multiply_divide_lt(p as int, wi, hi);
            assert(0 <= (y as int) * wi && (y as int) * wi + (wi - 1 - x as int) < wi * hi)
                by (nonlinear_arith)
                requires
                    0 <= x < wi,
                    0 <= y < hi,
            ;
        }
        let sx = w as usize - 1 - x;
        let idx = (4 * ((y as u64) * (w as u64) + (sx as u64)) + (c as u64)) as usize;
        proof {
            assert(idx as int == grid_pos(y as int, wi - 1 - x as int, c as int, wi));
        }
        let v = buf.data[idx];
        data.push(v);
        proof {
            assert(fs[j as int] == v);
            assert(data@ =~= fs.take(j as int + 1));
        }
    }
    proof {
        assert(data@ =~= fs);
        assert forall|x: int, y: int, c: int|
            0 <= x < wi && 0 <= y < hi && 0 <= c < 4 implies fs[grid_pos(y, x, c, wi)] == buf.chan(
            wi - 1 - x,
            y,
            c,
        ) by {
            lemma_grid_pos_decompose(y, x, c, wi);
            assert(0 <= y * wi + x < wi * hi) by (nonlinear_arith)
                requires
                    0 <= x < wi,
                    0 <= y < hi,
            ;
        }
    }
    PixelBuffer { width: w, height: h, data }
}

/// Mirrors the image top to bottom.  Lossless and dimension-preserving.
pub fn flip_vertical(buf: PixelBuffer) -> (r: PixelBuffer)
    requires
        buf.wf(),
    ensures
        r.width == buf.width,
        r.height == buf.height,
        r.wf(),
        r.data@ == flip_v_seq(buf.data@, buf.width as int, buf.height as int),
        forall|x: int, y: int, c: int|
            0 <= x < buf.width && 0 <= y < buf.height && 0 <= c < 4 ==> r.chan(x, y, c)
                == buf.chan(x, buf.height - 1 - y, c),
{
    let w = buf.width;
    let h = buf.height;
    let ghost wi = w as int;
    let ghost hi = h as int;
    let ghost fs = flip_v_seq(buf.data@, wi, hi);
    let total = buf.data.len();
    proof {
        assert(4 * wi * hi == 4 * (wi * hi)) by (nonlinear_arith);
    }
    let mut data: Vec<u8> = Vec::new();
    for j in 0..total
        invariant
            buf.wf(),
            w == buf.width,
            h == buf.height,
            wi == w as int,
            hi == h as int,
            total == buf.data@.len(),
            total == 4 * (wi * hi),
            fs == flip_v_seq(buf.data@, wi, hi),
            fs.len() == total,
            data@ == fs.take(j as int),
    {
        let p = j / 4;
        let c = j % 4;
        let x = p % (w as usize);
        let y = p / (w as usize);
        proof {
            lemma_multiply_divide_lt(j as int, 4, wi * hi);
            lemma_mod_bound(p as int, wi);
            lemma_multiply_divide_lt(p as int, wi, hi);
            assert(0 <= (hi - 1 - y as int) * wi && (hi - 1 - y as int) * wi + (x as int) < wi
                * hi) by (nonlinear_arith)
                requires
                    0 <= x < wi,
                    0 <= y < hi,
            ;
        }
        let sy = h as usize - 1 - y;
        let idx = (4 * ((sy as u64) * (w as u64) + (x as u64)) + (c as u64)) as usize;
        proof {
            assert(idx as int == grid_pos(hi - 1 - y as int, x as int, c as int, wi));
        }
        let v = buf.data[idx];
        data.push(v);
        proof {
            assert(fs[j as int] == v);
            assert(data@ =~= fs.take(j as int + 1));
        }
    }
    proof {
        assert(data@ =~= fs);
        assert forall|x: int, y: int, c: int|
            0 <= x < wi && 0 <= y < hi && 0 <= c < 4 implies fs[grid_pos(y, x, c, wi)] == buf.chan(
            x,
            hi - 1 - y,
            c,
        ) by {
            lemma_grid_pos_decompose(y, x, c, wi);
            assert(0 <= y * wi + x < wi * hi) by (nonlinear_arith)
                requires
                    0 <= x < wi,
                    0 <= y < hi,
            ;
        }
    }
    PixelBuffer { width: w, height: h, data }
}

/// Transposes the grid: rows become columns, width and height swap.
pub fn transpose(buf: PixelBuffer) -> (r: PixelBuffer)
    requires
        buf.wf(),
    ensures
        r.width == buf.height,
        r.height == buf.width,
        r.wf(),
        r.data@ == transpose_seq(buf.data@, buf.width as int, buf.height as int),
        forall|x: int, y: int, c: int|
            0 <= x < buf.height && 0 <= y < buf.width && 0 <= c < 4 ==> r.chan(x, y, c)
                == buf.chan(y, x, c),
{
    let w = buf.width;
    let h = buf.height;
    let ghost wi = w as int;
    let ghost hi = h as int;
    let ghost fs = transpose_seq(buf.data@, wi, hi);
    let total = buf.data.len();
    proof {
        assert(4 * wi * hi == 4 * (wi * hi) && 4 * hi * wi == 4 * (wi * hi)) by (nonlinear_arith);
    }
    let mut data: Vec<u8> = Vec::new();
    for j in 0..total
        invariant
            buf.wf(),
            w == buf.width,
            h == buf.height,
            wi == w as int,
            hi == h as int,
            total == buf.data@.len(),
            total == 4 * (wi * hi),
            4 * hi * wi == 4 * (wi * hi),
            fs == transpose_seq(buf.data@, wi, hi),
            fs.len() == total,
            data@ == fs.take(j as int),
    {
        let p = j / 4;
        let c = j % 4;
        let x = p % (h as usize);
        let y = p / (h as usize);
        proof {
            assert(hi * wi == wi * hi) by (nonlinear_arith);
            lemma_multiply_divide_lt(j as int, 4, hi * wi);
            lemma_mod_bound(p as int, hi);
            lemma_multiply_divide_lt(p as int, hi, wi);
            assert(0 <= (x as int) * wi && (x as int) * wi + (y as int) < wi * hi)
                by (nonlinear_arith)
                requires
                    0 <= x < hi,
                    0 <= y < wi,
            ;
        }
        let idx = (4 * ((x as u64) * (w as u64) + (y as u64)) + (c as u64)) as usize;
        proof {
            assert(idx as int == grid_pos(x as int, y as int, c as int, wi));
        }
        let v = buf.data[idx];
        data.push(v);
        proof {
            assert(fs[j as int] == v);
            assert(data@ =~= fs.take(j as int + 1));
        }
    }
    proof {
        assert(data@ =~= fs);
        assert forall|x: int, y: int, c: int|
            0 <= x < hi && 0 <= y < wi && 0 <= c < 4 implies fs[grid_pos(y, x, c, hi)] == buf.chan(
            y,
            x,
            c,
        ) by {
            lemma_grid_pos_decompose(y, x, c, hi);
            assert(0 <= y * hi + x < hi * wi && hi * wi == wi * hi) by (nonlinear_arith)
                requires
                    0 <= x < hi,
                    0 <= y < wi,
            ;
        }
    }
    PixelBuffer { width: h, height: w, data }
}

/// Rotates the image a quarter turn clockwise: width and height swap.
pub fn rotate90(buf: PixelBuffer) -> (r: PixelBuffer)
    requires
        buf.wf(),
    ensures
        r.width == buf.height,
        r.height == buf.width,
        r.wf(),
        forall|x: int, y: int, c: int|
            0 <= x < buf.height && 0 <= y < buf.width && 0 <= c < 4 ==> r.chan(x, y, c)
                == buf.chan(y, buf.height - 1 - x, c),
{
    transpose(flip_vertical(buf))
}

/// Rotates the image a half turn.  Lossless and dimension-preserving.
pub fn rotate180(buf: PixelBuffer) -> (r: PixelBuffer)
    requires
        buf.wf(),
    ensures
        r.width == buf.width,
        r.height == buf.height,
        r.wf(),
        forall|x: int, y: int, c: int|
            0 <= x < buf.width && 0 <= y < buf.height && 0 <= c < 4 ==> r.chan(x, y, c)
                == buf.chan(buf.width - 1 - x, buf.height - 1 - y, c),
{
    flip_horizontal(flip_vertical(buf))
}

/// Rotates the image a quarter turn counterclockwise: width and height
/// swap.
pub fn rotate270(buf: PixelBuffer) -> (r: PixelBuffer)
    requires
        buf.wf(),
    ensures
        r.width == buf.height,
        r.height == buf.width,
        r.wf(),
        forall|x: int, y: int, c: int|
            0 <= x < buf.height && 0 <= y < buf.width && 0 <= c < 4 ==> r.chan(x, y, c)
                == buf.chan(buf.width - 1 - y, x, c),
{
    transpose(flip_horizontal(buf))
}

} // verus!
