//! The mask compositor: scales the target image's alpha channel by a mask
//! image's alpha or luma, resampling the mask to the target's dimensions
//! with nearest-neighbor sampling when they differ.

use vstd::prelude::*;

verus! {

use vstd::arithmetic::div_mod::{lemma_mod_bound, lemma_multiply_divide_lt};
use crate::args;
use crate::error::EngineError;
use crate::pixel::{grid_pos, PixelBuffer};
use crate::resolver;
use crate::resolver::{decoded_rgba, encode_ok, encoded_image, sniffed, OutputFormat};

/// Perceptual brightness of an RGB sample: the ITU-R BT.709 weights scaled
/// by 10000, truncated.
pub open spec fn luma_of(r: u8, g: u8, b: u8) -> u8 {
    ((2126 * r + 7152 * g + 722 * b) / 10000) as u8
}

/// The composited alpha: round(Ta * Mv / 255) on 8-bit samples, which is
/// round(Ta/255 * Mv/255 * 255) with both factors normalized to [0, 1].
/// Computed exactly as floor((2*Ta*Mv + 255) / 510); always in [0, 255].
pub open spec fn mask_alpha(ta: u8, mv: u8) -> u8 {
    ((2 * ta * mv + 255) / 510) as u8
}

/// The mask value of pixel `p` of the mask samples: the pixel's alpha
/// channel when `use_alpha` is set, its luma otherwise.
pub open spec fn mask_value(m: Seq<u8>, p: int, use_alpha: bool) -> u8 {
    if use_alpha {
        m[4 * p + 3]
    } else {
        luma_of(m[4 * p], m[4 * p + 1], m[4 * p + 2])
    }
}

/// The composited samples: R, G and B copied from the target, the alpha
/// scaled by the mask value of the same pixel.
pub open spec fn masked(t: Seq<u8>, m: Seq<u8>, use_alpha: bool) -> Seq<u8> {
    Seq::new(
        t.len(),
        |j: int|
            if j % 4 == 3 {
                mask_alpha(t[j], mask_value(m, j / 4, use_alpha))
            } else {
                t[j]
            },
    )
}

/// The source index nearest-neighbor sampling picks for output index `i`
/// when stretching `n_src` samples over `n_out` positions: the source
/// position under the center of output cell `i`.
pub open spec fn nearest(i: int, n_out: int, n_src: int) -> int {
    ((2 * i + 1) * n_src) / (2 * n_out)
}

/// The samples of a `sw` x `sh` grid resampled to `tw` x `th` with
/// nearest-neighbor sampling.
pub open spec fn resized_seq(d: Seq<u8>, sw: int, sh: int, tw: int, th: int) -> Seq<u8> {
    Seq::new(
        (4 * tw * th) as nat,
        |j: int|
            d[grid_pos(nearest((j / 4) / tw, th, sh), nearest((j / 4) % tw, tw, sw), j % 4, sw)],
    )
}

/// Resamples the buffer to the target dimensions with nearest-neighbor
/// sampling: hard mask edges survive, no interpolation artifacts appear.
pub fn resize_nearest(buf: &PixelBuffer, tw: u32, th: u32) -> (r: PixelBuffer)
    requires
        buf.wf(),
        buf.width >= 1,
        buf.height >= 1,
        4 * (tw as int) * (th as int) <= usize::MAX,
    ensures
        r.width == tw,
        r.height == th,
        r.wf(),
        r.data@ == resized_seq(buf.data@, buf.width as int, buf.height as int, tw as int, th as int),
{
    let ghost sw = buf.width as int;
    let ghost sh = buf.height as int;
    let ghost rs = resized_seq(buf.data@, sw, sh, tw as int, th as int);
    let n_src = buf.data.len();
    proof {
        assert(4 * (tw as int) * (th as int) == 4 * ((tw as int) * (th as int)))
            by (nonlinear_arith);
        assert(4 * sw * sh == 4 * (sw * sh)) by (nonlinear_arith);
    }
    let total: usize = (4 * (tw as u64) * (th as u64)) as usize;
    let mut data: Vec<u8> = Vec::new();
    for j in 0..total
        invariant
            buf.wf(),
            buf.width >= 1,
            buf.height >= 1,
            sw == buf.width as int,
            sh == buf.height as int,
            n_src == buf.data@.len(),
            n_src == 4 * (sw * sh),
            total == 4 * (tw as int) * (th as int),
            total == 4 * ((tw as int) * (th as int)),
            rs == resized_seq(buf.data@, sw, sh, tw as int, th as int),
            rs.len() == total,
            data@ == rs.take(j as int),
    {
        let p = j / 4;
        let ch = j % 4;
        let xx = p % (tw as usize);
        let yy = p / (tw as usize);
        proof {
            lemma_multiply_divide_lt(j as int, 4, (tw as int) * (th as int));
            lemma_mod_bound(p as int, tw as int);
            lemma_multiply_divide_lt(p as int, tw as int, th as int);
            assert((2 * (xx as int) + 1) * sw < 0x4_0000_0000_0000_0000) by (nonlinear_arith)
                requires
                    0 <= xx < 0x1_0000_0000,
                    0 <= sw < 0x1_0000_0000,
            ;
            assert((2 * (yy as int) + 1) * sh < 0x4_0000_0000_0000_0000) by (nonlinear_arith)
                requires
                    0 <= yy < 0x1_0000_0000,
                    0 <= sh < 0x1_0000_0000,
            ;
        }
        let num_x: u128 = (2 * (xx as u128) + 1) * (buf.width as u128);
        let num_y: u128 = (2 * (yy as u128) + 1) * (buf.height as u128);
        proof {
            assert(num_x < (2 * (tw as int)) * sw && num_y < (2 * (th as int)) * sh)
                by (nonlinear_arith)
                requires
                    num_x == (2 * (xx as int) + 1) * sw,
                    num_y == (2 * (yy as int) + 1) * sh,
                    0 <= xx < tw as int,
                    0 <= yy < th as int,
                    sw >= 1,
                    sh >= 1,
            ;
            lemma_multiply_divide_lt(num_x as int, 2 * (tw as int), sw);
            lemma_multiply_divide_lt(num_y as int, 2 * (th as int), sh);
        }
        let sx = (num_x / (2 * (tw as u128))) as u32;
        let sy = (num_y / (2 * (th as u128))) as u32;
        proof {
            assert(sx as int == nearest(xx as int, tw as int, sw));
            assert(sy as int == nearest(yy as int, th as int, sh));
            assert(0 <= (sy as int) * sw && (sy as int) * sw + (sx as int) < sw * sh)
                by (nonlinear_arith)
                requires
                    0 <= sx < sw,
                    0 <= sy < sh,
            ;
        }
        let idx = (4 * ((sy as u64) * (buf.width as u64) + (sx as u64)) + (ch as u64)) as usize;
        proof {
            assert(idx as int == grid_pos(sy as int, sx as int, ch as int, sw));
        }
        let v = buf.data[idx];
        data.push(v);
        proof {
            assert(rs[j as int] == v);
            assert(data@ =~= rs.take(j as int + 1));
        }
    }
    proof {
        assert(data@ =~= rs);
    }
    PixelBuffer { width: tw, height: th, data }
}

/// Composites the mask into the target, pixel by pixel: R, G and B come
/// from the target, the new alpha is the target's alpha scaled by the mask
/// value.
pub fn composite(target: PixelBuffer, mask_buf: &PixelBuffer, use_alpha: bool) -> (r: PixelBuffer)
    requires
        target.wf(),
        mask_buf.wf(),
        mask_buf.width == target.width,
        mask_buf.height == target.height,
    ensures
        r.width == target.width,
        r.height == target.height,
        r.wf(),
        r.data@ == masked(target.data@, mask_buf.data@, use_alpha),
{
    let width = target.width;
    let height = target.height;
    let mut data = target.data;
    let ghost orig = data@;
    let n = data.len();
    for i in 0..n
        invariant
            n == data@.len(),
            n == orig.len(),
            n == mask_buf.data@.len(),
            forall|j: int| 0 <= j < i ==> data@[j] == masked(orig, mask_buf.data@, use_alpha)[j],
            forall|j: int| i <= j < n ==> data@[j] == orig[j],
    {
        if i % 4 == 3 {
            let ta = data[i];
            let mv: u8 = if use_alpha {
                mask_buf.data[i]
            } else {
                let base = i - 3;
                let lr = mask_buf.data[base] as u32;
                let lg = mask_buf.data[base + 1] as u32;
                let lb = mask_buf.data[base + 2] as u32;
                ((2126 * lr + 7152 * lg + 722 * lb) / 10000) as u8
            };
            proof {
                assert(4 * ((i as int) / 4) == i - 3);
                assert(mv == mask_value(mask_buf.data@, i as int / 4, use_alpha));
            }
            proof {
                assert(0 <= 2 * (ta as int) * (mv as int) <= 130050) by (nonlinear_arith)
                    requires
                        ta <= 255,
                        mv <= 255,
                ;
            }
            let na = ((2 * (ta as u32) * (mv as u32) + 255) / 510) as u8;
            data.set(i, na);
        }
    }
    proof {
        assert(data@ =~= masked(orig, mask_buf.data@, use_alpha));
    }
    PixelBuffer { width, height, data }
}

/// Everything a mask call decides before encoding: the resolution of both
/// images and the resampling of the mask, with the error each step owes,
/// and on success the target dimensions and the effective mask samples.
pub open spec fn mask_plan(tb: Seq<u8>, mb: Seq<u8>) -> Result<(u32, u32, Seq<u8>), EngineError> {
    if sniffed(tb) is None {
        Err(EngineError::UnknownFormat)
    } else if decoded_rgba(tb) is None {
        Err(EngineError::DecodeFailure)
    } else if sniffed(mb) is None {
        Err(EngineError::UnknownFormat)
    } else if decoded_rgba(mb) is None {
        Err(EngineError::DecodeFailure)
    } else {
        let t = decoded_rgba(tb).unwrap();
        let m = decoded_rgba(mb).unwrap();
        if m.0 == t.0 && m.1 == t.1 {
            Ok((t.0, t.1, m.2))
        } else if m.0 == 0 || m.1 == 0 {
            Err(EngineError::OutOfBounds)
        } else {
            Ok((t.0, t.1, resized_seq(m.2, m.0 as int, m.1 as int, t.0 as int, t.1 as int)))
        }
    }
}

/// Scales the target's alpha channel by a mask image, pixel by pixel.  The
/// mask value is the mask pixel's alpha when the one-byte `use_alpha` flag
/// is set, its luma otherwise; a mask whose dimensions differ from the
/// target's is first resampled to them with nearest-neighbor sampling.  A
/// mask with a zero dimension that would have to be resampled is rejected
/// as out-of-bounds geometry.  The output is always PNG: the alpha channel
/// must survive encoding.
pub fn mask(target_image_bytes: &[u8], mask_image_bytes: &[u8], use_alpha: &[u8]) -> (r: Result<
    Vec<u8>,
    EngineError,
>)
    ensures
        mask_plan(target_image_bytes@, mask_image_bytes@) matches Err(e) ==> r == Err::<Vec<u8>, EngineError>(e),
        r matches Err(e) ==> (e == EngineError::EncodeFailure || (mask_plan(target_image_bytes@, mask_image_bytes@) matches Err(e2) && e2 == e)),
        r is Ok <==> (mask_plan(target_image_bytes@, mask_image_bytes@) matches Ok(q) && decoded_rgba(target_image_bytes@) matches Some(t) && encode_ok(q.0, q.1, masked(t.2, q.2, args::bool_of(use_alpha@)), OutputFormat::Png)),
        r matches Ok(out) ==> (mask_plan(target_image_bytes@, mask_image_bytes@) matches Ok(q) && decoded_rgba(target_image_bytes@) matches Some(t) && out@ == encoded_image(q.0, q.1, masked(t.2, q.2, args::bool_of(use_alpha@)), OutputFormat::Png)),
{
    let ua = args::decode_bool(use_alpha);
    let (tbuf, _) = match resolver::resolve(target_image_bytes) {
        Ok(t) => t,
        Err(e) => return Err(e),
    };
    let (mbuf, _) = match resolver::resolve(mask_image_bytes) {
        Ok(t) => t,
        Err(e) => return Err(e),
    };
    let effective: PixelBuffer = if mbuf.width == tbuf.width && mbuf.height == tbuf.height {
        mbuf
    } else {
        if mbuf.width == 0 || mbuf.height == 0 {
            return Err(EngineError::OutOfBounds);
        }
        let _target_len = tbuf.data.len();
        resize_nearest(&mbuf, tbuf.width, tbuf.height)
    };
    let res = composite(tbuf, &effective, ua);
    resolver::encode_pixels(res, OutputFormat::Png)
}

/// A fully white mask leaves the target unchanged when masking by luma:
/// every pixel's mask value is full brightness, so every alpha survives as
/// it was and R, G and B are copied anyway.
pub proof fn lemma_mask_white(t: Seq<u8>, m: Seq<u8>)
    requires
        t.len() == m.len(),
        forall|i: int| 0 <= i < m.len() && i % 4 != 3 ==> m[i] == 255,
    ensures
        masked(t, m, false) == t,
{
    assert forall|j: int| 0 <= j < t.len() implies masked(t, m, false)[j] == t[j] by {
        if j % 4 == 3 {
            assert(4 * (j / 4) == j - 3);
            assert(mask_value(m, j / 4, false) == 255);
            assert(mask_alpha(t[j], 255) == t[j]);
        }
    }
    assert(masked(t, m, false) =~= t);
}

/// A fully black mask zeroes the target's alpha everywhere when masking by
/// luma, leaving R, G and B untouched.
pub proof fn lemma_mask_black(t: Seq<u8>, m: Seq<u8>)
    requires
        t.len() == m.len(),
        forall|i: int| 0 <= i < m.len() && i % 4 != 3 ==> m[i] == 0,
    ensures
        forall|j: int| 0 <= j < t.len() ==> masked(t, m, false)[j] == if j % 4 == 3 {
            0u8
        } else {
            t[j]
        },
{
    assert forall|j: int| 0 <= j < t.len() implies masked(t, m, false)[j] == (if j % 4 == 3 {
        0u8
    } else {
        t[j]
    }) by {
        if j % 4 == 3 {
            assert(4 * (j / 4) == j - 3);
            assert(mask_value(m, j / 4, false) == 0);
            assert(mask_alpha(t[j], 0) == 0);
        }
    }
}

} // verus!
