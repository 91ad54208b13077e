//! The raster operations of the call boundary: each decodes its byte-buffer
//! arguments, resolves the image, applies one effect and re-encodes under
//! the fallback policy.

use vstd::prelude::*;

verus! {

use crate::args;
use crate::args::CropMode;
use crate::error::EngineError;
use crate::resolver;
use crate::resolver::{coerced, decoded_rgba, encode_ok, encoded_image, sniffed, OutputFormat};
use vstd::arithmetic::div_mod::{lemma_fundamental_div_mod, lemma_fundamental_div_mod_converse};
use crate::pixel::PixelBuffer;
use crate::raster;
use crate::ratio;

/// What DynamicImage::huerotate yields for the given samples and angle.
pub uninterp spec fn huerotated(width: u32, height: u32, data: Seq<u8>, degrees: i32) -> Seq<u8>;

/// Relies on DynamicImage::huerotate: rotates every pixel's hue by the
/// given number of degrees, a pure function of the samples and the angle
/// that keeps the dimensions and the sample count.  Its color matrix leaves
/// the alpha channel exactly as it was.
#[verifier::external_body]
fn huerotate_pixels(buf: PixelBuffer, degrees: i32) -> (r: PixelBuffer)
    requires
        buf.wf(),
    ensures
        r.width == buf.width && r.height == buf.height && r.wf(),
        r.data@ == huerotated(buf.width, buf.height, buf.data@, degrees),
        forall|i: int| #![trigger r.data@[i]] 0 <= i < buf.data@.len() && i % 4 == 3 ==> r.data@[i] == buf.data@[i],
{
    let img = image::RgbaImage::from_raw(buf.width, buf.height, buf.data).unwrap();
    let rotated = image::DynamicImage::ImageRgba8(img).huerotate(degrees);
    let rgba = rotated.to_rgba8();
    let (width, height) = rgba.dimensions();
    PixelBuffer { width, height, data: rgba.into_raw() }
}

/// Normalizes a rotation angle to [0, 360) degrees.
fn normalize_degrees(amount: i32) -> (r: u32)
    ensures
        r < 360,
        r as int == (amount as int) % 360,
{
    if amount >= 0 {
        let m = (amount as u32) % 360;
        proof {
            lemma_fundamental_div_mod(amount as int, 360);
        }
        m
    } else {
        let p: u64 = (-(amount as i64)) as u64;
        let m: u32 = (p % 360) as u32;
        proof {
            lemma_fundamental_div_mod(p as int, 360);
            if m == 0 {
                lemma_fundamental_div_mod_converse(amount as int, 360, -(p as int / 360), 0);
            } else {
                lemma_fundamental_div_mod_converse(
                    amount as int,
                    360,
                    -(p as int / 360) - 1,
                    360 - m,
                );
            }
        }
        if m == 0 {
            0
        } else {
            360 - m
        }
    }
}

/// Re-encodes the image unchanged, under the fallback policy: PNG, JPEG and
/// GIF stay what they were, every other recognized container becomes PNG.
pub fn convert(image_bytes: &[u8]) -> (r: Result<Vec<u8>, EngineError>)
    ensures
        r matches Err(EngineError::UnknownFormat) <==> sniffed(image_bytes@) is None,
        r matches Err(EngineError::DecodeFailure) <==> sniffed(image_bytes@) is Some && decoded_rgba(image_bytes@) is None,
        r matches Err(e) ==> e == EngineError::UnknownFormat || e == EngineError::DecodeFailure || e == EngineError::EncodeFailure,
        r is Ok <==> (decoded_rgba(image_bytes@) matches Some(d) && sniffed(image_bytes@) is Some && encode_ok(d.0, d.1, d.2, coerced(sniffed(image_bytes@).unwrap()))),
        r matches Ok(out) ==> decoded_rgba(image_bytes@) matches Some(d) && out@ == encoded_image(d.0, d.1, d.2, coerced(sniffed(image_bytes@).unwrap())),
{
    let (buf, fmt) = match resolver::resolve(image_bytes) {
        Ok(t) => t,
        Err(e) => return Err(e),
    };
    let out_fmt = resolver::coerce_output(fmt);
    resolver::encode_pixels(buf, out_fmt)
}

/// Replaces every pixel's R, G and B by their equal-weight average and
/// re-encodes under the fallback policy.
pub fn grayscale(image_bytes: &[u8]) -> (r: Result<Vec<u8>, EngineError>)
    ensures
        r matches Err(EngineError::UnknownFormat) <==> sniffed(image_bytes@) is None,
        r matches Err(EngineError::DecodeFailure) <==> sniffed(image_bytes@) is Some && decoded_rgba(image_bytes@) is None,
        r matches Err(e) ==> e == EngineError::UnknownFormat || e == EngineError::DecodeFailure || e == EngineError::EncodeFailure,
        r is Ok <==> (decoded_rgba(image_bytes@) matches Some(d) && sniffed(image_bytes@) is Some && encode_ok(d.0, d.1, raster::grayed(d.2), coerced(sniffed(image_bytes@).unwrap()))),
        r matches Ok(out) ==> decoded_rgba(image_bytes@) matches Some(d) && out@ == encoded_image(d.0, d.1, raster::grayed(d.2), coerced(sniffed(image_bytes@).unwrap())),
{
    let (buf, fmt) = match resolver::resolve(image_bytes) {
        Ok(t) => t,
        Err(e) => return Err(e),
    };
    let res = raster::grayscale(buf);
    let out_fmt = resolver::coerce_output(fmt);
    resolver::encode_pixels(res, out_fmt)
}

/// Inverts every pixel's R, G and B and re-encodes under the fallback
/// policy.
pub fn invert(image_bytes: &[u8]) -> (r: Result<Vec<u8>, EngineError>)
    ensures
        r matches Err(EngineError::UnknownFormat) <==> sniffed(image_bytes@) is None,
        r matches Err(EngineError::DecodeFailure) <==> sniffed(image_bytes@) is Some && decoded_rgba(image_bytes@) is None,
        r matches Err(e) ==> e == EngineError::UnknownFormat || e == EngineError::DecodeFailure || e == EngineError::EncodeFailure,
        r is Ok <==> (decoded_rgba(image_bytes@) matches Some(d) && sniffed(image_bytes@) is Some && encode_ok(d.0, d.1, raster::inverted(d.2), coerced(sniffed(image_bytes@).unwrap()))),
        r matches Ok(out) ==> decoded_rgba(image_bytes@) matches Some(d) && out@ == encoded_image(d.0, d.1, raster::inverted(d.2), coerced(sniffed(image_bytes@).unwrap())),
{
    let (buf, fmt) = match resolver::resolve(image_bytes) {
        Ok(t) => t,
        Err(e) => return Err(e),
    };
    let res = raster::invert(buf);
    let out_fmt = resolver::coerce_output(fmt);
    resolver::encode_pixels(res, out_fmt)
}

/// Adds a signed amount to every pixel's R, G and B, saturating to
/// [0, 255], and re-encodes under the fallback policy.  The amount rides
/// as a 4-byte little-endian signed integer.
pub fn brighten(image_bytes: &[u8], amount: &[u8]) -> (r: Result<Vec<u8>, EngineError>)
    ensures
        r matches Err(EngineError::UnknownFormat) <==> sniffed(image_bytes@) is None,
        r matches Err(EngineError::DecodeFailure) <==> sniffed(image_bytes@) is Some && decoded_rgba(image_bytes@) is None,
        r matches Err(EngineError::MalformedArgument) <==> sniffed(image_bytes@) is Some && decoded_rgba(image_bytes@) is Some && amount@.len() != 4,
        r matches Err(e) ==> e == EngineError::UnknownFormat || e == EngineError::DecodeFailure || e == EngineError::MalformedArgument || e == EngineError::EncodeFailure,
        r is Ok <==> (decoded_rgba(image_bytes@) matches Some(d) && sniffed(image_bytes@) is Some && amount@.len() == 4 && encode_ok(d.0, d.1, raster::brightened(d.2, args::le_i32(amount@)), coerced(sniffed(image_bytes@).unwrap()))),
        r matches Ok(out) ==> decoded_rgba(image_bytes@) matches Some(d) && amount@.len() == 4 && out@ == encoded_image(d.0, d.1, raster::brightened(d.2, args::le_i32(amount@)), coerced(sniffed(image_bytes@).unwrap())),
{
    let (buf, fmt) = match resolver::resolve(image_bytes) {
        Ok(t) => t,
        Err(e) => return Err(e),
    };
    let amt = match args::decode_i32(amount) {
        Ok(v) => v,
        Err(e) => return Err(e),
    };
    let res = raster::brighten(buf, amt);
    let out_fmt = resolver::coerce_output(fmt);
    resolver::encode_pixels(res, out_fmt)
}

/// Rotates every pixel's hue by a signed number of degrees, normalized
/// modulo 360 before the rotation; alpha is untouched.  Re-encodes under
/// the fallback policy.  The angle rides as a 4-byte little-endian signed
/// integer.
pub fn huerotate(image_bytes: &[u8], amount: &[u8]) -> (r: Result<Vec<u8>, EngineError>)
    ensures
        r matches Err(EngineError::UnknownFormat) <==> sniffed(image_bytes@) is None,
        r matches Err(EngineError::DecodeFailure) <==> sniffed(image_bytes@) is Some && decoded_rgba(image_bytes@) is None,
        r matches Err(EngineError::MalformedArgument) <==> sniffed(image_bytes@) is Some && decoded_rgba(image_bytes@) is Some && amount@.len() != 4,
        r matches Err(e) ==> e == EngineError::UnknownFormat || e == EngineError::DecodeFailure || e == EngineError::MalformedArgument || e == EngineError::EncodeFailure,
        r is Ok <==> (decoded_rgba(image_bytes@) matches Some(d) && sniffed(image_bytes@) is Some && amount@.len() == 4 && encode_ok(d.0, d.1, huerotated(d.0, d.1, d.2, (args::le_i32(amount@) % 360) as i32), coerced(sniffed(image_bytes@).unwrap()))),
        r matches Ok(out) ==> decoded_rgba(image_bytes@) matches Some(d) && amount@.len() == 4 && out@ == encoded_image(d.0, d.1, huerotated(d.0, d.1, d.2, (args::le_i32(amount@) % 360) as i32), coerced(sniffed(image_bytes@).unwrap())),
        r is Ok ==> (decoded_rgba(image_bytes@) matches Some(d) && forall|i: int| 0 <= i < d.2.len() && i % 4 == 3 ==> huerotated(d.0, d.1, d.2, (args::le_i32(amount@) % 360) as i32)[i] == d.2[i]),
{
    let (buf, fmt) = match resolver::resolve(image_bytes) {
        Ok(t) => t,
        Err(e) => return Err(e),
    };
    let amt = match args::decode_i32(amount) {
        Ok(v) => v,
        Err(e) => return Err(e),
    };
    let norm = normalize_degrees(amt) as i32;
    let res = huerotate_pixels(buf, norm);
    proof {
        assert forall|i: int|
            0 <= i < buf.data@.len() && i % 4 == 3 implies huerotated(
            buf.width,
            buf.height,
            buf.data@,
            norm,
        )[i] == buf.data@[i] by {
            assert(res.data@[i] == buf.data@[i]);
        }
    }
    let out_fmt = resolver::coerce_output(fmt);
    resolver::encode_pixels(res, out_fmt)
}

/// Sets every pixel's alpha channel to a fixed value.  The alpha rides as a
/// single byte, and the output is always PNG: the alpha channel must
/// survive encoding.
pub fn transparency(image_bytes: &[u8], alpha: &[u8]) -> (r: Result<Vec<u8>, EngineError>)
    ensures
        r matches Err(EngineError::UnknownFormat) <==> sniffed(image_bytes@) is None,
        r matches Err(EngineError::DecodeFailure) <==> sniffed(image_bytes@) is Some && decoded_rgba(image_bytes@) is None,
        r matches Err(EngineError::MalformedArgument) <==> sniffed(image_bytes@) is Some && decoded_rgba(image_bytes@) is Some && alpha@.len() != 1,
        r matches Err(e) ==> e == EngineError::UnknownFormat || e == EngineError::DecodeFailure || e == EngineError::MalformedArgument || e == EngineError::EncodeFailure,
        r is Ok <==> (decoded_rgba(image_bytes@) matches Some(d) && sniffed(image_bytes@) is Some && alpha@.len() == 1 && encode_ok(d.0, d.1, raster::alpha_set(d.2, alpha@[0]), OutputFormat::Png)),
        r matches Ok(out) ==> decoded_rgba(image_bytes@) matches Some(d) && alpha@.len() == 1 && out@ == encoded_image(d.0, d.1, raster::alpha_set(d.2, alpha@[0]), OutputFormat::Png),
{
    let (buf, _) = match resolver::resolve(image_bytes) {
        Ok(t) => t,
        Err(e) => return Err(e),
    };
    let a = match args::decode_u8(alpha) {
        Ok(v) => v,
        Err(e) => return Err(e),
    };
    let res = raster::transparency(buf, a);
    resolver::encode_pixels(res, OutputFormat::Png)
}

/// The pixel dimensions a crop request resolves to under its mode: absolute
/// values are read directly, ratio values are scaled by the source
/// dimensions and truncated.
pub open spec fn crop_dims(m: CropMode, wb: Seq<u8>, hb: Seq<u8>, sw: u32, sh: u32) -> Result<
    (u32, u32),
    EngineError,
> {
    if wb.len() != 4 || hb.len() != 4 {
        Err(EngineError::MalformedArgument)
    } else if m == CropMode::Absolute {
        Ok(((args::le_u32(wb)) as u32, (args::le_u32(hb)) as u32))
    } else {
        match (ratio::ratio_scaled(args::le_u32(wb) as u32, sw), ratio::ratio_scaled(
            args::le_u32(hb) as u32,
            sh,
        )) {
            (Some(w), Some(h)) => Ok((w, h)),
            _ => Err(EngineError::OutOfBounds),
        }
    }
}

/// Everything a crop call decides before encoding: argument decoding, image
/// resolution, mode handling and the bounds check, with the error each step
/// owes when it fails.
pub open spec fn crop_plan(
    ib: Seq<u8>,
    xb: Seq<u8>,
    yb: Seq<u8>,
    wb: Seq<u8>,
    hb: Seq<u8>,
    mb: Seq<u8>,
) -> Result<(u32, u32, u32, u32), EngineError> {
    if xb.len() != 4 || yb.len() != 4 {
        Err(EngineError::MalformedArgument)
    } else {
        match args::crop_mode_of(mb) {
            Err(e) => Err(e),
            Ok(m) => if sniffed(ib) is None {
                Err(EngineError::UnknownFormat)
            } else if decoded_rgba(ib) is None {
                Err(EngineError::DecodeFailure)
            } else {
                let d = decoded_rgba(ib).unwrap();
                match crop_dims(m, wb, hb, d.0, d.1) {
                    Err(e) => Err(e),
                    Ok(wh) => if args::le_u32(xb) + wh.0 <= d.0 && args::le_u32(yb) + wh.1 <= d.1 {
                        Ok(((args::le_u32(xb)) as u32, (args::le_u32(yb)) as u32, wh.0, wh.1))
                    } else {
                        Err(EngineError::OutOfBounds)
                    },
                }
            },
        }
    }
}

/// Cuts a rectangle out of the image and re-encodes it under the fallback
/// policy.  `start_x` and `start_y` ride as 4-byte little-endian unsigned
/// integers; `mode` is one byte, 0 for absolute pixel dimensions and 1 for
/// ratio mode, where `width` and `height` ride as little-endian IEEE 754
/// fractions of the source dimensions; in absolute mode they ride as 4-byte
/// little-endian unsigned integers.  A rectangle that exceeds the source
/// dimensions is rejected with `OutOfBounds`, never clamped.
pub fn crop(
    image_bytes: &[u8],
    start_x: &[u8],
    start_y: &[u8],
    width: &[u8],
    height: &[u8],
    mode: &[u8],
) -> (r: Result<Vec<u8>, EngineError>)
    ensures
        crop_plan(image_bytes@, start_x@, start_y@, width@, height@, mode@) matches Err(e) ==> r == Err::<Vec<u8>, EngineError>(e),
        r matches Err(e) ==> (e == EngineError::EncodeFailure || (crop_plan(image_bytes@, start_x@, start_y@, width@, height@, mode@) matches Err(e2) && e2 == e)),
        r is Ok <==> (crop_plan(image_bytes@, start_x@, start_y@, width@, height@, mode@) matches Ok(q) && decoded_rgba(image_bytes@) matches Some(d) && encode_ok(q.2, q.3, raster::crop_seq(d.2, d.0 as int, q.0 as int, q.1 as int, q.2 as int, q.3 as int), coerced(sniffed(image_bytes@).unwrap()))),
        r matches Ok(out) ==> (crop_plan(image_bytes@, start_x@, start_y@, width@, height@, mode@) matches Ok(q) && decoded_rgba(image_bytes@) matches Some(d) && out@ == encoded_image(q.2, q.3, raster::crop_seq(d.2, d.0 as int, q.0 as int, q.1 as int, q.2 as int, q.3 as int), coerced(sniffed(image_bytes@).unwrap()))),
{
    let x = match args::decode_u32(start_x) {
        Ok(v) => v,
        Err(e) => return Err(e),
    };
    let y = match args::decode_u32(start_y) {
        Ok(v) => v,
        Err(e) => return Err(e),
    };
    let m = match args::decode_crop_mode(mode) {
        Ok(v) => v,
        Err(e) => return Err(e),
    };
    let (buf, fmt) = match resolver::resolve(image_bytes) {
        Ok(t) => t,
        Err(e) => return Err(e),
    };
    let (w, h) = match m {
        CropMode::Absolute => {
            let w = match args::decode_u32(width) {
                Ok(v) => v,
                Err(e) => return Err(e),
            };
            let h = match args::decode_u32(height) {
                Ok(v) => v,
                Err(e) => return Err(e),
            };
            (w, h)
        },
        CropMode::Ratio => {
            let wbits = match args::decode_f32_bits(width) {
                Ok(v) => v,
                Err(e) => return Err(e),
            };
            let hbits = match args::decode_f32_bits(height) {
                Ok(v) => v,
                Err(e) => return Err(e),
            };
            let w = match ratio::ratio_scale(wbits, buf.width) {
                Some(v) => v,
                None => return Err(EngineError::OutOfBounds),
            };
            let h = match ratio::ratio_scale(hbits, buf.height) {
                Some(v) => v,
                None => return Err(EngineError::OutOfBounds),
            };
            (w, h)
        },
    };
    let cropped = match raster::crop(&buf, x, y, w, h) {
        Ok(c) => c,
        Err(e) => return Err(e),
    };
    let out_fmt = resolver::coerce_output(fmt);
    resolver::encode_pixels(cropped, out_fmt)
}

} // verus!
