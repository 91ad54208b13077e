//! The format resolver: sniffs the container format from the encoded bytes'
//! magic signature, decodes raster images, applies the output fallback
//! policy and re-encodes.  The codec primitives themselves belong to the
//! `image` crate and stand behind trusted wrappers.

use vstd::prelude::*;

verus! {

use crate::error::EngineError;
use crate::pixel::PixelBuffer;

/// The closed set of source formats the fallback policy distinguishes.
/// Every recognized container that is not PNG, JPEG or GIF counts as Other.
#[derive(Clone, Copy, Debug, PartialEq, Eq, Structural)]
pub enum SourceFormat {
    Png,
    Jpeg,
    Gif,
    Other,
}

/// The only containers the engine ever emits.
#[derive(Clone, Copy, Debug, PartialEq, Eq, Structural)]
pub enum OutputFormat {
    Png,
    Jpeg,
    Gif,
}

/// The eight-byte PNG signature.
pub open spec fn is_png_sig(b: Seq<u8>) -> bool {
    b.len() >= 8 && b[0] == 0x89 && b[1] == 0x50 && b[2] == 0x4e && b[3] == 0x47 && b[4] == 0x0d
        && b[5] == 0x0a && b[6] == 0x1a && b[7] == 0x0a
}

/// The three-byte JPEG marker prefix.
pub open spec fn is_jpeg_sig(b: Seq<u8>) -> bool {
    b.len() >= 3 && b[0] == 0xff && b[1] == 0xd8 && b[2] == 0xff
}

/// The six-byte GIF signatures, `GIF89a` and `GIF87a`.
pub open spec fn is_gif_sig(b: Seq<u8>) -> bool {
    b.len() >= 6 && b[0] == 0x47 && b[1] == 0x49 && b[2] == 0x46 && b[3] == 0x38 && (b[4] == 0x39
        || b[4] == 0x37) && b[5] == 0x61
}

/// Whether the bytes open with the magic signature of one of the other
/// containers the decoder recognizes (BMP, TIFF, WebP, ...).
pub uninterp spec fn other_sig_recognized(b: Seq<u8>) -> bool;

/// The format sniffed from the byte content.  Never trusts caller-supplied
/// metadata: only the leading magic bytes decide.
pub open spec fn sniffed(b: Seq<u8>) -> Option<SourceFormat> {
    if is_png_sig(b) {
        Some(SourceFormat::Png)
    } else if is_jpeg_sig(b) {
        Some(SourceFormat::Jpeg)
    } else if is_gif_sig(b) {
        Some(SourceFormat::Gif)
    } else if other_sig_recognized(b) {
        Some(SourceFormat::Other)
    } else {
        None
    }
}

/// What the decoder yields for these bytes: width, height and the flat
/// RGBA8 samples, or nothing when the bytes decode to no image.
pub uninterp spec fn decoded_rgba(b: Seq<u8>) -> Option<(u32, u32, Seq<u8>)>;

/// The bytes the encoder emits for the given samples in the given container.
pub uninterp spec fn encoded_image(width: u32, height: u32, data: Seq<u8>, fmt: OutputFormat) -> Seq<
    u8,
>;

/// Whether the encoder accepts the given samples in the given container:
/// encoding is a pure function of its arguments, so success is too.
pub uninterp spec fn encode_ok(width: u32, height: u32, data: Seq<u8>, fmt: OutputFormat) -> bool;

/// Relies on image::guess_format: it matches the buffer's first bytes
/// against a fixed table of magic signatures in which the PNG, JPEG and GIF
/// entries come first, no later entry shares a first byte with them, and
/// every entry is at least two bytes long.
#[verifier::external_body]
pub(crate) fn guess_raster_format(bytes: &[u8]) -> (r: Option<SourceFormat>)
    ensures
        r == sniffed(bytes@),
        r matches Some(SourceFormat::Other) ==> other_sig_recognized(bytes@),
        bytes@.len() < 2 ==> r is None,
{
    match image::guess_format(bytes) {
        Ok(image::ImageFormat::Png) => Some(SourceFormat::Png),
        Ok(image::ImageFormat::Jpeg) => Some(SourceFormat::Jpeg),
        Ok(image::ImageFormat::Gif) => Some(SourceFormat::Gif),
        Ok(_) => Some(SourceFormat::Other),
        Err(_) => None,
    }
}

/// Relies on image::load_from_memory and DynamicImage::to_rgba8: decoding
/// is a pure function of the bytes, and the raw RGBA8 buffer it yields
/// holds exactly four bytes per pixel of the decoded dimensions.
#[verifier::external_body]
pub(crate) fn decode_rgba(bytes: &[u8]) -> (r: Option<PixelBuffer>)
    ensures
        r matches Some(p) ==> decoded_rgba(bytes@) == Some((p.width, p.height, p.data@)) && p.wf(),
        r is None <==> decoded_rgba(bytes@) is None,
{
    let img = match image::load_from_memory(bytes) {
        Ok(img) => img,
        Err(_) => return None,
    };
    let rgba = img.to_rgba8();
    let (width, height) = rgba.dimensions();
    Some(PixelBuffer { width, height, data: rgba.into_raw() })
}

/// Relies on image's encoders through DynamicImage::write_to: encoding
/// RGBA8 samples into a container is a pure function of the samples and
/// the chosen format, and so is whether it succeeds (the encoders reject
/// bad dimensions with an error, never a panic).
#[verifier::external_body]
pub(crate) fn encode_pixels(buf: PixelBuffer, fmt: OutputFormat) -> (r: Result<
    Vec<u8>,
    EngineError,
>)
    requires
        buf.wf(),
    ensures
        r is Ok <==> encode_ok(buf.width, buf.height, buf.data@, fmt),
        r matches Ok(v) ==> v@ == encoded_image(buf.width, buf.height, buf.data@, fmt),
        r matches Err(e) ==> e == EngineError::EncodeFailure,
{
    let img = match image::RgbaImage::from_raw(buf.width, buf.height, buf.data) {
        Some(img) => img,
        None => return Err(EngineError::EncodeFailure),
    };
    let format = match fmt {
        OutputFormat::Png => image::ImageFormat::Png,
        OutputFormat::Jpeg => image::ImageFormat::Jpeg,
        OutputFormat::Gif => image::ImageFormat::Gif,
    };
    let mut bytes: Vec<u8> = Vec::new();
    match image::DynamicImage::ImageRgba8(img).write_to(&mut std::io::Cursor::new(&mut bytes), format) {
        Ok(()) => Ok(bytes),
        Err(_) => Err(EngineError::EncodeFailure),
    }
}

/// The fallback policy: PNG, JPEG and GIF pass through unchanged; every
/// other detected format is coerced to PNG on output.
pub open spec fn coerced(f: SourceFormat) -> OutputFormat {
    match f {
        SourceFormat::Png => OutputFormat::Png,
        SourceFormat::Jpeg => OutputFormat::Jpeg,
        SourceFormat::Gif => OutputFormat::Gif,
        SourceFormat::Other => OutputFormat::Png,
    }
}

/// Picks the output container for a detected source format.
pub fn coerce_output(f: SourceFormat) -> (r: OutputFormat)
    ensures
        r == coerced(f),
{
    match f {
        SourceFormat::Png => OutputFormat::Png,
        SourceFormat::Jpeg => OutputFormat::Jpeg,
        SourceFormat::Gif => OutputFormat::Gif,
        SourceFormat::Other => OutputFormat::Png,
    }
}

/// Sniffs the format of the encoded bytes and decodes them to a pixel
/// buffer.  Fails with `UnknownFormat` when no signature matches and with
/// `DecodeFailure` when a signature matches but the body does not decode.
pub fn resolve(bytes: &[u8]) -> (r: Result<(PixelBuffer, SourceFormat), EngineError>)
    ensures
        r matches Err(EngineError::UnknownFormat) <==> sniffed(bytes@) is None,
        r matches Err(EngineError::DecodeFailure) <==> sniffed(bytes@) is Some && decoded_rgba(
            bytes@,
        ) is None,
        r is Ok <==> sniffed(bytes@) is Some && decoded_rgba(bytes@) is Some,
        r matches Ok(p) ==> Some(p.1) == sniffed(bytes@) && decoded_rgba(bytes@) == Some(
            (p.0.width, p.0.height, p.0.data@),
        ) && p.0.wf(),
{
    let fmt = match guess_raster_format(bytes) {
        Some(f) => f,
        None => return Err(EngineError::UnknownFormat),
    };
    let buf = match decode_rgba(bytes) {
        Some(b) => b,
        None => return Err(EngineError::DecodeFailure),
    };
    Ok((buf, fmt))
}

/// The fallback invariant: the output format is always one of PNG, JPEG
/// and GIF, and it equals the source format unless the source was none of
/// those three, in which case it is PNG.
pub proof fn lemma_fallback_policy(f: SourceFormat)
    ensures
        f == SourceFormat::Png ==> coerced(f) == OutputFormat::Png,
        f == SourceFormat::Jpeg ==> coerced(f) == OutputFormat::Jpeg,
        f == SourceFormat::Gif ==> coerced(f) == OutputFormat::Gif,
        f == SourceFormat::Other ==> coerced(f) == OutputFormat::Png,
{
}

} // verus!
