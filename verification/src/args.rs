//! The argument codec: turns the raw byte buffers of the call boundary into
//! typed scalars.  Every integer and float parameter rides as a fixed-width
//! little-endian buffer; booleans and flags ride as a single byte.

use vstd::prelude::*;

verus! {

use vstd::utf8::valid_utf8;
use crate::error::EngineError;

/// The unsigned value of a 4-byte little-endian buffer.
pub open spec fn le_u32(b: Seq<u8>) -> int
    recommends
        b.len() == 4,
{
    b[0] + 0x100 * b[1] + 0x1_0000 * b[2] + 0x100_0000 * b[3]
}

/// The two's-complement reading of the same 4 bytes.
pub open spec fn le_i32(b: Seq<u8>) -> int
    recommends
        b.len() == 4,
{
    if le_u32(b) < 0x8000_0000 {
        le_u32(b)
    } else {
        le_u32(b) - 0x1_0000_0000
    }
}

/// The boolean a buffer stands for: an empty buffer is false, a non-empty
/// buffer is false iff its first byte is zero.
pub open spec fn bool_of(b: Seq<u8>) -> bool {
    b.len() > 0 && b[0] != 0
}

/// Decodes a 4-byte little-endian unsigned integer parameter.
pub fn decode_u32(b: &[u8]) -> (r: Result<u32, EngineError>)
    ensures
        b@.len() == 4 ==> (r matches Ok(v) && v == le_u32(b@)),
        b@.len() != 4 ==> r matches Err(EngineError::MalformedArgument),
{
    if b.len() != 4 {
        return Err(EngineError::MalformedArgument);
    }
    Ok(b[0] as u32 + 0x100 * (b[1] as u32) + 0x1_0000 * (b[2] as u32) + 0x100_0000 * (b[3]
        as u32))
}

/// Decodes a 4-byte little-endian signed integer parameter.
pub fn decode_i32(b: &[u8]) -> (r: Result<i32, EngineError>)
    ensures
        b@.len() == 4 ==> (r matches Ok(v) && v as int == le_i32(b@)),
        b@.len() != 4 ==> r matches Err(EngineError::MalformedArgument),
{
    let u = decode_u32(b)?;
    if u < 0x8000_0000 {
        Ok(u as i32)
    } else {
        let flipped = (0xffff_ffffu32 - u) as i32;
        Ok(-flipped - 1)
    }
}

/// Decodes a 4-byte little-endian float parameter to its raw bit pattern.
/// Floating-point values cross the engine as their IEEE 754 bits; see
/// `ratio::ratio_scaled` for the one place their numeric value matters.
pub fn decode_f32_bits(b: &[u8]) -> (r: Result<u32, EngineError>)
    ensures
        b@.len() == 4 ==> (r matches Ok(v) && v == le_u32(b@)),
        b@.len() != 4 ==> r matches Err(EngineError::MalformedArgument),
{
    decode_u32(b)
}

/// Decodes a boolean parameter.  Never fails: absence reads as false.
pub fn decode_bool(b: &[u8]) -> (r: bool)
    ensures
        r == bool_of(b@),
{
    b.len() > 0 && b[0] != 0
}

/// Decodes a single-byte alpha parameter.
pub fn decode_u8(b: &[u8]) -> (r: Result<u8, EngineError>)
    ensures
        b@.len() == 1 ==> (r matches Ok(v) && v == b@[0]),
        b@.len() != 1 ==> r matches Err(EngineError::MalformedArgument),
{
    if b.len() != 1 {
        return Err(EngineError::MalformedArgument);
    }
    Ok(b[0])
}

/// The two crop addressing modes of the revised protocol.
#[derive(Clone, Copy, Debug, PartialEq, Eq, Structural)]
pub enum CropMode {
    /// Width and height are absolute pixel counts.
    Absolute,
    /// Width and height are fractions of the source dimensions.
    Ratio,
}

/// What the one-byte crop mode flag decodes to.
pub open spec fn crop_mode_of(b: Seq<u8>) -> Result<CropMode, EngineError> {
    if b.len() == 0 {
        Err(EngineError::MissingArgument)
    } else if b[0] == 0 {
        Ok(CropMode::Absolute)
    } else if b[0] == 1 {
        Ok(CropMode::Ratio)
    } else {
        Err(EngineError::MalformedArgument)
    }
}

/// Decodes the crop mode flag: 0 is absolute pixels, 1 is ratio of the
/// source dimensions; an empty buffer is a missing argument.
pub fn decode_crop_mode(b: &[u8]) -> (r: Result<CropMode, EngineError>)
    ensures
        r == crop_mode_of(b@),
{
    if b.len() == 0 {
        Err(EngineError::MissingArgument)
    } else if b[0] == 0 {
        Ok(CropMode::Absolute)
    } else if b[0] == 1 {
        Ok(CropMode::Ratio)
    } else {
        Err(EngineError::MalformedArgument)
    }
}

/// The decimal value of a sequence of ASCII digit bytes.
pub open spec fn digits_value(b: Seq<u8>) -> int
    decreases b.len(),
{
    if b.len() == 0 {
        0
    } else {
        digits_value(b.drop_last()) * 10 + (b.last() - 48)
    }
}

/// Every byte is an ASCII decimal digit.
pub open spec fn all_digits(b: Seq<u8>) -> bool {
    forall|i: int| 0 <= i < b.len() ==> 48 <= #[trigger] b[i] <= 57
}

/// The canonical decimal text of a number no greater than `cap`: at least
/// one digit, no redundant leading zero, and a value within the cap.
pub open spec fn is_canonical_digits(b: Seq<u8>, cap: int) -> bool {
    b.len() > 0 && all_digits(b) && (b[0] != 48 || b.len() == 1) && digits_value(b) <= cap
}

/// The canonical decimal text of an unsigned 32-bit number.
pub open spec fn is_canonical_u32_text(b: Seq<u8>) -> bool {
    is_canonical_digits(b, u32::MAX as int)
}

/// The canonical decimal text of a signed 32-bit number: an optional minus
/// sign, never in front of zero, then canonical digits within the type's
/// asymmetric range.
pub open spec fn is_canonical_i32_text(b: Seq<u8>) -> bool {
    if b.len() > 0 && b[0] == 45 {
        is_canonical_digits(b.skip(1), 0x8000_0000) && digits_value(b.skip(1)) > 0
    } else {
        is_canonical_digits(b, i32::MAX as int)
    }
}

/// The number the canonical text stands for.
pub open spec fn text_i32_value(b: Seq<u8>) -> int {
    if b.len() > 0 && b[0] == 45 {
        -digits_value(b.skip(1))
    } else {
        digits_value(b)
    }
}

proof fn lemma_digits_value_nonneg(b: Seq<u8>)
    requires
        all_digits(b),
    ensures
        digits_value(b) >= 0,
    decreases b.len(),
{
    if b.len() > 0 {
        lemma_digits_value_nonneg(b.drop_last());
    }
}

proof fn lemma_digits_value_extend(b: Seq<u8>, i: int)
    requires
        all_digits(b),
        0 <= i <= b.len(),
    ensures
        digits_value(b) >= digits_value(b.take(i)),
    decreases b.len() - i,
{
    if i < b.len() {
        assert(b.take(i + 1).drop_last() =~= b.take(i));
        lemma_digits_value_nonneg(b.take(i));
        lemma_digits_value_extend(b, i + 1);
    } else {
        assert(b.take(i) =~= b);
    }
}

/// Relies on str::from_utf8: it succeeds exactly on valid UTF-8 input.
#[verifier::external_body]
fn is_valid_utf8(b: &[u8]) -> (r: bool)
    ensures
        r == valid_utf8(b@),
{
    std::str::from_utf8(b).is_ok()
}

/// Parses the digits of `b` from `start` on as a decimal number of at most
/// `cap`, rejecting empty text, non-digits, redundant leading zeros and
/// values over the cap.
fn parse_digits(b: &[u8], start: usize, cap: u32) -> (r: Result<u32, EngineError>)
    requires
        start <= b@.len(),
        cap >= 9,
    ensures
        r matches Ok(v) ==> is_canonical_digits(b@.skip(start as int), cap as int) && v == digits_value(b@.skip(start as int)),
        r matches Err(e) ==> e == EngineError::MalformedArgument && !is_canonical_digits(b@.skip(start as int), cap as int),
{
    let ghost d = b@.skip(start as int);
    let n = b.len();
    if start == n {
        return Err(EngineError::MalformedArgument);
    }
    if b[start] == 48 && start + 1 != n {
        proof {
            assert(d[0] == 48 && d.len() > 1);
        }
        return Err(EngineError::MalformedArgument);
    }
    let mut v: u32 = 0;
    let mut i: usize = start;
    while i < n
        invariant
            start <= i <= n,
            start < n,
            cap >= 9,
            n == b@.len(),
            d == b@.skip(start as int),
            all_digits(d.take(i - start)),
            v == digits_value(d.take(i - start)),
            v <= cap,
        decreases n - i,
    {
        let c = b[i];
        proof {
            assert(d[i - start] == b@[i as int]);
        }
        if c < 48 || c > 57 {
            proof {
                assert(!all_digits(d));
            }
            return Err(EngineError::MalformedArgument);
        }
        let dv = (c - 48) as u32;
        proof {
            assert(d.take(i + 1 - start).drop_last() =~= d.take(i - start));
            assert(digits_value(d.take(i + 1 - start)) == v * 10 + dv);
        }
        if v > (cap - dv) / 10 {
            proof {
                if all_digits(d) {
                    lemma_digits_value_extend(d, i + 1 - start);
                }
            }
            return Err(EngineError::MalformedArgument);
        }
        v = v * 10 + dv;
        i += 1;
    }
    proof {
        assert(d.take(n - start) =~= d);
    }
    Ok(v)
}

/// Decodes a UTF-8 decimal text parameter as an unsigned 32-bit number.
/// Invalid UTF-8 is an encoding failure; text that is not the canonical
/// decimal form of a representable number is a malformed argument.
pub fn decode_text_u32(b: &[u8]) -> (r: Result<u32, EngineError>)
    ensures
        r matches Err(EngineError::InvalidEncoding) <==> !valid_utf8(b@),
        valid_utf8(b@) ==> (if is_canonical_u32_text(b@) {
            r matches Ok(v) && v == digits_value(b@)
        } else {
            r matches Err(EngineError::MalformedArgument)
        }),
{
    if !is_valid_utf8(b) {
        return Err(EngineError::InvalidEncoding);
    }
    proof {
        assert(b@.skip(0) =~= b@);
    }
    parse_digits(b, 0, u32::MAX)
}

/// Decodes a UTF-8 decimal text parameter as a signed 32-bit number.
/// Invalid UTF-8 is an encoding failure; text that is not the canonical
/// decimal form of a representable number is a malformed argument.
pub fn decode_text_i32(b: &[u8]) -> (r: Result<i32, EngineError>)
    ensures
        r matches Err(EngineError::InvalidEncoding) <==> !valid_utf8(b@),
        valid_utf8(b@) ==> (if is_canonical_i32_text(b@) {
            r matches Ok(v) && v as int == text_i32_value(b@)
        } else {
            r matches Err(EngineError::MalformedArgument)
        }),
{
    if !is_valid_utf8(b) {
        return Err(EngineError::InvalidEncoding);
    }
    if b.len() > 0 && b[0] == 45 {
        let mag = match parse_digits(b, 1, 0x8000_0000) {
            Ok(v) => v,
            Err(e) => return Err(e),
        };
        if mag == 0 {
            return Err(EngineError::MalformedArgument);
        }
        if mag == 0x8000_0000 {
            Ok(i32::MIN)
        } else {
            Ok(-(mag as i32))
        }
    } else {
        proof {
            assert(b@.skip(0) =~= b@);
        }
        let v = match parse_digits(b, 0, 0x7fff_ffff) {
            Ok(v) => v,
            Err(e) => return Err(e),
        };
        Ok(v as i32)
    }
}

} // verus!
