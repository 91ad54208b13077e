use image_effects::args::{
    decode_bool, decode_crop_mode, decode_f32_bits, decode_i32, decode_text_i32, decode_text_u32,
    decode_u32, decode_u8, CropMode,
};
use image_effects::ratio::ratio_scale;
use image_effects::EngineError;

#[test]
fn decode_u32_reads_little_endian() {
    assert_eq!(decode_u32(&[1, 0, 0, 0]), Ok(1));
    assert_eq!(decode_u32(&[0x78, 0x56, 0x34, 0x12]), Ok(0x1234_5678));
    assert_eq!(decode_u32(&4000000000u32.to_le_bytes()), Ok(4000000000));
}

#[test]
fn decode_u32_wrong_width_is_malformed() {
    assert_eq!(decode_u32(&[1, 2, 3]), Err(EngineError::MalformedArgument));
    assert_eq!(decode_u32(&[]), Err(EngineError::MalformedArgument));
    assert_eq!(decode_u32(&[1, 2, 3, 4, 5]), Err(EngineError::MalformedArgument));
}

#[test]
fn decode_i32_reads_negative_values() {
    assert_eq!(decode_i32(&(-5i32).to_le_bytes()), Ok(-5));
    assert_eq!(decode_i32(&i32::MIN.to_le_bytes()), Ok(i32::MIN));
    assert_eq!(decode_i32(&i32::MAX.to_le_bytes()), Ok(i32::MAX));
    assert_eq!(decode_i32(&[1, 2]), Err(EngineError::MalformedArgument));
}

#[test]
fn decode_bool_reads_first_byte() {
    assert!(!decode_bool(&[]));
    assert!(!decode_bool(&[0]));
    assert!(decode_bool(&[1]));
    assert!(decode_bool(&[2, 0]));
}

#[test]
fn decode_u8_requires_one_byte() {
    assert_eq!(decode_u8(&[128]), Ok(128));
    assert_eq!(decode_u8(&[]), Err(EngineError::MalformedArgument));
    assert_eq!(decode_u8(&[1, 2]), Err(EngineError::MalformedArgument));
}

#[test]
fn decode_crop_mode_flags() {
    assert_eq!(decode_crop_mode(&[]), Err(EngineError::MissingArgument));
    assert_eq!(decode_crop_mode(&[0]), Ok(CropMode::Absolute));
    assert_eq!(decode_crop_mode(&[1]), Ok(CropMode::Ratio));
    assert_eq!(decode_crop_mode(&[7]), Err(EngineError::MalformedArgument));
}

#[test]
fn decode_f32_bits_matches_to_bits() {
    let x = 0.5f32;
    assert_eq!(decode_f32_bits(&x.to_le_bytes()), Ok(x.to_bits()));
    assert_eq!(decode_f32_bits(&[1, 2, 3]), Err(EngineError::MalformedArgument));
}

#[test]
fn decode_text_u32_parses_canonical_numbers() {
    assert_eq!(decode_text_u32(b"0"), Ok(0));
    assert_eq!(decode_text_u32(b"123"), Ok(123));
    assert_eq!(decode_text_u32(b"4294967295"), Ok(u32::MAX));
}

#[test]
fn decode_text_u32_rejects_bad_text() {
    assert_eq!(decode_text_u32(b"01"), Err(EngineError::MalformedArgument));
    assert_eq!(decode_text_u32(b""), Err(EngineError::MalformedArgument));
    assert_eq!(decode_text_u32(b"12a"), Err(EngineError::MalformedArgument));
    assert_eq!(decode_text_u32(b"4294967296"), Err(EngineError::MalformedArgument));
}

#[test]
fn decode_text_u32_rejects_invalid_utf8() {
    assert_eq!(decode_text_u32(&[0xff, 0xfe]), Err(EngineError::InvalidEncoding));
    assert_eq!(decode_text_u32(&[0xc0, 0x80]), Err(EngineError::InvalidEncoding));
}

#[test]
fn decode_text_i32_parses_signed_numbers() {
    assert_eq!(decode_text_i32(b"-123"), Ok(-123));
    assert_eq!(decode_text_i32(b"123"), Ok(123));
    assert_eq!(decode_text_i32(b"-2147483648"), Ok(i32::MIN));
    assert_eq!(decode_text_i32(b"2147483647"), Ok(i32::MAX));
    assert_eq!(decode_text_i32(b"-0"), Err(EngineError::MalformedArgument));
    assert_eq!(decode_text_i32(b"2147483648"), Err(EngineError::MalformedArgument));
}

#[test]
fn ratio_scale_computes_truncated_products() {
    assert_eq!(ratio_scale(0.5f32.to_bits(), 100), Some(50));
    assert_eq!(ratio_scale(0.25f32.to_bits(), 100), Some(25));
    assert_eq!(ratio_scale(0.5f32.to_bits(), 101), Some(50));
    assert_eq!(ratio_scale(1.0f32.to_bits(), 77), Some(77));
    assert_eq!(ratio_scale(0.0f32.to_bits(), 100), Some(0));
    assert_eq!(ratio_scale(0.1f32.to_bits(), 1000), Some(100));
}

#[test]
fn ratio_scale_rejects_bad_fractions() {
    assert_eq!(ratio_scale(f32::NAN.to_bits(), 100), None);
    assert_eq!(ratio_scale(f32::INFINITY.to_bits(), 100), None);
    assert_eq!(ratio_scale((-0.5f32).to_bits(), 100), None);
    assert_eq!(ratio_scale((-0.0f32).to_bits(), 100), Some(0));
    assert_eq!(ratio_scale(2.0f32.to_bits(), u32::MAX), None);
}

#[test]
fn error_messages_are_descriptive() {
    assert_eq!(EngineError::UnknownFormat.message(), "unknown image format");
    assert_eq!(
        EngineError::EncodeFailure.message(),
        "could not write image bytes to buffer"
    );
    assert_eq!(EngineError::MalformedDocument.message(), "could not parse SVG data");
}
