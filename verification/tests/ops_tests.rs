use image_effects::mask::mask;
use image_effects::ops::{brighten, convert, crop, grayscale, huerotate, invert, transparency};
use image_effects::resolver::resolve;
use image_effects::EngineError;

fn rgba_image(width: u32, height: u32, pixels: &[[u8; 4]]) -> image::RgbaImage {
    assert_eq!(pixels.len() as u64, width as u64 * height as u64);
    let mut img = image::RgbaImage::new(width, height);
    for (i, p) in pixels.iter().enumerate() {
        let x = i as u32 % width;
        let y = i as u32 / width;
        img.put_pixel(x, y, image::Rgba(*p));
    }
    img
}

fn encode(img: &image::RgbaImage, format: image::ImageFormat) -> Vec<u8> {
    let mut bytes: Vec<u8> = Vec::new();
    image::DynamicImage::ImageRgba8(img.clone())
        .write_to(&mut std::io::Cursor::new(&mut bytes), format)
        .unwrap();
    bytes
}

fn png_of(width: u32, height: u32, pixels: &[[u8; 4]]) -> Vec<u8> {
    encode(&rgba_image(width, height, pixels), image::ImageFormat::Png)
}

fn decode(bytes: &[u8]) -> (u32, u32, Vec<u8>) {
    let img = image::load_from_memory(bytes).unwrap().to_rgba8();
    let (w, h) = img.dimensions();
    (w, h, img.into_raw())
}

#[test]
fn convert_keeps_png_jpeg_gif() {
    let img = rgba_image(2, 2, &[[10, 20, 30, 255]; 4]);
    let png = convert(&encode(&img, image::ImageFormat::Png)).unwrap();
    assert_eq!(image::guess_format(&png).unwrap(), image::ImageFormat::Png);
    let jpeg = convert(&encode(&img, image::ImageFormat::Jpeg)).unwrap();
    assert_eq!(image::guess_format(&jpeg).unwrap(), image::ImageFormat::Jpeg);
    let gif = convert(&encode(&img, image::ImageFormat::Gif)).unwrap();
    assert_eq!(image::guess_format(&gif).unwrap(), image::ImageFormat::Gif);
}

#[test]
fn convert_coerces_other_formats_to_png() {
    let img = rgba_image(2, 2, &[[10, 20, 30, 255]; 4]);
    let bmp = encode(&img, image::ImageFormat::Bmp);
    let out = convert(&bmp).unwrap();
    assert_eq!(image::guess_format(&out).unwrap(), image::ImageFormat::Png);
}

#[test]
fn resolve_rejects_unknown_signature() {
    assert_eq!(resolve(&[1, 2, 3]).unwrap_err(), EngineError::UnknownFormat);
    assert_eq!(convert(&[1, 2, 3]).unwrap_err(), EngineError::UnknownFormat);
    assert_eq!(convert(&[]).unwrap_err(), EngineError::UnknownFormat);
}

#[test]
fn resolve_reports_corrupt_body_as_decode_failure() {
    let mut bytes = vec![0x89, b'P', b'N', b'G', 0x0d, 0x0a, 0x1a, 0x0a];
    bytes.extend_from_slice(&[1, 2, 3, 4, 5, 6, 7, 8]);
    assert_eq!(convert(&bytes).unwrap_err(), EngineError::DecodeFailure);
}

#[test]
fn invert_round_trips_through_encoding() {
    let pixels = [[10, 20, 30, 255], [200, 0, 255, 255], [1, 2, 3, 255], [9, 8, 7, 255]];
    let png = png_of(2, 2, &pixels);
    let once = invert(&png).unwrap();
    let twice = invert(&once).unwrap();
    let (w, h, data) = decode(&twice);
    assert_eq!((w, h), (2, 2));
    assert_eq!(data, decode(&png).2);
}

#[test]
fn grayscale_op_averages_channels() {
    let png = png_of(1, 1, &[[30, 60, 90, 255]]);
    let out = grayscale(&png).unwrap();
    let (_, _, data) = decode(&out);
    assert_eq!(data, vec![60, 60, 60, 255]);
}

#[test]
fn transparency_forces_png_even_for_jpeg(){
    let img = rgba_image(2, 2, &[[100, 150, 200, 255]; 4]);
    let jpeg = encode(&img, image::ImageFormat::Jpeg);
    let out = transparency(&jpeg, &[128]).unwrap();
    assert_eq!(image::guess_format(&out).unwrap(), image::ImageFormat::Png);
    let (_, _, data) = decode(&out);
    for p in data.chunks(4) {
        assert_eq!(p[3], 128);
    }
}

#[test]
fn transparency_rejects_wrong_alpha_width() {
    let png = png_of(1, 1, &[[1, 2, 3, 4]]);
    assert_eq!(transparency(&png, &[1, 2]).unwrap_err(), EngineError::MalformedArgument);
}

#[test]
fn brighten_op_saturates() {
    let png = png_of(1, 1, &[[250, 5, 0, 255]]);
    let out = brighten(&png, &10i32.to_le_bytes()).unwrap();
    assert_eq!(decode(&out).2, vec![255, 15, 10, 255]);
    let down = brighten(&png, &(-20i32).to_le_bytes()).unwrap();
    assert_eq!(decode(&down).2, vec![230, 0, 0, 255]);
}

#[test]
fn brighten_rejects_short_amount() {
    let png = png_of(1, 1, &[[1, 2, 3, 4]]);
    assert_eq!(brighten(&png, &[1, 2, 3]).unwrap_err(), EngineError::MalformedArgument);
}

#[test]
fn huerotate_normalizes_angles_mod_360() {
    let pixels = [[200, 30, 60, 255], [0, 128, 255, 200], [50, 50, 50, 10], [255, 0, 0, 255]];
    let png = png_of(2, 2, &pixels);
    let quarter = huerotate(&png, &90i32.to_le_bytes()).unwrap();
    let wrapped = huerotate(&png, &450i32.to_le_bytes()).unwrap();
    let negative = huerotate(&png, &(-270i32).to_le_bytes()).unwrap();
    assert_eq!(quarter, wrapped);
    assert_eq!(quarter, negative);
}

#[test]
fn huerotate_keeps_every_alpha() {
    let pixels = [[200, 30, 60, 7], [0, 128, 255, 200], [50, 50, 50, 10], [255, 0, 0, 0]];
    let png = png_of(2, 2, &pixels);
    let out = huerotate(&png, &123i32.to_le_bytes()).unwrap();
    let (_, _, data) = decode(&out);
    let alphas: Vec<u8> = data.chunks(4).map(|p| p[3]).collect();
    assert_eq!(alphas, vec![7, 200, 10, 0]);
}

#[test]
fn huerotate_matches_the_image_crate() {
    let pixels = [[200, 30, 60, 255], [0, 128, 255, 200], [50, 50, 50, 10], [255, 0, 0, 255]];
    let png = png_of(2, 2, &pixels);
    let out = huerotate(&png, &90i32.to_le_bytes()).unwrap();
    let expected = image::DynamicImage::ImageRgba8(rgba_image(2, 2, &pixels))
        .huerotate(90)
        .to_rgba8()
        .into_raw();
    assert_eq!(decode(&out).2, expected);
}

#[test]
fn crop_absolute_mode_uses_pixel_counts() {
    let pixels: Vec<[u8; 4]> = (0..10_000).map(|_| [7, 7, 7, 255]).collect();
    let png = png_of(100, 100, &pixels);
    let out = crop(
        &png,
        &0u32.to_le_bytes(),
        &0u32.to_le_bytes(),
        &50u32.to_le_bytes(),
        &100u32.to_le_bytes(),
        &[0],
    )
    .unwrap();
    let (w, h, _) = decode(&out);
    assert_eq!((w, h), (50, 100));
}

#[test]
fn crop_ratio_mode_scales_by_dimensions() {
    let pixels: Vec<[u8; 4]> = (0..10_000).map(|_| [7, 7, 7, 255]).collect();
    let png = png_of(100, 100, &pixels);
    let out = crop(
        &png,
        &10u32.to_le_bytes(),
        &10u32.to_le_bytes(),
        &0.5f32.to_le_bytes(),
        &0.5f32.to_le_bytes(),
        &[1],
    )
    .unwrap();
    let (w, h, _) = decode(&out);
    assert_eq!((w, h), (50, 50));
}

#[test]
fn crop_rejects_rectangle_beyond_the_image() {
    let pixels: Vec<[u8; 4]> = (0..100).map(|_| [7, 7, 7, 255]).collect();
    let png = png_of(10, 10, &pixels);
    let r = crop(
        &png,
        &0u32.to_le_bytes(),
        &0u32.to_le_bytes(),
        &20u32.to_le_bytes(),
        &10u32.to_le_bytes(),
        &[0],
    );
    assert_eq!(r.unwrap_err(), EngineError::OutOfBounds);
}

#[test]
fn crop_requires_the_mode_flag() {
    let pixels: Vec<[u8; 4]> = (0..100).map(|_| [7, 7, 7, 255]).collect();
    let png = png_of(10, 10, &pixels);
    let r = crop(
        &png,
        &0u32.to_le_bytes(),
        &0u32.to_le_bytes(),
        &5u32.to_le_bytes(),
        &5u32.to_le_bytes(),
        &[],
    );
    assert_eq!(r.unwrap_err(), EngineError::MissingArgument);
}

#[test]
fn mask_white_keeps_alpha_black_zeroes_it() {
    let target = png_of(2, 1, &[[1, 2, 3, 200], [4, 5, 6, 100]]);
    let white = png_of(2, 1, &[[255, 255, 255, 255]; 2]);
    let black = png_of(2, 1, &[[0, 0, 0, 255]; 2]);
    let kept = mask(&target, &white, &[0]).unwrap();
    let (_, _, data) = decode(&kept);
    assert_eq!(data, vec![1, 2, 3, 200, 4, 5, 6, 100]);
    let zeroed = mask(&target, &black, &[0]).unwrap();
    let (_, _, data) = decode(&zeroed);
    assert_eq!(data, vec![1, 2, 3, 0, 4, 5, 6, 0]);
}

#[test]
fn mask_by_alpha_scales_target_alpha() {
    let target = png_of(1, 1, &[[9, 9, 9, 100]]);
    let half = png_of(1, 1, &[[0, 0, 0, 128]]);
    let out = mask(&target, &half, &[1]).unwrap();
    let (_, _, data) = decode(&out);
    assert_eq!(data, vec![9, 9, 9, 50]);
}

#[test]
fn mask_resamples_smaller_masks() {
    let target = png_of(2, 2, &[[1, 2, 3, 40], [1, 2, 3, 80], [1, 2, 3, 120], [1, 2, 3, 160]]);
    let tiny_white = png_of(1, 1, &[[255, 255, 255, 255]]);
    let out = mask(&target, &tiny_white, &[0]).unwrap();
    let (w, h, data) = decode(&out);
    assert_eq!((w, h), (2, 2));
    assert_eq!(data, vec![1, 2, 3, 40, 1, 2, 3, 80, 1, 2, 3, 120, 1, 2, 3, 160]);
}

#[test]
fn mask_output_is_always_png() {
    let img = rgba_image(2, 2, &[[100, 150, 200, 255]; 4]);
    let jpeg = encode(&img, image::ImageFormat::Jpeg);
    let white = png_of(2, 2, &[[255, 255, 255, 255]; 4]);
    let out = mask(&jpeg, &white, &[0]).unwrap();
    assert_eq!(image::guess_format(&out).unwrap(), image::ImageFormat::Png);
}

#[test]
fn crop_to_nothing_cannot_be_encoded() {
    let pixels: Vec<[u8; 4]> = (0..100).map(|_| [7, 7, 7, 255]).collect();
    let png = png_of(10, 10, &pixels);
    let r = crop(
        &png,
        &0u32.to_le_bytes(),
        &0u32.to_le_bytes(),
        &0u32.to_le_bytes(),
        &0u32.to_le_bytes(),
        &[0],
    );
    assert_eq!(r.unwrap_err(), EngineError::EncodeFailure);
}
