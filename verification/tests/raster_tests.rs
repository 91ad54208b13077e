use image_effects::mask::{composite, resize_nearest};
use image_effects::pixel::PixelBuffer;
use image_effects::raster::{
    brighten, crop, flip_horizontal, flip_vertical, grayscale, invert, rotate180, rotate270,
    rotate90, transparency,
};
use image_effects::EngineError;

fn buffer(width: u32, height: u32, data: Vec<u8>) -> PixelBuffer {
    assert_eq!(data.len() as u64, 4 * width as u64 * height as u64);
    PixelBuffer { width, height, data }
}

#[test]
fn invert_flips_rgb_and_keeps_alpha() {
    let b = buffer(1, 1, vec![10, 20, 30, 40]);
    let r = invert(b);
    assert_eq!(r.data, vec![245, 235, 225, 40]);
}

#[test]
fn invert_twice_is_identity() {
    let data: Vec<u8> = (0..64u32).map(|i| (i * 37 % 256) as u8).collect();
    let b = buffer(4, 4, data.clone());
    let r = invert(invert(b));
    assert_eq!(r.data, data);
    assert_eq!((r.width, r.height), (4, 4));
}

#[test]
fn grayscale_averages_with_equal_weights() {
    let b = buffer(2, 1, vec![10, 20, 31, 77, 0, 0, 255, 1]);
    let r = grayscale(b);
    assert_eq!(r.data, vec![20, 20, 20, 77, 85, 85, 85, 1]);
}

#[test]
fn brighten_saturates_both_ends() {
    let up = brighten(buffer(1, 1, vec![250, 5, 0, 7]), 10);
    assert_eq!(up.data, vec![255, 15, 10, 7]);
    let down = brighten(buffer(1, 1, vec![250, 5, 0, 7]), -20);
    assert_eq!(down.data, vec![230, 0, 0, 7]);
}

#[test]
fn transparency_sets_every_alpha() {
    let b = buffer(2, 1, vec![1, 2, 3, 200, 4, 5, 6, 0]);
    let r = transparency(b, 128);
    assert_eq!(r.data, vec![1, 2, 3, 128, 4, 5, 6, 128]);
}

#[test]
fn crop_cuts_the_requested_rectangle() {
    // 2x2 image whose pixels are R=row, G=column.
    let b = buffer(
        2,
        2,
        vec![0, 0, 9, 9, 0, 1, 9, 9, 1, 0, 9, 9, 1, 1, 9, 9],
    );
    let r = crop(&b, 1, 1, 1, 1).unwrap();
    assert_eq!((r.width, r.height), (1, 1));
    assert_eq!(r.data, vec![1, 1, 9, 9]);
}

#[test]
fn crop_rejects_rectangles_out_of_bounds() {
    let b = buffer(2, 2, vec![0; 16]);
    assert!(matches!(crop(&b, 1, 0, 2, 1), Err(EngineError::OutOfBounds)));
    assert!(matches!(crop(&b, 0, 0, 2, 3), Err(EngineError::OutOfBounds)));
    assert!(crop(&b, 0, 0, 2, 2).is_ok());
}

#[test]
fn composite_white_mask_keeps_alpha() {
    let target = buffer(2, 1, vec![1, 2, 3, 200, 4, 5, 6, 17]);
    let mask = buffer(2, 1, vec![255, 255, 255, 255, 255, 255, 255, 255]);
    let r = composite(target, &mask, false);
    assert_eq!(r.data, vec![1, 2, 3, 200, 4, 5, 6, 17]);
}

#[test]
fn composite_black_mask_zeroes_alpha() {
    let target = buffer(2, 1, vec![1, 2, 3, 200, 4, 5, 6, 17]);
    let mask = buffer(2, 1, vec![0, 0, 0, 255, 0, 0, 0, 255]);
    let r = composite(target, &mask, false);
    assert_eq!(r.data, vec![1, 2, 3, 0, 4, 5, 6, 0]);
}

#[test]
fn composite_by_alpha_scales_rounding() {
    let target = buffer(1, 1, vec![9, 9, 9, 100]);
    let mask = buffer(1, 1, vec![0, 0, 0, 128]);
    let r = composite(target, &mask, true);
    // round(100/255 * 128/255 * 255) = round(50.196) = 50
    assert_eq!(r.data, vec![9, 9, 9, 50]);
}

#[test]
fn resize_nearest_duplicates_samples() {
    // A 2x1 source [A | B] stretched to 4x1 keeps hard edges: A A B B.
    let src = buffer(2, 1, vec![10, 10, 10, 10, 200, 200, 200, 200]);
    let r = resize_nearest(&src, 4, 1);
    assert_eq!((r.width, r.height), (4, 1));
    assert_eq!(
        r.data,
        vec![10, 10, 10, 10, 10, 10, 10, 10, 200, 200, 200, 200, 200, 200, 200, 200]
    );
}

#[test]
fn resize_nearest_shrinks_by_sampling_centers() {
    // A 4x1 source [A B C D] shrunk to 2x1 samples the cell centers: B, D.
    let src = buffer(
        4,
        1,
        vec![1, 1, 1, 1, 2, 2, 2, 2, 3, 3, 3, 3, 4, 4, 4, 4],
    );
    let r = resize_nearest(&src, 2, 1);
    assert_eq!(r.data, vec![2, 2, 2, 2, 4, 4, 4, 4]);
}

#[test]
fn flip_horizontal_reverses_rows() {
    // 2x1: [A | B] becomes [B | A].
    let b = buffer(2, 1, vec![1, 1, 1, 1, 2, 2, 2, 2]);
    let r = flip_horizontal(b);
    assert_eq!(r.data, vec![2, 2, 2, 2, 1, 1, 1, 1]);
    assert_eq!((r.width, r.height), (2, 1));
}

#[test]
fn flip_vertical_reverses_columns() {
    // 1x2: top A over bottom B becomes B over A.
    let b = buffer(1, 2, vec![1, 1, 1, 1, 2, 2, 2, 2]);
    let r = flip_vertical(b);
    assert_eq!(r.data, vec![2, 2, 2, 2, 1, 1, 1, 1]);
}

#[test]
fn rotate90_turns_clockwise() {
    // 2x1: [A | B] turned clockwise is A over B in a 1x2 grid.
    let b = buffer(2, 1, vec![1, 1, 1, 1, 2, 2, 2, 2]);
    let r = rotate90(b);
    assert_eq!((r.width, r.height), (1, 2));
    assert_eq!(r.data, vec![1, 1, 1, 1, 2, 2, 2, 2]);
    // 1x2: A over B turned clockwise is [B | A].
    let c = buffer(1, 2, vec![1, 1, 1, 1, 2, 2, 2, 2]);
    let rc = rotate90(c);
    assert_eq!((rc.width, rc.height), (2, 1));
    assert_eq!(rc.data, vec![2, 2, 2, 2, 1, 1, 1, 1]);
}

#[test]
fn rotate180_is_both_flips() {
    let b = buffer(2, 2, vec![1, 1, 1, 1, 2, 2, 2, 2, 3, 3, 3, 3, 4, 4, 4, 4]);
    let r = rotate180(b);
    assert_eq!(r.data, vec![4, 4, 4, 4, 3, 3, 3, 3, 2, 2, 2, 2, 1, 1, 1, 1]);
}

#[test]
fn rotate270_undoes_rotate90() {
    let data: Vec<u8> = (0..24u32).map(|i| (i * 11 % 256) as u8).collect();
    let b = buffer(3, 2, data.clone());
    let r = rotate270(rotate90(b));
    assert_eq!((r.width, r.height), (3, 2));
    assert_eq!(r.data, data);
}

#[test]
fn composite_uses_weighted_luma() {
    // A pure red mask pixel has luma floor(2126*255/10000) = 54, so a fully
    // opaque target alpha becomes round(255 * 54/255) = 54.
    let target = buffer(1, 1, vec![9, 9, 9, 255]);
    let red = buffer(1, 1, vec![255, 0, 0, 255]);
    let r = composite(target, &red, false);
    assert_eq!(r.data, vec![9, 9, 9, 54]);
}
