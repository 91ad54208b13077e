use image_effects::vector::{
    svg_blur, svg_brighten, svg_crop, svg_grayscale, svg_huerotate, svg_invert, svg_transparency,
};
use image_effects::EngineError;

const SVG: &[u8] =
    b"<svg xmlns=\"http://www.w3.org/2000/svg\"><rect width=\"4\" height=\"4\"/></svg>";

fn text(bytes: Vec<u8>) -> String {
    String::from_utf8(bytes).unwrap()
}

#[test]
fn svg_grayscale_injects_the_matrix_filter() {
    let out = text(svg_grayscale(SVG).unwrap());
    assert!(out.contains("<filter id=\"EngineFilter\">"));
    assert!(out.contains("feColorMatrix"));
    assert!(out.contains("type=\"matrix\""));
    assert!(out.contains(
        "0.3333 0.3333 0.3333 0 0 0.3333 0.3333 0.3333 0 0 0.3333 0.3333 0.3333 0 0 0 0 0 1 0"
    ));
    assert!(out.contains("<g filter=\"url(#EngineFilter)\">"));
    assert!(out.contains("<rect"));
}

#[test]
fn svg_ops_reject_malformed_documents() {
    assert_eq!(svg_grayscale(b"not a document").unwrap_err(), EngineError::MalformedDocument);
    assert_eq!(svg_blur(b"<svg>", "1").unwrap_err(), EngineError::MalformedDocument);
    assert_eq!(
        svg_crop(b"\xff\xff", "0", "0", "1", "1").unwrap_err(),
        EngineError::MalformedDocument
    );
}

#[test]
fn svg_blur_carries_the_deviation_text() {
    let out = text(svg_blur(SVG, "2.5").unwrap());
    assert!(out.contains("feGaussianBlur"));
    assert!(out.contains("stdDeviation=\"2.5\""));
    assert!(out.contains("<g filter=\"url(#EngineFilter)\">"));
}

#[test]
fn svg_transparency_sets_the_alpha_slope() {
    let out = text(svg_transparency(SVG, "0.5").unwrap());
    assert!(out.contains("feComponentTransfer"));
    assert!(out.contains("feFuncA"));
    assert!(out.contains("type=\"linear\""));
    assert!(out.contains("slope=\"0.5\""));
}

#[test]
fn svg_invert_tables_all_three_channels() {
    let out = text(svg_invert(SVG).unwrap());
    assert!(out.contains("style=\"color-interpolation-filters:sRGB\""));
    assert!(out.contains("feFuncR"));
    assert!(out.contains("feFuncG"));
    assert!(out.contains("feFuncB"));
    assert_eq!(out.matches("tableValues=\"1 0\"").count(), 3);
}

#[test]
fn svg_brighten_intercepts_all_three_channels() {
    let out = text(svg_brighten(SVG, "10").unwrap());
    assert!(out.contains("style=\"color-interpolation-filters:sRGB\""));
    assert_eq!(out.matches("slope=\"1\"").count(), 3);
    assert_eq!(out.matches("intercept=\"10\"").count(), 3);
}

#[test]
fn svg_huerotate_sets_plain_degree_value() {
    let out = text(svg_huerotate(SVG, "90").unwrap());
    assert!(out.contains("feColorMatrix"));
    assert!(out.contains("type=\"hueRotate\""));
    assert!(out.contains("values=\"90\""));
    assert!(!out.contains("deg"));
}

#[test]
fn svg_crop_replaces_an_existing_view_box() {
    let svg = b"<svg viewBox=\"0 0 10 10\"><rect/></svg>";
    let out = text(svg_crop(svg, "1", "2", "3", "4").unwrap());
    assert!(out.contains("viewBox=\"1 2 3 4\""));
    assert!(!out.contains("0 0 10 10"));
}

#[test]
fn svg_crop_inserts_a_missing_view_box() {
    let svg = b"<svg><rect/></svg>";
    let out = text(svg_crop(svg, "1", "2", "3", "4").unwrap());
    assert!(out.contains("viewBox=\"1 2 3 4\""));
}

#[test]
fn svg_wrap_discards_non_element_children() {
    let svg = b"<svg>stray text<rect/><!-- note --></svg>";
    let out = text(svg_grayscale(svg).unwrap());
    assert!(!out.contains("stray text"));
    assert!(!out.contains("note"));
    assert!(out.contains("<rect"));
}

#[test]
fn svg_round_trip_keeps_the_namespace() {
    let out = text(svg_grayscale(SVG).unwrap());
    assert!(out.contains("http://www.w3.org/2000/svg"));
}
