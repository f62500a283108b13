//! Images for keys.

use base64::engine::general_purpose::STANDARD;
use base64::Engine;
use focus_launcher::action::{icon_read, icon_resolved, ImageStep};
use focus_launcher::icon::{build_image_payload, image_uri, mime_type, IconEncodeError};

// A valid PNG of one transparent pixel.
const TINY_PNG: &[u8] = &[
    0x89, 0x50, 0x4E, 0x47, 0x0D, 0x0A, 0x1A, 0x0A, 0x00, 0x00, 0x00, 0x0D, 0x49, 0x48, 0x44, 0x52,
    0x00, 0x00, 0x00, 0x01, 0x00, 0x00, 0x00, 0x01, 0x08, 0x06, 0x00, 0x00, 0x00, 0x1F, 0x15, 0xC4,
    0x89, 0x00, 0x00, 0x00, 0x0A, 0x49, 0x44, 0x41, 0x54, 0x78, 0x9C, 0x63, 0x00, 0x01, 0x00, 0x00,
    0x05, 0x00, 0x01, 0x0D, 0x0A, 0x2D, 0xB4, 0x00, 0x00, 0x00, 0x00, 0x49, 0x45, 0x4E, 0x44, 0xAE,
    0x42, 0x60, 0x82,
];

#[test]
fn encodes_a_raster_icon_as_a_base64_data_uri() {
    let payload = build_image_payload("/icons/icon.png", Ok(TINY_PNG.to_vec())).unwrap();

    let prefix = "data:image/png;base64,";
    assert!(payload.starts_with(prefix), "got: {payload}");
    let decoded = STANDARD.decode(&payload[prefix.len()..]).unwrap();
    assert_eq!(decoded, TINY_PNG);
}

#[test]
fn picks_jpeg_mime_for_a_jpg_extension() {
    let payload =
        build_image_payload("/icons/icon.jpg", Ok(b"not-really-a-jpeg".to_vec())).unwrap();

    assert!(payload.starts_with("data:image/jpeg;base64,"));
}

#[test]
fn encodes_an_svg_icon_as_a_base64_data_uri() {
    let svg = "<svg xmlns=\"http://www.w3.org/2000/svg\"></svg>";

    let payload = build_image_payload("/icons/icon.svg", Ok(svg.as_bytes().to_vec())).unwrap();

    let prefix = "data:image/svg+xml;base64,";
    assert!(payload.starts_with(prefix), "got: {payload}");
    let decoded = STANDARD.decode(&payload[prefix.len()..]).unwrap();
    assert_eq!(decoded, svg.as_bytes());
}

#[test]
fn reports_an_error_for_a_missing_file() {
    let result = build_image_payload(
        "/nonexistent/icon.png",
        Err("No such file or directory (os error 2)".to_string()),
    );
    assert!(matches!(result, Err(IconEncodeError::Read(_))));
}

#[test]
fn the_payload_is_exact() {
    assert_eq!(
        build_image_payload("icon.bmp", Ok(b"foobar!".to_vec())).unwrap(),
        "data:image/bmp;base64,Zm9vYmFyIQ=="
    );
    assert_eq!(
        build_image_payload("icon", Ok(vec![])).unwrap(),
        "data:image/png;base64,"
    );
}

#[test]
fn the_body_is_standard_base64_with_padding() {
    let body = |bytes: &[u8]| {
        let payload = build_image_payload("icon.png", Ok(bytes.to_vec())).unwrap();
        payload.split_once(',').unwrap().1.to_string()
    };
    assert_eq!(body(b"f"), "Zg==");
    assert_eq!(body(b"fo"), "Zm8=");
    assert_eq!(body(b"foo"), "Zm9v");
    assert_eq!(body(&[0xfb, 0xff]), "+/8=");
    assert_eq!(body(&[0xff]), "/w==");
    for len in 0..=300usize {
        let bytes: Vec<u8> = (0..len).map(|i| (i * 37 % 256) as u8).collect();
        let text = body(&bytes);
        assert_eq!(text.len(), (len + 2) / 3 * 4);
        assert_eq!(STANDARD.decode(text).unwrap(), bytes);
    }
}

#[test]
fn extensions_count_in_any_case() {
    assert_eq!(mime_type(Some("SVG")), "image/svg+xml");
    assert_eq!(mime_type(Some("JpEg")), "image/jpeg");
    assert_eq!(mime_type(Some("jpg")), "image/jpeg");
    assert_eq!(mime_type(Some("BMP")), "image/bmp");
    assert_eq!(mime_type(Some("xpm")), "image/png");
    assert_eq!(mime_type(None), "image/png");
}

#[test]
fn only_the_last_extension_of_the_file_name_counts() {
    let of = |path: &str| build_image_payload(path, Ok(vec![])).unwrap();
    assert_eq!(of("/a.svg/icon.tar.JPG"), "data:image/jpeg;base64,");
    assert_eq!(of("/a.svg/icon"), "data:image/png;base64,");
    assert_eq!(of("/icons/.svg"), "data:image/png;base64,");
    assert_eq!(of("/icons/..svg"), "data:image/svg+xml;base64,");
    assert_eq!(of("/icons/x.svg."), "data:image/png;base64,");
    assert_eq!(of("x.svg/"), "data:image/svg+xml;base64,");
}

#[test]
fn the_image_stands_behind_the_comma() {
    let uri = image_uri(Some("svg"), "QUJD");
    assert_eq!(uri, "data:image/svg+xml;base64,QUJD");
    assert_eq!(uri.split_once(',').unwrap().1, "QUJD");
}

#[test]
fn an_icon_that_was_found_is_read() {
    assert_eq!(
        icon_resolved("org.kde.kate", Some("/icons/kate.svg".to_string())),
        ImageStep::Read("/icons/kate.svg".to_string())
    );
}

#[test]
fn an_icon_that_was_not_found_is_warned_about() {
    assert_eq!(
        icon_resolved("org.kde.kate", None),
        ImageStep::Warn("no icon resolved for org.kde.kate".to_string())
    );
}

#[test]
fn an_icon_that_was_read_becomes_the_image() {
    assert_eq!(
        icon_read("/icons/kate.svg", Ok(b"foo".to_vec())),
        ImageStep::SetImage("data:image/svg+xml;base64,Zm9v".to_string())
    );
}

#[test]
fn an_icon_that_could_not_be_read_is_warned_about() {
    assert_eq!(
        icon_read("/icons/kate.svg", Err("permission denied".to_string())),
        ImageStep::Warn("failed to read icon at /icons/kate.svg: permission denied".to_string())
    );
}
