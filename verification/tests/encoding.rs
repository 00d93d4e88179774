use atic_desktop::encoding::{data_url_of, png_data_url};
use atic_desktop::launcher_icons::{bitmap_png_data_url, icon_rgba};
use atic_desktop::media::thumbnail_data_url;
use base64::Engine;

fn decode_png(url: &str) -> image::RgbaImage {
    let b64 = url.strip_prefix("data:image/png;base64,").unwrap();
    let bytes = base64::engine::general_purpose::STANDARD.decode(b64).unwrap();
    image::load_from_memory(&bytes).unwrap().to_rgba8()
}

#[test]
fn bytes_become_a_base64_data_url() {
    assert_eq!(data_url_of("image/png", &b"ABC".to_vec()), "data:image/png;base64,QUJD");
    assert_eq!(data_url_of("text/plain", &b"hi".to_vec()), "data:text/plain;base64,aGk=");
}

#[test]
fn a_cover_keeps_an_image_type_only() {
    let bytes = b"ABC".to_vec();
    assert_eq!(
        thumbnail_data_url(&bytes, Some("image/jpeg".to_string())).as_deref(),
        Some("data:image/jpeg;base64,QUJD")
    );
    assert_eq!(
        thumbnail_data_url(&bytes, Some("application/octet-stream".to_string())).as_deref(),
        Some("data:image/png;base64,QUJD")
    );
    assert_eq!(thumbnail_data_url(&Vec::new(), None), None);
    assert_eq!(thumbnail_data_url(&vec![0u8; 2 * 1024 * 1024 + 1], None), None);
}

#[test]
fn raw_pixels_become_a_png() {
    let url = png_data_url(2, 1, vec![255, 0, 0, 255, 0, 0, 255, 128]).unwrap();
    assert!(url.starts_with("data:image/png;base64,iVBORw0KGgo"));
    let img = decode_png(&url);
    assert_eq!(img.dimensions(), (2, 1));
    assert_eq!(img.get_pixel(1, 0).0, [0, 0, 255, 128]);
    assert_eq!(png_data_url(2, 2, vec![0; 4]), None);
}

#[test]
fn bitmap_pixels_are_swapped_and_made_opaque() {
    assert_eq!(icon_rgba(vec![1, 2, 3, 0, 4, 5, 6, 0, 9]), vec![3, 2, 1, 255, 6, 5, 4, 255, 9]);
    assert_eq!(icon_rgba(vec![1, 2, 3, 7, 4, 5, 6, 0]), vec![3, 2, 1, 7, 6, 5, 4, 0]);
    let url = bitmap_png_data_url(1, -1, vec![10, 20, 30, 0]).unwrap();
    assert_eq!(decode_png(&url).get_pixel(0, 0).0, [30, 20, 10, 255]);
}

#[test]
fn pixels_that_do_not_fill_the_size_exactly_give_nothing() {
    assert_eq!(png_data_url(1, 1, vec![1, 2, 3, 4, 5]), None);
    assert_eq!(png_data_url(1, 1, vec![1, 2, 3]), None);
    assert_eq!(bitmap_png_data_url(1, 1, vec![1, 2, 3, 4, 5, 6, 7, 8]), None);
    assert!(png_data_url(1, 1, vec![1, 2, 3, 4]).is_some());
}
