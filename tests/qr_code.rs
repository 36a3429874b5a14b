use passqr::qr_code::{generate_qr_code, QrImageError};
use passqr::{qr_multi, qr_single};

#[test]
fn qr_image_snaps_to_whole_modules() {
    // "hello" fits a version 1 code: 21 modules and a quiet zone of 4 on
    // each side make 29; the largest module size within 669 dots is 23.
    let image = generate_qr_code("hello", qr_multi::QR_SIZE).ok().unwrap();
    assert_eq!(image.width, 667);
    assert_eq!(image.height, 667);
    assert_eq!(image.pixels.len(), 667 * 667);
}

#[test]
fn recap_qr_image_stays_within_page() {
    let image = generate_qr_code("a = \"1\"\n", qr_single::QR_SIZE).ok().unwrap();
    assert_eq!(image.width, image.height);
    assert!(image.width <= 2007);
    assert!(image.width > 2007 - 29);
}

#[test]
fn qr_image_of_too_long_text_fails() {
    let text = "a".repeat(4000);
    assert!(matches!(generate_qr_code(&text, qr_multi::QR_SIZE), Err(QrImageError::Encode(_))));
}

#[test]
fn tiny_target_gives_one_pixel_modules() {
    let image = generate_qr_code("hello", 0).ok().unwrap();
    assert_eq!(image.width, 29);
}

#[test]
fn qr_image_fits_large_budget() {
    let text = "x".repeat(2000);
    let image = generate_qr_code(&text, qr_single::QR_SIZE).ok().unwrap();
    assert_eq!(image.width, image.height);
    assert!(image.width >= 29 && image.width <= 2007);
    assert_eq!(image.pixels.len(), (image.width * image.height) as usize);
}
