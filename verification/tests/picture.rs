use shuttlings_cch23::decimal::{decimal_text, signed_decimal_text};
use shuttlings_cch23::pixels;
use shuttlings_cch23::pixels::{count_magic_reds, error_text, magic_red, magic_reds, red_report};

const FOUR_PIXELS: [u8; 79] = [
    0x89, 0x50, 0x4e, 0x47, 0x0d, 0x0a, 0x1a, 0x0a, 0x00, 0x00, 0x00, 0x0d, 0x49, 0x48, 0x44, 0x52,
    0x00, 0x00, 0x00, 0x02, 0x00, 0x00, 0x00, 0x02, 0x08, 0x02, 0x00, 0x00, 0x00, 0xfd, 0xd4, 0x9a,
    0x73, 0x00, 0x00, 0x00, 0x16, 0x49, 0x44, 0x41, 0x54, 0x78, 0xda, 0x63, 0xf8, 0xcf, 0xc0, 0x90,
    0x62, 0x64, 0xc4, 0x70, 0x22, 0x25, 0x99, 0xeb, 0xc4, 0x09, 0x00, 0x1e, 0xe1, 0x04, 0xf1, 0x10,
    0x88, 0x4c, 0xd5, 0x00, 0x00, 0x00, 0x00, 0x49, 0x45, 0x4e, 0x44, 0xae, 0x42, 0x60, 0x82,
];

const TWO_GREYS: [u8; 68] = [
    0x89, 0x50, 0x4e, 0x47, 0x0d, 0x0a, 0x1a, 0x0a, 0x00, 0x00, 0x00, 0x0d, 0x49, 0x48, 0x44, 0x52,
    0x00, 0x00, 0x00, 0x02, 0x00, 0x00, 0x00, 0x01, 0x08, 0x00, 0x00, 0x00, 0x00, 0xd1, 0x49, 0x20,
    0x56, 0x00, 0x00, 0x00, 0x0b, 0x49, 0x44, 0x41, 0x54, 0x78, 0xda, 0x63, 0xf8, 0xcf, 0x0e, 0x00,
    0x02, 0x08, 0x01, 0x07, 0x0a, 0xa1, 0x93, 0x29, 0x00, 0x00, 0x00, 0x00, 0x49, 0x45, 0x4e, 0x44,
    0xae, 0x42, 0x60, 0x82,
];

#[test]
fn red_outweighs_green_and_blue() {
    assert!(magic_red((255, 0, 0, 255)));
    assert!(!magic_red((100, 50, 50, 255)));
    assert!(magic_red((101, 50, 50, 0)));
    assert!(magic_red((200, 100, 99, 255)));
    assert!(!magic_red((10, 200, 200, 255)));
    assert!(!magic_red((255, 200, 200, 255)));
    assert!(!magic_red((255, 255, 0, 255)));
    assert!(!magic_red((0, 0, 0, 0)));
}

#[test]
fn magic_reds_are_counted() {
    let four = vec![(255, 0, 0, 255), (100, 50, 50, 255), (200, 100, 99, 255), (10, 200, 200, 255)];
    assert_eq!(count_magic_reds(&four), 2);
    assert_eq!(count_magic_reds(&Vec::new()), 0);
    assert_eq!(red_report(Ok(four)), "2");
    assert_eq!(red_report(Ok(vec![(9, 1, 1, 0); 1234])), "1234");
}

#[test]
fn png_is_decoded_and_counted() {
    assert_eq!(magic_reds(Some(&FOUR_PIXELS)), "2");
    assert_eq!(magic_reds(Some(&TWO_GREYS)), "0");
}

#[test]
fn no_upload_counts_zero() {
    assert_eq!(magic_reds(None), "0");
}

#[test]
fn broken_png_is_reported() {
    let text = magic_reds(Some(&[1, 2, 3]));
    assert!(text.starts_with("error code: "));
    assert!(text.len() > "error code: ".len());
    let cut = magic_reds(Some(&FOUR_PIXELS[..40]));
    assert!(cut.starts_with("error code: "));
    assert!(magic_reds(Some(&[])).starts_with("error code: "));
}

#[test]
fn errors_are_worded_by_their_debug_form() {
    assert_eq!(error_text("Decoding(bad)"), "error code: Decoding(bad)");
    assert_eq!(error_text(""), "error code: ");
    assert_eq!(pixels::stringify(7), "error code: 7");
    assert_eq!(pixels::stringify("x"), "error code: \"x\"");
    assert_eq!(pixels::stringify(Some(1u8)), "error code: Some(1)");
}

#[test]
fn numbers_in_decimal() {
    assert_eq!(decimal_text(0), "0");
    assert_eq!(decimal_text(7), "7");
    assert_eq!(decimal_text(10), "10");
    assert_eq!(decimal_text(2023), "2023");
    assert_eq!(decimal_text(u128::MAX), "340282366920938463463374607431768211455");
    assert_eq!(signed_decimal_text(0), "0");
    assert_eq!(signed_decimal_text(-1), "-1");
    assert_eq!(signed_decimal_text(i64::MIN), "-9223372036854775808");
    assert_eq!(signed_decimal_text(i64::MAX), "9223372036854775807");
}
