//! Conversions of the Windows bitmap formats.
use arboard::bitmap;
use arboard::pixels::{rgba_to_win, win_to_rgba};

const DATA: [u8; 16] = [100, 100, 255, 100, 0, 0, 0, 255, 255, 100, 100, 255, 100, 255, 100, 100];

#[test]
fn conversion_between_win_and_rgba() {
    let mut data = DATA.to_vec();
    let _converted = win_to_rgba(&mut data);

    let mut data = DATA.to_vec();
    let _converted = rgba_to_win(&mut data);

    let mut data = DATA.to_vec();
    let _converted = win_to_rgba(&mut data);
    let _converted = rgba_to_win(&mut data);
    assert_eq!(data, DATA);

    let mut data = DATA.to_vec();
    let _converted = rgba_to_win(&mut data);
    let _converted = win_to_rgba(&mut data);
    assert_eq!(data, DATA);
}

#[test]
fn check_win_to_rgba_conversion() {
    let mut data = DATA.to_vec();
    let _ = win_to_rgba(&mut data);
}

#[test]
fn check_rgba_to_win_conversion() {
    let mut data = DATA.to_vec();
    let _ = rgba_to_win(&mut data);
}

#[test]
fn firefox_dibv5() {
    // A 5x5 sample of https://commons.wikimedia.org/wiki/File:PNG_transparency_demonstration_1.png
    let mut raw = vec![
        124, 0, 0, 0, 5, 0, 0, 0, 5, 0, 0, 0, 1, 0, 24, 0, 0, 0, 0, 0, 80, 0, 0, 0, 0, 0, 0, 0,
        0, 0, 0, 0, 0, 0, 0, 0, 0, 0, 0, 0, 255, 0, 0, 0, 0, 255, 0, 0, 0, 0, 255, 0, 0, 0, 0,
        255, 66, 71, 82, 115, 0, 0, 0, 0, 0, 0, 0, 0, 0, 0, 0, 0, 0, 0, 0, 0, 0, 0, 0, 0, 0, 0,
        0, 0, 0, 0, 0, 0, 0, 0, 0, 0, 0, 0, 0, 0, 0, 0, 0, 0, 0, 0, 0, 0, 0, 0, 0, 0, 0, 0, 0,
        0, 0, 0, 0, 0, 0, 0, 0, 0, 0, 0, 0, 0, 36, 47, 144, 42, 68, 110, 48, 74, 66, 52, 74,
        49, 57, 80, 55, 0, 36, 53, 138, 45, 79, 98, 52, 82, 58, 56, 84, 52, 62, 91, 58, 0, 37,
        64, 129, 48, 88, 88, 54, 90, 54, 60, 96, 55, 66, 104, 62, 0, 40, 75, 120, 50, 96, 74,
        55, 99, 51, 62, 106, 57, 68, 113, 62, 0, 42, 89, 107, 50, 104, 60, 57, 108, 49, 64,
        114, 56, 71, 123, 65, 0,
    ];

    let before = raw.clone();
    let image = bitmap::read_cf_dibv5(&mut raw).unwrap();

    // Not expecting any header fiddling to happen here. This is a bitmap in 24-bit format, with a header
    // that says as much
    assert_eq!(raw, before);

    assert_eq!(image.width, 5);
    assert_eq!(image.height, 5);

    const EXPECTED: &[u8] = &[
        107, 89, 42, 255, 60, 104, 50, 255, 49, 108, 57, 255, 56, 114, 64, 255, 65, 123, 71,
        255, 120, 75, 40, 255, 74, 96, 50, 255, 51, 99, 55, 255, 57, 106, 62, 255, 62, 113, 68,
        255, 129, 64, 37, 255, 88, 88, 48, 255, 54, 90, 54, 255, 55, 96, 60, 255, 62, 104, 66,
        255, 138, 53, 36, 255, 98, 79, 45, 255, 58, 82, 52, 255, 52, 84, 56, 255, 58, 91, 62,
        255, 144, 47, 36, 255, 110, 68, 42, 255, 66, 74, 48, 255, 49, 74, 52, 255, 55, 80, 57,
        255,
    ];
    assert_eq!(image.bytes, EXPECTED);
}
#[test]
fn chrome_dibv5() {
    // A 5x5 sample of https://commons.wikimedia.org/wiki/File:PNG_transparency_demonstration_1.png
    // (interestingly, the same sample as in the Firefox test - despite the pixel data being
    // materially different!)
    let mut raw = vec![
        124, 0, 0, 0, 5, 0, 0, 0, 5, 0, 0, 0, 1, 0, 32, 0, 0, 0, 0, 0, 0, 0, 0, 0, 0, 0, 0, 0,
        0, 0, 0, 0, 0, 0, 0, 0, 0, 0, 0, 0, 0, 0, 0, 0, 0, 0, 0, 0, 0, 0, 0, 0, 0, 0, 0, 255,
        32, 110, 105, 87, 0, 0, 0, 0, 0, 0, 0, 0, 0, 0, 0, 0, 0, 0, 0, 0, 0, 0, 0, 0, 0, 0, 0,
        0, 0, 0, 0, 0, 0, 0, 0, 0, 0, 0, 0, 0, 0, 0, 0, 0, 0, 0, 0, 0, 0, 0, 0, 0, 4, 0, 0, 0,
        0, 0, 0, 0, 0, 0, 0, 0, 0, 0, 0, 0, 32, 38, 145, 192, 38, 65, 111, 158, 46, 73, 68,
        107, 50, 73, 50, 92, 55, 79, 55, 100, 31, 46, 139, 190, 41, 76, 100, 152, 49, 81, 60,
        110, 53, 83, 53, 108, 60, 91, 60, 118, 32, 59, 131, 187, 44, 86, 89, 150, 51, 89, 56,
        121, 57, 95, 57, 127, 63, 103, 63, 139, 35, 71, 122, 186, 46, 95, 76, 150, 52, 99, 54,
        136, 59, 105, 59, 146, 65, 113, 65, 156, 37, 86, 109, 184, 46, 103, 63, 155, 52, 107,
        53, 152, 60, 114, 60, 162, 68, 123, 68, 174,
    ];

    let before = raw.clone();
    let image = bitmap::read_cf_dibv5(&mut raw).unwrap();

    // Chrome's header is dodgy. Expect that we fiddled with it.
    assert_ne!(raw, before);

    assert_eq!(image.width, 5);
    assert_eq!(image.height, 5);

    const EXPECTED: &[u8] = &[
        109, 86, 37, 184, 63, 103, 46, 155, 53, 107, 52, 152, 60, 114, 60, 162, 68, 123, 68,
        174, 122, 71, 35, 186, 76, 95, 46, 150, 54, 99, 52, 136, 59, 105, 59, 146, 65, 113, 65,
        156, 131, 59, 32, 187, 89, 86, 44, 150, 56, 89, 51, 121, 57, 95, 57, 127, 63, 103, 63,
        139, 139, 46, 31, 190, 100, 76, 41, 152, 60, 81, 49, 110, 53, 83, 53, 108, 60, 91, 60,
        118, 145, 38, 32, 192, 111, 65, 38, 158, 68, 73, 46, 107, 50, 73, 50, 92, 55, 79, 55,
        100,
    ];
    assert_eq!(image.bytes, EXPECTED);
}