//! Image data, pixel conversions and the bitmap and PNG formats.
use arboard::bitmap::{
    self, bitmap_bits_header, bitmap_query_header, bitmap_v4_header_bytes, color_bits,
    dib_image_from_bmp, dibv5_from_image, dibv5_header_bytes, encode_as_png, get_image_from_dib,
    image_from_bitmap_bits, image_from_decoded, image_to_dib, maybe_tweak_header, png_from_image,
    read_png, row_stride, storage_header, FakeBitmapFile, SeekPos, CF_DIB, CF_DIBV5,
};
use arboard::linux::wayland_image;
use arboard::pixels::{bgra_to_rgba, flip_v};
use arboard::{Error, ImageData};

fn sample_2x2() -> ImageData {
    ImageData {
        width: 2,
        height: 2,
        bytes: vec![
            255, 100, 100, 255, //
            100, 255, 100, 100, //
            100, 100, 255, 100, //
            0, 0, 0, 255,
        ],
    }
}

fn sample_3x2() -> ImageData {
    ImageData {
        width: 3,
        height: 2,
        bytes: vec![
            255, 100, 100, 255, 100, 255, 100, 100, 100, 100, 255, 100, //
            0, 1, 2, 255, 0, 1, 2, 255, 0, 1, 2, 255,
        ],
    }
}

#[test]
fn owned_bytes_and_owned_image_keep_the_pixels() {
    let img = sample_2x2();
    let copy = img.to_owned_img();
    assert_eq!(copy.width, 2);
    assert_eq!(copy.height, 2);
    assert_eq!(copy.bytes, img.bytes);
    assert_eq!(img.clone().into_owned_bytes(), img.bytes);
}

#[test]
fn flip_reverses_the_rows() {
    let img = ImageData { width: 1, height: 3, bytes: vec![1, 1, 1, 1, 2, 2, 2, 2, 3, 3, 3, 3, 9] };
    let flipped = flip_v(img);
    assert_eq!(flipped.bytes, vec![3, 3, 3, 3, 2, 2, 2, 2, 1, 1, 1, 1, 9]);
    assert_eq!(flipped.width, 1);
    assert_eq!(flipped.height, 3);
}

#[test]
fn flip_twice_is_the_identity() {
    let img = sample_3x2();
    let twice = flip_v(flip_v(img.clone()));
    assert_eq!(twice.bytes, img.bytes);
}

#[test]
fn flip_of_a_single_row_changes_nothing() {
    let img = ImageData { width: 5, height: 1, bytes: vec![1, 2, 3] };
    assert_eq!(flip_v(img).bytes, vec![1, 2, 3]);
}

#[test]
fn bgra_becomes_rgba() {
    let mut px = vec![1, 2, 3, 4, 5, 6, 7, 8];
    bgra_to_rgba(&mut px);
    assert_eq!(px, vec![3, 2, 1, 4, 7, 6, 5, 8]);
}

#[test]
fn dibv5_header_fields() {
    let h = dibv5_header_bytes(2, 3);
    assert_eq!(h.len(), 124);
    assert_eq!(&h[0..4], &[124, 0, 0, 0]);
    assert_eq!(&h[4..8], &[2, 0, 0, 0]);
    assert_eq!(&h[8..12], &[3, 0, 0, 0]);
    assert_eq!(&h[12..16], &[1, 0, 32, 0]);
    assert_eq!(&h[16..20], &[3, 0, 0, 0]);
    assert_eq!(&h[20..24], &[24, 0, 0, 0]);
    assert_eq!(&h[40..56], &[0, 0, 255, 0, 0, 255, 0, 0, 255, 0, 0, 0, 0, 0, 0, 255]);
    assert_eq!(&h[56..60], &[0x42, 0x47, 0x52, 0x73]);
    assert_eq!(&h[108..112], &[4, 0, 0, 0]);
}

#[test]
fn dibv5_payload_is_flipped_and_in_bitmap_order() {
    let payload = dibv5_from_image(sample_2x2());
    assert_eq!(payload.len(), 124 + 16);
    assert_eq!(&payload[124..], &[255, 100, 100, 100, 0, 0, 0, 255, 100, 100, 255, 255, 100, 255, 100, 100]);
}

#[test]
fn dibv5_payload_reads_back_as_the_image() {
    let img = sample_3x2();
    let mut payload = dibv5_from_image(img.clone());
    let back = bitmap::read_cf_dibv5(&mut payload).unwrap();
    assert_eq!(back.width, 3);
    assert_eq!(back.height, 2);
    assert_eq!(back.bytes, img.bytes);
}

#[test]
fn short_dibv5_is_refused() {
    let mut raw = vec![1, 2, 3];
    let r = bitmap::read_cf_dibv5(&mut raw);
    match r {
        Err(Error::Unknown { description }) => assert_eq!(
            description,
            "When reading the DIBV5 data, it contained fewer bytes than the BITMAPV5HEADER size. This is invalid."
        ),
        _ => panic!("expected an unknown error"),
    }
    assert_eq!(raw, vec![1, 2, 3]);
}

#[test]
fn garbage_dibv5_is_a_conversion_failure() {
    let mut raw = vec![0u8; 124];
    assert!(matches!(bitmap::read_cf_dibv5(&mut raw), Err(Error::ConversionFailure)));
}

#[test]
fn header_with_alpha_but_no_masks_is_fixed_up() {
    let mut h = vec![0u8; 124];
    h[14] = 32;
    h[55] = 0xff;
    maybe_tweak_header(&mut h);
    assert_eq!(&h[16..20], &[3, 0, 0, 0]);
    assert_eq!(&h[40..52], &[0, 0, 255, 0, 0, 255, 0, 0, 255, 0, 0, 0]);
}

#[test]
fn header_with_alpha_and_masks_keeps_the_masks() {
    let mut h = vec![0u8; 124];
    h[14] = 32;
    h[55] = 0xff;
    h[40] = 7;
    maybe_tweak_header(&mut h);
    assert_eq!(&h[16..20], &[3, 0, 0, 0]);
    assert_eq!(&h[40..52], &[7, 0, 0, 0, 0, 0, 0, 0, 0, 0, 0, 0]);
}

#[test]
fn header_without_alpha_is_left_alone() {
    let mut h = vec![0u8; 124];
    h[14] = 24;
    h[55] = 0xff;
    let before = h.clone();
    maybe_tweak_header(&mut h);
    assert_eq!(h, before);
}

#[test]
fn png_roundtrip() {
    let img = sample_3x2();
    let png = encode_as_png(&img).unwrap();
    assert_eq!(&png[0..8], &[0x89, b'P', b'N', b'G', 0x0d, 0x0a, 0x1a, 0x0a]);
    let back = read_png(&png).unwrap();
    assert_eq!(back.width, 3);
    assert_eq!(back.height, 2);
    assert_eq!(back.bytes, img.bytes);
    let again = png_from_image(&img).unwrap();
    assert_eq!(again, png);
}

#[test]
fn empty_image_is_not_encoded() {
    let img = ImageData { width: 0, height: 4, bytes: vec![] };
    assert!(matches!(encode_as_png(&img), Err(Error::ConversionFailure)));
    let img = ImageData { width: 3, height: 0, bytes: vec![] };
    assert!(matches!(encode_as_png(&img), Err(Error::ConversionFailure)));
}

#[test]
fn wrong_length_image_is_a_conversion_failure() {
    let img = ImageData { width: 2, height: 2, bytes: vec![1, 2, 3, 4, 5] };
    assert!(matches!(encode_as_png(&img), Err(Error::ConversionFailure)));
    let img = ImageData { width: usize::MAX, height: 2, bytes: vec![1, 2, 3, 4] };
    assert!(matches!(encode_as_png(&img), Err(Error::ConversionFailure)));
}

#[test]
fn garbage_png_is_a_conversion_failure() {
    assert!(matches!(read_png(&[1, 2, 3, 4]), Err(Error::ConversionFailure)));
}

#[test]
fn decoded_results_become_images() {
    let img = image_from_decoded(Some((1, 1, vec![1, 2, 3, 4]))).unwrap();
    assert_eq!((img.width, img.height, img.bytes), (1, 1, vec![1, 2, 3, 4]));
    assert!(matches!(image_from_decoded(None), Err(Error::ConversionFailure)));
}

#[test]
fn image_to_dib_chooses_the_format_by_header_size() {
    let dib = image_to_dib(&sample_2x2()).unwrap();
    let bytes = dib.dib_bytes();
    assert_eq!(&bytes[0..4], &[108, 0, 0, 0]);
    assert_eq!(dib.format(), CF_DIB);
    let mut v5 = vec![0u8; 18];
    v5[14] = 124;
    assert_eq!(dib_image_from_bmp(v5).format(), CF_DIBV5);
    let mut v4 = vec![0u8; 18];
    v4[14] = 108;
    assert_eq!(dib_image_from_bmp(v4).format(), CF_DIB);
}

#[test]
fn dib_reads_back_behind_a_file_header() {
    let img = sample_3x2();
    let dib = image_to_dib(&img).unwrap();
    let back = get_image_from_dib(dib.dib_bytes().to_vec()).unwrap();
    assert_eq!(back.width, 3);
    assert_eq!(back.height, 2);
    assert_eq!(back.bytes, img.bytes);
}

#[test]
fn fake_bitmap_file_reads_header_then_dib() {
    let dib = vec![40, 0, 0, 0, 9, 8, 7];
    let mut f = FakeBitmapFile::from_dib(dib);
    assert_eq!(f.len(), 21);
    let all = f.to_vec();
    assert_eq!(&all[0..14], &[b'B', b'M', 21, 0, 0, 0, 0, 0, 0, 0, 54, 0, 0, 0]);
    let mut buf = [0u8; 10];
    assert_eq!(f.read(&mut buf), 10);
    assert_eq!(&buf, &all[0..10]);
    let mut buf = [0u8; 10];
    assert_eq!(f.read(&mut buf), 10);
    assert_eq!(&buf, &all[10..20]);
    let mut buf = [7u8; 10];
    assert_eq!(f.read(&mut buf), 1);
    assert_eq!(buf[0], 7);
    assert_eq!(&buf[1..], &[7u8; 9]);
    assert_eq!(f.read(&mut buf), 0);
    assert_eq!(f.seek(SeekPos::Start(2)), 2);
    let mut two = [0u8; 2];
    assert_eq!(f.read(&mut two), 2);
    assert_eq!(two, [21, 0]);
    assert_eq!(f.seek(SeekPos::Current(1)), 5);
    assert_eq!(f.seek(SeekPos::End(0)), 21);
}

#[test]
fn v4_header_for_a_bitmap() {
    let h = bitmap_v4_header_bytes(2, 3);
    assert_eq!(h.len(), 108);
    assert_eq!(&h[0..4], &[108, 0, 0, 0]);
    assert_eq!(&h[4..8], &[2, 0, 0, 0]);
    assert_eq!(&h[8..12], &[0xfd, 0xff, 0xff, 0xff]);
    assert_eq!(&h[16..20], &[3, 0, 0, 0]);
    assert_eq!(&h[20..24], &[24, 0, 0, 0]);
    assert_eq!(&h[24..28], &[0xb8, 0x0b, 0, 0]);
    assert_eq!(&h[36..40], &[3, 0, 0, 0]);
    assert_eq!(&h[40..52], &[0, 0, 255, 0, 0, 255, 0, 0, 255, 0, 0, 0]);
}

#[test]
fn bitmap_queries_and_storage_headers() {
    let q = bitmap_query_header();
    assert_eq!(q.size, 40);
    assert_eq!(q.bit_count, 0);
    let mut queried = q;
    queried.width = 4;
    queried.height = 3;
    queried.size_image = 48;
    let b = bitmap_bits_header(queried);
    assert_eq!(b.height, -3);
    assert_eq!(b.bit_count, 32);
    assert_eq!(b.planes, 1);
    assert_eq!(b.size_image, 48);
    assert_eq!(color_bits(1, 1), 1);
    assert_eq!(color_bits(1, 3), 4);
    assert_eq!(color_bits(2, 4), 8);
    assert_eq!(color_bits(1, 15), 16);
    assert_eq!(color_bits(1, 24), 24);
    assert_eq!(color_bits(1, 32), 32);
    assert_eq!(row_stride(5, 24), 16);
    assert_eq!(row_stride(1, 1), 4);
    assert_eq!(row_stride(-1, 8), 0);
    let (h, table) = storage_header(5, 2, 1, 8);
    assert_eq!(table, 256);
    assert_eq!(h.clr_used, 256);
    assert_eq!(h.size_image, 16);
    let (h, table) = storage_header(5, 2, 1, 24);
    assert_eq!(table, 0);
    assert_eq!(h.size_image, 32);
}

#[test]
fn bitmap_bits_become_an_image() {
    let mut header = bitmap_query_header();
    header.width = 1;
    header.height = -2;
    let img = image_from_bitmap_bits(header, vec![1, 2, 3, 4, 5, 6, 7, 8]);
    assert_eq!(img.width, 1);
    assert_eq!(img.height, 2);
    assert_eq!(img.bytes, vec![3, 2, 1, 4, 7, 6, 5, 8]);
}

#[test]
fn wayland_images_are_decoded_whatever_their_format() {
    let img = sample_3x2();
    let png = png_from_image(&img).unwrap();
    let back = wayland_image(&png).unwrap();
    assert_eq!((back.width, back.height), (3, 2));
    assert_eq!(back.bytes, img.bytes);

    let mut bmp = std::io::Cursor::new(Vec::new());
    image::codecs::bmp::BmpEncoder::new(&mut bmp)
        .encode(&img.bytes, 3, 2, image::ExtendedColorType::Rgba8)
        .unwrap();
    let back = wayland_image(bmp.get_ref()).unwrap();
    assert_eq!((back.width, back.height), (3, 2));
    assert_eq!(back.bytes, img.bytes);

    assert!(matches!(wayland_image(b"not an image"), Err(Error::ConversionFailure)));
}

#[test]
fn a_three_byte_tail_pixel_is_swapped_too() {
    let mut bytes = vec![1, 2, 3, 4, 5, 6, 7];
    bgra_to_rgba(&mut bytes);
    assert_eq!(bytes, vec![3, 2, 1, 4, 7, 6, 5]);
}

#[test]
fn selection_png_reads_back() {
    let img = sample_3x2();
    let png = png_from_image(&img).unwrap();
    let back = arboard::bitmap::read_selection_png(&png).unwrap();
    assert_eq!((back.width, back.height), (3, 2));
    assert_eq!(back.bytes, img.bytes);
    assert!(matches!(arboard::bitmap::read_selection_png(b"nope"), Err(Error::ConversionFailure)));
}
