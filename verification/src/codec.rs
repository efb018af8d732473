//! Image encoding and decoding, done by the `image` crate.
//!
//! What the codecs compute takes pages to state, so their results are named here and
//! the rest of the library speaks of those names. Each function below makes one call
//! into `image` and only converts what goes in and what comes out.
use vstd::prelude::*;

verus! {

/// The container formats that the clipboard code decodes from memory.
#[derive(Clone, Copy, Debug, PartialEq, Eq)]
pub enum ImageFileKind {
    Png,
    Tiff,
}

/// The width, height and RGBA pixels that `image::load_from_memory_with_format` gives for
/// `data` read as `kind`, under the image reader's default limits, or `None` where it reports
/// an error.
pub uninterp spec fn spec_load_image(data: Seq<u8>, kind: ImageFileKind) -> Option<(u32, u32, Seq<u8>)>;

/// The width, height and RGBA pixels that `image::load_from_memory` gives for `data`, the
/// format being guessed from the data, or `None` where it reports an error.
pub uninterp spec fn spec_load_guessed(data: Seq<u8>) -> Option<(u32, u32, Seq<u8>)>;

/// The width, height and RGBA pixels that the BMP decoder of `image` gives for a bitmap that
/// starts with its info header (no file header), or `None` where it reports an error.
pub uninterp spec fn spec_decode_dib(data: Seq<u8>) -> Option<(u32, u32, Seq<u8>)>;

/// The width, height and RGBA pixels that `image`'s PNG decoder, made with
/// `PngDecoder::new` (no limits) and read through `DynamicImage::from_decoder`, gives for a
/// PNG file, or `None` where it reports an error.
pub uninterp spec fn spec_decode_png(data: Seq<u8>) -> Option<(u32, u32, Seq<u8>)>;

/// The width, height and RGBA pixels that `image`'s BMP decoder, made with `BmpDecoder::new`
/// for a bitmap file and read through `DynamicImage::from_decoder`, gives, or `None` where it
/// reports an error.
pub uninterp spec fn spec_decode_bmp(data: Seq<u8>) -> Option<(u32, u32, Seq<u8>)>;

/// The PNG file that `image`'s PNG encoder writes for RGBA pixels of the given size, or `None`
/// where it reports an error.
pub uninterp spec fn spec_encode_png(pixels: Seq<u8>, width: u32, height: u32) -> Option<Seq<u8>>;

/// The BMP file that `image`'s BMP encoder writes for RGBA pixels of the given size, or `None`
/// where it reports an error.
pub uninterp spec fn spec_encode_bmp(pixels: Seq<u8>, width: u32, height: u32) -> Option<Seq<u8>>;

/// The view of a decoded image.
pub open spec fn decoded_view(d: Option<(u32, u32, Vec<u8>)>) -> Option<(u32, u32, Seq<u8>)> {
    match d {
        Some(t) => Some((t.0, t.1, t.2@)),
        None => None,
    }
}

/// The view of an encoded file.
pub open spec fn encoded_view(e: Option<Vec<u8>>) -> Option<Seq<u8>> {
    match e {
        Some(v) => Some(v@),
        None => None,
    }
}

/// Decodes `data` with `image::load_from_memory_with_format` and converts the image to RGBA8.
///
/// Trusted: the result is taken to be `spec_load_image(data, kind)`; nothing is stated of
/// which inputs decode.
#[verifier::external_body]
pub(crate) fn load_image(data: &[u8], kind: ImageFileKind) -> (decoded: Option<(u32, u32, Vec<u8>)>)
    ensures
        decoded_view(decoded) == spec_load_image(data@, kind),
{
    let format = match kind {
        ImageFileKind::Png => image::ImageFormat::Png,
        ImageFileKind::Tiff => image::ImageFormat::Tiff,
    };
    let rgba = image::load_from_memory_with_format(data, format).ok()?.into_rgba8();
    Some((rgba.width(), rgba.height(), rgba.into_raw()))
}

/// Decodes `data` with `image::load_from_memory`, which guesses the format, and converts the
/// image to RGBA8.
///
/// Trusted: the result is taken to be `spec_load_guessed(data)`.
#[verifier::external_body]
pub(crate) fn load_guessed(data: &[u8]) -> (decoded: Option<(u32, u32, Vec<u8>)>)
    ensures
        decoded_view(decoded) == spec_load_guessed(data@),
{
    let rgba = image::load_from_memory(data).ok()?.into_rgba8();
    Some((rgba.width(), rgba.height(), rgba.into_raw()))
}

/// Decodes a header-less bitmap with `image::codecs::bmp::BmpDecoder::new_without_file_header`
/// (read through `DynamicImage::from_decoder`) and converts the image to RGBA8.
///
/// Trusted: the result is taken to be `spec_decode_dib(data)`.
#[verifier::external_body]
pub(crate) fn decode_dib(data: &[u8]) -> (decoded: Option<(u32, u32, Vec<u8>)>)
    ensures
        decoded_view(decoded) == spec_decode_dib(data@),
{
    let cursor = std::io::Cursor::new(data);
    let decoder = image::codecs::bmp::BmpDecoder::new_without_file_header(cursor).ok()?;
    let rgba = image::DynamicImage::from_decoder(decoder).ok()?.into_rgba8();
    Some((rgba.width(), rgba.height(), rgba.into_raw()))
}

/// Decodes a PNG file with `image::codecs::png::PngDecoder::new` (which sets no limits) and
/// `DynamicImage::from_decoder`, and converts the image to RGBA8.
///
/// Trusted: the result is taken to be `spec_decode_png(data)`.
#[verifier::external_body]
pub(crate) fn decode_png(data: &[u8]) -> (decoded: Option<(u32, u32, Vec<u8>)>)
    ensures
        decoded_view(decoded) == spec_decode_png(data@),
{
    let decoder = image::codecs::png::PngDecoder::new(std::io::Cursor::new(data)).ok()?;
    let rgba = image::DynamicImage::from_decoder(decoder).ok()?.into_rgba8();
    Some((rgba.width(), rgba.height(), rgba.into_raw()))
}

/// Decodes a bitmap file with `image::codecs::bmp::BmpDecoder::new` (which sets no limits) and
/// `DynamicImage::from_decoder`, and converts the image to RGBA8.
///
/// Trusted: the result is taken to be `spec_decode_bmp(data)`.
#[verifier::external_body]
pub(crate) fn decode_bmp(data: &[u8]) -> (decoded: Option<(u32, u32, Vec<u8>)>)
    ensures
        decoded_view(decoded) == spec_decode_bmp(data@),
{
    let decoder = image::codecs::bmp::BmpDecoder::new(std::io::Cursor::new(data)).ok()?;
    let rgba = image::DynamicImage::from_decoder(decoder).ok()?.into_rgba8();
    Some((rgba.width(), rgba.height(), rgba.into_raw()))
}

/// Encodes RGBA pixels with `image::codecs::png::PngEncoder::write_image`.
///
/// The encoder panics unless the buffer holds exactly `4 * width * height` bytes, which the
/// `requires` demands. Trusted: the result is taken to be `spec_encode_png(pixels, width,
/// height)`.
#[verifier::external_body]
pub(crate) fn encode_png(pixels: &[u8], width: u32, height: u32) -> (encoded: Option<Vec<u8>>)
    requires
        pixels@.len() == 4 * width * height,
    ensures
        encoded_view(encoded) == spec_encode_png(pixels@, width, height),
{
    let mut buf = Vec::new();
    let encoder = image::codecs::png::PngEncoder::new(&mut buf);
    let color = image::ExtendedColorType::Rgba8;
    image::ImageEncoder::write_image(encoder, pixels, width, height, color).ok()?;
    Some(buf)
}

/// Encodes RGBA pixels with `image::codecs::bmp::BmpEncoder::encode`.
///
/// The encoder panics unless the buffer holds exactly `4 * width * height` bytes, and its
/// computation of the row padding, `width * 4` in 32 bits, overflows for wider images; the
/// `requires` leaves both out. Trusted: the result is taken to be `spec_encode_bmp(pixels,
/// width, height)`; its source writes a 14-byte file header and an info header of at least 40
/// bytes before it can succeed, so a successful result is at least 54 bytes long.
#[verifier::external_body]
pub(crate) fn encode_bmp(pixels: &[u8], width: u32, height: u32) -> (encoded: Option<Vec<u8>>)
    requires
        pixels@.len() == 4 * width * height,
        4 * width <= u32::MAX,
    ensures
        encoded_view(encoded) == spec_encode_bmp(pixels@, width, height),
        encoded matches Some(v) ==> v@.len() >= 54,
{
    let mut buf = Vec::new();
    let mut cursor = std::io::Cursor::new(&mut buf);
    let mut encoder = image::codecs::bmp::BmpEncoder::new(&mut cursor);
    encoder.encode(pixels, width, height, image::ExtendedColorType::Rgba8).ok()?;
    Some(buf)
}

} // verus!
