//! Device-independent bitmaps as the Windows clipboard exchanges them.
use vstd::prelude::*;
use crate::image_data::ImageData;
use crate::error::{Error, is_unknown_with};
use crate::codec::{decode_bmp, decode_dib, decode_png, decoded_view, encode_bmp, encode_png, encoded_view, load_image, spec_decode_bmp, spec_decode_dib, spec_decode_png, spec_encode_bmp, spec_encode_png, spec_load_image, ImageFileKind};
use crate::le::{le16, le32, le_u16_at, le_u32_at, push_u16_le, push_u32_le, read_u16_le, read_u32_le, write_u32_le, with_le32};
use crate::pixels::{flip_v, is_vertical_flip, lemma_row_bounds, lemma_vertical_flip_characterized, lemma_win_rgba_roundtrip, rgba_to_win, row_byte, swap_red_blue, vertical_flip};

verus! {

/// Size of a `BITMAPFILEHEADER`.
pub const BITMAP_FILE_HEADER_SIZE: usize = 14;
/// Size of a `BITMAPV4HEADER`.
pub const BITMAP_V4_INFO_HEADER_SIZE: u32 = 108;
/// Size of a `BITMAPV5HEADER`.
pub const BITMAP_V5_HEADER_SIZE: usize = 124;
/// The `CF_DIB` clipboard format.
pub const CF_DIB: u32 = 8;
/// The `CF_DIBV5` clipboard format.
pub const CF_DIBV5: u32 = 17;
/// Uncompressed pixels.
pub const BI_RGB: u32 = 0;
/// Pixels described by colour masks.
pub const BI_BITFIELDS: u32 = 3;
/// The sRGB colour space tag (`'sRGB'`).
pub const LCS_SRGB: u32 = 0x7352_4742;
/// The rendering intent for pictures.
pub const LCS_GM_IMAGES: u32 = 4;

/// Byte offsets of the `BITMAPV5HEADER` fields that the clipboard code reads or fixes up.
pub const V5_BIT_COUNT: usize = 14;
pub const V5_COMPRESSION: usize = 16;
pub const V5_RED_MASK: usize = 40;
pub const V5_GREEN_MASK: usize = 44;
pub const V5_BLUE_MASK: usize = 48;
pub const V5_ALPHA_MASK: usize = 52;

/// `x` reduced to 32 bits, as a cast to a 32-bit integer keeps it.
pub open spec fn wrap32(x: int) -> int {
    x % 0x1_0000_0000
}

/// The `BITMAPV5HEADER` that describes a top-down-flipped 32-bit BGRA image of the given size.
pub open spec fn dibv5_header(w: int, h: int) -> Seq<u8> {
    le32(124) + le32(wrap32(w)) + le32(wrap32(h)) + le16(1) + le16(32) + le32(BI_BITFIELDS as int)
        + le32(wrap32(4 * w * h)) + le32(0) + le32(0) + le32(0) + le32(0) + le32(0x00ff0000)
        + le32(0x0000ff00) + le32(0x000000ff) + le32(0xff000000) + le32(LCS_SRGB as int) + le32(
        0,
    ) + le32(0) + le32(0) + le32(0) + le32(0) + le32(0) + le32(0) + le32(0) + le32(0) + le32(0)
        + le32(0) + le32(0) + le32(LCS_GM_IMAGES as int) + le32(0) + le32(0) + le32(0)
}

fn wrap_u32(x: usize) -> (r: u32)
    ensures
        r == wrap32(x as int),
{
    ((x as u64) % 0x1_0000_0000u64) as u32
}

/// Builds the `BITMAPV5HEADER` for an image of `width` by `height` pixels.
pub fn dibv5_header_bytes(width: usize, height: usize) -> (header: Vec<u8>)
    requires
        4 * width <= usize::MAX,
        4 * width * height <= usize::MAX,
    ensures
        header@ == dibv5_header(width as int, height as int),
        header@.len() == BITMAP_V5_HEADER_SIZE,
{
    let mut out: Vec<u8> = Vec::with_capacity(BITMAP_V5_HEADER_SIZE);
    let size_image = wrap_u32(4 * width * height);
    push_u32_le(&mut out, 124);
    push_u32_le(&mut out, wrap_u32(width));
    push_u32_le(&mut out, wrap_u32(height));
    push_u16_le(&mut out, 1);
    push_u16_le(&mut out, 32);
    push_u32_le(&mut out, BI_BITFIELDS);
    push_u32_le(&mut out, size_image);
    // resolution, palette size, important colours
    push_u32_le(&mut out, 0);
    push_u32_le(&mut out, 0);
    push_u32_le(&mut out, 0);
    push_u32_le(&mut out, 0);
    // red, green, blue and alpha masks
    push_u32_le(&mut out, 0x00ff0000);
    push_u32_le(&mut out, 0x0000ff00);
    push_u32_le(&mut out, 0x000000ff);
    push_u32_le(&mut out, 0xff000000);
    push_u32_le(&mut out, LCS_SRGB);
    // colour space endpoints, ignored for sRGB
    push_u32_le(&mut out, 0);
    push_u32_le(&mut out, 0);
    push_u32_le(&mut out, 0);
    push_u32_le(&mut out, 0);
    push_u32_le(&mut out, 0);
    push_u32_le(&mut out, 0);
    push_u32_le(&mut out, 0);
    push_u32_le(&mut out, 0);
    push_u32_le(&mut out, 0);
    // gamma
    push_u32_le(&mut out, 0);
    push_u32_le(&mut out, 0);
    push_u32_le(&mut out, 0);
    push_u32_le(&mut out, LCS_GM_IMAGES);
    // profile data, profile size, reserved
    push_u32_le(&mut out, 0);
    push_u32_le(&mut out, 0);
    push_u32_le(&mut out, 0);
    proof {
        assert(out@ =~= dibv5_header(width as int, height as int));
    }
    out
}

/// The pixels of `image` as they go into a `CF_DIBV5` payload: rows bottom-up, then each
/// pixel in BGRA order.
pub open spec fn dibv5_pixels(image: ImageData) -> Seq<u8> {
    let rows = if image.height >= 2 {
        vertical_flip(image.bytes@, image.row_size(), image.height as int)
    } else {
        image.bytes@
    };
    swap_red_blue(rows)
}

/// The byte of an RGBA pixel row that ends up at byte `c` of the same row in the bitmap
/// layout: red and blue trade places, green and alpha stay.
pub open spec fn bitmap_column_source(c: int) -> int {
    if c % 4 == 0 {
        c + 2
    } else if c % 4 == 2 {
        c - 2
    } else {
        c
    }
}

/// The pixels of a `CF_DIBV5` payload are the image's rows bottom-up: row `y` of the payload
/// is row `h - 1 - y` of the image, with the red and blue byte of each pixel exchanged.
/// Exchanging them back gives the image flipped vertically.
pub proof fn lemma_dibv5_rows_bottom_up(image: ImageData)
    requires
        image.pixel_bytes() <= image.bytes@.len(),
    ensures
        dibv5_pixels(image).len() == image.bytes@.len(),
        forall|y: int, c: int|
            0 <= y < image.height && 0 <= c < 4 * image.width ==> #[trigger] row_byte(
                dibv5_pixels(image),
                4 * image.width,
                y,
                c,
            ) == row_byte(
                image.bytes@,
                4 * image.width,
                image.height - 1 - y,
                bitmap_column_source(c),
            ),
        image.bytes@.len() % 4 == 0 ==> is_vertical_flip(
            image.bytes@,
            swap_red_blue(dibv5_pixels(image)),
            4 * image.width,
            image.height as int,
        ),
{
    let s = image.bytes@;
    let w = image.width as int;
    let rs = 4 * w;
    let h = image.height as int;
    let rows = if h >= 2 {
        vertical_flip(s, rs, h)
    } else {
        s
    };
    assert(rs * h == image.pixel_bytes()) by (nonlinear_arith)
        requires
            rs == 4 * w,
            h == image.height,
            w == image.width,
    ;
    assert(h * rs == rs * h) by (nonlinear_arith);
    lemma_vertical_flip_characterized(s, s, rs, h);
    assert(is_vertical_flip(s, rows, rs, h)) by {
        if h < 2 {
            assert forall|r: int, c: int| 0 <= r < h && 0 <= c < rs implies #[trigger] row_byte(
                rows,
                rs,
                r,
                c,
            ) == row_byte(s, rs, h - 1 - r, c) by {
                assert(h - 1 - r == r);
            }
        }
    }
    let p = dibv5_pixels(image);
    assert(p == swap_red_blue(rows));
    assert forall|y: int, c: int| 0 <= y < h && 0 <= c < rs implies #[trigger] row_byte(p, rs, y, c)
        == row_byte(s, rs, h - 1 - y, bitmap_column_source(c)) by {
        lemma_row_bounds(y, c, rs, h);
        let i = y * rs + c;
        assert(y * rs == 4 * (y * w)) by (nonlinear_arith)
            requires
                rs == 4 * w,
        ;
        vstd::arithmetic::div_mod::lemma_fundamental_div_mod(c, 4);
        vstd::arithmetic::div_mod::lemma_fundamental_div_mod_converse(i, 4, y * w + c / 4, c % 4);
        if c % 4 == 0 {
            assert(c + 2 < rs);
            assert(rows.len() == s.len());
            assert(i + 2 < y * rs + rs);
            assert(i % 4 == 0);
            assert(i + 2 < rows.len());
            assert(row_byte(rows, rs, y, c + 2) == row_byte(s, rs, h - 1 - y, c + 2));
            assert(p[i] == rows[i + 2]);
        } else if c % 4 == 2 {
            assert(row_byte(rows, rs, y, c - 2) == row_byte(s, rs, h - 1 - y, c - 2));
            assert(p[i] == rows[i - 2]);
        } else {
            assert(row_byte(rows, rs, y, c) == row_byte(s, rs, h - 1 - y, c));
            assert(p[i] == rows[i]);
        }
    }
    if s.len() % 4 == 0 {
        lemma_win_rgba_roundtrip(rows);
    }
}

/// Builds the `CF_DIBV5` clipboard payload of an RGBA image: a `BITMAPV5HEADER` with a positive
/// height, followed by the bottom-up rows in the bitmap-native pixel layout.
///
/// A positive height is used (instead of a negative one that would keep the rows top-down)
/// because some programs cannot paste an image whose header has a negative height.
pub fn dibv5_from_image(image: ImageData) -> (payload: Vec<u8>)
    requires
        4 * image.width <= usize::MAX,
        4 * image.width * image.height <= usize::MAX,
        image.height >= 2 ==> image.pixel_bytes() <= image.bytes@.len(),
        image.bytes@.len() % 4 == 0,
        image.bytes@.len() + BITMAP_V5_HEADER_SIZE <= usize::MAX,
    ensures
        payload@ == dibv5_header(image.width as int, image.height as int) + dibv5_pixels(image),
        payload@.len() == BITMAP_V5_HEADER_SIZE + image.bytes@.len(),
        image.pixel_bytes() <= image.bytes@.len() ==> forall|y: int, c: int|
            0 <= y < image.height && 0 <= c < 4 * image.width ==> #[trigger] row_byte(
                payload@.subrange(BITMAP_V5_HEADER_SIZE as int, payload@.len() as int),
                4 * image.width,
                y,
                c,
            ) == row_byte(
                image.bytes@,
                4 * image.width,
                image.height - 1 - y,
                bitmap_column_source(c),
            ),
{
    let ghost orig = image;
    let mut header = dibv5_header_bytes(image.width, image.height);
    let flipped = flip_v(image);
    let mut pixels = flipped.bytes;
    let _converted = rgba_to_win(&mut pixels);
    header.append(&mut pixels);
    proof {
        let n = header@.len() as int;
        assert(header@.subrange(BITMAP_V5_HEADER_SIZE as int, n) =~= dibv5_pixels(orig));
        if orig.pixel_bytes() <= orig.bytes@.len() {
            lemma_dibv5_rows_bottom_up(orig);
        } else {
            assert(orig.height < 2);
        }
    }
    header
}

} // verus!

verus! {

/// Whether a `BITMAPV5HEADER` claims uncompressed 32-bit pixels while giving an alpha mask.
///
/// Such headers come from Chromium-based programs: the documentation says that the high byte
/// of each pixel is unused with `BI_RGB`, yet they put transparency there.
pub open spec fn header_needs_bitfields(s: Seq<u8>) -> bool {
    &&& le_u16_at(s, V5_BIT_COUNT as int) == 32
    &&& le_u32_at(s, V5_COMPRESSION as int) == BI_RGB
    &&& le_u32_at(s, V5_ALPHA_MASK as int) == 0xff000000
}

/// Whether the red, green and blue masks of a `BITMAPV5HEADER` are all zero.
pub open spec fn header_lacks_color_masks(s: Seq<u8>) -> bool {
    &&& le_u32_at(s, V5_RED_MASK as int) == 0
    &&& le_u32_at(s, V5_GREEN_MASK as int) == 0
    &&& le_u32_at(s, V5_BLUE_MASK as int) == 0
}

/// The bitmap with its header fixed up so that a decoder honours the alpha channel: such a
/// header is switched to `BI_BITFIELDS`, with the standard BGRA masks where it gave none.
pub open spec fn tweaked_header(s: Seq<u8>) -> Seq<u8> {
    if header_needs_bitfields(s) {
        let s1 = with_le32(s, V5_COMPRESSION as int, BI_BITFIELDS as int);
        if header_lacks_color_masks(s) {
            with_le32(
                with_le32(with_le32(s1, V5_RED_MASK as int, 0xff0000), V5_GREEN_MASK as int, 0xff00),
                V5_BLUE_MASK as int,
                0xff,
            )
        } else {
            s1
        }
    } else {
        s
    }
}

/// Fixes up the header of a `CF_DIBV5` bitmap as `tweaked_header` describes.
pub fn maybe_tweak_header(dibv5: &mut Vec<u8>)
    requires
        old(dibv5)@.len() >= BITMAP_V5_HEADER_SIZE,
    ensures
        final(dibv5)@ == tweaked_header(old(dibv5)@),
{
    let bit_count = read_u16_le(dibv5.as_slice(), V5_BIT_COUNT);
    let compression = read_u32_le(dibv5.as_slice(), V5_COMPRESSION);
    let alpha_mask = read_u32_le(dibv5.as_slice(), V5_ALPHA_MASK);
    if bit_count == 32 && compression == BI_RGB && alpha_mask == 0xff000000 {
        let red = read_u32_le(dibv5.as_slice(), V5_RED_MASK);
        let green = read_u32_le(dibv5.as_slice(), V5_GREEN_MASK);
        let blue = read_u32_le(dibv5.as_slice(), V5_BLUE_MASK);
        write_u32_le(dibv5, V5_COMPRESSION, BI_BITFIELDS);
        if red == 0 && green == 0 && blue == 0 {
            write_u32_le(dibv5, V5_RED_MASK, 0xff0000);
            write_u32_le(dibv5, V5_GREEN_MASK, 0xff00);
            write_u32_le(dibv5, V5_BLUE_MASK, 0xff);
        }
    }
}

/// Whether `r` is what becomes of a decoder's result `d`: the image when there is one, a
/// conversion failure when there is none.
pub open spec fn decoded_as(r: Result<ImageData, Error>, d: Option<(u32, u32, Seq<u8>)>) -> bool {
    match d {
        None => r == Err::<ImageData, Error>(Error::ConversionFailure),
        Some(t) => r matches Ok(img) && img.width == t.0 && img.height == t.1 && img.bytes@
            == t.2,
    }
}

/// Turns what a decoder gave into the image, or into a conversion failure where it gave none.
pub fn image_from_decoded(decoded: Option<(u32, u32, Vec<u8>)>) -> (r: Result<ImageData, Error>)
    ensures
        decoded_as(r, decoded_view(decoded)),
{
    match decoded {
        Some((width, height, bytes)) => Ok(
            ImageData { width: width as usize, height: height as usize, bytes },
        ),
        None => Err(Error::ConversionFailure),
    }
}

/// Reads the image of a `CF_DIBV5` clipboard payload: a `BITMAPV5HEADER` followed by the
/// pixel data. The header is fixed up first, as `maybe_tweak_header` does.
pub fn read_cf_dibv5(dibv5: &mut Vec<u8>) -> (r: Result<ImageData, Error>)
    ensures
        old(dibv5)@.len() < BITMAP_V5_HEADER_SIZE ==> {
            &&& final(dibv5)@ == old(dibv5)@
            &&& r matches Err(e) && is_unknown_with(
                e,
                "When reading the DIBV5 data, it contained fewer bytes than the BITMAPV5HEADER size. This is invalid."@,
            )
        },
        old(dibv5)@.len() >= BITMAP_V5_HEADER_SIZE ==> {
            &&& final(dibv5)@ == tweaked_header(old(dibv5)@)
            &&& decoded_as(r, spec_decode_dib(tweaked_header(old(dibv5)@)))
        },
{
    if dibv5.len() < BITMAP_V5_HEADER_SIZE {
        return Err(
            Error::unknown(
                "When reading the DIBV5 data, it contained fewer bytes than the BITMAPV5HEADER size. This is invalid.",
            ),
        );
    }
    maybe_tweak_header(dibv5);
    let decoded = decode_dib(dibv5.as_slice());
    image_from_decoded(decoded)
}

/// Reads the image of a PNG file that the Windows clipboard holds, with a PNG decoder that
/// sets no limits.
pub fn read_png(data: &[u8]) -> (r: Result<ImageData, Error>)
    ensures
        decoded_as(r, spec_decode_png(data@)),
{
    let decoded = decode_png(data);
    image_from_decoded(decoded)
}

/// Reads the image of a PNG file that the owner of an X11 selection served, with the image
/// reader and its default limits.
pub fn read_selection_png(data: &[u8]) -> (r: Result<ImageData, Error>)
    ensures
        decoded_as(r, spec_load_image(data@, ImageFileKind::Png)),
{
    let decoded = load_image(data, ImageFileKind::Png);
    image_from_decoded(decoded)
}

} // verus!

verus! {

/// Whether `r` is what becomes of an encoder's result `e`: the file when there is one, a
/// conversion failure when there is none.
pub open spec fn encoded_as(r: Result<Vec<u8>, Error>, e: Option<Seq<u8>>) -> bool {
    match e {
        None => r == Err::<Vec<u8>, Error>(Error::ConversionFailure),
        Some(f) => r matches Ok(v) && v@ == f,
    }
}

/// Whether the encoders can be handed the pixels of `image` as they are: the dimensions fit
/// in 32 bits and the buffer holds exactly `width * height` RGBA pixels.
pub open spec fn encodable(image: ImageData) -> bool {
    &&& image.width <= u32::MAX
    &&& image.height <= u32::MAX
    &&& image.is_well_formed()
}

/// Encodes the image as a PNG file.
pub fn png_from_image(image: &ImageData) -> (r: Result<Vec<u8>, Error>)
    requires
        encodable(*image),
    ensures
        encoded_as(r, spec_encode_png(image.bytes@, image.width as u32, image.height as u32)),
{
    let encoded = encode_png(image.bytes.as_slice(), image.width as u32, image.height as u32);
    match encoded {
        Some(v) => Ok(v),
        None => Err(Error::ConversionFailure),
    }
}

/// Whether an image has no pixels to encode.
pub open spec fn is_degenerate(image: ImageData) -> bool {
    image.bytes@.len() == 0 || image.width == 0 || image.height == 0
}

/// Encodes the image as a PNG file. An image without pixels, and one whose buffer does not hold
/// exactly `width * height` RGBA pixels (or whose sides do not fit in 32 bits), is a
/// conversion failure.
pub fn encode_as_png(image: &ImageData) -> (r: Result<Vec<u8>, Error>)
    ensures
        is_degenerate(*image) ==> r == Err::<Vec<u8>, Error>(Error::ConversionFailure),
        !is_degenerate(*image) && !encodable(*image) ==> r == Err::<Vec<u8>, Error>(
            Error::ConversionFailure,
        ),
        !is_degenerate(*image) && encodable(*image) ==> encoded_as(
            r,
            spec_encode_png(image.bytes@, image.width as u32, image.height as u32),
        ),
{
    if image.bytes.len() == 0 || image.width == 0 || image.height == 0 {
        return Err(Error::ConversionFailure);
    }
    if image.width > u32::MAX as usize || image.height > u32::MAX as usize {
        return Err(Error::ConversionFailure);
    }
    let pixels = match image.width.checked_mul(image.height) {
        Some(n) => n,
        None => {
            proof {
                assert(image.bytes@.len() != 4 * image.width * image.height) by (nonlinear_arith)
                    requires
                        image.width * image.height > usize::MAX,
                        image.bytes@.len() <= usize::MAX,
                ;
            }
            return Err(Error::ConversionFailure);
        },
    };
    let expected = match pixels.checked_mul(4) {
        Some(n) => n,
        None => {
            proof {
                assert(4 * image.width * image.height == 4 * (image.width * image.height))
                    by (nonlinear_arith);
            }
            return Err(Error::ConversionFailure);
        },
    };
    if expected != image.bytes.len() {
        proof {
            assert(4 * image.width * image.height == 4 * (image.width * image.height))
                by (nonlinear_arith);
        }
        return Err(Error::ConversionFailure);
    }
    proof {
        assert(4 * image.width * image.height == 4 * (image.width * image.height))
            by (nonlinear_arith);
    }
    png_from_image(image)
}

/// A bitmap file produced by the BMP encoder, and the clipboard format of its DIB part.
pub struct DibImage {
    data: Vec<u8>,
    format: u32,
}

impl DibImage {
    #[verifier::type_invariant]
    spec fn inv(self) -> bool {
        &&& self.data@.len() >= 18
        &&& self.format == dib_format_of(self.data@)
    }

    /// The whole bitmap file.
    pub closed spec fn file_bytes(self) -> Seq<u8> {
        self.data@
    }

    /// The clipboard format of the bitmap.
    pub closed spec fn spec_format(self) -> u32 {
        self.format
    }

    /// The bitmap without its 14-byte file header, which is what the clipboard stores. It
    /// starts with the 4-byte size of the info header.
    pub fn dib_bytes(&self) -> (b: &[u8])
        ensures
            b@ == self.file_bytes().subrange(
                BITMAP_FILE_HEADER_SIZE as int,
                self.file_bytes().len() as int,
            ),
            b@.len() >= 4,
    {
        proof {
            use_type_invariant(self);
        }
        vstd::slice::slice_subrange(self.data.as_slice(), BITMAP_FILE_HEADER_SIZE, self.data.len())
    }

    /// The clipboard format of the DIB: `CF_DIBV5` when the size of its info header (the first
    /// field of `dib_bytes`) is larger than a `BITMAPV4HEADER`, `CF_DIB` otherwise.
    pub fn format(&self) -> (f: u32)
        ensures
            f == self.spec_format(),
            self.file_bytes().len() >= 18,
            f == (if le_u32_at(
                self.file_bytes().subrange(
                    BITMAP_FILE_HEADER_SIZE as int,
                    self.file_bytes().len() as int,
                ),
                0,
            ) > BITMAP_V4_INFO_HEADER_SIZE {
                CF_DIBV5
            } else {
                CF_DIB
            }),
    {
        proof {
            use_type_invariant(self);
        }
        self.format
    }
}

/// The clipboard format that suits a bitmap file: `CF_DIBV5` when its info header is larger
/// than a `BITMAPV4HEADER`, `CF_DIB` otherwise.
pub open spec fn dib_format_of(bmp: Seq<u8>) -> u32 {
    if le_u32_at(bmp, BITMAP_FILE_HEADER_SIZE as int) > BITMAP_V4_INFO_HEADER_SIZE {
        CF_DIBV5
    } else {
        CF_DIB
    }
}

/// Wraps an encoded bitmap file, choosing its clipboard format from its info header size.
pub fn dib_image_from_bmp(bmp_data: Vec<u8>) -> (d: DibImage)
    requires
        bmp_data@.len() >= 18,
    ensures
        d.file_bytes() == bmp_data@,
        d.spec_format() == dib_format_of(bmp_data@),
{
    let header_size = read_u32_le(bmp_data.as_slice(), BITMAP_FILE_HEADER_SIZE);
    let format = if header_size > BITMAP_V4_INFO_HEADER_SIZE {
        CF_DIBV5
    } else {
        CF_DIB
    };
    DibImage { data: bmp_data, format }
}

/// Encodes the image as a bitmap for the clipboard.
pub fn image_to_dib(image: &ImageData) -> (r: Result<DibImage, Error>)
    requires
        encodable(*image),
        4 * image.width <= u32::MAX,
    ensures
        match spec_encode_bmp(image.bytes@, image.width as u32, image.height as u32) {
            None => r is Err && r->Err_0 == Error::ConversionFailure,
            Some(f) => r matches Ok(d) && d.file_bytes() == f && d.spec_format() == dib_format_of(
                f,
            ),
        },
{
    let encoded = encode_bmp(image.bytes.as_slice(), image.width as u32, image.height as u32);
    match encoded {
        Some(bmp) => Ok(dib_image_from_bmp(bmp)),
        None => Err(Error::ConversionFailure),
    }
}

} // verus!

verus! {

/// A position to move a reader to.
#[derive(Clone, Copy, Debug, PartialEq, Eq)]
pub enum SeekPos {
    /// An offset from the start.
    Start(u64),
    /// An offset from the end.
    End(i64),
    /// An offset from the current position.
    Current(i64),
}

/// A bitmap file that is put together from a file header and a DIB, read without copying
/// the DIB behind the header.
pub struct FakeBitmapFile {
    file_header: Vec<u8>,
    bitmap: Vec<u8>,
    curr_pos: usize,
}

/// The file header that turns a DIB of `len` bytes, whose info header is `info_size` bytes
/// long, into a bitmap file: the magic `BM`, the file size, two reserved words and the
/// offset of the pixel data.
pub open spec fn bmp_file_header(len: int, info_size: int) -> Seq<u8> {
    seq![66u8, 77u8] + le32(wrap32(len + 14)) + seq![0u8, 0u8, 0u8, 0u8] + le32(info_size + 14)
}

impl FakeBitmapFile {
    #[verifier::type_invariant]
    spec fn inv(self) -> bool {
        &&& self.file_header@.len() == BITMAP_FILE_HEADER_SIZE
        &&& self.file_header@.len() + self.bitmap@.len() <= usize::MAX
    }

    /// Everything that the file holds: the file header, then the DIB.
    pub closed spec fn contents(self) -> Seq<u8> {
        self.file_header@ + self.bitmap@
    }

    /// The position of the next read.
    pub closed spec fn pos(self) -> int {
        self.curr_pos as int
    }

    /// Puts a bitmap file together from a DIB: the 14-byte file header that `bmp_file_header`
    /// describes, followed by `dib`. The info header size is read from the first 4 bytes of
    /// `dib`.
    pub fn from_dib(dib: Vec<u8>) -> (f: FakeBitmapFile)
        requires
            dib@.len() >= 4,
            dib@.len() + 14 <= usize::MAX,
            le_u32_at(dib@, 0) + 14 <= u32::MAX,
        ensures
            f.contents() == bmp_file_header(dib@.len() as int, le_u32_at(dib@, 0)) + dib@,
            f.pos() == 0,
    {
        let info_header_size = read_u32_le(dib.as_slice(), 0);
        let mut header: Vec<u8> = Vec::with_capacity(BITMAP_FILE_HEADER_SIZE);
        header.push(66u8);
        header.push(77u8);
        push_u32_le(&mut header, wrap_u32(dib.len() + BITMAP_FILE_HEADER_SIZE));
        push_u32_le(&mut header, 0);
        push_u32_le(&mut header, info_header_size + 14);
        proof {
            assert(header@ =~= bmp_file_header(dib@.len() as int, le_u32_at(dib@, 0)));
        }
        FakeBitmapFile { file_header: header, bitmap: dib, curr_pos: 0 }
    }

    /// The length of the whole file.
    pub fn len(&self) -> (n: usize)
        ensures
            n == self.contents().len(),
    {
        proof {
            use_type_invariant(self);
        }
        self.file_header.len() + self.bitmap.len()
    }

    /// The whole file as one buffer.
    pub fn to_vec(&self) -> (v: Vec<u8>)
        ensures
            v@ == self.contents(),
    {
        let mut v = self.file_header.clone();
        let mut rest = self.bitmap.clone();
        v.append(&mut rest);
        proof {
            assert(v@ =~= self.contents());
        }
        v
    }

    /// Moves the read position and returns the new one.
    ///
    /// An offset is added with the wrap-around of a cast to `usize`; the sum must not overflow.
    pub fn seek(&mut self, pos: SeekPos) -> (new_pos: u64)
        requires
            pos matches SeekPos::End(p) ==> old(self).contents().len() + (p as usize) <= usize::MAX,
            pos matches SeekPos::Current(p) ==> old(self).pos() + (p as usize) <= usize::MAX,
        ensures
            final(self).contents() == old(self).contents(),
            final(self).pos() == match pos {
                SeekPos::Start(p) => (p as usize) as int,
                SeekPos::End(p) => old(self).contents().len() + (p as usize),
                SeekPos::Current(p) => old(self).pos() + (p as usize),
            },
            new_pos == final(self).pos(),
    {
        proof {
            use_type_invariant(&*self);
        }
        match pos {
            SeekPos::Start(p) => {
                self.curr_pos = #[verifier::truncate] (p as usize);
            },
            SeekPos::End(p) => {
                let n = self.len();
                self.curr_pos = n + #[verifier::truncate] (p as usize);
            },
            SeekPos::Current(p) => {
                self.curr_pos = self.curr_pos + #[verifier::truncate] (p as usize);
            },
        }
        self.curr_pos as u64
    }

    /// Copies the next bytes of the file into `buf` and returns how many were copied: as many
    /// as fit, up to the end of the file.
    pub fn read(&mut self, buf: &mut [u8]) -> (n: usize)
        requires
            old(self).pos() <= old(self).contents().len(),
        ensures
            n == if old(buf)@.len() < old(self).contents().len() - old(self).pos() {
                old(buf)@.len() as int
            } else {
                old(self).contents().len() - old(self).pos()
            },
            final(buf)@.len() == old(buf)@.len(),
            final(buf)@.subrange(0, n as int) == old(self).contents().subrange(
                old(self).pos(),
                old(self).pos() + n,
            ),
            final(buf)@.subrange(n as int, old(buf)@.len() as int) == old(buf)@.subrange(
                n as int,
                old(buf)@.len() as int,
            ),
            final(self).contents() == old(self).contents(),
            final(self).pos() == old(self).pos() + n,
    {
        proof {
            use_type_invariant(&*self);
        }
        let header_len = self.file_header.len();
        let total = header_len + self.bitmap.len();
        let remaining = total - self.curr_pos;
        let total_read_len = if buf.len() < remaining {
            buf.len()
        } else {
            remaining
        };
        let ghost start = self.curr_pos as int;
        let ghost contents = self.file_header@ + self.bitmap@;
        let ghost orig_buf = buf@;
        let mut buf_pos: usize = 0;
        // Read from the header, then from the bitmap.
        while buf_pos < total_read_len
            invariant
                self.file_header@.len() == header_len,
                header_len == BITMAP_FILE_HEADER_SIZE,
                contents == self.file_header@ + self.bitmap@,
                total == contents.len(),
                total <= usize::MAX,
                start + total_read_len <= total,
                buf_pos <= total_read_len,
                total_read_len <= orig_buf.len(),
                self.curr_pos == start + buf_pos,
                buf@.len() == orig_buf.len(),
                forall|k: int| 0 <= k < buf_pos ==> #[trigger] buf@[k] == contents[start + k],
                forall|k: int| buf_pos <= k < orig_buf.len() ==> #[trigger] buf@[k] == orig_buf[k],
            decreases total_read_len - buf_pos,
        {
            let p = self.curr_pos;
            let byte = if p < header_len {
                self.file_header[p]
            } else {
                self.bitmap[p - header_len]
            };
            buf[buf_pos] = byte;
            buf_pos = buf_pos + 1;
            self.curr_pos = self.curr_pos + 1;
        }
        proof {
            assert(buf@.subrange(0, total_read_len as int) =~= contents.subrange(
                start,
                start + total_read_len,
            ));
            assert(buf@.subrange(total_read_len as int, orig_buf.len() as int) =~= orig_buf.subrange(
                total_read_len as int,
                orig_buf.len() as int,
            ));
        }
        total_read_len
    }
}

/// Decodes the image of a DIB as the clipboard's `CF_DIB` format holds it, by reading it as
/// a bitmap file behind the file header that `FakeBitmapFile::from_dib` puts in front.
pub fn get_image_from_dib(dib: Vec<u8>) -> (r: Result<ImageData, Error>)
    requires
        dib@.len() >= 4,
        dib@.len() + 14 <= usize::MAX,
        le_u32_at(dib@, 0) + 14 <= u32::MAX,
    ensures
        decoded_as(
            r,
            spec_decode_bmp(bmp_file_header(dib@.len() as int, le_u32_at(dib@, 0)) + dib@),
        ),
{
    let file = FakeBitmapFile::from_dib(dib);
    let bytes = file.to_vec();
    let decoded = decode_bmp(bytes.as_slice());
    image_from_decoded(decoded)
}

} // verus!

verus! {

/// The fields of a `BITMAPINFOHEADER`.
#[derive(Clone, Copy, Debug, PartialEq, Eq, Structural)]
pub struct BitmapInfoHeader {
    pub size: u32,
    pub width: i32,
    pub height: i32,
    pub planes: u16,
    pub bit_count: u16,
    pub compression: u32,
    pub size_image: u32,
    pub x_pels_per_meter: i32,
    pub y_pels_per_meter: i32,
    pub clr_used: u32,
    pub clr_important: u32,
}

/// The size of a `BITMAPINFOHEADER`.
pub const BITMAP_INFO_HEADER_SIZE: u32 = 40;

/// The header with which the attributes of a bitmap are queried: its size set, all else zero,
/// so that the query fills in the header without the colour table.
pub fn bitmap_query_header() -> (h: BitmapInfoHeader)
    ensures
        h == (BitmapInfoHeader {
            size: BITMAP_INFO_HEADER_SIZE,
            width: 0,
            height: 0,
            planes: 0,
            bit_count: 0,
            compression: BI_RGB,
            size_image: 0,
            x_pels_per_meter: 0,
            y_pels_per_meter: 0,
            clr_used: 0,
            clr_important: 0,
        }),
{
    BitmapInfoHeader {
        size: BITMAP_INFO_HEADER_SIZE,
        width: 0,
        height: 0,
        planes: 0,
        bit_count: 0,
        compression: BI_RGB,
        size_image: 0,
        x_pels_per_meter: 0,
        y_pels_per_meter: 0,
        clr_used: 0,
        clr_important: 0,
    }
}

/// The header with which the pixels of a bitmap are then fetched: the queried attributes, as
/// top-down uncompressed 32-bit pixels without a colour table.
pub fn bitmap_bits_header(queried: BitmapInfoHeader) -> (h: BitmapInfoHeader)
    requires
        queried.height != i32::MIN,
    ensures
        h == (BitmapInfoHeader {
            height: (if queried.height < 0 {
                queried.height as int
            } else {
                -queried.height
            }) as i32,
            planes: 1,
            bit_count: 32,
            compression: BI_RGB,
            clr_used: 0,
            clr_important: 0,
            ..queried
        }),
{
    let abs = if queried.height < 0 {
        -queried.height
    } else {
        queried.height
    };
    BitmapInfoHeader {
        height: -abs,
        planes: 1,
        bit_count: 32,
        compression: BI_RGB,
        clr_used: 0,
        clr_important: 0,
        ..queried
    }
}

/// The image of the pixels fetched from a bitmap: the BGRA pixels turned into RGBA, with the
/// header's width and the absolute value of its height.
pub fn image_from_bitmap_bits(header: BitmapInfoHeader, bits: Vec<u8>) -> (img: ImageData)
    requires
        bits@.len() % 4 == 0 || bits@.len() % 4 == 3,
        header.height != i32::MIN,
    ensures
        img.width == header.width as usize,
        img.height == (if header.height < 0 {
            -header.height
        } else {
            header.height as int
        }) as usize,
        img.bytes@ == swap_red_blue(bits@),
{
    let mut bytes = bits;
    crate::pixels::bgra_to_rgba(&mut bytes);
    let h = if header.height < 0 {
        -header.height
    } else {
        header.height
    };
    ImageData { width: #[verifier::truncate] (header.width as usize), height: h as usize, bytes }
}

/// The colour depth that a bitmap is stored with: its bits per pixel (over all planes)
/// rounded up to 1, 4, 8, 16, 24 or 32.
pub open spec fn spec_color_bits(bits: int) -> int {
    if bits == 1 {
        1
    } else if bits <= 4 {
        4
    } else if bits <= 8 {
        8
    } else if bits <= 16 {
        16
    } else if bits <= 24 {
        24
    } else {
        32
    }
}

/// The colour depth that a bitmap with `planes` planes of `bits_per_pixel` bits is stored with.
pub fn color_bits(planes: u16, bits_per_pixel: u16) -> (c: u16)
    requires
        planes * bits_per_pixel <= u16::MAX,
    ensures
        c == spec_color_bits(planes * bits_per_pixel),
{
    let bits = planes * bits_per_pixel;
    if bits == 1 {
        1
    } else if bits <= 4 {
        4
    } else if bits <= 8 {
        8
    } else if bits <= 16 {
        16
    } else if bits <= 24 {
        24
    } else {
        32
    }
}

/// The number of colour table entries for a colour depth: `2^depth` below 24 bits per pixel,
/// none above.
pub open spec fn spec_color_table_len(color_bits: int) -> int {
    if color_bits == 1 {
        2
    } else if color_bits == 4 {
        16
    } else if color_bits == 8 {
        256
    } else if color_bits == 16 {
        65536
    } else {
        0
    }
}

/// The bytes of one row of pixels: rows are padded to whole 32-bit words.
pub open spec fn spec_row_stride(width: int, color_bits: int) -> int {
    ((width * color_bits + 31) / 32) * 4
}

proof fn lemma_round_down_32(x: i32)
    ensures
        (x & !31i32) as int == (x as int / 32) * 32,
{
    assert((x & !31i32) == x - (x & 31i32)) by (bit_vector);
    assert(0 <= (x & 31i32) < 32) by (bit_vector);
    assert(((x - (x & 31i32)) as int) % 32 == 0) by (bit_vector);
    let r = (x & 31i32) as int;
    let d = (x as int - r) / 32;
    assert(x as int - r == d * 32);
    vstd::arithmetic::div_mod::lemma_fundamental_div_mod_converse(x as int, 32, d, r);
}

/// The bytes of one row of a bitmap of the given width and colour depth.
pub fn row_stride(width: i32, color_bits: u16) -> (s: i32)
    requires
        i32::MIN <= width * color_bits,
        width * color_bits + 31 <= i32::MAX,
    ensures
        s == spec_row_stride(width as int, color_bits as int),
{
    let t = width * (color_bits as i32) + 31;
    proof {
        lemma_round_down_32(t);
    }
    (t & !31i32) / 8
}

/// The header that describes a bitmap of the given dimensions for storage, and the number of
/// entries of its colour table (none for 24 and 32 bits per pixel).
pub fn storage_header(width: i32, height: i32, planes: u16, bits_per_pixel: u16) -> (r: (BitmapInfoHeader, u32))
    requires
        planes * bits_per_pixel <= u16::MAX,
        i32::MIN <= width * spec_color_bits(planes * bits_per_pixel),
        width * spec_color_bits(planes * bits_per_pixel) + 31 <= i32::MAX,
        (spec_row_stride(width as int, spec_color_bits(planes * bits_per_pixel)) as u32) * (height as u32) <= u32::MAX,
    ensures
        ({
            let c = spec_color_bits(planes * bits_per_pixel);
            let table = spec_color_table_len(c);
            &&& r.1 == table
            &&& r.0 == (BitmapInfoHeader {
                size: BITMAP_INFO_HEADER_SIZE,
                width,
                height,
                planes,
                bit_count: bits_per_pixel,
                compression: BI_RGB,
                size_image: ((spec_row_stride(width as int, c) as u32) * (height as u32)) as u32,
                x_pels_per_meter: 0,
                y_pels_per_meter: 0,
                clr_used: table as u32,
                clr_important: 0,
            })
        }),
{
    let c = color_bits(planes, bits_per_pixel);
    let table: u32 = if c == 1 {
        2
    } else if c == 4 {
        16
    } else if c == 8 {
        256
    } else if c == 16 {
        65536
    } else {
        0
    };
    let stride = row_stride(width, c);
    let size_image = (#[verifier::truncate] (stride as u32)) * (#[verifier::truncate] (height as u32));
    (
        BitmapInfoHeader {
            size: BITMAP_INFO_HEADER_SIZE,
            width,
            height,
            planes,
            bit_count: bits_per_pixel,
            compression: BI_RGB,
            size_image,
            x_pels_per_meter: 0,
            y_pels_per_meter: 0,
            clr_used: table,
            clr_important: 0,
        },
        table,
    )
}

} // verus!

verus! {

fn wrap_i32(x: i32) -> (r: u32)
    ensures
        r == wrap32(x as int),
{
    if x >= 0 {
        x as u32
    } else {
        (x as i64 + 0x1_0000_0000i64) as u32
    }
}

/// The height field of the `BITMAPV4HEADER` of `add_cf_bitmap`: the height reduced to 32
/// bits, negated, which marks the rows as top-down.
pub open spec fn v4_height(height: int) -> int {
    -((height as i32) as int)
}

/// The `BITMAPV4HEADER` with which an RGBA image is turned into a device-dependent bitmap
/// (`CF_BITMAP`): top-down 32-bit pixels described by masks.
pub open spec fn bitmap_v4_header(w: int, h: int) -> Seq<u8> {
    le32(BITMAP_V4_INFO_HEADER_SIZE as int) + le32(wrap32(w)) + le32(wrap32(v4_height(h)))
        + le16(1) + le16(32) + le32(BI_BITFIELDS as int) + le32(wrap32(4 * w * h)) + le32(3000)
        + le32(3000) + le32(0) + le32(3) + le32(0xff0000) + le32(0x00ff00) + le32(0x0000ff)
        + le32(0) + le32(0) + le32(0) + le32(0) + le32(0) + le32(0) + le32(0) + le32(0)
        + le32(0) + le32(0) + le32(0) + le32(0) + le32(0) + le32(0)
}

/// Builds the `BITMAPV4HEADER` with which an image of `width` by `height` pixels is placed
/// on the clipboard as a device-dependent bitmap.
pub fn bitmap_v4_header_bytes(width: usize, height: usize) -> (header: Vec<u8>)
    requires
        4 * width <= usize::MAX,
        4 * width * height <= usize::MAX,
        (height as i32) != i32::MIN,
    ensures
        header@ == bitmap_v4_header(width as int, height as int),
        header@.len() == BITMAP_V4_INFO_HEADER_SIZE,
{
    let mut out: Vec<u8> = Vec::with_capacity(108);
    let h = #[verifier::truncate] (height as i32);
    let neg_h = -h;
    push_u32_le(&mut out, BITMAP_V4_INFO_HEADER_SIZE);
    push_u32_le(&mut out, wrap_u32(width));
    push_u32_le(&mut out, wrap_i32(neg_h));
    push_u16_le(&mut out, 1);
    push_u16_le(&mut out, 32);
    push_u32_le(&mut out, BI_BITFIELDS);
    push_u32_le(&mut out, wrap_u32(4 * width * height));
    push_u32_le(&mut out, 3000);
    push_u32_le(&mut out, 3000);
    push_u32_le(&mut out, 0);
    push_u32_le(&mut out, 3);
    push_u32_le(&mut out, 0xff0000);
    push_u32_le(&mut out, 0x00ff00);
    push_u32_le(&mut out, 0x0000ff);
    push_u32_le(&mut out, 0);
    // colour space type
    push_u32_le(&mut out, 0);
    // colour space endpoints
    push_u32_le(&mut out, 0);
    push_u32_le(&mut out, 0);
    push_u32_le(&mut out, 0);
    push_u32_le(&mut out, 0);
    push_u32_le(&mut out, 0);
    push_u32_le(&mut out, 0);
    push_u32_le(&mut out, 0);
    push_u32_le(&mut out, 0);
    push_u32_le(&mut out, 0);
    // gamma
    push_u32_le(&mut out, 0);
    push_u32_le(&mut out, 0);
    push_u32_le(&mut out, 0);
    proof {
        assert(out@ =~= bitmap_v4_header(width as int, height as int));
    }
    out
}

} // verus!
