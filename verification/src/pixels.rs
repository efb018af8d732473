//! Pixel layout conversions used by the Windows bitmap formats.
//!
//! Windows bitmaps store 32-bit pixels as little-endian ARGB words, which puts the
//! bytes of a pixel in blue, green, red, alpha order. Converting between that layout
//! and RGBA exchanges the first and third byte of every pixel.
use vstd::prelude::*;
use crate::image_data::ImageData;

verus! {

/// `s` with the red and blue byte of every 4-byte pixel exchanged.
pub open spec fn swap_red_blue(s: Seq<u8>) -> Seq<u8> {
    Seq::new(
        s.len(),
        |i: int|
            if i % 4 == 0 && i + 2 < s.len() {
                s[i + 2]
            } else if i % 4 == 2 {
                s[i - 2]
            } else {
                s[i]
            },
    )
}

/// Exchanges the red and blue byte of every pixel of `bytes`, in place; a last pixel of three
/// bytes gets its red and blue exchanged too, a shorter one is left as it is.
fn swap_red_blue_in_place(bytes: &mut Vec<u8>)
    ensures
        final(bytes)@ == swap_red_blue(old(bytes)@),
{
    let n = bytes.len();
    let ghost orig = bytes@;
    let mut i: usize = 0;
    while i < n && n - i > 2
        invariant
            n == orig.len(),
            bytes@.len() == n,
            i % 4 == 0 || i == n,
            i <= n,
            forall|k: int| 0 <= k < i ==> bytes@[k] == #[trigger] swap_red_blue(orig)[k],
            forall|k: int| i <= k < n ==> bytes@[k] == orig[k],
        decreases n - i,
    {
        let r = bytes[i];
        let b = bytes[i + 2];
        bytes.set(i, b);
        bytes.set(i + 2, r);
        if n - i < 4 {
            i = n;
        } else {
            i = i + 4;
        }
    }
    proof {
        assert(bytes@ =~= swap_red_blue(orig));
    }
}

/// Converts RGBA pixel data into the bitmap-native ARGB word layout, in place.
///
/// The length of `bytes` must be a multiple of 4. The converted bytes are also returned.
pub fn rgba_to_win(bytes: &mut Vec<u8>) -> (converted: Vec<u8>)
    requires
        old(bytes)@.len() % 4 == 0,
    ensures
        final(bytes)@ == swap_red_blue(old(bytes)@),
        converted@ == final(bytes)@,
{
    swap_red_blue_in_place(bytes);
    let converted = bytes.clone();
    proof {
        assert(converted@ =~= bytes@);
    }
    converted
}

/// Converts bitmap-native ARGB word pixel data into RGBA, in place.
///
/// The length of `bytes` must be a multiple of 4. The converted bytes are also returned.
pub fn win_to_rgba(bytes: &mut Vec<u8>) -> (converted: Vec<u8>)
    requires
        old(bytes)@.len() % 4 == 0,
    ensures
        final(bytes)@ == swap_red_blue(old(bytes)@),
        converted@ == final(bytes)@,
{
    swap_red_blue_in_place(bytes);
    let converted = bytes.clone();
    proof {
        assert(converted@ =~= bytes@);
    }
    converted
}

/// Turns the BGRA pixels that Windows hands out into RGBA, in place.
pub fn bgra_to_rgba(bytes: &mut Vec<u8>)
    requires
        old(bytes)@.len() % 4 == 0 || old(bytes)@.len() % 4 == 3,
    ensures
        final(bytes)@ == swap_red_blue(old(bytes)@),
{
    swap_red_blue_in_place(bytes);
}

/// Converting to the bitmap layout and back gives the same pixels, and so does the
/// conversion in the other order.
pub proof fn lemma_win_rgba_roundtrip(s: Seq<u8>)
    requires
        s.len() % 4 == 0,
    ensures
        swap_red_blue(swap_red_blue(s)) == s,
        swap_red_blue(s).len() == s.len(),
{
    let t = swap_red_blue(s);
    assert forall|i: int| 0 <= i < s.len() implies #[trigger] swap_red_blue(t)[i] == s[i] by {
        if i % 4 == 0 {
            assert(i + 2 < s.len());
            assert((i + 2) % 4 == 2);
        } else if i % 4 == 2 {
            assert((i - 2) % 4 == 0);
        }
    }
    assert(swap_red_blue(t) =~= s);
}

} // verus!

verus! {

/// The byte at column `c` of row `r` of a buffer whose rows are `rs` bytes long.
pub open spec fn row_byte(s: Seq<u8>, rs: int, r: int, c: int) -> u8 {
    s[r * rs + c]
}

/// `res` is `orig` with its first `h` rows of `rs` bytes in reverse order; the bytes
/// after those rows stay where they are.
pub open spec fn is_vertical_flip(orig: Seq<u8>, res: Seq<u8>, rs: int, h: int) -> bool {
    &&& res.len() == orig.len()
    &&& forall|r: int, c: int|
        0 <= r < h && 0 <= c < rs ==> #[trigger] row_byte(res, rs, r, c) == row_byte(
            orig,
            rs,
            h - 1 - r,
            c,
        )
    &&& forall|i: int| rs * h <= i < orig.len() ==> #[trigger] res[i] == orig[i]
}

proof fn lemma_row_start(r: int, rs: int, h: int)
    requires
        0 <= r < h,
        0 <= rs,
    ensures
        r * rs + rs <= h * rs,
        (r + 1) * rs == r * rs + rs,
        0 <= r * rs,
{
    assert(r * rs + rs <= h * rs) by (nonlinear_arith)
        requires
            0 <= r < h,
            0 <= rs,
    ;
    assert((r + 1) * rs == r * rs + rs) by (nonlinear_arith);
    assert(0 <= r * rs) by (nonlinear_arith)
        requires
            0 <= r,
            0 <= rs,
    ;
}

pub(crate) proof fn lemma_row_bounds(r: int, c: int, rs: int, h: int)
    requires
        0 <= r < h,
        0 <= c < rs,
    ensures
        0 <= r * rs + c < h * rs,
        r * rs + c < rs * h,
        r * rs + rs <= h * rs,
        (r + 1) * rs == r * rs + rs,
        0 <= r * rs,
{
    assert(0 <= r * rs + c < h * rs) by (nonlinear_arith)
        requires
            0 <= r < h,
            0 <= c < rs,
    ;
    assert(r * rs + rs <= h * rs) by (nonlinear_arith)
        requires
            0 <= r < h,
            0 <= c < rs,
    ;
    assert((r + 1) * rs == r * rs + rs) by (nonlinear_arith);
    assert(0 <= r * rs) by (nonlinear_arith)
        requires
            0 <= r,
            0 <= c < rs,
    ;
}

/// The pixels of `image` flipped vertically, as `flip_v` gives them: unchanged for fewer than
/// two rows, else its rows in reverse order.
pub open spec fn flipped_bytes(image: ImageData) -> Seq<u8> {
    if image.height < 2 {
        image.bytes@
    } else {
        vertical_flip(image.bytes@, image.row_size(), image.height as int)
    }
}

/// Vertically flips the image pixels: the first row becomes the last one.
///
/// Images of fewer than two rows are returned unchanged.
pub fn flip_v(image: ImageData) -> (flipped: ImageData)
    requires
        4 * image.width <= usize::MAX,
        image.height >= 2 ==> image.pixel_bytes() <= image.bytes@.len(),
    ensures
        flipped.width == image.width,
        flipped.height == image.height,
        image.height >= 2 ==> flipped.bytes@ == vertical_flip(
            image.bytes@,
            image.row_size(),
            image.height as int,
        ),
        image.height < 2 ==> flipped.bytes@ == image.bytes@,
        flipped.bytes@ == flipped_bytes(image),
{
    let w = image.width;
    let h = image.height;
    if h < 2 {
        return image;
    }
    let rowsize = w * 4;
    let bytes = image.bytes;
    let n = bytes.len();
    let ghost rs = rowsize as int;
    proof {
        assert(4 * w * h == rowsize * h) by (nonlinear_arith)
            requires
                rowsize == w * 4,
        ;
    }
    let mut out: Vec<u8> = Vec::with_capacity(n);
    let mut r: usize = 0;
    while r < h
        invariant
            rs == rowsize as int,
            rowsize * h <= n,
            n == bytes@.len(),
            2 <= h,
            r <= h,
            out@.len() == r * rs,
            forall|r2: int, c: int|
                0 <= r2 < r && 0 <= c < rs ==> #[trigger] row_byte(out@, rs, r2, c) == row_byte(
                    bytes@,
                    rs,
                    h - 1 - r2,
                    c,
                ),
        decreases h - r,
    {
        let src_row = h - 1 - r;
        proof {
            lemma_row_start(src_row as int, rs, h as int);
            lemma_row_start(r as int, rs, h as int);
        }
        let src = src_row * rowsize;
        let mut c: usize = 0;
        while c < rowsize
            invariant
                rs == rowsize as int,
                rowsize * h <= n,
                n == bytes@.len(),
                r < h,
                src_row == h - 1 - r,
                src == src_row * rs,
                src + rs <= h * rs,
                c <= rowsize,
                out@.len() == r * rs + c,
                forall|r2: int, c2: int|
                    0 <= r2 < r && 0 <= c2 < rs ==> #[trigger] row_byte(out@, rs, r2, c2)
                        == row_byte(bytes@, rs, h - 1 - r2, c2),
                forall|c2: int| 0 <= c2 < c ==> #[trigger] out@[r * rs + c2] == bytes@[src + c2],
            decreases rowsize - c,
        {
            let ghost before = out@;
            out.push(bytes[src + c]);
            proof {
                assert forall|r2: int, c2: int|
                    0 <= r2 < r && 0 <= c2 < rs implies #[trigger] row_byte(out@, rs, r2, c2)
                    == row_byte(bytes@, rs, h - 1 - r2, c2) by {
                    lemma_row_bounds(r2, c2, rs, r as int);
                    assert(row_byte(out@, rs, r2, c2) == row_byte(before, rs, r2, c2));
                }
            }
            c = c + 1;
        }
        proof {
            assert forall|r2: int, c2: int|
                0 <= r2 < r + 1 && 0 <= c2 < rs implies #[trigger] row_byte(out@, rs, r2, c2)
                == row_byte(bytes@, rs, h - 1 - r2, c2) by {
                if r2 == r {
                    assert(out@[r * rs + c2] == bytes@[src + c2]);
                }
            }
            lemma_row_start(r as int, rs, h as int);
        }
        r = r + 1;
    }
    proof {
        assert(h * rs == rowsize * h) by (nonlinear_arith)
            requires
                rs == rowsize,
        ;
    }
    let start = rowsize * h;
    let mut i: usize = start;
    while i < n
        invariant
            rs == rowsize as int,
            start == rs * h,
            start <= i <= n,
            n == bytes@.len(),
            out@.len() == i,
            forall|r2: int, c: int|
                0 <= r2 < h && 0 <= c < rs ==> #[trigger] row_byte(out@, rs, r2, c) == row_byte(
                    bytes@,
                    rs,
                    h - 1 - r2,
                    c,
                ),
            forall|k: int| start <= k < i ==> #[trigger] out@[k] == bytes@[k],
        decreases n - i,
    {
        let ghost before = out@;
        out.push(bytes[i]);
        proof {
            assert forall|r2: int, c: int|
                0 <= r2 < h && 0 <= c < rs implies #[trigger] row_byte(out@, rs, r2, c)
                == row_byte(bytes@, rs, h - 1 - r2, c) by {
                lemma_row_bounds(r2, c, rs, h as int);
                assert(row_byte(out@, rs, r2, c) == row_byte(before, rs, r2, c));
            }
        }
        i = i + 1;
    }
    proof {
        lemma_vertical_flip_characterized(bytes@, out@, rs, h as int);
    }
    ImageData { width: w, height: h, bytes: out }
}

} // verus!

verus! {

/// Splits an index inside the first `h` rows into its row and column.
proof fn lemma_decompose(i: int, rs: int, h: int) -> (rc: (int, int))
    requires
        0 <= rs,
        0 <= i < rs * h,
    ensures
        0 <= rc.0 < h,
        0 <= rc.1 < rs,
        i == rc.0 * rs + rc.1,
        rc.0 == i / rs,
        rc.1 == i % rs,
{
    assert(rs != 0) by (nonlinear_arith)
        requires
            0 <= i < rs * h,
    ;
    let r = i / rs;
    let col = i % rs;
    vstd::arithmetic::div_mod::lemma_fundamental_div_mod(i, rs);
    assert(r * rs == rs * r) by (nonlinear_arith);
    assert(0 <= r < h) by (nonlinear_arith)
        requires
            i == r * rs + col,
            0 <= col < rs,
            0 <= i < rs * h,
            0 <= rs,
    ;
    (r, col)
}

/// The first `h` rows of `rs` bytes of `s` in reverse order, followed by the rest of `s`.
pub open spec fn vertical_flip(s: Seq<u8>, rs: int, h: int) -> Seq<u8> {
    Seq::new(
        s.len(),
        |i: int|
            if i < rs * h {
                s[(h - 1 - i / rs) * rs + i % rs]
            } else {
                s[i]
            },
    )
}

/// `vertical_flip` is the one sequence that reverses the rows.
pub proof fn lemma_vertical_flip_characterized(s: Seq<u8>, t: Seq<u8>, rs: int, h: int)
    requires
        0 <= rs,
        0 <= h,
        rs * h <= s.len(),
    ensures
        is_vertical_flip(s, vertical_flip(s, rs, h), rs, h),
        is_vertical_flip(s, t, rs, h) ==> t == vertical_flip(s, rs, h),
{
    let f = vertical_flip(s, rs, h);
    assert forall|r: int, c: int| 0 <= r < h && 0 <= c < rs implies #[trigger] row_byte(f, rs, r, c)
        == row_byte(s, rs, h - 1 - r, c) by {
        lemma_row_bounds(r, c, rs, h);
        vstd::arithmetic::div_mod::lemma_fundamental_div_mod_converse(r * rs + c, rs, r, c);
        assert(f[r * rs + c] == s[(h - 1 - r) * rs + c]);
    }
    if is_vertical_flip(s, t, rs, h) {
        assert forall|i: int| 0 <= i < s.len() implies #[trigger] t[i] == f[i] by {
            if i < rs * h {
                let rc = lemma_decompose(i, rs, h);
                assert(row_byte(t, rs, rc.0, rc.1) == row_byte(s, rs, h - 1 - rc.0, rc.1));
            }
        }
        assert(t =~= f);
    }
}

/// Flipping an image vertically twice gives back the same pixels.
pub proof fn lemma_flip_v_twice(s: Seq<u8>, rs: int, h: int)
    requires
        0 <= rs,
        0 <= h,
        rs * h <= s.len(),
    ensures
        vertical_flip(vertical_flip(s, rs, h), rs, h) == s,
{
    let f = vertical_flip(s, rs, h);
    let g = vertical_flip(f, rs, h);
    lemma_vertical_flip_characterized(s, f, rs, h);
    lemma_vertical_flip_characterized(f, g, rs, h);
    assert forall|i: int| 0 <= i < s.len() implies #[trigger] g[i] == s[i] by {
        if i < rs * h {
            let rc = lemma_decompose(i, rs, h);
            let r = rc.0;
            let col = rc.1;
            assert(row_byte(g, rs, r, col) == row_byte(f, rs, h - 1 - r, col));
            assert(row_byte(f, rs, h - 1 - r, col) == row_byte(s, rs, h - 1 - (h - 1 - r), col));
        }
    }
    assert(g =~= s);
}


/// Flipping an image vertically puts row `y` of the result where row `h - 1 - y` was, keeps
/// the size of the buffer, and flipping the result again gives back the image's pixels.
pub proof fn lemma_flip_v_image(image: ImageData, flipped: ImageData)
    requires
        image.pixel_bytes() <= image.bytes@.len(),
        flipped.width == image.width,
        flipped.height == image.height,
        flipped.bytes@ == flipped_bytes(image),
    ensures
        flipped.bytes@.len() == image.bytes@.len(),
        is_vertical_flip(image.bytes@, flipped.bytes@, image.row_size(), image.height as int),
        flipped_bytes(flipped) == image.bytes@,
{
    let rs = image.row_size();
    let h = image.height as int;
    assert(rs * h == image.pixel_bytes()) by (nonlinear_arith)
        requires
            rs == 4 * image.width,
            h == image.height,
    ;
    lemma_vertical_flip_characterized(image.bytes@, image.bytes@, rs, h);
    if h < 2 {
        assert forall|r: int, c: int| 0 <= r < h && 0 <= c < rs implies #[trigger] row_byte(
            flipped.bytes@,
            rs,
            r,
            c,
        ) == row_byte(image.bytes@, rs, h - 1 - r, c) by {
            assert(h - 1 - r == r);
        }
    } else {
        lemma_flip_v_twice(image.bytes@, rs, h);
    }
}


/// Flipping a well-formed image with `flip_v` and flipping the result again gives back the
/// image: the first flip puts byte `i` of row `y` where byte `i` of row `h - 1 - y` was, and
/// the second restores every byte. (`flip_v` asks for rows of at most `usize::MAX` bytes, as
/// the row buffer it allocates does.)
pub proof fn lemma_flip_v_round_trip(image: ImageData, once: ImageData, twice: ImageData)
    requires
        image.is_well_formed(),
        4 * image.width <= usize::MAX,
        once.width == image.width,
        once.height == image.height,
        once.bytes@ == flipped_bytes(image),
        twice.width == once.width,
        twice.height == once.height,
        twice.bytes@ == flipped_bytes(once),
    ensures
        once.bytes@.len() == 4 * image.width * image.height,
        forall|y: int, i: int|
            0 <= y < image.height && 0 <= i < 4 * image.width ==> once.bytes@[y * (4 * image.width)
                + i] == #[trigger] row_byte(image.bytes@, 4 * image.width, image.height - 1 - y, i),
        twice.width == image.width,
        twice.height == image.height,
        twice.bytes@ == image.bytes@,
{
    lemma_flip_v_image(image, once);
    assert forall|y: int, i: int|
        0 <= y < image.height && 0 <= i < 4 * image.width implies once.bytes@[y * (4 * image.width)
            + i] == #[trigger] row_byte(image.bytes@, 4 * image.width, image.height - 1 - y, i) by {
        assert(row_byte(once.bytes@, image.row_size(), y, i) == row_byte(
            image.bytes@,
            image.row_size(),
            image.height - 1 - y,
            i,
        ));
    }
}

} // verus!
