use vstd::prelude::*;

verus! {

/// Stores pixel data of an image.
///
/// Each element in `bytes` stores the value of a channel of a single pixel.
/// This struct stores four channels (red, green, blue, alpha) so
/// a `3*3` image is going to be stored on `3*3*4 = 36` bytes of data.
///
/// The pixels are in row-major order meaning that the second pixel
/// in `bytes` (starting at the fifth byte) corresponds to the pixel that's
/// sitting to the right side of the top-left pixel (x=1, y=0)
#[derive(Clone, Debug)]
pub struct ImageData {
    pub width: usize,
    pub height: usize,
    pub bytes: Vec<u8>,
}

impl ImageData {
    /// The number of bytes in one row of pixels.
    pub open spec fn row_size(self) -> int {
        4 * self.width
    }

    /// The number of bytes that `width * height` RGBA pixels take.
    pub open spec fn pixel_bytes(self) -> int {
        4 * self.width * self.height
    }

    /// Whether the byte buffer holds exactly the pixels that the dimensions announce.
    pub open spec fn is_well_formed(self) -> bool {
        self.bytes@.len() == self.pixel_bytes()
    }

    /// Returns the bytes field in a way that it's guaranteed to be owned.
    pub fn into_owned_bytes(self) -> (b: Vec<u8>)
        ensures
            b@ == self.bytes@,
    {
        self.bytes
    }

    /// Returns an image data that is guaranteed to own its bytes.
    pub fn to_owned_img(&self) -> (img: ImageData)
        ensures
            img.width == self.width,
            img.height == self.height,
            img.bytes@ == self.bytes@,
    {
        let bytes = self.bytes.clone();
        proof {
            assert(bytes@ =~= self.bytes@);
        }
        ImageData { width: self.width, height: self.height, bytes }
    }
}

} // verus!
