//! The clipboard of platforms without one: it holds nothing and accepts nothing.
use vstd::prelude::*;
use crate::error::Error;
use crate::image_data::ImageData;

verus! {

/// A clipboard that is never available.
#[derive(Debug)]
pub struct DummyClipboard {}

impl Default for DummyClipboard {
    fn default() -> (c: DummyClipboard)
        ensures
            c == (DummyClipboard {}),
    {
        DummyClipboard {}
    }
}

impl DummyClipboard {
    /// Creates the clipboard; this always succeeds.
    pub fn new() -> (r: Result<Self, Error>)
        ensures
            r is Ok,
    {
        Ok(DummyClipboard::default())
    }

    /// Fetches utf-8 text from the clipboard: there never is any.
    pub fn get_text(&mut self) -> (r: Result<String, Error>)
        ensures
            r == Err::<String, Error>(Error::ContentNotAvailable),
    {
        Err(Error::ContentNotAvailable)
    }

    /// Places the text onto the clipboard. Any valid utf-8 string is accepted; nothing is kept,
    /// so a later read still finds no text.
    pub fn set_text(&mut self, _text: String) -> (r: Result<(), Error>)
        ensures
            r == Ok::<(), Error>(()),
    {
        Ok(())
    }

    /// Fetches image data from the clipboard: there never is any.
    pub fn get_image(&mut self) -> (r: Result<ImageData, Error>)
        ensures
            r == Err::<ImageData, Error>(Error::ContentNotAvailable),
    {
        Err(Error::ContentNotAvailable)
    }

    /// Places an image to the clipboard. The image is accepted; nothing is kept, so a later
    /// read still finds no image.
    pub fn set_image(&mut self, _image: ImageData) -> (r: Result<(), Error>)
        ensures
            r == Ok::<(), Error>(()),
    {
        Ok(())
    }
}

/// Opening the clipboard of an unsupported platform fails.
pub fn unsupported_clipboard() -> (r: Result<(), Error>)
    ensures
        r == Err::<(), Error>(Error::ClipboardNotSupported),
{
    Err(Error::ClipboardNotSupported)
}

} // verus!
