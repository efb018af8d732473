//! The decisions of the macOS pasteboard backend: what a read yields, what a write reports,
//! and the parameters of the images it hands over.
use vstd::prelude::*;
use crate::bitmap::{decoded_as, image_from_decoded};
use crate::codec::{load_image, spec_load_image, ImageFileKind};
use crate::error::{err, is_message, is_unknown_with, Error, MessageError};
use crate::image_data::ImageData;

verus! {

/// The HTML document that the macOS pasteboard gets: the fragment in a body, behind a header
/// that declares UTF-8, so that programs do not read it as Windows Latin 1.
pub open spec fn apple_html(html: Seq<char>) -> Seq<char> {
    "<html><head><meta http-equiv=\"content-type\" content=\"text/html; charset=utf-8\"></head><body>"@
        + html + "</body></html>"@
}

/// Wraps an HTML fragment into the document that the macOS pasteboard gets.
pub fn apple_html_document(html: &str) -> (doc: String)
    ensures
        doc@ == apple_html(html@),
{
    let mut doc = String::from_str(
        "<html><head><meta http-equiv=\"content-type\" content=\"text/html; charset=utf-8\"></head><body>",
    );
    doc.append(html);
    doc.append("</body></html>");
    doc
}

/// The pasteboard type that clipboard history programs on macOS skip.
pub fn apple_concealed_type() -> (t: &'static str)
    ensures
        t@ == "org.nspasteboard.ConcealedType"@,
{
    "org.nspasteboard.ConcealedType"
}


/// An object that the pasteboard handed back, as far as the backend reads it.
#[derive(Debug)]
pub enum PasteboardObject {
    /// A string.
    Text(String),
    /// An image, given by its TIFF representation.
    Image(Vec<u8>),
    /// A URL, given by its absolute string.
    Url(String),
    /// An object of any other class.
    Other,
}

/// Clipboard contents read from the pasteboard.
#[derive(Debug)]
pub enum ClipboardContent {
    /// Text.
    Utf8(String),
    /// An image in TIFF.
    Tiff(Vec<u8>),
}

/// The contents that the first object read from the pasteboard stands for: strings and URLs
/// give text, images their TIFF data. `objects` is `None` where the read returned nothing at
/// all; no objects means no contents.
pub fn binary_contents(objects: Option<Vec<PasteboardObject>>) -> (r: Result<Option<ClipboardContent>, MessageError>)
    ensures
        match objects {
            None => r matches Err(e) && is_message(
                e,
                "pasteboard#readObjectsForClasses:options: returned null"@,
            ),
            Some(v) => if v@.len() == 0 {
                r matches Ok(None)
            } else {
                match v@[0] {
                    PasteboardObject::Text(s) => r matches Ok(Some(ClipboardContent::Utf8(t))) && t@ == s@,
                    PasteboardObject::Image(b) => r matches Ok(Some(ClipboardContent::Tiff(t))) && t@ == b@,
                    PasteboardObject::Url(s) => r matches Ok(Some(ClipboardContent::Utf8(t))) && t@ == s@,
                    PasteboardObject::Other => r matches Err(e) && is_message(
                        e,
                        "pasteboard#readObjectsForClasses:options: returned unknown class"@,
                    ),
                }
            },
        },
{
    match objects {
        None => Err(err("pasteboard#readObjectsForClasses:options: returned null")),
        Some(mut v) => {
            if v.len() == 0 {
                return Ok(None);
            }
            let first = v.remove(0);
            match first {
                PasteboardObject::Text(s) => Ok(Some(ClipboardContent::Utf8(s))),
                PasteboardObject::Image(b) => Ok(Some(ClipboardContent::Tiff(b))),
                PasteboardObject::Url(s) => Ok(Some(ClipboardContent::Utf8(s))),
                PasteboardObject::Other => Err(
                    err("pasteboard#readObjectsForClasses:options: returned unknown class"),
                ),
            }
        },
    }
}

/// Whether item `k` is the first of the pasteboard's items that has a string of the wanted
/// type.
pub open spec fn is_first_text(items: Seq<Option<String>>, k: int) -> bool {
    &&& 0 <= k < items.len()
    &&& items[k] is Some
    &&& forall|j: int| 0 <= j < k ==> items[j] is None
}

/// The string of the first item in `items` that has one of the wanted type.
fn first_text(items: &Vec<Option<String>>) -> (r: Result<String, Error>)
    ensures
        (forall|j: int| 0 <= j < items@.len() ==> items@[j] is None) ==> r == Err::<String, Error>(
            Error::ContentNotAvailable,
        ),
        forall|k: int| #[trigger] is_first_text(items@, k) ==> (r matches Ok(s) && s@ == items@[k]->0@),
{
    let mut i: usize = 0;
    while i < items.len()
        invariant
            0 <= i <= items@.len(),
            forall|j: int| 0 <= j < i ==> items@[j] is None,
        decreases items@.len() - i,
    {
        match &items[i] {
            Some(s) => {
                let t = s.clone();
                proof {
                    assert forall|k: int| #[trigger] is_first_text(items@, k) implies k == i by {
                        if k > i {
                            assert(items@[i as int] is None);
                        }
                    }
                }
                return Ok(t);
            },
            None => {},
        }
        i = i + 1;
    }
    Err(Error::ContentNotAvailable)
}

/// The string of the first pasteboard item that has one of the wanted type. `items` holds, for
/// each item, its string of that type, and is `None` where the pasteboard gave no items.
pub fn first_item_text(items: Option<Vec<Option<String>>>) -> (r: Result<String, Error>)
    ensures
        items is None ==> (r matches Err(e) && is_unknown_with(e, "NSPasteboard#pasteboardItems errored"@)),
        items matches Some(v) ==> {
            &&& (forall|j: int| 0 <= j < v@.len() ==> v@[j] is None) ==> r == Err::<String, Error>(
                Error::ContentNotAvailable,
            )
            &&& forall|k: int| #[trigger] is_first_text(v@, k) ==> (r matches Ok(s) && s@ == v@[k]->0@)
        },
{
    match items {
        None => Err(Error::unknown("NSPasteboard#pasteboardItems errored")),
        Some(v) => first_text(&v),
    }
}

/// The first string that a read of strings from the pasteboard returned; there is none where
/// the read returned nothing (`None`) or no strings.
pub fn first_read_text(strings: Option<Vec<String>>) -> (r: Result<String, Error>)
    ensures
        match strings {
            None => r == Err::<String, Error>(Error::ContentNotAvailable),
            Some(v) => if v@.len() == 0 {
                r == Err::<String, Error>(Error::ContentNotAvailable)
            } else {
                r matches Ok(s) && s@ == v@[0]@
            },
        },
{
    match strings {
        None => Err(Error::ContentNotAvailable),
        Some(mut v) => {
            if v.len() == 0 {
                Err(Error::ContentNotAvailable)
            } else {
                Ok(v.remove(0))
            }
        },
    }
}

/// As `first_read_text`, with the errors of the pasteboard context, which are plain messages: a
/// read that returned nothing and one that returned no strings are told apart.
pub fn context_read_text(strings: Option<Vec<String>>) -> (r: Result<String, MessageError>)
    ensures
        match strings {
            None => r matches Err(e) && is_message(
                e,
                "pasteboard#readObjectsForClasses:options: returned null"@,
            ),
            Some(v) => if v@.len() == 0 {
                r matches Err(e) && is_message(
                    e,
                    "pasteboard#readObjectsForClasses:options: returned empty"@,
                )
            } else {
                r matches Ok(s) && s@ == v@[0]@
            },
        },
{
    match strings {
        None => Err(err("pasteboard#readObjectsForClasses:options: returned null")),
        Some(mut v) => {
            if v.len() == 0 {
                Err(err("pasteboard#readObjectsForClasses:options: returned empty"))
            } else {
                Ok(v.remove(0))
            }
        },
    }
}

/// Reads the image of the TIFF data that the pasteboard holds; `None` where it holds none.
pub fn image_from_tiff(tiff: Option<&[u8]>) -> (r: Result<ImageData, Error>)
    ensures
        match tiff {
            None => r == Err::<ImageData, Error>(Error::ContentNotAvailable),
            Some(data) => decoded_as(r, spec_load_image(data@, ImageFileKind::Tiff)),
        },
{
    match tiff {
        None => Err(Error::ContentNotAvailable),
        Some(data) => {
            let decoded = load_image(data, ImageFileKind::Tiff);
            image_from_decoded(decoded)
        },
    }
}

/// Reads the image among the objects read from the pasteboard: the first object must be an
/// image, whose TIFF data is decoded.
pub fn image_of_read_objects(objects: Option<Vec<PasteboardObject>>) -> (r: Result<ImageData, Error>)
    ensures
        match objects {
            Some(v) if v@.len() > 0 && v@[0] is Image => decoded_as(
                r,
                spec_load_image(v@[0]->Image_0@, ImageFileKind::Tiff),
            ),
            _ => r == Err::<ImageData, Error>(Error::ContentNotAvailable),
        },
{
    match objects {
        None => Err(Error::ContentNotAvailable),
        Some(mut v) => {
            if v.len() == 0 {
                return Err(Error::ContentNotAvailable);
            }
            let first = v.remove(0);
            match first {
                PasteboardObject::Image(tiff) => {
                    let decoded = load_image(tiff.as_slice(), ImageFileKind::Tiff);
                    image_from_decoded(decoded)
                },
                _ => Err(Error::ContentNotAvailable),
            }
        },
    }
}

/// The paths among `paths`, in order, with the objects that gave none left out.
pub open spec fn present_paths(paths: Seq<Option<String>>) -> Seq<Seq<char>>
    decreases paths.len(),
{
    if paths.len() == 0 {
        Seq::empty()
    } else {
        let rest = present_paths(paths.drop_last());
        match paths.last() {
            Some(p) => rest.push(p@),
            None => rest,
        }
    }
}

/// The views of a list of paths.
pub open spec fn path_views(paths: Seq<String>) -> Seq<Seq<char>> {
    paths.map_values(|p: String| p@)
}

/// The file list of the pasteboard: the paths of the file URLs read from it. `urls` holds, for
/// each object read, its path where it is a file URL with one, and is `None` where the read
/// returned nothing. A list without paths is no list.
pub fn file_list_of_urls(urls: Option<Vec<Option<String>>>) -> (r: Result<Vec<String>, Error>)
    ensures
        match urls {
            None => r == Err::<Vec<String>, Error>(Error::ContentNotAvailable),
            Some(v) => if present_paths(v@).len() == 0 {
                r == Err::<Vec<String>, Error>(Error::ContentNotAvailable)
            } else {
                r matches Ok(list) && path_views(list@) == present_paths(v@)
            },
        },
{
    match urls {
        None => Err(Error::ContentNotAvailable),
        Some(v) => {
            let mut list: Vec<String> = Vec::new();
            let mut i: usize = 0;
            while i < v.len()
                invariant
                    0 <= i <= v@.len(),
                    path_views(list@) == present_paths(v@.subrange(0, i as int)),
                decreases v@.len() - i,
            {
                proof {
                    assert(v@.subrange(0, i + 1).drop_last() =~= v@.subrange(0, i as int));
                }
                match &v[i] {
                    Some(p) => {
                        list.push(p.clone());
                        proof {
                            assert(path_views(list@) =~= present_paths(v@.subrange(0, i as int)).push(p@));
                        }
                    },
                    None => {},
                }
                i = i + 1;
            }
            proof {
                assert(v@.subrange(0, i as int) =~= v@);
            }
            if list.len() == 0 {
                Err(Error::ContentNotAvailable)
            } else {
                Ok(list)
            }
        },
    }
}

/// What a write of text to the pasteboard reports, given whether the pasteboard took it.
pub fn text_write_result(success: bool) -> (r: Result<(), Error>)
    ensures
        success ==> r is Ok,
        !success ==> (r matches Err(e) && is_unknown_with(e, "NSPasteboard#writeObjects: returned false"@)),
{
    if success {
        Ok(())
    } else {
        Err(Error::unknown("NSPasteboard#writeObjects: returned false"))
    }
}

/// What a write of an image to the pasteboard reports, given whether the pasteboard took it.
pub fn image_write_result(success: bool) -> (r: Result<(), Error>)
    ensures
        success ==> r is Ok,
        !success ==> (r matches Err(e) && is_unknown_with(
            e,
            "Failed to write the image to the pasteboard (`writeObjects` returned NO)."@,
        )),
{
    if success {
        Ok(())
    } else {
        Err(Error::unknown("Failed to write the image to the pasteboard (`writeObjects` returned NO)."))
    }
}

/// What the pasteboard context reports of a write of text, given whether the pasteboard took
/// it; its errors are plain messages.
pub fn context_write_result(success: bool) -> (r: Result<(), MessageError>)
    ensures
        success ==> r is Ok,
        !success ==> (r matches Err(e) && is_message(e, "NSPasteboard#writeObjects: returned false"@)),
{
    if success {
        Ok(())
    } else {
        Err(err("NSPasteboard#writeObjects: returned false"))
    }
}

/// What creating the pasteboard context reports, given whether the class `NSPasteboard` was
/// found and whether it gave a general pasteboard; its errors are plain messages.
pub fn context_pasteboard_result(class_found: bool, pasteboard_found: bool) -> (r: Result<(), MessageError>)
    ensures
        !class_found ==> (r matches Err(e) && is_message(e, "Class::get(\"NSPasteboard\")"@)),
        class_found && !pasteboard_found ==> (r matches Err(e) && is_message(
            e,
            "NSPasteboard#generalPasteboard returned null"@,
        )),
        class_found && pasteboard_found ==> r is Ok,
{
    if !class_found {
        return Err(err("Class::get(\"NSPasteboard\")"));
    }
    if !pasteboard_found {
        return Err(err("NSPasteboard#generalPasteboard returned null"));
    }
    Ok(())
}

/// What creating the clipboard of the pasteboard backend that reports `Unknown` errors gives,
/// given whether the class `NSPasteboard` was found and whether it gave a general pasteboard.
pub fn pasteboard_clipboard_result(class_found: bool, pasteboard_found: bool) -> (r: Result<(), Error>)
    ensures
        !class_found ==> (r matches Err(e) && is_unknown_with(e, "Class::get(\"NSPasteboard\")"@)),
        class_found && !pasteboard_found ==> (r matches Err(e) && is_unknown_with(
            e,
            "NSPasteboard#generalPasteboard returned null"@,
        )),
        class_found && pasteboard_found ==> r is Ok,
{
    if !class_found {
        return Err(Error::unknown("Class::get(\"NSPasteboard\")"));
    }
    if !pasteboard_found {
        return Err(Error::unknown("NSPasteboard#generalPasteboard returned null"));
    }
    Ok(())
}

/// The general pasteboard of the current backend, where the system gave one; some daemons get
/// none, and then the clipboard is not supported.
pub fn general_pasteboard_result(found: bool) -> (r: Result<(), Error>)
    ensures
        found ==> r is Ok,
        !found ==> r == Err::<(), Error>(Error::ClipboardNotSupported),
{
    if found {
        Ok(())
    } else {
        Err(Error::ClipboardNotSupported)
    }
}

/// The layout of the bitmap that an image's RGBA pixels are handed over in: 8 bits per
/// component, 32 bits per pixel, rows of `4 * width` bytes, alpha last.
#[derive(Clone, Copy, Debug, PartialEq, Eq, Structural)]
pub struct CgImageLayout {
    pub width: usize,
    pub height: usize,
    pub bits_per_component: usize,
    pub bits_per_pixel: usize,
    pub bytes_per_row: usize,
}

/// The bitmap layout of an RGBA image of the given size.
pub fn cg_image_layout(width: usize, height: usize) -> (l: CgImageLayout)
    requires
        4 * width <= usize::MAX,
    ensures
        l == (CgImageLayout {
            width,
            height,
            bits_per_component: 8,
            bits_per_pixel: 32,
            bytes_per_row: (4 * width) as usize,
        }),
{
    CgImageLayout { width, height, bits_per_component: 8, bits_per_pixel: 32, bytes_per_row: 4 * width }
}

/// Which of the pasteboard's own types a pasteboard type is.
#[derive(Clone, Copy, Debug, PartialEq, Eq, Structural)]
pub enum PasteboardTypeKind {
    /// The plain-text type.
    PlainText,
    /// The HTML type.
    Html,
    /// The PNG type.
    Png,
    /// Any other type.
    Other,
}

/// The media type of a pasteboard type. `pb_type` is the type itself, `converted` what the
/// system's conversion of it to a MIME type gave, empty where it gave none; a type that is
/// itself a MIME type converts to nothing and stands for itself.
pub fn pasteboard_type_to_mime(kind: PasteboardTypeKind, pb_type: &str, converted: &str) -> (mime: String)
    ensures
        kind == PasteboardTypeKind::PlainText ==> mime@ == "text/plain"@,
        kind == PasteboardTypeKind::Html ==> mime@ == "text/html"@,
        kind == PasteboardTypeKind::Png ==> mime@ == "image/png"@,
        kind == PasteboardTypeKind::Other && converted@.len() == 0 ==> mime@ == pb_type@,
        kind == PasteboardTypeKind::Other && converted@.len() != 0 ==> mime@ == converted@,
{
    match kind {
        PasteboardTypeKind::PlainText => String::from_str("text/plain"),
        PasteboardTypeKind::Html => String::from_str("text/html"),
        PasteboardTypeKind::Png => String::from_str("image/png"),
        PasteboardTypeKind::Other => {
            if converted.is_empty() {
                String::from_str(pb_type)
            } else {
                String::from_str(converted)
            }
        },
    }
}

} // verus!
