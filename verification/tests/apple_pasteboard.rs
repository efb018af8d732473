//! The rules of the macOS pasteboard backend.
use arboard::apple::{
    apple_concealed_type, apple_html_document, binary_contents, cg_image_layout, context_pasteboard_result,
    context_read_text, context_write_result, pasteboard_clipboard_result,
    file_list_of_urls, first_item_text, first_read_text, general_pasteboard_result,
    image_from_tiff, image_of_read_objects, image_write_result, pasteboard_type_to_mime,
    text_write_result, ClipboardContent, PasteboardObject, PasteboardTypeKind,
};
use arboard::Error;

fn unknown_text(e: Error) -> String {
    match e {
        Error::Unknown { description } => description,
        other => panic!("expected an unknown error, got {:?}", other),
    }
}

fn tiff_of(width: u32, height: u32, rgba: &[u8]) -> Vec<u8> {
    let mut out = std::io::Cursor::new(Vec::new());
    image::codecs::tiff::TiffEncoder::new(&mut out)
        .encode(rgba, width, height, image::ExtendedColorType::Rgba8)
        .unwrap();
    out.into_inner()
}

#[test]
fn apple_html_is_declared_utf8() {
    assert_eq!(
        apple_html_document("<b>x</b>"),
        "<html><head><meta http-equiv=\"content-type\" content=\"text/html; charset=utf-8\"></head><body><b>x</b></body></html>"
    );
    assert_eq!(apple_concealed_type(), "org.nspasteboard.ConcealedType");
}

#[test]
fn binary_contents_follow_the_first_object() {
    let e = binary_contents(None).unwrap_err();
    assert_eq!(e.message(), "pasteboard#readObjectsForClasses:options: returned null");
    assert!(matches!(binary_contents(Some(vec![])), Ok(None)));
    match binary_contents(Some(vec![PasteboardObject::Text("hi".into()), PasteboardObject::Other])) {
        Ok(Some(ClipboardContent::Utf8(s))) => assert_eq!(s, "hi"),
        other => panic!("unexpected {:?}", other),
    }
    match binary_contents(Some(vec![PasteboardObject::Image(vec![1, 2, 3])])) {
        Ok(Some(ClipboardContent::Tiff(b))) => assert_eq!(b, vec![1, 2, 3]),
        other => panic!("unexpected {:?}", other),
    }
    match binary_contents(Some(vec![PasteboardObject::Url("file:///tmp/a".into())])) {
        Ok(Some(ClipboardContent::Utf8(s))) => assert_eq!(s, "file:///tmp/a"),
        other => panic!("unexpected {:?}", other),
    }
    let e = binary_contents(Some(vec![PasteboardObject::Other, PasteboardObject::Text("x".into())]))
        .unwrap_err();
    assert_eq!(e.message(), "pasteboard#readObjectsForClasses:options: returned unknown class");
}

#[test]
fn item_text_is_the_first_present() {
    assert_eq!(unknown_text(first_item_text(None).unwrap_err()), "NSPasteboard#pasteboardItems errored");
    assert_eq!(first_item_text(Some(vec![])), Err(Error::ContentNotAvailable));
    assert_eq!(first_item_text(Some(vec![None, None])), Err(Error::ContentNotAvailable));
    assert_eq!(
        first_item_text(Some(vec![None, Some("b".into()), Some("c".into())])),
        Ok("b".to_string())
    );
}

#[test]
fn read_text_takes_the_first_string() {
    assert_eq!(first_read_text(None), Err(Error::ContentNotAvailable));
    assert_eq!(first_read_text(Some(vec![])), Err(Error::ContentNotAvailable));
    assert_eq!(first_read_text(Some(vec!["a".into(), "b".into()])), Ok("a".to_string()));
    assert_eq!(
        context_read_text(None).unwrap_err().message(),
        "pasteboard#readObjectsForClasses:options: returned null"
    );
    assert_eq!(
        context_read_text(Some(vec![])).unwrap_err().message(),
        "pasteboard#readObjectsForClasses:options: returned empty"
    );
    assert_eq!(context_read_text(Some(vec!["z".into()])), Ok("z".to_string()));
}

#[test]
fn tiff_images_are_decoded() {
    let pixels = vec![255, 0, 0, 255, 0, 255, 0, 128, 0, 0, 255, 0, 9, 9, 9, 9, 1, 2, 3, 4, 5, 6, 7, 8];
    let tiff = tiff_of(3, 2, &pixels);
    let img = image_from_tiff(Some(tiff.as_slice())).unwrap();
    assert_eq!((img.width, img.height), (3, 2));
    assert_eq!(img.bytes, pixels);
    assert!(matches!(image_from_tiff(None), Err(Error::ContentNotAvailable)));
    assert!(matches!(image_from_tiff(Some(&[1u8, 2, 3][..])), Err(Error::ConversionFailure)));

    let img = image_of_read_objects(Some(vec![PasteboardObject::Image(tiff)])).unwrap();
    assert_eq!((img.width, img.height), (3, 2));
    assert_eq!(img.bytes, pixels);
    assert!(matches!(image_of_read_objects(None), Err(Error::ContentNotAvailable)));
    assert!(matches!(image_of_read_objects(Some(vec![])), Err(Error::ContentNotAvailable)));
    assert!(matches!(image_of_read_objects(Some(vec![PasteboardObject::Text("x".into())])), Err(Error::ContentNotAvailable)));
    assert!(matches!(image_of_read_objects(Some(vec![PasteboardObject::Image(vec![0, 1])])), Err(Error::ConversionFailure)));
}

#[test]
fn file_lists_keep_the_paths_in_order() {
    assert_eq!(file_list_of_urls(None), Err(Error::ContentNotAvailable));
    assert_eq!(file_list_of_urls(Some(vec![])), Err(Error::ContentNotAvailable));
    assert_eq!(file_list_of_urls(Some(vec![None, None])), Err(Error::ContentNotAvailable));
    assert_eq!(
        file_list_of_urls(Some(vec![Some("/a".into()), None, Some("/b c".into())])),
        Ok(vec!["/a".to_string(), "/b c".to_string()])
    );
}

#[test]
fn writes_report_their_failures() {
    assert_eq!(text_write_result(true), Ok(()));
    assert_eq!(unknown_text(text_write_result(false).unwrap_err()), "NSPasteboard#writeObjects: returned false");
    assert_eq!(image_write_result(true), Ok(()));
    assert_eq!(
        unknown_text(image_write_result(false).unwrap_err()),
        "Failed to write the image to the pasteboard (`writeObjects` returned NO)."
    );
    assert_eq!(general_pasteboard_result(true), Ok(()));
    assert_eq!(general_pasteboard_result(false), Err(Error::ClipboardNotSupported));
}

#[test]
fn image_layout_uses_four_bytes_per_pixel() {
    let l = cg_image_layout(7, 3);
    assert_eq!((l.width, l.height), (7, 3));
    assert_eq!((l.bits_per_component, l.bits_per_pixel, l.bytes_per_row), (8, 32, 28));
}

#[test]
fn pasteboard_types_map_to_media_types() {
    assert_eq!(pasteboard_type_to_mime(PasteboardTypeKind::PlainText, "public.utf8-plain-text", ""), "text/plain");
    assert_eq!(pasteboard_type_to_mime(PasteboardTypeKind::Html, "public.html", ""), "text/html");
    assert_eq!(pasteboard_type_to_mime(PasteboardTypeKind::Png, "public.png", ""), "image/png");
    assert_eq!(pasteboard_type_to_mime(PasteboardTypeKind::Other, "public.jpeg", "image/jpeg"), "image/jpeg");
    assert_eq!(pasteboard_type_to_mime(PasteboardTypeKind::Other, "text/csv", ""), "text/csv");
}

#[test]
fn pasteboard_context_reports_plain_messages() {
    assert_eq!(context_write_result(true), Ok(()));
    assert_eq!(context_write_result(false).unwrap_err().message(), "NSPasteboard#writeObjects: returned false");
    assert_eq!(context_pasteboard_result(true, true), Ok(()));
    assert_eq!(context_pasteboard_result(false, true).unwrap_err().message(), "Class::get(\"NSPasteboard\")");
    assert_eq!(
        context_pasteboard_result(true, false).unwrap_err().message(),
        "NSPasteboard#generalPasteboard returned null"
    );
    assert_eq!(pasteboard_clipboard_result(true, true), Ok(()));
    assert_eq!(unknown_text(pasteboard_clipboard_result(false, false).unwrap_err()), "Class::get(\"NSPasteboard\")");
    assert_eq!(
        unknown_text(pasteboard_clipboard_result(true, false).unwrap_err()),
        "NSPasteboard#generalPasteboard returned null"
    );
}
