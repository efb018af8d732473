//! The Windows clipboard's HTML envelope, text, file lists and retries.
use arboard::html::wrap_html;
use arboard::windows::{
    clipboard_exclusions, dibv5_pixel_start, dropfiles_payload, exclusion_data, fill_step,
    image_source, last_error, open_failure, text_from_wide, truncate_after_nul, ExclusionFormat, FillStep,
    ImageSource, OpenRetry,
};
use arboard::Error;

#[test]
fn html_envelope_for_a_fragment() {
    let html = wrap_html(b"<b>hi</b>");
    let s = String::from_utf8(html.clone()).unwrap();
    assert_eq!(
        s,
        "Version:0.9\r\nStartHTML:0000000105\r\nEndHTML:0000000190\r\nStartFragment:0000000143\r\nEndFragment:0000000152\r\n<html>\r\n<body>\r\n<!--StartFragment-->\r\n<b>hi</b>\r\n<!--EndFragment-->\r\n</body>\r\n</html>"
    );
    assert_eq!(html.len(), 190);
    assert_eq!(&html[143..152], b"<b>hi</b>");
    assert_eq!(&html[105..111], b"<html>");
}

#[test]
fn html_offsets_count_bytes() {
    let frag = "é".as_bytes();
    let html = wrap_html(frag);
    assert_eq!(&html[143..145], frag);
    assert_eq!(html.len(), 183);
}

#[test]
fn text_without_terminator() {
    let buf: Vec<u16> = "hi".encode_utf16().collect();
    assert_eq!(text_from_wide(&buf, 4), Ok("hi".to_string()));
}

#[test]
fn text_with_terminator() {
    let mut buf: Vec<u16> = "hé".encode_utf16().collect();
    buf.push(0);
    assert_eq!(text_from_wide(&buf, 6), Ok("hé".to_string()));
}

#[test]
fn unpaired_surrogate_is_a_conversion_failure() {
    let buf: Vec<u16> = vec![0xd800, 0x61];
    assert_eq!(text_from_wide(&buf, 4), Err(Error::ConversionFailure));
}

#[test]
fn file_list_payload() {
    let paths = vec![vec![0x61u16, 0], vec![0x62u16, 0x63, 0]];
    let p = dropfiles_payload(&paths).unwrap();
    assert_eq!(&p[0..20], &[20, 0, 0, 0, 0, 0, 0, 0, 0, 0, 0, 0, 0, 0, 0, 0, 1, 0, 0, 0]);
    assert_eq!(&p[20..], &[0x61, 0, 0, 0, 0x62, 0, 0x63, 0, 0, 0, 0, 0]);
    assert_eq!(dropfiles_payload(&vec![]), Err(Error::ConversionFailure));
}

#[test]
fn final_path_is_cut_after_its_nul() {
    let mut w = vec![1u16, 2, 0, 3, 0];
    truncate_after_nul(&mut w);
    assert_eq!(w, vec![1, 2, 0]);
    let mut w = vec![1u16, 2];
    truncate_after_nul(&mut w);
    assert_eq!(w, vec![1, 2]);
}

#[test]
fn buffer_growth() {
    assert_eq!(fill_step(512, 0, 5), FillStep::Failed);
    assert_eq!(fill_step(512, 0, 0), FillStep::Done(0));
    assert_eq!(fill_step(512, 512, 122), FillStep::Retry(1024));
    assert_eq!(fill_step(512, 700, 0), FillStep::Retry(700));
    assert_eq!(fill_step(512, 30, 0), FillStep::Done(30));
    assert_eq!(fill_step(u32::MAX as usize, u32::MAX, 122), FillStep::Retry(u32::MAX as usize));
}

#[test]
fn exclusions_in_order() {
    assert_eq!(
        clipboard_exclusions(true, true, true),
        vec![ExclusionFormat::Monitoring, ExclusionFormat::Cloud, ExclusionFormat::History]
    );
    assert_eq!(clipboard_exclusions(false, true, false), vec![ExclusionFormat::Cloud]);
    assert!(clipboard_exclusions(false, false, false).is_empty());
    assert_eq!(ExclusionFormat::Cloud.name(), "CanUploadToCloudClipboard");
    assert_eq!(ExclusionFormat::History.name(), "CanIncludeInClipboardHistory");
    assert_eq!(ExclusionFormat::Monitoring.name(), "ExcludeClipboardContentFromMonitorProcessing");
    assert_eq!(
        ExclusionFormat::History.failure(),
        Error::Unknown { description: "Failed to exclude data from clipboard history".into() }
    );
    assert_eq!(exclusion_data(), vec![0, 0, 0, 0]);
}

#[test]
fn opening_is_retried_five_times() {
    let mut r = OpenRetry::new();
    let mut retries = 0;
    while r.on_failure() {
        retries += 1;
    }
    assert_eq!(retries, 5);
    assert_eq!(open_failure(), Error::ClipboardOccupied);
}

#[test]
fn png_is_preferred_for_images() {
    assert_eq!(image_source(true, true), Ok(ImageSource::Png));
    assert_eq!(image_source(false, true), Ok(ImageSource::DibV5));
    assert_eq!(image_source(false, false), Err(Error::ContentNotAvailable));
}

#[test]
fn pixels_follow_an_embedded_profile() {
    let mut h = vec![0u8; 124];
    assert_eq!(dibv5_pixel_start(&h), 124);
    h[56..60].copy_from_slice(&0x4D42_4544u32.to_le_bytes());
    h[112] = 200;
    h[116] = 16;
    assert_eq!(dibv5_pixel_start(&h), 216);
}

#[test]
fn failed_system_calls_name_the_os_error() {
    let e = last_error("Could not allocate global memory object", "Access is denied. (os error 5)");
    assert_eq!(
        e,
        Error::Unknown {
            description: "Could not allocate global memory object: Access is denied. (os error 5)"
                .to_string()
        }
    );
}

#[test]
fn surrogate_pairs_decode_to_one_character() {
    let mut buf: Vec<u16> = "a🐔b".encode_utf16().collect();
    assert_eq!(buf, vec![0x61, 0xd83d, 0xdc14, 0x62]);
    buf.push(0);
    assert_eq!(text_from_wide(&buf, 10), Ok("a🐔b".to_string()));
    let lone_low: Vec<u16> = vec![0x61, 0xdc14];
    assert_eq!(text_from_wide(&lone_low, 4), Err(Error::ConversionFailure));
}
