//! The X11 selection bookkeeping.
use arboard::linux::LinuxClipboardKind;
use arboard::x11::{
    ReadDeadline, LONG_TIMEOUT_MS, SHORT_TIMEOUT_MS,
    check_server_running, decode_text, find_owned_data, handover_needed, handover_outcome,
    html_data, png_data, read_owned, reply_property, selection_reply, selection_targets, text_data,
    Atoms, ClipboardData, FirstReply, HandoverProgress, ManagerHandoverState, NotifyAction,
    SelectionRead, SelectionReply,
};
use arboard::x11_legacy::{reply_type_for, selection_or_clipboard, should_save_targets, CommonAtoms, OwnedContents, OwnerReply, ReplyBuffer};
use arboard::{Error, ImageData};

fn atoms() -> Atoms {
    Atoms {
        clipboard: 1,
        primary: 2,
        secondary: 3,
        clipboard_manager: 4,
        save_targets: 5,
        targets: 6,
        atom: 7,
        incr: 8,
        utf8_string: 9,
        utf8_mime_0: 10,
        utf8_mime_1: 11,
        string: 12,
        text: 13,
        text_mime_unknown: 14,
        html: 15,
        png_mime: 16,
        arboard_clipboard: 17,
    }
}

#[test]
fn selections_and_their_atoms() {
    let a = atoms();
    for kind in [LinuxClipboardKind::Clipboard, LinuxClipboardKind::Primary, LinuxClipboardKind::Secondary] {
        assert_eq!(a.kind_of(a.atom_of(kind)), Some(kind));
    }
    assert_eq!(a.kind_of(99), None);
    assert_eq!(a.text_formats(), vec![9, 10, 11, 12, 13, 14]);
}

#[test]
fn owner_reads_the_first_wanted_format_it_holds() {
    let a = atoms();
    let data = vec![
        ClipboardData { bytes: b"<p>".to_vec(), format: a.html },
        ClipboardData { bytes: b"alt".to_vec(), format: a.utf8_string },
    ];
    assert_eq!(find_owned_data(&data, &a.text_formats()), Some(1));
    assert_eq!(find_owned_data(&data, &vec![a.png_mime]), None);
    let got = read_owned(&Some(data), &a.text_formats()).unwrap();
    assert_eq!(got.bytes, b"alt".to_vec());
    assert!(matches!(read_owned(&None, &a.text_formats()), Err(Error::ContentNotAvailable)));
    let data = vec![
        ClipboardData { bytes: b"seven".to_vec(), format: 7 },
        ClipboardData { bytes: b"five".to_vec(), format: 5 },
        ClipboardData { bytes: b"five again".to_vec(), format: 5 },
    ];
    assert_eq!(find_owned_data(&data, &vec![5, 7]), Some(1));
    let got = read_owned(&Some(data), &vec![5, 7]).unwrap();
    assert_eq!((got.format, got.bytes), (5, b"five".to_vec()));
}

#[test]
fn targets_list_utf8_aliases() {
    let a = atoms();
    let data = Some(vec![
        ClipboardData { bytes: vec![], format: a.utf8_string },
        ClipboardData { bytes: vec![], format: a.html },
    ]);
    assert_eq!(selection_targets(&a, &data), vec![6, 5, 9, 10, 11, 15]);
    assert_eq!(selection_targets(&a, &None), vec![6, 5]);
}

#[test]
fn requests_are_answered_from_the_stored_data() {
    let a = atoms();
    let data = Some(vec![ClipboardData { bytes: b"x".to_vec(), format: a.html }]);
    assert!(matches!(selection_reply(&a, &data, a.targets), SelectionReply::Targets(t) if t == vec![6, 5, 15]));
    assert!(matches!(selection_reply(&a, &data, a.html), SelectionReply::Content(0)));
    assert!(matches!(selection_reply(&a, &data, a.png_mime), SelectionReply::Refused));
    assert!(matches!(selection_reply(&a, &None, a.html), SelectionReply::Refused));
    assert_eq!(reply_property(true, 42), 42);
    assert_eq!(reply_property(false, 42), 0);
}

#[test]
fn text_is_decoded_by_format() {
    let a = atoms();
    let latin = decode_text(&a, ClipboardData { bytes: vec![0x63, 0x61, 0x66, 0xe9], format: a.string }).unwrap();
    assert_eq!(latin, "café");
    let utf8 = decode_text(&a, ClipboardData { bytes: "café".as_bytes().to_vec(), format: a.utf8_string }).unwrap();
    assert_eq!(utf8, "café");
    assert_eq!(
        decode_text(&a, ClipboardData { bytes: vec![0xff, 0xfe], format: a.utf8_string }),
        Err(Error::ConversionFailure)
    );
}

#[test]
fn stored_data_for_writes() {
    let a = atoms();
    let t = text_data(&a, "hé");
    assert_eq!(t.len(), 1);
    assert_eq!(t[0].bytes, "hé".as_bytes().to_vec());
    assert_eq!(t[0].format, a.utf8_string);
    let h = html_data(&a, "<b>", Some("b"));
    assert_eq!(h.len(), 2);
    assert_eq!((h[0].format, h[1].format), (a.utf8_string, a.html));
    assert_eq!(h[1].bytes, b"<b>".to_vec());
    assert_eq!(html_data(&a, "<b>", None).len(), 1);
    let p = png_data(&a, vec![1, 2]);
    assert_eq!((p[0].format, p[0].bytes.clone()), (a.png_mime, vec![1, 2]));
}

#[test]
fn reading_a_whole_reply() {
    let a = atoms();
    let mut r = SelectionRead::new();
    assert_eq!(r.on_selection_notify(&a, a.utf8_string, 0, a.utf8_string, a.clipboard), Err(Error::ContentNotAvailable));
    assert_eq!(r.on_selection_notify(&a, a.utf8_string, 17, a.html, a.clipboard), Err(Error::ContentNotAvailable));
    assert_eq!(r.on_selection_notify(&a, a.utf8_string, 17, a.utf8_string, 99), Ok(NotifyAction::Ignore));
    assert_eq!(r.on_selection_notify(&a, a.utf8_string, 17, a.utf8_string, a.clipboard), Ok(NotifyAction::FetchProperty));
    assert!(matches!(r.on_first_reply(&a, a.utf8_string, a.utf8_string, b"hi".to_vec()), Ok(FirstReply::GotData(v)) if v == b"hi".to_vec()));
    assert!(matches!(
        r.on_first_reply(&a, a.utf8_string, a.html, vec![]),
        Err(Error::Unknown { description }) if description == "incorrect type received from clipboard"
    ));
}

#[test]
fn reading_in_increments() {
    let a = atoms();
    let mut r = SelectionRead::new();
    assert!(!r.wants_increment(&a, a.arboard_clipboard, true));
    assert!(matches!(r.on_first_reply(&a, a.utf8_string, a.incr, vec![]), Ok(FirstReply::IncrStarted)));
    assert!(r.using_incr);
    assert_eq!(r.on_selection_notify(&a, a.utf8_string, 17, a.utf8_string, a.clipboard), Ok(NotifyAction::Ignore));
    assert!(r.wants_increment(&a, a.arboard_clipboard, true));
    assert!(!r.wants_increment(&a, a.arboard_clipboard, false));
    assert!(!r.wants_increment(&a, a.html, true));
    assert!(!r.on_increment(b"ab".to_vec()));
    assert!(!r.on_increment(b"cd".to_vec()));
    assert!(r.on_increment(vec![]));
    assert_eq!(r.incr_data, b"abcd".to_vec());
}

#[test]
fn handover_finishes_in_either_order() {
    let a = atoms();
    let mut p = HandoverProgress::new();
    let s = p.on_request_served(&a, ManagerHandoverState::InProgress, a.targets);
    assert_eq!(s, ManagerHandoverState::InProgress);
    let s = p.on_request_served(&a, s, a.utf8_string);
    assert_eq!(s, ManagerHandoverState::InProgress);
    assert_eq!(p.on_manager_notify(s), ManagerHandoverState::Finished);

    let mut p = HandoverProgress::new();
    let s = p.on_manager_notify(ManagerHandoverState::InProgress);
    assert_eq!(s, ManagerHandoverState::InProgress);
    assert_eq!(p.on_request_served(&a, s, a.utf8_string), ManagerHandoverState::Finished);

    let mut p = HandoverProgress::new();
    assert_eq!(p.on_manager_notify(ManagerHandoverState::Idle), ManagerHandoverState::Idle);
    assert!(!p.notified);
}

#[test]
fn handover_outcomes() {
    assert!(handover_outcome(ManagerHandoverState::Finished, false).is_ok());
    assert!(handover_outcome(ManagerHandoverState::InProgress, true).is_ok());
    assert!(matches!(handover_outcome(ManagerHandoverState::InProgress, false), Err(Error::Unknown { .. })));
    assert!(handover_needed(5, true, true));
    assert!(!handover_needed(0, true, true));
    assert!(!handover_needed(5, false, true));
    assert!(check_server_running(false).is_ok());
    assert!(matches!(check_server_running(true), Err(Error::Unknown { .. })));
}

fn common() -> CommonAtoms {
    CommonAtoms {
        atom: 4,
        incr: 56,
        targets: 50,
        clipboard: 60,
        mime_image_png: 70,
        atom_pair: 19,
        save_targets: 51,
        multiple: 52,
        clipboard_manager: 61,
    }
}

#[test]
fn owner_serves_text_under_every_text_atom() {
    let a = common();
    let mut c = OwnedContents::new();
    assert!(c.is_empty());
    assert!(matches!(c.set_text(&vec![], b"x".to_vec()), Err(Error::Unknown { .. })));
    c.set_text(&vec![90, 80, 85], b"hello".to_vec()).unwrap();
    assert!(!c.is_empty());
    assert_eq!(c.text_from_owner(&vec![1, 85, 90]), Ok("hello".to_string()));
    assert_eq!(c.targets(&a), vec![50, 51, 52, 80, 85, 90]);
    assert!(matches!(c.reply_to(&a, 80), OwnerReply::Content(v) if v == b"hello".to_vec()));
    assert!(matches!(c.reply_to(&a, 81), OwnerReply::Unsupported));
    assert!(matches!(c.reply_to(&a, a.save_targets), OwnerReply::Nothing));
    assert!(matches!(c.reply_to(&a, a.multiple), OwnerReply::Multiple));
    let replies = c.serve_multiple(&a, &vec![80, 100, 81, 101, 99]);
    assert_eq!(replies.len(), 2);
    assert_eq!(replies[0], (100, Some(b"hello".to_vec())));
    assert_eq!(replies[1], (101, None));
    c.clear_data();
    assert!(c.is_empty());
    assert_eq!(c.text_from_owner(&vec![80]), Err(Error::ContentNotAvailable));
}

#[test]
fn owner_encodes_its_image_on_demand() {
    let a = common();
    let mut c = OwnedContents::new();
    assert!(matches!(c.image_from_owner(), Err(Error::ContentNotAvailable)));
    let img = ImageData { width: 1, height: 1, bytes: vec![1, 2, 3, 4] };
    c.set_image(a.mime_image_png, img);
    let own = c.image_from_owner().unwrap();
    assert_eq!(own.bytes, vec![1, 2, 3, 4]);
    let png = match c.reply_to(&a, a.mime_image_png) {
        OwnerReply::Content(v) => v,
        _ => panic!("expected the png"),
    };
    let back = arboard::bitmap::read_png(&png).unwrap();
    assert_eq!(back.bytes, vec![1, 2, 3, 4]);
    assert!(matches!(c.reply_to(&a, a.mime_image_png), OwnerReply::Content(v) if v == png));
    assert_eq!(c.text_from_owner(&vec![a.mime_image_png]), Err(Error::ConversionFailure));
}

#[test]
fn incremental_reply_buffer() {
    let mut b = ReplyBuffer::new();
    b.copy_chunk(b"abc");
    assert_eq!(b.data, Some(b"abc".to_vec()));
    assert_eq!(b.offset, 3);
    b.start_incremental(4);
    b.copy_chunk(b"xy");
    b.copy_chunk(b"zzz");
    assert_eq!(b.data, Some(b"xyzzz".to_vec()));
    assert_eq!(b.take_data(), Some(b"xyzzz".to_vec()));
    assert_eq!(b.data, None);
    b.start_single();
    assert_eq!(b.offset, 0);
    let a = common();
    assert_eq!(reply_type_for(&a, a.targets), a.atom);
    assert_eq!(reply_type_for(&a, 99), 99);
    assert_eq!(selection_or_clipboard(&a, 0), a.clipboard);
    assert_eq!(selection_or_clipboard(&a, 5), 5);
    assert!(should_save_targets(true, 3, 3));
    assert!(!should_save_targets(true, 0, 0));
    assert!(!should_save_targets(false, 3, 3));
}

#[test]
fn owned_text_and_html_read_back() {
    let a = atoms();
    let stored = Some(text_data(&a, "Some utf8: 🤓 ∑φ(n)<ε 🐔"));
    let got = read_owned(&stored, &a.text_formats()).unwrap();
    assert_eq!(decode_text(&a, got), Ok("Some utf8: 🤓 ∑φ(n)<ε 🐔".to_string()));

    let stored = Some(html_data(&a, "<b>bold</b>", Some("bold")));
    let html = read_owned(&stored, &vec![a.html]).unwrap();
    assert_eq!(decode_text(&a, html), Ok("<b>bold</b>".to_string()));
    let alt = read_owned(&stored, &a.text_formats()).unwrap();
    assert_eq!(decode_text(&a, alt), Ok("bold".to_string()));
}

#[test]
fn setting_one_kind_replaces_the_other() {
    let a = atoms();
    let text = Some(text_data(&a, "clipboard test"));
    assert!(matches!(read_owned(&text, &vec![a.png_mime]), Err(Error::ContentNotAvailable)));
    let image = Some(png_data(&a, vec![137, 80, 78, 71]));
    assert!(matches!(read_owned(&image, &a.text_formats()), Err(Error::ContentNotAvailable)));
    let png = read_owned(&image, &vec![a.png_mime]).unwrap();
    assert_eq!(png.bytes, vec![137, 80, 78, 71]);
    assert_eq!(png.format, a.png_mime);
}

#[test]
fn owner_setting_one_kind_replaces_the_other() {
    let a = common();
    let mut c = OwnedContents::new();
    let img = ImageData { width: 1, height: 1, bytes: vec![1, 2, 3, 4] };
    c.set_image(a.mime_image_png, img);
    c.set_text(&vec![80, 85], b"clipboard test".to_vec()).unwrap();
    assert!(matches!(c.image_from_owner(), Err(Error::ContentNotAvailable)));
    assert!(matches!(c.reply_to(&a, a.mime_image_png), OwnerReply::Unsupported));
    assert_eq!(c.text_from_owner(&vec![80]), Ok("clipboard test".to_string()));

    let img = ImageData { width: 1, height: 1, bytes: vec![1, 2, 3, 4] };
    c.set_image(a.mime_image_png, img);
    assert_eq!(c.text_from_owner(&vec![80, 85]), Err(Error::ContentNotAvailable));
    assert_eq!(c.targets(&a), vec![a.targets, a.save_targets, a.multiple, a.mime_image_png]);
}

#[test]
fn owner_stores_any_image_and_fails_only_on_request() {
    let a = common();
    let mut c = OwnedContents::new();
    let bad = ImageData { width: 2, height: 2, bytes: vec![1, 2, 3] };
    c.set_image(a.mime_image_png, bad);
    assert!(matches!(c.reply_to(&a, a.mime_image_png), OwnerReply::Unsupported));
    let own = c.image_from_owner().unwrap();
    assert_eq!(own.bytes, vec![1, 2, 3]);
}

#[test]
fn read_deadlines() {
    let mut d = ReadDeadline::new(100);
    assert_eq!(d.deadline, 100 + LONG_TIMEOUT_MS);
    assert!(!d.expired(4099));
    assert!(d.expired(4100));
    d.on_incr_started();
    assert_eq!(d.deadline, 4110);
    d.on_chunk(200);
    assert_eq!(d.deadline, 200 + SHORT_TIMEOUT_MS);
    assert!(d.expired(210));
}
