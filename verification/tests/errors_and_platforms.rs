//! Errors, the dummy clipboard, options and the small platform rules.
use arboard::dummy::{unsupported_clipboard, DummyClipboard};
use arboard::linux::{
    core_wayland_selection, keep_waiting, DisplayRegistry, wayland_error, wayland_paste_error, wayland_selection,
    LinuxClipboardKind, WaitConfig, WaylandSelection,
};
use arboard::options::{AppleSetOptions, LinuxSetOptions, SetExtApple, SetExtWindows, WindowsSetOptions};
use arboard::platforms::{
    alt_text, android_clip_available, android_supported,
    web_text, WaylandDataControlClipboardContext, WindowsClipboardContext,
};
use arboard::{err, into_unknown, Error, ImageData, MessageError};

#[test]
fn error_messages() {
    assert_eq!(
        Error::ContentNotAvailable.message(),
        "The clipboard contents were not available in the requested format or the clipboard is empty."
    );
    assert_eq!(
        Error::ClipboardOccupied.debug_message(),
        "ClipboardOccupied - \"The native clipboard is not accessible due to being held by an other party.\""
    );
    let e = Error::unknown("boom");
    assert_eq!(e.message(), "Unknown error while interacting with the clipboard: boom");
    assert_eq!(e.kind_name(), "Unknown { .. }");
    assert_eq!(
        e.debug_message(),
        "Unknown { .. } - \"Unknown error while interacting with the clipboard: boom\""
    );
    assert_eq!(Error::ConversionFailure.kind_name(), "ConversionFailure");
    assert_eq!(Error::ClipboardNotSupported.kind_name(), "ClipboardNotSupported");
}

#[test]
fn foreign_errors_become_unknown() {
    assert_eq!(into_unknown("no display"), Error::Unknown { description: "no display".into() });
    assert_eq!(err("bad"), MessageError { text: "bad".into() });
    assert_eq!(err("bad").message(), "bad");
}

#[test]
fn dummy_clipboard_holds_nothing() {
    let mut c = DummyClipboard::new().unwrap();
    assert!(matches!(c.get_text(), Err(Error::ContentNotAvailable)));
    assert_eq!(c.set_text("x".into()), Ok(()));
    assert!(matches!(c.get_image(), Err(Error::ContentNotAvailable)));
    let img = ImageData { width: 0, height: 0, bytes: vec![] };
    assert_eq!(c.set_image(img), Ok(()));
    assert!(matches!(unsupported_clipboard(), Err(Error::ClipboardNotSupported)));
}

#[test]
fn set_options_are_chosen_by_the_extensions() {
    let w = WindowsSetOptions::new().exclude_from_cloud();
    assert!(w.exclude_from_cloud && !w.exclude_from_history && !w.exclude_from_monitoring);
    let w = w.exclude_from_history().exclude_from_monitoring();
    assert!(w.exclude_from_cloud && w.exclude_from_history && w.exclude_from_monitoring);
    let a = AppleSetOptions::new();
    assert!(!a.exclude_from_history);
    assert!(a.exclude_from_history().exclude_from_history);
    let l = LinuxSetOptions::new();
    assert!(!l.wait);
    assert!(l.wait().wait);
}

#[test]
fn wayland_has_no_secondary_selection() {
    assert_eq!(wayland_selection(LinuxClipboardKind::Clipboard), Ok(WaylandSelection::Regular));
    assert_eq!(wayland_selection(LinuxClipboardKind::Primary), Ok(WaylandSelection::Primary));
    assert_eq!(wayland_selection(LinuxClipboardKind::Secondary), Err(Error::ClipboardNotSupported));
    assert!(core_wayland_selection(LinuxClipboardKind::Clipboard).is_ok());
    assert_eq!(core_wayland_selection(LinuxClipboardKind::Primary), Err(Error::ClipboardNotSupported));
}

#[test]
fn wayland_errors() {
    assert_eq!(wayland_error(true, "x"), Error::ClipboardNotSupported);
    assert_eq!(wayland_error(false, "x"), Error::Unknown { description: "x".into() });
    assert_eq!(wayland_paste_error(true, true, "x"), Error::ContentNotAvailable);
    assert_eq!(wayland_paste_error(false, true, "x"), Error::ClipboardNotSupported);
    assert_eq!(wayland_paste_error(false, false, "y"), Error::Unknown { description: "y".into() });
}

#[test]
fn waiting_stops_when_the_contents_change() {
    let mine = String::from("mine");
    let other = String::from("other");
    assert!(!keep_waiting(WaitConfig::NoWait, &mine, Some(&mine), 0));
    assert!(keep_waiting(WaitConfig::Forever, &mine, Some(&mine), 0));
    assert!(!keep_waiting(WaitConfig::Forever, &mine, Some(&other), 0));
    assert!(!keep_waiting(WaitConfig::Forever, &mine, None, 0));
    assert!(keep_waiting(WaitConfig::Until(10), &mine, Some(&mine), 9));
    assert!(!keep_waiting(WaitConfig::Until(10), &mine, Some(&mine), 10));
}

#[test]
fn android_and_web_rules() {
    assert!(android_supported(28).is_ok());
    assert_eq!(android_supported(27), Err(Error::ClipboardNotSupported));
    assert!(android_clip_available(true, 1).is_ok());
    assert_eq!(android_clip_available(false, 1), Err(Error::ContentNotAvailable));
    assert_eq!(android_clip_available(true, 0), Err(Error::ContentNotAvailable));
    assert_eq!(web_text(Some("t".into())), Ok("t".to_string()));
    assert_eq!(web_text(None), Err(Error::ContentNotAvailable));
    assert_eq!(alt_text(Some("alt")), "alt");
    assert_eq!(alt_text(None), "");
}

#[test]
fn contexts() {
    assert!(WindowsClipboardContext::new().is_ok());
    assert!(WaylandDataControlClipboardContext::new(None).is_ok());
    assert!(matches!(
        WaylandDataControlClipboardContext::new(Some("no compositor")),
        Err(Error::Unknown { .. })
    ));
}

#[test]
fn wayland_display_is_registered_once() {
    let mut reg = DisplayRegistry::new();
    assert!(!reg.is_available());
    assert_eq!(reg.register(true), Err(Error::ClipboardNotSupported));
    assert!(!reg.is_available());
    assert_eq!(reg.register(false), Ok(()));
    assert!(reg.is_available());
    assert_eq!(reg.register(false), Err(Error::ClipboardNotSupported));
    assert!(reg.is_available());
}
