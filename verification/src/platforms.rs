//! The small rules of the other platform backends.
use vstd::prelude::*;
use crate::error::{Error, is_unknown_with};

verus! {

/// The first Android SDK level whose clipboard can be cleared.
pub const ANDROID_MIN_SDK: i32 = 28;

/// Whether the Android clipboard is usable at the given SDK level.
pub fn android_supported(sdk: i32) -> (r: Result<(), Error>)
    ensures
        sdk >= ANDROID_MIN_SDK ==> r is Ok,
        sdk < ANDROID_MIN_SDK ==> r == Err::<(), Error>(Error::ClipboardNotSupported),
{
    if sdk >= ANDROID_MIN_SDK {
        Ok(())
    } else {
        Err(Error::ClipboardNotSupported)
    }
}

/// The text of an Android clip: there is none without a primary clip or without items.
pub fn android_clip_available(has_primary_clip: bool, item_count: i32) -> (r: Result<(), Error>)
    ensures
        has_primary_clip && item_count != 0 ==> r is Ok,
        !(has_primary_clip && item_count != 0) ==> r == Err::<(), Error>(Error::ContentNotAvailable),
{
    if !has_primary_clip {
        return Err(Error::ContentNotAvailable);
    }
    if item_count == 0 {
        return Err(Error::ContentNotAvailable);
    }
    Ok(())
}

/// The text that the browser clipboard yields: the text of the last paste or copy seen, if
/// any.
pub fn web_text(last: Option<String>) -> (r: Result<String, Error>)
    ensures
        match last {
            Some(s) => r == Ok::<String, Error>(s),
            None => r == Err::<String, Error>(Error::ContentNotAvailable),
        },
{
    match last {
        Some(s) => Ok(s),
        None => Err(Error::ContentNotAvailable),
    }
}

/// The plain-text alternative of HTML: the given one, or empty text.
pub fn alt_text(alt: Option<&str>) -> (t: String)
    ensures
        match alt {
            Some(a) => t@ == a@,
            None => t@ == Seq::<char>::empty(),
        },
{
    match alt {
        Some(a) => String::from_str(a),
        None => String::new(),
    }
}

/// The Windows clipboard, which is opened anew for each operation.
pub struct WindowsClipboardContext;

impl WindowsClipboardContext {
    /// Creates the context; this always succeeds.
    pub fn new() -> (r: Result<Self, Error>)
        ensures
            r is Ok,
    {
        Ok(WindowsClipboardContext)
    }
}

/// The Wayland clipboard of the data-control protocol.
pub struct WaylandDataControlClipboardContext {}

impl WaylandDataControlClipboardContext {
    /// Creates the context, given the failure of the probe that checks whether the compositor
    /// can be reached (`None` where it could).
    pub fn new(probe_failure: Option<&str>) -> (r: Result<Self, Error>)
        ensures
            probe_failure is None ==> r is Ok,
            probe_failure matches Some(d) ==> (r matches Err(e) && is_unknown_with(e, d@)),
    {
        match probe_failure {
            None => Ok(WaylandDataControlClipboardContext {}),
            Some(d) => Err(Error::unknown(d)),
        }
    }
}

} // verus!
