//! Clipboard selections on Linux, and the rules of the Wayland backends.
use vstd::prelude::*;
use crate::error::{Error, is_unknown_with};
use crate::bitmap::{decoded_as, image_from_decoded};
use crate::codec::{load_guessed, spec_load_guessed};
use crate::image_data::ImageData;

verus! {

/// Clipboard selection
#[derive(Clone, Copy, Debug, PartialEq, Eq, Structural)]
pub enum LinuxClipboardKind {
    /// Typically used selection for explicit cut/copy/paste actions (ie. windows/macos like
    /// clipboard behavior)
    Clipboard,
    /// Typically used for mouse selections and/or currently selected text. Accessible via middle
    /// mouse click.
    ///
    /// *On Wayland, this may not be available for all systems (requires a compositor supporting
    /// version 2 or above) and operations using this will return an error if unsupported.*
    Primary,
    /// The secondary clipboard is rarely used but theoretically available on X11.
    ///
    /// *On Wayland, this is not be available and operations using this variant will return an
    /// error.*
    Secondary,
}

/// The selections of the Wayland data-control protocol.
#[derive(Clone, Copy, Debug, PartialEq, Eq, Structural)]
pub enum WaylandSelection {
    /// The regular clipboard.
    Regular,
    /// The primary selection.
    Primary,
}

/// Reads the image that a Wayland paste delivered for the PNG MIME type. The data is decoded in
/// whatever format it turns out to be, not only as PNG.
pub fn wayland_image(data: &[u8]) -> (r: Result<ImageData, Error>)
    ensures
        decoded_as(r, spec_load_guessed(data@)),
{
    let decoded = load_guessed(data);
    image_from_decoded(decoded)
}

/// The Wayland selection that stands for a clipboard kind; Wayland has no secondary selection.
pub fn wayland_selection(kind: LinuxClipboardKind) -> (r: Result<WaylandSelection, Error>)
    ensures
        kind == LinuxClipboardKind::Clipboard ==> r == Ok::<WaylandSelection, Error>(WaylandSelection::Regular),
        kind == LinuxClipboardKind::Primary ==> r == Ok::<WaylandSelection, Error>(WaylandSelection::Primary),
        kind == LinuxClipboardKind::Secondary ==> r == Err::<WaylandSelection, Error>(Error::ClipboardNotSupported),
{
    match kind {
        LinuxClipboardKind::Clipboard => Ok(WaylandSelection::Regular),
        LinuxClipboardKind::Primary => Ok(WaylandSelection::Primary),
        LinuxClipboardKind::Secondary => Err(Error::ClipboardNotSupported),
    }
}

/// The error that a failed Wayland copy or paste stands for: an unsupported primary selection
/// is `ClipboardNotSupported`, anything else is `Unknown` with the failure's text.
pub fn wayland_error(primary_selection_unsupported: bool, description: &str) -> (e: Error)
    ensures
        primary_selection_unsupported ==> e == Error::ClipboardNotSupported,
        !primary_selection_unsupported ==> is_unknown_with(e, description@),
{
    if primary_selection_unsupported {
        Error::ClipboardNotSupported
    } else {
        Error::unknown(description)
    }
}

/// The error of a paste that found nothing: an empty clipboard or no matching format is
/// `ContentNotAvailable`, anything else is decided as `wayland_error` does.
pub fn wayland_paste_error(
    clipboard_empty_or_no_mime: bool,
    primary_selection_unsupported: bool,
    description: &str,
) -> (e: Error)
    ensures
        clipboard_empty_or_no_mime ==> e == Error::ContentNotAvailable,
        !clipboard_empty_or_no_mime && primary_selection_unsupported ==> e
            == Error::ClipboardNotSupported,
        !clipboard_empty_or_no_mime && !primary_selection_unsupported ==> is_unknown_with(
            e,
            description@,
        ),
{
    if clipboard_empty_or_no_mime {
        Error::ContentNotAvailable
    } else {
        wayland_error(primary_selection_unsupported, description)
    }
}

/// The selection that the core Wayland protocol (as the smithay clipboard speaks it) serves:
/// the regular clipboard only.
pub fn core_wayland_selection(kind: LinuxClipboardKind) -> (r: Result<(), Error>)
    ensures
        kind == LinuxClipboardKind::Clipboard ==> r is Ok,
        kind != LinuxClipboardKind::Clipboard ==> r == Err::<(), Error>(Error::ClipboardNotSupported),
{
    match kind {
        LinuxClipboardKind::Clipboard => Ok(()),
        _ => Err(Error::ClipboardNotSupported),
    }
}

/// Whether the application's Wayland display has been registered for the clipboard of the core
/// Wayland protocol. It is registered at most once and stays registered.
pub struct DisplayRegistry {
    pub registered: bool,
}

/// What one registration does: whether it is accepted, and whether a display is registered
/// after it. A null display, and any display once one is registered, are refused.
pub open spec fn spec_register(registered: bool, display_is_null: bool) -> (bool, bool) {
    if display_is_null || registered {
        (false, registered)
    } else {
        (true, true)
    }
}

/// Whether a display is registered after the registrations `nulls` (each telling whether its
/// display was null), one after the other, starting from `registered`.
pub open spec fn registered_after(registered: bool, nulls: Seq<bool>) -> bool
    decreases nulls.len(),
{
    if nulls.len() == 0 {
        registered
    } else {
        spec_register(registered_after(registered, nulls.drop_last()), nulls.last()).1
    }
}

impl DisplayRegistry {
    /// Nothing registered yet.
    pub fn new() -> (r: DisplayRegistry)
        ensures
            !r.registered,
    {
        DisplayRegistry { registered: false }
    }

    /// Registers a display. A null display, and any display once one is registered, are
    /// refused as `ClipboardNotSupported` and change nothing.
    pub fn register(&mut self, display_is_null: bool) -> (r: Result<(), Error>)
        ensures
            (r is Ok, final(self).registered) == spec_register(old(self).registered, display_is_null),
            r is Err ==> r == Err::<(), Error>(Error::ClipboardNotSupported),
    {
        if display_is_null {
            return Err(Error::ClipboardNotSupported);
        }
        if self.registered {
            return Err(Error::ClipboardNotSupported);
        }
        self.registered = true;
        Ok(())
    }

    /// Whether the core-protocol clipboard can be used: a display is registered.
    pub fn is_available(&self) -> (a: bool)
        ensures
            a == self.registered,
    {
        self.registered
    }
}

/// Once a display is registered it stays registered, and every later registration is
/// refused, whatever displays they bring.
pub proof fn lemma_registration_stays(nulls: Seq<bool>)
    ensures
        registered_after(true, nulls),
        forall|k: int|
            0 <= k < nulls.len() ==> !spec_register(
                registered_after(true, nulls.subrange(0, k)),
                #[trigger] nulls[k],
            ).0,
    decreases nulls.len(),
{
    if nulls.len() > 0 {
        lemma_registration_stays(nulls.drop_last());
        assert forall|k: int| 0 <= k < nulls.len() implies !spec_register(
            registered_after(true, nulls.subrange(0, k)),
            #[trigger] nulls[k],
        ).0 by {
            if k < nulls.len() - 1 {
                assert(nulls.subrange(0, k) == nulls.drop_last().subrange(0, k));
                assert(nulls[k] == nulls.drop_last()[k]);
            } else {
                assert(nulls.subrange(0, k) == nulls.drop_last());
            }
        }
    }
}

/// How long a write waits for its contents to be replaced.
#[derive(Clone, Copy, Debug, PartialEq, Eq, Structural)]
pub enum WaitConfig {
    /// Return at once.
    NoWait,
    /// Wait until the contents are replaced.
    Forever,
    /// Wait until the contents are replaced or the deadline, in milliseconds since an epoch
    /// of the caller's choice, has passed.
    Until(u64),
}

/// Whether a write that waits for its contents to be replaced should poll once more, given
/// what the last poll read (`None` where it failed) and the current time.
pub fn keep_waiting(wait: WaitConfig, written: &String, current: Option<&String>, now: u64) -> (w: bool)
    ensures
        w == (match wait {
            WaitConfig::NoWait => false,
            WaitConfig::Forever => current matches Some(c) && c@ == written@,
            WaitConfig::Until(deadline) => now < deadline && (current matches Some(c) && c@
                == written@),
        }),
{
    let unchanged = match current {
        Some(c) => *c == *written,
        None => false,
    };
    match wait {
        WaitConfig::NoWait => false,
        WaitConfig::Forever => unchanged,
        WaitConfig::Until(deadline) => now < deadline && unchanged,
    }
}

} // verus!
