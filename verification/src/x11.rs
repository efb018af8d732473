//! The bookkeeping of the X11 clipboard backend.
//!
//! The X11 clipboard is served by the program that owns a selection. The functions here decide
//! what the owner answers, what a reader makes of the replies it gets, and when the hand-over of
//! the contents to a clipboard manager is finished. Talking to the X server stays outside.
use vstd::prelude::*;
use crate::error::{Error, is_unknown_with};
use crate::linux::LinuxClipboardKind;
use crate::text::{latin1_chars, latin1_text, utf8_text};
use vstd::string::StringSliceAdditionalSpecFns;

verus! {

/// The atoms that the clipboard code uses, as the X server interned them.
#[derive(Clone, Copy, Debug)]
pub struct Atoms {
    pub clipboard: u32,
    pub primary: u32,
    pub secondary: u32,
    pub clipboard_manager: u32,
    pub save_targets: u32,
    pub targets: u32,
    pub atom: u32,
    pub incr: u32,
    pub utf8_string: u32,
    pub utf8_mime_0: u32,
    pub utf8_mime_1: u32,
    pub string: u32,
    pub text: u32,
    pub text_mime_unknown: u32,
    pub html: u32,
    pub png_mime: u32,
    pub arboard_clipboard: u32,
}

/// The atom that stands for no atom.
pub const NONE: u32 = 0;

/// Data in one format, as the owner of a selection serves it.
pub struct ClipboardData {
    pub bytes: Vec<u8>,
    /// The atom representing the format in which the data is encoded.
    pub format: u32,
}

impl ClipboardData {
    /// A copy of the data.
    pub fn duplicate(&self) -> (d: ClipboardData)
        ensures
            d.bytes@ == self.bytes@,
            d.format == self.format,
    {
        let bytes = self.bytes.clone();
        proof {
            assert(bytes@ =~= self.bytes@);
        }
        ClipboardData { bytes, format: self.format }
    }
}

impl Atoms {
    /// Whether the three selection atoms are distinct, as the X server makes interned atoms.
    pub open spec fn selections_distinct(self) -> bool {
        &&& self.clipboard != self.primary
        &&& self.clipboard != self.secondary
        &&& self.primary != self.secondary
    }

    /// The selection atom of a clipboard kind.
    pub open spec fn spec_atom_of(self, kind: LinuxClipboardKind) -> u32 {
        match kind {
            LinuxClipboardKind::Clipboard => self.clipboard,
            LinuxClipboardKind::Primary => self.primary,
            LinuxClipboardKind::Secondary => self.secondary,
        }
    }

    /// The clipboard kind of a selection atom, if it is one of the three selections.
    pub open spec fn spec_kind_of(self, atom: u32) -> Option<LinuxClipboardKind> {
        if atom == self.clipboard {
            Some(LinuxClipboardKind::Clipboard)
        } else if atom == self.primary {
            Some(LinuxClipboardKind::Primary)
        } else if atom == self.secondary {
            Some(LinuxClipboardKind::Secondary)
        } else {
            None
        }
    }

    /// The selection atom of a clipboard kind.
    pub fn atom_of(&self, kind: LinuxClipboardKind) -> (a: u32)
        ensures
            a == self.spec_atom_of(kind),
    {
        match kind {
            LinuxClipboardKind::Clipboard => self.clipboard,
            LinuxClipboardKind::Primary => self.primary,
            LinuxClipboardKind::Secondary => self.secondary,
        }
    }

    /// The clipboard kind of a selection atom, if it is one of the three selections.
    pub fn kind_of(&self, atom: u32) -> (k: Option<LinuxClipboardKind>)
        ensures
            k == self.spec_kind_of(atom),
    {
        if atom == self.clipboard {
            Some(LinuxClipboardKind::Clipboard)
        } else if atom == self.primary {
            Some(LinuxClipboardKind::Primary)
        } else if atom == self.secondary {
            Some(LinuxClipboardKind::Secondary)
        } else {
            None
        }
    }

    /// The text formats, in order of preference: UTF-8 first, then ISO Latin-1, then text of
    /// unknown encoding.
    pub open spec fn spec_text_formats(self) -> Seq<u32> {
        seq![
            self.utf8_string,
            self.utf8_mime_0,
            self.utf8_mime_1,
            self.string,
            self.text,
            self.text_mime_unknown,
        ]
    }

    /// The text formats, in order of preference.
    pub fn text_formats(&self) -> (f: Vec<u32>)
        ensures
            f@ == self.spec_text_formats(),
    {
        let f = vec![
            self.utf8_string,
            self.utf8_mime_0,
            self.utf8_mime_1,
            self.string,
            self.text,
            self.text_mime_unknown,
        ];
        proof {
            assert(f@ =~= self.spec_text_formats());
        }
        f
    }
}

/// A selection atom names the clipboard kind it was made from.
pub proof fn lemma_kind_of_atom_of(atoms: Atoms, kind: LinuxClipboardKind)
    requires
        atoms.selections_distinct(),
    ensures
        atoms.spec_kind_of(atoms.spec_atom_of(kind)) == Some(kind),
{
}

/// Whether some stored item is in format `f`.
pub open spec fn holds_format(list: Seq<ClipboardData>, f: u32) -> bool {
    exists|m: int| 0 <= m < list.len() && (#[trigger] list[m]).format == f
}

/// Whether item `i` of the stored list is what a read in `formats` gets: its format is
/// `formats[j]`, the first of the requested formats that the owner holds, and it is the first
/// stored item in that format.
pub open spec fn is_owned_pick(list: Seq<ClipboardData>, formats: Seq<u32>, j: int, i: int) -> bool {
    &&& 0 <= j < formats.len()
    &&& 0 <= i < list.len()
    &&& list[i].format == formats[j]
    &&& forall|k: int| 0 <= k < j ==> !holds_format(list, #[trigger] formats[k])
    &&& forall|m: int| 0 <= m < i ==> (#[trigger] list[m]).format != formats[j]
}

/// Finds the data that the owner of a selection hands out for a read in `formats`: the first
/// of the requested formats that it holds decides, and of the items in that format the first
/// stored one is taken.
pub fn find_owned_data(data: &Vec<ClipboardData>, formats: &Vec<u32>) -> (r: Option<usize>)
    ensures
        r matches Some(i) ==> exists|j: int| #[trigger] is_owned_pick(data@, formats@, j, i as int),
        r is None ==> forall|k: int|
            0 <= k < formats@.len() ==> !holds_format(data@, #[trigger] formats@[k]),
{
    let mut k: usize = 0;
    while k < formats.len()
        invariant
            k <= formats@.len(),
            forall|k2: int| 0 <= k2 < k ==> !holds_format(data@, #[trigger] formats@[k2]),
        decreases formats@.len() - k,
    {
        match first_in_format(data, formats[k]) {
            Some(m) => {
                proof {
                    assert(is_owned_pick(data@, formats@, k as int, m as int));
                }
                return Some(m);
            },
            None => {},
        }
        k = k + 1;
    }
    None
}

/// The first stored item in format `f`.
fn first_in_format(data: &Vec<ClipboardData>, f: u32) -> (r: Option<usize>)
    ensures
        r matches Some(m) ==> m < data@.len() && data@[m as int].format == f && forall|m2: int|
            0 <= m2 < m ==> (#[trigger] data@[m2]).format != f,
        r is None ==> !holds_format(data@, f),
{
    let mut m: usize = 0;
    while m < data.len()
        invariant
            m <= data@.len(),
            forall|m2: int| 0 <= m2 < m ==> (#[trigger] data@[m2]).format != f,
        decreases data@.len() - m,
    {
        if data[m].format == f {
            return Some(m);
        }
        m = m + 1;
    }
    None
}

/// What the owner of a selection reads from its own data: a copy of the item that
/// `is_owned_pick` describes, or `ContentNotAvailable` where it holds none of `formats` or
/// nothing is stored.
pub fn read_owned(data: &Option<Vec<ClipboardData>>, formats: &Vec<u32>) -> (r: Result<ClipboardData, Error>)
    ensures
        data is None ==> r == Err::<ClipboardData, Error>(Error::ContentNotAvailable),
        data matches Some(list) ==> {
            &&& (forall|k: int| 0 <= k < formats@.len() ==> !holds_format(list@, #[trigger] formats@[k]))
                ==> r == Err::<ClipboardData, Error>(Error::ContentNotAvailable)
            &&& forall|j: int, i: int| #[trigger] is_owned_pick(list@, formats@, j, i) ==> (r matches Ok(d)
                && d.format == list@[i].format && d.bytes@ == list@[i].bytes@)
        },
{
    match data {
        None => Err(Error::ContentNotAvailable),
        Some(list) => match find_owned_data(list, formats) {
            Some(i) => {
                proof {
                    let j0 = choose|j: int| is_owned_pick(list@, formats@, j, i as int);
                    assert forall|j: int, i2: int| #[trigger] is_owned_pick(list@, formats@, j, i2)
                        implies i2 == i by {
                        if j < j0 {
                            assert(list@[i2].format == formats@[j]);
                            assert(holds_format(list@, formats@[j]));
                        } else if j > j0 {
                            assert(list@[i as int].format == formats@[j0]);
                            assert(holds_format(list@, formats@[j0]));
                        }
                        assert(j == j0);
                        if i2 < i {
                            assert(list@[i2].format != formats@[j0]);
                        } else if i2 > i {
                            assert(list@[i as int].format != formats@[j]);
                        }
                    }
                }
                Ok(list[i].duplicate())
            },
            None => {
                proof {
                    assert forall|j: int, i2: int| #[trigger] is_owned_pick(list@, formats@, j, i2)
                        implies false by {
                        assert(list@[i2].format == formats@[j]);
                        assert(holds_format(list@, formats@[j]));
                    }
                }
                Err(Error::ContentNotAvailable)
            },
        },
    }
}

} // verus!

verus! {

/// The targets that one stored item adds to the answer to a `TARGETS` request: its format,
/// and for UTF-8 text also the equivalent MIME types.
pub open spec fn item_targets(atoms: Atoms, format: u32) -> Seq<u32> {
    if format == atoms.utf8_string {
        seq![format, atoms.utf8_mime_0, atoms.utf8_mime_1]
    } else {
        seq![format]
    }
}

/// The targets of all stored items, in the order of the items.
pub open spec fn stored_targets(atoms: Atoms, data: Seq<ClipboardData>) -> Seq<u32>
    decreases data.len(),
{
    if data.len() == 0 {
        Seq::empty()
    } else {
        stored_targets(atoms, data.drop_last()) + item_targets(atoms, data.last().format)
    }
}

/// The answer to a `TARGETS` request: `TARGETS` and `SAVE_TARGETS`, then the targets of the
/// stored items.
pub open spec fn spec_selection_targets(atoms: Atoms, data: Option<Seq<ClipboardData>>) -> Seq<u32> {
    seq![atoms.targets, atoms.save_targets] + match data {
        Some(d) => stored_targets(atoms, d),
        None => Seq::empty(),
    }
}

/// The list of conversion targets that the owner of a selection offers.
pub fn selection_targets(atoms: &Atoms, data: &Option<Vec<ClipboardData>>) -> (t: Vec<u32>)
    ensures
        t@ == spec_selection_targets(
            *atoms,
            match data {
                Some(d) => Some(d@),
                None => None,
            },
        ),
{
    let mut targets: Vec<u32> = Vec::with_capacity(10);
    targets.push(atoms.targets);
    targets.push(atoms.save_targets);
    if let Some(list) = data {
        let mut i: usize = 0;
        while i < list.len()
            invariant
                i <= list@.len(),
                targets@ == seq![atoms.targets, atoms.save_targets] + stored_targets(
                    *atoms,
                    list@.subrange(0, i as int),
                ),
            decreases list@.len() - i,
        {
            let format = list[i].format;
            targets.push(format);
            if format == atoms.utf8_string {
                targets.push(atoms.utf8_mime_0);
                targets.push(atoms.utf8_mime_1);
            }
            proof {
                assert(list@.subrange(0, i + 1).drop_last() =~= list@.subrange(0, i as int));
            }
            i = i + 1;
            proof {
                assert(targets@ =~= seq![atoms.targets, atoms.save_targets] + stored_targets(
                    *atoms,
                    list@.subrange(0, i as int),
                ));
            }
        }
        proof {
            assert(list@.subrange(0, i as int) =~= list@);
        }
    }
    proof {
        if data is None {
            assert(targets@ =~= spec_selection_targets(*atoms, None));
        }
    }
    targets
}

/// How the owner of a selection answers a request for conversion to `target`.
pub enum SelectionReply {
    /// Write the list of offered targets (as atoms) to the requested property.
    Targets(Vec<u32>),
    /// Write the bytes of the stored item at this index, in its format, to the requested
    /// property.
    Content(usize),
    /// Refuse: the requestor is told that the property is `NONE`.
    Refused,
}

/// Decides the answer to a selection request for `target`: the offered targets for
/// `TARGETS`, else the first stored item in that format, else a refusal (also when nothing is
/// stored any more, because ownership was lost meanwhile).
#[verifier::loop_isolation(false)]
pub fn selection_reply(atoms: &Atoms, data: &Option<Vec<ClipboardData>>, target: u32) -> (r: SelectionReply)
    ensures
        target == atoms.targets ==> (r matches SelectionReply::Targets(t) && t@
            == spec_selection_targets(
            *atoms,
            match data {
                Some(d) => Some(d@),
                None => None,
            },
        )),
        target != atoms.targets ==> match data {
            None => r is Refused,
            Some(list) => match r {
                SelectionReply::Content(i) => {
                    &&& 0 <= i < list@.len()
                    &&& list@[i as int].format == target
                    &&& forall|j: int| 0 <= j < i ==> (#[trigger] list@[j]).format != target
                },
                SelectionReply::Refused => forall|j: int|
                    0 <= j < list@.len() ==> (#[trigger] list@[j]).format != target,
                SelectionReply::Targets(_) => false,
            },
        },
{
    if target == atoms.targets {
        return SelectionReply::Targets(selection_targets(atoms, data));
    }
    match data {
        None => SelectionReply::Refused,
        Some(list) => {
            let mut i: usize = 0;
            while i < list.len()
                invariant
                    i <= list@.len(),
                    forall|j: int| 0 <= j < i ==> (#[trigger] list@[j]).format != target,
                decreases list@.len() - i,
            {
                if list[i].format == target {
                    return SelectionReply::Content(i);
                }
                i = i + 1;
            }
            SelectionReply::Refused
        },
    }
}

/// The property named in the notification that ends a selection request: the requested one
/// on success, `NONE` on failure.
pub fn reply_property(success: bool, property: u32) -> (p: u32)
    ensures
        p == if success {
            property
        } else {
            NONE
        },
{
    if success {
        property
    } else {
        NONE
    }
}

/// Decodes the text that a read returned: ISO Latin-1 for the `STRING` format, UTF-8 for all
/// others, where invalid UTF-8 is a conversion failure.
pub fn decode_text(atoms: &Atoms, data: ClipboardData) -> (r: Result<String, Error>)
    ensures
        data.format == atoms.string ==> (r matches Ok(s) && s@ == latin1_chars(data.bytes@)),
        data.format != atoms.string && vstd::utf8::valid_utf8(data.bytes@) ==> (r matches Ok(s)
            && s@ == vstd::utf8::decode_utf8(data.bytes@)),
        data.format != atoms.string && !vstd::utf8::valid_utf8(data.bytes@) ==> r == Err::<
            String,
            Error,
        >(Error::ConversionFailure),
{
    if data.format == atoms.string {
        Ok(latin1_text(data.bytes.as_slice()))
    } else {
        utf8_text(data.bytes)
    }
}

/// The data that setting text stores: the UTF-8 bytes of the text, as `UTF8_STRING`.
pub fn text_data(atoms: &Atoms, text: &str) -> (d: Vec<ClipboardData>)
    ensures
        d@.len() == 1,
        d@[0].bytes@ == text.spec_bytes(),
        d@[0].format == atoms.utf8_string,
{
    let bytes = vstd::slice::slice_to_vec(text.as_bytes());
    vec![ClipboardData { bytes, format: atoms.utf8_string }]
}

/// The data that setting HTML stores: the alternative text as `UTF8_STRING` where there is
/// one, then the HTML as `text/html`.
pub fn html_data(atoms: &Atoms, html: &str, alt: Option<&str>) -> (d: Vec<ClipboardData>)
    ensures
        alt matches Some(a) ==> {
            &&& d@.len() == 2
            &&& d@[0].bytes@ == a.spec_bytes()
            &&& d@[0].format == atoms.utf8_string
            &&& d@[1].bytes@ == html.spec_bytes()
            &&& d@[1].format == atoms.html
        },
        alt is None ==> {
            &&& d@.len() == 1
            &&& d@[0].bytes@ == html.spec_bytes()
            &&& d@[0].format == atoms.html
        },
{
    let mut d: Vec<ClipboardData> = Vec::new();
    if let Some(a) = alt {
        d.push(ClipboardData { bytes: vstd::slice::slice_to_vec(a.as_bytes()), format: atoms.utf8_string });
    }
    d.push(ClipboardData { bytes: vstd::slice::slice_to_vec(html.as_bytes()), format: atoms.html });
    d
}

/// Text that the owner of a selection stored on setting it is what a read of text gives back
/// while it owns the selection: the stored item is the first in a text format, it is not
/// ISO Latin-1 `STRING`, and its bytes decode as UTF-8 to the text.
pub proof fn lemma_owned_text_read_back(atoms: Atoms, text: &str, stored: Seq<ClipboardData>)
    requires
        atoms.utf8_string != atoms.string,
        stored.len() == 1,
        stored[0].bytes@ == text.spec_bytes(),
        stored[0].format == atoms.utf8_string,
    ensures
        is_owned_pick(stored, atoms.spec_text_formats(), 0, 0),
        stored[0].format != atoms.string,
        vstd::utf8::valid_utf8(stored[0].bytes@),
        vstd::utf8::decode_utf8(stored[0].bytes@) == text@,
{
    assert(atoms.spec_text_formats()[0] == atoms.utf8_string);
    vstd::utf8::encode_utf8_valid_utf8(text@);
    vstd::utf8::encode_utf8_decode_utf8(text@);
}

/// HTML that the owner of a selection stored together with its alternative text is what reads
/// of HTML and of text give back while it owns the selection: a read of `text/html` finds the
/// HTML, a read of text the alternative, and both decode as UTF-8 to what was set.
pub proof fn lemma_owned_html_read_back(atoms: Atoms, html: &str, alt: &str, stored: Seq<ClipboardData>)
    requires
        atoms.utf8_string != atoms.string,
        atoms.html != atoms.utf8_string,
        atoms.html != atoms.string,
        stored.len() == 2,
        stored[0].bytes@ == alt.spec_bytes(),
        stored[0].format == atoms.utf8_string,
        stored[1].bytes@ == html.spec_bytes(),
        stored[1].format == atoms.html,
    ensures
        is_owned_pick(stored, seq![atoms.html], 0, 1),
        stored[1].format != atoms.string,
        vstd::utf8::valid_utf8(stored[1].bytes@),
        vstd::utf8::decode_utf8(stored[1].bytes@) == html@,
        is_owned_pick(stored, atoms.spec_text_formats(), 0, 0),
        stored[0].format != atoms.string,
        vstd::utf8::valid_utf8(stored[0].bytes@),
        vstd::utf8::decode_utf8(stored[0].bytes@) == alt@,
{
    assert(seq![atoms.html][0] == atoms.html);
    assert(atoms.spec_text_formats()[0] == atoms.utf8_string);
    vstd::utf8::encode_utf8_valid_utf8(html@);
    vstd::utf8::encode_utf8_decode_utf8(html@);
    vstd::utf8::encode_utf8_valid_utf8(alt@);
    vstd::utf8::encode_utf8_decode_utf8(alt@);
}

/// The data that setting an image stores: its PNG encoding, as `image/png`.
pub fn png_data(atoms: &Atoms, png: Vec<u8>) -> (d: Vec<ClipboardData>)
    ensures
        d@.len() == 1,
        d@[0].bytes@ == png@,
        d@[0].format == atoms.png_mime,
{
    vec![ClipboardData { bytes: png, format: atoms.png_mime }]
}


/// Setting one kind of contents replaces the other: after text was set, a read of an image
/// finds nothing, and after an image was set, a read of text finds nothing; a read of an image
/// after an image was set finds the PNG file that was stored.
pub proof fn lemma_set_replaces_other_kind(
    atoms: Atoms,
    text_stored: Seq<ClipboardData>,
    image_stored: Seq<ClipboardData>,
    png: Seq<u8>,
)
    requires
        !atoms.spec_text_formats().contains(atoms.png_mime),
        text_stored.len() == 1,
        text_stored[0].format == atoms.utf8_string,
        image_stored.len() == 1,
        image_stored[0].bytes@ == png,
        image_stored[0].format == atoms.png_mime,
    ensures
        forall|k: int| 0 <= k < 1 ==> !holds_format(text_stored, #[trigger] seq![atoms.png_mime][k]),
        forall|k: int|
            0 <= k < atoms.spec_text_formats().len() ==> !holds_format(
                image_stored,
                #[trigger] atoms.spec_text_formats()[k],
            ),
        is_owned_pick(image_stored, seq![atoms.png_mime], 0, 0),
        image_stored[0].bytes@ == png,
{
    let tf = atoms.spec_text_formats();
    assert(tf[0] == atoms.utf8_string);
    assert(seq![atoms.png_mime][0] == atoms.png_mime);
    assert forall|k: int| 0 <= k < 1 implies !holds_format(text_stored, #[trigger] seq![atoms.png_mime][k]) by {
        assert(k == 0);
        if holds_format(text_stored, atoms.png_mime) {
            let m = choose|m: int| 0 <= m < text_stored.len() && (#[trigger] text_stored[m]).format
                == atoms.png_mime;
            assert(m == 0);
            assert(tf.contains(atoms.png_mime));
        }
    }
    assert forall|k: int| 0 <= k < tf.len() implies !holds_format(image_stored, #[trigger] tf[k]) by {
        if holds_format(image_stored, tf[k]) {
            let m = choose|m: int| 0 <= m < image_stored.len() && (#[trigger] image_stored[m]).format
                == tf[k];
            assert(m == 0);
            assert(tf.contains(atoms.png_mime));
        }
    }
}

} // verus!

verus! {

/// What a reader does with a `SelectionNotify` event.
#[derive(Clone, Copy, Debug, PartialEq, Eq, Structural)]
pub enum NotifyAction {
    /// Fetch the property that the owner wrote the data to.
    FetchProperty,
    /// The event is not for this read; keep waiting.
    Ignore,
}

/// What the first property that the owner wrote holds.
pub enum FirstReply {
    /// All of the data.
    GotData(Vec<u8>),
    /// A notice that the data comes in increments (`INCR`), with later property changes.
    IncrStarted,
}

/// What one increment does to the data received so far: an empty increment ends the transfer
/// and leaves the data as it is; any other is appended.
pub open spec fn spec_increment(data: Seq<u8>, chunk: Seq<u8>) -> (bool, Seq<u8>) {
    if chunk.len() == 0 {
        (true, data)
    } else {
        (false, data + chunk)
    }
}

/// The data after the increments `chunks`, one after the other, starting from `data`.
pub open spec fn after_increments(data: Seq<u8>, chunks: Seq<Seq<u8>>) -> Seq<u8>
    decreases chunks.len(),
{
    if chunks.len() == 0 {
        data
    } else {
        spec_increment(after_increments(data, chunks.drop_last()), chunks.last()).1
    }
}

/// The increments joined, in order.
pub open spec fn joined(chunks: Seq<Seq<u8>>) -> Seq<u8>
    decreases chunks.len(),
{
    if chunks.len() == 0 {
        Seq::empty()
    } else {
        joined(chunks.drop_last()) + chunks.last()
    }
}

/// A transfer in increments yields exactly the increments joined in order: no increment that
/// carries data ends it, each is appended, and the empty increment that follows ends it with
/// the data unchanged.
pub proof fn lemma_increments_join(chunks: Seq<Seq<u8>>)
    requires
        forall|i: int| 0 <= i < chunks.len() ==> (#[trigger] chunks[i]).len() > 0,
    ensures
        after_increments(Seq::empty(), chunks) == joined(chunks),
        forall|i: int|
            0 <= i < chunks.len() ==> !spec_increment(
                after_increments(Seq::empty(), chunks.subrange(0, i)),
                #[trigger] chunks[i],
            ).0,
        spec_increment(after_increments(Seq::empty(), chunks), Seq::empty()) == (
            true,
            joined(chunks),
        ),
    decreases chunks.len(),
{
    if chunks.len() > 0 {
        let init = chunks.drop_last();
        assert forall|i: int| 0 <= i < init.len() implies (#[trigger] init[i]).len() > 0 by {
            assert(init[i] == chunks[i]);
        }
        lemma_increments_join(init);
        assert(chunks.last().len() > 0);
        assert(Seq::<u8>::empty() + joined(init) == joined(init));
    }
}

/// How long a read waits for the owner's first answer, in milliseconds. Some owners take
/// seconds to produce an image.
pub const LONG_TIMEOUT_MS: u64 = 4000;

/// How much longer a read waits once the data comes in increments, and after each increment,
/// in milliseconds.
pub const SHORT_TIMEOUT_MS: u64 = 10;

/// The time, in milliseconds since an epoch of the caller's choice, until which a read waits.
pub struct ReadDeadline {
    pub deadline: u64,
}

impl ReadDeadline {
    /// The deadline of a read that starts at `now`.
    pub fn new(now: u64) -> (d: ReadDeadline)
        requires
            now + LONG_TIMEOUT_MS <= u64::MAX,
        ensures
            d.deadline == now + LONG_TIMEOUT_MS,
    {
        ReadDeadline { deadline: now + LONG_TIMEOUT_MS }
    }

    /// Extends the deadline when the owner announces that the data comes in increments.
    pub fn on_incr_started(&mut self)
        requires
            old(self).deadline + SHORT_TIMEOUT_MS <= u64::MAX,
        ensures
            final(self).deadline == old(self).deadline + SHORT_TIMEOUT_MS,
    {
        self.deadline = self.deadline + SHORT_TIMEOUT_MS;
    }

    /// Moves the deadline after an increment was received at `now`.
    pub fn on_chunk(&mut self, now: u64)
        requires
            now + SHORT_TIMEOUT_MS <= u64::MAX,
        ensures
            final(self).deadline == now + SHORT_TIMEOUT_MS,
    {
        self.deadline = now + SHORT_TIMEOUT_MS;
    }

    /// Whether the read has waited long enough at `now`.
    pub fn expired(&self, now: u64) -> (e: bool)
        ensures
            e == (now >= self.deadline),
    {
        now >= self.deadline
    }
}

/// A read of a selection in one target format, as it goes along.
pub struct SelectionRead {
    /// Whether the data comes in increments.
    pub using_incr: bool,
    /// The increments received so far.
    pub incr_data: Vec<u8>,
}

impl SelectionRead {
    /// A read that has received nothing yet.
    pub fn new() -> (r: SelectionRead)
        ensures
            !r.using_incr,
            r.incr_data@ == Seq::<u8>::empty(),
    {
        SelectionRead { using_incr: false, incr_data: Vec::new() }
    }

    /// Decides what to do with a `SelectionNotify` event that answers a conversion request for
    /// `target_format`: a `NONE` property or another target means the owner could not convert;
    /// an event about a selection other than the three clipboards, or one that comes while
    /// increments are expected, is ignored.
    pub fn on_selection_notify(
        &self,
        atoms: &Atoms,
        target_format: u32,
        property: u32,
        target: u32,
        selection: u32,
    ) -> (r: Result<NotifyAction, Error>)
        ensures
            property == NONE || target != target_format ==> r == Err::<NotifyAction, Error>(
                Error::ContentNotAvailable,
            ),
            !(property == NONE || target != target_format) ==> r == Ok::<NotifyAction, Error>(
                if atoms.spec_kind_of(selection) is None || self.using_incr {
                    NotifyAction::Ignore
                } else {
                    NotifyAction::FetchProperty
                },
            ),
    {
        if property == NONE || target != target_format {
            return Err(Error::ContentNotAvailable);
        }
        if atoms.kind_of(selection).is_none() {
            return Ok(NotifyAction::Ignore);
        }
        if self.using_incr {
            return Ok(NotifyAction::Ignore);
        }
        Ok(NotifyAction::FetchProperty)
    }

    /// Takes in the first property that the owner wrote, whose type is `reply_type`: data in
    /// the requested format is the whole answer; an `INCR` type starts an incremental transfer;
    /// any other type is an error.
    pub fn on_first_reply(&mut self, atoms: &Atoms, target_format: u32, reply_type: u32, value: Vec<u8>) -> (r: Result<FirstReply, Error>)
        ensures
            reply_type == target_format ==> (r matches Ok(FirstReply::GotData(v)) && v@ == value@)
                && final(self).using_incr == old(self).using_incr,
            reply_type != target_format && reply_type == atoms.incr ==> (r matches Ok(
                FirstReply::IncrStarted,
            )) && final(self).using_incr,
            reply_type != target_format && reply_type != atoms.incr ==> (r matches Err(e)
                && is_unknown_with(e, "incorrect type received from clipboard"@))
                && final(self).using_incr == old(self).using_incr,
            final(self).incr_data@ == old(self).incr_data@,
    {
        if reply_type == target_format {
            Ok(FirstReply::GotData(value))
        } else if reply_type == atoms.incr {
            self.using_incr = true;
            Ok(FirstReply::IncrStarted)
        } else {
            Err(Error::unknown("incorrect type received from clipboard"))
        }
    }

    /// Whether a `PropertyNotify` event carries the next increment: a new value of the
    /// property that the read uses, while increments are expected.
    pub fn wants_increment(&self, atoms: &Atoms, atom: u32, is_new_value: bool) -> (w: bool)
        ensures
            w == (atom == atoms.arboard_clipboard && is_new_value && self.using_incr),
    {
        atom == atoms.arboard_clipboard && is_new_value && self.using_incr
    }

    /// Takes in one increment. An empty increment ends the transfer and returns `true`; any
    /// other is appended to the data.
    pub fn on_increment(&mut self, chunk: Vec<u8>) -> (done: bool)
        ensures
            (done, final(self).incr_data@) == spec_increment(old(self).incr_data@, chunk@),
            final(self).using_incr == old(self).using_incr,
    {
        if chunk.len() == 0 {
            return true;
        }
        let mut chunk = chunk;
        self.incr_data.append(&mut chunk);
        false
    }
}

/// The state of handing the clipboard contents over to a clipboard manager.
#[derive(Clone, Copy, Debug, PartialEq, Eq, Structural)]
pub enum ManagerHandoverState {
    Idle,
    InProgress,
    Finished,
}

/// What the thread that serves requests has seen of a hand-over: whether the manager has
/// requested the contents, and whether it has said that it is done.
#[derive(Clone, Copy, Debug, PartialEq, Eq, Structural)]
pub struct HandoverProgress {
    pub written: bool,
    pub notified: bool,
}

/// The progress and state after the contents were served for `target`.
pub open spec fn spec_after_request(
    atoms: Atoms,
    p: HandoverProgress,
    state: ManagerHandoverState,
    target: u32,
) -> (HandoverProgress, ManagerHandoverState) {
    if state == ManagerHandoverState::InProgress && target != atoms.targets {
        let p2 = HandoverProgress { written: true, notified: p.notified };
        (p2, if p2.notified { ManagerHandoverState::Finished } else { state })
    } else {
        (p, state)
    }
}

/// The progress and state after the manager said that it is done.
pub open spec fn spec_after_manager_notify(p: HandoverProgress, state: ManagerHandoverState) -> (HandoverProgress, ManagerHandoverState) {
    if state == ManagerHandoverState::InProgress {
        let p2 = HandoverProgress { written: p.written, notified: true };
        (p2, if p2.written { ManagerHandoverState::Finished } else { state })
    } else {
        (p, state)
    }
}

impl HandoverProgress {
    /// Nothing seen yet.
    pub fn new() -> (p: HandoverProgress)
        ensures
            !p.written && !p.notified,
    {
        HandoverProgress { written: false, notified: false }
    }

    /// Records that a request for `target` was served. While a hand-over is in progress, a
    /// request for the contents (not for the list of targets) counts as the manager having
    /// read them; the hand-over is finished once the manager has also said it is done.
    pub fn on_request_served(&mut self, atoms: &Atoms, state: ManagerHandoverState, target: u32) -> (s: ManagerHandoverState)
        ensures
            (*final(self), s) == spec_after_request(*atoms, *old(self), state, target),
            target == atoms.targets ==> *final(self) == *old(self) && s == state,
            s == ManagerHandoverState::Finished && state != ManagerHandoverState::Finished ==> {
                &&& target != atoms.targets
                &&& state == ManagerHandoverState::InProgress
                &&& old(self).notified
            },
    {
        if state == ManagerHandoverState::InProgress && target != atoms.targets {
            self.written = true;
            if self.notified {
                return ManagerHandoverState::Finished;
            }
        }
        state
    }

    /// Records that the clipboard manager said it is done. Some managers say so before they
    /// request the contents, so the hand-over is finished only once both happened.
    pub fn on_manager_notify(&mut self, state: ManagerHandoverState) -> (s: ManagerHandoverState)
        ensures
            (*final(self), s) == spec_after_manager_notify(*old(self), state),
    {
        if state == ManagerHandoverState::InProgress {
            self.notified = true;
            if self.written {
                return ManagerHandoverState::Finished;
            }
        }
        state
    }
}

/// A hand-over finishes once the manager has both read the contents and said that it is
/// done, in whichever order the two come, and not before.
pub proof fn lemma_handover_finishes(atoms: Atoms, target: u32)
    requires
        target != atoms.targets,
    ensures
        ({
            let p0 = HandoverProgress { written: false, notified: false };
            let (p1, s1) = spec_after_request(atoms, p0, ManagerHandoverState::InProgress, target);
            let (p2, s2) = spec_after_manager_notify(p1, s1);
            s1 == ManagerHandoverState::InProgress && s2 == ManagerHandoverState::Finished
        }),
        ({
            let p0 = HandoverProgress { written: false, notified: false };
            let (p1, s1) = spec_after_manager_notify(p0, ManagerHandoverState::InProgress);
            let (p2, s2) = spec_after_request(atoms, p1, s1, target);
            s1 == ManagerHandoverState::InProgress && s2 == ManagerHandoverState::Finished
        }),
        forall|p: HandoverProgress, s: ManagerHandoverState, t: u32|
            #![trigger spec_after_request(atoms, p, s, t)]
            spec_after_request(atoms, p, s, t).1 == ManagerHandoverState::Finished
                && s != ManagerHandoverState::Finished ==> spec_after_request(atoms, p, s, t).0.written
                && spec_after_request(atoms, p, s, t).0.notified,
        forall|p: HandoverProgress, s: ManagerHandoverState|
            #![trigger spec_after_manager_notify(p, s)]
            spec_after_manager_notify(p, s).1 == ManagerHandoverState::Finished
                && s != ManagerHandoverState::Finished ==> spec_after_manager_notify(p, s).0.written
                && spec_after_manager_notify(p, s).0.notified,
{
}

/// Serving the list of targets is no sign that the manager has read the contents: it changes
/// neither the progress of a hand-over nor its state. So a hand-over that a request finishes
/// was in progress, the manager had already said it is done, and the request was for the
/// contents themselves.
pub proof fn lemma_targets_request_changes_nothing(atoms: Atoms)
    ensures
        forall|p: HandoverProgress, s: ManagerHandoverState|
            #[trigger] spec_after_request(atoms, p, s, atoms.targets) == (p, s),
        forall|p: HandoverProgress, s: ManagerHandoverState, t: u32|
            #![trigger spec_after_request(atoms, p, s, t)]
            spec_after_request(atoms, p, s, t).1 == ManagerHandoverState::Finished && s
                != ManagerHandoverState::Finished ==> {
                &&& t != atoms.targets
                &&& s == ManagerHandoverState::InProgress
                &&& p.notified
            },
{
}

/// Whether the contents should be handed to a clipboard manager before the owner goes away:
/// only when there is a window, it owns the clipboard and it holds data.
pub fn handover_needed(win_id: u32, owns_clipboard: bool, has_data: bool) -> (n: bool)
    ensures
        n == (win_id != 0 && owns_clipboard && has_data),
{
    win_id != 0 && owns_clipboard && has_data
}

/// The outcome of waiting for a hand-over: done when it finished; a time-out is given up
/// on quietly; a wait that ended otherwise is an error.
pub fn handover_outcome(state: ManagerHandoverState, timed_out: bool) -> (r: Result<(), Error>)
    ensures
        state == ManagerHandoverState::Finished || timed_out ==> r is Ok,
        !(state == ManagerHandoverState::Finished || timed_out) ==> (r matches Err(e)
            && is_unknown_with(
            e,
            "The handover was not finished and the condvar didn't time out, yet the condvar wait ended. This should be unreachable."@,
        )),
{
    if state == ManagerHandoverState::Finished {
        return Ok(());
    }
    if timed_out {
        return Ok(());
    }
    Err(
        Error::unknown(
            "The handover was not finished and the condvar didn't time out, yet the condvar wait ended. This should be unreachable.",
        ),
    )
}

/// A write is refused once the thread that serves requests has stopped.
pub fn check_server_running(serve_stopped: bool) -> (r: Result<(), Error>)
    ensures
        !serve_stopped ==> r is Ok,
        serve_stopped ==> (r matches Err(e) && is_unknown_with(
            e,
            "The clipboard handler thread seems to have stopped. Logging messages may reveal the cause. (See the `log` crate.)"@,
        )),
{
    if serve_stopped {
        return Err(
            Error::unknown(
                "The clipboard handler thread seems to have stopped. Logging messages may reveal the cause. (See the `log` crate.)",
            ),
        );
    }
    Ok(())
}

} // verus!
