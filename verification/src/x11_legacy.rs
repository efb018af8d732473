//! The clipboard state of the XCB-based X11 backend: the data that the selection owner
//! serves, kept by format atom, and the image that it encodes on demand.
use vstd::prelude::*;
use crate::bitmap::{encodable, encode_as_png, is_degenerate};
use crate::codec::spec_encode_png;
use crate::error::{Error, is_unknown_with};
use crate::format_table::{data_view, strictly_ascending, FormatTable};
use crate::image_data::ImageData;
use crate::text::utf8_text;
use vstd::string::StringSliceAdditionalSpecFns;

verus! {

/// The atoms that the XCB backend interns at start.
#[derive(Clone, Copy, Debug)]
pub struct CommonAtoms {
    pub atom: u32,
    pub incr: u32,
    pub targets: u32,
    pub clipboard: u32,
    pub mime_image_png: u32,
    pub atom_pair: u32,
    pub save_targets: u32,
    pub multiple: u32,
    pub clipboard_manager: u32,
}

/// The contents that the owner of the clipboard selection serves.
pub struct OwnedContents {
    data: FormatTable,
    image: ImageData,
}

/// Whether an image has pixels to hand out.
pub open spec fn has_pixels(image: ImageData) -> bool {
    image.width > 0 && image.height > 0 && image.bytes@.len() > 0
}

/// How the owner answers a selection request.
pub enum OwnerReply {
    /// Write these target atoms to the requested property.
    Targets(Vec<u32>),
    /// Nothing to write (a `SAVE_TARGETS` request).
    Nothing,
    /// The requestor asked for several conversions at once (`MULTIPLE`).
    Multiple,
    /// Write these bytes, in the requested format, to the requested property.
    Content(Vec<u8>),
    /// The target cannot be served; the request is left unanswered.
    Unsupported,
}

/// The PNG encoding of an image, where it has pixels and its buffer holds exactly its
/// `width * height` RGBA pixels; `None` where there is none to produce.
pub open spec fn spec_png_of(image: ImageData) -> Option<Seq<u8>> {
    if !is_degenerate(image) && encodable(image) {
        spec_encode_png(image.bytes@, image.width as u32, image.height as u32)
    } else {
        None
    }
}

/// The bytes that the owner serves for `target`: the data stored for it, or, for a target
/// stored without data, the PNG encoding of the image where the target is the PNG format and
/// the image has pixels; `None` where there is nothing to serve.
pub open spec fn spec_served(
    formats: Map<u32, Option<Seq<u8>>>,
    image: ImageData,
    png_atom: u32,
    target: u32,
) -> Option<Seq<u8>> {
    if !formats.contains_key(target) {
        None
    } else {
        match formats[target] {
            Some(b) => Some(b),
            None => if target == png_atom {
                spec_png_of(image)
            } else {
                None
            },
        }
    }
}

/// Whether `t` answers a `TARGETS` request: `TARGETS`, `SAVE_TARGETS` and `MULTIPLE`, then the
/// stored format atoms in ascending order.
pub open spec fn is_target_list(t: Seq<u32>, atoms: CommonAtoms, formats: Map<u32, Option<Seq<u8>>>) -> bool {
    &&& t.len() >= 3
    &&& t[0] == atoms.targets
    &&& t[1] == atoms.save_targets
    &&& t[2] == atoms.multiple
    &&& strictly_ascending(t.skip(3))
    &&& forall|a: u32| t.skip(3).contains(a) <==> formats.contains_key(a)
}

impl OwnedContents {
    /// The stored data by format atom; `None` marks data that is produced on demand.
    pub closed spec fn formats(self) -> Map<u32, Option<Seq<u8>>> {
        self.data.view()
    }

    /// The stored image.
    pub closed spec fn image(self) -> ImageData {
        self.image
    }

    /// Nothing stored.
    pub fn new() -> (c: OwnedContents)
        ensures
            c.formats() == Map::<u32, Option<Seq<u8>>>::empty(),
            c.image().width == 0 && c.image().height == 0 && c.image().bytes@.len() == 0,
    {
        OwnedContents {
            data: FormatTable::new(),
            image: ImageData { width: 0, height: 0, bytes: Vec::new() },
        }
    }

    /// Forgets everything, as when another program takes the selection.
    pub fn clear_data(&mut self)
        ensures
            final(self).formats() == Map::<u32, Option<Seq<u8>>>::empty(),
            final(self).image().width == 0 && final(self).image().height == 0
                && final(self).image().bytes@.len() == 0,
    {
        self.data = FormatTable::new();
        self.image = ImageData { width: 0, height: 0, bytes: Vec::new() };
    }

    /// Whether nothing is stored.
    pub fn is_empty(&self) -> (e: bool)
        ensures
            e == (self.formats().dom() == Set::<u32>::empty()),
    {
        self.data.is_empty()
    }

    /// Stores text under every text format atom, in place of whatever was stored before: the
    /// earlier text, data and image are all replaced. Without any text format atom, this fails
    /// and changes nothing.
    pub fn set_text(&mut self, text_atoms: &Vec<u32>, bytes: Vec<u8>) -> (r: Result<(), Error>)
        ensures
            text_atoms@.len() == 0 ==> (r matches Err(e) && is_unknown_with(
                e,
                "Couldn't get the atoms that identify supported text formats for the x11 clipboard"@,
            )) && final(self).formats() == old(self).formats() && final(self).image() == old(
                self,
            ).image(),
            text_atoms@.len() > 0 ==> {
                &&& r is Ok
                &&& forall|a: u32| #[trigger] final(self).formats().contains_key(a) <==> text_atoms@.contains(a)
                &&& forall|a: u32| text_atoms@.contains(a) ==> #[trigger] final(self).formats()[a] == Some(bytes@)
                &&& final(self).image().width == 0 && final(self).image().height == 0
                    && final(self).image().bytes@.len() == 0
            },
    {
        if text_atoms.len() == 0 {
            return Err(
                Error::unknown(
                    "Couldn't get the atoms that identify supported text formats for the x11 clipboard",
                ),
            );
        }
        self.image = ImageData { width: 0, height: 0, bytes: Vec::new() };
        self.data = FormatTable::new();
        let mut i: usize = 0;
        while i < text_atoms.len()
            invariant
                self.image().width == 0 && self.image().height == 0 && self.image().bytes@.len() == 0,
                i <= text_atoms@.len(),
                forall|a: u32| #[trigger] self.data.view().contains_key(a) <==> text_atoms@.subrange(0, i as int).contains(a),
                forall|a: u32| text_atoms@.subrange(0, i as int).contains(a) ==> #[trigger] self.data.view()[a] == Some(bytes@),
            decreases text_atoms@.len() - i,
        {
            let copy = bytes.clone();
            proof {
                assert(copy@ =~= bytes@);
            }
            let mut data = FormatTable::new();
            std::mem::swap(&mut data, &mut self.data);
            data.insert(text_atoms[i], Some(copy));
            self.data = data;
            proof {
                assert(text_atoms@.subrange(0, i + 1) =~= text_atoms@.subrange(0, i as int).push(
                    text_atoms@[i as int],
                ));
                broadcast use vstd::seq_lib::lemma_seq_contains_after_push;
            }
            i = i + 1;
        }
        proof {
            assert(text_atoms@.subrange(0, i as int) =~= text_atoms@);
        }
        Ok(())
    }

    /// Stores an image in place of whatever was stored before. Its PNG encoding is produced
    /// when somebody asks for it, so the PNG format is the one format stored, without data.
    pub fn set_image(&mut self, png_atom: u32, image: ImageData)
        ensures
            final(self).formats() == Map::<u32, Option<Seq<u8>>>::empty().insert(png_atom, None),
            final(self).image() == image,
    {
        self.image = image;
        let mut data = FormatTable::new();
        data.insert(png_atom, None);
        self.data = data;
    }

    /// The bytes to serve for `target`, producing the PNG encoding of the stored image where it
    /// is asked for and not yet produced. `None` where the target is not stored or cannot be
    /// produced.
    pub fn content_for(&mut self, png_atom: u32, target: u32) -> (r: Option<Vec<u8>>)
        ensures
            final(self).image() == old(self).image(),
            !old(self).formats().contains_key(target) ==> r is None && final(self).formats() == old(self).formats(),
            old(self).formats().contains_key(target) && old(self).formats()[target] is Some ==>
                (r matches Some(v) && Some(v@) == old(self).formats()[target])
                && final(self).formats() == old(self).formats(),
            old(self).formats().contains_key(target) && old(self).formats()[target] is None ==> {
                let produced = if target == png_atom {
                    spec_png_of(old(self).image())
                } else {
                    None
                };
                &&& data_view(r) == produced
                &&& produced is Some ==> final(self).formats() == old(self).formats().insert(target, produced)
                &&& produced is None ==> final(self).formats() == old(self).formats()
            },
            data_view(r) == spec_served(old(self).formats(), old(self).image(), png_atom, target),
            forall|t: u32|
                #![trigger spec_served(final(self).formats(), final(self).image(), png_atom, t)]
                spec_served(final(self).formats(), final(self).image(), png_atom, t)
                    == spec_served(old(self).formats(), old(self).image(), png_atom, t),
    {
        match self.data.get(target) {
            None => None,
            Some(Some(bytes)) => Some(bytes),
            Some(None) => {
                if target == png_atom {
                    match encode_as_png(&self.image) {
                        Ok(png) => {
                            let copy = png.clone();
                            proof {
                                assert(copy@ =~= png@);
                            }
                            let mut data = FormatTable::new();
                            std::mem::swap(&mut data, &mut self.data);
                            data.insert(target, Some(copy));
                            self.data = data;
                            Some(png)
                        },
                        Err(_) => None,
                    }
                } else {
                    None
                }
            },
        }
    }

    /// The answer to a `TARGETS` request: `TARGETS`, `SAVE_TARGETS` and `MULTIPLE`, then the
    /// stored format atoms in ascending order.
    pub fn targets(&self, atoms: &CommonAtoms) -> (t: Vec<u32>)
        ensures
            is_target_list(t@, *atoms, self.formats()),
    {
        let mut t: Vec<u32> = Vec::with_capacity(4);
        t.push(atoms.targets);
        t.push(atoms.save_targets);
        t.push(atoms.multiple);
        let mut keys = self.data.keys();
        let ghost k = keys@;
        t.append(&mut keys);
        proof {
            assert(t@.skip(3) =~= k);
        }
        t
    }

    /// Decides the answer to a selection request for `target`.
    pub fn reply_to(&mut self, atoms: &CommonAtoms, target: u32) -> (r: OwnerReply)
        ensures
            final(self).image() == old(self).image(),
            target == atoms.targets ==> (r matches OwnerReply::Targets(t) && is_target_list(
                t@,
                *atoms,
                old(self).formats(),
            )) && final(self).formats() == old(self).formats(),
            target != atoms.targets && target == atoms.save_targets ==> r is Nothing
                && final(self).formats() == old(self).formats(),
            target != atoms.targets && target != atoms.save_targets && target == atoms.multiple
                ==> r is Multiple && final(self).formats() == old(self).formats(),
            target != atoms.targets && target != atoms.save_targets && target != atoms.multiple
                && !old(self).formats().contains_key(target) ==> r is Unsupported,
            target != atoms.targets && target != atoms.save_targets && target != atoms.multiple
                ==> match spec_served(old(self).formats(), old(self).image(), atoms.mime_image_png, target) {
                    Some(b) => r matches OwnerReply::Content(v) && v@ == b,
                    None => r is Unsupported,
                },
            forall|t: u32|
                #![trigger spec_served(final(self).formats(), final(self).image(), atoms.mime_image_png, t)]
                spec_served(final(self).formats(), final(self).image(), atoms.mime_image_png, t)
                    == spec_served(old(self).formats(), old(self).image(), atoms.mime_image_png, t),
    {
        if target == atoms.targets {
            OwnerReply::Targets(self.targets(atoms))
        } else if target == atoms.save_targets {
            OwnerReply::Nothing
        } else if target == atoms.multiple {
            OwnerReply::Multiple
        } else {
            match self.content_for(atoms.mime_image_png, target) {
                Some(v) => OwnerReply::Content(v),
                None => OwnerReply::Unsupported,
            }
        }
    }

    /// Serves the conversions of a `MULTIPLE` request, given as (target, property) atom pairs
    /// one after the other. For each complete pair, the property gets the target's data, or
    /// `None` (written as a `NONE` property) where the target cannot be served.
    pub fn serve_multiple(&mut self, atoms: &CommonAtoms, pairs: &Vec<u32>) -> (r: Vec<(u32, Option<Vec<u8>>)>)
        ensures
            r@.len() == pairs@.len() / 2,
            forall|k: int| 0 <= k < r@.len() ==> (#[trigger] r@[k]).0 == pairs@[2 * k + 1],
            forall|k: int|
                0 <= k < r@.len() ==> data_view((#[trigger] r@[k]).1) == spec_served(
                    old(self).formats(),
                    old(self).image(),
                    atoms.mime_image_png,
                    pairs@[2 * k],
                ),
            final(self).image() == old(self).image(),
    {
        let mut out: Vec<(u32, Option<Vec<u8>>)> = Vec::new();
        let mut i: usize = 0;
        while i + 1 < pairs.len()
            invariant
                i % 2 == 0,
                i <= pairs@.len(),
                out@.len() == i / 2,
                forall|k: int| 0 <= k < out@.len() ==> (#[trigger] out@[k]).0 == pairs@[2 * k + 1],
                forall|k: int|
                    0 <= k < out@.len() ==> data_view((#[trigger] out@[k]).1) == spec_served(
                        old(self).formats(),
                        old(self).image(),
                        atoms.mime_image_png,
                        pairs@[2 * k],
                    ),
                forall|t: u32|
                    #![trigger spec_served(self.formats(), self.image(), atoms.mime_image_png, t)]
                    spec_served(self.formats(), self.image(), atoms.mime_image_png, t)
                        == spec_served(old(self).formats(), old(self).image(), atoms.mime_image_png, t),
                self.image() == old(self).image(),
            decreases pairs@.len() - i,
        {
            let target = pairs[i];
            let property = pairs[i + 1];
            let content = self.content_for(atoms.mime_image_png, target);
            out.push((property, content));
            i = i + 2;
        }
        out
    }

    /// The text that the owner reads from itself: the first text format atom, in the given
    /// order, that has data, decoded as UTF-8.
    pub fn text_from_owner(&self, text_atoms: &Vec<u32>) -> (r: Result<String, Error>)
        ensures
            (forall|k: int| 0 <= k < text_atoms@.len() ==> !(self.formats().contains_key(
                #[trigger] text_atoms@[k],
            ) && self.formats()[text_atoms@[k]] is Some)) ==> r == Err::<String, Error>(
                Error::ContentNotAvailable,
            ),
            forall|k: int|
                0 <= k < text_atoms@.len() && self.formats().contains_key(#[trigger] text_atoms@[k])
                    && self.formats()[text_atoms@[k]] is Some && (forall|m: int|
                    0 <= m < k ==> !(self.formats().contains_key(#[trigger] text_atoms@[m])
                        && self.formats()[text_atoms@[m]] is Some)) ==> {
                    let bytes = self.formats()[text_atoms@[k]]->Some_0;
                    &&& vstd::utf8::valid_utf8(bytes) ==> (r matches Ok(s) && s@
                        == vstd::utf8::decode_utf8(bytes))
                    &&& !vstd::utf8::valid_utf8(bytes) ==> r == Err::<String, Error>(
                        Error::ConversionFailure,
                    )
                },
    {
        let mut i: usize = 0;
        while i < text_atoms.len()
            invariant
                i <= text_atoms@.len(),
                forall|m: int|
                    0 <= m < i ==> !(self.formats().contains_key(#[trigger] text_atoms@[m])
                        && self.formats()[text_atoms@[m]] is Some),
            decreases text_atoms@.len() - i,
        {
            match self.data.get(text_atoms[i]) {
                Some(Some(bytes)) => {
                    return utf8_text(bytes);
                },
                _ => {},
            }
            i = i + 1;
        }
        Err(Error::ContentNotAvailable)
    }

    /// The image that the owner reads from itself, where it holds one with pixels.
    pub fn image_from_owner(&self) -> (r: Result<ImageData, Error>)
        ensures
            has_pixels(self.image()) ==> (r matches Ok(img) && img.width == self.image().width
                && img.height == self.image().height && img.bytes@ == self.image().bytes@),
            !has_pixels(self.image()) ==> r == Err::<ImageData, Error>(Error::ContentNotAvailable),
    {
        if self.image.width > 0 && self.image.height > 0 && self.image.bytes.len() > 0 {
            Ok(self.image.to_owned_img())
        } else {
            Err(Error::ContentNotAvailable)
        }
    }
}


/// Text that `set_text` stored under the text formats is what the owner reads back as text:
/// the first text format holds the UTF-8 bytes of the text, which decode to it.
pub proof fn lemma_stored_text_read_back(after: OwnedContents, text_atoms: Seq<u32>, text: &str)
    requires
        text_atoms.len() > 0,
        forall|a: u32| text_atoms.contains(a) ==> #[trigger] after.formats().contains_key(a),
        forall|a: u32| text_atoms.contains(a) ==> #[trigger] after.formats()[a] == Some(text.spec_bytes()),
    ensures
        after.formats().contains_key(text_atoms[0]),
        after.formats()[text_atoms[0]] == Some(text.spec_bytes()),
        vstd::utf8::valid_utf8(text.spec_bytes()),
        vstd::utf8::decode_utf8(text.spec_bytes()) == text@,
{
    assert(text_atoms.contains(text_atoms[0]));
    vstd::utf8::encode_utf8_valid_utf8(text@);
    vstd::utf8::encode_utf8_decode_utf8(text@);
}

/// Setting one kind of contents replaces the other: after `set_text` the owner holds no image
/// with pixels, so a read of the image finds nothing; after `set_image` no text format holds
/// data, so a read of text finds nothing.
pub proof fn lemma_owner_set_replaces_other_kind(
    after_text: OwnedContents,
    after_image: OwnedContents,
    text_atoms: Seq<u32>,
    png_atom: u32,
)
    requires
        after_text.image().width == 0 && after_text.image().height == 0
            && after_text.image().bytes@.len() == 0,
        after_image.formats() == Map::<u32, Option<Seq<u8>>>::empty().insert(png_atom, None),
        !text_atoms.contains(png_atom),
    ensures
        !has_pixels(after_text.image()),
        forall|k: int|
            0 <= k < text_atoms.len() ==> !(after_image.formats().contains_key(
                #[trigger] text_atoms[k],
            ) && after_image.formats()[text_atoms[k]] is Some),
{
    assert forall|k: int| 0 <= k < text_atoms.len() implies !(after_image.formats().contains_key(
        #[trigger] text_atoms[k],
    ) && after_image.formats()[text_atoms[k]] is Some) by {
        if text_atoms[k] == png_atom {
            assert(text_atoms.contains(png_atom));
        }
    }
}

/// An image that `set_image` stored is what the owner reads back, where it has pixels.
pub proof fn lemma_stored_image_read_back(after: OwnedContents, image: ImageData)
    requires
        after.image() == image,
        has_pixels(image),
    ensures
        has_pixels(after.image()),
        after.image().width == image.width,
        after.image().height == image.height,
        after.image().bytes@ == image.bytes@,
{
}

} // verus!

verus! {

/// `n` zero bytes.
pub open spec fn zeros(n: int) -> Seq<u8> {
    Seq::new(n as nat, |i: int| 0u8)
}

/// The buffer after `chunk` was copied in at `offset`: grown with zeros where it is too short,
/// then overwritten from `offset` on.
pub open spec fn with_chunk(buf: Seq<u8>, offset: int, chunk: Seq<u8>) -> Seq<u8> {
    let req = offset + chunk.len();
    let grown = if buf.len() < req {
        buf + zeros(req - buf.len())
    } else {
        buf
    };
    grown.subrange(0, offset) + chunk + grown.subrange(req, grown.len() as int)
}

/// The data that a reader receives from a selection owner, possibly in several increments,
/// and the offset at which the next increment goes.
pub struct ReplyBuffer {
    pub data: Option<Vec<u8>>,
    pub offset: usize,
}

impl ReplyBuffer {
    /// Nothing received.
    pub fn new() -> (b: ReplyBuffer)
        ensures
            b.data is None,
            b.offset == 0,
    {
        ReplyBuffer { data: None, offset: 0 }
    }

    /// Prepares for data that comes whole, in one reply.
    pub fn start_single(&mut self)
        ensures
            final(self).data is None,
            final(self).offset == 0,
    {
        self.data = None;
        self.offset = 0;
    }

    /// Prepares for data that comes in increments, of which the owner announced at least
    /// `announced` bytes in all: a buffer of that many zero bytes, filled from the start.
    pub fn start_incremental(&mut self, announced: u32)
        ensures
            final(self).data matches Some(v) && v@ == zeros(announced as int),
            final(self).offset == 0,
    {
        let v: Vec<u8> = vec![0u8; announced as usize];
        proof {
            assert(v@ =~= zeros(announced as int));
        }
        self.data = Some(v);
        self.offset = 0;
    }

    /// Copies a received chunk in at the current offset, growing the buffer where the chunk
    /// goes past its end, and moves the offset past the chunk.
    pub fn copy_chunk(&mut self, chunk: &[u8])
        requires
            old(self).data is None ==> old(self).offset == 0,
            old(self).offset + chunk@.len() <= usize::MAX,
        ensures
            final(self).data matches Some(v) && v@ == with_chunk(
                match old(self).data {
                    Some(v) => v@,
                    None => Seq::empty(),
                },
                old(self).offset as int,
                chunk@,
            ),
            final(self).offset == old(self).offset + chunk@.len(),
    {
        let n = chunk.len();
        let req = self.offset + n;
        let ghost old_buf = match old(self).data {
            Some(v) => v@,
            None => Seq::<u8>::empty(),
        };
        let mut buf = match self.data.take() {
            Some(v) => v,
            None => Vec::new(),
        };
        let ghost start = buf@;
        if req > buf.len() {
            buf.resize(req, 0u8);
        }
        proof {
            let grown = if old_buf.len() < req { old_buf + zeros(req - old_buf.len()) } else { old_buf };
            assert(buf@ =~= grown);
        }
        let ghost grown = buf@;
        let off = self.offset;
        let mut i: usize = 0;
        while i < n
            invariant
                n == chunk@.len(),
                req == off + n,
                grown.len() >= req,
                buf@.len() == grown.len(),
                i <= n,
                forall|k: int| 0 <= k < off ==> #[trigger] buf@[k] == grown[k],
                forall|k: int| 0 <= k < i ==> #[trigger] buf@[off + k] == chunk@[k],
                forall|k: int| off + i <= k < grown.len() ==> #[trigger] buf@[k] == grown[k],
            decreases n - i,
        {
            buf.set(off + i, chunk[i]);
            i = i + 1;
        }
        proof {
            let w = with_chunk(old_buf, off as int, chunk@);
            assert forall|k: int| 0 <= k < buf@.len() implies buf@[k] == w[k] by {
                if off <= k < req {
                    assert(buf@[off + (k - off)] == chunk@[k - off]);
                }
            }
            assert(buf@ =~= w);
        }
        self.data = Some(buf);
        self.offset = req;
    }

    /// Hands the received data out and forgets it; the offset stays.
    pub fn take_data(&mut self) -> (d: Option<Vec<u8>>)
        ensures
            d == old(self).data,
            final(self).data is None,
            final(self).offset == old(self).offset,
    {
        self.data.take()
    }
}

/// The type that a reader asks the owner's property for: the `ATOM` type for a `TARGETS`
/// request, the requested target otherwise.
pub fn reply_type_for(atoms: &CommonAtoms, target: u32) -> (t: u32)
    ensures
        t == if target == atoms.targets {
            atoms.atom
        } else {
            target
        },
{
    if target == atoms.targets {
        atoms.atom
    } else {
        target
    }
}

/// The selection that a read goes to: the clipboard where none (`0`) is given.
pub fn selection_or_clipboard(atoms: &CommonAtoms, selection: u32) -> (s: u32)
    ensures
        s == if selection == 0 {
            atoms.clipboard
        } else {
            selection
        },
{
    if selection == 0 {
        atoms.clipboard
    } else {
        selection
    }
}

/// Whether the contents should be saved with the clipboard manager before the window goes
/// away: when something is stored and the window still owns the clipboard.
pub fn should_save_targets(has_data: bool, window: u32, owner: u32) -> (s: bool)
    ensures
        s == (has_data && window != 0 && window == owner),
{
    has_data && window != 0 && window == owner
}

} // verus!
