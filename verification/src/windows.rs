//! The decisions and byte formats of the Windows clipboard backend.
use vstd::prelude::*;
use crate::error::{Error, is_unknown_with};
use crate::le::{le16, le32, le_u16_at, le_u32_at, lemma_le16_roundtrip, push_u16_le, push_u32_le, read_u32_le};
use crate::bitmap::BITMAP_V5_HEADER_SIZE;

verus! {

/// How often opening the clipboard is retried after the first attempt failed.
pub const DEFAULT_OPEN_ATTEMPTS: usize = 5;

/// The retries that are left for opening the clipboard, which another program may hold for a
/// moment.
pub struct OpenRetry {
    pub attempts: usize,
}

/// What a failed attempt to open the clipboard leads to, given the retries left: whether to
/// retry, and the retries left then.
pub open spec fn spec_on_failure(attempts: usize) -> (bool, usize) {
    if attempts == 0 {
        (false, 0)
    } else {
        (true, (attempts - 1) as usize)
    }
}

/// The retries left after `failures` failed attempts, starting from `start`.
pub open spec fn attempts_after(start: usize, failures: nat) -> usize
    decreases failures,
{
    if failures == 0 {
        start
    } else {
        spec_on_failure(attempts_after(start, (failures - 1) as nat)).1
    }
}

impl OpenRetry {
    /// A fresh budget of retries.
    pub fn new() -> (r: OpenRetry)
        ensures
            r.attempts == DEFAULT_OPEN_ATTEMPTS,
    {
        OpenRetry { attempts: DEFAULT_OPEN_ATTEMPTS }
    }

    /// Decides what follows a failed attempt: `true` to retry (using up one retry), `false` to
    /// give up when none is left.
    pub fn on_failure(&mut self) -> (retry: bool)
        ensures
            (retry, final(self).attempts) == spec_on_failure(old(self).attempts),
    {
        if self.attempts == 0 {
            false
        } else {
            self.attempts = self.attempts - 1;
            true
        }
    }
}

/// With a fresh budget, the clipboard is opened in at most `DEFAULT_OPEN_ATTEMPTS + 1`
/// attempts: each of the first `DEFAULT_OPEN_ATTEMPTS` failures is retried, and the failure
/// after them is given up on.
pub proof fn lemma_open_attempts(failures: nat)
    ensures
        spec_on_failure(attempts_after(DEFAULT_OPEN_ATTEMPTS, failures)).0 <==> failures
            < DEFAULT_OPEN_ATTEMPTS,
        failures <= DEFAULT_OPEN_ATTEMPTS ==> attempts_after(DEFAULT_OPEN_ATTEMPTS, failures)
            == DEFAULT_OPEN_ATTEMPTS - failures,
        failures >= DEFAULT_OPEN_ATTEMPTS ==> attempts_after(DEFAULT_OPEN_ATTEMPTS, failures) == 0,
    decreases failures,
{
    if failures > 0 {
        lemma_open_attempts((failures - 1) as nat);
    }
}

/// The error of a clipboard that could not be opened: another program holds it.
pub fn open_failure() -> (e: Error)
    ensures
        e == Error::ClipboardOccupied,
{
    Error::ClipboardOccupied
}

/// The error of a system call that failed: what was being done, then the text of the
/// operating system's last error.
pub fn last_error(message: &str, os_error: &str) -> (e: Error)
    ensures
        is_unknown_with(e, message@ + ": "@ + os_error@),
{
    let mut d = String::from_str(message);
    d.append(": ");
    d.append(os_error);
    Error::Unknown { description: d }
}

/// The registered clipboard formats that keep data away from clipboard history and cloud
/// clipboard.
#[derive(Clone, Copy, Debug, PartialEq, Eq, Structural)]
pub enum ExclusionFormat {
    /// Excludes the data from all processing.
    Monitoring,
    /// Excludes the data from the cloud clipboard.
    Cloud,
    /// Excludes the data from the clipboard history.
    History,
}

/// The name under which an exclusion format is registered.
pub open spec fn spec_exclusion_name(f: ExclusionFormat) -> Seq<char> {
    match f {
        ExclusionFormat::Monitoring => "ExcludeClipboardContentFromMonitorProcessing"@,
        ExclusionFormat::Cloud => "CanUploadToCloudClipboard"@,
        ExclusionFormat::History => "CanIncludeInClipboardHistory"@,
    }
}

/// The error that a failure to set an exclusion format becomes.
pub open spec fn spec_exclusion_failure(f: ExclusionFormat) -> Seq<char> {
    match f {
        ExclusionFormat::Monitoring => "Failed to exclude data from clipboard monitoring"@,
        ExclusionFormat::Cloud => "Failed to exclude data from cloud clipboard"@,
        ExclusionFormat::History => "Failed to exclude data from clipboard history"@,
    }
}

impl ExclusionFormat {
    /// The name under which the format is registered.
    pub fn name(&self) -> (n: &'static str)
        ensures
            n@ == spec_exclusion_name(*self),
    {
        match self {
            ExclusionFormat::Monitoring => "ExcludeClipboardContentFromMonitorProcessing",
            ExclusionFormat::Cloud => "CanUploadToCloudClipboard",
            ExclusionFormat::History => "CanIncludeInClipboardHistory",
        }
    }

    /// The error of a failure to put the format on the clipboard.
    pub fn failure(&self) -> (e: Error)
        ensures
            is_unknown_with(e, spec_exclusion_failure(*self)),
    {
        match self {
            ExclusionFormat::Monitoring => Error::unknown(
                "Failed to exclude data from clipboard monitoring",
            ),
            ExclusionFormat::Cloud => Error::unknown("Failed to exclude data from cloud clipboard"),
            ExclusionFormat::History => Error::unknown(
                "Failed to exclude data from clipboard history",
            ),
        }
    }
}

/// The exclusion formats that the chosen options ask for, in the order in which they are
/// put on the clipboard.
pub open spec fn spec_exclusions(monitoring: bool, cloud: bool, history: bool) -> Seq<ExclusionFormat> {
    (if monitoring { seq![ExclusionFormat::Monitoring] } else { Seq::empty() }) + (if cloud {
        seq![ExclusionFormat::Cloud]
    } else {
        Seq::empty()
    }) + (if history { seq![ExclusionFormat::History] } else { Seq::empty() })
}

/// The place of an exclusion format among the others on the clipboard: monitoring first,
/// then the cloud clipboard, then the history.
pub open spec fn exclusion_rank(f: ExclusionFormat) -> int {
    match f {
        ExclusionFormat::Monitoring => 0,
        ExclusionFormat::Cloud => 1,
        ExclusionFormat::History => 2,
    }
}

/// Each exclusion format is asked for exactly when its own option is set, none of them twice,
/// and they come in the order monitoring, cloud clipboard, history.
pub proof fn lemma_exclusions_follow_options(monitoring: bool, cloud: bool, history: bool)
    ensures
        spec_exclusions(monitoring, cloud, history).contains(ExclusionFormat::Monitoring)
            <==> monitoring,
        spec_exclusions(monitoring, cloud, history).contains(ExclusionFormat::Cloud) <==> cloud,
        spec_exclusions(monitoring, cloud, history).contains(ExclusionFormat::History) <==> history,
        spec_exclusions(monitoring, cloud, history).len() == (if monitoring { 1int } else { 0 }) + (
        if cloud { 1int } else { 0 }) + (if history { 1int } else { 0 }),
        spec_exclusions(monitoring, cloud, history).no_duplicates(),
        forall|i: int, j: int|
            0 <= i < j < spec_exclusions(monitoring, cloud, history).len() ==> exclusion_rank(
                #[trigger] spec_exclusions(monitoring, cloud, history)[i],
            ) < exclusion_rank(#[trigger] spec_exclusions(monitoring, cloud, history)[j]),
{
    let e = spec_exclusions(monitoring, cloud, history);
    let m = ExclusionFormat::Monitoring;
    let c = ExclusionFormat::Cloud;
    let h = ExclusionFormat::History;
    if monitoring {
        if cloud {
            if history {
                assert(e =~= seq![m, c, h]);
            } else {
                assert(e =~= seq![m, c]);
            }
        } else {
            if history {
                assert(e =~= seq![m, h]);
            } else {
                assert(e =~= seq![m]);
            }
        }
    } else {
        if cloud {
            if history {
                assert(e =~= seq![c, h]);
            } else {
                assert(e =~= seq![c]);
            }
        } else {
            if history {
                assert(e =~= seq![h]);
            } else {
                assert(e =~= Seq::<ExclusionFormat>::empty());
            }
        }
    }
    assert forall|i: int, j: int| 0 <= i < j < e.len() implies exclusion_rank(#[trigger] e[i])
        < exclusion_rank(#[trigger] e[j]) by {}
    if monitoring {
        assert(e[0] == m);
    }
    if cloud {
        assert(e[if monitoring { 1int } else { 0 }] == c);
    }
    if history {
        assert(e[(if monitoring { 1int } else { 0 }) + (if cloud { 1int } else { 0 })] == h);
    }
}

/// The exclusion formats to put on the clipboard after the data.
pub fn clipboard_exclusions(monitoring: bool, cloud: bool, history: bool) -> (f: Vec<ExclusionFormat>)
    ensures
        f@ == spec_exclusions(monitoring, cloud, history),
        f@.contains(ExclusionFormat::Monitoring) <==> monitoring,
        f@.contains(ExclusionFormat::Cloud) <==> cloud,
        f@.contains(ExclusionFormat::History) <==> history,
        f@.no_duplicates(),
{
    let mut f: Vec<ExclusionFormat> = Vec::new();
    if monitoring {
        f.push(ExclusionFormat::Monitoring);
    }
    if cloud {
        f.push(ExclusionFormat::Cloud);
    }
    if history {
        f.push(ExclusionFormat::History);
    }
    proof {
        assert(f@ =~= spec_exclusions(monitoring, cloud, history));
        lemma_exclusions_follow_options(monitoring, cloud, history);
    }
    f
}

/// The data that goes with an exclusion format: a 32-bit zero.
pub fn exclusion_data() -> (d: Vec<u8>)
    ensures
        d@ == le32(0),
{
    let mut d: Vec<u8> = Vec::new();
    push_u32_le(&mut d, 0);
    proof {
        assert(d@ =~= le32(0));
    }
    d
}

/// The characters that UTF-16 code units encode, or `None` where they are not valid UTF-16: a
/// unit outside the surrogate range is a character of its own; a high surrogate followed by a
/// low surrogate is the character `0x10000 + (high - 0xD800) * 0x400 + (low - 0xDC00)`; any
/// other surrogate is invalid.
pub open spec fn spec_decode_utf16(units: Seq<u16>) -> Option<Seq<char>>
    decreases units.len(),
{
    if units.len() == 0 {
        Some(Seq::empty())
    } else if units[0] < 0xD800 || units[0] > 0xDFFF {
        match spec_decode_utf16(units.drop_first()) {
            Some(rest) => Some(seq![units[0] as char] + rest),
            None => None,
        }
    } else if units[0] <= 0xDBFF && units.len() >= 2 && 0xDC00 <= units[1] <= 0xDFFF {
        let c = 0x10000 + (units[0] - 0xD800) * 0x400 + (units[1] - 0xDC00);
        match spec_decode_utf16(units.subrange(2, units.len() as int)) {
            Some(rest) => Some(seq![c as char] + rest),
            None => None,
        }
    } else {
        None
    }
}

/// Decodes UTF-16 with `String::from_utf16`.
///
/// Trusted: as its documentation says, it decodes the units into a string and fails exactly
/// where they hold invalid data (an unpaired surrogate); the result is taken to be
/// `spec_decode_utf16(units)`.
#[verifier::external_body]
fn string_from_utf16(units: &[u16]) -> (r: Option<String>)
    ensures
        match r {
            Some(s) => spec_decode_utf16(units@) == Some(s@),
            None => spec_decode_utf16(units@) is None,
        },
{
    String::from_utf16(units).ok()
}

/// The number of UTF-16 units of text in a buffer that received `bytes_read` bytes: half of
/// them, less the terminating NUL where the buffer ends with one.
pub open spec fn spec_text_units(buf: Seq<u16>, bytes_read: int) -> int {
    if buf.len() > 0 && buf.last() == 0 {
        bytes_read / 2 - 1
    } else {
        bytes_read / 2
    }
}

/// Decodes the `CF_UNICODETEXT` that was read into `buf`; text that is not valid UTF-16 is a
/// conversion failure.
pub fn text_from_wide(buf: &Vec<u16>, bytes_read: usize) -> (r: Result<String, Error>)
    requires
        bytes_read / 2 <= buf@.len(),
        buf@.len() > 0 && buf@.last() == 0 ==> bytes_read / 2 >= 1,
    ensures
        match spec_decode_utf16(buf@.subrange(0, spec_text_units(buf@, bytes_read as int))) {
            Some(s) => r matches Ok(t) && t@ == s,
            None => r == Err::<String, Error>(Error::ConversionFailure),
        },
{
    let mut units = bytes_read / 2;
    if buf.len() > 0 && buf[buf.len() - 1] == 0 {
        units = units - 1;
    }
    let text = vstd::slice::slice_subrange(buf.as_slice(), 0, units);
    match string_from_utf16(text) {
        Some(s) => Ok(s),
        None => Err(Error::ConversionFailure),
    }
}

/// The little-endian bytes of UTF-16 units.
pub open spec fn wide_bytes(units: Seq<u16>) -> Seq<u8>
    decreases units.len(),
{
    if units.len() == 0 {
        Seq::empty()
    } else {
        wide_bytes(units.drop_last()) + le16(units.last() as int)
    }
}

/// The bytes of a list of NUL-terminated wide paths, one after the other.
pub open spec fn paths_bytes(paths: Seq<Seq<u16>>) -> Seq<u8>
    decreases paths.len(),
{
    if paths.len() == 0 {
        Seq::empty()
    } else {
        paths_bytes(paths.drop_last()) + wide_bytes(paths.last())
    }
}

/// Reading the bytes of UTF-16 units back two at a time, little-endian, gives the whole units.
pub proof fn lemma_wide_bytes_read_back(units: Seq<u16>)
    ensures
        wide_bytes(units).len() == 2 * units.len(),
        forall|k: int| 0 <= k < units.len() ==> #[trigger] le_u16_at(wide_bytes(units), 2 * k) == units[k],
    decreases units.len(),
{
    if units.len() > 0 {
        let init = units.drop_last();
        lemma_wide_bytes_read_back(init);
        let w = wide_bytes(units);
        let v = units.last() as int;
        assert(w == wide_bytes(init) + le16(v));
        assert forall|k: int| 0 <= k < units.len() implies #[trigger] le_u16_at(w, 2 * k) == units[k] by {
            if k < units.len() - 1 {
                assert(w[2 * k] == wide_bytes(init)[2 * k]);
                assert(w[2 * k + 1] == wide_bytes(init)[2 * k + 1]);
                assert(le_u16_at(wide_bytes(init), 2 * k) == init[k]);
            } else {
                assert(w.subrange(2 * k, 2 * k + 2) =~= le16(v));
                lemma_le16_roundtrip(v, w, 2 * k);
            }
        }
    }
}

/// The bytes of units one after the other are the bytes of each, one after the other.
proof fn lemma_wide_bytes_append(a: Seq<u16>, b: Seq<u16>)
    ensures
        wide_bytes(a + b) == wide_bytes(a) + wide_bytes(b),
    decreases b.len(),
{
    if b.len() == 0 {
        assert(a + b =~= a);
        assert(wide_bytes(a) + wide_bytes(b) =~= wide_bytes(a));
    } else {
        lemma_wide_bytes_append(a, b.drop_last());
        assert((a + b).drop_last() =~= a + b.drop_last());
        assert((a + b).last() == b.last());
        assert(wide_bytes(a + b) =~= wide_bytes(a) + wide_bytes(b));
    }
}

/// The bytes of a list of paths are the bytes of their units taken one path after the other.
proof fn lemma_paths_bytes_flatten(paths: Seq<Seq<u16>>)
    ensures
        paths_bytes(paths) == wide_bytes(paths.flatten()),
    decreases paths.len(),
{
    paths.lemma_flatten_and_flatten_alt_are_equivalent();
    if paths.len() > 0 {
        lemma_paths_bytes_flatten(paths.drop_last());
        paths.drop_last().lemma_flatten_and_flatten_alt_are_equivalent();
        lemma_wide_bytes_append(paths.drop_last().flatten(), paths.last());
    }
}

/// The paths of a `CF_HDROP` payload read back: the bytes after the `DROPFILES` structure,
/// taken two at a time, little-endian, are the units of the paths one path after the other,
/// followed by a 0 that ends the list.
pub proof fn lemma_dropfiles_paths_read_back(paths: Seq<Seq<u16>>)
    ensures
        (paths_bytes(paths) + le16(0)).len() == 2 * (paths.flatten().len() + 1),
        forall|k: int|
            0 <= k <= paths.flatten().len() ==> #[trigger] le_u16_at(paths_bytes(paths) + le16(0), 2 * k)
                == paths.flatten().push(0)[k],
{
    let units = paths.flatten().push(0);
    lemma_paths_bytes_flatten(paths);
    lemma_wide_bytes_append(paths.flatten(), seq![0u16]);
    assert(seq![0u16].drop_last() =~= Seq::<u16>::empty());
    assert(wide_bytes(Seq::<u16>::empty()) =~= Seq::<u8>::empty());
    assert(wide_bytes(seq![0u16]) == wide_bytes(Seq::<u16>::empty()) + le16(0));
    assert(wide_bytes(seq![0u16]) =~= le16(0));
    assert(paths.flatten() + seq![0u16] =~= units);
    lemma_wide_bytes_read_back(units);
    assert forall|k: int| 0 <= k <= paths.flatten().len() implies #[trigger] le_u16_at(
        paths_bytes(paths) + le16(0),
        2 * k,
    ) == units[k] by {
        assert(le_u16_at(wide_bytes(units), 2 * k) == units[k]);
    }
}

/// The size of a `DROPFILES` structure.
pub const DROPFILES_HEADER_SIZE: u32 = 20;

/// A `DROPFILES` structure for wide paths that follow it: the offset of the paths, a drop
/// point of (0, 0), no non-client flag, and the wide flag.
pub open spec fn dropfiles_header() -> Seq<u8> {
    le32(DROPFILES_HEADER_SIZE as int) + le32(0) + le32(0) + le32(0) + le32(1)
}

fn push_wide(out: &mut Vec<u8>, units: &Vec<u16>)
    ensures
        final(out)@ == old(out)@ + wide_bytes(units@),
        final(out)@.len() == old(out)@.len() + 2 * units@.len(),
        forall|k: int|
            0 <= k < units@.len() ==> #[trigger] le_u16_at(final(out)@, old(out)@.len() + 2 * k)
                == units@[k],
{
    let mut i: usize = 0;
    while i < units.len()
        invariant
            i <= units@.len(),
            out@ == old(out)@ + wide_bytes(units@.subrange(0, i as int)),
        decreases units@.len() - i,
    {
        push_u16_le(out, units[i]);
        proof {
            assert(units@.subrange(0, i + 1).drop_last() =~= units@.subrange(0, i as int));
        }
        i = i + 1;
        proof {
            assert(out@ =~= old(out)@ + wide_bytes(units@.subrange(0, i as int)));
        }
    }
    proof {
        assert(units@.subrange(0, i as int) =~= units@);
        lemma_wide_bytes_read_back(units@);
        let n = old(out)@.len();
        assert forall|k: int| 0 <= k < units@.len() implies #[trigger] le_u16_at(out@, n + 2 * k)
            == units@[k] by {
            assert(out@[n + 2 * k] == wide_bytes(units@)[2 * k]);
            assert(out@[n + 2 * k + 1] == wide_bytes(units@)[2 * k + 1]);
            assert(le_u16_at(wide_bytes(units@), 2 * k) == units@[k]);
        }
    }
}

/// The paths, each by its view.
pub open spec fn paths_view(paths: Seq<Vec<u16>>) -> Seq<Seq<u16>> {
    paths.map_values(|p: Vec<u16>| p@)
}

/// Builds the `CF_HDROP` payload for a list of files: a `DROPFILES` structure, the paths as
/// NUL-terminated wide strings, and a final NUL. An empty list is a conversion failure.
pub fn dropfiles_payload(paths: &Vec<Vec<u16>>) -> (r: Result<Vec<u8>, Error>)
    ensures
        paths@.len() == 0 ==> r == Err::<Vec<u8>, Error>(Error::ConversionFailure),
        paths@.len() > 0 ==> (r matches Ok(v) && v@ == dropfiles_header() + paths_bytes(
            paths_view(paths@),
        ) + le16(0)),
        paths@.len() > 0 ==> (r matches Ok(v) && {
            &&& le_u32_at(v@, 0) == DROPFILES_HEADER_SIZE
            &&& v@.len() == DROPFILES_HEADER_SIZE + 2 * (paths_view(paths@).flatten().len() + 1)
            &&& forall|k: int|
                0 <= k <= paths_view(paths@).flatten().len() ==> #[trigger] le_u16_at(
                    v@,
                    DROPFILES_HEADER_SIZE + 2 * k,
                ) == paths_view(paths@).flatten().push(0)[k]
        }),
{
    if paths.len() == 0 {
        return Err(Error::ConversionFailure);
    }
    let mut out: Vec<u8> = Vec::new();
    push_u32_le(&mut out, DROPFILES_HEADER_SIZE);
    push_u32_le(&mut out, 0);
    push_u32_le(&mut out, 0);
    push_u32_le(&mut out, 0);
    push_u32_le(&mut out, 1);
    let ghost header = out@;
    proof {
        assert(header =~= dropfiles_header());
    }
    let mut i: usize = 0;
    while i < paths.len()
        invariant
            i <= paths@.len(),
            header == dropfiles_header(),
            out@ == header + paths_bytes(paths_view(paths@.subrange(0, i as int))),
        decreases paths@.len() - i,
    {
        push_wide(&mut out, &paths[i]);
        proof {
            assert(paths_view(paths@.subrange(0, i + 1)).drop_last() =~= paths_view(
                paths@.subrange(0, i as int),
            ));
            assert(paths_view(paths@.subrange(0, i + 1)).last() == paths@[i as int]@);
        }
        i = i + 1;
        proof {
            assert(out@ =~= header + paths_bytes(paths_view(paths@.subrange(0, i as int))));
        }
    }
    push_u16_le(&mut out, 0);
    proof {
        assert(paths@.subrange(0, i as int) =~= paths@);
        let ps = paths_view(paths@);
        let body = paths_bytes(ps) + le16(0);
        assert(out@ =~= header + body);
        lemma_dropfiles_paths_read_back(ps);
        assert forall|k: int| 0 <= k <= ps.flatten().len() implies #[trigger] le_u16_at(
            out@,
            DROPFILES_HEADER_SIZE + 2 * k,
        ) == ps.flatten().push(0)[k] by {
            assert(out@[20 + 2 * k] == body[2 * k]);
            assert(out@[20 + 2 * k + 1] == body[2 * k + 1]);
            assert(le_u16_at(body, 2 * k) == ps.flatten().push(0)[k]);
        }
        assert(le_u32_at(out@, 0) == 20);
    }
    Ok(out)
}

/// Cuts a wide path after its first NUL, which ends it once its prefix was stripped in place.
pub fn truncate_after_nul(wide: &mut Vec<u16>)
    ensures
        (exists|i: int| 0 <= i < old(wide)@.len() && old(wide)@[i] == 0) ==> {
            exists|e: int| {
                &&& 0 <= e < old(wide)@.len()
                &&& old(wide)@[e] == 0
                &&& (forall|j: int| 0 <= j < e ==> old(wide)@[j] != 0)
                &&& final(wide)@ == old(wide)@.subrange(0, e + 1)
            }
        },
        !(exists|i: int| 0 <= i < old(wide)@.len() && old(wide)@[i] == 0) ==> final(wide)@ == old(wide)@,
{
    let mut i: usize = 0;
    while i < wide.len()
        invariant
            i <= wide@.len(),
            wide@ == old(wide)@,
            forall|j: int| 0 <= j < i ==> wide@[j] != 0,
        decreases wide@.len() - i,
    {
        if wide[i] == 0 {
            wide.truncate(i + 1);
            return;
        }
        i = i + 1;
    }
}

/// The error code that says a buffer was too small.
pub const ERROR_INSUFFICIENT_BUFFER: u32 = 122;

/// What follows a call that writes a wide string into a buffer of `n` units.
#[derive(Clone, Copy, Debug, PartialEq, Eq, Structural)]
pub enum FillStep {
    /// The call failed.
    Failed,
    /// Call again with a buffer of this many units.
    Retry(usize),
    /// The string is the first this many units of the buffer.
    Done(usize),
}

/// Decides what follows a call that was given a buffer of `n` units and returned `k` (with
/// the thread's last error `last_error` right after): `0` is an empty string when no error
/// was set and a failure otherwise; a full buffer with `ERROR_INSUFFICIENT_BUFFER` doubles it
/// (up to `u32::MAX`); a larger `k` is the length needed; a smaller one is the string's length.
/// A full buffer without that error cannot happen, as the call never returns the buffer's
/// size on success.
pub fn fill_step(n: usize, k: u32, last_error: u32) -> (s: FillStep)
    requires
        n > 0,
        !(k as int == n && last_error != ERROR_INSUFFICIENT_BUFFER),
    ensures
        k == 0 && last_error != 0 ==> s == FillStep::Failed,
        k == 0 && last_error == 0 ==> s == FillStep::Done(0),
        k != 0 && k as int == n ==> s == FillStep::Retry(
            if 2 * n > u32::MAX {
                u32::MAX as usize
            } else {
                (2 * n) as usize
            },
        ),
        k != 0 && k as int > n ==> s == FillStep::Retry(k as usize),
        k != 0 && (k as int) < n ==> s == FillStep::Done(k as usize),
{
    if k == 0 {
        if last_error == 0 {
            return FillStep::Done(0);
        }
        return FillStep::Failed;
    }
    let k = k as usize;
    if k == n {
        let doubled = (n as u64) * 2;
        if doubled > u32::MAX as u64 {
            FillStep::Retry(u32::MAX as usize)
        } else {
            FillStep::Retry(doubled as usize)
        }
    } else if k > n {
        FillStep::Retry(k)
    } else {
        FillStep::Done(k)
    }
}

/// Where an image is read from: PNG is preferred, then `CF_DIBV5`.
#[derive(Clone, Copy, Debug, PartialEq, Eq, Structural)]
pub enum ImageSource {
    Png,
    DibV5,
}

/// Chooses the format to read an image from; neither is a missing content.
pub fn image_source(png_available: bool, dibv5_available: bool) -> (r: Result<ImageSource, Error>)
    ensures
        png_available ==> r == Ok::<ImageSource, Error>(ImageSource::Png),
        !png_available && dibv5_available ==> r == Ok::<ImageSource, Error>(ImageSource::DibV5),
        !png_available && !dibv5_available ==> r == Err::<ImageSource, Error>(Error::ContentNotAvailable),
{
    if png_available {
        Ok(ImageSource::Png)
    } else if dibv5_available {
        Ok(ImageSource::DibV5)
    } else {
        Err(Error::ContentNotAvailable)
    }
}

/// The `'LINK'` colour space tag: the profile is a file name.
pub const PROFILE_LINKED: u32 = 0x4C49_4E4B;
/// The `'MBED'` colour space tag: the profile is embedded.
pub const PROFILE_EMBEDDED: u32 = 0x4D42_4544;

/// Where the pixels of a `CF_DIBV5` payload start: after its colour profile where it has one,
/// right after the header otherwise.
pub open spec fn spec_dibv5_pixel_start(s: Seq<u8>) -> int {
    let cs_type = le_u32_at(s, 56);
    if cs_type == PROFILE_LINKED || cs_type == PROFILE_EMBEDDED {
        le_u32_at(s, 112) + le_u32_at(s, 116)
    } else {
        BITMAP_V5_HEADER_SIZE as int
    }
}

/// The offset of the pixel data of a `CF_DIBV5` payload, as `spec_dibv5_pixel_start` gives it.
pub fn dibv5_pixel_start(dibv5: &[u8]) -> (start: u64)
    requires
        dibv5@.len() >= BITMAP_V5_HEADER_SIZE,
    ensures
        start == spec_dibv5_pixel_start(dibv5@),
{
    let cs_type = read_u32_le(dibv5, 56);
    if cs_type == PROFILE_LINKED || cs_type == PROFILE_EMBEDDED {
        read_u32_le(dibv5, 112) as u64 + read_u32_le(dibv5, 116) as u64
    } else {
        BITMAP_V5_HEADER_SIZE as u64
    }
}

} // verus!
