//! Discovery: classifying per-index probe results into candidates.
//!
//! For every backend kind a bounded range of display indices is probed;
//! each probe either yields a live endpoint or fails in one of a few
//! recognized ways. An absent backend is skipped silently, an
//! unsupported protocol on a live display is skipped with a warning, and
//! any other error is contained to its own index: it never aborts the
//! discovery of the remaining indices.

use vstd::prelude::*;

use crate::endpoint::Endpoint;
use crate::endpoint::WlrClipboard;
use crate::endpoint::X11Clipboard;
use crate::endpoint::spec_wayland_display_name;
use crate::endpoint::wayland_display_name;

verus! {

/// The ways a Wayland paste attempt is seen to fail, as the engine
/// distinguishes them.
#[derive(Debug)]
pub enum PasteErrorKind {
    /// No compositor listens on the probed display.
    NoCompositorListening,
    /// A compositor listens but does not offer the data-control
    /// protocol the paste needs.
    MissingDataControlProtocol,
    /// The display has no seat to take the selection from.
    NoSeats,
    /// The clipboard holds nothing.
    ClipboardEmpty,
    /// The clipboard holds no text.
    NoMimeType,
    /// Any other failure, already rendered as text.
    Other(String),
}

impl PasteErrorKind {
    /// Failures that mean "there is no text", not "the read failed".
    pub open spec fn is_empty_read(self) -> bool {
        self is NoSeats || self is ClipboardEmpty || self is NoMimeType
    }
}

/// A raw paste result with the empty-clipboard failures folded into an
/// empty string.
pub open spec fn spec_normalize_paste(result: Result<Seq<char>, PasteErrorKind>) -> Result<
    Seq<char>,
    PasteErrorKind,
> {
    match result {
        Ok(s) => Ok(s),
        Err(e) => if e.is_empty_read() {
            Ok(Seq::<char>::empty())
        } else {
            Err(e)
        },
    }
}

/// Folds the "clipboard is empty" flavors of a failed paste into a
/// successful empty read, as a caller of the paste sees them.
pub fn normalize_paste(result: Result<String, PasteErrorKind>) -> (r: Result<
    String,
    PasteErrorKind,
>)
    ensures
        match r {
            Ok(s) => spec_normalize_paste(spec_paste_views(result)) == Ok::<
                Seq<char>,
                PasteErrorKind,
            >(s@),
            Err(e) => spec_normalize_paste(spec_paste_views(result)) == Err::<
                Seq<char>,
                PasteErrorKind,
            >(e),
        },
{
    match result {
        Ok(s) => Ok(s),
        Err(PasteErrorKind::NoSeats) => Ok(String::new()),
        Err(PasteErrorKind::ClipboardEmpty) => Ok(String::new()),
        Err(PasteErrorKind::NoMimeType) => Ok(String::new()),
        Err(e) => Err(e),
    }
}

/// The paste result with the payload abstracted to its view.
pub open spec fn spec_paste_views(result: Result<String, PasteErrorKind>) -> Result<
    Seq<char>,
    PasteErrorKind,
> {
    match result {
        Ok(s) => Ok(s@),
        Err(e) => Err(e),
    }
}

/// What one probed display index came to.
#[derive(Debug)]
pub enum ProbeOutcome {
    /// A live endpoint answered.
    Found(Endpoint),
    /// No backend listens on this index; skipped silently.
    Absent,
    /// A live display without the needed protocol; skipped with a
    /// warning.
    Unsupported,
    /// The X11 backend could not open its connection; collected for one
    /// summary warning.
    XcbConnectionFailed,
    /// Any other error, contained to this index.
    UnexpectedError(String),
}

/// Classification of a Wayland probe at index `n` from the (already
/// normalized) result of its first read.
pub fn classify_wayland_probe(n: u8, attempt: Result<String, PasteErrorKind>) -> (r: ProbeOutcome)
    ensures
        attempt is Ok ==> (r matches ProbeOutcome::Found(e) && e matches Endpoint::Wlr(c)
            && c.display@ == spec_wayland_display_name(n)),
        attempt matches Err(e) ==> match e {
            PasteErrorKind::NoCompositorListening => r is Absent,
            PasteErrorKind::MissingDataControlProtocol => r is Unsupported,
            _ => (r matches ProbeOutcome::UnexpectedError(m) && m@ == rendered_paste_error(e)),
        },
{
    match attempt {
        Ok(_) => ProbeOutcome::Found(
            Endpoint::Wlr(WlrClipboard { display: wayland_display_name(n) }),
        ),
        Err(PasteErrorKind::NoCompositorListening) => ProbeOutcome::Absent,
        Err(PasteErrorKind::MissingDataControlProtocol) => ProbeOutcome::Unsupported,
        Err(e) => ProbeOutcome::UnexpectedError(render_paste_error(e)),
    }
}

/// The ways an X11 probe is seen to fail.
#[derive(Debug)]
pub enum X11ErrorKind {
    /// The backend's connection to the X server could not be opened.
    XcbConnection,
    /// Any other failure, already rendered as text.
    Other(String),
}

/// Classification of an X11 probe from the result of its first read.
/// The probed endpoint is passed in because the X11 descriptor is built
/// before the read.
pub fn classify_x11_probe(candidate: X11Clipboard, attempt: Result<String, X11ErrorKind>) -> (r:
    ProbeOutcome)
    ensures
        attempt is Ok ==> (r matches ProbeOutcome::Found(e) && e matches Endpoint::X11(c)
            && c.display@ == candidate.display@),
        attempt matches Err(X11ErrorKind::XcbConnection) ==> r is XcbConnectionFailed,
        attempt matches Err(X11ErrorKind::Other(m)) ==> (r
            matches ProbeOutcome::UnexpectedError(m2) && m2@ == m@),
{
    match attempt {
        Ok(_) => ProbeOutcome::Found(Endpoint::X11(candidate)),
        Err(X11ErrorKind::XcbConnection) => ProbeOutcome::XcbConnectionFailed,
        Err(X11ErrorKind::Other(m)) => ProbeOutcome::UnexpectedError(m),
    }
}

/// Whether `pat` occurs in `text` starting at position `i`.
pub open spec fn spec_match_at(text: Seq<char>, pat: Seq<char>, i: int) -> bool {
    0 <= i && i + pat.len() <= text.len() && (forall|k: int|
        0 <= k < pat.len() ==> text[i + k] == #[trigger] pat[k])
}

/// Whether `pat` occurs anywhere in `text`.
pub open spec fn spec_contains(text: Seq<char>, pat: Seq<char>) -> bool {
    exists|i: int| #[trigger] spec_match_at(text, pat, i)
}

fn match_at(text: &str, pattern: &str, i: usize, m: usize) -> (r: bool)
    requires
        i + m <= text@.len(),
        i + m <= usize::MAX,
        m == pattern@.len(),
    ensures
        r == spec_match_at(text@, pattern@, i as int),
{
    let mut k: usize = 0;
    while k < m
        invariant
            k <= m,
            i + m <= text@.len(),
            i + m <= usize::MAX,
            m == pattern@.len(),
            forall|t: int| 0 <= t < k ==> text@[i + t] == #[trigger] pattern@[t],
        decreases m - k,
    {
        if text.get_char(i + k) != pattern.get_char(k) {
            return false;
        }
        k = k + 1;
    }
    true
}

/// Whether the pattern occurs in the text, by characters.
fn str_contains(text: &str, pattern: &str) -> (r: bool)
    ensures
        r == spec_contains(text@, pattern@),
{
    let n = text.unicode_len();
    let m = pattern.unicode_len();
    if m > n {
        return false;
    }
    let mut i: usize = 0;
    while i <= n - m
        invariant
            m <= n == text@.len(),
            m == pattern@.len(),
            i <= n - m + 1,
            forall|j: int| 0 <= j < i ==> !(#[trigger] spec_match_at(text@, pattern@, j)),
        decreases n - m - i + 1,
    {
        if match_at(text, pattern, i, m) {
            return true;
        }
        i = i + 1;
    }
    false
}

/// The message text the X11 backend reports a failed server connection
/// with; seeing it in a probe failure marks the expected
/// connection-failure kind.
pub open spec fn xcb_connection_marker() -> Seq<char> {
    "XCB connection error: Connection"@
}

/// Classification of a rendered X11 failure message: the known
/// connection-failure text is the expected kind collected for one
/// summary warning, anything else stays an unexpected error with its
/// message.
pub fn classify_x11_message(message: String) -> (r: X11ErrorKind)
    ensures
        spec_contains(message@, xcb_connection_marker()) ==> r is XcbConnection,
        !spec_contains(message@, xcb_connection_marker()) ==> (r matches X11ErrorKind::Other(m)
            && m@ == message@),
{
    if str_contains(message.as_str(), "XCB connection error: Connection") {
        X11ErrorKind::XcbConnection
    } else {
        X11ErrorKind::Other(message)
    }
}

/// The message text an unexpected paste failure is reported with.
pub open spec fn rendered_paste_error(e: PasteErrorKind) -> Seq<char> {
    match e {
        PasteErrorKind::NoSeats => "no seats on the probed display"@,
        PasteErrorKind::ClipboardEmpty => "clipboard is empty"@,
        PasteErrorKind::NoMimeType => "clipboard holds no text"@,
        PasteErrorKind::Other(m) => m@,
        _ => ""@,
    }
}

fn render_paste_error(e: PasteErrorKind) -> (r: String)
    ensures
        r@ == rendered_paste_error(e),
{
    proof {
        reveal_strlit("");
        assert(""@ =~= Seq::<char>::empty());
    }
    match e {
        PasteErrorKind::NoSeats => String::from_str("no seats on the probed display"),
        PasteErrorKind::ClipboardEmpty => String::from_str("clipboard is empty"),
        PasteErrorKind::NoMimeType => String::from_str("clipboard holds no text"),
        PasteErrorKind::Other(m) => m,
        _ => String::new(),
    }
}

/// The endpoints of the successful probes, in probe order.
pub open spec fn spec_candidates(outcomes: Seq<ProbeOutcome>) -> Seq<Endpoint>
    decreases outcomes.len(),
{
    if outcomes.len() == 0 {
        Seq::empty()
    } else {
        let rest = spec_candidates(outcomes.drop_last());
        match outcomes.last() {
            ProbeOutcome::Found(e) => rest.push(e),
            _ => rest,
        }
    }
}

/// The probe indices whose X11 connection failed, in probe order.
pub open spec fn spec_xcb_failed(outcomes: Seq<ProbeOutcome>) -> Seq<u8>
    decreases outcomes.len(),
{
    if outcomes.len() == 0 {
        Seq::empty()
    } else {
        let rest = spec_xcb_failed(outcomes.drop_last());
        if outcomes.last() is XcbConnectionFailed {
            rest.push((outcomes.len() - 1) as u8)
        } else {
            rest
        }
    }
}

/// What one backend kind's probe sweep produced.
#[derive(Debug)]
pub struct DiscoveryReport {
    /// Live endpoints, in probe order; duplicates not yet removed.
    pub candidates: Vec<Endpoint>,
    /// Indices whose X11 connection failed, for one summary warning.
    pub xcb_failed: Vec<u8>,
}

/// Collects one backend kind's probe outcomes, index by index, into the
/// candidate list. A failure at one index never hides the endpoints
/// found at the others.
pub fn collect_candidates(outcomes: Vec<ProbeOutcome>) -> (r: DiscoveryReport)
    requires
        outcomes@.len() <= 256,
    ensures
        r.candidates@ == spec_candidates(outcomes@),
        r.xcb_failed@ == spec_xcb_failed(outcomes@),
{
    let ghost all = outcomes@;
    let mut outcomes = outcomes;
    let mut candidates: Vec<Endpoint> = Vec::new();
    let mut xcb_failed: Vec<u8> = Vec::new();
    let mut i: usize = 0;
    let n = outcomes.len();
    while i < n
        invariant
            n == all.len() <= 256,
            i <= n,
            outcomes@ == all.skip(i as int),
            candidates@ == spec_candidates(all.take(i as int)),
            xcb_failed@ == spec_xcb_failed(all.take(i as int)),
        decreases n - i,
    {
        let outcome = outcomes.remove(0);
        proof {
            assert(outcome == all[i as int]);
            assert(all.skip(i as int).skip(1) =~= all.skip(i + 1));
            assert(all.take(i + 1).drop_last() =~= all.take(i as int));
            assert(all.take(i + 1).last() == all[i as int]);
        }
        match outcome {
            ProbeOutcome::Found(e) => {
                candidates.push(e);
            },
            ProbeOutcome::XcbConnectionFailed => {
                xcb_failed.push(i as u8);
            },
            _ => {},
        }
        i = i + 1;
    }
    proof {
        assert(all.take(n as int) =~= all);
    }
    DiscoveryReport { candidates, xcb_failed }
}

/// Candidate ordering across backend kinds: every Wayland candidate
/// comes before every X11 candidate. This is the preferred-backend
/// tie-break the deduplication's earlier-wins rule builds on.
pub fn combine_backends(wayland: Vec<Endpoint>, x11: Vec<Endpoint>) -> (r: Vec<Endpoint>)
    ensures
        r@ == wayland@ + x11@,
{
    let mut combined = wayland;
    let mut rest = x11;
    combined.append(&mut rest);
    combined
}

/// Discovery fault isolation: a probe that fails at index `k` takes
/// nothing away from the other indices; every endpoint found by any
/// probe is in the candidate list.
pub proof fn lemma_discovery_fault_isolation(outcomes: Seq<ProbeOutcome>, k: int)
    requires
        0 <= k < outcomes.len(),
        !(outcomes[k] is Found),
    ensures
        forall|i: int|
            0 <= i < outcomes.len() && #[trigger] (outcomes[i]) is Found
                ==> spec_candidates(outcomes).contains(outcomes[i]->Found_0),
{
    assert forall|i: int|
        0 <= i < outcomes.len() && #[trigger] (outcomes[i]) is Found implies spec_candidates(
        outcomes,
    ).contains(outcomes[i]->Found_0) by {
        lemma_found_in_candidates(outcomes, i);
    }
}

/// Every successful probe's endpoint appears among the candidates.
pub proof fn lemma_found_in_candidates(outcomes: Seq<ProbeOutcome>, i: int)
    requires
        0 <= i < outcomes.len(),
        outcomes[i] is Found,
    ensures
        spec_candidates(outcomes).contains(outcomes[i]->Found_0),
    decreases outcomes.len(),
{
    let cs = spec_candidates(outcomes);
    if i == outcomes.len() - 1 {
        assert(cs.last() == outcomes[i]->Found_0);
        assert(cs.contains(outcomes[i]->Found_0));
    } else {
        lemma_found_in_candidates(outcomes.drop_last(), i);
        let rest = spec_candidates(outcomes.drop_last());
        let e = outcomes[i]->Found_0;
        let j = choose|j: int| 0 <= j < rest.len() && rest[j] == e;
        assert(cs[j] == e);
        assert(cs.contains(e));
    }
}

} // verus!
