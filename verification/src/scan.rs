//! The occurrence scanner.
//!
//! A single fold over the token stream drives an explicit state machine
//! that recognizes the three diagram syntaxes while suppressing matches
//! inside raw markup regions, and emits the ordered occurrence list. The
//! scan is all-or-nothing: the first error aborts it and no partial list is
//! returned.

use vstd::prelude::*;

use crate::errors::RenderError;
use crate::events::{EventKind, GEvent, GEventKind, MdEvent, events_view};
use crate::lit;
use crate::occurrence::{GOcc, GSource, Occurrence, SourceRef, occs_view, occs_wf};
use crate::tag;
use crate::text;

verus! {

/// The scanner's state between tokens, mathematical form.
pub enum GState {
    /// Outside any construct of interest.
    Out,
    /// Inside `depth` nested raw markup regions.
    InRaw { depth: int },
    /// Inside a fenced diagram block of the given type.
    InFenced { dtype: Seq<u8> },
    /// After an open diagram tag with an inline body; the body starts at
    /// `content_start` and the occurrence at `tag_start`.
    InInlineTag { dtype: Seq<u8>, content_start: int, tag_start: int },
    /// After an open diagram tag with an external reference.
    InReferenceTag { dtype: Seq<u8>, path: Seq<u8>, root: Option<Seq<u8>>, tag_start: int },
    /// Inside an inline image whose target is a diagram reference.
    InImage { dtype: Seq<u8>, path: Seq<u8>, link_start: int },
}

/// The scanner's state between tokens, executable form.
pub enum ParseState {
    Out,
    InRaw { depth: usize },
    InFenced { dtype: Vec<u8> },
    InInlineTag { dtype: Vec<u8>, content_start: usize, tag_start: usize },
    InReferenceTag { dtype: Vec<u8>, path: Vec<u8>, root: Option<Vec<u8>>, tag_start: usize },
    InImage { dtype: Vec<u8>, path: Vec<u8>, link_start: usize },
}

impl View for ParseState {
    type V = GState;

    open spec fn view(&self) -> GState {
        match self {
            ParseState::Out => GState::Out,
            ParseState::InRaw { depth } => GState::InRaw { depth: *depth as int },
            ParseState::InFenced { dtype } => GState::InFenced { dtype: dtype@ },
            ParseState::InInlineTag { dtype, content_start, tag_start } => GState::InInlineTag {
                dtype: dtype@,
                content_start: *content_start as int,
                tag_start: *tag_start as int,
            },
            ParseState::InReferenceTag { dtype, path, root, tag_start } => GState::InReferenceTag {
                dtype: dtype@,
                path: path@,
                root: match root {
                    Some(r) => Some(r@),
                    None => None,
                },
                tag_start: *tag_start as int,
            },
            ParseState::InImage { dtype, path, link_start } => GState::InImage {
                dtype: dtype@,
                path: path@,
                link_start: *link_start as int,
            },
        }
    }
}

/// The nesting depth of raw markup regions in a state.
pub open spec fn raw_depth(st: GState) -> int {
    match st {
        GState::InRaw { depth } => depth,
        _ => 0,
    }
}

/// Whether `h` begins with the prefix `n`.
pub open spec fn starts_with_spec(h: Seq<u8>, n: Seq<u8>) -> bool {
    n.len() <= h.len() && h.subrange(0, n.len() as int) == n
}

/// Whether `n` occurs anywhere in `h`.
pub open spec fn contains_spec(h: Seq<u8>, n: Seq<u8>) -> bool {
    text::first_match_from(h, n, 0) is Some
}

/// Split an image target url of the form `kroki-<type>:<path>`: the type is
/// the text between the prefix and the first colon, the path the rest, both
/// non-empty. Any other url is not a diagram reference.
pub open spec fn parse_image_url(url: Seq<u8>) -> Option<(Seq<u8>, Seq<u8>)> {
    if starts_with_spec(url, lit::kroki_dash()) {
        match text::first_match_from(url, seq![58u8], 6) {
            Some(k) => {
                if k > 6 && k + 1 < url.len() {
                    Some((url.subrange(6, k), url.subrange(k + 1, url.len() as int)))
                } else {
                    None
                }
            },
            None => None,
        }
    } else {
        None
    }
}

/// Match a fence info string of the form `kroki-<type>` with a non-empty
/// type. Any other info string leaves the block an ordinary code block.
pub open spec fn parse_fence_info(info: Seq<u8>) -> Option<Seq<u8>> {
    if starts_with_spec(info, lit::kroki_dash()) && info.len() > 6 {
        Some(info.subrange(6, info.len() as int))
    } else {
        None
    }
}

/// The source range of a fenced diagram block over the document range
/// `[start, end)`: from the first whitespace after the opening fence's info
/// string up to just past the last non-fence byte before the closing
/// fence. `None` when the block has no such bytes in order.
pub open spec fn fenced_source(doc: Seq<u8>, start: int, end: int) -> Option<(int, int)> {
    if !(0 <= start <= end <= doc.len()) {
        None
    } else {
        let s = doc.subrange(start, end);
        let lead = text::ws_prefix_len(s);
        let t = s.subrange(lead, s.len() as int);
        let i0 = text::non_ws_prefix_len(t);
        if i0 >= t.len() {
            None
        } else {
            let cs = start + lead + i0;
            let trail = text::ws_suffix_len(s);
            let u = s.subrange(0, s.len() - trail);
            match text::last_non_byte(u, 96) {
                None => None,
                Some(j) => {
                    let ce = start + j + 1;
                    if cs <= ce {
                        Some((cs, ce))
                    } else {
                        None
                    }
                },
            }
        }
    }
}

/// One transition of the state machine: the next state and the occurrence
/// emitted by this token, or the error that aborts the scan.
///
/// A raw-markup opening marker enters a raw region from any state; inside a
/// raw region only the closing marker acts. Outside, a markup fragment
/// beginning with the tag sentinel is classified by the tag grammar; a
/// fragment containing the closing sentinel completes an open tag; image
/// and fenced-block markers act as their syntaxes require; everything else
/// is ignored.
pub open spec fn scan_step(doc: Seq<u8>, st: GState, ev: GEvent) -> Result<
    (GState, Option<GOcc>),
    RenderError,
> {
    match ev.kind {
        GEventKind::Html { text } => {
            if text == lit::pre_open() {
                Ok((GState::InRaw { depth: raw_depth(st) + 1 }, None))
            } else if st is InRaw {
                if text == lit::pre_close() {
                    if raw_depth(st) > 1 {
                        Ok((GState::InRaw { depth: raw_depth(st) - 1 }, None))
                    } else {
                        Ok((GState::Out, None))
                    }
                } else {
                    Ok((st, None))
                }
            } else {
                match st {
                    GState::Out => {
                        if starts_with_spec(text, lit::kroki_open()) {
                            match tag::parse_kroki_fragment(text) {
                                tag::GTagOutcome::Malformed => Err(RenderError::ParseError),
                                tag::GTagOutcome::NoType => Err(RenderError::MissingAttribute),
                                tag::GTagOutcome::NoSource => Err(RenderError::MissingSourceOrPath),
                                tag::GTagOutcome::Immediate { dtype, source } => Ok(
                                    (
                                        GState::Out,
                                        Some(
                                            GOcc {
                                                diagram_type: dtype,
                                                source,
                                                start: ev.start,
                                                end: ev.end,
                                            },
                                        ),
                                    ),
                                ),
                                tag::GTagOutcome::OpenRef { dtype, path, root } => Ok(
                                    (
                                        GState::InReferenceTag {
                                            dtype,
                                            path,
                                            root,
                                            tag_start: ev.start,
                                        },
                                        None,
                                    ),
                                ),
                                tag::GTagOutcome::OpenInline { dtype } => Ok(
                                    (
                                        GState::InInlineTag {
                                            dtype,
                                            content_start: ev.end,
                                            tag_start: ev.start,
                                        },
                                        None,
                                    ),
                                ),
                            }
                        } else {
                            Ok((GState::Out, None))
                        }
                    },
                    GState::InInlineTag { dtype, content_start, tag_start } => {
                        if contains_spec(text, lit::kroki_close()) {
                            if 0 <= content_start <= ev.start && ev.start <= doc.len() {
                                Ok(
                                    (
                                        GState::Out,
                                        Some(
                                            GOcc {
                                                diagram_type: dtype,
                                                source: GSource::Inline(
                                                    doc.subrange(content_start, ev.start),
                                                ),
                                                start: tag_start,
                                                end: ev.end,
                                            },
                                        ),
                                    ),
                                )
                            } else {
                                Err(RenderError::ParseError)
                            }
                        } else {
                            Ok((st, None))
                        }
                    },
                    GState::InReferenceTag { dtype, path, root, tag_start } => {
                        if contains_spec(text, lit::kroki_close()) {
                            Ok(
                                (
                                    GState::Out,
                                    Some(
                                        GOcc {
                                            diagram_type: dtype,
                                            source: GSource::External { path, root },
                                            start: tag_start,
                                            end: ev.end,
                                        },
                                    ),
                                ),
                            )
                        } else {
                            Ok((st, None))
                        }
                    },
                    _ => Ok((st, None)),
                }
            }
        },
        GEventKind::ImageStart { url } => {
            match st {
                GState::Out => {
                    match parse_image_url(url) {
                        Some((dtype, path)) => Ok(
                            (GState::InImage { dtype, path, link_start: ev.start }, None),
                        ),
                        None => Ok((GState::Out, None)),
                    }
                },
                _ => Ok((st, None)),
            }
        },
        GEventKind::ImageEnd => {
            match st {
                GState::InImage { dtype, path, link_start } => Ok(
                    (
                        GState::Out,
                        Some(
                            GOcc {
                                diagram_type: dtype,
                                source: GSource::External { path, root: None },
                                start: link_start,
                                end: ev.end,
                            },
                        ),
                    ),
                ),
                _ => Ok((st, None)),
            }
        },
        GEventKind::CodeStart { info } => {
            match st {
                GState::Out => {
                    match parse_fence_info(info) {
                        Some(dtype) => Ok((GState::InFenced { dtype }, None)),
                        None => Ok((GState::Out, None)),
                    }
                },
                _ => Ok((st, None)),
            }
        },
        GEventKind::CodeEnd => {
            match st {
                GState::InFenced { dtype } => {
                    match fenced_source(doc, ev.start, ev.end) {
                        Some((cs, ce)) => Ok(
                            (
                                GState::Out,
                                Some(
                                    GOcc {
                                        diagram_type: dtype,
                                        source: GSource::Inline(doc.subrange(cs, ce)),
                                        start: ev.start,
                                        end: ev.end,
                                    },
                                ),
                            ),
                        ),
                        None => Err(RenderError::ParseError),
                    }
                },
                _ => Ok((st, None)),
            }
        },
        GEventKind::Other => Ok((st, None)),
    }
}

/// The fold of [`scan_step`] over the tokens from index `i` on. An emitted
/// occurrence must begin at or after the end of the previous one and hold
/// a non-empty range within the document; a token stream that violates
/// this is rejected as unparsable.
pub open spec fn scan_from(
    doc: Seq<u8>,
    evs: Seq<GEvent>,
    i: int,
    st: GState,
    acc: Seq<GOcc>,
    last_end: int,
) -> Result<Seq<GOcc>, RenderError>
    decreases evs.len() - i,
    when 0 <= i <= evs.len()
{
    if i >= evs.len() {
        Ok(acc)
    } else {
        match scan_step(doc, st, evs[i]) {
            Err(e) => Err(e),
            Ok((st2, None)) => scan_from(doc, evs, i + 1, st2, acc, last_end),
            Ok((st2, Some(occ))) => {
                if last_end <= occ.start && occ.start < occ.end && occ.end <= doc.len() {
                    scan_from(doc, evs, i + 1, st2, acc.push(occ), occ.end)
                } else {
                    Err(RenderError::ParseError)
                }
            },
        }
    }
}

/// The whole scan of a document against its token stream: the ordered
/// occurrence list, or the first error.
pub open spec fn scan_spec(doc: Seq<u8>, evs: Seq<GEvent>) -> Result<Seq<GOcc>, RenderError> {
    scan_from(doc, evs, 0, GState::Out, Seq::empty(), 0)
}

/// A successful scan emits non-empty, pairwise disjoint ranges in strictly
/// increasing order, all within the document.
pub proof fn lemma_scan_from_wf(
    doc: Seq<u8>,
    evs: Seq<GEvent>,
    i: int,
    st: GState,
    acc: Seq<GOcc>,
    last_end: int,
)
    requires
        0 <= i <= evs.len(),
        0 <= last_end <= doc.len(),
        occs_wf(acc, doc.len() as int),
        forall|k: int| 0 <= k < acc.len() ==> (#[trigger] acc[k]).end <= last_end,
    ensures
        match scan_from(doc, evs, i, st, acc, last_end) {
            Ok(res) => occs_wf(res, doc.len() as int),
            Err(_) => true,
        },
    decreases evs.len() - i,
{
    if i >= evs.len() {
    } else {
        match scan_step(doc, st, evs[i]) {
            Err(_) => {},
            Ok((st2, None)) => {
                lemma_scan_from_wf(doc, evs, i + 1, st2, acc, last_end);
            },
            Ok((st2, Some(occ))) => {
                if last_end <= occ.start && occ.start < occ.end && occ.end <= doc.len() {
                    lemma_scan_from_wf(doc, evs, i + 1, st2, acc.push(occ), occ.end);
                }
            },
        }
    }
}

/// A successful whole scan satisfies the occurrence invariant.
pub proof fn lemma_scan_spec_wf(doc: Seq<u8>, evs: Seq<GEvent>)
    ensures
        match scan_spec(doc, evs) {
            Ok(res) => occs_wf(res, doc.len() as int),
            Err(_) => true,
        },
{
    lemma_scan_from_wf(doc, evs, 0, GState::Out, Seq::empty(), 0);
}

/// Whether an event is the raw-markup opening marker.
pub open spec fn is_raw_open(ev: GEvent) -> bool {
    ev.kind matches GEventKind::Html { text } && text == lit::pre_open()
}

/// Whether an event is the raw-markup closing marker.
pub open spec fn is_raw_close(ev: GEvent) -> bool {
    ev.kind matches GEventKind::Html { text } && text == lit::pre_close()
}

/// Raw-region depth correctness: inside a raw region no token emits an
/// occurrence and no token errors; the opening marker deepens the region
/// by one, the closing marker lifts it by one — leaving the region only
/// when it closes the outermost level — and every other token, a
/// diagram-syntax token included, leaves the state untouched.
pub proof fn lemma_raw_region_depth(doc: Seq<u8>, st: GState, ev: GEvent)
    requires
        st is InRaw,
        raw_depth(st) >= 1,
    ensures
        scan_step(doc, st, ev) matches Ok((st2, occ)) && occ is None && (if is_raw_open(ev) {
            st2 == (GState::InRaw { depth: raw_depth(st) + 1 })
        } else if is_raw_close(ev) {
            if raw_depth(st) > 1 {
                st2 == (GState::InRaw { depth: raw_depth(st) - 1 })
            } else {
                st2 == GState::Out
            }
        } else {
            st2 == st
        }),
{
    match ev.kind {
        GEventKind::Html { text } => {},
        GEventKind::ImageStart { url } => {},
        GEventKind::ImageEnd => {},
        GEventKind::CodeStart { info } => {},
        GEventKind::CodeEnd => {},
        GEventKind::Other => {},
    }
}

/// The view of an optional occurrence.
pub open spec fn opt_occ_view(o: Option<Occurrence>) -> Option<GOcc> {
    match o {
        Some(x) => Some(x@),
        None => None,
    }
}

/// Match a fence info string, executable form.
pub fn parse_fence_info_exec(info: &[u8]) -> (r: Option<Vec<u8>>)
    ensures
        match r {
            Some(t) => parse_fence_info(info@) == Some(t@),
            None => parse_fence_info(info@) is None,
        },
{
    if text::starts_with(info, lit::kroki_dash_lit()) && info.len() > 6 {
        Some(text::subvec(info, 6, info.len()))
    } else {
        None
    }
}

/// Split an image target url, executable form.
pub fn parse_image_url_exec(url: &[u8]) -> (r: Option<(Vec<u8>, Vec<u8>)>)
    ensures
        match r {
            Some((t, p)) => parse_image_url(url@) == Some((t@, p@)),
            None => parse_image_url(url@) is None,
        },
{
    if !text::starts_with(url, lit::kroki_dash_lit()) {
        return None;
    }
    let ul = url.len();
    match text::find_from(url, lit::colon_lit(), 6) {
        Some(k) => {
            proof {
                text::lemma_first_match_props(url@, lit::colon(), 6);
            }
            if k > 6 && k + 1 < ul {
                Some((text::subvec(url, 6, k), text::subvec(url, k + 1, url.len())))
            } else {
                None
            }
        },
        None => None,
    }
}

/// The source range of a fenced diagram block, executable form.
pub fn fenced_source_exec(doc: &[u8], start: usize, end: usize) -> (r: Option<(usize, usize)>)
    ensures
        match r {
            Some((cs, ce)) => fenced_source(doc@, start as int, end as int) == Some(
                (cs as int, ce as int),
            ) && start <= cs <= ce <= end,
            None => fenced_source(doc@, start as int, end as int) is None,
        },
{
    if start > end || end > doc.len() {
        return None;
    }
    let ghost s = doc@.subrange(start as int, end as int);
    let lead = text::ws_prefix_exec(doc, start, end);
    proof {
        text::lemma_ws_prefix_len(s);
        assert(s.subrange(lead as int, s.len() as int) =~= doc@.subrange(
            start + lead,
            end as int,
        ));
    }
    let i0 = text::non_ws_prefix_exec(doc, start + lead, end);
    if i0 >= end - (start + lead) {
        return None;
    }
    let cs = start + lead + i0;
    let trail = text::ws_suffix_exec(doc, start, end);
    proof {
        text::lemma_ws_suffix_len(s);
        assert(s.subrange(0, s.len() - trail) =~= doc@.subrange(start as int, end - trail));
    }
    match text::last_non_byte_exec(doc, start, end - trail, 96) {
        None => None,
        Some(j) => {
            let ce = j + 1;
            if cs <= ce {
                Some((cs, ce))
            } else {
                None
            }
        },
    }
}

/// One transition of the state machine, executable form.
pub fn scan_step_exec(doc: &Vec<u8>, st: ParseState, ev: &MdEvent) -> (r: Result<
    (ParseState, Option<Occurrence>),
    RenderError,
>)
    requires
        raw_depth(st@) < usize::MAX as int,
    ensures
        match r {
            Ok((st2, occ)) => scan_step(doc@, st@, ev@) == Ok::<_, RenderError>(
                (st2@, opt_occ_view(occ)),
            ) && raw_depth(st2@) <= raw_depth(st@) + 1,
            Err(e) => scan_step(doc@, st@, ev@) == Err::<(GState, Option<GOcc>), _>(e),
        },
{
    match &ev.kind {
        EventKind::Html { text } => {
            if text::bytes_eq(text.as_slice(), lit::pre_open_lit()) {
                let d: usize = match &st {
                    ParseState::InRaw { depth } => *depth,
                    _ => 0,
                };
                return Ok((ParseState::InRaw { depth: d + 1 }, None));
            }
            let in_raw = matches!(&st, ParseState::InRaw { .. });
            if in_raw {
                if text::bytes_eq(text.as_slice(), lit::pre_close_lit()) {
                    let d: usize = match &st {
                        ParseState::InRaw { depth } => *depth,
                        _ => 0,
                    };
                    if d > 1 {
                        return Ok((ParseState::InRaw { depth: d - 1 }, None));
                    } else {
                        return Ok((ParseState::Out, None));
                    }
                }
                return Ok((st, None));
            }
            match st {
                ParseState::Out => {
                    if text::starts_with(text.as_slice(), lit::kroki_open_lit()) {
                        match tag::parse_tag_exec(text.as_slice()) {
                            tag::TagAction::Malformed => Err(RenderError::ParseError),
                            tag::TagAction::NoType => Err(RenderError::MissingAttribute),
                            tag::TagAction::NoSource => Err(RenderError::MissingSourceOrPath),
                            tag::TagAction::Immediate { dtype, source } => Ok(
                                (
                                    ParseState::Out,
                                    Some(
                                        Occurrence {
                                            diagram_type: dtype,
                                            source,
                                            start: ev.start,
                                            end: ev.end,
                                        },
                                    ),
                                ),
                            ),
                            tag::TagAction::OpenRef { dtype, path, root } => Ok(
                                (
                                    ParseState::InReferenceTag {
                                        dtype,
                                        path,
                                        root,
                                        tag_start: ev.start,
                                    },
                                    None,
                                ),
                            ),
                            tag::TagAction::OpenInline { dtype } => Ok(
                                (
                                    ParseState::InInlineTag {
                                        dtype,
                                        content_start: ev.end,
                                        tag_start: ev.start,
                                    },
                                    None,
                                ),
                            ),
                        }
                    } else {
                        Ok((ParseState::Out, None))
                    }
                },
                ParseState::InInlineTag { dtype, content_start, tag_start } => {
                    if text::contains(text.as_slice(), lit::kroki_close_lit()) {
                        if content_start <= ev.start && ev.start <= doc.len() {
                            Ok(
                                (
                                    ParseState::Out,
                                    Some(
                                        Occurrence {
                                            diagram_type: dtype,
                                            source: SourceRef::Inline(
                                                text::subvec(doc.as_slice(), content_start, ev.start),
                                            ),
                                            start: tag_start,
                                            end: ev.end,
                                        },
                                    ),
                                ),
                            )
                        } else {
                            Err(RenderError::ParseError)
                        }
                    } else {
                        Ok((ParseState::InInlineTag { dtype, content_start, tag_start }, None))
                    }
                },
                ParseState::InReferenceTag { dtype, path, root, tag_start } => {
                    if text::contains(text.as_slice(), lit::kroki_close_lit()) {
                        Ok(
                            (
                                ParseState::Out,
                                Some(
                                    Occurrence {
                                        diagram_type: dtype,
                                        source: SourceRef::External { path, root },
                                        start: tag_start,
                                        end: ev.end,
                                    },
                                ),
                            ),
                        )
                    } else {
                        Ok((ParseState::InReferenceTag { dtype, path, root, tag_start }, None))
                    }
                },
                other => Ok((other, None)),
            }
        },
        EventKind::ImageStart { url } => {
            match st {
                ParseState::Out => {
                    match parse_image_url_exec(url.as_slice()) {
                        Some((dtype, path)) => Ok(
                            (ParseState::InImage { dtype, path, link_start: ev.start }, None),
                        ),
                        None => Ok((ParseState::Out, None)),
                    }
                },
                other => Ok((other, None)),
            }
        },
        EventKind::ImageEnd => {
            match st {
                ParseState::InImage { dtype, path, link_start } => Ok(
                    (
                        ParseState::Out,
                        Some(
                            Occurrence {
                                diagram_type: dtype,
                                source: SourceRef::External { path, root: None },
                                start: link_start,
                                end: ev.end,
                            },
                        ),
                    ),
                ),
                other => Ok((other, None)),
            }
        },
        EventKind::CodeStart { info } => {
            match st {
                ParseState::Out => {
                    match parse_fence_info_exec(info.as_slice()) {
                        Some(dtype) => Ok((ParseState::InFenced { dtype }, None)),
                        None => Ok((ParseState::Out, None)),
                    }
                },
                other => Ok((other, None)),
            }
        },
        EventKind::CodeEnd => {
            match st {
                ParseState::InFenced { dtype } => {
                    match fenced_source_exec(doc.as_slice(), ev.start, ev.end) {
                        Some((cs, ce)) => Ok(
                            (
                                ParseState::Out,
                                Some(
                                    Occurrence {
                                        diagram_type: dtype,
                                        source: SourceRef::Inline(
                                            text::subvec(doc.as_slice(), cs, ce),
                                        ),
                                        start: ev.start,
                                        end: ev.end,
                                    },
                                ),
                            ),
                        ),
                        None => Err(RenderError::ParseError),
                    }
                },
                other => Ok((other, None)),
            }
        },
        EventKind::Other => Ok((st, None)),
    }
}

/// Scan a document against its token stream: the ordered occurrence list,
/// or the first error. The scan mutates nothing and returns no partial
/// list on error.
pub fn scan_events(doc: &Vec<u8>, events: &Vec<MdEvent>) -> (r: Result<
    Vec<Occurrence>,
    RenderError,
>)
    ensures
        match r {
            Ok(v) => scan_spec(doc@, events_view(events@)) == Ok::<Seq<GOcc>, RenderError>(
                occs_view(v@),
            ) && occs_wf(occs_view(v@), doc@.len() as int),
            Err(e) => scan_spec(doc@, events_view(events@)) == Err::<Seq<GOcc>, RenderError>(e),
        },
{
    let mut st = ParseState::Out;
    let mut acc: Vec<Occurrence> = Vec::new();
    let mut last_end: usize = 0;
    let mut i: usize = 0;
    proof {
        assert(occs_view(acc@) =~= Seq::<GOcc>::empty());
    }
    while i < events.len()
        invariant
            0 <= i <= events@.len(),
            last_end <= doc@.len(),
            raw_depth(st@) <= i,
            occs_wf(occs_view(acc@), doc@.len() as int),
            forall|k: int|
                0 <= k < acc@.len() ==> (#[trigger] occs_view(acc@)[k]).end <= last_end,
            scan_spec(doc@, events_view(events@)) == scan_from(
                doc@,
                events_view(events@),
                i as int,
                st@,
                occs_view(acc@),
                last_end as int,
            ),
        decreases events@.len() - i,
    {
        let ev = &events[i];
        proof {
            assert(events_view(events@)[i as int] == events@[i as int]@);
        }
        match scan_step_exec(doc, st, ev) {
            Err(e) => {
                return Err(e);
            },
            Ok((st2, occ_opt)) => {
                st = st2;
                match occ_opt {
                    None => {},
                    Some(occ) => {
                        if last_end <= occ.start && occ.start < occ.end && occ.end <= doc.len() {
                            last_end = occ.end;
                            let ghost old_acc = acc@;
                            acc.push(occ);
                            proof {
                                assert(occs_view(acc@) =~= occs_view(old_acc).push(
                                    acc@[acc@.len() - 1]@,
                                ));
                            }
                        } else {
                            return Err(RenderError::ParseError);
                        }
                    },
                }
            },
        }
        i += 1;
    }
    Ok(acc)
}

} // verus!
