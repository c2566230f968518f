//! The token-stream interface of the scanner.
//!
//! An external markdown tokenizer turns the document into a sequence of
//! events, each carrying its exact byte range in the document. The scanner
//! consumes only this interface; the tokenizer itself is trusted, and its
//! output for a given document is given the name [`md_events_of`].

use vstd::prelude::*;

use pulldown_cmark::{CodeBlockKind, Event, LinkType, Options, Parser, Tag, TagEnd};

verus! {

/// What a token says, with the text the scanner inspects copied out.
pub enum EventKind {
    /// A fragment of raw markup (block-level or inline).
    Html { text: Vec<u8> },
    /// Start of an inline image with its target url.
    ImageStart { url: Vec<u8> },
    /// End of an inline image.
    ImageEnd,
    /// Start of a fenced code block with its info string.
    CodeStart { info: Vec<u8> },
    /// End of a code block.
    CodeEnd,
    /// Any other token; the scanner ignores it.
    Other,
}

/// One token: its kind and its byte range `[start, end)` in the document.
pub struct MdEvent {
    pub kind: EventKind,
    pub start: usize,
    pub end: usize,
}

/// The mathematical form of an event kind.
pub enum GEventKind {
    Html { text: Seq<u8> },
    ImageStart { url: Seq<u8> },
    ImageEnd,
    CodeStart { info: Seq<u8> },
    CodeEnd,
    Other,
}

/// The mathematical form of an event.
pub struct GEvent {
    pub kind: GEventKind,
    pub start: int,
    pub end: int,
}

impl View for MdEvent {
    type V = GEvent;

    open spec fn view(&self) -> GEvent {
        GEvent {
            kind: match self.kind {
                EventKind::Html { text } => GEventKind::Html { text: text@ },
                EventKind::ImageStart { url } => GEventKind::ImageStart { url: url@ },
                EventKind::ImageEnd => GEventKind::ImageEnd,
                EventKind::CodeStart { info } => GEventKind::CodeStart { info: info@ },
                EventKind::CodeEnd => GEventKind::CodeEnd,
                EventKind::Other => GEventKind::Other,
            },
            start: self.start as int,
            end: self.end as int,
        }
    }
}

/// The views of a sequence of events.
pub open spec fn events_view(evs: Seq<MdEvent>) -> Seq<GEvent> {
    evs.map_values(|e: MdEvent| e@)
}

/// Every event range lies within a document of length `len`.
pub open spec fn events_wf(evs: Seq<GEvent>, len: int) -> bool {
    forall|i: int|
        0 <= i < evs.len() ==> 0 <= (#[trigger] evs[i]).start <= evs[i].end <= len
}

/// The event stream of a document, as the external tokenizer produces it:
/// `None` when the bytes are not valid UTF-8, otherwise the tokens in
/// document order. Tokenizing is a pure function of the document bytes.
pub uninterp spec fn md_events_of(doc: Seq<u8>) -> Option<Seq<GEvent>>;

/// The tokenizer's event type, declared so that the conversion below can
/// take it.
#[verifier::external_type_specification]
#[verifier::external_body]
pub struct ExEvent<'a>(Event<'a>);

/// Relies on the shape of `pulldown_cmark::Event` alone: each variant the
/// scanner inspects is copied out with its text, every other variant
/// becomes an ignored token.
#[verifier::external_body]
fn convert_event(e: Event<'_>, start: usize, end: usize) -> (r: MdEvent)
    ensures
        r.start == start,
        r.end == end,
{
    let kind = match e {
        Event::Html(t) | Event::InlineHtml(t) => EventKind::Html { text: t.as_bytes().to_vec() },
        Event::Start(Tag::Image { link_type: LinkType::Inline, dest_url, .. }) => EventKind::ImageStart { url: dest_url.as_bytes().to_vec() },
        Event::Start(Tag::CodeBlock(CodeBlockKind::Fenced(info))) => EventKind::CodeStart { info: info.as_bytes().to_vec() },
        Event::End(TagEnd::Image) => EventKind::ImageEnd,
        Event::End(TagEnd::CodeBlock) => EventKind::CodeEnd,
        _ => EventKind::Other,
    };
    MdEvent { kind, start, end }
}

/// Relies on `pulldown_cmark::Parser` and its `into_offset_iter`: the parser
/// yields each event together with its byte range in the source, so every
/// range lies within the document; parsing is deterministic in the source
/// text. Relies on `str::from_utf8` to reject bytes that are not UTF-8.
#[verifier::external_body]
pub(crate) fn tokenize(doc: &Vec<u8>) -> (r: Option<Vec<MdEvent>>)
    ensures
        match r {
            Some(evs) => md_events_of(doc@) == Some(events_view(evs@)) && events_wf(
                events_view(evs@),
                doc@.len() as int,
            ),
            None => md_events_of(doc@) is None,
        },
{
    let s = match core::str::from_utf8(doc.as_slice()) { Ok(s) => s, Err(_) => return None };
    Some(Parser::new_ext(s, Options::all()).into_offset_iter().map(|(e, r)| {
        convert_event(e, r.start, r.end)
    }).collect())
}

} // verus!
