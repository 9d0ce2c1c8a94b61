//! The Markdown event stream a release body is walked with, reduced to what
//! the section builder reads.
use vstd::prelude::*;

use pulldown_cmark::{CodeBlockKind as K, Event as E, Options, Parser, Tag as T};

verus! {

/// What one Markdown event carries: HTML blocks and text nodes by content,
/// heading boundaries by level, other text-bearing events by their text, and
/// the rest only by extent.
pub enum MdKind {
    Html(Vec<u8>),
    Text(Vec<u8>),
    /// Another text-bearing event: inline code, a footnote label, a fenced
    /// code block's info string, a link or image destination.
    OtherText(Vec<u8>),
    HeadingStart(u8),
    HeadingEnd(u8),
    Plain,
}

#[verifier::ext_equal]
pub ghost enum MdKindV {
    Html(Seq<u8>),
    Text(Seq<u8>),
    OtherText(Seq<u8>),
    HeadingStart(u8),
    HeadingEnd(u8),
    Plain,
}

impl View for MdKind {
    type V = MdKindV;

    open spec fn view(&self) -> MdKindV {
        match self {
            MdKind::Html(t) => MdKindV::Html(t@),
            MdKind::Text(t) => MdKindV::Text(t@),
            MdKind::OtherText(t) => MdKindV::OtherText(t@),
            MdKind::HeadingStart(l) => MdKindV::HeadingStart(*l),
            MdKind::HeadingEnd(l) => MdKindV::HeadingEnd(*l),
            MdKind::Plain => MdKindV::Plain,
        }
    }
}

/// One Markdown event together with its byte range in the source text.
pub struct MdEvent {
    pub kind: MdKind,
    pub start: usize,
    pub end: usize,
}

#[verifier::ext_equal]
pub ghost struct MdEventV {
    pub kind: MdKindV,
    pub start: usize,
    pub end: usize,
}

impl View for MdEvent {
    type V = MdEventV;

    open spec fn view(&self) -> MdEventV {
        MdEventV { kind: self.kind@, start: self.start, end: self.end }
    }
}

/// The abstract value of a vector of events.
pub open spec fn events_view(v: Vec<MdEvent>) -> Seq<MdEventV> {
    v@.map_values(|e: MdEvent| e@)
}

/// What pulldown-cmark's offset iterator yields on the given body text, one
/// item per event, reduced to this event model. The stream is a function of
/// the text alone; text that is not UTF-8 yields no events.
pub uninterp spec fn md_events_of(body: Seq<u8>) -> Seq<MdEventV>;

#[verifier::external_type_specification]
#[verifier::external_body]
pub struct ExEvent<'a>(E<'a>);

/// Relies on pulldown_cmark's event model: tells its variants apart, moving
/// only the text or the heading level into this library's event kinds.
#[verifier::external_body]
fn event_kind(e: E<'_>) -> MdKind {
    match e {
        E::Html(t) => MdKind::Html(t.as_bytes().to_vec()),
        E::Text(t) => MdKind::Text(t.as_bytes().to_vec()),
        E::Code(t) | E::FootnoteReference(t) | E::Start(T::FootnoteDefinition(t) | T::CodeBlock(K::Fenced(t)) | T::Link(_, t, _) | T::Image(_, t, _)) => MdKind::OtherText(t.as_bytes().to_vec()),
        E::Start(T::Heading(l, _, _)) => MdKind::HeadingStart(l as u8),
        E::End(T::Heading(l, _, _)) => MdKind::HeadingEnd(l as u8),
        _ => MdKind::Plain,
    }
}

/// Relies on `pulldown_cmark::Parser::new_ext` (all options on) and its
/// `OffsetIter`: the events and the byte range of each event in the source
/// are a function of the input text alone.
#[verifier::external_body]
pub(crate) fn markdown_events(body: &[u8]) -> (r: Vec<MdEvent>)
    ensures
        events_view(r) == md_events_of(body@),
{
    let text = match std::str::from_utf8(body) {
        Ok(t) => t,
        Err(_) => return Vec::new(),
    };
    Parser::new_ext(text, Options::all()).into_offset_iter().map(
        |(e, r)| MdEvent { kind: event_kind(e), start: r.start, end: r.end },
    ).collect()
}

/// Byte-for-byte prefix test.
pub open spec fn is_prefix(p: Seq<u8>, s: Seq<u8>) -> bool {
    p.len() <= s.len() && p == s.subrange(0, p.len() as int)
}

/// Decides the byte-for-byte prefix test.
pub fn starts_with_bytes(s: &[u8], prefix: &[u8]) -> (r: bool)
    ensures
        r == is_prefix(prefix@, s@),
{
    if prefix.len() > s.len() {
        return false;
    }
    let mut i: usize = 0;
    while i < prefix.len()
        invariant
            prefix@.len() <= s@.len(),
            i <= prefix@.len(),
            forall|j: int| 0 <= j < i ==> prefix@[j] == s@[j],
        decreases prefix@.len() - i,
    {
        if prefix[i] != s[i] {
            assert(prefix@[i as int] != s@.subrange(0, prefix@.len() as int)[i as int]);
            return false;
        }
        i += 1;
    }
    proof {
        assert(prefix@ =~= s@.subrange(0, prefix@.len() as int));
    }
    true
}

} // verus!
