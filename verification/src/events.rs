//! Markdown events as the library sees them.
//!
//! The markdown grammar itself is an outside capability: `pulldown_cmark`
//! turns a source string into a finite event sequence and later turns a
//! transformed sequence back into an HTML fragment. The transformer only
//! ever inspects footnote starts/ends/references, fenced-code starts/ends,
//! text runs, paragraph ends and raw HTML; every other event is carried
//! through opaquely inside [`MdEvent::Other`].

use vstd::prelude::*;
use pulldown_cmark::{CodeBlockKind, CowStr, Event, Options, Parser, Tag, TagEnd};

verus! {

#[verifier::external_type_specification]
#[verifier::external_body]
pub struct ExEvent<'a>(pulldown_cmark::Event<'a>);

/// One markdown event, with the fields the transformer reads as plain
/// values. `Other` carries an event the transformer never inspects.
pub enum MdEvent {
    /// Start of a footnote definition, with the footnote's name.
    FootnoteDefStart(String),
    /// End of a footnote definition.
    FootnoteDefEnd,
    /// A reference to a footnote by name.
    FootnoteRef(String),
    /// Start of a fenced code block, with its raw language tag.
    CodeStart(String),
    /// End of a code block.
    CodeEnd,
    /// A text run.
    Text(String),
    /// End of a paragraph.
    ParagraphEnd,
    /// A raw HTML block node, emitted verbatim.
    Html(String),
    /// Any other event, carried through unchanged.
    Other(pulldown_cmark::Event<'static>),
}

/// The mathematical shape of one event.
#[verifier::ext_equal]
pub ghost enum MdEventV {
    FootnoteDefStart(Seq<char>),
    FootnoteDefEnd,
    FootnoteRef(Seq<char>),
    CodeStart(Seq<char>),
    CodeEnd,
    Text(Seq<char>),
    ParagraphEnd,
    Html(Seq<char>),
    Other(pulldown_cmark::Event<'static>),
}

impl View for MdEvent {
    type V = MdEventV;

    open spec fn view(&self) -> MdEventV {
        match self {
            MdEvent::FootnoteDefStart(s) => MdEventV::FootnoteDefStart(s@),
            MdEvent::FootnoteDefEnd => MdEventV::FootnoteDefEnd,
            MdEvent::FootnoteRef(s) => MdEventV::FootnoteRef(s@),
            MdEvent::CodeStart(s) => MdEventV::CodeStart(s@),
            MdEvent::CodeEnd => MdEventV::CodeEnd,
            MdEvent::Text(s) => MdEventV::Text(s@),
            MdEvent::ParagraphEnd => MdEventV::ParagraphEnd,
            MdEvent::Html(s) => MdEventV::Html(s@),
            MdEvent::Other(e) => MdEventV::Other(*e),
        }
    }
}

/// Relies on the derived `Clone` of `pulldown_cmark::Event`: the copy
/// equals the original.
#[verifier::external_body]
fn clone_raw_event(e: &pulldown_cmark::Event<'static>) -> (r: pulldown_cmark::Event<'static>)
    ensures
        r == *e,
{
    e.clone()
}

impl Clone for MdEvent {
    fn clone(&self) -> (r: Self)
        ensures
            r@ == self@,
    {
        match self {
            MdEvent::FootnoteDefStart(s) => MdEvent::FootnoteDefStart(s.clone()),
            MdEvent::FootnoteDefEnd => MdEvent::FootnoteDefEnd,
            MdEvent::FootnoteRef(s) => MdEvent::FootnoteRef(s.clone()),
            MdEvent::CodeStart(s) => MdEvent::CodeStart(s.clone()),
            MdEvent::CodeEnd => MdEvent::CodeEnd,
            MdEvent::Text(s) => MdEvent::Text(s.clone()),
            MdEvent::ParagraphEnd => MdEvent::ParagraphEnd,
            MdEvent::Html(s) => MdEvent::Html(s.clone()),
            MdEvent::Other(e) => MdEvent::Other(clone_raw_event(e)),
        }
    }
}

/// A sequence of events, viewed one by one.
pub open spec fn evs_view(s: Seq<MdEvent>) -> Seq<MdEventV> {
    s.map_values(|e: MdEvent| e@)
}

/// The event sequence the markdown grammar assigns to a source text, with
/// the extension flags this library enables (the GFM additions, footnotes,
/// math).
pub uninterp spec fn md_events_of(md: Seq<char>) -> Seq<MdEventV>;

/// The conversion [`parse_markdown`] applies to each parsed event: the
/// variants the transformer reads are carried over field by field, every
/// other event is kept whole under `Other`.
#[verifier::external_body]
fn classify_event(e: Event<'static>) -> MdEvent {
    match e {
        Event::Start(Tag::FootnoteDefinition(n)) => MdEvent::FootnoteDefStart(n.into_string()),
        Event::End(TagEnd::FootnoteDefinition) => MdEvent::FootnoteDefEnd,
        Event::FootnoteReference(n) => MdEvent::FootnoteRef(n.into_string()),
        Event::Start(Tag::CodeBlock(CodeBlockKind::Fenced(l))) => MdEvent::CodeStart(l.into_string()),
        Event::End(TagEnd::CodeBlock) => MdEvent::CodeEnd,
        Event::Text(t) => MdEvent::Text(t.into_string()),
        Event::End(TagEnd::Paragraph) => MdEvent::ParagraphEnd,
        Event::Html(h) => MdEvent::Html(h.into_string()),
        other => MdEvent::Other(other),
    }
}

/// Relies on `pulldown_cmark::Parser::new_ext`: produces the finite event
/// sequence of the markdown source, each event converted by
/// [`classify_event`].
#[verifier::external_body]
pub fn parse_markdown(md: &str) -> (r: Vec<MdEvent>)
    ensures
        evs_view(r@) == md_events_of(md@),
{
    let opts = Options::ENABLE_GFM | Options::ENABLE_FOOTNOTES | Options::ENABLE_MATH;
    Parser::new_ext(md, opts).map(|e| classify_event(e.into_static())).collect()
}

/// The HTML fragment the markdown renderer writes for an event sequence.
pub uninterp spec fn html_of(events: Seq<MdEventV>) -> Seq<char>;

/// The inverse conversion [`render_events`] applies to each event before
/// serializing: the plain variants are rebuilt field by field, an `Other`
/// event is handed back as it arrived.
#[verifier::external_body]
fn unclassify_event<'a>(e: &'a MdEvent) -> Event<'a> {
    match e {
        MdEvent::FootnoteDefStart(n) => Event::Start(Tag::FootnoteDefinition(CowStr::from(n.as_str()))),
        MdEvent::FootnoteDefEnd => Event::End(TagEnd::FootnoteDefinition),
        MdEvent::FootnoteRef(n) => Event::FootnoteReference(CowStr::from(n.as_str())),
        MdEvent::CodeStart(l) => Event::Start(Tag::CodeBlock(CodeBlockKind::Fenced(CowStr::from(l.as_str())))),
        MdEvent::CodeEnd => Event::End(TagEnd::CodeBlock),
        MdEvent::Text(t) => Event::Text(CowStr::from(t.as_str())),
        MdEvent::ParagraphEnd => Event::End(TagEnd::Paragraph),
        MdEvent::Html(h) => Event::Html(CowStr::from(h.as_str())),
        MdEvent::Other(raw) => raw.clone(),
    }
}

/// Relies on `pulldown_cmark::html::push_html`: serializes the events to an
/// HTML fragment, each event rebuilt by [`unclassify_event`].
#[verifier::external_body]
pub fn render_events(events: &Vec<MdEvent>) -> (r: String)
    ensures
        r@ == html_of(evs_view(events@)),
{
    let mut s = String::new();
    pulldown_cmark::html::push_html(&mut s, events.iter().map(unclassify_event));
    s
}

} // verus!
