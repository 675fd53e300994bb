//! The document compiler: markdown source in, finished HTML document and
//! resolved metadata out.
//!
//! One call parses the source into events, runs the transformer over them,
//! appends the rendered footnote section, serializes the whole event
//! sequence to an HTML fragment, resolves the metadata (the embedded
//! front-matter record when one parsed, else the caller's inferred record),
//! and wraps everything in the page template. The call is total: malformed
//! front matter and unknown code languages degrade, they never fail.

use vstd::prelude::*;
use crate::events::{MdEventV, evs_view, html_of, md_events_of, parse_markdown, render_events};
use crate::footnotes::{assemble_footnotes, footnote_section};
use crate::meta::{Meta, MetaV, resolve_meta, resolve_meta_spec};
use crate::template::{document_of, render_document, style_css, style_sheet};
use crate::transform::{run, transform_events};

verus! {

/// The full event sequence serialized for a document: the transformed
/// events, then the footnote section.
pub open spec fn body_events(md: Seq<char>) -> Seq<MdEventV> {
    let st = run(md_events_of(md));
    st.out + footnote_section(st.defs, st.nums)
}

/// The metadata a compilation resolves to.
pub open spec fn compiled_meta(md: Seq<char>, inferred: MetaV) -> MetaV {
    resolve_meta_spec(run(md_events_of(md)).meta, inferred)
}

/// The document a compilation produces.
pub open spec fn compiled_doc(md: Seq<char>, inferred: MetaV) -> Seq<char> {
    document_of(compiled_meta(md, inferred), style_css(), html_of(body_events(md)))
}

/// Compiles one markdown document. Always returns: there is no error
/// channel; malformed embedded metadata falls back to `inferred`, and
/// unknown code-block languages fall back to plain-text highlighting.
pub fn compile(md: &str, inferred: Meta) -> (r: (String, Meta))
    ensures
        r.0@ == compiled_doc(md@, inferred@),
        r.1@ == compiled_meta(md@, inferred@),
{
    let events = parse_markdown(md);
    let mut st = transform_events(&events);
    proof {
        assert(st@ == run(md_events_of(md@)));
    }
    let mut section = assemble_footnotes(&st.defs, &st.nums);
    st.out.append(&mut section);
    proof {
        assert(evs_view(st.out@) =~~= body_events(md@));
    }
    let markdown_html = render_events(&st.out);
    let resolved = resolve_meta(st.meta, inferred);
    let html = render_document(&resolved, style_sheet(), markdown_html.as_str());
    (html, resolved)
}

} // verus!
