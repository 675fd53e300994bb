//! Assembly of the final HTML document.
//!
//! The page is plain template substitution: doctype, an `html` element
//! whose `lang` is the metadata's language or a fixed default, a head with
//! charset, title, social-preview tags (the description ones only when a
//! description is present) and the embedded stylesheet, and a body holding
//! a heading equal to the title and an article with the rendered markdown.
//! The title and description are HTML-escaped wherever they are placed; the
//! stylesheet and the markdown fragment are injected verbatim.

use vstd::prelude::*;
use crate::meta::{Meta, MetaV};
use crate::text::{escape_seq, push_escaped};

verus! {

/// The stylesheet embedded into every rendered document.
pub open spec fn style_css() -> Seq<char> {
    "body { margin: 0 auto; max-width: 48rem; padding: 1rem; font-family: sans-serif; color: #1a1a1a; background: #fdfdfd; }\nh1, h2, h3 { line-height: 1.2; }\na { color: #0b60b0; }\npre { padding: 0.75rem; overflow-x: auto; }\ncode { font-family: monospace; }\n.footnote-reference { font-size: 0.8em; vertical-align: super; }\n.footnotes-list { font-size: 0.9em; }\n"@
}

/// Hands out the embedded stylesheet.
pub fn style_sheet() -> (r: &'static str)
    ensures
        r@ == style_css(),
{
    "body { margin: 0 auto; max-width: 48rem; padding: 1rem; font-family: sans-serif; color: #1a1a1a; background: #fdfdfd; }\nh1, h2, h3 { line-height: 1.2; }\na { color: #0b60b0; }\npre { padding: 0.75rem; overflow-x: auto; }\ncode { font-family: monospace; }\n.footnote-reference { font-size: 0.8em; vertical-align: super; }\n.footnotes-list { font-size: 0.9em; }\n"
}

/// The language tag placed on the `html` element when the metadata names
/// none.
pub open spec fn default_lang() -> Seq<char> {
    "en-US"@
}

/// The head's description tags: present exactly when the metadata has a
/// description.
pub open spec fn desc_block(desc: Option<Seq<char>>) -> Seq<char> {
    match desc {
        Some(d) => "<meta name=\"description\" content=\""@ + escape_seq(d)
            + "\" />\n<meta property=\"og:description\" content=\""@ + escape_seq(d) + "\" />\n"@,
        None => Seq::empty(),
    }
}

/// The whole document for resolved metadata, a stylesheet and a rendered
/// markdown body.
pub open spec fn document_of(meta: MetaV, styles: Seq<char>, markdown: Seq<char>) -> Seq<char> {
    "<!DOCTYPE html>\n<html lang=\""@ + (match meta.lang {
        Some(l) => l,
        None => default_lang(),
    }) + "\">\n<head>\n<meta charset=\"utf-8\" />\n<title>"@ + escape_seq(meta.title)
        + "</title>\n<meta property=\"og:title\" content=\""@ + escape_seq(meta.title) + "\" />\n"@
        + desc_block(meta.desc) + "<style> "@ + styles + " </style>\n</head>\n<body><main>\n<h1> "@
        + escape_seq(meta.title) + "</h1>\n<article>"@ + markdown
        + "</article>\n</main></body>\n</html>\n"@
}

/// Renders the finished document.
pub fn render_document(meta: &Meta, styles: &str, markdown: &str) -> (r: String)
    ensures
        r@ == document_of(meta@, styles@, markdown@),
{
    let mut s = String::from_str("<!DOCTYPE html>\n<html lang=\"");
    match &meta.lang {
        Some(l) => s.append(l.as_str()),
        None => s.append("en-US"),
    }
    s.append("\">\n<head>\n<meta charset=\"utf-8\" />\n<title>");
    push_escaped(&mut s, meta.title.as_str());
    s.append("</title>\n<meta property=\"og:title\" content=\"");
    push_escaped(&mut s, meta.title.as_str());
    s.append("\" />\n");
    match &meta.desc {
        Some(d) => {
            s.append("<meta name=\"description\" content=\"");
            push_escaped(&mut s, d.as_str());
            s.append("\" />\n<meta property=\"og:description\" content=\"");
            push_escaped(&mut s, d.as_str());
            s.append("\" />\n");
        },
        None => {},
    }
    s.append("<style> ");
    s.append(styles);
    s.append(" </style>\n</head>\n<body><main>\n<h1> ");
    push_escaped(&mut s, meta.title.as_str());
    s.append("</h1>\n<article>");
    s.append(markdown);
    s.append("</article>\n</main></body>\n</html>\n");
    assert(s@ =~= document_of(meta@, styles@, markdown@));
    s
}

} // verus!
