//! A verified compiler from markdown notes to finished HTML documents.
//!
//! The core entry point is [`compile::compile`], which turns a markdown
//! source string and a fallback metadata record into a rendered HTML page
//! plus the resolved metadata. On the way it extracts an embedded
//! front-matter block, highlights fenced code, and collects, renumbers and
//! re-emits footnotes in first-reference order.

pub mod compile;
pub mod date;
pub mod events;
pub mod footnotes;
pub mod highlight;
pub mod index;
pub mod laws;
pub mod transform;
pub mod uri;
pub mod meta;
pub mod template;
pub mod text;
