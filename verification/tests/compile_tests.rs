use notedoc::compile::compile;
use notedoc::date::{DateTimeVal, DateVal};
use notedoc::meta::Meta;

fn inferred(title: &str, year: i32, month: u8, day: u8) -> Meta {
    Meta::inferred(String::from(title), DateVal { year, month, day })
}

#[test]
fn scenario_meta_and_footnote() {
    let md = "# Hi\n\n```meta\ntitle = \"T\"\ndate = 2024-01-01\n```\nBody [^1]\n\n[^1]: Note.";
    let (html, meta) = compile(md, inferred("X", 2020, 1, 1));
    assert_eq!(meta.title, "T");
    assert_eq!(
        meta.date,
        DateTimeVal { year: 2024, month: 1, day: 1, hour: 0, minute: 0, second: 0 }
    );
    assert!(html.contains("<h1> T</h1>"));
    assert!(html.contains("id=\"fr-1-1\""));
    assert!(html.contains("<li id=\"fn-1\">"));
    assert!(html.contains("Note."));
    assert!(html.contains("<a href=\"#fr-1-1\">\u{21a9}</a>"));
}

#[test]
fn meta_fallback_without_block() {
    let md = "# Just a heading\n\nAnd a paragraph.";
    let (html, meta) = compile(md, inferred("Fallback", 2021, 6, 30));
    assert_eq!(meta.title, "Fallback");
    assert_eq!(
        meta.date,
        DateTimeVal { year: 2021, month: 6, day: 30, hour: 0, minute: 0, second: 0 }
    );
    assert_eq!(meta.lang, None);
    assert_eq!(meta.desc, None);
    assert!(html.contains("<title>Fallback</title>"));
    assert!(html.contains("<html lang=\"en-US\">"));
}

#[test]
fn meta_override_replaces_all_fields() {
    let md = "```meta\ntitle = \"Real\"\ndate = 2023-05-06T07:08:09\nlang = \"de\"\ndesc = \"About <things>\"\n```\nBody.";
    let (html, meta) = compile(md, inferred("Guessed", 2020, 1, 1));
    assert_eq!(meta.title, "Real");
    assert_eq!(
        meta.date,
        DateTimeVal { year: 2023, month: 5, day: 6, hour: 7, minute: 8, second: 9 }
    );
    assert_eq!(meta.lang.as_deref(), Some("de"));
    assert_eq!(meta.desc.as_deref(), Some("About <things>"));
    assert!(html.contains("<html lang=\"de\">"));
    assert!(html.contains("content=\"About &lt;things&gt;\""));
}

#[test]
fn malformed_meta_falls_back() {
    let md = "```meta\ntitle = \"T\"\ndate = 2024-01-01\nsurprise = 3\n```\nBody.";
    let (_html, meta) = compile(md, inferred("Kept", 2020, 2, 3));
    assert_eq!(meta.title, "Kept");
    assert_eq!(meta.date.year, 2020);
}

#[test]
fn meta_block_is_invisible() {
    let md = "Before.\n\n```meta\ntitle = \"Hidden Title Words\"\ndate = 2024-01-01\n```\n\nAfter.";
    let (html, _meta) = compile(md, inferred("X", 2020, 1, 1));
    assert!(!html.contains("title = "));
    assert!(!html.contains("date = "));
    assert!(html.contains("Before."));
    assert!(html.contains("After."));
}

#[test]
fn footnotes_numbered_in_first_reference_order() {
    let md = "x [^b] y [^a] z [^b]\n\n[^a]: Note a.\n\n[^b]: Note b.\n";
    let (html, _meta) = compile(md, inferred("X", 2020, 1, 1));
    // b is referenced first, so b gets number 1 and a gets number 2.
    assert!(html.contains("id=\"fr-b-1\"><a href=\"#fn-b\">[1]</a>"));
    assert!(html.contains("id=\"fr-a-1\"><a href=\"#fn-a\">[2]</a>"));
    assert!(html.contains("id=\"fr-b-2\"><a href=\"#fn-b\">[1]</a>"));
    // The list is ordered by number, not by definition order.
    let pos_b = html.find("<li id=\"fn-b\">").unwrap();
    let pos_a = html.find("<li id=\"fn-a\">").unwrap();
    assert!(pos_b < pos_a);
}

#[test]
fn unused_footnote_definition_emits_nothing() {
    let md = "Body only.\n\n[^u]: Entirely unused words.\n";
    let (html, _meta) = compile(md, inferred("X", 2020, 1, 1));
    assert!(!html.contains("fn-u"));
    assert!(!html.contains("Entirely unused words"));
}

#[test]
fn backlinks_one_per_reference() {
    let md = "a [^n] b [^n] c [^n]\n\n[^n]: Note.\n";
    let (html, _meta) = compile(md, inferred("X", 2020, 1, 1));
    assert!(html.contains("<a href=\"#fr-n-1\">\u{21a9}1</a>"));
    assert!(html.contains("<a href=\"#fr-n-2\">\u{21a9}2</a>"));
    assert!(html.contains("<a href=\"#fr-n-3\">\u{21a9}3</a>"));
    assert_eq!(html.matches("\u{21a9}").count(), 3);
}

#[test]
fn single_reference_backlink_is_unnumbered() {
    let md = "a [^n]\n\n[^n]: Note.\n";
    let (html, _meta) = compile(md, inferred("X", 2020, 1, 1));
    assert!(html.contains("<a href=\"#fr-n-1\">\u{21a9}</a>"));
    assert!(!html.contains("\u{21a9}1"));
}

#[test]
fn markdown_is_rendered() {
    let md = "# Head\n\nSome *emphasis* here.";
    let (html, _meta) = compile(md, inferred("X", 2020, 1, 1));
    assert!(html.contains("<h1>Head</h1>"));
    assert!(html.contains("<em>emphasis</em>"));
}

#[test]
fn title_is_escaped_everywhere() {
    let md = "Body.";
    let (html, meta) = compile(md, inferred("a<b> & \"c\"", 2020, 1, 1));
    assert_eq!(meta.title, "a<b> & \"c\"");
    assert!(html.contains("<title>a&lt;b&gt; &amp; &quot;c&quot;</title>"));
    assert!(html.contains("<h1> a&lt;b&gt; &amp; &quot;c&quot;</h1>"));
    assert!(!html.contains("<title>a<b>"));
}

#[test]
fn stylesheet_is_embedded_verbatim() {
    let (html, _meta) = compile("Body.", inferred("X", 2020, 1, 1));
    assert!(html.contains("<style> body { margin: 0 auto;"));
    assert!(html.contains(".footnotes-list { font-size: 0.9em; }"));
}

#[test]
fn fenced_code_is_highlighted_in_the_document() {
    let md = "```python\ndef f(x):\n    return x\n```\n";
    let (html, _meta) = compile(md, inferred("X", 2020, 1, 1));
    assert!(html.contains("<pre"));
    assert!(html.contains("<span"));
    assert!(!html.contains("```"));
}
