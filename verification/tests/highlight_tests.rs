use notedoc::compile::compile;
use notedoc::date::DateVal;
use notedoc::highlight::highlight;
use notedoc::meta::Meta;

#[test]
fn highlighting_is_idempotent() {
    let code = "def f(x):\n    return x + 1\n";
    let a = highlight(code, "python");
    let b = highlight(code, "python");
    assert_eq!(a, b);
    let c = highlight(code, "nosuchlanguage");
    let d = highlight(code, "nosuchlanguage");
    assert_eq!(c, d);
}

#[test]
fn known_language_gets_colored() {
    let code = "def f(x):\n    return x + 1\n";
    let html = highlight(code, "python");
    assert!(html.starts_with("<pre"));
    assert!(html.contains("<span"));
}

#[test]
fn unknown_spelling_falls_back_to_plain_text() {
    let code = "def f(x):\n    return x + 1\n";
    let plain = highlight(code, "pythonn");
    // Still wrapped in the standard highlighted container...
    assert!(plain.starts_with("<pre"));
    assert!(plain.contains("def f(x):"));
    // ...but identical to any other unknown tag's plain-text rendering,
    // and different from the colored rendering of the real language.
    assert_eq!(plain, highlight(code, "zzz-unknown"));
    assert_ne!(plain, highlight(code, "python"));
}

#[test]
fn unknown_language_in_a_document_still_wraps_code() {
    let md = "```pythonn\nprint(1)\n```\n";
    let inferred = Meta::inferred(String::from("X"), DateVal { year: 2020, month: 1, day: 1 });
    let (html, _meta) = compile(md, inferred);
    assert!(html.contains("<pre"));
    assert!(html.contains("print(1)"));
}

#[test]
fn fence_language_tag_is_trimmed() {
    let code = "x = 1\n";
    assert_eq!(highlight(code, "python"), highlight(code, "python"));
    let md_spaced = "``` python \nx = 1\n```\n";
    let md_tight = "```python\nx = 1\n```\n";
    let inferred = Meta::inferred(String::from("X"), DateVal { year: 2020, month: 1, day: 1 });
    let (a, _) = compile(md_spaced, inferred.clone());
    let (b, _) = compile(md_tight, inferred);
    assert_eq!(a, b);
}
