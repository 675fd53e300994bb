use notedoc::date::{DateVal, date_string};
use notedoc::index::{IndexedDocument, index_list_html, sort_index};
use notedoc::text::{dec_string, escape_html, trim};

#[test]
fn escaping_covers_the_special_characters() {
    assert_eq!(escape_html("a<b&c>\"d'"), "a&lt;b&amp;c&gt;&quot;d&#39;");
    assert_eq!(escape_html("plain"), "plain");
    assert_eq!(escape_html(""), "");
}

#[test]
fn decimal_rendering() {
    assert_eq!(dec_string(0), "0");
    assert_eq!(dec_string(7), "7");
    assert_eq!(dec_string(120), "120");
    assert_eq!(dec_string(98765), "98765");
}

#[test]
fn date_rendering_pads_fields() {
    assert_eq!(date_string(&DateVal { year: 2024, month: 1, day: 5 }), "2024-01-05");
    assert_eq!(date_string(&DateVal { year: 800, month: 12, day: 31 }), "0800-12-31");
    assert_eq!(date_string(&DateVal { year: -44, month: 3, day: 15 }), "-0044-03-15");
    assert_eq!(date_string(&DateVal { year: 12345, month: 6, day: 7 }), "12345-06-07");
}

#[test]
fn trimming_strips_whitespace() {
    assert_eq!(trim("  meta \n"), "meta");
    assert_eq!(trim("rust"), "rust");
    assert_eq!(trim("  \t "), "");
    assert_eq!(trim("a b"), "a b");
}

fn doc(title: &str, year: i32, month: u8, day: u8, path: &str) -> IndexedDocument {
    IndexedDocument {
        title: String::from(title),
        created: DateVal { year, month, day },
        rel_path: String::from(path),
    }
}

#[test]
fn index_sorts_newest_first() {
    let v = vec![
        doc("old", 2020, 1, 1, "old.md"),
        doc("new", 2024, 6, 1, "new.md"),
        doc("mid", 2022, 3, 9, "mid.md"),
    ];
    let sorted = sort_index(v);
    let titles: Vec<&str> = sorted.iter().map(|d| d.title.as_str()).collect();
    assert_eq!(titles, vec!["new", "mid", "old"]);
}

#[test]
fn index_sort_keeps_order_of_equal_dates() {
    let v = vec![
        doc("first", 2022, 3, 9, "a.md"),
        doc("second", 2022, 3, 9, "b.md"),
        doc("third", 2022, 3, 9, "c.md"),
    ];
    let sorted = sort_index(v);
    let titles: Vec<&str> = sorted.iter().map(|d| d.title.as_str()).collect();
    assert_eq!(titles, vec!["first", "second", "third"]);
}

#[test]
fn index_page_markdown_lists_each_entry() {
    let v = vec![doc("A & B", 2024, 2, 3, "notes/ab.md")];
    let html = index_list_html(&v);
    assert_eq!(
        html,
        "<ol style=\"list-style-type: none\"><li> <time datetime=\"2024-02-03\">2024-02-03</time> - <a href=\"/note/notes/ab.md\">A & B</a></li></ol>"
    );
}

#[test]
fn percent_decoding_decodes_escapes() {
    assert_eq!(notedoc::uri::percent_decode("/note/a%20b.md").as_deref(), Some("/note/a b.md"));
    assert_eq!(notedoc::uri::percent_decode("/plain").as_deref(), Some("/plain"));
    assert_eq!(notedoc::uri::percent_decode("%41%62").as_deref(), Some("Ab"));
    assert_eq!(notedoc::uri::percent_decode("").as_deref(), Some(""));
}

#[test]
fn percent_decoding_rejects_malformed_input() {
    // Truncated escape, bad hex digit, and bytes that are not UTF-8.
    assert_eq!(notedoc::uri::percent_decode("abc%2"), None);
    assert_eq!(notedoc::uri::percent_decode("%gg"), None);
    assert_eq!(notedoc::uri::percent_decode("%FF%FE"), None);
}
