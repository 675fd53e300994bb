use notedoc::date::DateTimeVal;
use notedoc::meta::parse_meta_text;

#[test]
fn valid_record_parses() {
    let m = parse_meta_text("title = \"T\"\ndate = 2024-01-02\n").unwrap();
    assert_eq!(m.title, "T");
    assert_eq!(
        m.date,
        DateTimeVal { year: 2024, month: 1, day: 2, hour: 0, minute: 0, second: 0 }
    );
    assert_eq!(m.lang, None);
    assert_eq!(m.desc, None);
}

#[test]
fn date_time_keeps_the_time() {
    let m = parse_meta_text("title = \"T\"\ndate = 2024-01-02T03:04:05\n").unwrap();
    assert_eq!(
        m.date,
        DateTimeVal { year: 2024, month: 1, day: 2, hour: 3, minute: 4, second: 5 }
    );
}

#[test]
fn optional_fields_parse() {
    let m = parse_meta_text(
        "title = \"T\"\ndate = 2024-01-02\nlang = \"en-GB\"\ndesc = \"words\"\n",
    )
    .unwrap();
    assert_eq!(m.lang.as_deref(), Some("en-GB"));
    assert_eq!(m.desc.as_deref(), Some("words"));
}

#[test]
fn unrecognized_key_rejects_the_block() {
    assert!(parse_meta_text("title = \"T\"\ndate = 2024-01-02\nextra = \"x\"\n").is_none());
}

#[test]
fn missing_title_rejects() {
    assert!(parse_meta_text("date = 2024-01-02\n").is_none());
}

#[test]
fn missing_date_rejects() {
    assert!(parse_meta_text("title = \"T\"\n").is_none());
}

#[test]
fn wrongly_typed_title_rejects() {
    assert!(parse_meta_text("title = 3\ndate = 2024-01-02\n").is_none());
}

#[test]
fn wrongly_typed_date_rejects() {
    assert!(parse_meta_text("title = \"T\"\ndate = \"2024-01-02\"\n").is_none());
}

#[test]
fn time_without_date_rejects() {
    assert!(parse_meta_text("title = \"T\"\ndate = 07:30:00\n").is_none());
}

#[test]
fn wrongly_typed_lang_rejects() {
    assert!(parse_meta_text("title = \"T\"\ndate = 2024-01-02\nlang = 7\n").is_none());
}

#[test]
fn malformed_toml_rejects() {
    assert!(parse_meta_text("title = \"unterminated\n").is_none());
}
