use notedoc::events::MdEvent;
use notedoc::footnotes::assemble_footnotes;
use notedoc::transform::transform_events;

fn text(s: &str) -> MdEvent {
    MdEvent::Text(String::from(s))
}

#[test]
fn meta_block_sets_metadata_and_emits_nothing() {
    let events = vec![
        MdEvent::CodeStart(String::from("meta")),
        text("title = \"T\"\ndate = 2024-01-01\n"),
        MdEvent::CodeEnd,
    ];
    let st = transform_events(&events);
    let m = st.meta.expect("the block parses");
    assert_eq!(m.title, "T");
    assert_eq!(st.out.len(), 0);
}

#[test]
fn meta_text_split_across_events_still_parses() {
    let events = vec![
        MdEvent::CodeStart(String::from("meta")),
        text("title = \"T\"\n"),
        text("date = 2024-01-01\n"),
        MdEvent::CodeEnd,
    ];
    let st = transform_events(&events);
    assert_eq!(st.meta.expect("the block parses").title, "T");
}

#[test]
fn later_valid_meta_block_overwrites_an_earlier_one() {
    let events = vec![
        MdEvent::CodeStart(String::from("meta")),
        text("title = \"First\"\ndate = 2020-01-01\n"),
        MdEvent::CodeEnd,
        MdEvent::CodeStart(String::from("meta")),
        text("title = \"Second\"\ndate = 2021-01-01\n"),
        MdEvent::CodeEnd,
    ];
    let st = transform_events(&events);
    assert_eq!(st.meta.expect("the blocks parse").title, "Second");
}

#[test]
fn failed_meta_block_keeps_the_earlier_record() {
    let events = vec![
        MdEvent::CodeStart(String::from("meta")),
        text("title = \"First\"\ndate = 2020-01-01\n"),
        MdEvent::CodeEnd,
        MdEvent::CodeStart(String::from("meta")),
        text("not toml at all ["),
        MdEvent::CodeEnd,
    ];
    let st = transform_events(&events);
    assert_eq!(st.meta.expect("the first block parsed").title, "First");
}

#[test]
fn numbering_table_is_in_first_reference_order() {
    let events = vec![
        MdEvent::FootnoteRef(String::from("b")),
        MdEvent::FootnoteRef(String::from("a")),
        MdEvent::FootnoteRef(String::from("b")),
    ];
    let st = transform_events(&events);
    assert_eq!(st.nums.len(), 2);
    assert_eq!(st.nums[0].name, "b");
    assert_eq!(st.nums[0].uses, 2);
    assert_eq!(st.nums[1].name, "a");
    assert_eq!(st.nums[1].uses, 1);
}

#[test]
fn definitions_are_buffered_not_emitted() {
    let events = vec![
        text("before"),
        MdEvent::FootnoteDefStart(String::from("n")),
        text("inside"),
        MdEvent::FootnoteDefEnd,
        text("after"),
    ];
    let st = transform_events(&events);
    assert_eq!(st.out.len(), 2);
    assert_eq!(st.defs.len(), 1);
    assert_eq!(st.defs[0].name, "n");
    assert_eq!(st.defs[0].events.len(), 3);
}

#[test]
fn redefinition_overwrites_the_earlier_definition() {
    let events = vec![
        MdEvent::FootnoteRef(String::from("n")),
        MdEvent::FootnoteDefStart(String::from("n")),
        text("first body"),
        MdEvent::FootnoteDefEnd,
        MdEvent::FootnoteDefStart(String::from("n")),
        text("second body"),
        MdEvent::FootnoteDefEnd,
    ];
    let st = transform_events(&events);
    assert_eq!(st.defs.len(), 1);
    let section = assemble_footnotes(&st.defs, &st.nums);
    let mut texts = 0;
    for e in &section {
        if let MdEvent::Text(t) = e {
            assert_eq!(t, "second body");
            texts += 1;
        }
    }
    assert_eq!(texts, 1);
}

#[test]
fn footnote_list_follows_reference_order() {
    let events = vec![
        MdEvent::FootnoteRef(String::from("b")),
        MdEvent::FootnoteRef(String::from("a")),
        MdEvent::FootnoteDefStart(String::from("a")),
        MdEvent::ParagraphEnd,
        MdEvent::FootnoteDefEnd,
        MdEvent::FootnoteDefStart(String::from("b")),
        MdEvent::ParagraphEnd,
        MdEvent::FootnoteDefEnd,
    ];
    let st = transform_events(&events);
    let section = assemble_footnotes(&st.defs, &st.nums);
    let mut anchors: Vec<String> = Vec::new();
    for e in &section {
        if let MdEvent::Html(h) = e {
            if h.starts_with("<li id=\"fn-") {
                anchors.push(h.clone());
            }
        }
    }
    assert_eq!(anchors, vec!["<li id=\"fn-b\">", "<li id=\"fn-a\">"]);
}

#[test]
fn unreferenced_definition_is_dropped_from_the_section() {
    let events = vec![
        MdEvent::FootnoteDefStart(String::from("u")),
        text("unused"),
        MdEvent::FootnoteDefEnd,
    ];
    let st = transform_events(&events);
    assert_eq!(st.defs.len(), 1);
    let section = assemble_footnotes(&st.defs, &st.nums);
    for e in &section {
        if let MdEvent::Html(h) = e {
            assert!(!h.contains("fn-u"));
        }
        if let MdEvent::Text(t) = e {
            assert_ne!(t, "unused");
        }
    }
}

#[test]
fn dangling_reference_is_linked_anyway() {
    let events = vec![text("see "), MdEvent::FootnoteRef(String::from("missing"))];
    let st = transform_events(&events);
    assert_eq!(st.out.len(), 2);
    match &st.out[1] {
        MdEvent::Html(h) => {
            assert!(h.contains("id=\"fr-missing-1\""));
            assert!(h.contains("<a href=\"#fn-missing\">[1]</a>"));
        }
        _ => panic!("expected an inline link"),
    }
    // No definition was ever collected, so the rendered list is empty and
    // the link's anchor dangles.
    let section = assemble_footnotes(&st.defs, &st.nums);
    assert!(section.is_empty());
}

#[test]
fn code_inside_a_footnote_is_buffered_raw() {
    let events = vec![
        MdEvent::FootnoteRef(String::from("n")),
        MdEvent::FootnoteDefStart(String::from("n")),
        MdEvent::CodeStart(String::from("python")),
        text("x = 1\n"),
        MdEvent::CodeEnd,
        MdEvent::FootnoteDefEnd,
    ];
    let st = transform_events(&events);
    // The code block rides along inside the definition untouched: no
    // highlighting happened and no capture state was entered.
    assert_eq!(st.defs.len(), 1);
    assert_eq!(st.defs[0].events.len(), 5);
    assert!(matches!(st.defs[0].events[1], MdEvent::CodeStart(_)));
    assert!(matches!(st.defs[0].events[2], MdEvent::Text(_)));
    assert!(matches!(st.defs[0].events[3], MdEvent::CodeEnd));
}

#[test]
fn reference_inside_a_definition_is_captured_into_it() {
    let events = vec![
        MdEvent::FootnoteRef(String::from("a")),
        MdEvent::FootnoteDefStart(String::from("a")),
        MdEvent::FootnoteRef(String::from("b")),
        MdEvent::FootnoteDefEnd,
    ];
    let st = transform_events(&events);
    // The nested reference is numbered like any other...
    assert_eq!(st.nums.len(), 2);
    assert_eq!(st.nums[1].name, "b");
    // ...but its fragment lands in the enclosing buffer, not the output.
    assert_eq!(st.out.len(), 1);
    assert_eq!(st.defs[0].events.len(), 3);
    match &st.defs[0].events[1] {
        MdEvent::Html(h) => assert!(h.contains("#fn-b")),
        _ => panic!("expected the nested reference's fragment"),
    }
}
