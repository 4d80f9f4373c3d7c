use socha_client::error::SCError;
use socha_client::xml::{parse_next, write_open_only, Element};
use socha_client::wire::Tokenizer;

#[test]
fn parses_name_attributes_and_content() {
    let elem = Element::from_str(r#"<greeting kind="warm" tone="soft">hello</greeting>"#).unwrap();
    assert_eq!(elem.name().as_str(), "greeting");
    assert_eq!(elem.attribute("kind").unwrap().as_str(), "warm");
    assert_eq!(elem.attribute("tone").unwrap().as_str(), "soft");
    assert_eq!(elem.content().as_str(), "hello");
    assert!(matches!(
        elem.attribute("missing"),
        Err(SCError::MissingAttribute(_))
    ));
}

#[test]
fn parses_nested_children_in_order() {
    let elem = Element::from_str(
        r#"<list>
            <item n="1"/>
            <other/>
            <item n="2"/>
        </list>"#,
    )
    .unwrap();
    assert_eq!(elem.name().as_str(), "list");
    assert_eq!(elem.children.len(), 3);
    let items = elem.childs_by_name("item");
    assert_eq!(items.len(), 2);
    assert_eq!(items[0].attribute("n").unwrap().as_str(), "1");
    assert_eq!(items[1].attribute("n").unwrap().as_str(), "2");
    let first = elem.child_by_name("item").unwrap();
    assert_eq!(first.attribute("n").unwrap().as_str(), "1");
    assert!(matches!(
        elem.child_by_name("absent"),
        Err(SCError::MissingChild(_))
    ));
}

#[test]
fn inter_element_whitespace_is_not_content() {
    let elem = Element::from_str("<a>\n    <b/>\n    <c/>\n</a>").unwrap();
    assert_eq!(elem.content().as_str(), "");
    assert_eq!(elem.children.len(), 2);
}

#[test]
fn resolves_entity_references_in_text_and_attributes() {
    let elem = Element::from_str(r#"<m note="a &amp; b">x &lt; y</m>"#).unwrap();
    assert_eq!(elem.attribute("note").unwrap().as_str(), "a & b");
    assert_eq!(elem.content().as_str(), "x < y");
}

#[test]
fn mismatched_end_tag_is_malformed() {
    assert!(matches!(
        Element::from_str("<a><b></a></b>"),
        Err(SCError::MalformedMarkup)
    ));
}

#[test]
fn truncated_stream_is_eof() {
    assert!(matches!(Element::from_str("<a><b>"), Err(SCError::Eof)));
    assert!(matches!(Element::from_str(""), Err(SCError::Eof)));
}

#[test]
fn consumes_exactly_one_unit_per_call() {
    let bytes = b"<a n=\"1\"/><a n=\"2\"/>".to_vec();
    let mut tok = Tokenizer::new(bytes);
    let first = parse_next(&mut tok).unwrap();
    let second = parse_next(&mut tok).unwrap();
    assert_eq!(first.attribute("n").unwrap().as_str(), "1");
    assert_eq!(second.attribute("n").unwrap().as_str(), "2");
    assert!(matches!(parse_next(&mut tok), Err(SCError::Eof)));
}

#[test]
fn serialized_element_reads_back_equal() {
    let elem = Element::new("data")
        .attribute("class", "move")
        .child(Element::new("from").attribute("x", "0").attribute("y", "7 & 8").build())
        .build();
    let mut out: Vec<u8> = Vec::new();
    elem.write_to(&mut out).unwrap();
    let back = Element::from_str(std::str::from_utf8(&out).unwrap()).unwrap();
    assert_eq!(back, elem);
}

#[test]
fn open_only_writes_a_lone_start_tag() {
    let mut out: Vec<u8> = Vec::new();
    write_open_only(&mut out, &"protocol".to_string(), &vec![]).unwrap();
    assert_eq!(std::str::from_utf8(&out).unwrap(), "<protocol>");
}

#[test]
fn cdata_sections_are_character_data() {
    let elem = Element::from_str("<m><![CDATA[a <raw> & b]]></m>").unwrap();
    assert_eq!(elem.content().as_str(), "a <raw> & b");
}

#[test]
fn unsupported_references_are_malformed() {
    assert!(matches!(
        Element::from_str("<m>&unknown;</m>"),
        Err(SCError::MalformedMarkup)
    ));
}

#[test]
fn unwritable_attribute_keys_are_refused() {
    let elem = Element::new("t").attribute("a=\"b\" c", "d").build();
    let mut out: Vec<u8> = Vec::new();
    assert!(matches!(
        elem.write_to(&mut out),
        Err(SCError::MalformedMarkup)
    ));
    assert!(out.is_empty());
    assert!(!elem.has_wf_attr_keys());
}

#[test]
fn builder_last_write_wins() {
    let elem = Element::new("e")
        .attribute("k", "first")
        .attribute("other", "x")
        .attribute("k", "second")
        .build();
    assert_eq!(elem.attributes.len(), 2);
    assert_eq!(elem.attribute("k").unwrap().as_str(), "second");
    assert_eq!(elem.attribute("other").unwrap().as_str(), "x");
}
