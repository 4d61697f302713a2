use coconutpak::error::CompilerError;
use coconutpak::tags::Tags;
use coconutpak::text_compiler::{
    attribute_value, compile_document, default_response, describe, float_exceeds_five, html_end_name,
    html_start_event, is_identifier, parse_bool, prepare_text, readings_cover_document,
};
use coconutpak::text_model::{Float32, NumberReading, NumberReadings, TextContainer};
use coconutpak::xml_events::{OutEvent, XmlAttribute, XmlItem};

fn attr(name: &str, value: &str) -> XmlAttribute {
    XmlAttribute { name: name.to_string(), value: value.to_string() }
}

fn start(name: &str, attrs: &[(&str, &str)]) -> XmlItem {
    XmlItem::Start(name.to_string(), attrs.iter().map(|(n, v)| attr(n, v)).collect())
}

fn end(name: &str) -> XmlItem {
    XmlItem::End(name.to_string())
}

fn cdata(d: &str) -> XmlItem {
    XmlItem::CData(d.to_string())
}

fn number(shown: &str, bits: u32) -> NumberReading {
    NumberReading::Number(Float32 { bits, shown: shown.to_string() })
}

/// A reading for every attribute value used below.
fn readings() -> NumberReadings {
    let mut r = NumberReadings::new();
    r.add("0.5".to_string(), number("0.5", 0x3F00_0000));
    r.add("1".to_string(), number("1", 0x3F80_0000));
    r.add("7".to_string(), number("7", 0x40E0_0000));
    r.add("lots".to_string(), NumberReading::Invalid("invalid float literal".to_string()));
    for v in ["hello", "bye", "true", "false", "yes", "extra"] {
        r.add(v.to_string(), NumberReading::Invalid("invalid float literal".to_string()));
    }
    r
}

fn header(langcode: &str) -> Vec<XmlItem> {
    vec![
        start("CoconutPakText", &[]),
        start("subnamespace", &[]),
        cdata("greetings"),
        end("subnamespace"),
        start("tag", &[]),
        cdata("Fem"),
        end("tag"),
        start("langcode", &[]),
        cdata(langcode),
        end("langcode"),
        start("description", &[]),
        cdata("hello"),
        end("description"),
    ]
}

fn document(response_attrs: &[(&str, &str)], message_attrs: &[(&str, &str)], body: Vec<XmlItem>) -> Vec<XmlItem> {
    let mut items = header("en");
    items.push(start("responses", &[]));
    items.push(start("response", response_attrs));
    items.push(start("message", message_attrs));
    items.extend(body);
    items.push(end("message"));
    items.push(end("response"));
    items.push(end("responses"));
    items.push(end("CoconutPakText"));
    items.push(XmlItem::EndDocument);
    items
}

fn good_response() -> [(&'static str, &'static str); 3] {
    [("name", "hello"), ("probability", "0.5"), ("welcome", "true")]
}

fn compile(items: &Vec<XmlItem>) -> Result<TextContainer, CompilerError> {
    let r = readings();
    assert!(readings_cover_document(&r, items));
    compile_document(items, &r)
}

fn xml_error(why: &str) -> CompilerError {
    CompilerError::XmlError { why: why.to_string() }
}

fn bad_attr(attribute: &str, value: &str, why: &str) -> CompilerError {
    CompilerError::BadAttr { attribute: attribute.to_string(), value: value.to_string(), why: why.to_string() }
}

#[test]
fn a_text_without_responses_compiles_to_its_header() {
    let mut items = header("en");
    items.push(end("CoconutPakText"));
    items.push(XmlItem::EndDocument);
    let t = compile(&items).map_err(|e| e.message()).unwrap();
    assert_eq!(t.subnamespace, "greetings");
    assert_eq!(t.tag, Tags::Other("Fem".to_string()));
    assert_eq!(t.langcode, "en");
    assert_eq!(t.description, "hello");
    assert!(t.responses.is_empty());
}

#[test]
fn a_text_with_a_response_compiles() {
    let items = document(&good_response(), &[("wait", "1")], vec![XmlItem::Characters("Hi".to_string())]);
    let t = compile(&items).map_err(|e| e.message()).unwrap();
    assert_eq!(t.responses.len(), 1);
    let r = &t.responses[0];
    assert_eq!(r.name, "hello");
    assert_eq!(r.probability.bits, 0x3F00_0000);
    assert_eq!(r.probability.shown, "0.5");
    assert!(r.usable_for_welcome);
    assert_eq!(r.messages.len(), 1);
    assert_eq!(r.messages[0].wait_after.shown, "1");
    assert!(r.messages[0].message.contains("Hi"));
    assert!(r.messages[0].message.starts_with("<p>"));
}

#[test]
fn message_markup_becomes_html() {
    let body = vec![
        start("wave", &[]),
        XmlItem::Characters("so".to_string()),
        end("wave"),
        start("highlight", &[]),
        XmlItem::Characters("bright".to_string()),
        end("highlight"),
    ];
    let items = document(&good_response(), &[("wait", "0.5")], body);
    let t = compile(&items).map_err(|e| e.message()).unwrap();
    let m = &t.responses[0].messages[0].message;
    assert!(m.contains("<mark>bright</mark>"), "{m}");
    assert!(m.contains("so"), "{m}");
    assert!(!m.contains("wave"), "{m}");
}

#[test]
fn the_last_attribute_of_a_name_wins() {
    let a = vec![attr("wait", "1"), attr("name", "x"), attr("wait", "2")];
    assert_eq!(attribute_value(&a, "wait"), Some("2".to_string()));
    assert_eq!(attribute_value(&a, "name"), Some("x".to_string()));
    assert_eq!(attribute_value(&a, "welcome"), None);
    assert_eq!(attribute_value(&vec![], "wait"), None);
}

#[test]
fn identifiers_start_with_a_letter() {
    assert!(is_identifier("a"));
    assert!(is_identifier("Greeting_1-x"));
    assert!(!is_identifier(""));
    assert!(!is_identifier("1a"));
    assert!(!is_identifier("-a"));
    assert!(!is_identifier("a b"));
    assert!(!is_identifier("é"));
}

#[test]
fn booleans_are_read_as_std_reads_them() {
    assert_eq!(parse_bool("true"), Some(true));
    assert_eq!(parse_bool("false"), Some(false));
    assert_eq!(parse_bool("True"), None);
    assert_eq!(parse_bool(""), None);
    for s in ["true", "false", "True", "1", " true"] {
        assert_eq!(parse_bool(s), s.parse::<bool>().ok());
    }
}

#[test]
fn waits_above_five_are_found_on_the_bit_pattern() {
    for f in [0.0f32, 1.0, 4.99, 5.0, -7.0, f32::NEG_INFINITY, -0.0] {
        assert!(!float_exceeds_five(f.to_bits()), "{f}");
    }
    for f in [5.0001f32, 6.0, 1e30, f32::INFINITY] {
        assert!(float_exceeds_five(f.to_bits()), "{f}");
    }
    assert!(!float_exceeds_five(f32::NAN.to_bits()));
    for f in [0.5f32, 5.0, 5.5, 100.0, -100.0] {
        assert_eq!(float_exceeds_five(f.to_bits()), f > 5.0);
    }
}

#[test]
fn message_elements_map_to_html_elements() {
    let cases = [
        ("u", "u"),
        ("super", "sup"),
        ("sub", "sub"),
        ("highlight", "mark"),
        ("br", "br"),
        ("wave", "span"),
        ("shaky", "span"),
        ("spoiler", "span"),
        ("em", "em"),
    ];
    for (from, to) in cases {
        assert_eq!(html_end_name(&from.to_string()), to);
        match html_start_event(&from.to_string(), &vec![attr("k", "v")]) {
            OutEvent::Start(n, a) => {
                assert_eq!(n, to);
                match from {
                    "wave" | "shaky" | "spoiler" => {
                        assert_eq!(a.len(), 1);
                        assert_eq!(a[0].name, "class");
                        assert_eq!(a[0].value, format!("text-{from}"));
                    }
                    "em" => {
                        assert_eq!(a.len(), 1);
                        assert_eq!(a[0].name, "k");
                    }
                    _ => assert!(a.is_empty()),
                }
            }
            _ => panic!("not an element start"),
        }
    }
}

#[test]
fn events_are_described_as_their_debug_text() {
    assert_eq!(describe(&start("x", &[("a", "b")])), "StartElement(x)");
    assert_eq!(describe(&end("x")), "EndElement(x)");
    assert_eq!(describe(&cdata("d")), "CData(d)");
    assert_eq!(describe(&XmlItem::Characters("c".to_string())), "Characters(c)");
    assert_eq!(describe(&XmlItem::Comment("c".to_string())), "Comment(c)");
    assert_eq!(describe(&XmlItem::Whitespace(" ".to_string())), "Whitespace( )");
    assert_eq!(describe(&XmlItem::EndDocument), "EndDocument");
    assert_eq!(describe(&XmlItem::Other("StartDocument".to_string())), "StartDocument");
    assert_eq!(describe(&XmlItem::Error("shown".to_string(), "debug".to_string())), "debug");
}

#[test]
fn a_new_response_has_nothing_set() {
    let r = default_response();
    assert_eq!(r.name, "");
    assert_eq!(r.probability.bits, 0);
    assert_eq!(r.probability.shown, "0");
    assert!(!r.usable_for_welcome);
    assert!(r.messages.is_empty());
}

#[test]
fn readings_must_cover_every_attribute_value() {
    let items = vec![start("a", &[("x", "0.5")]), start("b", &[("y", "unknown")])];
    assert!(!readings_cover_document(&readings(), &items));
    assert!(readings_cover_document(&readings(), &vec![start("a", &[("x", "0.5")]), end("a")]));
    assert!(readings_cover_document(&NumberReadings::new(), &vec![start("a", &[]), cdata("x")]));
    let mut r = NumberReadings::new();
    r.add("1".to_string(), number("1", 1));
    r.add("1".to_string(), number("one", 2));
    match r.lookup(&"1".to_string()) {
        Some(NumberReading::Number(f)) => assert_eq!(f.shown, "1"),
        _ => panic!("the first reading is in force"),
    }
    assert!(r.lookup(&"2".to_string()).is_none());
}

#[test]
fn the_header_must_open_with_the_text_element() {
    let items = vec![XmlItem::Error("bad".to_string(), "Bad(..)".to_string())];
    assert_eq!(compile(&items).err(), Some(xml_error("bad")));
    let items = vec![start("Other", &[])];
    assert_eq!(compile(&items).err(), Some(xml_error("Expected CoconutPakText")));
    // what comes from a real document starts with the document's start
    let items = vec![XmlItem::Other("StartDocument(1.0, UTF-8, None)".to_string()), start("CoconutPakText", &[])];
    assert_eq!(compile(&items).err(), Some(xml_error("Expected subnamespace")));
}

#[test]
fn header_fields_must_be_identifiers_in_order() {
    let mut items = header("en");
    items[2] = cdata("not ok");
    assert_eq!(
        compile(&items).err(),
        Some(CompilerError::BadText { why: "Disallowed Character in subnamespace".to_string() })
    );
    let mut items = header("en");
    items[5] = XmlItem::Characters("Fem".to_string());
    assert_eq!(compile(&items).err(), Some(xml_error("Expected Data")));
    let mut items = header("en");
    items[3] = start("oops", &[]);
    assert_eq!(compile(&items).err(), Some(xml_error("Expected Exit out of previous tag")));
    let mut items = header("en");
    items[10] = start("desc", &[]);
    assert_eq!(compile(&items).err(), Some(xml_error("Expected description")));
    let mut items = header("en");
    items.truncate(11);
    assert_eq!(compile(&items).err(), Some(xml_error("Expected Data")));
}

#[test]
fn the_language_code_must_be_a_language_tag() {
    let items = header("e1234567890");
    assert!(matches!(compile(&items), Err(CompilerError::BadText { .. })));
    let mut items = header("en-US");
    items.push(end("CoconutPakText"));
    assert_eq!(compile(&items).map(|t| t.langcode).map_err(|e| e.message()), Ok("en-US".to_string()));
}

#[test]
fn responses_must_come_under_their_element() {
    let mut items = header("en");
    items.push(start("answers", &[]));
    assert_eq!(compile(&items).err(), Some(xml_error("Expected responses")));
}

#[test]
fn response_attributes_are_checked() {
    let msg = [("wait", "1")];
    let items = document(&[("probability", "0.5"), ("welcome", "true")], &msg, vec![]);
    assert_eq!(compile(&items).err(), Some(bad_attr("name", "None", "Does not exist")));
    let items = document(&[("name", "hello"), ("welcome", "true")], &msg, vec![]);
    assert_eq!(compile(&items).err(), Some(bad_attr("probability", "None", "Does not exist.")));
    let items = document(&[("name", "hello"), ("probability", "lots"), ("welcome", "true")], &msg, vec![]);
    assert_eq!(compile(&items).err(), Some(bad_attr("probability", "lots", "invalid float literal")));
    let items = document(&[("name", "hello"), ("probability", "0.5")], &msg, vec![]);
    assert_eq!(compile(&items).err(), Some(bad_attr("welcome", "None", "Does not exist.")));
    let items = document(&[("name", "hello"), ("probability", "0.5"), ("welcome", "yes")], &msg, vec![]);
    assert_eq!(
        compile(&items).err(),
        Some(bad_attr("welcome", "yes", "provided string was not `true` or `false`"))
    );
}

#[test]
fn message_waits_are_checked() {
    let items = document(&good_response(), &[("extra", "extra")], vec![]);
    assert_eq!(compile(&items).err(), Some(bad_attr("probability", "None", "Does not exist.")));
    let items = document(&good_response(), &[("wait", "lots")], vec![]);
    assert_eq!(compile(&items).err(), Some(bad_attr("wait", "lots", "invalid float literal")));
    let items = document(&good_response(), &[("wait", "7")], vec![]);
    assert_eq!(compile(&items).err(), Some(bad_attr("wait", "7", "wait > 5.0, max wait is 5")));
}

#[test]
fn unexpected_events_are_reported() {
    let items = document(&good_response(), &[("wait", "1")], vec![XmlItem::Other("PI".to_string())]);
    assert_eq!(compile(&items).err(), Some(xml_error("Unexpected XML: PI")));
    let items = document(
        &good_response(),
        &[("wait", "1")],
        vec![XmlItem::Error("broken".to_string(), "Broken".to_string())],
    );
    assert_eq!(compile(&items).err(), Some(xml_error("Bad XML: Broken")));
    let mut items = header("en");
    items.push(start("responses", &[]));
    items.push(start("response", &good_response()));
    items.push(start("text", &[]));
    assert_eq!(compile(&items).err(), Some(xml_error("Unexpected XML: text")));
    let mut items = header("en");
    items.push(start("responses", &[]));
    items.push(end("stray"));
    assert_eq!(compile(&items).err(), Some(xml_error("Unexpected XML Element: stray")));
    let mut items = header("en");
    items.push(start("responses", &[]));
    items.push(cdata("x"));
    assert_eq!(compile(&items).err(), Some(xml_error("Unexpected XML Event: CData(x)")));
    let mut items = header("en");
    items.push(start("responses", &[]));
    assert_eq!(compile(&items).err(), Some(xml_error("Unexpected XML Event: EndDocument")));
}

#[test]
fn markdown_texts_are_read_as_html_events() {
    let items = match prepare_text("hello *there*") {
        Ok(items) => items,
        Err(e) => panic!("{}", e.message()),
    };
    // the markdown became HTML: a paragraph with an emphasis in it
    assert!(items.iter().any(|i| matches!(i, XmlItem::Start(n, _) if n == "p")));
    assert!(items.iter().any(|i| matches!(i, XmlItem::Start(n, _) if n == "em")));
    assert!(matches!(items.last(), Some(XmlItem::EndDocument)));
    // a real document opens with the start of the document, so its header is
    // not where the compiler looks for it
    assert!(matches!(items.first(), Some(XmlItem::Other(_))));
    let mut r = NumberReadings::new();
    assert!(readings_cover_document(&r, &items));
    r.add("unused".to_string(), number("0", 0));
    assert_eq!(compile_document(&items, &r).err(), Some(xml_error("Expected subnamespace")));
}

#[test]
fn message_text_is_escaped_before_it_is_written() {
    let items = document(&good_response(), &[("wait", "1")], vec![XmlItem::Characters("Hi & <b>".to_string())]);
    let t = compile(&items).map_err(|e| e.message()).unwrap();
    // escaped once by the compiler and once more by the XML writer
    assert_eq!(t.responses[0].messages[0].message, "<p>Hi &amp;amp; &amp;lt;b&amp;gt;</p>");
}

#[test]
fn message_html_is_cleaned_of_scripts() {
    let body = vec![
        start("script", &[]),
        XmlItem::Characters("alert(1)".to_string()),
        end("script"),
        XmlItem::Characters("ok".to_string()),
    ];
    let items = document(&good_response(), &[("wait", "1")], body);
    let t = compile(&items).map_err(|e| e.message()).unwrap();
    assert_eq!(t.responses[0].messages[0].message, "<p>ok</p>");
}

#[test]
fn message_html_is_minified() {
    let body = vec![XmlItem::Characters("a   b".to_string()), start("br", &[]), end("br")];
    let items = document(&good_response(), &[("wait", "1")], body);
    let t = compile(&items).map_err(|e| e.message()).unwrap();
    assert_eq!(t.responses[0].messages[0].message, "<p>a b<br></p>");
}
