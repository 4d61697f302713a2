//! The `.copt` text compiler: markdown to HTML, HTML read as XML, and the
//! XML events read into a [`TextContainer`].
use vstd::prelude::*;
use vstd::string::StrSliceExecFns;
use crate::error::{CompilerError, CompilerErrorView};
use crate::text::same_text;
use crate::text_model::{ResponseView, TextContainer, TextContainerView, compile_items, field_closed, field_text, lemma_read_message_advances, read_responses, responses_view, unclosed_error, MessageView, NumberReading, NumberReadings, Response, bad_attr, default_response_view, lemma_message_body_advances, message_element, message_opening, read_message, response_start, describe_item, html_end, html_start, items_view, message_body, xml_error, Float32, Message, NumberReadingView, allowed_identifier, bool_of_text, exceeds_five, is_allowed_char, last_attribute, messages_view, reading_of, readings_cover, start_attributes};
use crate::xml_events::{OutEvent, OutEventView, XmlAttribute, XmlAttributeView, XmlItem, XmlItemView, attributes_view, read_xml_document, xml_document_events, xml_writer_bytes, xml_writer_log, xml_writer_open, xml_writer_write};
use crate::markup::{escape_html_text, html_dom_check, html_dom_verdict, markdown_html, markdown_to_html, minify_html, parse_language_tag, sanitize_html, string_from_utf8};
use crate::tags::Tags;
use xml::writer::EventWriter;

verus! {

/// Whether a string holds exactly the given text.
fn text_is(s: &String, lit: &str) -> (r: bool)
    ensures
        r == (s@ == lit@),
{
    same_text(s.as_str(), lit)
}

fn copy_float(f: &Float32) -> (r: Float32)
    ensures
        r@ == f@,
{
    Float32 { bits: f.bits, shown: f.shown.clone() }
}

fn copy_message(m: &Message) -> (r: Message)
    ensures
        r@ == m@,
{
    Message { message: m.message.clone(), wait_after: copy_float(&m.wait_after) }
}

fn copy_messages(v: &Vec<Message>) -> (r: Vec<Message>)
    ensures
        messages_view(r@) == messages_view(v@),
{
    let mut r: Vec<Message> = Vec::new();
    let mut k: usize = 0;
    while k < v.len()
        invariant
            0 <= k <= v@.len(),
            messages_view(r@) == messages_view(v@.take(k as int)),
        decreases v@.len() - k,
    {
        let ghost before = r@;
        r.push(copy_message(&v[k]));
        proof {
            assert(v@.take(k + 1) =~= v@.take(k as int).push(v@[k as int]));
            assert(messages_view(r@) =~= messages_view(before).push(v@[k as int]@));
            assert(messages_view(v@.take(k + 1)) =~= messages_view(v@.take(k as int)).push(
                v@[k as int]@,
            ));
        }
        k = k + 1;
    }
    proof {
        assert(v@.take(v@.len() as int) =~= v@);
    }
    r
}

fn copy_attributes(a: &Vec<XmlAttribute>) -> (r: Vec<XmlAttribute>)
    ensures
        attributes_view(r@) == attributes_view(a@),
{
    let mut r: Vec<XmlAttribute> = Vec::new();
    let mut k: usize = 0;
    while k < a.len()
        invariant
            0 <= k <= a@.len(),
            attributes_view(r@) == attributes_view(a@.take(k as int)),
        decreases a@.len() - k,
    {
        let ghost before = r@;
        r.push(XmlAttribute { name: a[k].name.clone(), value: a[k].value.clone() });
        proof {
            assert(a@.take(k + 1) =~= a@.take(k as int).push(a@[k as int]));
            assert(attributes_view(r@) =~= attributes_view(before).push(a@[k as int]@));
            assert(attributes_view(a@.take(k + 1)) =~= attributes_view(a@.take(k as int)).push(
                a@[k as int]@,
            ));
        }
        k = k + 1;
    }
    proof {
        assert(a@.take(a@.len() as int) =~= a@);
    }
    r
}

pub open spec fn text_option_view(o: Option<String>) -> Option<Seq<char>> {
    match o {
        Some(s) => Some(s@),
        None => None,
    }
}

/// The value of an element's attribute: the last one of that name, as a map
/// built from the attributes in order would hold it.
pub fn attribute_value(a: &Vec<XmlAttribute>, key: &str) -> (r: Option<String>)
    ensures
        text_option_view(r) == last_attribute(attributes_view(a@), key@),
{
    let ghost av = attributes_view(a@);
    let mut found: Option<String> = None;
    let mut k: usize = 0;
    while k < a.len()
        invariant
            av == attributes_view(a@),
            0 <= k <= a@.len(),
            text_option_view(found) == last_attribute(av.take(k as int), key@),
        decreases a@.len() - k,
    {
        proof {
            assert(av.take(k + 1).drop_last() =~= av.take(k as int));
        }
        if same_text(a[k].name.as_str(), key) {
            found = Some(a[k].value.clone());
        }
        k = k + 1;
    }
    proof {
        assert(av.take(a@.len() as int) =~= av);
    }
    found
}

/// A value found as an attribute's value is one of the attributes' values.
proof fn lemma_last_attribute_member(a: Seq<XmlAttributeView>, key: Seq<char>)
    ensures
        last_attribute(a, key) matches Some(v) ==> exists|k: int| 0 <= k < a.len() && (#[trigger] a[k]).value == v,
    decreases a.len(),
{
    if a.len() > 0 && a.last().name != key {
        lemma_last_attribute_member(a.drop_last(), key);
        match last_attribute(a, key) {
            Some(v) => {
                let k = choose|k: int| 0 <= k < a.drop_last().len() && (#[trigger] a.drop_last()[k]).value == v;
                assert(a[k] == a.drop_last()[k]);
            },
            None => {},
        }
    }
}

/// A table that covers a document has a reading for the value of any
/// attribute of any of its element starts.
proof fn lemma_covered_attribute(
    tbl: Seq<(Seq<char>, NumberReadingView)>,
    items: Seq<XmlItemView>,
    i: int,
    key: Seq<char>,
)
    requires
        readings_cover(tbl, items),
        0 <= i < items.len(),
        items[i] is Start,
    ensures
        last_attribute(start_attributes(items[i]), key) matches Some(v) ==> reading_of(tbl, v) is Some,
{
    let a = start_attributes(items[i]);
    lemma_last_attribute_member(a, key);
    match last_attribute(a, key) {
        Some(v) => {
            let k = choose|k: int| 0 <= k < a.len() && (#[trigger] a[k]).value == v;
            assert(start_attributes(items[i])[k].value == v);
        },
        None => {},
    }
}

/// Whether a text is an identifier: a letter first, then letters, digits,
/// `_` and `-` only.
pub fn is_identifier(s: &str) -> (r: bool)
    ensures
        r == allowed_identifier(s@),
{
    let n = s.unicode_len();
    if n == 0 {
        return false;
    }
    let c0 = s.get_char(0);
    if !(('a' <= c0 && c0 <= 'z') || ('A' <= c0 && c0 <= 'Z')) {
        return false;
    }
    let mut k: usize = 0;
    while k < n
        invariant
            n == s@.len(),
            0 <= k <= n,
            forall|j: int| 0 <= j < k ==> is_allowed_char(#[trigger] s@[j]),
        decreases n - k,
    {
        let c = s.get_char(k);
        if !(('a' <= c && c <= 'z') || ('A' <= c && c <= 'Z') || ('0' <= c && c <= '9') || c == '_'
            || c == '-') {
            return false;
        }
        k = k + 1;
    }
    true
}

/// How `bool::from_str` reads a text.
pub fn parse_bool(s: &str) -> (r: Option<bool>)
    ensures
        r == bool_of_text(s@),
{
    if same_text(s, "true") {
        Some(true)
    } else if same_text(s, "false") {
        Some(false)
    } else {
        None
    }
}

/// Whether an `f32`, given by its bit pattern, is greater than 5.0.
pub fn float_exceeds_five(bits: u32) -> (r: bool)
    ensures
        r == exceeds_five(bits),
{
    bits < 0x8000_0000u32 && 0x40A0_0000u32 < bits && bits <= 0x7F80_0000u32
}

fn class_span(class: &str) -> (r: OutEvent)
    ensures
        r@ == OutEventView::Start("span"@, seq![XmlAttributeView { name: "class"@, value: class@ }]),
{
    let a = vec![XmlAttribute { name: String::from_str("class"), value: String::from_str(class) }];
    let r = OutEvent::Start(String::from_str("span"), a);
    proof {
        assert(attributes_view(a@) =~= seq![XmlAttributeView { name: "class"@, value: class@ }]);
    }
    r
}

fn bare_start(name: &str) -> (r: OutEvent)
    ensures
        r@ == OutEventView::Start(name@, Seq::empty()),
{
    let a: Vec<XmlAttribute> = Vec::new();
    proof {
        assert(attributes_view(a@) =~= Seq::<XmlAttributeView>::empty());
    }
    OutEvent::Start(String::from_str(name), a)
}

/// The HTML element start that a message's element start is written as.
pub fn html_start_event(n: &String, a: &Vec<XmlAttribute>) -> (r: OutEvent)
    ensures
        r@ == html_start(n@, attributes_view(a@)),
{
    if text_is(n, "u") {
        bare_start("u")
    } else if text_is(n, "super") {
        bare_start("sup")
    } else if text_is(n, "sub") {
        bare_start("sub")
    } else if text_is(n, "highlight") {
        bare_start("mark")
    } else if text_is(n, "wave") {
        class_span("text-wave")
    } else if text_is(n, "shaky") {
        class_span("text-shaky")
    } else if text_is(n, "br") {
        bare_start("br")
    } else if text_is(n, "spoiler") {
        class_span("text-spoiler")
    } else {
        OutEvent::Start(n.clone(), copy_attributes(a))
    }
}

/// The HTML element name that a message's element end is written with.
pub fn html_end_name(n: &String) -> (r: String)
    ensures
        r@ == html_end(n@),
{
    if text_is(n, "u") {
        String::from_str("u")
    } else if text_is(n, "super") {
        String::from_str("sup")
    } else if text_is(n, "sub") {
        String::from_str("sub")
    } else if text_is(n, "highlight") {
        String::from_str("mark")
    } else if text_is(n, "wave") || text_is(n, "shaky") || text_is(n, "spoiler") {
        String::from_str("span")
    } else if text_is(n, "br") {
        String::from_str("br")
    } else {
        n.clone()
    }
}

/// How an event is described in an error.  For every event but an element
/// start this is the `Debug` text `xml-rs` gives it; an element start, which
/// is never unexpected where this is used, is described as
/// `StartElement(name)`, without the namespace and attributes that the
/// `Debug` text of `xml-rs` adds.
pub fn describe(it: &XmlItem) -> (r: String)
    ensures
        r@ == describe_item(it@),
{
    match it {
        XmlItem::Start(n, _) => String::from_str("StartElement(").concat(n.as_str()).concat(")"),
        XmlItem::End(n) => String::from_str("EndElement(").concat(n.as_str()).concat(")"),
        XmlItem::CData(d) => String::from_str("CData(").concat(d.as_str()).concat(")"),
        XmlItem::Characters(d) => String::from_str("Characters(").concat(d.as_str()).concat(")"),
        XmlItem::Comment(d) => String::from_str("Comment(").concat(d.as_str()).concat(")"),
        XmlItem::Whitespace(d) => String::from_str("Whitespace(").concat(d.as_str()).concat(")"),
        XmlItem::EndDocument => String::from_str("EndDocument"),
        XmlItem::Other(d) => d.clone(),
        XmlItem::Error(_, d) => d.clone(),
    }
}

fn xml_error_with(prefix: &str, detail: &str) -> (r: CompilerError)
    ensures
        r@ == xml_error(prefix@ + detail@),
{
    CompilerError::XmlError { why: String::from_str(prefix).concat(detail) }
}

/// Writes a message's body, from position `start` on, to the writer, up to
/// and including the end of the `message` element; the position after it.
fn write_message_body(items: &Vec<XmlItem>, start: usize, w: &mut EventWriter<Vec<u8>>) -> (r: Result<
    usize,
    CompilerError,
>)
    requires
        start <= items@.len(),
    ensures
        match message_body(items_view(items@), start as int, xml_writer_log(*old(w))) {
            Ok((out, j)) => r == Ok::<usize, CompilerError>(j as usize) && xml_writer_log(*final(w))
                == out,
            Err(e) => r matches Err(x) && x@ == e,
        },
{
    let ghost v = items_view(items@);
    let ghost goal = message_body(v, start as int, xml_writer_log(*w));
    let mut i = start;
    while i < items.len()
        invariant
            v == items_view(items@),
            start <= i <= items@.len(),
            goal == message_body(items_view(items@), start as int, xml_writer_log(*old(w))),
            message_body(v, i as int, xml_writer_log(*w)) == goal,
        decreases items@.len() - i,
    {
        match &items[i] {
            XmlItem::Start(n, a) => {
                let ev = html_start_event(n, a);
                xml_writer_write(w, &ev);
            },
            XmlItem::End(n) => {
                if text_is(n, "message") {
                    let ev = OutEvent::End(String::from_str("p"));
                    xml_writer_write(w, &ev);
                    return Ok(i + 1);
                } else {
                    let ev = OutEvent::End(html_end_name(n));
                    xml_writer_write(w, &ev);
                }
            },
            XmlItem::CData(d) => {
                let ev = OutEvent::Text(escape_html_text(d.as_str()));
                xml_writer_write(w, &ev);
            },
            XmlItem::Characters(d) => {
                let ev = OutEvent::Text(escape_html_text(d.as_str()));
                xml_writer_write(w, &ev);
            },
            XmlItem::Comment(_) => {},
            XmlItem::Whitespace(_) => {},
            XmlItem::Error(_, d) => {
                return Err(xml_error_with("Bad XML: ", d.as_str()));
            },
            other => {
                let d = describe(other);
                return Err(xml_error_with("Unexpected XML: ", d.as_str()));
            },
        }
        i = i + 1;
    }
    Err(xml_error_with("Unexpected XML: ", "EndDocument"))
}

pub open spec fn error_result_view<T, V>(r: Result<T, CompilerError>, ok: V) -> Result<V, CompilerErrorView> {
    match r {
        Ok(_) => Ok(ok),
        Err(e) => Err(e@),
    }
}

fn bad_attr_error(attribute: &str, value: String, why: String) -> (r: CompilerError)
    ensures
        r@ == bad_attr(attribute@, value@, why@),
{
    CompilerError::BadAttr { attribute: String::from_str(attribute), value, why }
}

/// Whether position `i` holds an element start whose attributes are `a`.
pub open spec fn start_with_attributes(items: Seq<XmlItemView>, i: int, a: Seq<XmlAttributeView>) -> bool {
    0 <= i < items.len() && items[i] is Start && start_attributes(items[i]) == a
}

/// A `message` element starting at `i` read into a message; the position
/// after it.
fn read_message_element(
    items: &Vec<XmlItem>,
    readings: &NumberReadings,
    i: usize,
    a: &Vec<XmlAttribute>,
) -> (r: Result<(Message, usize), CompilerError>)
    requires
        readings_cover(readings@, items_view(items@)),
        start_with_attributes(items_view(items@), i as int, attributes_view(a@)),
    ensures
        match message_element(items_view(items@), readings@, i as int, attributes_view(a@)) {
            Ok((m, j)) => r matches Ok((x, k)) && x@ == m && k == j,
            Err(e) => r matches Err(x) && x@ == e,
        },
{
    let ghost v = items_view(items@);
    let n = items.len();
    assert(i < n);
    match attribute_value(a, "wait") {
        None => Err(bad_attr_error("probability", String::from_str("None"), String::from_str("Does not exist."))),
        Some(w) => {
            proof {
                lemma_covered_attribute(readings@, v, i as int, "wait"@);
            }
            match readings.lookup(&w) {
                None => {
                    proof {
                        assert(false);
                    }
                    Err(bad_attr_error("wait", w, String::new()))
                },
                Some(NumberReading::Invalid(why)) => Err(bad_attr_error("wait", w, why.clone())),
                Some(NumberReading::Number(f)) => {
                    if float_exceeds_five(f.bits) {
                        return Err(
                            bad_attr_error("wait", f.shown.clone(), String::from_str("wait > 5.0, max wait is 5")),
                        );
                    }
                    let mut writer = xml_writer_open();
                    let opening = bare_start("p");
                    xml_writer_write(&mut writer, &opening);
                    assert(xml_writer_log(writer) =~= message_opening());
                    proof {
                        lemma_message_body_advances(v, i + 1, message_opening());
                    }
                    match write_message_body(items, i + 1, &mut writer) {
                        Err(e) => Err(e),
                        Ok(j) => {
                            let bytes = xml_writer_bytes(writer);
                            match string_from_utf8(bytes) {
                                Err(why) => Err(CompilerError::BadText { why }),
                                Ok(html) => {
                                    let cleaned = sanitize_html(html.as_str());
                                    match minify_html(cleaned.as_str()) {
                                        Err(why) => Err(CompilerError::BadText { why }),
                                        Ok(text) => Ok(
                                            (Message { message: text, wait_after: copy_float(f) }, j),
                                        ),
                                    }
                                },
                            }
                        },
                    }
                },
            }
        },
    }
}

/// Reads a response's message from position `start` on, adding it to
/// `inner`; the position after it.
fn read_one_message(
    items: &Vec<XmlItem>,
    readings: &NumberReadings,
    start: usize,
    inner: &mut Vec<Message>,
) -> (r: Result<usize, CompilerError>)
    requires
        readings_cover(readings@, items_view(items@)),
        start <= items@.len(),
    ensures
        match read_message(items_view(items@), readings@, start as int, messages_view(old(inner)@)) {
            Ok((m, j)) => r == Ok::<usize, CompilerError>(j as usize) && messages_view(final(inner)@) == m,
            Err(e) => r matches Err(x) && x@ == e,
        },
{
    let ghost v = items_view(items@);
    let ghost goal = read_message(v, readings@, start as int, messages_view(inner@));
    let mut i = start;
    while i < items.len()
        invariant
            v == items_view(items@),
            readings_cover(readings@, v),
            start <= i <= items@.len(),
            goal == read_message(v, readings@, start as int, messages_view(old(inner)@)),
            read_message(v, readings@, i as int, messages_view(inner@)) == goal,
        decreases items@.len() - i,
    {
        match &items[i] {
            XmlItem::Start(n, a) => {
                if text_is(n, "message") {
                    match read_message_element(items, readings, i, a) {
                        Err(e) => {
                            return Err(e);
                        },
                        Ok((m, j)) => {
                            let ghost before = inner@;
                            inner.push(m);
                            proof {
                                assert(messages_view(inner@) =~= messages_view(before).push(m@));
                            }
                            return Ok(j);
                        },
                    }
                } else {
                    return Err(xml_error_with("Unexpected XML: ", n.as_str()));
                }
            },
            XmlItem::End(_) => {},
            XmlItem::Comment(_) => {},
            XmlItem::Whitespace(_) => {},
            XmlItem::Error(m, _) => {
                return Err(CompilerError::XmlError { why: m.clone() });
            },
            other => {
                let d = describe(other);
                return Err(xml_error_with("Unexpected XML: ", d.as_str()));
            },
        }
        i = i + 1;
    }
    Err(xml_error_with("Unexpected XML: ", "EndDocument"))
}

/// A response with nothing set.
pub fn default_response() -> (r: Response)
    ensures
        r@ == default_response_view(),
{
    let m: Vec<Message> = Vec::new();
    proof {
        assert(messages_view(m@) =~= Seq::<MessageView>::empty());
    }
    Response {
        name: String::new(),
        probability: Float32 { bits: 0, shown: String::from_str("0") },
        usable_for_welcome: false,
        messages: m,
    }
}

/// Sets a response's name, probability and welcome flag from the attributes
/// of its `response` element at position `i`.
fn start_response(
    items: &Vec<XmlItem>,
    readings: &NumberReadings,
    i: usize,
    a: &Vec<XmlAttribute>,
    cur: &mut Response,
) -> (r: Result<(), CompilerError>)
    requires
        readings_cover(readings@, items_view(items@)),
        start_with_attributes(items_view(items@), i as int, attributes_view(a@)),
    ensures
        match response_start(attributes_view(a@), readings@, old(cur)@) {
            Ok(c) => r is Ok && final(cur)@ == c,
            Err(e) => r matches Err(x) && x@ == e,
        },
{
    let ghost v = items_view(items@);
    let name = match attribute_value(a, "name") {
        None => {
            return Err(bad_attr_error("name", String::from_str("None"), String::from_str("Does not exist")));
        },
        Some(nm) => nm,
    };
    let p = match attribute_value(a, "probability") {
        None => {
            return Err(
                bad_attr_error("probability", String::from_str("None"), String::from_str("Does not exist.")),
            );
        },
        Some(p) => p,
    };
    proof {
        lemma_covered_attribute(readings@, v, i as int, "probability"@);
    }
    let probability = match readings.lookup(&p) {
        None => {
            proof {
                assert(false);
            }
            return Err(bad_attr_error("probability", p, String::new()));
        },
        Some(NumberReading::Invalid(why)) => {
            return Err(bad_attr_error("probability", p, why.clone()));
        },
        Some(NumberReading::Number(f)) => copy_float(f),
    };
    let w = match attribute_value(a, "welcome") {
        None => {
            return Err(bad_attr_error("welcome", String::from_str("None"), String::from_str("Does not exist.")));
        },
        Some(w) => w,
    };
    let welcome = match parse_bool(w.as_str()) {
        None => {
            return Err(
                bad_attr_error("welcome", w, String::from_str("provided string was not `true` or `false`")),
            );
        },
        Some(b) => b,
    };
    cur.name = name;
    cur.probability = probability;
    cur.usable_for_welcome = welcome;
    Ok(())
}

/// Reads the responses from position `start` on, up to the end of the
/// `CoconutPakText` element.
fn read_all_responses(items: &Vec<XmlItem>, readings: &NumberReadings, start: usize) -> (r: Result<
    Vec<Response>,
    CompilerError,
>)
    requires
        readings_cover(readings@, items_view(items@)),
        start <= items@.len(),
    ensures
        match read_responses(
            items_view(items@),
            readings@,
            start as int,
            default_response_view(),
            Seq::empty(),
            Seq::empty(),
        ) {
            Ok(rs) => r matches Ok(x) && responses_view(x@) == rs,
            Err(e) => r matches Err(x) && x@ == e,
        },
{
    let ghost v = items_view(items@);
    let ghost tbl = readings@;
    let mut cur = default_response();
    let mut inner: Vec<Message> = Vec::new();
    let mut done: Vec<Response> = Vec::new();
    proof {
        assert(messages_view(inner@) =~= Seq::<MessageView>::empty());
        assert(responses_view(done@) =~= Seq::<ResponseView>::empty());
    }
    let ghost goal = read_responses(v, tbl, start as int, cur@, messages_view(inner@), responses_view(done@));
    let n = items.len();
    let mut i = start;
    while i < n
        invariant
            v == items_view(items@),
            tbl == readings@,
            n == items@.len(),
            readings_cover(tbl, v),
            start <= i <= n,
            goal == read_responses(
                v,
                tbl,
                start as int,
                default_response_view(),
                Seq::empty(),
                Seq::empty(),
            ),
            read_responses(v, tbl, i as int, cur@, messages_view(inner@), responses_view(done@)) == goal,
        decreases n - i,
    {
        let next: usize;
        match &items[i] {
            XmlItem::Start(name, a) => {
                if text_is(name, "response") {
                    match start_response(items, readings, i, a, &mut cur) {
                        Err(e) => {
                            return Err(e);
                        },
                        Ok(()) => {},
                    }
                    proof {
                        lemma_read_message_advances(v, tbl, i + 1, messages_view(inner@));
                    }
                    match read_one_message(items, readings, i + 1, &mut inner) {
                        Err(e) => {
                            return Err(e);
                        },
                        Ok(j) => {
                            cur.messages = copy_messages(&inner);
                            next = j;
                        },
                    }
                } else {
                    next = i + 1;
                }
            },
            XmlItem::End(name) => {
                if text_is(name, "response") {
                    let ghost before = done@;
                    let finished = cur;
                    done.push(finished);
                    proof {
                        assert(responses_view(done@) =~= responses_view(before).push(finished@));
                    }
                    cur = default_response();
                    inner = Vec::new();
                    proof {
                        assert(messages_view(inner@) =~= Seq::<MessageView>::empty());
                    }
                    next = i + 1;
                } else if text_is(name, "responses") {
                    next = i + 1;
                } else if text_is(name, "CoconutPakText") {
                    return Ok(done);
                } else {
                    return Err(xml_error_with("Unexpected XML Element: ", name.as_str()));
                }
            },
            XmlItem::Comment(_) => {
                next = i + 1;
            },
            XmlItem::Whitespace(_) => {
                next = i + 1;
            },
            XmlItem::Error(m, _) => {
                return Err(CompilerError::XmlError { why: m.clone() });
            },
            other => {
                let d = describe(other);
                return Err(xml_error_with("Unexpected XML Event: ", d.as_str()));
            },
        }
        i = next;
    }
    Err(xml_error_with("Unexpected XML Event: ", "EndDocument"))
}

/// The text of the header field `tag` whose element starts at `i`.
fn read_field(items: &Vec<XmlItem>, i: usize, tag: &str) -> (r: Result<String, CompilerError>)
    requires
        i < 100,
    ensures
        text_result_error_view(r) == field_text(items_view(items@), i as int, tag@),
{
    let expected = xml_error_with("Expected ", tag);
    if i >= items.len() {
        return Err(expected);
    }
    match &items[i] {
        XmlItem::Start(n, _) => {
            if !same_text(n.as_str(), tag) {
                return Err(expected);
            }
            if i + 1 >= items.len() {
                return Err(CompilerError::XmlError { why: String::from_str("Expected Data") });
            }
            match &items[i + 1] {
                XmlItem::CData(d) => {
                    if is_identifier(d.as_str()) {
                        Ok(d.clone())
                    } else {
                        Err(
                            CompilerError::BadText {
                                why: String::from_str("Disallowed Character in ").concat(tag),
                            },
                        )
                    }
                },
                _ => Err(CompilerError::XmlError { why: String::from_str("Expected Data") }),
            }
        },
        _ => Err(expected),
    }
}

/// Whether position `i` holds an element end.
fn closes_at(items: &Vec<XmlItem>, i: usize) -> (r: bool)
    ensures
        r == field_closed(items_view(items@), i as int),
{
    if i < items.len() {
        match &items[i] {
            XmlItem::End(_) => true,
            _ => false,
        }
    } else {
        false
    }
}

fn unclosed() -> (r: CompilerError)
    ensures
        r@ == unclosed_error(),
{
    CompilerError::XmlError { why: String::from_str("Expected Exit out of previous tag") }
}

pub open spec fn text_result_error_view(r: Result<String, CompilerError>) -> Result<Seq<char>, CompilerErrorView> {
    match r {
        Ok(s) => Ok(s@),
        Err(e) => Err(e@),
    }
}

/// A compile result by the pictures of the container and of the error.
pub open spec fn compile_result_view(r: Result<TextContainer, CompilerError>) -> Result<TextContainerView, CompilerErrorView> {
    match r {
        Ok(t) => Ok(t@),
        Err(e) => Err(e@),
    }
}

/// A document's events read into a text container, with the float readings
/// the caller supplied for its attribute values.
pub fn compile_document(items: &Vec<XmlItem>, readings: &NumberReadings) -> (r: Result<TextContainer, CompilerError>)
    requires
        readings_cover(readings@, items_view(items@)),
    ensures
        compile_result_view(r) == compile_items(items_view(items@), readings@),
{
    let ghost v = items_view(items@);
    if items.len() > 0 {
        match &items[0] {
            XmlItem::Error(m, _) => {
                return Err(CompilerError::XmlError { why: m.clone() });
            },
            XmlItem::Start(n, _) => {
                if !text_is(n, "CoconutPakText") {
                    return Err(CompilerError::XmlError { why: String::from_str("Expected CoconutPakText") });
                }
            },
            _ => {},
        }
    }
    let subnamespace = read_field(items, 1, "subnamespace")?;
    if !closes_at(items, 3) {
        return Err(unclosed());
    }
    let tag_text = read_field(items, 4, "tag")?;
    let tag = Tags::try_from_value(&tag_text);
    if !closes_at(items, 6) {
        return Err(unclosed());
    }
    let lang_text = read_field(items, 7, "langcode")?;
    let langcode = match parse_language_tag(lang_text.as_str()) {
        Err(why) => {
            return Err(CompilerError::BadText { why });
        },
        Ok(l) => l,
    };
    if !closes_at(items, 9) {
        return Err(unclosed());
    }
    let description = read_field(items, 10, "description")?;
    if !closes_at(items, 12) {
        return Err(unclosed());
    }
    let mut responses: Vec<Response> = Vec::new();
    if 13 < items.len() {
        match &items[13] {
            XmlItem::Start(n, _) => {
                if !text_is(n, "responses") {
                    return Err(CompilerError::XmlError { why: String::from_str("Expected responses") });
                }
                responses = read_all_responses(items, readings, 14)?;
            },
            _ => {},
        }
    }
    proof {
        if !(13 < items@.len() && v[13] is Start) {
            assert(responses_view(responses@) =~= Seq::<ResponseView>::empty());
        }
    }
    Ok(TextContainer { subnamespace, tag, description, langcode, responses })
}

/// What a `.copt` text's markdown gives as XML: the error when its HTML is
/// not a document `html_parser` accepts, else the HTML's events.
pub open spec fn prepared_events(intext: Seq<char>) -> Result<Seq<XmlItemView>, CompilerErrorView> {
    let html = markdown_html(intext);
    match html_dom_verdict(html) {
        Some(why) => Err(xml_error(why)),
        None => Ok(xml_document_events(html)),
    }
}

/// A `.copt` text rendered from markdown to HTML, checked as an HTML
/// document and read as XML events.
pub fn prepare_text(intext: &str) -> (r: Result<Vec<XmlItem>, CompilerError>)
    ensures
        match prepared_events(intext@) {
            Ok(evs) => r matches Ok(items) && items_view(items@) == evs,
            Err(e) => r matches Err(x) && x@ == e,
        },
{
    let html = markdown_to_html(intext);
    match html_dom_check(html.as_str()) {
        Some(why) => Err(CompilerError::XmlError { why }),
        None => Ok(read_xml_document(html.as_str())),
    }
}

/// Whether a table holds a reading for every attribute value of the
/// document's element starts.
pub fn readings_cover_document(readings: &NumberReadings, items: &Vec<XmlItem>) -> (r: bool)
    ensures
        r == readings_cover(readings@, items_view(items@)),
{
    let ghost v = items_view(items@);
    let mut i: usize = 0;
    while i < items.len()
        invariant
            v == items_view(items@),
            0 <= i <= items@.len(),
            forall|i2: int, k: int|
                #![trigger start_attributes(v[i2])[k]]
                0 <= i2 < i && 0 <= k < start_attributes(v[i2]).len() ==> reading_of(
                    readings@,
                    start_attributes(v[i2])[k].value,
                ) is Some,
        decreases items@.len() - i,
    {
        match &items[i] {
            XmlItem::Start(_, a) => {
                let mut k: usize = 0;
                while k < a.len()
                    invariant
                        v == items_view(items@),
                        0 <= i < items@.len(),
                        v[i as int] == items@[i as int]@,
                        start_attributes(v[i as int]) == attributes_view(a@),
                        0 <= k <= a@.len(),
                        forall|i2: int, k2: int|
                            #![trigger start_attributes(v[i2])[k2]]
                            0 <= i2 < i && 0 <= k2 < start_attributes(v[i2]).len() ==> reading_of(
                                readings@,
                                start_attributes(v[i2])[k2].value,
                            ) is Some,
                        forall|k2: int|
                            0 <= k2 < k ==> reading_of(readings@, (#[trigger] attributes_view(a@)[k2]).value) is Some,
                    decreases a@.len() - k,
                {
                    if readings.lookup(&a[k].value).is_none() {
                        proof {
                            assert(start_attributes(v[i as int])[k as int].value == a@[k as int].value@);
                        }
                        return false;
                    }
                    k = k + 1;
                }
                proof {
                    assert forall|i2: int, k2: int|
                        #![trigger start_attributes(v[i2])[k2]]
                        0 <= i2 < i + 1 && 0 <= k2 < start_attributes(v[i2]).len() implies reading_of(
                            readings@,
                            start_attributes(v[i2])[k2].value,
                        ) is Some by {
                        if i2 == i {
                            assert(start_attributes(v[i2])[k2] == attributes_view(a@)[k2]);
                        }
                    }
                }
            },
            _ => {},
        }
        i = i + 1;
    }
    true
}

} // verus!
