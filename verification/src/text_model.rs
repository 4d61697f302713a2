//! What a compiled CoconutPak text is, and the rules by which its XML
//! events are read.
use vstd::prelude::*;
use vstd::utf8::*;
use crate::error::CompilerErrorView;
use crate::markup::{ammonia_cleaned, html_escaped, html_minified, language_tag_parsed, utf8_error_text};
use crate::tags::{TagView, Tags};
use crate::xml_events::{OutEvent, OutEventView, XmlAttributeView, XmlItem, XmlItemView, xml_emitted};

verus! {

/// A 32-bit float as the compiler holds it: its IEEE-754 bit pattern and
/// the text by which Rust displays it.  Reading numbers is left to the
/// caller (see [`NumberReadings`]).
pub struct Float32 {
    pub bits: u32,
    pub shown: String,
}

/// What reading an attribute as a 32-bit float gave: the number, or the
/// text of the parse error.
pub enum NumberReading {
    Number(Float32),
    Invalid(String),
}

/// One message of a response: its HTML and how long to wait after it.
pub struct Message {
    pub message: String,
    pub wait_after: Float32,
}

/// A response of a text, with its messages.
pub struct Response {
    pub name: String,
    pub probability: Float32,
    pub usable_for_welcome: bool,
    pub messages: Vec<Message>,
}

/// A compiled CoconutPak text.
pub struct TextContainer {
    pub subnamespace: String,
    pub tag: Tags,
    pub description: String,
    pub langcode: String,
    pub responses: Vec<Response>,
}

/// The float readings of attribute values, supplied by the caller: the
/// first entry for a value is its reading.
pub struct NumberReadings {
    entries: Vec<(String, NumberReading)>,
}

pub struct Float32View {
    pub bits: u32,
    pub shown: Seq<char>,
}

pub enum NumberReadingView {
    Number(Float32View),
    Invalid(Seq<char>),
}

pub struct MessageView {
    pub message: Seq<char>,
    pub wait_after: Float32View,
}

pub struct ResponseView {
    pub name: Seq<char>,
    pub probability: Float32View,
    pub usable_for_welcome: bool,
    pub messages: Seq<MessageView>,
}

pub struct TextContainerView {
    pub subnamespace: Seq<char>,
    pub tag: TagView,
    pub description: Seq<char>,
    pub langcode: Seq<char>,
    pub responses: Seq<ResponseView>,
}

impl View for Float32 {
    type V = Float32View;

    open spec fn view(&self) -> Float32View {
        Float32View { bits: self.bits, shown: self.shown@ }
    }
}

impl View for NumberReading {
    type V = NumberReadingView;

    open spec fn view(&self) -> NumberReadingView {
        match self {
            NumberReading::Number(f) => NumberReadingView::Number(f@),
            NumberReading::Invalid(e) => NumberReadingView::Invalid(e@),
        }
    }
}

impl View for Message {
    type V = MessageView;

    open spec fn view(&self) -> MessageView {
        MessageView { message: self.message@, wait_after: self.wait_after@ }
    }
}

pub open spec fn messages_view(m: Seq<Message>) -> Seq<MessageView> {
    m.map_values(|x: Message| x@)
}

impl View for Response {
    type V = ResponseView;

    open spec fn view(&self) -> ResponseView {
        ResponseView {
            name: self.name@,
            probability: self.probability@,
            usable_for_welcome: self.usable_for_welcome,
            messages: messages_view(self.messages@),
        }
    }
}

pub open spec fn responses_view(r: Seq<Response>) -> Seq<ResponseView> {
    r.map_values(|x: Response| x@)
}

impl View for TextContainer {
    type V = TextContainerView;

    open spec fn view(&self) -> TextContainerView {
        TextContainerView {
            subnamespace: self.subnamespace@,
            tag: self.tag@,
            description: self.description@,
            langcode: self.langcode@,
            responses: responses_view(self.responses@),
        }
    }
}

impl View for NumberReadings {
    type V = Seq<(Seq<char>, NumberReadingView)>;

    closed spec fn view(&self) -> Seq<(Seq<char>, NumberReadingView)> {
        entries_view(self.entries@)
    }
}

impl NumberReadings {
    /// A table with no readings.
    pub fn new() -> (r: NumberReadings)
        ensures
            r@ == Seq::<(Seq<char>, NumberReadingView)>::empty(),
    {
        NumberReadings { entries: Vec::new() }
    }

    /// Adds a reading for a value (an earlier one for the same value stays
    /// in force).
    pub fn add(&mut self, value: String, reading: NumberReading)
        ensures
            final(self)@ == old(self)@.push((value@, reading@)),
    {
        self.entries.push((value, reading));
        proof {
            assert(entries_view(self.entries@) =~= entries_view(old(self).entries@).push(
                (value@, reading@),
            ));
        }
    }

    /// The reading of a value, if the table has one.
    pub fn lookup(&self, v: &String) -> (r: Option<&NumberReading>)
        ensures
            r is None <==> reading_of(self@, v@) is None,
            r matches Some(x) ==> reading_of(self@, v@) == Some(x@),
    {
        let mut k: usize = 0;
        assert(self@.skip(0) =~= self@);
        while k < self.entries.len()
            invariant
                0 <= k <= self.entries@.len(),
                reading_of(self@, v@) == reading_of(self@.skip(k as int), v@),
            decreases self.entries@.len() - k,
        {
            proof {
                assert(self@.skip(k as int).drop_first() =~= self@.skip(k + 1));
            }
            if self.entries[k].0 == *v {
                return Some(&self.entries[k].1);
            }
            k = k + 1;
        }
        None
    }
}

pub open spec fn items_view(items: Seq<XmlItem>) -> Seq<XmlItemView> {
    items.map_values(|x: XmlItem| x@)
}

pub open spec fn out_view(evs: Seq<OutEvent>) -> Seq<OutEventView> {
    evs.map_values(|x: OutEvent| x@)
}

pub open spec fn entries_view(e: Seq<(String, NumberReading)>) -> Seq<(Seq<char>, NumberReadingView)> {
    e.map_values(|x: (String, NumberReading)| (x.0@, x.1@))
}

/// The reading of a value: that of its first entry.
pub open spec fn reading_of(tbl: Seq<(Seq<char>, NumberReadingView)>, v: Seq<char>) -> Option<NumberReadingView>
    decreases tbl.len(),
{
    if tbl.len() == 0 {
        None
    } else if tbl[0].0 == v {
        Some(tbl[0].1)
    } else {
        reading_of(tbl.drop_first(), v)
    }
}

/// The reading a table gives a value it covers.
pub open spec fn reading(tbl: Seq<(Seq<char>, NumberReadingView)>, v: Seq<char>) -> NumberReadingView {
    match reading_of(tbl, v) {
        Some(r) => r,
        None => NumberReadingView::Invalid(Seq::empty()),
    }
}

/// The attributes of an element start; nothing for any other event.
pub open spec fn start_attributes(it: XmlItemView) -> Seq<XmlAttributeView> {
    match it {
        XmlItemView::Start(_, a) => a,
        _ => Seq::empty(),
    }
}

/// Whether a table holds a reading for every attribute value of a document.
pub open spec fn readings_cover(tbl: Seq<(Seq<char>, NumberReadingView)>, items: Seq<XmlItemView>) -> bool {
    forall|i: int, k: int|
        #![trigger start_attributes(items[i])[k]]
        0 <= i < items.len() && 0 <= k < start_attributes(items[i]).len() ==> reading_of(
            tbl,
            start_attributes(items[i])[k].value,
        ) is Some
}

/// The value an element's attribute has, as a map built from the
/// attributes in order holds it: the last one of that name wins.
pub open spec fn last_attribute(a: Seq<XmlAttributeView>, key: Seq<char>) -> Option<Seq<char>>
    decreases a.len(),
{
    if a.len() == 0 {
        None
    } else if a.last().name == key {
        Some(a.last().value)
    } else {
        last_attribute(a.drop_last(), key)
    }
}

/// The character set of identifiers: ASCII letters, digits, `_` and `-`.
pub open spec fn is_allowed_char(c: char) -> bool {
    ('a' <= c && c <= 'z') || ('A' <= c && c <= 'Z') || ('0' <= c && c <= '9') || c == '_' || c
        == '-'
}

/// The characters an identifier may start with: ASCII letters.
pub open spec fn is_allowed_start_char(c: char) -> bool {
    ('a' <= c && c <= 'z') || ('A' <= c && c <= 'Z')
}

/// Whether every character of a text is allowed.
pub open spec fn all_allowed(s: Seq<char>) -> bool {
    forall|i: int| 0 <= i < s.len() ==> is_allowed_char(#[trigger] s[i])
}

/// An identifier: it starts with a letter and holds only allowed characters.
pub open spec fn allowed_identifier(s: Seq<char>) -> bool {
    s.len() > 0 && is_allowed_start_char(s[0]) && all_allowed(s)
}

/// `f32 > 5.0` on the bit pattern: positive, not a NaN, above 5.0.
pub open spec fn exceeds_five(bits: u32) -> bool {
    bits < 0x8000_0000u32 && 0x40A0_0000u32 < bits && bits <= 0x7F80_0000u32
}

/// How `bool::from_str` reads a text.
pub open spec fn bool_of_text(s: Seq<char>) -> Option<bool> {
    if s == "true"@ {
        Some(true)
    } else if s == "false"@ {
        Some(false)
    } else {
        None
    }
}

/// The text of the error `bool::from_str` reports.
pub open spec fn bool_error_text() -> Seq<char> {
    "provided string was not `true` or `false`"@
}

/// The event at a position; past the end the reader reports the end.
pub open spec fn item_at(items: Seq<XmlItemView>, i: int) -> XmlItemView {
    if 0 <= i < items.len() {
        items[i]
    } else {
        XmlItemView::EndDocument
    }
}

/// How an event is described in an error.  For every event but an element
/// start this is the `Debug` text `xml-rs` gives it; an element start, which
/// is never unexpected where this is used, is described as
/// `StartElement(name)`, without the namespace and attributes that the
/// `Debug` text of `xml-rs` adds.
pub open spec fn describe_item(it: XmlItemView) -> Seq<char> {
    match it {
        XmlItemView::Start(n, _) => "StartElement("@ + n + ")"@,
        XmlItemView::End(n) => "EndElement("@ + n + ")"@,
        XmlItemView::CData(d) => "CData("@ + d + ")"@,
        XmlItemView::Characters(d) => "Characters("@ + d + ")"@,
        XmlItemView::Comment(d) => "Comment("@ + d + ")"@,
        XmlItemView::Whitespace(d) => "Whitespace("@ + d + ")"@,
        XmlItemView::EndDocument => "EndDocument"@,
        XmlItemView::Other(d) => d,
        XmlItemView::Error(_, d) => d,
    }
}

pub open spec fn xml_error(why: Seq<char>) -> CompilerErrorView {
    CompilerErrorView::XmlError { why }
}

pub open spec fn bad_attr(attribute: Seq<char>, value: Seq<char>, why: Seq<char>) -> CompilerErrorView {
    CompilerErrorView::BadAttr { attribute, value, why }
}

pub open spec fn no_attr_text() -> Seq<char> {
    "None"@
}

/// The HTML element a message element start becomes.
pub open spec fn html_start(n: Seq<char>, a: Seq<XmlAttributeView>) -> OutEventView {
    if n == "u"@ {
        OutEventView::Start("u"@, Seq::empty())
    } else if n == "super"@ {
        OutEventView::Start("sup"@, Seq::empty())
    } else if n == "sub"@ {
        OutEventView::Start("sub"@, Seq::empty())
    } else if n == "highlight"@ {
        OutEventView::Start("mark"@, Seq::empty())
    } else if n == "wave"@ {
        OutEventView::Start("span"@, seq![XmlAttributeView { name: "class"@, value: "text-wave"@ }])
    } else if n == "shaky"@ {
        OutEventView::Start("span"@, seq![XmlAttributeView { name: "class"@, value: "text-shaky"@ }])
    } else if n == "br"@ {
        OutEventView::Start("br"@, Seq::empty())
    } else if n == "spoiler"@ {
        OutEventView::Start("span"@, seq![XmlAttributeView { name: "class"@, value: "text-spoiler"@ }])
    } else {
        OutEventView::Start(n, a)
    }
}

/// The HTML element name a message element end becomes.
pub open spec fn html_end(n: Seq<char>) -> Seq<char> {
    if n == "u"@ {
        "u"@
    } else if n == "super"@ {
        "sup"@
    } else if n == "sub"@ {
        "sub"@
    } else if n == "highlight"@ {
        "mark"@
    } else if n == "wave"@ || n == "shaky"@ || n == "spoiler"@ {
        "span"@
    } else if n == "br"@ {
        "br"@
    } else {
        n
    }
}

/// The HTML events of a message's body, from position `i` on, after those
/// in `out`, and the position after the message's end.
pub open spec fn message_body(items: Seq<XmlItemView>, i: int, out: Seq<OutEventView>) -> Result<
    (Seq<OutEventView>, int),
    CompilerErrorView,
>
    decreases items.len() - i,
{
    if i < 0 || i >= items.len() {
        Err(xml_error("Unexpected XML: "@ + describe_item(XmlItemView::EndDocument)))
    } else {
        match items[i] {
            XmlItemView::Start(n, a) => message_body(items, i + 1, out.push(html_start(n, a))),
            XmlItemView::End(n) => if n == "message"@ {
                Ok((out.push(OutEventView::End("p"@)), i + 1))
            } else {
                message_body(items, i + 1, out.push(OutEventView::End(html_end(n))))
            },
            XmlItemView::CData(d) => message_body(
                items,
                i + 1,
                out.push(OutEventView::Text(html_escaped(d))),
            ),
            XmlItemView::Characters(d) => message_body(
                items,
                i + 1,
                out.push(OutEventView::Text(html_escaped(d))),
            ),
            XmlItemView::Comment(_) => message_body(items, i + 1, out),
            XmlItemView::Whitespace(_) => message_body(items, i + 1, out),
            XmlItemView::Error(_, d) => Err(xml_error("Bad XML: "@ + d)),
            other => Err(xml_error("Unexpected XML: "@ + describe_item(other))),
        }
    }
}

/// The message text written for a message's HTML events: the writer's
/// bytes as UTF-8, cleaned by ammonia and minified.
pub open spec fn render_message(out: Seq<OutEventView>) -> Result<Seq<char>, Seq<char>> {
    let bytes = xml_emitted(out);
    if valid_utf8(bytes) {
        html_minified(ammonia_cleaned(decode_utf8(bytes)))
    } else {
        Err(utf8_error_text(bytes))
    }
}

/// The first event of a message's body.
pub open spec fn message_opening() -> Seq<OutEventView> {
    seq![OutEventView::Start("p"@, Seq::empty())]
}

/// The message a `message` element with attributes `a` starting at `i`
/// yields, and the position after it.
pub open spec fn message_element(
    items: Seq<XmlItemView>,
    tbl: Seq<(Seq<char>, NumberReadingView)>,
    i: int,
    a: Seq<XmlAttributeView>,
) -> Result<(MessageView, int), CompilerErrorView> {
    match last_attribute(a, "wait"@) {
        None => Err(bad_attr("probability"@, no_attr_text(), "Does not exist."@)),
        Some(w) => match reading(tbl, w) {
            NumberReadingView::Invalid(why) => Err(bad_attr("wait"@, w, why)),
            NumberReadingView::Number(f) => if exceeds_five(f.bits) {
                Err(bad_attr("wait"@, f.shown, "wait > 5.0, max wait is 5"@))
            } else {
                match message_body(items, i + 1, message_opening()) {
                    Err(e) => Err(e),
                    Ok((out, j)) => match render_message(out) {
                        Err(why) => Err(CompilerErrorView::BadText { why }),
                        Ok(text) => Ok((MessageView { message: text, wait_after: f }, j)),
                    },
                }
            },
        },
    }
}

/// Reading a response's message from position `i`: the messages gathered so
/// far with the new one, and the position after it.
pub open spec fn read_message(
    items: Seq<XmlItemView>,
    tbl: Seq<(Seq<char>, NumberReadingView)>,
    i: int,
    inner: Seq<MessageView>,
) -> Result<(Seq<MessageView>, int), CompilerErrorView>
    decreases items.len() - i,
{
    if i < 0 || i >= items.len() {
        Err(xml_error("Unexpected XML: "@ + describe_item(XmlItemView::EndDocument)))
    } else {
        match items[i] {
            XmlItemView::Start(n, a) => if n == "message"@ {
                match message_element(items, tbl, i, a) {
                    Err(e) => Err(e),
                    Ok((m, j)) => Ok((inner.push(m), j)),
                }
            } else {
                Err(xml_error("Unexpected XML: "@ + n))
            },
            XmlItemView::End(_) => read_message(items, tbl, i + 1, inner),
            XmlItemView::Comment(_) => read_message(items, tbl, i + 1, inner),
            XmlItemView::Whitespace(_) => read_message(items, tbl, i + 1, inner),
            XmlItemView::Error(m, _) => Err(xml_error(m)),
            other => Err(xml_error("Unexpected XML: "@ + describe_item(other))),
        }
    }
}

/// A response with nothing set.
pub open spec fn default_response_view() -> ResponseView {
    ResponseView {
        name: Seq::empty(),
        probability: Float32View { bits: 0, shown: "0"@ },
        usable_for_welcome: false,
        messages: Seq::empty(),
    }
}

/// The response that a `response` element's attributes make of `cur`.
pub open spec fn response_start(
    a: Seq<XmlAttributeView>,
    tbl: Seq<(Seq<char>, NumberReadingView)>,
    cur: ResponseView,
) -> Result<ResponseView, CompilerErrorView> {
    match last_attribute(a, "name"@) {
        None => Err(bad_attr("name"@, no_attr_text(), "Does not exist"@)),
        Some(nm) => match last_attribute(a, "probability"@) {
            None => Err(bad_attr("probability"@, no_attr_text(), "Does not exist."@)),
            Some(p) => match reading(tbl, p) {
                NumberReadingView::Invalid(why) => Err(bad_attr("probability"@, p, why)),
                NumberReadingView::Number(f) => match last_attribute(a, "welcome"@) {
                    None => Err(bad_attr("welcome"@, no_attr_text(), "Does not exist."@)),
                    Some(w) => match bool_of_text(w) {
                        None => Err(bad_attr("welcome"@, w, bool_error_text())),
                        Some(b) => Ok(
                            ResponseView { name: nm, probability: f, usable_for_welcome: b, ..cur },
                        ),
                    },
                },
            },
        },
    }
}

/// A message read from position `i` on ends after `i`, within the events.
pub proof fn lemma_read_message_advances(
    items: Seq<XmlItemView>,
    tbl: Seq<(Seq<char>, NumberReadingView)>,
    i: int,
    inner: Seq<MessageView>,
)
    ensures
        read_message(items, tbl, i, inner) matches Ok((_, j)) ==> i < j <= items.len(),
    decreases items.len() - i,
{
    if 0 <= i < items.len() {
        match items[i] {
            XmlItemView::Start(n, a) => {
                if n == "message"@ {
                    lemma_message_body_advances(items, i + 1, message_opening());
                }
            },
            XmlItemView::End(_) => lemma_read_message_advances(items, tbl, i + 1, inner),
            XmlItemView::Comment(_) => lemma_read_message_advances(items, tbl, i + 1, inner),
            XmlItemView::Whitespace(_) => lemma_read_message_advances(items, tbl, i + 1, inner),
            _ => {},
        }
    }
}

/// A message body read from position `i` on ends after `i`.
pub proof fn lemma_message_body_advances(items: Seq<XmlItemView>, i: int, out: Seq<OutEventView>)
    ensures
        message_body(items, i, out) matches Ok((_, j)) ==> i < j <= items.len(),
    decreases items.len() - i,
{
    if 0 <= i < items.len() {
        match items[i] {
            XmlItemView::Start(n, a) => lemma_message_body_advances(items, i + 1, out.push(html_start(n, a))),
            XmlItemView::End(n) => if n != "message"@ {
                lemma_message_body_advances(items, i + 1, out.push(OutEventView::End(html_end(n))))
            },
            XmlItemView::CData(d) => lemma_message_body_advances(
                items,
                i + 1,
                out.push(OutEventView::Text(html_escaped(d))),
            ),
            XmlItemView::Characters(d) => lemma_message_body_advances(
                items,
                i + 1,
                out.push(OutEventView::Text(html_escaped(d))),
            ),
            XmlItemView::Comment(_) => lemma_message_body_advances(items, i + 1, out),
            XmlItemView::Whitespace(_) => lemma_message_body_advances(items, i + 1, out),
            _ => {},
        }
    }
}

/// The responses read from position `i` on, after `done`, with `cur` the
/// response being read and `inner` the messages gathered for it.
pub open spec fn read_responses(
    items: Seq<XmlItemView>,
    tbl: Seq<(Seq<char>, NumberReadingView)>,
    i: int,
    cur: ResponseView,
    inner: Seq<MessageView>,
    done: Seq<ResponseView>,
) -> Result<Seq<ResponseView>, CompilerErrorView>
    decreases items.len() - i,
{
    if i < 0 || i >= items.len() {
        Err(xml_error("Unexpected XML Event: "@ + describe_item(XmlItemView::EndDocument)))
    } else {
        match items[i] {
            XmlItemView::Start(n, a) => if n == "response"@ {
                match response_start(a, tbl, cur) {
                    Err(e) => Err(e),
                    Ok(c2) => match read_message(items, tbl, i + 1, inner) {
                        Err(e) => Err(e),
                        Ok((inner2, j)) => {
                            proof {
                                lemma_read_message_advances(items, tbl, i + 1, inner);
                            }
                            read_responses(
                                items,
                                tbl,
                                j,
                                ResponseView { messages: inner2, ..c2 },
                                inner2,
                                done,
                            )
                        },
                    },
                }
            } else {
                read_responses(items, tbl, i + 1, cur, inner, done)
            },
            XmlItemView::End(n) => if n == "response"@ {
                read_responses(
                    items,
                    tbl,
                    i + 1,
                    default_response_view(),
                    Seq::empty(),
                    done.push(cur),
                )
            } else if n == "responses"@ {
                read_responses(items, tbl, i + 1, cur, inner, done)
            } else if n == "CoconutPakText"@ {
                Ok(done)
            } else {
                Err(xml_error("Unexpected XML Element: "@ + n))
            },
            XmlItemView::Comment(_) => read_responses(items, tbl, i + 1, cur, inner, done),
            XmlItemView::Whitespace(_) => read_responses(items, tbl, i + 1, cur, inner, done),
            XmlItemView::Error(m, _) => Err(xml_error(m)),
            other => Err(xml_error("Unexpected XML Event: "@ + describe_item(other))),
        }
    }
}

/// The text of a header field `tag` whose element starts at `i`.
pub open spec fn field_text(items: Seq<XmlItemView>, i: int, tag: Seq<char>) -> Result<
    Seq<char>,
    CompilerErrorView,
> {
    match item_at(items, i) {
        XmlItemView::Start(n, _) => if n != tag {
            Err(xml_error("Expected "@ + tag))
        } else {
            match item_at(items, i + 1) {
                XmlItemView::CData(d) => if allowed_identifier(d) {
                    Ok(d)
                } else {
                    Err(CompilerErrorView::BadText { why: "Disallowed Character in "@ + tag })
                },
                _ => Err(xml_error("Expected Data"@)),
            }
        },
        _ => Err(xml_error("Expected "@ + tag)),
    }
}

/// The error when a header field is not closed at `i`, if it is not.
pub open spec fn field_closed(items: Seq<XmlItemView>, i: int) -> bool {
    item_at(items, i) is End
}

pub open spec fn unclosed_error() -> CompilerErrorView {
    xml_error("Expected Exit out of previous tag"@)
}

/// The error the first event of a document gives, if any: a reader error,
/// or an element other than `CoconutPakText`.
pub open spec fn header_opening(items: Seq<XmlItemView>) -> Option<CompilerErrorView> {
    match item_at(items, 0) {
        XmlItemView::Error(m, _) => Some(xml_error(m)),
        XmlItemView::Start(n, _) => if n != "CoconutPakText"@ {
            Some(xml_error("Expected CoconutPakText"@))
        } else {
            None
        },
        _ => None,
    }
}

/// The text container a document's events make, with the given float
/// readings of its attribute values.
pub open spec fn compile_items(
    items: Seq<XmlItemView>,
    tbl: Seq<(Seq<char>, NumberReadingView)>,
) -> Result<TextContainerView, CompilerErrorView> {
    match header_opening(items) {
        Some(e) => Err(e),
        None => match field_text(items, 1, "subnamespace"@) {
            Err(e) => Err(e),
            Ok(sub) => if !field_closed(items, 3) {
                Err(unclosed_error())
            } else {
                match field_text(items, 4, "tag"@) {
                    Err(e) => Err(e),
                    Ok(tag) => if !field_closed(items, 6) {
                        Err(unclosed_error())
                    } else {
                        match field_text(items, 7, "langcode"@) {
                            Err(e) => Err(e),
                            Ok(lang_text) => match language_tag_parsed(lang_text) {
                                Err(why) => Err(CompilerErrorView::BadText { why }),
                                Ok(lang) => if !field_closed(items, 9) {
                                    Err(unclosed_error())
                                } else {
                                    match field_text(items, 10, "description"@) {
                                        Err(e) => Err(e),
                                        Ok(desc) => if !field_closed(items, 12) {
                                            Err(unclosed_error())
                                        } else {
                                            let rs = match item_at(items, 13) {
                                                XmlItemView::Start(n, _) => if n != "responses"@ {
                                                    Err(xml_error("Expected responses"@))
                                                } else {
                                                    read_responses(
                                                        items,
                                                        tbl,
                                                        14,
                                                        default_response_view(),
                                                        Seq::empty(),
                                                        Seq::empty(),
                                                    )
                                                },
                                                _ => Ok(Seq::<ResponseView>::empty()),
                                            };
                                            match rs {
                                                Err(e) => Err(e),
                                                Ok(responses) => Ok(
                                                    TextContainerView {
                                                        subnamespace: sub,
                                                        tag: TagView::Other(tag),
                                                        description: desc,
                                                        langcode: lang,
                                                        responses,
                                                    },
                                                ),
                                            }
                                        },
                                    }
                                },
                            },
                        }
                    },
                }
            },
        },
    }
}

/// A message's wait is at most five seconds.
pub open spec fn message_wait_ok(m: MessageView) -> bool {
    !exceeds_five(m.wait_after.bits)
}

pub open spec fn messages_wait_ok(ms: Seq<MessageView>) -> bool {
    forall|i: int| 0 <= i < ms.len() ==> message_wait_ok(#[trigger] ms[i])
}

pub open spec fn responses_wait_ok(rs: Seq<ResponseView>) -> bool {
    forall|i: int| 0 <= i < rs.len() ==> messages_wait_ok(#[trigger] rs[i].messages)
}

proof fn lemma_read_message_waits(
    items: Seq<XmlItemView>,
    tbl: Seq<(Seq<char>, NumberReadingView)>,
    i: int,
    inner: Seq<MessageView>,
)
    requires
        messages_wait_ok(inner),
    ensures
        read_message(items, tbl, i, inner) matches Ok((ms, _)) ==> messages_wait_ok(ms),
    decreases items.len() - i,
{
    if 0 <= i < items.len() {
        match items[i] {
            XmlItemView::Start(n, a) => {
                if n == "message"@ {
                    match message_element(items, tbl, i, a) {
                        Ok((m, j)) => {
                            assert(message_wait_ok(m));
                            assert forall|k: int| 0 <= k < inner.push(m).len() implies message_wait_ok(
                                #[trigger] inner.push(m)[k],
                            ) by {
                                if k < inner.len() {
                                    assert(inner.push(m)[k] == inner[k]);
                                }
                            }
                        },
                        Err(_) => {},
                    }
                }
            },
            XmlItemView::End(_) => lemma_read_message_waits(items, tbl, i + 1, inner),
            XmlItemView::Comment(_) => lemma_read_message_waits(items, tbl, i + 1, inner),
            XmlItemView::Whitespace(_) => lemma_read_message_waits(items, tbl, i + 1, inner),
            _ => {},
        }
    }
}

proof fn lemma_read_responses_waits(
    items: Seq<XmlItemView>,
    tbl: Seq<(Seq<char>, NumberReadingView)>,
    i: int,
    cur: ResponseView,
    inner: Seq<MessageView>,
    done: Seq<ResponseView>,
)
    requires
        messages_wait_ok(cur.messages),
        messages_wait_ok(inner),
        responses_wait_ok(done),
    ensures
        read_responses(items, tbl, i, cur, inner, done) matches Ok(rs) ==> responses_wait_ok(rs),
    decreases items.len() - i,
{
    if 0 <= i < items.len() {
        match items[i] {
            XmlItemView::Start(n, a) => {
                if n == "response"@ {
                    match response_start(a, tbl, cur) {
                        Ok(c2) => {
                            lemma_read_message_waits(items, tbl, i + 1, inner);
                            lemma_read_message_advances(items, tbl, i + 1, inner);
                            match read_message(items, tbl, i + 1, inner) {
                                Ok((inner2, j)) => {
                                    lemma_read_responses_waits(
                                        items,
                                        tbl,
                                        j,
                                        ResponseView { messages: inner2, ..c2 },
                                        inner2,
                                        done,
                                    );
                                },
                                Err(_) => {},
                            }
                        },
                        Err(_) => {},
                    }
                } else {
                    lemma_read_responses_waits(items, tbl, i + 1, cur, inner, done);
                }
            },
            XmlItemView::End(n) => {
                if n == "response"@ {
                    assert forall|k: int| 0 <= k < done.push(cur).len() implies messages_wait_ok(
                        #[trigger] done.push(cur)[k].messages,
                    ) by {
                        if k < done.len() {
                            assert(done.push(cur)[k] == done[k]);
                        }
                    }
                    lemma_read_responses_waits(
                        items,
                        tbl,
                        i + 1,
                        default_response_view(),
                        Seq::empty(),
                        done.push(cur),
                    );
                } else if n == "responses"@ {
                    lemma_read_responses_waits(items, tbl, i + 1, cur, inner, done);
                }
            },
            XmlItemView::Comment(_) => lemma_read_responses_waits(items, tbl, i + 1, cur, inner, done),
            XmlItemView::Whitespace(_) => lemma_read_responses_waits(items, tbl, i + 1, cur, inner, done),
            _ => {},
        }
    }
}

/// A compiled text's subnamespace, tag and description are identifiers, and
/// no message of it waits more than five seconds.
pub proof fn lemma_compiled_text_is_well_formed(
    items: Seq<XmlItemView>,
    tbl: Seq<(Seq<char>, NumberReadingView)>,
)
    ensures
        compile_items(items, tbl) matches Ok(t) ==> {
            &&& allowed_identifier(t.subnamespace)
            &&& (t.tag matches TagView::Other(g) && allowed_identifier(g))
            &&& allowed_identifier(t.description)
            &&& responses_wait_ok(t.responses)
        },
{
    lemma_read_responses_waits(items, tbl, 14, default_response_view(), Seq::empty(), Seq::empty());
}

/// Reading a message body from position `i` looks only at the events from
/// `i` on: two event lists that agree there read to the same body.
pub proof fn lemma_message_body_reads_ahead(
    a: Seq<XmlItemView>,
    b: Seq<XmlItemView>,
    i: int,
    out: Seq<OutEventView>,
)
    requires
        a.len() == b.len(),
        forall|k: int| i <= k < a.len() ==> a[k] == b[k],
    ensures
        message_body(a, i, out) == message_body(b, i, out),
    decreases a.len() - i,
{
    if 0 <= i < a.len() {
        assert(a[i] == b[i]);
        match a[i] {
            XmlItemView::Start(n, at) => lemma_message_body_reads_ahead(a, b, i + 1, out.push(html_start(n, at))),
            XmlItemView::End(n) => if n != "message"@ {
                lemma_message_body_reads_ahead(a, b, i + 1, out.push(OutEventView::End(html_end(n))))
            },
            XmlItemView::CData(d) => lemma_message_body_reads_ahead(
                a,
                b,
                i + 1,
                out.push(OutEventView::Text(html_escaped(d))),
            ),
            XmlItemView::Characters(d) => lemma_message_body_reads_ahead(
                a,
                b,
                i + 1,
                out.push(OutEventView::Text(html_escaped(d))),
            ),
            XmlItemView::Comment(_) => lemma_message_body_reads_ahead(a, b, i + 1, out),
            XmlItemView::Whitespace(_) => lemma_message_body_reads_ahead(a, b, i + 1, out),
            _ => {},
        }
    }
}

/// A message body read after the HTML events `out` keeps them: what it
/// gives starts with them.
pub proof fn lemma_message_body_keeps_earlier_events(items: Seq<XmlItemView>, i: int, out: Seq<OutEventView>)
    ensures
        message_body(items, i, out) matches Ok((o, _)) ==> o.len() >= out.len() && o.subrange(0, out.len() as int)
            == out,
    decreases items.len() - i,
{
    if 0 <= i < items.len() {
        match items[i] {
            XmlItemView::Start(n, a) => {
                lemma_message_body_keeps_earlier_events(items, i + 1, out.push(html_start(n, a)));
                if message_body(items, i, out) is Ok {
                    let o = message_body(items, i, out)->Ok_0.0;
                    assert(o.subrange(0, out.len() as int) =~= o.subrange(0, out.len() + 1int).subrange(
                        0,
                        out.len() as int,
                    ));
                }
            },
            XmlItemView::End(n) => if n != "message"@ {
                lemma_message_body_keeps_earlier_events(items, i + 1, out.push(OutEventView::End(html_end(n))));
                if message_body(items, i, out) is Ok {
                    let o = message_body(items, i, out)->Ok_0.0;
                    assert(o.subrange(0, out.len() as int) =~= o.subrange(0, out.len() + 1int).subrange(
                        0,
                        out.len() as int,
                    ));
                }
            } else {
                assert(out.push(OutEventView::End("p"@)).subrange(0, out.len() as int) =~= out);
            },
            XmlItemView::CData(d) => {
                lemma_message_body_keeps_earlier_events(items, i + 1, out.push(OutEventView::Text(html_escaped(d))));
                if message_body(items, i, out) is Ok {
                    let o = message_body(items, i, out)->Ok_0.0;
                    assert(o.subrange(0, out.len() as int) =~= o.subrange(0, out.len() + 1int).subrange(
                        0,
                        out.len() as int,
                    ));
                }
            },
            XmlItemView::Characters(d) => {
                lemma_message_body_keeps_earlier_events(items, i + 1, out.push(OutEventView::Text(html_escaped(d))));
                if message_body(items, i, out) is Ok {
                    let o = message_body(items, i, out)->Ok_0.0;
                    assert(o.subrange(0, out.len() as int) =~= o.subrange(0, out.len() + 1int).subrange(
                        0,
                        out.len() as int,
                    ));
                }
            },
            XmlItemView::Comment(_) => lemma_message_body_keeps_earlier_events(items, i + 1, out),
            XmlItemView::Whitespace(_) => lemma_message_body_keeps_earlier_events(items, i + 1, out),
            _ => {},
        }
    }
}

/// The text of a CDATA section or of character data in a message body
/// reaches the message's HTML, escaped, as the next text event.
pub proof fn lemma_message_text_is_written(items: Seq<XmlItemView>, i: int, d: Seq<char>, out: Seq<OutEventView>)
    requires
        0 <= i < items.len(),
        items[i] == XmlItemView::CData(d) || items[i] == XmlItemView::Characters(d),
    ensures
        message_body(items, i, out) matches Ok((o, _)) ==> o.len() > out.len() && o[out.len() as int]
            == OutEventView::Text(html_escaped(d)),
{
    let next = out.push(OutEventView::Text(html_escaped(d)));
    lemma_message_body_keeps_earlier_events(items, i + 1, next);
    if message_body(items, i, out) is Ok {
        let o = message_body(items, i, out)->Ok_0.0;
        assert(o.subrange(0, next.len() as int)[out.len() as int] == next[out.len() as int]);
    }
}

/// In a message body a CDATA section reads exactly as character data with
/// the same text.
pub proof fn lemma_cdata_reads_as_characters(items: Seq<XmlItemView>, i: int, d: Seq<char>, out: Seq<OutEventView>)
    requires
        0 <= i < items.len(),
        items[i] == XmlItemView::CData(d),
    ensures
        message_body(items, i, out) == message_body(items.update(i, XmlItemView::Characters(d)), i, out),
{
    let b = items.update(i, XmlItemView::Characters(d));
    lemma_message_body_reads_ahead(items, b, i + 1, out.push(OutEventView::Text(html_escaped(d))));
}

/// What is read after a response's end does not depend on the messages
/// gathered for that response: they are not carried into the next one.
pub proof fn lemma_response_end_forgets_messages(
    items: Seq<XmlItemView>,
    tbl: Seq<(Seq<char>, NumberReadingView)>,
    i: int,
    cur: ResponseView,
    inner: Seq<MessageView>,
    other: Seq<MessageView>,
    done: Seq<ResponseView>,
)
    requires
        0 <= i < items.len(),
        items[i] == XmlItemView::End("response"@),
    ensures
        read_responses(items, tbl, i, cur, inner, done) == read_responses(items, tbl, i, cur, other, done),
{
}

/// A response that starts after a response's end is read as the first
/// response of a text would be: with no messages gathered.
pub proof fn lemma_response_after_end_starts_afresh(
    items: Seq<XmlItemView>,
    tbl: Seq<(Seq<char>, NumberReadingView)>,
    i: int,
    cur: ResponseView,
    inner: Seq<MessageView>,
    done: Seq<ResponseView>,
)
    requires
        0 <= i < items.len(),
        items[i] == XmlItemView::End("response"@),
    ensures
        read_responses(items, tbl, i, cur, inner, done) == read_responses(
            items,
            tbl,
            i,
            cur,
            Seq::empty(),
            done,
        ),
{
}

/// Every element a message's markup opens is closed under the same HTML
/// name: the name an element start is written with is the name its end is
/// written with.
pub proof fn lemma_html_names_pair_up(n: Seq<char>, a: Seq<XmlAttributeView>)
    ensures
        html_start(n, a) matches OutEventView::Start(m, _) && m == html_end(n),
{
    reveal_strlit("u");
    reveal_strlit("super");
    reveal_strlit("sup");
    reveal_strlit("sub");
    reveal_strlit("highlight");
    reveal_strlit("mark");
    reveal_strlit("wave");
    reveal_strlit("shaky");
    reveal_strlit("spoiler");
    reveal_strlit("span");
    reveal_strlit("br");
}

/// A message's HTML is one paragraph: the events a message body gives
/// after the paragraph's start end with the paragraph's end.
pub proof fn lemma_message_ends_its_paragraph(items: Seq<XmlItemView>, i: int, out: Seq<OutEventView>)
    ensures
        message_body(items, i, out) matches Ok((o, _)) ==> o.len() > 0 && o.last() == OutEventView::End("p"@),
    decreases items.len() - i,
{
    if 0 <= i < items.len() {
        match items[i] {
            XmlItemView::Start(n, a) => lemma_message_ends_its_paragraph(items, i + 1, out.push(html_start(n, a))),
            XmlItemView::End(n) => if n != "message"@ {
                lemma_message_ends_its_paragraph(items, i + 1, out.push(OutEventView::End(html_end(n))))
            },
            XmlItemView::CData(d) => lemma_message_ends_its_paragraph(
                items,
                i + 1,
                out.push(OutEventView::Text(html_escaped(d))),
            ),
            XmlItemView::Characters(d) => lemma_message_ends_its_paragraph(
                items,
                i + 1,
                out.push(OutEventView::Text(html_escaped(d))),
            ),
            XmlItemView::Comment(_) => lemma_message_ends_its_paragraph(items, i + 1, out),
            XmlItemView::Whitespace(_) => lemma_message_ends_its_paragraph(items, i + 1, out),
            _ => {},
        }
    }
}

/// A response read from a `response` element's attributes takes its name,
/// its probability and its welcome flag from them: the name is the `name`
/// attribute, the probability the number the `probability` attribute reads
/// as, and the flag is set just when `welcome` is `true` (it must be `true`
/// or `false`); its messages are kept.
pub proof fn lemma_response_takes_its_attributes(
    a: Seq<XmlAttributeView>,
    tbl: Seq<(Seq<char>, NumberReadingView)>,
    cur: ResponseView,
)
    ensures
        response_start(a, tbl, cur) matches Ok(c) ==> {
            &&& last_attribute(a, "name"@) == Some(c.name)
            &&& last_attribute(a, "probability"@) matches Some(p) && reading(tbl, p)
                == NumberReadingView::Number(c.probability)
            &&& last_attribute(a, "welcome"@) == Some(if c.usable_for_welcome { "true"@ } else { "false"@ })
            &&& c.messages == cur.messages
        },
{
}

/// A compiled text's header fields are the texts of the header's elements:
/// the subnamespace, tag, language code and description are the data right
/// after the second, fifth, eighth and eleventh events (the language code
/// as `language-tags` writes it).
pub proof fn lemma_header_fields_come_from_the_header(
    items: Seq<XmlItemView>,
    tbl: Seq<(Seq<char>, NumberReadingView)>,
)
    ensures
        compile_items(items, tbl) matches Ok(t) ==> {
            &&& items.len() > 11
            &&& items[2] == XmlItemView::CData(t.subnamespace)
            &&& items[5] matches XmlItemView::CData(g) && t.tag == TagView::Other(g)
            &&& items[8] matches XmlItemView::CData(l) && language_tag_parsed(l) == Ok::<Seq<char>, Seq<char>>(
                t.langcode,
            )
            &&& items[11] == XmlItemView::CData(t.description)
        },
{
}

} // verus!
