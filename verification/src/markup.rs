//! The boundary to the HTML and markdown crates that the text compiler
//! calls, and to std's UTF-8 decoding.
use vstd::prelude::*;
use vstd::utf8::*;
use crate::text::text_result_view;

verus! {

/// The HTML that `pulldown-cmark` renders for a markdown text with every
/// extension switched on.
pub uninterp spec fn markdown_html(text: Seq<char>) -> Seq<char>;

/// `None` when `html_parser` accepts a text as an HTML document, else the
/// text of its error.
pub uninterp spec fn html_dom_verdict(text: Seq<char>) -> Option<Seq<char>>;

/// What `ammonia::clean` keeps of an HTML text.
pub uninterp spec fn ammonia_cleaned(text: Seq<char>) -> Seq<char>;

/// What `html_minifier::minify` makes of an HTML text, or the text of its
/// error.
pub uninterp spec fn html_minified(text: Seq<char>) -> Result<Seq<char>, Seq<char>>;

/// The serialization `language-tags` gives a text that parses as a
/// language tag, or the text of its parse error.
pub uninterp spec fn language_tag_parsed(text: Seq<char>) -> Result<Seq<char>, Seq<char>>;

/// The text of the error std reports for bytes that are not UTF-8.
pub uninterp spec fn utf8_error_text(bytes: Seq<u8>) -> Seq<char>;

/// How `html_escape::encode_text` writes one character.
pub open spec fn html_escaped_char(c: char) -> Seq<char> {
    if c == '&' {
        "&amp;"@
    } else if c == '<' {
        "&lt;"@
    } else if c == '>' {
        "&gt;"@
    } else {
        seq![c]
    }
}

/// A text with `&`, `<` and `>` written as HTML entities, all else kept.
pub open spec fn html_escaped(s: Seq<char>) -> Seq<char>
    decreases s.len(),
{
    if s.len() == 0 {
        Seq::empty()
    } else {
        html_escaped_char(s[0]) + html_escaped(s.drop_first())
    }
}

/// `pulldown_cmark::html::push_html` into an empty string, over
/// `Parser::new_ext(text, Options::all())`.  Claimed: the result is
/// `markdown_html(text)`.
#[verifier::external_body]
pub(crate) fn markdown_to_html(text: &str) -> (r: String)
    ensures
        r@ == markdown_html(text@),
{
    let mut out = String::new();
    pulldown_cmark::html::push_html(
        &mut out,
        pulldown_cmark::Parser::new_ext(text, pulldown_cmark::Options::all()),
    );
    out
}

/// `html_parser::Dom::parse`, keeping only whether it failed and its error
/// text.  Claimed: the outcome is `html_dom_verdict(text)`.
#[verifier::external_body]
pub(crate) fn html_dom_check(text: &str) -> (r: Option<String>)
    ensures
        r is None <==> html_dom_verdict(text@) is None,
        r matches Some(e) ==> html_dom_verdict(text@) == Some(e@),
{
    match html_parser::Dom::parse(text) {
        Ok(_) => None,
        Err(e) => Some(e.to_string()),
    }
}

/// `html_escape::encode_text`.  Claimed, as the crate documents it: `&`,
/// `<` and `>` become `&amp;`, `&lt;` and `&gt;`; every other character is
/// kept.
#[verifier::external_body]
pub(crate) fn escape_html_text(text: &str) -> (r: String)
    ensures
        r@ == html_escaped(text@),
{
    html_escape::encode_text(text).into_owned()
}

/// `ammonia::clean`.  Claimed: the result is `ammonia_cleaned(text)`.
#[verifier::external_body]
pub(crate) fn sanitize_html(text: &str) -> (r: String)
    ensures
        r@ == ammonia_cleaned(text@),
{
    ammonia::clean(text)
}

/// `html_minifier::minify`, its error by its text.  Claimed: the outcome is
/// `html_minified(text)`.
#[verifier::external_body]
pub(crate) fn minify_html(text: &str) -> (r: Result<String, String>)
    ensures
        text_result_view(r) == html_minified(text@),
{
    html_minifier::minify(text).map_err(|e| e.to_string())
}

/// `language_tags::LanguageTag::parse`, the tag by its serialization and the
/// error by its text.  Claimed: the outcome is `language_tag_parsed(text)`.
#[verifier::external_body]
pub(crate) fn parse_language_tag(text: &str) -> (r: Result<String, String>)
    ensures
        text_result_view(r) == language_tag_parsed(text@),
{
    language_tags::LanguageTag::parse(text).map(|t| t.into_string()).map_err(|e| e.to_string())
}

/// std's `String::from_utf8`, its error by its text.  Claimed, as std
/// documents it: it succeeds exactly on valid UTF-8 and then holds the
/// decoded characters.
#[verifier::external_body]
pub(crate) fn string_from_utf8(bytes: Vec<u8>) -> (r: Result<String, String>)
    ensures
        r is Ok <==> valid_utf8(bytes@),
        r matches Ok(s) ==> s@ == decode_utf8(bytes@),
        r matches Err(e) ==> e@ == utf8_error_text(bytes@),
{
    String::from_utf8(bytes).map_err(|e| e.to_string())
}

} // verus!
