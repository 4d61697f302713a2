//! The errors of the compiler and of its configuration.
use vstd::prelude::*;

verus! {

/// What can go wrong when a CoconutPak is compiled.
#[derive(Clone, Debug, PartialEq, Eq, Hash)]
pub enum CompilerError {
    InvalidCharacters { field: String, bad_char: String },
    BadField { field: String, why: String },
    SourcePathInvalid,
    FileError { file: String, why: String },
    BadManifest(String),
    BadText { why: String },
    BadAttr { attribute: String, value: String, why: String },
    NoAttr { attribute: String },
    XmlError { why: String },
    CompileError(String),
}

/// The mathematical picture of a [`CompilerError`].
pub enum CompilerErrorView {
    InvalidCharacters { field: Seq<char>, bad_char: Seq<char> },
    BadField { field: Seq<char>, why: Seq<char> },
    SourcePathInvalid,
    FileError { file: Seq<char>, why: Seq<char> },
    BadManifest(Seq<char>),
    BadText { why: Seq<char> },
    BadAttr { attribute: Seq<char>, value: Seq<char>, why: Seq<char> },
    NoAttr { attribute: Seq<char> },
    XmlError { why: Seq<char> },
    CompileError(Seq<char>),
}

impl View for CompilerError {
    type V = CompilerErrorView;

    open spec fn view(&self) -> CompilerErrorView {
        match self {
            CompilerError::InvalidCharacters { field, bad_char } => CompilerErrorView::InvalidCharacters {
                field: field@,
                bad_char: bad_char@,
            },
            CompilerError::BadField { field, why } => CompilerErrorView::BadField { field: field@, why: why@ },
            CompilerError::SourcePathInvalid => CompilerErrorView::SourcePathInvalid,
            CompilerError::FileError { file, why } => CompilerErrorView::FileError { file: file@, why: why@ },
            CompilerError::BadManifest(m) => CompilerErrorView::BadManifest(m@),
            CompilerError::BadText { why } => CompilerErrorView::BadText { why: why@ },
            CompilerError::BadAttr { attribute, value, why } => CompilerErrorView::BadAttr {
                attribute: attribute@,
                value: value@,
                why: why@,
            },
            CompilerError::NoAttr { attribute } => CompilerErrorView::NoAttr { attribute: attribute@ },
            CompilerError::XmlError { why } => CompilerErrorView::XmlError { why: why@ },
            CompilerError::CompileError(m) => CompilerErrorView::CompileError(m@),
        }
    }
}

/// The text by which an error is shown to a user.
pub open spec fn compiler_error_text(e: CompilerErrorView) -> Seq<char> {
    match e {
        CompilerErrorView::InvalidCharacters { field, bad_char } => "Disallowed Character in "@ + field
            + ": "@ + bad_char,
        CompilerErrorView::BadField { field, why } => "Bad "@ + field + ": "@ + why,
        CompilerErrorView::SourcePathInvalid => "Cannot Find or Open Source Path!"@,
        CompilerErrorView::FileError { file, why } => "Cannot find or open file "@ + file + ", "@ + why,
        CompilerErrorView::BadManifest(m) => "Invalid Manifest: "@ + m,
        CompilerErrorView::BadText { why } => "Invalid Text: "@ + why,
        CompilerErrorView::BadAttr { attribute, value, why } => "Invalid Attribute: attribute "@
            + attribute + " of value "@ + value + ", Error: "@ + why,
        CompilerErrorView::NoAttr { attribute } => "No Attribute: "@ + attribute,
        CompilerErrorView::XmlError { why } => "Failed to generate XML: "@ + why,
        CompilerErrorView::CompileError(m) => "Error: "@ + m,
    }
}

impl CompilerError {
    /// The error's message, as its `Display` writes it.
    pub fn message(&self) -> (r: String)
        ensures
            r@ == compiler_error_text(self@),
    {
        match self {
            CompilerError::InvalidCharacters { field, bad_char } => String::from_str(
                "Disallowed Character in ",
            ).concat(field.as_str()).concat(": ").concat(bad_char.as_str()),
            CompilerError::BadField { field, why } => String::from_str("Bad ").concat(
                field.as_str(),
            ).concat(": ").concat(why.as_str()),
            CompilerError::SourcePathInvalid => String::from_str("Cannot Find or Open Source Path!"),
            CompilerError::FileError { file, why } => String::from_str(
                "Cannot find or open file ",
            ).concat(file.as_str()).concat(", ").concat(why.as_str()),
            CompilerError::BadManifest(m) => String::from_str("Invalid Manifest: ").concat(m.as_str()),
            CompilerError::BadText { why } => String::from_str("Invalid Text: ").concat(why.as_str()),
            CompilerError::BadAttr { attribute, value, why } => String::from_str(
                "Invalid Attribute: attribute ",
            ).concat(attribute.as_str()).concat(" of value ").concat(value.as_str()).concat(
                ", Error: ",
            ).concat(why.as_str()),
            CompilerError::NoAttr { attribute } => String::from_str("No Attribute: ").concat(
                attribute.as_str(),
            ),
            CompilerError::XmlError { why } => String::from_str("Failed to generate XML: ").concat(
                why.as_str(),
            ),
            CompilerError::CompileError(m) => String::from_str("Error: ").concat(m.as_str()),
        }
    }
}

/// The `Debug` text std gives a `str`: the text in double quotes, its
/// characters escaped as `char::escape_debug` escapes them.
pub uninterp spec fn debug_text(text: Seq<char>) -> Seq<char>;

/// Printable ASCII other than the quote marks and the backslash, which
/// `escape_debug` leaves as it is.
pub open spec fn plain_char(c: char) -> bool {
    ' ' <= c && c <= '~' && c != '"' && c != '\\' && c != '\''
}

/// `format!("{:?}", text)` on a `str`.  Claimed: the result is
/// `debug_text(text)`, and a text of plain characters only is shown as
/// itself in double quotes, as std documents for printable ASCII.
#[verifier::external_body]
fn debug_quoted(text: &str) -> (r: String)
    ensures
        r@ == debug_text(text@),
        (forall|i: int| 0 <= i < text@.len() ==> plain_char(#[trigger] text@[i])) ==> r@ == "\""@ + text@
            + "\""@,
{
    format!("{:?}", text)
}

/// What can go wrong when the compiler's configuration is read or written;
/// paths are held as text.
#[derive(Clone, Debug, PartialEq, Eq, Hash)]
pub enum ConfigError {
    ConfigNotFound(String),
    InvalidConfigFile { why: String },
    ConfigFileError { why: String },
}

impl ConfigError {
    /// The error's message, as its `Display` writes it (the path by its
    /// `Debug` text).
    pub fn message(&self) -> (r: String)
        ensures
            r@ == match self {
                ConfigError::ConfigNotFound(p) => "Config file not found: "@ + debug_text(p@),
                ConfigError::InvalidConfigFile { why } => "Bad Config File: "@ + why@,
                ConfigError::ConfigFileError { why } => "Config File Error: "@ + why@,
            },
            self matches ConfigError::ConfigNotFound(p) ==> ((forall|i: int|
                0 <= i < p@.len() ==> plain_char(#[trigger] p@[i])) ==> r@ == "Config file not found: "@
                + "\""@ + p@ + "\""@),
    {
        match self {
            ConfigError::ConfigNotFound(p) => {
                let shown = debug_quoted(p.as_str());
                let r = String::from_str("Config file not found: ").concat(shown.as_str());
                proof {
                    if forall|i: int| 0 <= i < p@.len() ==> plain_char(#[trigger] p@[i]) {
                        assert(shown@ == "\""@ + p@ + "\""@);
                        assert(r@ =~= "Config file not found: "@ + "\""@ + p@ + "\""@);
                    }
                }
                r
            },
            ConfigError::InvalidConfigFile { why } => String::from_str("Bad Config File: ").concat(
                why.as_str(),
            ),
            ConfigError::ConfigFileError { why } => String::from_str("Config File Error: ").concat(
                why.as_str(),
            ),
        }
    }
}

} // verus!
