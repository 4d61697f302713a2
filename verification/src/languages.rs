//! The languages a CoconutPak text can be written in.
use vstd::prelude::*;
use crate::text::same_text;

verus! {

/// A language a text is written in; `Other` holds any code that is not one
/// of the known ones.  It is shown by its code (see [`Languages::code`]).
#[derive(Clone, PartialEq, Eq, Hash)]
pub enum Languages {
    AllNone,
    En,
    Ko,
    Ja,
    ZhTw,
    ZhCn,
    Other(String),
}

/// The mathematical picture of a [`Languages`] value.
pub enum LanguageView {
    AllNone,
    En,
    Ko,
    Ja,
    ZhTw,
    ZhCn,
    Other(Seq<char>),
}

impl View for Languages {
    type V = LanguageView;

    open spec fn view(&self) -> LanguageView {
        match self {
            Languages::AllNone => LanguageView::AllNone,
            Languages::En => LanguageView::En,
            Languages::Ko => LanguageView::Ko,
            Languages::Ja => LanguageView::Ja,
            Languages::ZhTw => LanguageView::ZhTw,
            Languages::ZhCn => LanguageView::ZhCn,
            Languages::Other(s) => LanguageView::Other(s@),
        }
    }
}

/// The text by which a language is written out and stored.
pub open spec fn language_code(l: LanguageView) -> Seq<char> {
    match l {
        LanguageView::AllNone => "N/A"@,
        LanguageView::En => "en"@,
        LanguageView::Ko => "ko"@,
        LanguageView::Ja => "ja"@,
        LanguageView::ZhTw => "zh_tw"@,
        LanguageView::ZhCn => "zh_cn"@,
        LanguageView::Other(s) => s,
    }
}

/// The language that a stored code stands for.
pub open spec fn language_of_code(s: Seq<char>) -> LanguageView {
    if s == "N/A"@ {
        LanguageView::AllNone
    } else if s == "en"@ {
        LanguageView::En
    } else if s == "ko"@ {
        LanguageView::Ko
    } else if s == "ja"@ {
        LanguageView::Ja
    } else if s == "zh_tw"@ {
        LanguageView::ZhTw
    } else if s == "zh_cn"@ {
        LanguageView::ZhCn
    } else {
        LanguageView::Other(s)
    }
}

/// Whether a text is one of the codes of the known languages.
pub open spec fn is_known_code(s: Seq<char>) -> bool {
    s == "N/A"@ || s == "en"@ || s == "ko"@ || s == "ja"@ || s == "zh_tw"@ || s == "zh_cn"@
}

impl Languages {
    /// The code of this language, as its `Display` and `Debug` write it.
    pub fn code(&self) -> (r: String)
        ensures
            r@ == language_code(self@),
    {
        match self {
            Languages::AllNone => String::from_str("N/A"),
            Languages::En => String::from_str("en"),
            Languages::Ko => String::from_str("ko"),
            Languages::Ja => String::from_str("ja"),
            Languages::ZhTw => String::from_str("zh_tw"),
            Languages::ZhCn => String::from_str("zh_cn"),
            Languages::Other(e) => e.clone(),
        }
    }

    /// The name under which languages are stored.
    pub fn name() -> (r: String)
        ensures
            r@ == "language"@,
    {
        String::from_str("language")
    }

    /// The stored text of a language: its code.
    pub fn to_value(&self) -> (r: String)
        ensures
            r@ == language_code(self@),
    {
        self.code()
    }

    /// The language a stored text stands for; every text stands for one.
    pub fn try_from_value(v: &String) -> (r: Languages)
        ensures
            r@ == language_of_code(v@),
    {
        Languages::from_code(v.as_str())
    }

    /// The language that a code stands for (`From<S: AsRef<str>>`).
    pub fn from_code(s: &str) -> (r: Languages)
        ensures
            r@ == language_of_code(s@),
    {
        if same_text(s, "N/A") {
            Languages::AllNone
        } else if same_text(s, "en") {
            Languages::En
        } else if same_text(s, "ko") {
            Languages::Ko
        } else if same_text(s, "ja") {
            Languages::Ja
        } else if same_text(s, "zh_tw") {
            Languages::ZhTw
        } else if same_text(s, "zh_cn") {
            Languages::ZhCn
        } else {
            Languages::Other(s.to_owned())
        }
    }
}

/// Reading back the code of a language gives the same code: every text
/// survives `from_code` followed by `code`.
pub proof fn lemma_code_of_language_of_code(s: Seq<char>)
    ensures
        language_code(language_of_code(s)) == s,
{
}

/// A language whose code is not taken by a known language survives `code`
/// followed by `from_code`.
pub proof fn lemma_language_of_code_of_language(l: LanguageView)
    requires
        !(l matches LanguageView::Other(s) && is_known_code(s)),
    ensures
        language_of_code(language_code(l)) == l,
{
    reveal_strlit("N/A");
    reveal_strlit("en");
    reveal_strlit("ko");
    reveal_strlit("ja");
    reveal_strlit("zh_tw");
    reveal_strlit("zh_cn");
    match l {
        LanguageView::En => {
            assert("en"@.len() != "N/A"@.len());
        },
        LanguageView::Ko => {
            assert("ko"@.len() != "N/A"@.len());
            assert("ko"@[0] != "en"@[0]);
        },
        LanguageView::Ja => {
            assert("ja"@.len() != "N/A"@.len());
            assert("ja"@[0] != "en"@[0]);
            assert("ja"@[0] != "ko"@[0]);
        },
        LanguageView::ZhTw => {
            assert("zh_tw"@.len() != "N/A"@.len());
            assert("zh_tw"@.len() != "en"@.len());
        },
        LanguageView::ZhCn => {
            assert("zh_cn"@.len() != "N/A"@.len());
            assert("zh_cn"@.len() != "en"@.len());
            assert("zh_cn"@[3] != "zh_tw"@[3]);
        },
        _ => {},
    }
}

} // verus!
