//! Tags that describe a CoconutPak, and how they are stored as text.
use vstd::prelude::*;
use crate::text::same_text;

verus! {

/// The gendered style a tag refers to.
#[derive(Clone, Debug, PartialEq, Eq, Hash)]
pub enum GenderStyleMarker {
    Masc,
    Fem,
    Andro,
    Other(String),
}

/// A tag of a CoconutPak.
#[derive(Clone, Debug, PartialEq, Eq, Hash)]
pub enum Tags {
    Fem,
    TransFem,
    CisFem,
    Masc,
    TransMasc,
    CisMasc,
    Andro,
    NonBinary(String),
    VoiceTraining(GenderStyleMarker),
    Dysphoria(GenderStyleMarker),
    Profession(String),
    Transition(GenderStyleMarker),
    Presentation(GenderStyleMarker),
    AntiTerf,
    AntiChud,
    Other(String),
}

pub enum GenderStyleView {
    Masc,
    Fem,
    Andro,
    Other(Seq<char>),
}

pub enum TagView {
    Fem,
    TransFem,
    CisFem,
    Masc,
    TransMasc,
    CisMasc,
    Andro,
    NonBinary(Seq<char>),
    VoiceTraining(GenderStyleView),
    Dysphoria(GenderStyleView),
    Profession(Seq<char>),
    Transition(GenderStyleView),
    Presentation(GenderStyleView),
    AntiTerf,
    AntiChud,
    Other(Seq<char>),
}

impl View for GenderStyleMarker {
    type V = GenderStyleView;

    open spec fn view(&self) -> GenderStyleView {
        match self {
            GenderStyleMarker::Masc => GenderStyleView::Masc,
            GenderStyleMarker::Fem => GenderStyleView::Fem,
            GenderStyleMarker::Andro => GenderStyleView::Andro,
            GenderStyleMarker::Other(s) => GenderStyleView::Other(s@),
        }
    }
}

impl View for Tags {
    type V = TagView;

    open spec fn view(&self) -> TagView {
        match self {
            Tags::Fem => TagView::Fem,
            Tags::TransFem => TagView::TransFem,
            Tags::CisFem => TagView::CisFem,
            Tags::Masc => TagView::Masc,
            Tags::TransMasc => TagView::TransMasc,
            Tags::CisMasc => TagView::CisMasc,
            Tags::Andro => TagView::Andro,
            Tags::NonBinary(s) => TagView::NonBinary(s@),
            Tags::VoiceTraining(g) => TagView::VoiceTraining(g@),
            Tags::Dysphoria(g) => TagView::Dysphoria(g@),
            Tags::Profession(s) => TagView::Profession(s@),
            Tags::Transition(g) => TagView::Transition(g@),
            Tags::Presentation(g) => TagView::Presentation(g@),
            Tags::AntiTerf => TagView::AntiTerf,
            Tags::AntiChud => TagView::AntiChud,
            Tags::Other(s) => TagView::Other(s@),
        }
    }
}

/// The stored text of a gender style.
pub open spec fn gender_style_value(g: GenderStyleView) -> Seq<char> {
    match g {
        GenderStyleView::Masc => "MASC"@,
        GenderStyleView::Fem => "FEM"@,
        GenderStyleView::Andro => "ANDRO"@,
        GenderStyleView::Other(v) => v,
    }
}

/// The gender style a stored text stands for.
pub open spec fn gender_style_of_value(v: Seq<char>) -> GenderStyleView {
    if v == "MASC"@ {
        GenderStyleView::Masc
    } else if v == "FEM"@ {
        GenderStyleView::Fem
    } else if v == "ANDRO"@ {
        GenderStyleView::Andro
    } else {
        GenderStyleView::Other(v)
    }
}

/// The stored text of a tag.
pub open spec fn tag_value(t: TagView) -> Seq<char> {
    match t {
        TagView::Fem => "FEM"@,
        TagView::TransFem => "TRANSFEM"@,
        TagView::CisFem => "CISFEM"@,
        TagView::Masc => "MASC"@,
        TagView::TransMasc => "TRANSMASC"@,
        TagView::CisMasc => "CISMASC"@,
        TagView::Andro => "ANDRO"@,
        TagView::NonBinary(nb) => "NONBINARY_"@ + nb,
        TagView::VoiceTraining(g) => "VOICETRAINING_"@ + gender_style_value(g),
        TagView::Dysphoria(g) => "DYSPHORIA_"@ + gender_style_value(g),
        TagView::Profession(w) => "PROFESSION_"@ + w,
        TagView::Transition(g) => "TRANSITION_"@ + gender_style_value(g),
        TagView::Presentation(g) => "PRESENTATION_"@ + gender_style_value(g),
        TagView::AntiTerf => "ANTITERF"@,
        TagView::AntiChud => "ANTICHUD"@,
        TagView::Other(o) => o,
    }
}

impl GenderStyleMarker {
    /// The name under which the gender style is stored.
    pub fn name() -> (r: String)
        ensures
            r@ == "gender_style_market"@,
    {
        String::from_str("gender_style_market")
    }

    /// The stored text of this gender style.
    pub fn to_value(&self) -> (r: String)
        ensures
            r@ == gender_style_value(self@),
    {
        match self {
            GenderStyleMarker::Masc => String::from_str("MASC"),
            GenderStyleMarker::Fem => String::from_str("FEM"),
            GenderStyleMarker::Andro => String::from_str("ANDRO"),
            GenderStyleMarker::Other(v) => v.clone(),
        }
    }

    /// The gender style a stored text stands for; every text stands for one.
    pub fn try_from_value(v: &String) -> (r: GenderStyleMarker)
        ensures
            r@ == gender_style_of_value(v@),
    {
        if same_text(v.as_str(), "MASC") {
            GenderStyleMarker::Masc
        } else if same_text(v.as_str(), "FEM") {
            GenderStyleMarker::Fem
        } else if same_text(v.as_str(), "ANDRO") {
            GenderStyleMarker::Andro
        } else {
            GenderStyleMarker::Other(v.clone())
        }
    }
}

impl Tags {
    /// The name under which tags are stored.
    pub fn name() -> (r: String)
        ensures
            r@ == "tags"@,
    {
        String::from_str("tags")
    }

    /// The stored text of this tag.
    pub fn to_value(&self) -> (r: String)
        ensures
            r@ == tag_value(self@),
    {
        match self {
            Tags::Fem => String::from_str("FEM"),
            Tags::TransFem => String::from_str("TRANSFEM"),
            Tags::CisFem => String::from_str("CISFEM"),
            Tags::Masc => String::from_str("MASC"),
            Tags::TransMasc => String::from_str("TRANSMASC"),
            Tags::CisMasc => String::from_str("CISMASC"),
            Tags::Andro => String::from_str("ANDRO"),
            Tags::NonBinary(nb) => String::from_str("NONBINARY_").concat(nb.as_str()),
            Tags::VoiceTraining(vt) => String::from_str("VOICETRAINING_").concat(vt.to_value().as_str()),
            Tags::Dysphoria(d) => String::from_str("DYSPHORIA_").concat(d.to_value().as_str()),
            Tags::Profession(w) => String::from_str("PROFESSION_").concat(w.as_str()),
            Tags::Transition(tr) => String::from_str("TRANSITION_").concat(tr.to_value().as_str()),
            Tags::Presentation(pe) => String::from_str("PRESENTATION_").concat(pe.to_value().as_str()),
            Tags::AntiTerf => String::from_str("ANTITERF"),
            Tags::AntiChud => String::from_str("ANTICHUD"),
            Tags::Other(o) => o.clone(),
        }
    }

    /// A stored text read back as a tag: every text becomes `Other`.
    pub fn try_from_value(v: &String) -> (r: Tags)
        ensures
            r@ == TagView::Other(v@),
    {
        Tags::Other(v.clone())
    }
}

/// Every stored text survives being read as a gender style and stored again.
pub proof fn lemma_gender_style_value_of_value(v: Seq<char>)
    ensures
        gender_style_value(gender_style_of_value(v)) == v,
{
}

/// A gender style whose text is not taken by a named style survives being
/// stored and read back.
pub proof fn lemma_gender_style_of_value_of_style(g: GenderStyleView)
    requires
        !(g matches GenderStyleView::Other(v) && (v == "MASC"@ || v == "FEM"@ || v == "ANDRO"@)),
    ensures
        gender_style_of_value(gender_style_value(g)) == g,
{
    reveal_strlit("MASC");
    reveal_strlit("FEM");
    reveal_strlit("ANDRO");
    match g {
        GenderStyleView::Fem => {
            assert("FEM"@.len() != "MASC"@.len());
        },
        GenderStyleView::Andro => {
            assert("ANDRO"@.len() != "MASC"@.len());
            assert("ANDRO"@.len() != "FEM"@.len());
        },
        _ => {},
    }
}

/// Every stored text survives being read as a tag and stored again.
pub proof fn lemma_tag_value_of_read_tag(v: Seq<char>)
    ensures
        tag_value(TagView::Other(v)) == v,
{
}

} // verus!
