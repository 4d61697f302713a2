use coconutpak::languages::Languages;
use coconutpak::tags::{GenderStyleMarker, Tags};

#[test]
fn language_codes_are_written_as_stored() {
    assert!(Languages::AllNone.code() == "N/A");
    assert!(Languages::En.code() == "en");
    assert!(Languages::Ko.code() == "ko");
    assert!(Languages::Ja.code() == "ja");
    assert!(Languages::ZhTw.code() == "zh_tw");
    assert!(Languages::ZhCn.code() == "zh_cn");
    assert!(Languages::Other("tlh".to_string()).code() == "tlh");
}

#[test]
fn language_codes_are_read_back() {
    assert!(Languages::from_code("N/A") == Languages::AllNone);
    assert!(Languages::from_code("en") == Languages::En);
    assert!(Languages::from_code("zh_cn") == Languages::ZhCn);
    assert!(Languages::from_code("EN") == Languages::Other("EN".to_string()));
    assert!(Languages::from_code("") == Languages::Other(String::new()));
}

#[test]
fn every_code_survives_a_round_trip() {
    for code in ["N/A", "en", "ko", "ja", "zh_tw", "zh_cn", "de", "", "zh-TW"] {
        assert!(Languages::from_code(code).code() == code);
    }
}

#[test]
fn known_languages_survive_a_round_trip() {
    let all = [
        Languages::AllNone,
        Languages::En,
        Languages::Ko,
        Languages::Ja,
        Languages::ZhTw,
        Languages::ZhCn,
        Languages::Other("fr".to_string()),
    ];
    for l in all {
        assert!(Languages::from_code(&l.code()) == l);
    }
    // an `Other` that takes a known code does not come back as itself
    assert!(Languages::from_code(&Languages::Other("en".to_string()).code()) == Languages::En);
}

#[test]
fn language_store_names_and_values() {
    assert_eq!(Languages::name(), "language");
    assert_eq!(Languages::Ja.to_value(), "ja");
    assert!(Languages::try_from_value(&"ko".to_string()) == Languages::Ko);
}

#[test]
fn gender_styles_are_stored_and_read() {
    assert_eq!(GenderStyleMarker::name(), "gender_style_market");
    assert_eq!(GenderStyleMarker::Masc.to_value(), "MASC");
    assert_eq!(GenderStyleMarker::Fem.to_value(), "FEM");
    assert_eq!(GenderStyleMarker::Andro.to_value(), "ANDRO");
    assert_eq!(GenderStyleMarker::Other("x".to_string()).to_value(), "x");
    assert_eq!(GenderStyleMarker::try_from_value(&"FEM".to_string()), GenderStyleMarker::Fem);
    assert_eq!(GenderStyleMarker::try_from_value(&"fem".to_string()), GenderStyleMarker::Other("fem".to_string()));
    for v in ["MASC", "FEM", "ANDRO", "other", ""] {
        assert_eq!(GenderStyleMarker::try_from_value(&v.to_string()).to_value(), v);
    }
}

#[test]
fn tags_are_stored_with_their_prefixes() {
    assert_eq!(Tags::name(), "tags");
    assert_eq!(Tags::Fem.to_value(), "FEM");
    assert_eq!(Tags::TransFem.to_value(), "TRANSFEM");
    assert_eq!(Tags::CisMasc.to_value(), "CISMASC");
    assert_eq!(Tags::AntiTerf.to_value(), "ANTITERF");
    assert_eq!(Tags::AntiChud.to_value(), "ANTICHUD");
    assert_eq!(Tags::NonBinary("agender".to_string()).to_value(), "NONBINARY_agender");
    assert_eq!(Tags::VoiceTraining(GenderStyleMarker::Fem).to_value(), "VOICETRAINING_FEM");
    assert_eq!(Tags::Dysphoria(GenderStyleMarker::Masc).to_value(), "DYSPHORIA_MASC");
    assert_eq!(Tags::Profession("nurse".to_string()).to_value(), "PROFESSION_nurse");
    assert_eq!(Tags::Transition(GenderStyleMarker::Andro).to_value(), "TRANSITION_ANDRO");
    assert_eq!(
        Tags::Presentation(GenderStyleMarker::Other("soft".to_string())).to_value(),
        "PRESENTATION_soft"
    );
    assert_eq!(Tags::Other("custom".to_string()).to_value(), "custom");
}

#[test]
fn stored_tags_read_back_as_other() {
    assert_eq!(Tags::try_from_value(&"FEM".to_string()), Tags::Other("FEM".to_string()));
    for v in ["FEM", "NONBINARY_x", "anything"] {
        assert_eq!(Tags::try_from_value(&v.to_string()).to_value(), v);
    }
}
