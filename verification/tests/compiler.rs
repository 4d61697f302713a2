use coconutpak::compiler::{only_allowed_chars, texts_only_allowed, CoconutPakManifest, Compiler};
use coconutpak::error::{CompilerError, ConfigError};
use coconutpak::login_config::Config;

const ALLOWED: &str = "Allowed Characters: ['a', 'b', 'c', 'd', 'e', 'f', 'g', 'h', 'i', 'j', 'k', 'l', 'm', 'n', 'o', 'p', 'q', 'r', 's', 't', 'u', 'v', 'w', 'x', 'y', 'z', 'A', 'B', 'C', 'D', 'E', 'F', 'G', 'H', 'I', 'J', 'K', 'L', 'M', 'N', 'O', 'P', 'Q', 'R', 'S', 'T', 'U', 'V', 'W', 'X', 'Y', 'Z', '0', '1', '2', '3', '4', '5', '6', '7', '8', '9', '_', '-']";

fn manifest(name: &str, tags: &[&str], categories: &[&str]) -> CoconutPakManifest {
    CoconutPakManifest {
        author: vec!["someone".to_string()],
        name: name.to_string(),
        edition: "2022".to_string(),
        license: "MIT".to_string(),
        version: "0.1.0".to_string(),
        source: None,
        description: "a pak".to_string(),
        readme: String::new(),
        tags: tags.iter().map(|s| s.to_string()).collect(),
        docs: None,
        homepage: None,
        categories: categories.iter().map(|s| s.to_string()).collect(),
    }
}

fn compiler(m: CoconutPakManifest) -> Compiler {
    Compiler { manifest: m, source_path: "pak/src".to_string() }
}

#[test]
fn allowed_characters_are_letters_digits_underscore_and_dash() {
    assert!(only_allowed_chars("abc_XYZ-019"));
    assert!(only_allowed_chars(""));
    assert!(!only_allowed_chars("a b"));
    assert!(!only_allowed_chars("ü"));
    assert!(!only_allowed_chars("a.b"));
    assert!(texts_only_allowed(&vec!["a".to_string(), "b-c".to_string()]));
    assert!(texts_only_allowed(&vec![]));
    assert!(!texts_only_allowed(&vec!["a".to_string(), "b c".to_string()]));
}

#[test]
fn a_clean_manifest_passes_the_check() {
    let c = compiler(manifest("greetings", &["cute", "fem-voice"], &["voice_training"]));
    assert_eq!(c.check_manifest(), Ok(()));
}

#[test]
fn a_name_that_is_no_identifier_is_refused() {
    for name in ["", "1pak", "_pak", "pak name", "pak!"] {
        let c = compiler(manifest(name, &[], &[]));
        assert_eq!(
            c.check_manifest(),
            Err(CompilerError::BadField { field: "name".to_string(), why: "Failed Check Name Good".to_string() })
        );
    }
}

#[test]
fn bad_tags_and_categories_are_refused() {
    let c = compiler(manifest("pak", &["ok", "not ok"], &[]));
    assert_eq!(
        c.check_manifest(),
        Err(CompilerError::InvalidCharacters { field: "tags".to_string(), bad_char: ALLOWED.to_string() })
    );
    let c = compiler(manifest("pak", &["ok"], &["fine", "bad/one"]));
    assert_eq!(
        c.check_manifest(),
        Err(CompilerError::InvalidCharacters { field: "categories".to_string(), bad_char: ALLOWED.to_string() })
    );
    // the name is checked first, then the tags
    let c = compiler(manifest("9", &["bad tag"], &["bad category"]));
    assert!(matches!(c.check_manifest(), Err(CompilerError::BadField { .. })));
    let c = compiler(manifest("pak", &["bad tag"], &["bad category"]));
    assert!(matches!(c.check_manifest(), Err(CompilerError::InvalidCharacters { field, .. }) if field == "tags"));
}

#[test]
fn compiling_a_pak_keeps_its_manifest() {
    let c = compiler(manifest("greetings", &["a"], &["b"]));
    let out = match c.compile() {
        Ok(out) => out,
        Err(e) => panic!("{}", e.message()),
    };
    assert_eq!(out.edition, "0.1.0");
    assert_eq!(out.manifest.name, "greetings");
    assert_eq!(out.manifest.tags, vec!["a".to_string()]);
    assert!(out.register_text_containers.is_none());
    let bad = compiler(manifest("no good", &[], &[]));
    assert!(matches!(bad.compile(), Err(CompilerError::BadField { .. })));
}

#[test]
fn pak_paths_follow_the_source_path() {
    assert_eq!(Compiler::manifest_path("pak/"), "pak/Coconut.toml");
    assert_eq!(Compiler::readme_path("pak/"), "pak/README.md");
    assert_eq!(Compiler::source_dir_path("pak/"), "pak/src");
    assert_eq!(Compiler::manifest_path(""), "Coconut.toml");
}

#[test]
fn a_compiler_is_made_from_what_was_read() {
    let c = Compiler::from_parts("pak/".to_string(), manifest("pak", &[], &[]), Some("# Pak".to_string()), true);
    let c = match c {
        Ok(c) => c,
        Err(e) => panic!("{}", e.message()),
    };
    assert_eq!(c.source_path, "pak/src");
    assert_eq!(c.manifest.readme, "# Pak");
    assert_eq!(c.manifest.name, "pak");
    assert_eq!(c.manifest.author, vec!["someone".to_string()]);
    assert_eq!(c.manifest.edition, "2022");
    assert_eq!(c.manifest.license, "MIT");
    assert_eq!(c.manifest.description, "a pak");
    assert_eq!(c.manifest.version, "0.1.0");
    let c = Compiler::from_parts("pak/".to_string(), manifest("pak", &[], &[]), None, true);
    assert_eq!(c.ok().map(|c| c.manifest.readme), Some(String::new()));
    let c = Compiler::from_parts("pak/".to_string(), manifest("pak", &[], &[]), None, false);
    assert_eq!(c.err(), Some(CompilerError::SourcePathInvalid));
}

#[test]
fn compiler_errors_are_shown_as_written() {
    let cases = [
        (
            CompilerError::InvalidCharacters { field: "tags".to_string(), bad_char: "x".to_string() },
            "Disallowed Character in tags: x",
        ),
        (CompilerError::BadField { field: "name".to_string(), why: "w".to_string() }, "Bad name: w"),
        (CompilerError::SourcePathInvalid, "Cannot Find or Open Source Path!"),
        (
            CompilerError::FileError { file: "a.copt".to_string(), why: "gone".to_string() },
            "Cannot find or open file a.copt, gone",
        ),
        (CompilerError::BadManifest("m".to_string()), "Invalid Manifest: m"),
        (CompilerError::BadText { why: "t".to_string() }, "Invalid Text: t"),
        (
            CompilerError::BadAttr { attribute: "wait".to_string(), value: "9".to_string(), why: "w".to_string() },
            "Invalid Attribute: attribute wait of value 9, Error: w",
        ),
        (CompilerError::NoAttr { attribute: "name".to_string() }, "No Attribute: name"),
        (CompilerError::XmlError { why: "x".to_string() }, "Failed to generate XML: x"),
        (CompilerError::CompileError("c".to_string()), "Error: c"),
    ];
    for (e, text) in cases {
        assert_eq!(e.message(), text);
    }
}

#[test]
fn config_errors_are_shown_as_written() {
    assert_eq!(ConfigError::ConfigNotFound("/tmp/c.toml".to_string()).message(), "Config file not found: \"/tmp/c.toml\"");
    let odd = "/tmp/a\"b\\c\n.toml".to_string();
    assert_eq!(ConfigError::ConfigNotFound(odd.clone()).message(), format!("Config file not found: {:?}", odd));
    assert_eq!(ConfigError::ConfigNotFound(odd).message(), "Config file not found: \"/tmp/a\\\"b\\\\c\\n.toml\"");
    assert_eq!(ConfigError::InvalidConfigFile { why: "w".to_string() }.message(), "Bad Config File: w");
    assert_eq!(ConfigError::ConfigFileError { why: "w".to_string() }.message(), "Config File Error: w");
}

#[test]
fn a_login_is_read_back_after_it_is_written() {
    let mut c = Config::default();
    assert_eq!(c.get_login_for_url("https://a"), None);
    assert_eq!(c.add_login_for_url("https://a", "key1"), None);
    assert_eq!(c.get_login_for_url("https://a"), Some(&"key1".to_string()));
    assert_eq!(c.add_login_for_url("https://b", "key2"), None);
    assert_eq!(c.add_login_for_url("https://a", "key3"), Some("key1".to_string()));
    assert_eq!(c.get_login_for_url("https://a"), Some(&"key3".to_string()));
    assert_eq!(c.get_login_for_url("https://b"), Some(&"key2".to_string()));
    assert_eq!(c.get_login_for_url("https://c"), None);
    let mut all = c.logins();
    all.sort();
    assert_eq!(
        all,
        vec![("https://a".to_string(), "key3".to_string()), ("https://b".to_string(), "key2".to_string())]
    );
}

#[test]
fn a_configuration_rebuilt_from_its_logins_is_the_same() {
    let mut c = Config::default();
    c.add_login_for_url("https://a", "k1");
    c.add_login_for_url("https://b", "k2");
    c.add_login_for_url("https://a", "k3");
    let again = Config::from_logins(&c.logins());
    for url in ["https://a", "https://b", "https://c"] {
        assert_eq!(again.get_login_for_url(url), c.get_login_for_url(url));
    }
    assert_eq!(again.logins().len(), 2);
    let later_wins = Config::from_logins(&vec![
        ("u".to_string(), "first".to_string()),
        ("u".to_string(), "second".to_string()),
    ]);
    assert_eq!(later_wins.get_login_for_url("u"), Some(&"second".to_string()));
}
