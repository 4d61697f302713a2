//! The CoconutPak compiler: a project's manifest, the checks it must pass,
//! and the compiled output.
use vstd::prelude::*;
use crate::error::{CompilerError, CompilerErrorView};
use crate::text_compiler::is_identifier;
use crate::text_model::{TextContainer, all_allowed, allowed_identifier, is_allowed_char};
use vstd::string::StrSliceExecFns;

verus! {

/// The manifest of a CoconutPak (`Coconut.toml`), its versions by their
/// text.
pub struct CoconutPakManifest {
    pub author: Vec<String>,
    pub name: String,
    pub edition: String,
    pub license: String,
    pub version: String,
    pub source: Option<String>,
    pub description: String,
    pub readme: String,
    pub tags: Vec<String>,
    pub docs: Option<String>,
    pub homepage: Option<String>,
    pub categories: Vec<String>,
}

/// What compiling a CoconutPak yields.
pub struct CoconutPakOutput {
    pub edition: String,
    pub manifest: CoconutPakManifest,
    pub register_text_containers: Option<Vec<TextContainer>>,
}

/// A CoconutPak ready to be compiled: its manifest and the directory of its
/// sources.
pub struct Compiler {
    pub manifest: CoconutPakManifest,
    pub source_path: String,
}

pub open spec fn texts_view(v: Seq<String>) -> Seq<Seq<char>> {
    v.map_values(|s: String| s@)
}

/// Whether every character of every text is allowed (the texts joined and
/// stripped of allowed characters leave nothing).
pub open spec fn texts_allowed(v: Seq<Seq<char>>) -> bool {
    forall|i: int| 0 <= i < v.len() ==> all_allowed(#[trigger] v[i])
}

/// The `Debug` text of the allowed characters, as the error shows them.
pub open spec fn allowed_characters_text() -> Seq<char> {
    "Allowed Characters: ['a', 'b', 'c', 'd', 'e', 'f', 'g', 'h', 'i', 'j', 'k', 'l', 'm', 'n', 'o', 'p', 'q', 'r', 's', 't', 'u', 'v', 'w', 'x', 'y', 'z', 'A', 'B', 'C', 'D', 'E', 'F', 'G', 'H', 'I', 'J', 'K', 'L', 'M', 'N', 'O', 'P', 'Q', 'R', 'S', 'T', 'U', 'V', 'W', 'X', 'Y', 'Z', '0', '1', '2', '3', '4', '5', '6', '7', '8', '9', '_', '-']"@
}

/// The error a manifest's name, tags and categories give, if any.
pub open spec fn manifest_error(name: Seq<char>, tags: Seq<Seq<char>>, categories: Seq<Seq<char>>) -> Option<
    CompilerErrorView,
> {
    if !allowed_identifier(name) {
        Some(CompilerErrorView::BadField { field: "name"@, why: "Failed Check Name Good"@ })
    } else if !texts_allowed(tags) {
        Some(CompilerErrorView::InvalidCharacters { field: "tags"@, bad_char: allowed_characters_text() })
    } else if !texts_allowed(categories) {
        Some(
            CompilerErrorView::InvalidCharacters {
                field: "categories"@,
                bad_char: allowed_characters_text(),
            },
        )
    } else {
        None
    }
}

/// Whether every character of a text is allowed.
pub fn only_allowed_chars(s: &str) -> (r: bool)
    ensures
        r == all_allowed(s@),
{
    let n = s.unicode_len();
    let mut k: usize = 0;
    while k < n
        invariant
            n == s@.len(),
            0 <= k <= n,
            forall|j: int| 0 <= j < k ==> is_allowed_char(#[trigger] s@[j]),
        decreases n - k,
    {
        let c = s.get_char(k);
        if !(('a' <= c && c <= 'z') || ('A' <= c && c <= 'Z') || ('0' <= c && c <= '9') || c == '_'
            || c == '-') {
            return false;
        }
        k = k + 1;
    }
    true
}

/// Whether every character of every text is allowed.
pub fn texts_only_allowed(v: &Vec<String>) -> (r: bool)
    ensures
        r == texts_allowed(texts_view(v@)),
{
    let mut k: usize = 0;
    while k < v.len()
        invariant
            0 <= k <= v@.len(),
            forall|j: int| 0 <= j < k ==> all_allowed(#[trigger] texts_view(v@)[j]),
        decreases v@.len() - k,
    {
        if !only_allowed_chars(v[k].as_str()) {
            assert(texts_view(v@)[k as int] == v@[k as int]@);
            return false;
        }
        k = k + 1;
    }
    true
}

impl Compiler {
    /// Checks the manifest: its name is an identifier and its tags and
    /// categories hold only allowed characters.
    pub fn check_manifest(&self) -> (r: Result<(), CompilerError>)
        ensures
            match manifest_error(
                self.manifest.name@,
                texts_view(self.manifest.tags@),
                texts_view(self.manifest.categories@),
            ) {
                Some(e) => r matches Err(x) && x@ == e,
                None => r is Ok,
            },
    {
        if !is_identifier(self.manifest.name.as_str()) {
            return Err(
                CompilerError::BadField {
                    field: String::from_str("name"),
                    why: String::from_str("Failed Check Name Good"),
                },
            );
        }
        if !texts_only_allowed(&self.manifest.tags) {
            return Err(
                CompilerError::InvalidCharacters {
                    field: String::from_str("tags"),
                    bad_char: String::from_str("Allowed Characters: ['a', 'b', 'c', 'd', 'e', 'f', 'g', 'h', 'i', 'j', 'k', 'l', 'm', 'n', 'o', 'p', 'q', 'r', 's', 't', 'u', 'v', 'w', 'x', 'y', 'z', 'A', 'B', 'C', 'D', 'E', 'F', 'G', 'H', 'I', 'J', 'K', 'L', 'M', 'N', 'O', 'P', 'Q', 'R', 'S', 'T', 'U', 'V', 'W', 'X', 'Y', 'Z', '0', '1', '2', '3', '4', '5', '6', '7', '8', '9', '_', '-']"),
                },
            );
        }
        if !texts_only_allowed(&self.manifest.categories) {
            return Err(
                CompilerError::InvalidCharacters {
                    field: String::from_str("categories"),
                    bad_char: String::from_str("Allowed Characters: ['a', 'b', 'c', 'd', 'e', 'f', 'g', 'h', 'i', 'j', 'k', 'l', 'm', 'n', 'o', 'p', 'q', 'r', 's', 't', 'u', 'v', 'w', 'x', 'y', 'z', 'A', 'B', 'C', 'D', 'E', 'F', 'G', 'H', 'I', 'J', 'K', 'L', 'M', 'N', 'O', 'P', 'Q', 'R', 'S', 'T', 'U', 'V', 'W', 'X', 'Y', 'Z', '0', '1', '2', '3', '4', '5', '6', '7', '8', '9', '_', '-']"),
                },
            );
        }
        Ok(())
    }

    /// Compiles the pak: the manifest checked, and the output built from it,
    /// its edition being the manifest's version.  No text container is
    /// registered: the compiled texts are not collected.
    pub fn compile(self) -> (r: Result<CoconutPakOutput, CompilerError>)
        ensures
            match manifest_error(
                self.manifest.name@,
                texts_view(self.manifest.tags@),
                texts_view(self.manifest.categories@),
            ) {
                Some(e) => r matches Err(x) && x@ == e,
                None => r matches Ok(out) && out.edition@ == self.manifest.version@
                    && out.manifest == self.manifest && out.register_text_containers is None,
            },
    {
        self.check_manifest()?;
        let edition = self.manifest.version.clone();
        Ok(CoconutPakOutput { edition, manifest: self.manifest, register_text_containers: None })
    }

    /// Where a pak's manifest is looked for: the source path followed by
    /// `Coconut.toml`.
    pub fn manifest_path(source_path: &str) -> (r: String)
        ensures
            r@ == source_path@ + "Coconut.toml"@,
    {
        String::from_str(source_path).concat("Coconut.toml")
    }

    /// Where a pak's README is looked for.
    pub fn readme_path(source_path: &str) -> (r: String)
        ensures
            r@ == source_path@ + "README.md"@,
    {
        String::from_str(source_path).concat("README.md")
    }

    /// Where a pak's sources are looked for.
    pub fn source_dir_path(source_path: &str) -> (r: String)
        ensures
            r@ == source_path@ + "src"@,
    {
        String::from_str(source_path).concat("src")
    }

    /// A compiler for a pak from what was read of it: the manifest is kept
    /// whole but for its README, which is the one read (empty when there is
    /// none), and the sources must be a directory.
    pub fn from_parts(
        source_path: String,
        manifest: CoconutPakManifest,
        readme: Option<String>,
        source_dir_exists: bool,
    ) -> (r: Result<Compiler, CompilerError>)
        ensures
            source_dir_exists <==> r is Ok,
            !source_dir_exists ==> (r matches Err(e) && e@ == CompilerErrorView::SourcePathInvalid),
            r matches Ok(c) ==> {
                &&& c.source_path@ == source_path@ + "src"@
                &&& c.manifest.readme@ == match readme {
                    Some(t) => t@,
                    None => Seq::<char>::empty(),
                }
                &&& c.manifest == (CoconutPakManifest { readme: c.manifest.readme, ..manifest })
            },
    {
        let mut manifest = manifest;
        manifest.readme = match readme {
            Some(t) => t,
            None => String::new(),
        };
        if source_dir_exists {
            Ok(Compiler { manifest, source_path: Compiler::source_dir_path(source_path.as_str()) })
        } else {
            Err(CompilerError::SourcePathInvalid)
        }
    }
}

/// A compiled pak's name is an identifier and its tags and categories hold
/// only allowed characters.
pub proof fn lemma_compiled_manifest_is_clean(name: Seq<char>, tags: Seq<Seq<char>>, categories: Seq<Seq<char>>)
    requires
        manifest_error(name, tags, categories) is None,
    ensures
        allowed_identifier(name),
        texts_allowed(tags),
        texts_allowed(categories),
{
}

/// Letters, digits, `_` and `-` are exactly the characters a tag, a
/// category or an identifier may hold: a text passes the character check
/// just when each of its characters is one of `a`..=`z`, `A`..=`Z`,
/// `0`..=`9`, `_`, `-`.
pub proof fn lemma_allowed_characters_are_listed(s: Seq<char>)
    ensures
        all_allowed(s) <==> forall|i: int|
            0 <= i < s.len() ==> {
                let c = #[trigger] s[i];
                ('a' <= c && c <= 'z') || ('A' <= c && c <= 'Z') || ('0' <= c && c <= '9') || c == '_' || c
                    == '-'
            },
{
}

/// A name that starts with a letter (`a`..=`z`, `A`..=`Z`) and holds only
/// letters, digits, `_` and `-` is an identifier, and no other name is.
pub proof fn lemma_identifiers_are_listed(s: Seq<char>)
    ensures
        allowed_identifier(s) <==> (s.len() > 0 && (('a' <= s[0] && s[0] <= 'z') || ('A' <= s[0] && s[0] <= 'Z'))
            && forall|i: int|
            0 <= i < s.len() ==> {
                let c = #[trigger] s[i];
                ('a' <= c && c <= 'z') || ('A' <= c && c <= 'Z') || ('0' <= c && c <= '9') || c == '_' || c
                    == '-'
            }),
{
}

/// A manifest whose name is an identifier and whose tags and categories
/// hold only letters, digits, `_` and `-` passes the checks.
pub proof fn lemma_listed_manifest_passes(name: Seq<char>, tags: Seq<Seq<char>>, categories: Seq<Seq<char>>)
    requires
        name.len() > 0,
        ('a' <= name[0] && name[0] <= 'z') || ('A' <= name[0] && name[0] <= 'Z'),
        forall|i: int|
            0 <= i < name.len() ==> {
                let c = #[trigger] name[i];
                ('a' <= c && c <= 'z') || ('A' <= c && c <= 'Z') || ('0' <= c && c <= '9') || c == '_' || c
                    == '-'
            },
        forall|t: int, i: int|
            0 <= t < tags.len() && 0 <= i < tags[t].len() ==> {
                let c = #[trigger] tags[t][i];
                ('a' <= c && c <= 'z') || ('A' <= c && c <= 'Z') || ('0' <= c && c <= '9') || c == '_' || c
                    == '-'
            },
        forall|t: int, i: int|
            0 <= t < categories.len() && 0 <= i < categories[t].len() ==> {
                let c = #[trigger] categories[t][i];
                ('a' <= c && c <= 'z') || ('A' <= c && c <= 'Z') || ('0' <= c && c <= '9') || c == '_' || c
                    == '-'
            },
    ensures
        manifest_error(name, tags, categories) is None,
{
    assert forall|t: int| 0 <= t < tags.len() implies all_allowed(#[trigger] tags[t]) by {
        assert forall|i: int| 0 <= i < tags[t].len() implies is_allowed_char(#[trigger] tags[t][i]) by {
            let c = tags[t][i];
        }
    }
    assert forall|t: int| 0 <= t < categories.len() implies all_allowed(#[trigger] categories[t]) by {
        assert forall|i: int| 0 <= i < categories[t].len() implies is_allowed_char(#[trigger] categories[t][i]) by {
            let c = categories[t][i];
        }
    }
}

} // verus!
