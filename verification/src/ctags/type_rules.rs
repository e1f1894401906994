//! The rules that find the declared type of a member or method in its tag
//! line, one rule per source language.

use vstd::prelude::*;
use crate::ctags::ctags_parser::CtagsParser;
use crate::ctags::tag_line::{
    capture, captured, captures, group_in, group_text, or_empty, regex_captures, text_or_empty,
};
use crate::text::{remove_first, remove_first_occurrence, same_text, split, split_on};

verus! {

/// The source languages with a rule of their own, and `Other` for the rest.
#[derive(Clone, Copy, Debug, PartialEq, Eq, Structural)]
pub enum Language {
    Java,
    CSharp,
    Cpp,
    Rust,
    Go,
    TypeScript,
    /// A language without a rule: its members and methods stay untyped.
    Other,
}

/// The language that the value of a `language:` annotation names.
pub open spec fn language_of(name: Seq<char>) -> Language {
    if name == "Java"@ {
        Language::Java
    } else if name == "C#"@ {
        Language::CSharp
    } else if name == "C++"@ {
        Language::Cpp
    } else if name == "Rust"@ {
        Language::Rust
    } else if name == "Go"@ {
        Language::Go
    } else if name == "TypeScript"@ {
        Language::TypeScript
    } else {
        Language::Other
    }
}

impl Language {
    /// The language that the value of a `language:` annotation names.
    pub fn from_name(name: &str) -> (language: Language)
        ensures
            language == language_of(name@),
    {
        if same_text(name, "Java") {
            Language::Java
        } else if same_text(name, "C#") {
            Language::CSharp
        } else if same_text(name, "C++") {
            Language::Cpp
        } else if same_text(name, "Rust") {
            Language::Rust
        } else if same_text(name, "Go") {
            Language::Go
        } else if same_text(name, "TypeScript") {
            Language::TypeScript
        } else {
            Language::Other
        }
    }
}

/// The number of declaration keywords.
pub const KEYWORD_COUNT: usize = 18;

/// The words and signs that may stand before a declared type in a C-family
/// language, in the order in which they are taken out.
pub open spec fn type_keywords() -> Seq<Seq<char>> {
    seq![
        "private"@,
        "public"@,
        "protected"@,
        "static"@,
        "volatile"@,
        "synchronized"@,
        "final"@,
        "const"@,
        "abstract"@,
        "struct"@,
        "union"@,
        "enum"@,
        "override"@,
        "internal"@,
        "extern"@,
        "readonly"@,
        "*"@,
        ":"@,
    ]
}

/// `line` after the first `n` keywords have been taken out, each at its first
/// occurrence in what the ones before it left.
pub open spec fn without_keywords_upto(line: Seq<char>, n: nat) -> Seq<char>
    decreases n,
{
    if n == 0 {
        line
    } else {
        remove_first(without_keywords_upto(line, (n - 1) as nat), type_keywords()[n - 1])
    }
}

/// `line` with each declaration keyword taken out once.
pub open spec fn without_keywords(line: Seq<char>) -> Seq<char> {
    without_keywords_upto(line, KEYWORD_COUNT as nat)
}

impl CtagsParser {
    /// `line` with each declaration keyword taken out once, at its first
    /// occurrence.
    pub fn remove_keywords(line: String) -> (rest: String)
        ensures
            rest@ == without_keywords(line@),
    {
        let keywords: [&str; 18] = [
            "private",
            "public",
            "protected",
            "static",
            "volatile",
            "synchronized",
            "final",
            "const",
            "abstract",
            "struct",
            "union",
            "enum",
            "override",
            "internal",
            "extern",
            "readonly",
            "*",
            ":",
        ];
        assert(keywords@.map_values(|k: &str| k@) =~= type_keywords());
        let ghost whole = line@;
        let mut rest = line;
        let mut i: usize = 0;
        while i < 18
            invariant
                i <= 18,
                keywords@.map_values(|k: &str| k@) == type_keywords(),
                rest@ == without_keywords_upto(whole, i as nat),
            decreases 18 - i,
        {
            assert(keywords@.map_values(|k: &str| k@)[i as int] == keywords@[i as int]@);
            rest = remove_first_occurrence(rest.as_str(), keywords[i]);
            i += 1;
        }
        rest
    }
}

/// The access marker of a Rust field, read from the words before its colon:
/// `+` where more than one word stands there and the first is `pub`, `#`
/// where more than one stands there and the first is another, `-` for a
/// single word.
pub open spec fn rust_access(field: Seq<char>) -> Seq<char> {
    let words = split_on(field, ' ');
    if words.len() > 1 {
        if words[0] == "pub"@ {
            "+"@
        } else {
            "#"@
        }
    } else {
        "-"@
    }
}

/// The access marker of a Rust field, read from the words before its colon.
pub fn parse_rust_access(field: &str) -> (marker: String)
    ensures
        marker@ == rust_access(field@),
{
    let words = split(field, ' ');
    if words.len() > 1 {
        assert(words.deep_view()[0] == words@[0]@);
        if same_text(words[0].as_str(), "pub") {
            "+".to_owned()
        } else {
            "#".to_owned()
        }
    } else {
        "-".to_owned()
    }
}

/// A return type with `Self` replaced by the name of the class.
pub open spec fn resolved_self(data_type: Seq<char>, class_name: Seq<char>) -> Seq<char> {
    if data_type == "Self"@ {
        class_name
    } else {
        data_type
    }
}

/// A return type with `Self` replaced by the name of the class.
pub fn resolve_self(data_type: String, class_name: &str) -> (resolved: String)
    ensures
        resolved@ == resolved_self(data_type@, class_name@),
{
    if same_text(data_type.as_str(), "Self") {
        class_name.to_owned()
    } else {
        data_type
    }
}

/// In a search pattern without keywords: the first word, which is the
/// declared type in a C-family language.
pub const C_FAMILY_TYPE_PATTERN: &'static str =
    r"/\^([ ]*)(?P<datatype>[A-Za-z0-9_.]+)([^A-Za-z0-9_]+)(.*)\$/";

/// The group of `C_FAMILY_TYPE_PATTERN` that holds the type.
pub const C_FAMILY_TYPE_GROUP: usize = 2;

/// A Rust field: the words before the colon, and the type after it.
pub const RUST_FIELD_PATTERN: &'static str =
    r"/\^([ ]*)(?P<field>[A-Za-z0-9_.\s]+)\s*:(\t|\s)*(?P<datatype>[A-Za-z0-9_.<>]+)";

/// The group of `RUST_FIELD_PATTERN` that holds the words before the colon.
pub const RUST_FIELD_WORDS_GROUP: usize = 2;

/// The group of `RUST_FIELD_PATTERN` that holds the type.
pub const RUST_FIELD_TYPE_GROUP: usize = 4;

/// The type inside `Vec`, `Option` and angle brackets.
pub const RUST_INNER_PATTERN: &'static str = r"((Vec|Option|<)*)(?P<datatype>[A-Za-z0-9_]+)>*";

/// The group of `RUST_INNER_PATTERN` that holds the inner type.
pub const RUST_INNER_GROUP: usize = 3;

/// The return type after the arrow of a Rust function.
pub const RUST_RETURN_PATTERN: &'static str = r"\s->\s(?P<datatype>[A-Za-z0-9_.]+)\s";

/// The group of `RUST_RETURN_PATTERN` that holds the type.
pub const RUST_RETURN_GROUP: usize = 1;

/// A Go field: one or more names separated by commas, then the type.
pub const GO_TYPE_PATTERN: &'static str = r"(?x)/\^([\s]*)
([A-Za-z0-9_.]+)
(,(\s|\t)*([A-Za-z0-9_.]+))*(\s|\t)*
(?P<datatype>[A-Za-z0-9_.<>\[\]]+)";

/// The group of `GO_TYPE_PATTERN` that holds the type.
pub const GO_TYPE_GROUP: usize = 7;

/// A TypeScript declaration: the type after the last colon that a type follows.
pub const TYPE_SCRIPT_PATTERN: &'static str =
    r"/\^([ |\t]*).*:([ |\t]*)(?P<datatype>[A-Za-z0-9_.<>\[\]]+).*\$/";

/// The group of `TYPE_SCRIPT_PATTERN` that holds the type.
pub const TYPE_SCRIPT_GROUP: usize = 3;

/// What a rule found in a tag line.
#[derive(Debug)]
pub struct DeclaredType {
    /// The declared type; empty where the rule found none.
    pub data_type: String,
    /// The type inside a generic or container type; empty where there is none.
    pub pure_data_type: String,
    /// The access marker, where the rule reads one from the declaration itself.
    pub access: Option<String>,
}

/// What a rule found, as plain values.
pub struct DeclaredTypeModel {
    pub data_type: Seq<char>,
    pub pure_data_type: Seq<char>,
    pub access: Option<Seq<char>>,
}

impl View for DeclaredType {
    type V = DeclaredTypeModel;

    open spec fn view(&self) -> DeclaredTypeModel {
        DeclaredTypeModel {
            data_type: self.data_type@,
            pure_data_type: self.pure_data_type@,
            access: self.access.deep_view(),
        }
    }
}

impl DeclaredTypeModel {
    /// Only a declared type, which may be empty.
    pub open spec fn plain(data_type: Seq<char>) -> DeclaredTypeModel {
        DeclaredTypeModel { data_type, pure_data_type: Seq::empty(), access: None }
    }
}

impl DeclaredType {
    /// Only a declared type, which may be empty.
    pub fn plain(data_type: String) -> (found: DeclaredType)
        ensures
            found@ == DeclaredTypeModel::plain(data_type@),
    {
        DeclaredType { data_type, pure_data_type: String::new(), access: None }
    }
}

/// What the Rust rule makes of a field declaration, given the groups that
/// `RUST_FIELD_PATTERN` captured in the line.
pub open spec fn rust_field_type(groups: Seq<Option<Seq<char>>>) -> DeclaredTypeModel {
    let data_type = or_empty(group_in(groups, RUST_FIELD_TYPE_GROUP as int));
    let words = or_empty(group_in(groups, RUST_FIELD_WORDS_GROUP as int));
    DeclaredTypeModel {
        data_type,
        pure_data_type: or_empty(captured(RUST_INNER_PATTERN@, data_type, RUST_INNER_GROUP as int)),
        access: Some(rust_access(words)),
    }
}

/// What the rule of `language` finds in `line`, for a member or method of
/// the class `class_name`.
///
/// - Java, C# and C++: the first word of the search pattern once the
///   declaration keywords are taken out of the line.
/// - Rust: for a field, the type after the colon, the type inside it, and
///   the access read from the words before the colon; else the return type
///   after the arrow, with `Self` standing for the class.
/// - Go and TypeScript: the type that their pattern captures.
/// - Any other language: nothing.
pub open spec fn declared_type(language: Language, line: Seq<char>, class_name: Seq<char>) -> DeclaredTypeModel {
    match language {
        Language::Java | Language::CSharp | Language::Cpp => DeclaredTypeModel::plain(
            or_empty(
                captured(C_FAMILY_TYPE_PATTERN@, without_keywords(line), C_FAMILY_TYPE_GROUP as int),
            ),
        ),
        Language::Rust => match regex_captures(RUST_FIELD_PATTERN@, line) {
            Some(groups) => rust_field_type(groups),
            None => match captured(RUST_RETURN_PATTERN@, line, RUST_RETURN_GROUP as int) {
                Some(data_type) => DeclaredTypeModel::plain(resolved_self(data_type, class_name)),
                None => DeclaredTypeModel::plain(Seq::empty()),
            },
        },
        Language::Go => DeclaredTypeModel::plain(
            or_empty(captured(GO_TYPE_PATTERN@, line, GO_TYPE_GROUP as int)),
        ),
        Language::TypeScript => DeclaredTypeModel::plain(
            or_empty(captured(TYPE_SCRIPT_PATTERN@, line, TYPE_SCRIPT_GROUP as int)),
        ),
        Language::Other => DeclaredTypeModel::plain(Seq::empty()),
    }
}

/// What the Rust rule makes of a field declaration, given the groups that
/// `RUST_FIELD_PATTERN` captured in the line.
pub fn read_rust_field(groups: Vec<Option<String>>) -> (found: DeclaredType)
    ensures
        found@ == rust_field_type(groups.deep_view()),
{
    let data_type = text_or_empty(group_text(&groups, RUST_FIELD_TYPE_GROUP));
    let words = text_or_empty(group_text(&groups, RUST_FIELD_WORDS_GROUP));
    let pure_data_type = text_or_empty(
        capture(RUST_INNER_PATTERN, data_type.as_str(), RUST_INNER_GROUP),
    );
    let access = parse_rust_access(words.as_str());
    DeclaredType { data_type, pure_data_type, access: Some(access) }
}

/// What the rule of `language` finds in `line`, for a member or method of
/// the class `class_name`.
pub fn read_declared_type(language: Language, line: &str, class_name: &str) -> (found: DeclaredType)
    ensures
        found@ == declared_type(language, line@, class_name@),
{
    match language {
        Language::Java | Language::CSharp | Language::Cpp => {
            let rest = CtagsParser::remove_keywords(line.to_owned());
            DeclaredType::plain(
                text_or_empty(capture(C_FAMILY_TYPE_PATTERN, rest.as_str(), C_FAMILY_TYPE_GROUP)),
            )
        },
        Language::Rust => {
            match captures(RUST_FIELD_PATTERN, line) {
                Some(groups) => read_rust_field(groups),
                None => {
                    match capture(RUST_RETURN_PATTERN, line, RUST_RETURN_GROUP) {
                        Some(data_type) => DeclaredType::plain(resolve_self(data_type, class_name)),
                        None => DeclaredType::plain(String::new()),
                    }
                },
            }
        },
        Language::Go => DeclaredType::plain(
            text_or_empty(capture(GO_TYPE_PATTERN, line, GO_TYPE_GROUP)),
        ),
        Language::TypeScript => DeclaredType::plain(
            text_or_empty(capture(TYPE_SCRIPT_PATTERN, line, TYPE_SCRIPT_GROUP)),
        ),
        Language::Other => DeclaredType::plain(String::new()),
    }
}

} // verus!
