//! The grammar of one tag line.
//!
//! A tag line holds tab-separated fields: the tag's name, the file, the
//! source line as a search pattern, the kind of tag, then annotations such as
//! `line:12`, `language:Java`, `class:Outer.Inner` and `access:public`. The
//! fields are recognised by regular expressions; what a regular expression
//! matches is taken from the `regex` crate and appears in contracts under the
//! name `regex_captures`.

use vstd::prelude::*;
use crate::ctags::ctags_parser::CtagsParser;
use crate::text::{chars_of, same_text, split, split_on};

verus! {

/// A class or struct declaration: name, file, search pattern, and a kind that
/// begins with `class` or `struct`.
pub const CLASS_PATTERN: &'static str = r"(?x)
^(?P<class_name>[A-Za-z0-9_]+)
\t(?P<file_name>([^\t]+))
\t([^\t]+)\t(class|struct)";

/// The group of `CLASS_PATTERN` that holds the class name.
pub const CLASS_NAME_GROUP: usize = 1;

/// The group of `CLASS_PATTERN` that holds the file path.
pub const CLASS_FILE_GROUP: usize = 2;

/// The `inherits:` annotation with its comma-separated list of parents.
pub const INHERITS_PATTERN: &'static str = r"inherits:(?P<inherits>[A-Za-z0-9_:,]+)";

/// The group of `INHERITS_PATTERN` that holds the list.
pub const INHERITS_GROUP: usize = 1;

/// Any tag with a name, a file, a search pattern, a kind and a line number.
pub const ENTRY_PATTERN: &'static str = r#"(?x)
^(?P<name>[A-Za-z0-9_]+)
\t(?P<data_type>[^\t]+)
\t([^\t]+.*?")
\t(?P<tag_type>[A-Za-z]+)
\tline:(?P<line_no>[0-9]+)"#;

/// The group of `ENTRY_PATTERN` that holds the tag's name.
pub const ENTRY_NAME_GROUP: usize = 1;

/// The group of `ENTRY_PATTERN` that holds the search pattern.
pub const ENTRY_SIGNATURE_GROUP: usize = 3;

/// The group of `ENTRY_PATTERN` that holds the kind of tag.
pub const ENTRY_KIND_GROUP: usize = 4;

/// The group of `ENTRY_PATTERN` that holds the line number.
pub const ENTRY_LINE_GROUP: usize = 5;

/// The annotation that names the scope a member or method belongs to.
pub const OWNER_PATTERN: &'static str = r"(?x)
(class|implementation|struct):(?P<class_name>[A-Za-z0-9_\.]+)";

/// The group of `OWNER_PATTERN` that holds the dotted path of the scope.
pub const OWNER_GROUP: usize = 2;

/// The `access:` annotation.
pub const ACCESS_PATTERN: &'static str = r"access:(?P<access>[A-Za-z0-9_]+)";

/// The group of `ACCESS_PATTERN` that holds the access level.
pub const ACCESS_GROUP: usize = 1;

/// The `language:` annotation.
pub const LANGUAGE_PATTERN: &'static str = r"language:(?P<language>[A-Za-z0-9_\#]+)";

/// The group of `LANGUAGE_PATTERN` that holds the language.
pub const LANGUAGE_GROUP: usize = 1;

/// The parenthesised parameter list inside a search pattern.
pub const PARAMETER_PATTERN: &'static str = r"/.*\((?P<parameters>(.*?))\).*/";

/// The group of `PARAMETER_PATTERN` that holds the text between the parentheses.
pub const PARAMETER_GROUP: usize = 1;

/// What the regular expression `pattern` captures in `text`: nothing where
/// the pattern is not a regular expression or matches nowhere, else the
/// groups of the leftmost match, the whole match first, each with the text it
/// matched or nothing where it took no part.
pub uninterp spec fn regex_captures(pattern: Seq<char>, text: Seq<char>) -> Option<
    Seq<Option<Seq<char>>>,
>;

/// Matches `pattern` against `text` with `regex::Regex::new` and
/// `regex::Regex::captures` and copies out the text of each group. The
/// contract only names the result: it is whatever the `regex` crate finds for
/// this pattern and text.
#[verifier::external_body]
pub(crate) fn captures(pattern: &str, text: &str) -> (groups: Option<Vec<Option<String>>>)
    ensures
        groups.deep_view() == regex_captures(pattern@, text@),
{
    match regex::Regex::new(pattern) {
        Ok(re) => re.captures(text).map(
            |found| found.iter().map(|group| group.map(|m| m.as_str().to_string())).collect(),
        ),
        Err(_) => None,
    }
}

/// The text of group `index` of a match, where the group took part in it.
pub open spec fn group_in(groups: Seq<Option<Seq<char>>>, index: int) -> Option<Seq<char>> {
    if 0 <= index < groups.len() {
        groups[index]
    } else {
        None
    }
}

/// The text of group `index`, where there was a match and the group took part.
pub open spec fn group_of(groups: Option<Seq<Option<Seq<char>>>>, index: int) -> Option<Seq<char>> {
    match groups {
        Some(list) => group_in(list, index),
        None => None,
    }
}

/// The text that group `index` of `pattern` captures in `text`.
pub open spec fn captured(pattern: Seq<char>, text: Seq<char>, index: int) -> Option<Seq<char>> {
    group_of(regex_captures(pattern, text), index)
}

/// The text, or the empty text where there is none.
pub open spec fn or_empty(text: Option<Seq<char>>) -> Seq<char> {
    match text {
        Some(t) => t,
        None => Seq::empty(),
    }
}

/// The text of group `index` of a match, where the group took part in it.
pub fn group_text(groups: &Vec<Option<String>>, index: usize) -> (text: Option<String>)
    ensures
        text.deep_view() == group_in(groups.deep_view(), index as int),
{
    if index < groups.len() {
        match &groups[index] {
            Some(t) => Some(t.clone()),
            None => None,
        }
    } else {
        None
    }
}

/// The text, or the empty text where there is none.
pub fn text_or_empty(text: Option<String>) -> (t: String)
    ensures
        t@ == or_empty(text.deep_view()),
{
    match text {
        Some(t) => t,
        None => String::new(),
    }
}

/// The text that group `index` of `pattern` captures in `text`.
pub fn capture(pattern: &str, text: &str, index: usize) -> (found: Option<String>)
    ensures
        found.deep_view() == captured(pattern@, text@, index as int),
{
    match captures(pattern, text) {
        Some(groups) => group_text(&groups, index),
        None => None,
    }
}

/// What a tag stands for in a class.
#[derive(Clone, Copy, Debug, PartialEq, Eq, Structural)]
pub enum TagKind {
    /// A `member`, `field` or `property`.
    Member,
    /// A `method` or `function`.
    Method,
}

/// The kind that a tag-kind text names, if it names a member or a method.
pub open spec fn tag_kind(text: Seq<char>) -> Option<TagKind> {
    if text == "member"@ || text == "field"@ || text == "property"@ {
        Some(TagKind::Member)
    } else if text == "method"@ || text == "function"@ {
        Some(TagKind::Method)
    } else {
        None
    }
}

impl TagKind {
    /// The kind that a tag-kind text names, if it names a member or a method.
    pub fn from_name(text: &str) -> (kind: Option<TagKind>)
        ensures
            kind == tag_kind(text@),
    {
        if same_text(text, "member") || same_text(text, "field") || same_text(text, "property") {
            Some(TagKind::Member)
        } else if same_text(text, "method") || same_text(text, "function") {
            Some(TagKind::Method)
        } else {
            None
        }
    }
}

/// The marker for an access level: `+` for `public`, `-` for `private`, `#`
/// for `protected`, nothing for anything else.
pub open spec fn access_marker(level: Seq<char>) -> Seq<char> {
    if level == "public"@ {
        "+"@
    } else if level == "private"@ {
        "-"@
    } else if level == "protected"@ {
        "#"@
    } else {
        Seq::empty()
    }
}

/// The marker for an access level.
pub fn access_marker_of(level: &str) -> (marker: String)
    ensures
        marker@ == access_marker(level@),
{
    if same_text(level, "public") {
        "+".to_owned()
    } else if same_text(level, "private") {
        "-".to_owned()
    } else if same_text(level, "protected") {
        "#".to_owned()
    } else {
        String::new()
    }
}

/// The last segment of a dotted path: the short name of the scope.
pub open spec fn last_segment(path: Seq<char>) -> Seq<char> {
    split_on(path, '.').last()
}

/// The last segment of a dotted path.
pub fn short_name(path: &str) -> (name: String)
    ensures
        name@ == last_segment(path@),
{
    let mut segments = split(path, '.');
    let ghost all = segments.deep_view();
    match segments.pop() {
        Some(name) => {
            assert(name@ == all.last());
            name
        },
        None => String::new(),
    }
}

/// The parameters in the text between the parentheses: its pieces between
/// commas, or none where the text is empty. A comma inside a parameter's own
/// type splits it too.
pub open spec fn split_parameter_text(list: Seq<char>) -> Seq<Seq<char>> {
    if list.len() == 0 {
        Seq::empty()
    } else {
        split_on(list, ',')
    }
}

/// The parameters in the text between the parentheses.
pub fn split_parameters(list: &str) -> (parameters: Vec<String>)
    ensures
        parameters.deep_view() == split_parameter_text(list@),
{
    if list.is_empty() {
        let none: Vec<String> = Vec::new();
        assert(none.deep_view() =~= Seq::empty());
        none
    } else {
        split(list, ',')
    }
}

/// The parameters of the first parenthesised list in a search pattern; none
/// where there is no such list.
pub open spec fn parameter_list(signature: Seq<char>) -> Seq<Seq<char>> {
    split_parameter_text(or_empty(captured(PARAMETER_PATTERN@, signature, PARAMETER_GROUP as int)))
}

impl CtagsParser {
    /// The parameters of the first parenthesised list in a search pattern.
    pub fn pick_parameter_list(signature: &str) -> (parameters: Vec<String>)
        ensures
            parameters.deep_view() == parameter_list(signature@),
    {
        let list = text_or_empty(capture(PARAMETER_PATTERN, signature, PARAMETER_GROUP));
        split_parameters(list.as_str())
    }
}

/// `c` is one of `0` to `9`.
pub open spec fn is_digit(c: char) -> bool {
    '0' <= c <= '9'
}

/// Every character is a digit.
pub open spec fn all_digits(text: Seq<char>) -> bool {
    forall|i: int| 0 <= i < text.len() ==> is_digit(#[trigger] text[i])
}

/// The number that a run of digits writes in base ten.
pub open spec fn decimal_value(digits: Seq<char>) -> int
    decreases digits.len(),
{
    if digits.len() == 0 {
        0
    } else {
        decimal_value(digits.drop_last()) * 10 + (digits.last() as int - '0' as int)
    }
}

/// The line number that a text writes: its value where it is a run of one or
/// more digits whose value fits 32 signed bits, else 0.
pub open spec fn line_number(text: Seq<char>) -> int {
    if text.len() > 0 && all_digits(text) && decimal_value(text) <= i32::MAX {
        decimal_value(text)
    } else {
        0
    }
}

/// A run of digits is worth at least as much as any beginning of it.
pub proof fn lemma_decimal_value_grows(digits: Seq<char>, k: int)
    requires
        all_digits(digits),
        0 <= k <= digits.len(),
    ensures
        0 <= decimal_value(digits.take(k)) <= decimal_value(digits),
    decreases digits.len() - k,
{
    if k == digits.len() {
        assert(digits.take(k) == digits);
        lemma_decimal_value_nonnegative(digits);
    } else {
        lemma_decimal_value_grows(digits, k + 1);
        let longer = digits.take(k + 1);
        assert(longer.drop_last() == digits.take(k));
        assert(longer.last() == digits[k]);
        assert(is_digit(digits[k]));
        lemma_decimal_value_nonnegative(digits.take(k));
    }
}

/// A run of digits is worth at least 0.
pub proof fn lemma_decimal_value_nonnegative(digits: Seq<char>)
    requires
        all_digits(digits),
    ensures
        0 <= decimal_value(digits),
    decreases digits.len(),
{
    if digits.len() > 0 {
        assert(is_digit(digits.last()));
        assert forall|i: int| 0 <= i < digits.drop_last().len() implies is_digit(
            #[trigger] digits.drop_last()[i],
        ) by {
            assert(digits.drop_last()[i] == digits[i]);
        }
        lemma_decimal_value_nonnegative(digits.drop_last());
    }
}

/// The line number that a text writes.
pub fn parse_line_number(text: &str) -> (number: i32)
    ensures
        number == line_number(text@),
{
    let digits = chars_of(text);
    if digits.len() == 0 {
        return 0;
    }
    let mut value: i64 = 0;
    let mut i: usize = 0;
    assert(digits@.take(0) =~= Seq::<char>::empty());
    while i < digits.len()
        invariant
            digits@ == text@,
            i <= digits.len(),
            all_digits(digits@.take(i as int)),
            value == decimal_value(digits@.take(i as int)),
            0 <= value <= i32::MAX,
        decreases digits.len() - i,
    {
        let c: char = digits[i];
        if !('0' <= c && c <= '9') {
            assert(!is_digit(digits@[i as int]));
            return 0;
        }
        proof {
            let longer = digits@.take(i + 1);
            assert(longer.drop_last() == digits@.take(i as int));
            assert(longer.last() == c);
            assert forall|j: int| 0 <= j < longer.len() implies is_digit(#[trigger] longer[j]) by {
                if j < i {
                    assert(longer[j] == digits@.take(i as int)[j]);
                }
            }
        }
        let digit: i64 = (c as u32 - '0' as u32) as i64;
        let next: i64 = value * 10 + digit;
        if next > 2147483647 {
            proof {
                if all_digits(digits@) {
                    lemma_decimal_value_grows(digits@, i + 1);
                }
            }
            return 0;
        }
        value = next;
        i += 1;
    }
    assert(digits@.take(digits.len() as int) == digits@);
    value as i32
}

} // verus!
