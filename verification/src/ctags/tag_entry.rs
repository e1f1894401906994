//! What one tag line says of a member or a method.

use vstd::prelude::*;
use crate::coco_struct::{MemberInfo, MemberModel, MethodInfo, MethodModel};
use crate::ctags::ctags_parser::CtagsParser;
use crate::ctags::tag_line::{
    access_marker, access_marker_of, capture, captured, captures, group_in, group_text,
    last_segment, line_number, or_empty, parameter_list, parse_line_number, regex_captures,
    short_name, tag_kind, text_or_empty, TagKind, ACCESS_GROUP, ACCESS_PATTERN, ENTRY_KIND_GROUP,
    ENTRY_LINE_GROUP, ENTRY_NAME_GROUP, ENTRY_PATTERN, ENTRY_SIGNATURE_GROUP, LANGUAGE_GROUP,
    LANGUAGE_PATTERN, OWNER_GROUP, OWNER_PATTERN,
};
use crate::ctags::type_rules::{declared_type, language_of, read_declared_type, Language};

verus! {

/// A member or method as its tag line gives it.
#[derive(Debug)]
pub struct TagEntry {
    pub name: String,
    pub kind: TagKind,
    pub line_no: i32,
    /// The dotted path of the owning scope; empty where the line names none.
    pub owner: String,
    /// `+`, `-`, `#` or empty.
    pub access: String,
    /// The value of the `language:` annotation; empty where there is none.
    pub language: String,
    /// The declared type, or return type; empty where unknown.
    pub data_type: String,
    /// The type inside a generic or container type; empty where there is none.
    pub pure_data_type: String,
    /// The parameters of a method; none for a member.
    pub parameters: Vec<String>,
}

/// A tag entry as plain values.
pub struct TagEntryModel {
    pub name: Seq<char>,
    pub kind: TagKind,
    pub line_no: int,
    pub owner: Seq<char>,
    pub access: Seq<char>,
    pub language: Seq<char>,
    pub data_type: Seq<char>,
    pub pure_data_type: Seq<char>,
    pub parameters: Seq<Seq<char>>,
}

impl View for TagEntry {
    type V = TagEntryModel;

    open spec fn view(&self) -> TagEntryModel {
        TagEntryModel {
            name: self.name@,
            kind: self.kind,
            line_no: self.line_no as int,
            owner: self.owner@,
            access: self.access@,
            language: self.language@,
            data_type: self.data_type@,
            pure_data_type: self.pure_data_type@,
            parameters: self.parameters.deep_view(),
        }
    }
}

impl TagEntryModel {
    /// The member that the entry describes.
    pub open spec fn member(self) -> MemberModel {
        MemberModel {
            name: self.name,
            access: self.access,
            data_type: self.data_type,
            pure_data_type: self.pure_data_type,
            line_no: self.line_no,
        }
    }

    /// The method that the entry describes.
    pub open spec fn method(self) -> MethodModel {
        MethodModel {
            name: self.name,
            access: self.access,
            parameters: self.parameters,
            return_type: self.data_type,
            pure_return_type: self.pure_data_type,
            line_no: self.line_no,
        }
    }
}

impl TagEntry {
    /// The member that the entry describes.
    pub fn into_member(self) -> (member: MemberInfo)
        ensures
            member@ == self@.member(),
    {
        MemberInfo {
            name: self.name,
            access: self.access,
            data_type: self.data_type,
            pure_data_type: self.pure_data_type,
            line_no: self.line_no,
        }
    }

    /// The method that the entry describes.
    pub fn into_method(self) -> (method: MethodInfo)
        ensures
            method@ == self@.method(),
    {
        MethodInfo {
            name: self.name,
            access: self.access,
            parameters: self.parameters,
            return_type: self.data_type,
            pure_return_type: self.pure_data_type,
            line_no: self.line_no,
        }
    }
}

/// The entry of kind `kind` that `line` describes, given the groups that
/// `ENTRY_PATTERN` captured in it.
///
/// The owner, the access level and the language come from their annotations;
/// the declared type from the rule of the language. Where that rule reads an
/// access marker from the declaration, it replaces the annotated one. Only a
/// method has parameters.
pub open spec fn entry_of(groups: Seq<Option<Seq<char>>>, kind: TagKind, line: Seq<char>) -> TagEntryModel {
    let owner = or_empty(captured(OWNER_PATTERN@, line, OWNER_GROUP as int));
    let language = or_empty(captured(LANGUAGE_PATTERN@, line, LANGUAGE_GROUP as int));
    let found = declared_type(language_of(language), line, last_segment(owner));
    let annotated = access_marker(or_empty(captured(ACCESS_PATTERN@, line, ACCESS_GROUP as int)));
    TagEntryModel {
        name: or_empty(group_in(groups, ENTRY_NAME_GROUP as int)),
        kind,
        line_no: line_number(or_empty(group_in(groups, ENTRY_LINE_GROUP as int))),
        owner,
        access: match found.access {
            Some(marker) => marker,
            None => annotated,
        },
        language,
        data_type: found.data_type,
        pure_data_type: found.pure_data_type,
        parameters: match kind {
            TagKind::Method => parameter_list(
                or_empty(group_in(groups, ENTRY_SIGNATURE_GROUP as int)),
            ),
            TagKind::Member => Seq::empty(),
        },
    }
}

/// The member or method that `line` describes: none where the line is not a
/// tag with a line number, or its kind is neither a member's nor a method's.
pub open spec fn tag_entry(line: Seq<char>) -> Option<TagEntryModel> {
    match regex_captures(ENTRY_PATTERN@, line) {
        Some(groups) => match tag_kind(or_empty(group_in(groups, ENTRY_KIND_GROUP as int))) {
            Some(kind) => Some(entry_of(groups, kind, line)),
            None => None,
        },
        None => None,
    }
}

impl TagEntry {
    /// The entry of kind `kind` that `line` describes, given the groups that
    /// `ENTRY_PATTERN` captured in it.
    pub fn from_groups(groups: Vec<Option<String>>, kind: TagKind, line: &str) -> (entry: TagEntry)
        ensures
            entry@ == entry_of(groups.deep_view(), kind, line@),
    {
        let owner = text_or_empty(capture(OWNER_PATTERN, line, OWNER_GROUP));
        let language = text_or_empty(capture(LANGUAGE_PATTERN, line, LANGUAGE_GROUP));
        let class_name = short_name(owner.as_str());
        let found = read_declared_type(
            Language::from_name(language.as_str()),
            line,
            class_name.as_str(),
        );
        let level = text_or_empty(capture(ACCESS_PATTERN, line, ACCESS_GROUP));
        let annotated = access_marker_of(level.as_str());
        let line_text = text_or_empty(group_text(&groups, ENTRY_LINE_GROUP));
        let parameters = match kind {
            TagKind::Method => {
                let signature = text_or_empty(group_text(&groups, ENTRY_SIGNATURE_GROUP));
                CtagsParser::pick_parameter_list(signature.as_str())
            },
            TagKind::Member => {
                let none: Vec<String> = Vec::new();
                assert(none.deep_view() =~= Seq::empty());
                none
            },
        };
        TagEntry {
            name: text_or_empty(group_text(&groups, ENTRY_NAME_GROUP)),
            kind,
            line_no: parse_line_number(line_text.as_str()),
            owner,
            access: match found.access {
                Some(marker) => marker,
                None => annotated,
            },
            language,
            data_type: found.data_type,
            pure_data_type: found.pure_data_type,
            parameters,
        }
    }

    /// The member or method that `line` describes, if it describes one.
    pub fn read(line: &str) -> (entry: Option<TagEntry>)
        ensures
            entry is Some == tag_entry(line@) is Some,
            entry matches Some(e) ==> Some(e@) == tag_entry(line@),
    {
        match captures(ENTRY_PATTERN, line) {
            Some(groups) => {
                let kind_text = text_or_empty(group_text(&groups, ENTRY_KIND_GROUP));
                match TagKind::from_name(kind_text.as_str()) {
                    Some(kind) => Some(TagEntry::from_groups(groups, kind, line)),
                    None => None,
                }
            },
            None => None,
        }
    }
}

} // verus!
