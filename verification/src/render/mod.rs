//! Rendering a list of classes: the names and types as they are shown, the
//! lines of members and methods, and the dependencies between classes. The
//! three renderers share what stands here.

pub mod dependency;
pub mod graphviz_render;
pub mod mermaid_render;
pub mod plantuml_render;
pub mod uml;

pub use graphviz_render::GraphvizRender;
pub use mermaid_render::MermaidRender;
pub use plantuml_render::PlantUmlRender;

use vstd::prelude::*;
use vstd::string::*;
use crate::coco_struct::{ClassInfo, ClassModel, MemberInfo, MemberModel, MethodModel};
use crate::parse_option::{OptionModel, ParseOption};
use crate::text::{
    byte_len, byte_length, chars_of, ends_with, has_suffix, holds_text, substring, without_last,
};

verus! {

/// Whether Unicode counts the character as an uppercase letter, as
/// `char::is_uppercase` tells.
pub uninterp spec fn is_uppercase_letter(c: char) -> bool;

/// Calls `char::is_uppercase`. The contract only names the result.
#[verifier::external_body]
pub(crate) fn is_uppercase(c: char) -> (upper: bool)
    ensures
        upper == is_uppercase_letter(c),
{
    c.is_uppercase()
}

/// Rendering depends on nothing but the classes and the options as plain
/// values: two lists that hold the same classes, under options that say the
/// same, give the same text and the same graph in every renderer.
pub proof fn lemma_rendering_is_deterministic(
    first: Vec<ClassInfo>,
    second: Vec<ClassInfo>,
    first_option: ParseOption,
    second_option: ParseOption,
)
    requires
        first.deep_view() == second.deep_view(),
        first_option@ == second_option@,
    ensures
        plantuml_render::plantuml_text(first.deep_view(), first_option@)
            == plantuml_render::plantuml_text(second.deep_view(), second_option@),
        mermaid_render::mermaid_text(first.deep_view(), first_option@)
            == mermaid_render::mermaid_text(second.deep_view(), second_option@),
        graphviz_render::graphviz_text(first.deep_view(), first_option@)
            == graphviz_render::graphviz_text(second.deep_view(), second_option@),
        graphviz_render::graph_data(first.deep_view(), first_option@)
            == graphviz_render::graph_data(second.deep_view(), second_option@),
{
}

/// A name as it is shown: without the configured suffix, where one is
/// configured and the name ends with it.
pub open spec fn display_name(option: OptionModel, name: Seq<char>) -> Seq<char> {
    if option.without_suffix.len() > 0 && has_suffix(name, option.without_suffix) {
        without_last(name, option.without_suffix.len())
    } else {
        name
    }
}

/// A name as it is shown.
pub fn process_name(parse_option: &ParseOption, name: &str) -> (shown: String)
    ensures
        shown@ == display_name(parse_option@, name@),
{
    let suffix = parse_option.without_suffix.as_str();
    if !suffix.is_empty() && ends_with(name, suffix) {
        let length: usize = name.unicode_len();
        let cut: usize = suffix.unicode_len();
        substring(name, 0, length - cut)
    } else {
        name.to_owned()
    }
}

/// The names that dependencies may point to: the shown name of each class.
pub open spec fn known_names(classes: Seq<ClassModel>, option: OptionModel) -> Seq<Seq<char>> {
    classes.map_values(|class: ClassModel| display_name(option, class.name))
}

/// The names that dependencies may point to.
pub fn known_names_of(classes: &[ClassInfo], parse_option: &ParseOption) -> (names: Vec<String>)
    ensures
        names.deep_view() == known_names(classes.deep_view(), parse_option@),
        names.len() == classes.len(),
{
    let mut names: Vec<String> = Vec::new();
    let mut i: usize = 0;
    while i < classes.len()
        invariant
            i <= classes.len(),
            names.len() == i,
            forall|j: int|
                0 <= j < i ==> names@[j]@ == display_name(parse_option@, classes@[j]@.name),
        decreases classes.len() - i,
    {
        names.push(process_name(parse_option, classes[i].name.as_str()));
        i += 1;
    }
    assert(names.deep_view() =~= known_names(classes.deep_view(), parse_option@));
    names
}

/// A declared type without the `I` that marks an interface: where the type
/// is longer in bytes than `Id`, begins with `I` and has an uppercase letter
/// next, that `I` is left out. Anything else stays.
pub open spec fn without_interface_prefix(data_type: Seq<char>) -> Seq<char> {
    if byte_len(data_type) > byte_len("Id"@) && data_type.len() >= 2
        && data_type[0] == 'I' && is_uppercase_letter(data_type[1]) {
        data_type.drop_first()
    } else {
        data_type
    }
}

/// A declared type without the `I` that marks an interface.
pub fn strip_interface_prefix(data_type: &str) -> (shown: String)
    ensures
        shown@ == without_interface_prefix(data_type@),
{
    if byte_length(data_type) > byte_length("Id") {
        let chars = chars_of(data_type);
        if chars.len() >= 2 && chars[0] == 'I' && is_uppercase(chars[1]) {
            assert(data_type@.drop_first() == data_type@.subrange(1, data_type@.len() as int));
            return substring(data_type, 1, chars.len());
        }
    }
    data_type.to_owned()
}

/// What is left of `name` before `ending`, where the name ends with it, is
/// longer than it, and what is left is one of the `known` names.
pub open spec fn known_before(name: Seq<char>, ending: Seq<char>, known: Seq<Seq<char>>) -> Option<Seq<char>> {
    if has_suffix(name, ending) && name.len() > ending.len() && known.contains(
        without_last(name, ending.len()),
    ) {
        Some(without_last(name, ending.len()))
    } else {
        None
    }
}

/// The class that a member's name refers to as a foreign key: for a name
/// `ClassIds` or `ClassId`, the known name `Class`.
pub open spec fn referred_class(name: Seq<char>, known: Seq<Seq<char>>) -> Option<Seq<char>> {
    match known_before(name, "Ids"@, known) {
        Some(class) => Some(class),
        None => known_before(name, "Id"@, known),
    }
}

/// What is left of `name` before `ending`, where that is a known name.
pub fn find_known_before(name: &str, ending: &str, known: &Vec<String>) -> (class: Option<String>)
    ensures
        class.deep_view() == known_before(name@, ending@, known.deep_view()),
{
    let length: usize = name.unicode_len();
    let cut: usize = ending.unicode_len();
    if ends_with(name, ending) && length > cut {
        let rest = substring(name, 0, length - cut);
        if holds_text(known, rest.as_str()) {
            return Some(rest);
        }
    }
    None
}

/// The class that a member's name refers to as a foreign key.
pub fn find_referred_class(name: &str, known: &Vec<String>) -> (class: Option<String>)
    ensures
        class.deep_view() == referred_class(name@, known.deep_view()),
{
    match find_known_before(name, "Ids", known) {
        Some(class) => Some(class),
        None => find_known_before(name, "Id", known),
    }
}

/// The type that a member is shown with: the class its name refers to as a
/// foreign key, where that is switched on and there is one; else its
/// declared type, without the interface prefix where that is switched on.
pub open spec fn shown_type(member: MemberModel, option: OptionModel, known: Seq<Seq<char>>) -> Seq<char> {
    let declared = if option.without_impl_suffix {
        without_interface_prefix(member.data_type)
    } else {
        member.data_type
    };
    if option.inline_id_suffix {
        match referred_class(display_name(option, member.name), known) {
            Some(class) => class,
            None => declared,
        }
    } else {
        declared
    }
}

/// The type that a member is shown with.
pub fn shown_type_of(member: &MemberInfo, parse_option: &ParseOption, known: &Vec<String>) -> (shown: String)
    ensures
        shown@ == shown_type(member@, parse_option@, known.deep_view()),
{
    let declared = if parse_option.without_impl_suffix {
        strip_interface_prefix(member.data_type.as_str())
    } else {
        member.data_type.clone()
    };
    if parse_option.inline_id_suffix {
        let name = process_name(parse_option, member.name.as_str());
        match find_referred_class(name.as_str(), known) {
            Some(class) => class,
            None => declared,
        }
    } else {
        declared
    }
}

/// The line that shows a member: indentation, access marker, type and name;
/// without a declared type, only the marker and the name.
pub open spec fn member_line(
    member: MemberModel,
    space: Seq<char>,
    option: OptionModel,
    known: Seq<Seq<char>>,
) -> Seq<char> {
    let name = display_name(option, member.name);
    if member.data_type.len() == 0 {
        space + "  "@ + member.access + name + "\n"@
    } else {
        space + "  "@ + member.access + " "@ + shown_type(member, option, known) + " "@ + name
            + "\n"@
    }
}

/// The type that a member depends on: its inner type where it has one, else
/// the type it is shown with; none for a member without a declared type.
pub open spec fn member_target(member: MemberModel, option: OptionModel, known: Seq<Seq<char>>) -> Option<Seq<char>> {
    if member.data_type.len() == 0 {
        None
    } else if member.pure_data_type.len() > 0 {
        Some(member.pure_data_type)
    } else {
        Some(shown_type(member, option, known))
    }
}

/// The line of each member, in order.
pub open spec fn member_lines(
    members: Seq<MemberModel>,
    space: Seq<char>,
    option: OptionModel,
    known: Seq<Seq<char>>,
) -> Seq<Seq<char>> {
    members.map_values(|member: MemberModel| member_line(member, space, option, known))
}

/// The types that the members depend on, in the order of the members.
pub open spec fn member_targets(members: Seq<MemberModel>, option: OptionModel, known: Seq<Seq<char>>) -> Seq<Seq<char>>
    decreases members.len(),
{
    if members.len() == 0 {
        Seq::empty()
    } else {
        let before = member_targets(members.drop_last(), option, known);
        match member_target(members.last(), option, known) {
            Some(target) => before.push(target),
            None => before,
        }
    }
}

/// The line that shows a method: indentation, access marker, return type,
/// name and `()`; without a return type, only the marker, the name and `()`.
pub open spec fn method_line(method: MethodModel, space: Seq<char>, option: OptionModel) -> Seq<char> {
    let name = display_name(option, method.name);
    if method.return_type.len() == 0 {
        space + "  "@ + method.access + name + "()\n"@
    } else {
        space + "  "@ + method.access + " "@ + method.return_type + " "@ + name + "()\n"@
    }
}

/// The type that a method depends on: its inner return type where it has
/// one, else its return type; none for a method without a return type.
pub open spec fn method_target(method: MethodModel) -> Option<Seq<char>> {
    if method.return_type.len() == 0 {
        None
    } else if method.pure_return_type.len() > 0 {
        Some(method.pure_return_type)
    } else {
        Some(method.return_type)
    }
}

/// The line of each method, in order.
pub open spec fn method_lines(methods: Seq<MethodModel>, space: Seq<char>, option: OptionModel) -> Seq<Seq<char>> {
    methods.map_values(|method: MethodModel| method_line(method, space, option))
}

/// The types that the methods depend on, in the order of the methods.
pub open spec fn method_targets(methods: Seq<MethodModel>) -> Seq<Seq<char>>
    decreases methods.len(),
{
    if methods.len() == 0 {
        Seq::empty()
    } else {
        let before = method_targets(methods.drop_last());
        match method_target(methods.last()) {
            Some(target) => before.push(target),
            None => before,
        }
    }
}

/// The lines of the members of `clazz`, each indented by `space`. The type
/// that each member depends on is added to `dep_map`; `class_map` holds the
/// shown names of the classes.
pub fn render_member(
    clazz: &ClassInfo,
    dep_map: &mut Vec<String>,
    space: &str,
    parse_option: &ParseOption,
    class_map: &Vec<String>,
) -> (members: Vec<String>)
    ensures
        members.deep_view() == member_lines(
            clazz@.members,
            space@,
            parse_option@,
            class_map.deep_view(),
        ),
        final(dep_map).deep_view() == old(dep_map).deep_view() + member_targets(
            clazz@.members,
            parse_option@,
            class_map.deep_view(),
        ),
{
    let ghost known = class_map.deep_view();
    let ghost all = clazz@.members;
    let mut members: Vec<String> = Vec::new();
    let mut i: usize = 0;
    assert(all.take(0) =~= Seq::empty());
    assert(old(dep_map).deep_view() + Seq::<Seq<char>>::empty() =~= old(dep_map).deep_view());
    while i < clazz.members.len()
        invariant
            known == class_map.deep_view(),
            all == clazz@.members,
            i <= clazz.members.len(),
            members.len() == i,
            forall|j: int|
                0 <= j < i ==> members@[j]@ == member_line(all[j], space@, parse_option@, known),
            dep_map.deep_view() == old(dep_map).deep_view() + member_targets(
                all.take(i as int),
                parse_option@,
                known,
            ),
        decreases clazz.members.len() - i,
    {
        let member = &clazz.members[i];
        assert(member@ == all[i as int]);
        proof {
            let upto = all.take(i + 1);
            assert(upto.drop_last() == all.take(i as int));
            assert(upto.last() == member@);
        }
        let name = process_name(parse_option, member.name.as_str());
        let mut line = space.to_owned();
        line.append("  ");
        line.append(member.access.as_str());
        if member.data_type.as_str().is_empty() {
            line.append(name.as_str());
            line.append("\n");
        } else {
            let data_type = shown_type_of(member, parse_option, class_map);
            line.append(" ");
            line.append(data_type.as_str());
            line.append(" ");
            line.append(name.as_str());
            line.append("\n");
            let ghost before = dep_map.deep_view();
            if member.pure_data_type.as_str().is_empty() {
                dep_map.push(data_type);
            } else {
                dep_map.push(member.pure_data_type.clone());
            }
            assert(dep_map.deep_view() =~= before.push(
                member_target(member@, parse_option@, known).unwrap(),
            ));
        }
        members.push(line);
        i += 1;
    }
    assert(all.take(clazz.members.len() as int) == all);
    assert(members.deep_view() =~= member_lines(all, space@, parse_option@, known));
    members
}

/// The lines of the methods of `clazz`, each indented by `space`. The type
/// that each method depends on is added to `dep_map`.
pub fn render_method(
    clazz: &ClassInfo,
    dep_map: &mut Vec<String>,
    space: &str,
    parse_option: &ParseOption,
) -> (methods: Vec<String>)
    ensures
        methods.deep_view() == method_lines(clazz@.methods, space@, parse_option@),
        final(dep_map).deep_view() == old(dep_map).deep_view() + method_targets(clazz@.methods),
{
    let ghost all = clazz@.methods;
    let mut methods: Vec<String> = Vec::new();
    let mut i: usize = 0;
    assert(all.take(0) =~= Seq::empty());
    assert(old(dep_map).deep_view() + Seq::<Seq<char>>::empty() =~= old(dep_map).deep_view());
    while i < clazz.methods.len()
        invariant
            all == clazz@.methods,
            i <= clazz.methods.len(),
            methods.len() == i,
            forall|j: int| 0 <= j < i ==> methods@[j]@ == method_line(all[j], space@, parse_option@),
            dep_map.deep_view() == old(dep_map).deep_view() + method_targets(all.take(i as int)),
        decreases clazz.methods.len() - i,
    {
        let method = &clazz.methods[i];
        assert(method@ == all[i as int]);
        proof {
            let upto = all.take(i + 1);
            assert(upto.drop_last() == all.take(i as int));
            assert(upto.last() == method@);
        }
        let name = process_name(parse_option, method.name.as_str());
        let mut line = space.to_owned();
        line.append("  ");
        line.append(method.access.as_str());
        if method.return_type.as_str().is_empty() {
            line.append(name.as_str());
            line.append("()\n");
        } else {
            line.append(" ");
            line.append(method.return_type.as_str());
            line.append(" ");
            line.append(name.as_str());
            line.append("()\n");
            let ghost before = dep_map.deep_view();
            if method.pure_return_type.as_str().is_empty() {
                dep_map.push(method.return_type.clone());
            } else {
                dep_map.push(method.pure_return_type.clone());
            }
            assert(dep_map.deep_view() =~= before.push(method_target(method@).unwrap()));
        }
        methods.push(line);
        i += 1;
    }
    assert(all.take(clazz.methods.len() as int) == all);
    assert(methods.deep_view() =~= method_lines(all, space@, parse_option@));
    methods
}

} // verus!
