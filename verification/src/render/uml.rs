//! The text that the PlantUML and the Mermaid renderer share: inheritance
//! lines, class blocks and dependency lines, all indented by one unit.

use vstd::prelude::*;
use vstd::string::*;
use crate::coco_struct::{ClassInfo, ClassModel};
use crate::parse_option::{OptionModel, ParseOption};
use crate::render::dependency::{body_lines, class_parts, dependencies, lemma_empty_class};
use crate::render::{display_name, known_names, known_names_of, process_name};
use crate::text::{concat_all, concat_strings};

verus! {

/// The line that says that `child` inherits from `parent`.
pub open spec fn parent_line(parent: Seq<char>, child: Seq<char>, space: Seq<char>) -> Seq<char> {
    space + parent + " <|-- "@ + child
}

/// One inheritance line for each parent of the class, in the order of its
/// parents; none where inheritance is not shown.
pub open spec fn parent_lines(class: ClassModel, space: Seq<char>, option: OptionModel) -> Seq<Seq<char>> {
    if option.without_parent {
        Seq::empty()
    } else {
        class.parents.map_values(
            |parent: Seq<char>| parent_line(parent, display_name(option, class.name), space),
        )
    }
}

/// The block of a class: its shown name, and between braces the lines of
/// its body.
pub open spec fn class_block(
    class: ClassModel,
    space: Seq<char>,
    option: OptionModel,
    known: Seq<Seq<char>>,
) -> Seq<char> {
    space + "class "@ + display_name(option, class.name) + " {\n"@ + concat_all(
        body_lines(class, space, option, known),
    ) + space + "}"@
}

/// What a class contributes above the dependency lines: its inheritance
/// lines, then its block.
pub open spec fn class_entries(
    class: ClassModel,
    space: Seq<char>,
    option: OptionModel,
    known: Seq<Seq<char>>,
) -> Seq<Seq<char>> {
    parent_lines(class, space, option).push(class_block(class, space, option, known))
}

/// The entries of all the classes, in the order of the list.
pub open spec fn entries(
    classes: Seq<ClassModel>,
    space: Seq<char>,
    option: OptionModel,
    known: Seq<Seq<char>>,
) -> Seq<Seq<char>>
    decreases classes.len(),
{
    if classes.len() == 0 {
        Seq::empty()
    } else {
        entries(classes.drop_last(), space, option, known) + class_entries(
            classes.last(),
            space,
            option,
            known,
        )
    }
}

/// The line that says that `owner` depends on `target`.
pub open spec fn edge_line(owner: Seq<char>, target: Seq<char>, space: Seq<char>) -> Seq<char> {
    space + owner + " -- "@ + target + "\n"@
}

/// One line for each dependency of the class.
pub open spec fn edge_lines(
    class: ClassModel,
    space: Seq<char>,
    option: OptionModel,
    known: Seq<Seq<char>>,
) -> Seq<Seq<char>> {
    dependencies(class, option, known).map_values(
        |target: Seq<char>| edge_line(display_name(option, class.name), target, space),
    )
}

/// The dependency lines of all the classes, in the order of the list. Two
/// classes that depend on each other give two lines.
pub open spec fn edges(
    classes: Seq<ClassModel>,
    space: Seq<char>,
    option: OptionModel,
    known: Seq<Seq<char>>,
) -> Seq<Seq<char>>
    decreases classes.len(),
{
    if classes.len() == 0 {
        Seq::empty()
    } else {
        edges(classes.drop_last(), space, option, known) + edge_lines(
            classes.last(),
            space,
            option,
            known,
        )
    }
}

/// The block of a class without members and methods has nothing between
/// its braces, at any indentation, and the class has no dependency lines.
pub proof fn lemma_empty_class_block(
    class: ClassModel,
    space: Seq<char>,
    option: OptionModel,
    known: Seq<Seq<char>>,
)
    requires
        class.members.len() == 0,
        class.methods.len() == 0,
    ensures
        class_block(class, space, option, known) == space + "class "@ + display_name(
            option,
            class.name,
        ) + " {\n"@ + space + "}"@,
        edge_lines(class, space, option, known) == Seq::<Seq<char>>::empty(),
{
    lemma_empty_class(class, space, option, known);
    let head = space + "class "@ + display_name(option, class.name) + " {\n"@;
    assert(head + Seq::<char>::empty() =~= head);
    assert(edge_lines(class, space, option, known) =~= Seq::<Seq<char>>::empty());
}

/// The entries and the dependency lines of a diagram.
pub struct UmlParts {
    pub entries: Vec<String>,
    pub edges: Vec<String>,
}

/// Adds the inheritance lines of `clazz` to `entries`.
pub fn push_parent_lines(
    entries: &mut Vec<String>,
    clazz: &ClassInfo,
    space: &str,
    parse_option: &ParseOption,
)
    ensures
        final(entries).deep_view() == old(entries).deep_view() + parent_lines(
            clazz@,
            space@,
            parse_option@,
        ),
{
    assert(entries.deep_view() + Seq::<Seq<char>>::empty() =~= entries.deep_view());
    if parse_option.without_parent {
        return;
    }
    let child = process_name(parse_option, clazz.name.as_str());
    let ghost lines = parent_lines(clazz@, space@, parse_option@);
    let mut i: usize = 0;
    assert(lines.take(0) =~= Seq::empty());
    while i < clazz.parents.len()
        invariant
            !parse_option.without_parent,
            child@ == display_name(parse_option@, clazz@.name),
            lines == parent_lines(clazz@, space@, parse_option@),
            i <= clazz.parents.len(),
            entries.deep_view() == old(entries).deep_view() + lines.take(i as int),
        decreases clazz.parents.len() - i,
    {
        let mut line = space.to_owned();
        line.append(clazz.parents[i].as_str());
        line.append(" <|-- ");
        line.append(child.as_str());
        assert(line@ == lines[i as int]);
        let ghost before = entries.deep_view();
        entries.push(line);
        assert(entries.deep_view() =~= before.push(line@));
        assert(lines.take(i + 1) =~= lines.take(i as int).push(lines[i as int]));
        i += 1;
    }
    assert(lines.take(clazz.parents.len() as int) == lines);
}

/// The entries and the dependency lines for `classes`, indented by `space`.
pub fn uml_parts(classes: &[ClassInfo], space: &str, parse_option: &ParseOption) -> (parts: UmlParts)
    ensures
        parts.entries.deep_view() == entries(
            classes.deep_view(),
            space@,
            parse_option@,
            known_names(classes.deep_view(), parse_option@),
        ),
        parts.edges.deep_view() == edges(
            classes.deep_view(),
            space@,
            parse_option@,
            known_names(classes.deep_view(), parse_option@),
        ),
{
    let class_map = known_names_of(classes, parse_option);
    let ghost all = classes.deep_view();
    let ghost known = class_map.deep_view();
    let mut rendered: Vec<String> = Vec::new();
    let mut deps: Vec<String> = Vec::new();
    let mut i: usize = 0;
    assert(all.take(0) =~= Seq::empty());
    assert(rendered.deep_view() =~= Seq::empty());
    assert(deps.deep_view() =~= Seq::empty());
    while i < classes.len()
        invariant
            all == classes.deep_view(),
            known == class_map.deep_view(),
            known == known_names(all, parse_option@),
            i <= classes.len(),
            rendered.deep_view() == entries(all.take(i as int), space@, parse_option@, known),
            deps.deep_view() == edges(all.take(i as int), space@, parse_option@, known),
        decreases classes.len() - i,
    {
        let clazz = &classes[i];
        assert(clazz@ == all[i as int]);
        proof {
            let upto = all.take(i + 1);
            assert(upto.drop_last() == all.take(i as int));
            assert(upto.last() == clazz@);
        }
        let parts = class_parts(clazz, space, parse_option, &class_map);
        let class_name = process_name(parse_option, clazz.name.as_str());
        push_parent_lines(&mut rendered, clazz, space, parse_option);
        let mut block = space.to_owned();
        block.append("class ");
        block.append(class_name.as_str());
        block.append(" {\n");
        block.append(concat_strings(&parts.body).as_str());
        block.append(space);
        block.append("}");
        assert(block@ == class_block(clazz@, space@, parse_option@, known));
        let ghost before = rendered.deep_view();
        rendered.push(block);
        assert(rendered.deep_view() =~= before.push(block@));
        assert(rendered.deep_view() =~= entries(all.take(i as int), space@, parse_option@, known)
            + class_entries(clazz@, space@, parse_option@, known));
        let ghost lines = edge_lines(clazz@, space@, parse_option@, known);
        let ghost deps_before = deps.deep_view();
        let mut k: usize = 0;
        assert(lines.take(0) =~= Seq::empty());
        assert(deps_before + Seq::<Seq<char>>::empty() =~= deps_before);
        while k < parts.dependencies.len()
            invariant
                class_name@ == display_name(parse_option@, clazz@.name),
                parts.dependencies.deep_view() == dependencies(clazz@, parse_option@, known),
                lines == edge_lines(clazz@, space@, parse_option@, known),
                k <= parts.dependencies.len(),
                deps.deep_view() == deps_before + lines.take(k as int),
            decreases parts.dependencies.len() - k,
        {
            assert(parts.dependencies.deep_view()[k as int] == parts.dependencies@[k as int]@);
            let mut line = space.to_owned();
            line.append(class_name.as_str());
            line.append(" -- ");
            line.append(parts.dependencies[k].as_str());
            line.append("\n");
            assert(line@ == lines[k as int]);
            let ghost before = deps.deep_view();
            deps.push(line);
            assert(deps.deep_view() =~= before.push(line@));
            assert(lines.take(k + 1) =~= lines.take(k as int).push(lines[k as int]));
            k += 1;
        }
        assert(lines.take(parts.dependencies.len() as int) == lines);
        i += 1;
    }
    assert(all.take(classes.len() as int) == all);
    UmlParts { entries: rendered, edges: deps }
}

} // verus!
