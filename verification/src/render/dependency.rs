//! The dependencies of a class: the other classes that the types of its
//! members and methods name.

use vstd::prelude::*;
use crate::coco_struct::{ClassInfo, ClassModel};
use crate::parse_option::{OptionModel, ParseOption};
use crate::render::{
    display_name, member_targets, method_targets, process_name, render_member,
    render_method,
};
use crate::sorting::{
    as_ints, collapse, collapse_order, lemma_collapse_equal_keys, lemma_collapse_keeps_order,
    lemma_sorted_order_sorts, lex_lt, positions_below, reorder, sorted_order, stable_order,
};
use crate::text::{holds_text, same_text};

verus! {

/// The types that a class depends on, as they come: those of its members,
/// then, unless only fields count, those of its methods.
pub open spec fn dependency_keys(class: ClassModel, option: OptionModel, known: Seq<Seq<char>>) -> Seq<Seq<char>> {
    member_targets(class.members, option, known) + if option.field_only {
        Seq::empty()
    } else {
        method_targets(class.methods)
    }
}

/// The keys in ascending order, each once.
pub open spec fn distinct_sorted(keys: Seq<Seq<char>>) -> Seq<Seq<char>> {
    reorder(keys, collapse(sorted_order(keys), keys, false))
}

/// The targets that are kept: those that are known names and are not the
/// owner itself.
pub open spec fn retained(targets: Seq<Seq<char>>, owner: Seq<char>, known: Seq<Seq<char>>) -> Seq<Seq<char>>
    decreases targets.len(),
{
    if targets.len() == 0 {
        Seq::empty()
    } else {
        let before = retained(targets.drop_last(), owner, known);
        if targets.last() != owner && known.contains(targets.last()) {
            before.push(targets.last())
        } else {
            before
        }
    }
}

/// The classes that `class` depends on, by their shown names: each type
/// that a member or method names, once and in ascending order, where it is
/// the shown name of a class of the list and not that of `class` itself.
pub open spec fn dependencies(class: ClassModel, option: OptionModel, known: Seq<Seq<char>>) -> Seq<Seq<char>> {
    retained(
        distinct_sorted(dependency_keys(class, option, known)),
        display_name(option, class.name),
        known,
    )
}

/// The texts ascend strictly: each comes before the next, so none occurs
/// twice.
pub open spec fn ascending(texts: Seq<Seq<char>>) -> bool {
    forall|a: int, b: int| 0 <= a < b < texts.len() ==> lex_lt(#[trigger] texts[a], #[trigger] texts[b])
}

/// The distinct sorted keys ascend strictly and are the keys: each of them
/// is a key, and each key is one of them.
pub proof fn lemma_distinct_sorted(keys: Seq<Seq<char>>)
    ensures
        ascending(distinct_sorted(keys)),
        forall|t: Seq<char>| #[trigger] distinct_sorted(keys).contains(t) <==> keys.contains(t),
{
    let order = sorted_order(keys);
    let kept = collapse(order, keys, false);
    let sorted = distinct_sorted(keys);
    lemma_sorted_order_sorts(keys, keys.len());
    lemma_collapse_keeps_order(order, keys, false, keys);
    lemma_collapse_equal_keys(order, keys);
    assert forall|i: int| 0 <= i < kept.len() implies 0 <= #[trigger] kept[i] < keys.len() by {
        let j = choose|j: int| 0 <= j < order.len() && order[j] == kept[i];
        assert(0 <= order[j] < keys.len());
    }
    assert forall|a: int, b: int| 0 <= a < b < sorted.len() implies lex_lt(
        #[trigger] sorted[a],
        #[trigger] sorted[b],
    ) by {
        assert(sorted[a] == keys[kept[a]] && sorted[b] == keys[kept[b]]);
    }
    assert forall|t: Seq<char>| #[trigger] sorted.contains(t) <==> keys.contains(t) by {
        if sorted.contains(t) {
            let i = choose|i: int| 0 <= i < sorted.len() && sorted[i] == t;
            assert(keys[kept[i]] == t);
        }
        if keys.contains(t) {
            let x = choose|x: int| 0 <= x < keys.len() && keys[x] == t;
            assert(order.contains(x));
            let j = choose|j: int| 0 <= j < order.len() && order[j] == x;
            let i = choose|i: int| 0 <= i < kept.len() && keys[kept[i]] == keys[order[j]];
            assert(sorted[i] == t);
        }
    }
}

/// A text is kept exactly where it is a target, is known, and is not the
/// owner.
pub proof fn lemma_retained_contains(
    targets: Seq<Seq<char>>,
    owner: Seq<char>,
    known: Seq<Seq<char>>,
    t: Seq<char>,
)
    ensures
        retained(targets, owner, known).contains(t) <==> targets.contains(t) && t != owner
            && known.contains(t),
    decreases targets.len(),
{
    let kept = retained(targets, owner, known);
    if targets.len() > 0 {
        let head = targets.drop_last();
        let before = retained(head, owner, known);
        lemma_retained_contains(head, owner, known, t);
        if kept.contains(t) {
            let i = choose|i: int| 0 <= i < kept.len() && kept[i] == t;
            if i < before.len() {
                assert(before[i] == t);
                assert(before.contains(t));
                let j = choose|j: int| 0 <= j < head.len() && head[j] == t;
                assert(targets[j] == t);
            } else {
                assert(targets[targets.len() - 1] == t);
            }
        }
        if targets.contains(t) && t != owner && known.contains(t) {
            let j = choose|j: int| 0 <= j < targets.len() && targets[j] == t;
            if j < head.len() {
                assert(head[j] == t);
                assert(before.contains(t));
                let i = choose|i: int| 0 <= i < before.len() && before[i] == t;
                assert(kept[i] == t);
            } else {
                assert(kept[before.len() as int] == t);
            }
        }
    }
}

/// Keeping targets leaves some out and changes nothing else: what is kept
/// are the targets that are known and are not the owner, in the order in
/// which they stood.
pub proof fn lemma_retained(targets: Seq<Seq<char>>, owner: Seq<char>, known: Seq<Seq<char>>)
    ensures
        forall|t: Seq<char>|
            #[trigger] retained(targets, owner, known).contains(t) <==> targets.contains(t) && t
                != owner && known.contains(t),
        ascending(targets) ==> ascending(retained(targets, owner, known)),
    decreases targets.len(),
{
    let kept = retained(targets, owner, known);
    assert forall|t: Seq<char>| #[trigger]
        kept.contains(t) <==> targets.contains(t) && t != owner && known.contains(t) by {
        lemma_retained_contains(targets, owner, known, t);
    }
    if targets.len() > 0 && ascending(targets) {
        let head = targets.drop_last();
        let before = retained(head, owner, known);
        assert forall|a: int, b: int| 0 <= a < b < head.len() implies lex_lt(
            #[trigger] head[a],
            #[trigger] head[b],
        ) by {
            assert(head[a] == targets[a] && head[b] == targets[b]);
        }
        lemma_retained(head, owner, known);
        assert forall|a: int, b: int| 0 <= a < b < kept.len() implies lex_lt(
            #[trigger] kept[a],
            #[trigger] kept[b],
        ) by {
            if b < before.len() {
                assert(kept[a] == before[a] && kept[b] == before[b]);
            } else {
                assert(kept[a] == before[a]);
                assert(before.contains(before[a]));
                lemma_retained_contains(head, owner, known, before[a]);
                let j = choose|j: int| 0 <= j < head.len() && head[j] == before[a];
                assert(targets[j] == kept[a]);
                assert(targets[targets.len() - 1] == kept[b]);
            }
        }
    }
}

/// The dependencies of a class are exactly the types that its members and
/// methods name, as far as they are shown names of classes of the list other
/// than its own; they ascend strictly, so each stands once.
pub proof fn lemma_dependencies_exact(class: ClassModel, option: OptionModel, known: Seq<Seq<char>>)
    ensures
        ascending(dependencies(class, option, known)),
        forall|t: Seq<char>|
            #[trigger] dependencies(class, option, known).contains(t) <==> {
                &&& dependency_keys(class, option, known).contains(t)
                &&& t != display_name(option, class.name)
                &&& known.contains(t)
            },
{
    let keys = dependency_keys(class, option, known);
    let owner = display_name(option, class.name);
    lemma_distinct_sorted(keys);
    lemma_retained(distinct_sorted(keys), owner, known);
    assert forall|t: Seq<char>| #[trigger]
        dependencies(class, option, known).contains(t) <==> keys.contains(t) && t != owner
            && known.contains(t) by {
        lemma_retained_contains(distinct_sorted(keys), owner, known, t);
        assert(distinct_sorted(keys).contains(t) <==> keys.contains(t));
    }
}

/// Every kept target is a known name and differs from the owner.
pub proof fn lemma_retained_sound(targets: Seq<Seq<char>>, owner: Seq<char>, known: Seq<Seq<char>>)
    ensures
        forall|k: int|
            0 <= k < retained(targets, owner, known).len() ==> {
                &&& known.contains(#[trigger] retained(targets, owner, known)[k])
                &&& retained(targets, owner, known)[k] != owner
            },
    decreases targets.len(),
{
    if targets.len() > 0 {
        lemma_retained_sound(targets.drop_last(), owner, known);
        let before = retained(targets.drop_last(), owner, known);
        let all = retained(targets, owner, known);
        assert forall|k: int| 0 <= k < all.len() implies known.contains(#[trigger] all[k])
            && all[k] != owner by {
            if k < before.len() {
                assert(all[k] == before[k]);
            }
        }
    }
}

/// No dependency points outside the list of classes, and none points to the
/// class itself.
pub proof fn lemma_dependencies_sound(class: ClassModel, option: OptionModel, known: Seq<Seq<char>>)
    ensures
        forall|k: int|
            0 <= k < dependencies(class, option, known).len() ==> {
                &&& known.contains(#[trigger] dependencies(class, option, known)[k])
                &&& dependencies(class, option, known)[k] != display_name(option, class.name)
            },
{
    lemma_retained_sound(
        distinct_sorted(dependency_keys(class, option, known)),
        display_name(option, class.name),
        known,
    );
}

/// A class without members and methods has no body lines and depends on
/// nothing.
pub proof fn lemma_empty_class(
    class: ClassModel,
    space: Seq<char>,
    option: OptionModel,
    known: Seq<Seq<char>>,
)
    requires
        class.members.len() == 0,
        class.methods.len() == 0,
    ensures
        body_lines(class, space, option, known) == Seq::<Seq<char>>::empty(),
        dependencies(class, option, known) == Seq::<Seq<char>>::empty(),
{
    assert(body_lines(class, space, option, known) =~= Seq::<Seq<char>>::empty());
    let keys = dependency_keys(class, option, known);
    assert(keys =~= Seq::<Seq<char>>::empty());
    assert(sorted_order(keys) =~= Seq::<int>::empty());
    assert(collapse(sorted_order(keys), keys, false) =~= Seq::<int>::empty());
    assert(distinct_sorted(keys) =~= Seq::<Seq<char>>::empty());
}

/// The targets among `dep_map` that are kept for `owner`: each once, in
/// ascending order, where it is one of `class_map` and not `owner`.
pub fn dependencies_of(dep_map: &Vec<String>, owner: &str, class_map: &Vec<String>) -> (targets:
    Vec<String>)
    ensures
        targets.deep_view() == retained(
            distinct_sorted(dep_map.deep_view()),
            owner@,
            class_map.deep_view(),
        ),
{
    let order = stable_order(dep_map);
    let kept = collapse_order(&order, dep_map, false);
    let ghost keys = dep_map.deep_view();
    let ghost known = class_map.deep_view();
    let ghost sorted = distinct_sorted(keys);
    assert(sorted == reorder(keys, as_ints(kept@)));
    let mut targets: Vec<String> = Vec::new();
    let mut k: usize = 0;
    assert(sorted.take(0) =~= Seq::empty());
    assert(targets.deep_view() =~= Seq::empty());
    while k < kept.len()
        invariant
            keys == dep_map.deep_view(),
            known == class_map.deep_view(),
            sorted == reorder(keys, as_ints(kept@)),
            positions_below(as_ints(kept@), dep_map.len() as int),
            k <= kept.len(),
            targets.deep_view() == retained(sorted.take(k as int), owner@, known),
        decreases kept.len() - k,
    {
        assert(as_ints(kept@)[k as int] == kept@[k as int]);
        let target = &dep_map[kept[k]];
        proof {
            let upto = sorted.take(k + 1);
            assert(upto.drop_last() == sorted.take(k as int));
            assert(upto.last() == target@);
        }
        if !same_text(target.as_str(), owner) && holds_text(class_map, target.as_str()) {
            let ghost before = targets.deep_view();
            targets.push(target.clone());
            assert(targets.deep_view() =~= before.push(target@));
        }
        k += 1;
    }
    assert(sorted.take(kept.len() as int) == sorted);
    targets
}

/// What is shown of one class: the lines of its body, and the classes it
/// depends on.
pub struct ClassParts {
    /// The lines of the members, then those of the methods.
    pub body: Vec<String>,
    /// The shown names of the classes it depends on.
    pub dependencies: Vec<String>,
}

/// The lines of the body of a class: those of its members, then, unless
/// only fields count, those of its methods.
pub open spec fn body_lines(
    class: ClassModel,
    space: Seq<char>,
    option: OptionModel,
    known: Seq<Seq<char>>,
) -> Seq<Seq<char>> {
    crate::render::member_lines(class.members, space, option, known) + if option.field_only {
        Seq::empty()
    } else {
        crate::render::method_lines(class.methods, space, option)
    }
}

/// The body lines of `clazz`, indented by `space`, and its dependencies
/// among the classes whose shown names `class_map` holds.
pub fn class_parts(
    clazz: &ClassInfo,
    space: &str,
    parse_option: &ParseOption,
    class_map: &Vec<String>,
) -> (parts: ClassParts)
    ensures
        parts.body.deep_view() == body_lines(clazz@, space@, parse_option@, class_map.deep_view()),
        parts.dependencies.deep_view() == dependencies(
            clazz@,
            parse_option@,
            class_map.deep_view(),
        ),
{
    let mut dep_map: Vec<String> = Vec::new();
    assert(dep_map.deep_view() =~= Seq::empty());
    let mut body = render_member(clazz, &mut dep_map, space, parse_option, class_map);
    assert(dep_map.deep_view() =~= member_targets(
        clazz@.members,
        parse_option@,
        class_map.deep_view(),
    ));
    if !parse_option.field_only {
        let mut methods = render_method(clazz, &mut dep_map, space, parse_option);
        let ghost before = body.deep_view();
        let ghost added = methods.deep_view();
        body.append(&mut methods);
        assert(body.deep_view() =~= before + added);
    } else {
        assert(body.deep_view() + Seq::<Seq<char>>::empty() =~= body.deep_view());
        assert(dep_map.deep_view() + Seq::<Seq<char>>::empty() =~= dep_map.deep_view());
    }
    let owner = process_name(parse_option, clazz.name.as_str());
    let dependencies = dependencies_of(&dep_map, owner.as_str(), class_map);
    ClassParts { body, dependencies }
}

} // verus!
