//! Finalizing what the two passes found: members, methods and classes in
//! the order of their names.

use vstd::prelude::*;
use crate::coco_struct::{
    clone_strings, ClassInfo, ClassModel, MemberInfo, MemberModel, MethodInfo, MethodModel,
};
use crate::ctags::ctags_parser::class_names;
use crate::sorting::{
    arrange, arranged, as_ints, lemma_arranged, lex_lt, lowercase, positions_below, reorder,
};

verus! {

/// The names of the members, in order.
pub open spec fn member_names(members: Seq<MemberModel>) -> Seq<Seq<char>> {
    members.map_values(|member: MemberModel| member.name)
}

/// The names of the methods, in order.
pub open spec fn method_names(methods: Seq<MethodModel>) -> Seq<Seq<char>> {
    methods.map_values(|method: MethodModel| method.name)
}

/// The members in the order of their names; see `arranged`.
pub open spec fn arranged_members(members: Seq<MemberModel>, merge: bool) -> Seq<MemberModel> {
    reorder(members, arranged(member_names(members), merge))
}

/// The methods in the order of their names; see `arranged`.
pub open spec fn arranged_methods(methods: Seq<MethodModel>, merge: bool) -> Seq<MethodModel> {
    reorder(methods, arranged(method_names(methods), merge))
}

/// The class with its members and methods in the order of their names.
pub open spec fn finalized_class(class: ClassModel, merge: bool) -> ClassModel {
    ClassModel {
        members: arranged_members(class.members, merge),
        methods: arranged_methods(class.methods, merge),
        ..class
    }
}

/// Each class finalized, in the order of the list.
pub open spec fn each_finalized(classes: Seq<ClassModel>, merge: bool) -> Seq<ClassModel> {
    classes.map_values(|class: ClassModel| finalized_class(class, merge))
}

/// The finalized classes in the order of their names: ascending by
/// lowercase form, classes with the same lowercase form in the order of the
/// list. No class is left out.
pub open spec fn finalized(classes: Seq<ClassModel>, merge: bool) -> Seq<ClassModel> {
    reorder(each_finalized(classes, merge), arranged(class_names(classes), false))
}

/// Finalizing rearranges and loses no class: the list keeps its length,
/// every class is in it, finalized, and the lowercase forms of the names
/// never descend along it. Inside each class the same holds of the names of
/// its members and of its methods, and the class keeps everything else.
pub proof fn lemma_finalized(classes: Seq<ClassModel>, merge: bool)
    ensures
        finalized(classes, merge).len() == classes.len(),
        forall|i: int|
            0 <= i < classes.len() ==> finalized(classes, merge).contains(
                finalized_class(#[trigger] classes[i], merge),
            ),
        forall|a: int, b: int|
            0 <= a < b < classes.len() ==> !lex_lt(
                lowercase((#[trigger] finalized(classes, merge)[b]).name),
                lowercase((#[trigger] finalized(classes, merge)[a]).name),
            ),
        forall|i: int, a: int, b: int|
            0 <= i < classes.len() && 0 <= a < b < finalized(classes, merge)[i].members.len()
                ==> !lex_lt(
                lowercase((#[trigger] finalized(classes, merge)[i].members[b]).name),
                lowercase((#[trigger] finalized(classes, merge)[i].members[a]).name),
            ),
        forall|i: int, a: int, b: int|
            0 <= i < classes.len() && 0 <= a < b < finalized(classes, merge)[i].methods.len()
                ==> !lex_lt(
                lowercase((#[trigger] finalized(classes, merge)[i].methods[b]).name),
                lowercase((#[trigger] finalized(classes, merge)[i].methods[a]).name),
            ),
{
    let names = class_names(classes);
    let order = arranged(names, false);
    let done = finalized(classes, merge);
    lemma_arranged(names, false);
    assert forall|i: int| 0 <= i < classes.len() implies done.contains(
        finalized_class(#[trigger] classes[i], merge),
    ) by {
        assert(names.len() == classes.len());
        assert(order.contains(i));
        let k = choose|k: int| 0 <= k < order.len() && order[k] == i;
        assert(done[k] == finalized_class(classes[i], merge));
    }
    assert forall|a: int, b: int| 0 <= a < b < classes.len() implies !lex_lt(
        lowercase((#[trigger] done[b]).name),
        lowercase((#[trigger] done[a]).name),
    ) by {
        assert(done[a].name == names[order[a]]);
        assert(done[b].name == names[order[b]]);
    }
    assert forall|i: int, a: int, b: int|
        0 <= i < classes.len() && 0 <= a < b < done[i].members.len() implies !lex_lt(
        lowercase((#[trigger] done[i].members[b]).name),
        lowercase((#[trigger] done[i].members[a]).name),
    ) by {
        let members = classes[order[i]].members;
        let inner = arranged(member_names(members), merge);
        lemma_arranged(member_names(members), merge);
        assert(done[i].members == reorder(members, inner));
        assert(done[i].members[a].name == member_names(members)[inner[a]]);
        assert(done[i].members[b].name == member_names(members)[inner[b]]);
    }
    assert forall|i: int, a: int, b: int|
        0 <= i < classes.len() && 0 <= a < b < done[i].methods.len() implies !lex_lt(
        lowercase((#[trigger] done[i].methods[b]).name),
        lowercase((#[trigger] done[i].methods[a]).name),
    ) by {
        let methods = classes[order[i]].methods;
        let inner = arranged(method_names(methods), merge);
        lemma_arranged(method_names(methods), merge);
        assert(done[i].methods == reorder(methods, inner));
        assert(done[i].methods[a].name == method_names(methods)[inner[a]]);
        assert(done[i].methods[b].name == method_names(methods)[inner[b]]);
    }
}

/// The members in the order of their names.
pub fn arrange_members(members: &Vec<MemberInfo>, merge: bool) -> (sorted: Vec<MemberInfo>)
    ensures
        sorted.deep_view() == arranged_members(members.deep_view(), merge),
{
    let mut names: Vec<String> = Vec::new();
    let mut i: usize = 0;
    while i < members.len()
        invariant
            i <= members.len(),
            names.len() == i,
            forall|j: int| 0 <= j < i ==> names@[j]@ == members@[j]@.name,
        decreases members.len() - i,
    {
        names.push(members[i].name.clone());
        i += 1;
    }
    assert(names.deep_view() =~= member_names(members.deep_view()));
    let order = arrange(&names, merge);
    let mut sorted: Vec<MemberInfo> = Vec::new();
    let mut k: usize = 0;
    while k < order.len()
        invariant
            k <= order.len(),
            sorted.len() == k,
            names.len() == members.len(),
            positions_below(as_ints(order@), names.len() as int),
            forall|j: int| 0 <= j < k ==> sorted@[j]@ == members@[order@[j] as int]@,
        decreases order.len() - k,
    {
        assert(as_ints(order@)[k as int] == order@[k as int]);
        sorted.push(members[order[k]].clone());
        k += 1;
    }
    assert(sorted.deep_view() =~= reorder(members.deep_view(), as_ints(order@)));
    sorted
}

/// The methods in the order of their names.
pub fn arrange_methods(methods: &Vec<MethodInfo>, merge: bool) -> (sorted: Vec<MethodInfo>)
    ensures
        sorted.deep_view() == arranged_methods(methods.deep_view(), merge),
{
    let mut names: Vec<String> = Vec::new();
    let mut i: usize = 0;
    while i < methods.len()
        invariant
            i <= methods.len(),
            names.len() == i,
            forall|j: int| 0 <= j < i ==> names@[j]@ == methods@[j]@.name,
        decreases methods.len() - i,
    {
        names.push(methods[i].name.clone());
        i += 1;
    }
    assert(names.deep_view() =~= method_names(methods.deep_view()));
    let order = arrange(&names, merge);
    let mut sorted: Vec<MethodInfo> = Vec::new();
    let mut k: usize = 0;
    while k < order.len()
        invariant
            k <= order.len(),
            sorted.len() == k,
            names.len() == methods.len(),
            positions_below(as_ints(order@), names.len() as int),
            forall|j: int| 0 <= j < k ==> sorted@[j]@ == methods@[order@[j] as int]@,
        decreases order.len() - k,
    {
        assert(as_ints(order@)[k as int] == order@[k as int]);
        sorted.push(methods[order[k]].clone());
        k += 1;
    }
    assert(sorted.deep_view() =~= reorder(methods.deep_view(), as_ints(order@)));
    sorted
}

/// The class with its members and methods in the order of their names.
pub fn finalize_class(class: &ClassInfo, merge: bool) -> (done: ClassInfo)
    ensures
        done@ == finalized_class(class@, merge),
{
    ClassInfo {
        id: class.id,
        name: class.name.clone(),
        package: class.package.clone(),
        file: class.file.clone(),
        lang: class.lang.clone(),
        parents: clone_strings(&class.parents),
        members: arrange_members(&class.members, merge),
        methods: arrange_methods(&class.methods, merge),
    }
}

/// The finalized classes in the order of their names.
pub fn finalize_classes(classes: &Vec<ClassInfo>, merge: bool) -> (sorted: Vec<ClassInfo>)
    ensures
        sorted.deep_view() == finalized(classes.deep_view(), merge),
        sorted.len() == classes.len(),
{
    let mut names: Vec<String> = Vec::new();
    let mut i: usize = 0;
    while i < classes.len()
        invariant
            i <= classes.len(),
            names.len() == i,
            forall|j: int| 0 <= j < i ==> names@[j]@ == classes@[j]@.name,
        decreases classes.len() - i,
    {
        names.push(classes[i].name.clone());
        i += 1;
    }
    assert(names.deep_view() =~= class_names(classes.deep_view()));
    let order = arrange(&names, false);
    proof {
        crate::sorting::lemma_sorted_order_positions(
            crate::sorting::lower_keys(names.deep_view()),
            names.len() as nat,
        );
    }
    let mut sorted: Vec<ClassInfo> = Vec::new();
    let mut k: usize = 0;
    while k < order.len()
        invariant
            k <= order.len(),
            sorted.len() == k,
            names.len() == classes.len(),
            positions_below(as_ints(order@), names.len() as int),
            forall|j: int|
                0 <= j < k ==> sorted@[j]@ == finalized_class(classes@[order@[j] as int]@, merge),
        decreases order.len() - k,
    {
        assert(as_ints(order@)[k as int] == order@[k as int]);
        sorted.push(finalize_class(&classes[order[k]], merge));
        k += 1;
    }
    assert(sorted.deep_view() =~= reorder(
        each_finalized(classes.deep_view(), merge),
        as_ints(order@),
    ));
    sorted
}

} // verus!
