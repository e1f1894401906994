//! The records of the model: a class with its members and methods.

use vstd::prelude::*;

verus! {

/// A field of a class.
#[derive(Debug)]
pub struct MemberInfo {
    pub name: String,
    /// `+`, `-`, `#` or empty.
    pub access: String,
    /// The declared type as written; empty where unknown.
    pub data_type: String,
    /// The innermost type of a generic or container type; empty where there is none.
    pub pure_data_type: String,
    pub line_no: i32,
}

/// A member as plain values.
pub struct MemberModel {
    pub name: Seq<char>,
    pub access: Seq<char>,
    pub data_type: Seq<char>,
    pub pure_data_type: Seq<char>,
    pub line_no: int,
}

impl View for MemberInfo {
    type V = MemberModel;

    open spec fn view(&self) -> MemberModel {
        MemberModel {
            name: self.name@,
            access: self.access@,
            data_type: self.data_type@,
            pure_data_type: self.pure_data_type@,
            line_no: self.line_no as int,
        }
    }
}

impl DeepView for MemberInfo {
    type V = MemberModel;

    open spec fn deep_view(&self) -> MemberModel {
        self@
    }
}

impl MemberInfo {
    /// A member with no inner type and no line number.
    pub fn new(name: &str, access: String, data_type: String) -> (member: MemberInfo)
        ensures
            member@ == (MemberModel {
                name: name@,
                access: access@,
                data_type: data_type@,
                pure_data_type: Seq::empty(),
                line_no: 0,
            }),
    {
        MemberInfo {
            name: name.to_owned(),
            access,
            data_type,
            pure_data_type: String::new(),
            line_no: 0,
        }
    }
}

impl Clone for MemberInfo {
    fn clone(&self) -> (copy: MemberInfo)
        ensures
            copy@ == self@,
    {
        MemberInfo {
            name: self.name.clone(),
            access: self.access.clone(),
            data_type: self.data_type.clone(),
            pure_data_type: self.pure_data_type.clone(),
            line_no: self.line_no,
        }
    }
}

/// A method of a class.
#[derive(Debug)]
pub struct MethodInfo {
    pub name: String,
    /// `+`, `-`, `#` or empty.
    pub access: String,
    /// The parameters as written, one text each.
    pub parameters: Vec<String>,
    /// The declared return type; empty where unknown.
    pub return_type: String,
    /// The innermost type of a generic or container return type; empty where there is none.
    pub pure_return_type: String,
    pub line_no: i32,
}

/// A method as plain values.
pub struct MethodModel {
    pub name: Seq<char>,
    pub access: Seq<char>,
    pub parameters: Seq<Seq<char>>,
    pub return_type: Seq<char>,
    pub pure_return_type: Seq<char>,
    pub line_no: int,
}

impl View for MethodInfo {
    type V = MethodModel;

    open spec fn view(&self) -> MethodModel {
        MethodModel {
            name: self.name@,
            access: self.access@,
            parameters: self.parameters.deep_view(),
            return_type: self.return_type@,
            pure_return_type: self.pure_return_type@,
            line_no: self.line_no as int,
        }
    }
}

impl DeepView for MethodInfo {
    type V = MethodModel;

    open spec fn deep_view(&self) -> MethodModel {
        self@
    }
}

/// More parameters than this make a method's parameter list too long.
pub const PARAMETER_LIMIT: usize = 5;

impl MethodInfo {
    /// A method with no inner return type and no line number.
    pub fn new(name: &str, access: String, parameters: Vec<String>, return_type: String) -> (method:
        MethodInfo)
        ensures
            method@ == (MethodModel {
                name: name@,
                access: access@,
                parameters: parameters.deep_view(),
                return_type: return_type@,
                pure_return_type: Seq::empty(),
                line_no: 0,
            }),
    {
        MethodInfo {
            name: name.to_owned(),
            access,
            parameters,
            return_type,
            pure_return_type: String::new(),
            line_no: 0,
        }
    }

    /// Whether the method takes more than `PARAMETER_LIMIT` parameters.
    pub fn parameter_too_long(&self) -> (too_long: bool)
        ensures
            too_long == (self@.parameters.len() > PARAMETER_LIMIT),
    {
        self.parameters.len() > PARAMETER_LIMIT
    }
}

impl Clone for MethodInfo {
    fn clone(&self) -> (copy: MethodInfo)
        ensures
            copy@ == self@,
    {
        MethodInfo {
            name: self.name.clone(),
            access: self.access.clone(),
            parameters: clone_strings(&self.parameters),
            return_type: self.return_type.clone(),
            pure_return_type: self.pure_return_type.clone(),
            line_no: self.line_no,
        }
    }
}

/// A class or struct with what was found of it.
#[derive(Debug)]
pub struct ClassInfo {
    pub id: i32,
    pub name: String,
    /// The dotted path of the scope that owns the members.
    pub package: String,
    pub file: String,
    pub lang: String,
    /// The types this one inherits from, in the order given.
    pub parents: Vec<String>,
    pub members: Vec<MemberInfo>,
    pub methods: Vec<MethodInfo>,
}

/// A class as plain values.
pub struct ClassModel {
    pub id: int,
    pub name: Seq<char>,
    pub package: Seq<char>,
    pub file: Seq<char>,
    pub lang: Seq<char>,
    pub parents: Seq<Seq<char>>,
    pub members: Seq<MemberModel>,
    pub methods: Seq<MethodModel>,
}

impl ClassModel {
    /// The class of that name with nothing else known of it.
    pub open spec fn named(name: Seq<char>) -> ClassModel {
        ClassModel {
            id: 0,
            name,
            package: Seq::empty(),
            file: Seq::empty(),
            lang: Seq::empty(),
            parents: Seq::empty(),
            members: Seq::empty(),
            methods: Seq::empty(),
        }
    }
}

impl View for ClassInfo {
    type V = ClassModel;

    open spec fn view(&self) -> ClassModel {
        ClassModel {
            id: self.id as int,
            name: self.name@,
            package: self.package@,
            file: self.file@,
            lang: self.lang@,
            parents: self.parents.deep_view(),
            members: self.members.deep_view(),
            methods: self.methods.deep_view(),
        }
    }
}

impl DeepView for ClassInfo {
    type V = ClassModel;

    open spec fn deep_view(&self) -> ClassModel {
        self@
    }
}

impl ClassInfo {
    /// The class of that name with nothing else known of it.
    pub fn new(class_name: &str) -> (class: ClassInfo)
        ensures
            class@ == ClassModel::named(class_name@),
    {
        let class = ClassInfo {
            id: 0,
            name: class_name.to_owned(),
            package: String::new(),
            file: String::new(),
            lang: String::new(),
            parents: Vec::new(),
            members: Vec::new(),
            methods: Vec::new(),
        };
        assert(class.parents.deep_view() =~= Seq::empty());
        assert(class.members.deep_view() =~= Seq::empty());
        assert(class.methods.deep_view() =~= Seq::empty());
        class
    }
}

impl Clone for ClassInfo {
    fn clone(&self) -> (copy: ClassInfo)
        ensures
            copy@ == self@,
    {
        ClassInfo {
            id: self.id,
            name: self.name.clone(),
            package: self.package.clone(),
            file: self.file.clone(),
            lang: self.lang.clone(),
            parents: clone_strings(&self.parents),
            members: clone_members(&self.members),
            methods: clone_methods(&self.methods),
        }
    }
}

/// A copy of a list of texts.
pub fn clone_strings(list: &Vec<String>) -> (copy: Vec<String>)
    ensures
        copy.deep_view() == list.deep_view(),
{
    let mut copy: Vec<String> = Vec::new();
    let mut i: usize = 0;
    while i < list.len()
        invariant
            i <= list.len(),
            copy.len() == i,
            forall|j: int| 0 <= j < i ==> copy@[j]@ == list@[j]@,
        decreases list.len() - i,
    {
        copy.push(list[i].clone());
        i += 1;
    }
    assert(copy.deep_view() =~= list.deep_view());
    copy
}

/// A copy of a list of members.
pub fn clone_members(list: &Vec<MemberInfo>) -> (copy: Vec<MemberInfo>)
    ensures
        copy.deep_view() == list.deep_view(),
{
    let mut copy: Vec<MemberInfo> = Vec::new();
    let mut i: usize = 0;
    while i < list.len()
        invariant
            i <= list.len(),
            copy.len() == i,
            forall|j: int| 0 <= j < i ==> copy@[j]@ == list@[j]@,
        decreases list.len() - i,
    {
        copy.push(list[i].clone());
        i += 1;
    }
    assert(copy.deep_view() =~= list.deep_view());
    copy
}

/// A copy of a list of methods.
pub fn clone_methods(list: &Vec<MethodInfo>) -> (copy: Vec<MethodInfo>)
    ensures
        copy.deep_view() == list.deep_view(),
{
    let mut copy: Vec<MethodInfo> = Vec::new();
    let mut i: usize = 0;
    while i < list.len()
        invariant
            i <= list.len(),
            copy.len() == i,
            forall|j: int| 0 <= j < i ==> copy@[j]@ == list@[j]@,
        decreases list.len() - i,
    {
        copy.push(list[i].clone());
        i += 1;
    }
    assert(copy.deep_view() =~= list.deep_view());
    copy
}

} // verus!
