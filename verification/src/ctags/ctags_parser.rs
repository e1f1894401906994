//! The parser: a registry of classes by name, filled from tag lines in two
//! passes and finalized into a sorted list.

use vstd::prelude::*;
use crate::coco_struct::{ClassInfo, ClassModel};
use crate::ctags::finalize::{finalize_classes, finalized};
use crate::ctags::tag_entry::{tag_entry, TagEntry, TagEntryModel};
use crate::ctags::tag_line::{
    capture, captured, captures, group_text, last_segment, short_name, TagKind,
    CLASS_FILE_GROUP, CLASS_NAME_GROUP, CLASS_PATTERN, INHERITS_GROUP, INHERITS_PATTERN,
};
use crate::parse_option::{OptionModel, ParseOption};
use crate::text::{
    chars_of, lemma_first_position, lemma_no_position, same_chars, split, split_on,
};

verus! {

/// The classes found so far, and the options for finalizing them.
///
/// The registry holds one class per name, in the order in which the names
/// were first met.
pub struct CtagsParser {
    pub option: ParseOption,
    class_list: Vec<ClassInfo>,
}

/// The names of the classes, in order.
pub open spec fn class_names(classes: Seq<ClassModel>) -> Seq<Seq<char>> {
    classes.map_values(|class: ClassModel| class.name)
}

/// The registry after `class` has been declared: it takes the place of the
/// class of the same name, or stands at the end where there was none.
pub open spec fn registered(registry: Seq<ClassModel>, class: ClassModel) -> Seq<ClassModel> {
    match class_names(registry).index_of_first(class.name) {
        Some(at) => registry.update(at, class),
        None => registry.push(class),
    }
}

/// The class that a declaration gives: its name, file and parents, and
/// nothing else yet.
pub open spec fn declared_class(name: Seq<char>, file: Seq<char>, parents: Seq<Seq<char>>) -> ClassModel {
    ClassModel { file, parents, ..ClassModel::named(name) }
}

/// The parents that a list with commas between them names, in order; none
/// where there is no list.
pub open spec fn listed_parents(list: Option<Seq<char>>) -> Seq<Seq<char>> {
    match list {
        Some(names) => split_on(names, ','),
        None => Seq::empty(),
    }
}

/// The parents that the `inherits:` annotation of `line` lists, in order;
/// none where there is no such annotation.
pub open spec fn declared_parents(line: Seq<char>) -> Seq<Seq<char>> {
    listed_parents(captured(INHERITS_PATTERN@, line, INHERITS_GROUP as int))
}

/// The class that `line` declares, if it is the tag of a class or struct.
pub open spec fn class_declaration(line: Seq<char>) -> Option<ClassModel> {
    match (
        captured(CLASS_PATTERN@, line, CLASS_NAME_GROUP as int),
        captured(CLASS_PATTERN@, line, CLASS_FILE_GROUP as int),
    ) {
        (Some(name), Some(file)) => Some(declared_class(name, file, declared_parents(line))),
        _ => None,
    }
}

/// The registry after the first pass has read `line`.
pub open spec fn after_class_line(registry: Seq<ClassModel>, line: Seq<char>) -> Seq<ClassModel> {
    match class_declaration(line) {
        Some(class) => registered(registry, class),
        None => registry,
    }
}

/// `class` after it has taken in `entry`: the entry's owner becomes its
/// package, the entry's language its language, and the member or method
/// comes last among those it has.
pub open spec fn class_with_entry(class: ClassModel, entry: TagEntryModel) -> ClassModel {
    match entry.kind {
        TagKind::Member => ClassModel {
            package: entry.owner,
            lang: entry.language,
            members: class.members.push(entry.member()),
            ..class
        },
        TagKind::Method => ClassModel {
            package: entry.owner,
            lang: entry.language,
            methods: class.methods.push(entry.method()),
            ..class
        },
    }
}

/// The registry after `entry` has been added to the class that the last
/// segment of its owner names. Where that segment is empty or names no class
/// of the registry, the entry is dropped.
pub open spec fn with_entry(registry: Seq<ClassModel>, entry: TagEntryModel) -> Seq<ClassModel> {
    let name = last_segment(entry.owner);
    match class_names(registry).index_of_first(name) {
        Some(at) => if name.len() > 0 {
            registry.update(at, class_with_entry(registry[at], entry))
        } else {
            registry
        },
        None => registry,
    }
}

/// The registry after the second pass has read `line`.
pub open spec fn after_member_line(registry: Seq<ClassModel>, line: Seq<char>) -> Seq<ClassModel> {
    match tag_entry(line) {
        Some(entry) => with_entry(registry, entry),
        None => registry,
    }
}

/// The registry after the first pass has read `lines`, one after another.
pub open spec fn after_class_lines(registry: Seq<ClassModel>, lines: Seq<Seq<char>>) -> Seq<ClassModel>
    decreases lines.len(),
{
    if lines.len() == 0 {
        registry
    } else {
        after_class_line(after_class_lines(registry, lines.drop_last()), lines.last())
    }
}

/// The registry after the second pass has read `lines`, one after another.
pub open spec fn after_member_lines(registry: Seq<ClassModel>, lines: Seq<Seq<char>>) -> Seq<ClassModel>
    decreases lines.len(),
{
    if lines.len() == 0 {
        registry
    } else {
        after_member_line(after_member_lines(registry, lines.drop_last()), lines.last())
    }
}

/// The registry after the first pass has read every shard in turn.
pub open spec fn after_class_shards(registry: Seq<ClassModel>, shards: Seq<Seq<Seq<char>>>) -> Seq<ClassModel>
    decreases shards.len(),
{
    if shards.len() == 0 {
        registry
    } else {
        after_class_lines(after_class_shards(registry, shards.drop_last()), shards.last())
    }
}

/// The registry after the second pass has read every shard in turn.
pub open spec fn after_member_shards(registry: Seq<ClassModel>, shards: Seq<Seq<Seq<char>>>) -> Seq<ClassModel>
    decreases shards.len(),
{
    if shards.len() == 0 {
        registry
    } else {
        after_member_lines(after_member_shards(registry, shards.drop_last()), shards.last())
    }
}

/// The registry that the two passes build from nothing: first every class
/// declaration of every shard, then every member and method of every shard.
pub open spec fn parsed(shards: Seq<Seq<Seq<char>>>) -> Seq<ClassModel> {
    after_member_shards(after_class_shards(Seq::empty(), shards), shards)
}

/// Declaring a class leaves exactly one class of its name, which is the
/// declared one. A name that was not in the registry adds one class at the
/// end; a name that was there keeps the number of classes and replaces the
/// class of that name, its file, package and parents included. Every class
/// of another name stays as it was, at its place.
pub proof fn lemma_registered(registry: Seq<ClassModel>, class: ClassModel)
    requires
        class_names(registry).no_duplicates(),
    ensures
        class_names(registered(registry, class)).no_duplicates(),
        class_names(registry).contains(class.name) ==> registered(registry, class).len()
            == registry.len(),
        !class_names(registry).contains(class.name) ==> registered(registry, class)
            == registry.push(class),
        forall|i: int|
            0 <= i < registered(registry, class).len() && registered(registry, class)[i].name
                == class.name ==> #[trigger] registered(registry, class)[i] == class,
        exists|i: int|
            0 <= i < registered(registry, class).len() && #[trigger] registered(
                registry,
                class,
            )[i] == class,
        forall|i: int|
            0 <= i < registry.len() && registry[i].name != class.name ==> #[trigger] registered(
                registry,
                class,
            )[i] == registry[i],
{
    let names = class_names(registry);
    let after = registered(registry, class);
    names.index_of_first_ensures(class.name);
    match names.index_of_first(class.name) {
        Some(at) => {
            assert(class_names(after) =~= names);
            assert(after[at] == class);
            assert forall|i: int| 0 <= i < after.len() && after[i].name == class.name implies
                #[trigger] after[i] == class by {
                assert(names[i] == class.name);
                assert(names[at] == class.name);
            }
        },
        None => {
            assert(class_names(after) =~= names.push(class.name));
            assert(after[registry.len() as int] == class);
            assert forall|i: int| 0 <= i < after.len() && after[i].name == class.name implies
                #[trigger] after[i] == class by {
                if i < registry.len() {
                    assert(names[i] == class.name);
                    assert(names.contains(class.name));
                }
            }
        },
    }
}

/// The name that `line` declares, if it is the tag of a class or struct.
pub open spec fn declared_name(line: Seq<char>) -> Option<Seq<char>> {
    match class_declaration(line) {
        Some(class) => Some(class.name),
        None => None,
    }
}

/// After the first pass, every declared name has exactly one class, and it
/// is the class that the last declaration of that name gave: no two classes
/// share a name, every line that declares a class has its name in the
/// registry, and a declaration that no later line repeats under the same
/// name stands in the registry as it was declared.
pub proof fn lemma_after_class_lines(registry: Seq<ClassModel>, lines: Seq<Seq<char>>)
    requires
        class_names(registry).no_duplicates(),
    ensures
        class_names(after_class_lines(registry, lines)).no_duplicates(),
        forall|name: Seq<char>|
            class_names(registry).contains(name) ==> #[trigger] class_names(
                after_class_lines(registry, lines),
            ).contains(name),
        forall|i: int|
            0 <= i < lines.len() && declared_name(#[trigger] lines[i]) is Some ==> class_names(
                after_class_lines(registry, lines),
            ).contains(declared_name(lines[i])->0),
        forall|i: int|
            0 <= i < lines.len() && declared_name(#[trigger] lines[i]) is Some && (forall|j: int|
                i < j < lines.len() ==> declared_name(#[trigger] lines[j]) != declared_name(
                    lines[i],
                )) ==> after_class_lines(registry, lines).contains(class_declaration(lines[i])->0),
    decreases lines.len(),
{
    let after = after_class_lines(registry, lines);
    if lines.len() > 0 {
        let head = lines.drop_last();
        let last = lines.last();
        let before = after_class_lines(registry, head);
        lemma_after_class_lines(registry, head);
        match class_declaration(last) {
            Some(class) => {
                lemma_registered(before, class);
                assert(after == registered(before, class));
                let at = choose|at: int| 0 <= at < after.len() && after[at] == class;
                assert(class_names(after)[at] == class.name);
                assert forall|name: Seq<char>| class_names(before).contains(name) implies
                    class_names(after).contains(name) by {
                    let k = choose|k: int|
                        0 <= k < class_names(before).len() && class_names(before)[k] == name;
                    if name != class.name {
                        assert(before[k].name == name);
                        assert(after[k] == before[k]);
                        assert(class_names(after)[k] == name);
                    }
                }
                assert forall|i: int|
                    0 <= i < lines.len() && declared_name(#[trigger] lines[i]) is Some && (forall|
                        j: int,
                    |
                        i < j < lines.len() ==> declared_name(#[trigger] lines[j]) != declared_name(
                            lines[i],
                        )) implies after.contains(class_declaration(lines[i])->0) by {
                    if i < head.len() {
                        assert(head[i] == lines[i]);
                        assert forall|j: int| i < j < head.len() implies declared_name(
                            #[trigger] head[j],
                        ) != declared_name(head[i]) by {
                            assert(head[j] == lines[j]);
                        }
                        let kept = class_declaration(lines[i])->0;
                        assert(before.contains(kept));
                        let k = choose|k: int| 0 <= k < before.len() && before[k] == kept;
                        assert(declared_name(lines[lines.len() - 1]) != declared_name(lines[i]));
                        assert(after[k] == before[k]);
                    }
                }
            },
            None => {
                assert(after == before);
                assert forall|i: int|
                    0 <= i < lines.len() && declared_name(#[trigger] lines[i]) is Some && (forall|
                        j: int,
                    |
                        i < j < lines.len() ==> declared_name(#[trigger] lines[j]) != declared_name(
                            lines[i],
                        )) implies after.contains(class_declaration(lines[i])->0) by {
                    assert(head[i] == lines[i]);
                    assert forall|j: int| i < j < head.len() implies declared_name(
                        #[trigger] head[j],
                    ) != declared_name(head[i]) by {
                        assert(head[j] == lines[j]);
                    }
                }
            },
        }
        assert forall|i: int|
            0 <= i < lines.len() && declared_name(#[trigger] lines[i]) is Some implies class_names(
            after,
        ).contains(declared_name(lines[i])->0) by {
            if i < head.len() {
                assert(head[i] == lines[i]);
                assert(class_names(before).contains(declared_name(head[i])->0));
            }
        }
    }
}

/// Adding a member or a method keeps every class at its place, under its
/// name and with its file and parents: the second pass neither adds nor
/// removes a class, and touches nothing that the first pass set.
pub proof fn lemma_with_entry_keeps_classes(registry: Seq<ClassModel>, entry: TagEntryModel)
    ensures
        with_entry(registry, entry).len() == registry.len(),
        class_names(with_entry(registry, entry)) == class_names(registry),
        forall|i: int|
            0 <= i < registry.len() ==> {
                &&& (#[trigger] with_entry(registry, entry)[i]).file == registry[i].file
                &&& with_entry(registry, entry)[i].parents == registry[i].parents
                &&& with_entry(registry, entry)[i].id == registry[i].id
            },
{
    let name = last_segment(entry.owner);
    class_names(registry).index_of_first_ensures(name);
    assert(class_names(with_entry(registry, entry)) =~= class_names(registry));
}

/// The class that a declaration gives, from its name, its file and the list
/// of its parents.
pub fn declare_class(name: &str, file: String, inherits: Option<String>) -> (class: ClassInfo)
    ensures
        class@ == declared_class(name@, file@, listed_parents(inherits.deep_view())),
{
    let parents = match inherits {
        Some(list) => split(list.as_str(), ','),
        None => {
            let none: Vec<String> = Vec::new();
            assert(none.deep_view() =~= Seq::empty());
            none
        },
    };
    let mut class = ClassInfo::new(name);
    class.file = file;
    class.parents = parents;
    class
}

/// Takes `entry` into `class`.
pub fn take_entry(class: &mut ClassInfo, entry: TagEntry)
    ensures
        final(class)@ == class_with_entry(old(class)@, entry@),
{
    class.package = entry.owner.clone();
    class.lang = entry.language.clone();
    match entry.kind {
        TagKind::Member => {
            let ghost before = class.members.deep_view();
            let member = entry.into_member();
            let ghost added = member@;
            class.members.push(member);
            assert(class.members.deep_view() =~= before.push(added));
        },
        TagKind::Method => {
            let ghost before = class.methods.deep_view();
            let method = entry.into_method();
            let ghost added = method@;
            class.methods.push(method);
            assert(class.methods.deep_view() =~= before.push(added));
        },
    }
}

impl CtagsParser {
    /// The classes of the registry, in the order in which their names were
    /// first met.
    pub closed spec fn registry(&self) -> Seq<ClassModel> {
        self.class_list.deep_view()
    }

    /// The options, as plain values.
    pub closed spec fn options(&self) -> OptionModel {
        self.option@
    }

    /// No two classes of the registry have the same name.
    pub open spec fn wf(&self) -> bool {
        class_names(self.registry()).no_duplicates()
    }

    /// The position of the class called `name`, if the registry has one.
    pub fn lookup_class(&self, name: &str) -> (found: Option<usize>)
        ensures
            match found {
                Some(at) => class_names(self.registry()).index_of_first(name@) == Some(at as int)
                    && at < self.registry().len(),
                None => class_names(self.registry()).index_of_first(name@) is None,
            },
    {
        let wanted = chars_of(name);
        let ghost names = class_names(self.registry());
        let mut i: usize = 0;
        while i < self.class_list.len()
            invariant
                wanted@ == name@,
                names == class_names(self.registry()),
                i <= self.class_list.len(),
                forall|j: int| 0 <= j < i ==> names[j] != name@,
            decreases self.class_list.len() - i,
        {
            let here = chars_of(self.class_list[i].name.as_str());
            assert(names[i as int] == self.class_list@[i as int]@.name);
            if same_chars(&here, &wanted) {
                proof {
                    lemma_first_position(names, name@, i as int);
                }
                return Some(i);
            }
            i += 1;
        }
        proof {
            lemma_no_position(names, name@);
        }
        None
    }

    /// Declares `class`: it takes the place of the class of the same name,
    /// or stands at the end where there was none.
    pub fn register(&mut self, class: ClassInfo)
        requires
            old(self).wf(),
        ensures
            final(self).wf(),
            final(self).registry() == registered(old(self).registry(), class@),
            final(self).options() == old(self).options(),
    {
        let ghost before = self.registry();
        let ghost added = class@;
        match self.lookup_class(class.name.as_str()) {
            Some(at) => {
                self.class_list.set(at, class);
                assert(self.registry() =~= before.update(at as int, added));
                proof {
                    class_names(before).index_of_first_ensures(added.name);
                }
                assert(class_names(self.registry()) =~= class_names(before));
            },
            None => {
                self.class_list.push(class);
                assert(self.registry() =~= before.push(added));
                proof {
                    class_names(before).index_of_first_ensures(added.name);
                }
                assert(class_names(self.registry()) =~= class_names(before).push(added.name));
            },
        }
    }

    /// The first pass on one line: declares the class or struct whose tag
    /// the line is, with its file and parents. Any other line changes nothing.
    pub fn parse_class(&mut self, line: &str)
        requires
            old(self).wf(),
        ensures
            final(self).wf(),
            final(self).registry() == after_class_line(old(self).registry(), line@),
            final(self).options() == old(self).options(),
    {
        let (name, file) = match captures(CLASS_PATTERN, line) {
            Some(groups) => (
                group_text(&groups, CLASS_NAME_GROUP),
                group_text(&groups, CLASS_FILE_GROUP),
            ),
            None => (None, None),
        };
        match (name, file) {
            (Some(class_name), Some(file_name)) => {
                let class = declare_class(
                    class_name.as_str(),
                    file_name,
                    capture(INHERITS_PATTERN, line, INHERITS_GROUP),
                );
                self.register(class);
            },
            _ => {},
        }
    }

    /// The second pass on one line: adds the member or method whose tag the
    /// line is to the class that owns it. A line that is no such tag, or
    /// whose class is not in the registry, changes nothing.
    pub fn parse_method_methods(&mut self, line: &str)
        requires
            old(self).wf(),
        ensures
            final(self).wf(),
            final(self).registry() == after_member_line(old(self).registry(), line@),
            final(self).options() == old(self).options(),
    {
        match TagEntry::read(line) {
            Some(entry) => self.add_entry(entry),
            None => {},
        }
    }

    /// The first pass on the lines of one shard.
    pub fn parse_classes(&mut self, lines: &Vec<String>)
        requires
            old(self).wf(),
        ensures
            final(self).wf(),
            final(self).registry() == after_class_lines(old(self).registry(), lines.deep_view()),
            final(self).options() == old(self).options(),
    {
        let mut i: usize = 0;
        assert(lines.deep_view().take(0) =~= Seq::empty());
        while i < lines.len()
            invariant
                i <= lines.len(),
                self.wf(),
                self.registry() == after_class_lines(
                    old(self).registry(),
                    lines.deep_view().take(i as int),
                ),
                self.options() == old(self).options(),
            decreases lines.len() - i,
        {
            proof {
                let upto = lines.deep_view().take(i + 1);
                assert(upto.drop_last() == lines.deep_view().take(i as int));
                assert(upto.last() == lines@[i as int]@);
            }
            self.parse_class(lines[i].as_str());
            i += 1;
        }
        assert(lines.deep_view().take(lines.len() as int) == lines.deep_view());
    }

    /// The second pass on the lines of one shard.
    pub fn parse_members(&mut self, lines: &Vec<String>)
        requires
            old(self).wf(),
        ensures
            final(self).wf(),
            final(self).registry() == after_member_lines(old(self).registry(), lines.deep_view()),
            final(self).options() == old(self).options(),
    {
        let mut i: usize = 0;
        assert(lines.deep_view().take(0) =~= Seq::empty());
        while i < lines.len()
            invariant
                i <= lines.len(),
                self.wf(),
                self.registry() == after_member_lines(
                    old(self).registry(),
                    lines.deep_view().take(i as int),
                ),
                self.options() == old(self).options(),
            decreases lines.len() - i,
        {
            proof {
                let upto = lines.deep_view().take(i + 1);
                assert(upto.drop_last() == lines.deep_view().take(i as int));
                assert(upto.last() == lines@[i as int]@);
            }
            self.parse_method_methods(lines[i].as_str());
            i += 1;
        }
        assert(lines.deep_view().take(lines.len() as int) == lines.deep_view());
    }

    /// Reads every shard twice: first for the classes that the lines
    /// declare, then for their members and methods. The options are the
    /// default ones.
    pub fn parse_str(all_lines: Vec<Vec<String>>) -> (parser: CtagsParser)
        ensures
            parser.wf(),
            parser.registry() == parsed(all_lines.deep_view()),
            parser.options() == OptionModel::none(),
    {
        let mut parser = CtagsParser::default();
        let ghost shards = all_lines.deep_view();
        let mut i: usize = 0;
        assert(shards.take(0) =~= Seq::empty());
        while i < all_lines.len()
            invariant
                shards == all_lines.deep_view(),
                i <= all_lines.len(),
                parser.wf(),
                parser.registry() == after_class_shards(Seq::empty(), shards.take(i as int)),
                parser.options() == OptionModel::none(),
            decreases all_lines.len() - i,
        {
            proof {
                let upto = shards.take(i + 1);
                assert(upto.drop_last() == shards.take(i as int));
                assert(upto.last() == all_lines@[i as int].deep_view());
            }
            parser.parse_classes(&all_lines[i]);
            i += 1;
        }
        assert(shards.take(all_lines.len() as int) == shards);
        let ghost declared = parser.registry();
        let mut i: usize = 0;
        while i < all_lines.len()
            invariant
                shards == all_lines.deep_view(),
                i <= all_lines.len(),
                parser.wf(),
                parser.registry() == after_member_shards(declared, shards.take(i as int)),
                parser.options() == OptionModel::none(),
            decreases all_lines.len() - i,
        {
            proof {
                let upto = shards.take(i + 1);
                assert(upto.drop_last() == shards.take(i as int));
                assert(upto.last() == all_lines@[i as int].deep_view());
            }
            parser.parse_members(&all_lines[i]);
            i += 1;
        }
        parser
    }

    /// The classes of the registry, finalized: each with its members and
    /// methods in the order of their names, and the classes themselves in
    /// the order of theirs. With the option `merge_method_name`, members and
    /// methods whose names differ only in ASCII case are collapsed into the
    /// first of them.
    pub fn classes(&self) -> (classes: Vec<ClassInfo>)
        ensures
            classes.deep_view() == finalized(self.registry(), self.options().merge_method_name),
            classes.len() == self.registry().len(),
    {
        finalize_classes(&self.class_list, self.option.merge_method_name)
    }

    /// Adds `entry` to the class that the last segment of its owner names,
    /// or drops it where there is no such class.
    pub fn add_entry(&mut self, entry: TagEntry)
        requires
            old(self).wf(),
        ensures
            final(self).wf(),
            final(self).registry() == with_entry(old(self).registry(), entry@),
            final(self).options() == old(self).options(),
    {
        let name = short_name(entry.owner.as_str());
        if name.as_str().is_empty() {
            return;
        }
        match self.lookup_class(name.as_str()) {
            Some(at) => {
                let ghost before = self.class_list@;
                take_entry(&mut self.class_list[at], entry);
                assert(self.class_list@ == before.update(at as int, self.class_list@[at as int]));
                assert(self.registry() =~= with_entry(old(self).registry(), entry@));
                assert(class_names(self.registry()) =~= class_names(old(self).registry()));
            },
            None => {},
        }
    }
}

impl Default for CtagsParser {
    /// A parser with no classes and the default options.
    fn default() -> (parser: CtagsParser)
        ensures
            parser.wf(),
            parser.registry() == Seq::<ClassModel>::empty(),
            parser.options() == OptionModel::none(),
    {
        let parser = CtagsParser { option: ParseOption::default(), class_list: Vec::new() };
        assert(parser.registry() =~= Seq::<ClassModel>::empty());
        assert(class_names(parser.registry()) =~= Seq::<Seq<char>>::empty());
        parser
    }
}

} // verus!
