use modeling::ctags::tag_entry::TagEntry;
use modeling::ctags::tag_line::{access_marker_of, parse_line_number, short_name, split_parameters, TagKind};
use modeling::ctags::type_rules::{parse_rust_access, read_declared_type, resolve_self, Language};
use modeling::{ClassInfo, CtagsParser, ParseOption};

fn shard(text: &str) -> Vec<String> {
    text.lines().map(|line| line.to_string()).collect()
}

fn parse(text: &str) -> Vec<ClassInfo> {
    CtagsParser::parse_str(vec![shard(text)]).classes()
}

#[test]
fn second_declaration_overwrites_the_first() {
    let text = "Demo\tone.java\t/^class Demo {$/;\"\tclass\tline:1\tlanguage:Java\tinherits:Base
Demo\ttwo.java\t/^class Demo {$/;\"\tclass\tline:9\tlanguage:Java";
    let classes = parse(text);
    assert_eq!(1, classes.len());
    assert_eq!("Demo", classes[0].name);
    assert_eq!("two.java", classes[0].file);
    assert_eq!("", classes[0].package);
    assert!(classes[0].parents.is_empty());
}

#[test]
fn distinct_declarations_give_one_class_each() {
    let text = "Beta\tb.java\t/^class Beta {$/;\"\tclass\tline:1\tlanguage:Java
alpha\ta.java\t/^class alpha {$/;\"\tclass\tline:1\tlanguage:Java
Gamma\tg.java\t/^struct Gamma {$/;\"\tstruct\tline:1\tlanguage:C";
    let classes = parse(text);
    let names: Vec<&str> = classes.iter().map(|class| class.name.as_str()).collect();
    assert_eq!(vec!["alpha", "Beta", "Gamma"], names);
}

#[test]
fn shards_are_read_in_two_passes() {
    let members = "id\tUser.java\t/^    private Long id;$/;\"\tfield\tline:3\tlanguage:Java\tclass:com.User\taccess:private";
    let classes = "User\tUser.java\t/^public class User {$/;\"\tclass\tline:1\tlanguage:Java";
    let parser = CtagsParser::parse_str(vec![shard(members), shard(classes)]);
    let found = parser.classes();
    assert_eq!(1, found.len());
    assert_eq!(1, found[0].members.len());
    assert_eq!("id", found[0].members[0].name);
    assert_eq!("Long", found[0].members[0].data_type);
    assert_eq!("-", found[0].members[0].access);
    assert_eq!(3, found[0].members[0].line_no);
    assert_eq!("com.User", found[0].package);
    assert_eq!("Java", found[0].lang);
    assert_eq!("User.java", found[0].file);
}

#[test]
fn inherits_lists_the_parents_in_order() {
    let text = "Horse\tanimal.ts\t/^class Horse extends Animal {$/;\"\tclass\tline:20\tlanguage:TypeScript\tinherits:Animal,Runner";
    let classes = parse(text);
    assert_eq!(vec!["Animal".to_string(), "Runner".to_string()], classes[0].parents);
}

#[test]
fn member_of_an_unknown_class_is_dropped() {
    let text = "User\tUser.java\t/^public class User {$/;\"\tclass\tline:1\tlanguage:Java
id\tOther.java\t/^    private Long id;$/;\"\tfield\tline:3\tlanguage:Java\tclass:Other\taccess:private
name\tOther.java\t/^    private String name;$/;\"\tfield\tline:4\tlanguage:Java\taccess:private";
    let classes = parse(text);
    assert_eq!(1, classes.len());
    assert!(classes[0].members.is_empty());
    assert_eq!("", classes[0].lang);
}

#[test]
fn other_kinds_of_tag_change_nothing() {
    let text = "User\tUser.java\t/^public class User {$/;\"\tclass\tline:1\tlanguage:Java
Role\tUser.java\t/^    enum Role {$/;\"\tenum\tline:3\tlanguage:Java\tclass:User\taccess:private";
    let classes = parse(text);
    assert_eq!(1, classes.len());
    assert!(classes[0].members.is_empty());
    assert!(classes[0].methods.is_empty());
    assert_eq!("", classes[0].package);
    assert_eq!("", classes[0].lang);
}

#[test]
fn unsupported_language_leaves_the_type_empty() {
    let text = "User\tuser.py\t/^class User:$/;\"\tclass\tline:1\tlanguage:Python
name\tuser.py\t/^    name = None$/;\"\tmember\tline:2\tlanguage:Python\tclass:User\taccess:public";
    let classes = parse(text);
    assert_eq!(1, classes[0].members.len());
    assert_eq!("", classes[0].members[0].data_type);
    assert_eq!("+", classes[0].members[0].access);
    assert_eq!("Python", classes[0].lang);
}

#[test]
fn go_fields_share_the_trailing_type() {
    let text = "Info\tinfo.go\t/^type Info struct {$/;\"\tstruct\tline:1\tlanguage:Go
access\tinfo.go\t/^\tname, access, returntype string$/;\"\tmember\tline:2\tlanguage:Go\tstruct:pkg.Info
id\tinfo.go\t/^\tid int$/;\"\tmember\tline:3\tlanguage:Go\tstruct:pkg.Info";
    let classes = parse(text);
    assert_eq!(2, classes[0].members.len());
    assert_eq!("access", classes[0].members[0].name);
    assert_eq!("string", classes[0].members[0].data_type);
    assert_eq!("id", classes[0].members[1].name);
    assert_eq!("int", classes[0].members[1].data_type);
    assert_eq!("pkg.Info", classes[0].package);
}

#[test]
fn typescript_members_take_the_type_after_the_colon() {
    let text = "Animal\tanimal.ts\t/^class Animal {$/;\"\tclass\tline:1\tlanguage:TypeScript
name\tanimal.ts\t/^    name: string;$/;\"\tproperty\tline:2\tlanguage:TypeScript\tclass:Animal
move\tanimal.ts\t/^    move(distanceInMeters: number = 0) {$/;\"\tmethod\tline:4\tlanguage:TypeScript\tclass:Animal";
    let classes = parse(text);
    assert_eq!("string", classes[0].members[0].data_type);
    assert_eq!("move", classes[0].methods[0].name);
    assert_eq!(vec!["distanceInMeters: number = 0".to_string()], classes[0].methods[0].parameters);
}

#[test]
fn rust_fields_carry_inner_type_and_access() {
    let text = "ClassInfo\tsrc/coco_struct.rs\t/^pub struct ClassInfo {$/;\"\tstruct\tline:40\tlanguage:Rust
parents\tsrc/coco_struct.rs\t/^    pub parents: Vec<String>,$/;\"\tfield\tline:43\tlanguage:Rust\tstruct:ClassInfo
id\tsrc/coco_struct.rs\t/^    id: i32,$/;\"\tfield\tline:41\tlanguage:Rust\tstruct:ClassInfo";
    let classes = parse(text);
    let members = &classes[0].members;
    assert_eq!("id", members[0].name);
    assert_eq!("i32", members[0].data_type);
    assert_eq!("-", members[0].access);
    assert_eq!("parents", members[1].name);
    assert_eq!("Vec<String>", members[1].data_type);
    assert_eq!("String", members[1].pure_data_type);
    assert_eq!("+", members[1].access);
    assert_eq!(43, members[1].line_no);
}

#[test]
fn rust_methods_resolve_self() {
    let text = "Opt\tsrc/opt.rs\t/^pub struct Opt;$/;\"\tstruct\tline:1\tlanguage:Rust
build\tsrc/opt.rs\t/^    fn build() -> Self {$/;\"\tmethod\tline:5\tlanguage:Rust\timplementation:Opt
size\tsrc/opt.rs\t/^    fn size(&self, scale: u8, unit: u8) -> usize {$/;\"\tmethod\tline:9\tlanguage:Rust\timplementation:Opt";
    let classes = parse(text);
    let methods = &classes[0].methods;
    assert_eq!("build", methods[0].name);
    assert_eq!("Opt", methods[0].return_type);
    assert!(methods[0].parameters.is_empty());
    assert_eq!("size", methods[1].name);
    assert_eq!("usize", methods[1].return_type);
    assert_eq!(
        vec!["&self".to_string(), " scale: u8".to_string(), " unit: u8".to_string()],
        methods[1].parameters
    );
    assert!(!methods[1].parameter_too_long());
}

#[test]
fn members_are_sorted_without_regard_to_case() {
    let text = "User\tUser.java\t/^public class User {$/;\"\tclass\tline:1\tlanguage:Java
Beta\tUser.java\t/^    int Beta;$/;\"\tfield\tline:2\tlanguage:Java\tclass:User
alpha\tUser.java\t/^    int alpha;$/;\"\tfield\tline:3\tlanguage:Java\tclass:User
ALPHA\tUser.java\t/^    int ALPHA;$/;\"\tfield\tline:4\tlanguage:Java\tclass:User";
    let classes = parse(text);
    let names: Vec<&str> = classes[0].members.iter().map(|m| m.name.as_str()).collect();
    assert_eq!(vec!["alpha", "ALPHA", "Beta"], names);

    let mut parser = CtagsParser::parse_str(vec![shard(text)]);
    let mut option = ParseOption::default();
    option.merge_method_name = true;
    parser.option = option;
    let merged = parser.classes();
    let names: Vec<&str> = merged[0].members.iter().map(|m| m.name.as_str()).collect();
    assert_eq!(vec!["alpha", "Beta"], names);
    assert_eq!(3, merged[0].members[0].line_no);
}

#[test]
fn access_markers() {
    assert_eq!("+", access_marker_of("public"));
    assert_eq!("-", access_marker_of("private"));
    assert_eq!("#", access_marker_of("protected"));
    assert_eq!("", access_marker_of("default"));
    assert_eq!("", access_marker_of(""));
}

#[test]
fn rust_access_from_the_words_before_the_colon() {
    assert_eq!("+", parse_rust_access("pub name"));
    assert_eq!("#", parse_rust_access("pub(crate) name"));
    assert_eq!("-", parse_rust_access("name"));
    assert_eq!("-", parse_rust_access(""));
}

#[test]
fn line_numbers() {
    assert_eq!(0, parse_line_number(""));
    assert_eq!(7, parse_line_number("007"));
    assert_eq!(2147483647, parse_line_number("2147483647"));
    assert_eq!(0, parse_line_number("2147483648"));
    assert_eq!(0, parse_line_number("99999999999999999999999"));
    assert_eq!(0, parse_line_number("12a"));
    assert_eq!(0, parse_line_number("+5"));
}

#[test]
fn short_names() {
    assert_eq!("MethodIdentifier", short_name("SubscriberRegistry.MethodIdentifier"));
    assert_eq!("User", short_name("User"));
    assert_eq!("", short_name("pkg."));
    assert_eq!("", short_name(""));
}

#[test]
fn parameter_texts() {
    assert!(split_parameters("").is_empty());
    assert_eq!(vec!["a".to_string()], split_parameters("a"));
    assert_eq!(
        vec!["Map<K".to_string(), " V> m".to_string(), "".to_string()],
        split_parameters("Map<K, V> m,")
    );
    assert!(CtagsParser::pick_parameter_list("no list here").is_empty());
    assert!(CtagsParser::pick_parameter_list("/^  run() {$/").is_empty());
}

#[test]
fn keywords_are_removed_once_each() {
    assert_eq!(
        "   int count; public ",
        CtagsParser::remove_keywords("public static final int count; public ".to_string())
    );
    assert_eq!("ab", CtagsParser::remove_keywords("a*:b".to_string()));
    assert_eq!("a*b", CtagsParser::remove_keywords("a**b".to_string()));
}

#[test]
fn languages_by_name() {
    assert_eq!(Language::Java, Language::from_name("Java"));
    assert_eq!(Language::CSharp, Language::from_name("C#"));
    assert_eq!(Language::Cpp, Language::from_name("C++"));
    assert_eq!(Language::Rust, Language::from_name("Rust"));
    assert_eq!(Language::Go, Language::from_name("Go"));
    assert_eq!(Language::TypeScript, Language::from_name("TypeScript"));
    assert_eq!(Language::Other, Language::from_name("java"));
    assert_eq!(Language::Other, Language::from_name(""));
}

#[test]
fn kinds_by_name() {
    assert_eq!(Some(TagKind::Member), TagKind::from_name("member"));
    assert_eq!(Some(TagKind::Member), TagKind::from_name("field"));
    assert_eq!(Some(TagKind::Member), TagKind::from_name("property"));
    assert_eq!(Some(TagKind::Method), TagKind::from_name("method"));
    assert_eq!(Some(TagKind::Method), TagKind::from_name("function"));
    assert_eq!(None, TagKind::from_name("class"));
}

#[test]
fn self_stands_for_the_class() {
    assert_eq!("Opt", resolve_self("Self".to_string(), "Opt"));
    assert_eq!("usize", resolve_self("usize".to_string(), "Opt"));
}

#[test]
fn declared_type_by_language() {
    let line = "count\tA.cs\t/^    public static int count;$/;\"\tfield\tline:2\tlanguage:C#\tclass:A";
    assert_eq!("int", read_declared_type(Language::CSharp, line, "A").data_type);
    assert_eq!("", read_declared_type(Language::Other, line, "A").data_type);
    let found = read_declared_type(Language::Rust, "x\ta.rs\t/^    pub items: Option<Vec<Item>>,$/;\"", "A");
    assert_eq!("Option<Vec<Item>>", found.data_type);
    assert_eq!("Item", found.pure_data_type);
    assert_eq!(Some("+".to_string()), found.access);
}

#[test]
fn entry_of_a_line() {
    let line = "save\tRepo.java\t/^    protected void save(User user, int times) {$/;\"\tmethod\tline:12\tlanguage:Java\tclass:app.Repo\taccess:protected";
    let entry = TagEntry::read(line).unwrap();
    assert_eq!("save", entry.name);
    assert_eq!(TagKind::Method, entry.kind);
    assert_eq!(12, entry.line_no);
    assert_eq!("app.Repo", entry.owner);
    assert_eq!("#", entry.access);
    assert_eq!("Java", entry.language);
    assert_eq!("void", entry.data_type);
    assert_eq!(vec!["User user".to_string(), " int times".to_string()], entry.parameters);
    assert!(TagEntry::read("not a tag line").is_none());
    assert!(TagEntry::read("Repo\tRepo.java\t/^class Repo {$/;\"\tclass\tline:1").is_none());
}

#[test]
fn entries_and_classes_can_be_added_by_hand() {
    let mut parser = CtagsParser::default();
    parser.register(ClassInfo::new("Repo"));
    parser.parse_class("Extra\tx.java\t/^class Extra {$/;\"\tclass\tline:1\tlanguage:Java");
    assert_eq!(Some(0), parser.lookup_class("Repo"));
    assert_eq!(Some(1), parser.lookup_class("Extra"));
    assert_eq!(None, parser.lookup_class("Other"));
    let line = "save\tRepo.java\t/^    void save() {$/;\"\tmethod\tline:12\tlanguage:Java\tclass:app.Repo";
    parser.add_entry(TagEntry::read(line).unwrap());
    parser.parse_method_methods(line);
    let classes = parser.classes();
    assert_eq!("Extra", classes[0].name);
    assert_eq!("Repo", classes[1].name);
    assert_eq!(2, classes[1].methods.len());
}
