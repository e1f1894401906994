use modeling::{CtagsParser, ParseOption};

fn shard(text: &str) -> Vec<String> {
    text.lines().map(|line| line.to_string()).collect()
}

#[test]
pub fn should_replace_keyword() {
    assert_eq!("", CtagsParser::remove_keywords("public".to_string()));
}

#[test]
pub fn should_get_return_type() {
    let str = "MethodIdentifier	SubscriberRegistry.java	/^    MethodIdentifier(Method method) {$/;\"	method	line:239	language:Java	class:SubscriberRegistry.MethodIdentifier	access:default
MethodIdentifier	SubscriberRegistry.java	/^  private static final class MethodIdentifier {$/;\"	class	line:234	language:Java	class:SubscriberRegistry	access:private";

    let lines = vec![shard(str)];
    let parser = CtagsParser::parse_str(lines);
    let classes = parser.classes();

    assert_eq!(1, classes.len());
    let first_method = classes[0].methods[0].clone();
    assert_eq!("MethodIdentifier", first_method.return_type);
}

#[test]
fn should_get_parameters() {
    let str = "MethodIdentifier	SubscriberRegistry.java	/^    MethodIdentifier(Method method) {$/;\"	method	line:239	language:Java	class:SubscriberRegistry.MethodIdentifier	access:default
MethodIdentifier	SubscriberRegistry.java	/^  private static final class MethodIdentifier {$/;\"	class	line:234	language:Java	class:SubscriberRegistry	access:private";

    let parameters = CtagsParser::pick_parameter_list(str);
    assert_eq!(vec![String::from("Method method")], parameters);
}

#[test]
pub fn should_build_rust_datatype() {
    let str =
        "MethodInfo	src/coco_struct.rs	/^pub struct MethodInfo {$/;\"	struct	line:21	language:Rust
name	src/coco_struct.rs	/^    pub name: String,$/;\"	field	line:22	language:Rust	struct:MethodInfo";

    let lines = vec![shard(str)];
    let parser = CtagsParser::parse_str(lines);
    let classes = parser.classes();

    assert_eq!(1, classes.len());
    assert_eq!("String", classes[0].members[0].data_type);
    assert_eq!("+", classes[0].members[0].access);
}

#[test]
pub fn should_build_rust_method_datatype() {
    let str = r#"GraphvizRender	graphviz_render.rs	/^pub struct GraphvizRender;$/;"	struct	line:11	language:Rust
render	graphviz_render.rs	/^    pub fn render(classes: &Vec<ClassInfo>, parse_option: &ParseOption) -> String {$/;"	method	line:35	language:Rust	implementation:GraphvizRender"#;

    let lines = vec![shard(str)];
    let parser = CtagsParser::parse_str(lines);
    let classes = parser.classes();

    assert_eq!(1, classes.len());
    assert_eq!("render", classes[0].methods[0].name);
}

#[test]
pub fn should_merge_duplicate() {
    let str = "\
MethodIdentifier	SubscriberRegistry.java	/^    MethodIdentifier(Method method) {$/;\"	method	line:239	language:Java	class:SubscriberRegistry.MethodIdentifier	access:default
MethodIdentifier	SubscriberRegistry.java	/^    MethodIdentifier(Method method) {$/;\"	method	line:238	language:Java	class:SubscriberRegistry.MethodIdentifier	access:default
MethodIdentifier	SubscriberRegistry.java	/^  private static final class MethodIdentifier {$/;\"	class	line:234	language:Java	class:SubscriberRegistry	access:private";

    let lines = vec![shard(str)];
    let parser = CtagsParser::parse_str(lines.clone());
    let classes = parser.classes();

    assert_eq!(2, classes[0].methods.len());

    let mut option = ParseOption::default();
    option.merge_method_name = true;

    let mut parser = CtagsParser::parse_str(lines);
    parser.option = option;
    let classes = parser.classes();

    assert_eq!(1, classes[0].methods.len());
}
