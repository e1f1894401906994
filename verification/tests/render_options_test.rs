use modeling::render::dependency::{class_parts, dependencies_of};
use modeling::render::graphviz_render::{GraphvizRender, Layer};
use modeling::render::{
    find_referred_class, process_name, render_member, render_method, shown_type_of,
    strip_interface_prefix, MermaidRender, PlantUmlRender,
};
use modeling::{ClassInfo, MemberInfo, MethodInfo, ParseOption};

fn member(name: &str, data_type: &str) -> MemberInfo {
    MemberInfo::new(name, "-".to_string(), data_type.to_string())
}

fn method(name: &str, return_type: &str) -> MethodInfo {
    MethodInfo::new(name, "+".to_string(), vec![], return_type.to_string())
}

fn names(list: &[&str]) -> Vec<String> {
    list.iter().map(|name| name.to_string()).collect()
}

#[test]
fn parents_are_emitted_in_order() {
    let mut demo = ClassInfo::new("Demo");
    demo.parents = names(&["Demo2", "Demo3"]);
    let text = PlantUmlRender::render(&vec![demo], &ParseOption::default());
    assert_eq!(
        "@startuml\n\nDemo2 <|-- Demo\n\nDemo3 <|-- Demo\n\nclass Demo {\n}\n\n@enduml",
        text
    );
}

#[test]
fn parents_can_be_left_out() {
    let mut demo = ClassInfo::new("Demo");
    demo.parents = names(&["Demo2", "Demo3"]);
    let mut option = ParseOption::default();
    option.without_parent = true;
    let text = PlantUmlRender::render(&vec![demo.clone()], &option);
    assert_eq!("@startuml\n\nclass Demo {\n}\n\n@enduml", text);
    let text = MermaidRender::render(&vec![demo], &option);
    assert_eq!("    class Demo {\n    }\n", text);
}

#[test]
fn suffix_is_taken_off_headers_and_edges() {
    let mut demo = ClassInfo::new("DemoDto");
    demo.methods.push(method("method", "Demo2"));
    let demo2 = ClassInfo::new("Demo2Dto");
    let mut option = ParseOption::default();
    option.without_suffix = "Dto".to_string();
    let text = PlantUmlRender::render(&vec![demo, demo2], &option);
    assert_eq!(
        "@startuml\n\nclass Demo {\n  + Demo2 method()\n}\n\nclass Demo2 {\n}\nDemo -- Demo2\n\n@enduml",
        text
    );
}

#[test]
fn interface_prefix_is_taken_off() {
    assert_eq!("Repository", strip_interface_prefix("IRepository"));
    assert_eq!("Id", strip_interface_prefix("Id"));
    assert_eq!("Item", strip_interface_prefix("Item"));
    assert_eq!("I18n", strip_interface_prefix("I18n"));
    assert_eq!("IO", strip_interface_prefix("IO"));
    assert_eq!("Os", strip_interface_prefix("IOs"));
    assert_eq!("", strip_interface_prefix(""));

    let mut demo = ClassInfo::new("Demo");
    demo.members.push(member("repo", "IRepository"));
    demo.members.push(member("key", "Id"));
    let repository = ClassInfo::new("Repository");
    let mut option = ParseOption::default();
    option.without_impl_suffix = true;
    let text = PlantUmlRender::render(&vec![demo.clone(), repository.clone()], &option);
    assert!(text.contains("  - Repository repo\n"));
    assert!(text.contains("  - Id key\n"));
    assert!(text.contains("Demo -- Repository\n"));

    let plain = PlantUmlRender::render(&vec![demo, repository], &ParseOption::default());
    assert!(plain.contains("  - IRepository repo\n"));
    assert!(!plain.contains("Demo -- Repository"));
}

#[test]
fn foreign_keys_are_shown_as_classes() {
    let known = names(&["User", "Role"]);
    assert_eq!(Some("User".to_string()), find_referred_class("UserId", &known));
    assert_eq!(Some("Role".to_string()), find_referred_class("RoleIds", &known));
    assert_eq!(None, find_referred_class("GroupId", &known));
    assert_eq!(None, find_referred_class("Id", &known));
    assert_eq!(None, find_referred_class("User", &known));

    let mut order = ClassInfo::new("Order");
    order.members.push(member("UserId", "int"));
    order.members.push(member("RoleIds", "List"));
    order.members.push(member("GroupId", "int"));
    let classes = vec![order, ClassInfo::new("Role"), ClassInfo::new("User")];
    let mut option = ParseOption::default();
    option.inline_id_suffix = true;
    let text = PlantUmlRender::render(&classes, &option);
    assert!(text.contains("  - User UserId\n"));
    assert!(text.contains("  - Role RoleIds\n"));
    assert!(text.contains("  - int GroupId\n"));
    assert!(text.ends_with("}\nOrder -- Role\nOrder -- User\n\n@enduml"));
    assert_eq!("int", shown_type_of(&member("UserId", "int"), &ParseOption::default(), &known));
    assert_eq!("User", shown_type_of(&member("UserId", "int"), &option, &known));
}

#[test]
fn methods_can_be_left_out() {
    let mut demo = ClassInfo::new("Demo");
    demo.members.push(member("other", "Demo3"));
    demo.methods.push(method("method", "Demo2"));
    let classes = vec![demo, ClassInfo::new("Demo2"), ClassInfo::new("Demo3")];
    let mut option = ParseOption::default();
    option.field_only = true;
    let text = PlantUmlRender::render(&classes, &option);
    assert!(!text.contains("method()"));
    assert!(!text.contains("Demo -- Demo2"));
    assert!(text.contains("Demo -- Demo3"));
}

#[test]
fn dependencies_are_sorted_distinct_and_known() {
    let found = dependencies_of(
        &names(&["Zed", "Demo", "Alpha", "Unknown", "Zed", "alpha", "Alpha"]),
        "Demo",
        &names(&["Demo", "Alpha", "Zed", "alpha"]),
    );
    assert_eq!(names(&["Alpha", "Zed", "alpha"]), found);
    assert!(dependencies_of(&vec![], "Demo", &names(&["Demo"])).is_empty());
}

#[test]
fn edges_between_the_same_pair_are_not_merged() {
    let mut first = ClassInfo::new("First");
    first.members.push(member("a", "Second"));
    first.methods.push(method("b", "Second"));
    let mut second = ClassInfo::new("Second");
    second.members.push(member("c", "First"));
    let text = PlantUmlRender::render(&vec![first, second], &ParseOption::default());
    assert!(text.ends_with("}\nFirst -- Second\nSecond -- First\n\n@enduml"));
}

#[test]
fn members_and_methods_without_type() {
    let mut demo = ClassInfo::new("Demo");
    demo.members.push(member("plain", ""));
    demo.methods.push(method("run", ""));
    let mut dep_map = vec![];
    let lines = render_member(&demo, &mut dep_map, "    ", &ParseOption::default(), &vec![]);
    assert_eq!(vec!["      -plain\n".to_string()], lines);
    let lines = render_method(&demo, &mut dep_map, "", &ParseOption::default());
    assert_eq!(vec!["  +run()\n".to_string()], lines);
    assert!(dep_map.is_empty());
}

#[test]
fn inner_types_are_what_a_class_depends_on() {
    let mut demo = ClassInfo::new("Demo");
    let mut list = member("items", "Vec<Item>");
    list.pure_data_type = "Item".to_string();
    demo.members.push(list);
    demo.methods.push(method("first", "Item"));
    let mut dep_map = vec!["Before".to_string()];
    render_member(&demo, &mut dep_map, "", &ParseOption::default(), &vec![]);
    render_method(&demo, &mut dep_map, "", &ParseOption::default());
    assert_eq!(names(&["Before", "Item", "Item"]), dep_map);
    let parts = class_parts(&demo, "", &ParseOption::default(), &names(&["Demo", "Item"]));
    assert_eq!(names(&["  - Vec<Item> items\n", "  + Item first()\n"]), parts.body);
    assert_eq!(names(&["Item"]), parts.dependencies);
}

#[test]
fn names_as_shown() {
    let mut option = ParseOption::default();
    assert_eq!("DemoDto", process_name(&option, "DemoDto"));
    option.without_suffix = "Dto".to_string();
    assert_eq!("Demo", process_name(&option, "DemoDto"));
    assert_eq!("", process_name(&option, "Dto"));
    assert_eq!("Dtos", process_name(&option, "Dtos"));
    assert_eq!("to", process_name(&option, "to"));
}

#[test]
fn mermaid_indents_every_line() {
    let mut demo = ClassInfo::new("Demo");
    demo.parents = names(&["Base", "Other"]);
    demo.members.push(member("demo", "String"));
    demo.methods.push(method("base", "Base"));
    let text = MermaidRender::render(&vec![ClassInfo::new("Base"), demo], &ParseOption::default());
    assert_eq!(
        "    class Base {\n    }\n\n    Base <|-- Demo\n\n    Other <|-- Demo\n\n    class Demo {\n      - String demo\n      + Base base()\n    }\n    Demo -- Base\n",
        text
    );
    let none: Vec<ClassInfo> = vec![];
    assert_eq!("\n", MermaidRender::render(&none, &ParseOption::default()));
}

#[test]
fn empty_class_has_an_empty_body_everywhere() {
    let classes = vec![ClassInfo::new("Demo")];
    let option = ParseOption::default();
    assert_eq!("@startuml\n\nclass Demo {\n}\n\n@enduml", PlantUmlRender::render(&classes, &option));
    assert_eq!("    class Demo {\n    }\n", MermaidRender::render(&classes, &option));
    assert_eq!(
        "digraph G {\n  compound=true;\n  ranksep=1\n  node[shape=record]\n\n\n}",
        GraphvizRender::render(&classes, &option)
    );
    let data = GraphvizRender::data(&classes, &option);
    assert_eq!(1, data.nodes.len());
    assert!(data.links.is_empty());
}

#[test]
fn rendering_twice_gives_the_same_text() {
    let mut service = ClassInfo::new("UserService");
    service.members.push(member("repository", "UserRepository"));
    service.members.push(member("audit", "AuditService"));
    service.methods.push(method("find", "User"));
    let classes = vec![
        service,
        ClassInfo::new("UserRepository"),
        ClassInfo::new("User"),
        ClassInfo::new("AuditService"),
    ];
    let option = ParseOption::default();
    assert_eq!(PlantUmlRender::render(&classes, &option), PlantUmlRender::render(&classes, &option));
    assert_eq!(MermaidRender::render(&classes, &option), MermaidRender::render(&classes, &option));
    assert_eq!(GraphvizRender::render(&classes, &option), GraphvizRender::render(&classes, &option));
    assert!(PlantUmlRender::render(&classes, &option)
        .ends_with("}\nUserService -- AuditService\nUserService -- User\nUserService -- UserRepository\n\n@enduml"));
}

#[test]
fn layers_by_ending() {
    assert_eq!(Layer::Repository, Layer::of("UserRepository"));
    assert_eq!(Layer::Controller, Layer::of("UserController"));
    assert_eq!(Layer::Controller, Layer::of("UserCtrl"));
    assert_eq!(Layer::Service, Layer::of("UserService"));
    assert_eq!(Layer::Service, Layer::of("UserServiceImpl"));
    assert_eq!(Layer::Unclustered, Layer::of("UserServices"));
    assert_eq!(Layer::Unclustered, Layer::of("User"));
    assert_eq!(1, Layer::Repository.index());
    assert_eq!(2, Layer::Controller.index());
    assert_eq!(3, Layer::Service.index());
    assert_eq!(4, Layer::Unclustered.index());
    assert_eq!("Service", Layer::Service.name());
    assert_eq!("", Layer::Unclustered.name());
}

#[test]
fn graph_clusters_layers_and_marks_expected_arrows() {
    let mut service = ClassInfo::new("UserService");
    service.package = "app.service".to_string();
    service.members.push(member("repository", "UserRepository"));
    service.members.push(member("user", "User"));
    let mut controller = ClassInfo::new("UserCtrl");
    controller.members.push(member("service", "UserService"));
    let mut repository = ClassInfo::new("UserRepository");
    repository.package = "app.data".to_string();
    let classes = vec![
        service,
        controller,
        repository,
        ClassInfo::new("User"),
        ClassInfo::new("RoleRepository"),
    ];
    let option = ParseOption::default();
    let text = GraphvizRender::render(&classes, &option);
    assert_eq!(
        "digraph G {\n  compound=true;\n  ranksep=1\n  node[shape=record]\n\
\n  subgraph cluster_Controller{\n    UserCtrl\n    }\n\
\n  subgraph cluster_Repository{\n    UserRepository\n    RoleRepository\n    }\n\
\n  subgraph cluster_Service{\n    UserService\n    }\n\
UserService -> User\nUserService -> UserRepository [color=red]\nUserCtrl -> UserService\n\n}",
        text
    );
    let data = GraphvizRender::data(&classes, &option);
    let nodes: Vec<(&str, &str, usize)> =
        data.nodes.iter().map(|n| (n.id.as_str(), n.package.as_str(), n.group)).collect();
    assert_eq!(
        vec![
            ("UserService", "app.service", 3),
            ("UserCtrl", "", 2),
            ("UserRepository", "app.data", 1),
            ("User", "", 4),
            ("RoleRepository", "", 1),
        ],
        nodes
    );
    let links: Vec<(&str, &str, usize, &str)> = data
        .links
        .iter()
        .map(|l| (l.source.as_str(), l.target.as_str(), l.value, l.package.as_str()))
        .collect();
    assert_eq!(
        vec![
            ("UserService", "User", 1, "app.service"),
            ("UserService", "UserRepository", 1, "app.service"),
            ("UserCtrl", "UserService", 1, ""),
        ],
        links
    );
}
