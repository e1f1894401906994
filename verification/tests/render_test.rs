use modeling::render::PlantUmlRender;
use modeling::{ClassInfo, MemberInfo, MethodInfo, ParseOption};

#[test]
fn should_render_empty() {
    let classes = vec![];
    let str = PlantUmlRender::render(&classes, &ParseOption::default());
    assert_eq!("@startuml\n\n\n\n@enduml", str);
}

#[test]
fn should_render_single_empty_class() {
    let mut classes = vec![];
    let demo = ClassInfo::new("Demo");
    classes.push(demo);

    let str = PlantUmlRender::render(&classes, &ParseOption::default());
    assert_eq!("@startuml\n\nclass Demo {\n}\n\n@enduml", str);
}

#[test]
fn should_render_member_method() {
    let mut classes = vec![];
    let mut demo = ClassInfo::new("Demo");

    let member = MemberInfo::new("demo", "-".to_string(), "String".to_string());
    demo.members.push(member);

    let method = MethodInfo::new("method", "-".to_string(), vec![], "Demo".to_string());
    demo.methods.push(method);

    classes.push(demo);

    let str = PlantUmlRender::render(&classes, &ParseOption::default());
    assert_eq!(
        "@startuml\n\nclass Demo {\n  - String demo\n  - Demo method()\n}\n\n@enduml",
        str
    );
}

#[test]
fn should_render_deps() {
    let mut classes = vec![];
    let mut demo = ClassInfo::new("Demo");
    let demo2 = ClassInfo::new("Demo2");

    let member = MemberInfo::new("demo", "-".to_string(), "String".to_string());
    demo.members.push(member);

    let method = MethodInfo::new("method", "-".to_string(), vec![], "Demo2".to_string());
    demo.methods.push(method);

    classes.push(demo);
    classes.push(demo2);

    let str = PlantUmlRender::render(&classes, &ParseOption::default());
    assert_eq!(true, str.contains("Demo -- Demo2"));
    assert_eq!(false, str.contains("Demo -- String"));
}

#[test]
fn should_render_parents() {
    let mut classes = vec![];
    let mut demo = ClassInfo::new("Demo");
    let demo2 = ClassInfo::new("Demo2");

    demo.parents.push(demo2.name.clone());

    classes.push(demo);
    classes.push(demo2);

    let str = PlantUmlRender::render(&classes, &ParseOption::default());
    println!("{}", str);
    assert!(str.contains("Demo2 <|-- Demo"));
}

#[test]
fn should_render_array() {
    let mut classes = vec![];
    let mut demo = ClassInfo::new("Demo");
    let demo2 = ClassInfo::new("Demo2");

    let mut method = MethodInfo::new("method", "-".to_string(), vec![], "[]Demo2".to_string());
    method.pure_return_type = "Demo2".to_string();
    demo.methods.push(method);

    classes.push(demo);
    classes.push(demo2);

    let str = PlantUmlRender::render(&classes, &ParseOption::default());
    assert_eq!(true, str.contains("Demo -- Demo2"));
    assert_eq!(false, str.contains("Demo -- String"));
}

#[test]
fn should_remove_suffix_text() {
    let mut classes = vec![];
    let mut demo = ClassInfo::new("DemoDto");
    let demo2 = ClassInfo::new("Demo2Dto");

    let mut method = MethodInfo::new("method", "-".to_string(), vec![], "[]Demo2".to_string());
    method.pure_return_type = "Demo2".to_string();
    demo.methods.push(method);

    classes.push(demo);
    classes.push(demo2);

    let mut parse_option = ParseOption::default();
    parse_option.without_suffix = "Dto".to_string();

    let str = PlantUmlRender::render(&classes, &parse_option);
    assert_eq!(true, str.contains("Demo -- Demo2"));
    assert_eq!(false, str.contains("Demo -- String"));
}

#[test]
fn should_char() {
    let str = "IRepo";
    let char = str.chars().nth(1).unwrap();
    assert_eq!('R', char);
}
