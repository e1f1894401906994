use modeling::file_filter::{filter_by_packages, filter_by_suffix, FileFilter, FilePath};

fn path_of(parts: &[&str]) -> FilePath {
    let components: Vec<String> = parts.iter().map(|part| part.to_string()).collect();
    let file_name = components.last().cloned();
    FilePath::new(parts.join("/"), components, file_name)
}

#[test]
fn should_filter_by_file_name_suffix() {
    let buf = path_of(&["model", "CustomModel.java"]);
    let suffixes = vec!["Model".to_string()];

    assert!(filter_by_suffix(buf, &suffixes));
}

#[test]
fn should_return_false_when_not_correct_name() {
    let buf = path_of(&["controller", "CustomController.java"]);
    let suffixes = vec!["Model".to_string()];

    assert_eq!(false, filter_by_suffix(buf, &suffixes));
}

#[test]
fn should_no_filter_for_empty_suffix() {
    let buf = path_of(&["controller", "CustomController.java"]);
    let suffixes: Vec<String> = vec![];

    assert_eq!(true, filter_by_suffix(buf, &suffixes));
}

#[test]
fn should_filter_by_package() {
    let buf = path_of(&["model", "CustomModel.java"]);

    let suffixes = vec!["model".to_string()];

    assert!(filter_by_packages(buf, &suffixes));
}

#[test]
fn should_return_no_when_no_in_dir() {
    let buf = path_of(&["model", "CustomModel.java"]);

    let suffixes = vec!["controller".to_string()];

    assert_eq!(false, filter_by_packages(buf, &suffixes));
}

#[test]
fn should_no_filter_for_empty_package() {
    let buf = path_of(&["model", "CustomModel.java"]);

    let suffixes: Vec<String> = vec![];

    assert!(filter_by_packages(buf, &suffixes));
}

#[test]
fn filter_without_rules_allows_everything() {
    let filter = FileFilter::default();
    assert!(filter.allow(path_of(&["src", "lib.rs"])));
}

#[test]
fn filter_with_pattern_searches_the_path() {
    let filter = FileFilter::new(vec![], vec![], ".*Service".to_string());
    assert!(filter.allow(path_of(&["app", "UserService.java"])));
    assert!(!filter.allow(path_of(&["app", "UserRepository.java"])));
}

#[test]
fn filter_with_broken_pattern_allows_nothing() {
    let filter = FileFilter::new(vec![], vec![], "(".to_string());
    assert!(!filter.allow(path_of(&["app", "UserService.java"])));
}

#[test]
fn filter_prefers_packages_to_suffixes() {
    let filter = FileFilter::new(vec!["model".to_string()], vec!["Controller".to_string()], String::new());
    assert!(filter.allow(path_of(&["model", "Custom.java"])));
    assert!(!filter.allow(path_of(&["controller", "CustomController.java"])));
}

#[test]
fn filter_by_suffix_needs_a_file_name() {
    let path = FilePath::new("..".to_string(), vec!["..".to_string()], None);
    assert!(!filter_by_suffix(path, &vec!["Model".to_string()]));
}
