use modeling::segment::segment;

#[test]
fn should_segmentation() {
    assert_eq!(vec!["Hierarchy".to_string(), "Id".to_string()], segment("HierarchyId"));
}
