use path_facts::PathFacts;

#[test]
fn test_empty_path() {
    let facts = PathFacts::new("");
    assert!(facts.pending().is_none());
    let expected = "path `` is empty\n";
    assert_eq!(expected.trim(), facts.report().unwrap().trim());
}
