use pubsub_proto::Pattern;

#[test]
fn test_root_namespace() {
    assert!(Pattern::new("/").contains(&Pattern::new("/a")));
}

#[test]
fn test_equality() {
    assert_eq!(Pattern::new("/a"), Pattern::new("/a"));
}

#[test]
fn test_case_inequality() {
    assert_ne!(Pattern::new("/a"), Pattern::new("/A"));
}

#[test]
fn test_inequality() {
    assert!(!Pattern::new("/a/b").contains(&Pattern::new("/ab")));
}

#[test]
fn test_contains_child_namespace() {
    assert!(Pattern::new("/a").contains(&Pattern::new("/a/b")));
}

#[test]
fn test_not_contains_parent() {
    assert!(!Pattern::new("/a/b").contains(&Pattern::new("/a")));
}

#[test]
fn root_contains_deep_namespace() {
    assert!(Pattern::new("/").contains(&Pattern::new("/a/b/c")));
}

#[test]
fn prefix_without_segment_boundary_is_not_contained() {
    assert!(!Pattern::new("/a").contains(&Pattern::new("/ab")));
}

#[test]
fn pattern_contains_itself() {
    assert!(Pattern::new("/a/b").contains(&Pattern::new("/a/b")));
    assert!(Pattern::new("/").contains(&Pattern::new("/")));
}

#[test]
fn containment_is_case_sensitive() {
    assert!(!Pattern::new("/a").contains(&Pattern::new("/A")));
    assert!(!Pattern::new("/a").contains(&Pattern::new("/A/b")));
}

#[test]
fn from_conversions_keep_text() {
    let a: Pattern = "/x/y".into();
    let b: Pattern = String::from("/x/y").into();
    assert_eq!(a, b);
    assert_eq!(a.as_str(), "/x/y");
    assert_eq!(a.len(), 4);
}

#[test]
fn non_ascii_namespace_boundary() {
    assert!(Pattern::new("/é").contains(&Pattern::new("/é/x")));
    assert!(!Pattern::new("/é").contains(&Pattern::new("/éx")));
}
