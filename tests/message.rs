use pubsub_proto::{Message, Pattern};

#[test]
fn test_poor_mans_discriminant() {
    let pattern = Pattern::new("/");

    let provide = Message::Provide(pattern.clone());
    assert_eq!(
        Message::from_poor_mans_discriminant(provide.poor_mans_discriminant(), pattern.clone(), None),
        provide
    );

    let revoke = Message::Revoke(pattern.clone());
    assert_eq!(
        Message::from_poor_mans_discriminant(revoke.poor_mans_discriminant(), pattern.clone(), None),
        revoke
    );

    let subscribe = Message::Subscribe(pattern.clone());
    assert_eq!(
        Message::from_poor_mans_discriminant(
            subscribe.poor_mans_discriminant(),
            pattern.clone(),
            None
        ),
        subscribe
    );

    let unsubscribe = Message::Unsubscribe(pattern.clone());
    assert_eq!(
        Message::from_poor_mans_discriminant(
            unsubscribe.poor_mans_discriminant(),
            pattern.clone(),
            None
        ),
        unsubscribe
    );

    let event = Message::Event(pattern.clone(), String::new());
    assert_eq!(
        Message::from_poor_mans_discriminant(
            event.poor_mans_discriminant(),
            pattern,
            Some(String::new())
        ),
        event
    );
}

#[test]
fn test_message_contains() {
    let message = Message::Provide("/a".into());

    // Should contain the same namespace
    assert!(message.contains(&Message::Provide("/a".into())));
    // Should contain a sub-namespace
    assert!(message.contains(&Message::Provide("/a/b".into())));
    // Should not contain a different message type
    assert!(!message.contains(&Message::Revoke("/a".into())));
    // Should not contain a different namespace
    assert!(!message.contains(&Message::Provide("/c".into())));

    // Event messages should not consider their data components
    assert!(Message::Event("/a".into(), String::new())
        .contains(&Message::Event("/a".into(), "b".into())));

    // Root namespace should match everything
    assert!(Message::Provide("/".into()).contains(&Message::Provide("/a/b/c".into())));
}

#[test]
fn tag_mapping_is_fixed() {
    let p = Pattern::new("/n");
    assert_eq!(Message::Provide(p.clone()).poor_mans_discriminant(), 0);
    assert_eq!(Message::Revoke(p.clone()).poor_mans_discriminant(), 1);
    assert_eq!(Message::Subscribe(p.clone()).poor_mans_discriminant(), 2);
    assert_eq!(Message::Unsubscribe(p.clone()).poor_mans_discriminant(), 3);
    assert_eq!(Message::Event(p, "x".into()).poor_mans_discriminant(), 4);
}

#[test]
fn valid_tags_are_zero_to_four() {
    for b in 0..=255u8 {
        assert_eq!(Message::test_poor_mans_discriminant(&b), b <= 4);
    }
    assert!(!Message::test_poor_mans_discriminant(&9));
}

#[test]
fn from_tag_builds_each_kind() {
    let p = Pattern::new("/k");
    assert_eq!(Message::from_poor_mans_discriminant(2, p.clone(), None), Message::Subscribe(p.clone()));
    assert_eq!(
        Message::from_poor_mans_discriminant(4, p.clone(), Some("d".into())),
        Message::Event(p, "d".into())
    );
}

#[test]
fn namespace_of_every_kind() {
    let p = Pattern::new("/ns");
    assert_eq!(Message::Revoke(p.clone()).namespace(), &p);
    assert_eq!(Message::Event(p.clone(), "x".into()).namespace(), &p);
}

#[test]
fn unwrap_returns_pattern() {
    let p = Pattern::new("/u");
    assert_eq!(Message::Provide(p.clone()).unwrap_provide(), p);
    assert_eq!(Message::Revoke(p.clone()).unwrap_revoke(), p);
    assert_eq!(Message::Subscribe(p.clone()).unwrap_subscribe(), p);
    assert_eq!(Message::Unsubscribe(p.clone()).unwrap_unsubscribe(), p);
}

#[test]
fn event_containment_ignores_payload_both_ways() {
    let a = Message::Event("/a".into(), "x".into());
    let b = Message::Event("/a/b".into(), "y".into());
    assert!(a.contains(&b));
    assert!(!b.contains(&a));
    assert!(!Message::Provide("/a".into()).contains(&Message::Revoke("/a".into())));
}
