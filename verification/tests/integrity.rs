use screenshare::integrity::{check_tag, hmac_text, make_tag, CREATE_KIND, JOIN_KIND};

#[test]
fn hmac_has_the_published_values() {
    assert_eq!(
        hmac_text(b"Jefe", b"what do ya want for nothing?"),
        "5bdcc146bf60754e6a042426089575c75a003f089d2739839dec58b964ec3843"
    );
    assert_eq!(
        hmac_text(&[0xaa; 131], b"Test Using Larger Than Block-Size Key - Hash Key First"),
        "60e431591ee0b67f0d8a26aacbf5b77f8e0bc6213728c5140546040f0ee37f54"
    );
}

#[test]
fn tag_is_over_kind_length_and_fields() {
    let mut signed = vec![1, 2, 0, 0, 0, 0, 0, 0, 0];
    signed.extend(b"abc");
    assert_eq!(make_tag("key", CREATE_KIND, "ab", "c"), hmac_text(b"key", &signed));
    let tag = make_tag("key", CREATE_KIND, "ab", "c");
    assert_eq!(tag.len(), 64);
    assert_ne!(tag, make_tag("key", CREATE_KIND, "a", "bc"));
    assert_ne!(tag, make_tag("key", JOIN_KIND, "ab", "c"));
    assert_ne!(tag, make_tag("Key", CREATE_KIND, "ab", "c"));
}

#[test]
fn tags_are_checked_where_there_are_any() {
    let key = "key".to_string();
    let own = Some(make_tag("key", JOIN_KIND, "a", "b"));
    assert!(check_tag(Some(&key), &own, JOIN_KIND, "a", "b"));
    assert!(!check_tag(Some(&key), &own, JOIN_KIND, "a", "c"));
    assert!(!check_tag(None, &own, JOIN_KIND, "a", "b"));
    assert!(check_tag(Some(&key), &None, JOIN_KIND, "a", "b"));
    assert!(check_tag(None, &None, JOIN_KIND, "a", "b"));
}
