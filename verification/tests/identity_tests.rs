use chat_node::identity::fresh_identity;

#[test]
fn fresh_identity_is_a_nonempty_string() {
    let id = fresh_identity();
    assert!(!id.is_empty());
}

#[test]
fn fresh_identities_are_distinct() {
    // identities derive from freshly generated keypairs
    let a = fresh_identity();
    let b = fresh_identity();
    assert_ne!(a, b);
}
