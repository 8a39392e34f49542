use github_actions_demo::ids::ItemId;
use github_actions_demo::validation::{validate_email, validate_uuid};

#[test]
fn valid_email() {
    assert!(validate_email("user@example.com"));
}

#[test]
fn valid_email_with_subdomain() {
    assert!(validate_email("user@mail.example.com"));
}

#[test]
fn rejects_empty_email() {
    assert!(!validate_email(""));
    assert!(!validate_email("   "));
}

#[test]
fn rejects_email_without_at() {
    assert!(!validate_email("userexample.com"));
}

#[test]
fn rejects_email_without_domain_dot() {
    assert!(!validate_email("user@localhost"));
}

#[test]
fn rejects_email_with_trailing_dot() {
    assert!(!validate_email("user@example."));
}

#[test]
fn rejects_double_at() {
    assert!(!validate_email("user@@example.com"));
}

// "not-a-uuid" is ten characters in three groups, not a UUID, so it is refused.
#[test]
fn validate_uuid_format() {
    assert!(validate_uuid("550e8400-e29b-41d4-a716-446655440000"));
    assert!(!validate_uuid("not-a-uuid"));
}

#[test]
fn rejects_short_uuid() {
    assert!(!validate_uuid("550e8400"));
}

#[test]
fn rejects_uuid_with_invalid_chars() {
    assert!(!validate_uuid("550e8400-e29b-41d4-a716-44665544gggg"));
}

#[test]
fn email_is_trimmed_first() {
    assert!(validate_email("  user@example.com\t\n"));
    assert!(validate_email("\u{3000}user@example.com\u{2003}"));
}

#[test]
fn email_edge_cases() {
    assert!(!validate_email("@example.com"));
    assert!(!validate_email("user@"));
    assert!(!validate_email("user@.example.com"));
    assert!(validate_email("a@b.c"));
    assert!(validate_email("ü@exämple.de"));
}

#[test]
fn uuid_edge_cases() {
    assert!(validate_uuid("  550E8400-E29B-41D4-A716-446655440000 "));
    assert!(!validate_uuid("550e8400e29b-41d4-a716-4466554400000"));
    assert!(!validate_uuid("550e8400-e29b-41d4-a716-44665544000"));
    assert!(!validate_uuid("550e8400-e29b-41d4-a716-4466554400000"));
}

#[test]
fn id_text_is_a_valid_uuid() {
    let id = ItemId::new_v4();
    assert!(validate_uuid(&id.to_text()));
    assert!(validate_uuid(&ItemId::from_u128(u128::MAX).to_text()));
}
