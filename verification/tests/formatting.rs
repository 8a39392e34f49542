use github_actions_demo::formatting::{display_id, truncate};
use github_actions_demo::ids::ItemId;

#[test]
fn display_id_with_prefix() {
    let id = ItemId::from_u128(0);
    let result = display_id("item", &id);
    assert!(result.starts_with("item-"));
}

#[test]
fn display_id_full_text() {
    let id = ItemId::from_u128(0xa1a2a3a4b1b2c1c2d1d2d3d4d5d6d7d8);
    assert_eq!(display_id("item", &id), "item-a1a2a3a4-b1b2-c1c2-d1d2-d3d4d5d6d7d8");
    assert_eq!(
        display_id("x", &ItemId::from_u128(0)),
        "x-00000000-0000-0000-0000-000000000000"
    );
}

#[test]
fn truncate_short_string() {
    assert_eq!(truncate("hello", 10), "hello");
}

#[test]
fn truncate_long_string() {
    let result = truncate("this is a long string", 10);
    assert_eq!(result, "this is...");
}

#[test]
fn truncate_exact_length() {
    assert_eq!(truncate("12345", 5), "12345");
}

#[test]
fn truncate_tiny_limits() {
    assert_eq!(truncate("hello", 0), "");
    assert_eq!(truncate("hello", 1), ".");
    assert_eq!(truncate("hello", 2), "..");
    assert_eq!(truncate("hello", 3), "...");
    assert_eq!(truncate("hello", 4), "h...");
    assert_eq!(truncate("", 0), "");
    assert_eq!(truncate("hi", 2), "hi");
}

#[test]
fn truncate_counts_bytes() {
    // "é" and "ö" take two bytes each: thirteen bytes in all.
    assert_eq!(truncate("héllo wörld", 6), "hé...");
    assert_eq!(truncate("héllo wörld", 13), "héllo wörld");
}
