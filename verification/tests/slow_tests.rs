#[test]
fn placeholder() {
    assert_eq!(1 + 1, 2);
}
