use github_actions_demo::pagination::Page;

fn sample_data() -> Vec<String> {
    (0..25).map(|i| format!("item-{i}")).collect()
}

#[test]
fn first_page() {
    let page = Page::from_vec(sample_data(), 0, 10);
    assert_eq!(page.items().len(), 10);
    assert_eq!(page.offset(), 0);
    assert_eq!(page.total(), 25);
    assert!(page.has_next());
    assert!(!page.has_previous());
}

#[test]
fn middle_page() {
    let page = Page::from_vec(sample_data(), 10, 10);
    assert_eq!(page.items().len(), 10);
    assert!(page.has_next());
    assert!(page.has_previous());
}

#[test]
fn last_page() {
    let page = Page::from_vec(sample_data(), 20, 10);
    assert_eq!(page.items().len(), 5);
    assert!(!page.has_next());
    assert!(page.has_previous());
}

#[test]
fn offset_beyond_total() {
    let page = Page::from_vec(sample_data(), 100, 10);
    assert!(page.items().is_empty());
    assert!(!page.has_next());
}

#[test]
fn zero_limit() {
    let page = Page::from_vec(sample_data(), 0, 0);
    assert!(page.items().is_empty());
    assert!(page.has_next());
}

#[test]
fn empty_source() {
    let page: Page<String> = Page::from_vec(vec![], 0, 10);
    assert!(page.items().is_empty());
    assert_eq!(page.total(), 0);
    assert!(!page.has_next());
    assert!(!page.has_previous());
}

#[test]
fn doc_example_page() {
    let all_items: Vec<i32> = (0..100).collect();
    let page = Page::from_vec(all_items, 10, 5);
    assert_eq!(page.items().len(), 5);
    assert_eq!(page.total(), 100);
    assert!(page.has_next());
}

#[test]
fn page_holds_the_right_items() {
    let page = Page::from_vec(sample_data(), 20, 10);
    assert_eq!(page.items(), &sample_data()[20..25]);
    assert_eq!(page.limit(), 10);
    let page = Page::from_vec(vec![1, 2, 3], 1, 1);
    assert_eq!(page.items(), &[2]);
}

#[test]
fn consecutive_pages_cover_the_source() {
    let a = Page::from_vec(sample_data(), 3, 7);
    let b = Page::from_vec(sample_data(), 10, 7);
    let both = Page::from_vec(sample_data(), 3, 14);
    let mut joined = a.items().to_vec();
    joined.extend_from_slice(b.items());
    assert_eq!(joined.as_slice(), both.items());
}
