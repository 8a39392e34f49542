use github_actions_demo::error::ServiceError;
use github_actions_demo::ids::ItemId;
use github_actions_demo::model::Item;
use github_actions_demo::store::{InMemoryStore, ItemStore};

fn test_store() -> InMemoryStore {
    InMemoryStore::new()
}

#[test]
fn put_and_get() {
    let mut store = test_store();
    let item = Item::new("Test", "user-1").unwrap();
    let id = item.id();

    store.put(&item).unwrap();
    let retrieved = store.get(id).unwrap();
    assert_eq!(retrieved.name(), "Test");
}

#[test]
fn get_nonexistent_returns_not_found() {
    let store = test_store();
    let result = store.get(ItemId::new_v4());
    assert!(matches!(result, Err(ServiceError::NotFound(_))));
}

#[test]
fn list_returns_all_items() {
    let mut store = test_store();
    let item1 = Item::new("One", "user-1").unwrap();
    let item2 = Item::new("Two", "user-1").unwrap();

    store.put(&item1).unwrap();
    store.put(&item2).unwrap();

    let items = store.list().unwrap();
    assert_eq!(items.len(), 2);
}

#[test]
fn list_empty_store() {
    let store = test_store();
    let items = store.list().unwrap();
    assert!(items.is_empty());
}

#[test]
fn delete_existing_item() {
    let mut store = test_store();
    let item = Item::new("Test", "user-1").unwrap();
    let id = item.id();

    store.put(&item).unwrap();
    store.delete(id).unwrap();

    let result = store.get(id);
    assert!(matches!(result, Err(ServiceError::NotFound(_))));
}

#[test]
fn delete_nonexistent_returns_not_found() {
    let mut store = test_store();
    let result = store.delete(ItemId::new_v4());
    assert!(matches!(result, Err(ServiceError::NotFound(_))));
}

#[test]
fn put_overwrites_existing() {
    let mut store = test_store();
    let mut item = Item::new("Original", "user-1").unwrap();
    let id = item.id();
    store.put(&item).unwrap();

    item.set_description("Updated");
    store.put(&item).unwrap();

    let retrieved = store.get(id).unwrap();
    assert_eq!(retrieved.description(), Some("Updated"));
    assert_eq!(store.list().unwrap().len(), 1);
}

#[test]
fn not_found_names_the_id() {
    let store = test_store();
    let id = ItemId::from_u128(7);
    match store.get(id) {
        Err(ServiceError::NotFound(missing)) => assert_eq!(missing, id),
        _ => panic!("expected NotFound"),
    }
}

#[test]
fn list_holds_each_item_once() {
    let mut store = test_store();
    let a = Item::with_id(ItemId::from_u128(1), "A", "o").unwrap();
    let b = Item::with_id(ItemId::from_u128(2), "B", "o").unwrap();
    store.put(&a).unwrap();
    store.put(&b).unwrap();
    store.put(&a).unwrap();
    let mut names: Vec<String> = store.list().unwrap().iter().map(|i| i.name().to_string()).collect();
    names.sort();
    assert_eq!(names, vec!["A".to_string(), "B".to_string()]);
}
