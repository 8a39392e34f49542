use github_actions_demo::error::ServiceError;
use github_actions_demo::ids::ItemId;
use github_actions_demo::model::{Item, ItemStatus};

#[test]
fn create_item_with_valid_fields() {
    let item = Item::new("Test item", "user-1").unwrap();
    assert_eq!(item.name(), "Test item");
    assert_eq!(item.owner_id(), "user-1");
    assert_eq!(item.status(), ItemStatus::Active);
    assert!(item.description().is_none());
}

#[test]
fn create_item_rejects_empty_name() {
    let result = Item::new("", "user-1");
    assert!(result.is_err());
    let err = result.unwrap_err().to_string();
    assert!(err.contains("name must not be empty"));
}

#[test]
fn create_item_rejects_whitespace_name() {
    let result = Item::new("   ", "user-1");
    assert!(result.is_err());
}

#[test]
fn create_item_rejects_empty_owner() {
    let result = Item::new("Valid name", "");
    assert!(result.is_err());
    let err = result.unwrap_err().to_string();
    assert!(err.contains("owner_id must not be empty"));
}

#[test]
fn set_description() {
    let mut item = Item::new("Test", "user-1").unwrap();
    item.set_description("A description");
    assert_eq!(item.description(), Some("A description"));
}

#[test]
fn archive_active_item() {
    let mut item = Item::new("Test", "user-1").unwrap();
    item.archive().unwrap();
    assert_eq!(item.status(), ItemStatus::Archived);
}

#[test]
fn model_archive_deleted_item_fails() {
    let mut item = Item::new("Test", "user-1").unwrap();
    item.delete();
    let result = item.archive();
    assert!(result.is_err());
}

#[test]
fn model_delete_item() {
    let mut item = Item::new("Test", "user-1").unwrap();
    item.delete();
    assert_eq!(item.status(), ItemStatus::Deleted);
}

#[test]
fn default_status_is_active() {
    assert_eq!(ItemStatus::default(), ItemStatus::Active);
}

#[test]
fn error_messages() {
    let err = Item::new("\t\u{a0}", "user-1").unwrap_err();
    assert_eq!(err.to_string(), "validation failed: name must not be empty");
    let id = ItemId::from_u128(0x67e5504410b1426f9247bb680e5fe0c8);
    assert_eq!(
        ServiceError::NotFound(id).to_string(),
        "item not found: 67e55044-10b1-426f-9247-bb680e5fe0c8"
    );
    assert_eq!(
        ServiceError::Conflict(id).to_string(),
        "item already exists: 67e55044-10b1-426f-9247-bb680e5fe0c8"
    );
    assert_eq!(ServiceError::Storage("down".to_string()).to_string(), "storage error: down");
}

#[test]
fn item_with_given_id() {
    let id = ItemId::from_u128(42);
    let item = Item::with_id(id, "Name", "owner").unwrap();
    assert_eq!(item.id(), id);
    assert_eq!(item.id().as_u128(), 42);
    assert!(Item::with_id(id, "Name", " \n").is_err());
}

#[test]
fn new_ids_are_version_4() {
    let item = Item::new("Test", "user-1").unwrap();
    let v = item.id().as_u128();
    assert_eq!((v >> 76) & 0xf, 4);
}

#[test]
fn archive_keeps_other_fields() {
    let mut item = Item::new("Test", "user-1").unwrap();
    item.set_description("d");
    item.archive().unwrap();
    item.archive().unwrap();
    assert_eq!(item.status(), ItemStatus::Archived);
    assert_eq!(item.name(), "Test");
    assert_eq!(item.description(), Some("d"));
    let err = {
        item.delete();
        item.archive().unwrap_err()
    };
    assert_eq!(err.to_string(), "validation failed: cannot archive a deleted item");
    assert_eq!(item.status(), ItemStatus::Deleted);
}

#[test]
fn set_name_replaces_name() {
    let mut item = Item::new("Test", "user-1").unwrap();
    item.set_name("Renamed");
    assert_eq!(item.name(), "Renamed");
    assert_eq!(item.owner_id(), "user-1");
}

#[test]
fn items_compare_by_fields() {
    let item = Item::new("Test", "user-1").unwrap();
    let copy = item.clone();
    assert_eq!(item, copy);
    let rebuilt = Item::from_parts(
        item.id(),
        "Test".to_string(),
        None,
        ItemStatus::Active,
        "user-1".to_string(),
    );
    assert_eq!(item, rebuilt);
    let mut changed = copy;
    changed.set_description("d");
    assert_ne!(item, changed);
}
