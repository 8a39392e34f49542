use github_actions_demo::error::ServiceError;
use github_actions_demo::handler::ItemHandler;
use github_actions_demo::ids::ItemId;
use github_actions_demo::model::{CreateItemRequest, ItemStatus, UpdateItemRequest};
use github_actions_demo::store::InMemoryStore;

fn test_handler() -> ItemHandler<InMemoryStore> {
    ItemHandler::new(InMemoryStore::new())
}

fn create_request(name: &str, owner: &str) -> CreateItemRequest {
    CreateItemRequest {
        name: name.to_owned(),
        description: None,
        owner_id: owner.to_owned(),
    }
}

#[test]
fn create_and_get() {
    let mut handler = test_handler();
    let item = handler.create(create_request("Test", "user-1")).unwrap();
    let retrieved = handler.get(item.id()).unwrap();
    assert_eq!(retrieved.name(), "Test");
}

#[test]
fn create_with_description() {
    let mut handler = test_handler();
    let request = CreateItemRequest {
        name: "Test".to_owned(),
        description: Some("A description".to_owned()),
        owner_id: "user-1".to_owned(),
    };
    let item = handler.create(request).unwrap();
    assert_eq!(item.description(), Some("A description"));
}

#[test]
fn create_rejects_empty_name() {
    let mut handler = test_handler();
    let result = handler.create(create_request("", "user-1"));
    assert!(result.is_err());
}

#[test]
fn list_items() {
    let mut handler = test_handler();
    handler.create(create_request("One", "user-1")).unwrap();
    handler.create(create_request("Two", "user-1")).unwrap();
    let items = handler.list().unwrap();
    assert_eq!(items.len(), 2);
}

#[test]
fn update_description() {
    let mut handler = test_handler();
    let item = handler.create(create_request("Test", "user-1")).unwrap();

    let updated = handler
        .update(
            item.id(),
            UpdateItemRequest {
                name: None,
                description: Some("Updated".to_owned()),
            },
        )
        .unwrap();

    assert_eq!(updated.description(), Some("Updated"));
}

#[test]
fn update_nonexistent_fails() {
    let mut handler = test_handler();
    let result = handler.update(
        ItemId::new_v4(),
        UpdateItemRequest {
            name: None,
            description: None,
        },
    );
    assert!(matches!(result, Err(ServiceError::NotFound(_))));
}

#[test]
fn archive_item() {
    let mut handler = test_handler();
    let item = handler.create(create_request("Test", "user-1")).unwrap();
    let archived = handler.archive(item.id()).unwrap();
    assert_eq!(archived.status(), ItemStatus::Archived);
}

#[test]
fn handler_archive_deleted_item_fails() {
    let mut handler = test_handler();
    let item = handler.create(create_request("Test", "user-1")).unwrap();
    handler.delete(item.id()).unwrap();
    let result = handler.archive(item.id());
    assert!(result.is_err());
}

#[test]
fn handler_delete_item() {
    let mut handler = test_handler();
    let item = handler.create(create_request("Test", "user-1")).unwrap();
    handler.delete(item.id()).unwrap();
    let retrieved = handler.get(item.id()).unwrap();
    assert_eq!(retrieved.status(), ItemStatus::Deleted);
}

#[test]
fn get_nonexistent_fails() {
    let handler = test_handler();
    let result = handler.get(ItemId::new_v4());
    assert!(matches!(result, Err(ServiceError::NotFound(_))));
}

#[test]
fn update_rejects_blank_name_and_keeps_item() {
    let mut handler = test_handler();
    let item = handler.create(create_request("Test", "user-1")).unwrap();
    let result = handler.update(
        item.id(),
        UpdateItemRequest {
            name: Some("  ".to_owned()),
            description: Some("ignored".to_owned()),
        },
    );
    match result {
        Err(e) => assert_eq!(e.to_string(), "validation failed: name must not be empty"),
        Ok(_) => panic!("expected a validation error"),
    }
    assert!(handler.get(item.id()).unwrap().description().is_none());
}

#[test]
fn update_renames() {
    let mut handler = test_handler();
    let item = handler.create(create_request("Test", "user-1")).unwrap();
    let updated = handler
        .update(
            item.id(),
            UpdateItemRequest {
                name: Some("Other".to_owned()),
                description: None,
            },
        )
        .unwrap();
    assert_eq!(updated.name(), "Other");
    assert!(updated.description().is_none());
    let stored = handler.get(item.id()).unwrap();
    assert_eq!(stored.name(), "Other");
    assert_eq!(stored.owner_id(), "user-1");
    assert_eq!(stored.id(), item.id());
}

#[test]
fn create_rejects_blank_owner() {
    let mut handler = test_handler();
    let err = handler.create(create_request("Test", "\t")).unwrap_err();
    assert_eq!(err.to_string(), "validation failed: owner_id must not be empty");
    assert!(handler.list().unwrap().is_empty());
}

#[test]
fn archive_and_delete_missing_fail() {
    let mut handler = test_handler();
    let id = ItemId::from_u128(5);
    assert!(matches!(handler.archive(id), Err(ServiceError::NotFound(_))));
    assert!(matches!(handler.delete(id), Err(ServiceError::NotFound(_))));
}

#[test]
fn created_ids_are_random_version_4() {
    let mut handler = test_handler();
    let a = handler.create(create_request("A", "user-1")).unwrap().id().as_u128();
    assert_eq!((a >> 76) & 0xf, 4);
    assert!((8..12).contains(&((a >> 60) & 0xf)));
}
