//! The domain model: items, their status, and the request payloads.

use vstd::prelude::*;

use crate::error::{ServiceError, ServiceResult};
use crate::ids::{uuid_variant_nibble, uuid_version, ItemId};
use crate::text::{blank, is_blank};

verus! {

/// The status of an item in the system.
#[derive(Debug, Clone, Copy, PartialEq, Eq, Structural)]
pub enum ItemStatus {
    Active,
    Archived,
    Deleted,
}

impl Default for ItemStatus {
    fn default() -> (s: ItemStatus)
        ensures
            s == ItemStatus::Active,
    {
        ItemStatus::Active
    }
}

/// What an item holds, as plain values.
pub struct ItemView {
    pub id: u128,
    pub name: Seq<char>,
    pub description: Option<Seq<char>>,
    pub status: ItemStatus,
    pub owner_id: Seq<char>,
}

/// A domain item managed by the service.
#[derive(Debug, PartialEq, Eq)]
pub struct Item {
    id: ItemId,
    name: String,
    description: Option<String>,
    status: ItemStatus,
    owner_id: String,
}

/// The view of an optional string.
pub open spec fn opt_view(s: Option<String>) -> Option<Seq<char>> {
    match s {
        Some(t) => Some(t@),
        None => None,
    }
}

impl View for Item {
    type V = ItemView;

    closed spec fn view(&self) -> ItemView {
        ItemView {
            id: self.id@,
            name: self.name@,
            description: opt_view(self.description),
            status: self.status,
            owner_id: self.owner_id@,
        }
    }
}

/// The message of the error for a blank name.
pub open spec fn empty_name_message() -> Seq<char> {
    "name must not be empty"@
}

/// The message of the error for a blank owner.
pub open spec fn empty_owner_message() -> Seq<char> {
    "owner_id must not be empty"@
}

/// The message of the error for archiving a deleted item.
pub open spec fn archive_deleted_message() -> Seq<char> {
    "cannot archive a deleted item"@
}

/// A validation error with the given message.
pub open spec fn is_validation_error(e: ServiceError, msg: Seq<char>) -> bool {
    e matches ServiceError::Validation(m) && m@ == msg
}

/// The item that creation gives for these fields: active, with no description.
pub open spec fn new_item_view(id: u128, name: Seq<char>, owner_id: Seq<char>) -> ItemView {
    ItemView { id, name, description: None, status: ItemStatus::Active, owner_id }
}

/// `v` with its description replaced.
pub open spec fn with_description(v: ItemView, d: Seq<char>) -> ItemView {
    ItemView { description: Some(d), ..v }
}

/// `v` with its name replaced.
pub open spec fn with_name(v: ItemView, n: Seq<char>) -> ItemView {
    ItemView { name: n, ..v }
}

/// `v` with its status replaced.
pub open spec fn with_status(v: ItemView, s: ItemStatus) -> ItemView {
    ItemView { status: s, ..v }
}

/// Archiving: refused (`None`) for a deleted item, else the item marked archived.
pub open spec fn archived(v: ItemView) -> Option<ItemView> {
    if v.status == ItemStatus::Deleted {
        None
    } else {
        Some(with_status(v, ItemStatus::Archived))
    }
}

/// Soft deletion: the item marked deleted.
pub open spec fn deleted(v: ItemView) -> ItemView {
    with_status(v, ItemStatus::Deleted)
}

impl Clone for Item {
    fn clone(&self) -> (c: Item)
        ensures
            c@ == self@,
    {
        let description = match &self.description {
            Some(d) => Some(d.clone()),
            None => None,
        };
        Item {
            id: self.id,
            name: self.name.clone(),
            description,
            status: self.status,
            owner_id: self.owner_id.clone(),
        }
    }
}

impl Item {
    /// Create a new item with the given identifier, with validation: an error if
    /// the name or the owner is blank (empty or whitespace only).
    pub fn with_id(id: ItemId, name: &str, owner_id: &str) -> (r: ServiceResult<Item>)
        ensures
            r is Ok <==> !is_blank(name@) && !is_blank(owner_id@),
            r matches Ok(item) ==> item@ == new_item_view(id@, name@, owner_id@),
            r matches Err(e) ==> is_validation_error(
                e,
                if is_blank(name@) {
                    empty_name_message()
                } else {
                    empty_owner_message()
                },
            ),
    {
        if blank(name) {
            return Err(ServiceError::Validation(String::from_str("name must not be empty")));
        }
        if blank(owner_id) {
            return Err(ServiceError::Validation(String::from_str("owner_id must not be empty")));
        }
        Ok(Item {
            id,
            name: String::from_str(name),
            description: None,
            status: ItemStatus::Active,
            owner_id: String::from_str(owner_id),
        })
    }

    /// Create a new item with a fresh random identifier, with validation: an
    /// error if the name or the owner is blank (empty or whitespace only).
    pub fn new(name: &str, owner_id: &str) -> (r: ServiceResult<Item>)
        ensures
            r is Ok <==> !is_blank(name@) && !is_blank(owner_id@),
            r matches Ok(item) ==> item@ == new_item_view(item@.id, name@, owner_id@)
                && uuid_version(item@.id) == 4 && 8 <= uuid_variant_nibble(item@.id) < 12,
            r matches Err(e) ==> is_validation_error(
                e,
                if is_blank(name@) {
                    empty_name_message()
                } else {
                    empty_owner_message()
                },
            ),
    {
        if blank(name) {
            return Err(ServiceError::Validation(String::from_str("name must not be empty")));
        }
        if blank(owner_id) {
            return Err(ServiceError::Validation(String::from_str("owner_id must not be empty")));
        }
        Item::with_id(ItemId::new_v4(), name, owner_id)
    }

    /// An item with exactly the given fields, as a stored or transmitted item
    /// is read back; no field is checked.
    pub fn from_parts(
        id: ItemId,
        name: String,
        description: Option<String>,
        status: ItemStatus,
        owner_id: String,
    ) -> (item: Item)
        ensures
            item@ == (ItemView {
                id: id@,
                name: name@,
                description: opt_view(description),
                status,
                owner_id: owner_id@,
            }),
    {
        Item { id, name, description, status, owner_id }
    }

    pub fn id(&self) -> (id: ItemId)
        ensures
            id@ == self@.id,
    {
        self.id
    }

    pub fn name(&self) -> (s: &str)
        ensures
            s@ == self@.name,
    {
        self.name.as_str()
    }

    pub fn description(&self) -> (d: Option<&str>)
        ensures
            match d {
                Some(s) => self@.description == Some(s@),
                None => self@.description is None,
            },
    {
        match &self.description {
            Some(d) => Some(d.as_str()),
            None => None,
        }
    }

    pub fn status(&self) -> (s: ItemStatus)
        ensures
            s == self@.status,
    {
        self.status
    }

    pub fn owner_id(&self) -> (s: &str)
        ensures
            s@ == self@.owner_id,
    {
        self.owner_id.as_str()
    }

    /// Set the name, replacing the earlier one.
    pub fn set_name(&mut self, name: &str)
        ensures
            final(self)@ == with_name(old(self)@, name@),
    {
        self.name = String::from_str(name);
    }

    /// Set the description, replacing any earlier one.
    pub fn set_description(&mut self, description: &str)
        ensures
            final(self)@ == with_description(old(self)@, description@),
    {
        self.description = Some(String::from_str(description));
    }

    /// Archive the item; an error, with the item unchanged, if it is deleted.
    pub fn archive(&mut self) -> (r: ServiceResult<()>)
        ensures
            match archived(old(self)@) {
                Some(v) => r is Ok && final(self)@ == v,
                None => r matches Err(e) && is_validation_error(e, archive_deleted_message())
                    && final(self)@ == old(self)@,
            },
    {
        if self.status == ItemStatus::Deleted {
            return Err(ServiceError::Validation(String::from_str("cannot archive a deleted item")));
        }
        self.status = ItemStatus::Archived;
        Ok(())
    }

    /// Soft-delete the item.
    pub fn delete(&mut self)
        ensures
            final(self)@ == deleted(old(self)@),
    {
        self.status = ItemStatus::Deleted;
    }
}

/// Request payload for creating a new item.
pub struct CreateItemRequest {
    pub name: String,
    pub description: Option<String>,
    pub owner_id: String,
}

/// Request payload for updating an existing item.
pub struct UpdateItemRequest {
    pub name: Option<String>,
    pub description: Option<String>,
}

} // verus!
