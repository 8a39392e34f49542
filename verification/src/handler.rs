//! The service layer between the entry point and the storage backend.

use vstd::prelude::*;

use crate::error::{ServiceError, ServiceResult};
use crate::ids::{uuid_variant_nibble, uuid_version, ItemId};
use crate::model::{
    archive_deleted_message, archived, deleted, empty_name_message, empty_owner_message,
    is_validation_error, new_item_view, opt_view, with_description, with_name, CreateItemRequest, Item,
    ItemView, UpdateItemRequest,
};
use crate::store::{lists_exactly, views, ItemStore};
use crate::text::{blank, is_blank};

verus! {

/// `v` with the name replaced where one is given.
pub open spec fn renamed(v: ItemView, n: Option<Seq<char>>) -> ItemView {
    match n {
        Some(text) => with_name(v, text),
        None => v,
    }
}

/// `v` with the description replaced where one is given.
pub open spec fn described(v: ItemView, d: Option<Seq<char>>) -> ItemView {
    match d {
        Some(text) => with_description(v, text),
        None => v,
    }
}

/// A new name is given and it is blank.
pub open spec fn blank_name(name: Option<String>) -> bool {
    name matches Some(n) && is_blank(n@)
}

/// Service layer that sits between the entry point and the storage backend.
pub struct ItemHandler<S: ItemStore> {
    store: S,
}

impl<S: ItemStore> ItemHandler<S> {
    /// The items of the underlying store.
    pub closed spec fn contents(&self) -> Map<u128, ItemView> {
        self.store.contents()
    }

    /// The underlying store never fails.
    pub closed spec fn reliable(&self) -> bool {
        self.store.reliable()
    }

    pub fn new(store: S) -> (h: Self)
        ensures
            h.contents() == store.contents(),
            h.reliable() == store.reliable(),
    {
        ItemHandler { store }
    }

    /// Create a new item from a request payload; a validation error if the name
    /// or the owner is blank.
    pub fn create(&mut self, request: CreateItemRequest) -> (r: ServiceResult<Item>)
        ensures
            is_blank(request.name@) ==> final(self).contents() == old(self).contents() && match r {
                Err(e) => is_validation_error(e, empty_name_message()),
                Ok(_) => false,
            },
            !is_blank(request.name@) && is_blank(request.owner_id@) ==> final(self).contents()
                == old(self).contents() && match r {
                Err(e) => is_validation_error(e, empty_owner_message()),
                Ok(_) => false,
            },
            !is_blank(request.name@) && !is_blank(request.owner_id@) ==> match r {
                Ok(item) => item@ == described(
                    new_item_view(item@.id, request.name@, request.owner_id@),
                    opt_view(request.description),
                ) && uuid_version(item@.id) == 4 && 8 <= uuid_variant_nibble(item@.id) < 12
                    && final(self).contents() == old(self).contents().insert(item@.id, item@),
                Err(e) => e is Storage,
            },
            final(self).reliable() == old(self).reliable(),
            old(self).reliable() ==> !(r matches Err(ServiceError::Storage(_))),
    {
        let mut item = Item::new(request.name.as_str(), request.owner_id.as_str())?;
        if let Some(desc) = &request.description {
            item.set_description(desc.as_str());
        }
        self.store.put(&item)?;
        Ok(item)
    }

    /// Retrieve an item by identifier; `NotFound` if it does not exist.
    pub fn get(&self, id: ItemId) -> (r: ServiceResult<Item>)
        ensures
            match r {
                Ok(item) => self.contents().contains_key(id@) && item@ == self.contents()[id@],
                Err(ServiceError::NotFound(missing)) => missing == id
                    && !self.contents().contains_key(id@),
                Err(e) => e is Storage,
            },
            self.reliable() ==> !(r matches Err(ServiceError::Storage(_))),
    {
        self.store.get(id)
    }

    /// List all items.
    pub fn list(&self) -> (r: ServiceResult<Vec<Item>>)
        ensures
            match r {
                Ok(items) => lists_exactly(views(items@), self.contents()),
                Err(e) => e is Storage,
            },
            self.reliable() ==> !(r matches Err(ServiceError::Storage(_))),
    {
        self.store.list()
    }

    /// Update an existing item's mutable fields: the name and the description
    /// are replaced where new ones are given. `NotFound` if the item does not
    /// exist; a validation error if a new name is given and is blank.
    pub fn update(&mut self, id: ItemId, request: UpdateItemRequest) -> (r: ServiceResult<Item>)
        ensures
            !old(self).contents().contains_key(id@) ==> final(self).contents() == old(self).contents() && match r {
                Err(ServiceError::NotFound(missing)) => missing == id,
                Err(ServiceError::Storage(_)) => true,
                _ => false,
            },
            old(self).contents().contains_key(id@) && blank_name(request.name) ==> match r {
                Err(ServiceError::Validation(m)) => m@ == empty_name_message() && final(self).contents() == old(self).contents(),
                Err(ServiceError::Storage(_)) => true,
                _ => false,
            },
            old(self).contents().contains_key(id@) && !blank_name(request.name) ==> match r {
                Ok(item) => {
                    let v = described(
                        renamed(old(self).contents()[id@], opt_view(request.name)),
                        opt_view(request.description),
                    );
                    &&& item@ == v
                    &&& v.id == id@
                    &&& final(self).contents() == old(self).contents().insert(id@, v)
                },
                Err(e) => e is Storage,
            },
            final(self).reliable() == old(self).reliable(),
            old(self).reliable() ==> !(r matches Err(ServiceError::Storage(_))),
    {
        let mut item = self.store.get(id)?;
        if let Some(name) = &request.name {
            if blank(name.as_str()) {
                return Err(ServiceError::Validation(String::from_str("name must not be empty")));
            }
            item.set_name(name.as_str());
        }
        if let Some(desc) = &request.description {
            item.set_description(desc.as_str());
        }
        self.store.put(&item)?;
        Ok(item)
    }

    /// Archive an item by identifier. `NotFound` if it does not exist; a
    /// validation error if it is deleted.
    pub fn archive(&mut self, id: ItemId) -> (r: ServiceResult<Item>)
        ensures
            !old(self).contents().contains_key(id@) ==> final(self).contents() == old(self).contents() && match r {
                Err(ServiceError::NotFound(missing)) => missing == id,
                Err(ServiceError::Storage(_)) => true,
                _ => false,
            },
            old(self).contents().contains_key(id@) ==> match archived(old(self).contents()[id@]) {
                Some(v) => match r {
                    Ok(item) => item@ == v && v.id == id@
                        && final(self).contents() == old(self).contents().insert(id@, v),
                    Err(e) => e is Storage,
                },
                None => match r {
                    Err(ServiceError::Validation(m)) => m@ == archive_deleted_message() && final(self).contents() == old(self).contents(),
                    Err(ServiceError::Storage(_)) => true,
                    _ => false,
                },
            },
            final(self).reliable() == old(self).reliable(),
            old(self).reliable() ==> !(r matches Err(ServiceError::Storage(_))),
    {
        let mut item = self.store.get(id)?;
        item.archive()?;
        self.store.put(&item)?;
        Ok(item)
    }

    /// Soft-delete an item by identifier; `NotFound` if it does not exist.
    pub fn delete(&mut self, id: ItemId) -> (r: ServiceResult<()>)
        ensures
            !old(self).contents().contains_key(id@) ==> final(self).contents() == old(self).contents() && match r {
                Err(ServiceError::NotFound(missing)) => missing == id,
                Err(ServiceError::Storage(_)) => true,
                _ => false,
            },
            old(self).contents().contains_key(id@) ==> match r {
                Ok(()) => {
                    let v = deleted(old(self).contents()[id@]);
                    v.id == id@ && final(self).contents() == old(self).contents().insert(id@, v)
                },
                Err(e) => e is Storage,
            },
            final(self).reliable() == old(self).reliable(),
            old(self).reliable() ==> !(r matches Err(ServiceError::Storage(_))),
    {
        let mut item = self.store.get(id)?;
        item.delete();
        self.store.put(&item)?;
        Ok(())
    }
}

} // verus!
