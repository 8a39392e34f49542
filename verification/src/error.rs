//! Domain errors of the item service.

use vstd::prelude::*;

use crate::ids::{uuid_text, ItemId};

verus! {

/// Domain errors for the item service.
#[derive(Debug)]
pub enum ServiceError {
    /// No item has the identifier.
    NotFound(ItemId),
    /// A field of a request is invalid.
    Validation(String),
    /// An item with the identifier already exists.
    Conflict(ItemId),
    /// The storage backend failed.
    Storage(String),
}

/// Convenience alias used throughout the crate.
pub type ServiceResult<T> = Result<T, ServiceError>;

impl ServiceError {
    /// The text of this error, as it is displayed.
    pub open spec fn message(&self) -> Seq<char> {
        match self {
            ServiceError::NotFound(id) => "item not found: "@ + uuid_text(id@),
            ServiceError::Validation(msg) => "validation failed: "@ + msg@,
            ServiceError::Conflict(id) => "item already exists: "@ + uuid_text(id@),
            ServiceError::Storage(msg) => "storage error: "@ + msg@,
        }
    }

    /// The text of this error, as it is displayed.
    pub fn to_string(&self) -> (s: String)
        ensures
            s@ == self.message(),
    {
        match self {
            ServiceError::NotFound(id) => {
                let text = id.to_text();
                String::from_str("item not found: ").concat(text.as_str())
            },
            ServiceError::Validation(msg) => String::from_str("validation failed: ").concat(
                msg.as_str(),
            ),
            ServiceError::Conflict(id) => {
                let text = id.to_text();
                String::from_str("item already exists: ").concat(text.as_str())
            },
            ServiceError::Storage(msg) => String::from_str("storage error: ").concat(
                msg.as_str(),
            ),
        }
    }
}

} // verus!
