//! The ways a store operation fails, and the exact errors it fails with.
use vstd::prelude::*;

verus! {

/// What a store operation can fail with.
#[derive(Debug, Clone)]
pub enum Errors {
    /// Create found the name already taken.
    AlreadyExists { message: String },
    /// A record that was just written could not be read back.
    FailedToWriteStorage { id: String, message: String },
    /// Update or delete found no bucket of that name.
    BucketNotFound { message: String },
}

pub open spec fn already_exists_message() -> Seq<char> {
    "Bucket already exists"@
}

pub open spec fn not_found_message() -> Seq<char> {
    "Bucket not found"@
}

pub open spec fn write_failure_message() -> Seq<char> {
    "Failed to create a new bucket"@
}

/// `e` is the error that Create gives for a name in use.
pub open spec fn is_already_exists(e: Errors) -> bool {
    e matches Errors::AlreadyExists { message } && message@ == already_exists_message()
}

/// `e` is the error that Update and Delete give for an absent name.
pub open spec fn is_not_found(e: Errors) -> bool {
    e matches Errors::BucketNotFound { message } && message@ == not_found_message()
}

/// `r` is the failure that Create gives for a name in use.
pub open spec fn fails_already_exists<T>(r: Result<T, Errors>) -> bool {
    r matches Err(e) && is_already_exists(e)
}

/// `r` is the failure that Update and Delete give for an absent name.
pub open spec fn fails_not_found<T>(r: Result<T, Errors>) -> bool {
    r matches Err(e) && is_not_found(e)
}

impl Errors {
    pub fn already_exists() -> (r: Errors)
        ensures
            is_already_exists(r),
    {
        Errors::AlreadyExists { message: "Bucket already exists".to_owned() }
    }

    pub fn not_found() -> (r: Errors)
        ensures
            is_not_found(r),
    {
        Errors::BucketNotFound { message: "Bucket not found".to_owned() }
    }

    pub fn write_failure(id: &str) -> (r: Errors)
        ensures
            r matches Errors::FailedToWriteStorage { id: i, message } && i@ == id@
                && message@ == write_failure_message(),
    {
        Errors::FailedToWriteStorage {
            id: id.to_owned(),
            message: "Failed to create a new bucket".to_owned(),
        }
    }
}

} // verus!
