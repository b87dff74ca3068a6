//! The store operations as the API asks for them: requests are turned into
//! the store's attributes, then applied.
use vstd::prelude::*;

use crate::errors::Errors;
use crate::models::{is_create_attr_of, update_attr_of, InsertBucket, UpdateBucket};
use crate::storage::{
    create_outcome, delete_outcome, is_listing, lookup_outcome, sorted_by_name, update_outcome,
    CreateBucketAttr, Storage, StorageBucketAttr, UpdateBucketAttr,
};

verus! {

/// All buckets, in the order of their names.
pub fn list(storage: &Storage) -> (r: Vec<StorageBucketAttr>)
    requires
        storage.wf(),
    ensures
        is_listing(storage@, r@),
        sorted_by_name(r@),
{
    storage.list()
}

/// The bucket `bucket_name`, if there is one.
pub fn find_bucket(storage: &Storage, bucket_name: &str) -> (r: Option<StorageBucketAttr>)
    ensures
        lookup_outcome(storage@, bucket_name@, r),
{
    storage.get(bucket_name)
}

/// Creates the bucket that `event` asks for.
pub fn create_new_bucket(storage: &mut Storage, event: InsertBucket) -> (r: Result<
    StorageBucketAttr,
    Errors,
>)
    requires
        old(storage).wf(),
    ensures
        final(storage).wf(),
        exists|attr: CreateBucketAttr, now: i64|
            is_create_attr_of(attr, event) && create_outcome(
                old(storage)@,
                event.name@,
                attr,
                now,
                final(storage)@,
                r,
            ),
{
    let ghost request = event;
    let bucket_name = event.name.clone();
    let attr = event.to_create_attr();
    let ghost a = attr;
    let r = storage.create(bucket_name.as_str(), attr);
    proof {
        let now = choose|now: i64| create_outcome(old(storage)@, bucket_name@, a, now, storage@, r);
        assert(is_create_attr_of(a, request) && create_outcome(
            old(storage)@,
            request.name@,
            a,
            now,
            storage@,
            r,
        ));
    }
    r
}

/// Applies the change that `event` asks for to the bucket `bucket_name`.
pub fn update_existing_bucket(storage: &mut Storage, bucket_name: &str, event: UpdateBucket) -> (r:
    Result<StorageBucketAttr, Errors>)
    requires
        old(storage).wf(),
    ensures
        final(storage).wf(),
        exists|now: i64|
            update_outcome(old(storage)@, bucket_name@, update_attr_of(event), now, final(storage)@, r),
{
    storage.update(bucket_name, UpdateBucketAttr::from(event))
}

/// Deletes the bucket `bucket_name`.
pub fn delete_bucket(storage: &mut Storage, bucket_name: &str) -> (r: Result<
    StorageBucketAttr,
    Errors,
>)
    requires
        old(storage).wf(),
    ensures
        final(storage).wf(),
        delete_outcome(old(storage)@, bucket_name@, final(storage)@, r),
{
    storage.delete(bucket_name)
}

} // verus!
