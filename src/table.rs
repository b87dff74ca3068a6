//! The outside code that the store rests on: the concurrent map that holds
//! the buckets, and the clock. Each item here is trusted, not proved.
use dashmap::DashMap;
use vstd::prelude::*;

use crate::storage::{no_buckets, BucketState, StorageBucketAttr};

verus! {

/// `DashMap` as Verus sees it: opaque, its contents named by `bucket_table`.
/// The store reaches its table only through `Storage`, whose writes all hold
/// it by `&mut`, so nothing changes a table while a shared borrow of it is
/// out.
#[verifier::external_type_specification]
#[verifier::external_body]
#[verifier::reject_recursive_types(K)]
#[verifier::reject_recursive_types(V)]
#[verifier::reject_recursive_types(S)]
pub struct ExDashMap<K, V, S>(DashMap<K, V, S>);

/// The buckets that a table holds, by name.
pub uninterp spec fn bucket_table(m: DashMap<String, StorageBucketAttr>) -> Map<Seq<char>, BucketState>;

/// Relies on `DashMap::new`: a map with no entries.
#[verifier::external_body]
pub(crate) fn table_new() -> (r: DashMap<String, StorageBucketAttr>)
    ensures
        bucket_table(r) == no_buckets(),
{
    DashMap::new()
}

/// Relies on `DashMap::contains_key`: whether the map has an entry under the key.
#[verifier::external_body]
pub(crate) fn table_contains(m: &DashMap<String, StorageBucketAttr>, name: &str) -> (r: bool)
    ensures
        r == bucket_table(*m).contains_key(name@),
{
    m.contains_key(name)
}

/// Relies on `DashMap::get`: the value under the key, if there is one; it is
/// copied out of the guard that `get` returns by the verified
/// `StorageBucketAttr::copy`.
#[verifier::external_body]
pub(crate) fn table_get(m: &DashMap<String, StorageBucketAttr>, name: &str) -> (r: Option<StorageBucketAttr>)
    ensures
        r is Some <==> bucket_table(*m).contains_key(name@),
        r is Some ==> r.unwrap()@ == bucket_table(*m)[name@],
{
    m.get(name).map(|e| e.value().copy())
}

/// Relies on `DashMap::insert`: afterwards the key maps to the value, and
/// every other entry is as it was.
#[verifier::external_body]
pub(crate) fn table_insert(m: &mut DashMap<String, StorageBucketAttr>, key: String, value: StorageBucketAttr)
    ensures
        bucket_table(*final(m)) == bucket_table(*old(m)).insert(key@, value@),
{
    m.insert(key, value);
}

/// Relies on `DashMap::remove`: the entry under the key is taken out and its
/// value returned; without one the map stays as it was.
#[verifier::external_body]
pub(crate) fn table_remove(m: &mut DashMap<String, StorageBucketAttr>, name: &str) -> (r: Option<
    StorageBucketAttr,
>)
    ensures
        r is Some <==> bucket_table(*old(m)).contains_key(name@),
        r is Some ==> r.unwrap()@ == bucket_table(*old(m))[name@],
        bucket_table(*final(m)) == bucket_table(*old(m)).remove(name@),
{
    m.remove(name).map(|(_, v)| v)
}

/// Relies on `DashMap::iter`: each entry of the map comes out once, in some
/// order; the key is cloned and the value copied by the verified
/// `StorageBucketAttr::copy` out of the guards.
#[verifier::external_body]
pub(crate) fn table_entries(m: &DashMap<String, StorageBucketAttr>) -> (r: Vec<(String, StorageBucketAttr)>)
    ensures
        forall|i: int|
            0 <= i < r@.len() ==> bucket_table(*m).contains_key(#[trigger] r@[i].0@)
                && bucket_table(*m)[r@[i].0@] == r@[i].1@,
        forall|i: int, j: int| 0 <= i < j < r@.len() ==> r@[i].0@ != r@[j].0@,
        forall|k: Seq<char>|
            bucket_table(*m).contains_key(k) ==> exists|i: int| 0 <= i < r@.len() && r@[i].0@ == k,
{
    m.iter().map(|e| (e.key().clone(), e.value().copy())).collect()
}

/// Relies on chrono's `From<SystemTime> for DateTime<Utc>`, read with
/// `DateTime::timestamp_micros`: the system clock now, in microseconds since
/// the Unix epoch, negative for a clock set before 1970. Nothing is promised
/// of the value. The conversion fails only beyond chrono's range of dates,
/// some 262,000 years either side of 1970, far outside what a system clock
/// reports; in that range the microsecond count fits in an `i64`.
#[verifier::external_body]
pub(crate) fn clock_now() -> (r: i64) {
    chrono::DateTime::<chrono::Utc>::from(std::time::SystemTime::now()).timestamp_micros()
}

} // verus!
