//! The bucket store: its records, its operations, and what each operation
//! does to the map of buckets that the store stands for.
use dashmap::DashMap;
use vstd::prelude::*;

use crate::errors::{fails_already_exists, fails_not_found, Errors};
use crate::order::{
    lemma_name_irreflexive, lemma_name_total, lemma_name_transitive, name_before, str_before,
};
use crate::table::{
    bucket_table, clock_now, table_contains, table_entries, table_get, table_insert, table_new,
    table_remove,
};

verus! {

/// Metadata of one bucket, as the store holds it and hands out copies of it.
/// Times are microseconds since the Unix epoch.
#[derive(Debug, Clone, PartialEq)]
pub struct StorageBucketAttr {
    pub name: String,
    pub versioning: bool,
    pub default_event_based_hold: bool,
    pub location: String,
    pub time_created: i64,
    pub updated: i64,
}

/// What Create takes besides the name.
#[derive(Debug, Clone, PartialEq)]
pub struct CreateBucketAttr {
    pub versioning: bool,
    pub default_event_based_hold: bool,
    pub location: String,
}

/// What Update takes besides the name: `versioning` is kept where it is
/// `None`, `default_event_based_hold` is always written.
#[derive(Debug, Clone, PartialEq, Eq)]
pub struct UpdateBucketAttr {
    pub versioning: Option<bool>,
    pub default_event_based_hold: bool,
}

/// One object of a bucket. Objects are not stored yet.
#[derive(Debug, Clone, PartialEq)]
pub struct OnMemoryStorageObject {
    pub data: Vec<u8>,
}

/// The mathematical value of a `StorageBucketAttr`.
pub struct BucketState {
    pub name: Seq<char>,
    pub versioning: bool,
    pub default_event_based_hold: bool,
    pub location: Seq<char>,
    pub time_created: i64,
    pub updated: i64,
}

impl View for StorageBucketAttr {
    type V = BucketState;

    open spec fn view(&self) -> BucketState {
        BucketState {
            name: self.name@,
            versioning: self.versioning,
            default_event_based_hold: self.default_event_based_hold,
            location: self.location@,
            time_created: self.time_created,
            updated: self.updated,
        }
    }
}

/// A table without buckets.
pub open spec fn no_buckets() -> Map<Seq<char>, BucketState> {
    Map::empty()
}

/// Every bucket is filed under its own name, and was not updated before it
/// was created.
pub open spec fn table_wf(m: Map<Seq<char>, BucketState>) -> bool {
    forall|k: Seq<char>|
        #[trigger] m.contains_key(k) ==> m[k].name == k && m[k].time_created <= m[k].updated
}

/// The record that Create makes at time `now`.
pub open spec fn created_record(name: Seq<char>, attr: CreateBucketAttr, now: i64) -> BucketState {
    BucketState {
        name: name,
        versioning: attr.versioning,
        default_event_based_hold: attr.default_event_based_hold,
        location: attr.location@,
        time_created: now,
        updated: now,
    }
}

/// The record that Update makes of `prev` at time `now`. The update time
/// moves forward: to `now` where the clock has passed the last update, else
/// one microsecond past the last update (it cannot pass the largest `i64`).
pub open spec fn merged_record(prev: BucketState, attr: UpdateBucketAttr, now: i64) -> BucketState {
    BucketState {
        name: prev.name,
        versioning: match attr.versioning {
            Some(v) => v,
            None => prev.versioning,
        },
        default_event_based_hold: attr.default_event_based_hold,
        location: prev.location,
        time_created: prev.time_created,
        updated: if now > prev.updated {
            now
        } else if prev.updated < i64::MAX {
            (prev.updated + 1) as i64
        } else {
            prev.updated
        },
    }
}

/// Get on `m` returns `r`.
pub open spec fn lookup_outcome(m: Map<Seq<char>, BucketState>, name: Seq<char>, r: Option<
    StorageBucketAttr,
>) -> bool {
    if m.contains_key(name) {
        r matches Some(a) && a@ == m[name]
    } else {
        r is None
    }
}

/// `s` holds every bucket of `m` once, each as it is stored.
pub open spec fn is_listing(m: Map<Seq<char>, BucketState>, s: Seq<StorageBucketAttr>) -> bool {
    &&& forall|i: int|
        0 <= i < s.len() ==> m.contains_key(#[trigger] s[i].name@) && m[s[i].name@] == s[i]@
    &&& forall|i: int, j: int| 0 <= i < j < s.len() ==> s[i].name@ != s[j].name@
    &&& forall|k: Seq<char>|
        m.contains_key(k) ==> exists|i: int| 0 <= i < s.len() && #[trigger] s[i].name@ == k
}

/// Create of `name` at time `now` takes `old` to `new` and returns `r`.
pub open spec fn create_outcome(
    old: Map<Seq<char>, BucketState>,
    name: Seq<char>,
    attr: CreateBucketAttr,
    now: i64,
    new: Map<Seq<char>, BucketState>,
    r: Result<StorageBucketAttr, Errors>,
) -> bool {
    if old.contains_key(name) {
        &&& fails_already_exists(r)
        &&& new == old
    } else {
        &&& r matches Ok(a) && a@ == created_record(name, attr, now)
        &&& new == old.insert(name, created_record(name, attr, now))
    }
}

/// Update of `name` at time `now` takes `old` to `new` and returns `r`.
pub open spec fn update_outcome(
    old: Map<Seq<char>, BucketState>,
    name: Seq<char>,
    attr: UpdateBucketAttr,
    now: i64,
    new: Map<Seq<char>, BucketState>,
    r: Result<StorageBucketAttr, Errors>,
) -> bool {
    if old.contains_key(name) {
        &&& r matches Ok(a) && a@ == merged_record(old[name], attr, now)
        &&& new == old.insert(name, merged_record(old[name], attr, now))
    } else {
        &&& fails_not_found(r)
        &&& new == old
    }
}

/// Delete of `name` takes `old` to `new` and returns `r`.
pub open spec fn delete_outcome(
    old: Map<Seq<char>, BucketState>,
    name: Seq<char>,
    new: Map<Seq<char>, BucketState>,
    r: Result<StorageBucketAttr, Errors>,
) -> bool {
    if old.contains_key(name) {
        &&& r matches Ok(a) && a@ == old[name]
        &&& new == old.remove(name)
    } else {
        &&& fails_not_found(r)
        &&& new == old
    }
}

/// The buckets of `s` stand in the order of their names.
pub open spec fn sorted_by_name(s: Seq<StorageBucketAttr>) -> bool {
    forall|i: int, j: int|
        0 <= i < j < s.len() ==> name_before(#[trigger] s[i].name@, #[trigger] s[j].name@)
}

/// Where a bucket named `name` goes among the sorted `out`: after every
/// bucket whose name comes before it, and before the first that does not.
fn insert_position(out: &Vec<StorageBucketAttr>, name: &str) -> (p: usize)
    ensures
        p <= out@.len(),
        forall|j: int| 0 <= j < p ==> name_before(#[trigger] out@[j].name@, name@),
        p < out@.len() ==> !name_before(out@[p as int].name@, name@),
{
    let mut p: usize = 0;
    while p < out.len()
        invariant
            p <= out@.len(),
            forall|j: int| 0 <= j < p ==> name_before(#[trigger] out@[j].name@, name@),
        decreases out@.len() - p,
    {
        if !str_before(out[p].name.as_str(), name) {
            return p;
        }
        p = p + 1;
    }
    p
}

/// Puts `item` into the sorted `out`, at its place by name.
fn insert_sorted(out: &mut Vec<StorageBucketAttr>, item: StorageBucketAttr)
    requires
        sorted_by_name(old(out)@),
        forall|j: int| 0 <= j < old(out)@.len() ==> (#[trigger] old(out)@[j]).name@ != item.name@,
    ensures
        sorted_by_name(final(out)@),
        exists|p: int| 0 <= p <= old(out)@.len() && final(out)@ == old(out)@.insert(p, item),
{
    let p = insert_position(out, item.name.as_str());
    let ghost o = out@;
    proof {
        if (p as int) < o.len() {
            lemma_name_total(o[p as int].name@, item.name@);
            assert forall|b: int| p < b < o.len() implies name_before(
                item.name@,
                #[trigger] o[b].name@,
            ) by {
                lemma_name_transitive(item.name@, o[p as int].name@, o[b].name@);
            }
        }
        o.insert_ensures(p as int, item);
    }
    out.insert(p, item);
    proof {
        let n = out@;
        assert forall|a: int, b: int| 0 <= a < b < n.len() implies name_before(
            #[trigger] n[a].name@,
            #[trigger] n[b].name@,
        ) by {
            if b < p {
            } else if b == p {
            } else if a < p {
                assert(n[b] == o[b - 1]);
            } else if a == p {
                assert(n[b] == o[b - 1]);
            } else {
                assert(n[a] == o[a - 1]);
                assert(n[b] == o[b - 1]);
            }
        }
        assert(n == o.insert(p as int, item));
    }
}

impl StorageBucketAttr {
    /// A copy of the record.
    pub(crate) fn copy(&self) -> (r: StorageBucketAttr)
        ensures
            r@ == self@,
    {
        StorageBucketAttr {
            name: self.name.clone(),
            versioning: self.versioning,
            default_event_based_hold: self.default_event_based_hold,
            location: self.location.clone(),
            time_created: self.time_created,
            updated: self.updated,
        }
    }
}

/// The bucket store: bucket records keyed by name. Writers hold it
/// exclusively, so each operation applies whole or not at all. Its table is
/// private and every operation keeps `wf`, so every store that callers can
/// hold is well formed.
pub struct Storage {
    table: DashMap<String, StorageBucketAttr>,
}

impl View for Storage {
    type V = Map<Seq<char>, BucketState>;

    closed spec fn view(&self) -> Map<Seq<char>, BucketState> {
        bucket_table(self.table)
    }
}

impl Storage {
    pub open spec fn wf(&self) -> bool {
        table_wf(self@)
    }

    pub fn new() -> (r: Storage)
        ensures
            r@ == no_buckets(),
            r.wf(),
    {
        Storage { table: table_new() }
    }

    /// Copies of all buckets, in the order of their names.
    pub fn list(&self) -> (r: Vec<StorageBucketAttr>)
        requires
            self.wf(),
        ensures
            is_listing(self@, r@),
            sorted_by_name(r@),
    {
        let entries = table_entries(&self.table);
        let mut out: Vec<StorageBucketAttr> = Vec::new();
        let mut i: usize = 0;
        while i < entries.len()
            invariant
                self.wf(),
                forall|k: int|
                    0 <= k < entries@.len() ==> self@.contains_key(#[trigger] entries@[k].0@)
                        && self@[entries@[k].0@] == entries@[k].1@,
                forall|k1: int, k2: int|
                    0 <= k1 < k2 < entries@.len() ==> entries@[k1].0@ != entries@[k2].0@,
                i <= entries@.len(),
                sorted_by_name(out@),
                forall|j: int|
                    0 <= j < out@.len() ==> self@.contains_key(#[trigger] out@[j].name@)
                        && self@[out@[j].name@] == out@[j]@,
                forall|j: int, k: int|
                    0 <= j < out@.len() && i <= k < entries@.len() ==> (#[trigger] out@[j]).name@
                        != (#[trigger] entries@[k]).0@,
                forall|k: int|
                    0 <= k < i ==> exists|j: int|
                        0 <= j < out@.len() && out@[j].name@ == (#[trigger] entries@[k]).0@,
            decreases entries.len() - i,
        {
            let item = entries[i].1.copy();
            let ghost o = out@;
            proof {
                assert(self@.contains_key(entries@[i as int].0@));
                assert(item.name@ == entries@[i as int].0@);
                assert forall|j: int| 0 <= j < o.len() implies o[j].name@ != item.name@ by {
                    assert(o[j].name@ != entries@[i as int].0@);
                }
            }
            insert_sorted(&mut out, item);
            proof {
                let n = out@;
                let p = choose|p: int| 0 <= p <= o.len() && n == o.insert(p, item);
                o.insert_ensures(p, item);
                assert forall|j: int| 0 <= j < n.len() implies self@.contains_key(
                    #[trigger] n[j].name@,
                ) && self@[n[j].name@] == n[j]@ by {
                    if j > p {
                        assert(n[j] == o[j - 1]);
                    }
                }
                assert forall|j: int, k: int|
                    0 <= j < n.len() && i + 1 <= k < entries@.len() implies (#[trigger] n[j]).name@
                    != (#[trigger] entries@[k]).0@ by {
                    if j < p {
                        assert(n[j] == o[j]);
                    } else if j > p {
                        assert(n[j] == o[j - 1]);
                    }
                }
                assert forall|k: int| 0 <= k < i + 1 implies exists|j: int|
                    0 <= j < n.len() && n[j].name@ == (#[trigger] entries@[k]).0@ by {
                    if k < i {
                        let j = choose|j: int|
                            0 <= j < o.len() && o[j].name@ == (#[trigger] entries@[k]).0@;
                        if j < p {
                            assert(n[j] == o[j]);
                        } else {
                            assert(n[j + 1] == o[j]);
                        }
                    } else {
                        assert(n[p].name@ == entries@[k].0@);
                    }
                }
            }
            i = i + 1;
        }
        proof {
            assert forall|j: int, k: int| 0 <= j < k < out@.len() implies out@[j].name@
                != out@[k].name@ by {
                lemma_name_irreflexive(out@[j].name@);
            }
            assert forall|key: Seq<char>| self@.contains_key(key) implies exists|j: int|
                0 <= j < out@.len() && #[trigger] out@[j].name@ == key by {
                let e = choose|e: int| 0 <= e < entries@.len() && entries@[e].0@ == key;
                let j = choose|j: int|
                    0 <= j < out@.len() && out@[j].name@ == (#[trigger] entries@[e]).0@;
            }
        }
        out
    }

    /// A copy of the bucket `name`, or `None` where there is none.
    pub fn get(&self, name: &str) -> (r: Option<StorageBucketAttr>)
        ensures
            lookup_outcome(self@, name@, r),
    {
        table_get(&self.table, name)
    }

    /// Create with the clock reading `now` as the creation time.
    pub fn create_at(&mut self, name: &str, attr: CreateBucketAttr, now: i64) -> (r: Result<
        StorageBucketAttr,
        Errors,
    >)
        requires
            old(self).wf(),
        ensures
            final(self).wf(),
            create_outcome(old(self)@, name@, attr, now, final(self)@, r),
    {
        if table_contains(&self.table, name) {
            return Err(Errors::already_exists());
        }
        let record = StorageBucketAttr {
            name: name.to_owned(),
            versioning: attr.versioning,
            default_event_based_hold: attr.default_event_based_hold,
            location: attr.location,
            time_created: now,
            updated: now,
        };
        table_insert(&mut self.table, name.to_owned(), record);
        match table_get(&self.table, name) {
            Some(a) => Ok(a),
            None => Err(Errors::write_failure(name)),
        }
    }

    /// Create, with the creation time read from the clock.
    pub fn create(&mut self, name: &str, attr: CreateBucketAttr) -> (r: Result<
        StorageBucketAttr,
        Errors,
    >)
        requires
            old(self).wf(),
        ensures
            final(self).wf(),
            exists|now: i64| create_outcome(old(self)@, name@, attr, now, final(self)@, r),
    {
        let ghost a = attr;
        let now = clock_now();
        let r = self.create_at(name, attr, now);
        assert(create_outcome(old(self)@, name@, a, now, self@, r));
        r
    }

    /// Update with the clock reading `now`.
    pub fn update_at(&mut self, name: &str, attr: UpdateBucketAttr, now: i64) -> (r: Result<
        StorageBucketAttr,
        Errors,
    >)
        requires
            old(self).wf(),
        ensures
            final(self).wf(),
            update_outcome(old(self)@, name@, attr, now, final(self)@, r),
            r matches Ok(a) ==> (old(self)@[name@].updated < i64::MAX ==> a.updated
                > old(self)@[name@].updated),
    {
        let prev = match table_get(&self.table, name) {
            Some(p) => p,
            None => {
                return Err(Errors::not_found());
            },
        };
        let versioning = match attr.versioning {
            Some(v) => v,
            None => prev.versioning,
        };
        let updated = if now > prev.updated {
            now
        } else if prev.updated < i64::MAX {
            prev.updated + 1
        } else {
            prev.updated
        };
        let next = StorageBucketAttr {
            name: prev.name,
            versioning: versioning,
            default_event_based_hold: attr.default_event_based_hold,
            location: prev.location,
            time_created: prev.time_created,
            updated: updated,
        };
        let out = next.copy();
        table_insert(&mut self.table, name.to_owned(), next);
        Ok(out)
    }

    /// Update, with the update time read from the clock.
    pub fn update(&mut self, name: &str, attr: UpdateBucketAttr) -> (r: Result<
        StorageBucketAttr,
        Errors,
    >)
        requires
            old(self).wf(),
        ensures
            final(self).wf(),
            exists|now: i64| update_outcome(old(self)@, name@, attr, now, final(self)@, r),
            r matches Ok(a) ==> (old(self)@[name@].updated < i64::MAX ==> a.updated
                > old(self)@[name@].updated),
    {
        let ghost a = attr;
        let now = clock_now();
        let r = self.update_at(name, attr, now);
        assert(update_outcome(old(self)@, name@, a, now, self@, r));
        r
    }

    /// Removes the bucket `name` and returns it as it was.
    pub fn delete(&mut self, name: &str) -> (r: Result<StorageBucketAttr, Errors>)
        requires
            old(self).wf(),
        ensures
            final(self).wf(),
            delete_outcome(old(self)@, name@, final(self)@, r),
    {
        match table_remove(&mut self.table, name) {
            Some(a) => Ok(a),
            None => {
                assert(self@ =~= old(self)@);
                Err(Errors::not_found())
            },
        }
    }
}

impl Default for Storage {
    fn default() -> (r: Storage)
        ensures
            r@ == no_buckets(),
            r.wf(),
    {
        Storage::new()
    }
}

} // verus!
