//! What holds across several store operations, stated over the outcome
//! predicates that the operations' own contracts use.
use vstd::prelude::*;

use crate::errors::{fails_already_exists, fails_not_found, Errors};
use crate::storage::{
    create_outcome, delete_outcome, is_listing, lookup_outcome, no_buckets, update_outcome,
    BucketState, CreateBucketAttr, StorageBucketAttr, UpdateBucketAttr,
};

verus! {

/// One store operation that changes or may change the store, with the
/// clock reading that it is given.
pub enum Op {
    Create { name: Seq<char>, attr: CreateBucketAttr, now: i64 },
    Update { name: Seq<char>, attr: UpdateBucketAttr, now: i64 },
    Delete { name: Seq<char> },
}

/// The bucket that `op` is about.
pub open spec fn op_name(op: Op) -> Seq<char> {
    match op {
        Op::Create { name, .. } => name,
        Op::Update { name, .. } => name,
        Op::Delete { name } => name,
    }
}

/// `op` takes the store from `old` to `new` and returns `r`.
pub open spec fn op_outcome(
    old: Map<Seq<char>, BucketState>,
    op: Op,
    new: Map<Seq<char>, BucketState>,
    r: Result<StorageBucketAttr, Errors>,
) -> bool {
    match op {
        Op::Create { name, attr, now } => create_outcome(old, name, attr, now, new, r),
        Op::Update { name, attr, now } => update_outcome(old, name, attr, now, new, r),
        Op::Delete { name } => delete_outcome(old, name, new, r),
    }
}

/// `states` runs through the operations `ops`: operation `k` takes the store
/// from `states[k]` to `states[k + 1]` and returns `results[k]`.
pub open spec fn op_run(
    states: Seq<Map<Seq<char>, BucketState>>,
    ops: Seq<Op>,
    results: Seq<Result<StorageBucketAttr, Errors>>,
) -> bool {
    &&& states.len() == ops.len() + 1
    &&& results.len() == ops.len()
    &&& forall|k: int|
        0 <= k < ops.len() ==> op_outcome(states[k], ops[k], states[k + 1], #[trigger] results[k])
}

/// Operation `k` of the run succeeded on the bucket `name`.
pub open spec fn succeeded_on(
    ops: Seq<Op>,
    results: Seq<Result<StorageBucketAttr, Errors>>,
    k: int,
    name: Seq<char>,
) -> bool {
    op_name(ops[k]) == name && results[k] is Ok
}

/// A bucket that is there stays there until a Delete of it succeeds.
proof fn lemma_run_keeps(
    states: Seq<Map<Seq<char>, BucketState>>,
    ops: Seq<Op>,
    results: Seq<Result<StorageBucketAttr, Errors>>,
    name: Seq<char>,
    i: int,
    j: int,
)
    requires
        op_run(states, ops, results),
        0 <= i <= j <= ops.len(),
        states[i].contains_key(name),
        forall|k: int|
            i <= k < j && #[trigger] succeeded_on(ops, results, k, name) ==> !(ops[k] is Delete),
    ensures
        states[j].contains_key(name),
    decreases j - i,
{
    if j > i {
        lemma_run_keeps(states, ops, results, name, i, j - 1);
        let _ = results[j - 1];
        if op_name(ops[j - 1]) == name {
            assert(succeeded_on(ops, results, j - 1, name) ==> !(ops[j - 1] is Delete));
        }
    }
}

/// A bucket that is not there stays away until a Create of it succeeds.
proof fn lemma_run_keeps_away(
    states: Seq<Map<Seq<char>, BucketState>>,
    ops: Seq<Op>,
    results: Seq<Result<StorageBucketAttr, Errors>>,
    name: Seq<char>,
    i: int,
    j: int,
)
    requires
        op_run(states, ops, results),
        0 <= i <= j <= ops.len(),
        !states[i].contains_key(name),
        forall|k: int|
            i <= k < j && #[trigger] succeeded_on(ops, results, k, name) ==> !(ops[k] is Create),
    ensures
        !states[j].contains_key(name),
    decreases j - i,
{
    if j > i {
        lemma_run_keeps_away(states, ops, results, name, i, j - 1);
        let _ = results[j - 1];
        if op_name(ops[j - 1]) == name {
            assert(succeeded_on(ops, results, j - 1, name) ==> !(ops[j - 1] is Create));
        }
    }
}

/// A bucket's record does not change while no operation on it succeeds.
proof fn lemma_run_keeps_record(
    states: Seq<Map<Seq<char>, BucketState>>,
    ops: Seq<Op>,
    results: Seq<Result<StorageBucketAttr, Errors>>,
    name: Seq<char>,
    i: int,
    j: int,
)
    requires
        op_run(states, ops, results),
        0 <= i <= j <= ops.len(),
        states[i].contains_key(name),
        forall|k: int| i <= k < j ==> !#[trigger] succeeded_on(ops, results, k, name),
    ensures
        states[j].contains_key(name),
        states[j][name] == states[i][name],
    decreases j - i,
{
    if j > i {
        lemma_run_keeps_record(states, ops, results, name, i, j - 1);
        let _ = results[j - 1];
        assert(!succeeded_on(ops, results, j - 1, name));
    }
}

/// Uniqueness: in any run of operations, once a Create of a name has
/// succeeded, every later Create of that name fails with AlreadyExists until
/// a Delete of it succeeds. So of Creates of one name with no successful
/// Delete of it among them, at most one succeeds.
pub proof fn lemma_create_unique(
    states: Seq<Map<Seq<char>, BucketState>>,
    ops: Seq<Op>,
    results: Seq<Result<StorageBucketAttr, Errors>>,
    name: Seq<char>,
    i: int,
    j: int,
)
    requires
        op_run(states, ops, results),
        0 <= i < j < ops.len(),
        ops[i] is Create,
        ops[j] is Create,
        succeeded_on(ops, results, i, name),
        op_name(ops[j]) == name,
        forall|k: int|
            i < k < j && #[trigger] succeeded_on(ops, results, k, name) ==> !(ops[k] is Delete),
    ensures
        fails_already_exists(results[j]),
        !(results[j] is Ok),
{
    let _ = results[i];
    let _ = results[j];
    lemma_run_keeps(states, ops, results, name, i + 1, j);
}

/// After a successful Delete, and until a Create of the name succeeds, Get
/// finds nothing under the name, and Update and Delete of it fail with
/// NotFound.
pub proof fn lemma_delete_hides(
    states: Seq<Map<Seq<char>, BucketState>>,
    ops: Seq<Op>,
    results: Seq<Result<StorageBucketAttr, Errors>>,
    name: Seq<char>,
    i: int,
    j: int,
    got: Option<StorageBucketAttr>,
)
    requires
        op_run(states, ops, results),
        0 <= i < j <= ops.len(),
        ops[i] is Delete,
        succeeded_on(ops, results, i, name),
        forall|k: int|
            i < k < j && #[trigger] succeeded_on(ops, results, k, name) ==> !(ops[k] is Create),
        lookup_outcome(states[j], name, got),
    ensures
        !states[j].contains_key(name),
        got is None,
        j < ops.len() && op_name(ops[j]) == name && !(ops[j] is Create) ==> fails_not_found(
            results[j],
        ),
{
    let _ = results[i];
    lemma_run_keeps_away(states, ops, results, name, i + 1, j);
    if j < ops.len() {
        let _ = results[j];
    }
}

/// Creating under one name while nothing else is done to that name, where
/// the name is free at the start: the first Create of it succeeds, every
/// other fails with AlreadyExists, and afterwards the store holds under the
/// name the one record that the first call made. Operations on other names
/// may run in between.
pub proof fn lemma_create_race(
    states: Seq<Map<Seq<char>, BucketState>>,
    ops: Seq<Op>,
    results: Seq<Result<StorageBucketAttr, Errors>>,
    name: Seq<char>,
    first: int,
)
    requires
        op_run(states, ops, results),
        !states[0].contains_key(name),
        0 <= first < ops.len(),
        op_name(ops[first]) == name,
        forall|k: int| 0 <= k < first ==> op_name(#[trigger] ops[k]) != name,
        forall|k: int| 0 <= k < ops.len() && op_name(#[trigger] ops[k]) == name ==> ops[k] is Create,
    ensures
        results[first] is Ok,
        forall|k: int|
            0 <= k < ops.len() && k != first && op_name(ops[k]) == name ==> fails_already_exists(
                #[trigger] results[k],
            ),
        states[ops.len() as int].contains_key(name),
        states[ops.len() as int][name] == results[first]->Ok_0@,
{
    let _ = results[first];
    assert forall|k: int|
        0 <= first && first <= k < ops.len() && #[trigger] succeeded_on(ops, results, k, name)
            implies !(ops[k] is Delete) by {
        assert(ops[k] is Create);
    }
    lemma_run_keeps_away(states, ops, results, name, 0, first);
    assert(ops[first] is Create);
    assert forall|k: int|
        0 <= k < ops.len() && k != first && op_name(ops[k]) == name implies fails_already_exists(
            #[trigger] results[k],
        ) by {
        assert(ops[k] is Create);
        lemma_run_keeps(states, ops, results, name, first + 1, k);
        let _ = results[k];
    }
    assert forall|k: int| first + 1 <= k < ops.len() implies !#[trigger] succeeded_on(
        ops,
        results,
        k,
        name,
    ) by {
        if op_name(ops[k]) == name {
            assert(fails_already_exists(results[k]));
        }
    }
    lemma_run_keeps_record(states, ops, results, name, first + 1, ops.len() as int);
}

/// Round trip: Get right after a successful Create returns what Create
/// returned.
pub proof fn lemma_create_then_get(
    old: Map<Seq<char>, BucketState>,
    name: Seq<char>,
    attr: CreateBucketAttr,
    now: i64,
    new: Map<Seq<char>, BucketState>,
    created: Result<StorageBucketAttr, Errors>,
    got: Option<StorageBucketAttr>,
)
    requires
        create_outcome(old, name, attr, now, new, created),
        created is Ok,
        lookup_outcome(new, name, got),
    ensures
        got matches Some(a) && a@ == created->Ok_0@,
{
}

/// Update merge: updating a bucket that has versioning on with versioning
/// off and the event-based hold set gives exactly that, keeps name,
/// location and creation time, and moves the update time strictly forward
/// (short of the largest `i64`, past which no time can move).
pub proof fn lemma_update_merge(
    old: Map<Seq<char>, BucketState>,
    name: Seq<char>,
    now: i64,
    new: Map<Seq<char>, BucketState>,
    r: Result<StorageBucketAttr, Errors>,
)
    requires
        old.contains_key(name),
        old[name].versioning,
        update_outcome(
            old,
            name,
            UpdateBucketAttr { versioning: Some(false), default_event_based_hold: true },
            now,
            new,
            r,
        ),
        old[name].updated < i64::MAX,
    ensures
        r matches Ok(a) && {
            &&& !a.versioning
            &&& a.default_event_based_hold
            &&& a.name@ == old[name].name
            &&& a.location@ == old[name].location
            &&& a.time_created == old[name].time_created
            &&& a.updated > old[name].updated
        },
        new[name] == r->Ok_0@,
{
}

/// Update and Delete of a name that the store does not hold fail with
/// NotFound and leave the store as it was.
pub proof fn lemma_missing_name(
    old: Map<Seq<char>, BucketState>,
    name: Seq<char>,
    attr: UpdateBucketAttr,
    now: i64,
    after_update: Map<Seq<char>, BucketState>,
    updated: Result<StorageBucketAttr, Errors>,
    after_delete: Map<Seq<char>, BucketState>,
    deleted: Result<StorageBucketAttr, Errors>,
)
    requires
        !old.contains_key(name),
        update_outcome(old, name, attr, now, after_update, updated),
        delete_outcome(old, name, after_delete, deleted),
    ensures
        fails_not_found(updated),
        fails_not_found(deleted),
        after_update == old,
        after_delete == old,
{
}

/// Where a bucket stands after a run that started without it, it holds
/// what the last successful operation on it returned, a Create or an
/// Update.
proof fn lemma_run_last_write(
    states: Seq<Map<Seq<char>, BucketState>>,
    ops: Seq<Op>,
    results: Seq<Result<StorageBucketAttr, Errors>>,
    name: Seq<char>,
    j: int,
) -> (k: int)
    requires
        op_run(states, ops, results),
        0 <= j <= ops.len(),
        !states[0].contains_key(name),
        states[j].contains_key(name),
    ensures
        0 <= k < j,
        succeeded_on(ops, results, k, name),
        results[k]->Ok_0@ == states[j][name],
        forall|l: int| k < l < j ==> !#[trigger] succeeded_on(ops, results, l, name),
    decreases j,
{
    let _ = results[j - 1];
    if succeeded_on(ops, results, j - 1, name) {
        j - 1
    } else {
        assert(states[j - 1].contains_key(name));
        assert(states[j - 1][name] == states[j][name]);
        lemma_run_last_write(states, ops, results, name, j - 1)
    }
}

/// List completeness: in a store that starts empty, after Creates and
/// Updates of two buckets `a` and `b` and nothing else, with a Create of
/// each succeeding, List returns exactly two records, one for each name,
/// each the result of the last successful operation on its name.
pub proof fn lemma_list_two(
    states: Seq<Map<Seq<char>, BucketState>>,
    ops: Seq<Op>,
    results: Seq<Result<StorageBucketAttr, Errors>>,
    a: Seq<char>,
    b: Seq<char>,
    created_a: int,
    created_b: int,
    listed: Seq<StorageBucketAttr>,
)
    requires
        op_run(states, ops, results),
        states[0] == no_buckets(),
        a != b,
        forall|k: int|
            0 <= k < ops.len() ==> !(#[trigger] ops[k] is Delete) && (op_name(ops[k]) == a
                || op_name(ops[k]) == b),
        0 <= created_a < ops.len(),
        succeeded_on(ops, results, created_a, a),
        0 <= created_b < ops.len(),
        succeeded_on(ops, results, created_b, b),
        is_listing(states[ops.len() as int], listed),
    ensures
        listed.len() == 2,
        listed[0].name@ != listed[1].name@,
        listed[0].name@ == a || listed[0].name@ == b,
        listed[1].name@ == a || listed[1].name@ == b,
        forall|i: int|
            0 <= i < 2 ==> exists|k: int|
                0 <= k < ops.len() && succeeded_on(ops, results, k, (#[trigger] listed[i]).name@)
                    && results[k]->Ok_0@ == listed[i]@ && forall|l: int|
                    k < l < ops.len() ==> !#[trigger] succeeded_on(ops, results, l, listed[i].name@),
{
    let n = ops.len() as int;
    let last = states[n];
    assert forall|k: int| 0 <= k < n && #[trigger] succeeded_on(ops, results, k, a) implies !(
    ops[k] is Delete) by {}
    assert forall|k: int| 0 <= k < n && #[trigger] succeeded_on(ops, results, k, b) implies !(
    ops[k] is Delete) by {}
    let _ = results[created_a];
    let _ = results[created_b];
    lemma_run_keeps(states, ops, results, a, created_a + 1, n);
    lemma_run_keeps(states, ops, results, b, created_b + 1, n);
    assert forall|x: Seq<char>| x != a && x != b implies !last.contains_key(x) by {
        assert forall|k: int| 0 <= k < n && #[trigger] succeeded_on(ops, results, k, x) implies !(
        ops[k] is Create) by {}
        lemma_run_keeps_away(states, ops, results, x, 0, n);
    }
    let i = choose|i: int| 0 <= i < listed.len() && #[trigger] listed[i].name@ == a;
    let j = choose|j: int| 0 <= j < listed.len() && #[trigger] listed[j].name@ == b;
    assert(listed.len() == 2) by {
        if listed.len() > 2 {
            assert(last.contains_key(listed[0].name@));
            assert(last.contains_key(listed[1].name@));
            assert(last.contains_key(listed[2].name@));
        }
    }
    assert(last.contains_key(listed[0].name@));
    assert(last.contains_key(listed[1].name@));
    assert forall|i: int| 0 <= i < 2 implies exists|k: int|
        0 <= k < ops.len() && succeeded_on(ops, results, k, (#[trigger] listed[i]).name@)
            && results[k]->Ok_0@ == listed[i]@ && forall|l: int|
            k < l < ops.len() ==> !#[trigger] succeeded_on(ops, results, l, listed[i].name@) by {
        assert(last.contains_key(listed[i].name@));
        let k = lemma_run_last_write(states, ops, results, listed[i].name@, n);
    }
}

} // verus!
