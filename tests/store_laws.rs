use bucket_store::errors::Errors;
use bucket_store::storage::{CreateBucketAttr, Storage, StorageBucketAttr, UpdateBucketAttr};

fn create_attr(versioning: bool, location: &str) -> CreateBucketAttr {
    CreateBucketAttr {
        versioning,
        default_event_based_hold: false,
        location: location.to_string(),
    }
}

fn sorted_list(storage: &Storage) -> Vec<StorageBucketAttr> {
    let mut all = storage.list();
    all.sort_by(|a, b| a.name.cmp(&b.name));
    all
}

#[test]
fn create_records_the_given_time_twice() {
    let mut storage = Storage::new();
    let res = storage.create_at("bucket-1", create_attr(true, "EU"), 1234).unwrap();
    assert_eq!(
        res,
        StorageBucketAttr {
            name: "bucket-1".to_string(),
            versioning: true,
            default_event_based_hold: false,
            location: "EU".to_string(),
            time_created: 1234,
            updated: 1234,
        }
    );
}

#[test]
fn create_reads_the_clock() {
    let mut storage = Storage::new();
    let res = storage.create("bucket-1", create_attr(false, "US")).unwrap();
    assert_eq!(res.time_created, res.updated);
    assert!(res.time_created > 0);
}

#[test]
fn only_first_create_of_a_name_succeeds() {
    let mut storage = Storage::new();
    assert!(storage.create("a1", create_attr(true, "US")).is_ok());
    assert!(storage.create("b1", create_attr(true, "US")).is_ok());
    for _ in 0..3 {
        let res = storage.create("a1", create_attr(false, "EU"));
        assert!(matches!(res, Err(Errors::AlreadyExists { .. })));
    }
    let kept = storage.get("a1").unwrap();
    assert!(kept.versioning);
    assert_eq!(kept.location, "US");
}

#[test]
fn create_then_get_round_trip() {
    let mut storage = Storage::new();
    let created = storage.create("round-trip", create_attr(true, "ASIA")).unwrap();
    assert_eq!(storage.get("round-trip"), Some(created));
}

#[test]
fn update_merges_and_advances_the_update_time() {
    let mut storage = Storage::new();
    let created = storage.create_at("merge", create_attr(true, "US-EAST1"), 100).unwrap();
    let res = storage
        .update_at(
            "merge",
            UpdateBucketAttr {
                versioning: Some(false),
                default_event_based_hold: true,
            },
            250,
        )
        .unwrap();
    assert!(!res.versioning);
    assert!(res.default_event_based_hold);
    assert_eq!(res.name, created.name);
    assert_eq!(res.location, created.location);
    assert_eq!(res.time_created, 100);
    assert_eq!(res.updated, 250);
    assert!(res.updated > created.updated);
    assert_eq!(storage.get("merge"), Some(res));
}

#[test]
fn update_with_clock_update() {
    let mut storage = Storage::new();
    let created = storage.create("merge", create_attr(true, "US-EAST1")).unwrap();
    let res = storage
        .update(
            "merge",
            UpdateBucketAttr {
                versioning: Some(false),
                default_event_based_hold: true,
            },
        )
        .unwrap();
    assert!(res.updated >= created.updated);
    assert_eq!(res.time_created, created.time_created);
}

#[test]
fn update_keeps_versioning_when_not_given() {
    let mut storage = Storage::new();
    storage.create_at("keep", create_attr(true, "US"), 10).unwrap();
    let res = storage
        .update_at(
            "keep",
            UpdateBucketAttr {
                versioning: None,
                default_event_based_hold: false,
            },
            20,
        )
        .unwrap();
    assert!(res.versioning);
    assert!(!res.default_event_based_hold);
}

#[test]
fn update_time_moves_forward_when_the_clock_goes_back() {
    let mut storage = Storage::new();
    storage.create_at("late", create_attr(false, "US"), 500).unwrap();
    let res = storage
        .update_at(
            "late",
            UpdateBucketAttr {
                versioning: Some(true),
                default_event_based_hold: true,
            },
            400,
        )
        .unwrap();
    assert_eq!(res.updated, 501);
    assert_eq!(res.time_created, 500);
    assert!(res.versioning);
}

#[test]
fn update_time_moves_forward_when_the_clock_stands_still() {
    let mut storage = Storage::new();
    storage.create_at("still", create_attr(true, "US"), 70).unwrap();
    let first = storage
        .update_at(
            "still",
            UpdateBucketAttr {
                versioning: Some(false),
                default_event_based_hold: true,
            },
            70,
        )
        .unwrap();
    assert_eq!(first.updated, 71);
    let second = storage
        .update_at(
            "still",
            UpdateBucketAttr {
                versioning: None,
                default_event_based_hold: false,
            },
            71,
        )
        .unwrap();
    assert_eq!(second.updated, 72);
    assert_eq!(second.time_created, 70);
}

#[test]
fn update_time_stays_at_the_largest_time() {
    let mut storage = Storage::new();
    storage.create_at("end", create_attr(true, "US"), i64::MAX).unwrap();
    let res = storage
        .update_at(
            "end",
            UpdateBucketAttr {
                versioning: None,
                default_event_based_hold: true,
            },
            0,
        )
        .unwrap();
    assert_eq!(res.updated, i64::MAX);
}

#[test]
fn deleted_name_stays_hidden_while_other_buckets_change() {
    let mut storage = Storage::new();
    storage.create_at("kept", create_attr(true, "US"), 1).unwrap();
    storage.create_at("gone", create_attr(true, "US"), 2).unwrap();
    storage.delete("gone").unwrap();
    storage.create_at("other", create_attr(false, "EU"), 3).unwrap();
    storage
        .update_at(
            "kept",
            UpdateBucketAttr {
                versioning: Some(false),
                default_event_based_hold: true,
            },
            4,
        )
        .unwrap();
    storage.delete("other").unwrap();
    assert_eq!(storage.get("gone"), None);
    assert!(matches!(
        storage.update_at(
            "gone",
            UpdateBucketAttr {
                versioning: None,
                default_event_based_hold: true,
            },
            5,
        ),
        Err(Errors::BucketNotFound { .. })
    ));
    assert!(matches!(storage.delete("gone"), Err(Errors::BucketNotFound { .. })));
    assert!(storage.create_at("gone", create_attr(false, "US"), 6).is_ok());
}

#[test]
fn one_create_wins_with_other_names_in_between() {
    let mut storage = Storage::new();
    let mut winner = None;
    let mut conflicts = 0;
    for i in 0..6i64 {
        let other = format!("side-{}", i);
        storage.create_at(&other, create_attr(false, "EU"), 10 * i).unwrap();
        match storage.create_at("prize", create_attr(i == 0, "US"), 10 * i + 1) {
            Ok(a) => {
                assert!(winner.is_none());
                winner = Some(a);
            }
            Err(Errors::AlreadyExists { .. }) => conflicts += 1,
            Err(other) => panic!("unexpected {:?}", other),
        }
        storage.delete(&other).unwrap();
    }
    assert_eq!(conflicts, 5);
    let winner = winner.unwrap();
    assert_eq!(winner.time_created, 1);
    assert_eq!(storage.get("prize"), Some(winner.clone()));
    assert_eq!(storage.list(), vec![winner]);
}

#[test]
fn delete_returns_the_record_and_hides_it() {
    let mut storage = Storage::new();
    let created = storage.create_at("gone", create_attr(true, "US"), 7).unwrap();
    let deleted = storage.delete("gone").unwrap();
    assert_eq!(deleted, created);
    assert_eq!(storage.get("gone"), None);
    let res = storage.update(
        "gone",
        UpdateBucketAttr {
            versioning: None,
            default_event_based_hold: true,
        },
    );
    assert!(matches!(res, Err(Errors::BucketNotFound { .. })));
    assert!(matches!(storage.delete("gone"), Err(Errors::BucketNotFound { .. })));
    assert!(storage.list().is_empty());
}

#[test]
fn list_after_creating_a_and_b() {
    let mut storage = Storage::new();
    let a = storage.create("a", create_attr(true, "US")).unwrap();
    let b = storage.create("b", create_attr(false, "EU")).unwrap();
    assert_eq!(sorted_list(&storage), vec![a, b]);
}

#[test]
fn list_shows_the_latest_state() {
    let mut storage = Storage::new();
    storage.create_at("a", create_attr(true, "US"), 1).unwrap();
    storage.create_at("b", create_attr(false, "EU"), 2).unwrap();
    let b = storage
        .update_at(
            "b",
            UpdateBucketAttr {
                versioning: Some(true),
                default_event_based_hold: true,
            },
            3,
        )
        .unwrap();
    let listed = sorted_list(&storage);
    assert_eq!(listed.len(), 2);
    assert_eq!(listed[1], b);
    assert_eq!(listed[0].time_created, 1);
}

#[test]
fn list_of_empty_store_is_empty() {
    assert!(Storage::new().list().is_empty());
    assert!(Storage::default().list().is_empty());
}

#[test]
fn missing_name_paths_change_nothing() {
    let mut storage = Storage::new();
    storage.create_at("present", create_attr(true, "US"), 5).unwrap();
    let before = sorted_list(&storage);
    let res = storage.update(
        "missing",
        UpdateBucketAttr {
            versioning: Some(false),
            default_event_based_hold: true,
        },
    );
    match res {
        Err(Errors::BucketNotFound { message }) => assert_eq!(message, "Bucket not found"),
        other => panic!("unexpected {:?}", other),
    }
    let res = storage.delete("missing");
    assert!(matches!(res, Err(Errors::BucketNotFound { .. })));
    assert_eq!(sorted_list(&storage), before);
}

#[test]
fn repeated_create_of_one_name_has_one_winner() {
    let mut storage = Storage::new();
    let mut wins = 0;
    let mut conflicts = 0;
    for i in 0..8 {
        match storage.create("contested", create_attr(i % 2 == 0, "US")) {
            Ok(_) => wins += 1,
            Err(Errors::AlreadyExists { message }) => {
                assert_eq!(message, "Bucket already exists");
                conflicts += 1;
            }
            Err(other) => panic!("unexpected {:?}", other),
        }
    }
    assert_eq!(wins, 1);
    assert_eq!(conflicts, 7);
    let listed = storage.list();
    assert_eq!(listed.len(), 1);
    assert!(listed[0].versioning);
}

#[test]
fn write_failure_names_the_bucket() {
    match Errors::write_failure("x1") {
        Errors::FailedToWriteStorage { id, message } => {
            assert_eq!(id, "x1");
            assert_eq!(message, "Failed to create a new bucket");
        }
        other => panic!("unexpected {:?}", other),
    }
}

#[test]
fn list_is_in_name_order() {
    let mut storage = Storage::new();
    for (t, name) in ["b2", "a10", "c3", "a1", "B9"].iter().enumerate() {
        storage.create_at(name, create_attr(false, "US"), t as i64).unwrap();
    }
    let names: Vec<String> = storage.list().into_iter().map(|a| a.name).collect();
    assert_eq!(names, vec!["B9", "a1", "a10", "b2", "c3"]);
}
